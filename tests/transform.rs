use mirror_server::delta::Vector3Long;
use mirror_server::reader::{DecodeError, NetworkReader};
use mirror_server::transform::{
    NetworkTransformReliable, ReceivedTransform, RotationData, TransformSample, TransformSyncSettings, VectorData,
};
use mirror_server::writer::{NetworkWriter, Vector3Bits, Vector4Bits};

fn sample(px: i64, sx: i64) -> TransformSample {
    TransformSample {
        position: Vector3Bits { x: 1.0f32.to_bits(), y: 2.0f32.to_bits(), z: 3.0f32.to_bits() },
        rotation: Vector4Bits { x: 0, y: 0, z: 0, w: 1.0f32.to_bits() },
        scale: Vector3Bits { x: 1.0f32.to_bits(), y: 1.0f32.to_bits(), z: 1.0f32.to_bits() },
        position_quantized: Vector3Long { x: px, y: -px, z: 0 },
        scale_quantized: Vector3Long { x: sx, y: sx, z: sx },
        rotation_compressed: 0xC000_0000,
    }
}

fn settings(compress_rotation: bool) -> TransformSyncSettings {
    TransformSyncSettings { sync_position: true, sync_rotation: true, sync_scale: true, compress_rotation }
}

#[test]
fn transform_delta_round_trip_keeps_baselines_in_step() {
    let mut sender = NetworkTransformReliable::new(settings(true));
    let mut receiver = NetworkTransformReliable::new(settings(true));
    for (px, sx) in [(100, 10), (95, 10), (-40, 12)] {
        let s = sample(px, sx);
        let mut w = NetworkWriter::new();
        sender.on_serialize(&mut w, &s, false);
        let mut r = NetworkReader::new(w.to_bytes());
        let got = receiver.on_deserialize(&mut r, false).unwrap();
        assert_eq!(
            got,
            ReceivedTransform {
                position: Some(VectorData::Quantized(s.position_quantized)),
                rotation: Some(RotationData::Compressed(0xC000_0000)),
                scale: Some(VectorData::Quantized(s.scale_quantized)),
            }
        );
        assert_eq!(r.remaining(), 0);
        assert_eq!(receiver.last_deserialized_position, sender.last_serialized_position);
    }
}

#[test]
fn unchanged_transform_sends_small_deltas() {
    let mut sender = NetworkTransformReliable::new(settings(true));
    let s = sample(7, 1);
    let mut first = NetworkWriter::new();
    sender.on_serialize(&mut first, &s, false);
    let mut second = NetworkWriter::new();
    sender.on_serialize(&mut second, &s, false);
    assert_eq!(second.to_bytes(), vec![0, 0, 0, 0, 0, 0, 0xC0, 0, 0, 0]);
}

#[test]
fn initial_transform_sends_raw_floats() {
    let mut sender = NetworkTransformReliable::new(settings(false));
    let s = sample(1, 1);
    let mut w = NetworkWriter::new();
    sender.on_serialize(&mut w, &s, true);
    let bytes = w.to_bytes();
    assert_eq!(bytes.len(), 12 + 16 + 12);
    assert_eq!(sender.last_serialized_position, Vector3Long { x: 0, y: 0, z: 0 });
    let mut receiver = NetworkTransformReliable::new(settings(false));
    let mut r = NetworkReader::new(bytes);
    let got = receiver.on_deserialize(&mut r, true).unwrap();
    assert_eq!(got.position, Some(VectorData::Raw(s.position)));
    assert_eq!(got.rotation, Some(RotationData::Full(s.rotation)));
    let mut short = NetworkReader::new(vec![1, 2, 3]);
    assert_eq!(receiver.on_deserialize(&mut short, true), Err(DecodeError::EndOfData));
}
