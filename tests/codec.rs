use mirror_server::reader::{DecodeError, NetworkReader};
use mirror_server::stable_hash::get_stable_hash_code16;
use mirror_server::writer::{NetworkWriter, Vector2Bits, Vector3Bits, Vector4Bits};

fn encode(v: u64) -> Vec<u8> {
    let mut w = NetworkWriter::new();
    w.compress_var_uint(v);
    w.to_bytes()
}

fn decode(bytes: Vec<u8>) -> Result<u64, DecodeError> {
    let mut r = NetworkReader::new(bytes);
    r.decompress_var_uint()
}

#[test]
fn varint_tier_boundaries() {
    let cases: Vec<(u64, Vec<u8>)> = vec![
        (0, vec![0]),
        (240, vec![240]),
        (241, vec![241, 1]),
        (2287, vec![248, 255]),
        (2288, vec![249, 0, 0]),
        (67823, vec![249, 255, 255]),
        (67824, vec![250, 0xF0, 0x08, 0x01]),
        (16777215, vec![250, 255, 255, 255]),
        (16777216, vec![251, 0, 0, 0, 1]),
        (4294967295, vec![251, 255, 255, 255, 255]),
        (4294967296, vec![252, 0, 0, 0, 0, 1]),
        (1099511627775, vec![252, 255, 255, 255, 255, 255]),
        (1099511627776, vec![253, 0, 0, 0, 0, 0, 1]),
        (281474976710655, vec![253, 255, 255, 255, 255, 255, 255]),
        (281474976710656, vec![254, 0, 0, 0, 0, 0, 0, 1]),
        (72057594037927935, vec![254, 255, 255, 255, 255, 255, 255, 255]),
        (72057594037927936, vec![255, 0, 0, 0, 0, 0, 0, 0, 1]),
        (u64::MAX, vec![255, 255, 255, 255, 255, 255, 255, 255, 255]),
    ];
    for (v, bytes) in cases {
        assert_eq!(encode(v), bytes, "encoding of {}", v);
        assert_eq!(decode(bytes), Ok(v));
    }
}

#[test]
fn varint_round_trip_many_values() {
    let mut v: u64 = 1;
    while v < u64::MAX / 3 {
        for x in [v - 1, v, v + 1, v * 2 + 7] {
            assert_eq!(decode(encode(x)), Ok(x));
        }
        v = v * 3;
    }
}

#[test]
fn varint_truncated_is_end_of_data() {
    assert_eq!(decode(vec![]), Err(DecodeError::EndOfData));
    assert_eq!(decode(vec![241]), Err(DecodeError::EndOfData));
    assert_eq!(decode(vec![249, 1]), Err(DecodeError::EndOfData));
    assert_eq!(decode(vec![255, 1, 2, 3, 4, 5, 6, 7]), Err(DecodeError::EndOfData));
}

#[test]
fn fixed_width_little_endian() {
    let mut w = NetworkWriter::new();
    w.write_ushort(0x1234);
    w.write_uint(0xA1B2C3D4);
    w.write_ulong(0x0102030405060708);
    w.write_bool(true);
    w.write_short(-2);
    w.write_int(-1);
    w.write_long(-3);
    w.write_sbyte(-4);
    let bytes = w.to_bytes();
    assert_eq!(&bytes[0..2], &[0x34, 0x12]);
    assert_eq!(&bytes[2..6], &[0xD4, 0xC3, 0xB2, 0xA1]);
    assert_eq!(&bytes[6..14], &[8, 7, 6, 5, 4, 3, 2, 1]);
    let mut r = NetworkReader::new(bytes);
    assert_eq!(r.read_ushort(), Ok(0x1234));
    assert_eq!(r.read_uint(), Ok(0xA1B2C3D4));
    assert_eq!(r.read_ulong(), Ok(0x0102030405060708));
    assert_eq!(r.read_bool(), Ok(true));
    assert_eq!(r.read_short(), Ok(-2));
    assert_eq!(r.read_int(), Ok(-1));
    assert_eq!(r.read_long(), Ok(-3));
    assert_eq!(r.read_sbyte(), Ok(-4));
    assert_eq!(r.read_byte(), Err(DecodeError::EndOfData));
    assert_eq!(r.remaining(), 0);
}

#[test]
fn reading_past_the_end_fails_and_stays() {
    let mut r = NetworkReader::new(vec![1, 2, 3]);
    assert_eq!(r.read_uint(), Err(DecodeError::EndOfData));
    assert_eq!(r.position(), 0);
    assert_eq!(r.read_ushort(), Ok(0x0201));
    assert_eq!(r.read_ushort(), Err(DecodeError::EndOfData));
    assert_eq!(r.position(), 2);
}

#[test]
fn floats_travel_as_bit_patterns() {
    let mut w = NetworkWriter::new();
    let v = Vector3Bits { x: 1.5f32.to_bits(), y: (-2.0f32).to_bits(), z: 0.0f32.to_bits() };
    let q = Vector4Bits { x: 0, y: 0, z: 0, w: 1.0f32.to_bits() };
    w.write_vector3(v);
    w.write_quaternion(q);
    w.write_double_bits(0.25f64.to_bits());
    let bytes = w.to_bytes();
    assert_eq!(bytes.len(), 12 + 16 + 8);
    assert_eq!(&bytes[0..4], &1.5f32.to_le_bytes());
    let mut r = NetworkReader::new(bytes);
    assert_eq!(r.read_vector3(), Ok(v));
    assert_eq!(r.read_quaternion(), Ok(q));
    assert_eq!(f64::from_bits(r.read_double_bits().unwrap()), 0.25);
}

#[test]
fn nullable_values_carry_a_presence_flag() {
    let mut w = NetworkWriter::new();
    w.write_uint_nullable(None);
    w.write_uint_nullable(Some(7));
    w.write_bool_nullable(Some(false));
    assert_eq!(w.to_bytes(), vec![0, 1, 7, 0, 0, 0, 1, 0]);
}

#[test]
fn strings_round_trip_with_varint_length() {
    let mut w = NetworkWriter::new();
    w.write_string("héllo");
    let bytes = w.to_bytes();
    assert_eq!(bytes[0], 6);
    assert_eq!(&bytes[1..], "héllo".as_bytes());
    let mut r = NetworkReader::new(bytes);
    assert_eq!(r.read_string(), Ok("héllo".to_string()));
}

#[test]
fn invalid_utf8_is_out_of_range() {
    let mut r = NetworkReader::new(vec![2, 0xC3, 0x28]);
    assert_eq!(r.read_string(), Err(DecodeError::OutOfRange));
    assert_eq!(r.position(), 0);
    let mut short = NetworkReader::new(vec![5, b'a']);
    assert_eq!(short.read_string(), Err(DecodeError::EndOfData));
}

#[test]
fn byte_blobs_mark_absence_with_zero() {
    let mut w = NetworkWriter::new();
    w.write_bytes_and_size(None);
    w.write_bytes_and_size(Some(&[9, 8, 7]));
    w.write_bytes_and_size(Some(&[]));
    let bytes = w.to_bytes();
    assert_eq!(bytes, vec![0, 4, 9, 8, 7, 1]);
    let mut r = NetworkReader::new(bytes);
    assert_eq!(r.read_bytes_and_size(), Ok(None));
    assert_eq!(r.read_bytes_and_size(), Ok(Some(vec![9, 8, 7])));
    assert_eq!(r.read_bytes_and_size(), Ok(Some(vec![])));
    let mut short = NetworkReader::new(vec![4, 1]);
    assert_eq!(short.read_bytes_and_size(), Err(DecodeError::EndOfData));
}

#[test]
fn stable_hashes_of_message_names() {
    assert_eq!(get_stable_hash_code16("Mirror.TimeSnapshotMessage"), 57097);
    assert_eq!(get_stable_hash_code16("Mirror.ReadyMessage"), 43708);
    assert_eq!(get_stable_hash_code16("Mirror.NotReadyMessage"), 43378);
    assert_eq!(get_stable_hash_code16("Mirror.AddPlayerMessage"), 49414);
    assert_eq!(get_stable_hash_code16("Mirror.SceneMessage"), 3552);
    assert_eq!(get_stable_hash_code16("Mirror.CommandMessage"), 39124);
    assert_eq!(get_stable_hash_code16("Mirror.RpcMessage"), 40238);
    assert_eq!(get_stable_hash_code16("Mirror.ObjectSpawnFinishedMessage"), 43444);
    assert_eq!(get_stable_hash_code16("Mirror.NetworkPingMessage"), 17487);
    assert_eq!(get_stable_hash_code16("Mirror.NetworkPongMessage"), 27095);
}

#[test]
fn nullable_vectors_carry_a_presence_flag() {
    let mut w = NetworkWriter::new();
    w.write_vector2_nullable(None);
    w.write_vector2_nullable(Some(Vector2Bits { x: 1, y: 2 }));
    w.write_vector4_nullable(Some(Vector4Bits { x: 3, y: 0, z: 0, w: 0 }));
    w.write_vector3_nullable(None);
    let bytes = w.to_bytes();
    assert_eq!(bytes.len(), 1 + 9 + 17 + 1);
    assert_eq!(&bytes[0..4], &[0, 1, 1, 0]);
    assert_eq!(bytes[10], 1);
    assert_eq!(bytes[11], 3);
    assert_eq!(bytes[27], 0);
}
