use mirror_server::batcher::{unbatch, var_uint_size, Batcher};
use mirror_server::delta::{compress_delta, compress_var_int, decompress_delta, decompress_var_int, Vector3Long};
use mirror_server::reader::{DecodeError, NetworkReader};
use mirror_server::writer::NetworkWriter;

fn round_trip(baseline: Vector3Long, current: Vector3Long) -> Vector3Long {
    let mut w = NetworkWriter::new();
    compress_delta(&mut w, baseline, current);
    let mut r = NetworkReader::new(w.to_bytes());
    let out = decompress_delta(&mut r, baseline).unwrap();
    assert_eq!(r.remaining(), 0);
    out
}

#[test]
fn delta_round_trip_representative_pairs() {
    let pairs = [
        (Vector3Long { x: 0, y: 0, z: 0 }, Vector3Long { x: 5, y: -5, z: 0 }),
        (Vector3Long { x: 100, y: 200, z: 300 }, Vector3Long { x: 100, y: 200, z: 300 }),
        (Vector3Long { x: 1000, y: -1000, z: 7 }, Vector3Long { x: -1000, y: 1000, z: -7 }),
        (Vector3Long { x: i64::MAX, y: i64::MIN, z: 0 }, Vector3Long { x: i64::MIN, y: i64::MAX, z: -1 }),
    ];
    for (b, c) in pairs {
        assert_eq!(round_trip(b, c), c);
    }
}

#[test]
fn zero_delta_takes_one_byte_per_component() {
    let b = Vector3Long { x: 42, y: -42, z: 9 };
    let mut w = NetworkWriter::new();
    compress_delta(&mut w, b, b);
    assert_eq!(w.to_bytes(), vec![0, 0, 0]);
}

#[test]
fn zigzag_maps_small_magnitudes_to_small_codes() {
    let mut w = NetworkWriter::new();
    compress_var_int(&mut w, 0);
    compress_var_int(&mut w, -1);
    compress_var_int(&mut w, 1);
    compress_var_int(&mut w, -2);
    compress_var_int(&mut w, 120);
    assert_eq!(w.to_bytes(), vec![0, 1, 2, 3, 240]);
    let mut r = NetworkReader::new(w.to_bytes());
    for v in [0i64, -1, 1, -2, 120] {
        assert_eq!(decompress_var_int(&mut r), Ok(v));
    }
}

fn frame_messages(frame: &[u8]) -> Vec<Vec<u8>> {
    let mut r = NetworkReader::new(frame.to_vec());
    r.read_ulong().unwrap();
    let mut out = Vec::new();
    while r.remaining() > 0 {
        let n = r.decompress_var_uint().unwrap() as usize;
        out.push(r.read_bytes(n).unwrap());
    }
    out
}

#[test]
fn batches_stay_within_threshold() {
    let threshold = 20;
    let mut b = Batcher::new(threshold);
    let msgs: Vec<Vec<u8>> = (0..12u8).map(|i| vec![i; (i as usize % 7) + 1]).collect();
    for m in &msgs {
        b.add_message(m, 77);
    }
    let mut got: Vec<Vec<u8>> = Vec::new();
    while let Some(frame) = b.get_batch() {
        assert_eq!(&frame[0..8], &77u64.to_le_bytes());
        assert!(frame.len() - 8 <= threshold);
        let inner = frame_messages(&frame);
        assert!(!inner.is_empty());
        got.extend(inner);
    }
    assert_eq!(got, msgs);
    assert_eq!(b.get_batch(), None);
}

#[test]
fn oversized_message_gets_its_own_frame() {
    let mut b = Batcher::new(10);
    b.add_message(&[1, 2], 1);
    b.add_message(&[9; 30], 2);
    b.add_message(&[3], 3);
    b.flush();
    let f1 = b.get_batch().unwrap();
    let f2 = b.get_batch().unwrap();
    let f3 = b.get_batch().unwrap();
    assert_eq!(frame_messages(&f1), vec![vec![1, 2]]);
    assert_eq!(frame_messages(&f2), vec![vec![9; 30]]);
    assert_eq!(&f2[0..8], &2u64.to_le_bytes());
    assert_eq!(f2.len(), 8 + 1 + 30);
    assert_eq!(frame_messages(&f3), vec![vec![3]]);
    assert_eq!(b.get_batch(), None);
}

#[test]
fn frame_layout_is_timestamp_then_length_prefixed_messages() {
    let mut b = Batcher::new(100);
    b.add_message(&[0xAA, 0xBB], 0x0102030405060708);
    b.add_message(&[0xCC], 0);
    let f = b.get_batch().unwrap();
    assert_eq!(f, vec![8, 7, 6, 5, 4, 3, 2, 1, 2, 0xAA, 0xBB, 1, 0xCC]);
    assert_eq!(var_uint_size(240), 1);
    assert_eq!(var_uint_size(241), 2);
    assert_eq!(var_uint_size(u64::MAX), 9);
}

#[test]
fn unbatch_reads_back_what_the_batcher_wrote() {
    let mut b = Batcher::new(64);
    let msgs: Vec<Vec<u8>> = vec![vec![1], vec![], vec![2; 30], vec![3, 4]];
    for m in &msgs {
        b.add_message(m, 0xABCD);
    }
    let frame = b.get_batch().unwrap();
    assert_eq!(unbatch(frame), Ok((0xABCD, msgs)));
    assert_eq!(unbatch(vec![1, 2, 3]), Err(DecodeError::EndOfData));
    assert_eq!(unbatch(vec![0, 0, 0, 0, 0, 0, 0, 0, 5, 1, 2]), Err(DecodeError::EndOfData));
    assert_eq!(unbatch(vec![0; 8]), Ok((0, vec![])));
}
