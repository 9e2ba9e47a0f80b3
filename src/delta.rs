//! Delta compression of quantized vectors: each component travels as the
//! zig-zag varint of its difference from a baseline that both sides keep.
use crate::reader::{lemma_rest_advance, DecodeError, NetworkReader};
use crate::varint::{decode_var_uint, encode_var_uint, lemma_var_uint_round_trip};
use crate::writer::NetworkWriter;
use vstd::prelude::*;
use vstd::wrapping::i64_specs;

verus! {

/// Three fixed-point components, as produced by quantizing a float vector.
#[derive(Debug, Clone, Copy, PartialEq, Eq, Structural)]
pub struct Vector3Long {
    pub x: i64,
    pub y: i64,
    pub z: i64,
}

/// Zig-zag: 0, -1, 1, -2, 2, ... map to 0, 1, 2, 3, 4, ...
pub open spec fn zigzag(v: i64) -> u64 {
    if v >= 0 {
        (2 * v) as u64
    } else {
        (-2 * v - 1) as u64
    }
}

pub open spec fn unzigzag(u: u64) -> i64 {
    if u % 2 == 0 {
        (u / 2) as i64
    } else {
        (-((u / 2) as int) - 1) as i64
    }
}

pub proof fn lemma_zigzag_inverse(v: i64)
    ensures
        unzigzag(zigzag(v)) == v,
{
}

pub open spec fn encode_var_int(v: i64) -> Seq<u8> {
    encode_var_uint(zigzag(v))
}

/// The component-wise difference `current - baseline`, wrapping as 64-bit
/// integers do.
pub open spec fn delta_of(baseline: Vector3Long, current: Vector3Long) -> (i64, i64, i64) {
    (
        i64_specs::wrapping_sub(current.x, baseline.x),
        i64_specs::wrapping_sub(current.y, baseline.y),
        i64_specs::wrapping_sub(current.z, baseline.z),
    )
}

pub open spec fn delta_bytes(baseline: Vector3Long, current: Vector3Long) -> Seq<u8> {
    let d = delta_of(baseline, current);
    encode_var_int(d.0) + encode_var_int(d.1) + encode_var_int(d.2)
}

pub open spec fn apply_delta(baseline: i64, d: i64) -> i64 {
    i64_specs::wrapping_add(baseline, d)
}

/// Appends a signed integer as the varint of its zig-zag form.
pub fn compress_var_int(writer: &mut NetworkWriter, value: i64)
    ensures
        final(writer)@ == old(writer)@ + encode_var_int(value),
{
    let z: u64 = if value >= 0 {
        value as u64 * 2
    } else {
        (-(value + 1)) as u64 * 2 + 1
    };
    writer.compress_var_uint(z);
}

/// Reads a signed integer written by `compress_var_int`.
pub fn decompress_var_int(reader: &mut NetworkReader) -> (r: Result<i64, DecodeError>)
    requires
        old(reader).wf(),
    ensures
        final(reader).wf(),
        final(reader).bytes() == old(reader).bytes(),
        match decode_var_uint(old(reader).rest()) {
            None => r == Err::<i64, DecodeError>(DecodeError::EndOfData) && final(reader).pos() == old(reader).pos(),
            Some((u, k)) => r == Ok::<i64, DecodeError>(unzigzag(u)) && final(reader).pos() == old(reader).pos() + k,
        },
{
    match reader.decompress_var_uint() {
        Ok(u) => {
            if u % 2 == 0 {
                Ok((u / 2) as i64)
            } else {
                Ok(-((u / 2) as i64) - 1)
            }
        },
        Err(e) => Err(e),
    }
}

/// Appends `current - baseline`, component by component.
pub fn compress_delta(writer: &mut NetworkWriter, baseline: Vector3Long, current: Vector3Long)
    ensures
        final(writer)@ == old(writer)@ + delta_bytes(baseline, current),
{
    compress_var_int(writer, current.x.wrapping_sub(baseline.x));
    compress_var_int(writer, current.y.wrapping_sub(baseline.y));
    compress_var_int(writer, current.z.wrapping_sub(baseline.z));
    assert(writer@ =~= old(writer)@ + delta_bytes(baseline, current));
}

/// Reads one zig-zag varint from the front of `s`.
pub open spec fn parse_var_int(s: Seq<u8>) -> Option<(i64, nat)> {
    match decode_var_uint(s) {
        None => None,
        Some((u, k)) => Some((unzigzag(u), k)),
    }
}

/// Reads three deltas from the front of `s` and applies them to `baseline`:
/// the vector and the number of bytes taken.
#[verifier::opaque]
pub open spec fn parse_delta(s: Seq<u8>, baseline: Vector3Long) -> Option<(Vector3Long, nat)> {
    match parse_var_int(s) {
        None => None,
        Some((dx, k1)) => {
            let s1 = s.subrange(k1 as int, s.len() as int);
            match parse_var_int(s1) {
                None => None,
                Some((dy, k2)) => {
                    let s2 = s1.subrange(k2 as int, s1.len() as int);
                    match parse_var_int(s2) {
                        None => None,
                        Some((dz, k3)) => Some((
                            Vector3Long {
                                x: apply_delta(baseline.x, dx),
                                y: apply_delta(baseline.y, dy),
                                z: apply_delta(baseline.z, dz),
                            },
                            k1 + k2 + k3,
                        )),
                    }
                },
            }
        },
    }
}

proof fn lemma_var_int_round_trip(v: i64, rest: Seq<u8>)
    ensures
        parse_var_int(encode_var_int(v) + rest) == Some((v, encode_var_int(v).len())),
{
    lemma_var_uint_round_trip(zigzag(v), rest);
    lemma_zigzag_inverse(v);
}

proof fn lemma_wrapping_inverse(b: i64, c: i64)
    ensures
        apply_delta(b, i64_specs::wrapping_sub(c, b)) == c,
{
}

/// Decompressing what `compress_delta` wrote against the same baseline gives
/// the current vector back, whatever follows it.
pub proof fn lemma_delta_round_trip(baseline: Vector3Long, current: Vector3Long, rest: Seq<u8>)
    ensures
        parse_delta(delta_bytes(baseline, current) + rest, baseline)
            == Some((current, delta_bytes(baseline, current).len())),
{
    reveal(parse_delta);
    let d = delta_of(baseline, current);
    let ex = encode_var_int(d.0);
    let ey = encode_var_int(d.1);
    let ez = encode_var_int(d.2);
    let s = delta_bytes(baseline, current) + rest;
    assert(s =~= ex + (ey + ez + rest));
    lemma_var_int_round_trip(d.0, ey + ez + rest);
    let s1 = s.subrange(ex.len() as int, s.len() as int);
    assert(s1 =~= ey + (ez + rest));
    lemma_var_int_round_trip(d.1, ez + rest);
    let s2 = s1.subrange(ey.len() as int, s1.len() as int);
    assert(s2 =~= ez + rest);
    lemma_var_int_round_trip(d.2, rest);
    lemma_wrapping_inverse(baseline.x, current.x);
    lemma_wrapping_inverse(baseline.y, current.y);
    lemma_wrapping_inverse(baseline.z, current.z);
}

/// Reads three deltas and adds them to `baseline`.
pub fn decompress_delta(reader: &mut NetworkReader, baseline: Vector3Long) -> (r: Result<Vector3Long, DecodeError>)
    requires
        old(reader).wf(),
    ensures
        final(reader).wf(),
        final(reader).bytes() == old(reader).bytes(),
        match parse_delta(old(reader).rest(), baseline) {
            None => r is Err,
            Some((v, k)) => r == Ok::<Vector3Long, DecodeError>(v) && final(reader).pos() == old(reader).pos() + k,
        },
{
    proof { reveal(parse_delta); }
    let dx = match decompress_var_int(reader) {
        Ok(d) => d,
        Err(e) => return Err(e),
    };
    proof { lemma_rest_advance(old(reader), reader); }
    let ghost r1 = *reader;
    let dy = match decompress_var_int(reader) {
        Ok(d) => d,
        Err(e) => return Err(e),
    };
    proof { lemma_rest_advance(&r1, reader); }
    let dz = match decompress_var_int(reader) {
        Ok(d) => d,
        Err(e) => return Err(e),
    };
    Ok(Vector3Long { x: baseline.x.wrapping_add(dx), y: baseline.y.wrapping_add(dy), z: baseline.z.wrapping_add(dz) })
}

} // verus!
