//! The variable-length encoding of unsigned 64-bit integers: one to nine
//! bytes, by magnitude, with marker bytes 241 to 255 telling the length.
use crate::le::{
    le_bytes, le_value, lemma_le_round_trip, lemma_le_value_bound, lemma_pow256_values, pow256,
};
use vstd::prelude::*;

verus! {

/// The number of bytes that the encoding of `v` takes.
pub open spec fn var_uint_len(v: u64) -> nat {
    if v <= 240 {
        1
    } else if v <= 2287 {
        2
    } else if v <= 67823 {
        3
    } else if v <= 0xFF_FFFF {
        4
    } else if v <= 0xFFFF_FFFF {
        5
    } else if v <= 0xFF_FFFF_FFFF {
        6
    } else if v <= 0xFFFF_FFFF_FFFF {
        7
    } else if v <= 0xFF_FFFF_FFFF_FFFF {
        8
    } else {
        9
    }
}

/// The bytes that encode `v`.
pub open spec fn encode_var_uint(v: u64) -> Seq<u8> {
    if v <= 240 {
        seq![v as u8]
    } else if v <= 2287 {
        seq![((v - 240) / 256 + 241) as u8, ((v - 240) % 256) as u8]
    } else if v <= 67823 {
        seq![249u8, ((v - 2288) / 256) as u8, ((v - 2288) % 256) as u8]
    } else if v <= 0xFF_FFFF {
        seq![250u8] + le_bytes(v as nat, 3)
    } else if v <= 0xFFFF_FFFF {
        seq![251u8] + le_bytes(v as nat, 4)
    } else if v <= 0xFF_FFFF_FFFF {
        seq![252u8] + le_bytes(v as nat, 5)
    } else if v <= 0xFFFF_FFFF_FFFF {
        seq![253u8] + le_bytes(v as nat, 6)
    } else if v <= 0xFF_FFFF_FFFF_FFFF {
        seq![254u8] + le_bytes(v as nat, 7)
    } else {
        seq![255u8] + le_bytes(v as nat, 8)
    }
}

/// Reads one encoded value from the front of `s`: the value and the number
/// of bytes it took, or `None` where `s` ends too early.
pub open spec fn decode_var_uint(s: Seq<u8>) -> Option<(u64, nat)> {
    if s.len() < 1 {
        None
    } else if s[0] < 241 {
        Some((s[0] as u64, 1))
    } else if s.len() < 2 {
        None
    } else if s[0] <= 248 {
        Some(((240 + 256 * (s[0] - 241) + s[1]) as u64, 2))
    } else if s.len() < 3 {
        None
    } else if s[0] == 249 {
        Some(((2288 + 256 * s[1] + s[2]) as u64, 3))
    } else if s.len() < s[0] - 246 {
        None
    } else {
        Some((le_value(s.subrange(1, s[0] - 246)) as u64, (s[0] - 246) as nat))
    }
}

proof fn lemma_marked_le(marker: u8, v: u64, n: nat, rest: Seq<u8>)
    requires
        n == marker - 247,
        250 <= marker,
        (v as nat) < pow256(n),
    ensures
        decode_var_uint(seq![marker] + le_bytes(v as nat, n) + rest) == Some((v, n + 1)),
        (seq![marker] + le_bytes(v as nat, n)).len() == n + 1,
{
    let s = seq![marker] + le_bytes(v as nat, n) + rest;
    lemma_le_round_trip(v as nat, n);
    assert(s.subrange(1, (n + 1) as int) =~= le_bytes(v as nat, n));
}

/// Encoding then decoding gives the value back, whatever follows it, and
/// the encoding takes `var_uint_len(v)` bytes.
pub proof fn lemma_var_uint_round_trip(v: u64, rest: Seq<u8>)
    ensures
        encode_var_uint(v).len() == var_uint_len(v),
        decode_var_uint(encode_var_uint(v) + rest) == Some((v, var_uint_len(v))),
{
    lemma_pow256_values();
    let e = encode_var_uint(v);
    if v <= 240 {
    } else if v <= 2287 {
        assert((e + rest)[0] == e[0] && (e + rest)[1] == e[1]);
    } else if v <= 67823 {
        assert((e + rest)[0] == e[0] && (e + rest)[1] == e[1] && (e + rest)[2] == e[2]);
    } else if v <= 0xFF_FFFF {
        lemma_marked_le(250, v, 3, rest);
    } else if v <= 0xFFFF_FFFF {
        lemma_marked_le(251, v, 4, rest);
    } else if v <= 0xFF_FFFF_FFFF {
        lemma_marked_le(252, v, 5, rest);
    } else if v <= 0xFFFF_FFFF_FFFF {
        lemma_marked_le(253, v, 6, rest);
    } else if v <= 0xFF_FFFF_FFFF_FFFF {
        lemma_marked_le(254, v, 7, rest);
    } else {
        lemma_marked_le(255, v, 8, rest);
    }
}

/// The encoding is the shortest: any bytes that decode to `v` take at least
/// as many bytes as `encode_var_uint(v)`.
pub proof fn lemma_var_uint_minimal(v: u64, s: Seq<u8>, k: nat)
    requires
        decode_var_uint(s) == Some((v, k)),
    ensures
        var_uint_len(v) <= k,
{
    lemma_pow256_values();
    if s[0] >= 250 {
        let n = (s[0] - 247) as nat;
        lemma_le_value_bound(s.subrange(1, (n + 1) as int));
    }
}

} // verus!
