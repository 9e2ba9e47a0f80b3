//! The 16-bit stable hash that names message types and remote calls on the
//! wire: 32-bit FNV-1a over the UTF-8 bytes, folded to 16 bits.
use vstd::prelude::*;
use vstd::utf8::encode_utf8;

verus! {

pub open spec fn fnv_step(h: u32, b: u8) -> u32 {
    (((h ^ (b as u32)) as int * 16777619) % 0x1_0000_0000) as u32
}

/// 32-bit FNV-1a of `s`.
pub open spec fn fnv1a32(s: Seq<u8>) -> u32
    decreases s.len(),
{
    if s.len() == 0 {
        2166136261
    } else {
        fnv_step(fnv1a32(s.drop_last()), s.last())
    }
}

/// The high half of `h` folded onto its low half.
pub open spec fn fold16(h: u32) -> u16 {
    ((h >> 16) ^ h) as u16
}

pub open spec fn stable_hash16(s: Seq<u8>) -> u16 {
    fold16(fnv1a32(s))
}

/// The 16-bit stable hash of the UTF-8 bytes of `text`.
pub fn get_stable_hash_code16(text: &str) -> (r: u16)
    ensures
        r == stable_hash16(encode_utf8(text@)),
{
    let bytes = text.as_bytes();
    let mut h: u32 = 2166136261;
    let mut i: usize = 0;
    while i < bytes.len()
        invariant
            i <= bytes@.len(),
            bytes@ == encode_utf8(text@),
            h == fnv1a32(bytes@.subrange(0, i as int)),
        decreases bytes@.len() - i,
    {
        assert(bytes@.subrange(0, i + 1).drop_last() =~= bytes@.subrange(0, i as int));
        let x: u32 = h ^ (bytes[i] as u32);
        h = ((x as u64 * 16777619) % 0x1_0000_0000) as u32;
        i = i + 1;
    }
    assert(bytes@.subrange(0, bytes@.len() as int) =~= bytes@);
    ((h >> 16) ^ h) as u16
}

} // verus!
