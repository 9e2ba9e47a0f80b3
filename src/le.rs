//! Little-endian byte sequences and their numeric values.
use vstd::arithmetic::div_mod::{lemma_div_denominator, lemma_fundamental_div_mod};
use vstd::prelude::*;

verus! {

/// `256` raised to the power `n`.
pub open spec fn pow256(n: nat) -> nat
    decreases n,
{
    if n == 0 {
        1
    } else {
        256 * pow256((n - 1) as nat)
    }
}

/// The `n` least significant bytes of `v`, least significant first.
pub open spec fn le_bytes(v: nat, n: nat) -> Seq<u8> {
    Seq::new(n, |i: int| ((v / pow256(i as nat)) % 256) as u8)
}

/// The number that the bytes `s` stand for, least significant first.
pub open spec fn le_value(s: Seq<u8>) -> nat
    decreases s.len(),
{
    if s.len() == 0 {
        0
    } else {
        s[0] as nat + 256 * le_value(s.drop_first())
    }
}

pub proof fn lemma_pow256_pos(n: nat)
    ensures
        pow256(n) >= 1,
    decreases n,
{
    if n > 0 {
        lemma_pow256_pos((n - 1) as nat);
    }
}

pub proof fn lemma_pow256_mono(m: nat, n: nat)
    requires
        m <= n,
    ensures
        pow256(m) <= pow256(n),
    decreases n,
{
    if m < n {
        lemma_pow256_mono(m, (n - 1) as nat);
        lemma_pow256_pos((n - 1) as nat);
    }
}

pub proof fn lemma_pow256_values()
    ensures
        pow256(1) == 0x100,
        pow256(2) == 0x1_0000,
        pow256(3) == 0x100_0000,
        pow256(4) == 0x1_0000_0000,
        pow256(5) == 0x100_0000_0000,
        pow256(6) == 0x1_0000_0000_0000,
        pow256(7) == 0x100_0000_0000_0000,
        pow256(8) == 0x1_0000_0000_0000_0000,
{
    reveal_with_fuel(pow256, 9);
}

/// A value read from `n` bytes is below `256^n`.
pub proof fn lemma_le_value_bound(s: Seq<u8>)
    ensures
        le_value(s) < pow256(s.len()),
    decreases s.len(),
{
    if s.len() > 0 {
        lemma_le_value_bound(s.drop_first());
    }
}

/// Dropping the lowest byte of a little-endian sequence divides its number by 256.
pub proof fn lemma_le_bytes_drop_first(v: nat, n: nat)
    requires
        n > 0,
    ensures
        le_bytes(v, n).drop_first() =~= le_bytes(v / 256, (n - 1) as nat),
        le_bytes(v, n)[0] == (v % 256) as u8,
{
    assert forall|i: int| 0 <= i < n - 1 implies #[trigger] le_bytes(v, n).drop_first()[i]
        == le_bytes(v / 256, (n - 1) as nat)[i] by {
        lemma_pow256_pos(i as nat);
        lemma_div_denominator(v as int, 256, pow256(i as nat) as int);
        assert(pow256((i + 1) as nat) == 256 * pow256(i as nat));
    }
    assert(pow256(0) == 1);
}

/// Writing `v` in `n` little-endian bytes and reading them back gives `v`.
pub proof fn lemma_le_round_trip(v: nat, n: nat)
    requires
        v < pow256(n),
    ensures
        le_value(le_bytes(v, n)) == v,
        le_bytes(v, n).len() == n,
    decreases n,
{
    if n == 0 {
    } else {
        lemma_le_bytes_drop_first(v, n);
        assert(v / 256 < pow256((n - 1) as nat)) by {
            lemma_fundamental_div_mod(v as int, 256);
        }
        lemma_le_round_trip(v / 256, (n - 1) as nat);
        lemma_fundamental_div_mod(v as int, 256);
    }
}

/// One more byte at the top of a little-endian sequence.
pub proof fn lemma_le_bytes_push(v: nat, n: nat)
    ensures
        le_bytes(v, n + 1) =~= le_bytes(v, n).push(((v / pow256(n)) % 256) as u8),
{
}

/// Reading bytes from the top down: one more byte below the ones read so far.
pub proof fn lemma_le_value_prepend(s: Seq<u8>, i: int, j: int)
    requires
        0 < i <= j <= s.len(),
    ensures
        le_value(s.subrange(i - 1, j)) == s[i - 1] as nat + 256 * le_value(s.subrange(i, j)),
{
    assert(s.subrange(i - 1, j).drop_first() =~= s.subrange(i, j));
}

} // verus!
