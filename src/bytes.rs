//! Big-endian byte strings and the LEB128 variable-length integer, as
//! mathematical sequences.
use vstd::arithmetic::div_mod::lemma_mod_breakdown;
use vstd::prelude::*;

verus! {

/// `256` raised to the power `k`.
pub open spec fn radix_pow(k: nat) -> nat
    decreases k,
{
    if k == 0 {
        1
    } else {
        256 * radix_pow((k - 1) as nat)
    }
}

/// The `k` low-order bytes of `n`, most significant first.
pub open spec fn be_bytes(n: nat, k: nat) -> Seq<u8>
    decreases k,
{
    if k == 0 {
        Seq::empty()
    } else {
        be_bytes(n / 256, (k - 1) as nat).push((n % 256) as u8)
    }
}

/// The number that a byte string spells, most significant byte first.
pub open spec fn be_value(s: Seq<u8>) -> nat
    decreases s.len(),
{
    if s.len() == 0 {
        0
    } else {
        be_value(s.drop_last()) * 256 + s.last() as nat
    }
}

/// LEB128: seven data bits per byte, low group first, high bit set on every
/// byte but the last.
pub open spec fn leb128(n: nat) -> Seq<u8>
    decreases n,
{
    if n < 128 {
        seq![n as u8]
    } else {
        seq![(n % 128 + 128) as u8] + leb128(n / 128)
    }
}

pub proof fn lemma_radix_pow_positive(k: nat)
    ensures
        radix_pow(k) > 0,
    decreases k,
{
    if k > 0 {
        lemma_radix_pow_positive((k - 1) as nat);
    }
}

pub proof fn lemma_be_bytes_len(n: nat, k: nat)
    ensures
        be_bytes(n, k).len() == k,
    decreases k,
{
    if k > 0 {
        lemma_be_bytes_len(n / 256, (k - 1) as nat);
    }
}

/// Reading back `k` big-endian bytes of `n` gives `n` modulo `256^k`.
pub proof fn lemma_be_value_of_bytes(n: nat, k: nat)
    ensures
        be_value(be_bytes(n, k)) == n % radix_pow(k),
    decreases k,
{
    if k > 0 {
        let k1 = (k - 1) as nat;
        lemma_be_value_of_bytes(n / 256, k1);
        lemma_radix_pow_positive(k1);
        let s = be_bytes(n, k);
        assert(s.drop_last() == be_bytes(n / 256, k1));
        lemma_mod_breakdown(n as int, 256, radix_pow(k1) as int);
        assert(be_value(s) == ((n / 256) % radix_pow(k1)) * 256 + n % 256);
    }
}

/// A byte string of length `k` spells a number below `256^k`.
pub proof fn lemma_be_value_bound(s: Seq<u8>)
    ensures
        be_value(s) < radix_pow(s.len()),
    decreases s.len(),
{
    if s.len() > 0 {
        lemma_be_value_bound(s.drop_last());
        let p = radix_pow((s.len() - 1) as nat);
        let v = be_value(s.drop_last());
        assert(v * 256 + (s.last() as nat) < 256 * p) by (nonlinear_arith)
            requires
                v < p,
                s.last() < 256,
        ;
    }
}

pub proof fn lemma_radix_pow_values()
    ensures
        radix_pow(8) == 0x1_0000_0000_0000_0000,
        radix_pow(16) == 0x1_0000_0000_0000_0000_0000_0000_0000_0000,
{
    reveal_with_fuel(radix_pow, 17);
}

} // verus!
