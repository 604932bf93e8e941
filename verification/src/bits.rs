use vstd::prelude::*;

verus! {

/// Whether bit `i` of `b` is set.
pub open spec fn has_bit(b: u64, i: u64) -> bool {
    (b >> i) & 1u64 == 1u64
}

/// The number of set bits of `b` among its lowest `n` bits.
pub open spec fn count_bits(b: u64, n: nat) -> nat
    decreases n,
{
    if n == 0 {
        0
    } else {
        count_bits(b, (n - 1) as nat) + if has_bit(b, (n - 1) as u64) {
            1nat
        } else {
            0nat
        }
    }
}

/// The number of set bits of `b`.
pub open spec fn popcount(b: u64) -> nat {
    count_bits(b, 64)
}

/// How the bitwise operators act on a single bit.
pub proof fn lemma_bit_ops(a: u64, b: u64, i: u64)
    requires
        i < 64,
    ensures
        has_bit(a & b, i) == (has_bit(a, i) && has_bit(b, i)),
        has_bit(a | b, i) == (has_bit(a, i) || has_bit(b, i)),
        has_bit(a ^ b, i) == (has_bit(a, i) != has_bit(b, i)),
{
    assert(((a & b) >> i) & 1u64 == 1u64 <==> ((a >> i) & 1u64 == 1u64 && (b >> i) & 1u64 == 1u64))
        by (bit_vector)
        requires
            i < 64,
    ;
    assert(((a | b) >> i) & 1u64 == 1u64 <==> ((a >> i) & 1u64 == 1u64 || (b >> i) & 1u64 == 1u64))
        by (bit_vector)
        requires
            i < 64,
    ;
    assert(((a ^ b) >> i) & 1u64 == 1u64 <==> ((a >> i) & 1u64 == 1u64) != ((b >> i) & 1u64
        == 1u64)) by (bit_vector)
        requires
            i < 64,
    ;
}

/// The bits of a single-bit mask.
pub proof fn lemma_single_bit(p: u64, i: u64)
    requires
        p < 64,
        i < 64,
    ensures
        has_bit(1u64 << p, i) == (i == p),
        has_bit(0u64, i) == false,
{
    assert(((1u64 << p) >> i) & 1u64 == 1u64 <==> i == p) by (bit_vector)
        requires
            p < 64,
            i < 64,
    ;
    assert((0u64 >> i) & 1u64 != 1u64) by (bit_vector);
}

/// Counting the set bits of words that agree on the lowest `n` bits gives the same count.
pub proof fn lemma_count_bits_ext(a: u64, b: u64, n: nat)
    requires
        n <= 64,
        forall|i: u64| i < n ==> #[trigger] has_bit(a, i) == has_bit(b, i),
    ensures
        count_bits(a, n) == count_bits(b, n),
    decreases n,
{
    if n > 0 {
        lemma_count_bits_ext(a, b, (n - 1) as nat);
        assert(has_bit(a, (n - 1) as u64) == has_bit(b, (n - 1) as u64));
    }
}

/// Counts the set bits of `b`.
pub fn count_ones(b: u64) -> (n: u32)
    ensures
        n == popcount(b),
{
    let mut n: u32 = 0;
    let mut i: u64 = 0;
    while i < 64
        invariant
            i <= 64,
            n == count_bits(b, i as nat),
            n <= i,
        decreases 64 - i,
    {
        if (b >> i) & 1 == 1 {
            n = n + 1;
        }
        i = i + 1;
    }
    n
}

} // verus!
