use vstd::prelude::*;

verus! {

/// Whether `n` is a power of two: one, or twice a power of two.
pub open spec fn spec_is_pow2(n: nat) -> bool
    decreases n,
{
    n == 1 || (n >= 2 && n % 2 == 0 && spec_is_pow2(n / 2))
}

/// Two to the power of `k`.
pub open spec fn spec_pow2(k: nat) -> nat
    decreases k,
{
    if k == 0 {
        1
    } else {
        2 * spec_pow2((k - 1) as nat)
    }
}

/// How often `n` can be halved before it reaches one; for a power of two,
/// its logarithm to the base two.
pub open spec fn spec_log2(n: nat) -> nat
    decreases n,
{
    if n <= 1 {
        0
    } else {
        1 + spec_log2(n / 2)
    }
}

/// The number of leaves of a tree that is stored in `total` slots.
pub open spec fn spec_leaves(total: nat) -> nat {
    (total + 1) / 2
}

/// The number of slots that store a tree of `leaves` leaves.
pub open spec fn spec_total(leaves: nat) -> int {
    2 * leaves - 1
}

/// A larger power gives a larger power of two.
pub proof fn lemma_pow2_increases(a: nat, b: nat)
    requires
        a <= b,
    ensures
        spec_pow2(a) <= spec_pow2(b),
    decreases b,
{
    if a < b {
        lemma_pow2_increases(a, (b - 1) as nat);
    }
}

/// Two to the power of a sum is the product of the powers.
pub proof fn lemma_pow2_adds(a: nat, b: nat)
    ensures
        spec_pow2(a + b) == spec_pow2(a) * spec_pow2(b),
    decreases b,
{
    if b > 0 {
        lemma_pow2_adds(a, (b - 1) as nat);
        assert(spec_pow2(a + b) == 2 * spec_pow2((a + b - 1) as nat));
        assert(2 * (spec_pow2(a) * spec_pow2((b - 1) as nat)) == spec_pow2(a) * (2 * spec_pow2(
            (b - 1) as nat,
        ))) by (nonlinear_arith);
    } else {
        assert(spec_pow2(a) * 1 == spec_pow2(a)) by (nonlinear_arith);
    }
}

/// The logarithm of a number that fits into a `usize` is at most 64.
pub proof fn lemma_log2_usize(n: nat)
    requires
        n <= usize::MAX,
    ensures
        spec_log2(n) <= 64,
{
    reveal_with_fuel(spec_pow2, 9);
    assert(spec_pow2(8) == 0x100);
    lemma_pow2_adds(8, 8);
    assert(spec_pow2(16) == 0x1_0000);
    lemma_pow2_adds(16, 16);
    assert(spec_pow2(32) == 0x1_0000_0000);
    lemma_pow2_adds(32, 32);
    assert(spec_pow2(64) == 0x1_0000_0000_0000_0000);
    lemma_log2_halves(n, 64);
}

/// Halving `steps` times takes `steps` from the logarithm of a number
/// below two to the power of `steps`.
pub proof fn lemma_log2_halves(n: nat, steps: nat)
    requires
        n < spec_pow2(steps),
    ensures
        spec_log2(n) <= steps,
    decreases steps,
{
    if steps > 0 && n > 1 {
        lemma_log2_halves(n / 2, (steps - 1) as nat);
    }
}

/// Whether `n` is a power of two.
pub fn is_pow2(n: usize) -> (yes: bool)
    ensures
        yes == spec_is_pow2(n as nat),
{
    if n == 0 {
        return false;
    }
    let mut m: usize = n;
    while m % 2 == 0
        invariant
            m >= 1,
            spec_is_pow2(n as nat) == spec_is_pow2(m as nat),
        decreases m,
    {
        m = m / 2;
    }
    m == 1
}

/// The logarithm to the base two of the number of leaves, rounded down: the
/// height of a tree with that many leaves.
pub fn height_of(leaves: usize) -> (height: usize)
    ensures
        height == spec_log2(leaves as nat),
{
    let mut m: usize = leaves;
    let mut height: usize = 0;
    while m > 1
        invariant
            height + spec_log2(m as nat) == spec_log2(leaves as nat),
            height <= leaves - m || leaves <= 1,
        decreases m,
    {
        m = m / 2;
        height = height + 1;
    }
    height
}

/// The number of leaves of a tree that is stored in `total` slots, where
/// `total` is odd.
pub fn leaves_of(total: usize) -> (leaves: usize)
    requires
        total % 2 == 1,
    ensures
        leaves == spec_leaves(total as nat),
{
    total / 2 + 1
}

/// The number of slots that store a tree of `leaves` leaves.
pub fn total_of(leaves: usize) -> (total: usize)
    requires
        1 <= leaves,
        2 * leaves - 1 <= usize::MAX,
    ensures
        total == spec_total(leaves as nat),
{
    leaves - 1 + leaves
}

} // verus!
