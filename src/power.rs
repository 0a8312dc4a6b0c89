use vstd::prelude::*;

verus! {

/// One vote, in the fixed-point unit of voting power and vote weight.
pub const POWER_SCALE: u64 = 1_000_000;

/// `r` is the integer square root of `n`.
pub open spec fn is_isqrt(n: nat, r: nat) -> bool {
    r * r <= n && n < (r + 1) * (r + 1)
}

/// The quadratic voting power of `reputation`, in millionths:
/// the floor of `sqrt(reputation)` scaled by `POWER_SCALE`.
pub open spec fn quadratic_power(reputation: nat, p: nat) -> bool {
    is_isqrt(reputation * (POWER_SCALE as nat) * (POWER_SCALE as nat), p)
}

/// A weight in millionths rounded to the nearest whole vote, halves rounding up.
pub open spec fn rounded_votes(weight: nat) -> nat {
    let s = POWER_SCALE as nat;
    if weight % s >= s / 2 {
        weight / s + 1
    } else {
        weight / s
    }
}

/// The integer square root of `n`, by bisection.
pub fn isqrt(n: u128) -> (r: u64)
    ensures
        is_isqrt(n as nat, r as nat),
{
    // Invariant: lo^2 <= n < hi^2.
    let mut lo: u128 = 0;
    let mut hi: u128 = 0x1_0000_0000_0000_0000;
    assert(n < hi * hi) by (nonlinear_arith)
        requires
            n <= u128::MAX,
            hi == 0x1_0000_0000_0000_0000u128,
    ;
    while hi - lo > 1
        invariant
            lo < hi <= 0x1_0000_0000_0000_0000u128,
            lo * lo <= n,
            n < hi * hi,
        decreases hi - lo,
    {
        let mid: u128 = lo + (hi - lo) / 2;
        assert(lo < mid < hi);
        assert(mid * mid <= 0xffff_ffff_ffff_ffffu128 * 0xffff_ffff_ffff_ffffu128) by (
        nonlinear_arith)
            requires
                mid <= 0xffff_ffff_ffff_ffffu128,
        ;
        if mid * mid <= n {
            lo = mid;
        } else {
            hi = mid;
        }
    }
    assert(hi == lo + 1);
    lo as u64
}

/// The voting power of a user with `reputation`: its square root when
/// quadratic voting is on, one whole vote otherwise.
pub fn voting_power_for(reputation: u64, quadratic: bool) -> (p: u64)
    ensures
        quadratic ==> quadratic_power(reputation as nat, p as nat),
        !quadratic ==> p == POWER_SCALE,
{
    if quadratic {
        let scaled: u128 = (reputation as u128) * 1_000_000_000_000u128;
        assert(scaled as nat == reputation as nat * (POWER_SCALE as nat) * (POWER_SCALE as nat))
            by (nonlinear_arith)
            requires
                scaled as nat == reputation as nat * 1_000_000_000_000,
        ;
        isqrt(scaled)
    } else {
        POWER_SCALE
    }
}

/// The whole number of votes that a weight in millionths counts for.
pub fn round_weight(weight: u64) -> (v: u64)
    ensures
        v as nat == rounded_votes(weight as nat),
{
    let whole = weight / POWER_SCALE;
    if weight % POWER_SCALE >= POWER_SCALE / 2 {
        whole + 1
    } else {
        whole
    }
}

} // verus!
