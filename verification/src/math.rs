//! Arithmetic that several rules share.

use vstd::prelude::*;

verus! {

/// The number itself where it fits 64 bits, and else the nearest that does.
pub open spec fn clamp_u64(x: int) -> u64 {
    if x > u64::MAX {
        u64::MAX
    } else if x < 0 {
        0
    } else {
        x as u64
    }
}

/// The sum where it fits 64 bits, and else the largest number that does.
pub open spec fn sat_add(a: u64, b: u64) -> u64 {
    clamp_u64(a + b)
}

/// The difference where it is not negative, and else zero.
pub open spec fn sat_sub(a: u64, b: u64) -> u64 {
    clamp_u64(a - b)
}

/// `r` is the largest number whose square is at most `n`.
pub open spec fn is_sqrt(n: u64, r: u64) -> bool {
    r * r <= n && n < (r + 1) * (r + 1)
}

/// The integer square root: the largest number whose square is at most `n`.
pub open spec fn spec_integer_squareroot(n: u64) -> u64 {
    choose|r: u64| is_sqrt(n, r)
}

/// No number has two integer square roots.
pub proof fn lemma_sqrt_unique(n: u64, a: u64, b: u64)
    requires
        is_sqrt(n, a),
        is_sqrt(n, b),
    ensures
        a == b,
{
    if a < b {
        assert((a + 1) * (a + 1) <= b * b) by (nonlinear_arith)
            requires
                0 <= a + 1 <= b,
        ;
    } else if b < a {
        assert((b + 1) * (b + 1) <= a * a) by (nonlinear_arith)
            requires
                0 <= b + 1 <= a,
        ;
    }
}

/// The largest number whose square is at most `n`.
pub fn integer_squareroot(n: u64) -> (r: u64)
    ensures
        is_sqrt(n, r),
        r == spec_integer_squareroot(n),
        r < 0x1_0000_0000,
{
    let mut lo: u64 = 0;
    let mut hi: u64 = 0x1_0000_0000;
    while hi - lo > 1
        invariant
            lo < hi <= 0x1_0000_0000,
            lo * lo <= n,
            n < hi * hi,
        decreases hi - lo,
    {
        let mid = lo + (hi - lo) / 2;
        assert(mid * mid <= 0xffff_ffff * 0xffff_ffff) by (nonlinear_arith)
            requires
                0 <= mid <= 0xffff_ffff,
        ;
        if mid * mid <= n {
            lo = mid;
        } else {
            hi = mid;
        }
    }
    proof {
        let chosen = spec_integer_squareroot(n);
        assert(is_sqrt(n, lo));
        lemma_sqrt_unique(n, lo, chosen);
    }
    lo
}

/// A vector of `n` copies of a value.
pub fn filled<T: Copy>(n: usize, value: T) -> (v: Vec<T>)
    ensures
        v@.len() == n,
        forall|i: int| 0 <= i < n ==> v@[i] == value,
{
    let mut v: Vec<T> = Vec::new();
    let mut i: usize = 0;
    while i < n
        invariant
            i <= n,
            v@.len() == i,
            forall|j: int| 0 <= j < i ==> v@[j] == value,
        decreases n - i,
    {
        v.push(value);
        i += 1;
    }
    v
}

} // verus!
