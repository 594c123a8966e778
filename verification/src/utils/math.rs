//! Integer division that rounds down and integer square roots.

use vstd::prelude::*;
use vstd::arithmetic::div_mod::lemma_fundamental_div_mod_converse;

verus! {

/// `num / den` rounded towards minus infinity, for a positive `den`.
pub fn floor_div(num: i128, den: i128) -> (q: i128)
    requires
        den > 0,
    ensures
        q == num / den,
{
    if num >= 0 {
        num / den
    } else {
        // -(num + 1) is in 0 ..= i128::MAX, so nothing overflows.
        let m: i128 = -(num + 1);
        let k: i128 = m / den;
        let q: i128 = -k - 1;
        proof {
            let r: int = m as int % den as int;
            assert(m == den * k + r && 0 <= r < den) by {
                vstd::arithmetic::div_mod::lemma_fundamental_div_mod(m as int, den as int);
                vstd::arithmetic::div_mod::lemma_mod_bound(m as int, den as int);
            }
            assert(num == q * den + (den - 1 - r)) by (nonlinear_arith)
                requires
                    m == -(num + 1),
                    m == den * k + r,
                    q == -k - 1,
            ;
            lemma_fundamental_div_mod_converse(
                num as int,
                den as int,
                q as int,
                den as int - 1 - r,
            );
        }
        q
    }
}

/// `r` is the largest number whose square is at most `n`.
pub open spec fn is_sqrt_floor(r: nat, n: nat) -> bool {
    r * r <= n < (r + 1) * (r + 1)
}

/// The largest `r` with `r * r <= n`.
pub open spec fn sqrt_floor(n: nat) -> nat {
    choose|r: nat| is_sqrt_floor(r, n)
}

/// Some number is the integer square root of `n`, and only one.
pub proof fn lemma_sqrt_floor(n: nat)
    ensures
        sqrt_floor(n) * sqrt_floor(n) <= n < (sqrt_floor(n) + 1) * (sqrt_floor(n) + 1),
        forall|r: nat| is_sqrt_floor(r, n) ==> r == sqrt_floor(n),
{
    assert(n < (n + 1) * (n + 1)) by (nonlinear_arith);
    lemma_sqrt_exists(n, n);
    let s = sqrt_floor(n);
    assert forall|r: nat| is_sqrt_floor(r, n) implies r == s by {
        assert(r == s) by (nonlinear_arith)
            requires
                r * r <= n < (r + 1) * (r + 1),
                s * s <= n < (s + 1) * (s + 1),
        ;
    }
}

proof fn lemma_sqrt_exists(n: nat, k: nat)
    requires
        n < (k + 1) * (k + 1),
    ensures
        exists|r: nat| is_sqrt_floor(r, n),
    decreases k,
{
    if k * k <= n {
        assert(is_sqrt_floor(k, n));
    } else {
        assert(k > 0) by (nonlinear_arith)
            requires
                !(k * k <= n),
        ;
        let j = (k - 1) as nat;
        assert((j + 1) * (j + 1) == k * k) by (nonlinear_arith)
            requires
                j + 1 == k,
        ;
        lemma_sqrt_exists(n, j);
    }
}

/// The integer square root of `n`, found by bisection.
pub fn isqrt(n: u128) -> (r: u64)
    ensures
        r == sqrt_floor(n as nat),
        r * r <= n < (r + 1) * (r + 1),
{
    let mut lo: u128 = 0;
    let mut hi: u128 = 0x1_0000_0000_0000_0000;
    assert(hi * hi > n) by (nonlinear_arith)
        requires
            hi == 0x1_0000_0000_0000_0000,
            n <= u128::MAX,
    ;
    while hi - lo > 1
        invariant
            lo < hi <= 0x1_0000_0000_0000_0000,
            lo * lo <= n < hi * hi,
        decreases hi - lo,
    {
        let mid: u128 = lo + (hi - lo) / 2;
        assert(mid * mid <= u128::MAX) by (nonlinear_arith)
            requires
                mid < 0x1_0000_0000_0000_0000,
        ;
        if mid * mid <= n {
            lo = mid;
        } else {
            hi = mid;
        }
    }
    proof {
        lemma_sqrt_floor(n as nat);
        assert(is_sqrt_floor(lo as nat, n as nat));
    }
    lo as u64
}

} // verus!
