//! A remainder that follows the sign of the divisor.

use vstd::prelude::*;
use vstd::arithmetic::div_mod::{
    lemma_fundamental_div_mod,
    lemma_fundamental_div_mod_converse,
    lemma_mod_bound,
};

verus! {

/// `a` modulo `n`, between zero and `n`: never negative for a positive `n`,
/// never positive for a negative `n`.
pub open spec fn floor_mod(a: int, n: int) -> int {
    if n > 0 {
        a % n
    } else {
        -((-a) % (-n))
    }
}

/// A modulus that works for negative values, unlike the remainder `%`, so
/// that a position which leaves the board on one side comes back in on the
/// other. Every signed integer type has it.
pub trait ModuloSigned: Sized {
    /// The value as a mathematical integer.
    spec fn number(&self) -> int;

    fn modulo(&self, n: Self) -> (r: Self)
        requires
            n.number() != 0,
        ensures
            r.number() == floor_mod(self.number(), n.number()),
    ;
}

/// The remainder of a non-negative `a` by a positive `n`, counted up from the
/// multiple of `n` below `-a`.
fn wrap_negative(a: i128, n: i128) -> (r: i128)
    requires
        a >= 0,
        n > 0,
    ensures
        r == (-a) % (n as int),
        0 <= r < n,
{
    let m: i128 = a % n;
    proof {
        lemma_fundamental_div_mod(a as int, n as int);
        lemma_mod_bound(a as int, n as int);
        let q = (a as int) / (n as int);
        if m == 0 {
            assert(-a == (-q) * n + 0) by (nonlinear_arith)
                requires
                    a == n * q + 0,
            ;
            lemma_fundamental_div_mod_converse(-a, n as int, -q, 0);
        } else {
            assert(-a == (-q - 1) * n + (n - m)) by (nonlinear_arith)
                requires
                    a == n * q + m,
            ;
            lemma_fundamental_div_mod_converse(-a, n as int, -q - 1, n - m);
        }
    }
    if m == 0 {
        0
    } else {
        n - m
    }
}

/// The modulus of numbers of at most 64 bits, none of which is the least
/// number of the type they are computed in.
fn floor_mod_narrow(a: i128, n: i128) -> (r: i128)
    requires
        n != 0,
        -0x8000_0000_0000_0000 <= a <= 0x7fff_ffff_ffff_ffff,
        -0x8000_0000_0000_0000 <= n <= 0x7fff_ffff_ffff_ffff,
    ensures
        r == floor_mod(a as int, n as int),
        n > 0 ==> 0 <= r < n,
        n < 0 ==> n < r <= 0,
{
    if n > 0 {
        if a >= 0 {
            proof {
                lemma_mod_bound(a as int, n as int);
            }
            a % n
        } else {
            wrap_negative(-a, n)
        }
    } else {
        if a <= 0 {
            proof {
                lemma_mod_bound(-a as int, -n as int);
            }
            -((-a) % (-n))
        } else {
            -wrap_negative(a, -n)
        }
    }
}

impl ModuloSigned for i8 {
    open spec fn number(&self) -> int {
        *self as int
    }

    fn modulo(&self, n: i8) -> (r: i8) {
        floor_mod_narrow(*self as i128, n as i128) as i8
    }
}

impl ModuloSigned for i16 {
    open spec fn number(&self) -> int {
        *self as int
    }

    fn modulo(&self, n: i16) -> (r: i16) {
        floor_mod_narrow(*self as i128, n as i128) as i16
    }
}

impl ModuloSigned for i32 {
    open spec fn number(&self) -> int {
        *self as int
    }

    fn modulo(&self, n: i32) -> (r: i32) {
        floor_mod_narrow(*self as i128, n as i128) as i32
    }
}

impl ModuloSigned for i64 {
    open spec fn number(&self) -> int {
        *self as int
    }

    fn modulo(&self, n: i64) -> (r: i64) {
        floor_mod_narrow(*self as i128, n as i128) as i64
    }
}

impl ModuloSigned for isize {
    open spec fn number(&self) -> int {
        *self as int
    }

    fn modulo(&self, n: isize) -> (r: isize) {
        floor_mod_narrow(*self as i128, n as i128) as isize
    }
}

impl ModuloSigned for i128 {
    open spec fn number(&self) -> int {
        *self as int
    }

    fn modulo(&self, n: i128) -> (r: i128) {
        if n > 0 {
            if *self >= 0 {
                *self % n
            } else if *self == i128::MIN {
                // -i128::MIN does not fit: go by one multiple of n first.
                let r: i128 = wrap_negative(i128::MAX, n);
                proof {
                    lemma_step_down(i128::MIN as int + 1, n as int);
                }
                if r == 0 {
                    n - 1
                } else {
                    r - 1
                }
            } else {
                wrap_negative(-*self, n)
            }
        } else {
            if *self > 0 {
                if n == i128::MIN {
                    // Every positive number is nearer to zero than i128::MIN.
                    proof {
                        vstd::arithmetic::div_mod::lemma_small_mod(
                            (i128::MAX - *self + 1) as nat,
                            0x8000_0000_0000_0000_0000_0000_0000_0000,
                        );
                        assert(-(*self) == (-1) * 0x8000_0000_0000_0000_0000_0000_0000_0000 + (0x8000_0000_0000_0000_0000_0000_0000_0000 - *self));
                        lemma_fundamental_div_mod_converse(
                            -(*self as int),
                            0x8000_0000_0000_0000_0000_0000_0000_0000,
                            -1,
                            0x8000_0000_0000_0000_0000_0000_0000_0000 - *self,
                        );
                    }
                    *self + n
                } else {
                    -wrap_negative(*self, -n)
                }
            } else if *self == i128::MIN {
                if n == i128::MIN {
                    proof {
                        vstd::arithmetic::div_mod::lemma_mod_self_0(0x8000_0000_0000_0000_0000_0000_0000_0000);
                    }
                    0
                } else {
                    let r: i128 = (i128::MAX % (-n) + 1) % (-n);
                    proof {
                        let m = -(n as int);
                        lemma_mod_bound(i128::MAX as int, m);
                        vstd::arithmetic::div_mod::lemma_add_mod_noop(i128::MAX as int, 1, m);
                        vstd::arithmetic::div_mod::lemma_mod_bound(1, m);
                        if m == 1 {
                            assert(1int % 1 == 0);
                        } else {
                            vstd::arithmetic::div_mod::lemma_small_mod(1, m as nat);
                        }
                    }
                    -r
                }
            } else {
                if n == i128::MIN {
                    proof {
                        vstd::arithmetic::div_mod::lemma_small_mod((-*self) as nat, 0x8000_0000_0000_0000_0000_0000_0000_0000);
                    }
                    *self
                } else {
                    -((-*self) % (-n))
                }
            }
        }
    }
}

/// Going down by one turns the remainder back by one, around `n`.
proof fn lemma_step_down(a: int, n: int)
    requires
        n > 0,
    ensures
        (a - 1) % n == if a % n == 0 {
            n - 1
        } else {
            a % n - 1
        },
{
    lemma_fundamental_div_mod(a, n);
    lemma_mod_bound(a, n);
    let q = a / n;
    let m = a % n;
    if m == 0 {
        assert(a - 1 == (q - 1) * n + (n - 1)) by (nonlinear_arith)
            requires
                a == n * q + 0,
        ;
        lemma_fundamental_div_mod_converse(a - 1, n, q - 1, n - 1);
    } else {
        assert(a - 1 == q * n + (m - 1)) by (nonlinear_arith)
            requires
                a == n * q + m,
        ;
        lemma_fundamental_div_mod_converse(a - 1, n, q, m - 1);
    }
}

} // verus!
