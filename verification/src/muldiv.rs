//! Overflow-safe `a * b / c` on 128-bit unsigned integers.

use vstd::prelude::*;
use vstd::arithmetic::div_mod::*;
use vstd::arithmetic::power2::*;

verus! {

/// The smaller of `x` and `y`.
pub open spec fn min_int(x: int, y: int) -> int {
    if x <= y { x } else { y }
}

/// What `muldiv128(a, b, c)` returns: `a * b / c` rounded down and capped at
/// `u128::MAX`, or `0` for a zero divisor.
pub open spec fn muldiv_value(a: int, b: int, c: int) -> int {
    if c == 0 {
        0
    } else {
        min_int(a * b / c, u128::MAX as int)
    }
}

/// The bits of `y` above the bit that `pw` selects (all of `y` once `pw` is 0).
spec fn bits_above(y: int, pw: int) -> int {
    if pw > 0 { y / (2 * pw) } else { y }
}

/// `(x * c + y) / c == x + y / c` for a positive divisor and `y >= 0`.
proof fn lemma_div_shift(x: int, y: int, c: int)
    requires
        c > 0,
        y >= 0,
    ensures
        (x * c + y) / c == x + y / c,
{
    lemma_fundamental_div_mod(y, c);
    lemma_mod_pos_bound(y, c);
    assert(x * c + y == (x + y / c) * c + y % c) by (nonlinear_arith)
        requires
            y == c * (y / c) + y % c,
    ;
    lemma_fundamental_div_mod_converse_div(x * c + y, c, x + y / c, y % c);
}

/// One step of binary long multiplication: from `q * c + rem` to
/// `2 * (q * c + rem) + (x if bit)`, again as a quotient and a remainder by `c`.
fn double_and_add(q: u128, rem: u128, x: u128, bit: bool, c: u128) -> (res: (u128, u128))
    requires
        rem < c,
        x < c,
        2 * (q * c + rem) + (if bit { x as int } else { 0 }) < c * 0x1_0000_0000_0000_0000_0000_0000_0000_0000,
    ensures
        res.0 * c + res.1 == 2 * (q * c + rem) + (if bit { x as int } else { 0 }),
        res.1 < c,
{
    let ghost target: int = 2 * (q * c + rem) + (if bit { x as int } else { 0 });
    proof {
        assert(q * c >= 0) by (nonlinear_arith)
            requires
                q >= 0,
                c >= 0,
        ;
    }
    let (q1, r1) = if rem >= c - rem {
        proof {
            assert((2 * q + 1) * c <= target) by (nonlinear_arith)
                requires
                    target >= 2 * (q * c + rem),
                    2 * rem >= c,
            ;
            assert(2 * q + 1 <= u128::MAX) by (nonlinear_arith)
                requires
                    (2 * q + 1) * c <= target,
                    target < c * 0x1_0000_0000_0000_0000_0000_0000_0000_0000,
                    c > 0,
            ;
        }
        (2 * q + 1, rem - (c - rem))
    } else {
        proof {
            assert((2 * q) * c <= target) by (nonlinear_arith)
                requires
                    target >= 2 * (q * c + rem),
                    rem >= 0,
            ;
            assert(2 * q <= u128::MAX) by (nonlinear_arith)
                requires
                    (2 * q) * c <= target,
                    target < c * 0x1_0000_0000_0000_0000_0000_0000_0000_0000,
                    c > 0,
            ;
        }
        (2 * q, 2 * rem)
    };
    proof {
        assert(q1 * c + r1 == 2 * (q * c + rem)) by (nonlinear_arith)
            requires
                (q1 == 2 * q + 1 && r1 == 2 * rem - c) || (q1 == 2 * q && r1 == 2 * rem),
        ;
    }
    if bit {
        if r1 >= c - x {
            proof {
                assert((q1 + 1) * c <= target) by (nonlinear_arith)
                    requires
                        target == q1 * c + r1 + x,
                        r1 + x >= c,
                ;
                assert(q1 + 1 <= u128::MAX) by (nonlinear_arith)
                    requires
                        (q1 + 1) * c <= target,
                        target < c * 0x1_0000_0000_0000_0000_0000_0000_0000_0000,
                        c > 0,
                ;
                assert((q1 + 1) * c == q1 * c + c) by (nonlinear_arith);
            }
            (q1 + 1, r1 - (c - x))
        } else {
            (q1, r1 + x)
        }
    } else {
        (q1, r1)
    }
}

/// `x * y / c` rounded down, for `x < c`; the quotient is at most `y`.
fn mul_div_below(x: u128, y: u128, c: u128) -> (r: u128)
    requires
        x < c,
    ensures
        r == x * y / (c as int),
{
    let mut pw: u128 = 0x8000_0000_0000_0000_0000_0000_0000_0000;
    let ghost mut k: nat = 127;
    let mut q: u128 = 0;
    let mut rem: u128 = 0;
    proof {
        lemma2_to64_rest();
        lemma2_to64();
        lemma_pow2_adds(64, 63);
        assert(pow2(127) == 0x8000_0000_0000_0000_0000_0000_0000_0000);
        assert(bits_above(y as int, pw as int) == 0) by {
            lemma_basic_div(y as int, 2 * pw as int);
        }
    }
    while pw > 0
        invariant
            x < c,
            pw > 0 ==> pw == pow2(k) && k <= 127,
            rem < c,
            q * c + rem == x * bits_above(y as int, pw as int),
        decreases pw,
    {
        let t = y / pw;
        let bit = t % 2 == 1;
        let ghost done_before: int = bits_above(y as int, pw as int);
        let ghost done_after: int = t as int;
        proof {
            lemma_pow2_pos(k);
            lemma_div_denominator(y as int, pw as int, 2);
            lemma_fundamental_div_mod(t as int, 2);
            assert(done_before == (t as int) / 2) by {
                assert(pw * 2 == 2 * pw);
            }
            assert(done_after == 2 * done_before + (if bit { 1int } else { 0 }));
            lemma_div_is_ordered_by_denominator(y as int, 1, pw as int);
            lemma_div_basics(y as int);
            assert(x * done_after < c * 0x1_0000_0000_0000_0000_0000_0000_0000_0000) by (nonlinear_arith)
                requires
                    0 <= x < c,
                    0 <= done_after <= u128::MAX,
            ;
            assert(x * done_after == 2 * (x * done_before) + (if bit { x as int } else { 0 })) by (nonlinear_arith)
                requires
                    done_after == 2 * done_before + (if bit { 1int } else { 0 }),
            ;
        }
        let (q2, r2) = double_and_add(q, rem, x, bit, c);
        q = q2;
        rem = r2;
        if pw == 1 {
            pw = 0;
            proof {
                lemma_div_basics(y as int);
            }
        } else {
            proof {
                lemma2_to64();
                assert(k > 0);
                lemma_pow2_unfold(k);
            }
            pw = pw / 2;
            proof {
                k = (k - 1) as nat;
            }
        }
    }
    proof {
        lemma_fundamental_div_mod_converse_div(x * y, c as int, q as int, rem as int);
    }
    q
}

/// Computes `a * b / c` rounded down without overflowing: `0` when `c == 0`,
/// the exact quotient whenever it fits in 128 bits, and `u128::MAX` when it
/// does not.
pub fn muldiv128(a: u128, b: u128, c: u128) -> (r: u128)
    ensures
        r == muldiv_value(a as int, b as int, c as int),
{
    if c == 0 {
        return 0;
    }
    if let Some(ab) = a.checked_mul(b) {
        proof {
            assert(ab / c <= ab) by (nonlinear_arith)
                requires
                    c > 0,
                    ab >= 0,
            ;
        }
        return ab / c;
    }
    let q = a / c;
    let r = a % c;
    proof {
        lemma_fundamental_div_mod(a as int, c as int);
        lemma_mod_pos_bound(a as int, c as int);
        let qi = q as int;
        let ri = r as int;
        let bi = b as int;
        let ci = c as int;
        assert(a * b == (qi * bi) * ci + ri * bi) by (nonlinear_arith)
            requires
                a == ci * qi + ri,
                bi == b,
        ;
        assert(ri * bi >= 0) by (nonlinear_arith)
            requires
                ri >= 0,
                bi >= 0,
        ;
        lemma_div_shift(qi * bi, ri * bi, ci);
        lemma_div_pos_is_pos(ri * bi, ci);
    }
    let term1 = match q.checked_mul(b) {
        Some(p) => p,
        None => return u128::MAX,
    };
    let term2 = mul_div_below(r, b, c);
    match term1.checked_add(term2) {
        Some(s) => s,
        None => u128::MAX,
    }
}

/// `muldiv128` never returns more than `a * b / c` rounded down.
pub proof fn lemma_muldiv_at_most_quotient(a: u128, b: u128, c: u128)
    requires
        c > 0,
    ensures
        muldiv_value(a as int, b as int, c as int) <= a * b / (c as int),
{
}

/// `muldiv128` is exactly `a * b / c` rounded down wherever that quotient
/// fits in 128 bits, however large the product `a * b` is.
pub proof fn lemma_muldiv_exact(a: u128, b: u128, c: u128)
    requires
        c > 0,
        a * b / (c as int) <= u128::MAX,
    ensures
        muldiv_value(a as int, b as int, c as int) == a * b / (c as int),
{
}

/// A fraction `b / c` of at most one keeps `muldiv128(a, b, c)` at most `a`.
pub proof fn lemma_muldiv_fraction_at_most(a: u128, b: u128, c: u128)
    requires
        0 < c,
        b <= c,
    ensures
        muldiv_value(a as int, b as int, c as int) <= a,
{
    assert(a * b <= a * c) by (nonlinear_arith)
        requires
            b <= c,
            a >= 0,
    ;
    lemma_div_is_ordered(a * b, a * c, c as int);
    lemma_div_by_multiple(a as int, c as int);
    assert(a * c == (a as int) * (c as int));
}

} // verus!
