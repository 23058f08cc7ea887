//! Exact fixed-point arithmetic on token amounts.
//!
//! An amount is a whole number of smallest units: `10^18` of them make one
//! FLK, `10^6` make one unit of the stable currency. Products and quotients
//! round towards zero, and every operation reports when its result does not
//! fit in 128 bits instead of wrapping.

use vstd::arithmetic::div_mod::{
    lemma_div_is_ordered, lemma_fundamental_div_mod, lemma_fundamental_div_mod_converse,
};
use vstd::arithmetic::mul::{lemma_mul_inequality, lemma_mul_is_commutative};
use vstd::prelude::*;

verus! {

/// Smallest units in one FLK: eighteen decimal places.
pub const FLK_UNIT: u128 = 1_000_000_000_000_000_000;

/// Smallest units in one unit of the stable currency: six decimal places.
pub const STABLE_UNIT: u128 = 1_000_000;

/// Factor between the two precisions.
pub const PRECISION_GAP: u128 = 1_000_000_000_000;

/// `a * b / d` rounded towards zero, where `d` is not zero and the result
/// fits in 128 bits.
pub open spec fn mul_div_spec(a: u128, b: u128, d: u128) -> Option<u128> {
    if d == 0 {
        None
    } else if (a as int * b as int) / (d as int) > u128::MAX {
        None
    } else {
        Some(((a as int * b as int) / (d as int)) as u128)
    }
}

/// The product of two fixed-point numbers of `unit` smallest units each.
pub open spec fn fx_mul_spec(x: u128, y: u128, unit: u128) -> Option<u128> {
    mul_div_spec(x, y, unit)
}

/// The quotient of two fixed-point numbers of `unit` smallest units each.
pub open spec fn fx_div_spec(x: u128, y: u128, unit: u128) -> Option<u128> {
    mul_div_spec(x, unit, y)
}

/// `percent` hundredths as a fixed-point number of `unit` smallest units.
pub open spec fn percent_spec(hundredths: u128, unit: u128) -> Option<u128> {
    mul_div_spec(hundredths, unit, 100)
}

/// Quotient and remainder of `a * b` by `d`, without forming the product.
fn mul_divmod(a: u128, b: u128, d: u128) -> (r: Option<(u128, u128)>)
    requires
        d > 0,
    ensures
        match r {
            Some((q, m)) => q as int * d as int + m as int == a as int * b as int && m < d,
            None => (a as int * b as int) / (d as int) > u128::MAX,
        },
    decreases b,
{
    if b == 0 {
        assert(a as int * 0 == 0) by (nonlinear_arith);
        assert(0 * d as int == 0) by (nonlinear_arith);
        return Some((0, 0));
    }
    let half: u128 = b / 2;
    let odd: bool = b % 2 == 1;
    match mul_divmod(a, half, d) {
        None => {
            proof {
                lemma_mul_inequality(half as int, b as int, a as int);
                lemma_mul_is_commutative(half as int, a as int);
                lemma_mul_is_commutative(b as int, a as int);
                lemma_div_is_ordered(a as int * half as int, a as int * b as int, d as int);
            }
            None
        },
        Some((q1, m1)) => {
            let c1: u128 = if m1 >= d - m1 { 1 } else { 0 };
            let m2: u128 = if m1 >= d - m1 { m1 - (d - m1) } else { m1 + m1 };
            let qa: u128 = if odd { a / d } else { 0 };
            let ma: u128 = if odd { a % d } else { 0 };
            let c2: u128 = if m2 >= d - ma { 1 } else { 0 };
            let m3: u128 = if m2 >= d - ma { m2 - (d - ma) } else { m2 + ma };
            let ghost total: int = 2 * q1 + c1 + qa + c2;
            proof {
                let di = d as int;
                let ah = a as int * half as int;
                let o: int = if odd { 1 } else { 0 };
                assert(a as int * b as int == 2 * ah + o * a) by (nonlinear_arith)
                    requires
                        ah == a as int * half as int,
                        b as int == 2 * half + o,
                ;
                if odd {
                    lemma_fundamental_div_mod(a as int, di);
                    lemma_mul_is_commutative(di, a as int / di);
                }
                assert(o * a == qa * di + ma) by (nonlinear_arith)
                    requires
                        odd ==> a as int == qa * di + ma,
                        !odd ==> qa == 0 && ma == 0,
                        o == (if odd { 1int } else { 0int }),
                ;
                assert(total * di + m3 == 2 * (q1 * di + m1) + (qa * di + ma)) by (nonlinear_arith)
                    requires
                        total == 2 * q1 + c1 + qa + c2,
                        m2 as int == 2 * m1 - c1 * di,
                        m3 as int == m2 + ma - c2 * di,
                        c1 == 0 || c1 == 1,
                        c2 == 0 || c2 == 1,
                ;
                lemma_fundamental_div_mod_converse(a as int * b as int, di, total, m3 as int);
            }
            let doubled = match q1.checked_mul(2) {
                Some(v) => v,
                None => {
                    return None;
                },
            };
            let with_c1 = match doubled.checked_add(c1) {
                Some(v) => v,
                None => {
                    return None;
                },
            };
            let with_qa = match with_c1.checked_add(qa) {
                Some(v) => v,
                None => {
                    return None;
                },
            };
            match with_qa.checked_add(c2) {
                Some(q3) => Some((q3, m3)),
                None => None,
            }
        },
    }
}

/// Computes `a * b / d`, rounded towards zero, through a quotient and
/// remainder that never leave 128 bits. `None` where `d` is zero or the result
/// does not fit.
pub fn mul_div(a: u128, b: u128, d: u128) -> (r: Option<u128>)
    ensures
        r == mul_div_spec(a, b, d),
{
    if d == 0 {
        return None;
    }
    match mul_divmod(a, b, d) {
        Some((q, m)) => {
            proof {
                lemma_fundamental_div_mod_converse(
                    a as int * b as int,
                    d as int,
                    q as int,
                    m as int,
                );
            }
            Some(q)
        },
        None => None,
    }
}

/// Multiplies two fixed-point numbers of `unit` smallest units each.
pub fn fx_mul(x: u128, y: u128, unit: u128) -> (r: Option<u128>)
    ensures
        r == fx_mul_spec(x, y, unit),
{
    mul_div(x, y, unit)
}

/// Divides two fixed-point numbers of `unit` smallest units each.
pub fn fx_div(x: u128, y: u128, unit: u128) -> (r: Option<u128>)
    ensures
        r == fx_div_spec(x, y, unit),
{
    mul_div(x, unit, y)
}

/// Turns a number of hundredths into a fixed-point number.
pub fn percent(hundredths: u128, unit: u128) -> (r: Option<u128>)
    ensures
        r == percent_spec(hundredths, unit),
{
    mul_div(hundredths, unit, 100)
}

} // verus!
