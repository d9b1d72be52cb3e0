//! Fixed-point arithmetic with eighteen decimals: a value `v` stands for
//! `v / 10^18`. Products and quotients round to the nearest unit, halves up.
use crate::error::Error;
use crate::uint::{modulus, Uint256};
use vstd::prelude::*;

verus! {

/// The fixed-point one, 10^18.
pub open spec fn bone() -> nat {
    1_000_000_000_000_000_000nat
}

/// Whether an exact result agrees with what the spec function gives: `Ok`
/// with the same number, or the math error where the spec has no value.
pub open spec fn agrees(r: Result<Uint256, Error>, s: Option<nat>) -> bool {
    match r {
        Ok(v) => s == Some(v.value()),
        Err(e) => s is None && e == Error::Math,
    }
}

pub open spec fn badd_spec(a: nat, b: nat) -> Option<nat> {
    if a + b < modulus() {
        Some(a + b)
    } else {
        None
    }
}

pub open spec fn bsub_spec(a: nat, b: nat) -> Option<nat> {
    if a >= b {
        Some((a - b) as nat)
    } else {
        None
    }
}

pub open spec fn bmul_spec(a: nat, b: nat) -> Option<nat> {
    if a * b + bone() / 2 < modulus() {
        Some((a * b + bone() / 2) / bone())
    } else {
        None
    }
}

/// The product rounded down.
pub open spec fn bmul_down_spec(a: nat, b: nat) -> Option<nat> {
    if a * b < modulus() {
        Some(a * b / bone())
    } else {
        None
    }
}

/// The product rounded up.
pub open spec fn bmul_up_spec(a: nat, b: nat) -> Option<nat> {
    if a * b + (bone() - 1) < modulus() {
        Some((a * b + (bone() - 1) as nat) / bone())
    } else {
        None
    }
}

/// The quotient rounded up.
pub open spec fn bdiv_up_spec(a: nat, b: nat) -> Option<nat> {
    if b == 0 || a * bone() + (b - 1) >= modulus() {
        None
    } else {
        Some((a * bone() + (b - 1) as nat) / b)
    }
}

pub open spec fn bdiv_spec(a: nat, b: nat) -> Option<nat> {
    if b == 0 || a * bone() + b / 2 >= modulus() {
        None
    } else {
        Some((a * bone() + b / 2) / b)
    }
}

/// `a` raised to the whole power `n`, by squaring, each product rounded.
pub open spec fn bpowi_spec(a: nat, n: nat) -> Option<nat>
    decreases n,
{
    if n == 0 {
        Some(bone())
    } else if n % 2 == 1 {
        match bpowi_spec(a, (n - 1) as nat) {
            Some(p) => bmul_spec(p, a),
            None => None,
        }
    } else {
        match bpowi_spec(a, n / 2) {
            Some(h) => bmul_spec(h, h),
            None => None,
        }
    }
}

/// Terms of the series below this size end it: 10^-10 in fixed point.
pub open spec fn bpow_precision() -> nat {
    100_000_000
}

/// The most terms of the series that are added.
pub open spec fn max_terms() -> nat {
    10_000
}

/// `|a - b|` and whether `a - b` is negative.
pub open spec fn sub_sign(a: nat, b: nat) -> (nat, bool) {
    if a >= b {
        ((a - b) as nat, false)
    } else {
        ((b - a) as nat, true)
    }
}

/// The binomial series of `(1 + x)^a` (with `x` negative when `xneg`), for a
/// fraction `a`, from its `i`-th term on: `term` is the size of the last term
/// added, `sum` the sum so far and `negative` the last term's sign. It stops
/// at a term below the precision, at a term that rounds to zero, or after
/// `max_terms()` terms.
pub open spec fn series_spec(
    a: nat,
    x: nat,
    xneg: bool,
    term: nat,
    sum: nat,
    negative: bool,
    i: nat,
) -> Option<nat>
    decreases max_terms() + 1 - i,
{
    if term < bpow_precision() || i > max_terms() || i == 0 {
        Some(sum)
    } else {
        let big_k = i * bone();
        let (c, cneg) = sub_sign(a, (big_k - bone()) as nat);
        match bmul_spec(c, x) {
            None => None,
            Some(cx) => match bmul_spec(term, cx) {
                None => None,
                Some(t1) => match bdiv_spec(t1, big_k) {
                    None => None,
                    Some(t) => if t == 0 {
                        Some(sum)
                    } else {
                        let neg = negative != (xneg != cneg);
                        match if neg {
                            bsub_spec(sum, t)
                        } else {
                            badd_spec(sum, t)
                        } {
                            None => None,
                            Some(s) => series_spec(a, x, xneg, t, s, neg, i + 1),
                        }
                    },
                },
            },
        }
    }
}

/// `base` raised to the fixed-point power `exp`, for a base strictly between
/// zero and two: the whole part of the exponent by squaring, the fraction by
/// the binomial series of `(1 + (base - 1))^fraction`.
///
/// Error: each product rounds to the nearest unit (10^-18). The series stops
/// once a term falls under 10^-10, or after 10 000 terms. For a base above
/// one its terms alternate in sign after the first, so the cut-off costs at
/// most one term, under 10^-10 of one. For a base below one the terms share
/// one sign, and the cut-off costs the whole remaining tail: about 10^-10
/// times `base / (1 - base)`, which grows without bound as the base nears
/// zero. This is an estimate from the series. Nothing here proves it.
pub open spec fn bpow_spec(base: nat, exp: nat) -> Option<nat> {
    if base == 0 || base >= 2 * bone() {
        None
    } else {
        match bpowi_spec(base, exp / bone()) {
            None => None,
            Some(whole) => if exp % bone() == 0 {
                Some(whole)
            } else {
                let (x, xneg) = sub_sign(base, bone());
                match series_spec(exp % bone(), x, xneg, bone(), bone(), false, 1) {
                    None => None,
                    Some(part) => bmul_spec(whole, part),
                }
            },
        }
    }
}

pub fn bone_value() -> (r: Uint256)
    ensures
        r.value() == bone(),
{
    Uint256::from_u64(1_000_000_000_000_000_000)
}

pub fn badd(a: &Uint256, b: &Uint256) -> (r: Result<Uint256, Error>)
    ensures
        agrees(r, badd_spec(a.value(), b.value())),
{
    match a.checked_add(b) {
        Some(v) => Ok(v),
        None => Err(Error::Math),
    }
}

pub fn bsub(a: &Uint256, b: &Uint256) -> (r: Result<Uint256, Error>)
    ensures
        agrees(r, bsub_spec(a.value(), b.value())),
{
    match a.checked_sub(b) {
        Some(v) => Ok(v),
        None => Err(Error::Math),
    }
}

pub fn bmul(a: &Uint256, b: &Uint256) -> (r: Result<Uint256, Error>)
    ensures
        agrees(r, bmul_spec(a.value(), b.value())),
{
    let half = Uint256::from_u64(500_000_000_000_000_000);
    match a.checked_mul(b) {
        None => Err(Error::Math),
        Some(p) => match p.checked_add(&half) {
            None => Err(Error::Math),
            Some(q) => Ok(q.div(&bone_value())),
        },
    }
}

pub fn bmul_down(a: &Uint256, b: &Uint256) -> (r: Result<Uint256, Error>)
    ensures
        agrees(r, bmul_down_spec(a.value(), b.value())),
{
    match a.checked_mul(b) {
        None => Err(Error::Math),
        Some(p) => Ok(p.div(&bone_value())),
    }
}

pub fn bmul_up(a: &Uint256, b: &Uint256) -> (r: Result<Uint256, Error>)
    ensures
        agrees(r, bmul_up_spec(a.value(), b.value())),
{
    let almost = Uint256::from_u64(999_999_999_999_999_999);
    match a.checked_mul(b) {
        None => Err(Error::Math),
        Some(p) => match p.checked_add(&almost) {
            None => Err(Error::Math),
            Some(q) => Ok(q.div(&bone_value())),
        },
    }
}

pub fn bdiv_up(a: &Uint256, b: &Uint256) -> (r: Result<Uint256, Error>)
    ensures
        agrees(r, bdiv_up_spec(a.value(), b.value())),
{
    if b.is_zero() {
        return Err(Error::Math);
    }
    let almost = b.saturating_sub(&Uint256::from_u64(1));
    match a.checked_mul(&bone_value()) {
        None => Err(Error::Math),
        Some(p) => match p.checked_add(&almost) {
            None => Err(Error::Math),
            Some(q) => Ok(q.div(b)),
        },
    }
}

pub fn bdiv(a: &Uint256, b: &Uint256) -> (r: Result<Uint256, Error>)
    ensures
        agrees(r, bdiv_spec(a.value(), b.value())),
{
    if b.is_zero() {
        return Err(Error::Math);
    }
    let half = b.div(&Uint256::from_u64(2));
    match a.checked_mul(&bone_value()) {
        None => Err(Error::Math),
        Some(p) => match p.checked_add(&half) {
            None => Err(Error::Math),
            Some(q) => Ok(q.div(b)),
        },
    }
}

pub fn bpowi(a: &Uint256, n: &Uint256) -> (r: Result<Uint256, Error>)
    ensures
        agrees(r, bpowi_spec(a.value(), n.value())),
    decreases n.value(),
{
    if n.is_zero() {
        return Ok(bone_value());
    }
    let two = Uint256::from_u64(2);
    let half = n.div(&two);
    let twice = match half.checked_mul(&two) {
        Some(t) => t,
        None => {
            assert(false);
            return Err(Error::Math);
        },
    };
    if twice.lt(n) {
        assert(n.value() % 2 == 1);
        let m = n.saturating_sub(&Uint256::from_u64(1));
        match bpowi(a, &m) {
            Ok(p) => bmul(&p, a),
            Err(e) => Err(e),
        }
    } else {
        assert(n.value() % 2 == 0);
        match bpowi(a, &half) {
            Ok(h) => bmul(&h, &h),
            Err(e) => Err(e),
        }
    }
}

/// The binomial series of `(1 + x)^a`, `x` negative when `xneg`.
fn series(a: &Uint256, x: &Uint256, xneg: bool) -> (r: Result<Uint256, Error>)
    ensures
        agrees(r, series_spec(a.value(), x.value(), xneg, bone(), bone(), false, 1)),
{
    let one = bone_value();
    let precision = Uint256::from_u64(100_000_000);
    let mut term = one;
    let mut sum = one;
    let mut negative = false;
    let mut i: u64 = 1;
    while !term.lt(&precision) && i <= 10_000
        invariant
            1 <= i <= 10_001,
            one.value() == bone(),
            precision.value() == bpow_precision(),
            series_spec(a.value(), x.value(), xneg, term.value(), sum.value(), negative, i as nat)
                == series_spec(a.value(), x.value(), xneg, bone(), bone(), false, 1),
        decreases 10_001 - i,
    {
        let big_k = Uint256::from_u128(i as u128 * 1_000_000_000_000_000_000u128);
        let k1 = Uint256::from_u128((i as u128 - 1) * 1_000_000_000_000_000_000u128);
        let (c, cneg) = if a.lt(&k1) {
            (k1.saturating_sub(a), true)
        } else {
            (a.saturating_sub(&k1), false)
        };
        let cx = match bmul(&c, x) {
            Ok(v) => v,
            Err(e) => return Err(e),
        };
        let t1 = match bmul(&term, &cx) {
            Ok(v) => v,
            Err(e) => return Err(e),
        };
        let t = match bdiv(&t1, &big_k) {
            Ok(v) => v,
            Err(e) => return Err(e),
        };
        if t.is_zero() {
            return Ok(sum);
        }
        negative = negative != (xneg != cneg);
        let next = if negative {
            bsub(&sum, &t)
        } else {
            badd(&sum, &t)
        };
        sum = match next {
            Ok(v) => v,
            Err(e) => return Err(e),
        };
        term = t;
        i = i + 1;
    }
    Ok(sum)
}

/// Raises `base` to the fixed-point power `exp`.
pub fn bpow(base: &Uint256, exp: &Uint256) -> (r: Result<Uint256, Error>)
    ensures
        agrees(r, bpow_spec(base.value(), exp.value())),
{
    let one = bone_value();
    let two = Uint256::from_u128(2_000_000_000_000_000_000);
    if base.is_zero() || !base.lt(&two) {
        return Err(Error::Math);
    }
    let whole = exp.div(&one);
    let whole_part = match whole.checked_mul(&one) {
        Some(w) => w,
        None => {
            assert(false);
            return Err(Error::Math);
        },
    };
    let whole_pow = match bpowi(base, &whole) {
        Ok(v) => v,
        Err(e) => return Err(e),
    };
    if !whole_part.lt(exp) {
        return Ok(whole_pow);
    }
    let remain = exp.saturating_sub(&whole_part);
    let (x, xneg) = if base.lt(&one) {
        (one.saturating_sub(base), true)
    } else {
        (base.saturating_sub(&one), false)
    };
    match series(&remain, &x, xneg) {
        Ok(part) => bmul(&whole_pow, &part),
        Err(e) => Err(e),
    }
}

} // verus!
