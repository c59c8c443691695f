//! Checked decimal fixed-point arithmetic.
//!
//! A [`Fixed`] value is a signed mantissa together with a decimal scale: the
//! value represented is `mantissa / 10^scale`. Every operation either returns
//! the exact result or fails with a distinguishable arithmetic error; nothing
//! silently wraps or truncates.

use vstd::prelude::*;
use crate::errors::ErrorCode;

verus! {

/// The largest decimal scale a [`Fixed`] value may carry.
pub const MAX_SCALE: u32 = 28;

/// A decimal fixed-point number with value `mantissa / 10^scale`.
#[derive(Clone, Copy, Debug, PartialEq, Eq, Structural)]
pub struct Fixed {
    pub mantissa: i128,
    pub scale: u32,
}

/// `10^e` as a mathematical integer.
pub open spec fn pow10(e: nat) -> int
    decreases e,
{
    if e == 0 {
        1
    } else {
        10 * pow10((e - 1) as nat)
    }
}

/// Whether a mathematical integer fits in an `i128`.
pub open spec fn in_i128(x: int) -> bool {
    i128::MIN <= x <= i128::MAX
}

pub proof fn lemma_pow10_pos(e: nat)
    ensures
        pow10(e) >= 1,
    decreases e,
{
    if e > 0 {
        lemma_pow10_pos((e - 1) as nat);
    }
}

pub proof fn lemma_pow10_monotonic(a: nat, b: nat)
    requires
        a <= b,
    ensures
        pow10(a) <= pow10(b),
    decreases b,
{
    if a < b {
        lemma_pow10_monotonic(a, (b - 1) as nat);
        lemma_pow10_pos((b - 1) as nat);
    }
}

/// `10^38` written out, so that exponentiations below this bound can be shown
/// to fit in an `i128`.
pub proof fn lemma_pow10_38()
    ensures
        pow10(38) == 100_000_000_000_000_000_000_000_000_000_000_000_000int,
{
    reveal_with_fuel(pow10, 40);
}

/// `10^e` for exponents whose value fits in an `i128`.
pub fn pow10_i128(e: u32) -> (r: i128)
    requires
        e <= 38,
    ensures
        r == pow10(e as nat),
{
    let mut r: i128 = 1;
    let mut i: u32 = 0;
    while i < e
        invariant
            i <= e,
            e <= 38,
            r == pow10(i as nat),
        decreases e - i,
    {
        proof {
            lemma_pow10_pos(i as nat);
            lemma_pow10_monotonic((i + 1) as nat, 38);
            lemma_pow10_38();
            assert(pow10((i + 1) as nat) == 10 * pow10(i as nat));
        }
        r = r * 10;
        i = i + 1;
    }
    r
}

impl Fixed {
    /// A representation the arithmetic below can operate on.
    pub open spec fn wf(self) -> bool {
        self.scale <= MAX_SCALE
    }

    /// The mantissa this value would carry at the (no smaller) scale `s`.
    pub open spec fn aligned_mantissa(self, s: u32) -> int
        recommends
            self.scale <= s,
    {
        self.mantissa * pow10((s - self.scale) as nat)
    }

    /// A whole number as a fixed-point value.
    pub fn from_u64(x: u64) -> (r: Fixed)
        ensures
            r == (Fixed { mantissa: x as i128, scale: 0u32 }),
    {
        Fixed { mantissa: x as i128, scale: 0 }
    }
}

/// The common scale two values are brought to before adding or subtracting.
pub open spec fn common_scale(a: Fixed, b: Fixed) -> u32 {
    if a.scale >= b.scale {
        a.scale
    } else {
        b.scale
    }
}

/// The exact sum, or `Overflow` when an aligned mantissa or the sum itself
/// leaves the `i128` range.
pub open spec fn add_spec(a: Fixed, b: Fixed) -> Result<Fixed, ErrorCode> {
    let s = common_scale(a, b);
    let ma = a.aligned_mantissa(s);
    let mb = b.aligned_mantissa(s);
    if in_i128(ma) && in_i128(mb) && in_i128(ma + mb) {
        Ok(Fixed { mantissa: (ma + mb) as i128, scale: s })
    } else {
        Err(ErrorCode::Overflow)
    }
}

/// The exact difference, or `Overflow` when an aligned mantissa or the
/// difference itself leaves the `i128` range.
pub open spec fn sub_spec(a: Fixed, b: Fixed) -> Result<Fixed, ErrorCode> {
    let s = common_scale(a, b);
    let ma = a.aligned_mantissa(s);
    let mb = b.aligned_mantissa(s);
    if in_i128(ma) && in_i128(mb) && in_i128(ma - mb) {
        Ok(Fixed { mantissa: (ma - mb) as i128, scale: s })
    } else {
        Err(ErrorCode::Overflow)
    }
}

/// The exact product, or `Overflow` when the mantissa product leaves the
/// `i128` range or the scales add up beyond [`MAX_SCALE`].
pub open spec fn mul_spec(a: Fixed, b: Fixed) -> Result<Fixed, ErrorCode> {
    if a.scale + b.scale > MAX_SCALE {
        Err(ErrorCode::Overflow)
    } else if in_i128(a.mantissa * b.mantissa) {
        Ok(Fixed { mantissa: (a.mantissa * b.mantissa) as i128, scale: (a.scale + b.scale) as u32 })
    } else {
        Err(ErrorCode::Overflow)
    }
}

/// The exact product with `10^e`: lowering the scale absorbs the factor
/// without touching the mantissa, and only the excess beyond the scale
/// multiplies the mantissa, with `Overflow` when that leaves the `i128`
/// range.
pub open spec fn mul_pow10_spec(f: Fixed, e: u32) -> Result<Fixed, ErrorCode> {
    if f.scale >= e {
        Ok(Fixed { mantissa: f.mantissa, scale: (f.scale - e) as u32 })
    } else {
        let m = f.mantissa * pow10((e - f.scale) as nat);
        if in_i128(m) {
            Ok(Fixed { mantissa: m as i128, scale: 0u32 })
        } else {
            Err(ErrorCode::Overflow)
        }
    }
}

/// Multiplies a fixed-point value by `10^e` exactly; used for the checked
/// conversion between whole-unit and smallest-unit currency scales.
pub fn mul_pow10(f: Fixed, e: u32) -> (r: Result<Fixed, ErrorCode>)
    requires
        f.wf(),
        e <= 38,
    ensures
        r == mul_pow10_spec(f, e),
        r matches Ok(g) ==> g.wf(),
{
    if f.scale >= e {
        Ok(Fixed { mantissa: f.mantissa, scale: f.scale - e })
    } else {
        let p = pow10_i128(e - f.scale);
        match f.mantissa.checked_mul(p) {
            Some(m) => Ok(Fixed { mantissa: m, scale: 0 }),
            None => Err(ErrorCode::Overflow),
        }
    }
}

/// The quotient at scale [`MAX_SCALE`], truncated toward zero.
///
/// Fails with `DivisionByZero` on a zero divisor and with `Overflow` when the
/// rescaled numerator leaves the `i128` range.
pub open spec fn div_spec(a: Fixed, b: Fixed) -> Result<Fixed, ErrorCode>
    recommends
        a.wf(),
        b.wf(),
        a.mantissa >= 0,
        b.mantissa >= 0,
{
    if b.mantissa == 0 {
        Err(ErrorCode::DivisionByZero)
    } else {
        let num = a.mantissa * pow10((MAX_SCALE + b.scale - a.scale) as nat);
        if in_i128(num) {
            Ok(Fixed { mantissa: (num / b.mantissa as int) as i128, scale: MAX_SCALE })
        } else {
            Err(ErrorCode::Overflow)
        }
    }
}

/// The nearest integer to the value, ties resolved to the even neighbour.
pub open spec fn round_spec(f: Fixed) -> int
    recommends
        f.wf(),
        f.mantissa >= 0,
{
    let p = pow10(f.scale as nat);
    let q = f.mantissa as int / p;
    let rem = f.mantissa as int % p;
    if 2 * rem < p {
        q
    } else if 2 * rem > p {
        q + 1
    } else if q % 2 == 0 {
        q
    } else {
        q + 1
    }
}

/// Adds two fixed-point values exactly; fails with `Overflow` rather than
/// wrapping.
pub fn checked_add(a: Fixed, b: Fixed) -> (r: Result<Fixed, ErrorCode>)
    requires
        a.wf(),
        b.wf(),
    ensures
        r == add_spec(a, b),
        r matches Ok(f) ==> f.wf(),
{
    let s = if a.scale >= b.scale {
        a.scale
    } else {
        b.scale
    };
    let pa = pow10_i128(s - a.scale);
    let pb = pow10_i128(s - b.scale);
    let ma = match a.mantissa.checked_mul(pa) {
        Some(v) => v,
        None => {
            return Err(ErrorCode::Overflow);
        },
    };
    let mb = match b.mantissa.checked_mul(pb) {
        Some(v) => v,
        None => {
            return Err(ErrorCode::Overflow);
        },
    };
    match ma.checked_add(mb) {
        Some(m) => Ok(Fixed { mantissa: m, scale: s }),
        None => Err(ErrorCode::Overflow),
    }
}

/// Subtracts `b` from `a` exactly; fails with `Overflow` rather than wrapping.
pub fn checked_sub(a: Fixed, b: Fixed) -> (r: Result<Fixed, ErrorCode>)
    requires
        a.wf(),
        b.wf(),
    ensures
        r == sub_spec(a, b),
        r matches Ok(f) ==> f.wf(),
{
    let s = if a.scale >= b.scale {
        a.scale
    } else {
        b.scale
    };
    let pa = pow10_i128(s - a.scale);
    let pb = pow10_i128(s - b.scale);
    let ma = match a.mantissa.checked_mul(pa) {
        Some(v) => v,
        None => {
            return Err(ErrorCode::Overflow);
        },
    };
    let mb = match b.mantissa.checked_mul(pb) {
        Some(v) => v,
        None => {
            return Err(ErrorCode::Overflow);
        },
    };
    match ma.checked_sub(mb) {
        Some(m) => Ok(Fixed { mantissa: m, scale: s }),
        None => Err(ErrorCode::Overflow),
    }
}

/// Multiplies two fixed-point values exactly; fails with `Overflow` rather
/// than wrapping or losing precision.
pub fn checked_mul(a: Fixed, b: Fixed) -> (r: Result<Fixed, ErrorCode>)
    requires
        a.wf(),
        b.wf(),
    ensures
        r == mul_spec(a, b),
        r matches Ok(f) ==> f.wf(),
{
    if a.scale > MAX_SCALE - b.scale {
        return Err(ErrorCode::Overflow);
    }
    match a.mantissa.checked_mul(b.mantissa) {
        Some(m) => Ok(Fixed { mantissa: m, scale: a.scale + b.scale }),
        None => Err(ErrorCode::Overflow),
    }
}

/// Divides `a` by `b` at scale [`MAX_SCALE`], truncating toward zero.
pub fn checked_div(a: Fixed, b: Fixed) -> (r: Result<Fixed, ErrorCode>)
    requires
        a.wf(),
        b.wf(),
        a.mantissa >= 0,
        b.mantissa >= 0,
    ensures
        r == div_spec(a, b),
        r matches Ok(f) ==> f.wf() && f.mantissa >= 0,
{
    if b.mantissa == 0 {
        return Err(ErrorCode::DivisionByZero);
    }
    let k = MAX_SCALE + b.scale - a.scale;
    if k > 38 {
        if a.mantissa == 0 {
            assert(a.mantissa * pow10(k as nat) == 0) by (nonlinear_arith)
                requires
                    a.mantissa == 0,
            ;
            return Ok(Fixed { mantissa: 0, scale: MAX_SCALE });
        } else {
            proof {
                lemma_pow10_monotonic(39, k as nat);
                lemma_pow10_38();
                assert(a.mantissa * pow10(k as nat) >= pow10(k as nat)) by (nonlinear_arith)
                    requires
                        a.mantissa >= 1,
                        pow10(k as nat) >= 1,
                ;
            }
            return Err(ErrorCode::Overflow);
        }
    }
    let p = pow10_i128(k);
    proof {
        lemma_pow10_pos(k as nat);
    }
    let num = match a.mantissa.checked_mul(p) {
        Some(v) => v,
        None => {
            return Err(ErrorCode::Overflow);
        },
    };
    proof {
        assert(num >= 0) by (nonlinear_arith)
            requires
                num == a.mantissa * p,
                a.mantissa >= 0,
                p >= 1,
        ;
    }
    let q = (num as u128) / (b.mantissa as u128);
    proof {
        assert(q <= num) by (nonlinear_arith)
            requires
                q == num as u128 / b.mantissa as u128,
                num >= 0,
                b.mantissa >= 1,
        ;
    }
    Ok(Fixed { mantissa: q as i128, scale: MAX_SCALE })
}

/// Rounds a non-negative fixed-point value to the nearest integer, ties to
/// the even neighbour.
pub fn round_to_int(f: Fixed) -> (r: i128)
    requires
        f.wf(),
        f.mantissa >= 0,
    ensures
        r == round_spec(f),
        r >= 0,
{
    let p = pow10_i128(f.scale);
    proof {
        lemma_pow10_pos(f.scale as nat);
        lemma_pow10_monotonic(f.scale as nat, 38);
        lemma_pow10_38();
    }
    let m = f.mantissa as u128;
    let pu = p as u128;
    let q = m / pu;
    let rem = m % pu;
    proof {
        assert(q <= m) by (nonlinear_arith)
            requires
                q == m / pu,
                pu >= 1,
        ;
    }
    if 2 * rem < pu {
        q as i128
    } else {
        // A fractional part of at least one half forces `pu > 1`, so the
        // quotient leaves room for the rounding increment.
        proof {
            assert(pu > 1 && q < m) by (nonlinear_arith)
                requires
                    q == m / pu,
                    rem == m % pu,
                    pu >= 1,
                    2 * rem >= pu,
            ;
        }
        if 2 * rem > pu {
            (q + 1) as i128
        } else if q % 2 == 0 {
            q as i128
        } else {
            (q + 1) as i128
        }
    }
}

} // verus!
