//! Exact numbers: the rationals that metadata stores, and the fractions
//! that angles and heights are turned into.

use vstd::arithmetic::div_mod::lemma_fundamental_div_mod_converse;
use vstd::prelude::*;

verus! {

/// A number as a quotient of two integers.
pub struct Ratio {
    pub num: int,
    pub den: int,
}

impl Ratio {
    /// The sum of two quotients.
    pub open spec fn plus(self, other: Ratio) -> Ratio {
        Ratio { num: self.num * other.den + other.num * self.den, den: self.den * other.den }
    }

    /// The quotient divided by `k`.
    pub open spec fn over(self, k: int) -> Ratio {
        Ratio { num: self.num, den: self.den * k }
    }

    /// Whether two quotients are the same number.
    pub open spec fn same(self, other: Ratio) -> bool {
        self.num * other.den == other.num * self.den
    }
}

/// An unsigned rational number as a metadata field stores it.
#[derive(Clone, Copy, Debug, PartialEq, Eq, Structural)]
pub struct Rational {
    pub num: u32,
    pub denom: u32,
}

impl View for Rational {
    type V = Ratio;

    open spec fn view(&self) -> Ratio {
        Ratio { num: self.num as int, den: self.denom as int }
    }
}

/// An exact number that is not negative: `num / den`.
#[derive(Clone, Copy, Debug, PartialEq, Eq, Structural)]
pub struct Fraction {
    pub num: u128,
    pub den: u128,
}

impl View for Fraction {
    type V = Ratio;

    open spec fn view(&self) -> Ratio {
        Ratio { num: self.num as int, den: self.den as int }
    }
}

impl Fraction {
    /// The denominator is not zero.
    pub open spec fn wf(&self) -> bool {
        self.den > 0
    }

    /// The number 0, as `0 / 1`.
    pub open spec fn spec_zero() -> Fraction {
        Fraction { num: 0, den: 1 }
    }

    /// The number 0, as `0 / 1`.
    #[verifier::when_used_as_spec(spec_zero)]
    pub fn zero() -> (out: Fraction)
        ensures
            out == Fraction::spec_zero(),
    {
        Fraction { num: 0, den: 1 }
    }
}

/// Degrees, minutes and seconds as one number of degrees, on the common
/// denominator `3600 * d.denom * m.denom * s.denom`.
pub open spec fn dms_fraction(d: Rational, m: Rational, s: Rational) -> Fraction {
    Fraction {
        num: (3600 * (d.num * (m.denom * s.denom)) + 60 * (m.num * (d.denom * s.denom)) + s.num * (
        d.denom * m.denom)) as u128,
        den: (3600 * (d.denom * (m.denom * s.denom))) as u128,
    }
}

/// The number that degrees, minutes and seconds stand for:
/// `d + m / 60 + s / 3600`.
pub open spec fn dms_value(d: Rational, m: Rational, s: Rational) -> Ratio {
    d@.plus(m@.over(60)).plus(s@.over(3600))
}

/// Products of three 32-bit numbers stay far below the limit of `u128`, and
/// so does what `dms_fraction` adds up.
proof fn lemma_triple(a: int, b: int, c: int)
    by (nonlinear_arith)
    requires
        0 <= a <= 0xffff_ffff,
        0 <= b <= 0xffff_ffff,
        0 <= c <= 0xffff_ffff,
    ensures
        0 <= b * c <= 0xffff_fffe_0000_0001,
        0 <= a * (b * c) <= 0xffff_fffd_0000_0002_ffff_ffff,
{
}

/// Turns degrees, minutes and seconds into degrees; `None` if one of the
/// three has the denominator 0.
pub fn decimal_degrees(d: Rational, m: Rational, s: Rational) -> (out: Option<Fraction>)
    ensures
        out is Some <==> d.denom != 0 && m.denom != 0 && s.denom != 0,
        out matches Some(f) ==> f == dms_fraction(d, m, s) && f.wf() && f@.same(
            dms_value(d, m, s),
        ),
{
    if d.denom == 0 || m.denom == 0 || s.denom == 0 {
        return None;
    }
    proof {
        lemma_triple(d.num as int, m.denom as int, s.denom as int);
        lemma_triple(m.num as int, d.denom as int, s.denom as int);
        lemma_triple(s.num as int, d.denom as int, m.denom as int);
        lemma_triple(d.denom as int, m.denom as int, s.denom as int);
        lemma_dms_value(d, m, s);
        assert(d.denom * (m.denom * s.denom) > 0) by (nonlinear_arith)
            requires
                d.denom > 0,
                m.denom > 0,
                s.denom > 0,
        ;
    }
    let ms: u128 = (m.denom as u128) * (s.denom as u128);
    let ds: u128 = (d.denom as u128) * (s.denom as u128);
    let dm: u128 = (d.denom as u128) * (m.denom as u128);
    let degrees: u128 = (d.num as u128) * ms;
    let minutes: u128 = (m.num as u128) * ds;
    let seconds: u128 = (s.num as u128) * dm;
    let whole: u128 = (d.denom as u128) * ms;
    Some(Fraction { num: 3600 * degrees + 60 * minutes + seconds, den: 3600 * whole })
}

/// `dms_fraction` is the number `d + m / 60 + s / 3600`.
pub proof fn lemma_dms_value(d: Rational, m: Rational, s: Rational)
    ensures
        dms_fraction(d, m, s)@.same(dms_value(d, m, s)),
{
    lemma_triple(d.num as int, m.denom as int, s.denom as int);
    lemma_triple(m.num as int, d.denom as int, s.denom as int);
    lemma_triple(s.num as int, d.denom as int, m.denom as int);
    lemma_triple(d.denom as int, m.denom as int, s.denom as int);
    let f = dms_fraction(d, m, s)@;
    let v = dms_value(d, m, s);
    let n0 = d.num as int;
    let n1 = m.num as int;
    let n2 = s.num as int;
    let d0 = d.denom as int;
    let d1 = m.denom as int;
    let d2 = s.denom as int;
    assert(f.num == 3600 * (n0 * (d1 * d2)) + 60 * (n1 * (d0 * d2)) + n2 * (d0 * d1));
    assert(f.den == 3600 * (d0 * (d1 * d2)));
    assert(v.den == d0 * (d1 * 60) * (d2 * 3600));
    assert(v.num == (n0 * (d1 * 60) + n1 * d0) * (d2 * 3600) + n2 * (d0 * (d1 * 60)));
    assert(v.den == 60 * f.den) by (nonlinear_arith)
        requires
            f.den == 3600 * (d0 * (d1 * d2)),
            v.den == d0 * (d1 * 60) * (d2 * 3600),
    ;
    let x = n0 * (d1 * 60);
    let y = n1 * d0;
    let z = d2 * 3600;
    assert((x + y) * z == x * z + y * z) by (nonlinear_arith);
    assert(x * z == 216000 * (n0 * (d1 * d2))) by (nonlinear_arith)
        requires
            x == n0 * (d1 * 60),
            z == d2 * 3600,
    ;
    assert(y * z == 3600 * (n1 * (d0 * d2))) by (nonlinear_arith)
        requires
            y == n1 * d0,
            z == d2 * 3600,
    ;
    assert(n2 * (d0 * (d1 * 60)) == 60 * (n2 * (d0 * d1))) by (nonlinear_arith);
    assert(v.num == 60 * f.num);
    assert(f.num * (60 * f.den) == (60 * f.num) * f.den) by (nonlinear_arith);
}

/// Whole degrees, minutes below 60 and seconds below 60 can be had back
/// from the number of degrees that they make: it is a number of 3600ths,
/// of which each degree has 3600 and each minute 60.
pub proof fn lemma_dms_reversible(degrees: u32, minutes: u32, seconds: u32)
    requires
        minutes < 60,
        seconds < 60,
    ensures
        ({
            let f = dms_fraction(
                Rational { num: degrees, denom: 1 },
                Rational { num: minutes, denom: 1 },
                Rational { num: seconds, denom: 1 },
            );
            &&& f@.den == 3600
            &&& f@.num == 3600 * degrees + 60 * minutes + seconds
            &&& f@.num / 3600 == degrees
            &&& (f@.num / 60) % 60 == minutes
            &&& f@.num % 60 == seconds
        }),
{
    let d = Rational { num: degrees, denom: 1 };
    let m = Rational { num: minutes, denom: 1 };
    let s = Rational { num: seconds, denom: 1 };
    assert(d.num * (m.denom * s.denom) == degrees && m.num * (d.denom * s.denom) == minutes
        && s.num * (d.denom * m.denom) == seconds && d.denom * (m.denom * s.denom) == 1)
        by (nonlinear_arith)
        requires
            d.num == degrees,
            m.num == minutes,
            s.num == seconds,
            d.denom == 1,
            m.denom == 1,
            s.denom == 1,
    ;
    let n = 3600 * degrees + 60 * minutes + seconds;
    lemma_fundamental_div_mod_converse(n, 3600, degrees as int, 60 * minutes + seconds);
    lemma_fundamental_div_mod_converse(n, 60, 60 * degrees + minutes, seconds as int);
    lemma_fundamental_div_mod_converse(60 * degrees + minutes, 60, degrees as int, minutes as int);
}

} // verus!
