//! Exact numeric constants for expression trees.
//!
//! A constant is a reduced fraction `num / den` scaled by a fixed irrational
//! unit: `1`, `pi`, or Euler's number `e`.  Keeping the fraction normalized
//! (positive denominator, coprime parts, a unique representation of zero)
//! makes structural equality of constants coincide with equality of the
//! values they stand for, which the simplifier and the cycle guard rely on.

use vstd::prelude::*;
use vstd::arithmetic::div_mod::{
    lemma_fundamental_div_mod, lemma_mod_multiples_basic, lemma_mod_self_0,
    lemma_div_multiples_vanish, lemma_small_mod,
};
use vstd::math::abs;

verus! {

/// The irrational scale a constant carries.
#[derive(Clone, Copy, Debug, PartialEq, Eq, Structural)]
pub enum NumUnit {
    /// A plain rational number.
    One,
    /// A rational multiple of pi.
    Pi,
    /// A rational multiple of Euler's number e.
    Euler,
}

/// An exact numeric constant with value `(num / den) * unit`.
#[derive(Clone, Copy, Debug, PartialEq, Eq, Structural)]
pub struct Num {
    pub num: i64,
    pub den: i64,
    pub unit: NumUnit,
}

/// Euclid's greatest common divisor.
pub open spec fn spec_gcd(a: nat, b: nat) -> nat
    decreases b,
{
    if b == 0 {
        a
    } else {
        spec_gcd(b, a % b)
    }
}

/// The gcd of two numbers, not both zero, is positive and divides both.
pub proof fn lemma_gcd_divides(a: nat, b: nat)
    requires
        a > 0 || b > 0,
    ensures
        spec_gcd(a, b) > 0,
        a % spec_gcd(a, b) == 0,
        b % spec_gcd(a, b) == 0,
    decreases b,
{
    if b == 0 {
        lemma_mod_self_0(a as int);
    } else {
        lemma_gcd_divides(b, a % b);
        let g = spec_gcd(a, b);
        assert(g == spec_gcd(b, a % b));
        lemma_fundamental_div_mod(a as int, b as int);
        // a == b * (a / b) + a % b, and g divides both b and a % b.
        let q = a as int / b as int;
        let r = (a % b) as int;
        lemma_fundamental_div_mod(b as int, g as int);
        lemma_fundamental_div_mod(r, g as int);
        let kb = b as int / g as int;
        let kr = r / g as int;
        assert(b as int == g * kb);
        assert(r == g * kr);
        assert(a as int == g * (kb * q + kr)) by (nonlinear_arith)
            requires
                a as int == b as int * q + r,
                b as int == g * kb,
                r == g * kr,
        ;
        lemma_mod_multiples_basic(kb * q + kr, g as int);
        assert((g * (kb * q + kr)) % g as int == ((kb * q + kr) * g) % g as int) by (nonlinear_arith);
    }
}

/// Any common divisor of `a` and `b` divides their gcd.
pub proof fn lemma_gcd_greatest(a: nat, b: nat, d: nat)
    requires
        d > 0,
        a % d == 0,
        b % d == 0,
    ensures
        spec_gcd(a, b) % d == 0,
    decreases b,
{
    if b == 0 {
    } else {
        // d divides a % b because a == b * (a / b) + a % b.
        lemma_fundamental_div_mod(a as int, b as int);
        let q = a as int / b as int;
        let r = (a % b) as int;
        lemma_fundamental_div_mod(a as int, d as int);
        lemma_fundamental_div_mod(b as int, d as int);
        let ka = a as int / d as int;
        let kb = b as int / d as int;
        assert(r == d * (ka - kb * q)) by (nonlinear_arith)
            requires
                a as int == b as int * q + r,
                a as int == d * ka,
                b as int == d * kb,
        ;
        lemma_mod_multiples_basic(ka - kb * q, d as int);
        assert((d * (ka - kb * q)) % d as int == ((ka - kb * q) * d) % d as int) by (nonlinear_arith);
        lemma_gcd_greatest(b, a % b, d);
    }
}

/// Dividing two numbers, not both zero, by their gcd leaves coprime parts.
pub proof fn lemma_gcd_reduced(a: nat, b: nat)
    requires
        a > 0 || b > 0,
    ensures
        spec_gcd(a / spec_gcd(a, b), b / spec_gcd(a, b)) == 1,
{
    lemma_gcd_divides(a, b);
    let g = spec_gcd(a, b);
    let a1 = a / g;
    let b1 = b / g;
    lemma_fundamental_div_mod(a as int, g as int);
    lemma_fundamental_div_mod(b as int, g as int);
    assert(a as int == g * a1);
    assert(b as int == g * b1);
    if a > 0 {
        assert(a1 > 0) by (nonlinear_arith)
            requires a as int == g * a1, a > 0, a1 >= 0,
        ;
    } else {
        assert(b1 > 0) by (nonlinear_arith)
            requires b as int == g * b1, b > 0, b1 >= 0,
        ;
    }
    lemma_gcd_divides(a1, b1);
    let g1 = spec_gcd(a1, b1);
    lemma_fundamental_div_mod(a1 as int, g1 as int);
    lemma_fundamental_div_mod(b1 as int, g1 as int);
    let a2 = a1 / g1;
    let b2 = b1 / g1;
    assert(a as int == (g * g1) * a2) by (nonlinear_arith)
        requires a as int == g * a1, a1 as int == g1 * a2,
    ;
    assert(b as int == (g * g1) * b2) by (nonlinear_arith)
        requires b as int == g * b1, b1 as int == g1 * b2,
    ;
    assert(g * g1 > 0) by (nonlinear_arith)
        requires g > 0, g1 > 0,
    ;
    let gg: int = (g * g1) as int;
    assert(a % (g * g1) == 0) by {
        lemma_mod_multiples_basic(a2 as int, gg);
        assert((gg * a2) % gg == (a2 * gg) % gg) by (nonlinear_arith);
    }
    assert(b % (g * g1) == 0) by {
        lemma_mod_multiples_basic(b2 as int, gg);
        assert((gg * b2) % gg == (b2 * gg) % gg) by (nonlinear_arith);
    }
    lemma_gcd_greatest(a, b, g * g1);
    // g * g1 divides g, and both are positive, so g1 == 1.
    lemma_fundamental_div_mod(g as int, (g * g1) as int);
    let k = g as int / (g * g1) as int;
    assert(g as int == (g * g1) * k);
    assert(g1 == 1) by (nonlinear_arith)
        requires g as int == (g * g1) * k, g > 0, g1 > 0,
    ;
}

/// `gcd(a, 1) == 1`.
pub proof fn lemma_gcd_one(a: nat)
    ensures
        spec_gcd(a, 1) == 1,
{
    assert(a % 1 == 0);
    assert(spec_gcd(1, 0) == 1);
    assert(spec_gcd(a, 1) == spec_gcd(1, 0));
}

/// Euclid's algorithm on machine words.
fn gcd_u128(a: u128, b: u128) -> (g: u128)
    ensures
        g as nat == spec_gcd(a as nat, b as nat),
{
    let mut x: u128 = a;
    let mut y: u128 = b;
    while y != 0
        invariant
            spec_gcd(x as nat, y as nat) == spec_gcd(a as nat, b as nat),
        decreases y,
    {
        let r: u128 = x % y;
        x = y;
        y = r;
    }
    x
}

impl Num {
    /// A normalized representation: positive denominator, coprime parts,
    /// and zero written uniquely as `0 / 1` with unit `One`.
    pub open spec fn wf(self) -> bool {
        &&& self.den >= 1
        &&& spec_gcd(abs(self.num as int), self.den as nat) == 1
        &&& (self.num == 0 ==> self.den == 1 && self.unit == NumUnit::One)
    }

    pub open spec fn spec_zero() -> Num {
        Num { num: 0, den: 1, unit: NumUnit::One }
    }

    pub open spec fn spec_one() -> Num {
        Num { num: 1, den: 1, unit: NumUnit::One }
    }

    pub open spec fn spec_int(n: i64) -> Num {
        Num { num: n, den: 1, unit: NumUnit::One }
    }

    pub open spec fn is_zero(self) -> bool {
        self.num == 0
    }

    pub open spec fn is_one(self) -> bool {
        self.num == self.den && self.unit == NumUnit::One
    }

    pub open spec fn is_neg_one(self) -> bool {
        self.num == -self.den && self.unit == NumUnit::One
    }

    pub open spec fn is_pos(self) -> bool {
        self.num > 0
    }

    pub open spec fn is_neg(self) -> bool {
        self.num < 0
    }

    /// Euler's number itself.
    pub open spec fn is_euler(self) -> bool {
        self.num == self.den && self.unit == NumUnit::Euler
    }

    /// The integer `n` as a constant.
    pub fn from_int(n: i64) -> (r: Num)
        ensures
            r == Num::spec_int(n),
            r.wf(),
    {
        proof {
            lemma_gcd_one(abs(n as int));
        }
        Num { num: n, den: 1, unit: NumUnit::One }
    }

    /// The fraction `n / d`, normalized; the sign rides on the numerator.
    pub fn rational(n: i64, d: i64) -> (r: Num)
        requires
            d >= 1,
        ensures
            spec_norm(n as int, d as int, NumUnit::One) == Some(r),
            r.wf(),
    {
        Num::scaled(n, d, NumUnit::One)
    }

    /// The value `(n / d) * unit`, normalized; the sign rides on the numerator.
    pub fn scaled(n: i64, d: i64, unit: NumUnit) -> (r: Num)
        requires
            d >= 1,
        ensures
            spec_norm(n as int, d as int, unit) == Some(r),
            r.wf(),
    {
        let r = norm_parts(n as i128, d as i128, unit);
        proof {
            lemma_norm_fits(n as int, d as int, unit);
            lemma_norm_wf(n as int, d as int, unit);
        }
        match r {
            Some(v) => v,
            None => Num { num: 0, den: 1, unit: NumUnit::One },
        }
    }
}

/// The normalized constant of value `(n / d) * u`, if its reduced parts fit
/// in a machine word; `None` otherwise (and always for a zero denominator).
pub open spec fn spec_norm(n: int, d: int, u: NumUnit) -> Option<Num> {
    if d == 0 {
        None
    } else {
        let n1 = if d < 0 { -n } else { n };
        let d1 = if d < 0 { -d } else { d };
        if n1 == 0 {
            Some(Num::spec_zero())
        } else {
            let g = spec_gcd(abs(n1), d1 as nat) as int;
            let n2 = n1 / g;
            let d2 = d1 / g;
            if i64::MIN <= n2 <= i64::MAX && d2 <= i64::MAX {
                Some(Num { num: n2 as i64, den: d2 as i64, unit: u })
            } else {
                None
            }
        }
    }
}

/// Core facts about reducing a positive-denominator fraction by its gcd.
proof fn lemma_norm_core(n: int, d: int)
    requires
        d > 0,
        n != 0,
    ensures
        ({
            let g = spec_gcd(abs(n), d as nat) as int;
            let n2 = n / g;
            let d2 = d / g;
            &&& g >= 1
            &&& n == g * n2
            &&& d == g * d2
            &&& 1 <= d2 <= d
            &&& n2 != 0
            &&& abs(n2) <= abs(n)
            &&& spec_gcd(abs(n2), d2 as nat) == 1
        }),
{
    let g = spec_gcd(abs(n), d as nat) as int;
    lemma_gcd_divides(abs(n), d as nat);
    lemma_gcd_reduced(abs(n), d as nat);
    let n2 = n / g;
    let d2 = d / g;
    lemma_fundamental_div_mod(abs(n) as int, g);
    lemma_fundamental_div_mod(d, g);
    let m2 = abs(n) as int / g;
    assert(abs(n) as int == g * m2);
    assert(d == g * d2);
    assert(d2 >= 1) by (nonlinear_arith)
        requires d == g * d2, d > 0, g > 0, d2 >= 0,
    ;
    assert(d2 <= d) by (nonlinear_arith)
        requires d == g * d2, g >= 1, d2 >= 0,
    ;
    if n < 0 {
        assert(n == g * (-m2)) by (nonlinear_arith)
            requires abs(n) as int == g * m2, n < 0, abs(n) == -n,
        ;
        lemma_div_multiples_vanish(-m2, g);
        assert(n2 == -m2);
    } else {
        assert(n == g * m2) by (nonlinear_arith)
            requires abs(n) as int == g * m2, n > 0, abs(n) == n,
        ;
        lemma_div_multiples_vanish(m2, g);
        assert(n2 == m2);
    }
    assert(m2 > 0) by (nonlinear_arith)
        requires abs(n) as int == g * m2, abs(n) > 0, g > 0, m2 >= 0,
    ;
    assert(m2 <= abs(n)) by (nonlinear_arith)
        requires abs(n) as int == g * m2, g >= 1, m2 >= 0,
    ;
    assert(abs(n2) == m2);
    // Reduction on naturals is the same division.
    assert(abs(n) / spec_gcd(abs(n), d as nat) == m2);
    assert(d as nat / spec_gcd(abs(n), d as nat) == d2);
}

/// A normalized constant is well-formed.
pub proof fn lemma_norm_wf(n: int, d: int, u: NumUnit)
    ensures
        spec_norm(n, d, u) matches Some(r) ==> r.wf(),
{
    if d != 0 {
        let n1 = if d < 0 { -n } else { n };
        let d1 = if d < 0 { -d } else { d };
        if n1 == 0 {
            lemma_gcd_one(0);
            assert(Num::spec_zero().wf());
        } else {
            lemma_norm_core(n1, d1);
            let g = spec_gcd(abs(n1), d1 as nat) as int;
            let n2 = n1 / g;
            let d2 = d1 / g;
            if i64::MIN <= n2 <= i64::MAX && d2 <= i64::MAX {
                let r = Num { num: n2 as i64, den: d2 as i64, unit: u };
                assert(spec_norm(n, d, u) == Some(r));
                assert(r.num as int == n2);
                assert(r.den as int == d2);
                assert(abs(r.num as int) == abs(n2));
                assert(r.wf());
            }
        }
    }
}

/// Normalizing preserves the value: `r.num / r.den == n / d` as a cross
/// multiplication, with the sign carried by the numerator.
pub proof fn lemma_norm_value(n: int, d: int, u: NumUnit)
    ensures
        spec_norm(n, d, u) matches Some(r) ==> r.num * d == n * r.den,
{
    if d != 0 {
        let n1 = if d < 0 { -n } else { n };
        let d1 = if d < 0 { -d } else { d };
        if n1 == 0 {
            assert(n == 0);
        } else {
            lemma_norm_core(n1, d1);
            let g = spec_gcd(abs(n1), d1 as nat) as int;
            let n2 = n1 / g;
            let d2 = d1 / g;
            if i64::MIN <= n2 <= i64::MAX && d2 <= i64::MAX {
                assert(n2 * d1 == n1 * d2) by (nonlinear_arith)
                    requires n1 == g * n2, d1 == g * d2,
                ;
                if d < 0 {
                    assert(n2 * d == n * d2) by (nonlinear_arith)
                        requires n2 * d1 == n1 * d2, n1 == -n, d1 == -d,
                    ;
                }
            }
        }
    }
}

/// With a single-word numerator and a positive single-word denominator the
/// reduced parts always fit, so normalization cannot fail.
pub proof fn lemma_norm_fits(n: int, d: int, u: NumUnit)
    requires
        1 <= d <= i64::MAX,
        i64::MIN <= n <= i64::MAX,
    ensures
        spec_norm(n, d, u) is Some,
{
    if n != 0 {
        lemma_norm_core(n, d);
        let g = spec_gcd(abs(n), d as nat) as int;
        let n2 = n / g;
        let d2 = d / g;
        assert(abs(n2) <= abs(n));
        assert(i64::MIN <= n2 <= i64::MAX);
        assert(d2 <= i64::MAX);
    }
}

/// Normalize `(n / d) * unit` into a constant, reducing by the gcd.
pub(crate) fn norm_parts(n: i128, d: i128, unit: NumUnit) -> (r: Option<Num>)
    requires
        d != 0,
        n > i128::MIN,
        d > i128::MIN,
    ensures
        r == spec_norm(n as int, d as int, unit),
{
    let neg: bool = (n < 0) != (d < 0);
    let m: u128 = if n < 0 { (-n) as u128 } else { n as u128 };
    let dm: u128 = if d < 0 { (-d) as u128 } else { d as u128 };
    if m == 0 {
        proof {
            let n1 = if d < 0 { -n as int } else { n as int };
            assert(n1 == 0);
        }
        return Some(Num { num: 0, den: 1, unit: NumUnit::One });
    }
    let g: u128 = gcd_u128(m, dm);
    proof {
        lemma_gcd_divides(m as nat, dm as nat);
    }
    let m2: u128 = m / g;
    let d2: u128 = dm / g;
    proof {
        let n1 = if (d as int) < 0 { -(n as int) } else { n as int };
        let d1 = if (d as int) < 0 { -(d as int) } else { d as int };
        assert(abs(n1) == m as nat);
        assert(d1 == dm as int);
        let gs = spec_gcd(abs(n1), d1 as nat) as int;
        assert(gs == g as int);
        lemma_fundamental_div_mod(m as int, g as int);
        lemma_fundamental_div_mod(dm as int, g as int);
        assert(m as int == g as int * (m2 as int));
        if n1 < 0 {
            assert(n1 == g as int * (-(m2 as int))) by (nonlinear_arith)
                requires m as int == g as int * (m2 as int), n1 < 0, abs(n1) == m as nat,
            ;
            lemma_div_multiples_vanish(-(m2 as int), g as int);
        } else {
            assert(n1 == g as int * (m2 as int)) by (nonlinear_arith)
                requires m as int == g as int * (m2 as int), n1 > 0, abs(n1) == m as nat,
            ;
            lemma_div_multiples_vanish(m2 as int, g as int);
        }
    }
    if neg {
        if m2 <= 9223372036854775808u128 && d2 <= 9223372036854775807u128 {
            let nv: i64 = (-(m2 as i128)) as i64;
            Some(Num { num: nv, den: d2 as i64, unit })
        } else {
            None
        }
    } else {
        if m2 <= 9223372036854775807u128 && d2 <= 9223372036854775807u128 {
            Some(Num { num: m2 as i64, den: d2 as i64, unit })
        } else {
            None
        }
    }
}


/// The unit of a product, where multiplying two irrational scales is not
/// representable.
pub open spec fn spec_unit_mul(a: NumUnit, b: NumUnit) -> Option<NumUnit> {
    if a == NumUnit::One {
        Some(b)
    } else if b == NumUnit::One {
        Some(a)
    } else {
        None
    }
}

/// The unit of a quotient: like units cancel, a plain divisor keeps the
/// dividend's unit, and anything else is not representable.
pub open spec fn spec_unit_div(a: NumUnit, b: NumUnit) -> Option<NumUnit> {
    if b == NumUnit::One {
        Some(a)
    } else if a == b {
        Some(NumUnit::One)
    } else {
        None
    }
}

/// Exact sum, when it is representable.
pub open spec fn spec_add(a: Num, b: Num) -> Option<Num> {
    if a.num == 0 {
        Some(b)
    } else if b.num == 0 {
        Some(a)
    } else if a.unit == b.unit {
        spec_norm(a.num * b.den + b.num * a.den, a.den * b.den, a.unit)
    } else {
        None
    }
}

/// Exact difference, when it is representable.
pub open spec fn spec_sub(a: Num, b: Num) -> Option<Num> {
    if b.num == 0 {
        Some(a)
    } else if a.num == 0 {
        spec_norm(-b.num as int, b.den as int, b.unit)
    } else if a.unit == b.unit {
        spec_norm(a.num * b.den - b.num * a.den, a.den * b.den, a.unit)
    } else {
        None
    }
}

/// Exact product, when it is representable.
pub open spec fn spec_mul(a: Num, b: Num) -> Option<Num> {
    if a.num == 0 || b.num == 0 {
        Some(Num::spec_zero())
    } else {
        match spec_unit_mul(a.unit, b.unit) {
            Some(u) => spec_norm(a.num * b.num, a.den * b.den, u),
            None => None,
        }
    }
}

/// Exact quotient, when it is representable; never defined for a zero
/// divisor.
pub open spec fn spec_div(a: Num, b: Num) -> Option<Num> {
    if b.num == 0 {
        None
    } else if a.num == 0 {
        Some(Num::spec_zero())
    } else {
        match spec_unit_div(a.unit, b.unit) {
            Some(u) => spec_norm(a.num * b.den, a.den * b.num, u),
            None => None,
        }
    }
}

/// Exact reciprocal of a plain rational, when it is representable.
pub open spec fn spec_inv(a: Num) -> Option<Num> {
    spec_norm(a.den as int, a.num as int, NumUnit::One)
}

/// Exact natural power, iterated from the left.
pub open spec fn spec_pow_nat(a: Num, k: nat) -> Option<Num>
    decreases k,
{
    if k == 0 {
        Some(Num::spec_one())
    } else {
        match spec_pow_nat(a, (k - 1) as nat) {
            Some(p) => spec_mul(p, a),
            None => None,
        }
    }
}

/// Exact power with an integer exponent on a plain rational base, when it
/// is representable.  Fractional exponents and irrational bases stay
/// symbolic.
pub open spec fn spec_pow(a: Num, b: Num) -> Option<Num> {
    if a.unit != NumUnit::One || b.unit != NumUnit::One || b.den != 1 {
        None
    } else if b.num >= 0 {
        spec_pow_nat(a, b.num as nat)
    } else if a.num == 0 {
        None
    } else {
        match spec_inv(a) {
            Some(ia) => spec_pow_nat(ia, (-(b.num as int)) as nat),
            None => None,
        }
    }
}

/// Word-sized factors keep a product inside `i128`.
proof fn lemma_prod_i64(a: int, b: int)
    requires
        i64::MIN <= a <= i64::MAX,
        i64::MIN <= b <= i64::MAX,
    ensures
        -0x4000_0000_0000_0000_0000_0000_0000_0000 <= a * b
            <= 0x4000_0000_0000_0000_0000_0000_0000_0000,
{
    assert(-0x4000_0000_0000_0000_0000_0000_0000_0000 <= a * b
        <= 0x4000_0000_0000_0000_0000_0000_0000_0000) by (nonlinear_arith)
        requires
            i64::MIN <= a <= i64::MAX,
            i64::MIN <= b <= i64::MAX,
    ;
}

/// A word-sized factor times a positive word-sized denominator leaves room
/// to add two such products inside `i128`.
proof fn lemma_prod_den(a: int, d: int)
    requires
        i64::MIN <= a <= i64::MAX,
        1 <= d <= i64::MAX,
    ensures
        -0x3FFF_FFFF_FFFF_FFFF_8000_0000_0000_0000 <= a * d
            <= 0x3FFF_FFFF_FFFF_FFFF_8000_0000_0000_0000,
{
    assert(-0x3FFF_FFFF_FFFF_FFFF_8000_0000_0000_0000 <= a * d
        <= 0x3FFF_FFFF_FFFF_FFFF_8000_0000_0000_0000) by (nonlinear_arith)
        requires
            i64::MIN <= a <= i64::MAX,
            1 <= d <= i64::MAX,
    ;
}

/// The two unit fractions normalize to themselves.
proof fn lemma_norm_units()
    ensures
        spec_norm(1, 1, NumUnit::One) == Some(Num::spec_one()),
        spec_norm(-1, 1, NumUnit::One) == Some(Num { num: -1i64, den: 1, unit: NumUnit::One }),
{
    lemma_gcd_one(1);
    assert(abs(1) == 1nat);
    assert(abs(-1) == 1nat);
    assert(1int / 1int == 1int);
    assert(-1int / 1int == -1int);
}

impl Num {
    /// Sum of two constants, exactly, or `None` when no exact constant of
    /// this form represents it.
    pub fn checked_add(self, rhs: Num) -> (r: Option<Num>)
        requires
            self.wf(),
            rhs.wf(),
        ensures
            r == spec_add(self, rhs),
            r matches Some(v) ==> v.wf(),
    {
        if self.num == 0 {
            Some(rhs)
        } else if rhs.num == 0 {
            Some(self)
        } else if self.unit == rhs.unit {
            proof {
                lemma_prod_den(self.num as int, rhs.den as int);
                lemma_prod_den(rhs.num as int, self.den as int);
                lemma_prod_den(self.den as int, rhs.den as int);
                assert(self.den as int * rhs.den as int >= 1) by (nonlinear_arith)
                    requires self.den >= 1, rhs.den >= 1,
                ;
                lemma_norm_wf(
                    self.num as int * rhs.den as int + rhs.num as int * self.den as int,
                    self.den as int * rhs.den as int,
                    self.unit,
                );
            }
            let n: i128 = (self.num as i128) * (rhs.den as i128)
                + (rhs.num as i128) * (self.den as i128);
            let d: i128 = (self.den as i128) * (rhs.den as i128);
            norm_parts(n, d, self.unit)
        } else {
            None
        }
    }

    /// Difference of two constants, exactly, or `None`.
    pub fn checked_sub(self, rhs: Num) -> (r: Option<Num>)
        requires
            self.wf(),
            rhs.wf(),
        ensures
            r == spec_sub(self, rhs),
            r matches Some(v) ==> v.wf(),
    {
        if rhs.num == 0 {
            Some(self)
        } else if self.num == 0 {
            proof {
                lemma_norm_wf(-rhs.num as int, rhs.den as int, rhs.unit);
            }
            norm_parts(-(rhs.num as i128), rhs.den as i128, rhs.unit)
        } else if self.unit == rhs.unit {
            proof {
                lemma_prod_den(self.num as int, rhs.den as int);
                lemma_prod_den(rhs.num as int, self.den as int);
                lemma_prod_den(self.den as int, rhs.den as int);
                assert(self.den as int * rhs.den as int >= 1) by (nonlinear_arith)
                    requires self.den >= 1, rhs.den >= 1,
                ;
                lemma_norm_wf(
                    self.num as int * rhs.den as int - rhs.num as int * self.den as int,
                    self.den as int * rhs.den as int,
                    self.unit,
                );
            }
            let n: i128 = (self.num as i128) * (rhs.den as i128)
                - (rhs.num as i128) * (self.den as i128);
            let d: i128 = (self.den as i128) * (rhs.den as i128);
            norm_parts(n, d, self.unit)
        } else {
            None
        }
    }

    /// Product of two constants, exactly, or `None`.
    pub fn checked_mul(self, rhs: Num) -> (r: Option<Num>)
        requires
            self.wf(),
            rhs.wf(),
        ensures
            r == spec_mul(self, rhs),
            r matches Some(v) ==> v.wf(),
    {
        if self.num == 0 || rhs.num == 0 {
            proof {
                lemma_gcd_one(0);
            }
            Some(Num { num: 0, den: 1, unit: NumUnit::One })
        } else {
            let u: NumUnit = if matches!(self.unit, NumUnit::One) {
                rhs.unit
            } else if matches!(rhs.unit, NumUnit::One) {
                self.unit
            } else {
                return None;
            };
            proof {
                lemma_prod_i64(self.num as int, rhs.num as int);
                lemma_prod_den(self.den as int, rhs.den as int);
                assert(self.den as int * rhs.den as int >= 1) by (nonlinear_arith)
                    requires self.den >= 1, rhs.den >= 1,
                ;
                lemma_norm_wf(
                    self.num as int * rhs.num as int,
                    self.den as int * rhs.den as int,
                    u,
                );
            }
            let n: i128 = (self.num as i128) * (rhs.num as i128);
            let d: i128 = (self.den as i128) * (rhs.den as i128);
            norm_parts(n, d, u)
        }
    }

    /// Quotient of two constants, exactly, or `None`; division by an exact
    /// zero is never folded.
    pub fn checked_div(self, rhs: Num) -> (r: Option<Num>)
        requires
            self.wf(),
            rhs.wf(),
        ensures
            r == spec_div(self, rhs),
            r matches Some(v) ==> v.wf(),
    {
        if rhs.num == 0 {
            None
        } else if self.num == 0 {
            proof {
                lemma_gcd_one(0);
            }
            Some(Num { num: 0, den: 1, unit: NumUnit::One })
        } else {
            let u: NumUnit = if matches!(rhs.unit, NumUnit::One) {
                self.unit
            } else if self.unit == rhs.unit {
                NumUnit::One
            } else {
                return None;
            };
            proof {
                lemma_prod_den(self.num as int, rhs.den as int);
                lemma_prod_i64(self.den as int, rhs.num as int);
                assert(self.den as int * rhs.num as int != 0) by (nonlinear_arith)
                    requires self.den >= 1, rhs.num != 0,
                ;
                lemma_norm_wf(
                    self.num as int * rhs.den as int,
                    self.den as int * rhs.num as int,
                    u,
                );
            }
            let n: i128 = (self.num as i128) * (rhs.den as i128);
            let d: i128 = (self.den as i128) * (rhs.num as i128);
            norm_parts(n, d, u)
        }
    }

    /// Power with an integer exponent, exactly, or `None`.
    pub fn checked_pow(self, rhs: Num) -> (r: Option<Num>)
        requires
            self.wf(),
            rhs.wf(),
        ensures
            r == spec_pow(self, rhs),
            r matches Some(v) ==> v.wf(),
    {
        if !matches!(self.unit, NumUnit::One) || !matches!(rhs.unit, NumUnit::One)
            || rhs.den != 1 {
            return None;
        }
        if rhs.num >= 0 {
            pow_nat(self, rhs.num as u64)
        } else if self.num == 0 {
            None
        } else {
            proof {
                lemma_norm_wf(self.den as int, self.num as int, NumUnit::One);
            }
            let inv = norm_parts(self.den as i128, self.num as i128, NumUnit::One);
            match inv {
                Some(ia) => {
                    let k: u64 = (-(rhs.num as i128)) as u64;
                    pow_nat(ia, k)
                }
                None => None,
            }
        }
    }
}

/// A power of the exact zero collapses to one or zero.
proof fn lemma_pow_nat_zero(a: Num, k: nat)
    requires
        a.num == 0,
    ensures
        spec_pow_nat(a, k) == if k == 0 {
            Some(Num::spec_one())
        } else {
            Some(Num::spec_zero())
        },
    decreases k,
{
    if k > 0 {
        lemma_pow_nat_zero(a, (k - 1) as nat);
    }
}

/// Every power of one is one.
proof fn lemma_pow_nat_one(k: nat)
    ensures
        spec_pow_nat(Num::spec_one(), k) == Some(Num::spec_one()),
    decreases k,
{
    if k > 0 {
        lemma_pow_nat_one((k - 1) as nat);
        lemma_norm_units();
        assert(spec_mul(Num::spec_one(), Num::spec_one())
            == spec_norm(1, 1, NumUnit::One));
    }
}

/// Powers of minus one alternate with the exponent's parity.
proof fn lemma_pow_nat_neg_one(k: nat)
    ensures
        spec_pow_nat(Num { num: -1i64, den: 1, unit: NumUnit::One }, k) == Some(
            if k % 2 == 0 {
                Num::spec_one()
            } else {
                Num { num: -1i64, den: 1, unit: NumUnit::One }
            },
        ),
    decreases k,
{
    let m = Num { num: -1i64, den: 1, unit: NumUnit::One };
    if k > 0 {
        lemma_pow_nat_neg_one((k - 1) as nat);
        lemma_norm_units();
        let one = Num::spec_one();
        assert(spec_unit_mul(NumUnit::One, NumUnit::One) == Some(NumUnit::One));
        assert(one.num * m.num == -1 && one.den * m.den == 1);
        assert(m.num * m.num == 1 && m.den * m.den == 1);
        assert(spec_mul(one, m) == spec_norm(-1, 1, NumUnit::One));
        assert(spec_mul(m, m) == spec_norm(1, 1, NumUnit::One));
    }
}

/// Once a power fails to be representable, every later power fails too.
proof fn lemma_pow_nat_none_after(a: Num, j: nat, k: nat)
    requires
        spec_pow_nat(a, j) is None,
        j <= k,
    ensures
        spec_pow_nat(a, k) is None,
    decreases k,
{
    if k > j {
        lemma_pow_nat_none_after(a, j, (k - 1) as nat);
    }
}

/// Iterated exact multiplication; stops at the first unrepresentable step.
fn pow_nat(base: Num, k: u64) -> (r: Option<Num>)
    requires
        base.wf(),
    ensures
        r == spec_pow_nat(base, k as nat),
        r matches Some(v) ==> v.wf(),
{
    proof {
        lemma_gcd_one(1);
    }
    if base.num == 0 {
        proof {
            lemma_pow_nat_zero(base, k as nat);
        }
        if k == 0 {
            return Some(Num { num: 1, den: 1, unit: NumUnit::One });
        } else {
            return Some(Num { num: 0, den: 1, unit: NumUnit::One });
        }
    }
    if base.num == 1 && base.den == 1 && matches!(base.unit, NumUnit::One) {
        proof {
            lemma_pow_nat_one(k as nat);
        }
        return Some(Num { num: 1, den: 1, unit: NumUnit::One });
    }
    if base.num == -1 && base.den == 1 && matches!(base.unit, NumUnit::One) {
        proof {
            lemma_pow_nat_neg_one(k as nat);
        }
        if k % 2 == 0 {
            return Some(Num { num: 1, den: 1, unit: NumUnit::One });
        } else {
            return Some(Num { num: -1i64, den: 1, unit: NumUnit::One });
        }
    }
    let mut acc = Num { num: 1, den: 1, unit: NumUnit::One };
    let mut i: u64 = 0;
    while i < k
        invariant
            base.wf(),
            acc.wf(),
            i <= k,
            spec_pow_nat(base, i as nat) == Some(acc),
        decreases k - i,
    {
        match acc.checked_mul(base) {
            Some(v) => {
                acc = v;
                i = i + 1;
            }
            None => {
                proof {
                    lemma_pow_nat_none_after(base, (i + 1) as nat, k as nat);
                }
                return None;
            }
        }
    }
    Some(acc)
}


/// Integers are always normalized.
pub proof fn lemma_int_wf(n: i64)
    ensures
        Num::spec_int(n).wf(),
{
    lemma_gcd_one(abs(n as int));
}

/// One half is normalized.
pub proof fn lemma_half_norm()
    ensures
        spec_norm(1, 2, NumUnit::One) == Some(Num { num: 1i64, den: 2, unit: NumUnit::One }),
        (Num { num: 1i64, den: 2, unit: NumUnit::One }).wf(),
{
    assert(spec_gcd(1, 0) == 1);
    assert(spec_gcd(2, 1) == spec_gcd(1, 0));
    assert(spec_gcd(1, 2) == spec_gcd(2, 1));
    assert(abs(1) == 1nat);
    assert(1int / 1int == 1int);
    assert(2int / 1int == 2int);
}

/// An exact sum of normalized constants is normalized.
pub proof fn lemma_spec_add_wf(a: Num, b: Num)
    requires
        a.wf(),
        b.wf(),
    ensures
        spec_add(a, b) matches Some(v) ==> v.wf(),
{
    if a.num != 0 && b.num != 0 && a.unit == b.unit {
        lemma_norm_wf(a.num * b.den + b.num * a.den, a.den * b.den, a.unit);
    }
}

/// An exact difference of normalized constants is normalized.
pub proof fn lemma_spec_sub_wf(a: Num, b: Num)
    requires
        a.wf(),
        b.wf(),
    ensures
        spec_sub(a, b) matches Some(v) ==> v.wf(),
{
    if b.num != 0 {
        if a.num == 0 {
            lemma_norm_wf(-b.num as int, b.den as int, b.unit);
        } else if a.unit == b.unit {
            lemma_norm_wf(a.num * b.den - b.num * a.den, a.den * b.den, a.unit);
        }
    }
}

/// An exact product of normalized constants is normalized.
pub proof fn lemma_spec_mul_wf(a: Num, b: Num)
    requires
        a.wf(),
        b.wf(),
    ensures
        spec_mul(a, b) matches Some(v) ==> v.wf(),
{
    if a.num != 0 && b.num != 0 {
        lemma_gcd_one(0);
        match spec_unit_mul(a.unit, b.unit) {
            Some(u) => lemma_norm_wf(a.num * b.num, a.den * b.den, u),
            None => {}
        }
    } else {
        lemma_gcd_one(0);
    }
}

/// An exact quotient of normalized constants is normalized.
pub proof fn lemma_spec_div_wf(a: Num, b: Num)
    requires
        a.wf(),
        b.wf(),
    ensures
        spec_div(a, b) matches Some(v) ==> v.wf(),
{
    lemma_gcd_one(0);
    if b.num != 0 && a.num != 0 {
        match spec_unit_div(a.unit, b.unit) {
            Some(u) => lemma_norm_wf(a.num * b.den, a.den * b.num, u),
            None => {}
        }
    }
}

/// An exact natural power of a normalized constant is normalized.
pub proof fn lemma_spec_pow_nat_wf(a: Num, k: nat)
    requires
        a.wf(),
    ensures
        spec_pow_nat(a, k) matches Some(v) ==> v.wf(),
    decreases k,
{
    lemma_gcd_one(1);
    if k > 0 {
        lemma_spec_pow_nat_wf(a, (k - 1) as nat);
        match spec_pow_nat(a, (k - 1) as nat) {
            Some(p) => lemma_spec_mul_wf(p, a),
            None => {}
        }
    }
}

/// An exact power of a normalized constant is normalized.
pub proof fn lemma_spec_pow_wf(a: Num, b: Num)
    requires
        a.wf(),
        b.wf(),
    ensures
        spec_pow(a, b) matches Some(v) ==> v.wf(),
{
    if a.unit == NumUnit::One && b.unit == NumUnit::One && b.den == 1 {
        if b.num >= 0 {
            lemma_spec_pow_nat_wf(a, b.num as nat);
        } else if a.num != 0 {
            lemma_norm_wf(a.den as int, a.num as int, NumUnit::One);
            match spec_inv(a) {
                Some(ia) => lemma_spec_pow_nat_wf(ia, (-(b.num as int)) as nat),
                None => {}
            }
        }
    }
}


/// `gcd(1, d) == 1` for positive `d`.
pub proof fn lemma_gcd_one_left(d: nat)
    requires
        d >= 1,
    ensures
        spec_gcd(1, d) == 1,
{
    if d == 1 {
        lemma_gcd_one(1);
    } else {
        lemma_small_mod(1, d);
        assert(spec_gcd(1, d) == spec_gcd(d, 1));
        lemma_gcd_one(d);
    }
}

/// A fraction with numerator `1` or `-1` and a positive denominator is its
/// own normal form.
pub proof fn lemma_unit_frac_wf(n: i64, d: i64, u: NumUnit)
    requires
        n == 1 || n == -1,
        d >= 1,
    ensures
        (Num { num: n, den: d, unit: u }).wf(),
        spec_norm(n as int, d as int, u) == Some(Num { num: n, den: d, unit: u }),
{
    lemma_gcd_one_left(d as nat);
    assert(abs(n as int) == 1);
    assert(n as int / 1int == n as int);
    assert(d as int / 1int == d as int);
}

} // verus!



