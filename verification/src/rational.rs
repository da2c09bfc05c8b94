//! Exact rational arithmetic for coordinate computations.
//!
//! A `Rational` is a fraction of two `i64` values with a positive
//! denominator.  Operations compute in `i128`, so intermediate products never
//! wrap; a result is returned only when it fits back into the `i64` range,
//! otherwise the operation reports `None`.  The mathematical content of every
//! operation is stated over the ghost pair type `Rat`.

use vstd::prelude::*;

verus! {

/// Ghost model of a fraction: numerator `n` over denominator `d`.
pub ghost struct Rat {
    pub n: int,
    pub d: int,
}

/// A representable fraction: positive denominator, both fields within the
/// symmetric `i64` range (so negation never overflows).
pub open spec fn rat_wf(r: Rat) -> bool {
    &&& 1 <= r.d <= i64::MAX as int
    &&& -(i64::MAX as int) <= r.n <= i64::MAX as int
}

/// Value equality of fractions, by cross multiplication.
pub open spec fn rat_eq(a: Rat, b: Rat) -> bool {
    a.n * b.d == b.n * a.d
}

/// Value ordering of fractions (meaningful when both denominators are positive).
pub open spec fn rat_le(a: Rat, b: Rat) -> bool {
    a.n * b.d <= b.n * a.d
}

/// Strict value ordering of fractions.
pub open spec fn rat_lt(a: Rat, b: Rat) -> bool {
    a.n * b.d < b.n * a.d
}

/// Sum of two fractions; a common denominator is kept as it is.
pub open spec fn rat_add(a: Rat, b: Rat) -> Rat {
    if a.d == b.d {
        Rat { n: a.n + b.n, d: a.d }
    } else {
        Rat { n: a.n * b.d + b.n * a.d, d: a.d * b.d }
    }
}

/// Negation of a fraction.
pub open spec fn rat_neg(a: Rat) -> Rat {
    Rat { n: -a.n, d: a.d }
}

/// Difference of two fractions.
pub open spec fn rat_sub(a: Rat, b: Rat) -> Rat {
    rat_add(a, rat_neg(b))
}

/// Product of two fractions.
pub open spec fn rat_mul(a: Rat, b: Rat) -> Rat {
    Rat { n: a.n * b.n, d: a.d * b.d }
}

/// Quotient of two fractions; the sign moves to the numerator so the
/// denominator stays positive.  Meaningful only when `b.n != 0`.
pub open spec fn rat_div(a: Rat, b: Rat) -> Rat {
    if b.n < 0 {
        Rat { n: -(a.n * b.d), d: -(a.d * b.n) }
    } else {
        Rat { n: a.n * b.d, d: a.d * b.n }
    }
}

/// Absolute value of a fraction.
pub open spec fn rat_abs(a: Rat) -> Rat {
    if a.n < 0 {
        rat_neg(a)
    } else {
        a
    }
}

/// The smaller of two fractions by value.
pub open spec fn rat_min(a: Rat, b: Rat) -> Rat {
    if rat_le(a, b) {
        a
    } else {
        b
    }
}

/// The larger of two fractions by value.
pub open spec fn rat_max(a: Rat, b: Rat) -> Rat {
    if rat_le(a, b) {
        b
    } else {
        a
    }
}

/// The fraction representing the integer `i`.
pub open spec fn rat_from_int(i: int) -> Rat {
    Rat { n: i, d: 1 }
}

/// The fraction built from a numerator and a non-zero denominator, with the
/// sign normalized onto the numerator.
pub open spec fn rat_new(n: int, d: int) -> Rat {
    if d < 0 {
        Rat { n: -n, d: -d }
    } else {
        Rat { n: n, d: d }
    }
}

/// Whether the fraction's value is zero.
pub open spec fn rat_is_zero(a: Rat) -> bool {
    a.n == 0
}

/// `a` raised to the power `e`, by repeated multiplication from the left.
pub open spec fn rat_pow(a: Rat, e: nat) -> Rat
    decreases e,
{
    if e == 0 {
        Rat { n: 1, d: 1 }
    } else if e == 1 {
        a
    } else {
        rat_mul(rat_pow(a, (e - 1) as nat), a)
    }
}

/// Whether every intermediate power of `a` up to `a^e` is representable.
pub open spec fn rat_pow_fits(a: Rat, e: nat) -> bool
    decreases e,
{
    if e <= 1 {
        true
    } else {
        rat_pow_fits(a, (e - 1) as nat) && rat_wf(rat_mul(rat_pow(a, (e - 1) as nat), a))
    }
}

/// Bound on a product from bounds on its factors.
pub proof fn lemma_mul_bound(a: int, b: int, m1: int, m2: int)
    requires
        0 <= m1,
        0 <= m2,
        -m1 <= a <= m1,
        -m2 <= b <= m2,
    ensures
        -(m1 * m2) <= a * b <= m1 * m2,
{
    assert(-(m1 * m2) <= a * b <= m1 * m2) by (nonlinear_arith)
        requires
            0 <= m1,
            0 <= m2,
            -m1 <= a <= m1,
            -m2 <= b <= m2,
    ;
}

/// A product of positive factors is positive.
pub proof fn lemma_mul_pos(a: int, b: int)
    requires
        1 <= a,
        1 <= b,
    ensures
        1 <= a * b,
{
    assert(1 <= a * b) by (nonlinear_arith)
        requires
            1 <= a,
            1 <= b,
    ;
}

/// A product of a positive and a negative factor is negative.
pub proof fn lemma_mul_pos_neg(a: int, b: int)
    requires
        1 <= a,
        b <= -1,
    ensures
        a * b <= -1,
{
    assert(a * b <= -1) by (nonlinear_arith)
        requires
            1 <= a,
            b <= -1,
    ;
}

/// Once a power fails to fit, every higher power fails to fit as well.
pub proof fn lemma_pow_fits_monotone(a: Rat, k: nat, e: nat)
    requires
        k <= e,
        !rat_pow_fits(a, k),
    ensures
        !rat_pow_fits(a, e),
    decreases e,
{
    if e > k {
        lemma_pow_fits_monotone(a, k, (e - 1) as nat);
    }
}

/// An exact fraction of two machine integers with a positive denominator.
#[derive(Clone, Copy, Debug)]
pub struct Rational {
    num: i64,
    den: i64,
}

impl View for Rational {
    type V = Rat;

    closed spec fn view(&self) -> Rat {
        Rat { n: self.num as int, d: self.den as int }
    }
}

impl Rational {
    /// The representation invariant: see `rat_wf`.
    pub open spec fn wf(&self) -> bool {
        rat_wf(self@)
    }

    /// Builds the fraction `num / den`, normalizing the sign onto the
    /// numerator.  The extreme value `i64::MIN` is excluded so that the
    /// normalization cannot overflow.
    pub fn new(num: i64, den: i64) -> (r: Rational)
        requires
            den != 0,
            num != i64::MIN,
            den != i64::MIN,
        ensures
            r.wf(),
            r@ == rat_new(num as int, den as int),
    {
        if den < 0 {
            Rational { num: -num, den: -den }
        } else {
            Rational { num, den }
        }
    }

    /// The fraction equal to the integer `i`.
    pub fn from_int(i: i64) -> (r: Rational)
        requires
            i != i64::MIN,
        ensures
            r.wf(),
            r@ == rat_from_int(i as int),
    {
        Rational { num: i, den: 1 }
    }

    /// The fraction equal to zero.
    pub fn zero() -> (r: Rational)
        ensures
            r.wf(),
            r@ == rat_from_int(0),
    {
        Rational { num: 0, den: 1 }
    }

    /// Whether the fraction's value is zero.
    pub fn is_zero(&self) -> (r: bool)
        ensures
            r == rat_is_zero(self@),
    {
        self.num == 0
    }

    /// Whether both fractions have the same representation (the same
    /// numerator and the same denominator).  Finer than `==`, which compares
    /// values: `2/4` and `1/2` are `==` but not of the same representation.
    pub fn same_repr(&self, other: &Rational) -> (r: bool)
        ensures
            r == (self@ == other@),
    {
        self.num == other.num && self.den == other.den
    }

    /// Whether the fraction's value is negative (the denominator being
    /// positive, the numerator carries the sign).
    pub fn is_neg(&self) -> (r: bool)
        ensures
            r == (self@.n < 0),
    {
        self.num < 0
    }

    /// Packs an `i128` numerator and denominator back into `i64` fields,
    /// reporting `None` when the fraction is out of range.
    fn make(n: i128, d: i128) -> (r: Option<Rational>)
        requires
            1 <= d,
        ensures
            match r {
                Some(v) => v.wf() && v@ == (Rat { n: n as int, d: d as int }),
                None => !rat_wf(Rat { n: n as int, d: d as int }),
            },
    {
        if -(i64::MAX as i128) <= n && n <= i64::MAX as i128 && d <= i64::MAX as i128 {
            Some(Rational { num: n as i64, den: d as i64 })
        } else {
            None
        }
    }

    /// Sum; `None` exactly when the result is not representable.
    pub fn add(&self, other: &Rational) -> (r: Option<Rational>)
        requires
            self.wf(),
            other.wf(),
        ensures
            match r {
                Some(v) => v.wf() && v@ == rat_add(self@, other@),
                None => !rat_wf(rat_add(self@, other@)),
            },
    {
        let a_n: i128 = self.num as i128;
        let a_d: i128 = self.den as i128;
        let b_n: i128 = other.num as i128;
        let b_d: i128 = other.den as i128;
        if self.den == other.den {
            Rational::make(a_n + b_n, a_d)
        } else {
            proof {
                lemma_mul_bound(a_n as int, b_d as int, i64::MAX as int, i64::MAX as int);
                lemma_mul_bound(b_n as int, a_d as int, i64::MAX as int, i64::MAX as int);
                lemma_mul_bound(a_d as int, b_d as int, i64::MAX as int, i64::MAX as int);
                lemma_mul_pos(a_d as int, b_d as int);
            }
            Rational::make(a_n * b_d + b_n * a_d, a_d * b_d)
        }
    }

    /// Negation; always representable thanks to the symmetric range.
    pub fn neg(&self) -> (r: Rational)
        requires
            self.wf(),
        ensures
            r.wf(),
            r@ == rat_neg(self@),
    {
        Rational { num: -self.num, den: self.den }
    }

    /// Difference; `None` exactly when the result is not representable.
    pub fn sub(&self, other: &Rational) -> (r: Option<Rational>)
        requires
            self.wf(),
            other.wf(),
        ensures
            match r {
                Some(v) => v.wf() && v@ == rat_sub(self@, other@),
                None => !rat_wf(rat_sub(self@, other@)),
            },
    {
        let n: Rational = other.neg();
        self.add(&n)
    }

    /// Product; `None` exactly when the result is not representable.
    pub fn mul(&self, other: &Rational) -> (r: Option<Rational>)
        requires
            self.wf(),
            other.wf(),
        ensures
            match r {
                Some(v) => v.wf() && v@ == rat_mul(self@, other@),
                None => !rat_wf(rat_mul(self@, other@)),
            },
    {
        let a_n: i128 = self.num as i128;
        let a_d: i128 = self.den as i128;
        let b_n: i128 = other.num as i128;
        let b_d: i128 = other.den as i128;
        proof {
            lemma_mul_bound(a_n as int, b_n as int, i64::MAX as int, i64::MAX as int);
            lemma_mul_bound(a_d as int, b_d as int, i64::MAX as int, i64::MAX as int);
            lemma_mul_pos(a_d as int, b_d as int);
        }
        Rational::make(a_n * b_n, a_d * b_d)
    }

    /// Quotient; `None` exactly when the result is not representable.
    pub fn div(&self, other: &Rational) -> (r: Option<Rational>)
        requires
            self.wf(),
            other.wf(),
            other@.n != 0,
        ensures
            match r {
                Some(v) => v.wf() && v@ == rat_div(self@, other@),
                None => !rat_wf(rat_div(self@, other@)),
            },
    {
        let a_n: i128 = self.num as i128;
        let a_d: i128 = self.den as i128;
        let b_n: i128 = other.num as i128;
        let b_d: i128 = other.den as i128;
        proof {
            lemma_mul_bound(a_n as int, b_d as int, i64::MAX as int, i64::MAX as int);
            lemma_mul_bound(a_d as int, b_n as int, i64::MAX as int, i64::MAX as int);
        }
        if other.num < 0 {
            proof {
                lemma_mul_pos_neg(a_d as int, b_n as int);
            }
            Rational::make(-(a_n * b_d), -(a_d * b_n))
        } else {
            proof {
                lemma_mul_pos(a_d as int, b_n as int);
            }
            Rational::make(a_n * b_d, a_d * b_n)
        }
    }

    /// Absolute value; always representable thanks to the symmetric range.
    pub fn abs(&self) -> (r: Rational)
        requires
            self.wf(),
        ensures
            r.wf(),
            r@ == rat_abs(self@),
    {
        if self.num < 0 {
            self.neg()
        } else {
            *self
        }
    }

    /// Whether `self <= other` by value.
    pub fn le(&self, other: &Rational) -> (r: bool)
        ensures
            r == rat_le(self@, other@),
    {
        let a_n: i128 = self.num as i128;
        let a_d: i128 = self.den as i128;
        let b_n: i128 = other.num as i128;
        let b_d: i128 = other.den as i128;
        proof {
            lemma_mul_bound(a_n as int, b_d as int, 0x8000_0000_0000_0000, 0x8000_0000_0000_0000);
            lemma_mul_bound(b_n as int, a_d as int, 0x8000_0000_0000_0000, 0x8000_0000_0000_0000);
        }
        a_n * b_d <= b_n * a_d
    }

    /// Whether `self < other` by value.
    pub fn lt(&self, other: &Rational) -> (r: bool)
        ensures
            r == rat_lt(self@, other@),
    {
        let a_n: i128 = self.num as i128;
        let a_d: i128 = self.den as i128;
        let b_n: i128 = other.num as i128;
        let b_d: i128 = other.den as i128;
        proof {
            lemma_mul_bound(a_n as int, b_d as int, 0x8000_0000_0000_0000, 0x8000_0000_0000_0000);
            lemma_mul_bound(b_n as int, a_d as int, 0x8000_0000_0000_0000, 0x8000_0000_0000_0000);
        }
        a_n * b_d < b_n * a_d
    }

    /// The larger of two fractions by value.
    pub fn max(&self, other: &Rational) -> (r: Rational)
        requires
            self.wf(),
            other.wf(),
        ensures
            r.wf(),
            r@ == rat_max(self@, other@),
    {
        if self.le(other) {
            *other
        } else {
            *self
        }
    }

    /// `self` raised to the power `exp`; `None` exactly when some
    /// intermediate power is not representable.
    pub fn power(&self, exp: u32) -> (r: Option<Rational>)
        requires
            self.wf(),
        ensures
            match r {
                Some(v) => v.wf() && v@ == rat_pow(self@, exp as nat) && rat_pow_fits(
                    self@,
                    exp as nat,
                ),
                None => !rat_pow_fits(self@, exp as nat),
            },
    {
        if exp == 0 {
            return Some(Rational::from_int(1));
        }
        let mut result: Rational = *self;
        let mut v: u32 = 1;
        while v < exp
            invariant
                1 <= v <= exp,
                self.wf(),
                result.wf(),
                result@ == rat_pow(self@, v as nat),
                rat_pow_fits(self@, v as nat),
            decreases exp - v,
        {
            let next: Option<Rational> = result.mul(self);
            match next {
                Some(x) => {
                    result = x;
                },
                None => {
                    proof {
                        lemma_pow_fits_monotone(self@, (v + 1) as nat, exp as nat);
                    }
                    return None;
                },
            }
            v = v + 1;
        }
        Some(result)
    }
}

impl PartialEq for Rational {
    /// Value equality by cross multiplication; unreduced forms of the same
    /// value compare equal.
    fn eq(&self, other: &Rational) -> (r: bool) {
        let a_n: i128 = self.num as i128;
        let a_d: i128 = self.den as i128;
        let b_n: i128 = other.num as i128;
        let b_d: i128 = other.den as i128;
        proof {
            lemma_mul_bound(a_n as int, b_d as int, 0x8000_0000_0000_0000, 0x8000_0000_0000_0000);
            lemma_mul_bound(b_n as int, a_d as int, 0x8000_0000_0000_0000, 0x8000_0000_0000_0000);
        }
        a_n * b_d == b_n * a_d
    }
}

impl vstd::std_specs::cmp::PartialEqSpecImpl for Rational {
    open spec fn obeys_eq_spec() -> bool {
        true
    }

    open spec fn eq_spec(&self, other: &Rational) -> bool {
        rat_eq(self@, other@)
    }
}

impl Eq for Rational {

}


/// Value equality is transitive through a fraction with positive denominator.
pub proof fn lemma_rat_eq_trans(a: Rat, b: Rat, c: Rat)
    requires
        rat_eq(a, b),
        rat_eq(b, c),
        1 <= b.d,
    ensures
        rat_eq(a, c),
{
    assert(a.n * c.d == c.n * a.d) by (nonlinear_arith)
        requires
            a.n * b.d == b.n * a.d,
            b.n * c.d == c.n * b.d,
            1 <= b.d,
    ;
}

/// Multiplication respects value equality.
pub proof fn lemma_rat_mul_congruence(a: Rat, b: Rat, c: Rat, d: Rat)
    requires
        rat_eq(a, b),
        rat_eq(c, d),
    ensures
        rat_eq(rat_mul(a, c), rat_mul(b, d)),
{
    assert((a.n * c.n) * (b.d * d.d) == (b.n * d.n) * (a.d * c.d)) by (nonlinear_arith)
        requires
            a.n * b.d == b.n * a.d,
            c.n * d.d == d.n * c.d,
    ;
}

/// Multiplying by a fraction of value one keeps the value.
pub proof fn lemma_rat_mul_one(s: Rat, k: Rat)
    requires
        rat_eq(k, rat_from_int(1)),
    ensures
        rat_eq(rat_mul(s, k), s),
{
    assert(k.n == k.d);
    assert((s.n * k.n) * s.d == s.n * (s.d * k.d)) by (nonlinear_arith)
        requires
            k.n == k.d,
    ;
}

/// Multiplication of fraction representations is associative.
pub proof fn lemma_rat_mul_assoc(a: Rat, b: Rat, c: Rat)
    ensures
        rat_mul(rat_mul(a, b), c) == rat_mul(a, rat_mul(b, c)),
{
    assert((a.n * b.n) * c.n == a.n * (b.n * c.n)) by (nonlinear_arith);
    assert((a.d * b.d) * c.d == a.d * (b.d * c.d)) by (nonlinear_arith);
}

/// Adding then subtracting a fraction returns to the first value.
pub proof fn lemma_rat_add_sub_cancel(u: Rat, v: Rat)
    requires
        1 <= u.d,
        1 <= v.d,
    ensures
        rat_eq(rat_sub(rat_add(u, v), v), u),
{
    let s = rat_add(u, v);
    if u.d == v.d {
        assert(rat_eq(rat_sub(s, v), u));
    } else {
        if s.d == v.d {
            assert(u.d == 1) by (nonlinear_arith)
                requires
                    u.d * v.d == v.d,
                    1 <= u.d,
                    1 <= v.d,
            ;
            assert((u.n * v.d + v.n * u.d + (-v.n)) * u.d == u.n * v.d) by (nonlinear_arith)
                requires
                    u.d == 1,
            ;
        } else {
            assert(((u.n * v.d + v.n * u.d) * v.d + (-v.n) * (u.d * v.d)) * u.d == u.n * ((u.d
                * v.d) * v.d)) by (nonlinear_arith);
        }
    }
}

/// Subtracting then adding a fraction returns to the first value.
pub proof fn lemma_rat_sub_add_cancel(p: Rat, c: Rat)
    requires
        1 <= p.d,
        1 <= c.d,
    ensures
        rat_eq(rat_add(rat_sub(p, c), c), p),
{
    let s = rat_sub(p, c);
    if p.d == c.d {
        assert(rat_eq(rat_add(s, c), p));
    } else {
        if s.d == c.d {
            assert(p.d == 1) by (nonlinear_arith)
                requires
                    p.d * c.d == c.d,
                    1 <= p.d,
                    1 <= c.d,
            ;
            assert((p.n * c.d + (-c.n) * p.d + c.n) * p.d == p.n * c.d) by (nonlinear_arith)
                requires
                    p.d == 1,
            ;
        } else {
            assert(((p.n * c.d + (-c.n) * p.d) * c.d + c.n * (p.d * c.d)) * p.d == p.n * ((p.d
                * c.d) * c.d)) by (nonlinear_arith);
        }
    }
}

/// Addition respects value equality in its first argument.
#[verifier::rlimit(50)]
pub proof fn lemma_rat_add_congruence(u: Rat, w: Rat, v: Rat)
    requires
        rat_eq(u, w),
        1 <= u.d,
        1 <= w.d,
        1 <= v.d,
    ensures
        rat_eq(rat_add(u, v), rat_add(w, v)),
{
    if u.d == v.d {
        if w.d == v.d {
            assert((u.n + v.n) * w.d == (w.n + v.n) * u.d) by (nonlinear_arith)
                requires
                    u.n * w.d == w.n * u.d,
                    u.d == v.d,
                    w.d == v.d,
            ;
        } else {
            assert((u.n + v.n) * (w.d * v.d) == (w.n * v.d + v.n * w.d) * u.d) by (nonlinear_arith)
                requires
                    u.n * w.d == w.n * u.d,
                    u.d == v.d,
            ;
        }
    } else {
        if w.d == v.d {
            assert((u.n * v.d + v.n * u.d) * w.d == (w.n + v.n) * (u.d * v.d)) by (nonlinear_arith)
                requires
                    u.n * w.d == w.n * u.d,
                    w.d == v.d,
            ;
        } else {
            assert((u.n * v.d + v.n * u.d) * (w.d * v.d) == (w.n * v.d + v.n * w.d) * (u.d * v.d))
                by (nonlinear_arith)
                requires
                    u.n * w.d == w.n * u.d,
            ;
        }
    }
}

} // verus!
