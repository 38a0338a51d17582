//! Exact rational numbers used as coordinates.
//!
//! An executable rational is a pair of `i64`s (`num / den`).  Its
//! mathematical model is [`Ratio`], a pair of unbounded integers.  Comparisons
//! are computed exactly in `i128` and never fail; the arithmetic operations
//! return `None` exactly when the result, written over the product
//! denominator without reduction, does not fit the `i64` representation.

use vstd::prelude::*;

verus! {

/// Mathematical model of a rational number: an unbounded numerator and
/// denominator.  A well-formed ratio has a positive denominator; all
/// operations below keep the denominator positive when given well-formed
/// arguments that fit.
pub ghost struct Ratio {
    pub n: int,
    pub d: int,
}

impl Ratio {
    /// A well-formed ratio has a positive denominator, so that the sign of
    /// the numerator is the sign of the value and cross-multiplied
    /// comparisons mean value comparisons.
    pub open spec fn wf(self) -> bool {
        self.d > 0
    }
}

/// The exact result of an operation fits the executable representation:
/// both components are `i64`s and the denominator is positive.
pub open spec fn fits(r: Ratio) -> bool {
    &&& i64::MIN as int <= r.n <= i64::MAX as int
    &&& 1 <= r.d <= i64::MAX as int
}

/// Value equality of two ratios, by cross-multiplication.
pub open spec fn ratio_eq(a: Ratio, b: Ratio) -> bool {
    a.n * b.d == b.n * a.d
}

/// Value order of two ratios, by cross-multiplication (meaningful for
/// well-formed ratios, whose denominators are positive).
pub open spec fn ratio_le(a: Ratio, b: Ratio) -> bool {
    a.n * b.d <= b.n * a.d
}

/// Strict value order of two ratios, by cross-multiplication.
pub open spec fn ratio_lt(a: Ratio, b: Ratio) -> bool {
    a.n * b.d < b.n * a.d
}

/// Exact sum over the product denominator, without reduction.
pub open spec fn ratio_add(a: Ratio, b: Ratio) -> Ratio {
    Ratio { n: a.n * b.d + b.n * a.d, d: a.d * b.d }
}

/// Exact difference over the product denominator, without reduction.
pub open spec fn ratio_sub(a: Ratio, b: Ratio) -> Ratio {
    Ratio { n: a.n * b.d - b.n * a.d, d: a.d * b.d }
}

/// Exact product over the product denominator, without reduction.
pub open spec fn ratio_mul(a: Ratio, b: Ratio) -> Ratio {
    Ratio { n: a.n * b.n, d: a.d * b.d }
}

/// Exact quotient, with the sign moved into the numerator so that the
/// denominator stays positive.  Division by a zero-valued ratio yields a
/// zero denominator, which never fits, so the executable division reports
/// failure there.
pub open spec fn ratio_div(a: Ratio, b: Ratio) -> Ratio {
    let n0 = a.n * b.d;
    let d0 = a.d * b.n;
    if d0 < 0 {
        Ratio { n: -n0, d: -d0 }
    } else {
        Ratio { n: n0, d: d0 }
    }
}

/// The ratio is the value zero (its numerator is zero).
pub open spec fn ratio_is_zero(r: Ratio) -> bool {
    r.n == 0
}

/// An executable rational coordinate: `num / den`.  Callers should keep
/// `den` positive; every rational this library produces has a positive
/// denominator.
#[derive(Clone, Copy, PartialEq, Eq, Structural, Debug)]
pub struct Rat {
    pub num: i64,
    pub den: i64,
}

impl View for Rat {
    type V = Ratio;

    open spec fn view(&self) -> Ratio {
        Ratio { n: self.num as int, d: self.den as int }
    }
}

impl Rat {
    /// The rational `i / 1`.
    pub fn from_int(i: i64) -> (r: Rat)
        ensures
            r@ == (Ratio { n: i as int, d: 1 }),
            r@.wf(),
    {
        Rat { num: i, den: 1 }
    }

    /// The rational `num / den`, or `None` when `den` is zero or the pair
    /// cannot be brought to a positive denominator within `i64`.
    pub fn new(num: i64, den: i64) -> (r: Option<Rat>)
        ensures
            match r {
                Some(v) => v@.wf() && ratio_eq(v@, Ratio { n: num as int, d: den as int }),
                None => den == 0 || num == i64::MIN || den == i64::MIN,
            },
    {
        if den == 0 || num == i64::MIN || den == i64::MIN {
            None
        } else if den < 0 {
            let r = Rat { num: -num, den: -den };
            proof {
                assert((-(num as int)) * (den as int) == (num as int) * (-(den as int)))
                    by (nonlinear_arith);
            }
            Some(r)
        } else {
            Some(Rat { num, den })
        }
    }
}

/// Value equality of ratios is transitive when the middle denominator is
/// nonzero.
pub proof fn lemma_ratio_eq_trans(a: Ratio, b: Ratio, c: Ratio)
    by (nonlinear_arith)
    requires
        b.d != 0,
        ratio_eq(a, b),
        ratio_eq(b, c),
    ensures
        ratio_eq(a, c),
{
}

/// Strict value order of ratios is transitive for positive denominators.
pub proof fn lemma_ratio_lt_trans(a: Ratio, b: Ratio, c: Ratio)
    by (nonlinear_arith)
    requires
        a.d > 0,
        b.d > 0,
        c.d > 0,
        ratio_lt(a, b),
        ratio_lt(b, c),
    ensures
        ratio_lt(a, c),
{
}

/// A strict order is preserved when the right side is replaced by an equal
/// value, for positive denominators.
pub proof fn lemma_ratio_lt_eq_trans(a: Ratio, b: Ratio, c: Ratio)
    by (nonlinear_arith)
    requires
        a.d > 0,
        b.d > 0,
        c.d > 0,
        ratio_lt(a, b),
        ratio_eq(b, c),
    ensures
        ratio_lt(a, c),
{
}

/// A strict order is preserved when the left side is replaced by an equal
/// value, for positive denominators.
pub proof fn lemma_ratio_eq_lt_trans(a: Ratio, b: Ratio, c: Ratio)
    by (nonlinear_arith)
    requires
        a.d > 0,
        b.d > 0,
        c.d > 0,
        ratio_eq(a, b),
        ratio_lt(b, c),
    ensures
        ratio_lt(a, c),
{
}

/// Equal values stay equal under subtraction of equal values.
pub proof fn lemma_ratio_sub_congr(a: Ratio, a2: Ratio, b: Ratio, b2: Ratio)
    requires
        ratio_eq(a, a2),
        ratio_eq(b, b2),
    ensures
        ratio_eq(ratio_sub(a, b), ratio_sub(a2, b2)),
{
    assert((a.n * a2.d) * (b.d * b2.d) == (a2.n * a.d) * (b.d * b2.d));
    assert((b.n * b2.d) * (a.d * a2.d) == (b2.n * b.d) * (a.d * a2.d));
    assert((a.n * b.d) * (a2.d * b2.d) == (a2.n * b2.d) * (a.d * b.d)) by (nonlinear_arith)
        requires
            (a.n * a2.d) * (b.d * b2.d) == (a2.n * a.d) * (b.d * b2.d),
    ;
    assert((b.n * a.d) * (a2.d * b2.d) == (b2.n * a2.d) * (a.d * b.d)) by (nonlinear_arith)
        requires
            (b.n * b2.d) * (a.d * a2.d) == (b2.n * b.d) * (a.d * a2.d),
    ;
    assert((a.n * b.d - b.n * a.d) * (a2.d * b2.d) == (a.n * b.d) * (a2.d * b2.d) - (b.n * a.d) * (
    a2.d * b2.d)) by (nonlinear_arith);
    assert((a2.n * b2.d - b2.n * a2.d) * (a.d * b.d) == (a2.n * b2.d) * (a.d * b.d) - (b2.n * a2.d)
        * (a.d * b.d)) by (nonlinear_arith);
}

/// Equal values stay equal under multiplication by equal values.
pub proof fn lemma_ratio_mul_congr(a: Ratio, a2: Ratio, b: Ratio, b2: Ratio)
    requires
        ratio_eq(a, a2),
        ratio_eq(b, b2),
    ensures
        ratio_eq(ratio_mul(a, b), ratio_mul(a2, b2)),
{
    assert((a.n * a2.d) * (b.n * b2.d) == (a2.n * a.d) * (b2.n * b.d));
    assert((a.n * b.n) * (a2.d * b2.d) == (a2.n * b2.n) * (a.d * b.d)) by (nonlinear_arith)
        requires
            (a.n * a2.d) * (b.n * b2.d) == (a2.n * a.d) * (b2.n * b.d),
    ;
}

/// Multiplication of ratio values is commutative.
pub proof fn lemma_ratio_mul_comm(a: Ratio, b: Ratio)
    by (nonlinear_arith)
    ensures
        ratio_eq(ratio_mul(a, b), ratio_mul(b, a)),
{
}

/// Two ratios subtract to a zero numerator exactly when their values are
/// equal.
pub proof fn lemma_ratio_sub_zero_iff(a: Ratio, b: Ratio)
    ensures
        ratio_is_zero(ratio_sub(a, b)) == ratio_eq(a, b),
{
}

/// Two ratios each equal in value to a third with nonzero denominator are
/// equal in value to each other.
pub proof fn lemma_ratio_eq_both(a: Ratio, b: Ratio, c: Ratio)
    requires
        c.d != 0,
        ratio_eq(a, c),
        ratio_eq(b, c),
    ensures
        ratio_eq(a, b),
{
    lemma_ratio_eq_trans(a, c, b);
}

/// Reversing a subtraction negates the numerator and keeps the
/// denominator.
pub proof fn lemma_ratio_sub_reverse(u: Ratio, v: Ratio)
    by (nonlinear_arith)
    ensures
        ratio_sub(v, u).n == -ratio_sub(u, v).n,
        ratio_sub(v, u).d == ratio_sub(u, v).d,
{
}

/// The products of two negated ratios with each other's originals hold
/// equal values.
pub proof fn lemma_ratio_mul_neg_swap(a: Ratio, b: Ratio, na: Ratio, nb: Ratio)
    by (nonlinear_arith)
    requires
        na.n == -a.n,
        na.d == a.d,
        nb.n == -b.n,
        nb.d == b.d,
    ensures
        ratio_eq(ratio_mul(na, b), ratio_mul(nb, a)),
{
}

/// An order is preserved when the right side is replaced by an equal
/// value, for positive denominators.
pub proof fn lemma_ratio_le_eq_trans(a: Ratio, b: Ratio, c: Ratio)
    by (nonlinear_arith)
    requires
        a.d > 0,
        b.d > 0,
        c.d > 0,
        ratio_le(a, b),
        ratio_eq(b, c),
    ensures
        ratio_le(a, c),
{
}

/// An order is preserved when the left side is replaced by an equal
/// value, for positive denominators.
pub proof fn lemma_ratio_eq_le_trans(a: Ratio, b: Ratio, c: Ratio)
    by (nonlinear_arith)
    requires
        a.d > 0,
        b.d > 0,
        c.d > 0,
        ratio_eq(a, b),
        ratio_le(b, c),
    ensures
        ratio_le(a, c),
{
}

/// Adding `t` to a value does not decrease it exactly when `t` is at
/// least zero.
pub proof fn lemma_ratio_add_increases(u: Ratio, t: Ratio)
    by (nonlinear_arith)
    requires
        u.d > 0,
        t.d > 0,
    ensures
        ratio_le(u, ratio_add(u, t)) <==> ratio_le(Ratio { n: 0, d: 1 }, t),
        ratio_le(ratio_add(u, t), u) <==> ratio_le(t, Ratio { n: 0, d: 1 }),
{
}

/// Scaling by a factor in [0, 1] keeps a value between zero and itself.
pub proof fn lemma_ratio_mul_unit_bounds(f: Ratio, s: Ratio)
    by (nonlinear_arith)
    requires
        f.d > 0,
        s.d > 0,
        ratio_le(Ratio { n: 0, d: 1 }, f),
        ratio_le(f, Ratio { n: 1, d: 1 }),
    ensures
        ratio_le(Ratio { n: 0, d: 1 }, s) ==> ratio_le(Ratio { n: 0, d: 1 }, ratio_mul(f, s))
            && ratio_le(ratio_mul(f, s), s),
        ratio_le(s, Ratio { n: 0, d: 1 }) ==> ratio_le(ratio_mul(f, s), Ratio { n: 0, d: 1 })
            && ratio_le(s, ratio_mul(f, s)),
{
}

/// Adding to a common value keeps the order of the added parts, and
/// nothing more.
pub proof fn lemma_ratio_add_le_mono(u: Ratio, t: Ratio, s: Ratio)
    by (nonlinear_arith)
    requires
        u.d > 0,
        t.d > 0,
        s.d > 0,
    ensures
        ratio_le(ratio_add(u, t), ratio_add(u, s)) <==> ratio_le(t, s),
{
}

/// Adding the difference to `v` back onto `u` gives `v` in value.
pub proof fn lemma_ratio_add_difference(u: Ratio, v: Ratio)
    by (nonlinear_arith)
    ensures
        ratio_eq(ratio_add(u, ratio_sub(v, u)), v),
{
}

/// Adding and then subtracting the same value gives the value added.
pub proof fn lemma_ratio_add_sub_cancel(u: Ratio, t: Ratio)
    by (nonlinear_arith)
    ensures
        ratio_eq(ratio_sub(ratio_add(u, t), u), t),
{
}

/// Subtracting `v` after adding `t` to `u` is subtracting the difference
/// `v - u` from `t`, in value.
#[verifier::rlimit(50)]
pub proof fn lemma_ratio_add_sub_swap(u: Ratio, t: Ratio, v: Ratio)
    ensures
        ratio_eq(ratio_sub(ratio_add(u, t), v), ratio_sub(t, ratio_sub(v, u))),
{
    assert(ratio_sub(ratio_add(u, t), v).n == ratio_sub(t, ratio_sub(v, u)).n) by (nonlinear_arith);
    assert(ratio_sub(ratio_add(u, t), v).d == ratio_sub(t, ratio_sub(v, u)).d) by (nonlinear_arith);
}

/// Multiplication rotates through a shared factor: `a * (x * b)` equals
/// `b * (x * a)` in value.
pub proof fn lemma_ratio_mul_rotate(x: Ratio, a: Ratio, b: Ratio)
    by (nonlinear_arith)
    ensures
        ratio_eq(ratio_mul(a, ratio_mul(x, b)), ratio_mul(b, ratio_mul(x, a))),
{
}

/// Multiplication re-associates: `a * (x * b)` equals `x * (a * b)` in
/// value.
pub proof fn lemma_ratio_mul_assoc_swap(x: Ratio, a: Ratio, b: Ratio)
    by (nonlinear_arith)
    ensures
        ratio_eq(ratio_mul(a, ratio_mul(x, b)), ratio_mul(x, ratio_mul(a, b))),
{
}

/// Multiplication distributes over subtraction in value.
#[verifier::rlimit(50)]
pub proof fn lemma_ratio_mul_distrib_sub(a: Ratio, b: Ratio, c: Ratio)
    ensures
        ratio_eq(ratio_mul(a, ratio_sub(b, c)), ratio_sub(ratio_mul(a, b), ratio_mul(a, c))),
{
    let l = ratio_mul(a, ratio_sub(b, c));
    let r = ratio_sub(ratio_mul(a, b), ratio_mul(a, c));
    assert(a.n * (b.n * c.d - c.n * b.d) == a.n * (b.n * c.d) - a.n * (c.n * b.d))
        by (nonlinear_arith);
    assert((a.n * (b.n * c.d) - a.n * (c.n * b.d)) * a.d == (a.n * (b.n * c.d)) * a.d - (a.n * (c.n
        * b.d)) * a.d) by (nonlinear_arith);
    assert((a.n * b.n) * (a.d * c.d) == (a.n * (b.n * c.d)) * a.d) by (nonlinear_arith);
    assert((a.n * c.n) * (a.d * b.d) == (a.n * (c.n * b.d)) * a.d) by (nonlinear_arith);
    assert((a.d * b.d) * (a.d * c.d) == (a.d * (b.d * c.d)) * a.d) by (nonlinear_arith);
    assert(l.n * r.d == r.n * l.d) by (nonlinear_arith)
        requires
            r.n == l.n * a.d,
            r.d == l.d * a.d,
    ;
}

/// Equal values stay equal under addition of equal values.
pub proof fn lemma_ratio_add_congr(a: Ratio, a2: Ratio, b: Ratio, b2: Ratio)
    requires
        ratio_eq(a, a2),
        ratio_eq(b, b2),
    ensures
        ratio_eq(ratio_add(a, b), ratio_add(a2, b2)),
{
    assert((a.n * a2.d) * (b.d * b2.d) == (a2.n * a.d) * (b.d * b2.d));
    assert((b.n * b2.d) * (a.d * a2.d) == (b2.n * b.d) * (a.d * a2.d));
    assert((a.n * b.d) * (a2.d * b2.d) == (a2.n * b2.d) * (a.d * b.d)) by (nonlinear_arith)
        requires
            (a.n * a2.d) * (b.d * b2.d) == (a2.n * a.d) * (b.d * b2.d),
    ;
    assert((b.n * a.d) * (a2.d * b2.d) == (b2.n * a2.d) * (a.d * b.d)) by (nonlinear_arith)
        requires
            (b.n * b2.d) * (a.d * a2.d) == (b2.n * b.d) * (a.d * a2.d),
    ;
    assert((a.n * b.d + b.n * a.d) * (a2.d * b2.d) == (a.n * b.d) * (a2.d * b2.d) + (b.n * a.d) * (
    a2.d * b2.d)) by (nonlinear_arith);
    assert((a2.n * b2.d + b2.n * a2.d) * (a.d * b.d) == (a2.n * b2.d) * (a.d * b.d) + (b2.n * a2.d)
        * (a.d * b.d)) by (nonlinear_arith);
}

/// Dividing by a nonzero-valued ratio and multiplying back returns the
/// dividend's value.
pub proof fn lemma_ratio_div_mul(x: Ratio, y: Ratio)
    requires
        y.n != 0,
    ensures
        ratio_eq(ratio_mul(ratio_div(x, y), y), x),
{
    let d0 = x.d * y.n;
    if d0 < 0 {
        assert(ratio_eq(ratio_mul(Ratio { n: -(x.n * y.d), d: -d0 }, y), x)) by (nonlinear_arith)
            requires
                d0 == x.d * y.n,
                d0 < 0,
        ;
    } else {
        assert(ratio_eq(ratio_mul(Ratio { n: x.n * y.d, d: d0 }, y), x)) by (nonlinear_arith)
            requires
                d0 == x.d * y.n,
        ;
    }
}

/// From `A - B == U - V` in value it follows that `A - U == B - V` in
/// value.
pub proof fn lemma_ratio_exchange(a: Ratio, b: Ratio, u: Ratio, v: Ratio)
    requires
        ratio_eq(ratio_sub(a, b), ratio_sub(u, v)),
    ensures
        ratio_eq(ratio_sub(a, u), ratio_sub(b, v)),
{
    assert((a.n * b.d - b.n * a.d) * (u.d * v.d) == (a.n * b.d) * (u.d * v.d) - (b.n * a.d) * (u.d
        * v.d)) by (nonlinear_arith);
    assert((u.n * v.d - v.n * u.d) * (a.d * b.d) == (u.n * v.d) * (a.d * b.d) - (v.n * u.d) * (a.d
        * b.d)) by (nonlinear_arith);
    assert((a.n * u.d) * (b.d * v.d) == (a.n * b.d) * (u.d * v.d)) by (nonlinear_arith);
    assert((u.n * a.d) * (b.d * v.d) == (u.n * v.d) * (a.d * b.d)) by (nonlinear_arith);
    assert((b.n * v.d) * (a.d * u.d) == (b.n * a.d) * (u.d * v.d)) by (nonlinear_arith);
    assert((v.n * b.d) * (a.d * u.d) == (v.n * u.d) * (a.d * b.d)) by (nonlinear_arith);
    assert((a.n * u.d - u.n * a.d) * (b.d * v.d) == (a.n * u.d) * (b.d * v.d) - (u.n * a.d) * (b.d
        * v.d)) by (nonlinear_arith);
    assert((b.n * v.d - v.n * b.d) * (a.d * u.d) == (b.n * v.d) * (a.d * u.d) - (v.n * b.d) * (a.d
        * u.d)) by (nonlinear_arith);
}

/// Multiplying two equal products by the same nonzero-valued factor can
/// be cancelled.
pub proof fn lemma_ratio_mul_cancel(d: Ratio, x: Ratio, y: Ratio)
    by (nonlinear_arith)
    requires
        d.n != 0,
        d.d != 0,
        ratio_eq(ratio_mul(d, x), ratio_mul(d, y)),
    ensures
        ratio_eq(x, y),
{
}

/// Subtracting a value and then the minuend negates the subtrahend:
/// `(a - c) - a` equals `0 - c` in value.
pub proof fn lemma_ratio_sub_self_cancel(a: Ratio, c: Ratio)
    by (nonlinear_arith)
    ensures
        ratio_eq(ratio_sub(ratio_sub(a, c), a), ratio_sub(Ratio { n: 0, d: 1 }, c)),
{
}

/// Subtracting equal values from two values leaves their difference
/// unchanged: `(a - c) - (b - d)` equals `a - b` when `c` equals `d`.
pub proof fn lemma_ratio_sub_sub_cancel(a: Ratio, b: Ratio, c: Ratio, d: Ratio)
    requires
        a.d != 0,
        b.d != 0,
        c.d != 0,
        d.d != 0,
        ratio_eq(c, d),
    ensures
        ratio_eq(ratio_sub(ratio_sub(a, c), ratio_sub(b, d)), ratio_sub(a, b)),
{
    let x = ratio_sub(a, c);
    let y = ratio_sub(b, d);
    let zero = Ratio { n: 0, d: 1 };
    lemma_ratio_sub_self_cancel(a, c);
    lemma_ratio_sub_self_cancel(b, d);
    lemma_ratio_sub_congr(zero, zero, c, d);
    lemma_ratio_eq_trans(ratio_sub(x, a), ratio_sub(zero, c), ratio_sub(zero, d));
    lemma_ratio_eq_trans(ratio_sub(x, a), ratio_sub(zero, d), ratio_sub(y, b));
    lemma_ratio_exchange(x, a, y, b);
}

/// Two successive subtractions can be done in either order.
#[verifier::rlimit(50)]
pub proof fn lemma_ratio_sub_order_swap(b: Ratio, c: Ratio, d: Ratio)
    ensures
        ratio_eq(ratio_sub(ratio_sub(b, c), d), ratio_sub(ratio_sub(b, d), c)),
{
    assert(ratio_sub(ratio_sub(b, c), d).n == ratio_sub(ratio_sub(b, d), c).n)
        by (nonlinear_arith);
    assert(ratio_sub(ratio_sub(b, c), d).d == ratio_sub(ratio_sub(b, d), c).d)
        by (nonlinear_arith);
}

/// Subtracting two values from equal values leaves the reversed
/// difference: `(a - c) - (b - d)` equals `d - c` when `a` equals `b`.
pub proof fn lemma_ratio_sub_sub_cancel_left(a: Ratio, b: Ratio, c: Ratio, d: Ratio)
    requires
        a.d != 0,
        b.d != 0,
        c.d != 0,
        d.d != 0,
        ratio_eq(a, b),
    ensures
        ratio_eq(ratio_sub(ratio_sub(a, c), ratio_sub(b, d)), ratio_sub(d, c)),
{
    let x = ratio_sub(a, c);
    let y = ratio_sub(b, d);
    lemma_ratio_sub_order_swap(a, c, d);
    lemma_ratio_sub_congr(a, b, d, d);
    lemma_ratio_sub_congr(ratio_sub(a, d), ratio_sub(b, d), c, c);
    lemma_nonzero_mul(a.d, d.d);
    lemma_nonzero_mul(a.d * d.d, c.d);
    lemma_ratio_eq_trans(ratio_sub(x, d), ratio_sub(ratio_sub(a, d), c), ratio_sub(y, c));
    lemma_ratio_exchange(x, d, y, c);
}

/// The product of two nonzero integers is nonzero.
pub proof fn lemma_nonzero_mul(x: int, y: int)
    by (nonlinear_arith)
    requires
        x != 0,
        y != 0,
    ensures
        x * y != 0,
{
}

/// The product of two positive integers is positive.
pub proof fn lemma_pos_mul(x: int, y: int)
    by (nonlinear_arith)
    requires
        x > 0,
        y > 0,
    ensures
        x * y > 0,
{
}

/// The product of two `i64` values, seen as unbounded integers, stays
/// strictly inside the `i128` range with room for one more addition.
proof fn lemma_i64_mul_bound(x: int, y: int)
    by (nonlinear_arith)
    requires
        i64::MIN as int <= x <= i64::MAX as int,
        i64::MIN as int <= y <= i64::MAX as int,
    ensures
        -0x4000_0000_0000_0000_0000_0000_0000_0000 < x * y
            <= 0x4000_0000_0000_0000_0000_0000_0000_0000,
{
}

/// Value equality, computed exactly.
pub fn rat_eq(a: Rat, b: Rat) -> (r: bool)
    ensures
        r == ratio_eq(a@, b@),
{
    proof {
        lemma_i64_mul_bound(a.num as int, b.den as int);
        lemma_i64_mul_bound(b.num as int, a.den as int);
    }
    (a.num as i128) * (b.den as i128) == (b.num as i128) * (a.den as i128)
}

/// Value order, computed exactly.
pub fn rat_le(a: Rat, b: Rat) -> (r: bool)
    ensures
        r == ratio_le(a@, b@),
{
    proof {
        lemma_i64_mul_bound(a.num as int, b.den as int);
        lemma_i64_mul_bound(b.num as int, a.den as int);
    }
    (a.num as i128) * (b.den as i128) <= (b.num as i128) * (a.den as i128)
}

/// Strict value order, computed exactly.
pub fn rat_lt(a: Rat, b: Rat) -> (r: bool)
    ensures
        r == ratio_lt(a@, b@),
{
    proof {
        lemma_i64_mul_bound(a.num as int, b.den as int);
        lemma_i64_mul_bound(b.num as int, a.den as int);
    }
    (a.num as i128) * (b.den as i128) < (b.num as i128) * (a.den as i128)
}

/// Narrows an exactly computed `i128` pair back to a `Rat`, reporting
/// failure precisely when the pair does not fit.
fn narrow(n: i128, d: i128) -> (r: Option<Rat>)
    ensures
        match r {
            Some(v) => fits(Ratio { n: n as int, d: d as int }) && v@ == (Ratio {
                n: n as int,
                d: d as int,
            }),
            None => !fits(Ratio { n: n as int, d: d as int }),
        },
{
    if n >= i64::MIN as i128 && n <= i64::MAX as i128 && d >= 1 && d <= i64::MAX as i128 {
        Some(Rat { num: n as i64, den: d as i64 })
    } else {
        None
    }
}

/// Exact sum, or `None` when the exact result does not fit.
pub fn rat_add(a: Rat, b: Rat) -> (r: Option<Rat>)
    ensures
        match r {
            Some(v) => fits(ratio_add(a@, b@)) && v@ == ratio_add(a@, b@),
            None => !fits(ratio_add(a@, b@)),
        },
{
    proof {
        lemma_i64_mul_bound(a.num as int, b.den as int);
        lemma_i64_mul_bound(b.num as int, a.den as int);
        lemma_i64_mul_bound(a.den as int, b.den as int);
    }
    let p1: i128 = (a.num as i128) * (b.den as i128);
    let p2: i128 = (b.num as i128) * (a.den as i128);
    if p2 > 0 && p1 > i128::MAX - p2 {
        // the exact numerator exceeds even i128, far outside i64
        return None;
    }
    let n: i128 = p1 + p2;
    let d: i128 = (a.den as i128) * (b.den as i128);
    narrow(n, d)
}

/// Exact difference, or `None` when the exact result does not fit.
pub fn rat_sub(a: Rat, b: Rat) -> (r: Option<Rat>)
    ensures
        match r {
            Some(v) => fits(ratio_sub(a@, b@)) && v@ == ratio_sub(a@, b@),
            None => !fits(ratio_sub(a@, b@)),
        },
{
    proof {
        lemma_i64_mul_bound(a.num as int, b.den as int);
        lemma_i64_mul_bound(b.num as int, a.den as int);
        lemma_i64_mul_bound(a.den as int, b.den as int);
    }
    let n: i128 = (a.num as i128) * (b.den as i128) - (b.num as i128) * (a.den as i128);
    let d: i128 = (a.den as i128) * (b.den as i128);
    narrow(n, d)
}

/// Exact product, or `None` when the exact result does not fit.
pub fn rat_mul(a: Rat, b: Rat) -> (r: Option<Rat>)
    ensures
        match r {
            Some(v) => fits(ratio_mul(a@, b@)) && v@ == ratio_mul(a@, b@),
            None => !fits(ratio_mul(a@, b@)),
        },
{
    proof {
        lemma_i64_mul_bound(a.num as int, b.num as int);
        lemma_i64_mul_bound(a.den as int, b.den as int);
    }
    let n: i128 = (a.num as i128) * (b.num as i128);
    let d: i128 = (a.den as i128) * (b.den as i128);
    narrow(n, d)
}

/// Exact quotient, or `None` when the divisor is zero-valued or the exact
/// result does not fit.
pub fn rat_div(a: Rat, b: Rat) -> (r: Option<Rat>)
    ensures
        match r {
            Some(v) => fits(ratio_div(a@, b@)) && v@ == ratio_div(a@, b@),
            None => !fits(ratio_div(a@, b@)),
        },
{
    proof {
        lemma_i64_mul_bound(a.num as int, b.den as int);
        lemma_i64_mul_bound(a.den as int, b.num as int);
    }
    let n0: i128 = (a.num as i128) * (b.den as i128);
    let d0: i128 = (a.den as i128) * (b.num as i128);
    if d0 < 0 {
        narrow(-n0, -d0)
    } else {
        narrow(n0, d0)
    }
}

} // verus!
