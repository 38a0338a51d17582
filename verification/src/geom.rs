//! Points, segments, and the intersection primitive.
//!
//! A segment is an unordered pair of two points; two segments are equal when
//! their endpoint pairs match in either order.  The intersection primitive
//! classifies a pair of segments as collinear (same supporting line),
//! disjoint, or crossing at a point, using the standard parametric
//! cross-product form; it is the single source of truth for every geometric
//! decision the arrangement makes.
//!
//! Specifications compare points and segments by their exact rational
//! values, so equality of coordinates is value equality (`2/4` equals
//! `1/2`), never a bit pattern comparison.

use vstd::prelude::*;

use crate::rat::{
    fits, rat_add, rat_div, rat_eq, rat_le, rat_lt, rat_mul, rat_sub, ratio_add, ratio_div,
    ratio_eq, ratio_is_zero, ratio_le, ratio_lt, ratio_mul, ratio_sub, Rat, Ratio,
};

verus! {

/// A point: two exact rational coordinates.
#[derive(Clone, Copy, PartialEq, Eq, Structural, Debug)]
pub struct Point {
    pub x: Rat,
    pub y: Rat,
}

/// A segment: an unordered pair of two points.
#[derive(Clone, Copy, PartialEq, Eq, Structural, Debug)]
pub struct Segment {
    pub a: Point,
    pub b: Point,
}

/// Both coordinates of the point have positive denominators.
pub open spec fn pt_wf(p: Point) -> bool {
    p.x@.wf() && p.y@.wf()
}

/// Both endpoints of the segment are well-formed.
pub open spec fn seg_wf(s: Segment) -> bool {
    pt_wf(s.a) && pt_wf(s.b)
}

/// Two points hold the same value.
pub open spec fn pt_eq(p: Point, q: Point) -> bool {
    ratio_eq(p.x@, q.x@) && ratio_eq(p.y@, q.y@)
}

/// The segment has zero length: its endpoints coincide.
pub open spec fn seg_degenerate(s: Segment) -> bool {
    pt_eq(s.a, s.b)
}

/// Two segments are equal as unordered pairs of endpoints.
pub open spec fn seg_eq(s: Segment, t: Segment) -> bool {
    ||| (pt_eq(s.a, t.a) && pt_eq(s.b, t.b))
    ||| (pt_eq(s.a, t.b) && pt_eq(s.b, t.a))
}

/// Strict lexicographic order on point values: by x, then by y.  For points
/// on one common line this is the order along the line, so the
/// lexicographic extremes of collinear points are the two points farthest
/// apart on it.
pub open spec fn pt_lex_lt(p: Point, q: Point) -> bool {
    ratio_lt(p.x@, q.x@) || (ratio_eq(p.x@, q.x@) && ratio_lt(p.y@, q.y@))
}

/// Value equality of two points, computed exactly.
pub fn points_equal(p: &Point, q: &Point) -> (r: bool)
    ensures
        r == pt_eq(*p, *q),
{
    rat_eq(p.x, q.x) && rat_eq(p.y, q.y)
}

/// Equality of two segments as unordered pairs of endpoints.
pub fn segments_equal(s: &Segment, t: &Segment) -> (r: bool)
    ensures
        r == seg_eq(*s, *t),
{
    (points_equal(&s.a, &t.a) && points_equal(&s.b, &t.b)) || (points_equal(&s.a, &t.b)
        && points_equal(&s.b, &t.a))
}

/// Strict lexicographic order on point values, computed exactly.
pub fn point_lex_lt(p: &Point, q: &Point) -> (r: bool)
    ensures
        r == pt_lex_lt(*p, *q),
{
    rat_lt(p.x, q.x) || (rat_eq(p.x, q.x) && rat_lt(p.y, q.y))
}

/// The merge of two collinear segments: the segment between the
/// lexicographically least and greatest of the four endpoints — for
/// collinear points, the convex-hull extremes, i.e. the two points farthest
/// apart along the shared line.  Ties between equal point values keep the
/// earliest of `c.a`, `c.b`, `s.a`, `s.b`.
pub open spec fn merge_spec(c: Segment, s: Segment) -> Segment {
    let lo1 = if pt_lex_lt(c.b, c.a) {
        c.b
    } else {
        c.a
    };
    let lo2 = if pt_lex_lt(s.a, lo1) {
        s.a
    } else {
        lo1
    };
    let lo = if pt_lex_lt(s.b, lo2) {
        s.b
    } else {
        lo2
    };
    let hi1 = if pt_lex_lt(c.a, c.b) {
        c.b
    } else {
        c.a
    };
    let hi2 = if pt_lex_lt(hi1, s.a) {
        s.a
    } else {
        hi1
    };
    let hi = if pt_lex_lt(hi2, s.b) {
        s.b
    } else {
        hi2
    };
    Segment { a: lo, b: hi }
}

/// Extreme-point merge of two collinear segments (see [`merge_spec`]).
pub fn merge_collinear(c: &Segment, s: &Segment) -> (r: Segment)
    ensures
        r == merge_spec(*c, *s),
{
    let mut lo: Point = c.a;
    if point_lex_lt(&c.b, &lo) {
        lo = c.b;
    }
    if point_lex_lt(&s.a, &lo) {
        lo = s.a;
    }
    if point_lex_lt(&s.b, &lo) {
        lo = s.b;
    }
    let mut hi: Point = c.a;
    if point_lex_lt(&hi, &c.b) {
        hi = c.b;
    }
    if point_lex_lt(&hi, &s.a) {
        hi = s.a;
    }
    if point_lex_lt(&hi, &s.b) {
        hi = s.b;
    }
    Segment { a: lo, b: hi }
}

/// The point `p` sorts no later than `q` lexicographically.
pub open spec fn pt_lex_le(p: Point, q: Point) -> bool {
    !pt_lex_lt(q, p)
}

/// Point value equality is transitive through a well-formed middle point.
pub proof fn lemma_pt_eq_trans(p: Point, q: Point, r: Point)
    requires
        pt_wf(q),
        pt_eq(p, q),
        pt_eq(q, r),
    ensures
        pt_eq(p, r),
{
    crate::rat::lemma_ratio_eq_trans(p.x@, q.x@, r.x@);
    crate::rat::lemma_ratio_eq_trans(p.y@, q.y@, r.y@);
}

/// Segment equality is transitive through a well-formed middle segment.
pub proof fn lemma_seg_eq_trans(s: Segment, t: Segment, u: Segment)
    requires
        seg_wf(t),
        seg_eq(s, t),
        seg_eq(t, u),
    ensures
        seg_eq(s, u),
{
    if pt_eq(s.a, t.a) && pt_eq(s.b, t.b) {
        if pt_eq(t.a, u.a) && pt_eq(t.b, u.b) {
            lemma_pt_eq_trans(s.a, t.a, u.a);
            lemma_pt_eq_trans(s.b, t.b, u.b);
        } else {
            lemma_pt_eq_trans(s.a, t.a, u.b);
            lemma_pt_eq_trans(s.b, t.b, u.a);
        }
    } else {
        if pt_eq(t.a, u.a) && pt_eq(t.b, u.b) {
            lemma_pt_eq_trans(s.a, t.b, u.b);
            lemma_pt_eq_trans(s.b, t.a, u.a);
        } else {
            lemma_pt_eq_trans(s.a, t.b, u.a);
            lemma_pt_eq_trans(s.b, t.a, u.b);
        }
    }
}

/// Two points neither of which sorts strictly before the other hold equal
/// values.
pub proof fn lemma_pt_lex_antisym(p: Point, q: Point)
    requires
        !pt_lex_lt(p, q),
        !pt_lex_lt(q, p),
    ensures
        pt_eq(p, q),
{
}

/// The lexicographic order is transitive over well-formed points.
pub proof fn lemma_pt_lex_lt_trans(p: Point, q: Point, r: Point)
    requires
        pt_wf(p),
        pt_wf(q),
        pt_wf(r),
        pt_lex_lt(p, q),
        pt_lex_lt(q, r),
    ensures
        pt_lex_lt(p, r),
{
    if ratio_lt(p.x@, q.x@) {
        if ratio_lt(q.x@, r.x@) {
            crate::rat::lemma_ratio_lt_trans(p.x@, q.x@, r.x@);
        } else {
            crate::rat::lemma_ratio_lt_eq_trans(p.x@, q.x@, r.x@);
        }
    } else {
        if ratio_lt(q.x@, r.x@) {
            crate::rat::lemma_ratio_eq_lt_trans(p.x@, q.x@, r.x@);
        } else {
            crate::rat::lemma_ratio_eq_trans(p.x@, q.x@, r.x@);
            crate::rat::lemma_ratio_lt_trans(p.y@, q.y@, r.y@);
        }
    }
}

/// The lexicographic order is preserved when the right side is replaced by
/// an equal point value.
pub proof fn lemma_pt_lex_lt_eq_trans(p: Point, q: Point, r: Point)
    requires
        pt_wf(p),
        pt_wf(q),
        pt_wf(r),
        pt_lex_lt(p, q),
        pt_eq(q, r),
    ensures
        pt_lex_lt(p, r),
{
    if ratio_lt(p.x@, q.x@) {
        crate::rat::lemma_ratio_lt_eq_trans(p.x@, q.x@, r.x@);
    } else {
        crate::rat::lemma_ratio_eq_trans(p.x@, q.x@, r.x@);
        crate::rat::lemma_ratio_lt_eq_trans(p.y@, q.y@, r.y@);
    }
}

/// The lexicographic order is preserved when the left side is replaced by
/// an equal point value.
pub proof fn lemma_pt_lex_eq_lt_trans(p: Point, q: Point, r: Point)
    requires
        pt_wf(p),
        pt_wf(q),
        pt_wf(r),
        pt_eq(p, q),
        pt_lex_lt(q, r),
    ensures
        pt_lex_lt(p, r),
{
    if ratio_lt(q.x@, r.x@) {
        crate::rat::lemma_ratio_eq_lt_trans(p.x@, q.x@, r.x@);
    } else {
        crate::rat::lemma_ratio_eq_trans(p.x@, q.x@, r.x@);
        crate::rat::lemma_ratio_eq_lt_trans(p.y@, q.y@, r.y@);
    }
}

/// A point strictly before `q` sorts no later than anything `q` sorts no
/// later than, and strictly before it.
pub proof fn lemma_pt_lex_lt_le_le(p: Point, q: Point, x: Point)
    requires
        pt_wf(p),
        pt_wf(q),
        pt_wf(x),
        pt_lex_lt(p, q),
        pt_lex_le(q, x),
    ensures
        pt_lex_le(p, x),
        pt_lex_lt(p, x),
{
    if pt_lex_lt(q, x) {
        lemma_pt_lex_lt_trans(p, q, x);
    } else {
        lemma_pt_lex_antisym(q, x);
        lemma_pt_lex_lt_eq_trans(p, q, x);
    }
    if pt_lex_lt(x, p) {
        lemma_pt_lex_lt_trans(x, p, x);
    }
}

/// Anything that sorts no later than `q` sorts no later than a point `q`
/// sorts strictly before, and strictly before it.
pub proof fn lemma_pt_lex_le_lt_le(x: Point, q: Point, p: Point)
    requires
        pt_wf(p),
        pt_wf(q),
        pt_wf(x),
        pt_lex_le(x, q),
        pt_lex_lt(q, p),
    ensures
        pt_lex_le(x, p),
        pt_lex_lt(x, p),
{
    if pt_lex_lt(x, q) {
        lemma_pt_lex_lt_trans(x, q, p);
    } else {
        lemma_pt_lex_antisym(x, q);
        lemma_pt_lex_eq_lt_trans(x, q, p);
    }
    if pt_lex_lt(p, x) {
        lemma_pt_lex_lt_trans(p, x, p);
    }
}

/// A point sorting no later than `q` still does after `q` is replaced by
/// an equal point value.
pub proof fn lemma_pt_lex_le_eq_trans(p: Point, q: Point, r: Point)
    requires
        pt_wf(p),
        pt_wf(q),
        pt_wf(r),
        pt_lex_le(p, q),
        pt_eq(q, r),
    ensures
        pt_lex_le(p, r),
{
    if pt_lex_lt(r, p) {
        lemma_pt_lex_eq_lt_trans(q, r, p);
    }
}

/// The lexicographic order on well-formed points is transitive in its
/// non-strict form.
pub proof fn lemma_pt_lex_le_trans(a: Point, b: Point, c: Point)
    requires
        pt_wf(a),
        pt_wf(b),
        pt_wf(c),
        pt_lex_le(a, b),
        pt_lex_le(b, c),
    ensures
        pt_lex_le(a, c),
{
    if pt_lex_lt(c, a) {
        lemma_pt_lex_lt_le_le(c, a, b);
    }
}

/// The extreme-point merge is bounded by, and built from, the four
/// endpoints: its first endpoint sorts no later than each of the four, its
/// second no earlier, and both are among them.
pub proof fn lemma_merge_bounds(c: Segment, s: Segment)
    requires
        seg_wf(c),
        seg_wf(s),
    ensures
        ({
            let m = merge_spec(c, s);
            &&& pt_lex_le(m.a, c.a)
            &&& pt_lex_le(m.a, c.b)
            &&& pt_lex_le(m.a, s.a)
            &&& pt_lex_le(m.a, s.b)
            &&& pt_lex_le(c.a, m.b)
            &&& pt_lex_le(c.b, m.b)
            &&& pt_lex_le(s.a, m.b)
            &&& pt_lex_le(s.b, m.b)
            &&& (m.a == c.a || m.a == c.b || m.a == s.a || m.a == s.b)
            &&& (m.b == c.a || m.b == c.b || m.b == s.a || m.b == s.b)
        }),
{
    let lo1 = if pt_lex_lt(c.b, c.a) {
        c.b
    } else {
        c.a
    };
    assert(pt_lex_le(lo1, c.a) && pt_lex_le(lo1, c.b));
    let lo2 = if pt_lex_lt(s.a, lo1) {
        s.a
    } else {
        lo1
    };
    if pt_lex_lt(s.a, lo1) {
        lemma_pt_lex_lt_le_le(s.a, lo1, c.a);
        lemma_pt_lex_lt_le_le(s.a, lo1, c.b);
    }
    assert(pt_lex_le(lo2, c.a) && pt_lex_le(lo2, c.b) && pt_lex_le(lo2, s.a));
    let lo = if pt_lex_lt(s.b, lo2) {
        s.b
    } else {
        lo2
    };
    if pt_lex_lt(s.b, lo2) {
        lemma_pt_lex_lt_le_le(s.b, lo2, c.a);
        lemma_pt_lex_lt_le_le(s.b, lo2, c.b);
        lemma_pt_lex_lt_le_le(s.b, lo2, s.a);
    }
    assert(pt_lex_le(lo, c.a) && pt_lex_le(lo, c.b) && pt_lex_le(lo, s.a) && pt_lex_le(lo, s.b));
    let hi1 = if pt_lex_lt(c.a, c.b) {
        c.b
    } else {
        c.a
    };
    assert(pt_lex_le(c.a, hi1) && pt_lex_le(c.b, hi1));
    let hi2 = if pt_lex_lt(hi1, s.a) {
        s.a
    } else {
        hi1
    };
    if pt_lex_lt(hi1, s.a) {
        lemma_pt_lex_le_lt_le(c.a, hi1, s.a);
        lemma_pt_lex_le_lt_le(c.b, hi1, s.a);
    }
    assert(pt_lex_le(c.a, hi2) && pt_lex_le(c.b, hi2) && pt_lex_le(s.a, hi2));
    let hi = if pt_lex_lt(hi2, s.b) {
        s.b
    } else {
        hi2
    };
    if pt_lex_lt(hi2, s.b) {
        lemma_pt_lex_le_lt_le(c.a, hi2, s.b);
        lemma_pt_lex_le_lt_le(c.b, hi2, s.b);
        lemma_pt_lex_le_lt_le(s.a, hi2, s.b);
    }
    assert(pt_lex_le(c.a, hi) && pt_lex_le(c.b, hi) && pt_lex_le(s.a, hi) && pt_lex_le(s.b, hi));
}

/// Merging a non-degenerate segment with any collinear partner yields a
/// non-degenerate segment.
pub proof fn lemma_merge_nondegenerate(c: Segment, s: Segment)
    requires
        seg_wf(c),
        seg_wf(s),
        !seg_degenerate(c),
    ensures
        !seg_degenerate(merge_spec(c, s)),
{
    let m = merge_spec(c, s);
    lemma_merge_bounds(c, s);
    if pt_eq(m.a, m.b) {
        lemma_pt_lex_le_eq_trans(c.a, m.b, m.a);
        lemma_pt_lex_antisym(c.a, m.a);
        lemma_pt_lex_le_eq_trans(c.b, m.b, m.a);
        lemma_pt_lex_antisym(c.b, m.a);
        lemma_pt_eq_trans(c.a, m.a, c.b);
    }
}

/// The merged extremes do not depend on which of the two collinear
/// segments plays the candidate: merging in either order yields equal
/// endpoint values.
pub proof fn lemma_merge_comm(c: Segment, s: Segment)
    requires
        seg_wf(c),
        seg_wf(s),
    ensures
        pt_eq(merge_spec(c, s).a, merge_spec(s, c).a),
        pt_eq(merge_spec(c, s).b, merge_spec(s, c).b),
{
    lemma_merge_bounds(c, s);
    lemma_merge_bounds(s, c);
    let m1 = merge_spec(c, s);
    let m2 = merge_spec(s, c);
    lemma_pt_lex_antisym(m1.a, m2.a);
    lemma_pt_lex_antisym(m1.b, m2.b);
}

/// Merging a segment into a span that already covers it gives back the
/// span: when both endpoints of `s` lie lexicographically between the
/// endpoints of `t`, the merged extremes are `t`'s own endpoints.
pub proof fn lemma_merge_within_span(s: Segment, t: Segment)
    requires
        seg_wf(s),
        seg_wf(t),
        (pt_lex_le(t.a, s.a) && pt_lex_le(t.a, s.b) && pt_lex_le(s.a, t.b) && pt_lex_le(s.b, t.b))
            || (pt_lex_le(t.b, s.a) && pt_lex_le(t.b, s.b) && pt_lex_le(s.a, t.a) && pt_lex_le(
            s.b,
            t.a,
        )),
    ensures
        seg_eq(merge_spec(s, t), t),
{
    let m = merge_spec(s, t);
    lemma_merge_bounds(s, t);
    if pt_lex_le(t.a, s.a) && pt_lex_le(t.a, s.b) && pt_lex_le(s.a, t.b) && pt_lex_le(s.b, t.b) {
        lemma_pt_lex_le_trans(t.a, s.a, t.b);
        assert(pt_lex_le(t.a, m.a));
        lemma_pt_lex_antisym(m.a, t.a);
        assert(pt_lex_le(m.b, t.b));
        lemma_pt_lex_antisym(m.b, t.b);
    } else {
        lemma_pt_lex_le_trans(t.b, s.a, t.a);
        assert(pt_lex_le(t.b, m.a));
        lemma_pt_lex_antisym(m.a, t.b);
        assert(pt_lex_le(m.b, t.a));
        lemma_pt_lex_antisym(m.b, t.a);
    }
}

/// Classification of two segments, as the intersection primitive reports
/// it.
#[derive(Clone, Copy, PartialEq, Eq, Structural, Debug)]
pub enum SegRelation {
    /// No crossing and no shared line.
    Disjoint,
    /// The supporting lines coincide (whether or not the finite segments
    /// overlap).
    CollinearOverlap,
    /// The segments cross or touch at this point.
    Cross(Point),
}

/// The fraction `num/den` lies in the closed interval [0, 1], written as
/// cross-multiplied comparisons so that it is computable without division.
/// `den` must hold a nonzero value for this to describe the fraction.
pub open spec fn frac_in_unit(num: Ratio, den: Ratio) -> bool {
    if ratio_lt(Ratio { n: 0, d: 1 }, den) {
        ratio_le(Ratio { n: 0, d: 1 }, num) && ratio_le(num, den)
    } else {
        ratio_le(den, num) && ratio_le(num, Ratio { n: 0, d: 1 })
    }
}

/// The exact classification of segments `(a1, a2)` and `(b1, b2)`.
///
/// With `A = a1 + alpha*(a2-a1)` and `B = b1 + beta*(b2-b1)`, the standard
/// determinants are
/// `denom = (b2x-b1x)(a2y-a1y) - (b2y-b1y)(a2x-a1x)`,
/// `alpha_num = (b2x-b1x)(b1y-a1y) - (b2y-b1y)(b1x-a1x)`, and
/// `beta_num = (a2x-a1x)(b1y-a1y) - (a2y-a1y)(b1x-a1x)`.
/// If `denom` and `alpha_num` are both zero the lines coincide; if only
/// `denom` is zero they are parallel and distinct; otherwise the segments
/// cross at `a1 + alpha*(a2-a1)` exactly when `alpha = alpha_num/denom`
/// and `beta = beta_num/denom` both lie in [0, 1].
///
/// The result is `None` exactly when some intermediate exact rational does
/// not fit the `i64` coordinate representation.
pub open spec fn inter_spec(a1: Point, a2: Point, b1: Point, b2: Point) -> Option<SegRelation> {
    let s1 = ratio_sub(b2.x@, b1.x@);
    let s2 = ratio_sub(b1.y@, a1.y@);
    let s3 = ratio_sub(b2.y@, b1.y@);
    let s4 = ratio_sub(b1.x@, a1.x@);
    let s5 = ratio_sub(a2.x@, a1.x@);
    let s6 = ratio_sub(a2.y@, a1.y@);
    let alpha_num = ratio_sub(ratio_mul(s1, s2), ratio_mul(s3, s4));
    let beta_num = ratio_sub(ratio_mul(s5, s2), ratio_mul(s6, s4));
    let denom = ratio_sub(ratio_mul(s1, s6), ratio_mul(s3, s5));
    if !(fits(s1) && fits(s2) && fits(s3) && fits(s4) && fits(s5) && fits(s6) && fits(
        ratio_mul(s1, s2),
    ) && fits(ratio_mul(s3, s4)) && fits(alpha_num) && fits(ratio_mul(s5, s2)) && fits(
        ratio_mul(s6, s4),
    ) && fits(beta_num) && fits(ratio_mul(s1, s6)) && fits(ratio_mul(s3, s5)) && fits(denom)) {
        None
    } else if ratio_is_zero(denom) && ratio_is_zero(alpha_num) {
        Some(SegRelation::CollinearOverlap)
    } else if ratio_is_zero(denom) {
        Some(SegRelation::Disjoint)
    } else if frac_in_unit(alpha_num, denom) && frac_in_unit(beta_num, denom) {
        let alpha = ratio_div(alpha_num, denom);
        let tx = ratio_mul(alpha, s5);
        let cx = ratio_add(a1.x@, tx);
        let ty = ratio_mul(alpha, s6);
        let cy = ratio_add(a1.y@, ty);
        if fits(alpha) && fits(tx) && fits(cx) && fits(ty) && fits(cy) {
            Some(
                SegRelation::Cross(
                    Point {
                        x: Rat { num: cx.n as i64, den: cx.d as i64 },
                        y: Rat { num: cy.n as i64, den: cy.d as i64 },
                    },
                ),
            )
        } else {
            None
        }
    } else {
        Some(SegRelation::Disjoint)
    }
}

/// A crossing point reported by the classification has well-formed
/// coordinates.
pub proof fn lemma_inter_cross_wf(a1: Point, a2: Point, b1: Point, b2: Point)
    ensures
        inter_spec(a1, a2, b1, b2) matches Some(SegRelation::Cross(p)) ==> pt_wf(p),
{
}

/// Classifying a segment against one equal to it (in either endpoint
/// order) reports a collinear overlap whenever it fits the coordinate
/// representation: equal segments share their supporting line.
pub proof fn lemma_seg_eq_inter_collinear(x: Segment, y: Segment)
    requires
        seg_wf(x),
        seg_wf(y),
        seg_eq(x, y),
        inter_spec(x.a, x.b, y.a, y.b) is Some,
    ensures
        inter_spec(x.a, x.b, y.a, y.b) == Some(SegRelation::CollinearOverlap),
{
    let s1 = ratio_sub(y.b.x@, y.a.x@);
    let s2 = ratio_sub(y.a.y@, x.a.y@);
    let s3 = ratio_sub(y.b.y@, y.a.y@);
    let s4 = ratio_sub(y.a.x@, x.a.x@);
    let s5 = ratio_sub(x.b.x@, x.a.x@);
    let s6 = ratio_sub(x.b.y@, x.a.y@);
    let alpha_num = ratio_sub(ratio_mul(s1, s2), ratio_mul(s3, s4));
    let denom = ratio_sub(ratio_mul(s1, s6), ratio_mul(s3, s5));
    crate::rat::lemma_pos_mul(x.b.x@.d, x.a.x@.d);
    crate::rat::lemma_pos_mul(x.b.y@.d, x.a.y@.d);
    crate::rat::lemma_pos_mul(s5.d, s6.d);
    if pt_eq(x.a, y.a) && pt_eq(x.b, y.b) {
        // Same orientation: the y differences in `alpha_num` are
        // zero-valued, and `denom` compares the same direction twice.
        assert(s2.n == 0);
        assert(s4.n == 0);
        assert(ratio_sub(ratio_mul(s1, s2), ratio_mul(s3, s4)).n == 0) by (nonlinear_arith)
            requires
                s2.n == 0,
                s4.n == 0,
        ;
        assert(crate::rat::ratio_is_zero(alpha_num));
        crate::rat::lemma_ratio_sub_congr(y.b.x@, x.b.x@, y.a.x@, x.a.x@);
        crate::rat::lemma_ratio_sub_congr(y.b.y@, x.b.y@, y.a.y@, x.a.y@);
        crate::rat::lemma_ratio_mul_congr(s1, s5, s6, s6);
        crate::rat::lemma_ratio_mul_congr(s3, s6, s5, s5);
        crate::rat::lemma_ratio_mul_comm(s6, s5);
        crate::rat::lemma_ratio_eq_trans(ratio_mul(s3, s5), ratio_mul(s6, s5), ratio_mul(s5, s6));
        crate::rat::lemma_ratio_eq_both(ratio_mul(s1, s6), ratio_mul(s3, s5), ratio_mul(s5, s6));
        crate::rat::lemma_ratio_sub_zero_iff(ratio_mul(s1, s6), ratio_mul(s3, s5));
        assert(crate::rat::ratio_is_zero(denom));
    } else {
        // Opposite orientation: both determinants compare the direction
        // with its own reversal.
        let t5 = ratio_sub(x.a.x@, x.b.x@);
        let t6 = ratio_sub(x.a.y@, x.b.y@);
        crate::rat::lemma_ratio_sub_congr(y.b.x@, x.a.x@, y.a.x@, x.b.x@);
        crate::rat::lemma_ratio_sub_congr(y.b.y@, x.a.y@, y.a.y@, x.b.y@);
        crate::rat::lemma_ratio_sub_congr(y.a.y@, x.b.y@, x.a.y@, x.a.y@);
        crate::rat::lemma_ratio_sub_congr(y.a.x@, x.b.x@, x.a.x@, x.a.x@);
        // s1 ~ t5, s3 ~ t6, s2 ~ s6, s4 ~ s5.
        assert(crate::rat::ratio_eq(s1, t5));
        assert(crate::rat::ratio_eq(s3, t6));
        assert(crate::rat::ratio_eq(s2, s6));
        assert(crate::rat::ratio_eq(s4, s5));
        crate::rat::lemma_ratio_sub_reverse(x.b.x@, x.a.x@);
        crate::rat::lemma_ratio_sub_reverse(x.b.y@, x.a.y@);
        crate::rat::lemma_ratio_mul_neg_swap(s5, s6, t5, t6);
        crate::rat::lemma_ratio_mul_congr(s1, t5, s6, s6);
        crate::rat::lemma_ratio_mul_congr(s3, t6, s5, s5);
        assert(ratio_mul(t5, s6).d != 0) by {
            crate::rat::lemma_pos_mul(t5.d, s6.d);
        }
        assert(ratio_mul(t6, s5).d != 0) by {
            crate::rat::lemma_pos_mul(t6.d, s5.d);
        }
        crate::rat::lemma_ratio_eq_trans(ratio_mul(s1, s6), ratio_mul(t5, s6), ratio_mul(t6, s5));
        crate::rat::lemma_ratio_eq_trans(ratio_mul(s1, s6), ratio_mul(t6, s5), ratio_mul(s3, s5));
        crate::rat::lemma_ratio_sub_zero_iff(ratio_mul(s1, s6), ratio_mul(s3, s5));
        assert(crate::rat::ratio_is_zero(denom));
        // `alpha_num` compares the same two products.
        crate::rat::lemma_ratio_mul_congr(s1, t5, s2, s6);
        crate::rat::lemma_ratio_mul_congr(s3, t6, s4, s5);
        crate::rat::lemma_ratio_eq_trans(ratio_mul(s1, s2), ratio_mul(t5, s6), ratio_mul(t6, s5));
        crate::rat::lemma_ratio_eq_trans(ratio_mul(s1, s2), ratio_mul(t6, s5), ratio_mul(s3, s4));
        crate::rat::lemma_ratio_sub_zero_iff(ratio_mul(s1, s2), ratio_mul(s3, s4));
        assert(crate::rat::ratio_is_zero(alpha_num));
    }
}

/// The cross-multiplied interval test means what it says: for a
/// nonzero-valued divisor it holds exactly when the fraction `num/den`
/// lies in the closed interval [0, 1].
pub proof fn lemma_frac_in_unit_means_quotient_in_unit(num: Ratio, den: Ratio)
    requires
        num.d > 0,
        den.d > 0,
        den.n != 0,
    ensures
        frac_in_unit(num, den) <==> (ratio_le(Ratio { n: 0, d: 1 }, ratio_div(num, den))
            && ratio_le(ratio_div(num, den), Ratio { n: 1, d: 1 })),
{
    let q = ratio_div(num, den);
    if den.n > 0 {
        assert(ratio_div(num, den) == Ratio { n: num.n * den.d, d: num.d * den.n })
            by (nonlinear_arith)
            requires
                num.d > 0,
                den.n > 0,
        ;
        assert((0 <= q.n) == (0 <= num.n * den.d));
        assert((0 <= num.n * den.d) == (0 <= num.n)) by (nonlinear_arith)
            requires
                den.d > 0,
        ;
        assert((q.n <= q.d) == (num.n * den.d <= den.n * num.d));
    } else {
        assert(ratio_div(num, den) == Ratio { n: -(num.n * den.d), d: -(num.d * den.n) })
            by (nonlinear_arith)
            requires
                num.d > 0,
                den.n < 0,
        ;
        assert((0 <= q.n) == (num.n * den.d <= 0));
        assert((num.n * den.d <= 0) == (num.n <= 0)) by (nonlinear_arith)
            requires
                den.d > 0,
        ;
        assert((q.n <= q.d) == (num.d * den.n <= num.n * den.d));
        assert((num.d * den.n <= num.n * den.d) == (den.n * num.d <= num.n * den.d));
    }
}

/// The value `m` lies between the values `lo` and `hi`, whichever way
/// round they are.
pub open spec fn ratio_between(lo: Ratio, m: Ratio, hi: Ratio) -> bool {
    ||| (ratio_le(lo, m) && ratio_le(m, hi))
    ||| (ratio_le(hi, m) && ratio_le(m, lo))
}

/// A crossing point reported by the classification lies within the first
/// segment's extent: each of its coordinates is between the segment's
/// endpoint coordinates, because the parameter `alpha` lies in [0, 1].
pub proof fn lemma_cross_point_within_first_extent(a1: Point, a2: Point, b1: Point, b2: Point)
    requires
        pt_wf(a1),
        pt_wf(a2),
        pt_wf(b1),
        pt_wf(b2),
    ensures
        inter_spec(a1, a2, b1, b2) matches Some(SegRelation::Cross(p)) ==> ratio_between(
            a1.x@,
            p.x@,
            a2.x@,
        ) && ratio_between(a1.y@, p.y@, a2.y@),
{
    match inter_spec(a1, a2, b1, b2) {
        Option::Some(SegRelation::Cross(p)) => {
            let s1 = ratio_sub(b2.x@, b1.x@);
            let s2 = ratio_sub(b1.y@, a1.y@);
            let s3 = ratio_sub(b2.y@, b1.y@);
            let s4 = ratio_sub(b1.x@, a1.x@);
            let s5 = ratio_sub(a2.x@, a1.x@);
            let s6 = ratio_sub(a2.y@, a1.y@);
            let alpha_num = ratio_sub(ratio_mul(s1, s2), ratio_mul(s3, s4));
            let denom = ratio_sub(ratio_mul(s1, s6), ratio_mul(s3, s5));
            let alpha = ratio_div(alpha_num, denom);
            let tx = ratio_mul(alpha, s5);
            let cx = ratio_add(a1.x@, tx);
            let ty = ratio_mul(alpha, s6);
            let cy = ratio_add(a1.y@, ty);
            assert(p.x@ == cx);
            assert(p.y@ == cy);
            lemma_frac_in_unit_means_quotient_in_unit(alpha_num, denom);
            crate::rat::lemma_ratio_mul_unit_bounds(alpha, s5);
            crate::rat::lemma_ratio_mul_unit_bounds(alpha, s6);
            crate::rat::lemma_ratio_add_increases(a1.x@, tx);
            crate::rat::lemma_ratio_add_increases(a1.y@, ty);
            crate::rat::lemma_ratio_add_le_mono(a1.x@, tx, s5);
            crate::rat::lemma_ratio_add_le_mono(a1.x@, s5, tx);
            crate::rat::lemma_ratio_add_le_mono(a1.y@, ty, s6);
            crate::rat::lemma_ratio_add_le_mono(a1.y@, s6, ty);
            crate::rat::lemma_ratio_add_difference(a1.x@, a2.x@);
            crate::rat::lemma_ratio_add_difference(a1.y@, a2.y@);
            crate::rat::lemma_pos_mul(a1.x@.d, tx.d);
            crate::rat::lemma_pos_mul(a1.x@.d, s5.d);
            crate::rat::lemma_pos_mul(a1.y@.d, ty.d);
            crate::rat::lemma_pos_mul(a1.y@.d, s6.d);
            if crate::rat::ratio_le(Ratio { n: 0, d: 1 }, s5) {
                crate::rat::lemma_ratio_le_eq_trans(cx, ratio_add(a1.x@, s5), a2.x@);
            } else {
                crate::rat::lemma_ratio_eq_le_trans(a2.x@, ratio_add(a1.x@, s5), cx);
            }
            if crate::rat::ratio_le(Ratio { n: 0, d: 1 }, s6) {
                crate::rat::lemma_ratio_le_eq_trans(cy, ratio_add(a1.y@, s6), a2.y@);
            } else {
                crate::rat::lemma_ratio_eq_le_trans(a2.y@, ratio_add(a1.y@, s6), cy);
            }
        },
        _ => {},
    }
}

/// The Cramer combination of the intersection determinants along x:
/// `s5 * alpha_num - denom * s4` equals `s1 * beta_num` in value.
proof fn lemma_det_combination_x(s1: Ratio, s2: Ratio, s3: Ratio, s4: Ratio, s5: Ratio, s6: Ratio)
    requires
        s1.d > 0,
        s2.d > 0,
        s3.d > 0,
        s4.d > 0,
        s5.d > 0,
        s6.d > 0,
    ensures
        crate::rat::ratio_eq(
            ratio_sub(
                ratio_mul(s5, ratio_sub(ratio_mul(s1, s2), ratio_mul(s3, s4))),
                ratio_mul(ratio_sub(ratio_mul(s1, s6), ratio_mul(s3, s5)), s4),
            ),
            ratio_mul(s1, ratio_sub(ratio_mul(s5, s2), ratio_mul(s6, s4))),
        ),
{
    let an = ratio_sub(ratio_mul(s1, s2), ratio_mul(s3, s4));
    let de = ratio_sub(ratio_mul(s1, s6), ratio_mul(s3, s5));
    let bn = ratio_sub(ratio_mul(s5, s2), ratio_mul(s6, s4));
    let p1 = ratio_mul(s5, ratio_mul(s1, s2));
    let p2 = ratio_mul(s5, ratio_mul(s3, s4));
    let p3 = ratio_mul(s4, ratio_mul(s1, s6));
    let p4 = ratio_mul(s4, ratio_mul(s3, s5));
    let q1 = ratio_mul(s1, ratio_mul(s5, s2));
    let q2 = ratio_mul(s1, ratio_mul(s6, s4));
    crate::rat::lemma_pos_mul(s1.d, s2.d);
    crate::rat::lemma_pos_mul(s3.d, s4.d);
    crate::rat::lemma_pos_mul(s1.d, s6.d);
    crate::rat::lemma_pos_mul(s3.d, s5.d);
    crate::rat::lemma_pos_mul(s5.d, s2.d);
    crate::rat::lemma_pos_mul(s6.d, s4.d);
    crate::rat::lemma_pos_mul(s4.d, s6.d);
    crate::rat::lemma_pos_mul(s5.d, s1.d * s2.d);
    crate::rat::lemma_pos_mul(s5.d, s3.d * s4.d);
    crate::rat::lemma_pos_mul(s4.d, s1.d * s6.d);
    crate::rat::lemma_pos_mul(s4.d, s3.d * s5.d);
    crate::rat::lemma_pos_mul(s1.d, s5.d * s2.d);
    crate::rat::lemma_pos_mul(s1.d, s6.d * s4.d);
    crate::rat::lemma_pos_mul(s1.d * s6.d, s3.d * s5.d);
    crate::rat::lemma_pos_mul(s4.d, de.d);
    crate::rat::lemma_pos_mul(p1.d, p2.d);
    crate::rat::lemma_pos_mul(p3.d, p4.d);
    crate::rat::lemma_pos_mul(p1.d * p2.d, p3.d * p4.d);
    crate::rat::lemma_pos_mul(p1.d, p3.d);
    crate::rat::lemma_pos_mul(q1.d, q2.d);
    crate::rat::lemma_pos_mul(s1.d, s4.d * s6.d);
    crate::rat::lemma_ratio_mul_distrib_sub(s5, ratio_mul(s1, s2), ratio_mul(s3, s4));
    crate::rat::lemma_ratio_mul_comm(de, s4);
    crate::rat::lemma_ratio_mul_distrib_sub(s4, ratio_mul(s1, s6), ratio_mul(s3, s5));
    crate::rat::lemma_ratio_eq_trans(ratio_mul(de, s4), ratio_mul(s4, de), ratio_sub(p3, p4));
    crate::rat::lemma_ratio_sub_congr(
        ratio_mul(s5, an),
        ratio_sub(p1, p2),
        ratio_mul(de, s4),
        ratio_sub(p3, p4),
    );
    crate::rat::lemma_ratio_mul_rotate(s3, s5, s4);
    crate::rat::lemma_ratio_sub_sub_cancel(p1, p3, p2, p4);
    crate::rat::lemma_ratio_mul_assoc_swap(s1, s5, s2);
    crate::rat::lemma_ratio_mul_assoc_swap(s1, s4, s6);
    crate::rat::lemma_ratio_mul_comm(s4, s6);
    crate::rat::lemma_ratio_mul_congr(s1, s1, ratio_mul(s4, s6), ratio_mul(s6, s4));
    crate::rat::lemma_ratio_eq_trans(p3, ratio_mul(s1, ratio_mul(s4, s6)), q2);
    crate::rat::lemma_ratio_sub_congr(p1, q1, p3, q2);
    crate::rat::lemma_ratio_mul_distrib_sub(s1, ratio_mul(s5, s2), ratio_mul(s6, s4));
    crate::rat::lemma_ratio_eq_trans(
        ratio_sub(ratio_mul(s5, an), ratio_mul(de, s4)),
        ratio_sub(ratio_sub(p1, p2), ratio_sub(p3, p4)),
        ratio_sub(p1, p3),
    );
    crate::rat::lemma_ratio_eq_trans(
        ratio_sub(ratio_mul(s5, an), ratio_mul(de, s4)),
        ratio_sub(p1, p3),
        ratio_sub(q1, q2),
    );
    crate::rat::lemma_ratio_eq_trans(
        ratio_sub(ratio_mul(s5, an), ratio_mul(de, s4)),
        ratio_sub(q1, q2),
        ratio_mul(s1, bn),
    );
}

/// The Cramer combination of the intersection determinants along y:
/// `s6 * alpha_num - denom * s2` equals `s3 * beta_num` in value.
proof fn lemma_det_combination_y(s1: Ratio, s2: Ratio, s3: Ratio, s4: Ratio, s5: Ratio, s6: Ratio)
    requires
        s1.d > 0,
        s2.d > 0,
        s3.d > 0,
        s4.d > 0,
        s5.d > 0,
        s6.d > 0,
    ensures
        crate::rat::ratio_eq(
            ratio_sub(
                ratio_mul(s6, ratio_sub(ratio_mul(s1, s2), ratio_mul(s3, s4))),
                ratio_mul(ratio_sub(ratio_mul(s1, s6), ratio_mul(s3, s5)), s2),
            ),
            ratio_mul(s3, ratio_sub(ratio_mul(s5, s2), ratio_mul(s6, s4))),
        ),
{
    let an = ratio_sub(ratio_mul(s1, s2), ratio_mul(s3, s4));
    let de = ratio_sub(ratio_mul(s1, s6), ratio_mul(s3, s5));
    let bn = ratio_sub(ratio_mul(s5, s2), ratio_mul(s6, s4));
    let r1 = ratio_mul(s6, ratio_mul(s1, s2));
    let r2 = ratio_mul(s6, ratio_mul(s3, s4));
    let r3 = ratio_mul(s2, ratio_mul(s1, s6));
    let r4 = ratio_mul(s2, ratio_mul(s3, s5));
    let w1 = ratio_mul(s3, ratio_mul(s5, s2));
    let w2 = ratio_mul(s3, ratio_mul(s6, s4));
    crate::rat::lemma_pos_mul(s1.d, s2.d);
    crate::rat::lemma_pos_mul(s3.d, s4.d);
    crate::rat::lemma_pos_mul(s1.d, s6.d);
    crate::rat::lemma_pos_mul(s3.d, s5.d);
    crate::rat::lemma_pos_mul(s5.d, s2.d);
    crate::rat::lemma_pos_mul(s6.d, s4.d);
    crate::rat::lemma_pos_mul(s2.d, s5.d);
    crate::rat::lemma_pos_mul(s6.d, s1.d * s2.d);
    crate::rat::lemma_pos_mul(s6.d, s3.d * s4.d);
    crate::rat::lemma_pos_mul(s2.d, s1.d * s6.d);
    crate::rat::lemma_pos_mul(s2.d, s3.d * s5.d);
    crate::rat::lemma_pos_mul(s3.d, s5.d * s2.d);
    crate::rat::lemma_pos_mul(s3.d, s6.d * s4.d);
    crate::rat::lemma_pos_mul(s1.d * s6.d, s3.d * s5.d);
    crate::rat::lemma_pos_mul(s2.d, de.d);
    crate::rat::lemma_pos_mul(r1.d, r2.d);
    crate::rat::lemma_pos_mul(r3.d, r4.d);
    crate::rat::lemma_pos_mul(r1.d * r2.d, r3.d * r4.d);
    crate::rat::lemma_pos_mul(r4.d, r2.d);
    crate::rat::lemma_pos_mul(w1.d, w2.d);
    crate::rat::lemma_pos_mul(s3.d, s2.d * s5.d);
    crate::rat::lemma_ratio_mul_distrib_sub(s6, ratio_mul(s1, s2), ratio_mul(s3, s4));
    crate::rat::lemma_ratio_mul_comm(de, s2);
    crate::rat::lemma_ratio_mul_distrib_sub(s2, ratio_mul(s1, s6), ratio_mul(s3, s5));
    crate::rat::lemma_ratio_eq_trans(ratio_mul(de, s2), ratio_mul(s2, de), ratio_sub(r3, r4));
    crate::rat::lemma_ratio_sub_congr(
        ratio_mul(s6, an),
        ratio_sub(r1, r2),
        ratio_mul(de, s2),
        ratio_sub(r3, r4),
    );
    crate::rat::lemma_ratio_mul_rotate(s1, s6, s2);
    crate::rat::lemma_ratio_sub_sub_cancel_left(r1, r3, r2, r4);
    crate::rat::lemma_ratio_mul_assoc_swap(s3, s2, s5);
    crate::rat::lemma_ratio_mul_comm(s2, s5);
    crate::rat::lemma_ratio_mul_congr(s3, s3, ratio_mul(s2, s5), ratio_mul(s5, s2));
    crate::rat::lemma_ratio_eq_trans(r4, ratio_mul(s3, ratio_mul(s2, s5)), w1);
    crate::rat::lemma_ratio_mul_assoc_swap(s3, s6, s4);
    crate::rat::lemma_ratio_sub_congr(r4, w1, r2, w2);
    crate::rat::lemma_ratio_mul_distrib_sub(s3, ratio_mul(s5, s2), ratio_mul(s6, s4));
    crate::rat::lemma_ratio_eq_trans(
        ratio_sub(ratio_mul(s6, an), ratio_mul(de, s2)),
        ratio_sub(ratio_sub(r1, r2), ratio_sub(r3, r4)),
        ratio_sub(r4, r2),
    );
    crate::rat::lemma_ratio_eq_trans(
        ratio_sub(ratio_mul(s6, an), ratio_mul(de, s2)),
        ratio_sub(r4, r2),
        ratio_sub(w1, w2),
    );
    crate::rat::lemma_ratio_eq_trans(
        ratio_sub(ratio_mul(s6, an), ratio_mul(de, s2)),
        ratio_sub(w1, w2),
        ratio_mul(s3, bn),
    );
}

/// A crossing point reported by the classification lies within the second
/// segment's extent as well: each of its coordinates is between that
/// segment's endpoint coordinates, because the parameter `beta` lies in
/// [0, 1].  Together with [`lemma_cross_point_on_both_lines`] and
/// [`lemma_cross_point_within_first_extent`] this places the reported
/// point on both finite segments.
pub proof fn lemma_cross_point_within_second_extent(a1: Point, a2: Point, b1: Point, b2: Point)
    requires
        pt_wf(a1),
        pt_wf(a2),
        pt_wf(b1),
        pt_wf(b2),
    ensures
        inter_spec(a1, a2, b1, b2) matches Some(SegRelation::Cross(p)) ==> ratio_between(
            b1.x@,
            p.x@,
            b2.x@,
        ) && ratio_between(b1.y@, p.y@, b2.y@),
{
    match inter_spec(a1, a2, b1, b2) {
        Option::Some(SegRelation::Cross(p)) => {
            let s1 = ratio_sub(b2.x@, b1.x@);
            let s2 = ratio_sub(b1.y@, a1.y@);
            let s3 = ratio_sub(b2.y@, b1.y@);
            let s4 = ratio_sub(b1.x@, a1.x@);
            let s5 = ratio_sub(a2.x@, a1.x@);
            let s6 = ratio_sub(a2.y@, a1.y@);
            let an = ratio_sub(ratio_mul(s1, s2), ratio_mul(s3, s4));
            let bn = ratio_sub(ratio_mul(s5, s2), ratio_mul(s6, s4));
            let de = ratio_sub(ratio_mul(s1, s6), ratio_mul(s3, s5));
            let alpha = ratio_div(an, de);
            let beta = ratio_div(bn, de);
            let tx = ratio_mul(alpha, s5);
            let cx = ratio_add(a1.x@, tx);
            let ty = ratio_mul(alpha, s6);
            let cy = ratio_add(a1.y@, ty);
            assert(p.x@ == cx);
            assert(p.y@ == cy);
            assert(beta.d > 0) by {
                crate::rat::lemma_nonzero_mul(bn.d, de.n);
            }
            // The offset of the point from b1 is beta times b's direction:
            // multiply by the nonzero denominator and use the Cramer
            // combination of the determinants.
            crate::rat::lemma_ratio_add_sub_swap(a1.x@, tx, b1.x@);
            crate::rat::lemma_ratio_add_sub_swap(a1.y@, ty, b1.y@);
            crate::rat::lemma_ratio_mul_distrib_sub(de, tx, s4);
            crate::rat::lemma_ratio_mul_distrib_sub(de, ty, s2);
            crate::rat::lemma_ratio_mul_rotate(alpha, de, s5);
            crate::rat::lemma_ratio_mul_rotate(alpha, de, s6);
            crate::rat::lemma_ratio_div_mul(an, de);
            crate::rat::lemma_ratio_div_mul(bn, de);
            crate::rat::lemma_ratio_mul_congr(s5, s5, ratio_mul(alpha, de), an);
            crate::rat::lemma_ratio_mul_congr(s6, s6, ratio_mul(alpha, de), an);
            crate::rat::lemma_pos_mul(alpha.d, de.d);
            crate::rat::lemma_pos_mul(s5.d, alpha.d * de.d);
            crate::rat::lemma_pos_mul(s6.d, alpha.d * de.d);
            crate::rat::lemma_ratio_eq_trans(
                ratio_mul(de, tx),
                ratio_mul(s5, ratio_mul(alpha, de)),
                ratio_mul(s5, an),
            );
            crate::rat::lemma_ratio_eq_trans(
                ratio_mul(de, ty),
                ratio_mul(s6, ratio_mul(alpha, de)),
                ratio_mul(s6, an),
            );
            crate::rat::lemma_ratio_sub_congr(
                ratio_mul(de, tx),
                ratio_mul(s5, an),
                ratio_mul(de, s4),
                ratio_mul(de, s4),
            );
            crate::rat::lemma_ratio_sub_congr(
                ratio_mul(de, ty),
                ratio_mul(s6, an),
                ratio_mul(de, s2),
                ratio_mul(de, s2),
            );
            lemma_det_combination_x(s1, s2, s3, s4, s5, s6);
            lemma_det_combination_y(s1, s2, s3, s4, s5, s6);
            crate::rat::lemma_ratio_mul_rotate(beta, de, s1);
            crate::rat::lemma_ratio_mul_rotate(beta, de, s3);
            crate::rat::lemma_ratio_mul_congr(s1, s1, ratio_mul(beta, de), bn);
            crate::rat::lemma_ratio_mul_congr(s3, s3, ratio_mul(beta, de), bn);
            crate::rat::lemma_pos_mul(beta.d, de.d);
            crate::rat::lemma_pos_mul(s1.d, beta.d * de.d);
            crate::rat::lemma_pos_mul(s3.d, beta.d * de.d);
            crate::rat::lemma_ratio_eq_trans(
                ratio_mul(de, ratio_mul(beta, s1)),
                ratio_mul(s1, ratio_mul(beta, de)),
                ratio_mul(s1, bn),
            );
            crate::rat::lemma_ratio_eq_trans(
                ratio_mul(de, ratio_mul(beta, s3)),
                ratio_mul(s3, ratio_mul(beta, de)),
                ratio_mul(s3, bn),
            );
            crate::rat::lemma_pos_mul(tx.d, s4.d);
            crate::rat::lemma_pos_mul(de.d, tx.d * s4.d);
            crate::rat::lemma_pos_mul(de.d, tx.d);
            crate::rat::lemma_pos_mul(de.d, s4.d);
            crate::rat::lemma_pos_mul(de.d * tx.d, de.d * s4.d);
            crate::rat::lemma_pos_mul(s5.d, an.d);
            crate::rat::lemma_pos_mul(s5.d * an.d, de.d * s4.d);
            crate::rat::lemma_pos_mul(s1.d, bn.d);
            crate::rat::lemma_ratio_eq_trans(
                ratio_mul(de, ratio_sub(tx, s4)),
                ratio_sub(ratio_mul(de, tx), ratio_mul(de, s4)),
                ratio_sub(ratio_mul(s5, an), ratio_mul(de, s4)),
            );
            crate::rat::lemma_ratio_eq_trans(
                ratio_mul(de, ratio_sub(tx, s4)),
                ratio_sub(ratio_mul(s5, an), ratio_mul(de, s4)),
                ratio_mul(s1, bn),
            );
            crate::rat::lemma_ratio_eq_both(
                ratio_mul(de, ratio_sub(tx, s4)),
                ratio_mul(de, ratio_mul(beta, s1)),
                ratio_mul(s1, bn),
            );
            crate::rat::lemma_ratio_mul_cancel(de, ratio_sub(tx, s4), ratio_mul(beta, s1));
            crate::rat::lemma_pos_mul(ty.d, s2.d);
            crate::rat::lemma_pos_mul(de.d, ty.d * s2.d);
            crate::rat::lemma_pos_mul(de.d, ty.d);
            crate::rat::lemma_pos_mul(de.d, s2.d);
            crate::rat::lemma_pos_mul(de.d * ty.d, de.d * s2.d);
            crate::rat::lemma_pos_mul(s6.d, an.d);
            crate::rat::lemma_pos_mul(s6.d * an.d, de.d * s2.d);
            crate::rat::lemma_pos_mul(s3.d, bn.d);
            crate::rat::lemma_ratio_eq_trans(
                ratio_mul(de, ratio_sub(ty, s2)),
                ratio_sub(ratio_mul(de, ty), ratio_mul(de, s2)),
                ratio_sub(ratio_mul(s6, an), ratio_mul(de, s2)),
            );
            crate::rat::lemma_ratio_eq_trans(
                ratio_mul(de, ratio_sub(ty, s2)),
                ratio_sub(ratio_mul(s6, an), ratio_mul(de, s2)),
                ratio_mul(s3, bn),
            );
            crate::rat::lemma_ratio_eq_both(
                ratio_mul(de, ratio_sub(ty, s2)),
                ratio_mul(de, ratio_mul(beta, s3)),
                ratio_mul(s3, bn),
            );
            crate::rat::lemma_ratio_mul_cancel(de, ratio_sub(ty, s2), ratio_mul(beta, s3));
            // So the point is b1 plus beta times b's direction.
            crate::rat::lemma_pos_mul(b1.x@.d, a1.x@.d);
            crate::rat::lemma_pos_mul(b1.y@.d, a1.y@.d);
            crate::rat::lemma_pos_mul(beta.d, s1.d);
            crate::rat::lemma_pos_mul(beta.d, s3.d);
            crate::rat::lemma_ratio_eq_trans(
                ratio_sub(cx, b1.x@),
                ratio_sub(tx, s4),
                ratio_mul(beta, s1),
            );
            crate::rat::lemma_ratio_eq_trans(
                ratio_sub(cy, b1.y@),
                ratio_sub(ty, s2),
                ratio_mul(beta, s3),
            );
            crate::rat::lemma_ratio_add_difference(b1.x@, cx);
            crate::rat::lemma_ratio_add_difference(b1.y@, cy);
            crate::rat::lemma_ratio_add_congr(
                b1.x@,
                b1.x@,
                ratio_sub(cx, b1.x@),
                ratio_mul(beta, s1),
            );
            crate::rat::lemma_ratio_add_congr(
                b1.y@,
                b1.y@,
                ratio_sub(cy, b1.y@),
                ratio_mul(beta, s3),
            );
            // Betweenness from beta in [0, 1].
            lemma_frac_in_unit_means_quotient_in_unit(bn, de);
            crate::rat::lemma_ratio_mul_unit_bounds(beta, s1);
            crate::rat::lemma_ratio_mul_unit_bounds(beta, s3);
            crate::rat::lemma_ratio_add_increases(b1.x@, ratio_mul(beta, s1));
            crate::rat::lemma_ratio_add_increases(b1.y@, ratio_mul(beta, s3));
            crate::rat::lemma_ratio_add_le_mono(b1.x@, ratio_mul(beta, s1), s1);
            crate::rat::lemma_ratio_add_le_mono(b1.x@, s1, ratio_mul(beta, s1));
            crate::rat::lemma_ratio_add_le_mono(b1.y@, ratio_mul(beta, s3), s3);
            crate::rat::lemma_ratio_add_le_mono(b1.y@, s3, ratio_mul(beta, s3));
            crate::rat::lemma_ratio_add_difference(b1.x@, b2.x@);
            crate::rat::lemma_ratio_add_difference(b1.y@, b2.y@);
            let addx = ratio_add(b1.x@, ratio_mul(beta, s1));
            let addy = ratio_add(b1.y@, ratio_mul(beta, s3));
            crate::rat::lemma_pos_mul(b1.x@.d, beta.d * s1.d);
            crate::rat::lemma_pos_mul(b1.y@.d, beta.d * s3.d);
            crate::rat::lemma_pos_mul(b1.x@.d, s1.d);
            crate::rat::lemma_pos_mul(b1.y@.d, s3.d);
            crate::rat::lemma_pos_mul(cx.d, b1.x@.d);
            crate::rat::lemma_pos_mul(b1.x@.d, cx.d * b1.x@.d);
            crate::rat::lemma_pos_mul(cy.d, b1.y@.d);
            crate::rat::lemma_pos_mul(b1.y@.d, cy.d * b1.y@.d);
            // cx equals b1.x plus the scaled direction, in value.
            crate::rat::lemma_ratio_eq_both(
                cx,
                addx,
                ratio_add(b1.x@, ratio_sub(cx, b1.x@)),
            );
            crate::rat::lemma_ratio_eq_both(
                cy,
                addy,
                ratio_add(b1.y@, ratio_sub(cy, b1.y@)),
            );
            if crate::rat::ratio_le(Ratio { n: 0, d: 1 }, s1) {
                crate::rat::lemma_ratio_le_eq_trans(b1.x@, addx, cx);
                crate::rat::lemma_ratio_le_eq_trans(addx, ratio_add(b1.x@, s1), b2.x@);
                crate::rat::lemma_ratio_eq_le_trans(cx, addx, b2.x@);
            } else {
                crate::rat::lemma_ratio_eq_le_trans(cx, addx, b1.x@);
                crate::rat::lemma_ratio_eq_le_trans(b2.x@, ratio_add(b1.x@, s1), addx);
                crate::rat::lemma_ratio_le_eq_trans(b2.x@, addx, cx);
            }
            if crate::rat::ratio_le(Ratio { n: 0, d: 1 }, s3) {
                crate::rat::lemma_ratio_le_eq_trans(b1.y@, addy, cy);
                crate::rat::lemma_ratio_le_eq_trans(addy, ratio_add(b1.y@, s3), b2.y@);
                crate::rat::lemma_ratio_eq_le_trans(cy, addy, b2.y@);
            } else {
                crate::rat::lemma_ratio_eq_le_trans(cy, addy, b1.y@);
                crate::rat::lemma_ratio_eq_le_trans(b2.y@, ratio_add(b1.y@, s3), addy);
                crate::rat::lemma_ratio_le_eq_trans(b2.y@, addy, cy);
            }
        },
        _ => {},
    }
}

/// The point `r` lies on the (infinite) supporting line through `p` and
/// `q`: the cross product of `q - p` with `r - p` is zero-valued.
pub open spec fn points_collinear(p: Point, q: Point, r: Point) -> bool {
    ratio_is_zero(
        ratio_sub(
            ratio_mul(ratio_sub(q.x@, p.x@), ratio_sub(r.y@, p.y@)),
            ratio_mul(ratio_sub(q.y@, p.y@), ratio_sub(r.x@, p.x@)),
        ),
    )
}

/// A crossing point reported by the classification lies on the supporting
/// line of each of the two segments: the primitive really does return the
/// intersection of the two lines.
pub proof fn lemma_cross_point_on_both_lines(a1: Point, a2: Point, b1: Point, b2: Point)
    requires
        pt_wf(a1),
        pt_wf(a2),
        pt_wf(b1),
        pt_wf(b2),
    ensures
        inter_spec(a1, a2, b1, b2) matches Some(SegRelation::Cross(p)) ==> points_collinear(
            a1,
            a2,
            p,
        ) && points_collinear(b1, b2, p),
{
    match inter_spec(a1, a2, b1, b2) {
        Option::Some(SegRelation::Cross(p)) => {
            let s1 = ratio_sub(b2.x@, b1.x@);
            let s2 = ratio_sub(b1.y@, a1.y@);
            let s3 = ratio_sub(b2.y@, b1.y@);
            let s4 = ratio_sub(b1.x@, a1.x@);
            let s5 = ratio_sub(a2.x@, a1.x@);
            let s6 = ratio_sub(a2.y@, a1.y@);
            let u = ratio_mul(s1, s2);
            let v = ratio_mul(s3, s4);
            let alpha_num = ratio_sub(u, v);
            let pterm = ratio_mul(s1, s6);
            let qterm = ratio_mul(s3, s5);
            let denom = ratio_sub(pterm, qterm);
            let alpha = ratio_div(alpha_num, denom);
            let tx = ratio_mul(alpha, s5);
            let cx = ratio_add(a1.x@, tx);
            let ty = ratio_mul(alpha, s6);
            let cy = ratio_add(a1.y@, ty);
            assert(p.x@ == cx);
            assert(p.y@ == cy);
            // The point lies on the line of (a1, a2): its offset from a1
            // is exactly alpha times the direction (s5, s6), and the
            // cross product of parallel offsets is zero.
            crate::rat::lemma_ratio_add_sub_cancel(a1.y@, ty);
            crate::rat::lemma_ratio_add_sub_cancel(a1.x@, tx);
            crate::rat::lemma_ratio_mul_congr(s5, s5, ratio_sub(cy, a1.y@), ty);
            crate::rat::lemma_ratio_mul_congr(s6, s6, ratio_sub(cx, a1.x@), tx);
            crate::rat::lemma_ratio_mul_rotate(alpha, s5, s6);
            crate::rat::lemma_pos_mul(s5.d, ty.d);
            crate::rat::lemma_pos_mul(s6.d, tx.d);
            crate::rat::lemma_ratio_eq_trans(
                ratio_mul(s5, ratio_sub(cy, a1.y@)),
                ratio_mul(s5, ty),
                ratio_mul(s6, tx),
            );
            crate::rat::lemma_ratio_eq_both(
                ratio_mul(s5, ratio_sub(cy, a1.y@)),
                ratio_mul(s6, ratio_sub(cx, a1.x@)),
                ratio_mul(s6, tx),
            );
            crate::rat::lemma_ratio_sub_zero_iff(
                ratio_mul(s5, ratio_sub(cy, a1.y@)),
                ratio_mul(s6, ratio_sub(cx, a1.x@)),
            );
            assert(points_collinear(a1, a2, p));
            // The point lies on the line of (b1, b2): its offset from b1
            // is (a1 - b1) plus alpha times the direction of a, and the
            // cross product with (s1, s3) reduces to
            // `alpha * denom - alpha_num`, which is zero by the choice of
            // alpha.
            crate::rat::lemma_ratio_add_sub_swap(a1.y@, ty, b1.y@);
            crate::rat::lemma_ratio_add_sub_swap(a1.x@, tx, b1.x@);
            crate::rat::lemma_ratio_mul_congr(s1, s1, ratio_sub(cy, b1.y@), ratio_sub(ty, s2));
            crate::rat::lemma_ratio_mul_congr(s3, s3, ratio_sub(cx, b1.x@), ratio_sub(tx, s4));
            crate::rat::lemma_ratio_mul_distrib_sub(s1, ty, s2);
            crate::rat::lemma_ratio_mul_distrib_sub(s3, tx, s4);
            let aa = ratio_mul(s1, ty);
            let bb = ratio_mul(s3, tx);
            crate::rat::lemma_ratio_mul_assoc_swap(alpha, s1, s6);
            crate::rat::lemma_ratio_mul_assoc_swap(alpha, s3, s5);
            assert(crate::rat::ratio_eq(aa, ratio_mul(alpha, pterm)));
            crate::rat::lemma_ratio_sub_congr(
                aa,
                ratio_mul(alpha, pterm),
                bb,
                ratio_mul(alpha, qterm),
            );
            crate::rat::lemma_ratio_mul_distrib_sub(alpha, pterm, qterm);
            crate::rat::lemma_ratio_div_mul(alpha_num, denom);
            crate::rat::lemma_pos_mul(alpha.d, pterm.d);
            crate::rat::lemma_pos_mul(alpha.d, qterm.d);
            crate::rat::lemma_pos_mul(alpha.d * pterm.d, alpha.d * qterm.d);
            crate::rat::lemma_ratio_eq_trans(
                ratio_sub(aa, bb),
                ratio_sub(ratio_mul(alpha, pterm), ratio_mul(alpha, qterm)),
                ratio_mul(alpha, denom),
            );
            crate::rat::lemma_pos_mul(alpha.d, denom.d);
            crate::rat::lemma_ratio_eq_trans(ratio_sub(aa, bb), ratio_mul(alpha, denom), alpha_num);
            crate::rat::lemma_ratio_exchange(aa, bb, u, v);
            crate::rat::lemma_pos_mul(ty.d, s2.d);
            crate::rat::lemma_pos_mul(s1.d, ty.d * s2.d);
            crate::rat::lemma_ratio_eq_trans(
                ratio_mul(s1, ratio_sub(cy, b1.y@)),
                ratio_mul(s1, ratio_sub(ty, s2)),
                ratio_sub(aa, u),
            );
            crate::rat::lemma_pos_mul(s1.d, ty.d);
            crate::rat::lemma_pos_mul(s1.d * ty.d, u.d);
            crate::rat::lemma_ratio_eq_trans(
                ratio_mul(s1, ratio_sub(cy, b1.y@)),
                ratio_sub(aa, u),
                ratio_sub(bb, v),
            );
            crate::rat::lemma_pos_mul(tx.d, s4.d);
            crate::rat::lemma_pos_mul(s3.d, tx.d * s4.d);
            crate::rat::lemma_ratio_eq_trans(
                ratio_mul(s3, ratio_sub(cx, b1.x@)),
                ratio_mul(s3, ratio_sub(tx, s4)),
                ratio_sub(bb, v),
            );
            crate::rat::lemma_pos_mul(s3.d, tx.d);
            crate::rat::lemma_pos_mul(s3.d * tx.d, v.d);
            crate::rat::lemma_ratio_eq_both(
                ratio_mul(s1, ratio_sub(cy, b1.y@)),
                ratio_mul(s3, ratio_sub(cx, b1.x@)),
                ratio_sub(bb, v),
            );
            crate::rat::lemma_ratio_sub_zero_iff(
                ratio_mul(s1, ratio_sub(cy, b1.y@)),
                ratio_mul(s3, ratio_sub(cx, b1.x@)),
            );
            assert(points_collinear(b1, b2, p));
        },
        _ => {},
    }
}

/// Classifies segments `(a1, a2)` and `(b1, b2)`: collinear supporting
/// lines, a crossing (or touching) point, or neither.  Returns `None`
/// exactly when an intermediate exact rational does not fit `i64`
/// numerators and denominators (see [`inter_spec`]).
pub fn get_intersection(a1: &Point, a2: &Point, b1: &Point, b2: &Point) -> (r: Option<SegRelation>)
    ensures
        r == inter_spec(*a1, *a2, *b1, *b2),
{
    let s1 = match rat_sub(b2.x, b1.x) {
        Some(v) => v,
        None => {
            return None;
        },
    };
    let s2 = match rat_sub(b1.y, a1.y) {
        Some(v) => v,
        None => {
            return None;
        },
    };
    let s3 = match rat_sub(b2.y, b1.y) {
        Some(v) => v,
        None => {
            return None;
        },
    };
    let s4 = match rat_sub(b1.x, a1.x) {
        Some(v) => v,
        None => {
            return None;
        },
    };
    let s5 = match rat_sub(a2.x, a1.x) {
        Some(v) => v,
        None => {
            return None;
        },
    };
    let s6 = match rat_sub(a2.y, a1.y) {
        Some(v) => v,
        None => {
            return None;
        },
    };
    let p12 = match rat_mul(s1, s2) {
        Some(v) => v,
        None => {
            return None;
        },
    };
    let p34 = match rat_mul(s3, s4) {
        Some(v) => v,
        None => {
            return None;
        },
    };
    let alpha_num = match rat_sub(p12, p34) {
        Some(v) => v,
        None => {
            return None;
        },
    };
    let p52 = match rat_mul(s5, s2) {
        Some(v) => v,
        None => {
            return None;
        },
    };
    let p64 = match rat_mul(s6, s4) {
        Some(v) => v,
        None => {
            return None;
        },
    };
    let beta_num = match rat_sub(p52, p64) {
        Some(v) => v,
        None => {
            return None;
        },
    };
    let p16 = match rat_mul(s1, s6) {
        Some(v) => v,
        None => {
            return None;
        },
    };
    let p35 = match rat_mul(s3, s5) {
        Some(v) => v,
        None => {
            return None;
        },
    };
    let denom = match rat_sub(p16, p35) {
        Some(v) => v,
        None => {
            return None;
        },
    };
    if denom.num == 0 && alpha_num.num == 0 {
        return Some(SegRelation::CollinearOverlap);
    }
    if denom.num == 0 {
        return Some(SegRelation::Disjoint);
    }
    let zero = Rat::from_int(0);
    let alpha_in = if rat_lt(zero, denom) {
        rat_le(zero, alpha_num) && rat_le(alpha_num, denom)
    } else {
        rat_le(denom, alpha_num) && rat_le(alpha_num, zero)
    };
    let beta_in = if rat_lt(zero, denom) {
        rat_le(zero, beta_num) && rat_le(beta_num, denom)
    } else {
        rat_le(denom, beta_num) && rat_le(beta_num, zero)
    };
    if !(alpha_in && beta_in) {
        return Some(SegRelation::Disjoint);
    }
    let alpha = match rat_div(alpha_num, denom) {
        Some(v) => v,
        None => {
            return None;
        },
    };
    let tx = match rat_mul(alpha, s5) {
        Some(v) => v,
        None => {
            return None;
        },
    };
    let cx = match rat_add(a1.x, tx) {
        Some(v) => v,
        None => {
            return None;
        },
    };
    let ty = match rat_mul(alpha, s6) {
        Some(v) => v,
        None => {
            return None;
        },
    };
    let cy = match rat_add(a1.y, ty) {
        Some(v) => v,
        None => {
            return None;
        },
    };
    Some(SegRelation::Cross(Point { x: cx, y: cy }))
}

} // verus!
