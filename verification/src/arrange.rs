//! The arrangement store: an ordered sequence of segments, kept free of
//! collinear overlaps and unresolved crossings by the insertion algorithm.
//!
//! Insertion is a two-phase rewrite.  Phase one absorbs every stored segment
//! collinear with the candidate into a single maximal span; phase two splits
//! the crossed stored segments and the candidate at every crossing point.
//! Both phases are specified by recursive spec functions that the executable
//! code mirrors step by step; `insert_spec` composes them and is the exact
//! statement of what one insertion does.  An insertion reports `false` and
//! leaves the store untouched exactly when some exact rational intermediate
//! does not fit the `i64` coordinate representation.

use vstd::prelude::*;

use crate::geom::{
    get_intersection, inter_spec, merge_collinear, merge_spec, pt_eq, points_equal,
    seg_degenerate, seg_eq, seg_wf, segments_equal, Point, SegRelation, Segment,
};
use crate::rat::{ratio_eq, ratio_lt, Rat, Ratio};

verus! {

/// Some stored segment equals `t` as an unordered pair of endpoints.
pub open spec fn contains_seg(arr: Seq<Segment>, t: Segment) -> bool {
    exists|j: int| 0 <= j < arr.len() && seg_eq(arr[j], t)
}

/// Some listed point holds the same value as `p`.
pub open spec fn contains_pt(pts: Seq<Point>, p: Point) -> bool {
    exists|j: int| 0 <= j < pts.len() && pt_eq(pts[j], p)
}

/// Phase one, scanning `arr` from index `i` with the running candidate
/// `cand` and the already-kept prefix `kept`: every stored segment whose
/// line is collinear with the candidate's is absorbed — the candidate grows
/// to the extreme points of both and the stored segment is dropped — and
/// every other stored segment is kept in order.  `None` when a
/// classification does not fit the coordinate representation.
pub open spec fn phase1_rec(arr: Seq<Segment>, i: int, cand: Segment, kept: Seq<Segment>) -> Option<
    (Segment, Seq<Segment>),
>
    decreases arr.len() - i,
    when 0 <= i <= arr.len()
{
    if i == arr.len() {
        Some((cand, kept))
    } else {
        match inter_spec(cand.a, cand.b, arr[i].a, arr[i].b) {
            Option::None => None,
            Option::Some(SegRelation::CollinearOverlap) => phase1_rec(
                arr,
                i + 1,
                merge_spec(cand, arr[i]),
                kept,
            ),
            Option::Some(_) => phase1_rec(arr, i + 1, cand, kept.push(arr[i])),
        }
    }
}

/// Phase two scan over the segments kept by phase one, with the settled
/// candidate `cand`: each stored segment the candidate crosses is replaced
/// by its two halves around the crossing point (collected in `splits`,
/// still subject to the final degenerate/duplicate filter), and the
/// crossing point is recorded in `cuts`; all other segments are kept.
pub open spec fn phase2_rec(
    arr: Seq<Segment>,
    i: int,
    cand: Segment,
    cuts: Seq<Point>,
    kept: Seq<Segment>,
    splits: Seq<Segment>,
) -> Option<(Seq<Point>, Seq<Segment>, Seq<Segment>)>
    decreases arr.len() - i,
    when 0 <= i <= arr.len()
{
    if i == arr.len() {
        Some((cuts, kept, splits))
    } else {
        match inter_spec(cand.a, cand.b, arr[i].a, arr[i].b) {
            Option::None => None,
            Option::Some(SegRelation::Cross(p)) => phase2_rec(
                arr,
                i + 1,
                cand,
                cuts.push(p),
                kept,
                splits.push(Segment { a: arr[i].a, b: p }).push(Segment { a: p, b: arr[i].b }),
            ),
            Option::Some(_) => phase2_rec(arr, i + 1, cand, cuts, kept.push(arr[i]), splits),
        }
    }
}

/// Removes coincident point values, keeping the first occurrence of each.
pub open spec fn dedup_rec(pts: Seq<Point>, i: int, acc: Seq<Point>) -> Seq<Point>
    decreases pts.len() - i,
    when 0 <= i <= pts.len()
{
    if i == pts.len() {
        acc
    } else if contains_pt(acc, pts[i]) {
        dedup_rec(pts, i + 1, acc)
    } else {
        dedup_rec(pts, i + 1, acc.push(pts[i]))
    }
}

/// `p` sorts strictly before `q` along the candidate's dominant axis:
/// by x unless the candidate is vertical, then by y; ascending or
/// descending as the candidate runs.
pub open spec fn pt_before(p: Point, q: Point, vert: bool, asc: bool) -> bool {
    let kp = if vert {
        p.y@
    } else {
        p.x@
    };
    let kq = if vert {
        q.y@
    } else {
        q.x@
    };
    if asc {
        ratio_lt(kp, kq)
    } else {
        ratio_lt(kq, kp)
    }
}

/// The position where `p` is inserted into the sorted run `s`: after every
/// element not strictly after `p`, which keeps the sort stable.
pub open spec fn insort_pos_rec(s: Seq<Point>, i: int, p: Point, vert: bool, asc: bool) -> int
    decreases s.len() - i,
    when 0 <= i <= s.len()
{
    if i == s.len() {
        i
    } else if pt_before(p, s[i], vert, asc) {
        i
    } else {
        insort_pos_rec(s, i + 1, p, vert, asc)
    }
}

/// One step of the stable insertion sort.
pub open spec fn insort(s: Seq<Point>, p: Point, vert: bool, asc: bool) -> Seq<Point> {
    s.insert(insort_pos_rec(s, 0, p, vert, asc), p)
}

/// Stable insertion sort of the split points along the dominant axis.
pub open spec fn sort_rec(pts: Seq<Point>, i: int, acc: Seq<Point>, vert: bool, asc: bool) -> Seq<
    Point,
>
    decreases pts.len() - i,
    when 0 <= i <= pts.len()
{
    if i == pts.len() {
        acc
    } else {
        sort_rec(pts, i + 1, insort(acc, pts[i], vert, asc), vert, asc)
    }
}

/// One sub-segment between each consecutive pair of sorted points.
pub open spec fn pieces_rec(pts: Seq<Point>, i: int, acc: Seq<Segment>) -> Seq<Segment>
    decreases pts.len() - i,
    when 0 <= i <= pts.len()
{
    if i + 1 >= pts.len() {
        acc
    } else {
        pieces_rec(pts, i + 1, acc.push(Segment { a: pts[i], b: pts[i + 1] }))
    }
}

/// Appends each candidate sub-segment to the store unless it has zero
/// length or a segment equal to it (in either endpoint order) is already
/// stored.
pub open spec fn apply_adds_rec(store: Seq<Segment>, adds: Seq<Segment>, i: int) -> Seq<Segment>
    decreases adds.len() - i,
    when 0 <= i <= adds.len()
{
    if i == adds.len() {
        store
    } else if !seg_degenerate(adds[i]) && !contains_seg(store, adds[i]) {
        apply_adds_rec(store.push(adds[i]), adds, i + 1)
    } else {
        apply_adds_rec(store, adds, i + 1)
    }
}

/// The sort keys for the candidate `c`: vertical when its endpoints share
/// an x value; ascending along the dominant axis when the start coordinate
/// is below the end coordinate.
pub open spec fn cand_vert(c: Segment) -> bool {
    ratio_eq(c.a.x@, c.b.x@)
}

/// Ascending or descending split-point order for the candidate `c`.
pub open spec fn cand_asc(c: Segment) -> bool {
    if cand_vert(c) {
        ratio_lt(c.a.y@, c.b.y@)
    } else {
        ratio_lt(c.a.x@, c.b.x@)
    }
}

/// What one insertion does to the stored sequence: a zero-length candidate
/// is filtered silently; otherwise phase one absorbs collinear stored
/// segments into the candidate, phase two splits crossings, and the
/// resulting sub-segments are appended under the degenerate/duplicate
/// filter.  `None` — the store is left unchanged — exactly when some exact
/// intermediate does not fit the coordinate representation.
pub open spec fn insert_spec(arr: Seq<Segment>, cand: Segment) -> Option<Seq<Segment>> {
    if seg_degenerate(cand) {
        Some(arr)
    } else {
        match phase1_rec(arr, 0, cand, Seq::empty()) {
            Option::None => None,
            Option::Some((c1, kept)) => match phase2_rec(
                kept,
                0,
                c1,
                Seq::empty(),
                Seq::empty(),
                Seq::empty(),
            ) {
                Option::None => None,
                Option::Some((cuts, kept2, splits)) => {
                    let adds = if cuts.len() == 0 {
                        seq![c1]
                    } else {
                        let pts0 = seq![c1.a] + cuts + seq![c1.b];
                        let pts1 = dedup_rec(pts0, 0, Seq::empty());
                        let pts2 = sort_rec(pts1, 0, Seq::empty(), cand_vert(c1), cand_asc(c1));
                        pieces_rec(pts2, 0, splits)
                    };
                    Some(apply_adds_rec(kept2, adds, 0))
                },
            },
        }
    }
}

/// What deletion does: every stored segment equal to `target` in either
/// endpoint order is removed, the rest keep their order.
pub open spec fn delete_rec(arr: Seq<Segment>, i: int, target: Segment, acc: Seq<Segment>) -> Seq<
    Segment,
>
    decreases arr.len() - i,
    when 0 <= i <= arr.len()
{
    if i == arr.len() {
        acc
    } else if seg_eq(arr[i], target) {
        delete_rec(arr, i + 1, target, acc)
    } else {
        delete_rec(arr, i + 1, target, acc.push(arr[i]))
    }
}

/// Running exact sums of the x and y coordinates of every endpoint of every
/// stored segment, in storage order; `None` when a partial sum does not fit.
pub open spec fn sums_rec(arr: Seq<Segment>, i: int, sx: Ratio, sy: Ratio) -> Option<(Ratio, Ratio)>
    decreases arr.len() - i,
    when 0 <= i <= arr.len()
{
    if i == arr.len() {
        Some((sx, sy))
    } else {
        let sx1 = crate::rat::ratio_add(sx, arr[i].a.x@);
        let sy1 = crate::rat::ratio_add(sy, arr[i].a.y@);
        let sx2 = crate::rat::ratio_add(sx1, arr[i].b.x@);
        let sy2 = crate::rat::ratio_add(sy1, arr[i].b.y@);
        if crate::rat::fits(sx1) && crate::rat::fits(sy1) && crate::rat::fits(sx2)
            && crate::rat::fits(sy2) {
            sums_rec(arr, i + 1, sx2, sy2)
        } else {
            None
        }
    }
}

/// The centroid: undefined for fewer than three stored segments; otherwise
/// the arithmetic mean of every segment endpoint (a point shared by two
/// segments counts twice).  For a closed outline each true vertex is shared
/// by exactly two edges, so this mean equals the mean of the distinct
/// vertices.  `None` also when an exact intermediate does not fit.
pub open spec fn centroid_spec(arr: Seq<Segment>) -> Option<(Ratio, Ratio)> {
    if arr.len() < 3 {
        None
    } else if 2 * arr.len() > i64::MAX as int {
        None
    } else {
        match sums_rec(arr, 0, Ratio { n: 0, d: 1 }, Ratio { n: 0, d: 1 }) {
            Option::None => None,
            Option::Some((sx, sy)) => {
                let cnt = Ratio { n: 2 * arr.len() as int, d: 1 };
                let cx = crate::rat::ratio_div(sx, cnt);
                let cy = crate::rat::ratio_div(sy, cnt);
                if crate::rat::fits(cx) && crate::rat::fits(cy) {
                    Some((cx, cy))
                } else {
                    None
                }
            },
        }
    }
}

/// What adding a rectangle does: its four edges are inserted one after
/// another — top edge, right edge, bottom edge, left edge — each through
/// the full insertion rewrite.  `None` when any of the four insertions
/// fails to fit the coordinate representation.
pub open spec fn rect_spec(arr: Seq<Segment>, tlx: Rat, tly: Rat, brx: Rat, bry: Rat) -> Option<
    Seq<Segment>,
> {
    let tl = Point { x: tlx, y: tly };
    let tr = Point { x: brx, y: tly };
    let br = Point { x: brx, y: bry };
    let bl = Point { x: tlx, y: bry };
    match insert_spec(arr, Segment { a: tl, b: tr }) {
        Option::None => None,
        Option::Some(r1) => match insert_spec(r1, Segment { a: tr, b: br }) {
            Option::None => None,
            Option::Some(r2) => match insert_spec(r2, Segment { a: br, b: bl }) {
                Option::None => None,
                Option::Some(r3) => insert_spec(r3, Segment { a: bl, b: tl }),
            },
        },
    }
}

/// The arrangement invariants of the stored sequence: every stored segment
/// has well-formed coordinates and nonzero length, and no two stored
/// segments are equal as unordered endpoint pairs.
pub open spec fn arr_wf(arr: Seq<Segment>) -> bool {
    &&& forall|i: int|
        0 <= i < arr.len() ==> seg_wf(#[trigger] arr[i]) && !seg_degenerate(arr[i])
    &&& forall|i: int, j: int| 0 <= i < j < arr.len() ==> !seg_eq(arr[i], arr[j])
}

/// The arrangement store.  It owns the current segments; callers receive
/// copies when querying.
pub struct ShapeBuilder {
    pub lines: Vec<Segment>,
}

impl View for ShapeBuilder {
    type V = Seq<Segment>;

    open spec fn view(&self) -> Seq<Segment> {
        self.lines@
    }
}

/// Some stored segment equals `t`; the executable duplicate test.
fn vec_contains_seg(v: &Vec<Segment>, t: &Segment) -> (r: bool)
    ensures
        r == contains_seg(v@, *t),
{
    let mut i: usize = 0;
    while i < v.len()
        invariant
            0 <= i <= v.len(),
            forall|j: int| 0 <= j < i ==> !seg_eq(v@[j], *t),
        decreases v.len() - i,
    {
        if segments_equal(&v[i], t) {
            return true;
        }
        i += 1;
    }
    false
}

/// Some listed point equals `p`; the executable coincidence test.
fn vec_contains_pt(v: &Vec<Point>, p: &Point) -> (r: bool)
    ensures
        r == contains_pt(v@, *p),
{
    let mut i: usize = 0;
    while i < v.len()
        invariant
            0 <= i <= v.len(),
            forall|j: int| 0 <= j < i ==> !pt_eq(v@[j], *p),
        decreases v.len() - i,
    {
        if points_equal(&v[i], p) {
            return true;
        }
        i += 1;
    }
    false
}

/// The executable dominant-axis comparison used by the split-point sort.
fn point_before(p: &Point, q: &Point, vert: bool, asc: bool) -> (r: bool)
    ensures
        r == pt_before(*p, *q, vert, asc),
{
    let kp = if vert {
        p.y
    } else {
        p.x
    };
    let kq = if vert {
        q.y
    } else {
        q.x
    };
    if asc {
        crate::rat::rat_lt(kp, kq)
    } else {
        crate::rat::rat_lt(kq, kp)
    }
}

/// An element-wise copy of the stored segments.
fn copy_segments(v: &Vec<Segment>) -> (r: Vec<Segment>)
    ensures
        r@ == v@,
{
    let mut out: Vec<Segment> = Vec::new();
    let mut i: usize = 0;
    while i < v.len()
        invariant
            0 <= i <= v.len(),
            out@ == v@.subrange(0, i as int),
        decreases v.len() - i,
    {
        out.push(v[i]);
        proof {
            assert(out@ =~= v@.subrange(0, i + 1 as int));
        }
        i += 1;
    }
    proof {
        assert(out@ =~= v@);
    }
    out
}

impl ShapeBuilder {
    /// Creates an empty arrangement.
    pub fn new() -> (r: ShapeBuilder)
        ensures
            r@ == Seq::<Segment>::empty(),
            arr_wf(r@),
    {
        let r = ShapeBuilder { lines: Vec::new() };
        proof {
            assert(r@ =~= Seq::<Segment>::empty());
        }
        r
    }

    /// Inserts the segment `(start, end)` and rewrites the store so that it
    /// stays free of collinear overlaps and unresolved crossings: stored
    /// segments whose line is collinear with the candidate's are absorbed
    /// into one maximal span, then the candidate and every stored segment
    /// it crosses are split at the crossing points, and the resulting
    /// sub-segments are stored unless zero-length or already present.  A
    /// zero-length candidate is filtered silently.  The rewrite is atomic:
    /// the store is read, the new sequence is computed, and only then is it
    /// installed.
    ///
    /// Returns `false`, leaving the store untouched, exactly when some
    /// exact rational intermediate does not fit the `i64` coordinate
    /// representation (see [`insert_spec`]).
    #[verifier::loop_isolation(false)]
    pub fn add_line(&mut self, start_x: Rat, start_y: Rat, end_x: Rat, end_y: Rat) -> (ok: bool)
        ensures
            ({
                let cand = Segment {
                    a: Point { x: start_x, y: start_y },
                    b: Point { x: end_x, y: end_y },
                };
                match insert_spec(old(self)@, cand) {
                    Option::Some(res) => ok && final(self)@ == res,
                    Option::None => !ok && final(self)@ == old(self)@,
                }
            }),
            arr_wf(old(self)@) && start_x@.wf() && start_y@.wf() && end_x@.wf() && end_y@.wf()
                ==> arr_wf(final(self)@),
    {
        proof {
            crate::laws::lemma_insert_preserves_wf(
                self@,
                Segment {
                    a: Point { x: start_x, y: start_y },
                    b: Point { x: end_x, y: end_y },
                },
            );
        }
        let cand0 = Segment { a: Point { x: start_x, y: start_y }, b: Point { x: end_x, y: end_y } };
        if points_equal(&cand0.a, &cand0.b) {
            return true;
        }
        let ghost arr0 = self.lines@;
        // Phase one: absorb collinear stored segments into the candidate.
        let mut cand: Segment = cand0;
        let mut kept: Vec<Segment> = Vec::new();
        let mut i: usize = 0;
        while i < self.lines.len()
            invariant
                i <= self.lines.len(),
                self.lines@ == arr0,
                phase1_rec(arr0, 0, cand0, Seq::empty()) == phase1_rec(
                    arr0,
                    i as int,
                    cand,
                    kept@,
                ),
            decreases self.lines.len() - i,
        {
            let s = self.lines[i];
            match get_intersection(&cand.a, &cand.b, &s.a, &s.b) {
                None => {
                    return false;
                },
                Some(SegRelation::CollinearOverlap) => {
                    cand = merge_collinear(&cand, &s);
                },
                Some(_) => {
                    kept.push(s);
                },
            }
            i += 1;
        }
        let ghost cand1 = cand;
        let ghost keptg = kept@;
        // Phase two: collect crossing points and split the crossed
        // segments.
        let mut cuts: Vec<Point> = Vec::new();
        let mut kept2: Vec<Segment> = Vec::new();
        let mut splits: Vec<Segment> = Vec::new();
        let mut j: usize = 0;
        while j < kept.len()
            invariant
                j <= kept.len(),
                kept@ == keptg,
                cand == cand1,
                phase2_rec(keptg, 0, cand1, Seq::empty(), Seq::empty(), Seq::empty())
                    == phase2_rec(keptg, j as int, cand1, cuts@, kept2@, splits@),
            decreases kept.len() - j,
        {
            let s = kept[j];
            match get_intersection(&cand.a, &cand.b, &s.a, &s.b) {
                None => {
                    return false;
                },
                Some(SegRelation::Cross(p)) => {
                    cuts.push(p);
                    splits.push(Segment { a: s.a, b: p });
                    splits.push(Segment { a: p, b: s.b });
                },
                Some(_) => {
                    kept2.push(s);
                },
            }
            j += 1;
        }
        let ghost cutsg = cuts@;
        let ghost kept2g = kept2@;
        let ghost splitsg = splits@;
        // Build the sub-segments to store.
        let mut adds: Vec<Segment>;
        if cuts.len() == 0 {
            adds = Vec::new();
            adds.push(cand);
            proof {
                assert(adds@ =~= seq![cand1]);
            }
        } else {
            // The candidate's endpoints plus every crossing point ...
            let mut pts0: Vec<Point> = Vec::new();
            pts0.push(cand.a);
            let mut k: usize = 0;
            while k < cuts.len()
                invariant
                    k <= cuts.len(),
                    cuts@ == cutsg,
                    cand == cand1,
                    pts0@ == seq![cand1.a] + cutsg.subrange(0, k as int),
                decreases cuts.len() - k,
            {
                pts0.push(cuts[k]);
                proof {
                    assert(pts0@ =~= seq![cand1.a] + cutsg.subrange(0, k + 1 as int));
                }
                k += 1;
            }
            pts0.push(cand.b);
            proof {
                assert(cutsg.subrange(0, cutsg.len() as int) =~= cutsg);
                assert(pts0@ =~= seq![cand1.a] + cutsg + seq![cand1.b]);
            }
            let ghost pts0g = pts0@;
            // ... deduplicated, keeping first occurrences ...
            let mut pts1: Vec<Point> = Vec::new();
            k = 0;
            while k < pts0.len()
                invariant
                    k <= pts0.len(),
                    pts0@ == pts0g,
                    dedup_rec(pts0g, 0, Seq::empty()) == dedup_rec(pts0g, k as int, pts1@),
                decreases pts0.len() - k,
            {
                let p = pts0[k];
                if !vec_contains_pt(&pts1, &p) {
                    pts1.push(p);
                }
                k += 1;
            }
            let ghost pts1g = pts1@;
            // ... and sorted along the candidate's dominant axis.
            let vert = crate::rat::rat_eq(cand.a.x, cand.b.x);
            let asc = if vert {
                crate::rat::rat_lt(cand.a.y, cand.b.y)
            } else {
                crate::rat::rat_lt(cand.a.x, cand.b.x)
            };
            proof {
                assert(vert == cand_vert(cand1));
                assert(asc == cand_asc(cand1));
            }
            let mut pts2: Vec<Point> = Vec::new();
            k = 0;
            while k < pts1.len()
                invariant
                    k <= pts1.len(),
                    pts1@ == pts1g,
                    vert == cand_vert(cand1),
                    asc == cand_asc(cand1),
                    sort_rec(pts1g, 0, Seq::empty(), vert, asc) == sort_rec(
                        pts1g,
                        k as int,
                        pts2@,
                        vert,
                        asc,
                    ),
                decreases pts1.len() - k,
            {
                let p = pts1[k];
                let mut pos: usize = 0;
                while pos < pts2.len() && !point_before(&p, &pts2[pos], vert, asc)
                    invariant
                        pos <= pts2.len(),
                        insort_pos_rec(pts2@, 0, p, vert, asc) == insort_pos_rec(
                            pts2@,
                            pos as int,
                            p,
                            vert,
                            asc,
                        ),
                    decreases pts2.len() - pos,
                {
                    pos += 1;
                }
                proof {
                    assert(insort_pos_rec(pts2@, 0, p, vert, asc) == pos as int);
                }
                pts2.insert(pos, p);
                k += 1;
            }
            // One sub-segment between each consecutive pair, appended after
            // the halves of the crossed stored segments.
            let ghost pts2g = pts2@;
            adds = splits;
            k = 0;
            while k + 1 < pts2.len()
                invariant
                    pts2.len() >= 1 ==> k <= pts2.len() - 1,
                    pts2.len() == 0 ==> k == 0,
                    pts2@ == pts2g,
                    pieces_rec(pts2g, 0, splitsg) == pieces_rec(pts2g, k as int, adds@),
                decreases pts2.len() - k,
            {
                adds.push(Segment { a: pts2[k], b: pts2[k + 1] });
                k += 1;
            }
        }
        let ghost addsg = adds@;
        // Install: keep the surviving stored segments, then append each new
        // sub-segment unless zero-length or already present.
        let mut result: Vec<Segment> = kept2;
        let mut m: usize = 0;
        while m < adds.len()
            invariant
                m <= adds.len(),
                adds@ == addsg,
                apply_adds_rec(kept2g, addsg, 0) == apply_adds_rec(result@, addsg, m as int),
            decreases adds.len() - m,
        {
            let la = adds[m];
            if !points_equal(&la.a, &la.b) && !vec_contains_seg(&result, &la) {
                result.push(la);
            }
            m += 1;
        }
        self.lines = result;
        true
    }

    /// Removes every stored segment equal to `(a1, a2)` in either endpoint
    /// order; removing an absent segment is a no-op.
    pub fn delete_line(&mut self, a1x: Rat, a1y: Rat, a2x: Rat, a2y: Rat)
        ensures
            final(self)@ == delete_rec(
                old(self)@,
                0,
                Segment {
                    a: Point { x: a1x, y: a1y },
                    b: Point { x: a2x, y: a2y },
                },
                Seq::empty(),
            ),
            arr_wf(old(self)@) ==> arr_wf(final(self)@),
    {
        let target = Segment { a: Point { x: a1x, y: a1y }, b: Point { x: a2x, y: a2y } };
        proof {
            crate::laws::lemma_delete_preserves_wf(self@, target);
        }
        let ghost arr0 = self.lines@;
        let mut out: Vec<Segment> = Vec::new();
        let mut i: usize = 0;
        while i < self.lines.len()
            invariant
                0 <= i <= self.lines.len(),
                self.lines@ == arr0,
                delete_rec(arr0, 0, target, Seq::empty()) == delete_rec(
                    arr0,
                    i as int,
                    target,
                    out@,
                ),
            decreases self.lines.len() - i,
        {
            if !segments_equal(&self.lines[i], &target) {
                out.push(self.lines[i]);
            }
            i += 1;
        }
        self.lines = out;
    }

    /// Empties the store unconditionally.
    pub fn clear(&mut self)
        ensures
            final(self)@ == Seq::<Segment>::empty(),
            arr_wf(final(self)@),
    {
        self.lines = Vec::new();
        proof {
            assert(self@ =~= Seq::<Segment>::empty());
        }
    }

    /// Adds the four edges of the axis-aligned rectangle whose diagonally
    /// opposite corners are given, inserting each edge through the full
    /// insertion rewrite: top, right, bottom, then left edge.
    ///
    /// Returns `false` and restores the store unchanged when any edge
    /// insertion does not fit the coordinate representation.
    pub fn add_rect(
        &mut self,
        top_left_x: Rat,
        top_left_y: Rat,
        bottom_right_x: Rat,
        bottom_right_y: Rat,
    ) -> (ok: bool)
        ensures
            match rect_spec(old(self)@, top_left_x, top_left_y, bottom_right_x, bottom_right_y) {
                Option::Some(res) => ok && final(self)@ == res,
                Option::None => !ok && final(self)@ == old(self)@,
            },
            arr_wf(old(self)@) && top_left_x@.wf() && top_left_y@.wf() && bottom_right_x@.wf()
                && bottom_right_y@.wf() ==> arr_wf(final(self)@),
    {
        let saved = copy_segments(&self.lines);
        if !self.add_line(top_left_x, top_left_y, bottom_right_x, top_left_y) {
            return false;
        }
        if !self.add_line(bottom_right_x, top_left_y, bottom_right_x, bottom_right_y) {
            self.lines = saved;
            return false;
        }
        if !self.add_line(bottom_right_x, bottom_right_y, top_left_x, bottom_right_y) {
            self.lines = saved;
            return false;
        }
        if !self.add_line(top_left_x, bottom_right_y, top_left_x, top_left_y) {
            self.lines = saved;
            return false;
        }
        true
    }

    /// The centroid of the stored outline: `None` for fewer than three
    /// stored segments, and when an exact intermediate sum or quotient does
    /// not fit the coordinate representation; otherwise the arithmetic
    /// mean of every segment endpoint, a point shared by two segments
    /// counting twice (see [`centroid_spec`]).
    #[verifier::loop_isolation(false)]
    pub fn calculate_centroid(&self) -> (r: Option<Point>)
        ensures
            match centroid_spec(self@) {
                Option::Some(c) => r matches Some(p) && p.x@ == c.0 && p.y@ == c.1,
                Option::None => r is None,
            },
    {
        if self.lines.len() < 3 {
            return None;
        }
        if self.lines.len() as u64 > 4611686018427387903u64 {
            return None;
        }
        let ghost arr = self.lines@;
        let mut sx = Rat::from_int(0);
        let mut sy = Rat::from_int(0);
        let mut i: usize = 0;
        while i < self.lines.len()
            invariant
                i <= self.lines.len(),
                self.lines@ == arr,
                sums_rec(arr, 0, Ratio { n: 0, d: 1 }, Ratio { n: 0, d: 1 }) == sums_rec(
                    arr,
                    i as int,
                    sx@,
                    sy@,
                ),
            decreases self.lines.len() - i,
        {
            let s = self.lines[i];
            let sx1 = match crate::rat::rat_add(sx, s.a.x) {
                Some(v) => v,
                None => {
                    return None;
                },
            };
            let sy1 = match crate::rat::rat_add(sy, s.a.y) {
                Some(v) => v,
                None => {
                    return None;
                },
            };
            let sx2 = match crate::rat::rat_add(sx1, s.b.x) {
                Some(v) => v,
                None => {
                    return None;
                },
            };
            let sy2 = match crate::rat::rat_add(sy1, s.b.y) {
                Some(v) => v,
                None => {
                    return None;
                },
            };
            sx = sx2;
            sy = sy2;
            i += 1;
        }
        let count = Rat { num: 2 * (self.lines.len() as i64), den: 1 };
        let cx = match crate::rat::rat_div(sx, count) {
            Some(v) => v,
            None => {
                return None;
            },
        };
        let cy = match crate::rat::rat_div(sy, count) {
            Some(v) => v,
            None => {
                return None;
            },
        };
        Some(Point { x: cx, y: cy })
    }

    /// The current ordered stored segments, as copies.
    pub fn get_lines(&self) -> (r: Vec<Segment>)
        ensures
            r@ == self@,
    {
        copy_segments(&self.lines)
    }
}

} // verus!
