//! Proved laws of the arrangement.
//!
//! The lemmas here state, and Verus proves, the properties the store
//! promises beyond the operation contracts themselves: the stored sequence
//! keeps its invariants across every operation, characteristic insertions
//! behave as described (a single segment, two independent segments, two
//! collinear segments in either order, the same segment twice), and
//! deletion removes exactly the matching entry.

use vstd::prelude::*;

use crate::arrange::{
    apply_adds_rec, arr_wf, cand_asc, cand_vert, centroid_spec, contains_pt, contains_seg,
    dedup_rec, delete_rec, insert_spec, insort, insort_pos_rec, phase1_rec, phase2_rec,
    pieces_rec, sort_rec,
};
use crate::geom::{
    inter_spec, lemma_inter_cross_wf, lemma_merge_bounds, lemma_merge_comm,
    lemma_merge_nondegenerate, lemma_seg_eq_inter_collinear, lemma_seg_eq_trans, merge_spec,
    pt_wf, seg_degenerate, seg_eq, seg_wf, Point, SegRelation, Segment,
};

verus! {

/// Every listed segment has well-formed coordinates.
pub open spec fn all_seg_wf(arr: Seq<Segment>) -> bool {
    forall|i: int| 0 <= i < arr.len() ==> seg_wf(#[trigger] arr[i])
}

/// Every listed segment has well-formed coordinates and nonzero length.
pub open spec fn all_stored_wf(arr: Seq<Segment>) -> bool {
    forall|i: int| 0 <= i < arr.len() ==> seg_wf(#[trigger] arr[i]) && !seg_degenerate(arr[i])
}

/// No two listed segments are equal as unordered endpoint pairs.
pub open spec fn pairwise_distinct(arr: Seq<Segment>) -> bool {
    forall|i: int, j: int| 0 <= i < j < arr.len() ==> !seg_eq(arr[i], arr[j])
}

/// Every listed point has well-formed coordinates.
pub open spec fn all_pt_wf(pts: Seq<Point>) -> bool {
    forall|i: int| 0 <= i < pts.len() ==> pt_wf(#[trigger] pts[i])
}

/// Phase one keeps the invariants: the running candidate stays
/// well-formed, and the kept segments remain well-formed, nonzero-length
/// and pairwise distinct.
proof fn lemma_phase1_props(arr: Seq<Segment>, i: int, cand: Segment, kept: Seq<Segment>)
    requires
        0 <= i <= arr.len(),
        all_stored_wf(arr),
        pairwise_distinct(arr),
        seg_wf(cand),
        all_stored_wf(kept),
        pairwise_distinct(kept),
        forall|j: int, k: int|
            0 <= j < kept.len() && i <= k < arr.len() ==> !seg_eq(#[trigger] kept[j], #[trigger] arr[k]),
    ensures
        phase1_rec(arr, i, cand, kept) matches Some(r) ==> seg_wf(r.0) && all_stored_wf(r.1)
            && pairwise_distinct(r.1),
    decreases arr.len() - i,
{
    if i == arr.len() {
    } else {
        match inter_spec(cand.a, cand.b, arr[i].a, arr[i].b) {
            Option::None => {},
            Option::Some(SegRelation::CollinearOverlap) => {
                lemma_merge_bounds(cand, arr[i]);
                lemma_phase1_props(arr, i + 1, merge_spec(cand, arr[i]), kept);
            },
            Option::Some(_) => {
                let kept2 = kept.push(arr[i]);
                assert forall|j: int| 0 <= j < kept2.len() implies seg_wf(#[trigger] kept2[j])
                    && !seg_degenerate(kept2[j]) by {
                    if j < kept.len() {
                        assert(kept2[j] == kept[j]);
                    } else {
                        assert(kept2[j] == arr[i]);
                    }
                }
                assert forall|j: int, k: int| 0 <= j < k < kept2.len() implies !seg_eq(
                    kept2[j],
                    kept2[k],
                ) by {
                    if k < kept.len() {
                        assert(kept2[j] == kept[j] && kept2[k] == kept[k]);
                    } else {
                        assert(kept2[j] == kept[j] && kept2[k] == arr[i]);
                    }
                }
                assert forall|j: int, k: int|
                    0 <= j < kept2.len() && i + 1 <= k < arr.len() implies !seg_eq(
                    #[trigger] kept2[j],
                    #[trigger] arr[k],
                ) by {
                    if j < kept.len() {
                        assert(kept2[j] == kept[j]);
                    } else {
                        assert(kept2[j] == arr[i]);
                    }
                }
                lemma_phase1_props(arr, i + 1, cand, kept2);
            },
        }
    }
}

/// Phase two keeps the invariants: crossing points are well-formed, the
/// kept segments remain well-formed, nonzero-length and pairwise
/// distinct, and every split half is well-formed.
proof fn lemma_phase2_props(
    arr: Seq<Segment>,
    i: int,
    cand: Segment,
    cuts: Seq<Point>,
    kept: Seq<Segment>,
    splits: Seq<Segment>,
)
    requires
        0 <= i <= arr.len(),
        all_stored_wf(arr),
        pairwise_distinct(arr),
        all_pt_wf(cuts),
        all_stored_wf(kept),
        pairwise_distinct(kept),
        all_seg_wf(splits),
        forall|j: int, k: int|
            0 <= j < kept.len() && i <= k < arr.len() ==> !seg_eq(#[trigger] kept[j], #[trigger] arr[k]),
    ensures
        phase2_rec(arr, i, cand, cuts, kept, splits) matches Some(r) ==> all_pt_wf(r.0)
            && all_stored_wf(r.1) && pairwise_distinct(r.1) && all_seg_wf(r.2),
    decreases arr.len() - i,
{
    if i == arr.len() {
    } else {
        match inter_spec(cand.a, cand.b, arr[i].a, arr[i].b) {
            Option::None => {},
            Option::Some(SegRelation::Cross(p)) => {
                lemma_inter_cross_wf(cand.a, cand.b, arr[i].a, arr[i].b);
                let cuts2 = cuts.push(p);
                let splits2 = splits.push(Segment { a: arr[i].a, b: p }).push(
                    Segment { a: p, b: arr[i].b },
                );
                assert forall|j: int| 0 <= j < cuts2.len() implies pt_wf(#[trigger] cuts2[j]) by {
                    if j < cuts.len() {
                        assert(cuts2[j] == cuts[j]);
                    } else {
                        assert(cuts2[j] == p);
                    }
                }
                assert forall|j: int| 0 <= j < splits2.len() implies seg_wf(
                    #[trigger] splits2[j],
                ) by {
                    if j < splits.len() {
                        assert(splits2[j] == splits[j]);
                    } else if j == splits.len() {
                        assert(splits2[j] == Segment { a: arr[i].a, b: p });
                    } else {
                        assert(splits2[j] == Segment { a: p, b: arr[i].b });
                    }
                }
                lemma_phase2_props(arr, i + 1, cand, cuts2, kept, splits2);
            },
            Option::Some(_) => {
                let kept2 = kept.push(arr[i]);
                assert forall|j: int| 0 <= j < kept2.len() implies seg_wf(#[trigger] kept2[j])
                    && !seg_degenerate(kept2[j]) by {
                    if j < kept.len() {
                        assert(kept2[j] == kept[j]);
                    } else {
                        assert(kept2[j] == arr[i]);
                    }
                }
                assert forall|j: int, k: int| 0 <= j < k < kept2.len() implies !seg_eq(
                    kept2[j],
                    kept2[k],
                ) by {
                    if k < kept.len() {
                        assert(kept2[j] == kept[j] && kept2[k] == kept[k]);
                    } else {
                        assert(kept2[j] == kept[j] && kept2[k] == arr[i]);
                    }
                }
                assert forall|j: int, k: int|
                    0 <= j < kept2.len() && i + 1 <= k < arr.len() implies !seg_eq(
                    #[trigger] kept2[j],
                    #[trigger] arr[k],
                ) by {
                    if j < kept.len() {
                        assert(kept2[j] == kept[j]);
                    } else {
                        assert(kept2[j] == arr[i]);
                    }
                }
                lemma_phase2_props(arr, i + 1, cand, cuts, kept2, splits);
            },
        }
    }
}

/// Deduplication keeps points well-formed.
proof fn lemma_dedup_wf(pts: Seq<Point>, i: int, acc: Seq<Point>)
    requires
        0 <= i <= pts.len(),
        all_pt_wf(pts),
        all_pt_wf(acc),
    ensures
        all_pt_wf(dedup_rec(pts, i, acc)),
    decreases pts.len() - i,
{
    if i == pts.len() {
    } else if contains_pt(acc, pts[i]) {
        lemma_dedup_wf(pts, i + 1, acc);
    } else {
        let acc2 = acc.push(pts[i]);
        assert forall|j: int| 0 <= j < acc2.len() implies pt_wf(#[trigger] acc2[j]) by {
            if j < acc.len() {
                assert(acc2[j] == acc[j]);
            } else {
                assert(acc2[j] == pts[i]);
            }
        }
        lemma_dedup_wf(pts, i + 1, acc2);
    }
}

/// The insertion position lies inside the run.
proof fn lemma_insort_pos_range(s: Seq<Point>, i: int, p: Point, vert: bool, asc: bool)
    requires
        0 <= i <= s.len(),
    ensures
        i <= insort_pos_rec(s, i, p, vert, asc) <= s.len(),
    decreases s.len() - i,
{
    if i == s.len() {
    } else if crate::arrange::pt_before(p, s[i], vert, asc) {
    } else {
        lemma_insort_pos_range(s, i + 1, p, vert, asc);
    }
}

/// One sorted insertion keeps points well-formed.
proof fn lemma_insort_wf(s: Seq<Point>, p: Point, vert: bool, asc: bool)
    requires
        all_pt_wf(s),
        pt_wf(p),
    ensures
        all_pt_wf(insort(s, p, vert, asc)),
{
    let pos = insort_pos_rec(s, 0, p, vert, asc);
    lemma_insort_pos_range(s, 0, p, vert, asc);
    let s2 = s.insert(pos, p);
    assert forall|j: int| 0 <= j < s2.len() implies pt_wf(#[trigger] s2[j]) by {
        if j < pos {
            assert(s2[j] == s[j]);
        } else if j == pos {
            assert(s2[j] == p);
        } else {
            assert(s2[j] == s[j - 1]);
        }
    }
}

/// The stable sort keeps points well-formed.
proof fn lemma_sort_wf(pts: Seq<Point>, i: int, acc: Seq<Point>, vert: bool, asc: bool)
    requires
        0 <= i <= pts.len(),
        all_pt_wf(pts),
        all_pt_wf(acc),
    ensures
        all_pt_wf(sort_rec(pts, i, acc, vert, asc)),
    decreases pts.len() - i,
{
    if i == pts.len() {
    } else {
        lemma_insort_wf(acc, pts[i], vert, asc);
        lemma_sort_wf(pts, i + 1, insort(acc, pts[i], vert, asc), vert, asc);
    }
}

/// Sub-segments between well-formed points are well-formed.
proof fn lemma_pieces_wf(pts: Seq<Point>, i: int, acc: Seq<Segment>)
    requires
        0 <= i <= pts.len(),
        all_pt_wf(pts),
        all_seg_wf(acc),
    ensures
        all_seg_wf(pieces_rec(pts, i, acc)),
    decreases pts.len() - i,
{
    if i + 1 >= pts.len() {
    } else {
        let acc2 = acc.push(Segment { a: pts[i], b: pts[i + 1] });
        assert forall|j: int| 0 <= j < acc2.len() implies seg_wf(#[trigger] acc2[j]) by {
            if j < acc.len() {
                assert(acc2[j] == acc[j]);
            } else {
                assert(acc2[j] == Segment { a: pts[i], b: pts[i + 1] });
            }
        }
        lemma_pieces_wf(pts, i + 1, acc2);
    }
}

/// The final degenerate/duplicate filter keeps the store invariants.
proof fn lemma_apply_adds_props(store: Seq<Segment>, adds: Seq<Segment>, i: int)
    requires
        0 <= i <= adds.len(),
        all_stored_wf(store),
        pairwise_distinct(store),
        all_seg_wf(adds),
    ensures
        all_stored_wf(apply_adds_rec(store, adds, i)),
        pairwise_distinct(apply_adds_rec(store, adds, i)),
    decreases adds.len() - i,
{
    if i == adds.len() {
    } else if !seg_degenerate(adds[i]) && !contains_seg(store, adds[i]) {
        let store2 = store.push(adds[i]);
        assert forall|j: int| 0 <= j < store2.len() implies seg_wf(#[trigger] store2[j])
            && !seg_degenerate(store2[j]) by {
            if j < store.len() {
                assert(store2[j] == store[j]);
            } else {
                assert(store2[j] == adds[i]);
            }
        }
        assert forall|j: int, k: int| 0 <= j < k < store2.len() implies !seg_eq(
            store2[j],
            store2[k],
        ) by {
            if k < store.len() {
                assert(store2[j] == store[j] && store2[k] == store[k]);
            } else {
                assert(store2[j] == store[j] && store2[k] == adds[i]);
            }
        }
        lemma_apply_adds_props(store2, adds, i + 1);
    } else {
        lemma_apply_adds_props(store, adds, i + 1);
    }
}

/// A successful insertion preserves the arrangement invariants: every
/// stored segment keeps well-formed coordinates and nonzero length, and
/// no two stored segments are equal in either endpoint order.
pub proof fn lemma_insert_preserves_wf(arr: Seq<Segment>, cand: Segment)
    ensures
        arr_wf(arr) && seg_wf(cand) ==> (insert_spec(arr, cand) matches Some(res) ==> arr_wf(
            res,
        )),
{
    if arr_wf(arr) && seg_wf(cand) && insert_spec(arr, cand) is Some {
        if seg_degenerate(cand) {
        } else {
            match phase1_rec(arr, 0, cand, Seq::empty()) {
                Option::None => {},
                Option::Some((c1, kept)) => {
                    lemma_phase1_props(arr, 0, cand, Seq::empty());
                    match phase2_rec(kept, 0, c1, Seq::empty(), Seq::empty(), Seq::empty()) {
                        Option::None => {},
                        Option::Some((cuts, kept2, splits)) => {
                            lemma_phase2_props(
                                kept,
                                0,
                                c1,
                                Seq::empty(),
                                Seq::empty(),
                                Seq::empty(),
                            );
                            if cuts.len() == 0 {
                                let adds = seq![c1];
                                assert(all_seg_wf(adds)) by {
                                    assert(adds[0] == c1);
                                }
                                lemma_apply_adds_props(kept2, adds, 0);
                            } else {
                                let pts0 = seq![c1.a] + cuts + seq![c1.b];
                                assert forall|j: int| 0 <= j < pts0.len() implies pt_wf(
                                    #[trigger] pts0[j],
                                ) by {
                                    if j == 0 {
                                        assert(pts0[j] == c1.a);
                                    } else if j <= cuts.len() {
                                        assert(pts0[j] == cuts[j - 1]);
                                    } else {
                                        assert(pts0[j] == c1.b);
                                    }
                                }
                                let pts1 = dedup_rec(pts0, 0, Seq::empty());
                                lemma_dedup_wf(pts0, 0, Seq::empty());
                                let pts2 = sort_rec(
                                    pts1,
                                    0,
                                    Seq::empty(),
                                    cand_vert(c1),
                                    cand_asc(c1),
                                );
                                lemma_sort_wf(pts1, 0, Seq::empty(), cand_vert(c1), cand_asc(c1));
                                lemma_pieces_wf(pts2, 0, splits);
                                lemma_apply_adds_props(kept2, pieces_rec(pts2, 0, splits), 0);
                            }
                        },
                    }
                },
            }
        }
    }
}

/// Deletion preserves the arrangement invariants.
proof fn lemma_delete_props(arr: Seq<Segment>, i: int, target: Segment, acc: Seq<Segment>)
    requires
        0 <= i <= arr.len(),
        all_stored_wf(arr),
        pairwise_distinct(arr),
        all_stored_wf(acc),
        pairwise_distinct(acc),
        forall|j: int, k: int|
            0 <= j < acc.len() && i <= k < arr.len() ==> !seg_eq(#[trigger] acc[j], #[trigger] arr[k]),
    ensures
        all_stored_wf(delete_rec(arr, i, target, acc)),
        pairwise_distinct(delete_rec(arr, i, target, acc)),
    decreases arr.len() - i,
{
    if i == arr.len() {
    } else if seg_eq(arr[i], target) {
        lemma_delete_props(arr, i + 1, target, acc);
    } else {
        let acc2 = acc.push(arr[i]);
        assert forall|j: int| 0 <= j < acc2.len() implies seg_wf(#[trigger] acc2[j])
            && !seg_degenerate(acc2[j]) by {
            if j < acc.len() {
                assert(acc2[j] == acc[j]);
            } else {
                assert(acc2[j] == arr[i]);
            }
        }
        assert forall|j: int, k: int| 0 <= j < k < acc2.len() implies !seg_eq(acc2[j], acc2[k]) by {
            if k < acc.len() {
                assert(acc2[j] == acc[j] && acc2[k] == acc[k]);
            } else {
                assert(acc2[j] == acc[j] && acc2[k] == arr[i]);
            }
        }
        assert forall|j: int, k: int|
            0 <= j < acc2.len() && i + 1 <= k < arr.len() implies !seg_eq(
            #[trigger] acc2[j],
            #[trigger] arr[k],
        ) by {
            if j < acc.len() {
                assert(acc2[j] == acc[j]);
            } else {
                assert(acc2[j] == arr[i]);
            }
        }
        lemma_delete_props(arr, i + 1, target, acc2);
    }
}

/// Deleting a segment preserves the arrangement invariants.
pub proof fn lemma_delete_preserves_wf(arr: Seq<Segment>, target: Segment)
    ensures
        arr_wf(arr) ==> arr_wf(delete_rec(arr, 0, target, Seq::empty())),
{
    if arr_wf(arr) {
        lemma_delete_props(arr, 0, target, Seq::empty());
    }
}

/// Inserting a single non-degenerate segment into an empty arrangement
/// stores exactly that segment, and nothing else.
pub proof fn lemma_insert_single_into_empty(s: Segment)
    requires
        !seg_degenerate(s),
    ensures
        insert_spec(Seq::empty(), s) == Some(seq![s]),
{
    let empty = Seq::<Segment>::empty();
    assert(phase1_rec(empty, 0, s, Seq::empty()) == Some((s, Seq::<Segment>::empty())));
    assert(phase2_rec(empty, 0, s, Seq::empty(), Seq::empty(), Seq::empty()) == Some(
        (Seq::<Point>::empty(), Seq::<Segment>::empty(), Seq::<Segment>::empty()),
    ));
    let adds = seq![s];
    assert(!contains_seg(empty, adds[0]));
    assert(apply_adds_rec(empty.push(s), adds, 1) == empty.push(s));
    assert(apply_adds_rec(empty, adds, 0) == empty.push(s));
    assert(empty.push(s) =~= seq![s]);
}

/// The centroid is undefined for fewer than three stored segments.
pub proof fn lemma_centroid_undefined_under_three(arr: Seq<Segment>)
    ensures
        arr.len() < 3 ==> centroid_spec(arr) is None,
{
}

/// The number of stored segments matching `target` in either endpoint
/// order, from index `i` on.
pub open spec fn count_matches(arr: Seq<Segment>, i: int, target: Segment) -> nat
    decreases arr.len() - i,
    when 0 <= i <= arr.len()
{
    if i == arr.len() {
        0
    } else if seg_eq(arr[i], target) {
        1 + count_matches(arr, i + 1, target)
    } else {
        count_matches(arr, i + 1, target)
    }
}

/// Deletion keeps everything but the matching entries: the result length
/// is the old length less the number of matches.
proof fn lemma_delete_len(arr: Seq<Segment>, i: int, target: Segment, acc: Seq<Segment>)
    requires
        0 <= i <= arr.len(),
    ensures
        count_matches(arr, i, target) <= arr.len() - i,
        delete_rec(arr, i, target, acc).len() == acc.len() + (arr.len() - i) - count_matches(
            arr,
            i,
            target,
        ),
    decreases arr.len() - i,
{
    if i == arr.len() {
    } else if seg_eq(arr[i], target) {
        lemma_delete_len(arr, i + 1, target, acc);
    } else {
        lemma_delete_len(arr, i + 1, target, acc.push(arr[i]));
    }
}

/// A scan over segments none of which matches counts zero matches.
proof fn lemma_count_none(arr: Seq<Segment>, i: int, target: Segment)
    requires
        0 <= i <= arr.len(),
        forall|k: int| i <= k < arr.len() ==> !seg_eq(#[trigger] arr[k], target),
    ensures
        count_matches(arr, i, target) == 0,
    decreases arr.len() - i,
{
    if i == arr.len() {
    } else {
        lemma_count_none(arr, i + 1, target);
    }
}

/// In a well-formed arrangement at most one stored segment matches a
/// well-formed target: two matches would be equal to each other.
proof fn lemma_count_at_most_one(arr: Seq<Segment>, i: int, target: Segment)
    requires
        0 <= i <= arr.len(),
        arr_wf(arr),
        seg_wf(target),
    ensures
        count_matches(arr, i, target) <= 1,
    decreases arr.len() - i,
{
    if i == arr.len() {
    } else if seg_eq(arr[i], target) {
        assert forall|k: int| i + 1 <= k < arr.len() implies !seg_eq(#[trigger] arr[k], target) by {
            if seg_eq(arr[k], target) {
                lemma_seg_eq_trans(arr[i], target, arr[k]);
            }
        }
        lemma_count_none(arr, i + 1, target);
    } else {
        lemma_count_at_most_one(arr, i + 1, target);
    }
}

/// A scan over segments one of which matches counts at least one match.
proof fn lemma_count_at_least_one(arr: Seq<Segment>, i: int, target: Segment)
    requires
        0 <= i <= arr.len(),
        exists|k: int| i <= k < arr.len() && seg_eq(#[trigger] arr[k], target),
    ensures
        count_matches(arr, i, target) >= 1,
    decreases arr.len() - i,
{
    if i == arr.len() {
    } else if seg_eq(arr[i], target) {
    } else {
        let k = choose|k: int| i <= k < arr.len() && seg_eq(#[trigger] arr[k], target);
        assert(i + 1 <= k < arr.len() && seg_eq(arr[k], target));
        lemma_count_at_least_one(arr, i + 1, target);
    }
}

/// Deleting an absent segment leaves the arrangement unchanged.
pub proof fn lemma_delete_absent_unchanged(arr: Seq<Segment>, target: Segment)
    requires
        !contains_seg(arr, target),
    ensures
        delete_rec(arr, 0, target, Seq::empty()) == arr,
{
    lemma_delete_unchanged_from(arr, 0, target, Seq::empty());
    assert(Seq::<Segment>::empty() + arr.subrange(0, arr.len() as int) =~= arr);
}

/// Deletion without a match from index `i` on appends the rest unchanged.
proof fn lemma_delete_unchanged_from(arr: Seq<Segment>, i: int, target: Segment, acc: Seq<Segment>)
    requires
        0 <= i <= arr.len(),
        forall|k: int| 0 <= k < arr.len() ==> !seg_eq(#[trigger] arr[k], target),
    ensures
        delete_rec(arr, i, target, acc) == acc + arr.subrange(i, arr.len() as int),
    decreases arr.len() - i,
{
    if i == arr.len() {
        assert(acc + arr.subrange(i, arr.len() as int) =~= acc);
    } else {
        lemma_delete_unchanged_from(arr, i + 1, target, acc.push(arr[i]));
        assert(acc.push(arr[i]) + arr.subrange(i + 1, arr.len() as int) =~= acc + arr.subrange(
            i,
            arr.len() as int,
        ));
    }
}

/// Deleting a present segment from a well-formed arrangement removes
/// exactly one stored entry.
pub proof fn lemma_delete_removes_exactly_one(arr: Seq<Segment>, target: Segment)
    requires
        arr_wf(arr),
        seg_wf(target),
        contains_seg(arr, target),
    ensures
        delete_rec(arr, 0, target, Seq::empty()).len() == arr.len() - 1,
{
    lemma_delete_len(arr, 0, target, Seq::empty());
    lemma_count_at_most_one(arr, 0, target);
    lemma_count_at_least_one(arr, 0, target);
}

/// Inserting the same non-degenerate segment a second time does not grow
/// the store: the single stored segment is merged with itself and stored
/// again, equal to the original in either endpoint order.  The
/// classification of the segment against itself must fit the coordinate
/// representation.
pub proof fn lemma_insert_same_twice(s: Segment)
    requires
        seg_wf(s),
        !seg_degenerate(s),
        inter_spec(s.a, s.b, s.a, s.b) is Some,
    ensures
        insert_spec(Seq::empty(), s) == Some(seq![s]),
        insert_spec(seq![s], s) matches Some(r2) && r2.len() == 1 && seg_eq(r2[0], s),
{
    lemma_insert_single_into_empty(s);
    let arr = seq![s];
    lemma_seg_eq_inter_collinear(s, s);
    let m = merge_spec(s, s);
    assert(phase1_rec(arr, 0, s, Seq::empty()) == phase1_rec(arr, 1, m, Seq::empty()));
    assert(phase1_rec(arr, 1, m, Seq::empty()) == Some((m, Seq::<Segment>::empty())));
    lemma_merge_bounds(s, s);
    lemma_merge_nondegenerate(s, s);
    assert(seg_eq(m, s));
    assert(phase2_rec(Seq::empty(), 0, m, Seq::empty(), Seq::empty(), Seq::empty()) == Some(
        (Seq::<Point>::empty(), Seq::<Segment>::empty(), Seq::<Segment>::empty()),
    ));
    let adds = seq![m];
    assert(!contains_seg(Seq::empty(), adds[0]));
    assert(apply_adds_rec(Seq::<Segment>::empty().push(m), adds, 1) == Seq::<Segment>::empty().push(
        m,
    ));
    assert(apply_adds_rec(Seq::empty(), adds, 0) == Seq::<Segment>::empty().push(m));
    assert(Seq::<Segment>::empty().push(m) =~= seq![m]);
    assert(insert_spec(arr, s) == Some(seq![m]));
}

/// Inserting two segments that neither touch, cross, nor share a line
/// stores exactly the two of them.
pub proof fn lemma_insert_two_disjoint(s1: Segment, s2: Segment)
    requires
        seg_wf(s1),
        seg_wf(s2),
        !seg_degenerate(s1),
        !seg_degenerate(s2),
        inter_spec(s2.a, s2.b, s1.a, s1.b) == Some(SegRelation::Disjoint),
    ensures
        insert_spec(Seq::empty(), s1) == Some(seq![s1]),
        insert_spec(seq![s1], s2) == Some(seq![s1, s2]),
{
    lemma_insert_single_into_empty(s1);
    let arr = seq![s1];
    let kept = Seq::<Segment>::empty().push(s1);
    assert(phase1_rec(arr, 0, s2, Seq::empty()) == phase1_rec(arr, 1, s2, kept));
    assert(phase1_rec(arr, 1, s2, kept) == Some((s2, kept)));
    assert(kept =~= seq![s1]);
    let kept2 = Seq::<Segment>::empty().push(s1);
    assert(phase2_rec(kept, 0, s2, Seq::empty(), Seq::empty(), Seq::empty()) == phase2_rec(
        kept,
        1,
        s2,
        Seq::empty(),
        kept2,
        Seq::empty(),
    ));
    assert(phase2_rec(kept, 1, s2, Seq::empty(), kept2, Seq::empty()) == Some(
        (Seq::<Point>::empty(), kept2, Seq::<Segment>::empty()),
    ));
    let adds = seq![s2];
    assert(!seg_eq(s1, s2)) by {
        if seg_eq(s1, s2) {
            lemma_seg_eq_inter_collinear(s2, s1);
        }
    }
    assert(!contains_seg(kept2, s2)) by {
        assert(forall|j: int| 0 <= j < kept2.len() ==> kept2[j] == s1);
    }
    assert(apply_adds_rec(kept2.push(s2), adds, 1) == kept2.push(s2));
    assert(apply_adds_rec(kept2, adds, 0) == kept2.push(s2));
    assert(kept2.push(s2) =~= seq![s1, s2]);
}

/// Two collinear segments merge into one segment spanning the extreme
/// points of their four endpoints, and the order of insertion does not
/// change the merged span: either order stores a single segment with the
/// same endpoint values.
pub proof fn lemma_collinear_merge_order_irrelevant(s1: Segment, s2: Segment)
    requires
        seg_wf(s1),
        seg_wf(s2),
        !seg_degenerate(s1),
        !seg_degenerate(s2),
        inter_spec(s2.a, s2.b, s1.a, s1.b) == Some(SegRelation::CollinearOverlap),
        inter_spec(s1.a, s1.b, s2.a, s2.b) == Some(SegRelation::CollinearOverlap),
    ensures
        insert_spec(Seq::empty(), s1) == Some(seq![s1]),
        insert_spec(seq![s1], s2) == Some(seq![merge_spec(s2, s1)]),
        insert_spec(Seq::empty(), s2) == Some(seq![s2]),
        insert_spec(seq![s2], s1) == Some(seq![merge_spec(s1, s2)]),
        seg_eq(merge_spec(s2, s1), merge_spec(s1, s2)),
{
    lemma_insert_single_into_empty(s1);
    lemma_insert_single_into_empty(s2);
    lemma_one_collinear_absorb(s1, s2);
    lemma_one_collinear_absorb(s2, s1);
    lemma_merge_comm(s2, s1);
}

/// Inserting a segment collinear with the single stored segment absorbs
/// it: the store afterwards holds exactly the merged span.
proof fn lemma_one_collinear_absorb(s1: Segment, s2: Segment)
    requires
        seg_wf(s1),
        seg_wf(s2),
        !seg_degenerate(s2),
        inter_spec(s2.a, s2.b, s1.a, s1.b) == Some(SegRelation::CollinearOverlap),
    ensures
        insert_spec(seq![s1], s2) == Some(seq![merge_spec(s2, s1)]),
{
    let arr = seq![s1];
    let m = merge_spec(s2, s1);
    assert(phase1_rec(arr, 0, s2, Seq::empty()) == phase1_rec(arr, 1, m, Seq::empty()));
    assert(phase1_rec(arr, 1, m, Seq::empty()) == Some((m, Seq::<Segment>::empty())));
    lemma_merge_bounds(s2, s1);
    lemma_merge_nondegenerate(s2, s1);
    assert(phase2_rec(Seq::empty(), 0, m, Seq::empty(), Seq::empty(), Seq::empty()) == Some(
        (Seq::<Point>::empty(), Seq::<Segment>::empty(), Seq::<Segment>::empty()),
    ));
    let adds = seq![m];
    assert(!contains_seg(Seq::empty(), adds[0]));
    assert(apply_adds_rec(Seq::<Segment>::empty().push(m), adds, 1) == Seq::<Segment>::empty().push(
        m,
    ));
    assert(apply_adds_rec(Seq::empty(), adds, 0) == Seq::<Segment>::empty().push(m));
    assert(Seq::<Segment>::empty().push(m) =~= seq![m]);
}

/// Inserting a segment that an existing stored span already fully covers
/// does not change the stored set: the candidate is absorbed into the
/// span and the span is stored again, equal to the original in either
/// endpoint order.
pub proof fn lemma_reinsert_absorbed_segment(t: Segment, s: Segment)
    requires
        seg_wf(t),
        seg_wf(s),
        !seg_degenerate(s),
        inter_spec(s.a, s.b, t.a, t.b) == Some(SegRelation::CollinearOverlap),
        (crate::geom::pt_lex_le(t.a, s.a) && crate::geom::pt_lex_le(t.a, s.b)
            && crate::geom::pt_lex_le(s.a, t.b) && crate::geom::pt_lex_le(s.b, t.b)) || (
        crate::geom::pt_lex_le(t.b, s.a) && crate::geom::pt_lex_le(t.b, s.b)
            && crate::geom::pt_lex_le(s.a, t.a) && crate::geom::pt_lex_le(s.b, t.a)),
    ensures
        insert_spec(seq![t], s) matches Some(r) && r.len() == 1 && seg_eq(r[0], t),
{
    lemma_one_collinear_absorb(t, s);
    crate::geom::lemma_merge_within_span(s, t);
}

} // verus!
