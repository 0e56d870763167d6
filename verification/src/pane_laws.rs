use vstd::prelude::*;

use crate::pane::{
    direction_target, first_index, is_best_candidate, is_candidate, is_first_index, lookup_rect,
    move_distance, next_focus, prev_focus, split_rects, PaneTree, Rect, MAX_RATIO, MIN_RATIO,
};
use crate::types::{Direction, PaneId, SplitDirection};

verus! {

/// All ids in `leaves` are distinct and below `next`.
pub open spec fn ids_fresh_below(leaves: Seq<PaneId>, next: u32) -> bool {
    &&& leaves.no_duplicates()
    &&& forall|i: int| 0 <= i < leaves.len() ==> (#[trigger] leaves[i]).0 < next
}

/// A position at which `x` is first found is the one `first_index` names.
pub proof fn lemma_first_index_is(s: Seq<PaneId>, x: PaneId, i: int)
    requires
        is_first_index(s, x, i),
    ensures
        first_index(s, x) == Some(i),
{
    let k = choose|k: int| is_first_index(s, x, k);
    assert(k == i) by {
        if k < i {
            assert(s[k] != x);
        }
        if i < k {
            assert(s[i] != x);
        }
    }
}

/// An element of a sequence has a first position.
pub proof fn lemma_first_index_exists(s: Seq<PaneId>, x: PaneId)
    requires
        s.contains(x),
    ensures
        first_index(s, x) is Some,
        s[first_index(s, x).unwrap()] == x,
        0 <= first_index(s, x).unwrap() < s.len(),
    decreases s.len(),
{
    if s[0] == x {
        assert(is_first_index(s, x, 0));
        lemma_first_index_is(s, x, 0);
    } else {
        let t = s.drop_first();
        let k = choose|k: int| 0 <= k < s.len() && s[k] == x;
        assert(t[k - 1] == x);
        lemma_first_index_exists(t, x);
        let j = first_index(t, x).unwrap();
        assert(is_first_index(s, x, j + 1)) by {
            assert forall|m: int| 0 <= m < j + 1 implies s[m] != x by {
                if m > 0 {
                    assert(s[m] == t[m - 1]);
                    assert(is_first_index(t, x, j) || !is_first_index(t, x, j));
                    let jj = choose|jj: int| is_first_index(t, x, jj);
                    assert(jj == j);
                }
            }
        }
        lemma_first_index_is(s, x, j + 1);
    }
}

/// In a distinct sequence, the first position of the element at `i` is `i`.
pub proof fn lemma_first_index_distinct(s: Seq<PaneId>, i: int)
    requires
        s.no_duplicates(),
        0 <= i < s.len(),
    ensures
        first_index(s, s[i]) == Some(i),
{
    assert(is_first_index(s, s[i], i));
    lemma_first_index_is(s, s[i], i);
}

/// First positions in a concatenation come from the left part when it holds the element,
/// otherwise from the right part, shifted.
pub proof fn lemma_first_index_concat(a: Seq<PaneId>, b: Seq<PaneId>, x: PaneId)
    requires
        (a + b).contains(x),
    ensures
        a.contains(x) ==> first_index(a + b, x) == first_index(a, x),
        !a.contains(x) ==> b.contains(x) && first_index(a + b, x) == Some(
            a.len() + first_index(b, x).unwrap(),
        ),
{
    vstd::seq_lib::lemma_seq_concat_contains_all_elements(a, b, x);
    if a.contains(x) {
        lemma_first_index_exists(a, x);
        let i = first_index(a, x).unwrap();
        let ii = choose|ii: int| is_first_index(a, x, ii);
        assert(ii == i);
        assert(is_first_index(a + b, x, i)) by {
            assert forall|m: int| 0 <= m < i implies (a + b)[m] != x by {
                assert((a + b)[m] == a[m]);
            }
        }
        lemma_first_index_is(a + b, x, i);
    } else {
        lemma_first_index_exists(b, x);
        let j = first_index(b, x).unwrap();
        let jj = choose|jj: int| is_first_index(b, x, jj);
        assert(jj == j);
        assert(is_first_index(a + b, x, a.len() + j)) by {
            assert forall|m: int| 0 <= m < a.len() + j implies (a + b)[m] != x by {
                if m < a.len() {
                    assert((a + b)[m] == a[m]);
                    if a[m] == x {
                        assert(a.contains(x));
                    }
                } else {
                    assert((a + b)[m] == b[m - a.len()]);
                }
            }
        }
        lemma_first_index_is(a + b, x, a.len() + j);
    }
}

/// Splitting a pane inserts the new pane's id right after it in leaf order; every pane
/// stays, and there is one pane more.
pub proof fn law_split_inserts_after_target(
    t: PaneTree,
    target: PaneId,
    direction: SplitDirection,
    new_id: PaneId,
)
    requires
        t.contains(target),
    ensures
        first_index(t.leaves(), target) is Some,
        t.split_at(target, direction, new_id).leaves() == t.leaves().insert(
            first_index(t.leaves(), target).unwrap() + 1,
            new_id,
        ),
        t.split_at(target, direction, new_id).leaves().len() == t.leaves().len() + 1,
        t.split_at(target, direction, new_id).contains(new_id),
        forall|id: PaneId| t.contains(id) ==> t.split_at(target, direction, new_id).contains(id),
    decreases t,
{
    lemma_first_index_exists(t.leaves(), target);
    let after = t.split_at(target, direction, new_id);
    match t {
        PaneTree::Leaf(p) => {
            assert(t.leaves()[0] == target);
            assert(is_first_index(t.leaves(), target, 0));
            lemma_first_index_is(t.leaves(), target, 0);
            let fresh = PaneTree::Leaf(crate::pane::fresh_pane(new_id));
            assert(fresh.leaves() == seq![new_id]);
            assert(after.leaves() == t.leaves() + fresh.leaves());
            assert(after.leaves() =~= t.leaves().insert(1, new_id));
        },
        PaneTree::Split { first, second, .. } => {
            lemma_first_index_concat(first.leaves(), second.leaves(), target);
            if first.contains(target) {
                law_split_inserts_after_target(*first, target, direction, new_id);
                let i = first_index(first.leaves(), target).unwrap();
                assert(after.leaves() =~= t.leaves().insert(i + 1, new_id));
            } else {
                law_split_inserts_after_target(*second, target, direction, new_id);
                let j = first_index(second.leaves(), target).unwrap();
                assert(after.leaves() =~= t.leaves().insert(first.leaves().len() + j + 1, new_id));
            }
        },
    }
    let i = first_index(t.leaves(), target).unwrap();
    assert(after.leaves()[i + 1] == new_id);
    assert forall|id: PaneId| t.contains(id) implies after.contains(id) by {
        let k = choose|k: int| 0 <= k < t.leaves().len() && t.leaves()[k] == id;
        if k <= i {
            assert(after.leaves()[k] == id);
        } else {
            assert(after.leaves()[k + 1] == id);
        }
    }
}

/// Splitting with the next unused id keeps leaf ids distinct and below the advanced counter.
pub proof fn law_split_keeps_ids_fresh(
    t: PaneTree,
    target: PaneId,
    direction: SplitDirection,
    next: u32,
)
    requires
        ids_fresh_below(t.leaves(), next),
        next < u32::MAX,
    ensures
        ids_fresh_below(t.split_at(target, direction, PaneId(next)).leaves(), (next + 1) as u32),
{
    let after = t.split_at(target, direction, PaneId(next));
    if t.contains(target) {
        law_split_inserts_after_target(t, target, direction, PaneId(next));
        let i = first_index(t.leaves(), target).unwrap();
        let l = t.leaves();
        let m = after.leaves();
        assert forall|a: int, b: int| 0 <= a < m.len() && 0 <= b < m.len() && a != b implies m[a]
            != m[b] by {
            if a == i + 1 || b == i + 1 {
                if a != i + 1 {
                    if a <= i {
                        assert(m[a] == l[a]);
                    } else {
                        assert(m[a] == l[a - 1]);
                    }
                }
                if b != i + 1 {
                    if b <= i {
                        assert(m[b] == l[b]);
                    } else {
                        assert(m[b] == l[b - 1]);
                    }
                }
            } else {
                let a0 = if a <= i {
                    a
                } else {
                    a - 1
                };
                let b0 = if b <= i {
                    b
                } else {
                    b - 1
                };
                assert(m[a] == l[a0]);
                assert(m[b] == l[b0]);
            }
        }
        assert forall|k: int| 0 <= k < m.len() implies (#[trigger] m[k]).0 < next + 1 by {
            if k <= i {
                assert(m[k] == l[k]);
            } else if k > i + 1 {
                assert(m[k] == l[k - 1]);
            }
        }
    } else {
        t.lemma_split_absent(target, direction, PaneId(next));
    }
}

/// Leaf ids of the two parts of a concatenation with distinct elements are distinct.
pub proof fn lemma_no_dup_parts(a: Seq<PaneId>, b: Seq<PaneId>)
    requires
        (a + b).no_duplicates(),
    ensures
        a.no_duplicates(),
        b.no_duplicates(),
        forall|x: PaneId| a.contains(x) ==> !b.contains(x),
{
    assert forall|i: int, j: int| 0 <= i < a.len() && 0 <= j < a.len() && i != j implies a[i]
        != a[j] by {
        assert((a + b)[i] == a[i] && (a + b)[j] == a[j]);
    }
    assert forall|i: int, j: int| 0 <= i < b.len() && 0 <= j < b.len() && i != j implies b[i]
        != b[j] by {
        assert((a + b)[a.len() + i] == b[i] && (a + b)[a.len() + j] == b[j]);
    }
    assert forall|x: PaneId| a.contains(x) implies !b.contains(x) by {
        if b.contains(x) {
            let i = choose|i: int| 0 <= i < a.len() && a[i] == x;
            let j = choose|j: int| 0 <= j < b.len() && b[j] == x;
            assert((a + b)[i] == x && (a + b)[a.len() + j] == x);
        }
    }
}

/// Removing a pane (from a tree with distinct ids) drops exactly its id from the leaf order:
/// one pane fewer, every other pane kept, in order.
pub proof fn law_remove_drops_target(t: PaneTree, target: PaneId)
    requires
        t.can_remove(target),
        t.leaves().no_duplicates(),
    ensures
        first_index(t.leaves(), target) is Some,
        t.remove_leaf(target).leaves() == t.leaves().remove(
            first_index(t.leaves(), target).unwrap(),
        ),
        t.remove_leaf(target).leaves().len() == t.leaves().len() - 1,
        !t.remove_leaf(target).contains(target),
        forall|id: PaneId| t.contains(id) && id != target ==> t.remove_leaf(target).contains(id),
    decreases t,
{
    lemma_first_index_exists(t.leaves(), target);
    let after = t.remove_leaf(target);
    if let PaneTree::Split { first, second, .. } = t {
        let f = first.leaves();
        let s = second.leaves();
        lemma_no_dup_parts(f, s);
        lemma_first_index_concat(f, s, target);
        first.lemma_leaf_contains(target);
        second.lemma_leaf_contains(target);
        if first.is_leaf_with(target) {
            assert(f[0] == target);
            assert(is_first_index(t.leaves(), target, 0));
            lemma_first_index_is(t.leaves(), target, 0);
            assert(after.leaves() =~= t.leaves().remove(0));
        } else if second.is_leaf_with(target) {
            assert(s[0] == target);
            assert(!f.contains(target));
            assert(after.leaves() =~= t.leaves().remove(f.len() as int));
        } else if first.contains(target) {
            law_remove_drops_target(*first, target);
            assert(after.leaves() =~= t.leaves().remove(first_index(f, target).unwrap()));
        } else {
            law_remove_drops_target(*second, target);
            assert(after.leaves() =~= t.leaves().remove(
                f.len() + first_index(s, target).unwrap(),
            ));
        }
    }
    let i = first_index(t.leaves(), target).unwrap();
    let l = t.leaves();
    assert(!after.contains(target)) by {
        if after.contains(target) {
            let k = choose|k: int| 0 <= k < after.leaves().len() && after.leaves()[k] == target;
            if k < i {
                assert(l[k] == target);
            } else {
                assert(l[k + 1] == target);
            }
        }
    }
    assert forall|id: PaneId| t.contains(id) && id != target implies after.contains(id) by {
        let k = choose|k: int| 0 <= k < l.len() && l[k] == id;
        if k < i {
            assert(after.leaves()[k] == id);
        } else {
            assert(k != i);
            assert(after.leaves()[k - 1] == id);
        }
    }
}

/// Closing a pane never empties the layout: with more than one pane, removing one leaves
/// one fewer, so at least one.
pub proof fn law_close_keeps_a_pane(t: PaneTree, target: PaneId)
    requires
        t.leaves().len() > 1,
        t.contains(target),
        t.leaves().no_duplicates(),
    ensures
        t.can_remove(target),
        t.remove_leaf(target).leaves().len() == t.leaves().len() - 1,
        t.remove_leaf(target).leaves().len() >= 1,
{
    if let PaneTree::Leaf(p) = t {
        assert(t.leaves().len() == 1);
    }
    law_remove_drops_target(t, target);
}

/// Moving focus to the previous pane undoes moving it to the next one.
pub proof fn law_focus_prev_undoes_next(leaves: Seq<PaneId>, focused: PaneId)
    requires
        leaves.no_duplicates(),
    ensures
        prev_focus(leaves, next_focus(leaves, focused)) == focused,
{
    let n = leaves.len() as int;
    if n > 1 {
        if leaves.contains(focused) {
            lemma_first_index_exists(leaves, focused);
            let i = first_index(leaves, focused).unwrap();
            let k = (i + 1) % n;
            lemma_first_index_distinct(leaves, k);
            if i + 1 < n {
                assert(k == i + 1) by (nonlinear_arith)
                    requires
                        k == (i + 1) % n,
                        0 <= i + 1 < n,
                ;
            } else {
                assert(k == 0) by (nonlinear_arith)
                    requires
                        k == (i + 1) % n,
                        i + 1 == n,
                        n > 0,
                ;
            }
        } else {
            assert(first_index(leaves, focused) is None) by {
                if first_index(leaves, focused) is Some {
                    let i = choose|i: int| is_first_index(leaves, focused, i);
                    assert(leaves[i] == focused);
                }
            }
        }
    }
}

/// Focus after moving to the next pane `k` times.
pub open spec fn next_focus_times(leaves: Seq<PaneId>, focused: PaneId, k: nat) -> PaneId
    decreases k,
{
    if k == 0 {
        focused
    } else {
        next_focus(leaves, next_focus_times(leaves, focused, (k - 1) as nat))
    }
}

/// Moving to the next pane `k` times from the pane at position `i` lands at position `i + k`,
/// wrapping around.
pub proof fn lemma_next_focus_times(leaves: Seq<PaneId>, i: int, k: nat)
    requires
        leaves.no_duplicates(),
        leaves.len() > 1,
        0 <= i < leaves.len(),
    ensures
        next_focus_times(leaves, leaves[i], k) == leaves[(i + k) % (leaves.len() as int)],
    decreases k,
{
    let n = leaves.len() as int;
    if k == 0 {
        assert(i % n == i) by (nonlinear_arith)
            requires
                0 <= i < n,
        ;
    } else {
        lemma_next_focus_times(leaves, i, (k - 1) as nat);
        let j = (i + k - 1) % n;
        assert(0 <= j < n) by (nonlinear_arith)
            requires
                n > 1,
                j == (i + k - 1) % n,
        ;
        lemma_first_index_distinct(leaves, j);
        vstd::arithmetic::div_mod::lemma_add_mod_noop(i + k - 1, 1, n);
        assert(1int % n == 1) by (nonlinear_arith)
            requires
                n > 1,
        ;
    }
}

/// Moving to the next pane as many times as there are panes comes back to the start.
pub proof fn law_focus_next_cycles(leaves: Seq<PaneId>, focused: PaneId)
    requires
        leaves.no_duplicates(),
    ensures
        next_focus_times(leaves, focused, leaves.len()) == focused,
{
    let n = leaves.len() as int;
    if n > 1 && leaves.contains(focused) {
        lemma_first_index_exists(leaves, focused);
        let i = first_index(leaves, focused).unwrap();
        lemma_next_focus_times(leaves, i, leaves.len());
        assert((i + n) % n == i) by (nonlinear_arith)
            requires
                0 <= i < n,
        ;
    } else {
        lemma_next_focus_fixed(leaves, focused, leaves.len());
    }
}

/// When focus has nowhere to go, moving to the next pane any number of times keeps it.
pub proof fn lemma_next_focus_fixed(leaves: Seq<PaneId>, focused: PaneId, k: nat)
    requires
        leaves.len() <= 1 || !leaves.contains(focused),
    ensures
        next_focus_times(leaves, focused, k) == focused,
    decreases k,
{
    if k > 0 {
        lemma_next_focus_fixed(leaves, focused, (k - 1) as nat);
        if leaves.len() > 1 {
            assert(first_index(leaves, focused) is None) by {
                if first_index(leaves, focused) is Some {
                    let i = choose|i: int| is_first_index(leaves, focused, i);
                    assert(leaves[i] == focused);
                }
            }
        }
    }
}

/// Resizing and splitting keep every split ratio within the resize range.
pub proof fn law_ratios_stay_in_range(
    t: PaneTree,
    target: PaneId,
    delta: int,
    direction: SplitDirection,
    new_id: PaneId,
)
    requires
        t.ratios_in_range(),
    ensures
        t.resize_at(target, delta).ratios_in_range(),
        t.split_at(target, direction, new_id).ratios_in_range(),
    decreases t,
{
    if let PaneTree::Leaf(p) = t {
        let fresh = PaneTree::Leaf(crate::pane::fresh_pane(new_id));
        assert(fresh.ratios_in_range());
    }
    if let PaneTree::Split { first, second, .. } = t {
        law_ratios_stay_in_range(*first, target, delta, direction, new_id);
        law_ratios_stay_in_range(*second, target, delta, direction, new_id);
    }
}

/// Splitting an area conserves it: the parts are adjacent, share the other dimension, and
/// their sizes along the split add up to the whole.
pub proof fn law_split_area_partitions(area: Rect, direction: SplitDirection, ratio: u32)
    requires
        area.fits(),
    ensures
        ({
            let (a, b) = split_rects(area, direction, ratio);
            &&& a.x == area.x
            &&& a.y == area.y
            &&& a.within(area)
            &&& b.within(area)
            &&& match direction {
                SplitDirection::Vertical => {
                    &&& a.width + b.width == area.width
                    &&& a.height == area.height
                    &&& b.height == area.height
                    &&& b.x == a.x + a.width
                    &&& b.y == area.y
                },
                SplitDirection::Horizontal => {
                    &&& a.height + b.height == area.height
                    &&& a.width == area.width
                    &&& b.width == area.width
                    &&& b.x == area.x
                    &&& b.y == a.y + a.height
                },
            }
        }),
{
}

/// Laying out a tree in an area gives each leaf, in leaf order, one rectangle within the area.
pub proof fn law_positions_cover_leaves(t: PaneTree, area: Rect)
    requires
        area.fits(),
    ensures
        t.positions(area).len() == t.leaves().len(),
        forall|i: int|
            0 <= i < t.leaves().len() ==> (#[trigger] t.positions(area)[i]).0 == t.leaves()[i]
                && t.positions(area)[i].1.within(area),
    decreases t,
{
    if let PaneTree::Split { direction, ratio, first, second } = t {
        let (a, b) = split_rects(area, direction, ratio);
        law_split_area_partitions(area, direction, ratio);
        law_positions_cover_leaves(*first, a);
        law_positions_cover_leaves(*second, b);
        let pa = first.positions(a);
        let pb = second.positions(b);
        assert forall|i: int| 0 <= i < t.leaves().len() implies (#[trigger] t.positions(
            area,
        )[i]).0 == t.leaves()[i] && t.positions(area)[i].1.within(area) by {
            if i < pa.len() {
                assert(t.positions(area)[i] == pa[i]);
            } else {
                assert(t.positions(area)[i] == pb[i - pa.len()]);
            }
        }
    }
}

/// Saving and restoring a layout gives back the same tree, with each pane reset to a fresh
/// one that keeps its id and channel; leaf order and areas are unchanged, and a focused pane
/// that is in the tree stays focused.
pub proof fn law_session_roundtrip(t: PaneTree, focused: PaneId, area: Rect)
    ensures
        t.to_session().restore() == t.persisted(),
        t.persisted().leaves() == t.leaves(),
        t.persisted().positions(area) == t.positions(area),
    decreases t,
{
    if let PaneTree::Split { direction, ratio, first, second } = t {
        let (a, b) = split_rects(area, direction, ratio);
        law_session_roundtrip(*first, focused, a);
        law_session_roundtrip(*second, focused, b);
    }
}

/// Among the first `n` entries, entry `i` is a candidate that no candidate is nearer than, and
/// every earlier candidate is strictly farther.
pub open spec fn best_among(
    ps: Seq<(PaneId, Rect)>,
    focused: PaneId,
    cur: Rect,
    dir: Direction,
    n: int,
    i: int,
) -> bool {
    &&& 0 <= i < n
    &&& is_candidate(ps, focused, cur, dir, i)
    &&& forall|j: int|
        0 <= j < n && is_candidate(ps, focused, cur, dir, j) ==> move_distance(dir, cur, ps[i].1)
            <= move_distance(dir, cur, ps[j].1)
    &&& forall|j: int|
        0 <= j < i && is_candidate(ps, focused, cur, dir, j) ==> move_distance(dir, cur, ps[j].1)
            > move_distance(dir, cur, ps[i].1)
}

proof fn lemma_best_among_exists(
    ps: Seq<(PaneId, Rect)>,
    focused: PaneId,
    cur: Rect,
    dir: Direction,
    n: int,
)
    requires
        0 <= n <= ps.len(),
        exists|k: int| 0 <= k < n && is_candidate(ps, focused, cur, dir, k),
    ensures
        exists|i: int| best_among(ps, focused, cur, dir, n, i),
    decreases n,
{
    let m = n - 1;
    if exists|k: int| 0 <= k < m && is_candidate(ps, focused, cur, dir, k) {
        lemma_best_among_exists(ps, focused, cur, dir, m);
        let i0 = choose|i: int| best_among(ps, focused, cur, dir, m, i);
        if is_candidate(ps, focused, cur, dir, m) && move_distance(dir, cur, ps[m].1)
            < move_distance(dir, cur, ps[i0].1) {
            assert(best_among(ps, focused, cur, dir, n, m));
        } else {
            assert(best_among(ps, focused, cur, dir, n, i0));
        }
    } else {
        assert(is_candidate(ps, focused, cur, dir, m));
        assert(best_among(ps, focused, cur, dir, n, m));
    }
}

/// A directional move lands exactly when the focused pane has an area and some other pane
/// lies in that direction, judged by centers; the pane it lands on is such a pane, and no
/// such pane is nearer (distance along the move plus half the distance across it).
pub proof fn law_direction_target_is_nearest(ps: Seq<(PaneId, Rect)>, focused: PaneId, dir: Direction)
    ensures
        lookup_rect(ps, focused) is None ==> direction_target(ps, focused, dir) is None,
        lookup_rect(ps, focused) matches Some(cur) ==> {
            &&& direction_target(ps, focused, dir) is Some <==> exists|k: int|
                is_candidate(ps, focused, cur, dir, k)
            &&& direction_target(ps, focused, dir) matches Some(t) ==> exists|i: int|
                #![trigger ps[i]]
                is_candidate(ps, focused, cur, dir, i) && ps[i].0 == t && t != focused && (forall|
                    j: int,
                | is_candidate(ps, focused, cur, dir, j) ==> move_distance(dir, cur, ps[i].1)
                    <= move_distance(dir, cur, ps[j].1))
        },
{
    if let Some(cur) = lookup_rect(ps, focused) {
        if exists|k: int| is_candidate(ps, focused, cur, dir, k) {
            lemma_best_among_exists(ps, focused, cur, dir, ps.len() as int);
            let i = choose|i: int| best_among(ps, focused, cur, dir, ps.len() as int, i);
            assert(is_best_candidate(ps, focused, cur, dir, i));
        }
        if direction_target(ps, focused, dir) is Some {
            let i = choose|i: int| is_best_candidate(ps, focused, cur, dir, i);
            assert(is_best_candidate(ps, focused, cur, dir, i));
            assert(is_candidate(ps, focused, cur, dir, i));
        }
    }
}

} // verus!
