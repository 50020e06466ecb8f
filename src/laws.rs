use vstd::prelude::*;

use crate::layout::{
    alloc_sum, cell_share, edge_pass, edge_rect, fill_rect, first_fill, ins_pos,
    insert_by_order, layout_of, lemma_alloc_sum_bound, map_of, normalized, placements, prop_cell,
    prop_cells, prop_rules, shrink_avail, sort_by_order, total_weight, weight_of,
};
use crate::dispatch::{command_action_spec, last_index_of, CommandAction, EN_VSCROLL};
use crate::layout_tree::{
    children_of, descend, has_children, level_entries, local_rect, tree_layout, Placement,
};
use crate::registry::RegistryModel;
use crate::types::{ControlId, ControlKind, LayoutRule, NativeHandle, Rect, WindowId};

verus! {

/// Sorting two rules puts the one with the smaller `order` first, and keeps
/// the input order on a tie.
proof fn lemma_sort_two(a: LayoutRule, b: LayoutRule)
    ensures
        sort_by_order(seq![a, b]) == (if a.order <= b.order {
            seq![a, b]
        } else {
            seq![b, a]
        }),
{
    let s = seq![a, b];
    assert(s.drop_last() =~= seq![a]);
    assert(seq![a].drop_last() =~= Seq::<LayoutRule>::empty());
    assert(sort_by_order(Seq::<LayoutRule>::empty()) == Seq::<LayoutRule>::empty());
    assert(insert_by_order(Seq::<LayoutRule>::empty(), a) =~= seq![a]);
    assert(sort_by_order(seq![a]) == seq![a]);
    if a.order <= b.order {
        assert(ins_pos(seq![a], b) == 1);
        assert(insert_by_order(seq![a], b) =~= seq![a, b]);
    } else {
        assert(seq![a].last() == a);
        assert(ins_pos(Seq::<LayoutRule>::empty(), b) == 0);
        assert(ins_pos(seq![a], b) == 0);
        assert(insert_by_order(seq![a], b) =~= seq![b, a]);
    }
}

/// A top strip of size `S` and a fill under the same parent: the strip is `S`
/// high and starts at the parent's top; the fill starts `S` below the parent's
/// top and reaches the parent's bottom. This holds whichever way the two rules
/// are listed and whatever their `order` values.
pub proof fn lemma_top_and_fill(parent: Rect, top: LayoutRule, fill: LayoutRule, size: i32)
    requires
        top.dock_style is Top,
        fill.dock_style is Fill,
        top.fixed_size == Some(size),
        top.parent_control_id == fill.parent_control_id,
        top.control_id != fill.control_id,
        top.margin == (0i32, 0i32, 0i32, 0i32),
        fill.margin == (0i32, 0i32, 0i32, 0i32),
        0 <= size <= parent.bottom - parent.top,
    ensures
        ({
            let m = layout_of(parent, seq![top, fill]);
            &&& m.contains_key(top.control_id) && m.contains_key(fill.control_id)
            &&& m[top.control_id].top == parent.top
            &&& m[top.control_id].bottom - m[top.control_id].top == size
            &&& m[fill.control_id].top == parent.top + size
            &&& m[fill.control_id].bottom == parent.bottom
        }),
        layout_of(parent, seq![top, fill]) == layout_of(parent, seq![fill, top]),
{
    lemma_sort_two(top, fill);
    lemma_sort_two(fill, top);
    let a0 = normalized(parent);
    let strip = edge_rect(a0, top);
    let a1 = shrink_avail(a0, top);
    let expect = seq![(top.control_id, strip), (fill.control_id, fill_rect(a1, fill))];
    lemma_top_fill_placements(parent, top, fill, seq![top, fill]);
    lemma_top_fill_placements(parent, top, fill, seq![fill, top]);
    assert(placements(parent, seq![top, fill]) == expect);
    assert(placements(parent, seq![fill, top]) == expect);
    assert(expect.drop_last() =~= seq![(top.control_id, strip)]);
    assert(seq![(top.control_id, strip)].drop_last() =~= Seq::<(ControlId, Rect)>::empty());
    let m = map_of(expect);
    let one = seq![(top.control_id, strip)];
    assert(map_of(Seq::<(ControlId, Rect)>::empty()) == Map::<ControlId, Rect>::empty());
    assert(one.last() == (top.control_id, strip));
    assert(map_of(one) == Map::<ControlId, Rect>::empty().insert(top.control_id, strip));
    assert(expect.last() == (fill.control_id, fill_rect(a1, fill)));
    assert(m == Map::<ControlId, Rect>::empty().insert(top.control_id, strip).insert(
        fill.control_id,
        fill_rect(a1, fill),
    ));
    assert(m[top.control_id] == strip);
    assert(strip.top == parent.top);
    assert(strip.bottom == parent.top + size);
    assert(a1.top == parent.top + size);
    assert(a1.bottom == parent.bottom);
}

proof fn lemma_top_fill_placements(
    parent: Rect,
    top: LayoutRule,
    fill: LayoutRule,
    sorted: Seq<LayoutRule>,
)
    requires
        top.dock_style is Top,
        fill.dock_style is Fill,
        sorted == seq![top, fill] || sorted == seq![fill, top],
    ensures
        ({
            let a0 = normalized(parent);
            let (a, edges) = edge_pass(a0, sorted);
            &&& a == shrink_avail(a0, top)
            &&& edges == seq![(top.control_id, edge_rect(a0, top))]
            &&& prop_rules(sorted) == Seq::<LayoutRule>::empty()
            &&& first_fill(sorted) == Some(fill)
        }),
{
    let a0 = normalized(parent);
    let e = Seq::<LayoutRule>::empty();
    assert(seq![top, fill].drop_last() =~= seq![top]);
    assert(seq![fill, top].drop_last() =~= seq![fill]);
    assert(seq![top].drop_last() =~= e);
    assert(seq![fill].drop_last() =~= e);
    assert(edge_pass(a0, e) == (a0, Seq::<(ControlId, Rect)>::empty()));
    assert(edge_pass(a0, seq![top]).1 =~= seq![(top.control_id, edge_rect(a0, top))]);
    assert(edge_pass(a0, seq![fill]) == (a0, Seq::<(ControlId, Rect)>::empty()));
    assert(prop_rules(e) == e);
    assert(prop_rules(seq![top]) == e);
    assert(prop_rules(seq![fill]) == e);
    assert(first_fill(e) is None);
    assert(first_fill(seq![top]) is None);
    assert(first_fill(seq![fill]) == Some(fill));
    if sorted == seq![fill, top] {
        assert(edge_pass(a0, sorted).1 =~= seq![(top.control_id, edge_rect(a0, top))]);
    }
}

/// Creating a control twice under one id: the first create registers its
/// handle; the second is refused at its read phase as already existing, and a
/// commit of it would leave the registry exactly as the first create left it
/// and hand back its handle to be destroyed.
pub proof fn lemma_create_twice(
    s: RegistryModel,
    id: ControlId,
    parent: Option<ControlId>,
    first: NativeHandle,
    second: NativeHandle,
    kind: ControlKind,
)
    requires
        s.precheck(id, parent) is Ready,
    ensures
        ({
            let (s1, d1) = s.commit(id, first, kind);
            &&& d1 is None
            &&& s1.handles.contains_key(id) && s1.handles[id] == first
            &&& s1.precheck(id, parent) is AlreadyExists
            &&& s1.reserve_kind(id, kind) is None
            &&& s1.commit(id, second, kind) == (s1, Some(second))
        }),
{
}

/// Two creators that both passed the read phase on the same state and then
/// commit one after the other: the first to commit registers its handle, the
/// second leaves the registry as it is and gets its own handle back to destroy.
pub proof fn lemma_racing_creators(
    s: RegistryModel,
    id: ControlId,
    parent: Option<ControlId>,
    winner: NativeHandle,
    loser: NativeHandle,
    winner_kind: ControlKind,
    loser_kind: ControlKind,
)
    requires
        s.precheck(id, parent) is Ready,
    ensures
        ({
            let (s1, d1) = s.commit(id, winner, winner_kind);
            let (s2, d2) = s1.commit(id, loser, loser_kind);
            &&& d1 is None
            &&& d2 == Some(loser)
            &&& s2 == s1
            &&& s2.handles[id] == winner
            &&& s2.handles.dom() == s.handles.dom().insert(id)
        }),
{
    let (s1, d1) = s.commit(id, winner, winner_kind);
    assert(s1.handles.dom() =~= s.handles.dom().insert(id));
}

/// While a guard for `(w, c)` is held (on top of any others), a scroll
/// notification from `(w, c)` is dropped, and the same notification from a
/// pair that holds no guard is turned into a scroll query and event. Releasing
/// the guard restores the earlier set of guards exactly.
pub proof fn lemma_scroll_suppression(
    held: Seq<(WindowId, ControlId)>,
    m: RegistryModel,
    w: WindowId,
    c: ControlId,
    other_w: WindowId,
    other_c: ControlId,
)
    requires
        !held.contains((other_w, other_c)),
        (other_w, other_c) != (w, c),
    ensures
        ({
            let guarded = held.push((w, c));
            &&& guarded.contains((w, c))
            &&& command_action_spec(m, w, c, EN_VSCROLL, guarded.contains((w, c)))
                == CommandAction::Nothing
            &&& !guarded.contains((other_w, other_c))
            &&& command_action_spec(m, other_w, other_c, EN_VSCROLL, guarded.contains((other_w, other_c)))
                == CommandAction::QueryScroll(other_c)
            &&& last_index_of(guarded, (w, c)) == held.len()
            &&& guarded.remove(held.len() as int) == held
        }),
{
    let guarded = held.push((w, c));
    assert(guarded[held.len() as int] == (w, c));
    assert(guarded.drop_last() =~= held);
    assert(guarded.remove(held.len() as int) =~= held);
    if guarded.contains((other_w, other_c)) {
        let i = choose|i: int| 0 <= i < guarded.len() && guarded[i] == (other_w, other_c);
        if i < held.len() {
            assert(held[i] == (other_w, other_c));
        }
    }
}

proof fn lemma_single_fill_layout(client: Rect, outer: LayoutRule)
    requires
        outer.dock_style is Fill,
        outer.margin == (0i32, 0i32, 0i32, 0i32),
        client.left <= client.right,
        client.top <= client.bottom,
    ensures
        layout_of(client, seq![outer]) == Map::<ControlId, Rect>::empty().insert(outer.control_id, client),
        sort_by_order(seq![outer]) == seq![outer],
{
    let e = Seq::<LayoutRule>::empty();
    let s = seq![outer];
    assert(s.drop_last() =~= e);
    assert(insert_by_order(e, outer) =~= s);
    assert(sort_by_order(e) == e);
    assert(s.last() == outer);
    assert(sort_by_order(s) == s);
    let a0 = normalized(client);
    assert(a0 == client);
    assert(edge_pass(a0, e) == (a0, Seq::<(ControlId, Rect)>::empty()));
    assert(edge_pass(a0, s) == (a0, Seq::<(ControlId, Rect)>::empty()));
    assert(prop_rules(e) == e);
    assert(prop_rules(s) == e);
    assert(first_fill(e) is None);
    assert(first_fill(s) == Some(outer));
    assert(fill_rect(a0, outer) == client);
    let ps = seq![(outer.control_id, client)];
    assert(placements(client, s) =~= ps);
    assert(ps.drop_last() =~= Seq::<(ControlId, Rect)>::empty());
    assert(map_of(Seq::<(ControlId, Rect)>::empty()) == Map::<ControlId, Rect>::empty());
    assert(ps.last() == (outer.control_id, client));
    assert(map_of(ps) == Map::<ControlId, Rect>::empty().insert(outer.control_id, client));
}

/// A `Fill` child of the window whose own children are a `Top` strip of 10 and
/// a `Fill`: in a client area 50 high, wherever it lies, the inner strip spans
/// 0..10 and the inner fill 10..50 of the child's own client area.
pub proof fn lemma_nested_top_and_fill(client: Rect, outer: LayoutRule, top: LayoutRule, fill: LayoutRule)
    requires
        outer.dock_style is Fill,
        outer.parent_control_id is None,
        outer.margin == (0i32, 0i32, 0i32, 0i32),
        top.dock_style is Top,
        top.fixed_size == Some(10i32),
        top.parent_control_id == Some(outer.control_id),
        top.margin == (0i32, 0i32, 0i32, 0i32),
        fill.dock_style is Fill,
        fill.parent_control_id == Some(outer.control_id),
        fill.margin == (0i32, 0i32, 0i32, 0i32),
        outer.control_id != top.control_id,
        outer.control_id != fill.control_id,
        top.control_id != fill.control_id,
        client.left <= client.right,
        client.bottom - client.top == 50,
    ensures
        ({
            let plan = tree_layout(seq![outer, top, fill], None, client, 3);
            &&& plan.len() == 3
            &&& plan[0] == (Placement { parent: None, control_id: outer.control_id, rect: client })
            &&& exists|i: int|
                1 <= i < 3 && #[trigger] plan[i].control_id == top.control_id && plan[i].parent
                    == Some(outer.control_id) && plan[i].rect.top == 0 && plan[i].rect.bottom == 10
            &&& exists|i: int|
                1 <= i < 3 && #[trigger] plan[i].control_id == fill.control_id && plan[i].parent
                    == Some(outer.control_id) && plan[i].rect.top == 10 && plan[i].rect.bottom
                    == 50
        }),
{
    let rules = seq![outer, top, fill];
    let e = Seq::<LayoutRule>::empty();
    let a = outer.control_id;
    assert(rules.drop_last() =~= seq![outer, top]);
    assert(seq![outer, top].drop_last() =~= seq![outer]);
    assert(seq![outer].drop_last() =~= e);
    assert(children_of(e, None) == e);
    assert(children_of(seq![outer], None) =~= seq![outer]);
    assert(children_of(seq![outer, top], None) =~= seq![outer]);
    assert(children_of(rules, None) =~= seq![outer]);
    assert(children_of(e, Some(a)) == e);
    assert(children_of(seq![outer], Some(a)) =~= e);
    assert(children_of(seq![outer, top], Some(a)) =~= seq![top]);
    assert(children_of(rules, Some(a)) =~= seq![top, fill]);

    lemma_single_fill_layout(client, outer);
    let m1 = layout_of(client, seq![outer]);
    assert(m1.contains_key(a) && m1[a] == client);
    assert(level_entries(None, seq![outer], m1) =~= seq![
        Placement { parent: None, control_id: a, rect: client },
    ]) by {
        assert(level_entries(None, e, m1) == Seq::<Placement>::empty());
    }
    assert(has_children(rules, a)) by {
        assert(rules[1].parent_control_id == Some(a));
    }
    let inner = local_rect(client);
    assert(inner.top == 0 && inner.bottom == 50);
    let sub = tree_layout(rules, Some(a), inner, 2);
    assert(descend(rules, seq![outer], m1, 2) == sub) by {
        assert(descend(rules, e, m1, 2) == Seq::<Placement>::empty());
        assert(Seq::<Placement>::empty() + sub =~= sub);
    }
    assert(tree_layout(rules, None, client, 3) == seq![
        Placement { parent: None, control_id: a, rect: client },
    ] + sub);

    lemma_top_and_fill(inner, top, fill, 10);
    lemma_sort_two(top, fill);
    let kids = seq![top, fill];
    let sorted = sort_by_order(kids);
    let m2 = layout_of(inner, kids);
    assert(!has_children(rules, top.control_id)) by {
        assert forall|i: int| 0 <= i < rules.len() implies #[trigger] rules[i].parent_control_id != Some(top.control_id) by {
            if i == 0 {
            } else if i == 1 {
            } else {
            }
        }
    }
    assert(!has_children(rules, fill.control_id)) by {
        assert forall|i: int| 0 <= i < rules.len() implies #[trigger] rules[i].parent_control_id != Some(fill.control_id) by {
            if i == 0 {
            } else if i == 1 {
            } else {
            }
        }
    }
    let p_top = Placement { parent: Some(a), control_id: top.control_id, rect: m2[top.control_id] };
    let p_fill = Placement { parent: Some(a), control_id: fill.control_id, rect: m2[fill.control_id] };
    let s0 = sorted[0];
    let s1 = sorted[1];
    assert(sorted.len() == 2);
    assert(sorted.last() == s1);
    assert(seq![s0].last() == s0);
    assert(s0.control_id == top.control_id || s0.control_id == fill.control_id);
    assert(s1.control_id == top.control_id || s1.control_id == fill.control_id);
    assert(m2.contains_key(s0.control_id) && m2.contains_key(s1.control_id));
    assert(!has_children(rules, s0.control_id) && !has_children(rules, s1.control_id));
    assert(sorted.drop_last() =~= seq![s0]);
    assert(seq![s0].drop_last() =~= e);
    assert(level_entries(Some(a), e, m2) == Seq::<Placement>::empty());
    assert(descend(rules, e, m2, 1) == Seq::<Placement>::empty());
    assert(descend(rules, seq![s0], m2, 1) == Seq::<Placement>::empty());
    assert(descend(rules, sorted, m2, 1) == Seq::<Placement>::empty());
    let lv = level_entries(Some(a), sorted, m2);
    assert(level_entries(Some(a), seq![s0], m2) =~= seq![
        Placement { parent: Some(a), control_id: s0.control_id, rect: m2[s0.control_id] },
    ]);
    assert(lv =~= seq![
        Placement { parent: Some(a), control_id: s0.control_id, rect: m2[s0.control_id] },
        Placement { parent: Some(a), control_id: s1.control_id, rect: m2[s1.control_id] },
    ]);
    assert(sub =~= lv);
    let plan = tree_layout(rules, None, client, 3);
    assert(m2[top.control_id].top == 0 && m2[top.control_id].bottom == 10);
    assert(m2[fill.control_id].top == 10 && m2[fill.control_id].bottom == 50);
    assert(plan.len() == 3);
    assert(plan[0] == (Placement { parent: None, control_id: a, rect: client }));
    if top.order <= fill.order {
        assert(plan[1] == p_top);
        assert(plan[2] == p_fill);
        assert(plan[1].control_id == top.control_id);
        assert(plan[2].control_id == fill.control_id);
    } else {
        assert(plan[1] == p_fill);
        assert(plan[2] == p_top);
        assert(plan[2].control_id == top.control_id);
        assert(plan[1].control_id == fill.control_id);
    }
}

// ---------------------------------------------------------------------------
// Proportional split
// ---------------------------------------------------------------------------

pub open spec fn proportional_only(rules: Seq<LayoutRule>) -> bool {
    forall|i: int|
        0 <= i < rules.len() ==> (#[trigger] rules[i]).dock_style is ProportionalFill
            && rules[i].margin == (0i32, 0i32, 0i32, 0i32)
}

/// Sum of the widths of the recorded rectangles.
pub open spec fn sum_widths(ps: Seq<(ControlId, Rect)>) -> int
    decreases ps.len(),
{
    if ps.len() == 0 {
        0
    } else {
        sum_widths(ps.drop_last()) + (ps.last().1.right - ps.last().1.left)
    }
}

proof fn lemma_ins_pos_range(q: Seq<LayoutRule>, x: LayoutRule)
    ensures
        0 <= ins_pos(q, x) <= q.len(),
    decreases q.len(),
{
    if q.len() > 0 {
        lemma_ins_pos_range(q.drop_last(), x);
    }
}

proof fn lemma_total_weight_concat(a: Seq<LayoutRule>, b: Seq<LayoutRule>)
    ensures
        total_weight(a + b) == total_weight(a) + total_weight(b),
    decreases b.len(),
{
    if b.len() > 0 {
        lemma_total_weight_concat(a, b.drop_last());
        assert((a + b).drop_last() =~= a + b.drop_last());
    } else {
        assert(a + b =~= a);
    }
}

/// Sorting keeps the rules (as a collection), their number and their total weight.
proof fn lemma_sort_keeps(s: Seq<LayoutRule>)
    ensures
        sort_by_order(s).len() == s.len(),
        forall|x: LayoutRule| sort_by_order(s).contains(x) <==> s.contains(x),
        total_weight(sort_by_order(s)) == total_weight(s),
    decreases s.len(),
{
    if s.len() > 0 {
        let prev = s.drop_last();
        let x = s.last();
        lemma_sort_keeps(prev);
        let q = sort_by_order(prev);
        let p = ins_pos(q, x);
        lemma_ins_pos_range(q, x);
        let r = insert_by_order(q, x);
        assert(r == q.take(p) + seq![x] + q.skip(p));
        assert(q =~= q.take(p) + q.skip(p));
        lemma_total_weight_concat(q.take(p), q.skip(p));
        lemma_total_weight_concat(q.take(p), seq![x]);
        lemma_total_weight_concat(q.take(p) + seq![x], q.skip(p));
        assert(seq![x].drop_last() =~= Seq::<LayoutRule>::empty());
        assert(total_weight(Seq::<LayoutRule>::empty()) == 0);
        assert(seq![x].last() == x);
        assert(total_weight(seq![x]) == weight_of(x));
        assert forall|y: LayoutRule| r.contains(y) <==> s.contains(y) by {
            if r.contains(y) {
                let i = choose|i: int| 0 <= i < r.len() && r[i] == y;
                if i < p {
                    assert(q[i] == y);
                    assert(prev.contains(y));
                    let j = choose|j: int| 0 <= j < prev.len() && prev[j] == y;
                    assert(s[j] == y);
                } else if i == p {
                    assert(s[s.len() - 1] == y);
                } else {
                    assert(q[i - 1] == y);
                    assert(prev.contains(y));
                    let j = choose|j: int| 0 <= j < prev.len() && prev[j] == y;
                    assert(s[j] == y);
                }
            }
            if s.contains(y) {
                let j = choose|j: int| 0 <= j < s.len() && s[j] == y;
                if j == s.len() - 1 {
                    assert(r[p] == y);
                } else {
                    assert(prev[j] == y);
                    assert(prev.contains(y));
                    assert(q.contains(y));
                    let i = choose|i: int| 0 <= i < q.len() && q[i] == y;
                    if i < p {
                        assert(r[i] == y);
                    } else {
                        assert(r[i + 1] == y);
                    }
                }
            }
        }
        assert(total_weight(s) == total_weight(prev) + weight_of(x));
    }
}

proof fn lemma_proportional_passes(a: Rect, s: Seq<LayoutRule>)
    requires
        proportional_only(s),
    ensures
        edge_pass(a, s) == (a, Seq::<(ControlId, Rect)>::empty()),
        prop_rules(s) == s,
        first_fill(s) is None,
    decreases s.len(),
{
    if s.len() > 0 {
        let prev = s.drop_last();
        assert(proportional_only(prev)) by {
            assert forall|i: int| 0 <= i < prev.len() implies (#[trigger] prev[i]).dock_style is ProportionalFill
                && prev[i].margin == (0i32, 0i32, 0i32, 0i32) by {
                assert(prev[i] == s[i]);
            }
        }
        lemma_proportional_passes(a, prev);
        assert(s[s.len() - 1] == s.last());
        assert(prev.push(s.last()) =~= s);
    }
}

proof fn lemma_prop_cells_shape(a: Rect, total: int, ps: Seq<LayoutRule>)
    requires
        proportional_only(ps),
        well_formed_area(a),
        total > 0,
        total_weight(ps) <= total,
    ensures
        prop_cells(a, total, ps).len() == ps.len(),
        forall|k: int|
            0 <= k < ps.len() ==> (#[trigger] prop_cells(a, total, ps)[k]).0 == ps[k].control_id
                && prop_cells(a, total, ps)[k].1.right - prop_cells(a, total, ps)[k].1.left
                == cell_share(a.right - a.left, weight_of(ps[k]), total),
        sum_widths(prop_cells(a, total, ps)) == alloc_sum(a.right - a.left, total, ps),
    decreases ps.len(),
{
    if ps.len() > 0 {
        let prev = ps.drop_last();
        let x = ps.last();
        let width = a.right - a.left;
        assert(proportional_only(prev)) by {
            assert forall|i: int| 0 <= i < prev.len() implies (#[trigger] prev[i]).dock_style is ProportionalFill
                && prev[i].margin == (0i32, 0i32, 0i32, 0i32) by {
                assert(prev[i] == ps[i]);
            }
        }
        lemma_weights_nonneg(prev);
        assert(weight_of(x) >= 0);
        lemma_prop_cells_shape(a, total, prev);
        let cells = prop_cells(a, total, ps);
        let offset = alloc_sum(width, total, prev);
        lemma_alloc_sum_bound(width, total, ps);
        lemma_alloc_sum_bound(width, total, prev);
        assert(alloc_sum(width, total, ps) <= width) by (nonlinear_arith)
            requires
                alloc_sum(width, total, ps) * total <= width * total_weight(ps),
                total_weight(ps) <= total,
                width >= 0,
                total > 0;
        let share = cell_share(width, weight_of(x), total);
        assert(share >= 0) by {
            assert(width * weight_of(x) >= 0) by (nonlinear_arith)
                requires width >= 0, weight_of(x) >= 0;
        }
        assert(ps[ps.len() - 1] == x);
        assert(x.margin == (0i32, 0i32, 0i32, 0i32));
        let cell = prop_cell(a, total, offset, x);
        assert(0 <= offset && offset + share <= width);
        assert(cell.right - cell.left == share);
        assert(cells.last() == (x.control_id, cell));
        assert(cells.drop_last() == prop_cells(a, total, prev));
        assert forall|k: int| 0 <= k < ps.len() implies (#[trigger] cells[k]).0 == ps[k].control_id
            && cells[k].1.right - cells[k].1.left == cell_share(width, weight_of(ps[k]), total) by {
            if k < prev.len() {
                assert(cells[k] == prop_cells(a, total, prev)[k]);
                assert(ps[k] == prev[k]);
            }
        }
    }
}

pub open spec fn well_formed_area(a: Rect) -> bool {
    a.left <= a.right && a.top <= a.bottom
}

proof fn lemma_weights_nonneg(ps: Seq<LayoutRule>)
    ensures
        total_weight(ps) >= 0,
        forall|i: int| 0 <= i < ps.len() ==> weight_of(#[trigger] ps[i]) >= 0,
    decreases ps.len(),
{
    if ps.len() > 0 {
        lemma_weights_nonneg(ps.drop_last());
        assert forall|i: int| 0 <= i < ps.len() implies weight_of(#[trigger] ps[i]) >= 0 by {
            if i < ps.len() - 1 {
                assert(ps[i] == ps.drop_last()[i]);
            }
        }
    }
}

proof fn lemma_alloc_sum_lower(width: int, total: int, ps: Seq<LayoutRule>)
    requires
        width >= 0,
        total > 0,
    ensures
        alloc_sum(width, total, ps) * total >= width * total_weight(ps) - ps.len() * (total - 1),
    decreases ps.len(),
{
    if ps.len() > 0 {
        let prev = ps.drop_last();
        lemma_alloc_sum_lower(width, total, prev);
        lemma_weights_nonneg(ps);
        let w = weight_of(ps.last());
        let x = width * w;
        vstd::arithmetic::div_mod::lemma_fundamental_div_mod(x, total);
        vstd::arithmetic::div_mod::lemma_mod_bound(x, total);
        let q = cell_share(width, w, total);
        assert(q * total >= x - (total - 1)) by (nonlinear_arith)
            requires x == total * (x / total) + x % total, x % total < total, q == x / total;
        let a0 = alloc_sum(width, total, prev);
        assert((a0 + q) * total == a0 * total + q * total) by (nonlinear_arith);
        assert(width * (total_weight(prev) + w) == width * total_weight(prev) + width * w) by (nonlinear_arith);
        assert(ps.len() * (total - 1) == prev.len() * (total - 1) + (total - 1)) by (nonlinear_arith)
            requires ps.len() == prev.len() + 1;
    }
}

/// Proportional-fill rules alone under one parent: one cell per rule, each as
/// wide as `A * weight / W` rounded down (`A` the parent's width, `W` the total
/// weight), so that the widths add up to `A` less at most `N - 1` pixels of
/// rounding for `N` rules.
pub proof fn lemma_proportional_split(parent: Rect, rules: Seq<LayoutRule>)
    requires
        proportional_only(rules),
        total_weight(rules) > 0,
    ensures
        ({
            let ps = placements(parent, rules);
            let sorted = sort_by_order(rules);
            let a = normalized(parent);
            let width = a.right - a.left;
            let total = total_weight(rules);
            &&& ps.len() == rules.len()
            &&& forall|x: LayoutRule| sorted.contains(x) <==> rules.contains(x)
            &&& forall|k: int|
                0 <= k < ps.len() ==> (#[trigger] ps[k]).0 == sorted[k].control_id && ps[k].1.right
                    - ps[k].1.left == cell_share(width, weight_of(sorted[k]), total)
            &&& width - (rules.len() - 1) <= sum_widths(ps) <= width
        }),
{
    let sorted = sort_by_order(rules);
    let a = normalized(parent);
    let width = a.right - a.left;
    let total = total_weight(rules);
    lemma_sort_keeps(rules);
    assert(proportional_only(sorted)) by {
        assert forall|i: int| 0 <= i < sorted.len() implies (#[trigger] sorted[i]).dock_style is ProportionalFill
            && sorted[i].margin == (0i32, 0i32, 0i32, 0i32) by {
            assert(sorted.contains(sorted[i]));
            assert(rules.contains(sorted[i]));
            let j = choose|j: int| 0 <= j < rules.len() && rules[j] == sorted[i];
            assert(rules[j] == sorted[i]);
        }
    }
    lemma_proportional_passes(a, sorted);
    assert(total_weight(sorted) == total);
    let cells = prop_cells(a, total, sorted);
    assert(placements(parent, rules) =~= cells);
    lemma_prop_cells_shape(a, total, sorted);
    lemma_alloc_sum_bound(width, total, sorted);
    lemma_alloc_sum_lower(width, total, sorted);
    let s = alloc_sum(width, total, sorted);
    let n = sorted.len() as int;
    assert(s <= width) by (nonlinear_arith)
        requires s * total <= width * total, total > 0;
    assert(s * total >= width * total - n * (total - 1));
    assert(n >= 1) by {
        if rules.len() == 0 {
            assert(total_weight(rules) == 0);
        }
    }
    assert(n * (total - 1) < n * total) by (nonlinear_arith)
        requires n >= 1, total > 0;
    assert(s * total > (width - n) * total) by (nonlinear_arith)
        requires s * total >= width * total - n * (total - 1), n * (total - 1) < n * total;
    assert(s > width - n) by (nonlinear_arith)
        requires s * total > (width - n) * total, total > 0;
}

/// A cell's share grows (or stays) when its own weight grows and the other
/// weights stay the same.
pub proof fn lemma_share_monotone(width: int, weight: int, heavier: int, rest: int)
    requires
        width >= 0,
        0 <= weight <= heavier,
        rest >= 0,
        weight + rest > 0,
    ensures
        cell_share(width, weight, weight + rest) <= cell_share(width, heavier, heavier + rest),
{
    let t1 = weight + rest;
    let t2 = heavier + rest;
    let q1 = cell_share(width, weight, t1);
    vstd::arithmetic::div_mod::lemma_fundamental_div_mod(width * weight, t1);
    vstd::arithmetic::div_mod::lemma_mod_pos_bound(width * weight, t1);
    assert(q1 * t1 <= width * weight) by (nonlinear_arith)
        requires width * weight == t1 * (width * weight / t1) + (width * weight) % t1, (width * weight) % t1 >= 0, q1 == width * weight / t1;
    assert(width * weight * t2 <= width * heavier * t1) by (nonlinear_arith)
        requires width >= 0, 0 <= weight <= heavier, rest >= 0, t1 == weight + rest, t2 == heavier + rest;
    assert(q1 * t2 <= width * heavier) by (nonlinear_arith)
        requires q1 * t1 <= width * weight, width * weight * t2 <= width * heavier * t1, t1 > 0, t2 >= t1, q1 >= 0;
    vstd::arithmetic::div_mod::lemma_div_pos_is_pos(width * weight, t1);
    vstd::arithmetic::div_mod::lemma_div_is_ordered(q1 * t2, width * heavier, t2);
    vstd::arithmetic::div_mod::lemma_div_by_multiple(q1, t2);
}

} // verus!
