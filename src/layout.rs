use vstd::prelude::*;

use crate::id_map::IdMap;
use crate::text::{decimal, push_decimal, push_text, string_from_chars};
use crate::types::{ControlId, DockStyle, LayoutRule, PlatformError, Rect};

verus! {

// ---------------------------------------------------------------------------
// Mathematical model
// ---------------------------------------------------------------------------

pub open spec fn clamp(x: int, lo: int, hi: int) -> int {
    if x < lo {
        lo
    } else if x > hi {
        hi
    } else {
        x
    }
}

pub open spec fn max_int(a: int, b: int) -> int {
    if a < b {
        b
    } else {
        a
    }
}

/// An integer saturated into the `i32` range.
pub open spec fn to_i32(x: int) -> i32 {
    clamp(x, i32::MIN as int, i32::MAX as int) as i32
}

pub open spec fn mk_rect(l: int, t: int, r: int, b: int) -> Rect {
    Rect { left: to_i32(l), top: to_i32(t), right: to_i32(r), bottom: to_i32(b) }
}

/// The rectangle with negative extents clamped to zero.
pub open spec fn normalized(r: Rect) -> Rect {
    Rect {
        left: r.left,
        top: r.top,
        right: if r.right < r.left { r.left } else { r.right },
        bottom: if r.bottom < r.top { r.top } else { r.bottom },
    }
}

pub open spec fn well_formed(r: Rect) -> bool {
    r.left <= r.right && r.top <= r.bottom
}

// Margin-shrunk area of a rule inside `a`, never inverted.
pub open spec fn inset_left(a: Rect, m: (i32, i32, i32, i32)) -> int {
    a.left + m.3
}

pub open spec fn inset_top(a: Rect, m: (i32, i32, i32, i32)) -> int {
    a.top + m.0
}

pub open spec fn inset_right(a: Rect, m: (i32, i32, i32, i32)) -> int {
    max_int(inset_left(a, m), a.right - m.1)
}

pub open spec fn inset_bottom(a: Rect, m: (i32, i32, i32, i32)) -> int {
    max_int(inset_top(a, m), a.bottom - m.2)
}

pub open spec fn is_edge(d: DockStyle) -> bool {
    d is Top || d is Bottom || d is Left || d is Right
}

pub open spec fn size_of(rule: LayoutRule) -> int {
    match rule.fixed_size {
        Some(s) => s as int,
        None => 0,
    }
}

/// Thickness of an edge strip: the requested size, kept within the free extent.
pub open spec fn strip_size(a: Rect, rule: LayoutRule) -> int {
    let m = rule.margin;
    let extent = if rule.dock_style is Top || rule.dock_style is Bottom {
        inset_bottom(a, m) - inset_top(a, m)
    } else {
        inset_right(a, m) - inset_left(a, m)
    };
    clamp(size_of(rule), 0, extent)
}

/// Rectangle of an edge-docked rule carved from the available area `a`.
pub open spec fn edge_rect(a: Rect, rule: LayoutRule) -> Rect {
    let m = rule.margin;
    let l = inset_left(a, m);
    let t = inset_top(a, m);
    let r = inset_right(a, m);
    let b = inset_bottom(a, m);
    let s = strip_size(a, rule);
    match rule.dock_style {
        DockStyle::Top => mk_rect(l, t, r, t + s),
        DockStyle::Bottom => mk_rect(l, b - s, r, b),
        DockStyle::Left => mk_rect(l, t, l + s, b),
        _ => mk_rect(r - s, t, r, b),
    }
}

/// Available area left after an edge-docked rule took its strip and margin.
pub open spec fn shrink_avail(a: Rect, rule: LayoutRule) -> Rect {
    let m = rule.margin;
    let s = strip_size(a, rule);
    match rule.dock_style {
        DockStyle::Top => Rect {
            top: clamp(inset_top(a, m) + s + m.2, a.top as int, a.bottom as int) as i32,
            ..a
        },
        DockStyle::Bottom => Rect {
            bottom: clamp(inset_bottom(a, m) - s - m.0, a.top as int, a.bottom as int) as i32,
            ..a
        },
        DockStyle::Left => Rect {
            left: clamp(inset_left(a, m) + s + m.1, a.left as int, a.right as int) as i32,
            ..a
        },
        _ => Rect {
            right: clamp(inset_right(a, m) - s - m.3, a.left as int, a.right as int) as i32,
            ..a
        },
    }
}

/// First pass: edge-docked rules in order; yields the remaining area and their rectangles.
pub open spec fn edge_pass(a: Rect, s: Seq<LayoutRule>) -> (Rect, Seq<(ControlId, Rect)>)
    decreases s.len(),
{
    if s.len() == 0 {
        (a, Seq::empty())
    } else {
        let (a1, out) = edge_pass(a, s.drop_last());
        let rule = s.last();
        if is_edge(rule.dock_style) {
            (shrink_avail(a1, rule), out.push((rule.control_id, edge_rect(a1, rule))))
        } else {
            (a1, out)
        }
    }
}

/// The proportional-fill rules of `s`, in order.
pub open spec fn prop_rules(s: Seq<LayoutRule>) -> Seq<LayoutRule>
    decreases s.len(),
{
    if s.len() == 0 {
        Seq::empty()
    } else if s.last().dock_style is ProportionalFill {
        prop_rules(s.drop_last()).push(s.last())
    } else {
        prop_rules(s.drop_last())
    }
}

pub open spec fn weight_of(rule: LayoutRule) -> int {
    match rule.dock_style {
        DockStyle::ProportionalFill { weight } => weight as int,
        _ => 0,
    }
}

pub open spec fn total_weight(ps: Seq<LayoutRule>) -> int
    decreases ps.len(),
{
    if ps.len() == 0 {
        0
    } else {
        total_weight(ps.drop_last()) + weight_of(ps.last())
    }
}

/// Width allotted to one proportional cell: `width * weight / total`, rounded down.
pub open spec fn cell_share(width: int, weight: int, total: int) -> int {
    width * weight / total
}

pub open spec fn alloc_sum(width: int, total: int, ps: Seq<LayoutRule>) -> int
    decreases ps.len(),
{
    if ps.len() == 0 {
        0
    } else {
        alloc_sum(width, total, ps.drop_last()) + cell_share(width, weight_of(ps.last()), total)
    }
}

/// A proportional cell that starts `offset` pixels right of the area's left edge.
pub open spec fn prop_cell(a: Rect, total: int, offset: int, rule: LayoutRule) -> Rect {
    let m = rule.margin;
    let share = cell_share(a.right - a.left, weight_of(rule), total);
    let x = a.left + offset + m.3;
    let y = a.top + m.0;
    let w = max_int(share - m.3 - m.1, 0);
    let h = max_int(a.bottom - a.top - m.0 - m.2, 0);
    mk_rect(x, y, x + w, y + h)
}

pub open spec fn prop_cells(a: Rect, total: int, ps: Seq<LayoutRule>) -> Seq<(ControlId, Rect)>
    decreases ps.len(),
{
    if ps.len() == 0 {
        Seq::empty()
    } else {
        let prev = ps.drop_last();
        let rule = ps.last();
        prop_cells(a, total, prev).push(
            (rule.control_id, prop_cell(a, total, alloc_sum(a.right - a.left, total, prev), rule)),
        )
    }
}

/// The first `Fill` rule of `s`, if any.
pub open spec fn first_fill(s: Seq<LayoutRule>) -> Option<LayoutRule>
    decreases s.len(),
{
    if s.len() == 0 {
        None
    } else {
        match first_fill(s.drop_last()) {
            Some(f) => Some(f),
            None => if s.last().dock_style is Fill {
                Some(s.last())
            } else {
                None
            },
        }
    }
}

pub open spec fn fill_rect(a: Rect, rule: LayoutRule) -> Rect {
    let m = rule.margin;
    mk_rect(inset_left(a, m), inset_top(a, m), inset_right(a, m), inset_bottom(a, m))
}

/// Where a rule with key `x` goes in an order-sorted sequence: after every
/// element whose order is not greater (so equal keys keep their input order).
pub open spec fn ins_pos(q: Seq<LayoutRule>, x: LayoutRule) -> int
    decreases q.len(),
{
    if q.len() == 0 {
        0
    } else if q.last().order <= x.order {
        q.len() as int
    } else {
        ins_pos(q.drop_last(), x)
    }
}

pub open spec fn insert_by_order(q: Seq<LayoutRule>, x: LayoutRule) -> Seq<LayoutRule> {
    let p = ins_pos(q, x);
    q.take(p) + seq![x] + q.skip(p)
}

/// Stable sort of the rules by ascending `order`.
pub open spec fn sort_by_order(s: Seq<LayoutRule>) -> Seq<LayoutRule>
    decreases s.len(),
{
    if s.len() == 0 {
        s
    } else {
        insert_by_order(sort_by_order(s.drop_last()), s.last())
    }
}

/// Every rectangle the engine emits for one parent, in the order it records them.
pub open spec fn placements(parent: Rect, rules: Seq<LayoutRule>) -> Seq<(ControlId, Rect)> {
    let sorted = sort_by_order(rules);
    let (a, edges) = edge_pass(normalized(parent), sorted);
    let ps = prop_rules(sorted);
    let total = total_weight(ps);
    let cells = if total > 0 {
        prop_cells(a, total, ps)
    } else {
        Seq::empty()
    };
    let fills = match first_fill(sorted) {
        Some(f) => seq![(f.control_id, fill_rect(a, f))],
        None => Seq::empty(),
    };
    edges + cells + fills
}

/// Map built by recording the pairs in order; a later pair for a key wins.
pub open spec fn map_of(ps: Seq<(ControlId, Rect)>) -> Map<ControlId, Rect>
    decreases ps.len(),
{
    if ps.len() == 0 {
        Map::empty()
    } else {
        map_of(ps.drop_last()).insert(ps.last().0, ps.last().1)
    }
}

/// The layout of one parent's rules inside `parent`.
pub open spec fn layout_of(parent: Rect, rules: Seq<LayoutRule>) -> Map<ControlId, Rect> {
    map_of(placements(parent, rules))
}

// ---------------------------------------------------------------------------
// Executable engine
// ---------------------------------------------------------------------------

fn sat_i32(x: i64) -> (r: i32)
    ensures
        r == to_i32(x as int),
{
    if x < i32::MIN as i64 {
        i32::MIN
    } else if x > i32::MAX as i64 {
        i32::MAX
    } else {
        x as i32
    }
}

fn clamp_i64(x: i64, lo: i64, hi: i64) -> (r: i64)
    ensures
        r == clamp(x as int, lo as int, hi as int),
{
    if x < lo {
        lo
    } else if x > hi {
        hi
    } else {
        x
    }
}

fn max_i64(a: i64, b: i64) -> (r: i64)
    ensures
        r == max_int(a as int, b as int),
{
    if a < b {
        b
    } else {
        a
    }
}

fn normalize_rect(r: Rect) -> (out: Rect)
    ensures
        out == normalized(r),
{
    Rect {
        left: r.left,
        top: r.top,
        right: if r.right < r.left { r.left } else { r.right },
        bottom: if r.bottom < r.top { r.top } else { r.bottom },
    }
}

/// Rectangle and remaining area for an edge-docked rule.
fn carve_edge(a: Rect, rule: &LayoutRule) -> (r: (Rect, Rect))
    requires
        well_formed(a),
        is_edge(rule.dock_style),
    ensures
        r.0 == edge_rect(a, *rule),
        r.1 == shrink_avail(a, *rule),
        well_formed(r.1),
        r.1.left >= a.left && r.1.right <= a.right && r.1.top >= a.top && r.1.bottom <= a.bottom,
{
    let m = rule.margin;
    let l = a.left as i64 + m.3 as i64;
    let t = a.top as i64 + m.0 as i64;
    let r = max_i64(l, a.right as i64 - m.1 as i64);
    let b = max_i64(t, a.bottom as i64 - m.2 as i64);
    let size: i64 = match rule.fixed_size {
        Some(s) => s as i64,
        None => 0,
    };
    match rule.dock_style {
        DockStyle::Top => {
            let s = clamp_i64(size, 0, b - t);
            let item = Rect { left: sat_i32(l), top: sat_i32(t), right: sat_i32(r), bottom: sat_i32(t + s) };
            let nt = clamp_i64(t + s + m.2 as i64, a.top as i64, a.bottom as i64) as i32;
            (item, Rect { top: nt, ..a })
        },
        DockStyle::Bottom => {
            let s = clamp_i64(size, 0, b - t);
            let item = Rect { left: sat_i32(l), top: sat_i32(b - s), right: sat_i32(r), bottom: sat_i32(b) };
            let nb = clamp_i64(b - s - m.0 as i64, a.top as i64, a.bottom as i64) as i32;
            (item, Rect { bottom: nb, ..a })
        },
        DockStyle::Left => {
            let s = clamp_i64(size, 0, r - l);
            let item = Rect { left: sat_i32(l), top: sat_i32(t), right: sat_i32(l + s), bottom: sat_i32(b) };
            let nl = clamp_i64(l + s + m.1 as i64, a.left as i64, a.right as i64) as i32;
            (item, Rect { left: nl, ..a })
        },
        _ => {
            let s = clamp_i64(size, 0, r - l);
            let item = Rect { left: sat_i32(r - s), top: sat_i32(t), right: sat_i32(r), bottom: sat_i32(b) };
            let nr = clamp_i64(r - s - m.3 as i64, a.left as i64, a.right as i64) as i32;
            (item, Rect { right: nr, ..a })
        },
    }
}

/// Stable sort by ascending `order` (insertion sort).
pub(crate) fn sorted_by_order(rules: &Vec<LayoutRule>) -> (r: Vec<LayoutRule>)
    ensures
        r@ == sort_by_order(rules@),
{
    let mut out: Vec<LayoutRule> = Vec::new();
    let mut i: usize = 0;
    while i < rules.len()
        invariant
            i <= rules@.len(),
            out@ == sort_by_order(rules@.take(i as int)),
        decreases rules@.len() - i,
    {
        let x = rules[i];
        let mut p: usize = out.len();
        assert(out@.take(p as int) =~= out@);
        while p > 0 && out[p - 1].order > x.order
            invariant
                p <= out@.len(),
                ins_pos(out@, x) == ins_pos(out@.take(p as int), x),
            decreases p,
        {
            assert(out@.take(p as int).drop_last() =~= out@.take(p - 1));
            p = p - 1;
        }
        assert(ins_pos(out@.take(p as int), x) == p) by {
            if p > 0 {
                assert(out@.take(p as int).last() == out@[p - 1]);
            }
        }
        let ghost before = out@;
        out.insert(p, x);
        assert(out@ =~= insert_by_order(before, x));
        assert(rules@.take(i + 1).drop_last() =~= rules@.take(i as int));
        i = i + 1;
    }
    assert(rules@.take(rules@.len() as int) =~= rules@);
    out
}

proof fn lemma_cell_share_bounds(width: int, weight: int, total: int)
    requires
        width >= 0,
        weight >= 0,
        total > 0,
    ensures
        0 <= cell_share(width, weight, total),
        cell_share(width, weight, total) * total <= width * weight,
        weight <= total ==> cell_share(width, weight, total) <= width,
{
    assert(width * weight >= 0) by (nonlinear_arith)
        requires width >= 0, weight >= 0;
    vstd::arithmetic::div_mod::lemma_fundamental_div_mod(width * weight, total);
    vstd::arithmetic::div_mod::lemma_div_pos_is_pos(width * weight, total);
    assert(cell_share(width, weight, total) * total <= width * weight) by {
        vstd::arithmetic::mul::lemma_mul_is_commutative(total, width * weight / total);
    }
    if weight <= total {
        assert(width * weight <= width * total) by (nonlinear_arith)
            requires width >= 0, weight <= total;
        assert(cell_share(width, weight, total) <= width) by (nonlinear_arith)
            requires
                cell_share(width, weight, total) * total <= width * total,
                total > 0;
    }
}

/// The allotted widths of a prefix never exceed the share of its weights.
pub proof fn lemma_alloc_sum_bound(width: int, total: int, ps: Seq<LayoutRule>)
    requires
        width >= 0,
        total > 0,
    ensures
        0 <= alloc_sum(width, total, ps),
        alloc_sum(width, total, ps) * total <= width * total_weight(ps),
        total_weight(ps) >= 0,
    decreases ps.len(),
{
    if ps.len() > 0 {
        lemma_alloc_sum_bound(width, total, ps.drop_last());
        let w = weight_of(ps.last());
        lemma_cell_share_bounds(width, w, total);
        let a0 = alloc_sum(width, total, ps.drop_last());
        let a1 = cell_share(width, w, total);
        assert((a0 + a1) * total == a0 * total + a1 * total) by (nonlinear_arith);
        assert(width * (total_weight(ps.drop_last()) + w) == width * total_weight(ps.drop_last())
            + width * w) by (nonlinear_arith);
    }
}

proof fn lemma_alloc_sum_le_width(width: int, total: int, ps: Seq<LayoutRule>)
    requires
        width >= 0,
        total > 0,
        total_weight(ps) <= total,
    ensures
        0 <= alloc_sum(width, total, ps) <= width,
{
    lemma_alloc_sum_bound(width, total, ps);
    let s = alloc_sum(width, total, ps);
    assert(width * total_weight(ps) <= width * total) by (nonlinear_arith)
        requires width >= 0, total_weight(ps) <= total;
    assert(s <= width) by (nonlinear_arith)
        requires s * total <= width * total, total > 0;
}

proof fn lemma_total_weight_prefix(ps: Seq<LayoutRule>, i: int)
    requires
        0 <= i <= ps.len(),
    ensures
        total_weight(ps.take(i)) <= total_weight(ps),
        total_weight(ps.take(i)) >= 0,
    decreases ps.len() - i,
{
    lemma_total_weight_nonneg(ps.take(i));
    if i < ps.len() {
        lemma_total_weight_prefix(ps, i + 1);
        assert(ps.take(i + 1).drop_last() =~= ps.take(i));
        lemma_total_weight_nonneg(ps.take(i + 1).drop_last());
    } else {
        assert(ps.take(i) =~= ps);
        lemma_total_weight_nonneg(ps);
    }
}

proof fn lemma_total_weight_nonneg(ps: Seq<LayoutRule>)
    ensures
        total_weight(ps) >= 0,
    decreases ps.len(),
{
    if ps.len() > 0 {
        lemma_total_weight_nonneg(ps.drop_last());
    }
}

/// Computes the rectangle of every rule placed directly inside `parent_rect`.
///
/// Rules are taken in stable ascending `order`. Edge-docked rules carve strips
/// of `fixed_size` (kept within the free area) off the remaining area;
/// proportional-fill rules split the remaining width by weight; the first
/// `Fill` rule takes what the edge strips left. `NoDock` rules get nothing.
pub fn calculate_layout(parent_rect: Rect, rules: &Vec<LayoutRule>) -> (r: IdMap<Rect>)
    ensures
        r.wf(),
        r@ == layout_of(parent_rect, rules@),
{
    let sorted = sorted_by_order(rules);
    let ghost start = normalized(parent_rect);
    let mut avail = normalize_rect(parent_rect);
    let mut placed: Vec<(ControlId, Rect)> = Vec::new();
    let mut props: Vec<LayoutRule> = Vec::new();
    let mut fill: Option<LayoutRule> = None;
    let mut i: usize = 0;
    while i < sorted.len()
        invariant
            i <= sorted@.len(),
            well_formed(avail),
            (avail, placed@) == edge_pass(start, sorted@.take(i as int)),
            props@ == prop_rules(sorted@.take(i as int)),
            fill == first_fill(sorted@.take(i as int)),
        decreases sorted@.len() - i,
    {
        let rule = sorted[i];
        assert(sorted@.take(i + 1).drop_last() =~= sorted@.take(i as int));
        assert(sorted@.take(i + 1).last() == rule);
        match rule.dock_style {
            DockStyle::Top | DockStyle::Bottom | DockStyle::Left | DockStyle::Right => {
                let (item, rest) = carve_edge(avail, &rule);
                placed.push((rule.control_id, item));
                avail = rest;
            },
            DockStyle::Fill => {
                if fill.is_none() {
                    fill = Some(rule);
                }
            },
            DockStyle::ProportionalFill { .. } => {
                props.push(rule);
            },
            DockStyle::NoDock => {},
        }
        i = i + 1;
    }
    assert(sorted@.take(sorted@.len() as int) =~= sorted@);
    let ghost edges = placed@;

    // Total weight of the proportional rules.
    let mut total: u128 = 0;
    let mut k: usize = 0;
    while k < props.len()
        invariant
            k <= props@.len(),
            total == total_weight(props@.take(k as int)),
            total <= k * 0x1_0000_0000,
        decreases props@.len() - k,
    {
        assert(props@.take(k + 1).drop_last() =~= props@.take(k as int));
        let w: u32 = match props[k].dock_style {
            DockStyle::ProportionalFill { weight } => weight,
            _ => 0,
        };
        total = total + w as u128;
        k = k + 1;
    }
    assert(props@.take(props@.len() as int) =~= props@);

    if total > 0 {
        let width: i64 = avail.right as i64 - avail.left as i64;
        let height: i64 = avail.bottom as i64 - avail.top as i64;
        let mut offset: i64 = 0;
        let mut j: usize = 0;
        while j < props.len()
            invariant
                j <= props@.len(),
                well_formed(avail),
                width == avail.right - avail.left,
                height == avail.bottom - avail.top,
                total == total_weight(props@),
                total > 0,
                offset == alloc_sum(width as int, total as int, props@.take(j as int)),
                0 <= offset <= width,
                placed@ == edges + prop_cells(avail, total as int, props@.take(j as int)),
            decreases props@.len() - j,
        {
            let rule = props[j];
            let ghost prefix = props@.take(j as int);
            assert(props@.take(j + 1).drop_last() =~= prefix);
            assert(props@.take(j + 1).last() == rule);
            let w: u32 = match rule.dock_style {
                DockStyle::ProportionalFill { weight } => weight,
                _ => 0,
            };
            proof {
                assert(total_weight(props@.take(j + 1)) == total_weight(prefix) + weight_of(rule));
                lemma_total_weight_nonneg(prefix);
                lemma_total_weight_prefix(props@, j + 1);
                assert(weight_of(rule) == w);
                lemma_cell_share_bounds(width as int, w as int, total as int);
                lemma_alloc_sum_le_width(width as int, total as int, props@.take(j + 1));
                assert((width as int) * (w as int) <= 0x1_0000_0000_0000_0000) by (nonlinear_arith)
                    requires 0 <= width <= 0x1_0000_0000, 0 <= w <= 0x1_0000_0000;
            }
            let share: i64 = ((width as u128 * w as u128) / total) as i64;
            let m = rule.margin;
            let x = avail.left as i64 + offset + m.3 as i64;
            let y = avail.top as i64 + m.0 as i64;
            let cw = max_i64(share - m.3 as i64 - m.1 as i64, 0);
            let ch = max_i64(height - m.0 as i64 - m.2 as i64, 0);
            let cell = Rect { left: sat_i32(x), top: sat_i32(y), right: sat_i32(x + cw), bottom: sat_i32(y + ch) };
            placed.push((rule.control_id, cell));
            offset = offset + share;
            j = j + 1;
        }
        assert(props@.take(props@.len() as int) =~= props@);
    }
    let ghost before_fill = placed@;
    if let Some(f) = fill {
        let m = f.margin;
        let l = avail.left as i64 + m.3 as i64;
        let t = avail.top as i64 + m.0 as i64;
        let r = max_i64(l, avail.right as i64 - m.1 as i64);
        let b = max_i64(t, avail.bottom as i64 - m.2 as i64);
        placed.push((f.control_id, Rect { left: sat_i32(l), top: sat_i32(t), right: sat_i32(r), bottom: sat_i32(b) }));
    }
    assert(placed@ =~= placements(parent_rect, rules@));

    let mut result: IdMap<Rect> = IdMap::new();
    let mut n: usize = 0;
    while n < placed.len()
        invariant
            n <= placed@.len(),
            result.wf(),
            result@ == map_of(placed@.take(n as int)),
        decreases placed@.len() - n,
    {
        assert(placed@.take(n + 1).drop_last() =~= placed@.take(n as int));
        let (id, rect) = placed[n];
        result.insert(id, rect);
        n = n + 1;
    }
    assert(placed@.take(placed@.len() as int) =~= placed@);
    result
}

// ---------------------------------------------------------------------------
// Rule-set validation
// ---------------------------------------------------------------------------

pub open spec fn fill_under(rule: LayoutRule, parent: Option<ControlId>) -> bool {
    rule.dock_style is Fill && rule.parent_control_id == parent
}

/// Two `Fill` rules share a parent.
pub open spec fn has_fill_conflict(rules: Seq<LayoutRule>) -> bool {
    exists|i: int, j: int|
        0 <= i < j < rules.len() && #[trigger] fill_under(rules[i], rules[j].parent_control_id)
            && #[trigger] rules[j].dock_style is Fill
}

/// `rules[j]` is a `Fill` rule with an earlier `Fill` sibling.
pub open spec fn conflicts_at(rules: Seq<LayoutRule>, j: int) -> bool {
    rules[j].dock_style is Fill && exists|i: int|
        0 <= i < j && #[trigger] fill_under(rules[i], rules[j].parent_control_id)
}

/// Parent of the first `Fill` rule that has an earlier `Fill` sibling.
pub open spec fn conflict_parent(rules: Seq<LayoutRule>) -> Option<Option<ControlId>>
    decreases rules.len(),
{
    if rules.len() == 0 {
        None
    } else {
        match conflict_parent(rules.drop_last()) {
            Some(p) => Some(p),
            None => if conflicts_at(rules, rules.len() - 1) {
                Some(rules.last().parent_control_id)
            } else {
                None
            },
        }
    }
}

/// Ids of the `Fill` rules under `parent`, in input order.
pub open spec fn fill_ids(rules: Seq<LayoutRule>, parent: Option<ControlId>) -> Seq<ControlId>
    decreases rules.len(),
{
    if rules.len() == 0 {
        Seq::empty()
    } else if fill_under(rules.last(), parent) {
        fill_ids(rules.drop_last(), parent).push(rules.last().control_id)
    } else {
        fill_ids(rules.drop_last(), parent)
    }
}

pub open spec fn joined_ids(ids: Seq<ControlId>) -> Seq<char>
    decreases ids.len(),
{
    if ids.len() == 0 {
        Seq::empty()
    } else if ids.len() == 1 {
        decimal(ids[0].0 as int)
    } else {
        joined_ids(ids.drop_last()) + ", "@ + decimal(ids.last().0 as int)
    }
}

pub open spec fn parent_text(parent: Option<ControlId>) -> Seq<char> {
    match parent {
        Some(id) => "control "@ + decimal(id.0 as int),
        None => "main window"@,
    }
}

/// Diagnostic for a rule set with several `Fill` rules under `parent`.
pub open spec fn fill_conflict_message(rules: Seq<LayoutRule>, parent: Option<ControlId>) -> Seq<
    char,
> {
    "DefineLayout rejected: parent "@ + parent_text(parent)
        + " has multiple DockStyle::Fill children ("@ + joined_ids(fill_ids(rules, parent))
        + "). Exactly one Fill child per parent is supported."@
}

proof fn lemma_conflict_parent(rules: Seq<LayoutRule>)
    ensures
        conflict_parent(rules) is Some <==> has_fill_conflict(rules),
    decreases rules.len(),
{
    if rules.len() > 0 {
        let prev = rules.drop_last();
        lemma_conflict_parent(prev);
        let n = rules.len() - 1;
        if has_fill_conflict(rules) && !has_fill_conflict(prev) {
            let (i, j) = choose|i: int, j: int|
                0 <= i < j < rules.len() && #[trigger] fill_under(
                    rules[i],
                    rules[j].parent_control_id,
                ) && #[trigger] rules[j].dock_style is Fill;
            if j < n {
                assert(fill_under(prev[i], prev[j].parent_control_id) && prev[j].dock_style is Fill);
            } else {
                assert(fill_under(rules[i], rules[n].parent_control_id));
                assert(conflicts_at(rules, n));
            }
        }
        if conflicts_at(rules, n) {
            let i = choose|i: int| 0 <= i < n && #[trigger] fill_under(rules[i], rules[n].parent_control_id);
            assert(fill_under(rules[i], rules[n].parent_control_id) && rules[n].dock_style is Fill);
        }
        if has_fill_conflict(prev) {
            let (i, j) = choose|i: int, j: int|
                0 <= i < j < prev.len() && #[trigger] fill_under(
                    prev[i],
                    prev[j].parent_control_id,
                ) && #[trigger] prev[j].dock_style is Fill;
            assert(fill_under(rules[i], rules[j].parent_control_id) && rules[j].dock_style is Fill);
        }
    }
}

fn push_joined_ids(out: &mut Vec<char>, ids: &Vec<ControlId>)
    ensures
        final(out)@ == old(out)@ + joined_ids(ids@),
{
    let ghost start = out@;
    let mut i: usize = 0;
    while i < ids.len()
        invariant
            i <= ids@.len(),
            out@ == start + joined_ids(ids@.take(i as int)),
        decreases ids@.len() - i,
    {
        assert(ids@.take(i + 1).drop_last() =~= ids@.take(i as int));
        if i > 0 {
            push_text(out, ", ");
        }
        push_decimal(out, ids[i].0 as i64);
        proof {
            if i == 0 {
                assert(ids@.take(1)[0] == ids@[0]);
            }
        }
        assert(out@ =~= start + joined_ids(ids@.take(i + 1)));
        i = i + 1;
    }
    assert(ids@.take(ids@.len() as int) =~= ids@);
}

/// Builds the diagnostic for several `Fill` rules under `parent`.
fn fill_conflict_error(rules: &Vec<LayoutRule>, parent: Option<ControlId>) -> (e: PlatformError)
    ensures
        e is OperationFailed,
        e.spec_message() == fill_conflict_message(rules@, parent),
{
    let mut ids: Vec<ControlId> = Vec::new();
    let mut k: usize = 0;
    while k < rules.len()
        invariant
            k <= rules@.len(),
            ids@ == fill_ids(rules@.take(k as int), parent),
        decreases rules@.len() - k,
    {
        assert(rules@.take(k + 1).drop_last() =~= rules@.take(k as int));
        let r = rules[k];
        if matches!(r.dock_style, DockStyle::Fill) && r.parent_control_id == parent {
            ids.push(r.control_id);
        }
        k = k + 1;
    }
    assert(rules@.take(rules@.len() as int) =~= rules@);
    let mut out: Vec<char> = Vec::new();
    push_text(&mut out, "DefineLayout rejected: parent ");
    match parent {
        Some(id) => {
            push_text(&mut out, "control ");
            push_decimal(&mut out, id.0 as i64);
        },
        None => {
            push_text(&mut out, "main window");
        },
    }
    push_text(&mut out, " has multiple DockStyle::Fill children (");
    push_joined_ids(&mut out, &ids);
    push_text(&mut out, "). Exactly one Fill child per parent is supported.");
    assert(out@ =~= fill_conflict_message(rules@, parent));
    PlatformError::OperationFailed(string_from_chars(&out))
}

/// Accepts a rule set with at most one `Fill` rule per parent; otherwise
/// reports the first parent (in input order) that has several.
pub fn validate_layout_rules(rules: &Vec<LayoutRule>) -> (r: Result<(), PlatformError>)
    ensures
        r is Ok <==> !has_fill_conflict(rules@),
        r is Err ==> r->Err_0 is OperationFailed && conflict_parent(rules@) is Some
            && r->Err_0.spec_message() == fill_conflict_message(
            rules@,
            conflict_parent(rules@)->Some_0,
        ),
{
    proof {
        lemma_conflict_parent(rules@);
    }
    let mut j: usize = 0;
    while j < rules.len()
        invariant
            j <= rules@.len(),
            conflict_parent(rules@.take(j as int)) is None,
        decreases rules@.len() - j,
    {
        let ghost pre = rules@.take(j + 1);
        assert(pre.drop_last() =~= rules@.take(j as int));
        let rj = rules[j];
        let mut found = false;
        if matches!(rj.dock_style, DockStyle::Fill) {
            let mut i: usize = 0;
            while i < j
                invariant
                    i <= j < rules@.len(),
                    rj == rules@[j as int],
                    !found ==> forall|k: int| 0 <= k < i ==> !#[trigger] fill_under(rules@[k], rj.parent_control_id),
                    found ==> exists|k: int| 0 <= k < j && #[trigger] fill_under(rules@[k], rj.parent_control_id),
                decreases j - i,
            {
                let ri = rules[i];
                if !found && matches!(ri.dock_style, DockStyle::Fill) && ri.parent_control_id == rj.parent_control_id {
                    found = true;
                    assert(fill_under(rules@[i as int], rj.parent_control_id));
                }
                i = i + 1;
            }
        }
        proof {
            assert(pre.last() == rj);
            if found {
                let k = choose|k: int| 0 <= k < j && #[trigger] fill_under(rules@[k], rj.parent_control_id);
                assert(fill_under(pre[k], pre[j as int].parent_control_id));
            } else if rj.dock_style is Fill {
                assert forall|k: int| 0 <= k < j implies !#[trigger] fill_under(pre[k], pre[j as int].parent_control_id) by {
                    assert(pre[k] == rules@[k]);
                }
            }
        }
        if found {
            proof {
                assert(conflict_parent(pre) == Some(rj.parent_control_id));
                lemma_conflict_parent_extends(rules@, j as int + 1);
            }
            return Err(fill_conflict_error(rules, rj.parent_control_id));
        }
        j = j + 1;
    }
    assert(rules@.take(rules@.len() as int) =~= rules@);
    Ok(())
}

proof fn lemma_conflict_parent_extends(rules: Seq<LayoutRule>, n: int)
    requires
        0 <= n <= rules.len(),
        conflict_parent(rules.take(n)) is Some,
    ensures
        conflict_parent(rules) == conflict_parent(rules.take(n)),
    decreases rules.len() - n,
{
    if n < rules.len() {
        assert(rules.take(n + 1).drop_last() =~= rules.take(n));
        lemma_conflict_parent_extends(rules, n + 1);
    } else {
        assert(rules.take(n) =~= rules);
    }
}

} // verus!
