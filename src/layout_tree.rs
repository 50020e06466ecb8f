use vstd::prelude::*;

use crate::id_map::IdMap;
use crate::layout::{calculate_layout, layout_of, sort_by_order, sorted_by_order, to_i32};
use crate::registry::{effective_height_spec, NativeWindowData, RegistryModel};
use crate::types::{ControlId, ControlKind, LayoutRule, NativeHandle, Rect, StyleId};

verus! {

/// A rectangle assigned to a control, in the client coordinates of its parent
/// (`None`: the window itself).
#[derive(Clone, Copy, Debug, PartialEq, Eq, Structural)]
pub struct Placement {
    pub parent: Option<ControlId>,
    pub control_id: ControlId,
    pub rect: Rect,
}

/// The rules placed directly inside `parent`, in input order.
pub open spec fn children_of(rules: Seq<LayoutRule>, parent: Option<ControlId>) -> Seq<LayoutRule>
    decreases rules.len(),
{
    if rules.len() == 0 {
        Seq::empty()
    } else if rules.last().parent_control_id == parent {
        children_of(rules.drop_last(), parent).push(rules.last())
    } else {
        children_of(rules.drop_last(), parent)
    }
}

pub open spec fn has_children(rules: Seq<LayoutRule>, id: ControlId) -> bool {
    exists|i: int| 0 <= i < rules.len() && #[trigger] rules[i].parent_control_id == Some(id)
}

/// A control's own client area: its size, at the origin.
pub open spec fn local_rect(r: Rect) -> Rect {
    Rect {
        left: 0,
        top: 0,
        right: to_i32(if r.right < r.left { 0 } else { r.right - r.left }),
        bottom: to_i32(if r.bottom < r.top { 0 } else { r.bottom - r.top }),
    }
}

/// One placement per sorted child that the layout gave a rectangle.
pub open spec fn level_entries(
    parent: Option<ControlId>,
    kids: Seq<LayoutRule>,
    m: Map<ControlId, Rect>,
) -> Seq<Placement>
    decreases kids.len(),
{
    if kids.len() == 0 {
        Seq::empty()
    } else {
        let k = kids.last();
        let prev = level_entries(parent, kids.drop_last(), m);
        if m.contains_key(k.control_id) {
            prev.push(Placement { parent, control_id: k.control_id, rect: m[k.control_id] })
        } else {
            prev
        }
    }
}

/// Placements of `parent`'s children inside `rect`, then, child by child in
/// order, those of each child that is itself a parent, inside its own client
/// area. `fuel` bounds the nesting depth.
pub open spec fn tree_layout(rules: Seq<LayoutRule>, parent: Option<ControlId>, rect: Rect, fuel: nat) -> Seq<
    Placement,
>
    decreases fuel, 0nat,
{
    let kids = children_of(rules, parent);
    if fuel == 0 || kids.len() == 0 {
        Seq::empty()
    } else {
        let sorted = sort_by_order(kids);
        let m = layout_of(rect, kids);
        level_entries(parent, sorted, m) + descend(rules, sorted, m, (fuel - 1) as nat)
    }
}

pub open spec fn descend(rules: Seq<LayoutRule>, kids: Seq<LayoutRule>, m: Map<ControlId, Rect>, fuel: nat) -> Seq<
    Placement,
>
    decreases fuel, kids.len(),
{
    if kids.len() == 0 {
        Seq::empty()
    } else {
        let k = kids.last();
        let prev = descend(rules, kids.drop_last(), m, fuel);
        if has_children(rules, k.control_id) && m.contains_key(k.control_id) {
            prev + tree_layout(rules, Some(k.control_id), local_rect(m[k.control_id]), fuel)
        } else {
            prev
        }
    }
}

fn children(rules: &Vec<LayoutRule>, parent: Option<ControlId>) -> (r: Vec<LayoutRule>)
    ensures
        r@ == children_of(rules@, parent),
{
    let mut out: Vec<LayoutRule> = Vec::new();
    let mut i: usize = 0;
    while i < rules.len()
        invariant
            i <= rules@.len(),
            out@ == children_of(rules@.take(i as int), parent),
        decreases rules@.len() - i,
    {
        assert(rules@.take(i + 1).drop_last() =~= rules@.take(i as int));
        let r = rules[i];
        if r.parent_control_id == parent {
            out.push(r);
        }
        i = i + 1;
    }
    assert(rules@.take(rules@.len() as int) =~= rules@);
    out
}

fn parent_of_any(rules: &Vec<LayoutRule>, id: ControlId) -> (r: bool)
    ensures
        r == has_children(rules@, id),
{
    let mut i: usize = 0;
    while i < rules.len()
        invariant
            i <= rules@.len(),
            forall|j: int| 0 <= j < i ==> #[trigger] rules@[j].parent_control_id != Some(id),
        decreases rules@.len() - i,
    {
        if rules[i].parent_control_id == Some(id) {
            return true;
        }
        i = i + 1;
    }
    false
}

fn local_of(r: Rect) -> (out: Rect)
    ensures
        out == local_rect(r),
{
    let w: i64 = if r.right < r.left { 0 } else { r.right as i64 - r.left as i64 };
    let h: i64 = if r.bottom < r.top { 0 } else { r.bottom as i64 - r.top as i64 };
    Rect {
        left: 0,
        top: 0,
        right: if w > i32::MAX as i64 { i32::MAX } else { w as i32 },
        bottom: if h > i32::MAX as i64 { i32::MAX } else { h as i32 },
    }
}

fn push_tree(
    rules: &Vec<LayoutRule>,
    parent: Option<ControlId>,
    rect: Rect,
    fuel: usize,
    out: &mut Vec<Placement>,
)
    ensures
        final(out)@ == old(out)@ + tree_layout(rules@, parent, rect, fuel as nat),
    decreases fuel, 0nat,
{
    let kids = children(rules, parent);
    if fuel == 0 || kids.len() == 0 {
        assert(old(out)@ + tree_layout(rules@, parent, rect, fuel as nat) =~= old(out)@);
        return;
    }
    let sorted = sorted_by_order(&kids);
    let m = calculate_layout(rect, &kids);
    let ghost start = out@;
    let mut i: usize = 0;
    while i < sorted.len()
        invariant
            m.wf(),
            m@ == layout_of(rect, kids@),
            sorted@ == sort_by_order(kids@),
            i <= sorted@.len(),
            out@ == start + level_entries(parent, sorted@.take(i as int), m@),
        decreases sorted@.len() - i,
    {
        assert(sorted@.take(i + 1).drop_last() =~= sorted@.take(i as int));
        let k = sorted[i];
        if let Some(rc) = m.get(k.control_id) {
            out.push(Placement { parent, control_id: k.control_id, rect: rc });
        }
        assert(out@ =~= start + level_entries(parent, sorted@.take(i + 1), m@));
        i = i + 1;
    }
    assert(sorted@.take(sorted@.len() as int) =~= sorted@);
    let ghost mid = out@;
    push_descend(rules, &sorted, &m, fuel - 1, out);
    assert(final(out)@ =~= old(out)@ + tree_layout(rules@, parent, rect, fuel as nat));
}

fn push_descend(
    rules: &Vec<LayoutRule>,
    kids: &Vec<LayoutRule>,
    m: &IdMap<Rect>,
    fuel: usize,
    out: &mut Vec<Placement>,
)
    requires
        m.wf(),
    ensures
        final(out)@ == old(out)@ + descend(rules@, kids@, m@, fuel as nat),
    decreases fuel, kids@.len(),
{
    let ghost start = out@;
    let mut i: usize = 0;
    while i < kids.len()
        invariant
            m.wf(),
            i <= kids@.len(),
            out@ == start + descend(rules@, kids@.take(i as int), m@, fuel as nat),
        decreases kids@.len() - i,
    {
        assert(kids@.take(i + 1).drop_last() =~= kids@.take(i as int));
        let k = kids[i];
        if parent_of_any(rules, k.control_id) {
            if let Some(rc) = m.get(k.control_id) {
                push_tree(rules, Some(k.control_id), local_of(rc), fuel, out);
            }
        }
        assert(out@ =~= start + descend(rules@, kids@.take(i + 1), m@, fuel as nat));
        i = i + 1;
    }
    assert(kids@.take(kids@.len() as int) =~= kids@);
}

/// The whole window's layout: every rule reachable from the window's own
/// children, each in its parent's client coordinates. Nesting is followed at
/// most as many levels deep as there are rules, which any rule set without a
/// parent cycle stays within.
pub fn layout_plan(rules: &Vec<LayoutRule>, client: Rect) -> (r: Vec<Placement>)
    ensures
        r@ == tree_layout(rules@, None, client, rules@.len()),
{
    let mut out: Vec<Placement> = Vec::new();
    push_tree(rules, None, client, rules.len(), &mut out);
    assert(out@ =~= tree_layout(rules@, None, client, rules@.len()));
    out
}

// ---------------------------------------------------------------------------
// Applying a plan to native controls
// ---------------------------------------------------------------------------

/// One native reposition: where the control goes, in its parent's client
/// coordinates, and how high its native window is made.
#[derive(Clone, Copy, Debug, PartialEq, Eq, Structural)]
pub struct NativeMove {
    pub control_id: ControlId,
    pub handle: NativeHandle,
    pub left: i32,
    pub top: i32,
    pub width: i32,
    pub height: i32,
}

pub open spec fn extent(lo: i32, hi: i32) -> int {
    to_i32(if hi < lo { 0 } else { hi - lo }) as int
}

/// The move for a placement, when its control has a valid native handle.
pub open spec fn move_for(m: RegistryModel, p: Placement, dpi: i32) -> Option<NativeMove> {
    if m.handles.contains_key(p.control_id) && !m.handles[p.control_id].spec_is_invalid() {
        Some(
            NativeMove {
                control_id: p.control_id,
                handle: m.handles[p.control_id],
                left: p.rect.left,
                top: p.rect.top,
                width: extent(p.rect.left, p.rect.right) as i32,
                height: effective_height_spec(
                    m,
                    p.control_id,
                    extent(p.rect.top, p.rect.bottom) as i32,
                    dpi,
                ) as i32,
            },
        )
    } else {
        None
    }
}

fn extent_of(lo: i32, hi: i32) -> (r: i32)
    ensures
        r == extent(lo, hi),
{
    let d: i64 = if hi < lo { 0 } else { hi as i64 - lo as i64 };
    if d > i32::MAX as i64 {
        i32::MAX
    } else {
        d as i32
    }
}

/// The native move of one placement: `None` when the control has no valid
/// handle; combo boxes get the taller native height their dropdown needs.
pub fn native_move(data: &NativeWindowData, p: &Placement, dpi: i32) -> (r: Option<NativeMove>)
    requires
        data.wf(),
    ensures
        r == move_for(data@, *p, dpi),
{
    match data.get_control_hwnd(p.control_id) {
        Some(h) => {
            if h.is_invalid() {
                return None;
            }
            let height = extent_of(p.rect.top, p.rect.bottom);
            let native_height = data.effective_native_height_for_control(p.control_id, height, dpi);
            Some(NativeMove {
                control_id: p.control_id,
                handle: h,
                left: p.rect.left,
                top: p.rect.top,
                width: extent_of(p.rect.left, p.rect.right),
                height: native_height,
            })
        },
        None => None,
    }
}

/// The area a control occupied before, when the new placement moves it
/// elsewhere; it has to be repainted in the parent.
pub fn stale_area(data: &NativeWindowData, p: &Placement) -> (r: Option<Rect>)
    requires
        data.wf(),
    ensures
        data@.last_rects.contains_key(p.control_id) && data@.last_rects[p.control_id] != p.rect
            ==> r == Some(data@.last_rects[p.control_id]),
        !(data@.last_rects.contains_key(p.control_id) && data@.last_rects[p.control_id] != p.rect)
            ==> r is None,
{
    match data.get_last_layout_rect(p.control_id) {
        Some(old) => if old != p.rect {
            Some(old)
        } else {
            None
        },
        None => None,
    }
}

/// How a control is repainted after a layout pass.
#[derive(Clone, Copy, Debug, PartialEq, Eq, Structural)]
pub enum Repaint {
    Skip,
    /// A panel that holds other controls: repaint with background erase.
    Container,
    /// A content control; `reframe` asks for its frame to be recomputed first.
    Leaf { erase: bool, reframe: bool },
}

pub open spec fn repaint_spec(m: RegistryModel, rules: Seq<LayoutRule>, id: ControlId) -> Repaint {
    let kind = if m.kinds.contains_key(id) { Some(m.kinds[id]) } else { None };
    if has_children(rules, id) {
        if kind == Some(ControlKind::Static) {
            Repaint::Container
        } else {
            Repaint::Skip
        }
    } else {
        match kind {
            Some(k) => if k == ControlKind::TreeView || k == ControlKind::Edit || k
                == ControlKind::RichEdit || k == ControlKind::Splitter || k == ControlKind::Static
                || k == ControlKind::ComboBox || k == ControlKind::ProgressBar {
                let header = k == ControlKind::Static && m.styles.contains_key(id) && m.styles[id]
                    == StyleId::HeaderLabel;
                Repaint::Leaf {
                    erase: if m.suppress_erase && header {
                        false
                    } else {
                        k == ControlKind::TreeView || k == ControlKind::Edit || k
                            == ControlKind::Static || k == ControlKind::RichEdit
                    },
                    reframe: k == ControlKind::TreeView,
                }
            } else {
                Repaint::Skip
            },
            None => Repaint::Skip,
        }
    }
}

/// Decides the repaint of a control after its layout was applied: panels with
/// children are erased, content controls are refreshed (erasing unless they
/// repaint themselves fully, or are a header label while a drag suppresses
/// erasing), anything else is left alone.
pub fn repaint_for(data: &NativeWindowData, rules: &Vec<LayoutRule>, control_id: ControlId) -> (r: Repaint)
    requires
        data.wf(),
    ensures
        r == repaint_spec(data@, rules@, control_id),
{
    let kind = data.get_control_kind(control_id);
    if parent_of_any(rules, control_id) {
        return match kind {
            Some(ControlKind::Static) => Repaint::Container,
            _ => Repaint::Skip,
        };
    }
    match kind {
        Some(k) => {
            let content = match k {
                ControlKind::TreeView | ControlKind::Edit | ControlKind::RichEdit
                | ControlKind::Splitter | ControlKind::Static | ControlKind::ComboBox
                | ControlKind::ProgressBar => true,
                _ => false,
            };
            if !content {
                return Repaint::Skip;
            }
            let header = match (k, data.get_style_for_control(control_id)) {
                (ControlKind::Static, Some(StyleId::HeaderLabel)) => true,
                _ => false,
            };
            let erase = if data.suppresses_erasebkgnd() && header {
                false
            } else {
                match k {
                    ControlKind::TreeView | ControlKind::Edit | ControlKind::Static
                    | ControlKind::RichEdit => true,
                    _ => false,
                }
            };
            let reframe = match k {
                ControlKind::TreeView => true,
                _ => false,
            };
            Repaint::Leaf { erase, reframe }
        },
        None => Repaint::Skip,
    }
}

/// `m` with each placement's rectangle recorded in order.
pub open spec fn recorded(m: Map<ControlId, Rect>, plan: Seq<Placement>) -> Map<ControlId, Rect>
    decreases plan.len(),
{
    if plan.len() == 0 {
        m
    } else {
        recorded(m, plan.drop_last()).insert(plan.last().control_id, plan.last().rect)
    }
}

/// Remembers every placement as the control's last applied rectangle.
pub fn record_applied(data: &mut NativeWindowData, plan: &Vec<Placement>)
    requires
        old(data).wf(),
    ensures
        final(data).wf(),
        final(data)@ == (RegistryModel {
            last_rects: recorded(old(data)@.last_rects, plan@),
            ..old(data)@
        }),
{
    let mut i: usize = 0;
    while i < plan.len()
        invariant
            data.wf(),
            i <= plan@.len(),
            data@ == (RegistryModel {
                last_rects: recorded(old(data)@.last_rects, plan@.take(i as int)),
                ..old(data)@
            }),
        decreases plan@.len() - i,
    {
        assert(plan@.take(i + 1).drop_last() =~= plan@.take(i as int));
        let p = plan[i];
        data.record_layout_rect(p.control_id, p.rect);
        i = i + 1;
    }
    assert(plan@.take(plan@.len() as int) =~= plan@);
}

} // verus!
