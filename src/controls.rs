use vstd::prelude::*;

use crate::types::{Color, Rect};

verus! {

// ---------------------------------------------------------------------------
// Native style bits used when creating controls
// ---------------------------------------------------------------------------

pub const WS_CHILD: u32 = 0x4000_0000;
pub const WS_VISIBLE: u32 = 0x1000_0000;
pub const WS_CLIPCHILDREN: u32 = 0x0200_0000;
pub const WS_GROUP: u32 = 0x0002_0000;
pub const WS_TABSTOP: u32 = 0x0001_0000;
pub const BS_AUTOCHECKBOX: u32 = 0x0000_0003;
pub const BS_AUTORADIOBUTTON: u32 = 0x0000_0009;

/// Style of a check box: a visible, tab-reachable child that toggles itself.
pub fn compute_checkbox_style() -> (r: u32)
    ensures
        r == WS_CHILD | WS_VISIBLE | WS_TABSTOP | BS_AUTOCHECKBOX,
{
    WS_CHILD | WS_VISIBLE | WS_TABSTOP | BS_AUTOCHECKBOX
}

/// Style of a radio button; the first of a group also starts a tab group.
pub fn compute_radiobutton_style(group_start: bool) -> (r: u32)
    ensures
        group_start ==> r == WS_CHILD | WS_VISIBLE | WS_GROUP | WS_TABSTOP | BS_AUTORADIOBUTTON,
        !group_start ==> r == WS_CHILD | WS_VISIBLE | BS_AUTORADIOBUTTON,
{
    if group_start {
        WS_CHILD | WS_VISIBLE | WS_GROUP | WS_TABSTOP | BS_AUTORADIOBUTTON
    } else {
        WS_CHILD | WS_VISIBLE | BS_AUTORADIOBUTTON
    }
}

/// Style of a panel: a visible child that clips its children.
pub fn panel_style() -> (r: u32)
    ensures
        r == WS_CHILD | WS_VISIBLE | WS_CLIPCHILDREN,
{
    WS_CHILD | WS_VISIBLE | WS_CLIPCHILDREN
}

/// The native check state for a boolean: 1 when checked, 0 otherwise.
pub fn win32_check_state(checked: bool) -> (r: usize)
    ensures
        r == (if checked { 1usize } else { 0usize }),
{
    if checked {
        1
    } else {
        0
    }
}

// ---------------------------------------------------------------------------
// Colors
// ---------------------------------------------------------------------------

/// Native color value of `c`: blue, green, red from the high byte down.
pub open spec fn colorref_spec(c: Color) -> u32 {
    (c.r as int + 256 * c.g as int + 65536 * c.b as int) as u32
}

pub fn color_to_colorref(color: &Color) -> (r: u32)
    ensures
        r == colorref_spec(*color),
{
    let r = color.r as u32;
    let g = color.g as u32;
    let b = color.b as u32;
    assert(r | (g << 8) | (b << 16) == r + 256 * g + 65536 * b) by (bit_vector)
        requires r < 256, g < 256, b < 256;
    r | (g << 8) | (b << 16)
}

pub fn colorref_to_color(cr: u32) -> (c: Color)
    ensures
        c.r == cr % 256,
        c.g == (cr / 256) % 256,
        c.b == (cr / 65536) % 256,
{
    assert(cr & 0xFF == cr % 256) by (bit_vector);
    assert((cr >> 8) & 0xFF == (cr / 256) % 256) by (bit_vector);
    assert((cr >> 16) & 0xFF == (cr / 65536) % 256) by (bit_vector);
    Color { r: (cr & 0xFF) as u8, g: ((cr >> 8) & 0xFF) as u8, b: ((cr >> 16) & 0xFF) as u8 }
}

pub open spec fn lighten_channel(ch: int, amount: int) -> int {
    (if ch < 255 - amount { ch } else { 255 - amount }) + amount
}

/// Brightens each channel of a native color by `amount`, saturating at 255.
pub fn lighten_colorref(c: u32, amount: u32) -> (r: u32)
    requires
        amount <= 255,
    ensures
        r == lighten_channel((c % 256) as int, amount as int) + 256 * lighten_channel(
            ((c / 256) % 256) as int,
            amount as int,
        ) + 65536 * lighten_channel(((c / 65536) % 256) as int, amount as int),
{
    let px = colorref_to_color(c);
    let cap = 255 - amount;
    let r0 = px.r as u32;
    let g0 = px.g as u32;
    let b0 = px.b as u32;
    let r = (if r0 < cap { r0 } else { cap }) + amount;
    let g = (if g0 < cap { g0 } else { cap }) + amount;
    let b = (if b0 < cap { b0 } else { cap }) + amount;
    assert(r | (g << 8) | (b << 16) == r + 256 * g + 65536 * b) by (bit_vector)
        requires r < 256, g < 256, b < 256;
    r | (g << 8) | (b << 16)
}

pub fn default_background() -> (c: Color)
    ensures
        c == (Color { r: 0x2E, g: 0x32, b: 0x39 }),
{
    Color { r: 0x2E, g: 0x32, b: 0x39 }
}

pub fn default_text() -> (c: Color)
    ensures
        c == (Color { r: 0xE0, g: 0xE5, b: 0xEC }),
{
    Color { r: 0xE0, g: 0xE5, b: 0xEC }
}

pub fn default_accent() -> (c: Color)
    ensures
        c == (Color { r: 0x00, g: 0x80, b: 0xFF }),
{
    Color { r: 0x00, g: 0x80, b: 0xFF }
}

/// 40% of `a` blended with 60% of `b`, rounded down.
pub open spec fn blend_spec(a: u8, b: u8) -> int {
    (a * 40 + b * 60) / 100
}

/// `base` lifted by a 6% white overlay (15 levels), saturating at 255.
pub open spec fn overlay_spec(base: u8) -> int {
    if base + 15 > 255 {
        255
    } else {
        base + 15
    }
}

fn blend(a: u8, b: u8) -> (r: u8)
    ensures
        r == blend_spec(a, b),
{
    let v = (a as u16 * 40 + b as u16 * 60) / 100;
    v as u8
}

fn overlay(base: u8) -> (r: u8)
    ensures
        r == overlay_spec(base),
{
    let extra: u16 = (255u16 * 6) / 100;
    let v = base as u16 + extra;
    if v > 255 {
        255
    } else {
        v as u8
    }
}

/// Colors of a tab bar; the inactive text and hover fill derive from the primaries.
#[derive(Clone, Copy, Debug, PartialEq, Eq, Structural)]
pub struct TabBarPalette {
    pub background: Color,
    pub text_active: Color,
    pub text_inactive: Color,
    pub hover_fill: Color,
    pub accent: Color,
}

impl TabBarPalette {
    pub fn new(background: Color, text: Color, accent: Color) -> (p: Self)
        ensures
            p.background == background,
            p.text_active == text,
            p.accent == accent,
            p.text_inactive.r == blend_spec(text.r, background.r),
            p.text_inactive.g == blend_spec(text.g, background.g),
            p.text_inactive.b == blend_spec(text.b, background.b),
            p.hover_fill.r == overlay_spec(background.r),
            p.hover_fill.g == overlay_spec(background.g),
            p.hover_fill.b == overlay_spec(background.b),
    {
        let text_inactive = Color {
            r: blend(text.r, background.r),
            g: blend(text.g, background.g),
            b: blend(text.b, background.b),
        };
        let hover_fill = Color {
            r: overlay(background.r),
            g: overlay(background.g),
            b: overlay(background.b),
        };
        TabBarPalette { background, text_active: text, text_inactive, hover_fill, accent }
    }
}

impl Default for TabBarPalette {
    fn default() -> (p: Self)
        ensures
            p.background == (Color { r: 0x2E, g: 0x32, b: 0x39 }),
            p.text_active == (Color { r: 0xE0, g: 0xE5, b: 0xEC }),
            p.accent == (Color { r: 0x00, g: 0x80, b: 0xFF }),
    {
        TabBarPalette::new(default_background(), default_text(), default_accent())
    }
}

/// Native colors of a dark menu bar.
#[derive(Clone, Copy, Debug, PartialEq, Eq, Structural)]
pub struct MenuBarColors {
    pub bar_bg: u32,
    pub text_normal: u32,
    pub hot_bg: u32,
    pub pushed_bg: u32,
}

/// Menu bar colors from the window background style's colors, each falling
/// back to the default dark palette; hover and pressed items are the bar
/// color lightened by 20 and 35 levels.
pub fn menu_bar_colors(background: Option<Color>, text: Option<Color>) -> (r: MenuBarColors)
    ensures
        r.bar_bg == colorref_spec(
            match background {
                Some(c) => c,
                None => Color { r: 0x2E, g: 0x32, b: 0x39 },
            },
        ),
        r.text_normal == colorref_spec(
            match text {
                Some(c) => c,
                None => Color { r: 0xE0, g: 0xE5, b: 0xEC },
            },
        ),
        r.hot_bg == lighten_channel((r.bar_bg % 256) as int, 20) + 256 * lighten_channel(
            ((r.bar_bg / 256) % 256) as int,
            20,
        ) + 65536 * lighten_channel(((r.bar_bg / 65536) % 256) as int, 20),
        r.pushed_bg == lighten_channel((r.bar_bg % 256) as int, 35) + 256 * lighten_channel(
            ((r.bar_bg / 256) % 256) as int,
            35,
        ) + 65536 * lighten_channel(((r.bar_bg / 65536) % 256) as int, 35),
{
    let bg = match background {
        Some(c) => c,
        None => default_background(),
    };
    let fg = match text {
        Some(c) => c,
        None => default_text(),
    };
    let bar_bg = color_to_colorref(&bg);
    MenuBarColors {
        bar_bg,
        text_normal: color_to_colorref(&fg),
        hot_bg: lighten_colorref(bar_bg, 20),
        pushed_bg: lighten_colorref(bar_bg, 35),
    }
}

// ---------------------------------------------------------------------------
// Tab bar interaction
// ---------------------------------------------------------------------------

pub open spec fn rect_contains(r: Rect, x: i32, y: i32) -> bool {
    r.left <= x < r.right && r.top <= y < r.bottom
}

/// Index of the first rectangle that contains the point.
pub fn hit_test(rects: &[Rect], x: i32, y: i32) -> (r: Option<usize>)
    ensures
        match r {
            Some(i) => i < rects@.len() && rect_contains(rects@[i as int], x, y) && forall|j: int|
                0 <= j < i ==> !rect_contains(#[trigger] rects@[j], x, y),
            None => forall|j: int| 0 <= j < rects@.len() ==> !rect_contains(#[trigger] rects@[j], x, y),
        },
{
    let mut i: usize = 0;
    while i < rects.len()
        invariant
            i <= rects@.len(),
            forall|j: int| 0 <= j < i ==> !rect_contains(#[trigger] rects@[j], x, y),
        decreases rects@.len() - i,
    {
        let r = rects[i];
        if x >= r.left && x < r.right && y >= r.top && y < r.bottom {
            return Some(i);
        }
        i = i + 1;
    }
    None
}

/// Per-instance state of a tab bar.
pub struct TabBarState {
    pub items: Vec<String>,
    pub selected_index: usize,
    pub hover_index: Option<usize>,
    pub tracking_mouse: bool,
    pub item_rects: Vec<Rect>,
    pub palette: TabBarPalette,
}

impl TabBarState {
    pub fn new(items: Vec<String>) -> (s: Self)
        ensures
            s.items@ == items@,
            s.selected_index == 0,
            s.hover_index is None,
            !s.tracking_mouse,
            s.item_rects@.len() == 0,
            s.palette.background == (Color { r: 0x2E, g: 0x32, b: 0x39 }),
    {
        TabBarState {
            items,
            selected_index: 0,
            hover_index: None,
            tracking_mouse: false,
            item_rects: Vec::new(),
            palette: TabBarPalette::default(),
        }
    }

    /// A click at `(x, y)`: selects the tab under it when that tab is not
    /// already selected, and returns the newly selected index to announce.
    pub fn click(&mut self, x: i32, y: i32) -> (r: Option<usize>)
        ensures
            final(self).items@ == old(self).items@,
            final(self).item_rects@ == old(self).item_rects@,
            final(self).hover_index == old(self).hover_index,
            match r {
                Some(i) => i != old(self).selected_index && final(self).selected_index == i && i
                    < old(self).item_rects@.len() && rect_contains(old(self).item_rects@[i as int], x, y),
                None => final(self).selected_index == old(self).selected_index,
            },
            r is None ==> (forall|j: int|
                0 <= j < old(self).item_rects@.len() ==> !rect_contains(
                    #[trigger] old(self).item_rects@[j],
                    x,
                    y,
                )) || (old(self).selected_index < old(self).item_rects@.len() && rect_contains(
                old(self).item_rects@[old(self).selected_index as int],
                x,
                y,
            ) && forall|k: int|
                0 <= k < old(self).selected_index ==> !rect_contains(
                    #[trigger] old(self).item_rects@[k],
                    x,
                    y,
                )),
    {
        match hit_test(self.item_rects.as_slice(), x, y) {
            Some(i) => {
                if i != self.selected_index {
                    self.selected_index = i;
                    Some(i)
                } else {
                    None
                }
            },
            None => None,
        }
    }

    /// Pointer moved to `(x, y)`: records the tab under it; true when that changed.
    pub fn hover(&mut self, x: i32, y: i32) -> (changed: bool)
        ensures
            final(self).items@ == old(self).items@,
            final(self).item_rects@ == old(self).item_rects@,
            final(self).selected_index == old(self).selected_index,
            changed == (final(self).hover_index != old(self).hover_index),
            match final(self).hover_index {
                Some(i) => i < old(self).item_rects@.len() && rect_contains(old(self).item_rects@[i as int], x, y),
                None => forall|j: int| 0 <= j < old(self).item_rects@.len() ==> !rect_contains(#[trigger] old(self).item_rects@[j], x, y),
            },
    {
        let h = hit_test(self.item_rects.as_slice(), x, y);
        let changed = h != self.hover_index;
        self.hover_index = h;
        changed
    }
}

// ---------------------------------------------------------------------------
// Splitter
// ---------------------------------------------------------------------------

#[derive(Clone, Copy, Debug, PartialEq, Eq, Structural)]
pub enum SplitterOrientation {
    Horizontal,
    Vertical,
}

/// Drag and hover state of one splitter.
#[derive(Clone, Copy, Debug, PartialEq, Eq, Structural)]
pub struct SplitterInternalState {
    pub orientation: SplitterOrientation,
    pub is_dragging: bool,
    pub is_hovered: bool,
}

impl SplitterInternalState {
    pub fn new(orientation: SplitterOrientation) -> (s: Self)
        ensures
            s.orientation == orientation,
            !s.is_dragging,
            !s.is_hovered,
    {
        SplitterInternalState { orientation, is_dragging: false, is_hovered: false }
    }
}

// ---------------------------------------------------------------------------
// Combo box geometry and selection
// ---------------------------------------------------------------------------

/// DPI assumed when the platform reports none.
pub const DEFAULT_DPI: i32 = 96;
/// Minimum dropdown height, in pixels at the default DPI.
pub const FALLBACK_DROPDOWN_HEIGHT_PX: i32 = 260;
/// Rows shown when the item height is unknown.
pub const FALLBACK_MIN_VISIBLE_ITEMS: usize = 12;

/// `px` (at least 1) scaled from the default DPI to `dpi` (at least the
/// default), rounded down and saturated at `i32::MAX`.
pub open spec fn scale_by_dpi_spec(px: i32, dpi: i32) -> int {
    let p: int = if px < 1 { 1 } else { px as int };
    let d: int = if dpi < 96 { 96 } else { dpi as int };
    let v = p * d / 96;
    if v > i32::MAX { i32::MAX as int } else { v }
}

pub fn scale_by_dpi(px_at_96_dpi: i32, dpi: i32) -> (r: i32)
    ensures
        r == scale_by_dpi_spec(px_at_96_dpi, dpi),
{
    let p: i64 = if px_at_96_dpi < 1 { 1 } else { px_at_96_dpi as i64 };
    let d: i64 = if dpi < DEFAULT_DPI { 96 } else { dpi as i64 };
    assert(0 < p * d <= 0x4000_0000_0000_0000) by (nonlinear_arith)
        requires 1 <= p <= 0x8000_0000, 96 <= d <= 0x8000_0000;
    let v = p * d / 96;
    if v > i32::MAX as i64 {
        i32::MAX
    } else {
        v as i32
    }
}

pub fn fallback_min_dropdown_height_px() -> (r: i32)
    ensures
        r == FALLBACK_DROPDOWN_HEIGHT_PX,
{
    FALLBACK_DROPDOWN_HEIGHT_PX
}

/// Height a combo box's native window needs so that its dropdown is usable.
pub fn min_dropdown_height_px(base_height: i32, dpi: i32) -> (r: i32)
    ensures
        r == (if base_height >= scale_by_dpi_spec(FALLBACK_DROPDOWN_HEIGHT_PX, dpi) {
            base_height as int
        } else {
            scale_by_dpi_spec(FALLBACK_DROPDOWN_HEIGHT_PX, dpi)
        }),
{
    let scaled = scale_by_dpi(FALLBACK_DROPDOWN_HEIGHT_PX, dpi);
    if base_height >= scaled {
        base_height
    } else {
        scaled
    }
}

/// A dropdown whose native window is shorter than the minimum dropdown
/// height for `dpi` needs its visible-row policy applied again.
pub fn dropdown_needs_heal(current_height: i32, dpi: i32) -> (r: bool)
    ensures
        r == (current_height < scale_by_dpi_spec(FALLBACK_DROPDOWN_HEIGHT_PX, dpi)),
{
    current_height < scale_by_dpi(FALLBACK_DROPDOWN_HEIGHT_PX, dpi)
}

/// Rows a dropdown should show: its minimum height over the item height,
/// kept within 6..=20; the fallback count when the item height is not positive.
pub open spec fn min_visible_items_spec(item_height: i32, dpi: i32) -> int {
    if item_height <= 0 {
        FALLBACK_MIN_VISIBLE_ITEMS as int
    } else {
        let scaled = scale_by_dpi_spec(FALLBACK_DROPDOWN_HEIGHT_PX, dpi);
        let target = if scaled >= item_height { scaled } else { item_height as int };
        let rows = target / item_height as int;
        if rows < 6 {
            6
        } else if rows > 20 {
            20
        } else {
            rows
        }
    }
}

pub fn compute_min_visible_items(item_height: i32, dpi: i32) -> (r: usize)
    ensures
        r == min_visible_items_spec(item_height, dpi),
{
    if item_height <= 0 {
        return FALLBACK_MIN_VISIBLE_ITEMS;
    }
    let target = min_dropdown_height_px(item_height, dpi);
    let rows = target / item_height;
    if rows < 6 {
        6
    } else if rows > 20 {
        20
    } else {
        rows as usize
    }
}

/// A combo box's reported selection: negative values mean "no selection".
pub fn selection_from_raw_index(raw: isize) -> (r: Option<usize>)
    ensures
        raw < 0 ==> r is None,
        raw >= 0 ==> r == Some(raw as usize),
{
    if raw < 0 {
        None
    } else {
        Some(raw as usize)
    }
}

/// The native selection argument for an optional index (-1 clears it).
pub fn raw_index_from_selection(selection: Option<usize>) -> (r: isize)
    ensures
        match selection {
            Some(i) => i <= isize::MAX ==> r == i as isize,
            None => r == -1,
        },
        selection is Some && selection->Some_0 > isize::MAX ==> r == -1,
{
    match selection {
        Some(i) => if i <= isize::MAX as usize {
            i as isize
        } else {
            -1
        },
        None => -1,
    }
}

// ---------------------------------------------------------------------------
// Progress bar
// ---------------------------------------------------------------------------

/// Range handed to a progress bar: `max` is raised to `min` and both are kept
/// within the non-negative `i32` range, with `min <= max`.
pub fn progress_range(min: u32, max: u32) -> (r: (u32, u32))
    ensures
        r.1 == (if max < min { min } else { max }) || (r.1 == i32::MAX && (if max < min { min } else { max }) > i32::MAX),
        r.1 <= i32::MAX,
        r.0 == (if min < r.1 { min } else { r.1 }),
{
    let hi = if max < min { min } else { max };
    let capped_max = if hi > i32::MAX as u32 { i32::MAX as u32 } else { hi };
    let capped_min = if min < capped_max { min } else { capped_max };
    (capped_min, capped_max)
}

/// Position handed to a progress bar, kept within the non-negative `i32` range.
pub fn progress_position(position: u32) -> (r: u32)
    ensures
        r == (if position > i32::MAX as u32 { i32::MAX as u32 } else { position }),
{
    if position > i32::MAX as u32 {
        i32::MAX as u32
    } else {
        position
    }
}

// ---------------------------------------------------------------------------
// Word extraction from message parameters
// ---------------------------------------------------------------------------

pub fn loword(v: usize) -> (r: i32)
    ensures
        r == v % 65536,
{
    assert(v & 0xFFFF == v % 65536) by (bit_vector);
    (v & 0xFFFF) as i32
}

pub fn hiword(v: usize) -> (r: i32)
    ensures
        r == (v / 65536) % 65536,
{
    assert((v >> 16) & 0xFFFF == (v / 65536) % 65536) by (bit_vector);
    ((v >> 16) & 0xFFFF) as i32
}

} // verus!
