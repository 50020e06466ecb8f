use vstd::prelude::*;

verus! {

/// Native scroll bar metrics as reported by the platform.
#[derive(Clone, Copy, Debug, PartialEq, Eq, Structural)]
pub struct ScrollMetrics {
    pub min: i32,
    pub max: i32,
    pub page: u32,
    pub pos: i32,
}

/// Scrollable distance: `max - min`, less the page size minus one when both are positive.
pub open spec fn scroll_range_spec(s: ScrollMetrics) -> int {
    let range = s.max - s.min;
    if s.page > 0 && range > 0 {
        range - (s.page - 1)
    } else {
        range
    }
}

pub open spec fn clamp_int(x: int, lo: int, hi: int) -> int {
    if x < lo {
        lo
    } else if x > hi {
        hi
    } else {
        x
    }
}

/// Position as a percentage of the scrollable distance, in `0..=100`.
pub open spec fn scroll_percentage_spec(s: ScrollMetrics) -> int {
    let range = scroll_range_spec(s);
    if range <= 0 {
        0
    } else {
        clamp_int(clamp_int(s.pos - s.min, 0, range) * 100 / range, 0, 100)
    }
}

/// Position that shows `percent` (capped at 100) of the scrollable distance.
pub open spec fn position_for_percent_spec(s: ScrollMetrics, percent: int) -> Option<int> {
    let range = scroll_range_spec(s);
    if range <= 0 {
        None
    } else {
        let p = if percent > 100 { 100 } else { percent };
        Some(clamp_int(s.min + range * p / 100, s.min as int, s.max as int))
    }
}

pub fn scroll_range(s: ScrollMetrics) -> (r: i64)
    ensures
        r == scroll_range_spec(s),
{
    let range: i64 = s.max as i64 - s.min as i64;
    if s.page > 0 && range > 0 {
        range - (s.page as i64 - 1)
    } else {
        range
    }
}

/// Converts scroll bar metrics into a 0-100 percentage.
pub fn scroll_percentage(s: ScrollMetrics) -> (r: u32)
    ensures
        r == scroll_percentage_spec(s),
        r <= 100,
{
    let range = scroll_range(s);
    if range <= 0 {
        return 0;
    }
    let mut offset: i64 = s.pos as i64 - s.min as i64;
    if offset < 0 {
        offset = 0;
    }
    if offset > range {
        offset = range;
    }
    assert(0 <= offset * 100 <= range * 100) by (nonlinear_arith)
        requires 0 <= offset <= range;
    proof {
        let o = offset as int;
        let g = range as int;
        vstd::arithmetic::div_mod::lemma_div_is_ordered(o * 100, g * 100, g);
        vstd::arithmetic::div_mod::lemma_div_pos_is_pos(o * 100, g);
        assert(g * 100 / g == 100) by {
            vstd::arithmetic::div_mod::lemma_div_by_multiple(100, g);
            vstd::arithmetic::mul::lemma_mul_is_commutative(g, 100);
        }
    }
    let pct = (offset * 100) / range;
    pct as u32
}

/// The position a programmatic scroll to `percent` should set, or `None`
/// when the bar has nothing to scroll.
pub fn position_for_percent(s: ScrollMetrics, percent: u32) -> (r: Option<i32>)
    ensures
        match position_for_percent_spec(s, percent as int) {
            Some(p) => r == Some(p as i32),
            None => r is None,
        },
{
    let range = scroll_range(s);
    if range <= 0 {
        return None;
    }
    let p: i64 = if percent > 100 { 100 } else { percent as i64 };
    assert(0 <= range * p <= range * 100) by (nonlinear_arith)
        requires 0 < range, 0 <= p <= 100;
    assert(range <= 0x1_0000_0000);
    let target = s.min as i64 + (range * p) / 100;
    let mut pos = target;
    if pos < s.min as i64 {
        pos = s.min as i64;
    }
    if pos > s.max as i64 {
        pos = s.max as i64;
    }
    Some(pos as i32)
}

} // verus!
