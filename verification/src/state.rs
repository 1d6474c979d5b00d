//! The top-level application state: the time window (range, step, offset
//! from now) with its zoom, pan and live-mode policies, the inspection
//! cursor, and the interaction mode. Durations are nanoseconds and
//! timestamps nanoseconds since the Unix epoch, the resolutions the
//! terminal front end converts to and from at the boundary.

use vstd::arithmetic::power2::pow2;
use vstd::prelude::*;

use crate::expand::VarMap;
use crate::panel::PanelState;

verus! {

/// The interaction modes.
#[derive(Clone, Copy, Debug, PartialEq, Eq, Structural)]
pub enum AppMode {
    Normal,
    Search,
    Fullscreen,
    Inspect,
    FullscreenInspect,
}

pub const NS_PER_SEC: u64 = 1_000_000_000;

/// A requested range clamped into the window bounds.
pub open spec fn clamp_range(range_ns: u64) -> u64 {
    if range_ns < MIN_RANGE_NS {
        MIN_RANGE_NS
    } else if range_ns > MAX_RANGE_NS {
        MAX_RANGE_NS
    } else {
        range_ns
    }
}

/// A requested step clamped to a positive, bounded resolution.
pub open spec fn clamp_step(step_ns: u64) -> u64 {
    if step_ns < 1 {
        1
    } else if step_ns > MAX_RANGE_NS {
        MAX_RANGE_NS
    } else {
        step_ns
    }
}

/// The smallest query range: ten seconds.
pub const MIN_RANGE_NS: u64 = 10_000_000_000;

/// The largest query range: seven days.
pub const MAX_RANGE_NS: u64 = 604_800_000_000_000;

/// How far back the window can be panned; offsets saturate here so that
/// window arithmetic stays within the timestamp type.
pub const MAX_TIME_OFFSET_NS: u64 = 4_000_000_000_000_000_000;

/// The latest clock reading the state machine accepts, in whole seconds.
pub const MAX_NOW_SECS: i64 = 4_000_000_000;

/// Global application state.
#[derive(Debug)]
pub struct AppState {
    /// Query look-back span, nanoseconds.
    pub range_ns: u64,
    /// Query step resolution, nanoseconds.
    pub step_ns: u64,
    /// Data refresh cadence, nanoseconds.
    pub refresh_every_ns: u64,
    /// The panels on display.
    pub panels: Vec<PanelState>,
    /// Vertical scroll offset, in panel rows.
    pub vertical_scroll: usize,
    /// Dashboard title.
    pub title: String,
    /// Whether the debug bar is shown.
    pub debug_bar: bool,
    /// Template variables.
    pub vars: VarMap,
    /// Panels skipped during import.
    pub skipped_panels: usize,
    /// Index of the selected panel.
    pub selected_panel: usize,
    /// How far back from now the window's end sits; zero means live.
    pub time_offset_ns: u64,
    /// Current interaction mode.
    pub mode: AppMode,
    /// Search query text (meaningful in search mode).
    pub search_query: String,
    /// Indices of the panels matching the search query.
    pub search_results: Vec<usize>,
    /// Inspection cursor timestamp, nanoseconds since the epoch.
    pub cursor_ns: Option<i64>,
}

impl AppState {
    /// The state's standing invariant: the range within its clamps, the
    /// step positive and bounded, the offset within its saturation bound,
    /// the cursor within timestamp arithmetic bounds, the variable map
    /// well formed, and every panel's legend list parallel to its
    /// expressions.
    pub open spec fn wf(self) -> bool {
        &&& MIN_RANGE_NS <= self.range_ns <= MAX_RANGE_NS
        &&& 1 <= self.step_ns <= MAX_RANGE_NS
        &&& self.time_offset_ns <= MAX_TIME_OFFSET_NS
        &&& (match self.cursor_ns {
            Some(c) => -6_000_000_000_000_000_000 <= c <= 6_000_000_000_000_000_000,
            None => true,
        })
        &&& self.vars.wf()
        &&& forall|i: int| 0 <= i < self.panels@.len() ==> (#[trigger] self.panels@[i]).wf()
    }

    /// A fresh state: the range and step clamped into their bounds, live
    /// mode, normal interaction, nothing searched and no cursor.
    pub fn new(
        range_ns: u64,
        step_ns: u64,
        refresh_every_ns: u64,
        title: String,
        panels: Vec<PanelState>,
        skipped_panels: usize,
    ) -> (r: AppState)
        requires
            forall|i: int| 0 <= i < panels@.len() ==> (#[trigger] panels@[i]).wf(),
        ensures
            r.wf(),
            r.range_ns == clamp_range(range_ns),
            r.step_ns == clamp_step(step_ns),
            r.refresh_every_ns == refresh_every_ns,
            r.panels == panels,
            r.vertical_scroll == 0,
            r.title == title,
            r.debug_bar == false,
            r.vars.pairs_view() =~= Seq::<(Seq<char>, Seq<char>)>::empty(),
            r.skipped_panels == skipped_panels,
            r.selected_panel == 0,
            r.time_offset_ns == 0,
            r.mode == AppMode::Normal,
            r.search_query@ =~= Seq::<char>::empty(),
            r.search_results@ =~= Seq::<usize>::empty(),
            r.cursor_ns is None,
    {
        let range = if range_ns < MIN_RANGE_NS {
            MIN_RANGE_NS
        } else if range_ns > MAX_RANGE_NS {
            MAX_RANGE_NS
        } else {
            range_ns
        };
        let step = if step_ns < 1 {
            1
        } else if step_ns > MAX_RANGE_NS {
            MAX_RANGE_NS
        } else {
            step_ns
        };
        AppState {
            range_ns: range,
            step_ns: step,
            refresh_every_ns,
            panels,
            vertical_scroll: 0,
            title,
            debug_bar: false,
            vars: VarMap::new(),
            skipped_panels,
            selected_panel: 0,
            time_offset_ns: 0,
            mode: AppMode::Normal,
            search_query: String::new(),
            search_results: Vec::new(),
            cursor_ns: None,
        }
    }

    /// All fields except the window (range and offset), the mode-scoped
    /// state (mode, search, cursor), the scroll, the selection, the debug
    /// flag and the panels are as in `other`.
    pub open spec fn same_config(self, other: AppState) -> bool {
        &&& self.step_ns == other.step_ns
        &&& self.refresh_every_ns == other.refresh_every_ns
        &&& self.title == other.title
        &&& self.vars == other.vars
        &&& self.skipped_panels == other.skipped_panels
    }

    /// Everything except the range is as in `other`.
    pub open spec fn same_but_range(self, other: AppState) -> bool {
        &&& self.same_config(other)
        &&& self.panels == other.panels
        &&& self.vertical_scroll == other.vertical_scroll
        &&& self.debug_bar == other.debug_bar
        &&& self.selected_panel == other.selected_panel
        &&& self.time_offset_ns == other.time_offset_ns
        &&& self.mode == other.mode
        &&& self.search_query == other.search_query
        &&& self.search_results == other.search_results
        &&& self.cursor_ns == other.cursor_ns
    }

    /// Everything except the time offset is as in `other`.
    pub open spec fn same_but_offset(self, other: AppState) -> bool {
        &&& self.same_config(other)
        &&& self.panels == other.panels
        &&& self.vertical_scroll == other.vertical_scroll
        &&& self.debug_bar == other.debug_bar
        &&& self.selected_panel == other.selected_panel
        &&& self.range_ns == other.range_ns
        &&& self.mode == other.mode
        &&& self.search_query == other.search_query
        &&& self.search_results == other.search_results
        &&& self.cursor_ns == other.cursor_ns
    }

    /// Everything except the cursor is as in `other`.
    pub open spec fn same_but_cursor(self, other: AppState) -> bool {
        &&& self.same_config(other)
        &&& self.panels == other.panels
        &&& self.vertical_scroll == other.vertical_scroll
        &&& self.debug_bar == other.debug_bar
        &&& self.selected_panel == other.selected_panel
        &&& self.range_ns == other.range_ns
        &&& self.time_offset_ns == other.time_offset_ns
        &&& self.mode == other.mode
        &&& self.search_query == other.search_query
        &&& self.search_results == other.search_results
    }

    /// Halve the range, clamped below at ten seconds.
    pub fn zoom_in(&mut self)
        requires
            old(self).wf(),
        ensures
            final(self).wf(),
            final(self).range_ns == zoomed_in(old(self).range_ns),
            final(self).same_but_range(*old(self)),
    {
        self.range_ns = self.range_ns / 2;
        if self.range_ns < MIN_RANGE_NS {
            self.range_ns = MIN_RANGE_NS;
        }
    }

    /// Double the range, clamped above at seven days.
    pub fn zoom_out(&mut self)
        requires
            old(self).wf(),
        ensures
            final(self).wf(),
            final(self).range_ns == zoomed_out(old(self).range_ns),
            final(self).same_but_range(*old(self)),
    {
        if self.range_ns > MAX_RANGE_NS / 2 {
            self.range_ns = MAX_RANGE_NS;
        } else {
            self.range_ns = self.range_ns * 2;
        }
    }

    /// Shift the window back by a quarter of the range, saturating at the
    /// offset bound.
    pub fn pan_left(&mut self)
        requires
            old(self).wf(),
        ensures
            final(self).wf(),
            final(self).time_offset_ns == panned_left(
                old(self).time_offset_ns,
                old(self).range_ns,
            ),
            final(self).same_but_offset(*old(self)),
    {
        let shift = self.range_ns / 4;
        if self.time_offset_ns > MAX_TIME_OFFSET_NS - shift {
            self.time_offset_ns = MAX_TIME_OFFSET_NS;
        } else {
            self.time_offset_ns = self.time_offset_ns + shift;
        }
    }

    /// Shift the window forward by a quarter of the range; an offset at or
    /// below one shift lands exactly on zero, re-entering live mode.
    pub fn pan_right(&mut self)
        requires
            old(self).wf(),
        ensures
            final(self).wf(),
            final(self).time_offset_ns == panned_right(
                old(self).time_offset_ns,
                old(self).range_ns,
            ),
            final(self).same_but_offset(*old(self)),
    {
        let shift = self.range_ns / 4;
        if self.time_offset_ns > shift {
            self.time_offset_ns = self.time_offset_ns - shift;
        } else {
            self.time_offset_ns = 0;
        }
    }

    /// Return to live mode.
    pub fn reset_to_live(&mut self)
        requires
            old(self).wf(),
        ensures
            final(self).wf(),
            final(self).time_offset_ns == 0,
            final(self).same_but_offset(*old(self)),
    {
        self.time_offset_ns = 0;
    }

    /// Whether the window ends at now.
    pub fn is_live(&self) -> (r: bool)
        ensures
            r == (self.time_offset_ns == 0),
    {
        self.time_offset_ns == 0
    }

    /// Move the inspection cursor one step left or right, the result
    /// clamped into the window visible at `now_s`; with no cursor set,
    /// seed it at the window's midpoint instead.
    pub fn move_cursor(&mut self, direction: i32, now_s: i64)
        requires
            old(self).wf(),
            -1 <= direction <= 1,
            0 <= now_s <= MAX_NOW_SECS,
        ensures
            final(self).wf(),
            final(self).same_but_cursor(*old(self)),
            ({
                let end = window_end_ns(now_s, old(self).time_offset_ns);
                let start = end - old(self).range_ns;
                final(self).cursor_ns == (match old(self).cursor_ns {
                    Some(c) => {
                        let nc = c + direction * old(self).step_ns;
                        Some(
                            (if nc < start {
                                start
                            } else if nc > end {
                                end
                            } else {
                                nc
                            }) as i64,
                        )
                    },
                    None => Some((start + old(self).range_ns as int / 2) as i64),
                })
            }),
    {
        let end: i64 = window_end(now_s, self.time_offset_ns);
        let start_wide: i128 = end as i128 - self.range_ns as i128;
        let start: i64 = start_wide as i64;
        proof {
            assert(start == end - self.range_ns);
        }
        match self.cursor_ns {
            Some(c) => {
                proof {
                    assert(-(self.step_ns as int) <= direction * self.step_ns <= self.step_ns
                        as int) by (nonlinear_arith)
                        requires
                            -1 <= direction <= 1,
                    ;
                }
                let nc: i128 = c as i128 + (direction as i128) * (self.step_ns as i128);
                if nc < start as i128 {
                    self.cursor_ns = Some(start);
                } else if nc > end as i128 {
                    self.cursor_ns = Some(end);
                } else {
                    self.cursor_ns = Some(nc as i64);
                }
            },
            None => {
                self.cursor_ns = Some(start + (self.range_ns / 2) as i64);
            },
        }
    }
}

/// The window's end at clock reading `now_s`, backed off by the offset.
pub open spec fn window_end_ns(now_s: i64, offset_ns: u64) -> int {
    now_s * NS_PER_SEC - offset_ns
}

/// Runtime computation of the window's end.
pub fn window_end(now_s: i64, offset_ns: u64) -> (r: i64)
    requires
        0 <= now_s <= MAX_NOW_SECS,
        offset_ns <= MAX_TIME_OFFSET_NS,
    ensures
        r == window_end_ns(now_s, offset_ns),
{
    proof {
        assert(0 <= now_s * (NS_PER_SEC as int) <= 4_000_000_000_000_000_000int)
            by (nonlinear_arith)
            requires
                0 <= now_s <= 4_000_000_000int,
        ;
    }
    let now_ns: i64 = now_s * (NS_PER_SEC as i64);
    let r: i128 = now_ns as i128 - offset_ns as i128;
    r as i64
}

/// The range a zoom-in leaves: half, floored at ten seconds.
pub open spec fn zoomed_in(range_ns: u64) -> u64 {
    if range_ns / 2 < MIN_RANGE_NS {
        MIN_RANGE_NS
    } else {
        range_ns / 2
    }
}

/// The range a zoom-out leaves: double, capped at seven days.
pub open spec fn zoomed_out(range_ns: u64) -> u64 {
    if 2 * range_ns as int > MAX_RANGE_NS {
        MAX_RANGE_NS
    } else {
        (2 * range_ns as int) as u64
    }
}

/// The offset a pan-left leaves: a quarter range further back, saturated.
pub open spec fn panned_left(offset_ns: u64, range_ns: u64) -> u64 {
    if offset_ns + range_ns as int / 4 > MAX_TIME_OFFSET_NS {
        MAX_TIME_OFFSET_NS
    } else {
        (offset_ns + range_ns as int / 4) as u64
    }
}

/// The offset a pan-right leaves: a quarter range forward, landing on
/// exactly zero from anywhere at or below one shift.
pub open spec fn panned_right(offset_ns: u64, range_ns: u64) -> u64 {
    if offset_ns > range_ns / 4 {
        (offset_ns - range_ns / 4) as u64
    } else {
        0
    }
}

/// Law: a pan right never leaves a negative offset, lands exactly on zero
/// whenever at most one shift remains, and otherwise subtracts exactly
/// one shift.
pub proof fn lemma_pan_right_reaches_live(offset_ns: u64, range_ns: u64)
    ensures
        panned_right(offset_ns, range_ns) >= 0,
        offset_ns <= range_ns / 4 ==> panned_right(offset_ns, range_ns) == 0,
        offset_ns > range_ns / 4 ==> panned_right(offset_ns, range_ns) == offset_ns - range_ns
            / 4,
{
}

/// The range after `n` zoom-outs.
pub open spec fn zoom_out_n(range_ns: u64, n: nat) -> u64
    decreases n,
{
    if n == 0 {
        range_ns
    } else {
        zoom_out_n(zoomed_out(range_ns), (n - 1) as nat)
    }
}

/// The range after `n` zoom-ins.
pub open spec fn zoom_in_n(range_ns: u64, n: nat) -> u64
    decreases n,
{
    if n == 0 {
        range_ns
    } else {
        zoom_in_n(zoomed_in(range_ns), (n - 1) as nat)
    }
}

/// Law: once the range has reached seven days, zooming out keeps it there.
pub proof fn lemma_zoom_out_stays(n: nat)
    ensures
        zoom_out_n(MAX_RANGE_NS, n) == MAX_RANGE_NS,
    decreases n,
{
    if n > 0 {
        lemma_zoom_out_stays((n - 1) as nat);
    }
}

/// Law: repeated zoom-out saturates at exactly seven days: from any valid
/// range, once doublings alone would reach the cap, the range is exactly
/// the cap and stays there.
pub proof fn lemma_zoom_out_saturates(range_ns: u64, n: nat)
    requires
        MIN_RANGE_NS <= range_ns <= MAX_RANGE_NS,
        pow2(n) * range_ns >= MAX_RANGE_NS,
    ensures
        zoom_out_n(range_ns, n) == MAX_RANGE_NS,
    decreases n,
{
    vstd::arithmetic::power2::lemma_pow2_pos(n);
    if n == 0 {
        assert(pow2(0) == 1) by {
            vstd::arithmetic::power2::lemma2_to64();
        }
    } else {
        let z = zoomed_out(range_ns);
        if 2 * range_ns as int > MAX_RANGE_NS {
            lemma_zoom_out_stays((n - 1) as nat);
        } else {
            assert(pow2(n) == 2 * pow2((n - 1) as nat)) by {
                vstd::arithmetic::power2::lemma_pow2_unfold(n);
            }
            assert(pow2((n - 1) as nat) * z as int >= MAX_RANGE_NS) by (nonlinear_arith)
                requires
                    pow2(n) * range_ns >= MAX_RANGE_NS,
                    pow2(n) == 2 * pow2((n - 1) as nat),
                    z == 2 * range_ns as int,
            ;
            lemma_zoom_out_saturates(z, (n - 1) as nat);
        }
    }
}

/// Law: once the range has reached ten seconds, zooming in keeps it there.
pub proof fn lemma_zoom_in_stays(n: nat)
    ensures
        zoom_in_n(MIN_RANGE_NS, n) == MIN_RANGE_NS,
    decreases n,
{
    if n > 0 {
        lemma_zoom_in_stays((n - 1) as nat);
    }
}

/// Law: repeated zoom-in saturates at exactly ten seconds: from any valid
/// range at most `2^n` times the floor, `n` zoom-ins land exactly on the
/// floor.
pub proof fn lemma_zoom_in_saturates(range_ns: u64, n: nat)
    requires
        MIN_RANGE_NS <= range_ns <= MAX_RANGE_NS,
        range_ns <= MIN_RANGE_NS * pow2(n),
    ensures
        zoom_in_n(range_ns, n) == MIN_RANGE_NS,
    decreases n,
{
    vstd::arithmetic::power2::lemma_pow2_pos(n);
    if n == 0 {
        assert(pow2(0) == 1) by {
            vstd::arithmetic::power2::lemma2_to64();
        }
    } else {
        let z = zoomed_in(range_ns);
        assert(pow2(n) == 2 * pow2((n - 1) as nat)) by {
            vstd::arithmetic::power2::lemma_pow2_unfold(n);
        }
        assert(range_ns / 2 <= MIN_RANGE_NS * pow2((n - 1) as nat)) by (nonlinear_arith)
            requires
                range_ns <= MIN_RANGE_NS * pow2(n),
                pow2(n) == 2 * pow2((n - 1) as nat),
        ;
        assert(z <= MIN_RANGE_NS * pow2((n - 1) as nat));
        lemma_zoom_in_saturates(z, (n - 1) as nat);
    }
}

} // verus!
