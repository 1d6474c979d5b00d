//! The interaction state machine: keyboard and pointer intents, one
//! transition function per mode, and the panel-title search. Each
//! transition's contract pins the whole next state, so the event loop
//! outside only polls, draws, and performs the returned action.

use vstd::prelude::*;
use vstd::string::*;

use crate::panel::PanelState;
use crate::panel::SeriesView;
use crate::panel::YAxisMode;
use crate::state::AppMode;
use crate::state::AppState;
use crate::state::window_end_ns;
use crate::state::panned_left;
use crate::state::panned_right;
use crate::state::zoomed_in;
use crate::state::zoomed_out;
use crate::state::MAX_NOW_SECS;
use crate::state::MAX_RANGE_NS;
use crate::text::contains_token;

verus! {

/// A key intent, as the terminal reports it. `Quit` is the explicit quit
/// intent (an interrupt key, mapped by the event loop): it is accepted in
/// every mode and never treated as text, unlike `q`, which is text input
/// while searching.
#[derive(Clone, Copy, Debug, PartialEq, Eq, Structural)]
pub enum Key {
    Esc,
    Enter,
    Backspace,
    Char(char),
    Left,
    Right,
    Up,
    Down,
    PageUp,
    PageDown,
    Home,
    End,
    Quit,
    Other,
}

/// One key press: the key and whether shift was held.
#[derive(Clone, Copy, Debug, PartialEq, Eq, Structural)]
pub struct KeyInput {
    pub key: Key,
    pub shift: bool,
}

/// What the event loop must do after a transition.
#[derive(Clone, Copy, Debug, PartialEq, Eq, Structural)]
pub enum Action {
    Nothing,
    Refresh,
    Quit,
}

/// The lowercase form of a character sequence.
pub uninterp spec fn lower_of(s: Seq<char>) -> Seq<char>;

/// Relies on str::to_lowercase: the lowercase form depends on the
/// characters alone.
#[verifier::external_body]
fn lowercase(s: &str) -> (r: String)
    ensures
        r@ == lower_of(s@),
{
    s.to_lowercase()
}

/// Relies on String::push: appends exactly the one character.
#[verifier::external_body]
fn push_char(s: &mut String, c: char)
    ensures
        final(s)@ == old(s)@.push(c),
{
    s.push(c)
}

/// The string without its final character (an empty string stays empty).
fn drop_last_char(s: &str) -> (r: String)
    ensures
        r@ == if s@.len() == 0 {
            s@
        } else {
            s@.drop_last()
        },
{
    let n = s.unicode_len();
    if n == 0 {
        proof {
            assert(s@.subrange(0, 0) =~= s@);
        }
        s.substring_char(0, 0).to_owned()
    } else {
        proof {
            assert(s@.subrange(0, n - 1) =~= s@.drop_last());
        }
        s.substring_char(0, n - 1).to_owned()
    }
}

/// The indices, from `i` on, of the panels whose lowercased title contains
/// the lowercased query.
pub open spec fn matching_indices(panels: Seq<PanelState>, q: Seq<char>, i: int) -> Seq<int>
    decreases panels.len() - i,
{
    if i < 0 || i >= panels.len() {
        Seq::empty()
    } else {
        (if contains_token(lower_of(panels[i].title@), lower_of(q)) {
            seq![i]
        } else {
            Seq::empty()
        }) + matching_indices(panels, q, i + 1)
    }
}

/// Finds the panels whose title contains the query, case-insensitively.
pub fn recompute_search(panels: &Vec<PanelState>, query: &str) -> (r: Vec<usize>)
    ensures
        r@.map(|j: int, v: usize| v as int) == matching_indices(panels@, query@, 0),
{
    let lq = lowercase(query);
    let n = panels.len();
    let mut r: Vec<usize> = Vec::new();
    proof {
        assert(Seq::<int>::empty() + matching_indices(panels@, query@, 0) =~= matching_indices(
            panels@,
            query@,
            0,
        ));
        assert(r@.map(|j: int, v: usize| v as int) =~= Seq::<int>::empty());
    }
    let mut i: usize = 0;
    while i < n
        invariant
            n == panels@.len(),
            lq@ == lower_of(query@),
            i <= n,
            matching_indices(panels@, query@, 0) == r@.map(|j: int, v: usize| v as int)
                + matching_indices(panels@, query@, i as int),
        decreases n - i,
    {
        let ghost before = r@.map(|j: int, v: usize| v as int);
        let lt = lowercase(panels[i].title.as_str());
        if crate::text::str_contains(lt.as_str(), lq.as_str()) {
            r.push(i);
            proof {
                assert(r@.map(|j: int, v: usize| v as int) =~= before + seq![i as int]);
            }
        }
        proof {
            assert(matching_indices(panels@, query@, i as int) == (if contains_token(
                lower_of(panels@[i as int].title@),
                lower_of(query@),
            ) {
                seq![i as int]
            } else {
                Seq::<int>::empty()
            }) + matching_indices(panels@, query@, i + 1));
            assert(before + seq![i as int] + matching_indices(panels@, query@, i + 1) =~= before
                + (seq![i as int] + matching_indices(panels@, query@, i + 1)));
            assert(before + Seq::<int>::empty() + matching_indices(panels@, query@, i + 1)
                =~= before + (Seq::<int>::empty() + matching_indices(panels@, query@, i + 1)));
        }
        i += 1;
    }
    proof {
        assert(r@.map(|j: int, v: usize| v as int) + Seq::<int>::empty() =~= r@.map(
            |j: int, v: usize| v as int,
        ));
    }
    r
}

/// Fields a search transition can never touch.
pub open spec fn core_unchanged(pre: AppState, post: AppState) -> bool {
    &&& post.range_ns == pre.range_ns
    &&& post.step_ns == pre.step_ns
    &&& post.refresh_every_ns == pre.refresh_every_ns
    &&& post.panels == pre.panels
    &&& post.vertical_scroll == pre.vertical_scroll
    &&& post.title == pre.title
    &&& post.debug_bar == pre.debug_bar
    &&& post.vars == pre.vars
    &&& post.skipped_panels == pre.skipped_panels
    &&& post.time_offset_ns == pre.time_offset_ns
}

/// The search results field matches the query over the panels: empty for
/// an empty query, else exactly the matching indices.
pub open spec fn results_for(post: AppState, pre: AppState, q: Seq<char>) -> bool {
    if q.len() == 0 {
        post.search_results@.len() == 0
    } else {
        post.search_results@.map(|j: int, v: usize| v as int) == matching_indices(
            pre.panels@,
            q,
            0,
        )
    }
}

/// The action a search-mode key asks of the loop: only the explicit quit
/// intent does anything but edit the search.
pub open spec fn search_action(input: KeyInput) -> Action {
    match input.key {
        Key::Quit => Action::Quit,
        _ => Action::Nothing,
    }
}

/// What one key does in search mode: escape abandons the search, enter
/// jumps to the first match fullscreen, backspace and characters edit the
/// query and recompute the matches, anything else (the quit intent
/// included) leaves the state as it is.
pub open spec fn search_transition(pre: AppState, post: AppState, input: KeyInput) -> bool {
    match input.key {
        Key::Esc => {
            &&& core_unchanged(pre, post)
            &&& post.mode == AppMode::Normal
            &&& post.search_query@.len() == 0
            &&& post.search_results@.len() == 0
            &&& post.selected_panel == pre.selected_panel
            &&& post.cursor_ns == pre.cursor_ns
        },
        Key::Enter => {
            if pre.search_results@.len() > 0 {
                &&& core_unchanged(pre, post)
                &&& post.mode == AppMode::Fullscreen
                &&& post.selected_panel == pre.search_results@[0]
                &&& post.search_query@.len() == 0
                &&& post.search_results@.len() == 0
                &&& post.cursor_ns == pre.cursor_ns
            } else {
                post == pre
            }
        },
        Key::Backspace => {
            let q = if pre.search_query@.len() == 0 {
                pre.search_query@
            } else {
                pre.search_query@.drop_last()
            };
            &&& core_unchanged(pre, post)
            &&& post.mode == AppMode::Search
            &&& post.search_query@ == q
            &&& results_for(post, pre, q)
            &&& post.selected_panel == pre.selected_panel
            &&& post.cursor_ns == pre.cursor_ns
        },
        Key::Char(c) => {
            let q = pre.search_query@.push(c);
            &&& core_unchanged(pre, post)
            &&& post.mode == AppMode::Search
            &&& post.search_query@ == q
            &&& post.search_results@.map(|j: int, v: usize| v as int) == matching_indices(
                pre.panels@,
                q,
                0,
            )
            &&& post.selected_panel == pre.selected_panel
            &&& post.cursor_ns == pre.cursor_ns
        },
        _ => post == pre,
    }
}

impl AppState {
    /// Handles one key in search mode.
    pub fn handle_search_key(&mut self, input: KeyInput) -> (r: Action)
        requires
            old(self).wf(),
            old(self).mode == AppMode::Search,
        ensures
            final(self).wf(),
            search_transition(*old(self), *final(self), input),
            r == search_action(input),
    {
        match input.key {
            Key::Quit => {
                return Action::Quit;
            },
            Key::Esc => {
                self.mode = AppMode::Normal;
                self.search_query = String::new();
                self.search_results = Vec::new();
            },
            Key::Enter => {
                if self.search_results.len() > 0 {
                    self.selected_panel = self.search_results[0];
                    self.mode = AppMode::Fullscreen;
                    self.search_query = String::new();
                    self.search_results = Vec::new();
                }
            },
            Key::Backspace => {
                self.search_query = drop_last_char(self.search_query.as_str());
                if self.search_query.unicode_len() == 0 {
                    self.search_results = Vec::new();
                } else {
                    self.search_results = recompute_search(
                        &self.panels,
                        self.search_query.as_str(),
                    );
                }
            },
            Key::Char(c) => {
                push_char(&mut self.search_query, c);
                self.search_results = recompute_search(&self.panels, self.search_query.as_str());
            },
            _ => {},
        }
        Action::Nothing
    }
}


/// The midpoint of the window visible at `now_s`: where a fresh
/// inspection cursor is seeded.
pub open spec fn seeded_cursor(pre: AppState, now_s: i64) -> int {
    window_end_ns(now_s, pre.time_offset_ns) - pre.range_ns + pre.range_ns as int / 2
}

/// Where the cursor stands after a move: shifted by one step, the result
/// clamped into the visible window; seeded at the midpoint when unset.
pub open spec fn moved_cursor(pre: AppState, direction: int, now_s: i64) -> Option<i64> {
    let end = window_end_ns(now_s, pre.time_offset_ns);
    let start = end - pre.range_ns;
    match pre.cursor_ns {
        Some(c) => {
            let nc = c + direction * pre.step_ns;
            Some(
                (if nc < start {
                    start
                } else if nc > end {
                    end
                } else {
                    nc
                }) as i64,
            )
        },
        None => Some((start + pre.range_ns as int / 2) as i64),
    }
}

/// What one key does in an inspect mode: escape or `v` ends inspection
/// (back to `exit_mode`) and clears the cursor; the arrows move the
/// cursor; anything else changes nothing.
pub open spec fn inspect_transition(
    pre: AppState,
    post: AppState,
    input: KeyInput,
    now_s: i64,
    exit_mode: AppMode,
) -> bool {
    match input.key {
        Key::Esc => post == (AppState { mode: exit_mode, cursor_ns: None, ..pre }),
        Key::Char(c) => {
            if c == 'v' {
                post == (AppState { mode: exit_mode, cursor_ns: None, ..pre })
            } else {
                post == pre
            }
        },
        Key::Left => post == (AppState { cursor_ns: moved_cursor(pre, -1, now_s), ..pre }),
        Key::Right => post == (AppState { cursor_ns: moved_cursor(pre, 1, now_s), ..pre }),
        _ => post == pre,
    }
}

/// The action an inspect-mode key asks of the loop.
pub open spec fn inspect_action(input: KeyInput) -> Action {
    match input.key {
        Key::Char(c) => if c == 'q' {
            Action::Quit
        } else {
            Action::Nothing
        },
        Key::Quit => Action::Quit,
        _ => Action::Nothing,
    }
}

/// The y-axis mode flipped.
pub open spec fn flipped_y(m: YAxisMode) -> YAxisMode {
    match m {
        YAxisMode::Auto => YAxisMode::ZeroBased,
        YAxisMode::ZeroBased => YAxisMode::Auto,
    }
}

/// `b` is `a` with its y-axis mode flipped.
pub open spec fn y_toggled(a: PanelState, b: PanelState) -> bool {
    b == (PanelState { y_axis_mode: flipped_y(a.y_axis_mode), ..a })
}

/// The panels after the selected one's y-axis mode is flipped; no panel
/// selected (index out of range) means no change.
pub open spec fn panels_y_toggled(pre: AppState, post: AppState) -> bool {
    if pre.selected_panel < pre.panels@.len() {
        &&& post.panels@.len() == pre.panels@.len()
        &&& y_toggled(pre.panels@[pre.selected_panel as int], post.panels@[pre.selected_panel as int])
        &&& forall|j: int|
            0 <= j < pre.panels@.len() && j != pre.selected_panel ==> post.panels@[j]
                == pre.panels@[j]
    } else {
        post.panels == pre.panels
    }
}

/// `b` is `a` with every series visible.
pub open spec fn all_visible(a: Seq<SeriesView>, b: Seq<SeriesView>) -> bool {
    &&& b.len() == a.len()
    &&& forall|j: int|
        0 <= j < a.len() ==> (#[trigger] b[j]).name == a[j].name && b[j].value == a[j].value
            && b[j].points == a[j].points && b[j].visible == true
}

/// `b` is `a` with the series at `idx` toggled.
pub open spec fn one_toggled(a: Seq<SeriesView>, b: Seq<SeriesView>, idx: int) -> bool {
    &&& b.len() == a.len()
    &&& (forall|j: int| 0 <= j < a.len() && j != idx ==> b[j] == a[j])
    &&& b[idx].name == a[idx].name
    &&& b[idx].value == a[idx].value
    &&& b[idx].points == a[idx].points
    &&& b[idx].visible == !a[idx].visible
}

/// `b` is `a` after the digit key: digit zero shows every series, another
/// digit toggles the series it names (1-based), a digit past the series
/// list changes nothing.
pub open spec fn vis_toggled(a: PanelState, b: PanelState, digit: int) -> bool {
    &&& b.title == a.title
    &&& b.exprs == a.exprs
    &&& b.legends == a.legends
    &&& b.last_error == a.last_error
    &&& b.last_url == a.last_url
    &&& b.last_samples == a.last_samples
    &&& b.grid == a.grid
    &&& b.y_axis_mode == a.y_axis_mode
    &&& b.panel_type == a.panel_type
    &&& (if digit == 0 {
        all_visible(a.series@, b.series@)
    } else if digit - 1 < a.series@.len() {
        one_toggled(a.series@, b.series@, digit - 1)
    } else {
        b.series == a.series
    })
}

/// The panels after a digit key in normal mode.
pub open spec fn panels_vis_toggled(pre: AppState, post: AppState, digit: int) -> bool {
    if pre.selected_panel < pre.panels@.len() {
        &&& post.panels@.len() == pre.panels@.len()
        &&& vis_toggled(
            pre.panels@[pre.selected_panel as int],
            post.panels@[pre.selected_panel as int],
            digit,
        )
        &&& forall|j: int|
            0 <= j < pre.panels@.len() && j != pre.selected_panel ==> post.panels@[j]
                == pre.panels@[j]
    } else {
        post.panels == pre.panels
    }
}

/// Everything except the panel list is as in `other`.
pub open spec fn same_but_panels(a: AppState, b: AppState) -> bool {
    &&& a.range_ns == b.range_ns
    &&& a.step_ns == b.step_ns
    &&& a.refresh_every_ns == b.refresh_every_ns
    &&& a.vertical_scroll == b.vertical_scroll
    &&& a.title == b.title
    &&& a.debug_bar == b.debug_bar
    &&& a.vars == b.vars
    &&& a.skipped_panels == b.skipped_panels
    &&& a.selected_panel == b.selected_panel
    &&& a.time_offset_ns == b.time_offset_ns
    &&& a.mode == b.mode
    &&& a.search_query == b.search_query
    &&& a.search_results == b.search_results
    &&& a.cursor_ns == b.cursor_ns
}

/// What one key does in fullscreen mode.
pub open spec fn fullscreen_transition(
    pre: AppState,
    post: AppState,
    input: KeyInput,
    now_s: i64,
) -> bool {
    match input.key {
        Key::Esc | Key::Enter => post == (AppState { mode: AppMode::Normal, ..pre }),
        Key::Char(c) => {
            if c == 'f' {
                post == (AppState { mode: AppMode::Normal, ..pre })
            } else if c == 'v' {
                post == (AppState {
                    mode: AppMode::FullscreenInspect,
                    cursor_ns: Some(seeded_cursor(pre, now_s) as i64),
                    ..pre
                })
            } else if c == '+' {
                post.same_but_range(pre) && post.range_ns == zoomed_out(pre.range_ns)
            } else if c == '-' {
                post.same_but_range(pre) && post.range_ns == zoomed_in(pre.range_ns)
            } else if c == '[' && input.shift {
                post.same_but_offset(pre) && post.time_offset_ns == panned_left(
                    pre.time_offset_ns,
                    pre.range_ns,
                )
            } else if c == ']' && input.shift {
                post.same_but_offset(pre) && post.time_offset_ns == panned_right(
                    pre.time_offset_ns,
                    pre.range_ns,
                )
            } else if c == '0' {
                post.same_but_offset(pre) && post.time_offset_ns == 0
            } else if c == 'y' {
                same_but_panels(pre, post) && panels_y_toggled(pre, post)
            } else {
                post == pre
            }
        },
        Key::Left => {
            if input.shift {
                post.same_but_offset(pre) && post.time_offset_ns == panned_left(
                    pre.time_offset_ns,
                    pre.range_ns,
                )
            } else {
                post == pre
            }
        },
        Key::Right => {
            if input.shift {
                post.same_but_offset(pre) && post.time_offset_ns == panned_right(
                    pre.time_offset_ns,
                    pre.range_ns,
                )
            } else {
                post == pre
            }
        },
        _ => post == pre,
    }
}

/// The action a fullscreen-mode key asks of the loop.
pub open spec fn fullscreen_action(input: KeyInput) -> Action {
    match input.key {
        Key::Char(c) => {
            if c == 'q' {
                Action::Quit
            } else if c == 'r' || c == 'R' || c == '+' || c == '-' || c == '0' {
                Action::Refresh
            } else if (c == '[' || c == ']') && input.shift {
                Action::Refresh
            } else {
                Action::Nothing
            }
        },
        Key::Left | Key::Right => if input.shift {
            Action::Refresh
        } else {
            Action::Nothing
        },
        Key::Quit => Action::Quit,
        _ => Action::Nothing,
    }
}

/// Whether a character is a decimal digit, and its value.
pub open spec fn is_digit_char(c: char) -> bool {
    48 <= c as u32 <= 57
}

pub open spec fn digit_value(c: char) -> int {
    c as u32 - 48
}

/// What one key does in normal mode.
pub open spec fn normal_transition(
    pre: AppState,
    post: AppState,
    input: KeyInput,
    now_s: i64,
) -> bool {
    match input.key {
        Key::Char(c) => {
            if c == 'f' {
                post == (AppState { mode: AppMode::Fullscreen, ..pre })
            } else if c == 'v' {
                post == (AppState {
                    mode: AppMode::Inspect,
                    cursor_ns: Some(seeded_cursor(pre, now_s) as i64),
                    ..pre
                })
            } else if c == 'k' {
                post == (AppState {
                    selected_panel: if pre.selected_panel > 0 {
                        (pre.selected_panel - 1) as usize
                    } else {
                        0
                    },
                    ..pre
                })
            } else if c == 'j' {
                post == (AppState {
                    selected_panel: if pre.selected_panel + 1 < pre.panels@.len() {
                        (pre.selected_panel + 1) as usize
                    } else {
                        pre.selected_panel
                    },
                    ..pre
                })
            } else if is_digit_char(c) {
                same_but_panels(pre, post) && panels_vis_toggled(pre, post, digit_value(c))
            } else if c == 'y' {
                same_but_panels(pre, post) && panels_y_toggled(pre, post)
            } else if c == '+' {
                post.same_but_range(pre) && post.range_ns == zoomed_out(pre.range_ns)
            } else if c == '-' {
                post.same_but_range(pre) && post.range_ns == zoomed_in(pre.range_ns)
            } else if c == '[' && input.shift {
                post.same_but_offset(pre) && post.time_offset_ns == panned_left(
                    pre.time_offset_ns,
                    pre.range_ns,
                )
            } else if c == ']' && input.shift {
                post.same_but_offset(pre) && post.time_offset_ns == panned_right(
                    pre.time_offset_ns,
                    pre.range_ns,
                )
            } else if c == '?' {
                post == (AppState { debug_bar: !pre.debug_bar, ..pre })
            } else if c == '/' {
                &&& core_unchanged(pre, post)
                &&& post.mode == AppMode::Search
                &&& post.search_query@.len() == 0
                &&& post.search_results@.len() == 0
                &&& post.selected_panel == pre.selected_panel
                &&& post.cursor_ns == pre.cursor_ns
            } else {
                post == pre
            }
        },
        Key::Up => post == (AppState {
            selected_panel: if pre.selected_panel > 0 {
                (pre.selected_panel - 1) as usize
            } else {
                0
            },
            ..pre
        }),
        Key::Down => post == (AppState {
            selected_panel: if pre.selected_panel + 1 < pre.panels@.len() {
                (pre.selected_panel + 1) as usize
            } else {
                pre.selected_panel
            },
            ..pre
        }),
        Key::PageUp => post == (AppState {
            vertical_scroll: if pre.vertical_scroll >= 10 {
                (pre.vertical_scroll - 10) as usize
            } else {
                0
            },
            ..pre
        }),
        Key::PageDown => post == (AppState {
            vertical_scroll: if pre.vertical_scroll + 10 <= usize::MAX {
                (pre.vertical_scroll + 10) as usize
            } else {
                usize::MAX
            },
            ..pre
        }),
        Key::Home => post == (AppState { vertical_scroll: 0, ..pre }),
        Key::End => post == (AppState { vertical_scroll: usize::MAX, ..pre }),
        Key::Left => {
            if input.shift {
                post.same_but_offset(pre) && post.time_offset_ns == panned_left(
                    pre.time_offset_ns,
                    pre.range_ns,
                )
            } else {
                post == pre
            }
        },
        Key::Right => {
            if input.shift {
                post.same_but_offset(pre) && post.time_offset_ns == panned_right(
                    pre.time_offset_ns,
                    pre.range_ns,
                )
            } else {
                post == pre
            }
        },
        _ => post == pre,
    }
}

/// The action a normal-mode key asks of the loop. The digit arm catches
/// `0` before the live-reset arm would, so in normal mode `0` only makes
/// every series visible.
pub open spec fn normal_action(input: KeyInput) -> Action {
    match input.key {
        Key::Char(c) => {
            if c == 'q' {
                Action::Quit
            } else if c == 'r' || c == 'R' {
                Action::Refresh
            } else if is_digit_char(c) {
                Action::Nothing
            } else if c == '+' || c == '-' {
                Action::Refresh
            } else if (c == '[' || c == ']') && input.shift {
                Action::Refresh
            } else {
                Action::Nothing
            }
        },
        Key::Left | Key::Right => if input.shift {
            Action::Refresh
        } else {
            Action::Nothing
        },
        Key::Quit => Action::Quit,
        _ => Action::Nothing,
    }
}

impl AppState {
    /// Seeds the inspection cursor at the window's midpoint.
    fn seed_cursor(&mut self, now_s: i64)
        requires
            old(self).wf(),
            0 <= now_s <= MAX_NOW_SECS,
        ensures
            final(self).wf(),
            final(self).same_but_cursor(*old(self)),
            final(self).cursor_ns == Some(seeded_cursor(*old(self), now_s) as i64),
    {
        let end: i64 = crate::state::window_end(now_s, self.time_offset_ns);
        let start_wide: i128 = end as i128 - self.range_ns as i128;
        let start: i64 = start_wide as i64;
        self.cursor_ns = Some(start + (self.range_ns / 2) as i64);
    }

    /// Flips the selected panel's y-axis scaling mode.
    fn toggle_y_axis(&mut self)
        requires
            old(self).wf(),
        ensures
            final(self).wf(),
            same_but_panels(*old(self), *final(self)),
            panels_y_toggled(*old(self), *final(self)),
    {
        let sel = self.selected_panel;
        if sel < self.panels.len() {
            let ghost before = self.panels@;
            let mut p = self.panels.remove(sel);
            p.y_axis_mode = match p.y_axis_mode {
                YAxisMode::Auto => YAxisMode::ZeroBased,
                YAxisMode::ZeroBased => YAxisMode::Auto,
            };
            self.panels.insert(sel, p);
            proof {
                before.remove_ensures(sel as int);
                assert forall|j: int|
                    0 <= j < before.len() && j != sel implies self.panels@[j] == before[j] by {
                    if j < sel {
                        assert(self.panels@[j] == before.remove(sel as int)[j]);
                    } else {
                        assert(self.panels@[j] == before.remove(sel as int)[j - 1]);
                        assert(before.remove(sel as int)[j - 1] == before[j]);
                    }
                }
                assert(self.panels@[sel as int].wf());
                assert forall|i: int|
                    0 <= i < self.panels@.len() implies (#[trigger] self.panels@[i]).wf() by {
                    if i != sel {
                        assert(self.panels@[i] == before[i]);
                    }
                }
            }
        }
    }

    /// Applies a digit key to the selected panel: zero shows every series,
    /// another digit toggles the series it names.
    fn toggle_series_visibility(&mut self, digit: u32)
        requires
            old(self).wf(),
            digit < 10,
        ensures
            final(self).wf(),
            same_but_panels(*old(self), *final(self)),
            panels_vis_toggled(*old(self), *final(self), digit as int),
    {
        let sel = self.selected_panel;
        if sel < self.panels.len() {
            let ghost before = self.panels@;
            let mut p = self.panels.remove(sel);
            let ghost series_before = p.series@;
            if digit == 0 {
                let mut rest = p.series;
                let mut shown: Vec<SeriesView> = Vec::new();
                while rest.len() > 0
                    invariant
                        shown@.len() + rest@.len() == series_before.len(),
                        forall|j: int|
                            0 <= j < rest@.len() ==> #[trigger] rest@[j] == series_before[shown@.len()
                                + j],
                        forall|j: int|
                            0 <= j < shown@.len() ==> (#[trigger] shown@[j]).name
                                == series_before[j].name && shown@[j].value == series_before[j].value
                                && shown@[j].points == series_before[j].points && shown@[j].visible
                                == true,
                    decreases rest@.len(),
                {
                    let mut sv = rest.remove(0);
                    sv.visible = true;
                    shown.push(sv);
                }
                p.series = shown;
            } else {
                let idx = (digit - 1) as usize;
                if idx < p.series.len() {
                    let ghost sb = p.series@;
                    let mut sv = p.series.remove(idx);
                    sv.visible = !sv.visible;
                    p.series.insert(idx, sv);
                    proof {
                        sb.remove_ensures(idx as int);
                        assert forall|j: int|
                            0 <= j < sb.len() && j != idx implies p.series@[j] == sb[j] by {
                            if j < idx {
                                assert(p.series@[j] == sb.remove(idx as int)[j]);
                            } else {
                                assert(p.series@[j] == sb.remove(idx as int)[j - 1]);
                                assert(sb.remove(idx as int)[j - 1] == sb[j]);
                            }
                        }
                    }
                }
            }
            self.panels.insert(sel, p);
            proof {
                before.remove_ensures(sel as int);
                assert forall|j: int|
                    0 <= j < before.len() && j != sel implies self.panels@[j] == before[j] by {
                    if j < sel {
                        assert(self.panels@[j] == before.remove(sel as int)[j]);
                    } else {
                        assert(self.panels@[j] == before.remove(sel as int)[j - 1]);
                        assert(before.remove(sel as int)[j - 1] == before[j]);
                    }
                }
                assert(self.panels@[sel as int].wf());
                assert(vis_toggled(before[sel as int], self.panels@[sel as int], digit as int));
                assert forall|i: int|
                    0 <= i < self.panels@.len() implies (#[trigger] self.panels@[i]).wf() by {
                    if i != sel {
                        assert(self.panels@[i] == before[i]);
                    }
                }
            }
        }
    }

    /// Handles one key in an inspect mode; `exit_mode` is where ending the
    /// inspection returns to.
    fn handle_inspect_key(&mut self, input: KeyInput, now_s: i64, exit_mode: AppMode) -> (r:
        Action)
        requires
            old(self).wf(),
            0 <= now_s <= MAX_NOW_SECS,
        ensures
            final(self).wf(),
            inspect_transition(*old(self), *final(self), input, now_s, exit_mode),
            r == inspect_action(input),
    {
        match input.key {
            Key::Esc => {
                self.mode = exit_mode;
                self.cursor_ns = None;
            },
            Key::Char(c) => {
                if c == 'v' {
                    self.mode = exit_mode;
                    self.cursor_ns = None;
                } else if c == 'q' {
                    return Action::Quit;
                }
            },
            Key::Left => {
                self.move_cursor(-1, now_s);
            },
            Key::Right => {
                self.move_cursor(1, now_s);
            },
            Key::Quit => {
                return Action::Quit;
            },
            _ => {},
        }
        Action::Nothing
    }

    /// Handles one key in fullscreen mode.
    fn handle_fullscreen_key(&mut self, input: KeyInput, now_s: i64) -> (r: Action)
        requires
            old(self).wf(),
            0 <= now_s <= MAX_NOW_SECS,
        ensures
            final(self).wf(),
            fullscreen_transition(*old(self), *final(self), input, now_s),
            r == fullscreen_action(input),
    {
        match input.key {
            Key::Esc | Key::Enter => {
                self.mode = AppMode::Normal;
                Action::Nothing
            },
            Key::Char(c) => {
                if c == 'f' {
                    self.mode = AppMode::Normal;
                    Action::Nothing
                } else if c == 'v' {
                    self.mode = AppMode::FullscreenInspect;
                    self.seed_cursor(now_s);
                    Action::Nothing
                } else if c == 'q' {
                    Action::Quit
                } else if c == 'r' || c == 'R' {
                    Action::Refresh
                } else if c == '+' {
                    self.zoom_out();
                    Action::Refresh
                } else if c == '-' {
                    self.zoom_in();
                    Action::Refresh
                } else if c == '[' && input.shift {
                    self.pan_left();
                    Action::Refresh
                } else if c == ']' && input.shift {
                    self.pan_right();
                    Action::Refresh
                } else if c == '0' {
                    self.reset_to_live();
                    Action::Refresh
                } else if c == 'y' {
                    self.toggle_y_axis();
                    Action::Nothing
                } else {
                    Action::Nothing
                }
            },
            Key::Left => {
                if input.shift {
                    self.pan_left();
                    Action::Refresh
                } else {
                    Action::Nothing
                }
            },
            Key::Right => {
                if input.shift {
                    self.pan_right();
                    Action::Refresh
                } else {
                    Action::Nothing
                }
            },
            Key::Quit => Action::Quit,
            _ => Action::Nothing,
        }
    }

    /// Handles one key in normal mode.
    fn handle_normal_key(&mut self, input: KeyInput, now_s: i64) -> (r: Action)
        requires
            old(self).wf(),
            0 <= now_s <= MAX_NOW_SECS,
        ensures
            final(self).wf(),
            normal_transition(*old(self), *final(self), input, now_s),
            r == normal_action(input),
    {
        match input.key {
            Key::Char(c) => {
                if c == 'f' {
                    self.mode = AppMode::Fullscreen;
                    Action::Nothing
                } else if c == 'v' {
                    self.mode = AppMode::Inspect;
                    self.seed_cursor(now_s);
                    Action::Nothing
                } else if c == 'q' {
                    Action::Quit
                } else if c == 'r' || c == 'R' {
                    Action::Refresh
                } else if c == 'k' {
                    if self.selected_panel > 0 {
                        self.selected_panel = self.selected_panel - 1;
                    }
                    Action::Nothing
                } else if c == 'j' {
                    let len = self.panels.len();
                    if len > 0 && self.selected_panel < len - 1 {
                        self.selected_panel = self.selected_panel + 1;
                    }
                    Action::Nothing
                } else {
                    let u = c as u32;
                    if 48 <= u && u <= 57 {
                        self.toggle_series_visibility(u - 48);
                        Action::Nothing
                    } else if c == 'y' {
                        self.toggle_y_axis();
                        Action::Nothing
                    } else if c == '+' {
                        self.zoom_out();
                        Action::Refresh
                    } else if c == '-' {
                        self.zoom_in();
                        Action::Refresh
                    } else if c == '[' && input.shift {
                        self.pan_left();
                        Action::Refresh
                    } else if c == ']' && input.shift {
                        self.pan_right();
                        Action::Refresh
                    } else if c == '?' {
                        self.debug_bar = !self.debug_bar;
                        Action::Nothing
                    } else if c == '/' {
                        self.mode = AppMode::Search;
                        self.search_query = String::new();
                        self.search_results = Vec::new();
                        Action::Nothing
                    } else {
                        Action::Nothing
                    }
                }
            },
            Key::Up => {
                if self.selected_panel > 0 {
                    self.selected_panel = self.selected_panel - 1;
                }
                Action::Nothing
            },
            Key::Down => {
                let len = self.panels.len();
                if len > 0 && self.selected_panel < len - 1 {
                    self.selected_panel = self.selected_panel + 1;
                }
                Action::Nothing
            },
            Key::PageUp => {
                if self.vertical_scroll >= 10 {
                    self.vertical_scroll = self.vertical_scroll - 10;
                } else {
                    self.vertical_scroll = 0;
                }
                Action::Nothing
            },
            Key::PageDown => {
                if self.vertical_scroll <= usize::MAX - 10 {
                    self.vertical_scroll = self.vertical_scroll + 10;
                } else {
                    self.vertical_scroll = usize::MAX;
                }
                Action::Nothing
            },
            Key::Home => {
                self.vertical_scroll = 0;
                Action::Nothing
            },
            Key::End => {
                self.vertical_scroll = usize::MAX;
                Action::Nothing
            },
            Key::Left => {
                if input.shift {
                    self.pan_left();
                    Action::Refresh
                } else {
                    Action::Nothing
                }
            },
            Key::Right => {
                if input.shift {
                    self.pan_right();
                    Action::Refresh
                } else {
                    Action::Nothing
                }
            },
            Key::Quit => Action::Quit,
            _ => Action::Nothing,
        }
    }

    /// Dispatches one key press to the current mode's transition and says
    /// what the loop must do next: nothing, trigger a refresh, or quit.
    /// A quit intent is accepted in every mode.
    pub fn handle_key(&mut self, input: KeyInput, now_s: i64) -> (r: Action)
        requires
            old(self).wf(),
            0 <= now_s <= MAX_NOW_SECS,
        ensures
            final(self).wf(),
            match old(self).mode {
                AppMode::Search => search_transition(*old(self), *final(self), input) && r
                    == search_action(input),
                AppMode::Inspect => inspect_transition(
                    *old(self),
                    *final(self),
                    input,
                    now_s,
                    AppMode::Normal,
                ) && r == inspect_action(input),
                AppMode::FullscreenInspect => inspect_transition(
                    *old(self),
                    *final(self),
                    input,
                    now_s,
                    AppMode::Fullscreen,
                ) && r == inspect_action(input),
                AppMode::Fullscreen => fullscreen_transition(
                    *old(self),
                    *final(self),
                    input,
                    now_s,
                ) && r == fullscreen_action(input),
                AppMode::Normal => normal_transition(*old(self), *final(self), input, now_s) && r
                    == normal_action(input),
            },
    {
        match self.mode {
            AppMode::Search => self.handle_search_key(input),
            AppMode::Inspect => self.handle_inspect_key(input, now_s, AppMode::Normal),
            AppMode::FullscreenInspect => self.handle_inspect_key(
                input,
                now_s,
                AppMode::Fullscreen,
            ),
            AppMode::Fullscreen => self.handle_fullscreen_key(input, now_s),
            AppMode::Normal => self.handle_normal_key(input, now_s),
        }
    }

    /// Applies a pointer press that hit panel `idx`, whose drawn rectangle
    /// starts at column `rect_x` and is `rect_w` cells wide: selects the
    /// panel, enters the fitting inspect mode, and, when the plot area has
    /// width, places the cursor where the click's horizontal fraction
    /// lands in the visible window.
    pub fn handle_click(
        &mut self,
        idx: usize,
        rect_x: u16,
        rect_w: u16,
        column: u16,
        now_s: i64,
    )
        requires
            old(self).wf(),
            idx < old(self).panels@.len(),
            0 <= now_s <= MAX_NOW_SECS,
        ensures
            final(self).wf(),
            final(self).selected_panel == idx,
            final(self).mode == (match old(self).mode {
                AppMode::Normal | AppMode::Inspect => AppMode::Inspect,
                AppMode::Fullscreen | AppMode::FullscreenInspect => AppMode::FullscreenInspect,
                AppMode::Search => AppMode::Search,
            }),
            ({
                let chart_w = if rect_w >= 2 {
                    rect_w - 2
                } else {
                    0
                };
                let rel0 = if column >= rect_x + 1 {
                    column - rect_x - 1
                } else {
                    0
                };
                let rel = if rel0 <= chart_w {
                    rel0
                } else {
                    chart_w
                };
                let start = window_end_ns(now_s, old(self).time_offset_ns) - old(self).range_ns;
                if chart_w > 0 {
                    final(self).cursor_ns == Some(
                        (start + rel * old(self).range_ns / chart_w) as i64,
                    )
                } else {
                    final(self).cursor_ns == old(self).cursor_ns
                }
            }),
            core_unchanged(*old(self), *final(self)),
            final(self).search_query == old(self).search_query,
            final(self).search_results == old(self).search_results,
    {
        self.selected_panel = idx;
        match self.mode {
            AppMode::Normal | AppMode::Inspect => {
                self.mode = AppMode::Inspect;
            },
            AppMode::Fullscreen | AppMode::FullscreenInspect => {
                self.mode = AppMode::FullscreenInspect;
            },
            AppMode::Search => {},
        }
        let chart_w: u16 = if rect_w >= 2 {
            rect_w - 2
        } else {
            0
        };
        if chart_w > 0 {
            let rel0: u16 = if column > rect_x {
                column - rect_x - 1
            } else {
                0
            };
            let rel: u16 = if rel0 <= chart_w {
                rel0
            } else {
                chart_w
            };
            let end: i64 = crate::state::window_end(now_s, self.time_offset_ns);
            let start_wide: i128 = end as i128 - self.range_ns as i128;
            proof {
                assert(0 <= (rel as int) * (self.range_ns as int) <= (chart_w as int) * (
                self.range_ns as int)) by (nonlinear_arith)
                    requires
                        0 <= rel <= chart_w,
                        0 <= self.range_ns,
                ;
                assert(((chart_w as int) * (self.range_ns as int)) / (chart_w as int)
                    == self.range_ns as int) by (nonlinear_arith)
                    requires
                        chart_w >= 1,
                ;
                vstd::arithmetic::div_mod::lemma_div_is_ordered(
                    (rel as int) * (self.range_ns as int),
                    (chart_w as int) * (self.range_ns as int),
                    chart_w as int,
                );
                assert((rel as int) * (self.range_ns as int) / (chart_w as int) >= 0)
                    by (nonlinear_arith)
                    requires
                        0 <= (rel as int) * (self.range_ns as int),
                        chart_w >= 1,
                ;
                assert((chart_w as int) * (self.range_ns as int) <= 65535 * (
                MAX_RANGE_NS as int)) by (nonlinear_arith)
                    requires
                        0 <= chart_w <= 65535,
                        0 <= self.range_ns <= MAX_RANGE_NS,
                ;
            }
            let offset_wide: i128 = (rel as i128) * (self.range_ns as i128) / (chart_w as i128);
            let cursor_wide: i128 = start_wide + offset_wide;
            self.cursor_ns = Some(cursor_wide as i64);
        }
    }

    /// Scrolls the panel list by one row, saturating at both ends.
    pub fn handle_scroll(&mut self, up: bool)
        requires
            old(self).wf(),
        ensures
            final(self).wf(),
            *final(self) == (AppState {
                vertical_scroll: if up {
                    if old(self).vertical_scroll >= 1 {
                        (old(self).vertical_scroll - 1) as usize
                    } else {
                        0
                    }
                } else {
                    if old(self).vertical_scroll + 1 <= usize::MAX {
                        (old(self).vertical_scroll + 1) as usize
                    } else {
                        usize::MAX
                    }
                },
                ..*old(self)
            }),
    {
        if up {
            if self.vertical_scroll >= 1 {
                self.vertical_scroll = self.vertical_scroll - 1;
            }
        } else {
            if self.vertical_scroll <= usize::MAX - 1 {
                self.vertical_scroll = self.vertical_scroll + 1;
            } else {
                self.vertical_scroll = usize::MAX;
            }
        }
    }
}

} // verus!
