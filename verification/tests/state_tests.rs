use grafatui::input::{Action, Key, KeyInput};
use grafatui::panel::default_queries;
use grafatui::state::{AppMode, AppState, MAX_RANGE_NS, MIN_RANGE_NS};

const NS: u64 = 1_000_000_000;

fn state_with(titles: &[&str]) -> AppState {
    let queries: Vec<String> = titles.iter().map(|t| t.to_string()).collect();
    AppState::new(
        3600 * NS,
        15 * NS,
        NS,
        "dash".to_string(),
        default_queries(queries),
        0,
    )
}

fn key(k: Key) -> KeyInput {
    KeyInput { key: k, shift: false }
}

fn shifted(k: Key) -> KeyInput {
    KeyInput { key: k, shift: true }
}

#[test]
fn test_zoom_out_saturates_at_seven_days() {
    let mut st = state_with(&["up"]);
    assert_eq!(st.range_ns, 3600 * NS);
    for _ in 0..20 {
        st.zoom_out();
    }
    assert_eq!(st.range_ns, MAX_RANGE_NS);
    assert_eq!(st.range_ns, 7 * 24 * 3600 * NS);
    st.zoom_out();
    assert_eq!(st.range_ns, MAX_RANGE_NS);
}

#[test]
fn test_zoom_in_saturates_at_ten_seconds() {
    let mut st = state_with(&["up"]);
    for _ in 0..30 {
        st.zoom_in();
    }
    assert_eq!(st.range_ns, MIN_RANGE_NS);
    assert_eq!(st.range_ns, 10 * NS);
    st.zoom_in();
    assert_eq!(st.range_ns, MIN_RANGE_NS);
}

#[test]
fn test_pan_right_reaches_exactly_zero() {
    let mut st = state_with(&["up"]);
    st.pan_left();
    // a quarter of an hour back
    assert_eq!(st.time_offset_ns, 900 * NS);
    assert!(!st.is_live());
    // offset now below one further shift plus a shift: two pans land on 0
    st.pan_right();
    assert_eq!(st.time_offset_ns, 0);
    assert!(st.is_live());
    // panning right while live stays at zero, never negative
    st.pan_right();
    assert_eq!(st.time_offset_ns, 0);
}

#[test]
fn test_pan_right_partial_shift_lands_live() {
    let mut st = state_with(&["up"]);
    st.pan_left();
    st.zoom_out(); // shift doubles, remaining offset is less than one shift
    st.pan_right();
    assert_eq!(st.time_offset_ns, 0);
    assert!(st.is_live());
}

#[test]
fn test_new_clamps_range() {
    let st = AppState::new(NS, 0, NS, "d".to_string(), Vec::new(), 0);
    assert_eq!(st.range_ns, MIN_RANGE_NS);
    let st = AppState::new(u64::MAX, 15 * NS, NS, "d".to_string(), Vec::new(), 0);
    assert_eq!(st.range_ns, MAX_RANGE_NS);
}

#[test]
fn test_quit_accepted_everywhere() {
    let now = 1_700_000_000;
    // the explicit quit intent works in every mode, search included
    for mode in [
        AppMode::Normal,
        AppMode::Fullscreen,
        AppMode::Inspect,
        AppMode::FullscreenInspect,
        AppMode::Search,
    ] {
        let mut st = state_with(&["up"]);
        st.mode = mode;
        assert_eq!(st.handle_key(key(Key::Quit), now), Action::Quit);
    }
    // the letter q quits too, everywhere except while typing a search
    for mode in [
        AppMode::Normal,
        AppMode::Fullscreen,
        AppMode::Inspect,
        AppMode::FullscreenInspect,
    ] {
        let mut st = state_with(&["up"]);
        st.mode = mode;
        assert_eq!(st.handle_key(key(Key::Char('q')), now), Action::Quit);
    }
}

#[test]
fn test_q_is_text_while_searching() {
    let now = 1_700_000_000;
    let mut st = state_with(&["up"]);
    st.handle_key(key(Key::Char('/')), now);
    assert_eq!(st.handle_key(key(Key::Char('q')), now), Action::Nothing);
    assert_eq!(st.search_query, "q");
    assert_eq!(st.mode, AppMode::Search);
}

#[test]
fn test_search_flow_matches_case_insensitively() {
    let now = 1_700_000_000;
    let mut st = state_with(&["CPU Usage", "Memory", "cpu temp"]);
    assert_eq!(st.handle_key(key(Key::Char('/')), now), Action::Nothing);
    assert_eq!(st.mode, AppMode::Search);
    st.handle_key(key(Key::Char('c')), now);
    st.handle_key(key(Key::Char('p')), now);
    st.handle_key(key(Key::Char('u')), now);
    assert_eq!(st.search_query, "cpu");
    assert_eq!(st.search_results, vec![0, 2]);
    // confirm jumps to the first match, fullscreen
    st.handle_key(key(Key::Enter), now);
    assert_eq!(st.mode, AppMode::Fullscreen);
    assert_eq!(st.selected_panel, 0);
    assert_eq!(st.search_query, "");
    assert!(st.search_results.is_empty());
}

#[test]
fn test_search_backspace_recomputes_and_esc_cancels() {
    let now = 1_700_000_000;
    let mut st = state_with(&["alpha", "beta"]);
    st.handle_key(key(Key::Char('/')), now);
    st.handle_key(key(Key::Char('b')), now);
    assert_eq!(st.search_results, vec![1]);
    st.handle_key(key(Key::Backspace), now);
    assert_eq!(st.search_query, "");
    assert!(st.search_results.is_empty());
    st.handle_key(key(Key::Esc), now);
    assert_eq!(st.mode, AppMode::Normal);
}

#[test]
fn test_inspect_seeds_and_moves_cursor() {
    let now: i64 = 1_700_000_000;
    let mut st = state_with(&["up"]);
    st.handle_key(key(Key::Char('v')), now);
    assert_eq!(st.mode, AppMode::Inspect);
    let end = now * NS as i64;
    let start = end - 3600 * NS as i64;
    let mid = start + (3600 * NS as i64) / 2;
    assert_eq!(st.cursor_ns, Some(mid));
    st.handle_key(key(Key::Right), now);
    assert_eq!(st.cursor_ns, Some(mid + 15 * NS as i64));
    st.handle_key(key(Key::Left), now);
    assert_eq!(st.cursor_ns, Some(mid));
    // leaving inspection clears the cursor
    st.handle_key(key(Key::Esc), now);
    assert_eq!(st.mode, AppMode::Normal);
    assert_eq!(st.cursor_ns, None);
}

#[test]
fn test_cursor_clamped_to_window() {
    let now: i64 = 1_700_000_000;
    let mut st = state_with(&["up"]);
    st.handle_key(key(Key::Char('v')), now);
    let end = now * NS as i64;
    let start = end - 3600 * NS as i64;
    // walk right past the window's end: the cursor lands exactly on it
    for _ in 0..200 {
        st.handle_key(key(Key::Right), now);
    }
    assert_eq!(st.cursor_ns, Some(end));
    // one more step stays clamped at the end
    st.handle_key(key(Key::Right), now);
    assert_eq!(st.cursor_ns, Some(end));
    // and walking left past the start lands exactly on the start
    for _ in 0..500 {
        st.handle_key(key(Key::Left), now);
    }
    assert_eq!(st.cursor_ns, Some(start));
}

#[test]
fn test_cursor_partial_step_clamps_to_edge() {
    // a cursor within one step of the window's end lands exactly on the
    // end, not short of it
    let now: i64 = 1_700_000_000;
    let mut st = state_with(&["up"]);
    st.mode = AppMode::Inspect;
    let end = now * NS as i64;
    st.cursor_ns = Some(end - 7 * NS as i64); // step is 15s
    st.handle_key(key(Key::Right), now);
    assert_eq!(st.cursor_ns, Some(end));
}

#[test]
fn test_fullscreen_toggle_and_pan_keys() {
    let now = 1_700_000_000;
    let mut st = state_with(&["up"]);
    st.handle_key(key(Key::Char('f')), now);
    assert_eq!(st.mode, AppMode::Fullscreen);
    assert_eq!(st.handle_key(shifted(Key::Left), now), Action::Refresh);
    assert_eq!(st.time_offset_ns, 900 * NS);
    assert_eq!(st.handle_key(key(Key::Char('0')), now), Action::Refresh);
    assert_eq!(st.time_offset_ns, 0);
    st.handle_key(key(Key::Esc), now);
    assert_eq!(st.mode, AppMode::Normal);
}

#[test]
fn test_digit_keys_toggle_visibility() {
    let now = 1_700_000_000;
    let mut st = state_with(&["up"]);
    st.panels[0].series = vec![
        grafatui::panel::SeriesView {
            name: "a".to_string(),
            value: None,
            points: Vec::new(),
            visible: true,
        },
        grafatui::panel::SeriesView {
            name: "b".to_string(),
            value: None,
            points: Vec::new(),
            visible: true,
        },
    ];
    st.handle_key(key(Key::Char('1')), now);
    assert!(!st.panels[0].series[0].visible);
    assert!(st.panels[0].series[1].visible);
    st.handle_key(key(Key::Char('0')), now);
    assert!(st.panels[0].series[0].visible);
    assert!(st.panels[0].series[1].visible);
    // digit zero in normal mode shows series; it does not reset the window
    st.pan_left();
    let off = st.time_offset_ns;
    st.handle_key(key(Key::Char('0')), now);
    assert_eq!(st.time_offset_ns, off);
}

#[test]
fn test_selection_and_scroll_keys() {
    let now = 1_700_000_000;
    let mut st = state_with(&["a", "b", "c"]);
    st.handle_key(key(Key::Down), now);
    st.handle_key(key(Key::Down), now);
    st.handle_key(key(Key::Down), now);
    assert_eq!(st.selected_panel, 2);
    st.handle_key(key(Key::Up), now);
    assert_eq!(st.selected_panel, 1);
    st.handle_key(key(Key::PageDown), now);
    assert_eq!(st.vertical_scroll, 10);
    st.handle_key(key(Key::Home), now);
    assert_eq!(st.vertical_scroll, 0);
}

#[test]
fn test_click_selects_and_places_cursor() {
    let now: i64 = 1_700_000_000;
    let mut st = state_with(&["a", "b"]);
    // a panel drawn from column 10, 42 cells wide; click in the middle
    st.handle_click(1, 10, 42, 31, now);
    assert_eq!(st.selected_panel, 1);
    assert_eq!(st.mode, AppMode::Inspect);
    let end = now * NS as i64;
    let start = end - 3600 * NS as i64;
    // 20 of 40 chart cells: half the window
    assert_eq!(st.cursor_ns, Some(start + (3600 * NS as i64) / 2));
}

#[test]
fn test_y_axis_toggle() {
    let now = 1_700_000_000;
    let mut st = state_with(&["up"]);
    assert_eq!(st.panels[0].y_axis_mode, grafatui::panel::YAxisMode::Auto);
    st.handle_key(key(Key::Char('y')), now);
    assert_eq!(st.panels[0].y_axis_mode, grafatui::panel::YAxisMode::ZeroBased);
    st.handle_key(key(Key::Char('y')), now);
    assert_eq!(st.panels[0].y_axis_mode, grafatui::panel::YAxisMode::Auto);
}
