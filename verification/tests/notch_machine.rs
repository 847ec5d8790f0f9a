use yado_notch::notch::{
    centered_top_rect, collapse_now, commit_write, contains, surface_main, daemon_tick, expand_now, toggle_main, confirm_ignore,
    DaemonState, Observation, Rect, Stage, StageState, StageWrite, CLOSE_GRACE_NS, OPEN_DWELL_NS,
};

fn st(stage: Stage, pin: bool, collapse_requested: bool) -> StageState {
    StageState { stage, pin, collapse_requested }
}

fn obs(over_island: bool, over_pill: bool, left_down: bool, now: u64) -> Observation {
    Observation { over_island, over_pill, left_down, now }
}

#[test]
fn stage_names() {
    assert_eq!(Stage::Hidden.as_str(), "hidden");
    assert_eq!(Stage::Compact.as_str(), "compact");
    assert_eq!(Stage::Expanded.as_str(), "expanded");
    assert!(Stage::Compact.sinks_to_desktop());
    assert!(!Stage::Expanded.sinks_to_desktop());
}

#[test]
fn hover_dwell_expands_pill() {
    let mut d = DaemonState::new();
    let s = st(Stage::Compact, false, false);
    let out = daemon_tick(&mut d, s, obs(true, true, false, 1_000));
    assert_eq!(out.apply, None);
    assert_eq!(d.dwell_since, Some(1_000));
    let out = daemon_tick(&mut d, s, obs(true, true, false, 1_000 + OPEN_DWELL_NS - 1));
    assert_eq!(out.apply, None);
    let out = daemon_tick(&mut d, s, obs(true, true, false, 1_000 + OPEN_DWELL_NS));
    assert_eq!(out.apply, Some(Stage::Expanded));
    assert_eq!(out.store, Some(StageWrite { stage: Stage::Expanded, collapse_requested: false }));
    // Over the island: the window takes the pointer.
    assert_eq!(out.set_ignore, Some(false));
}

#[test]
fn leaving_pill_resets_dwell() {
    let mut d = DaemonState::new();
    let s = st(Stage::Compact, false, false);
    daemon_tick(&mut d, s, obs(false, true, false, 0));
    daemon_tick(&mut d, s, obs(false, false, false, 100));
    assert_eq!(d.dwell_since, None);
    let out = daemon_tick(&mut d, s, obs(false, true, false, OPEN_DWELL_NS + 100));
    assert_eq!(out.apply, None);
}

#[test]
fn collapse_request_blocks_until_pointer_leaves() {
    let mut s = st(Stage::Expanded, false, false);
    assert_eq!(collapse_now(&mut s), Some(Stage::Compact));
    assert_eq!(s, st(Stage::Compact, false, true));
    let mut d = DaemonState::new();
    let out = daemon_tick(&mut d, s, obs(true, true, false, 0));
    assert_eq!(out.apply, None);
    assert_eq!(out.store, Some(StageWrite { stage: Stage::Compact, collapse_requested: false }));
    assert!(d.block_dwell);
    let s = st(Stage::Compact, false, false);
    let out = daemon_tick(&mut d, s, obs(true, true, false, 10 * OPEN_DWELL_NS));
    assert_eq!(out.apply, None);
    // Leaving the pill re-arms the dwell.
    daemon_tick(&mut d, s, obs(false, false, false, 11 * OPEN_DWELL_NS));
    assert!(!d.block_dwell);
}

#[test]
fn outside_press_dismisses_unpinned_island() {
    let mut d = DaemonState::new();
    let s = st(Stage::Expanded, false, false);
    let out = daemon_tick(&mut d, s, obs(false, false, true, 5));
    assert_eq!(out.store, Some(StageWrite { stage: Stage::Compact, collapse_requested: true }));
    assert_eq!(out.apply, Some(Stage::Compact));
    assert!(!out.emit_outside);
    assert!(d.block_dwell);
}

#[test]
fn outside_press_on_pinned_island_is_reported() {
    let mut d = DaemonState::new();
    let s = st(Stage::Expanded, true, false);
    let out = daemon_tick(&mut d, s, obs(false, false, true, 5));
    assert!(out.emit_outside);
    assert_eq!(out.apply, None);
    // Holding the button is no new press.
    let out = daemon_tick(&mut d, s, obs(false, false, true, 6));
    assert!(!out.emit_outside);
}

#[test]
fn leave_grace_collapses_unpinned_island() {
    let mut d = DaemonState::new();
    let s = st(Stage::Expanded, false, false);
    let out = daemon_tick(&mut d, s, obs(false, false, false, 100));
    assert_eq!(out.apply, None);
    assert_eq!(d.outside_since, Some(100));
    let out = daemon_tick(&mut d, s, obs(false, false, false, 100 + CLOSE_GRACE_NS));
    assert_eq!(out.apply, Some(Stage::Compact));
}

#[test]
fn pinned_island_ignores_leave() {
    let mut d = DaemonState::new();
    let s = st(Stage::Expanded, true, false);
    daemon_tick(&mut d, s, obs(false, false, false, 0));
    let out = daemon_tick(&mut d, s, obs(false, false, false, 10 * CLOSE_GRACE_NS));
    assert_eq!(out.apply, None);
}

#[test]
fn hidden_widget_is_inert() {
    let mut d = DaemonState::new();
    d.dwell_since = Some(3);
    let s = st(Stage::Hidden, false, false);
    let out = daemon_tick(&mut d, s, obs(true, true, true, 10 * OPEN_DWELL_NS));
    assert_eq!(out.apply, None);
    assert_eq!(out.store, None);
    assert_eq!(out.set_ignore, None);
    assert_eq!(d.dwell_since, None);
}

#[test]
fn click_through_request_is_confirmed() {
    let mut d = DaemonState::new();
    let s = st(Stage::Compact, false, false);
    let out = daemon_tick(&mut d, s, obs(false, true, false, 0));
    assert_eq!(out.set_ignore, Some(false));
    confirm_ignore(&mut d, false, false);
    assert!(d.ignore);
    confirm_ignore(&mut d, false, true);
    assert!(!d.ignore);
}

#[test]
fn expand_and_toggle() {
    let mut s = st(Stage::Hidden, true, false);
    assert_eq!(expand_now(&mut s), None);
    assert_eq!(s.stage, Stage::Hidden);
    assert!(!toggle_main(&mut s));
    assert_eq!(s, st(Stage::Compact, true, false));
    assert_eq!(expand_now(&mut s), Some(Stage::Expanded));
    assert!(toggle_main(&mut s));
    assert_eq!(s, st(Stage::Hidden, false, true));
    assert!(!toggle_main(&mut s));
    assert_eq!(s.stage, Stage::Compact);
}

#[test]
fn rect_geometry() {
    let r = Rect { x: 10, y: 0, w: 5, h: 2 };
    assert!(contains(&r, 10, 0));
    assert!(contains(&r, 14, 1));
    assert!(!contains(&r, 15, 1));
    assert!(!contains(&r, 9, 0));
    assert_eq!(centered_top_rect(100, 7, 600, 340, 44), Rect { x: 230, y: 7, w: 340, h: 44 });
    // Odd and negative gaps round toward zero.
    assert_eq!(centered_top_rect(0, 0, 101, 100, 1).x, 0);
    assert_eq!(centered_top_rect(0, 0, 100, 103, 1).x, -1);
}

#[test]
fn poll_write_does_not_unhide_widget() {
    // The poll decides to expand from a compact snapshot ...
    let snap = st(Stage::Compact, false, false);
    let mut d = DaemonState::new();
    d.dwell_since = Some(0);
    let out = daemon_tick(&mut d, snap, obs(false, true, false, OPEN_DWELL_NS));
    assert_eq!(out.apply, Some(Stage::Expanded));
    let w = out.store.unwrap();
    // ... but the tray hid the widget before the write landed.
    let mut shared = snap;
    assert!(toggle_main(&mut shared));
    let hidden = shared;
    assert!(!commit_write(&mut shared, w));
    assert_eq!(shared, hidden);
    // Without the tray in between, the write lands.
    let mut shared = snap;
    assert!(commit_write(&mut shared, w));
    assert_eq!(shared, st(Stage::Expanded, false, false));
    let mut shared = st(Stage::Expanded, true, true);
    assert!(commit_write(&mut shared, StageWrite { stage: Stage::Compact, collapse_requested: false }));
    assert_eq!(shared, st(Stage::Compact, true, false));
}

#[test]
fn second_launch_surfaces_widget() {
    let mut s = st(Stage::Expanded, true, false);
    assert!(toggle_main(&mut s));
    assert_eq!(surface_main(&mut s), Stage::Compact);
    assert_eq!(s, st(Stage::Compact, false, true));
    let mut v = st(Stage::Expanded, true, false);
    assert_eq!(surface_main(&mut v), Stage::Compact);
    assert_eq!(v, st(Stage::Compact, true, false));
}
