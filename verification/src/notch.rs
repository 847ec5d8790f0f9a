//! The notch presentation state machine.
//!
//! One poll loop is the authority over the island's stage
//! (`Hidden | Compact | Expanded`). Each poll it observes the cursor and the
//! left button, and [`daemon_tick`] decides: the next stage, what to store
//! back into the shared state, which stage to apply (notify + z-order), and
//! whether click-through has to change. Commands and the tray change the
//! shared state through [`expand_now`], [`collapse_now`] and [`toggle_main`].
use vstd::prelude::*;

verus! {

/// Hover dwell before the pill expands, in nanoseconds.
pub const OPEN_DWELL_NS: u64 = 180_000_000;
/// Grace period after the cursor leaves before the panel collapses, in nanoseconds.
pub const CLOSE_GRACE_NS: u64 = 400_000_000;

#[derive(Clone, Copy, PartialEq, Eq, Debug, Structural)]
pub enum Stage {
    Hidden,
    Compact,
    Expanded,
}

pub open spec fn stage_name(stage: Stage) -> Seq<char> {
    match stage {
        Stage::Hidden => "hidden"@,
        Stage::Compact => "compact"@,
        Stage::Expanded => "expanded"@,
    }
}

impl Stage {
    /// The name the webview receives for this stage.
    pub fn as_str(self) -> (s: &'static str)
        ensures
            s@ == stage_name(self),
    {
        match self {
            Stage::Hidden => "hidden",
            Stage::Compact => "compact",
            Stage::Expanded => "expanded",
        }
    }

    /// Whether the window belongs on the desktop layer in this stage: it is
    /// raised only while expanded.
    pub fn sinks_to_desktop(self) -> (b: bool)
        ensures
            b == (self != Stage::Expanded),
    {
        self != Stage::Expanded
    }
}

/// The part of the shared notch state that the decisions read and write.
#[derive(Clone, Copy, PartialEq, Eq, Debug, Structural)]
pub struct StageState {
    pub stage: Stage,
    /// Set while transient UI keeps the island expanded.
    pub pin: bool,
    /// One-shot request to collapse immediately (close button, Esc, tray).
    pub collapse_requested: bool,
}

/// The shared state after an immediate expand request.
pub open spec fn expanded_state(s: StageState) -> StageState {
    if s.stage == Stage::Hidden {
        s
    } else {
        StageState { stage: Stage::Expanded, ..s }
    }
}

/// The shared state after an immediate collapse request.
pub open spec fn collapsed_state(s: StageState) -> StageState {
    if s.stage == Stage::Hidden {
        s
    } else {
        StageState { stage: Stage::Compact, collapse_requested: true, ..s }
    }
}

/// The shared state after the tray's show/hide toggle.
pub open spec fn toggled_state(s: StageState) -> StageState {
    if s.stage != Stage::Hidden {
        StageState { stage: Stage::Hidden, pin: false, collapse_requested: true }
    } else {
        StageState { stage: Stage::Compact, ..s }
    }
}

/// Immediately expands the island (pill click). A hidden widget stays
/// hidden. Returns the stage to apply, if any.
pub fn expand_now(s: &mut StageState) -> (apply: Option<Stage>)
    ensures
        *final(s) == expanded_state(*old(s)),
        apply == (if old(s).stage == Stage::Hidden { None } else { Some(Stage::Expanded) }),
{
    if s.stage == Stage::Hidden {
        return None;
    }
    s.stage = Stage::Expanded;
    Some(Stage::Expanded)
}

/// Immediately collapses the island (close button, Esc) and blocks the hover
/// dwell until the cursor leaves the pill. A hidden widget stays hidden.
/// Returns the stage to apply, if any.
pub fn collapse_now(s: &mut StageState) -> (apply: Option<Stage>)
    ensures
        *final(s) == collapsed_state(*old(s)),
        apply == (if old(s).stage == Stage::Hidden { None } else { Some(Stage::Compact) }),
{
    if s.stage == Stage::Hidden {
        return None;
    }
    s.stage = Stage::Compact;
    s.collapse_requested = true;
    Some(Stage::Compact)
}

/// Tray toggle: hides a visible widget (dropping any pin and asking for a
/// collapse), or brings a hidden one back as the compact pill. Returns
/// whether the widget is now hidden.
pub fn toggle_main(s: &mut StageState) -> (to_hidden: bool)
    ensures
        to_hidden == (old(s).stage != Stage::Hidden),
        *final(s) == toggled_state(*old(s)),
{
    let to_hidden = s.stage != Stage::Hidden;
    s.stage = if to_hidden {
        Stage::Hidden
    } else {
        Stage::Compact
    };
    if to_hidden {
        s.pin = false;
        s.collapse_requested = true;
    }
    to_hidden
}

/// The shared state after a second launch of the app surfaces the running
/// widget: it shows as the compact pill, whether it was hidden or not.
pub open spec fn surfaced_state(s: StageState) -> StageState {
    StageState { stage: Stage::Compact, ..s }
}

/// A second launch of the app: the running widget comes back as the compact
/// pill (from the tray's Hidden too). Returns the stage to apply.
pub fn surface_main(s: &mut StageState) -> (apply: Stage)
    ensures
        *final(s) == surfaced_state(*old(s)),
        apply == Stage::Compact,
{
    s.stage = Stage::Compact;
    Stage::Compact
}

/// What the poll loop remembers between polls.
#[derive(Clone, Copy, PartialEq, Eq, Debug, Structural)]
pub struct DaemonState {
    /// When the cursor started dwelling over the compact pill (ns).
    pub dwell_since: Option<u64>,
    /// When the cursor left the expanded island (ns).
    pub outside_since: Option<u64>,
    /// Hover dwell stays blocked until the cursor leaves the pill.
    pub block_dwell: bool,
    /// Whether the window currently lets clicks through.
    pub ignore: bool,
    /// Left button state at the previous poll.
    pub prev_left_down: bool,
}

impl DaemonState {
    /// The state the poll loop starts in: click-through on, nothing pending.
    pub fn new() -> (d: DaemonState)
        ensures
            d == (DaemonState {
                dwell_since: None,
                outside_since: None,
                block_dwell: false,
                ignore: true,
                prev_left_down: false,
            }),
    {
        DaemonState {
            dwell_since: None,
            outside_since: None,
            block_dwell: false,
            ignore: true,
            prev_left_down: false,
        }
    }
}

/// One poll's observation of the pointer.
#[derive(Clone, Copy, PartialEq, Eq, Debug, Structural)]
pub struct Observation {
    /// The cursor is over the expanded island's rectangle.
    pub over_island: bool,
    /// The cursor is over the compact pill's rectangle.
    pub over_pill: bool,
    /// The left mouse button is down.
    pub left_down: bool,
    /// Monotonic time of the poll (ns).
    pub now: u64,
}

/// Values to write into the shared state (only these two fields).
#[derive(Clone, Copy, PartialEq, Eq, Debug, Structural)]
pub struct StageWrite {
    pub stage: Stage,
    pub collapse_requested: bool,
}

/// What the poll loop has to do after one decision.
#[derive(Clone, Copy, PartialEq, Eq, Debug, Structural)]
pub struct TickOutcome {
    /// Tell the frontend that the user pressed outside the (pinned) island.
    pub emit_outside: bool,
    /// New stage and collapse request to write into the shared state.
    pub store: Option<StageWrite>,
    /// Stage transition to apply (notify the webview, fix the z-order).
    pub apply: Option<Stage>,
    /// New click-through setting to request from the window.
    pub set_ignore: Option<bool>,
}

pub open spec fn elapsed(since: u64, now: u64) -> int {
    if now >= since {
        now - since
    } else {
        0
    }
}

pub open spec fn no_outcome() -> TickOutcome {
    TickOutcome { emit_outside: false, store: None, apply: None, set_ignore: None }
}

/// A left-button press (edge) outside the expanded island.
pub open spec fn pressed_outside(d: DaemonState, snap: StageState, obs: Observation) -> bool {
    obs.left_down && !d.prev_left_down && snap.stage == Stage::Expanded && !obs.over_island
}

/// Whether the hover dwell is blocked at this poll.
pub open spec fn dwell_blocked(d: DaemonState, snap: StageState, obs: Observation) -> bool {
    (d.block_dwell || snap.collapse_requested) && obs.over_pill
}

/// The stage the hover logic moves to, with the updated dwell and outside timers.
pub open spec fn hover_step(d: DaemonState, snap: StageState, obs: Observation) -> (
    Stage,
    Option<u64>,
    Option<u64>,
) {
    match snap.stage {
        Stage::Compact => {
            if obs.over_pill && !dwell_blocked(d, snap, obs) {
                let since = match d.dwell_since {
                    Some(t) => t,
                    None => obs.now,
                };
                let next = if elapsed(since, obs.now) >= OPEN_DWELL_NS {
                    Stage::Expanded
                } else {
                    Stage::Compact
                };
                (next, Some(since), d.outside_since)
            } else {
                (Stage::Compact, None, d.outside_since)
            }
        },
        Stage::Expanded => {
            if obs.over_island {
                (Stage::Expanded, d.dwell_since, None)
            } else if !snap.pin {
                let since = match d.outside_since {
                    Some(t) => t,
                    None => obs.now,
                };
                let next = if elapsed(since, obs.now) >= CLOSE_GRACE_NS {
                    Stage::Compact
                } else {
                    Stage::Expanded
                };
                (next, d.dwell_since, Some(since))
            } else {
                (Stage::Expanded, d.dwell_since, d.outside_since)
            }
        },
        Stage::Hidden => (Stage::Hidden, d.dwell_since, d.outside_since),
    }
}

/// Click-through wanted once the stage is `next`: only the visible island
/// receives the pointer.
pub open spec fn wanted_ignore(next: Stage, obs: Observation) -> bool {
    if next == Stage::Expanded {
        !obs.over_island
    } else {
        !obs.over_pill
    }
}

/// One poll of the daemon: the next loop state and what to do.
pub open spec fn tick(d: DaemonState, snap: StageState, obs: Observation) -> (DaemonState, TickOutcome) {
    if snap.stage == Stage::Hidden {
        (DaemonState { dwell_since: None, outside_since: None, ..d }, no_outcome())
    } else if pressed_outside(d, snap, obs) && !snap.pin {
        (
            DaemonState {
                dwell_since: None,
                outside_since: None,
                block_dwell: true,
                prev_left_down: obs.left_down,
                ..d
            },
            TickOutcome {
                emit_outside: false,
                store: Some(StageWrite { stage: Stage::Compact, collapse_requested: true }),
                apply: Some(Stage::Compact),
                set_ignore: None,
            },
        )
    } else {
        let block = dwell_blocked(d, snap, obs);
        let (next, dwell, outside) = hover_step(d, snap, obs);
        let changed = snap.collapse_requested || next != snap.stage;
        let want = wanted_ignore(next, obs);
        (
            DaemonState {
                dwell_since: if changed { None } else { dwell },
                outside_since: if changed { None } else { outside },
                block_dwell: block && next == Stage::Compact,
                ignore: d.ignore,
                prev_left_down: obs.left_down,
            },
            TickOutcome {
                emit_outside: pressed_outside(d, snap, obs),
                store: if changed { Some(StageWrite { stage: next, collapse_requested: false }) } else { None },
                apply: if next != snap.stage { Some(next) } else { None },
                set_ignore: if want != d.ignore { Some(want) } else { None },
            },
        )
    }
}

/// Decides one poll of the daemon from the loop state `d`, a snapshot of the
/// shared state and the pointer observation.
pub fn daemon_tick(d: &mut DaemonState, snap: StageState, obs: Observation) -> (out: TickOutcome)
    ensures
        (*final(d), out) == tick(*old(d), snap, obs),
{
    if snap.stage == Stage::Hidden {
        d.dwell_since = None;
        d.outside_since = None;
        return TickOutcome { emit_outside: false, store: None, apply: None, set_ignore: None };
    }
    let pressed = obs.left_down && !d.prev_left_down && snap.stage == Stage::Expanded
        && !obs.over_island;
    d.prev_left_down = obs.left_down;
    if pressed && !snap.pin {
        d.dwell_since = None;
        d.outside_since = None;
        d.block_dwell = true;
        return TickOutcome {
            emit_outside: false,
            store: Some(StageWrite { stage: Stage::Compact, collapse_requested: true }),
            apply: Some(Stage::Compact),
            set_ignore: None,
        };
    }
    let emit_outside = pressed;
    let block = (d.block_dwell || snap.collapse_requested) && obs.over_pill;

    let mut next = snap.stage;
    match snap.stage {
        Stage::Compact => {
            if obs.over_pill && !block {
                let since = match d.dwell_since {
                    Some(t) => t,
                    None => obs.now,
                };
                d.dwell_since = Some(since);
                let waited = if obs.now >= since {
                    obs.now - since
                } else {
                    0
                };
                if waited >= OPEN_DWELL_NS {
                    next = Stage::Expanded;
                }
            } else {
                d.dwell_since = None;
            }
        },
        Stage::Expanded => {
            if obs.over_island {
                d.outside_since = None;
            } else if !snap.pin {
                let since = match d.outside_since {
                    Some(t) => t,
                    None => obs.now,
                };
                d.outside_since = Some(since);
                let waited = if obs.now >= since {
                    obs.now - since
                } else {
                    0
                };
                if waited >= CLOSE_GRACE_NS {
                    next = Stage::Compact;
                }
            }
        },
        Stage::Hidden => {},
    }

    let mut store = None;
    let mut apply = None;
    if snap.collapse_requested || next != snap.stage {
        store = Some(StageWrite { stage: next, collapse_requested: false });
        if next != snap.stage {
            apply = Some(next);
        }
        d.dwell_since = None;
        d.outside_since = None;
    }
    d.block_dwell = block && next == Stage::Compact;

    let want_ignore = if next == Stage::Expanded {
        !obs.over_island
    } else {
        !obs.over_pill
    };
    let set_ignore = if want_ignore != d.ignore {
        Some(want_ignore)
    } else {
        None
    };
    TickOutcome { emit_outside, store, apply, set_ignore }
}

/// Records the outcome of a click-through request: the loop's belief only
/// changes when the window accepted it.
pub fn confirm_ignore(d: &mut DaemonState, want: bool, accepted: bool)
    ensures
        *final(d) == (DaemonState { ignore: if accepted { want } else { old(d).ignore }, ..*old(d) }),
{
    if accepted {
        d.ignore = want;
    }
}

/// The shared state once a poll's write lands on `current`, which the tray
/// may have changed since the poll read it: a widget hidden in the meantime
/// stays as it is.
pub open spec fn committed_state(current: StageState, w: StageWrite) -> StageState {
    if current.stage == Stage::Hidden {
        current
    } else {
        StageState { stage: w.stage, collapse_requested: w.collapse_requested, ..current }
    }
}

/// Writes a poll's decision into the shared state, unless the widget was
/// hidden since the poll read it. Returns whether it was written, and so
/// whether the poll's stage change is still to be applied.
pub fn commit_write(s: &mut StageState, w: StageWrite) -> (written: bool)
    ensures
        written == (old(s).stage != Stage::Hidden),
        *final(s) == committed_state(*old(s), w),
{
    if s.stage == Stage::Hidden {
        return false;
    }
    s.stage = w.stage;
    s.collapse_requested = w.collapse_requested;
    true
}

/// A rectangle in physical screen pixels.
#[derive(Clone, Copy, PartialEq, Eq, Debug, Structural)]
pub struct Rect {
    pub x: i32,
    pub y: i32,
    pub w: i32,
    pub h: i32,
}

/// The point lies in the half-open rectangle.
pub open spec fn rect_has(r: Rect, x: int, y: int) -> bool {
    r.x <= x < r.x + r.w && r.y <= y < r.y + r.h
}

/// Rust's `/ 2` on a signed value: rounds toward zero.
pub open spec fn half_toward_zero(v: int) -> int {
    if v >= 0 {
        v / 2
    } else {
        -((-v) / 2)
    }
}

/// Whether the point `(x, y)` lies in `r`.
pub fn contains(r: &Rect, x: i32, y: i32) -> (b: bool)
    requires
        i32::MIN <= r.x + r.w <= i32::MAX,
        i32::MIN <= r.y + r.h <= i32::MAX,
    ensures
        b == rect_has(*r, x as int, y as int),
{
    x >= r.x && x < r.x + r.w && y >= r.y && y < r.y + r.h
}

/// A `w` x `h` rectangle at the top edge of an outer box that starts at
/// `(outer_x, outer_y)` and is `outer_w` wide, centered horizontally (the
/// pill inside the window, or the expanded island inside the canvas).
pub fn centered_top_rect(outer_x: i32, outer_y: i32, outer_w: i32, w: i32, h: i32) -> (r: Rect)
    requires
        i32::MIN <= outer_w - w <= i32::MAX,
        i32::MIN <= outer_x + half_toward_zero(outer_w - w) <= i32::MAX,
    ensures
        r == (Rect { x: (outer_x + half_toward_zero(outer_w - w)) as i32, y: outer_y, w, h }),
{
    let gap = outer_w - w;
    let half = if gap >= 0 {
        gap / 2
    } else {
        -((-(gap as i64)) / 2) as i32
    };
    Rect { x: outer_x + half, y: outer_y, w, h }
}

/// The stage in effect after a poll decided `out` on a snapshot at `stage`.
pub open spec fn resulting_stage(stage: Stage, out: TickOutcome) -> Stage {
    match out.apply {
        Some(next) => next,
        None => stage,
    }
}

/// While the widget is hidden a poll does nothing but forget its timers.
pub proof fn law_hidden_poll_is_inert(d: DaemonState, snap: StageState, obs: Observation)
    requires
        snap.stage == Stage::Hidden,
    ensures
        tick(d, snap, obs).1 == no_outcome(),
        tick(d, snap, obs).0 == (DaemonState { dwell_since: None, outside_since: None, ..d }),
{
}

/// A pinned, expanded island is never collapsed by a poll: neither by the
/// leave grace nor by a click outside (which is only reported to the frontend).
pub proof fn law_pinned_island_stays_expanded(d: DaemonState, snap: StageState, obs: Observation)
    requires
        snap.stage == Stage::Expanded,
        snap.pin,
    ensures
        tick(d, snap, obs).1.apply is None,
        tick(d, snap, obs).1.store matches Some(w) ==> w.stage == Stage::Expanded,
        tick(d, snap, obs).1.emit_outside == pressed_outside(d, snap, obs),
{
}

/// The pill only expands after the cursor has dwelt over it for the open
/// dwell, with the dwell not blocked by a recent collapse.
pub proof fn law_expansion_needs_dwell(d: DaemonState, snap: StageState, obs: Observation)
    ensures
        tick(d, snap, obs).1.apply == Some(Stage::Expanded) ==> {
            &&& snap.stage == Stage::Compact
            &&& obs.over_pill
            &&& !d.block_dwell
            &&& !snap.collapse_requested
            &&& d.dwell_since matches Some(t) && elapsed(t, obs.now) >= OPEN_DWELL_NS
        },
{
}

/// After a collapse request the island does not re-expand while the cursor
/// stays over the pill: the request is consumed and the block carried to the
/// next poll.
pub proof fn law_collapse_request_blocks_dwell(d: DaemonState, snap: StageState, obs: Observation)
    requires
        snap.stage == Stage::Compact,
        snap.collapse_requested || d.block_dwell,
        obs.over_pill,
    ensures
        tick(d, snap, obs).1.apply is None,
        tick(d, snap, obs).0.block_dwell,
        snap.collapse_requested ==> tick(d, snap, obs).1.store == Some(
            StageWrite { stage: Stage::Compact, collapse_requested: false },
        ),
{
}

/// Closing the island by command cannot be undone by the very next poll.
pub proof fn law_collapse_now_is_not_undone(d: DaemonState, s: StageState, obs: Observation)
    ensures
        tick(d, collapsed_state(s), obs).1.apply != Some(Stage::Expanded),
{
}

/// Pressing outside an unpinned expanded island collapses it at once.
pub proof fn law_outside_press_dismisses(d: DaemonState, snap: StageState, obs: Observation)
    requires
        snap.stage == Stage::Expanded,
        !snap.pin,
        obs.left_down,
        !d.prev_left_down,
        !obs.over_island,
    ensures
        tick(d, snap, obs).1.store == Some(StageWrite { stage: Stage::Compact, collapse_requested: true }),
        tick(d, snap, obs).1.apply == Some(Stage::Compact),
        tick(d, snap, obs).0.block_dwell,
{
}

/// An unpinned island collapses once the cursor has been outside it for the
/// close grace.
pub proof fn law_leave_grace_collapses(d: DaemonState, snap: StageState, obs: Observation, t: u64)
    requires
        snap.stage == Stage::Expanded,
        !snap.pin,
        !obs.over_island,
        d.outside_since == Some(t),
        elapsed(t, obs.now) >= CLOSE_GRACE_NS,
    ensures
        tick(d, snap, obs).1.apply == Some(Stage::Compact),
{
}

/// Click-through follows the stage: only the visible island (the expanded
/// panel, or else the pill) takes the pointer. Whenever the poll did not
/// collapse on an outside press, the requested setting is the wanted one,
/// and no request means the window already has it.
pub proof fn law_click_through_follows_stage(d: DaemonState, snap: StageState, obs: Observation)
    requires
        snap.stage != Stage::Hidden,
        !(pressed_outside(d, snap, obs) && !snap.pin),
    ensures
        ({
            let out = tick(d, snap, obs).1;
            let want = wanted_ignore(resulting_stage(snap.stage, out), obs);
            &&& out.set_ignore matches Some(w) ==> w == want
            &&& out.set_ignore is None ==> d.ignore == want
        }),
{
}

/// Click-through on a poll that did not dismiss the island: once the stage
/// is Expanded, the window takes the pointer exactly while the cursor is
/// over the expanded island; otherwise exactly while it is over the pill.
/// A request asks for that setting, and no request means the window
/// already has it.
pub proof fn law_click_through_by_stage(d: DaemonState, snap: StageState, obs: Observation)
    requires
        snap.stage != Stage::Hidden,
        !(obs.left_down && !d.prev_left_down && snap.stage == Stage::Expanded && !obs.over_island
            && !snap.pin),
    ensures
        ({
            let out = tick(d, snap, obs).1;
            let after = match out.apply {
                Some(next) => next,
                None => snap.stage,
            };
            &&& after == Stage::Expanded ==> (out.set_ignore matches Some(w) ==> w == !obs.over_island)
            &&& after == Stage::Expanded ==> (out.set_ignore is None ==> d.ignore == !obs.over_island)
            &&& after != Stage::Expanded ==> (out.set_ignore matches Some(w) ==> w == !obs.over_pill)
            &&& after != Stage::Expanded ==> (out.set_ignore is None ==> d.ignore == !obs.over_pill)
        }),
{
}

/// Hovering the pill expands it: a first poll over the pill starts the
/// dwell, and a poll still over it once the dwell has passed expands.
pub proof fn law_hover_expands(d: DaemonState, snap: StageState, o1: Observation, o2: Observation)
    requires
        snap.stage == Stage::Compact,
        !snap.collapse_requested,
        !d.block_dwell,
        d.dwell_since is None,
        o1.over_pill,
        o2.over_pill,
        o2.now >= o1.now + OPEN_DWELL_NS,
    ensures
        tick(d, snap, o1).1.apply is None,
        tick(tick(d, snap, o1).0, snap, o2).1.apply == Some(Stage::Expanded),
{
}

/// Leaving an unpinned island collapses it: a first poll outside starts
/// the grace, and a poll still outside once the grace has passed collapses.
pub proof fn law_leave_collapses(d: DaemonState, snap: StageState, o1: Observation, o2: Observation)
    requires
        snap.stage == Stage::Expanded,
        !snap.pin,
        !snap.collapse_requested,
        d.outside_since is None,
        !o1.over_island,
        !o2.over_island,
        !o1.left_down,
        !o2.left_down,
        o2.now >= o1.now + CLOSE_GRACE_NS,
    ensures
        tick(d, snap, o1).1.apply is None,
        tick(tick(d, snap, o1).0, snap, o2).1.apply == Some(Stage::Compact),
{
}

/// The poll never moves the shared stage into or out of Hidden, even when
/// the tray changed the shared state between the poll's read and its write:
/// whatever the shared state is when the write lands, it is hidden afterwards
/// exactly when it was hidden before; a stage change comes only with a write;
/// and a poll that read a hidden widget writes, applies and requests nothing.
pub proof fn law_poll_never_crosses_hidden(
    d: DaemonState,
    snap: StageState,
    obs: Observation,
    current: StageState,
)
    ensures
        tick(d, snap, obs).1.store matches Some(w) ==> {
            &&& w.stage != Stage::Hidden
            &&& (committed_state(current, w).stage == Stage::Hidden) == (current.stage == Stage::Hidden)
        },
        tick(d, snap, obs).1.apply != Some(Stage::Hidden),
        tick(d, snap, obs).1.apply is Some ==> tick(d, snap, obs).1.store is Some,
        snap.stage == Stage::Hidden ==> tick(d, snap, obs).1 == no_outcome(),
{
}

/// Toggling twice brings a visible widget back as the unpinned compact pill,
/// and leaves a hidden one hidden.
pub proof fn law_toggle_twice(s: StageState)
    ensures
        s.stage != Stage::Hidden ==> toggled_state(toggled_state(s)) == (StageState {
            stage: Stage::Compact,
            pin: false,
            collapse_requested: true,
        }),
        s.stage == Stage::Hidden ==> toggled_state(toggled_state(s)).stage == Stage::Hidden,
{
}

} // verus!
