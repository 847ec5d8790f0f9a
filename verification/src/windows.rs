//! Window styles, z-order and fullscreen-cover decisions for the notch window.
use vstd::prelude::*;
use crate::text::str_eq;

verus! {

pub const WS_EX_TRANSPARENT: i32 = 0x20;
pub const WS_EX_TOOLWINDOW: isize = 0x80;
pub const WS_EX_APPWINDOW: isize = 0x4_0000;
pub const HWND_TOP: isize = 0;
pub const HWND_BOTTOM: isize = 1;

/// The extended style that keeps a window off the taskbar: the app-window
/// bit cleared and the tool-window bit set, every other bit kept.
pub fn skip_taskbar_style(cur: isize) -> (style: isize)
    ensures
        style & WS_EX_TOOLWINDOW == WS_EX_TOOLWINDOW,
        style & WS_EX_APPWINDOW == 0,
        style & !(WS_EX_TOOLWINDOW | WS_EX_APPWINDOW) == cur & !(WS_EX_TOOLWINDOW | WS_EX_APPWINDOW),
{
    let style = (cur & !WS_EX_APPWINDOW) | WS_EX_TOOLWINDOW;
    assert(style & 0x80isize == 0x80isize) by (bit_vector)
        requires
            style == (cur & !0x4_0000isize) | 0x80isize,
    ;
    assert(style & 0x4_0000isize == 0) by (bit_vector)
        requires
            style == (cur & !0x4_0000isize) | 0x80isize,
    ;
    assert(style & !(0x80isize | 0x4_0000isize) == cur & !(0x80isize | 0x4_0000isize)) by (bit_vector)
        requires
            style == (cur & !0x4_0000isize) | 0x80isize,
    ;
    style
}

/// Applying the taskbar style twice changes nothing more.
pub proof fn law_skip_taskbar_idempotent(cur: isize)
    ensures
        ((((cur & !WS_EX_APPWINDOW) | WS_EX_TOOLWINDOW) & !WS_EX_APPWINDOW) | WS_EX_TOOLWINDOW)
            == ((cur & !WS_EX_APPWINDOW) | WS_EX_TOOLWINDOW),
{
    assert(((((cur & !0x4_0000isize) | 0x80isize) & !0x4_0000isize) | 0x80isize) == ((cur & !0x4_0000isize)
        | 0x80isize)) by (bit_vector);
}

/// Where `SetWindowPos` puts the window: under everything (the desktop
/// layer) or on top.
pub fn z_order_insert_after(to_bottom: bool) -> (after: isize)
    ensures
        after == (if to_bottom { HWND_BOTTOM } else { HWND_TOP }),
{
    if to_bottom {
        HWND_BOTTOM
    } else {
        HWND_TOP
    }
}

/// The shell's wallpaper windows, which never count as covering the notch.
pub open spec fn wallpaper_class(name: Seq<char>) -> bool {
    name == "Progman"@ || name == "WorkerW"@
}

pub fn is_shell_wallpaper(class_name: &str) -> (b: bool)
    ensures
        b == wallpaper_class(class_name@),
{
    str_eq(class_name, "Progman") || str_eq(class_name, "WorkerW")
}

pub open spec fn app_window(visible: bool, iconic: bool, ex_style: i32, wallpaper: bool, cloaked: bool) -> bool {
    &&& visible
    &&& !iconic
    &&& ex_style & WS_EX_TRANSPARENT == 0
    &&& ex_style & (WS_EX_TOOLWINDOW as i32) == 0
    &&& !wallpaper
    &&& !cloaked
}

/// A real, interactable app window: visible, not minimized, neither
/// click-through nor a tool palette, not the wallpaper, not cloaked.
pub fn is_app_window(visible: bool, iconic: bool, ex_style: i32, wallpaper: bool, cloaked: bool) -> (b: bool)
    ensures
        b == app_window(visible, iconic, ex_style, wallpaper, cloaked),
{
    visible && !iconic && (ex_style & WS_EX_TRANSPARENT) == 0 && (ex_style & 0x80i32) == 0 && !wallpaper
        && !cloaked
}

/// A window rectangle in screen pixels (right and bottom exclusive).
#[derive(Clone, Copy, PartialEq, Eq, Debug, Structural)]
pub struct WinRect {
    pub left: i32,
    pub top: i32,
    pub right: i32,
    pub bottom: i32,
}

/// What the cover test needs to know of one window.
#[derive(Clone, Copy, PartialEq, Eq, Debug, Structural)]
pub struct WindowProbe {
    pub handle: isize,
    /// See [`is_app_window`].
    pub app_window: bool,
    /// The window rectangle, when it could be read.
    pub rect: Option<WinRect>,
}

/// The window is an app window whose rectangle holds the point and the
/// whole `sw` x `sh` screen.
pub open spec fn covers(p: WindowProbe, x: i32, y: i32, sw: i32, sh: i32) -> bool {
    &&& p.app_window
    &&& p.rect matches Some(r)
    &&& x >= r.left && x < r.right && y >= r.top && y < r.bottom
    &&& r.left <= 0 && r.top <= 0 && r.right >= sw && r.bottom >= sh
}

fn covers_exec(p: &WindowProbe, x: i32, y: i32, sw: i32, sh: i32) -> (b: bool)
    ensures
        b == covers(*p, x, y, sw, sh),
{
    if !p.app_window {
        return false;
    }
    match p.rect {
        Some(r) => x >= r.left && x < r.right && y >= r.top && y < r.bottom && r.left <= 0 && r.top <= 0
            && r.right >= sw && r.bottom >= sh,
        None => false,
    }
}

/// A fullscreen app covers the notch point: the foreground window (when
/// there is one and it is not ours) covers it, or a window above ours in
/// the z-order (`stack`, topmost first) does.
pub open spec fn covered_by_other(
    x: i32,
    y: i32,
    our: isize,
    sw: i32,
    sh: i32,
    foreground: WindowProbe,
    stack: Seq<WindowProbe>,
) -> bool {
    ||| foreground.handle != 0 && foreground.handle != our && covers(foreground, x, y, sw, sh)
    ||| exists|i: int|
        0 <= i < stack.len() && covers(#[trigger] stack[i], x, y, sw, sh) && forall|j: int|
            0 <= j <= i ==> stack[j].handle != our
}

/// Whether a fullscreen app covers the notch point `(x, y)` on an `sw` x
/// `sh` screen. `stack` lists the top-level windows from the top of the
/// z-order down.
pub fn point_covered_by_other(
    x: i32,
    y: i32,
    our: isize,
    sw: i32,
    sh: i32,
    foreground: &WindowProbe,
    stack: &Vec<WindowProbe>,
) -> (b: bool)
    ensures
        b == covered_by_other(x, y, our, sw, sh, *foreground, stack@),
{
    if foreground.handle != 0 && foreground.handle != our && covers_exec(foreground, x, y, sw, sh) {
        return true;
    }
    let mut i: usize = 0;
    while i < stack.len()
        invariant
            i <= stack.len(),
            forall|j: int| 0 <= j < i ==> stack@[j].handle != our && !covers(#[trigger] stack@[j], x, y, sw, sh),
            !(foreground.handle != 0 && foreground.handle != our && covers(*foreground, x, y, sw, sh)),
        decreases stack.len() - i,
    {
        if stack[i].handle == our {
            proof {
                assert forall|k: int|
                    0 <= k < stack@.len() && covers(#[trigger] stack@[k], x, y, sw, sh) implies !(forall|j: int|
                    0 <= j <= k ==> stack@[j].handle != our) by {
                    if k >= i {
                        assert(stack@[i as int].handle == our);
                    }
                }
            }
            return false;
        }
        if covers_exec(&stack[i], x, y, sw, sh) {
            return true;
        }
        i = i + 1;
    }
    false
}

/// A fullscreen app is reported only when some window considered (the
/// foreground one, not ours, or one above ours in the z-order) is an app
/// window whose rectangle holds the point and the whole screen, from
/// `(0, 0)` to `(sw, sh)`; and a window of that kind is always reported
/// when it is the foreground one (not ours) or lies above ours.
pub proof fn law_cover_needs_full_screen_window(
    x: i32,
    y: i32,
    our: isize,
    sw: i32,
    sh: i32,
    fg: WindowProbe,
    stack: Seq<WindowProbe>,
)
    ensures
        covered_by_other(x, y, our, sw, sh, fg, stack) ==> {
            ||| fg.app_window && (fg.rect matches Some(r) && r.left <= 0 && r.top <= 0 && r.right >= sw
                && r.bottom >= sh && r.left <= x < r.right && r.top <= y < r.bottom)
            ||| exists|i: int|
                0 <= i < stack.len() && (#[trigger] stack[i]).app_window && (stack[i].rect matches Some(r)
                    && r.left <= 0 && r.top <= 0 && r.right >= sw && r.bottom >= sh && r.left <= x < r.right
                    && r.top <= y < r.bottom)
        },
        (fg.handle != 0 && fg.handle != our && fg.app_window && (fg.rect matches Some(r) && r.left <= 0
            && r.top <= 0 && r.right >= sw && r.bottom >= sh && r.left <= x < r.right && r.top <= y
            < r.bottom)) ==> covered_by_other(x, y, our, sw, sh, fg, stack),
        (exists|i: int|
            0 <= i < stack.len() && (#[trigger] stack[i]).app_window && (stack[i].rect matches Some(r)
                && r.left <= 0 && r.top <= 0 && r.right >= sw && r.bottom >= sh && r.left <= x < r.right
                && r.top <= y < r.bottom) && forall|j: int| 0 <= j <= i ==> stack[j].handle != our)
            ==> covered_by_other(x, y, our, sw, sh, fg, stack),
{
}

} // verus!
