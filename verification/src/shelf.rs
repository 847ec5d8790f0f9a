//! The file shelf: stored items, and the native drag-out of them.
use vstd::prelude::*;

verus! {

/// A file parked on the shelf.
#[derive(Clone)]
pub struct ShelfItem {
    pub path: String,
    pub name: String,
    pub added_at: u64,
}

/// What the drop target did with dragged files.
#[derive(Clone, Copy, PartialEq, Eq, Debug, Structural)]
pub enum DragEffect {
    Move,
    Copy,
    Link,
    NoEffect,
}

pub const DROPEFFECT_COPY: u32 = 1;
pub const DROPEFFECT_MOVE: u32 = 2;
pub const DROPEFFECT_LINK: u32 = 4;

/// `DoDragDrop`'s success code when the files were dropped.
pub const DRAGDROP_S_DROP: i32 = 0x0004_0100;
/// `DoDragDrop`'s success code when the drag was cancelled.
pub const DRAGDROP_S_CANCEL: i32 = 0x0004_0101;

/// Whether `DoDragDrop` returned a failure: an error `HRESULT` (negative)
/// other than the drop and cancel outcomes.
pub fn drag_failed(hr: i32) -> (failed: bool)
    ensures
        failed == (hr < 0 && hr != DRAGDROP_S_DROP && hr != DRAGDROP_S_CANCEL),
{
    hr < 0 && hr != DRAGDROP_S_DROP && hr != DRAGDROP_S_CANCEL
}

pub open spec fn effect_of(bits: u32) -> DragEffect {
    if bits & DROPEFFECT_MOVE != 0 {
        DragEffect::Move
    } else if bits & DROPEFFECT_COPY != 0 {
        DragEffect::Copy
    } else if bits & DROPEFFECT_LINK != 0 {
        DragEffect::Link
    } else {
        DragEffect::NoEffect
    }
}

pub open spec fn effect_name(e: DragEffect) -> Seq<char> {
    match e {
        DragEffect::Move => "move"@,
        DragEffect::Copy => "copy"@,
        DragEffect::Link => "link"@,
        DragEffect::NoEffect => "none"@,
    }
}

impl DragEffect {
    /// The effect the drop target reported (`DROPEFFECT` bits): a move wins
    /// over a copy, a copy over a link.
    pub fn from_drop_effect(bits: u32) -> (e: DragEffect)
        ensures
            e == effect_of(bits),
    {
        if bits & DROPEFFECT_MOVE != 0 {
            DragEffect::Move
        } else if bits & DROPEFFECT_COPY != 0 {
            DragEffect::Copy
        } else if bits & DROPEFFECT_LINK != 0 {
            DragEffect::Link
        } else {
            DragEffect::NoEffect
        }
    }

    /// The name the frontend receives: `"move" | "copy" | "link" | "none"`.
    pub fn as_str(self) -> (s: &'static str)
        ensures
            s@ == effect_name(self),
    {
        match self {
            DragEffect::Move => "move",
            DragEffect::Copy => "copy",
            DragEffect::Link => "link",
            DragEffect::NoEffect => "none",
        }
    }
}

/// The drag loop's answer to "keep dragging?".
#[derive(Clone, Copy, PartialEq, Eq, Debug, Structural)]
pub enum DragStep {
    Cancel,
    Drop,
    Continue,
}

/// The left mouse button bit of the key state (`MK_LBUTTON`).
pub const MK_LBUTTON: u32 = 1;
/// A press must have lasted this long before a release drops (ns).
pub const DROP_ARM_NS: u128 = 250_000_000;

pub open spec fn drag_step(escape_pressed: bool, key_state: u32, elapsed_ns: u128) -> DragStep {
    if escape_pressed {
        DragStep::Cancel
    } else if key_state & MK_LBUTTON == 0 && elapsed_ns > DROP_ARM_NS {
        DragStep::Drop
    } else {
        DragStep::Continue
    }
}

/// Escape cancels; releasing the left button drops, once the drag has run
/// long enough for the press to register; otherwise the drag goes on.
pub fn query_continue_drag(escape_pressed: bool, key_state: u32, elapsed_ns: u128) -> (step: DragStep)
    ensures
        step == drag_step(escape_pressed, key_state, elapsed_ns),
{
    if escape_pressed {
        return DragStep::Cancel;
    }
    if key_state & MK_LBUTTON == 0 && elapsed_ns > DROP_ARM_NS {
        return DragStep::Drop;
    }
    DragStep::Continue
}

} // verus!
