//! The standalone activity widget's own command text.
use vstd::prelude::*;

verus! {

/// The reply to the widget's greeting command.
pub open spec fn greeting_text(name: Seq<char>) -> Seq<char> {
    "Hello, "@ + name + "! You've been greeted from Rust!"@
}

/// Greets `name` from the backend.
pub fn greet(name: &str) -> (g: String)
    ensures
        g@ == greeting_text(name@),
{
    let mut s = String::from_str("Hello, ");
    s.append(name);
    s.append("! You've been greeted from Rust!");
    s
}

} // verus!
