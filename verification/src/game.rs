//! Input events handed to a running game by its front end.

use vstd::prelude::*;

verus! {

/// One input or scheduling event from the renderer front end.
#[derive(Debug, Clone, Copy, PartialEq, Eq, Structural)]
pub enum Event {
    Idle,
    Exit,
    MouseDown(i32, i32),
}

} // verus!
