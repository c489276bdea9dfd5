//! A toggler: a switch that flips on a click and animates the flip.
use vstd::prelude::*;

use crate::widget::{spec_mouse_interaction, Interaction, Status};

verus! {

/// What a left mouse press does to a toggler: over it, the press is
/// captured and the toggler asks to be flipped (the flipped value is
/// given, to be published with the animation towards it); elsewhere it is
/// ignored and nothing is asked.
pub open spec fn spec_on_left_press(is_toggled: bool, is_mouse_over: bool) -> (Status, Option<bool>) {
    if is_mouse_over {
        (Status::Captured, Some(!is_toggled))
    } else {
        (Status::Ignored, None)
    }
}

/// Processes a left mouse press on a toggler.
pub fn on_left_press(is_toggled: bool, is_mouse_over: bool) -> (r: (Status, Option<bool>))
    ensures
        r == spec_on_left_press(is_toggled, is_mouse_over),
        !is_mouse_over ==> r == (Status::Ignored, None::<bool>),
        is_mouse_over ==> r == (Status::Captured, Some(!is_toggled)),
{
    if is_mouse_over {
        (Status::Captured, Some(!is_toggled))
    } else {
        (Status::Ignored, None)
    }
}

/// Returns the mouse interaction of a toggler: the pointer over it.
pub fn mouse_interaction(is_mouse_over: bool) -> (i: Interaction)
    ensures
        i == spec_mouse_interaction(is_mouse_over, true),
{
    if is_mouse_over {
        Interaction::Pointer
    } else {
        Interaction::Idle
    }
}


/// A left press outside a toggler is ignored and asks for nothing, whatever
/// its state; a press over it is captured and asks for the opposite of its
/// state, so that two presses over it bring it back where it was.
pub proof fn lemma_on_left_press(is_toggled: bool, is_mouse_over: bool)
    ensures
        !is_mouse_over ==> spec_on_left_press(is_toggled, is_mouse_over) == (
            Status::Ignored,
            None::<bool>,
        ),
        is_mouse_over ==> spec_on_left_press(is_toggled, is_mouse_over).0 == Status::Captured,
        is_mouse_over ==> (spec_on_left_press(is_toggled, is_mouse_over).1 matches Some(v) && v
            != is_toggled),
        (spec_on_left_press(is_toggled, is_mouse_over).1 is Some) <==> is_mouse_over,
        is_mouse_over ==> spec_on_left_press(
            spec_on_left_press(is_toggled, is_mouse_over).1.unwrap(),
            is_mouse_over,
        ).1 == Some(is_toggled),
{
}

} // verus!
