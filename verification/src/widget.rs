//! The decisions of the animated widgets: how a button's local state
//! reacts to an input event, which of its looks it is drawn with, and
//! which mouse cursor it shows. Layout, drawing and the conversion of
//! toolkit events into [`ButtonEvent`]s belong to the embedding toolkit.
use vstd::prelude::*;

pub mod button;
pub mod cards;
pub mod cosmic_button;
pub mod cosmic_toggler;

verus! {

/// An input event, as far as a button cares about it.
#[derive(Debug, Clone, Copy, PartialEq, Eq, Structural)]
pub enum ButtonEvent {
    /// The left mouse button, or a finger, was pressed.
    Press,
    /// The left mouse button, or a finger, was lifted.
    Release,
    /// A finger left the screen without being lifted (the touch was lost).
    FingerLost,
    /// A key was pressed; `enter` tells whether it was the Enter key.
    KeyPressed { enter: bool },
    /// An accessibility action request: `same_id` tells whether it targets
    /// this button, `default_action` whether it asks for its default action.
    A11y { same_id: bool, default_action: bool },
    /// Any other event.
    Other,
}

/// Whether a widget consumed an event.
#[derive(Debug, Clone, Copy, PartialEq, Eq, Structural)]
pub enum Status {
    /// The event was not used; others may handle it.
    Ignored,
    /// The event was consumed.
    Captured,
}

/// What a button's update did besides changing its state.
#[derive(Debug, Clone, Copy, PartialEq, Eq, Structural)]
pub struct Outcome {
    /// Whether the event was consumed.
    pub status: Status,
    /// Whether the button's message is to be published.
    pub publish: bool,
}

/// Which of its looks a button is drawn with.
#[derive(Debug, Clone, Copy, PartialEq, Eq, Structural)]
pub enum Look {
    /// Enabled, not under the cursor.
    Active,
    /// Enabled, under the cursor, not pressed.
    Hovered,
    /// Enabled, under the cursor, pressed.
    Pressed,
    /// Without a message to publish.
    Disabled,
}

/// The mouse cursor shown over a widget.
#[derive(Debug, Clone, Copy, PartialEq, Eq, Structural)]
pub enum Interaction {
    /// The default cursor.
    Idle,
    /// The pointing hand.
    Pointer,
}

/// The look of a button: disabled without a message, else by the cursor
/// and whether it is pressed.
pub open spec fn spec_look(is_enabled: bool, is_mouse_over: bool, is_pressed: bool) -> Look {
    if !is_enabled {
        Look::Disabled
    } else if is_mouse_over {
        if is_pressed {
            Look::Pressed
        } else {
            Look::Hovered
        }
    } else {
        Look::Active
    }
}

/// The pointer shows over an enabled button only.
pub open spec fn spec_mouse_interaction(is_mouse_over: bool, is_enabled: bool) -> Interaction {
    if is_mouse_over && is_enabled {
        Interaction::Pointer
    } else {
        Interaction::Idle
    }
}


/// What a button looks like, by its inputs: a button without a message is
/// disabled whatever else holds; an enabled one away from the cursor is
/// active whatever its pressed state (a press dragged off it looks
/// active); under the cursor it is pressed exactly when it is being
/// pressed, and hovered otherwise.
pub proof fn lemma_look(is_enabled: bool, is_mouse_over: bool, is_pressed: bool)
    ensures
        (spec_look(is_enabled, is_mouse_over, is_pressed) == Look::Disabled) <==> !is_enabled,
        is_enabled && !is_mouse_over ==> spec_look(is_enabled, is_mouse_over, is_pressed)
            == Look::Active,
        (spec_look(is_enabled, is_mouse_over, is_pressed) == Look::Pressed) <==> (is_enabled
            && is_mouse_over && is_pressed),
        (spec_look(is_enabled, is_mouse_over, is_pressed) == Look::Hovered) <==> (is_enabled
            && is_mouse_over && !is_pressed),
        spec_look(is_enabled, is_mouse_over, true) == Look::Pressed ==> spec_look(
            is_enabled,
            is_mouse_over,
            false,
        ) == Look::Hovered,
{
}

/// The pointer shows exactly over an enabled widget; otherwise the cursor
/// stays the default one.
pub proof fn lemma_mouse_interaction(is_mouse_over: bool, is_enabled: bool)
    ensures
        (spec_mouse_interaction(is_mouse_over, is_enabled) == Interaction::Pointer) <==> (
        is_mouse_over && is_enabled),
        (spec_mouse_interaction(is_mouse_over, is_enabled) == Interaction::Idle) <==> !(
        is_mouse_over && is_enabled),
{
}

} // verus!
