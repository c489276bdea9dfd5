//! Allow your users to perform actions by pressing a button.
//!
//! A button has some local [`State`]: whether it is being pressed.
use vstd::prelude::*;

use crate::widget::{
    spec_look, spec_mouse_interaction, ButtonEvent, Interaction, Look, Outcome, Status,
};

verus! {

/// The local state of a button.
#[derive(Debug, Clone, Copy, PartialEq, Eq, Structural)]
pub struct State {
    is_pressed: bool,
}

impl View for State {
    type V = bool;

    /// Whether the button is being pressed.
    closed spec fn view(&self) -> bool {
        self.is_pressed
    }
}

impl Default for State {
    fn default() -> (s: Self)
        ensures
            !s.pressed(),
    {
        State { is_pressed: false }
    }
}

impl State {
    /// Whether the button is being pressed.
    pub open spec fn pressed(&self) -> bool {
        self@
    }

    /// Creates a new [`State`]: not pressed.
    pub fn new() -> (s: State)
        ensures
            !s.pressed(),
    {
        State::default()
    }
}

/// What a button's update gives: whether it is pressed next, and the
/// outcome.
///
/// A press over an enabled button presses it. A release, on an enabled
/// button that is pressed, releases it and publishes the message when the
/// cursor is still over the button. A lost finger releases the button
/// without a word. Both consumed events are captured; everything else is
/// ignored and changes nothing.
pub open spec fn spec_update(
    pressed: bool,
    event: ButtonEvent,
    has_on_press: bool,
    is_mouse_over: bool,
) -> (bool, Outcome) {
    let ignored = Outcome { status: Status::Ignored, publish: false };
    match event {
        ButtonEvent::Press => if has_on_press && is_mouse_over {
            (true, Outcome { status: Status::Captured, publish: false })
        } else {
            (pressed, ignored)
        },
        ButtonEvent::Release => if has_on_press && pressed {
            (false, Outcome { status: Status::Captured, publish: is_mouse_over })
        } else {
            (pressed, ignored)
        },
        ButtonEvent::FingerLost => (false, ignored),
        _ => (pressed, ignored),
    }
}

/// Processes the given event and updates the [`State`] of a button
/// accordingly. `has_on_press` tells whether the button has a message (is
/// enabled); `is_mouse_over` whether the cursor is over its bounds.
pub fn update(
    state: &mut State,
    event: ButtonEvent,
    has_on_press: bool,
    is_mouse_over: bool,
) -> (out: Outcome)
    ensures
        (final(state).pressed(), out) == spec_update(old(state).pressed(), event, has_on_press, is_mouse_over),
{
    let ignored = Outcome { status: Status::Ignored, publish: false };
    match event {
        ButtonEvent::Press => {
            if has_on_press && is_mouse_over {
                state.is_pressed = true;
                return Outcome { status: Status::Captured, publish: false };
            }
        },
        ButtonEvent::Release => {
            if has_on_press && state.is_pressed {
                state.is_pressed = false;
                return Outcome { status: Status::Captured, publish: is_mouse_over };
            }
        },
        ButtonEvent::FingerLost => {
            state.is_pressed = false;
        },
        _ => {},
    }
    ignored
}

/// The look a button is drawn with.
pub fn look(is_enabled: bool, is_mouse_over: bool, state: &State) -> (l: Look)
    ensures
        l == spec_look(is_enabled, is_mouse_over, state.pressed()),
        (l == Look::Disabled) <==> !is_enabled,
        (l == Look::Active) <==> (is_enabled && !is_mouse_over),
        (l == Look::Pressed) <==> (is_enabled && is_mouse_over && state.pressed()),
        (l == Look::Hovered) <==> (is_enabled && is_mouse_over && !state.pressed()),
{
    if !is_enabled {
        Look::Disabled
    } else if is_mouse_over {
        if state.is_pressed {
            Look::Pressed
        } else {
            Look::Hovered
        }
    } else {
        Look::Active
    }
}

/// Returns the mouse interaction of a button.
pub fn mouse_interaction(is_mouse_over: bool, is_enabled: bool) -> (i: Interaction)
    ensures
        i == spec_mouse_interaction(is_mouse_over, is_enabled),
        (i == Interaction::Pointer) <==> (is_mouse_over && is_enabled),
{
    if is_mouse_over && is_enabled {
        Interaction::Pointer
    } else {
        Interaction::Idle
    }
}

/// A click: pressing an enabled button under the cursor and releasing it
/// there publishes its message exactly once, captures both events and
/// leaves the button released, whatever state it started in.
pub proof fn lemma_click_publishes_once(pressed: bool)
    ensures
        ({
            let (p1, o1) = spec_update(pressed, ButtonEvent::Press, true, true);
            let (p2, o2) = spec_update(p1, ButtonEvent::Release, true, true);
            &&& p1
            &&& !o1.publish && o1.status == Status::Captured
            &&& o2.publish && o2.status == Status::Captured
            &&& !p2
        }),
{
}

/// A release publishes only when it ends a press, and only when the event
/// is captured; a button without a message never publishes.
pub proof fn lemma_publish_needs_press(
    pressed: bool,
    event: ButtonEvent,
    has_on_press: bool,
    is_mouse_over: bool,
)
    ensures
        ({
            let (p, o) = spec_update(pressed, event, has_on_press, is_mouse_over);
            o.publish ==> (event == ButtonEvent::Release && pressed && has_on_press && is_mouse_over
                && o.status == Status::Captured && !p)
        }),
{
}

/// A button without a message never becomes pressed.
pub proof fn lemma_disabled_never_pressed(event: ButtonEvent, is_mouse_over: bool)
    ensures
        !spec_update(false, event, false, is_mouse_over).0,
{
}

/// Releasing the cursor away from the button cancels the press: the
/// button is released, nothing is published.
pub proof fn lemma_release_elsewhere_cancels()
    ensures
        ({
            let (p, o) = spec_update(true, ButtonEvent::Release, true, false);
            !p && !o.publish && o.status == Status::Captured
        }),
{
}


/// What an event can do to a plain button: a button without a message
/// ignores every event but a lost finger; a lost finger always releases it
/// and is ignored; keys, accessibility requests and other events are
/// ignored and change nothing; a press away from the button is ignored and
/// changes nothing; the button only becomes pressed by a press over it,
/// and only a captured event publishes.
pub proof fn lemma_update_effects(
    pressed: bool,
    event: ButtonEvent,
    has_on_press: bool,
    is_mouse_over: bool,
)
    ensures
        ({
            let (p, o) = spec_update(pressed, event, has_on_press, is_mouse_over);
            &&& !has_on_press ==> o.status == Status::Ignored && !o.publish && (p ==> pressed)
            &&& event == ButtonEvent::FingerLost ==> !p && o.status == Status::Ignored && !o.publish
            &&& (event is KeyPressed || event is A11y || event is Other) ==> p == pressed && o.status
                == Status::Ignored && !o.publish
            &&& event == ButtonEvent::Press && !is_mouse_over ==> p == pressed && o.status
                == Status::Ignored
            &&& p && !pressed ==> event == ButtonEvent::Press && has_on_press && is_mouse_over
            &&& o.publish ==> o.status == Status::Captured
            &&& (o.status == Status::Captured) <==> ((event == ButtonEvent::Press && has_on_press
                && is_mouse_over) || (event == ButtonEvent::Release && has_on_press && pressed))
        }),
{
}

} // verus!
