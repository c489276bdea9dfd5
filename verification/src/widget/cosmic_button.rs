//! A button that can also be focused and pressed with the keyboard, and
//! pressed through accessibility requests.
//!
//! A button has some local [`State`]: whether it is hovered, pressed and
//! focused.
use vstd::prelude::*;

use crate::widget::{
    spec_look, spec_mouse_interaction, ButtonEvent, Interaction, Look, Outcome, Status,
};

verus! {

/// The local state of a button.
#[derive(Debug, Clone, Copy, PartialEq, Eq, Structural)]
pub struct State {
    is_hovered: bool,
    is_pressed: bool,
    is_focused: bool,
}

/// What a button's state says: whether it is hovered, pressed, focused.
#[derive(PartialEq, Eq, Structural)]
pub struct ButtonView {
    pub hovered: bool,
    pub pressed: bool,
    pub focused: bool,
}

impl View for State {
    type V = ButtonView;

    closed spec fn view(&self) -> ButtonView {
        ButtonView { hovered: self.is_hovered, pressed: self.is_pressed, focused: self.is_focused }
    }
}

impl Default for State {
    fn default() -> (s: Self)
        ensures
            s@ == (ButtonView { hovered: false, pressed: false, focused: false }),
    {
        State { is_hovered: false, is_pressed: false, is_focused: false }
    }
}

impl State {
    /// Whether the cursor is over the button.
    pub open spec fn hovered(&self) -> bool {
        self@.hovered
    }

    /// Whether the button is being pressed.
    pub open spec fn pressed(&self) -> bool {
        self@.pressed
    }

    /// Whether the button has the keyboard focus.
    pub open spec fn focused(&self) -> bool {
        self@.focused
    }

    /// Creates a new [`State`]: not hovered, pressed or focused.
    pub fn new() -> (s: State)
        ensures
            s@ == (ButtonView { hovered: false, pressed: false, focused: false }),
    {
        State::default()
    }

    /// Returns whether the button is currently focused or not.
    pub fn is_focused(&self) -> (b: bool)
        ensures
            b == self.focused(),
    {
        self.is_focused
    }

    /// Returns whether the button is currently hovered or not.
    pub fn is_hovered(&self) -> (b: bool)
        ensures
            b == self.hovered(),
    {
        self.is_hovered
    }

    /// Focuses the button.
    pub fn focus(&mut self)
        ensures
            final(self)@ == (ButtonView { focused: true, ..old(self)@ }),
    {
        self.is_focused = true;
    }

    /// Unfocuses the button.
    pub fn unfocus(&mut self)
        ensures
            final(self)@ == (ButtonView { focused: false, ..old(self)@ }),
    {
        self.is_focused = false;
    }
}

/// What a button's update gives: its next state and the outcome.
///
/// Mouse and touch work as for a plain button: a press over an enabled
/// button presses it; a release ends a press, publishing when the cursor
/// is still over the button. Enter, on a focused enabled button, presses
/// it and publishes at once. An accessibility request is always captured;
/// when it asks this button for its default action and the button is
/// enabled, it releases the button and publishes. A lost finger clears
/// hover and press. Everything else is ignored and changes nothing.
pub open spec fn spec_update(
    state: ButtonView,
    event: ButtonEvent,
    has_on_press: bool,
    is_mouse_over: bool,
) -> (ButtonView, Outcome) {
    let ignored = Outcome { status: Status::Ignored, publish: false };
    match event {
        ButtonEvent::Press => if has_on_press && is_mouse_over {
            (ButtonView { pressed: true, ..state }, Outcome { status: Status::Captured, publish: false })
        } else {
            (state, ignored)
        },
        ButtonEvent::Release => if has_on_press && state.pressed {
            (
                ButtonView { pressed: false, ..state },
                Outcome { status: Status::Captured, publish: is_mouse_over },
            )
        } else {
            (state, ignored)
        },
        ButtonEvent::A11y { same_id, default_action } => if same_id && default_action
            && has_on_press {
            (ButtonView { pressed: false, ..state }, Outcome { status: Status::Captured, publish: true })
        } else {
            (state, Outcome { status: Status::Captured, publish: false })
        },
        ButtonEvent::KeyPressed { enter } => if has_on_press && state.focused && enter {
            (ButtonView { pressed: true, ..state }, Outcome { status: Status::Captured, publish: true })
        } else {
            (state, ignored)
        },
        ButtonEvent::FingerLost => (ButtonView { hovered: false, pressed: false, ..state }, ignored),
        ButtonEvent::Other => (state, ignored),
    }
}

/// Processes the given event and updates the [`State`] of a button
/// accordingly. `has_on_press` tells whether the button has a message (is
/// enabled); `is_mouse_over` whether the cursor is over its bounds.
pub fn update(
    state: &mut State,
    event: ButtonEvent,
    has_on_press: bool,
    is_mouse_over: bool,
) -> (out: Outcome)
    ensures
        (final(state)@, out) == spec_update(old(state)@, event, has_on_press, is_mouse_over),
{
    let ignored = Outcome { status: Status::Ignored, publish: false };
    match event {
        ButtonEvent::Press => {
            if has_on_press && is_mouse_over {
                state.is_pressed = true;
                return Outcome { status: Status::Captured, publish: false };
            }
        },
        ButtonEvent::Release => {
            if has_on_press && state.is_pressed {
                state.is_pressed = false;
                return Outcome { status: Status::Captured, publish: is_mouse_over };
            }
        },
        ButtonEvent::A11y { same_id, default_action } => {
            if same_id && default_action && has_on_press {
                state.is_pressed = false;
                return Outcome { status: Status::Captured, publish: true };
            }
            return Outcome { status: Status::Captured, publish: false };
        },
        ButtonEvent::KeyPressed { enter } => {
            if has_on_press && state.is_focused && enter {
                state.is_pressed = true;
                return Outcome { status: Status::Captured, publish: true };
            }
        },
        ButtonEvent::FingerLost => {
            state.is_hovered = false;
            state.is_pressed = false;
        },
        ButtonEvent::Other => {},
    }
    ignored
}

/// The look a button is drawn with.
pub fn look(is_enabled: bool, is_mouse_over: bool, state: &State) -> (l: Look)
    ensures
        l == spec_look(is_enabled, is_mouse_over, state.pressed()),
        (l == Look::Disabled) <==> !is_enabled,
        (l == Look::Active) <==> (is_enabled && !is_mouse_over),
        (l == Look::Pressed) <==> (is_enabled && is_mouse_over && state.pressed()),
        (l == Look::Hovered) <==> (is_enabled && is_mouse_over && !state.pressed()),
{
    if !is_enabled {
        Look::Disabled
    } else if is_mouse_over {
        if state.is_pressed {
            Look::Pressed
        } else {
            Look::Hovered
        }
    } else {
        Look::Active
    }
}

/// Returns the mouse interaction of a button.
pub fn mouse_interaction(is_mouse_over: bool, is_enabled: bool) -> (i: Interaction)
    ensures
        i == spec_mouse_interaction(is_mouse_over, is_enabled),
        (i == Interaction::Pointer) <==> (is_mouse_over && is_enabled),
{
    if is_mouse_over && is_enabled {
        Interaction::Pointer
    } else {
        Interaction::Idle
    }
}

/// The keyboard focus is never changed by an event: only [`State::focus`]
/// and [`State::unfocus`] move it.
pub proof fn lemma_update_keeps_focus(
    state: ButtonView,
    event: ButtonEvent,
    has_on_press: bool,
    is_mouse_over: bool,
)
    ensures
        spec_update(state, event, has_on_press, is_mouse_over).0.focused == state.focused,
{
}

/// Enter activates a focused enabled button: it publishes once and the
/// key press is captured. Without the focus, or on a disabled button, no
/// key publishes anything.
pub proof fn lemma_enter_needs_focus(
    state: ButtonView,
    enter: bool,
    has_on_press: bool,
    is_mouse_over: bool,
)
    ensures
        ({
            let (s, o) = spec_update(
                state,
                ButtonEvent::KeyPressed { enter },
                has_on_press,
                is_mouse_over,
            );
            &&& o.publish <==> (enter && state.focused && has_on_press)
            &&& o.publish ==> (o.status == Status::Captured && s.pressed)
        }),
{
}

/// A button without a message publishes nothing, whatever the event.
pub proof fn lemma_disabled_never_publishes(
    state: ButtonView,
    event: ButtonEvent,
    is_mouse_over: bool,
)
    ensures
        !spec_update(state, event, false, is_mouse_over).1.publish,
{
}

/// A click: pressing an enabled button under the cursor and releasing it
/// there publishes its message exactly once and leaves it released.
pub proof fn lemma_click_publishes_once(state: ButtonView)
    ensures
        ({
            let (s1, o1) = spec_update(state, ButtonEvent::Press, true, true);
            let (s2, o2) = spec_update(s1, ButtonEvent::Release, true, true);
            &&& s1.pressed && !o1.publish && o1.status == Status::Captured
            &&& o2.publish && o2.status == Status::Captured && !s2.pressed
        }),
{
}


/// What an event can do to a focusable button: hover is never set by an
/// event (a lost finger clears it); a lost finger releases the button and
/// is ignored; an accessibility request is always captured and publishes
/// only when it asks this enabled button for its default action; the
/// button becomes pressed only by a press over it or Enter while focused,
/// both on an enabled button; a press away from it changes nothing; and
/// only a captured event publishes.
pub proof fn lemma_update_effects(
    state: ButtonView,
    event: ButtonEvent,
    has_on_press: bool,
    is_mouse_over: bool,
)
    ensures
        ({
            let (s, o) = spec_update(state, event, has_on_press, is_mouse_over);
            &&& s.hovered ==> state.hovered
            &&& event == ButtonEvent::FingerLost ==> !s.pressed && !s.hovered && o.status
                == Status::Ignored && !o.publish
            &&& event is A11y ==> o.status == Status::Captured
            &&& event is A11y ==> (o.publish <==> (event->same_id && event->default_action
                && has_on_press))
            &&& s.pressed && !state.pressed ==> has_on_press && ((event == ButtonEvent::Press
                && is_mouse_over) || (event == ButtonEvent::KeyPressed { enter: true }
                && state.focused))
            &&& event == ButtonEvent::Press && !is_mouse_over ==> s == state && o.status
                == Status::Ignored
            &&& event == ButtonEvent::Other ==> s == state && o.status == Status::Ignored
                && !o.publish
            &&& o.publish ==> o.status == Status::Captured && has_on_press
        }),
{
}

} // verus!
