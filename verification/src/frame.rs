//! Keyframe values as a timeline holds them.
//!
//! `V` is the type of an animated value and `S` the type of a speed (how
//! fast a value moves); both are chosen by the embedding application.
use vstd::prelude::*;

use crate::ease::Ease;

verus! {

/// How the time between a keyframe and the previous one is given: either
/// directly (in nanoseconds), or as a speed from which the application
/// derives the duration.
#[derive(Debug, Clone, Copy, PartialEq)]
pub enum MovementType<S> {
    /// Keyframe is time controlled.
    Duration(u128),
    /// Keyframe is speed controlled.
    Speed(S),
}

/// A Frame is the exact value of a modifier at a given time.
/// An eager frame holds the value to animate to; a lazy frame continues
/// from wherever the previous animation of the same modifier currently is,
/// falling back on its default when there is none.
#[derive(Debug, Clone, Copy, PartialEq)]
pub enum Frame<V, S> {
    /// Keyframe time, value at that time, ease into the value.
    Eager(MovementType<S>, V, Ease),
    /// Keyframe time, fallback value, ease into the value.
    Lazy(MovementType<S>, V, Ease),
}

/// A keyframe placed at an instant of a running animation. Keyframes are
/// equal, and ordered, by their instants alone.
#[derive(Debug, Clone, Copy)]
pub struct SubFrame<V> {
    /// The value, same as a [`Frame`].
    pub value: V,
    /// The ease used to interpolate into this.
    pub ease: Ease,
    /// The instant of this keyframe, in nanoseconds.
    pub at: i128,
}

/// What the duration of a step between two keyframes is: known, or to be
/// derived from a speed and the two values it moves between.
#[derive(Debug, Clone, Copy, PartialEq)]
pub enum StepDuration<V, S> {
    /// The duration, in nanoseconds.
    Fixed(u128),
    /// Move at this speed from the first value to the second.
    BySpeed(S, V, V),
}

impl<S> MovementType<S> {
    /// Wraps a duration (in nanoseconds).
    pub fn from_duration(nanos: u128) -> (m: Self)
        ensures
            m == MovementType::<S>::Duration(nanos),
    {
        MovementType::Duration(nanos)
    }

    /// Wraps a speed.
    pub fn from_speed(speed: S) -> (m: Self)
        ensures
            m == MovementType::<S>::Speed(speed),
    {
        MovementType::Speed(speed)
    }
}

/// The value a frame carries (the target of an eager frame, the fallback of a lazy one).
pub open spec fn frame_value<V, S>(f: Frame<V, S>) -> V {
    match f {
        Frame::Eager(_, v, _) => v,
        Frame::Lazy(_, v, _) => v,
    }
}

/// The ease a frame animates with.
pub open spec fn frame_ease<V, S>(f: Frame<V, S>) -> Ease {
    match f {
        Frame::Eager(_, _, e) => e,
        Frame::Lazy(_, _, e) => e,
    }
}

/// How a frame's time is given.
pub open spec fn frame_movement<V, S>(f: Frame<V, S>) -> MovementType<S> {
    match f {
        Frame::Eager(m, _, _) => m,
        Frame::Lazy(m, _, _) => m,
    }
}

/// A frame made eager: a lazy frame takes the current value of its
/// modifier when there is one, its fallback otherwise.
pub open spec fn spec_to_eager<V, S>(f: Frame<V, S>, current: Option<V>) -> Frame<V, S> {
    match f {
        Frame::Lazy(m, default, e) => Frame::Eager(
            m,
            match current {
                Some(v) => v,
                None => default,
            },
            e,
        ),
        Frame::Eager(_, _, _) => f,
    }
}

/// The duration of the step from `previous` to `next`, both eager.
pub open spec fn spec_step_duration<V, S>(next: Frame<V, S>, previous: Frame<V, S>) -> StepDuration<
    V,
    S,
> {
    match frame_movement(next) {
        MovementType::Duration(d) => StepDuration::Fixed(d),
        MovementType::Speed(s) => StepDuration::BySpeed(s, frame_value(previous), frame_value(next)),
    }
}

impl<V: Copy, S: Copy> Frame<V, S> {
    /// Create an eager frame.
    pub fn eager(movement_type: MovementType<S>, value: V, ease: Ease) -> (f: Self)
        ensures
            f == Frame::Eager(movement_type, value, ease),
    {
        Frame::Eager(movement_type, value, ease)
    }

    /// Create a lazy frame.
    pub fn lazy(movement_type: MovementType<S>, default: V, ease: Ease) -> (f: Self)
        ensures
            f == Frame::Lazy(movement_type, default, ease),
    {
        Frame::Lazy(movement_type, default, ease)
    }

    /// Places an eager frame at an instant.
    pub fn to_subframe(self, time: i128) -> (s: SubFrame<V>)
        requires
            self is Eager,
        ensures
            s == (SubFrame { value: frame_value(self), ease: frame_ease(self), at: time }),
    {
        match self {
            Frame::Eager(_, value, ease) => SubFrame::new(time, value, ease),
            Frame::Lazy(_, value, ease) => SubFrame::new(time, value, ease),
        }
    }

    /// Converts a lazy frame to an eager one, given the current value of its
    /// modifier (if the timeline has one).
    pub fn to_eager(&mut self, current: Option<V>)
        ensures
            *final(self) == spec_to_eager(*old(self), current),
    {
        if let Frame::Lazy(movement_type, default, ease) = *self {
            let value = match current {
                Some(v) => v,
                None => default,
            };
            *self = Frame::Eager(movement_type, value, ease);
        }
    }

    /// The value of an eager frame.
    pub fn get_value(&self) -> (v: V)
        requires
            *self is Eager,
        ensures
            v == frame_value(*self),
    {
        match self {
            Frame::Eager(_, value, _) => *value,
            Frame::Lazy(_, value, _) => *value,
        }
    }

    /// The duration of the step from `previous` to this (eager) frame; a
    /// step given by a speed needs the value of `previous`, which must then
    /// be eager too.
    pub fn get_duration(self, previous: &Self) -> (d: StepDuration<V, S>)
        requires
            self is Eager,
            frame_movement(self) is Speed ==> *previous is Eager,
        ensures
            d == spec_step_duration(self, *previous),
    {
        match self {
            Frame::Eager(movement_type, value, _) | Frame::Lazy(movement_type, value, _) => {
                match movement_type {
                    MovementType::Duration(duration) => StepDuration::Fixed(duration),
                    MovementType::Speed(speed) => StepDuration::BySpeed(
                        speed,
                        previous.get_value(),
                        value,
                    ),
                }
            },
        }
    }
}

impl<V> PartialEq for SubFrame<V> {
    fn eq(&self, other: &Self) -> (r: bool) {
        self.at == other.at
    }
}

impl<V> vstd::std_specs::cmp::PartialEqSpecImpl for SubFrame<V> {
    open spec fn obeys_eq_spec() -> bool {
        true
    }

    open spec fn eq_spec(&self, other: &Self) -> bool {
        self.at == other.at
    }
}

impl<V> Eq for SubFrame<V> {

}

impl<V> PartialOrd for SubFrame<V> {
    fn partial_cmp(&self, other: &Self) -> (r: Option<core::cmp::Ordering>) {
        if self.at < other.at {
            Some(core::cmp::Ordering::Less)
        } else if self.at == other.at {
            Some(core::cmp::Ordering::Equal)
        } else {
            Some(core::cmp::Ordering::Greater)
        }
    }
}

impl<V> vstd::std_specs::cmp::PartialOrdSpecImpl for SubFrame<V> {
    open spec fn obeys_partial_cmp_spec() -> bool {
        true
    }

    open spec fn partial_cmp_spec(&self, other: &Self) -> Option<core::cmp::Ordering> {
        if self.at < other.at {
            Some(core::cmp::Ordering::Less)
        } else if self.at == other.at {
            Some(core::cmp::Ordering::Equal)
        } else {
            Some(core::cmp::Ordering::Greater)
        }
    }
}

impl<V: Copy> SubFrame<V> {
    /// Creates a new SubFrame.
    pub fn new(at: i128, value: V, ease: Ease) -> (s: Self)
        ensures
            s == (SubFrame { value, ease, at }),
    {
        SubFrame { value, at, ease }
    }
}

} // verus!
