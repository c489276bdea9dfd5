//! Easing curve selections: which curve a keyframe is eased into with.
//! Evaluating a curve is floating point work left to the embedding
//! application.
use vstd::prelude::*;

verus! {

/// Selects a linear easing, the default for most animations.
#[derive(Debug, Clone, Copy, PartialEq, Eq, Structural)]
pub enum Linear {
    /// Modeled after the line y = x.
    InOut,
}

/// Selects a quadratic easing.
#[derive(Debug, Clone, Copy, PartialEq, Eq, Structural)]
pub enum Quadratic {
    /// Modeled after the parabola y = x^2.
    In,
    /// Modeled after the parabola y = -x^2 + 2x.
    Out,
    /// Modeled after the piecewise quadratic y = (1/2)((2x)^2) on [0, 0.5) and y = -(1/2)((2x-1)*(2x-3) - 1) on [0.5, 1].
    InOut,
    /// A Bezier curve placeholder; it eases like the identity.
    Bezier(i32),
}

/// Selects a cubic easing.
#[derive(Debug, Clone, Copy, PartialEq, Eq, Structural)]
pub enum Cubic {
    /// Modeled after the cubic y = x^3.
    In,
    /// Modeled after the cubic y = (x-1)^3 + 1.
    Out,
    /// Modeled after the piecewise cubic y = (1/2)((2x)^3) on [0, 0.5] and y = (1/2)((2x-2)^3 + 2) on [0.5, 1].
    InOut,
}

/// Selects a quartic easing.
#[derive(Debug, Clone, Copy, PartialEq, Eq, Structural)]
pub enum Quartic {
    /// Modeled after the quartic y = x^4.
    In,
    /// Modeled after the quartic y = 1 - (x - 1)^4.
    Out,
    /// Modeled after the piecewise quartic y = (1/2)((2x)^4) on [0, 0.5] and y = -(1/2)((2x-2)^4 - 2) on [0.5, 1].
    InOut,
}

/// Selects a quintic easing.
#[derive(Debug, Clone, Copy, PartialEq, Eq, Structural)]
pub enum Quintic {
    /// Modeled after the quintic y = x^5.
    In,
    /// Modeled after the quintic y = (x - 1)^5 + 1.
    Out,
    /// Modeled after the piecewise quintic y = (1/2)((2x)^5) on [0, 0.5] and y = (1/2)((2x-2)^5 + 2) on [0.5, 1].
    InOut,
}

/// Selects a sinusoidal easing.
#[derive(Debug, Clone, Copy, PartialEq, Eq, Structural)]
pub enum Sinusoidal {
    /// Modeled after eighth sinusoidal wave y = 1 - cos((x * PI) / 2).
    In,
    /// Modeled after eighth sinusoidal wave y = sin((x * PI) / 2).
    Out,
    /// Modeled after quarter sinusoidal wave y = -0.5 * (cos(x * PI) - 1).
    InOut,
}

/// Selects an exponential easing.
#[derive(Debug, Clone, Copy, PartialEq, Eq, Structural)]
pub enum Exponential {
    /// Modeled after y = 0 at x = 0 and y = 2^(10x-10) elsewhere.
    In,
    /// Modeled after y = 1 - 2^(-10x), and y = 1 at x = 1.
    Out,
    /// Modeled after y = 2^(20x - 10) / 2 on [0, 0.5] and y = 1 - 0.5*2^(-10(2x - 1)) on [0.5, 1], pinned to 0 and 1 at the ends.
    InOut,
}

/// Selects a circular easing.
#[derive(Debug, Clone, Copy, PartialEq, Eq, Structural)]
pub enum Circular {
    /// Modeled after shifted quadrant IV of unit circle, y = 1 - sqrt(1 - x^2).
    In,
    /// Modeled after shifted quadrant II of unit circle, y = sqrt(1 - (x - 1)^2).
    Out,
    /// Modeled after y = (1/2)(1 - sqrt(1 - (2x)^2)) on [0, 0.5) and y = (1/2)(sqrt(1 - (-2x + 2)^2) + 1) on [0.5, 1].
    InOut,
}

/// Selects an elastic easing.
#[derive(Debug, Clone, Copy, PartialEq, Eq, Structural)]
pub enum Elastic {
    /// Modeled after the damped sine wave y = sin(13 PI/2 x) 2^(10 (x - 1)).
    In,
    /// Modeled after y = 2^(-10 x) sin((10x - 0.75)(2 PI/3)) + 1, and y = 1 at x = 1.
    Out,
    /// Modeled after the piecewise exponentially-damped sine wave.
    InOut,
}

/// Selects a back easing.
#[derive(Debug, Clone, Copy, PartialEq, Eq, Structural)]
pub enum Back {
    /// Modeled after y = 2.70158 x^3 - 1.70158 x^2.
    In,
    /// Modeled after y = 1 + 2.70158 (x - 1)^3 + 1.70158 (x - 1)^2.
    Out,
    /// Modeled after the piecewise back curve with overshoot constant 2.5949095.
    InOut,
}

/// Selects a bounce easing.
#[derive(Debug, Clone, Copy, PartialEq, Eq, Structural)]
pub enum Bounce {
    /// Bounce before animating in.
    In,
    /// Bounce against the end point.
    Out,
    /// Bounce before animating in, then against the end point.
    InOut,
}

/// A container for every easing curve an animation can use.
#[derive(Debug, Clone, Copy, PartialEq, Eq, Structural)]
pub enum Ease {
    /// Eases with a [`Linear`] curve.
    Linear(Linear),
    /// Eases with a [`Quadratic`] curve.
    Quadratic(Quadratic),
    /// Eases with a [`Cubic`] curve.
    Cubic(Cubic),
    /// Eases with a [`Quartic`] curve.
    Quartic(Quartic),
    /// Eases with a [`Quintic`] curve.
    Quintic(Quintic),
    /// Eases with a [`Sinusoidal`] curve.
    Sinusoidal(Sinusoidal),
    /// Eases with a [`Exponential`] curve.
    Exponential(Exponential),
    /// Eases with a [`Circular`] curve.
    Circular(Circular),
    /// Eases with a [`Elastic`] curve.
    Elastic(Elastic),
    /// Eases with a [`Back`] curve.
    Back(Back),
    /// Eases with a [`Bounce`] curve.
    Bounce(Bounce),
}

impl From<Linear> for Ease {
    fn from(curve: Linear) -> (ease: Ease) {
        Ease::Linear(curve)
    }
}

impl vstd::std_specs::convert::FromSpecImpl<Linear> for Ease {
    open spec fn obeys_from_spec() -> bool {
        true
    }

    open spec fn from_spec(curve: Linear) -> Ease {
        Ease::Linear(curve)
    }
}

impl From<Quadratic> for Ease {
    fn from(curve: Quadratic) -> (ease: Ease) {
        Ease::Quadratic(curve)
    }
}

impl vstd::std_specs::convert::FromSpecImpl<Quadratic> for Ease {
    open spec fn obeys_from_spec() -> bool {
        true
    }

    open spec fn from_spec(curve: Quadratic) -> Ease {
        Ease::Quadratic(curve)
    }
}

impl From<Cubic> for Ease {
    fn from(curve: Cubic) -> (ease: Ease) {
        Ease::Cubic(curve)
    }
}

impl vstd::std_specs::convert::FromSpecImpl<Cubic> for Ease {
    open spec fn obeys_from_spec() -> bool {
        true
    }

    open spec fn from_spec(curve: Cubic) -> Ease {
        Ease::Cubic(curve)
    }
}

impl From<Quartic> for Ease {
    fn from(curve: Quartic) -> (ease: Ease) {
        Ease::Quartic(curve)
    }
}

impl vstd::std_specs::convert::FromSpecImpl<Quartic> for Ease {
    open spec fn obeys_from_spec() -> bool {
        true
    }

    open spec fn from_spec(curve: Quartic) -> Ease {
        Ease::Quartic(curve)
    }
}

impl From<Quintic> for Ease {
    fn from(curve: Quintic) -> (ease: Ease) {
        Ease::Quintic(curve)
    }
}

impl vstd::std_specs::convert::FromSpecImpl<Quintic> for Ease {
    open spec fn obeys_from_spec() -> bool {
        true
    }

    open spec fn from_spec(curve: Quintic) -> Ease {
        Ease::Quintic(curve)
    }
}

impl From<Sinusoidal> for Ease {
    fn from(curve: Sinusoidal) -> (ease: Ease) {
        Ease::Sinusoidal(curve)
    }
}

impl vstd::std_specs::convert::FromSpecImpl<Sinusoidal> for Ease {
    open spec fn obeys_from_spec() -> bool {
        true
    }

    open spec fn from_spec(curve: Sinusoidal) -> Ease {
        Ease::Sinusoidal(curve)
    }
}

impl From<Exponential> for Ease {
    fn from(curve: Exponential) -> (ease: Ease) {
        Ease::Exponential(curve)
    }
}

impl vstd::std_specs::convert::FromSpecImpl<Exponential> for Ease {
    open spec fn obeys_from_spec() -> bool {
        true
    }

    open spec fn from_spec(curve: Exponential) -> Ease {
        Ease::Exponential(curve)
    }
}

impl From<Circular> for Ease {
    fn from(curve: Circular) -> (ease: Ease) {
        Ease::Circular(curve)
    }
}

impl vstd::std_specs::convert::FromSpecImpl<Circular> for Ease {
    open spec fn obeys_from_spec() -> bool {
        true
    }

    open spec fn from_spec(curve: Circular) -> Ease {
        Ease::Circular(curve)
    }
}

impl From<Elastic> for Ease {
    fn from(curve: Elastic) -> (ease: Ease) {
        Ease::Elastic(curve)
    }
}

impl vstd::std_specs::convert::FromSpecImpl<Elastic> for Ease {
    open spec fn obeys_from_spec() -> bool {
        true
    }

    open spec fn from_spec(curve: Elastic) -> Ease {
        Ease::Elastic(curve)
    }
}

impl From<Back> for Ease {
    fn from(curve: Back) -> (ease: Ease) {
        Ease::Back(curve)
    }
}

impl vstd::std_specs::convert::FromSpecImpl<Back> for Ease {
    open spec fn obeys_from_spec() -> bool {
        true
    }

    open spec fn from_spec(curve: Back) -> Ease {
        Ease::Back(curve)
    }
}

impl From<Bounce> for Ease {
    fn from(curve: Bounce) -> (ease: Ease) {
        Ease::Bounce(curve)
    }
}

impl vstd::std_specs::convert::FromSpecImpl<Bounce> for Ease {
    open spec fn obeys_from_spec() -> bool {
        true
    }

    open spec fn from_spec(curve: Bounce) -> Ease {
        Ease::Bounce(curve)
    }
}

} // verus!
