//! An animation toolkit: timelines of keyframe chains, their timing and
//! interpolation bookkeeping, easing curve selections and widget state
//! machines. Floating point work (easing curves, linear interpolation)
//! is left to the embedding application; everything that decides *what*
//! to interpolate, *when* and *between which keyframes* lives here.
pub mod ease;
pub mod frame;
pub mod keyframes;
pub mod time;
pub mod timeline;
pub mod utils;
pub mod widget;

pub use crate::ease::{
    Back, Bounce, Circular, Cubic, Ease, Elastic, Exponential, Linear, Quadratic, Quartic, Quintic,
    Sinusoidal,
};
pub use crate::keyframes::Repeat;
pub use crate::timeline::{Chain, Timeline};
pub use crate::utils::static_array_from_iter;
