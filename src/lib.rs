//! Tweening: driving easing curves through time.
//!
//! A [`Tween`] is a stateless curve over a duration. The drivers in
//! [`tweener`] turn it into a stream of values, and the wrappers there loop,
//! oscillate or chain those streams.
pub mod linear;
pub mod tween;
pub mod tweener;

pub use linear::Linear;
pub use tween::{SizedTween, Tween};
