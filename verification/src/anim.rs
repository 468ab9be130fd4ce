//! The keyframe curve sampling engine.
//!
//! A [`Key`] stamps a value with a time and says how to blend towards the
//! next key. An [`AnimParam`] is a curve: a sequence of keys. A [`Sampler`]
//! finds the segment of a curve that holds a given time and evaluates it; a
//! [`Cont`] binds a sampler to a curve and a fallback value, as one signal
//! from time to value.

pub mod cont;
pub mod curve;
pub mod key;
pub mod laws;
pub mod lerp;
pub mod sampler;
pub mod search;

pub use self::cont::Cont;
pub use self::curve::{AnimParam, AnimParamIterator};
pub use self::key::{Interpolation, Key, Tangent, Time};
pub use self::lerp::{Basis, Lerp, Ratio, Weight};
pub use self::sampler::Sampler;
pub use self::search::{around_search_lower_cp, binary_search_lower_cp};
