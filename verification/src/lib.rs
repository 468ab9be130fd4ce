//! Keyframe animation: curves of time-stamped control points, and samplers
//! that map a playback time to an interpolated value.

pub mod anim;
