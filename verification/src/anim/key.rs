use vstd::prelude::*;

verus! {

/// A point in playback time, in ticks of the caller's clock.
///
/// The engine only compares times and takes differences of them, so the
/// length of a tick is the caller's choice; it has to be the same for the
/// keys of a curve and for the times the curve is sampled at.
pub type Time = i64;

/// An auxiliary control point of a Bezier segment.
#[derive(Copy, Clone, Debug)]
pub struct Tangent<T> {
    /// Time of the control point.
    pub t: Time,
    /// Value of the control point.
    pub value: T,
}

impl<T> Tangent<T> {
    pub fn new(t: Time, value: T) -> (r: Self)
        ensures
            r.t == t,
            r.value == value,
    {
        Tangent { t, value }
    }
}

/// How a key blends towards the key that follows it.
///
/// The mode of key `i` governs the segment from key `i` to key `i + 1`; the
/// mode of the last key of a curve is never evaluated.
#[derive(Copy, Clone, Debug)]
pub enum Interpolation<T> {
    /// Hold a `Key` until the next one is met.
    Hold,
    /// Linear interpolation between a `Key` and the next one.
    Linear,
    /// Cosine interpolation between a `Key` and the next one.
    Cosine,
    /// Cubic Bezier interpolation between a `Key` and the next one.
    ///
    /// The first tangent is the interior control point next to this key on
    /// the segment that starts here. The second is the left tangent: the
    /// interior control point next to this key on the segment that ends here.
    Bezier(Tangent<T>, Tangent<T>),
    /// Catmull-Rom interpolation between a `Key` and the next one.
    ///
    /// The spline is the uniform one: its tangent at a key is half the
    /// difference of the values of the keys on both sides of it. Where the
    /// segment is the first or the last of the curve, the key that is missing
    /// on that side is taken to be the key at that end of the segment.
    CatmullRom,
}

/// A control point: a value to be reached at a time, and the way to leave it.
#[derive(Copy, Clone, Debug)]
pub struct Key<T> {
    /// Time at which the `Key` should be reached.
    pub t: Time,
    /// Actual value.
    pub value: T,
    /// Interpolation mode.
    pub interpolation: Interpolation<T>,
}

impl<T> Key<T> {
    pub fn new(t: Time, value: T, interpolation: Interpolation<T>) -> (r: Self)
        ensures
            r.t == t,
            r.value == value,
            r.interpolation == interpolation,
    {
        Key { t, value, interpolation }
    }
}

} // verus!
