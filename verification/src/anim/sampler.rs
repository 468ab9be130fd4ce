use vstd::prelude::*;
use crate::anim::curve::AnimParam;
use crate::anim::key::{Interpolation, Key, Time};
use crate::anim::lerp::{Basis, Lerp, Ratio, Weight};
use crate::anim::search::{
    around_search_lower_cp,
    around_search_spec,
    binary_search_lower_cp,
    binary_search_spec,
    brackets,
    in_range,
    lower_cp,
    ordered,
};

verus! {

/// The normalized time of `t` within the segment from a key at `t0` to a key
/// at `t1`: the elapsed part of the segment over its length. A segment that
/// holds `t` has `t0 <= t < t1`, so its length is not 0.
pub open spec fn normalized(t0: Time, t1: Time, t: Time) -> Ratio {
    Ratio { num: (t - t0) as u64, den: (t1 - t0) as u64 }
}

/// The weight `basis` at normalized time `at`.
pub open spec fn weight(basis: Basis, at: Ratio) -> Weight {
    Weight { basis, at }
}

/// The sum of four points, each scaled by its weight, added up from the
/// first to the last.
pub open spec fn blend4<T: Lerp>(p: (T, T, T, T), w: (Weight, Weight, Weight, Weight)) -> T {
    T::sum_spec(
        T::sum_spec(
            T::sum_spec(T::scaled_spec(p.0, w.0), T::scaled_spec(p.1, w.1)),
            T::scaled_spec(p.2, w.2),
        ),
        T::scaled_spec(p.3, w.3),
    )
}

/// The cubic Bezier curve through `p.0` and `p.3` with the interior control
/// points `p.1` and `p.2`, at normalized time `nt`.
pub open spec fn bezier<T: Lerp>(p: (T, T, T, T), nt: Ratio) -> T {
    blend4(
        p,
        (
            weight(Basis::Bernstein(0), nt),
            weight(Basis::Bernstein(1), nt),
            weight(Basis::Bernstein(2), nt),
            weight(Basis::Bernstein(3), nt),
        ),
    )
}

/// The uniform Catmull-Rom spline from `p.1` to `p.2`, with `p.0` before and
/// `p.3` after them, at normalized time `nt`. Its tangent at a point is half
/// the difference of the points on both sides of it.
pub open spec fn catmull_rom<T: Lerp>(p: (T, T, T, T), nt: Ratio) -> T {
    blend4(
        p,
        (
            weight(Basis::CatmullRom(0), nt),
            weight(Basis::CatmullRom(1), nt),
            weight(Basis::CatmullRom(2), nt),
            weight(Basis::CatmullRom(3), nt),
        ),
    )
}

/// The interior control point on the side of `cp1` of a Bezier segment that
/// ends at `cp1`: the left tangent of `cp1` where `cp1` is a Bezier key, else
/// the value of `cp1`.
pub open spec fn left_tangent<T>(cp1: Key<T>) -> T {
    match cp1.interpolation {
        Interpolation::Bezier(_, left) => left.value,
        _ => cp1.value,
    }
}

/// The point before segment `i` of a Catmull-Rom spline: the value of the key
/// before the segment, or that of its lower key where the curve starts there.
pub open spec fn point_before<T>(keys: Seq<Key<T>>, i: int) -> T {
    if i > 0 {
        keys[i - 1].value
    } else {
        keys[i].value
    }
}

/// The point after segment `i` of a Catmull-Rom spline: the value of the key
/// after the segment, or that of its upper key where the curve ends there.
pub open spec fn point_after<T>(keys: Seq<Key<T>>, i: int) -> T {
    if i + 2 < keys.len() {
        keys[i + 2].value
    } else {
        keys[i + 1].value
    }
}

/// The value of the curve at `t`, a time that segment `i` holds, by the
/// interpolation mode of the segment's lower key.
pub open spec fn value_at<T: Lerp>(keys: Seq<Key<T>>, i: int, t: Time) -> T {
    let cp = keys[i];
    let cp1 = keys[i + 1];
    let nt = normalized(cp.t, cp1.t, t);
    match cp.interpolation {
        Interpolation::Hold => cp.value,
        Interpolation::Linear => T::lerp_spec(cp.value, cp1.value, weight(Basis::Identity, nt)),
        Interpolation::Cosine => T::lerp_spec(cp.value, cp1.value, weight(Basis::Cosine, nt)),
        Interpolation::Bezier(first, _) => bezier(
            (cp.value, first.value, left_tangent(cp1), cp1.value),
            nt,
        ),
        Interpolation::CatmullRom => catmull_rom(
            (point_before(keys, i), cp.value, cp1.value, point_after(keys, i)),
            nt,
        ),
    }
}

/// The value of a curve of ordered keys at `t`: that of the segment that
/// holds `t`, and none where no segment does.
pub open spec fn curve_value<T: Lerp>(keys: Seq<Key<T>>, t: Time) -> Option<T> {
    match lower_cp(keys, t) {
        Some(i) => Some(value_at(keys, i as int, t)),
        None => None,
    }
}

/// The segment that a sampler with the given cursor finds for `t`: by random
/// search, or by continuous search from the cursor.
pub open spec fn segment_found<T>(
    keys: Seq<Key<T>>,
    cursor: usize,
    t: Time,
    random_sampling: bool,
) -> Option<usize> {
    if random_sampling {
        binary_search_spec(keys, t)
    } else {
        around_search_spec(keys, cursor, t)
    }
}

/// What a sampler with the given cursor gives at `t`: the value of the
/// segment it finds, and none where it finds no segment.
pub open spec fn sample_spec<T: Lerp>(
    keys: Seq<Key<T>>,
    cursor: usize,
    t: Time,
    random_sampling: bool,
) -> Option<T> {
    match segment_found(keys, cursor, t, random_sampling) {
        Some(i) => Some(value_at(keys, i as int, t)),
        None => None,
    }
}

/// The cursor of a sampler after it sampled at `t`. Continuous sampling
/// moves the cursor to the segment it found; random sampling, and a search
/// that finds no segment, leave it where it was.
pub open spec fn cursor_after<T>(
    keys: Seq<Key<T>>,
    cursor: usize,
    t: Time,
    random_sampling: bool,
) -> usize {
    match segment_found(keys, cursor, t, random_sampling) {
        Some(i) => if random_sampling {
            cursor
        } else {
            i
        },
        None => cursor,
    }
}

// Normalize a time ([0;1]) given two control points.
fn normalize_time<T>(t: Time, cp: &Key<T>, cp1: &Key<T>) -> (nt: Ratio)
    requires
        cp.t <= t < cp1.t,
    ensures
        nt == normalized(cp.t, cp1.t, t),
        nt.wf(),
{
    Ratio { num: (t as i128 - cp.t as i128) as u64, den: (cp1.t as i128 - cp.t as i128) as u64 }
}

// Scale four points by their weights and add them up.
fn blend4_of<T: Lerp>(p: (T, T, T, T), w: (Weight, Weight, Weight, Weight)) -> (r: T)
    requires
        w.0.wf(),
        w.1.wf(),
        w.2.wf(),
        w.3.wf(),
    ensures
        r == blend4(p, w),
{
    let s0 = T::scaled(p.0, w.0);
    let s1 = T::scaled(p.1, w.1);
    let s2 = T::scaled(p.2, w.2);
    let s3 = T::scaled(p.3, w.3);
    T::sum(T::sum(T::sum(s0, s1), s2), s3)
}

/// Samplers can sample `AnimParam` by providing a time. They should be mutable so that they can
/// maintain an internal state for optimization purposes.
pub struct Sampler {
    /// Playback cursor: the lower control point index of the segment that was found last.
    cursor: usize,
}

impl Sampler {
    /// The playback cursor.
    pub closed spec fn cursor(&self) -> usize {
        self.cursor
    }

    pub fn new() -> (r: Self)
        ensures
            r.cursor() == 0,
    {
        Sampler { cursor: 0 }
    }

    /// Evaluate segment `i` of `cps` at `t`, a time that the segment holds.
    pub fn evaluate<T>(cps: &Vec<Key<T>>, i: usize, t: Time) -> (v: T) where T: Lerp
        requires
            brackets(cps@, i as int, t),
        ensures
            v == value_at(cps@, i as int, t),
    {
        let len = cps.len();
        let cp = &cps[i];
        let cp1 = &cps[i + 1];
        match cp.interpolation {
            Interpolation::Hold => cp.value,
            Interpolation::Linear => {
                let nt = normalize_time(t, cp, cp1);
                T::lerp(cp.value, cp1.value, Weight::new(Basis::Identity, nt))
            },
            Interpolation::Cosine => {
                let nt = normalize_time(t, cp, cp1);
                T::lerp(cp.value, cp1.value, Weight::new(Basis::Cosine, nt))
            },
            Interpolation::Bezier(first, _) => {
                let nt = normalize_time(t, cp, cp1);
                let inner = match cp1.interpolation {
                    Interpolation::Bezier(_, left) => left.value,
                    _ => cp1.value,
                };
                blend4_of(
                    (cp.value, first.value, inner, cp1.value),
                    (
                        Weight::new(Basis::Bernstein(0), nt),
                        Weight::new(Basis::Bernstein(1), nt),
                        Weight::new(Basis::Bernstein(2), nt),
                        Weight::new(Basis::Bernstein(3), nt),
                    ),
                )
            },
            Interpolation::CatmullRom => {
                let nt = normalize_time(t, cp, cp1);
                let before = if i > 0 {
                    cps[i - 1].value
                } else {
                    cp.value
                };
                let after = if i + 2 < len {
                    cps[i + 2].value
                } else {
                    cp1.value
                };
                blend4_of(
                    (before, cp.value, cp1.value, after),
                    (
                        Weight::new(Basis::CatmullRom(0), nt),
                        Weight::new(Basis::CatmullRom(1), nt),
                        Weight::new(Basis::CatmullRom(2), nt),
                        Weight::new(Basis::CatmullRom(3), nt),
                    ),
                )
            },
        }
    }

    /// Sample an animation `param` at `t`. If `random_sampling` is set, random sampling is generally
    /// faster than continuous sampling. Though, if you use continuous sampling, set `random_sampling`
    /// to `false` for max speed performance.
    ///
    /// The search decides: random sampling bisects the curve, continuous
    /// sampling walks from the cursor and leaves the cursor at the segment it
    /// found. A curve of fewer than two keys has no segment and gives no
    /// value. On ordered keys both ways give the value of the curve at `t`:
    /// there is one exactly when `t` is within the curve's range.
    pub fn sample<T>(&mut self, t: Time, param: &AnimParam<T>, random_sampling: bool) -> (r:
        Option<T>) where T: Lerp
        ensures
            r == sample_spec(param@, old(self).cursor(), t, random_sampling),
            final(self).cursor() == cursor_after(param@, old(self).cursor(), t, random_sampling),
            param@.len() < 2 ==> r is None,
            ordered(param@) ==> r == curve_value(param@, t),
            ordered(param@) ==> (r is Some <==> in_range(param@, t)),
    {
        let cps = param.keys();
        let i = if random_sampling {
            binary_search_lower_cp(cps, t)
        } else {
            let i = around_search_lower_cp(cps, self.cursor, t);
            // if we've found the index, replace the cursor to speed up next searches
            if let Some(cursor) = i {
                self.cursor = cursor;
            }
            i
        };
        let i = match i {
            Some(i) => i,
            None => return None,
        };
        Some(Sampler::evaluate(cps, i, t))
    }
}

} // verus!
