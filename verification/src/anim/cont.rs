use vstd::prelude::*;
use crate::anim::curve::AnimParam;
use crate::anim::key::{Key, Time};
use crate::anim::lerp::Lerp;
use crate::anim::sampler::{cursor_after, curve_value, sample_spec, Sampler};
use crate::anim::search::ordered;

verus! {

/// What a sample comes to in a signal: the sampled value, or the fallback
/// where there is none.
pub open spec fn or_fallback<A>(sample: Option<A>, fallback: A) -> A {
    match sample {
        Some(v) => v,
        None => fallback,
    }
}

/// Continuous animation.
///
/// This type wraps a value of type `A` as a function of time. It has a simple
/// semantic: `at`, giving the value at the wished time. It owns the curve it
/// plays, the sampler that follows the playback, and the value it gives where
/// the curve has none.
pub struct Cont<A> {
    param: AnimParam<A>,
    sampler: Sampler,
    fallback: A,
}

impl<A: Lerp> Cont<A> {
    /// The keys of the curve.
    pub closed spec fn keys(&self) -> Seq<Key<A>> {
        self.param@
    }

    /// The value given where the curve has none.
    pub closed spec fn fallback(&self) -> A {
        self.fallback
    }

    /// The cursor of the sampler.
    pub closed spec fn cursor(&self) -> usize {
        self.sampler.cursor()
    }

    pub fn new(param: AnimParam<A>, fallback: A) -> (r: Self)
        ensures
            r.keys() == param@,
            r.fallback() == fallback,
            r.cursor() == 0,
    {
        Cont { param, sampler: Sampler::new(), fallback }
    }

    /// The value of the signal at `t`: the curve sampled continuously, or the
    /// fallback where the sampler finds no segment for `t`. Only the cursor
    /// changes. On ordered keys the value is that of the curve at `t`
    /// wherever the curve has one.
    pub fn at(&mut self, t: Time) -> (r: A)
        ensures
            final(self).keys() == old(self).keys(),
            final(self).fallback() == old(self).fallback(),
            final(self).cursor() == cursor_after(old(self).keys(), old(self).cursor(), t, false),
            r == or_fallback(
                sample_spec(old(self).keys(), old(self).cursor(), t, false),
                old(self).fallback(),
            ),
            ordered(old(self).keys()) ==> r == or_fallback(
                curve_value(old(self).keys(), t),
                old(self).fallback(),
            ),
    {
        match self.sampler.sample(t, &self.param, false) {
            Some(v) => v,
            None => self.fallback,
        }
    }
}

} // verus!
