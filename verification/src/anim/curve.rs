use vstd::prelude::*;
use crate::anim::key::Key;
use crate::anim::search::{lemma_ordered_by_neighbours, ordered};

verus! {

/// A curve: the keys of one animated quantity, in the order they were given.
///
/// A curve is not modified after construction. Sampling expects the keys in
/// non-decreasing time order (see `ordered` in the search module); keys that
/// share a time encode a jump.
#[derive(Debug)]
pub struct AnimParam<T> {
    control_points: Vec<Key<T>>,
}

impl<T> View for AnimParam<T> {
    type V = Seq<Key<T>>;

    closed spec fn view(&self) -> Seq<Key<T>> {
        self.control_points@
    }
}

impl<T> AnimParam<T> {
    pub fn new(cps: Vec<Key<T>>) -> (r: Self)
        ensures
            r@ == cps@,
    {
        AnimParam { control_points: cps }
    }

    /// The number of keys.
    pub fn len(&self) -> (n: usize)
        ensures
            n == self@.len(),
    {
        self.control_points.len()
    }

    /// The key at index `i`, if there is one.
    pub fn get(&self, i: usize) -> (r: Option<&Key<T>>)
        ensures
            i < self@.len() ==> r == Some(&self@[i as int]),
            i >= self@.len() ==> r is None,
    {
        if i < self.control_points.len() {
            Some(&self.control_points[i])
        } else {
            None
        }
    }

    /// The keys, as the vector they are stored in.
    pub fn keys(&self) -> (r: &Vec<Key<T>>)
        ensures
            r@ == self@,
    {
        &self.control_points
    }

    /// Whether the keys are in non-decreasing time order, as sampling expects
    /// them.
    pub fn is_ordered(&self) -> (b: bool)
        ensures
            b == ordered(self@),
    {
        let n = self.control_points.len();
        let mut k: usize = 1;
        while k < n
            invariant
                n == self@.len(),
                1 <= k,
                forall|j: int| 0 < j < k && j < n ==> self@[j - 1].t <= #[trigger] self@[j].t,
            decreases n - k,
        {
            if self.control_points[k - 1].t > self.control_points[k].t {
                return false;
            }
            k += 1;
        }
        proof {
            lemma_ordered_by_neighbours(self@);
        }
        true
    }

    /// An iterator over the keys, from the first to the last.
    pub fn into_iter(&self) -> (it: AnimParamIterator<'_, T>)
        ensures
            it@ == self@,
    {
        AnimParamIterator { anim_param: self, i: 0 }
    }
}

/// Forward iteration over the keys of a curve.
pub struct AnimParamIterator<'a, T> {
    anim_param: &'a AnimParam<T>,
    i: usize,
}

impl<'a, T> View for AnimParamIterator<'a, T> {
    type V = Seq<Key<T>>;

    /// The keys that are still to come.
    closed spec fn view(&self) -> Seq<Key<T>> {
        if self.i <= self.anim_param@.len() {
            self.anim_param@.subrange(self.i as int, self.anim_param@.len() as int)
        } else {
            Seq::empty()
        }
    }
}

impl<'a, T> AnimParamIterator<'a, T> {
    /// Hands out the next key and steps past it; `None` once all were handed out.
    pub fn next(&mut self) -> (r: Option<&'a Key<T>>)
        ensures
            old(self)@.len() == 0 ==> r is None && final(self)@ == old(self)@,
            old(self)@.len() > 0 ==> r == Some(&old(self)@[0])
                && final(self)@ == old(self)@.drop_first(),
    {
        let r = self.anim_param.get(self.i);
        if r.is_some() {
            assert(self.i < self.anim_param.control_points.len());
            self.i += 1;
        }
        r
    }
}

} // verus!
