//! What holds of sampling on every curve: laws that relate the two searches,
//! the interpolation modes and the iteration over a curve.

use vstd::prelude::*;
use crate::anim::key::{Interpolation, Key, Time};
use crate::anim::lerp::{Basis, Lerp};
use crate::anim::sampler::{
    cursor_after,
    curve_value,
    normalized,
    sample_spec,
    segment_found,
    value_at,
    weight,
};
use crate::anim::search::{
    around_search_spec,
    binary_search_spec,
    brackets,
    in_range,
    lemma_bisect_ordered,
    lemma_lower_cp,
    lemma_walk_ordered,
    lower_cp,
    ordered,
    start_of,
};

verus! {

/// On ordered keys the random search and the continuous search return the
/// same segment, whatever cursor the continuous search starts from: the one
/// segment that holds `t`, which there is exactly when `t` is within the
/// curve's range.
pub proof fn lemma_searches_agree<T>(keys: Seq<Key<T>>, t: Time, cursor: usize)
    requires
        ordered(keys),
        keys.len() <= usize::MAX,
    ensures
        binary_search_spec(keys, t) == around_search_spec(keys, cursor, t),
        binary_search_spec(keys, t) == lower_cp(keys, t),
        binary_search_spec(keys, t) is Some <==> in_range(keys, t),
        binary_search_spec(keys, t) is Some ==> brackets(
            keys,
            binary_search_spec(keys, t).unwrap() as int,
            t,
        ),
{
    lemma_lower_cp(keys, t);
    if keys.len() >= 2 {
        lemma_bisect_ordered(keys, 0, keys.len() - 1, t);
        lemma_walk_ordered(keys, start_of(keys.len() as int, cursor), t);
    }
}

/// A query at the time of a key resolves to that key: on ordered keys, where
/// the next key comes later, both searches return the segment that begins at
/// the key. Of keys that share a time, the last one is that key.
pub proof fn lemma_at_key_time<T>(keys: Seq<Key<T>>, cursor: usize, i: int)
    requires
        ordered(keys),
        keys.len() <= usize::MAX,
        0 <= i,
        i + 1 < keys.len(),
        keys[i].t < keys[i + 1].t,
    ensures
        binary_search_spec(keys, keys[i].t) == Some(i as usize),
        around_search_spec(keys, cursor, keys[i].t) == Some(i as usize),
{
    lemma_searches_agree(keys, keys[i].t, cursor);
    assert(brackets(keys, i, keys[i].t));
}

/// On ordered keys a sampler gives the value of the curve at `t`, whatever
/// its cursor and whichever way it searches.
pub proof fn lemma_sample_is_curve_value<T: Lerp>(
    keys: Seq<Key<T>>,
    cursor: usize,
    t: Time,
    random_sampling: bool,
)
    requires
        ordered(keys),
        keys.len() <= usize::MAX,
    ensures
        segment_found(keys, cursor, t, random_sampling) == lower_cp(keys, t),
        sample_spec(keys, cursor, t, random_sampling) == curve_value(keys, t),
{
    lemma_searches_agree(keys, t, cursor);
}

/// A curve of fewer than two keys gives no value, at any time.
pub proof fn lemma_too_few_keys<T: Lerp>(
    keys: Seq<Key<T>>,
    cursor: usize,
    t: Time,
    random_sampling: bool,
)
    requires
        keys.len() < 2,
    ensures
        sample_spec(keys, cursor, t, random_sampling) is None,
        cursor_after(keys, cursor, t, random_sampling) == cursor,
{
}

/// A curve of ordered keys gives no value before the time of its first key,
/// nor at or after the time of its last key.
pub proof fn lemma_out_of_range<T: Lerp>(
    keys: Seq<Key<T>>,
    cursor: usize,
    t: Time,
    random_sampling: bool,
)
    requires
        ordered(keys),
        keys.len() <= usize::MAX,
        keys.len() >= 1,
        t < keys[0].t || t >= keys[keys.len() - 1].t,
    ensures
        sample_spec(keys, cursor, t, random_sampling) is None,
        cursor_after(keys, cursor, t, random_sampling) == cursor,
{
    lemma_searches_agree(keys, t, cursor);
}

/// Within its range a curve of ordered keys always gives a value: that of
/// the one segment that holds the time.
pub proof fn lemma_in_range<T: Lerp>(
    keys: Seq<Key<T>>,
    cursor: usize,
    t: Time,
    random_sampling: bool,
    i: int,
)
    requires
        ordered(keys),
        keys.len() <= usize::MAX,
        brackets(keys, i, t),
    ensures
        in_range(keys, t),
        sample_spec(keys, cursor, t, random_sampling) == Some(value_at(keys, i, t)),
        !random_sampling ==> cursor_after(keys, cursor, t, random_sampling) == i,
{
    lemma_searches_agree(keys, t, cursor);
}

/// No segment of length 0 is ever evaluated: the normalized time of a time
/// within the segment that holds it is a fraction from 0 up to, and not
/// including, 1, whose denominator is the length of the segment.
pub proof fn lemma_normalized_time<T>(keys: Seq<Key<T>>, t: Time, i: int)
    requires
        brackets(keys, i, t),
    ensures
        normalized(keys[i].t, keys[i + 1].t, t).wf(),
        normalized(keys[i].t, keys[i + 1].t, t).num == t - keys[i].t,
        normalized(keys[i].t, keys[i + 1].t, t).den == keys[i + 1].t - keys[i].t,
        normalized(keys[i].t, keys[i + 1].t, t).num < normalized(keys[i].t, keys[i + 1].t, t).den,
{
}

/// `Hold`: anywhere from the time of a `Hold` key up to the time of the next
/// key, the curve gives exactly the value of that key.
pub proof fn lemma_hold<T: Lerp>(
    keys: Seq<Key<T>>,
    cursor: usize,
    t: Time,
    random_sampling: bool,
    i: int,
)
    requires
        ordered(keys),
        keys.len() <= usize::MAX,
        brackets(keys, i, t),
        keys[i].interpolation is Hold,
    ensures
        sample_spec(keys, cursor, t, random_sampling) == Some(keys[i].value),
{
    lemma_in_range(keys, cursor, t, random_sampling, i);
}

/// `Linear`: within the segment of a `Linear` key the curve gives the blend
/// of the key's value and the next key's value, at the elapsed part of the
/// segment over its length. At the key's time that weight is 0; halfway to
/// the next key it is one half.
pub proof fn lemma_linear<T: Lerp>(
    keys: Seq<Key<T>>,
    cursor: usize,
    t: Time,
    random_sampling: bool,
    i: int,
)
    requires
        ordered(keys),
        keys.len() <= usize::MAX,
        brackets(keys, i, t),
        keys[i].interpolation is Linear,
    ensures
        sample_spec(keys, cursor, t, random_sampling) == Some(
            T::lerp_spec(
                keys[i].value,
                keys[i + 1].value,
                weight(Basis::Identity, normalized(keys[i].t, keys[i + 1].t, t)),
            ),
        ),
        t == keys[i].t ==> normalized(keys[i].t, keys[i + 1].t, t).num == 0,
        t - keys[i].t == keys[i + 1].t - t ==> 2 * normalized(keys[i].t, keys[i + 1].t, t).num
            == normalized(keys[i].t, keys[i + 1].t, t).den,
{
    lemma_in_range(keys, cursor, t, random_sampling, i);
}

/// The values that a sampler gives when it samples a curve continuously at
/// `times`, one time after the other, starting with the given cursor.
pub open spec fn continuous_run<T: Lerp>(
    keys: Seq<Key<T>>,
    cursor: usize,
    times: Seq<Time>,
) -> Seq<Option<T>>
    decreases times.len(),
{
    if times.len() == 0 {
        Seq::empty()
    } else {
        seq![sample_spec(keys, cursor, times[0], false)] + continuous_run(
            keys,
            cursor_after(keys, cursor, times[0], false),
            times.drop_first(),
        )
    }
}

/// The values that random sampling gives at each of `times` by itself.
pub open spec fn random_run<T: Lerp>(keys: Seq<Key<T>>, times: Seq<Time>) -> Seq<Option<T>> {
    Seq::new(times.len(), |k: int| sample_spec(keys, 0, times[k], true))
}

/// On ordered keys a run of continuous sampling gives, time for time, what
/// random sampling gives at each time by itself. This holds from any cursor,
/// so from that of a fresh sampler, and for any times, so for increasing ones.
pub proof fn lemma_continuous_run<T: Lerp>(keys: Seq<Key<T>>, cursor: usize, times: Seq<Time>)
    requires
        ordered(keys),
        keys.len() <= usize::MAX,
    ensures
        continuous_run(keys, cursor, times) == random_run(keys, times),
    decreases times.len(),
{
    if times.len() == 0 {
        assert(continuous_run(keys, cursor, times) =~= random_run(keys, times));
    } else {
        let rest = times.drop_first();
        lemma_sample_is_curve_value(keys, cursor, times[0], false);
        lemma_sample_is_curve_value(keys, 0, times[0], true);
        lemma_continuous_run(keys, cursor_after(keys, cursor, times[0], false), rest);
        assert(continuous_run(keys, cursor, times) =~= random_run(keys, times));
    }
}

/// The keys that an iterator hands out, one call of `next` after the other,
/// when `remaining` are the keys that it has still to come.
pub open spec fn handed_out<T>(remaining: Seq<Key<T>>) -> Seq<Key<T>>
    decreases remaining.len(),
{
    if remaining.len() == 0 {
        Seq::empty()
    } else {
        seq![remaining[0]] + handed_out(remaining.drop_first())
    }
}

/// Round trip: an iterator over a curve made of `keys` has `keys` to come,
/// and hands out those keys, each once, in their order.
pub proof fn lemma_round_trip<T>(keys: Seq<Key<T>>)
    ensures
        handed_out(keys) == keys,
    decreases keys.len(),
{
    if keys.len() == 0 {
        assert(handed_out(keys) =~= keys);
    } else {
        lemma_round_trip(keys.drop_first());
        assert(handed_out(keys) =~= keys);
    }
}

} // verus!
