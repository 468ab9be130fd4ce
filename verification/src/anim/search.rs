use vstd::prelude::*;
use crate::anim::key::{Key, Time};

verus! {

/// Keys are ordered when their times never decrease along the sequence.
pub open spec fn ordered<T>(keys: Seq<Key<T>>) -> bool {
    forall|i: int, j: int| 0 <= i <= j < keys.len() ==> keys[i].t <= keys[j].t
}

/// Segment `i`, from key `i` to key `i + 1`, holds the time `t`: the segment
/// begins at its lower key's time and ends just before its upper key's time.
pub open spec fn brackets<T>(keys: Seq<Key<T>>, i: int, t: Time) -> bool {
    0 <= i && i + 1 < keys.len() && keys[i].t <= t && t < keys[i + 1].t
}

/// The time `t` lies from the first key's time up to, and not including, the
/// last key's time.
pub open spec fn in_range<T>(keys: Seq<Key<T>>, t: Time) -> bool {
    keys.len() >= 2 && keys[0].t <= t && t < keys[keys.len() - 1].t
}

/// The index of a segment that holds `t`, if there is one. On ordered keys
/// there is at most one (`lemma_bracket_unique`).
pub open spec fn lower_cp<T>(keys: Seq<Key<T>>, t: Time) -> Option<usize> {
    if exists|i: int| brackets(keys, i, t) {
        Some((choose|i: int| brackets(keys, i, t)) as usize)
    } else {
        None
    }
}

/// The random search, as a function: bisection over the segments from
/// `down` to `up`. The segment in the middle is the answer if it holds `t`;
/// if it begins after `t` the search goes on below it, else above it. A
/// middle beyond the last segment, or an empty interval, ends the search
/// with nothing.
pub open spec fn bisect<T>(keys: Seq<Key<T>>, down: int, up: int, t: Time) -> Option<usize>
    decreases up + 1 - down,
{
    let m = (down + up) / 2;
    if down < 0 || down > up {
        None
    } else if m + 1 >= keys.len() {
        None
    } else if keys[m].t > t {
        bisect(keys, down, m - 1, t)
    } else if t >= keys[m + 1].t {
        bisect(keys, m + 1, up, t)
    } else {
        Some(m as usize)
    }
}

/// What the random search returns.
pub open spec fn binary_search_spec<T>(keys: Seq<Key<T>>, t: Time) -> Option<usize> {
    if keys.len() < 2 {
        None
    } else {
        bisect(keys, 0, keys.len() - 1, t)
    }
}

/// How far the continuous search at segment `i` may still have to go: up to
/// the last segment while `t` lies at or after the segment's end, down to
/// the first while `t` lies before its beginning.
pub open spec fn walk_distance<T>(keys: Seq<Key<T>>, i: int, t: Time) -> int {
    if !(0 <= i && i + 1 < keys.len()) {
        0
    } else if t >= keys[i + 1].t {
        keys.len() - i
    } else if t < keys[i].t {
        i + 1
    } else {
        0
    }
}

/// The continuous search, as a function: from segment `i`, step to the next
/// segment while `t` lies at or after the segment's end, to the one before
/// while `t` lies before its beginning. A step past the last or the first
/// segment ends the search with nothing.
pub open spec fn walk<T>(keys: Seq<Key<T>>, i: int, t: Time) -> Option<usize>
    decreases walk_distance(keys, i, t),
{
    if !(0 <= i && i + 1 < keys.len()) {
        None
    } else if t >= keys[i + 1].t {
        if i + 2 >= keys.len() {
            None
        } else {
            walk(keys, i + 1, t)
        }
    } else if t < keys[i].t {
        if i == 0 {
            None
        } else {
            walk(keys, i - 1, t)
        }
    } else {
        Some(i as usize)
    }
}

/// Where the continuous search starts on a curve of `len` keys, `len >= 2`,
/// from the cursor `i`: at `i`, or at the last segment when `i` lies beyond it.
pub open spec fn start_of(len: int, i: usize) -> int {
    if i <= len - 2 {
        i as int
    } else {
        len - 2
    }
}

/// What the continuous search returns from the cursor `i`.
pub open spec fn around_search_spec<T>(keys: Seq<Key<T>>, i: usize, t: Time) -> Option<usize> {
    if keys.len() < 2 {
        None
    } else {
        walk(keys, start_of(keys.len() as int, i), t)
    }
}

/// Keys are ordered as soon as no key comes before the key that precedes it.
pub proof fn lemma_ordered_by_neighbours<T>(keys: Seq<Key<T>>)
    requires
        forall|j: int| 0 < j < keys.len() ==> keys[j - 1].t <= #[trigger] keys[j].t,
    ensures
        ordered(keys),
{
    assert forall|i: int, j: int| 0 <= i <= j < keys.len() implies keys[i].t <= keys[j].t by {
        lemma_ordered_between(keys, i, j);
    }
}

proof fn lemma_ordered_between<T>(keys: Seq<Key<T>>, i: int, j: int)
    requires
        forall|j: int| 0 < j < keys.len() ==> keys[j - 1].t <= #[trigger] keys[j].t,
        0 <= i <= j < keys.len(),
    ensures
        keys[i].t <= keys[j].t,
    decreases j - i,
{
    if i < j {
        lemma_ordered_between(keys, i, j - 1);
    }
}

/// On ordered keys two segments that hold the same time are the same segment.
pub proof fn lemma_bracket_unique<T>(keys: Seq<Key<T>>, t: Time, i: int, j: int)
    requires
        ordered(keys),
        brackets(keys, i, t),
        brackets(keys, j, t),
    ensures
        i == j,
{
    if i < j {
        assert(keys[i + 1].t <= keys[j].t);
    }
    if j < i {
        assert(keys[j + 1].t <= keys[i].t);
    }
}

/// On ordered keys a segment holds only times within the curve's range.
pub proof fn lemma_bracket_in_range<T>(keys: Seq<Key<T>>, t: Time, i: int)
    requires
        ordered(keys),
        brackets(keys, i, t),
    ensures
        in_range(keys, t),
{
    assert(keys[0].t <= keys[i].t);
    assert(keys[i + 1].t <= keys[keys.len() - 1].t);
}

/// Scanning up from a key at or before `t`, some segment holds `t` when the
/// last key lies after `t`.
proof fn lemma_bracket_from<T>(keys: Seq<Key<T>>, t: Time, k: int) -> (i: int)
    requires
        0 <= k,
        k + 1 < keys.len(),
        keys[k].t <= t,
        t < keys[keys.len() - 1].t,
    ensures
        k <= i,
        brackets(keys, i, t),
    decreases keys.len() - k,
{
    if t < keys[k + 1].t {
        k
    } else {
        lemma_bracket_from(keys, t, k + 1)
    }
}

/// Every time within the range of a curve is held by a segment.
pub proof fn lemma_bracket_exists<T>(keys: Seq<Key<T>>, t: Time)
    requires
        in_range(keys, t),
    ensures
        exists|i: int| brackets(keys, i, t),
{
    let i = lemma_bracket_from(keys, t, 0);
    assert(brackets(keys, i, t));
}

/// On ordered keys `lower_cp` is the one segment that holds `t`, and there
/// is one exactly when `t` is within the curve's range.
pub proof fn lemma_lower_cp<T>(keys: Seq<Key<T>>, t: Time)
    requires
        ordered(keys),
        keys.len() <= usize::MAX,
    ensures
        lower_cp(keys, t) is Some <==> in_range(keys, t),
        lower_cp(keys, t) is Some ==> brackets(keys, lower_cp(keys, t).unwrap() as int, t),
        forall|i: int| brackets(keys, i, t) ==> lower_cp(keys, t) == Some(i as usize),
{
    if in_range(keys, t) {
        lemma_bracket_exists(keys, t);
    }
    if exists|i: int| brackets(keys, i, t) {
        let c = choose|i: int| brackets(keys, i, t);
        lemma_bracket_in_range(keys, t, c);
        assert forall|i: int| brackets(keys, i, t) implies lower_cp(keys, t) == Some(
            i as usize,
        ) by {
            lemma_bracket_unique(keys, t, i, c);
        }
    }
}

/// Whatever the order of the keys, a segment that the bisection returns
/// holds `t`.
pub proof fn lemma_bisect_brackets<T>(keys: Seq<Key<T>>, down: int, up: int, t: Time)
    requires
        keys.len() <= usize::MAX,
    ensures
        bisect(keys, down, up, t) is Some ==> brackets(
            keys,
            bisect(keys, down, up, t).unwrap() as int,
            t,
        ),
    decreases up + 1 - down,
{
    let m = (down + up) / 2;
    if down < 0 || down > up {
    } else if m + 1 >= keys.len() {
    } else if keys[m].t > t {
        lemma_bisect_brackets(keys, down, m - 1, t);
    } else if t >= keys[m + 1].t {
        lemma_bisect_brackets(keys, m + 1, up, t);
    } else {
    }
}

/// On ordered keys the bisection over an interval that leaves out no segment
/// that holds `t` returns the segment that holds `t`, if there is one.
pub proof fn lemma_bisect_ordered<T>(keys: Seq<Key<T>>, down: int, up: int, t: Time)
    requires
        ordered(keys),
        keys.len() <= usize::MAX,
        0 <= down,
        up < keys.len(),
        forall|j: int| brackets(keys, j, t) ==> down <= j <= up,
    ensures
        bisect(keys, down, up, t) == lower_cp(keys, t),
    decreases up + 1 - down,
{
    lemma_lower_cp(keys, t);
    let m = (down + up) / 2;
    if down > up {
    } else if m + 1 >= keys.len() {
    } else if keys[m].t > t {
        assert forall|j: int| brackets(keys, j, t) implies down <= j <= m - 1 by {
            if j >= m {
                assert(keys[m].t <= keys[j].t);
            }
        }
        lemma_bisect_ordered(keys, down, m - 1, t);
    } else if t >= keys[m + 1].t {
        assert forall|j: int| brackets(keys, j, t) implies m + 1 <= j <= up by {
            if j <= m {
                assert(keys[j + 1].t <= keys[m + 1].t);
            }
        }
        lemma_bisect_ordered(keys, m + 1, up, t);
    } else {
        assert(brackets(keys, m, t));
    }
}

/// Whatever the order of the keys, a segment that the walk returns holds `t`.
pub proof fn lemma_walk_brackets<T>(keys: Seq<Key<T>>, i: int, t: Time)
    requires
        keys.len() <= usize::MAX,
    ensures
        walk(keys, i, t) is Some ==> brackets(keys, walk(keys, i, t).unwrap() as int, t),
    decreases walk_distance(keys, i, t),
{
    if !(0 <= i && i + 1 < keys.len()) {
    } else if t >= keys[i + 1].t {
        if i + 2 < keys.len() {
            lemma_walk_brackets(keys, i + 1, t);
        }
    } else if t < keys[i].t {
        if i > 0 {
            lemma_walk_brackets(keys, i - 1, t);
        }
    } else {
    }
}

/// On ordered keys the walk from any segment returns the segment that holds
/// `t`, if there is one.
pub proof fn lemma_walk_ordered<T>(keys: Seq<Key<T>>, i: int, t: Time)
    requires
        ordered(keys),
        keys.len() <= usize::MAX,
        0 <= i,
        i + 1 < keys.len(),
    ensures
        walk(keys, i, t) == lower_cp(keys, t),
    decreases walk_distance(keys, i, t),
{
    lemma_lower_cp(keys, t);
    if t >= keys[i + 1].t {
        if i + 2 >= keys.len() {
            assert(!in_range(keys, t));
        } else {
            lemma_walk_ordered(keys, i + 1, t);
        }
    } else if t < keys[i].t {
        if i == 0 {
            assert(!in_range(keys, t));
        } else {
            lemma_walk_ordered(keys, i - 1, t);
        }
    } else {
        assert(brackets(keys, i, t));
    }
}

/// Find the lower control point corresponding to a given time. Random version.
///
/// A bisection over the segments of the curve. Whatever the order of the
/// keys, an index that is returned is that of a segment that holds `t`. On
/// ordered keys the segment that holds `t` is found whenever there is one,
/// which is whenever `t` is within the curve's range.
#[verifier::loop_isolation(false)]
pub fn binary_search_lower_cp<T>(cps: &Vec<Key<T>>, t: Time) -> (r: Option<usize>)
    ensures
        r == binary_search_spec(cps@, t),
        r is Some ==> brackets(cps@, r.unwrap() as int, t),
        ordered(cps@) ==> r == lower_cp(cps@, t),
        ordered(cps@) ==> (r is Some <==> in_range(cps@, t)),
{
    let len: usize = cps.len();
    if len < 2 {
        proof {
            if ordered(cps@) {
                lemma_lower_cp(cps@, t);
            }
        }
        return None;
    }
    proof {
        lemma_bisect_brackets(cps@, 0, len - 1, t);
        if ordered(cps@) {
            lemma_lower_cp(cps@, t);
            lemma_bisect_ordered(cps@, 0, len - 1, t);
        }
    }
    let mut down: usize = 0;
    let mut up: usize = len - 1;

    while down <= up
        invariant
            up <= len - 1,
            bisect(cps@, down as int, up as int, t) == binary_search_spec(cps@, t),
        decreases up + 1 - down,
    {
        let m: usize = down + (up - down) / 2;
        if m >= len - 1 {
            return None;
        }
        if cps[m].t > t {
            if m == 0 {
                assert(bisect(cps@, down as int, -1, t) is None);
                return None;
            }
            up = m - 1;
        } else {
            if t >= cps[m + 1].t {
                down = m + 1;
            } else {
                return Some(m);
            }
        }
    }
    None
}

/// Find the lower control point corresponding to a given time. Continuous
/// version. `i` is the last known found index.
///
/// Walks from segment `i` towards `t`, one segment at a time; a cursor beyond
/// the last segment starts at the last segment. Whatever the order of the
/// keys, an index that is returned is that of a segment that holds `t`. On
/// ordered keys the segment that holds `t` is found whenever there is one,
/// which is whenever `t` is within the curve's range, whatever `i` is.
#[verifier::loop_isolation(false)]
pub fn around_search_lower_cp<T>(cps: &Vec<Key<T>>, i: usize, t: Time) -> (r: Option<usize>)
    ensures
        r == around_search_spec(cps@, i, t),
        r is Some ==> brackets(cps@, r.unwrap() as int, t),
        ordered(cps@) ==> r == lower_cp(cps@, t),
        ordered(cps@) ==> (r is Some <==> in_range(cps@, t)),
{
    let len: usize = cps.len();
    if len < 2 {
        proof {
            if ordered(cps@) {
                lemma_lower_cp(cps@, t);
            }
        }
        return None;
    }
    let mut at: usize = if i > len - 2 {
        len - 2
    } else {
        i
    };
    proof {
        lemma_walk_brackets(cps@, at as int, t);
        if ordered(cps@) {
            lemma_lower_cp(cps@, t);
            lemma_walk_ordered(cps@, at as int, t);
        }
    }
    loop
        invariant
            at <= len - 2,
            walk(cps@, at as int, t) == around_search_spec(cps@, i, t),
        decreases walk_distance(cps@, at as int, t),
    {
        if t >= cps[at + 1].t {
            if at >= len - 2 {
                return None;
            }
            at += 1;
        } else {
            if t < cps[at].t {
                if at == 0 {
                    return None;
                }
                at -= 1;
            } else {
                return Some(at);  // found
            }
        }
    }
}

} // verus!
