//! Terms in which the laws of the operations are stated: places in lists, times in profiles
//! and what of a user has changed.
//!
//! A law of an operation speaks of what a call can yield, written `call_ensures`. An
//! operation that changes a user turns a user `before` into a user `after`.
use crate::profiling::Profiler;
use crate::user::User;
use vstd::prelude::*;

verus! {

/// The places are those below `n` that are wanted, all of them, in increasing order.
pub open spec fn lists_places(places: Seq<int>, n: nat, wanted: spec_fn(int) -> bool) -> bool {
    &&& forall|i: int, j: int|
        0 <= i < j < places.len() ==> #[trigger] places[i] < #[trigger] places[j]
    &&& forall|k: int|
        0 <= k < places.len() ==> 0 <= #[trigger] places[k] < n && wanted(places[k])
    &&& forall|i: int| 0 <= i < n && #[trigger] wanted(i) ==> places.contains(i)
}

/// What filtering and mapping a sequence leaves stands for the elements at certain places.
pub proof fn kept_places<A, B>(s: Seq<A>, f: spec_fn(A) -> Option<B>, wanted: spec_fn(int) -> bool) -> (places:
    Seq<int>)
    requires
        forall|i: int| 0 <= i < s.len() ==> (#[trigger] wanted(i) <==> f(s[i]) is Some),
    ensures
        lists_places(places, s.len(), wanted),
        s.filter_map(f).len() == places.len(),
        forall|k: int|
            0 <= k < places.len() ==> f(s[#[trigger] places[k]]) == Some(s.filter_map(f)[k]),
    decreases s.len(),
{
    if s.len() == 0 {
        Seq::empty()
    } else {
        let rest = s.drop_last();
        let n = s.len() - 1;
        assert forall|i: int| 0 <= i < rest.len() implies (#[trigger] wanted(i) <==> f(rest[i]) is Some) by {
            assert(rest[i] == s[i]);
        }
        let before = kept_places(rest, f, wanted);
        let kept = rest.filter_map(f);
        let places = if wanted(n) {
            before.push(n)
        } else {
            before
        };
        assert(s.last() == s[n]);
        assert(s.filter_map(f) == match f(s[n]) {
            Some(b) => kept + seq![b],
            None => kept,
        });
        assert forall|i: int| 0 <= i < s.len() && #[trigger] wanted(i) implies places.contains(i) by {
            if i < n {
                assert(before.contains(i));
                let k = before.index_of(i);
                assert(places[k] == i);
            } else {
                assert(places[before.len() as int] == i);
            }
        }
        assert forall|k: int| 0 <= k < places.len() implies f(s[#[trigger] places[k]]) == Some(
            s.filter_map(f)[k],
        ) by {
            if k < before.len() {
                assert(places[k] == before[k]);
                assert(rest[before[k]] == s[before[k]]);
            }
        }
        places
    }
}

/// What a profile holds under a key, or zero where it holds nothing or there is none.
pub open spec fn time_under(prof: Option<Profiler>, key: Seq<char>) -> u128 {
    match prof {
        Some(p) => if p.times_ns@.contains_key(key) {
            p.times_ns@[key]
        } else {
            0
        },
        None => 0,
    }
}

/// A profile was begun in which nothing is recorded.
pub open spec fn is_fresh(prof: Option<Profiler>) -> bool {
    prof matches Some(p) && forall|key: Seq<char>| !#[trigger] p.times_ns@.contains_key(key)
}

/// Nothing of the user has changed but the group with this name.
pub open spec fn only_group_changed(before: User, after: User, name: Seq<char>) -> bool {
    &&& after == (User { groups: after.groups, ..before })
    &&& after.groups@ == before.groups@.insert(name, after.groups@[name])
}

} // verus!
