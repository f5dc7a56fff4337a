//! What walking a sorted iterator from its making to its end produces.
use crate::sorted_iter::{
    different_neighbours_stay, gives_keys, has_key, is_first, key, key_order, merged,
    merge_is_the_sorted_union, merge_loses_only_repeats, neighbours_differ, picked,
    reversed_sorted_iter, sorted, tagged, untagged, with_tag, SortedIter,
};
use std::cmp::Ordering;
use vstd::laws_cmp::*;
use vstd::prelude::*;
use vstd::std_specs::cmp::OrdSpec;

verus! {

/// An element stands in a sequence, and none before it has its key.
pub open spec fn leads<T, E: Ord, F: Fn(&T) -> E>(cmp: F, s: Seq<T>, x: T) -> bool {
    exists|i: int|
        0 <= i < s.len() && #[trigger] s[i] == x && forall|j: int|
            0 <= j < i ==> key(cmp, #[trigger] s[j]).cmp_spec(&key(cmp, x)) != Ordering::Equal
}

/// An element is the first with its key in the first input, or in the second where no element
/// of the first has the key.
pub open spec fn stands_for_its_key<T, E: Ord, F: Fn(&T) -> E>(cmp: F, a: Seq<T>, b: Seq<T>, x: T) -> bool {
    ||| leads(cmp, a, x)
    ||| leads(cmp, b, x) && forall|i: int|
        0 <= i < a.len() ==> key(cmp, #[trigger] a[i]).cmp_spec(&key(cmp, x)) != Ordering::Equal
}

proof fn production_goes_on<T, E: Ord, F: Fn(&T) -> E>(
    iters: Seq<SortedIter<T, E, F>>,
    given: Seq<Option<T>>,
    out: Seq<T>,
    i: int,
)
    requires
        iters.len() == out.len() + 1,
        0 <= i <= out.len(),
        iters[0].keyed(),
        given.len() == out.len(),
        forall|n: int|
            0 <= n < out.len() ==> #[trigger] given[n] == Some(out[n]) && exists|
                s: &mut SortedIter<T, E, F>,
            |
                *s == iters[n] && *final(s) == iters[n + 1] && #[trigger] call_ensures(
                    SortedIter::<T, E, F>::next,
                    (s,),
                    given[n],
                ),
    ensures
        iters[i].keyed(),
        iters[0].output() == out.take(i) + iters[i].output(),
    decreases i,
{
    if i == 0 {
        assert(out.take(0) + iters[0].output() =~= iters[0].output());
    } else {
        production_goes_on(iters, given, out, i - 1);
        assert(given[i - 1] == Some(out[i - 1]));
        let rest = iters[i - 1].output();
        assert(rest.len() > 0 && out[i - 1] == rest[0] && iters[i].output() == rest.drop_first());
        assert(out.take(i) + iters[i].output() =~= out.take(i - 1) + rest);
    }
}

/// What comes out of a walk is the merge of the inputs, or its beginning where the size is
/// smaller.
proof fn walks_produce_the_merge<T, E: Ord, F: Fn(&T) -> E>(
    a: Vec<T>,
    b: Vec<T>,
    cmp: F,
    size: usize,
    iters: Seq<SortedIter<T, E, F>>,
    given: Seq<Option<T>>,
    out: Seq<T>,
)
    requires
        E::obeys_cmp_spec(),
        gives_keys::<T, E, F>(cmp, a@),
        gives_keys::<T, E, F>(cmp, b@),
        iters.len() == out.len() + 1,
        call_ensures(reversed_sorted_iter::<T, E, F>, (a, b, cmp, size), iters[0]),
        given.len() == out.len(),
        forall|n: int|
            0 <= n < out.len() ==> #[trigger] given[n] == Some(out[n]) && exists|
                s: &mut SortedIter<T, E, F>,
            |
                *s == iters[n] && *final(s) == iters[n + 1] && #[trigger] call_ensures(
                    SortedIter::<T, E, F>::next,
                    (s,),
                    given[n],
                ),
        exists|s: &mut SortedIter<T, E, F>|
            *s == iters.last() && #[trigger] call_ensures(
                SortedIter::<T, E, F>::next,
                (s,),
                None,
            ),
    ensures
        merged(cmp, a@, b@).len() <= size ==> out == merged(cmp, a@, b@),
        merged(cmp, a@, b@).len() > size ==> out == merged(cmp, a@, b@).take(0int + size),
{
    production_goes_on(iters, given, out, 0int + out.len());
    assert(iters.last().output().len() == 0);
    assert(out.take(0int + out.len()) + iters.last().output() =~= out);
}

/// However its inputs are ordered, what an iterator produces first is the head with the greater
/// key, that of the first input where the keys are equal. Of no size or from no elements it
/// produces nothing.
pub proof fn greater_heads_come_first<T, E: Ord, F: Fn(&T) -> E>(
    a: Vec<T>,
    b: Vec<T>,
    cmp: F,
    size: usize,
    iter: SortedIter<T, E, F>,
    r: Option<T>,
)
    requires
        E::obeys_cmp_spec(),
        gives_keys::<T, E, F>(cmp, a@),
        gives_keys::<T, E, F>(cmp, b@),
        call_ensures(reversed_sorted_iter::<T, E, F>, (a, b, cmp, size), iter),
        exists|s: &mut SortedIter<T, E, F>|
            *s == iter && #[trigger] call_ensures(SortedIter::<T, E, F>::next, (s,), r),
    ensures
        r is None <==> size == 0 || a@.len() == 0 && b@.len() == 0,
        r is Some && a@.len() > 0 && b@.len() > 0 ==> r == Some(
            if key(cmp, a@[0]).cmp_spec(&key(cmp, b@[0])) == Ordering::Less {
                b@[0]
            } else {
                a@[0]
            },
        ),
        r is Some && a@.len() == 0 ==> r == Some(b@[0]),
        r is Some && b@.len() == 0 ==> r == Some(a@[0]),
{
    let all = merged(cmp, a@, b@);
    assert(a@.len() > 0 || b@.len() > 0 ==> all.len() > 0);
    assert(a@.len() == 0 && b@.len() == 0 ==> all.len() == 0);
}

/// From two inputs that run from the greatest to the least key, an iterator produces elements
/// with strictly falling keys, never more than its size. All of them stand in an input, the
/// first with their key in the first input, or in the second where the first does not have
/// the key. What is left out has the key of an element that came out, or the size was reached
/// before its turn.
pub proof fn sorted_inputs_come_out_sorted_and_unique<T, E: Ord, F: Fn(&T) -> E>(
    a: Vec<T>,
    b: Vec<T>,
    cmp: F,
    size: usize,
    iters: Seq<SortedIter<T, E, F>>,
    given: Seq<Option<T>>,
    out: Seq<T>,
)
    requires
        obeys_cmp::<E>(),
        E::obeys_cmp_spec(),
        gives_keys::<T, E, F>(cmp, a@),
        gives_keys::<T, E, F>(cmp, b@),
        forall|i: int, j: int|
            0 <= i < j < a@.len() ==> key(cmp, #[trigger] a@[i]).cmp_spec(
                &key(cmp, #[trigger] a@[j]),
            ) != Ordering::Less,
        forall|i: int, j: int|
            0 <= i < j < b@.len() ==> key(cmp, #[trigger] b@[i]).cmp_spec(
                &key(cmp, #[trigger] b@[j]),
            ) != Ordering::Less,
        iters.len() == out.len() + 1,
        call_ensures(reversed_sorted_iter::<T, E, F>, (a, b, cmp, size), iters[0]),
        given.len() == out.len(),
        forall|n: int|
            0 <= n < out.len() ==> #[trigger] given[n] == Some(out[n]) && exists|
                s: &mut SortedIter<T, E, F>,
            |
                *s == iters[n] && *final(s) == iters[n + 1] && #[trigger] call_ensures(
                    SortedIter::<T, E, F>::next,
                    (s,),
                    given[n],
                ),
        exists|s: &mut SortedIter<T, E, F>|
            *s == iters.last() && #[trigger] call_ensures(
                SortedIter::<T, E, F>::next,
                (s,),
                None,
            ),
    ensures
        out.len() <= size,
        forall|i: int, j: int|
            0 <= i < j < out.len() ==> key(cmp, #[trigger] out[i]).cmp_spec(
                &key(cmp, #[trigger] out[j]),
            ) == Ordering::Greater,
        forall|k: int|
            0 <= k < out.len() ==> stands_for_its_key(cmp, a@, b@, #[trigger] out[k]),
        forall|x: T|
            a@.contains(x) || b@.contains(x) ==> {
                ||| exists|k: int|
                    0 <= k < out.len() && key(cmp, #[trigger] out[k]).cmp_spec(
                        &#[trigger] key(cmp, x),
                    ) == Ordering::Equal
                ||| {
                    &&& out.len() == size
                    &&& forall|k: int|
                        0 <= k < out.len() ==> key(cmp, #[trigger] out[k]).cmp_spec(&key(cmp, x))
                            == Ordering::Greater
                }
            },
{
    let all = merged(cmp, a@, b@);
    walks_produce_the_merge(a, b, cmp, size, iters, given, out);
    assert(sorted::<T, E, F>(cmp, a@)) by {
        assert forall|i: int, j: int| 0 <= i < j < a@.len() implies key_order(
            cmp,
            #[trigger] a@[i],
            #[trigger] a@[j],
        ) != Ordering::Less by {
            assert(key(cmp, a@[i]).cmp_spec(&key(cmp, a@[j])) != Ordering::Less);
        }
    }
    assert(sorted::<T, E, F>(cmp, b@)) by {
        assert forall|i: int, j: int| 0 <= i < j < b@.len() implies key_order(
            cmp,
            #[trigger] b@[i],
            #[trigger] b@[j],
        ) != Ordering::Less by {
            assert(key(cmp, b@[i]).cmp_spec(&key(cmp, b@[j])) != Ordering::Less);
        }
    }
    merge_is_the_sorted_union(cmp, a@, b@);
    assert(forall|k: int| 0 <= k < out.len() ==> #[trigger] out[k] == all[k]);
    assert forall|i: int, j: int| 0 <= i < j < out.len() implies key(
        cmp,
        #[trigger] out[i],
    ).cmp_spec(&key(cmp, #[trigger] out[j])) == Ordering::Greater by {
        assert(key_order(cmp, all[i], all[j]) == Ordering::Greater);
    }
    assert forall|k: int| 0 <= k < out.len() implies stands_for_its_key(
        cmp,
        a@,
        b@,
        #[trigger] out[k],
    ) by {
        production_has_its_place(a@, b@, cmp, out[k]);
    }
    assert forall|x: T| a@.contains(x) || b@.contains(x) implies {
        ||| exists|k: int|
            0 <= k < out.len() && key(cmp, #[trigger] out[k]).cmp_spec(&#[trigger] key(cmp, x))
                == Ordering::Equal
        ||| {
            &&& out.len() == size
            &&& forall|k: int|
                0 <= k < out.len() ==> key(cmp, #[trigger] out[k]).cmp_spec(&key(cmp, x))
                    == Ordering::Greater
        }
    } by {
        input_is_represented(a@, b@, cmp, x);
        let n = choose|n: int|
            0 <= n < all.len() && key_order(cmp, #[trigger] all[n], x) == Ordering::Equal;
        if n < out.len() {
            assert(key(cmp, out[n]).cmp_spec(&key(cmp, x)) == Ordering::Equal);
        } else {
            assert forall|k: int| 0 <= k < out.len() implies key(cmp, #[trigger] out[k]).cmp_spec(
                &key(cmp, x),
            ) == Ordering::Greater by {
                assert(key_order(cmp, all[k], all[n]) == Ordering::Greater);
                crate::sorted_iter::keys_are_ordered(cmp, all[k], all[n], x);
            }
        }
    }
}

proof fn production_has_its_place<T, E: Ord, F: Fn(&T) -> E>(a: Seq<T>, b: Seq<T>, cmp: F, x: T)
    requires
        crate::sorted_iter::represents(cmp, a, b, x),
    ensures
        stands_for_its_key(cmp, a, b, x),
{
    if is_first(cmp, a, x) {
        let i = choose|i: int| crate::sorted_iter::first_at(cmp, a, x, i);
        assert(a[i] == x);
        assert forall|j: int| 0 <= j < i implies key(cmp, #[trigger] a[j]).cmp_spec(&key(cmp, x))
            != Ordering::Equal by {
            assert(key_order(cmp, a[j], x) != Ordering::Equal);
        }
    } else {
        let i = choose|i: int| crate::sorted_iter::first_at(cmp, b, x, i);
        assert(b[i] == x);
        assert forall|j: int| 0 <= j < i implies key(cmp, #[trigger] b[j]).cmp_spec(&key(cmp, x))
            != Ordering::Equal by {
            assert(key_order(cmp, b[j], x) != Ordering::Equal);
        }
        assert forall|j: int| 0 <= j < a.len() implies key(cmp, #[trigger] a[j]).cmp_spec(
            &key(cmp, x),
        ) != Ordering::Equal by {
            assert(key_order(cmp, a[j], x) != Ordering::Equal);
        }
    }
}

proof fn input_is_represented<T, E: Ord, F: Fn(&T) -> E>(a: Seq<T>, b: Seq<T>, cmp: F, x: T)
    requires
        obeys_cmp::<E>(),
        a.contains(x) || b.contains(x),
        forall|y: T| #[trigger]
            has_key(cmp, merged(cmp, a, b), y) <==> has_key(cmp, a, y) || has_key(cmp, b, y),
    ensures
        has_key(cmp, merged(cmp, a, b), x),
{
    crate::sorted_iter::keys_are_ordered(cmp, x, x, x);
    if a.contains(x) {
        let i = a.index_of(x);
        assert(key_order(cmp, a[i], x) == Ordering::Equal);
    } else {
        let i = b.index_of(x);
        assert(key_order(cmp, b[i], x) == Ordering::Equal);
    }
}

proof fn tagged_stand_in_order<T>(s: Seq<(bool, T)>, tag: bool) -> (places: Seq<int>)
    ensures
        places.len() == with_tag(s, tag).len(),
        forall|i: int, j: int|
            0 <= i < j < places.len() ==> #[trigger] places[i] < #[trigger] places[j],
        forall|k: int|
            0 <= k < places.len() ==> 0 <= #[trigger] places[k] < s.len() && s[places[k]].0 == tag
                && s[places[k]].1 == with_tag(s, tag)[k],
    decreases s.len(),
{
    if s.len() == 0 {
        Seq::empty()
    } else {
        let rest = s.drop_first();
        let before = tagged_stand_in_order(rest, tag);
        let shifted = before.map_values(|i: int| i + 1);
        assert(forall|k: int| 0 <= k < shifted.len() ==> #[trigger] shifted[k] == before[k] + 1);
        assert(forall|k: int| 0 <= k < rest.len() ==> #[trigger] rest[k] == s[k + 1]);
        if s[0].0 == tag {
            seq![0int] + shifted
        } else {
            shifted
        }
    }
}

proof fn tagged_are_found<T>(s: Seq<(bool, T)>, tag: bool, i: int)
    requires
        0 <= i < s.len(),
        s[i].0 == tag,
    ensures
        with_tag(s, tag).contains(s[i].1),
    decreases s.len(),
{
    let rest = s.drop_first();
    let list = with_tag(rest, tag);
    if i > 0 {
        assert(rest[i - 1] == s[i]);
        tagged_are_found(rest, tag, i - 1);
        let k = list.index_of(s[i].1);
        if s[0].0 == tag {
            assert((seq![s[0].1] + list)[k + 1] == s[i].1);
        }
    } else {
        assert((seq![s[0].1] + list)[0] == s[i].1);
    }
}

proof fn picked_or_not<T>(s: Seq<T>, kept: Seq<bool>, i: int)
    requires
        kept.len() == s.len(),
        0 <= i < s.len(),
        kept[i],
    ensures
        picked(s, kept).contains(s[i]),
    decreases s.len(),
{
    let list = picked(s.drop_first(), kept.drop_first());
    if i > 0 {
        picked_or_not(s.drop_first(), kept.drop_first(), i - 1);
        assert(s.drop_first()[i - 1] == s[i]);
        let k = list.index_of(s[i]);
        if kept[0] {
            assert((seq![s[0]] + list)[k + 1] == s[i]);
        }
    } else {
        assert((seq![s[0]] + list)[0] == s[i]);
    }
}

proof fn picked_are_of_the_list<T>(s: Seq<T>, kept: Seq<bool>, x: T)
    requires
        picked(s, kept).contains(x),
    ensures
        s.contains(x),
    decreases s.len(),
{
    if s.len() > 0 {
        let list = picked(s.drop_first(), kept.drop_first());
        let all = picked(s, kept);
        let k = all.index_of(x);
        if kept[0] && k == 0 {
            assert(s[0] == x);
        } else {
            if kept[0] {
                assert(list[k - 1] == x);
            }
            picked_are_of_the_list(s.drop_first(), kept.drop_first(), x);
            let i = s.drop_first().index_of(x);
            assert(s[i + 1] == x);
        }
    }
}

/// Inputs in which no two neighbours have the same key need not be sorted: an iterator for as
/// many elements as they hold produces all of the first input in its order, nothing that
/// stands in neither input, and for each element of the second one with its key.
pub proof fn unsorted_inputs_come_out_too<T, E: Ord, F: Fn(&T) -> E>(
    a: Vec<T>,
    b: Vec<T>,
    cmp: F,
    size: usize,
    iters: Seq<SortedIter<T, E, F>>,
    given: Seq<Option<T>>,
    out: Seq<T>,
) -> (places: Seq<int>)
    requires
        obeys_cmp::<E>(),
        E::obeys_cmp_spec(),
        gives_keys::<T, E, F>(cmp, a@),
        gives_keys::<T, E, F>(cmp, b@),
        size >= a@.len() + b@.len(),
        forall|i: int, j: int|
            0 <= i < j < a@.len() && j == i + 1 ==> key(cmp, #[trigger] a@[j]).cmp_spec(
                &key(cmp, #[trigger] a@[i]),
            ) != Ordering::Equal,
        forall|i: int, j: int|
            0 <= i < j < b@.len() && j == i + 1 ==> key(cmp, #[trigger] b@[j]).cmp_spec(
                &key(cmp, #[trigger] b@[i]),
            ) != Ordering::Equal,
        iters.len() == out.len() + 1,
        call_ensures(reversed_sorted_iter::<T, E, F>, (a, b, cmp, size), iters[0]),
        given.len() == out.len(),
        forall|n: int|
            0 <= n < out.len() ==> #[trigger] given[n] == Some(out[n]) && exists|
                s: &mut SortedIter<T, E, F>,
            |
                *s == iters[n] && *final(s) == iters[n + 1] && #[trigger] call_ensures(
                    SortedIter::<T, E, F>::next,
                    (s,),
                    given[n],
                ),
        exists|s: &mut SortedIter<T, E, F>|
            *s == iters.last() && #[trigger] call_ensures(
                SortedIter::<T, E, F>::next,
                (s,),
                None,
            ),
    ensures
        places.len() == a@.len(),
        forall|i: int, j: int|
            0 <= i < j < places.len() ==> #[trigger] places[i] < #[trigger] places[j],
        forall|k: int|
            0 <= k < places.len() ==> 0 <= #[trigger] places[k] < out.len() && out[places[k]]
                == a@[k],
        forall|k: int|
            0 <= k < out.len() ==> a@.contains(#[trigger] out[k]) || b@.contains(out[k]),
        forall|i: int|
            0 <= i < b@.len() ==> exists|k: int|
                0 <= k < out.len() && (out[k] == #[trigger] b@[i] || key(
                    cmp,
                    #[trigger] out[k],
                ).cmp_spec(&key(cmp, b@[i])) == Ordering::Equal),
{
    walks_produce_the_merge(a, b, cmp, size, iters, given, out);
    let kept = merge_loses_only_repeats(cmp, a@, b@);
    assert(neighbours_differ::<T, E, F>(cmp, a@)) by {
        assert forall|i: int, j: int| 0 <= i < j < a@.len() && j == i + 1 implies key_order(
            cmp,
            #[trigger] a@[j],
            #[trigger] a@[i],
        ) != Ordering::Equal by {
            assert(key(cmp, a@[j]).cmp_spec(&key(cmp, a@[i])) != Ordering::Equal);
        }
    }
    assert(neighbours_differ::<T, E, F>(cmp, b@)) by {
        assert forall|i: int, j: int| 0 <= i < j < b@.len() && j == i + 1 implies key_order(
            cmp,
            #[trigger] b@[j],
            #[trigger] b@[i],
        ) != Ordering::Equal by {
            assert(key(cmp, b@[j]).cmp_spec(&key(cmp, b@[i])) != Ordering::Equal);
        }
    }
    different_neighbours_stay(cmp, a@);
    different_neighbours_stay(cmp, b@);
    let all = tagged(cmp, a@, b@);
    assert(out == untagged(all));
    assert(out.len() == all.len());
    assert(forall|k: int| 0 <= k < out.len() ==> #[trigger] out[k] == all[k].1);
    let places = tagged_stand_in_order(all, true);
    let from_b = tagged_stand_in_order(all, false);
    assert forall|k: int| 0 <= k < out.len() implies a@.contains(#[trigger] out[k]) || b@.contains(
        out[k],
    ) by {
        tagged_are_found(all, all[k].0, k);
        if !all[k].0 {
            picked_are_of_the_list(b@, kept, out[k]);
        }
    }
    assert forall|i: int| 0 <= i < b@.len() implies exists|k: int|
        0 <= k < out.len() && (out[k] == #[trigger] b@[i] || key(cmp, #[trigger] out[k]).cmp_spec(
            &key(cmp, b@[i]),
        ) == Ordering::Equal) by {
        if kept[i] {
            picked_or_not(b@, kept, i);
            let m = with_tag(all, false).index_of(b@[i]);
            assert(out[from_b[m]] == b@[i]);
        } else {
            assert(has_key(cmp, a@, b@[i]));
            let m = choose|m: int|
                0 <= m < a@.len() && key_order(cmp, #[trigger] a@[m], b@[i]) == Ordering::Equal;
            assert(out[places[m]] == a@[m]);
        }
    }
    places
}

} // verus!
