//! Sorted iterator
//!
//! A [`SortedIter`] produces a sorted sequence of elements from two sorted inputs, `a` and
//! `b`. Both inputs and the output run from the greatest to the least key, where the key
//! of an element is what the function `cmp` gives for it.
//!
//! The iterator goes over all unique elements from both inputs: of elements with the same
//! key it returns one, the first of `a`, or the first of `b` if `a` has none. The iterator
//! stops after the maximum `size` is reached; elements that it drops do not count.
//!
//! The two inputs must be sorted. Unsorted inputs are walked all the same, but the
//! output is then not sorted either: what is lost of them is no more than repeats.
use std::cmp::Ordering;
use vstd::laws_cmp::*;
use vstd::laws_eq::*;
use vstd::prelude::*;
use vstd::std_specs::cmp::{OrdSpec, PartialEqSpec, PartialOrdSpec};

verus! {

/// The key that `cmp` gives for an element.
pub open spec fn key<T, E, F: Fn(&T) -> E>(cmp: F, x: T) -> E {
    choose|e: E| call_ensures(cmp, (&x,), e)
}

/// The key of the element is one that `cmp` can give for it.
#[verifier::inline]
pub open spec fn has_its_key<T, E, F: Fn(&T) -> E>(cmp: F, x: T) -> bool {
    call_ensures(cmp, (&x,), key(cmp, x))
}

/// `cmp` can be asked for the key of each element.
pub open spec fn accepts<T, E, F: Fn(&T) -> E>(cmp: F, s: Seq<T>) -> bool {
    forall|i: int| 0 <= i < s.len() ==> call_requires(cmp, (&#[trigger] s[i],))
}

/// `cmp` gives each element one key.
pub open spec fn gives_keys<T, E, F: Fn(&T) -> E>(cmp: F, s: Seq<T>) -> bool {
    forall|i: int, e: E|
        0 <= i < s.len() && #[trigger] call_ensures(cmp, (&s[i],), e) ==> e == key(cmp, s[i])
}

/// What is left of a sequence without some of its first elements.
pub open spec fn is_tail<T>(t: Seq<T>, s: Seq<T>) -> bool {
    exists|n: int| 0 <= n <= s.len() && t == #[trigger] s.skip(n)
}

/// `x` is the head of one sequence, and both go on with what follows: the one without its
/// head, and of both a tail.
pub open spec fn goes_on<T>(
    x: T,
    one: Seq<T>,
    other: Seq<T>,
    one_left: Seq<T>,
    other_left: Seq<T>,
) -> bool {
    &&& one.len() > 0
    &&& x == one[0]
    &&& is_tail(one_left, one.drop_first())
    &&& is_tail(other_left, other)
}

/// How the keys of two elements compare.
pub open spec fn key_order<T, E: Ord, F: Fn(&T) -> E>(cmp: F, x: T, y: T) -> Ordering {
    key(cmp, x).cmp_spec(&key(cmp, y))
}

/// The elements run from the greatest key to the least; keys may repeat.
pub open spec fn sorted<T, E: Ord, F: Fn(&T) -> E>(cmp: F, s: Seq<T>) -> bool {
    forall|i: int, j: int|
        0 <= i < j < s.len() ==> key_order(cmp, #[trigger] s[i], #[trigger] s[j])
            != Ordering::Less
}

/// The elements run from the greatest key to the least, and no key comes twice.
pub open spec fn descending<T, E: Ord, F: Fn(&T) -> E>(cmp: F, s: Seq<T>) -> bool {
    forall|i: int, j: int|
        0 <= i < j < s.len() ==> key_order(cmp, #[trigger] s[i], #[trigger] s[j])
            == Ordering::Greater
}

/// A sequence without its leading elements that have the key of `x`.
pub open spec fn past<T, E: Ord, F: Fn(&T) -> E>(cmp: F, s: Seq<T>, x: T) -> Seq<T>
    decreases s.len(),
{
    if s.len() > 0 && key_order(cmp, s[0], x) == Ordering::Equal {
        past(cmp, s.drop_first(), x)
    } else {
        s
    }
}

/// Whether the next element comes from `a`: where it has one, unless that of `b` has the
/// greater key.
pub open spec fn takes_a<T, E: Ord, F: Fn(&T) -> E>(cmp: F, a: Seq<T>, b: Seq<T>) -> bool {
    a.len() > 0 && (b.len() == 0 || key_order(cmp, a[0], b[0]) != Ordering::Less)
}

/// Two sequences merged by taking the head with the greater key first, of two heads with
/// the same key that of `a`; the following heads with the key of the taken element are
/// dropped from both.
pub open spec fn merged<T, E: Ord, F: Fn(&T) -> E>(cmp: F, a: Seq<T>, b: Seq<T>) -> Seq<T>
    decreases a.len() + b.len(),
{
    if takes_a(cmp, a, b) {
        let x = a[0];
        proof {
            past_is_a_tail(cmp, a.drop_first(), x);
            past_is_a_tail(cmp, b, x);
        }
        seq![x] + merged(cmp, past(cmp, a.drop_first(), x), past(cmp, b, x))
    } else if b.len() > 0 {
        let x = b[0];
        proof {
            past_is_a_tail(cmp, a, x);
            past_is_a_tail(cmp, b.drop_first(), x);
        }
        seq![x] + merged(cmp, past(cmp, a, x), past(cmp, b.drop_first(), x))
    } else {
        Seq::empty()
    }
}

/// What is left of a sequence without leading elements is a tail of it, and what is gone
/// has the key of `x`.
pub proof fn past_is_a_tail<T, E: Ord, F: Fn(&T) -> E>(cmp: F, s: Seq<T>, x: T) -> (n: int)
    ensures
        0 <= n <= s.len(),
        past(cmp, s, x) == s.skip(n),
        forall|j: int| 0 <= j < n ==> key_order(cmp, #[trigger] s[j], x) == Ordering::Equal,
        n < s.len() ==> key_order(cmp, s[n], x) != Ordering::Equal,
    decreases s.len(),
{
    if s.len() > 0 && key_order(cmp, s[0], x) == Ordering::Equal {
        let rest = s.drop_first();
        let n = past_is_a_tail(cmp, rest, x);
        assert(rest.skip(n) =~= s.skip(n + 1));
        assert forall|j: int| 0 <= j < n + 1 implies key_order(cmp, #[trigger] s[j], x)
            == Ordering::Equal by {
            if j > 0 {
                assert(rest[j - 1] == s[j]);
            }
        }
        if n < rest.len() {
            assert(rest[n] == s[n + 1]);
        }
        n + 1
    } else {
        assert(s.skip(0) =~= s);
        0
    }
}

/// Iterator that produces a sorted sequence of elements from two inputs.
#[verifier::reject_recursive_types(E)]
pub struct SortedIter<T, E: Ord, F: Fn(&T) -> E> {
    // Both inputs are kept with their next element last.
    a: Vec<T>,
    b: Vec<T>,
    cmp: F,
    size: usize,
    counter: usize,
}

impl<T, E: Ord, F: Fn(&T) -> E> SortedIter<T, E, F> {
    /// The key function.
    pub closed spec fn cmp(&self) -> F {
        self.cmp
    }

    /// What is left of the first input.
    pub closed spec fn left_a(&self) -> Seq<T> {
        self.a@.reverse()
    }

    /// What is left of the second input.
    pub closed spec fn left_b(&self) -> Seq<T> {
        self.b@.reverse()
    }

    /// How many more elements may be asked for.
    pub closed spec fn quota(&self) -> int {
        if self.counter <= self.size {
            self.size - self.counter
        } else {
            0
        }
    }

    /// What the iterator will produce.
    pub open spec fn output(&self) -> Seq<T> {
        let all = merged(self.cmp(), self.left_a(), self.left_b());
        if all.len() <= self.quota() {
            all
        } else {
            all.take(self.quota())
        }
    }

    #[verifier::type_invariant]
    spec fn counts(self) -> bool {
        self.counter <= self.size
    }

    /// The keys of what is left are ordered as keys should be, and each element has one.
    pub open spec fn keyed(&self) -> bool {
        &&& E::obeys_cmp_spec()
        &&& gives_keys::<T, E, F>(self.cmp(), self.left_a())
        &&& gives_keys::<T, E, F>(self.cmp(), self.left_b())
    }

    /// The next element: the head with the greater key, of two heads with the same key
    /// the one of `a`, and none once `size` elements were asked for. The following heads
    /// with the same key are dropped. Whatever the keys, it is the head of an input, and
    /// the inputs go on behind it.
    pub fn next(&mut self) -> (r: Option<T>)
        requires
            forall|i: int|
                0 <= i < old(self).left_a().len() ==> call_requires(
                    old(self).cmp(),
                    (&#[trigger] old(self).left_a()[i],),
                ),
            forall|i: int|
                0 <= i < old(self).left_b().len() ==> call_requires(
                    old(self).cmp(),
                    (&#[trigger] old(self).left_b()[i],),
                ),
        ensures
            final(self).cmp() == old(self).cmp(),
            final(self).quota() == if old(self).quota() > 0 {
                old(self).quota() - 1
            } else {
                0
            },
            r is None <==> old(self).quota() == 0 || (old(self).left_a().len() == 0
                && old(self).left_b().len() == 0),
            old(self).quota() > 0 && old(self).left_a().len() > 0 && old(self).left_b().len() > 0
                ==> has_its_key::<T, E, F>(old(self).cmp(), old(self).left_a()[0])
                && has_its_key::<T, E, F>(old(self).cmp(), old(self).left_b()[0]),
            match r {
                Some(x) => {
                    &&& has_its_key::<T, E, F>(old(self).cmp(), x)
                    &&& goes_on(
                        x,
                        old(self).left_a(),
                        old(self).left_b(),
                        final(self).left_a(),
                        final(self).left_b(),
                    ) || goes_on(
                        x,
                        old(self).left_b(),
                        old(self).left_a(),
                        final(self).left_b(),
                        final(self).left_a(),
                    )
                },
                None => final(self).left_a() == old(self).left_a() && final(self).left_b() == old(
                    self,
                ).left_b(),
            },
            forall|i: int|
                0 <= i < final(self).left_a().len() ==> call_requires(
                    final(self).cmp(),
                    (&#[trigger] final(self).left_a()[i],),
                ),
            forall|i: int|
                0 <= i < final(self).left_b().len() ==> call_requires(
                    final(self).cmp(),
                    (&#[trigger] final(self).left_b()[i],),
                ),
            old(self).keyed() ==> final(self).keyed(),
            old(self).keyed() ==> match r {
                Some(x) => old(self).output().len() > 0 && x == old(self).output()[0]
                    && final(self).output() == old(self).output().drop_first(),
                None => old(self).output().len() == 0 && final(self).output().len() == 0,
            },
    {
        proof {
            use_type_invariant(&*self);
        }
        if self.counter == self.size {
            return None;
        }
        assert(accepts::<T, E, F>(self.cmp(), self.left_a()));
        assert(accepts::<T, E, F>(self.cmp(), self.left_b()));
        self.counter = self.counter + 1;
        let mut a: Vec<T> = Vec::new();
        let mut b: Vec<T> = Vec::new();
        std::mem::swap(&mut a, &mut self.a);
        std::mem::swap(&mut b, &mut self.b);
        let r = Self::take_head(&mut a, &mut b, &self.cmp);
        self.a = a;
        self.b = b;
        proof {
            let before = merged(old(self).cmp(), old(self).left_a(), old(self).left_b());
            if old(self).keyed() && before.len() > 0 {
                assert(self.output() =~= old(self).output().drop_first());
            }
        }
        r
    }

    fn take_head(a: &mut Vec<T>, b: &mut Vec<T>, cmp: &F) -> (r: Option<T>)
        requires
            accepts::<T, E, F>(*cmp, old(a)@.reverse()),
            accepts::<T, E, F>(*cmp, old(b)@.reverse()),
        ensures
            r is None <==> old(a)@.len() == 0 && old(b)@.len() == 0,
            old(a)@.len() > 0 && old(b)@.len() > 0 ==> has_its_key::<T, E, F>(
                *cmp,
                old(a)@.reverse()[0],
            ) && has_its_key::<T, E, F>(*cmp, old(b)@.reverse()[0]),
            match r {
                Some(x) => {
                    &&& has_its_key::<T, E, F>(*cmp, x)
                    &&& goes_on(
                        x,
                        old(a)@.reverse(),
                        old(b)@.reverse(),
                        final(a)@.reverse(),
                        final(b)@.reverse(),
                    ) || goes_on(
                        x,
                        old(b)@.reverse(),
                        old(a)@.reverse(),
                        final(b)@.reverse(),
                        final(a)@.reverse(),
                    )
                },
                None => *final(a) == *old(a) && *final(b) == *old(b),
            },
            accepts::<T, E, F>(*cmp, final(a)@.reverse()),
            accepts::<T, E, F>(*cmp, final(b)@.reverse()),
            gives_keys::<T, E, F>(*cmp, old(a)@.reverse()) ==> gives_keys::<T, E, F>(
                *cmp,
                final(a)@.reverse(),
            ),
            gives_keys::<T, E, F>(*cmp, old(b)@.reverse()) ==> gives_keys::<T, E, F>(
                *cmp,
                final(b)@.reverse(),
            ),
            E::obeys_cmp_spec() && gives_keys::<T, E, F>(*cmp, old(a)@.reverse()) && gives_keys::<
                T,
                E,
                F,
            >(*cmp, old(b)@.reverse()) ==> {
                let before = merged(*cmp, old(a)@.reverse(), old(b)@.reverse());
                match r {
                    Some(x) => before.len() > 0 && x == before[0] && merged(
                        *cmp,
                        final(a)@.reverse(),
                        final(b)@.reverse(),
                    ) == before.drop_first(),
                    None => before.len() == 0,
                }
            },
    {
        let ghost la = a@.reverse();
        let ghost lb = b@.reverse();
        let ghost keyed = E::obeys_cmp_spec() && gives_keys::<T, E, F>(*cmp, la) && gives_keys::<
            T,
            E,
            F,
        >(*cmp, lb);
        let na = a.len();
        let nb = b.len();
        if na == 0 && nb == 0 {
            return None;
        }
        let from_a = if na == 0 {
            false
        } else if nb == 0 {
            true
        } else {
            assert(la[0] == a@[na - 1] && lb[0] == b@[nb - 1]);
            let ka = cmp(&a[na - 1]);
            let kb = cmp(&b[nb - 1]);
            assert(keyed ==> ka == key(*cmp, la[0]) && kb == key(*cmp, lb[0]));
            match ka.cmp(&kb) {
                Ordering::Less => false,
                Ordering::Equal => true,
                Ordering::Greater => true,
            }
        };
        assert(keyed ==> from_a == takes_a(*cmp, la, lb));
        let ghost ra = if from_a {
            la.drop_first()
        } else {
            la
        };
        let ghost rb = if from_a {
            lb
        } else {
            lb.drop_first()
        };
        let head = if from_a {
            a.pop()
        } else {
            b.pop()
        };
        match head {
            None => None,
            Some(x) => {
                assert(a@.reverse() =~= ra);
                assert(b@.reverse() =~= rb);
                assert(x == if from_a {
                    la[0]
                } else {
                    lb[0]
                });
                let k = cmp(&x);
                assert(keyed ==> k == key(*cmp, x));
                proof {
                    tail_is_keyed::<T, E, F>(*cmp, la, if from_a { 1 } else { 0 });
                    tail_is_keyed::<T, E, F>(*cmp, lb, if from_a { 0 } else { 1 });
                    assert(la.skip(0) =~= la && lb.skip(0) =~= lb);
                    assert(la.len() > 0 ==> la.skip(1) =~= la.drop_first());
                    assert(lb.len() > 0 ==> lb.skip(1) =~= lb.drop_first());
                }
                Self::drop_repeats(a, cmp, &x, &k);
                Self::drop_repeats(b, cmp, &x, &k);
                assert(keyed ==> merged(*cmp, la, lb).drop_first() =~= merged(
                    *cmp,
                    a@.reverse(),
                    b@.reverse(),
                ));
                Some(x)
            },
        }
    }

    fn drop_repeats(list: &mut Vec<T>, cmp: &F, x: &T, k: &E)
        requires
            accepts::<T, E, F>(*cmp, old(list)@.reverse()),
        ensures
            is_tail(final(list)@.reverse(), old(list)@.reverse()),
            accepts::<T, E, F>(*cmp, final(list)@.reverse()),
            gives_keys::<T, E, F>(*cmp, old(list)@.reverse()) ==> gives_keys::<T, E, F>(
                *cmp,
                final(list)@.reverse(),
            ),
            E::obeys_cmp_spec() && *k == key(*cmp, *x) && gives_keys::<T, E, F>(
                *cmp,
                old(list)@.reverse(),
            ) ==> final(list)@.reverse() == past(*cmp, old(list)@.reverse(), *x),
    {
        let ghost whole = list@.reverse();
        let ghost mut gone: int = 0;
        assert(whole.skip(0) =~= whole);
        while list.len() > 0
            invariant
                whole == old(list)@.reverse(),
                0 <= gone <= whole.len(),
                list@.reverse() == whole.skip(gone),
                accepts::<T, E, F>(*cmp, list@.reverse()),
                gives_keys::<T, E, F>(*cmp, whole) ==> gives_keys::<T, E, F>(*cmp, list@.reverse()),
                E::obeys_cmp_spec() && *k == key(*cmp, *x) && gives_keys::<T, E, F>(*cmp, whole)
                    ==> past(*cmp, list@.reverse(), *x) == past(*cmp, whole, *x),
            decreases list@.len(),
        {
            let ghost before = list@.reverse();
            let n = list.len();
            assert(before[0] == list@[n - 1]);
            let e = cmp(&list[n - 1]);
            assert(gives_keys::<T, E, F>(*cmp, whole) ==> e == key(*cmp, before[0]));
            match e.cmp(k) {
                Ordering::Equal => {
                    let _ = list.pop();
                    proof {
                        assert(list@.reverse() =~= before.drop_first());
                        assert(before.skip(1) =~= before.drop_first());
                        assert(before.skip(1) =~= whole.skip(gone + 1));
                        tail_is_keyed::<T, E, F>(*cmp, before, 1);
                        gone = gone + 1;
                    }
                },
                _ => {
                    return;
                },
            }
        }
    }
}

/// A tail of a sequence has keys if the whole sequence has them.
proof fn tail_is_keyed<T, E, F: Fn(&T) -> E>(cmp: F, s: Seq<T>, n: int)
    requires
        0 <= n <= s.len(),
    ensures
        accepts::<T, E, F>(cmp, s) ==> accepts::<T, E, F>(cmp, s.skip(n)),
        gives_keys::<T, E, F>(cmp, s) ==> gives_keys::<T, E, F>(cmp, s.skip(n)),
{
    let t = s.skip(n);
    if accepts::<T, E, F>(cmp, s) {
        assert forall|i: int| 0 <= i < t.len() implies call_requires(cmp, (&#[trigger] t[i],)) by {
            assert(t[i] == s[i + n]);
        }
    }
    if gives_keys::<T, E, F>(cmp, s) {
        assert forall|i: int, e: E|
            0 <= i < t.len() && #[trigger] call_ensures(cmp, (&t[i],), e) implies e == key(
            cmp,
            t[i],
        ) by {
            assert(t[i] == s[i + n]);
            assert(call_ensures(cmp, (&s[i + n],), e));
        }
    }
}

fn reversed<T>(list: Vec<T>) -> (r: Vec<T>)
    ensures
        r@ == list@.reverse(),
{
    let mut rest = list;
    let mut r: Vec<T> = Vec::new();
    while rest.len() > 0
        invariant
            list@ == rest@ + r@.reverse(),
        decreases rest.len(),
    {
        let ghost before = rest@;
        let ghost done = r@;
        let n = rest.len();
        match rest.pop() {
            Some(x) => {
                r.push(x);
                assert(r@.reverse() =~= seq![before[n - 1]] + done.reverse());
                assert(before =~= rest@ + seq![before[n - 1]]);
                assert(list@ =~= rest@ + r@.reverse());
            },
            None => {},
        }
    }
    assert(r@ =~= list@.reverse());
    r
}

/// Creates a [`SortedIter`] from two inputs.
pub fn reversed_sorted_iter<T, E: Ord, F: Fn(&T) -> E>(
    a: Vec<T>,
    b: Vec<T>,
    cmp: F,
    size: usize,
) -> (r: SortedIter<T, E, F>)
    ensures
        r.cmp() == cmp,
        r.left_a() == a@,
        r.left_b() == b@,
        r.quota() == size,
{
    let r = SortedIter { a: reversed(a), b: reversed(b), cmp, size, counter: 0 };
    assert(r.left_a() =~= a@);
    assert(r.left_b() =~= b@);
    r
}

/// The comparison of keys is a total order.
pub proof fn keys_are_ordered<T, E: Ord, F: Fn(&T) -> E>(cmp: F, x: T, y: T, z: T)
    requires
        obeys_cmp::<E>(),
    ensures
        key_order(cmp, x, x) == Ordering::Equal,
        key_order(cmp, x, y) == Ordering::Less <==> key_order(cmp, y, x) == Ordering::Greater,
        key_order(cmp, x, y) == Ordering::Equal <==> key_order(cmp, y, x) == Ordering::Equal,
        key_order(cmp, x, y) == Ordering::Greater && key_order(cmp, y, z) == Ordering::Greater
            ==> key_order(cmp, x, z) == Ordering::Greater,
        key_order(cmp, x, y) == Ordering::Equal ==> key_order(cmp, x, z) == key_order(cmp, y, z),
        key_order(cmp, y, z) == Ordering::Equal ==> key_order(cmp, x, y) == key_order(cmp, x, z),
{
    reveal(obeys_eq_spec_properties);
    reveal(obeys_partial_cmp_spec_properties);
    reveal(obeys_cmp_partial_ord);
    reveal(obeys_cmp_ord);
    let (p, q, r) = (key(cmp, x), key(cmp, y), key(cmp, z));
    assert(p.partial_cmp_spec(&p) == Some(p.cmp_spec(&p)));
    assert(p.partial_cmp_spec(&q) == Some(p.cmp_spec(&q)));
    assert(q.partial_cmp_spec(&p) == Some(q.cmp_spec(&p)));
    assert(q.partial_cmp_spec(&r) == Some(q.cmp_spec(&r)));
    assert(r.partial_cmp_spec(&q) == Some(r.cmp_spec(&q)));
    assert(p.partial_cmp_spec(&r) == Some(p.cmp_spec(&r)));
    assert(r.partial_cmp_spec(&p) == Some(r.cmp_spec(&p)));
    assert(p.eq_spec(&q) == q.eq_spec(&p));
    assert(q.eq_spec(&r) == r.eq_spec(&q));
    assert(p.eq_spec(&r) == r.eq_spec(&p));
}

/// Whether some element of the sequence has the same key as `x`.
pub open spec fn has_key<T, E: Ord, F: Fn(&T) -> E>(cmp: F, s: Seq<T>, x: T) -> bool {
    exists|i: int| 0 <= i < s.len() && key_order(cmp, #[trigger] s[i], x) == Ordering::Equal
}

/// `x` stands in the sequence at a place before which no element has its key.
pub open spec fn first_at<T, E: Ord, F: Fn(&T) -> E>(cmp: F, s: Seq<T>, x: T, i: int) -> bool {
    &&& 0 <= i < s.len()
    &&& s[i] == x
    &&& forall|j: int| 0 <= j < i ==> key_order(cmp, #[trigger] s[j], x) != Ordering::Equal
}

/// `x` is the first element of the sequence with its key.
pub open spec fn is_first<T, E: Ord, F: Fn(&T) -> E>(cmp: F, s: Seq<T>, x: T) -> bool {
    exists|i: int| first_at(cmp, s, x, i)
}

/// `x` is the first element with its key of `a`, or of `b` where `a` does not have the key.
pub open spec fn represents<T, E: Ord, F: Fn(&T) -> E>(cmp: F, a: Seq<T>, b: Seq<T>, x: T) -> bool {
    is_first(cmp, a, x) || (is_first(cmp, b, x) && !has_key(cmp, a, x))
}

/// In a sorted sequence without keys greater than that of `x`, what follows the leading
/// elements with that key has smaller keys.
proof fn tail_is_smaller<T, E: Ord, F: Fn(&T) -> E>(cmp: F, s: Seq<T>, x: T) -> (n: int)
    requires
        obeys_cmp::<E>(),
        sorted::<T, E, F>(cmp, s),
        forall|i: int| 0 <= i < s.len() ==> key_order(cmp, #[trigger] s[i], x) != Ordering::Greater,
    ensures
        0 <= n <= s.len(),
        past(cmp, s, x) == s.skip(n),
        forall|j: int| 0 <= j < n ==> key_order(cmp, #[trigger] s[j], x) == Ordering::Equal,
        forall|j: int| n <= j < s.len() ==> key_order(cmp, x, #[trigger] s[j]) == Ordering::Greater,
        sorted::<T, E, F>(cmp, past(cmp, s, x)),
{
    let n = past_is_a_tail(cmp, s, x);
    assert forall|j: int| n <= j < s.len() implies key_order(cmp, x, #[trigger] s[j])
        == Ordering::Greater by {
        keys_are_ordered(cmp, s[n], x, s[j]);
        keys_are_ordered(cmp, x, s[n], s[j]);
        keys_are_ordered(cmp, s[j], s[n], x);
    }
    let t = s.skip(n);
    assert forall|i: int, j: int| 0 <= i < j < t.len() implies key_order(
        cmp,
        #[trigger] t[i],
        #[trigger] t[j],
    ) != Ordering::Less by {
        assert(t[i] == s[i + n] && t[j] == s[j + n]);
    }
    n
}

proof fn rest_is_sorted<T, E: Ord, F: Fn(&T) -> E>(cmp: F, s: Seq<T>)
    requires
        sorted::<T, E, F>(cmp, s),
        s.len() > 0,
    ensures
        sorted::<T, E, F>(cmp, s.drop_first()),
{
    let t = s.drop_first();
    assert forall|i: int, j: int| 0 <= i < j < t.len() implies key_order(
        cmp,
        #[trigger] t[i],
        #[trigger] t[j],
    ) != Ordering::Less by {
        assert(t[i] == s[i + 1] && t[j] == s[j + 1]);
    }
}

/// Of an element with a key smaller than that of `x`, a tail tells the same as the whole
/// sequence, if all that is gone has the key of `x`.
proof fn tail_tells<T, E: Ord, F: Fn(&T) -> E>(cmp: F, s: Seq<T>, n: int, x: T, y: T)
    requires
        obeys_cmp::<E>(),
        0 <= n <= s.len(),
        forall|j: int| 0 <= j < n ==> key_order(cmp, #[trigger] s[j], x) == Ordering::Equal,
        key_order(cmp, x, y) == Ordering::Greater,
    ensures
        has_key(cmp, s, y) <==> has_key(cmp, s.skip(n), y),
        is_first(cmp, s.skip(n), y) ==> is_first(cmp, s, y),
{
    let t = s.skip(n);
    assert forall|j: int| 0 <= j < n implies key_order(cmp, #[trigger] s[j], y)
        != Ordering::Equal by {
        keys_are_ordered(cmp, s[j], x, y);
    }
    if has_key(cmp, s, y) {
        let i = choose|i: int|
            0 <= i < s.len() && key_order(cmp, #[trigger] s[i], y) == Ordering::Equal;
        assert(t[i - n] == s[i]);
    }
    if has_key(cmp, t, y) {
        let i = choose|i: int|
            0 <= i < t.len() && key_order(cmp, #[trigger] t[i], y) == Ordering::Equal;
        assert(s[i + n] == t[i]);
    }
    if is_first(cmp, t, y) {
        let i = choose|i: int| first_at(cmp, t, y, i);
        assert forall|j: int| 0 <= j < i + n implies key_order(cmp, #[trigger] s[j], y)
            != Ordering::Equal by {
            if j >= n {
                assert(t[j - n] == s[j]);
            }
        }
        assert(s[i + n] == t[i]);
        assert(first_at(cmp, s, y, i + n));
    }
}

/// The element that a merge takes next.
spec fn head<T, E: Ord, F: Fn(&T) -> E>(cmp: F, a: Seq<T>, b: Seq<T>) -> T {
    if takes_a(cmp, a, b) {
        a[0]
    } else {
        b[0]
    }
}

/// In sorted inputs no element has a greater key than the one that is taken next.
proof fn head_is_greatest<T, E: Ord, F: Fn(&T) -> E>(cmp: F, a: Seq<T>, b: Seq<T>)
    requires
        obeys_cmp::<E>(),
        sorted::<T, E, F>(cmp, a),
        sorted::<T, E, F>(cmp, b),
        a.len() + b.len() > 0,
    ensures
        forall|i: int|
            0 <= i < a.len() ==> key_order(cmp, #[trigger] a[i], head(cmp, a, b))
                != Ordering::Greater,
        forall|i: int|
            0 <= i < b.len() ==> key_order(cmp, #[trigger] b[i], head(cmp, a, b))
                != Ordering::Greater,
        !takes_a(cmp, a, b) ==> !has_key(cmp, a, head(cmp, a, b)),
{
    let x = head(cmp, a, b);
    assert forall|i: int| 0 <= i < a.len() implies key_order(cmp, #[trigger] a[i], x)
        != Ordering::Greater && (!takes_a(cmp, a, b) ==> key_order(cmp, a[i], x)
        != Ordering::Equal) by {
        keys_are_ordered(cmp, a[0], a[i], x);
        keys_are_ordered(cmp, x, a[0], a[i]);
        keys_are_ordered(cmp, a[i], x, a[0]);
    }
    assert forall|i: int| 0 <= i < b.len() implies key_order(cmp, #[trigger] b[i], x)
        != Ordering::Greater by {
        keys_are_ordered(cmp, b[0], b[i], x);
        keys_are_ordered(cmp, x, b[0], b[i]);
        keys_are_ordered(cmp, b[i], x, b[0]);
    }
}

/// One input of a merge step: what is left is a tail with smaller keys, and what is gone,
/// with the taken element if it stood here, has the key of that element.
proof fn input_goes_on<T, E: Ord, F: Fn(&T) -> E>(cmp: F, s: Seq<T>, x: T, taken: bool) -> (n: int)
    requires
        obeys_cmp::<E>(),
        sorted::<T, E, F>(cmp, s),
        forall|i: int| 0 <= i < s.len() ==> key_order(cmp, #[trigger] s[i], x) != Ordering::Greater,
        taken ==> s.len() > 0 && s[0] == x,
    ensures
        0 <= n <= s.len(),
        taken ==> n > 0,
        s.skip(n) == past(
            cmp,
            if taken {
                s.drop_first()
            } else {
                s
            },
            x,
        ),
        forall|j: int| 0 <= j < n ==> key_order(cmp, #[trigger] s[j], x) == Ordering::Equal,
        forall|j: int|
            0 <= j < s.skip(n).len() ==> key_order(cmp, x, #[trigger] s.skip(n)[j])
                == Ordering::Greater,
        sorted::<T, E, F>(cmp, s.skip(n)),
{
    if taken {
        let t = s.drop_first();
        rest_is_sorted(cmp, s);
        assert forall|i: int| 0 <= i < t.len() implies key_order(cmp, #[trigger] t[i], x)
            != Ordering::Greater by {
            assert(t[i] == s[i + 1]);
        }
        let n = tail_is_smaller(cmp, t, x);
        assert(s.skip(n + 1) =~= t.skip(n));
        assert forall|j: int| 0 <= j < n + 1 implies key_order(cmp, #[trigger] s[j], x)
            == Ordering::Equal by {
            if j > 0 {
                assert(t[j - 1] == s[j]);
            } else {
                keys_are_ordered(cmp, x, x, x);
            }
        }
        assert forall|j: int| 0 <= j < s.skip(n + 1).len() implies key_order(
            cmp,
            x,
            #[trigger] s.skip(n + 1)[j],
        ) == Ordering::Greater by {
            assert(s.skip(n + 1)[j] == t[j + n]);
        }
        n + 1
    } else {
        let n = tail_is_smaller(cmp, s, x);
        assert forall|j: int| 0 <= j < s.skip(n).len() implies key_order(
            cmp,
            x,
            #[trigger] s.skip(n)[j],
        ) == Ordering::Greater by {
            assert(s.skip(n)[j] == s[j + n]);
        }
        n
    }
}

/// From two sorted inputs, in which keys may repeat, the iterator produces a sorted sequence
/// of elements with unique keys: exactly the keys of either input, each with the first
/// element of `a` that has it, or of `b` where `a` does not have it.
pub proof fn merge_is_the_sorted_union<T, E: Ord, F: Fn(&T) -> E>(cmp: F, a: Seq<T>, b: Seq<T>)
    requires
        obeys_cmp::<E>(),
        sorted::<T, E, F>(cmp, a),
        sorted::<T, E, F>(cmp, b),
    ensures
        descending::<T, E, F>(cmp, merged(cmp, a, b)),
        forall|x: T| #[trigger]
            has_key(cmp, merged(cmp, a, b), x) <==> has_key(cmp, a, x) || has_key(cmp, b, x),
        forall|k: int|
            0 <= k < merged(cmp, a, b).len() ==> represents(
                cmp,
                a,
                b,
                #[trigger] merged(cmp, a, b)[k],
            ),
    decreases a.len() + b.len(),
{
    let m = merged(cmp, a, b);
    if a.len() > 0 || b.len() > 0 {
        let from_a = takes_a(cmp, a, b);
        let x = head(cmp, a, b);
        head_is_greatest(cmp, a, b);
        let na = input_goes_on(cmp, a, x, from_a);
        let nb = input_goes_on(cmp, b, x, !from_a);
        let (ra, rb) = (a.skip(na), b.skip(nb));
        let rest = merged(cmp, ra, rb);
        assert(m == seq![x] + rest);
        assert(m.drop_first() =~= rest);
        merge_is_the_sorted_union(cmp, ra, rb);
        assert(represents(cmp, a, b, x)) by {
            if from_a {
                assert(first_at(cmp, a, x, 0));
            } else {
                assert(first_at(cmp, b, x, 0));
            }
        }
        rest_represents(cmp, a, b, na, nb, x, rest);
        assert forall|k: int| 0 <= k < m.len() implies represents(cmp, a, b, #[trigger] m[k]) by {
            if k > 0 {
                assert(m[k] == rest[k - 1]);
            }
        }
        assert forall|i: int, j: int| 0 <= i < j < m.len() implies key_order(
            cmp,
            #[trigger] m[i],
            #[trigger] m[j],
        ) == Ordering::Greater by {
            assert(m[j] == rest[j - 1]);
            if i > 0 {
                assert(m[i] == rest[i - 1]);
            }
        }
        assert forall|z: T| #[trigger]
            has_key(cmp, m, z) <==> has_key(cmp, a, z) || has_key(cmp, b, z) by {
            assert(has_key(cmp, rest, z) <==> has_key(cmp, ra, z) || has_key(cmp, rb, z));
            union_has_keys(cmp, a, b, na, nb, x, m, z);
        }
    }
}

/// One step of the merge: what stands for keys of the tails stands for them in the whole
/// inputs too.
proof fn rest_represents<T, E: Ord, F: Fn(&T) -> E>(
    cmp: F,
    a: Seq<T>,
    b: Seq<T>,
    na: int,
    nb: int,
    x: T,
    rest: Seq<T>,
)
    requires
        obeys_cmp::<E>(),
        0 <= na <= a.len(),
        0 <= nb <= b.len(),
        forall|j: int| 0 <= j < na ==> key_order(cmp, #[trigger] a[j], x) == Ordering::Equal,
        forall|j: int| 0 <= j < nb ==> key_order(cmp, #[trigger] b[j], x) == Ordering::Equal,
        forall|j: int|
            0 <= j < a.skip(na).len() ==> key_order(cmp, x, #[trigger] a.skip(na)[j])
                == Ordering::Greater,
        forall|j: int|
            0 <= j < b.skip(nb).len() ==> key_order(cmp, x, #[trigger] b.skip(nb)[j])
                == Ordering::Greater,
        forall|k: int|
            0 <= k < rest.len() ==> represents(cmp, a.skip(na), b.skip(nb), #[trigger] rest[k]),
    ensures
        forall|k: int|
            0 <= k < rest.len() ==> key_order(cmp, x, #[trigger] rest[k]) == Ordering::Greater
                && represents(cmp, a, b, rest[k]),
{
    let (ra, rb) = (a.skip(na), b.skip(nb));
    assert forall|k: int| 0 <= k < rest.len() implies key_order(cmp, x, #[trigger] rest[k])
        == Ordering::Greater && represents(cmp, a, b, rest[k]) by {
        let y = rest[k];
        assert(represents(cmp, ra, rb, y));
        if is_first(cmp, ra, y) {
            let i = choose|i: int| first_at(cmp, ra, y, i);
            assert(ra[i] == y);
        } else {
            let i = choose|i: int| first_at(cmp, rb, y, i);
            assert(rb[i] == y);
        }
        tail_tells(cmp, a, na, x, y);
        tail_tells(cmp, b, nb, x, y);
    }
}

/// One step of the merge: the keys of an output that begins with `x` are those of the
/// inputs, if they are so for what is left, and all that is gone has the key of `x`.
proof fn union_has_keys<T, E: Ord, F: Fn(&T) -> E>(
    cmp: F,
    a: Seq<T>,
    b: Seq<T>,
    na: int,
    nb: int,
    x: T,
    m: Seq<T>,
    z: T,
)
    requires
        obeys_cmp::<E>(),
        0 <= na <= a.len(),
        0 <= nb <= b.len(),
        forall|j: int| 0 <= j < na ==> key_order(cmp, #[trigger] a[j], x) == Ordering::Equal,
        forall|j: int| 0 <= j < nb ==> key_order(cmp, #[trigger] b[j], x) == Ordering::Equal,
        na + nb > 0,
        m.len() > 0,
        m[0] == x,
        has_key(cmp, m.drop_first(), z) <==> has_key(cmp, a.skip(na), z) || has_key(
            cmp,
            b.skip(nb),
            z,
        ),
    ensures
        has_key(cmp, m, z) <==> has_key(cmp, a, z) || has_key(cmp, b, z),
{
    has_key_splits(cmp, a, na, x, z);
    has_key_splits(cmp, b, nb, x, z);
    keys_are_ordered(cmp, x, x, z);
    has_key_splits(cmp, m, 1, x, z);
    assert(m.skip(1) =~= m.drop_first());
}

proof fn has_key_splits<T, E: Ord, F: Fn(&T) -> E>(cmp: F, s: Seq<T>, n: int, x: T, z: T)
    requires
        obeys_cmp::<E>(),
        0 <= n <= s.len(),
        forall|j: int| 0 <= j < n ==> key_order(cmp, #[trigger] s[j], x) == Ordering::Equal,
    ensures
        has_key(cmp, s, z) <==> (n > 0 && key_order(cmp, x, z) == Ordering::Equal) || has_key(
            cmp,
            s.skip(n),
            z,
        ),
{
    let t = s.skip(n);
    if has_key(cmp, s, z) {
        let i = choose|i: int|
            0 <= i < s.len() && key_order(cmp, #[trigger] s[i], z) == Ordering::Equal;
        if i < n {
            keys_are_ordered(cmp, s[i], x, z);
        } else {
            assert(t[i - n] == s[i]);
        }
    }
    if has_key(cmp, t, z) {
        let i = choose|i: int|
            0 <= i < t.len() && key_order(cmp, #[trigger] t[i], z) == Ordering::Equal;
        assert(s[i + n] == t[i]);
    }
    if n > 0 && key_order(cmp, x, z) == Ordering::Equal {
        keys_are_ordered(cmp, s[0], x, z);
        assert(key_order(cmp, s[0], z) == Ordering::Equal);
    }
}

/// From two sorted inputs that do not repeat a key, all elements of `a` come out, and of `b`
/// those whose key is not in `a`.
pub proof fn unrepeated_elements_all_come_out<T, E: Ord, F: Fn(&T) -> E>(
    cmp: F,
    a: Seq<T>,
    b: Seq<T>,
)
    requires
        obeys_cmp::<E>(),
        descending::<T, E, F>(cmp, a),
        descending::<T, E, F>(cmp, b),
    ensures
        descending::<T, E, F>(cmp, merged(cmp, a, b)),
        forall|x: T| #[trigger]
            merged(cmp, a, b).contains(x) <==> a.contains(x) || (b.contains(x) && !has_key(
                cmp,
                a,
                x,
            )),
{
    merge_is_the_sorted_union(cmp, a, b);
    let m = merged(cmp, a, b);
    assert forall|x: T| #[trigger] m.contains(x) <==> a.contains(x) || (b.contains(x) && !has_key(
        cmp,
        a,
        x,
    )) by {
        if m.contains(x) {
            assert(represents(cmp, a, b, m[m.index_of(x)]));
            if is_first(cmp, a, x) {
                let i = choose|i: int| first_at(cmp, a, x, i);
                assert(a[i] == x);
            } else {
                let i = choose|i: int| first_at(cmp, b, x, i);
                assert(b[i] == x);
            }
        }
        if a.contains(x) || (b.contains(x) && !has_key(cmp, a, x)) {
            keys_are_ordered(cmp, x, x, x);
            if a.contains(x) {
                assert(key_order(cmp, a[a.index_of(x)], x) == Ordering::Equal);
            } else {
                assert(key_order(cmp, b[b.index_of(x)], x) == Ordering::Equal);
            }
            assert(has_key(cmp, m, x));
            let k = choose|k: int|
                0 <= k < m.len() && key_order(cmp, #[trigger] m[k], x) == Ordering::Equal;
            let y = m[k];
            keys_are_ordered(cmp, y, x, x);
            assert(represents(cmp, a, b, y));
            if is_first(cmp, a, y) {
                let i = choose|i: int| first_at(cmp, a, y, i);
                assert(key_order(cmp, a[i], x) == Ordering::Equal);
                assert(has_key(cmp, a, x));
                same_key_same_element(cmp, a, y, x);
            } else {
                let i = choose|i: int| first_at(cmp, b, y, i);
                assert(b[i] == y);
                if a.contains(x) {
                    keys_are_ordered(cmp, x, y, y);
                    assert(key_order(cmp, a[a.index_of(x)], y) == Ordering::Equal);
                    assert(has_key(cmp, a, y));
                }
                same_key_same_element(cmp, b, y, x);
            }
            assert(m[k] == x);
        }
    }
}

proof fn same_key_same_element<T, E: Ord, F: Fn(&T) -> E>(cmp: F, s: Seq<T>, x: T, y: T)
    requires
        obeys_cmp::<E>(),
        descending::<T, E, F>(cmp, s),
        s.contains(x),
        s.contains(y),
        key_order(cmp, x, y) == Ordering::Equal,
    ensures
        x == y,
{
    let i = s.index_of(x);
    let j = s.index_of(y);
    keys_are_ordered(cmp, x, y, x);
    if i < j {
        assert(key_order(cmp, s[i], s[j]) == Ordering::Greater);
    } else if j < i {
        assert(key_order(cmp, s[j], s[i]) == Ordering::Greater);
    }
}

/// The merge of two sequences with the input of each element beside it: `true` for `a`.
pub open spec fn tagged<T, E: Ord, F: Fn(&T) -> E>(cmp: F, a: Seq<T>, b: Seq<T>) -> Seq<(bool, T)>
    decreases a.len() + b.len(),
{
    if takes_a(cmp, a, b) {
        let x = a[0];
        proof {
            past_is_a_tail(cmp, a.drop_first(), x);
            past_is_a_tail(cmp, b, x);
        }
        seq![(true, x)] + tagged(cmp, past(cmp, a.drop_first(), x), past(cmp, b, x))
    } else if b.len() > 0 {
        let x = b[0];
        proof {
            past_is_a_tail(cmp, a, x);
            past_is_a_tail(cmp, b.drop_first(), x);
        }
        seq![(false, x)] + tagged(cmp, past(cmp, a, x), past(cmp, b.drop_first(), x))
    } else {
        Seq::empty()
    }
}

/// The elements without their tags.
pub open spec fn untagged<T>(s: Seq<(bool, T)>) -> Seq<T> {
    s.map_values(|t: (bool, T)| t.1)
}

/// The elements with a tag, in their order.
pub open spec fn with_tag<T>(s: Seq<(bool, T)>, tag: bool) -> Seq<T>
    decreases s.len(),
{
    if s.len() == 0 {
        Seq::empty()
    } else if s[0].0 == tag {
        seq![s[0].1] + with_tag(s.drop_first(), tag)
    } else {
        with_tag(s.drop_first(), tag)
    }
}

/// The elements that are kept, in their order.
pub open spec fn picked<T>(s: Seq<T>, kept: Seq<bool>) -> Seq<T>
    decreases s.len(),
{
    if s.len() == 0 {
        Seq::empty()
    } else if kept[0] {
        seq![s[0]] + picked(s.drop_first(), kept.drop_first())
    } else {
        picked(s.drop_first(), kept.drop_first())
    }
}

/// A sequence in which, of neighbours with the same key, only the first is left.
pub open spec fn unrepeated<T, E: Ord, F: Fn(&T) -> E>(cmp: F, s: Seq<T>) -> Seq<T>
    decreases s.len(),
{
    if s.len() == 0 {
        Seq::empty()
    } else {
        proof {
            past_is_a_tail(cmp, s.drop_first(), s[0]);
        }
        seq![s[0]] + unrepeated(cmp, past(cmp, s.drop_first(), s[0]))
    }
}

/// No two neighbours have the same key.
pub open spec fn neighbours_differ<T, E: Ord, F: Fn(&T) -> E>(cmp: F, s: Seq<T>) -> bool {
    forall|i: int, j: int|
        0 <= i < j < s.len() && j == i + 1 ==> key_order(cmp, #[trigger] s[j], #[trigger] s[i])
            != Ordering::Equal
}

proof fn past_goes_by_the_key<T, E: Ord, F: Fn(&T) -> E>(cmp: F, s: Seq<T>, x: T, y: T)
    requires
        obeys_cmp::<E>(),
        key_order(cmp, x, y) == Ordering::Equal,
    ensures
        past(cmp, s, x) == past(cmp, s, y),
    decreases s.len(),
{
    if s.len() > 0 {
        keys_are_ordered(cmp, s[0], x, y);
        past_goes_by_the_key(cmp, s.drop_first(), x, y);
    }
}

/// A sequence in which no two neighbours have the same key holds no repeats of that kind.
pub proof fn different_neighbours_stay<T, E: Ord, F: Fn(&T) -> E>(cmp: F, s: Seq<T>)
    requires
        neighbours_differ::<T, E, F>(cmp, s),
    ensures
        unrepeated(cmp, s) == s,
    decreases s.len(),
{
    if s.len() > 0 {
        let rest = s.drop_first();
        assert forall|i: int, j: int| 0 <= i < j < rest.len() && j == i + 1 implies key_order(
            cmp,
            #[trigger] rest[j],
            #[trigger] rest[i],
        ) != Ordering::Equal by {
            assert(rest[i] == s[i + 1] && rest[j] == s[j + 1]);
        }
        if rest.len() > 0 {
            assert(rest[0] == s[1]);
            assert(key_order(cmp, s[1], s[0]) != Ordering::Equal);
        }
        different_neighbours_stay(cmp, rest);
        assert(s =~= seq![s[0]] + rest);
    }
}

proof fn tail_has_fewer_keys<T, E: Ord, F: Fn(&T) -> E>(cmp: F, s: Seq<T>, n: int, y: T)
    requires
        0 <= n <= s.len(),
        has_key(cmp, s.skip(n), y),
    ensures
        has_key(cmp, s, y),
{
    let t = s.skip(n);
    let i = choose|i: int| 0 <= i < t.len() && key_order(cmp, #[trigger] t[i], y) == Ordering::Equal;
    assert(s[i + n] == t[i]);
}

proof fn untagging_goes_on<T>(tag: bool, x: T, rest: Seq<(bool, T)>)
    ensures
        untagged(seq![(tag, x)] + rest) == seq![x] + untagged(rest),
{
    assert(untagged(seq![(tag, x)] + rest) =~= seq![x] + untagged(rest));
}

proof fn tags_stand_beside_the_merge<T, E: Ord, F: Fn(&T) -> E>(cmp: F, a: Seq<T>, b: Seq<T>)
    ensures
        untagged(tagged(cmp, a, b)) == merged(cmp, a, b),
        merged(cmp, a, b).len() <= a.len() + b.len(),
    decreases a.len() + b.len(),
{
    if takes_a(cmp, a, b) {
        let x = a[0];
        past_is_a_tail(cmp, a.drop_first(), x);
        past_is_a_tail(cmp, b, x);
        let (ra, rb) = (past(cmp, a.drop_first(), x), past(cmp, b, x));
        tags_stand_beside_the_merge(cmp, ra, rb);
        untagging_goes_on(true, x, tagged(cmp, ra, rb));
    } else if b.len() > 0 {
        let x = b[0];
        past_is_a_tail(cmp, a, x);
        past_is_a_tail(cmp, b.drop_first(), x);
        let (ra, rb) = (past(cmp, a, x), past(cmp, b.drop_first(), x));
        tags_stand_beside_the_merge(cmp, ra, rb);
        untagging_goes_on(false, x, tagged(cmp, ra, rb));
    } else {
        assert(untagged(tagged(cmp, a, b)) =~= merged(cmp, a, b));
    }
}

proof fn first_input_comes_out<T, E: Ord, F: Fn(&T) -> E>(cmp: F, a: Seq<T>, b: Seq<T>)
    ensures
        with_tag(tagged(cmp, a, b), true) == unrepeated(cmp, a),
    decreases a.len() + b.len(),
{
    let all = tagged(cmp, a, b);
    if takes_a(cmp, a, b) {
        let x = a[0];
        past_is_a_tail(cmp, a.drop_first(), x);
        past_is_a_tail(cmp, b, x);
        let (ra, rb) = (past(cmp, a.drop_first(), x), past(cmp, b, x));
        first_input_comes_out(cmp, ra, rb);
        assert(all.drop_first() =~= tagged(cmp, ra, rb));
    } else if b.len() > 0 {
        let x = b[0];
        past_is_a_tail(cmp, b.drop_first(), x);
        let rb = past(cmp, b.drop_first(), x);
        assert(past(cmp, a, x) == a);
        first_input_comes_out(cmp, a, rb);
        assert(all.drop_first() =~= tagged(cmp, a, rb));
    }
}

/// The second input in a merge step that takes `x` from the first: its head is kept for
/// later, or it has the key of `x` and is gone.
proof fn second_input_waits<T, E: Ord, F: Fn(&T) -> E>(
    cmp: F,
    a: Seq<T>,
    b: Seq<T>,
    x: T,
    rest: Seq<bool>,
) -> (kept: Seq<bool>)
    requires
        obeys_cmp::<E>(),
        a.len() > 0,
        x == a[0],
        rest.len() == unrepeated(cmp, past(cmp, b, x)).len(),
        forall|i: int|
            0 <= i < rest.len() && !#[trigger] rest[i] ==> has_key(
                cmp,
                a,
                unrepeated(cmp, past(cmp, b, x))[i],
            ),
    ensures
        kept.len() == unrepeated(cmp, b).len(),
        picked(unrepeated(cmp, b), kept) == picked(unrepeated(cmp, past(cmp, b, x)), rest),
        forall|i: int|
            0 <= i < kept.len() && !#[trigger] kept[i] ==> has_key(cmp, a, unrepeated(cmp, b)[i]),
{
    if b.len() > 0 && key_order(cmp, b[0], x) == Ordering::Equal {
        keys_are_ordered(cmp, x, b[0], x);
        past_goes_by_the_key(cmp, b.drop_first(), x, b[0]);
        let kept = seq![false] + rest;
        let (ub, ur) = (unrepeated(cmp, b), unrepeated(cmp, past(cmp, b, x)));
        assert(ub == seq![b[0]] + ur);
        assert(ub.drop_first() =~= ur);
        assert(kept.drop_first() =~= rest);
        assert forall|i: int| 0 <= i < kept.len() && !#[trigger] kept[i] implies has_key(
            cmp,
            a,
            ub[i],
        ) by {
            if i > 0 {
                assert(rest[i - 1] == kept[i]);
                assert(ub[i] == ur[i - 1]);
            } else {
                assert(key_order(cmp, a[0], b[0]) == Ordering::Equal);
            }
        }
        kept
    } else {
        rest
    }
}

proof fn second_input_is_picked<T, E: Ord, F: Fn(&T) -> E>(cmp: F, a: Seq<T>, b: Seq<T>) -> (kept: Seq<
    bool,
>)
    requires
        obeys_cmp::<E>(),
    ensures
        with_tag(tagged(cmp, a, b), false) == picked(unrepeated(cmp, b), kept),
        kept.len() == unrepeated(cmp, b).len(),
        forall|i: int|
            0 <= i < kept.len() && !#[trigger] kept[i] ==> has_key(cmp, a, unrepeated(cmp, b)[i]),
    decreases a.len() + b.len(),
{
    let all = tagged(cmp, a, b);
    if takes_a(cmp, a, b) {
        let x = a[0];
        let n = past_is_a_tail(cmp, a.drop_first(), x);
        past_is_a_tail(cmp, b, x);
        let (ra, rb) = (past(cmp, a.drop_first(), x), past(cmp, b, x));
        let rest = second_input_is_picked(cmp, ra, rb);
        assert(all.drop_first() =~= tagged(cmp, ra, rb));
        assert(a.skip(n + 1) =~= ra);
        assert forall|i: int| 0 <= i < rest.len() && !#[trigger] rest[i] implies has_key(
            cmp,
            a,
            unrepeated(cmp, rb)[i],
        ) by {
            tail_has_fewer_keys(cmp, a, n + 1, unrepeated(cmp, rb)[i]);
        }
        second_input_waits(cmp, a, b, x, rest)
    } else if b.len() > 0 {
        let x = b[0];
        past_is_a_tail(cmp, b.drop_first(), x);
        let rb = past(cmp, b.drop_first(), x);
        assert(past(cmp, a, x) == a);
        let rest = second_input_is_picked(cmp, a, rb);
        assert(all.drop_first() =~= tagged(cmp, a, rb));
        let kept = seq![true] + rest;
        let (ub, ur) = (unrepeated(cmp, b), unrepeated(cmp, rb));
        assert(ub.drop_first() =~= ur);
        assert(kept.drop_first() =~= rest);
        assert forall|i: int| 0 <= i < kept.len() && !#[trigger] kept[i] implies has_key(
            cmp,
            a,
            ub[i],
        ) by {
            assert(rest[i - 1] == kept[i]);
            assert(ub[i] == ur[i - 1]);
        }
        kept
    } else {
        Seq::empty()
    }
}

/// Whether or not the inputs are sorted, nothing is invented and only repeats are lost:
/// from `a` comes, in its order, every element that does not repeat the key of its
/// neighbour before it. From `b` come, in their order, those of its elements without such
/// repeats that are kept, and each that is not kept has the key of an element of `a`.
/// What comes out is no more than what both inputs hold.
pub proof fn merge_loses_only_repeats<T, E: Ord, F: Fn(&T) -> E>(cmp: F, a: Seq<T>, b: Seq<T>) -> (kept:
    Seq<bool>)
    requires
        obeys_cmp::<E>(),
    ensures
        untagged(tagged(cmp, a, b)) == merged(cmp, a, b),
        merged(cmp, a, b).len() <= a.len() + b.len(),
        with_tag(tagged(cmp, a, b), true) == unrepeated(cmp, a),
        with_tag(tagged(cmp, a, b), false) == picked(unrepeated(cmp, b), kept),
        kept.len() == unrepeated(cmp, b).len(),
        forall|i: int|
            0 <= i < kept.len() && !#[trigger] kept[i] ==> has_key(cmp, a, unrepeated(cmp, b)[i]),
{
    tags_stand_beside_the_merge(cmp, a, b);
    first_input_comes_out(cmp, a, b);
    second_input_is_picked(cmp, a, b)
}

/// Of inputs without two neighbours that have the same key, sorted or not, all of `a` comes
/// out in its order, and of `b`, in its order, what is kept; each element of `b` that is
/// not kept has the key of an element of `a`. An iterator for as many elements as the
/// inputs hold produces the whole merge.
pub proof fn different_neighbours_come_out<T, E: Ord, F: Fn(&T) -> E>(it: SortedIter<T, E, F>) -> (kept:
    Seq<bool>)
    requires
        obeys_cmp::<E>(),
        neighbours_differ::<T, E, F>(it.cmp(), it.left_a()),
        neighbours_differ::<T, E, F>(it.cmp(), it.left_b()),
        it.quota() >= it.left_a().len() + it.left_b().len(),
    ensures
        it.output() == untagged(tagged(it.cmp(), it.left_a(), it.left_b())),
        with_tag(tagged(it.cmp(), it.left_a(), it.left_b()), true) == it.left_a(),
        with_tag(tagged(it.cmp(), it.left_a(), it.left_b()), false) == picked(it.left_b(), kept),
        kept.len() == it.left_b().len(),
        forall|i: int|
            0 <= i < kept.len() && !#[trigger] kept[i] ==> has_key(
                it.cmp(),
                it.left_a(),
                it.left_b()[i],
            ),
{
    different_neighbours_stay(it.cmp(), it.left_a());
    different_neighbours_stay(it.cmp(), it.left_b());
    merge_loses_only_repeats(it.cmp(), it.left_a(), it.left_b())
}

/// The iterator never produces more than the maximum `size`, and what it produces is the
/// beginning of the merge.
pub proof fn output_is_a_bounded_prefix<T, E: Ord, F: Fn(&T) -> E>(it: SortedIter<T, E, F>)
    requires
        it.quota() >= 0,
    ensures
        it.output().len() <= it.quota(),
        it.output().is_prefix_of(merged(it.cmp(), it.left_a(), it.left_b())),
{
    let all = merged(it.cmp(), it.left_a(), it.left_b());
    if all.len() > it.quota() {
        assert(it.output() =~= all.subrange(0, it.quota()));
    } else {
        assert(all =~= all.subrange(0, 0int + all.len()));
    }
}

} // verus!
