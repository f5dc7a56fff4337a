//! What tables, profiles, conversations, fractions and the clock are for.
use crate::clock::nanos_of;
use crate::conversation::{Conversation, ConversationMessage};
use crate::fraction::Fraction;
use crate::profiling::{record, start_iteration, CpuGuard, Profiler};
use crate::table::{Key, Table};
use vstd::prelude::*;

verus! {

/// After a value was put under a key, it is what the key has, and every other key has what it
/// had before; the value that the key had is handed out.
pub proof fn inserted_values_are_got<K: Key, V>(
    before: Table<K, V>,
    after: Table<K, V>,
    key: K,
    value: V,
    previous: Option<V>,
    other: K,
    had: Option<&V>,
    has: Option<&V>,
)
    requires
        exists|t: &mut Table<K, V>|
            *t == before && *final(t) == after && #[trigger] call_ensures(
                Table::<K, V>::insert,
                (t, key, value),
                previous,
            ),
        call_ensures(Table::<K, V>::get, (&before, &other), had),
        call_ensures(Table::<K, V>::get, (&after, &other), has),
    ensures
        other@ == key@ ==> has == Some(&value),
        other@ == key@ ==> (previous is Some <==> had is Some) && (previous matches Some(p)
            ==> *had->Some_0 == p),
        other@ != key@ ==> has == had,
{
}

/// After a key was removed, it has no value, and every other key has what it had before; the
/// value that the key had is handed out.
pub proof fn removed_values_are_gone<K: Key, V>(
    before: Table<K, V>,
    after: Table<K, V>,
    key: K,
    removed: Option<V>,
    other: K,
    had: Option<&V>,
    has: Option<&V>,
)
    requires
        exists|t: &mut Table<K, V>|
            *t == before && *final(t) == after && #[trigger] call_ensures(
                Table::<K, V>::remove,
                (t, &key),
                removed,
            ),
        call_ensures(Table::<K, V>::get, (&before, &other), had),
        call_ensures(Table::<K, V>::get, (&after, &other), has),
    ensures
        other@ == key@ ==> has is None,
        other@ == key@ ==> (removed is Some <==> had is Some) && (removed matches Some(p)
            ==> *had->Some_0 == p),
        other@ != key@ ==> has == had,
{
}

/// A new table has a value for no key, and a key is in a table exactly if it has a value.
pub proof fn new_tables_are_empty<K: Key, V>(
    new: Table<K, V>,
    table: Table<K, V>,
    key: K,
    none: Option<&V>,
    has: Option<&V>,
    contained: bool,
)
    requires
        call_ensures(Table::<K, V>::new, (), new),
        call_ensures(Table::<K, V>::get, (&new, &key), none),
        call_ensures(Table::<K, V>::get, (&table, &key), has),
        call_ensures(Table::<K, V>::contains_key, (&table, &key), contained),
    ensures
        none is None,
        contained <==> has is Some,
{
}

/// Walking a table comes by every key that has a value, once, and with that value; the keys
/// are listed as they are walked.
pub proof fn tables_are_walked_whole<K: Key, V>(
    table: Table<K, V>,
    n: usize,
    entries: Seq<(&K, &V)>,
    keys: Vec<K>,
    key: K,
    has: Option<&V>,
)
    requires
        call_ensures(Table::<K, V>::len, (&table,), n),
        entries.len() == n,
        forall|i: usize|
            i < n ==> #[trigger] call_ensures(
                Table::<K, V>::entry,
                (&table, i),
                entries[i as int],
            ),
        call_ensures(Table::<K, V>::keys, (&table,), keys),
        call_ensures(Table::<K, V>::get, (&table, &key), has),
    ensures
        keys@.len() == n,
        forall|i: int| 0 <= i < n ==> (#[trigger] keys@[i])@ == entries[i].0@,
        forall|i: int, j: int|
            0 <= i < j < n ==> (#[trigger] entries[i]).0@ != (#[trigger] entries[j]).0@,
        has is Some <==> exists|i: int| 0 <= i < n && (#[trigger] entries[i]).0@ == key@,
        forall|i: int|
            0 <= i < n && (#[trigger] entries[i]).0@ == key@ ==> has == Some(entries[i].1),
{
    let order = table.order();
    let names = keys@.map_values(|k: K| k@);
    assert(names.len() == keys@.len());
    assert forall|i: int| 0 <= i < n implies (#[trigger] entries[i]).0@ == order[i]
        && table@.contains_key(order[i]) && *entries[i].1 == table@[order[i]] by {
        assert(call_ensures(Table::<K, V>::entry, (&table, i as usize), entries[i as usize as int]));
    }
    assert forall|i: int| 0 <= i < n implies (#[trigger] keys@[i])@ == entries[i].0@ by {
        assert(names[i] == keys@[i]@);
    }
    assert forall|i: int, j: int| 0 <= i < j < n implies (#[trigger] entries[i]).0@ != (
    #[trigger] entries[j]).0@ by {
        assert(order[i] != order[j]);
    }
    if has is Some {
        assert(order.contains(key@));
        let i = order.index_of(key@);
        assert(entries[i].0@ == key@);
    }
}

/// What is recorded adds up: after a value was added under a key, the key has it on top of
/// what it had, and every other key has what it had before. A new profile has nothing.
pub proof fn recorded_times_add_up(
    before: Profiler,
    after: Profiler,
    key: &'static str,
    value: u128,
    other: &'static str,
    had: u128,
    has: u128,
    new: Profiler,
    nothing: u128,
)
    requires
        exists|p: &mut Profiler|
            *p == before && *final(p) == after && #[trigger] call_ensures(
                Profiler::add,
                (p, key, value),
                (),
            ),
        call_ensures(Profiler::get, (&before, other), had),
        call_ensures(Profiler::get, (&after, other), has),
        had + value <= u128::MAX,
        call_ensures(Profiler::new, (), new),
        call_ensures(Profiler::get, (&new, other), nothing),
    ensures
        other@ == key@ ==> has == had + value,
        other@ != key@ ==> has == had,
        nothing == 0,
{
}

/// Recording goes to the profile in the slot just as adding to it does; into an empty slot
/// nothing is recorded.
pub proof fn recording_needs_a_profile(
    before: Option<Profiler>,
    after: Option<Profiler>,
    key: &'static str,
    value: u128,
    other: &'static str,
    had: u128,
    has: u128,
)
    requires
        exists|s: &mut Option<Profiler>|
            *s == before && *final(s) == after && #[trigger] call_ensures(
                record,
                (s, key, value),
                (),
            ),
        before matches Some(p) ==> call_ensures(Profiler::get, (&p, other), had),
        after matches Some(p) ==> call_ensures(Profiler::get, (&p, other), has),
        had + value <= u128::MAX,
    ensures
        after is Some <==> before is Some,
        before is Some ==> if other@ == key@ {
            has == had + value
        } else {
            has == had
        },
{
}

/// A new iteration begins a profile without times and hands out the one before, whole; from an
/// empty slot comes one without times.
pub proof fn iterations_hand_out_the_last_profile(
    before: Option<Profiler>,
    after: Option<Profiler>,
    r: Profiler,
    key: &'static str,
    had: u128,
    given: u128,
    has: u128,
)
    requires
        exists|s: &mut Option<Profiler>|
            *s == before && *final(s) == after && #[trigger] call_ensures(start_iteration, (s,), r),
        before matches Some(p) ==> call_ensures(Profiler::get, (&p, key), had),
        call_ensures(Profiler::get, (&r, key), given),
        after matches Some(p) ==> call_ensures(Profiler::get, (&p, key), has),
    ensures
        after is Some,
        has == 0,
        before is Some ==> given == had,
        before is None ==> given == 0,
{
}

/// A guard records under its key and nowhere else, and only where there is a profile.
pub proof fn guards_record_under_their_key(
    guard: CpuGuard,
    key: &'static str,
    before: Option<Profiler>,
    after: Option<Profiler>,
    other: &'static str,
    had: u128,
    has: u128,
)
    requires
        call_ensures(CpuGuard::new, (key,), guard),
        exists|s: &mut Option<Profiler>|
            *s == before && *final(s) == after && #[trigger] call_ensures(
                CpuGuard::finish,
                (guard, s),
                (),
            ),
        before matches Some(p) ==> call_ensures(Profiler::get, (&p, other), had),
        after matches Some(p) ==> call_ensures(Profiler::get, (&p, other), has),
        had <= u128::MAX - 18446744073709551615999999,
    ensures
        after is Some <==> before is Some,
        before is Some && other@ != key@ ==> has == had,
        before is Some && other@ == key@ ==> had <= has <= had + 18446744073709551615999999,
{
}

/// The copy of a profile has the same times.
pub proof fn copied_profiles_have_the_same_times(
    profile: Profiler,
    copy: Profiler,
    key: &'static str,
    had: u128,
    has: u128,
)
    requires
        call_ensures(Profiler::clone, (&profile,), copy),
        call_ensures(Profiler::get, (&profile, key), had),
        call_ensures(Profiler::get, (&copy, key), has),
    ensures
        has == had,
{
}

/// A message that is added is the last of the conversation, behind all others, and reading the
/// last messages gives the end of the conversation, or all of it where there are fewer.
pub proof fn conversations_keep_their_order(
    before: Conversation,
    after: Conversation,
    message: ConversationMessage,
    n: usize,
    r: Option<Vec<ConversationMessage>>,
)
    requires
        exists|c: &mut Conversation|
            *c == before && *final(c) == after && #[trigger] call_ensures(
                Conversation::add,
                (c, message),
                (),
            ),
        call_ensures(Conversation::get, (&after, n), r),
    ensures
        after.messages@ == before.messages@.push(message),
        r matches Some(given) && {
            &&& given@.len() == if n <= after.messages@.len() {
                n as nat
            } else {
                after.messages@.len()
            }
            &&& forall|i: int|
                0 <= i < given@.len() ==> #[trigger] given@[i]
                    == after.messages@[after.messages@.len() - given@.len() + i]
        },
{
}

/// A message holds its text and its author, and so does its copy.
pub proof fn messages_have_text_and_author(
    message: String,
    author: String,
    r: ConversationMessage,
    copy: ConversationMessage,
)
    requires
        call_ensures(ConversationMessage::new, (message, author), r),
        call_ensures(ConversationMessage::clone, (&r,), copy),
    ensures
        r.message@ == message@ && r.author@ == author@,
        copy.message@ == message@ && copy.author@ == author@,
{
}

/// The bits are those of a double that is not a number.
pub open spec fn is_nan(bits: u64) -> bool {
    0x7ff0000000000000 < bits < 0x8000000000000000 || 0xfff0000000000000 < bits
}

/// Fractions with the same bits are equal unless they are not numbers, those with different
/// bits only if both are zero.
pub proof fn fractions_are_equal_as_numbers(a: Fraction, b: Fraction, r: bool)
    requires
        call_ensures(Fraction::eq, (&a, &b), r),
    ensures
        a.bits == b.bits ==> (r <==> !is_nan(a.bits)),
        a.bits != b.bits ==> (r <==> (a.bits == 0 || a.bits == 0x8000000000000000) && (b.bits == 0
            || b.bits == 0x8000000000000000)),
{
}

/// An instant is counted in nanoseconds from 1970 exactly as long as 64 bits hold the count.
pub proof fn instants_are_counted(secs: i64, nanos: u32, r: Option<i64>)
    requires
        call_ensures(nanos_of, (secs, nanos), r),
    ensures
        r is Some <==> i64::MIN <= 1_000_000_000 * secs + nanos <= i64::MAX,
        r matches Some(count) ==> count == 1_000_000_000 * secs + nanos,
{
}

} // verus!
