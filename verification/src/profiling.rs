//! CPU time per thread, summed under keys.
use crate::table::Table;
use cpu_time::ThreadTime;
use vstd::prelude::*;

verus! {

/// A point on the CPU clock of a thread, of the crate `cpu_time`.
#[verifier::external_type_specification]
#[verifier::external_body]
pub struct ExThreadTime(cpu_time::ThreadTime);

/// Calls `cpu_time::ThreadTime::now`, which reads the CPU clock of the running thread.
/// What the clock shows is up to the machine, so nothing is stated of it. The outside
/// function panics on a kernel without a CPU clock for threads.
#[verifier::external_body]
fn thread_time_now() -> ThreadTime {
    ThreadTime::now()
}

/// The most microseconds that a duration of std can hold.
pub const MAX_MICROS: u128 = 18446744073709551615999999;

/// Calls `cpu_time::ThreadTime::elapsed` and counts the time since `start` in microseconds.
/// How much time has gone by is up to the machine; of every outcome holds that a duration
/// of std counts its whole seconds in 64 bits and its microseconds are no more than that allows.
#[verifier::external_body]
fn thread_micros_since(start: &ThreadTime) -> (r: u128)
    ensures
        r <= MAX_MICROS,
{
    start.elapsed().as_micros()
}

/// Times summed under keys since the profile was begun.
#[derive(Debug)]
pub struct Profiler {
    pub times_ns: Table<String, u128>,
}

impl View for Profiler {
    type V = Map<Seq<char>, u128>;

    open spec fn view(&self) -> Map<Seq<char>, u128> {
        self.times_ns@
    }
}

impl Clone for Profiler {
    fn clone(&self) -> (r: Self)
        ensures
            r@ == self@,
    {
        let r = Profiler { times_ns: self.times_ns.clone() };
        assert(r@ =~= self@);
        r
    }
}

impl Profiler {
    /// What is recorded under the key: nothing counts as zero.
    pub open spec fn time(times: Map<Seq<char>, u128>, key: Seq<char>) -> u128 {
        if times.contains_key(key) {
            times[key]
        } else {
            0
        }
    }

    /// What is recorded in the slot of a thread: in an empty one, nothing.
    pub open spec fn recorded(current: Option<Profiler>) -> Map<Seq<char>, u128> {
        match current {
            Some(p) => p@,
            None => Map::empty(),
        }
    }

    /// The times after `val` more under `key`.
    pub open spec fn added(times: Map<Seq<char>, u128>, key: Seq<char>, val: u128) -> Map<
        Seq<char>,
        u128,
    > {
        times.insert(key, (Self::time(times, key) + val) as u128)
    }

    /// A profile in which nothing is recorded.
    pub fn new() -> (r: Self)
        ensures
            r@ == Map::<Seq<char>, u128>::empty(),
    {
        Profiler { times_ns: Table::new() }
    }

    /// Adds `val` to what is recorded under `key`.
    pub fn add(&mut self, key: &'static str, val: u128)
        requires
            Self::time(old(self)@, key@) + val <= u128::MAX,
        ensures
            final(self)@ == Self::added(old(self)@, key@, val),
    {
        let sum: u128 = self.get(key) + val;
        let _ = self.times_ns.insert(key.to_owned(), sum);
    }

    /// What is recorded under `key`.
    pub fn get(&self, key: &'static str) -> (r: u128)
        ensures
            r == Self::time(self@, key@),
    {
        match self.times_ns.get(&key.to_owned()) {
            Some(val) => *val,
            None => 0,
        }
    }
}

/// Begins a new profile in the slot of the thread and hands out the one that was there;
/// an empty slot hands out a profile in which nothing is recorded.
pub fn start_iteration(current: &mut Option<Profiler>) -> (r: Profiler)
    ensures
        *final(current) matches Some(p) && p@ == Map::<Seq<char>, u128>::empty(),
        r@ == Profiler::recorded(*old(current)),
        *old(current) matches Some(p) ==> r == p,
{
    let previous = current.take();
    *current = Some(Profiler::new());
    match previous {
        Some(p) => p,
        None => Profiler::new(),
    }
}

/// Adds `value` under `key` to the profile in the slot of the thread; before the first
/// profile is begun, the value is dropped.
pub fn record(current: &mut Option<Profiler>, key: &'static str, value: u128)
    requires
        *old(current) matches Some(p) ==> Profiler::time(p@, key@) + value <= u128::MAX,
    ensures
        match *old(current) {
            Some(p) => *final(current) matches Some(q) && q@ == Profiler::added(p@, key@, value),
            None => *final(current) is None,
        },
{
    match current.take() {
        Some(p) => {
            let mut q = p;
            q.add(key, value);
            *current = Some(q);
        },
        None => {},
    }
}

/// Measures the CPU time of the running thread since it was started.
pub struct Stopwatch {
    pub start: ThreadTime,
}

impl Stopwatch {
    /// Begins to measure. From when on is up to the machine.
    pub fn start() -> Self {
        Stopwatch { start: thread_time_now() }
    }

    /// The microseconds since the beginning, whatever their number.
    pub fn elapsed(&self) -> (r: u128)
        ensures
            r <= MAX_MICROS,
    {
        thread_micros_since(&self.start)
    }
}

/// Measures the CPU time of the running thread from its making to its end.
pub struct CpuGuard {
    pub key: &'static str,
    pub start: ThreadTime,
}

impl CpuGuard {
    /// Begins to measure under `key`.
    pub fn new(key: &'static str) -> (r: Self)
        ensures
            r.key == key,
    {
        CpuGuard { key, start: thread_time_now() }
    }

    /// Ends the measurement: the microseconds since its beginning, whatever their number,
    /// are recorded under its key.
    pub fn finish(self, current: &mut Option<Profiler>)
        requires
            *old(current) matches Some(p) ==> Profiler::time(p@, self.key@) + MAX_MICROS <= u128::MAX,
        ensures
            match *old(current) {
                Some(p) => *final(current) matches Some(q) && exists|micros: u128|
                    micros <= MAX_MICROS && q@ == #[trigger] Profiler::added(p@, self.key@, micros),
                None => *final(current) is None,
            },
    {
        let micros = thread_micros_since(&self.start);
        record(current, self.key, micros);
    }
}

/// The times after a list of values was recorded, each under its key.
pub open spec fn all_added(times: Map<Seq<char>, u128>, records: Seq<(Seq<char>, u128)>) -> Map<
    Seq<char>,
    u128,
>
    decreases records.len(),
{
    if records.len() == 0 {
        times
    } else {
        let (key, val) = records.last();
        Profiler::added(all_added(times, records.drop_last()), key, val)
    }
}

/// The sum of the values that a list records under a key.
pub open spec fn sum_under(records: Seq<(Seq<char>, u128)>, key: Seq<char>) -> nat
    decreases records.len(),
{
    if records.len() == 0 {
        0
    } else {
        sum_under(records.drop_last(), key) + if records.last().0 == key {
            records.last().1 as nat
        } else {
            0
        }
    }
}

/// What is read under a key is the sum of all that was recorded under it, beside what was
/// there before, and a key has a time exactly if it had one before or was recorded under.
pub proof fn recorded_times_sum_up(
    times: Map<Seq<char>, u128>,
    records: Seq<(Seq<char>, u128)>,
    key: Seq<char>,
)
    requires
        Profiler::time(times, key) + sum_under(records, key) <= u128::MAX,
    ensures
        Profiler::time(all_added(times, records), key) == Profiler::time(times, key) + sum_under(
            records,
            key,
        ),
        all_added(times, records).contains_key(key) <==> times.contains_key(key) || exists|i: int|
            0 <= i < records.len() && (#[trigger] records[i]).0 == key,
    decreases records.len(),
{
    if records.len() > 0 {
        let before = records.drop_last();
        recorded_times_sum_up(times, before, key);
        if exists|i: int| 0 <= i < records.len() && (#[trigger] records[i]).0 == key {
            let i = choose|i: int| 0 <= i < records.len() && (#[trigger] records[i]).0 == key;
            if i < before.len() {
                assert(before[i].0 == key);
            }
        }
        if exists|i: int| 0 <= i < before.len() && (#[trigger] before[i]).0 == key {
            let i = choose|i: int| 0 <= i < before.len() && (#[trigger] before[i]).0 == key;
            assert(records[i].0 == key);
        }
        if records.last().0 == key {
            assert(records[records.len() - 1].0 == key);
        }
    }
}

/// A fresh profile holds under each key the sum of what was recorded under it, and no other
/// keys.
pub proof fn fresh_profiles_hold_the_sums(records: Seq<(Seq<char>, u128)>, key: Seq<char>)
    requires
        sum_under(records, key) <= u128::MAX,
    ensures
        Profiler::time(all_added(Map::empty(), records), key) == sum_under(records, key),
        all_added(Map::empty(), records).contains_key(key) <==> exists|i: int|
            0 <= i < records.len() && (#[trigger] records[i]).0 == key,
{
    recorded_times_sum_up(Map::empty(), records, key);
}

/// It makes no difference in which order two values are recorded.
pub proof fn recording_order_is_irrelevant(
    times: Map<Seq<char>, u128>,
    k1: Seq<char>,
    v1: u128,
    k2: Seq<char>,
    v2: u128,
)
    requires
        k1 == k2 ==> Profiler::time(times, k1) + v1 + v2 <= u128::MAX,
    ensures
        Profiler::added(Profiler::added(times, k1, v1), k2, v2) == Profiler::added(
            Profiler::added(times, k2, v2),
            k1,
            v1,
        ),
{
    assert(Profiler::added(Profiler::added(times, k1, v1), k2, v2) =~= Profiler::added(
        Profiler::added(times, k2, v2),
        k1,
        v1,
    ));
}

} // verus!
