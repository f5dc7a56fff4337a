use emulated_client::profiling::{
    record, start_iteration, CpuGuard, Profiler, Stopwatch, MAX_MICROS,
};

#[test]
fn an_unknown_key_has_no_time() {
    assert_eq!(Profiler::new().get("total"), 0);
}

#[test]
fn times_under_a_key_are_summed() {
    let mut prof = Profiler::new();
    prof.add("tree", 5);
    prof.add("path", 7);
    prof.add("tree", 6);
    assert_eq!(prof.get("tree"), 11);
    assert_eq!(prof.get("path"), 7);
}

#[test]
fn a_new_iteration_hands_out_the_last_profile() {
    let mut slot = None;
    assert_eq!(start_iteration(&mut slot).get("tree"), 0);
    record(&mut slot, "tree", 3);
    record(&mut slot, "tree", 4);
    let ended = start_iteration(&mut slot);
    assert_eq!(ended.get("tree"), 7);
    assert_eq!(slot.unwrap().get("tree"), 0);
}

#[test]
fn nothing_is_recorded_before_the_first_iteration() {
    let mut slot = None;
    record(&mut slot, "tree", 3);
    assert!(slot.is_none());
}

#[test]
fn a_guard_records_under_its_key() {
    let mut slot = Some(Profiler::new());
    record(&mut slot, "tree", 100);
    let guard = CpuGuard::new("tree");
    assert_eq!(guard.key, "tree");
    guard.finish(&mut slot);
    let time = slot.unwrap().get("tree");
    assert!((100..=100 + MAX_MICROS).contains(&time));
}

#[test]
fn a_guard_without_a_profile_records_nothing() {
    let mut slot = None;
    CpuGuard::new("tree").finish(&mut slot);
    assert!(slot.is_none());
}

#[test]
fn a_stopwatch_counts_the_work_of_the_thread() {
    let watch = Stopwatch::start();
    let mut x: u64 = 1;
    while watch.elapsed() < 1000 {
        x = x.wrapping_mul(31).wrapping_add(7);
    }
    let first = watch.elapsed();
    assert!(first >= 1000);
    assert!(watch.elapsed() >= first);
    assert_ne!(x, 1);
}

#[test]
fn a_list_of_times_is_summed_under_each_key() {
    let mut slot = Some(Profiler::new());
    let keys = ["tree", "path", "sign"];
    for i in 0..30usize {
        record(&mut slot, keys[i % 3], i as u128);
    }
    let prof = slot.unwrap();
    assert_eq!(prof.get("tree"), (0..30).step_by(3).sum::<u128>());
    assert_eq!(prof.get("path"), (1..30).step_by(3).sum::<u128>());
    assert_eq!(prof.get("sign"), (2..30).step_by(3).sum::<u128>());
    assert_eq!(prof.times_ns.len(), 3);
}

#[test]
fn a_copied_profile_holds_the_same_times() {
    let mut prof = Profiler::new();
    prof.add("tree", 5);
    let copy = prof.clone();
    prof.add("tree", 6);
    assert_eq!((prof.get("tree"), copy.get("tree"), copy.get("path")), (11, 5, 0));
    assert!(format!("{:?}", copy).contains("tree"));
}
