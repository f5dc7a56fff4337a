use emulated_client::action::{CGKAAction, CryptoTime, MergeTime, ProcessCryptoTime};
use emulated_client::profiling::Profiler;
use emulated_client::record::{log_lines, ActionRecord, EpochChange};
use emulated_client::text::{
    copy_byte_strings, decimal_text, decode, decode_all, enclosed, encode, encode_all,
    join, prefixed, same_bytes, same_text, signed_decimal_text,
};

fn commit_times() -> CryptoTime {
    CryptoTime {
        total: 1,
        validation: 2,
        apply_proposals: 3,
        tree: 4,
        path: 5,
        tree_hash: 6,
        parent_hash: 7,
        encrypt_path: 8,
        sign: 9,
        schedule: 10,
        welcome: 11,
        storage: 12,
        encrypt: 13,
        export: 14,
    }
}

fn record(group: &str, action: CGKAAction, timestamp: i64) -> ActionRecord {
    ActionRecord {
        group_name: group.to_string(),
        action,
        epoch_change: EpochChange { timestamp, epoch: 7 },
        elapsed_time: 1234,
        num_users: 3,
    }
}

#[test]
fn numbers_are_written_in_decimal() {
    assert_eq!(decimal_text(0), "0");
    assert_eq!(decimal_text(7), "7");
    assert_eq!(decimal_text(10), "10");
    assert_eq!(decimal_text(1234567890), "1234567890");
    assert_eq!(decimal_text(u128::MAX), u128::MAX.to_string());
    assert_eq!(signed_decimal_text(-1), "-1");
    assert_eq!(signed_decimal_text(i64::MIN), i64::MIN.to_string());
    assert_eq!(signed_decimal_text(i64::MAX), i64::MAX.to_string());
    assert_eq!(signed_decimal_text(0), "0");
}

#[test]
fn different_numbers_have_different_numerals() {
    let mut seen = Vec::new();
    for n in [0u128, 1, 9, 10, 11, 99, 100, 101, 110] {
        let s = decimal_text(n);
        assert!(!seen.contains(&s));
        assert_eq!(s.parse::<u128>().unwrap(), n);
        seen.push(s);
    }
}

#[test]
fn texts_are_put_together() {
    let lines = vec!["a".to_string(), "b".to_string(), "c".to_string()];
    assert_eq!(join(&lines, ", "), "a, b, c");
    assert_eq!(join(&Vec::new(), ", "), "");
    assert_eq!(enclosed("<", "x", ">"), "<x>");
    assert_eq!(prefixed("Error: ", "x"), "Error: x");
    assert!(same_text("x", "x"));
    assert!(!same_text("x", "y"));
    assert!(same_bytes(&vec![1, 2], &vec![1, 2]));
    assert!(!same_bytes(&vec![1, 2], &vec![1]));
    assert_eq!(copy_byte_strings(&vec![vec![1], vec![]]), vec![vec![1], vec![]]);
}

#[test]
fn names_survive_their_encoding() {
    let names = vec!["Alice".to_string(), "Zoë".to_string(), "".to_string()];
    let bytes = encode_all(&names);
    assert_eq!(bytes[1], "Zoë".as_bytes().to_vec());
    assert_eq!(decode_all(&bytes), names);
    assert_eq!(decode(&encode("grün")), "grün");
}

#[test]
fn plain_actions_are_shown() {
    let user = || "Bob".to_string();
    let nobody = || "".to_string();
    let shown = |a: CGKAAction| a.to_text();
    assert_eq!(shown(CGKAAction::Join(11, 22)), "Join 11 22");
    assert_eq!(shown(CGKAAction::Update(5)), "Update 5");
    assert_eq!(shown(CGKAAction::Invite(user(), 5)), "Invite Bob 5");
    assert_eq!(shown(CGKAAction::Remove(user(), 6)), "Remove Bob 6");
    assert_eq!(shown(CGKAAction::Process(user())), "Process Bob");
    assert_eq!(shown(CGKAAction::Process(nobody())), "Process");
    assert_eq!(shown(CGKAAction::Welcome(user(), 8)), "Welcome Bob 8");
    assert_eq!(shown(CGKAAction::Welcome(nobody(), 8)), "Welcome");
    assert_eq!(shown(CGKAAction::StoreProp(user())), "StoreProp Bob");
    assert_eq!(shown(CGKAAction::StoreProp(nobody())), "StoreProp");
    assert_eq!(shown(CGKAAction::Create), "Create");
}

#[test]
fn nested_actions_are_shown() {
    let invite = CGKAAction::Invite("Bob".to_string(), 5);
    assert_eq!(CGKAAction::Propose(Box::new(invite.clone())).to_text(), "Propose Invite Bob 5");
    assert_eq!(
        CGKAAction::CommitAttempt(Box::new(CGKAAction::Update(1))).to_text(),
        "CommitAttempt Update 1"
    );
    assert_eq!(
        CGKAAction::Commit(vec![invite, CGKAAction::Update(0)], 300).to_text(),
        "Commit 2 300"
    );
}

#[test]
fn deep_actions_are_shown_with_their_times() {
    let merge = MergeTime { total: 20, merge: 21, storage: 22 };
    assert_eq!(
        CGKAAction::DeepCommit(99, commit_times(), merge).to_text(),
        "DeepCommit 99 || 1 2 3 4 5 6 7 8 9 10 11 || 12 13 || 14 || 20 21 22"
    );
    let process = ProcessCryptoTime {
        total: 1,
        decrypt: 2,
        verify: 3,
        validation: 4,
        apply_proposals: 5,
        tree: 6,
        path: 7,
        tree_hash: 8,
        parent_hash: 9,
        decrypt_path: 10,
        schedule: 11,
    };
    assert_eq!(
        CGKAAction::DeepProcess("Bob".to_string(), process, merge).to_text(),
        "DeepProcess Bob || 1 2 3 4 5 6 7 8 9 10 11 || 20 21 22"
    );
}

#[test]
fn copies_of_actions_hold_the_same() {
    let action = CGKAAction::Commit(
        vec![
            CGKAAction::Propose(Box::new(CGKAAction::Remove("Bob".to_string(), 1))),
            CGKAAction::DeepCommit(1, commit_times(), MergeTime { total: 1, merge: 2, storage: 3 }),
        ],
        4,
    );
    assert_eq!(action.clone(), action);
    let first = record("g", CGKAAction::Create, 5);
    let copy = first.clone();
    assert_eq!(copy.group_name, "g");
    assert_eq!(copy.action, CGKAAction::Create);
    assert_eq!(copy.epoch_change, first.epoch_change);
    assert_eq!((copy.elapsed_time, copy.num_users), (1234, 3));
}

#[test]
fn times_are_read_from_a_profile() {
    let mut prof = Profiler::new();
    prof.add("total", 1);
    prof.add("export", 14);
    prof.add("decrypt", 2);
    prof.add("merge_total", 3);
    prof.add("merge_storage", 4);
    prof.add("merge", 5);
    let commit = CryptoTime::from_profile(&prof);
    assert_eq!((commit.total, commit.export, commit.sign), (1, 14, 0));
    let process = ProcessCryptoTime::from_profile(&prof);
    assert_eq!((process.total, process.decrypt, process.path), (1, 2, 0));
    assert_eq!(MergeTime::from_profile(&prof), MergeTime { total: 3, merge: 5, storage: 4 });
}

#[test]
fn a_record_is_one_line() {
    let r = record("group_AAA", CGKAAction::Update(77), 1700000000000000001);
    assert_eq!(
        r.to_line(&"Alice_0".to_string()),
        "group_AAA 7 3 Alice_0 Update 77 1700000000000000001 1234"
    );
}

#[test]
fn records_are_logged_line_by_line() {
    let records = vec![record("g", CGKAAction::Create, 1), record("h", CGKAAction::Update(2), -3)];
    assert_eq!(
        log_lines(&records, &"u".to_string()),
        "g 7 3 u Create 1 1234\nh 7 3 u Update 2 -3 1234\n"
    );
    assert_eq!(log_lines(&Vec::new(), &"u".to_string()), "\n");
}
