use emulated_client::action::CGKAAction;
use emulated_client::delivery::DeliveryService;
use emulated_client::record::{ActionRecord, EpochChange};
use emulated_client::user::{User, FILE_BUFFER_SIZE};

fn record(n: usize, action: CGKAAction) -> ActionRecord {
    ActionRecord {
        group_name: format!("g{n}"),
        action,
        epoch_change: EpochChange { timestamp: 1, epoch: 2 },
        elapsed_time: 3,
        num_users: 4,
    }
}

fn user() -> User {
    User::new_independent("me".to_string(), DeliveryService::Request)
}

#[test]
fn records_wait_until_there_are_enough() {
    let mut user = user();
    assert_eq!(FILE_BUFFER_SIZE, 50);
    for n in 0..49 {
        assert_eq!(user.write_timestamp(record(n, CGKAAction::Create)), None);
        assert_eq!(user.file_buffer.len(), n + 1);
    }
    let text = user.write_timestamp(record(49, CGKAAction::Create)).unwrap();
    assert!(user.file_buffer.is_empty());
    assert_eq!(text.lines().count(), 50);
    assert!(text.starts_with("g0 2 4 me Create 1 3\ng1 "));
    assert!(text.ends_with("g49 2 4 me Create 1 3\n"));
}

#[test]
fn a_welcome_is_written_at_once() {
    let mut user = user();
    assert_eq!(user.write_timestamp(record(0, CGKAAction::Update(9))), None);
    let welcome = CGKAAction::Welcome("ann".to_string(), 5);
    assert_eq!(
        user.write_timestamp(record(1, welcome)).unwrap(),
        "g0 2 4 me Update 9 1 3\ng1 2 4 me Welcome ann 5 1 3\n"
    );
    assert!(user.file_buffer.is_empty());
}

#[test]
fn every_record_is_logged_once_and_in_order() {
    let mut user = user();
    let mut log = String::new();
    for n in 0..120 {
        let action = if n % 33 == 7 {
            CGKAAction::Welcome("a".to_string(), n)
        } else {
            CGKAAction::Update(n)
        };
        if let Some(text) = user.write_timestamp(record(n, action)) {
            log.push_str(&text);
        }
        assert!(user.file_buffer.len() < FILE_BUFFER_SIZE);
    }
    log.push_str(&user.flush_logs());
    let names: Vec<String> =
        log.lines().map(|l| l.split(' ').next().unwrap().to_string()).collect();
    let expected: Vec<String> = (0..120).map(|n| format!("g{n}")).collect();
    assert_eq!(names, expected);
}

#[test]
fn the_log_file_is_named_after_the_user() {
    assert_eq!(user().log_path(), "logs/me.txt");
}

#[test]
fn flushing_nothing_writes_an_empty_line() {
    assert_eq!(user().flush_logs(), "\n");
}
