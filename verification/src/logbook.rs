//! The records of a user on their way to its log file.
use crate::action::CGKAAction;
use crate::record::{log_lines, log_text, record_lines, ActionRecord};
use crate::text::{enclosed, text_of};
use crate::user::{User, FILE_BUFFER_SIZE};
use vstd::prelude::*;

verus! {

/// What becomes of the waiting records when one is added: they go on waiting, or all are
/// written, once there are enough of them or a welcome is among them.
pub open spec fn logged(waiting: Seq<ActionRecord>, record: ActionRecord, username: Seq<char>) -> (
    Seq<ActionRecord>,
    Option<Seq<char>>,
) {
    let records = waiting.push(record);
    if records.len() >= FILE_BUFFER_SIZE || record.action is Welcome {
        (Seq::empty(), Some(log_text(records, username)))
    } else {
        (records, None)
    }
}

impl User {
    /// Adds a record to the waiting ones and hands out what is to be appended to the log
    /// file, if it is time to write.
    pub fn write_timestamp(&mut self, action_record: ActionRecord) -> (r: Option<String>)
        ensures
            *final(self) == (User { file_buffer: final(self).file_buffer, ..*old(self) }),
            (final(self).file_buffer@, text_of(r)) == logged(
                old(self).file_buffer@,
                action_record,
                old(self).username@,
            ),
            old(self).wf() ==> final(self).wf(),
    {
        let is_welcome = match &action_record.action {
            CGKAAction::Welcome(_, _) => true,
            _ => false,
        };
        self.file_buffer.push(action_record);
        if self.file_buffer.len() >= FILE_BUFFER_SIZE || is_welcome {
            Some(self.flush_logs())
        } else {
            None
        }
    }

    /// Takes the waiting records and hands out what is to be appended to the log file.
    pub fn flush_logs(&mut self) -> (r: String)
        ensures
            *final(self) == (User { file_buffer: final(self).file_buffer, ..*old(self) }),
            final(self).file_buffer@ == Seq::<ActionRecord>::empty(),
            r@ == log_text(old(self).file_buffer@, old(self).username@),
    {
        let text = log_lines(&self.file_buffer, &self.username);
        self.file_buffer = Vec::new();
        text
    }

    /// The file that the log is appended to.
    pub open spec fn log_path_of(username: Seq<char>) -> Seq<char> {
        "logs/"@ + username + ".txt"@
    }

    /// Names the file that the log is appended to.
    pub fn log_path(&self) -> (r: String)
        ensures
            r@ == Self::log_path_of(self.username@),
    {
        enclosed("logs/", self.username.as_str(), ".txt")
    }
}

/// The lines of a list of records, each with its end.
pub open spec fn whole_lines(records: Seq<ActionRecord>, username: Seq<char>) -> Seq<char> {
    if records.len() == 0 {
        Seq::empty()
    } else {
        log_text(records, username)
    }
}

/// What a user has written to its log file, and which records still wait, after it has
/// recorded a list of actions.
pub open spec fn written(records: Seq<ActionRecord>, username: Seq<char>) -> (
    Seq<char>,
    Seq<ActionRecord>,
)
    decreases records.len(),
{
    if records.len() == 0 {
        (Seq::empty(), Seq::empty())
    } else {
        let before = written(records.drop_last(), username);
        let (waiting, text) = logged(before.1, records.last(), username);
        match text {
            Some(text) => (before.0 + text, waiting),
            None => (before.0, waiting),
        }
    }
}

/// It makes no difference to the log file whether two lists of records are written
/// together or one after the other.
pub proof fn lists_are_logged_alike(a: Seq<ActionRecord>, b: Seq<ActionRecord>, username: Seq<char>)
    ensures
        whole_lines(a + b, username) == whole_lines(a, username) + whole_lines(b, username),
    decreases b.len(),
{
    let n = "\n"@;
    if b.len() == 0 {
        assert(a + b =~= a);
    } else if a.len() == 0 {
        assert(a + b =~= b);
    } else {
        let rest = b.drop_last();
        let lines = record_lines(a + b, username);
        assert((a + b).drop_last() =~= a + rest);
        assert(lines.drop_last() =~= record_lines(a + rest, username));
        assert(record_lines(b, username).drop_last() =~= record_lines(rest, username));
        let last = b.last().line(username);
        assert(lines.last() == last);
        if rest.len() == 0 {
            assert(a + rest =~= a);
            assert(whole_lines(a + b, username) =~= whole_lines(a, username) + whole_lines(
                b,
                username,
            ));
        } else {
            lists_are_logged_alike(a, rest, username);
            assert(log_text(a + b, username) =~= log_text(a + rest, username) + last + n);
            assert(log_text(b, username) =~= log_text(rest, username) + last + n);
            assert(log_text(a + b, username) =~= log_text(a, username) + log_text(b, username));
        }
    }
}

/// Every record reaches the log once and in order: what has been written, followed by the
/// lines of the waiting records, is one line for each recorded action. Fewer records wait
/// than are written at once, and none after a welcome.
pub proof fn log_holds_every_record(records: Seq<ActionRecord>, username: Seq<char>)
    ensures
        written(records, username).0 + whole_lines(written(records, username).1, username)
            == whole_lines(records, username),
        written(records, username).1.len() < FILE_BUFFER_SIZE,
        records.len() > 0 && records.last().action is Welcome ==> written(records, username).1
            == Seq::<ActionRecord>::empty(),
    decreases records.len(),
{
    if records.len() == 0 {
        assert(written(records, username).0 + whole_lines(written(records, username).1, username)
            =~= whole_lines(records, username));
    } else {
        let before = written(records.drop_last(), username);
        let last = seq![records.last()];
        log_holds_every_record(records.drop_last(), username);
        lists_are_logged_alike(records.drop_last(), last, username);
        lists_are_logged_alike(before.1, last, username);
        assert(records.drop_last() + last =~= records);
        assert(before.1 + last =~= before.1.push(records.last()));
        assert(before.0 + (whole_lines(before.1, username) + whole_lines(last, username)) =~= (
        before.0 + whole_lines(before.1, username)) + whole_lines(last, username));
        assert(written(records, username).0 + whole_lines(written(records, username).1, username)
            =~= whole_lines(records, username));
    }
}

} // verus!
