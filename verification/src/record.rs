//! Records of actions and the lines in which they are logged.
use crate::action::{spaced, CGKAAction};
use crate::text::{decimal, decimal_text, join, joined, signed_decimal, signed_decimal_text, texts};
use vstd::prelude::*;

verus! {

/// When an action took place and in which epoch of its group.
#[derive(Debug, Clone, Copy, PartialEq, Eq, Structural)]
pub struct EpochChange {
    pub timestamp: i64,
    pub epoch: u64,
}

/// An action with what is logged of it.
#[derive(Debug)]
pub struct ActionRecord {
    pub group_name: String,
    pub action: CGKAAction,
    pub epoch_change: EpochChange,
    pub elapsed_time: u128,
    pub num_users: usize,
}

impl ActionRecord {
    /// The record holds these values.
    pub open spec fn holds(
        self,
        group_name: Seq<char>,
        action: CGKAAction,
        epoch_change: EpochChange,
        elapsed_time: u128,
        num_users: nat,
    ) -> bool {
        &&& self.group_name@ == group_name
        &&& self.action == action
        &&& self.epoch_change == epoch_change
        &&& self.elapsed_time == elapsed_time
        &&& self.num_users == num_users
    }

    /// The line in which a user logs the record.
    pub open spec fn line(self, username: Seq<char>) -> Seq<char> {
        spaced(
            seq![
                self.group_name@,
                decimal(self.epoch_change.epoch as nat),
                decimal(self.num_users as nat),
                username,
                self.action.shown(),
                signed_decimal(self.epoch_change.timestamp as int),
                decimal(self.elapsed_time as nat),
            ],
        )
    }

    /// Writes the line in which a user logs the record.
    pub fn to_line(&self, username: &String) -> (r: String)
        ensures
            r@ == self.line(username@),
    {
        let mut w: Vec<String> = Vec::new();
        w.push(self.group_name.clone());
        w.push(decimal_text(self.epoch_change.epoch as u128));
        w.push(decimal_text(self.num_users as u128));
        w.push(username.clone());
        w.push(self.action.to_text());
        w.push(signed_decimal_text(self.epoch_change.timestamp));
        w.push(decimal_text(self.elapsed_time));
        assert(texts(w@) =~= seq![
            self.group_name@,
            decimal(self.epoch_change.epoch as nat),
            decimal(self.num_users as nat),
            username@,
            self.action.shown(),
            signed_decimal(self.epoch_change.timestamp as int),
            decimal(self.elapsed_time as nat),
        ]);
        join(&w, " ")
    }
}

impl Clone for ActionRecord {
    fn clone(&self) -> (r: Self)
        ensures
            self.action.alike(r.action),
            *self == (ActionRecord { action: self.action, ..r }),
            forall|username: Seq<char>| r.line(username) == self.line(username),
    {
        ActionRecord {
            group_name: self.group_name.clone(),
            action: self.action.clone(),
            epoch_change: self.epoch_change,
            elapsed_time: self.elapsed_time,
            num_users: self.num_users,
        }
    }
}

/// The lines of a list of records.
pub open spec fn record_lines(records: Seq<ActionRecord>, username: Seq<char>) -> Seq<Seq<char>> {
    records.map_values(|r: ActionRecord| r.line(username))
}

/// What is appended to the log file for a list of records: one line each.
pub open spec fn log_text(records: Seq<ActionRecord>, username: Seq<char>) -> Seq<char> {
    joined(record_lines(records, username), "\n"@) + "\n"@
}

/// Writes what is appended to the log file for a list of records.
pub fn log_lines(records: &Vec<ActionRecord>, username: &String) -> (r: String)
    ensures
        r@ == log_text(records@, username@),
{
    let mut lines: Vec<String> = Vec::new();
    let mut i: usize = 0;
    while i < records.len()
        invariant
            i <= records.len(),
            lines.len() == i,
            forall|j: int| 0 <= j < i ==> #[trigger] lines@[j]@ == records@[j].line(username@),
        decreases records.len() - i,
    {
        lines.push(records[i].to_line(username));
        i += 1;
    }
    assert(texts(lines@) =~= record_lines(records@, username@));
    let mut text = join(&lines, "\n");
    text.append("\n");
    text
}

} // verus!
