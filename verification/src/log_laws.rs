//! What is logged: the lines of records, what they say of actions, and when they are written.
use crate::action::{CGKAAction, CryptoTime, MergeTime, ProcessCryptoTime};
use crate::record::{log_lines, ActionRecord};
use crate::text::{decimal_text, joined, signed_decimal_text};
use crate::user::User;
use vstd::prelude::*;

verus! {

proof fn two_words(a: Seq<char>, b: Seq<char>)
    ensures
        joined(seq![a, b], " "@) == a + " "@ + b,
{
    assert(seq![a, b].drop_last() =~= seq![a]);
    assert(joined(seq![a], " "@) == a);
}

proof fn three_words(a: Seq<char>, b: Seq<char>, c: Seq<char>)
    ensures
        joined(seq![a, b, c], " "@) == a + " "@ + b + " "@ + c,
{
    two_words(a, b);
    assert(seq![a, b, c].drop_last() =~= seq![a, b]);
}

proof fn one_more_word(words: Seq<Seq<char>>, word: Seq<char>)
    requires
        words.len() > 0,
    ensures
        joined(words.push(word), " "@) == joined(words, " "@) + " "@ + word,
{
    assert(words.push(word).drop_last() =~= words);
}

/// The line of a record names the group, its epoch, its members, the user, the action, the
/// time stamp and the time taken, in this order and with one space between each two.
pub proof fn records_are_written_as_lines(
    record: ActionRecord,
    username: String,
    line: String,
    epoch: String,
    members: String,
    action: String,
    timestamp: String,
    elapsed: String,
)
    requires
        call_ensures(ActionRecord::to_line, (&record, &username), line),
        call_ensures(decimal_text, (record.epoch_change.epoch as u128,), epoch),
        call_ensures(decimal_text, (record.num_users as u128,), members),
        call_ensures(CGKAAction::to_text, (&record.action,), action),
        call_ensures(signed_decimal_text, (record.epoch_change.timestamp,), timestamp),
        call_ensures(decimal_text, (record.elapsed_time,), elapsed),
    ensures
        line@ == record.group_name@ + " "@ + epoch@ + " "@ + members@ + " "@ + username@ + " "@
            + action@ + " "@ + timestamp@ + " "@ + elapsed@,
{
    let w = seq![record.group_name@, epoch@, members@];
    three_words(record.group_name@, epoch@, members@);
    let w4 = w.push(username@);
    one_more_word(w, username@);
    let w5 = w4.push(action@);
    one_more_word(w4, action@);
    let w6 = w5.push(timestamp@);
    one_more_word(w5, timestamp@);
    let w7 = w6.push(elapsed@);
    one_more_word(w6, elapsed@);
    assert(w7 =~= seq![
        record.group_name@,
        epoch@,
        members@,
        username@,
        action@,
        timestamp@,
        elapsed@,
    ]);
}

/// An action that is proposed or attempted is written with that word in front of it.
pub proof fn outer_actions_are_written_in_front(
    inner: CGKAAction,
    text: String,
    r: String,
    attempted: String,
)
    requires
        call_ensures(CGKAAction::to_text, (&inner,), text),
        call_ensures(CGKAAction::to_text, (&CGKAAction::Propose(Box::new(inner)),), r),
        call_ensures(CGKAAction::to_text, (&CGKAAction::CommitAttempt(Box::new(inner)),), attempted),
    ensures
        r@ == "Propose"@ + " "@ + text@,
        attempted@ == "CommitAttempt"@ + " "@ + text@,
{
    two_words("Propose"@, text@);
    two_words("CommitAttempt"@, text@);
}

/// Commits are written with the number of what they commit and their size, joins with both of
/// their sizes, and key refreshes with theirs.
pub proof fn commits_are_written_with_their_sizes(
    proposals: Vec<CGKAAction>,
    m: usize,
    n: usize,
    count: String,
    first: String,
    second: String,
    commit: String,
    join: String,
    update: String,
    create: String,
)
    requires
        call_ensures(decimal_text, (proposals.len() as u128,), count),
        call_ensures(decimal_text, (m as u128,), first),
        call_ensures(decimal_text, (n as u128,), second),
        call_ensures(CGKAAction::to_text, (&CGKAAction::Commit(proposals, m),), commit),
        call_ensures(CGKAAction::to_text, (&CGKAAction::Join(m, n),), join),
        call_ensures(CGKAAction::to_text, (&CGKAAction::Update(m),), update),
        call_ensures(CGKAAction::to_text, (&CGKAAction::Create,), create),
    ensures
        commit@ == "Commit"@ + " "@ + count@ + " "@ + first@,
        join@ == "Join"@ + " "@ + first@ + " "@ + second@,
        update@ == "Update"@ + " "@ + first@,
        create@ == "Create"@,
{
    three_words("Commit"@, count@, first@);
    three_words("Join"@, first@, second@);
    two_words("Update"@, first@);
}

/// Actions that concern a user name it, invitations, removals and welcomes also a size. Where a
/// followed commit, a stored proposal or a welcome names no one, only the word is written.
pub proof fn actions_are_written_with_their_user(
    user: String,
    size: usize,
    number: String,
    invite: String,
    remove: String,
    process: String,
    store: String,
    welcome: String,
)
    requires
        call_ensures(decimal_text, (size as u128,), number),
        call_ensures(CGKAAction::to_text, (&CGKAAction::Invite(user, size),), invite),
        call_ensures(CGKAAction::to_text, (&CGKAAction::Remove(user, size),), remove),
        call_ensures(CGKAAction::to_text, (&CGKAAction::Process(user),), process),
        call_ensures(CGKAAction::to_text, (&CGKAAction::StoreProp(user),), store),
        call_ensures(CGKAAction::to_text, (&CGKAAction::Welcome(user, size),), welcome),
    ensures
        invite@ == "Invite"@ + " "@ + user@ + " "@ + number@,
        remove@ == "Remove"@ + " "@ + user@ + " "@ + number@,
        user@.len() > 0 ==> {
            &&& process@ == "Process"@ + " "@ + user@
            &&& store@ == "StoreProp"@ + " "@ + user@
            &&& welcome@ == "Welcome"@ + " "@ + user@ + " "@ + number@
        },
        user@.len() == 0 ==> process@ == "Process"@ && store@ == "StoreProp"@ && welcome@
            == "Welcome"@,
{
    three_words("Invite"@, user@, number@);
    three_words("Remove"@, user@, number@);
    two_words("Process"@, user@);
    two_words("StoreProp"@, user@);
    three_words("Welcome"@, user@, number@);
}

/// The texts are the numerals of these numbers.
pub open spec fn writes_all(numbers: Seq<u128>, texts: Seq<String>) -> bool {
    &&& texts.len() == numbers.len()
    &&& forall|i: int|
        0 <= i < numbers.len() ==> #[trigger] call_ensures(decimal_text, (numbers[i],), texts[i])
}

/// The words with one space between each two.
pub open spec fn words_with_spaces(words: Seq<String>) -> Seq<char>
    decreases words.len(),
{
    if words.len() == 0 {
        Seq::empty()
    } else if words.len() == 1 {
        words[0]@
    } else {
        words_with_spaces(words.drop_last()) + " "@ + words.last()@
    }
}

proof fn numerals_with_spaces(numbers: Seq<u128>, texts: Seq<String>)
    requires
        writes_all(numbers, texts),
    ensures
        crate::action::numerals(numbers) == words_with_spaces(texts),
    decreases numbers.len(),
{
    let words = numbers.map_values(|n: u128| crate::text::decimal(n as nat));
    if numbers.len() > 0 {
        let n = numbers.len() - 1;
        assert(call_ensures(decimal_text, (numbers[n],), texts[n]));
        let rest = numbers.drop_last();
        assert forall|i: int| 0 <= i < rest.len() implies #[trigger] call_ensures(
            decimal_text,
            (rest[i],),
            texts.drop_last()[i],
        ) by {
            assert(call_ensures(decimal_text, (numbers[i],), texts[i]));
        }
        numerals_with_spaces(rest, texts.drop_last());
        assert(words.drop_last() =~= rest.map_values(|n: u128| crate::text::decimal(n as nat)));
        if n == 0 {
            assert(words[0] == texts[0]@);
        }
    }
}

/// The times of a merge in the order in which they are written.
pub open spec fn merge_times(merge: MergeTime) -> Seq<u128> {
    seq![merge.total, merge.merge, merge.storage]
}

/// A timed commit is written with its size, the times of its making, those of keeping and
/// sealing it, that of exporting the tree and those of the merge, with bars between them.
pub proof fn timed_commits_are_written_with_all_times(
    size: usize,
    crypto: CryptoTime,
    merge: MergeTime,
    r: String,
    number: String,
    making: Seq<String>,
    keeping: Seq<String>,
    export: String,
    merging: Seq<String>,
)
    requires
        call_ensures(CGKAAction::to_text, (&CGKAAction::DeepCommit(size, crypto, merge),), r),
        call_ensures(decimal_text, (size as u128,), number),
        writes_all(
            seq![
                crypto.total,
                crypto.validation,
                crypto.apply_proposals,
                crypto.tree,
                crypto.path,
                crypto.tree_hash,
                crypto.parent_hash,
                crypto.encrypt_path,
                crypto.sign,
                crypto.schedule,
                crypto.welcome,
            ],
            making,
        ),
        writes_all(seq![crypto.storage, crypto.encrypt], keeping),
        call_ensures(decimal_text, (crypto.export,), export),
        writes_all(merge_times(merge), merging),
    ensures
        r@ == "DeepCommit"@ + " "@ + number@ + " "@ + "||"@ + " "@ + words_with_spaces(making) + " "@
            + "||"@ + " "@ + words_with_spaces(keeping) + " "@ + "||"@ + " "@ + export@ + " "@ + "||"@
            + " "@ + words_with_spaces(merging),
{
    let times = seq![
        crypto.total,
        crypto.validation,
        crypto.apply_proposals,
        crypto.tree,
        crypto.path,
        crypto.tree_hash,
        crypto.parent_hash,
        crypto.encrypt_path,
        crypto.sign,
        crypto.schedule,
        crypto.welcome,
    ];
    numerals_with_spaces(times, making);
    numerals_with_spaces(seq![crypto.storage, crypto.encrypt], keeping);
    numerals_with_spaces(merge_times(merge), merging);
    let (m, k, g) = (
        words_with_spaces(making),
        words_with_spaces(keeping),
        words_with_spaces(merging),
    );
    let bar = "||"@;
    three_words("DeepCommit"@, number@, bar);
    let w = seq!["DeepCommit"@, number@, bar];
    one_more_word(w, m);
    one_more_word(w.push(m), bar);
    one_more_word(w.push(m).push(bar), k);
    one_more_word(w.push(m).push(bar).push(k), bar);
    one_more_word(w.push(m).push(bar).push(k).push(bar), export@);
    one_more_word(w.push(m).push(bar).push(k).push(bar).push(export@), bar);
    one_more_word(w.push(m).push(bar).push(k).push(bar).push(export@).push(bar), g);
    assert(w.push(m).push(bar).push(k).push(bar).push(export@).push(bar).push(g) =~= seq![
        "DeepCommit"@,
        number@,
        bar,
        m,
        bar,
        k,
        bar,
        export@,
        bar,
        g,
    ]);
}

/// A timed following of a commit is written with its sender, the times of processing and those
/// of the merge, with bars between them.
pub proof fn timed_followings_are_written_with_all_times(
    user: String,
    crypto: ProcessCryptoTime,
    merge: MergeTime,
    r: String,
    processing: Seq<String>,
    merging: Seq<String>,
)
    requires
        call_ensures(CGKAAction::to_text, (&CGKAAction::DeepProcess(user, crypto, merge),), r),
        writes_all(
            seq![
                crypto.total,
                crypto.decrypt,
                crypto.verify,
                crypto.validation,
                crypto.apply_proposals,
                crypto.tree,
                crypto.path,
                crypto.tree_hash,
                crypto.parent_hash,
                crypto.decrypt_path,
                crypto.schedule,
            ],
            processing,
        ),
        writes_all(merge_times(merge), merging),
    ensures
        r@ == "DeepProcess"@ + " "@ + user@ + " "@ + "||"@ + " "@ + words_with_spaces(processing)
            + " "@ + "||"@ + " "@ + words_with_spaces(merging),
{
    let times = seq![
        crypto.total,
        crypto.decrypt,
        crypto.verify,
        crypto.validation,
        crypto.apply_proposals,
        crypto.tree,
        crypto.path,
        crypto.tree_hash,
        crypto.parent_hash,
        crypto.decrypt_path,
        crypto.schedule,
    ];
    numerals_with_spaces(times, processing);
    numerals_with_spaces(merge_times(merge), merging);
    let (p, g) = (words_with_spaces(processing), words_with_spaces(merging));
    let bar = "||"@;
    three_words("DeepProcess"@, user@, bar);
    let w = seq!["DeepProcess"@, user@, bar];
    one_more_word(w, p);
    one_more_word(w.push(p), bar);
    one_more_word(w.push(p).push(bar), g);
    assert(w.push(p).push(bar).push(g) =~= seq!["DeepProcess"@, user@, bar, p, bar, g]);
}

/// Each record is one line of the log, with its end, in order: one more record is one more
/// line.
pub proof fn every_record_is_one_line(
    records: Vec<ActionRecord>,
    more: Vec<ActionRecord>,
    record: ActionRecord,
    username: String,
    text: String,
    text_more: String,
    line: String,
)
    requires
        more@ == records@.push(record),
        call_ensures(log_lines, (&records, &username), text),
        call_ensures(log_lines, (&more, &username), text_more),
        call_ensures(ActionRecord::to_line, (&record, &username), line),
    ensures
        records@.len() == 0 ==> text@ == "\n"@ && text_more@ == line@ + "\n"@,
        records@.len() > 0 ==> text_more@ == text@ + line@ + "\n"@,
{
    let lines = crate::record::record_lines(records@, username@);
    let all = crate::record::record_lines(more@, username@);
    assert(all =~= lines.push(line@));
    assert(all.drop_last() =~= lines);
    if records@.len() == 0 {
        assert(Seq::<char>::empty() + "\n"@ =~= "\n"@);
    } else {
        assert(text_more@ =~= text@ + line@ + "\n"@);
    }
}

/// Records wait until there are fifty of them, or until one of a welcome comes; then all are
/// written in order, with the new one last, and none waits. Until then the new one waits
/// behind the others and nothing is written.
pub proof fn records_wait_to_be_written(
    before: User,
    after: User,
    record: ActionRecord,
    r: Option<String>,
    all: Vec<ActionRecord>,
    text: String,
)
    requires
        exists|u: &mut User|
            *u == before && *final(u) == after && #[trigger] call_ensures(
                User::write_timestamp,
                (u, record),
                r,
            ),
        all@ == before.file_buffer@.push(record),
        call_ensures(log_lines, (&all, &before.username), text),
    ensures
        after == (User { file_buffer: after.file_buffer, ..before }),
        r is Some <==> record.action is Welcome || before.file_buffer@.len() >= 49,
        r is None ==> after.file_buffer@ == before.file_buffer@.push(record),
        r matches Some(written) ==> after.file_buffer@.len() == 0 && written@ == text@,
{
}

/// Flushing the log writes all waiting records, and none waits any more.
pub proof fn flushing_writes_all(before: User, after: User, r: String, text: String)
    requires
        exists|u: &mut User|
            *u == before && *final(u) == after && #[trigger] call_ensures(
                User::flush_logs,
                (u,),
                r,
            ),
        call_ensures(log_lines, (&before.file_buffer, &before.username), text),
    ensures
        after == (User { file_buffer: after.file_buffer, ..before }),
        after.file_buffer@.len() == 0,
        r@ == text@,
{
}

/// The log of a user is a text file under its name.
pub proof fn logs_are_named_after_users(user: User, r: String)
    requires
        call_ensures(User::log_path, (&user,), r),
    ensures
        r@ == "logs/"@ + user.username@ + ".txt"@,
{
}

/// The copy of a record is written as the record is, for every user.
pub proof fn copied_records_are_written_alike(
    record: ActionRecord,
    copy: ActionRecord,
    username: String,
    line: String,
    same: String,
)
    requires
        call_ensures(ActionRecord::clone, (&record,), copy),
        call_ensures(ActionRecord::to_line, (&record, &username), line),
        call_ensures(ActionRecord::to_line, (&copy, &username), same),
    ensures
        same@ == line@,
        copy.group_name@ == record.group_name@,
        copy.epoch_change == record.epoch_change,
        copy.elapsed_time == record.elapsed_time,
        copy.num_users == record.num_users,
{
}

} // verus!
