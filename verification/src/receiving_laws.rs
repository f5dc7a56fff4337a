//! What taking in messages does: those of groups, welcomes, and the user's own.
use crate::action::CGKAAction;
use crate::delivery::BrokerCall;
use crate::inbox::{
    group_aad_bytes, AcceptedWelcome, InMessageStep, JoinError, JoinedGroup, MessageBody,
    MessageIn, Welcome, WelcomeIn, WelcomeStep,
};
use crate::incoming::{
    independent_action, DecideNext, DecidedStep, LeaveGroup, MergeStaged, PostUpdateActions,
    PostUpdateStep, ProcessMessage, ProcessedStep, ProtocolOutcome, ProtocolStep,
};
use crate::law_terms::{is_fresh, only_group_changed, time_under};
use crate::mls::{
    MessageDecryptionError, MlsState, NextAction, ProcessFailure, ProcessMessageError,
    ProcessedMessage, ProtocolMessage, ValidationError,
};
use crate::conversation::ConversationMessage;
use crate::profiling::Profiler;
use crate::record::ActionRecord;
use crate::services::OrchestratorCommit;
use crate::user::User;
use vstd::prelude::*;
use vstd::utf8::*;

verus! {

/// A message is not processed, leaves no record and asks for nothing more.
pub open spec fn comes_to_nothing(outcome: ProtocolOutcome) -> bool {
    &&& outcome.record is None
    &&& outcome.post_update == PostUpdateActions::Nothing
    &&& outcome.group_id is None
}

/// Whatever it holds, a message of a group's epoch or an earlier one goes to the engine,
/// with its sender, the epoch of the group and its own, and the user stays as it was.
pub proof fn messages_up_to_the_epoch_are_processed(
    before: User,
    after: User,
    prof: Option<Profiler>,
    message: ProtocolMessage,
    sender: String,
    timestamp: i64,
    step: ProtocolStep,
)
    requires
        exists|u: &mut User, p: &mut Option<Profiler>|
            *u == before && *final(u) == after && *final(p) == prof && #[trigger] call_ensures(
                User::process_protocol_message,
                (u, p, &message, sender, timestamp),
                step,
            ),
        before.groups@.contains_key(decode_utf8(message.group_id@)),
        message.epoch <= before.groups@[decode_utf8(message.group_id@)].mls_group.epoch,
    ensures
        after == before,
        is_fresh(prof),
        step matches ProtocolStep::Process(process) && {
            &&& process.group_name@ == decode_utf8(message.group_id@)
            &&& process.sender == sender
            &&& process.group_epoch == before.groups@[process.group_name@].mls_group.epoch
            &&& process.epoch_change.epoch == message.epoch
            &&& process.epoch_change.timestamp == timestamp
        },
{
}

/// A message of a group that the user is not in changes nothing and comes to nothing, and so
/// does any message of a later epoch that is not a commit.
pub proof fn foreign_and_early_messages_come_to_nothing(
    before: User,
    after: User,
    message: ProtocolMessage,
    sender: String,
    timestamp: i64,
    step: ProtocolStep,
)
    requires
        exists|u: &mut User, p: &mut Option<Profiler>|
            *u == before && *final(u) == after && #[trigger] call_ensures(
                User::process_protocol_message,
                (u, p, &message, sender, timestamp),
                step,
            ),
        !before.groups@.contains_key(decode_utf8(message.group_id@)) || (message.epoch
            > before.groups@[decode_utf8(message.group_id@)].mls_group.epoch && (
        message.content_type is Application || message.content_type is Proposal)),
    ensures
        after == before,
        step matches ProtocolStep::Done(outcome) && comes_to_nothing(outcome),
{
}

/// A commit of a later epoch puts the user out of step with the group and the next epoch
/// down, and changes nothing else. It is logged under its sender in that next epoch if the
/// user was in step before or waited for just this commit; if it waited for another one,
/// the commit comes to nothing.
pub proof fn early_commits_put_the_user_out_of_step(
    before: User,
    after: User,
    message: ProtocolMessage,
    sender: String,
    timestamp: i64,
    step: ProtocolStep,
)
    requires
        exists|u: &mut User, p: &mut Option<Profiler>|
            *u == before && *final(u) == after && #[trigger] call_ensures(
                User::process_protocol_message,
                (u, p, &message, sender, timestamp),
                step,
            ),
        before.groups@.contains_key(decode_utf8(message.group_id@)),
        before.groups@[decode_utf8(message.group_id@)].mls_group.epoch < message.epoch < u64::MAX,
        message.content_type is Commit,
    ensures
        ({
            let name = decode_utf8(message.group_id@);
            let (in_step, awaited) = before.active@[name];
            &&& after == (User { active: after.active, ..before })
            &&& after.active@.dom() == before.active@.dom().insert(name)
            &&& !after.active@[name].0
            &&& after.active@[name].1 == message.epoch + 1
            &&& forall|other: Seq<char>|
                other != name && before.active@.contains_key(other)
                    ==> #[trigger] after.active@[other] == before.active@[other]
            &&& before.active@.contains_key(name) ==> (step matches ProtocolStep::Done(outcome) && {
                &&& outcome.post_update == PostUpdateActions::Nothing
                &&& outcome.group_id is None
                &&& outcome.record is Some <==> in_step || awaited == message.epoch
                &&& outcome.record matches Some(record) ==> {
                    &&& record.group_name@ == name
                    &&& record.action == CGKAAction::Process(sender)
                    &&& record.epoch_change.epoch == message.epoch + 1
                    &&& record.epoch_change.timestamp == timestamp
                    &&& record.elapsed_time == 0
                    &&& record.num_users == 0
                }
            })
            &&& !before.active@.contains_key(name) ==> (step matches ProtocolStep::Process(process)
                && {
                &&& process.group_name@ == name
                &&& process.sender == sender
                &&& process.group_epoch == before.groups@[name].mls_group.epoch
                &&& process.epoch_change.epoch == message.epoch + 1
                &&& process.epoch_change.timestamp == timestamp
            })
        }),
{
}

/// A message that the engine cannot process comes to nothing after a race between commits:
/// with a wrong epoch, a signature that is not valid, or a decryption that fails or is out
/// of bounds. After any other failure it is an error with the engine's text.
pub proof fn races_are_forgiven(
    before: User,
    after: User,
    process: ProcessMessage,
    e: ProcessMessageError,
    r: Result<ProcessedStep, String>,
)
    requires
        exists|u: &mut User|
            *u == before && *final(u) == after && #[trigger] call_ensures(
                User::message_processed,
                (u, process, Err(e)),
                r,
            ),
    ensures
        after == before,
        match e.failure {
            ProcessFailure::Other => r == Err::<ProcessedStep, String>(e.text),
            ProcessFailure::ValidationError(ValidationError::Other) => r == Err::<
                ProcessedStep,
                String,
            >(e.text),
            ProcessFailure::ValidationError(
                ValidationError::UnableToDecrypt(MessageDecryptionError::Other),
            ) => r == Err::<ProcessedStep, String>(e.text),
            _ => r matches Ok(ProcessedStep::Done(outcome)) && comes_to_nothing(outcome),
        },
{
}

/// An application message is appended to the conversation of its group, behind all that was
/// there, and changes nothing else.
pub proof fn application_messages_join_the_conversation(
    before: User,
    after: User,
    process: ProcessMessage,
    message: ProcessedMessage,
    r: Result<ProcessedStep, String>,
)
    requires
        exists|u: &mut User|
            *u == before && *final(u) == after && #[trigger] call_ensures(
                User::message_processed,
                (u, process, Ok(message)),
                r,
            ),
        message.content is ApplicationMessage,
        before.groups@.contains_key(process.group_name@),
    ensures
        only_group_changed(before, after, process.group_name@),
        after.groups@[process.group_name@].mls_group
            == before.groups@[process.group_name@].mls_group,
        after.groups@[process.group_name@].group_name
            == before.groups@[process.group_name@].group_name,
        ({
            let (now, was) = (
                after.groups@[process.group_name@].conversation.messages@,
                before.groups@[process.group_name@].conversation.messages@,
            );
            &&& now == was.push(now.last())
            &&& now.last().message@ == decode_utf8(message.content->ApplicationMessage_0@)
            &&& now.last().author@ == decode_utf8(message.sender@)
        }),
        r matches Ok(ProcessedStep::Done(outcome)) && comes_to_nothing(outcome),
{
    let (now, was) = (
        after.groups@[process.group_name@].conversation.messages@,
        before.groups@[process.group_name@].conversation.messages@,
    );
    assert(now =~= was.push(now.last()));
}

/// What is read of a conversation is its end: all of it up to a hundred messages, of a
/// longer one the last hundred.
pub proof fn conversations_are_read_from_their_end(
    user: User,
    group_name: String,
    r: Result<Option<Vec<ConversationMessage>>, String>,
)
    requires
        call_ensures(User::read_msgs, (&user, &group_name), r),
    ensures
        user.groups@.contains_key(group_name@) ==> (r matches Ok(Some(messages)) && {
            let all = user.groups@[group_name@].conversation.messages@;
            &&& all.len() <= 100 ==> messages@ == all
            &&& all.len() > 100 ==> messages@.len() == 100
            &&& forall|i: int|
                0 <= i < messages@.len() ==> #[trigger] messages@[i] == all[all.len()
                    - messages@.len() + i]
        }),
        !user.groups@.contains_key(group_name@) ==> (r matches Err(e) && e@ == "Unknown group"@),
{
}

proof fn conversations_grow(
    users: Seq<User>,
    process: Seq<ProcessMessage>,
    messages: Seq<ProcessedMessage>,
    group_name: Seq<char>,
    r: Seq<Result<ProcessedStep, String>>,
    n: int,
)
    requires
        0 <= n <= process.len(),
        users.len() == process.len() + 1,
        messages.len() == process.len(),
        r.len() == process.len(),
        users[0].groups@.contains_key(group_name),
        forall|i: int|
            0 <= i < process.len() ==> (#[trigger] process[i]).group_name@ == group_name
                && messages[i].content is ApplicationMessage && exists|u: &mut User|
                *u == users[i] && *final(u) == users[i + 1] && #[trigger] call_ensures(
                    User::message_processed,
                    (u, process[i], Ok(messages[i])),
                    r[i],
                ),
    ensures
        users[n].groups@.contains_key(group_name),
        ({
            let was = users[0].groups@[group_name].conversation.messages@;
            let now = users[n].groups@[group_name].conversation.messages@;
            &&& now.len() == was.len() + n
            &&& forall|i: int| 0 <= i < was.len() ==> #[trigger] now[i] == was[i]
            &&& forall|i: int|
                was.len() <= i < now.len() ==> (#[trigger] now[i]).message@ == decode_utf8(
                    messages[i - was.len()].content->ApplicationMessage_0@,
                ) && now[i].author@ == decode_utf8(messages[i - was.len()].sender@)
        }),
    decreases n,
{
    if n > 0 {
        conversations_grow(users, process, messages, group_name, r, n - 1);
        assert(process[n - 1].group_name@ == group_name);
        application_messages_join_the_conversation(
            users[n - 1],
            users[n],
            process[n - 1],
            messages[n - 1],
            r[n - 1],
        );
        let mid = users[n - 1].groups@[group_name].conversation.messages@;
        let now = users[n].groups@[group_name].conversation.messages@;
        assert(now == mid.push(now.last()));
        assert(forall|i: int| 0 <= i < mid.len() ==> #[trigger] now[i] == mid[i]);
    }
}

/// The conversation of a group after a list of application messages were processed in it, one
/// after the other, is the former one followed by them, each with its text and its author;
/// reading it gives the last hundred of these.
pub proof fn application_messages_are_kept_in_order(
    users: Seq<User>,
    process: Seq<ProcessMessage>,
    messages: Seq<ProcessedMessage>,
    group_name: String,
    r: Seq<Result<ProcessedStep, String>>,
    read: Result<Option<Vec<ConversationMessage>>, String>,
)
    requires
        users.len() == process.len() + 1,
        messages.len() == process.len(),
        r.len() == process.len(),
        users[0].groups@.contains_key(group_name@),
        forall|i: int|
            0 <= i < process.len() ==> (#[trigger] process[i]).group_name@ == group_name@
                && messages[i].content is ApplicationMessage && exists|u: &mut User|
                *u == users[i] && *final(u) == users[i + 1] && #[trigger] call_ensures(
                    User::message_processed,
                    (u, process[i], Ok(messages[i])),
                    r[i],
                ),
        call_ensures(User::read_msgs, (&users.last(), &group_name), read),
    ensures
        ({
            let was = users[0].groups@[group_name@].conversation.messages@;
            let n = was.len() + process.len();
            &&& read matches Ok(Some(given))
            &&& given@.len() == if n <= 100 {
                n
            } else {
                100
            }
            &&& forall|k: int|
                0 <= k < given@.len() ==> {
                    let i = n - given@.len() + k;
                    if i < was.len() {
                        #[trigger] given@[k] == was[i]
                    } else {
                        given@[k].message@ == decode_utf8(
                            messages[i - was.len()].content->ApplicationMessage_0@,
                        ) && given@[k].author@ == decode_utf8(messages[i - was.len()].sender@)
                    }
                }
        }),
{
    let n = 0int + process.len();
    conversations_grow(users, process, messages, group_name@, r, n);
    conversations_are_read_from_their_end(users[n], group_name, read);
    let now = users[n].groups@[group_name@].conversation.messages@;
    let given = read->Ok_0->Some_0@;
    assert(forall|k: int|
        0 <= k < given.len() ==> #[trigger] given[k] == now[now.len() - given.len() + k]);
}

/// A proposal is handed to the engine to be stored, and one by someone outside the group
/// comes to nothing; neither changes the user.
pub proof fn proposals_are_to_be_stored(
    before: User,
    after: User,
    process: ProcessMessage,
    message: ProcessedMessage,
    r: Result<ProcessedStep, String>,
)
    requires
        exists|u: &mut User|
            *u == before && *final(u) == after && #[trigger] call_ensures(
                User::message_processed,
                (u, process, Ok(message)),
                r,
            ),
        message.content is ProposalMessage || message.content is ExternalJoinProposalMessage,
    ensures
        after == before,
        message.content is ProposalMessage ==> (r matches Ok(ProcessedStep::StoreProposal(p)) && p
            == process),
        message.content is ExternalJoinProposalMessage ==> (r matches Ok(
            ProcessedStep::Done(outcome),
        ) && comes_to_nothing(outcome)),
{
}

/// A proposal that the engine has stored is recorded under its proposer with the members of
/// the group, which takes over the engine's state and keeps all else; one that could not be
/// stored changes nothing and is an error.
pub proof fn stored_proposals_are_recorded(
    before: User,
    after: User,
    process: ProcessMessage,
    reply: Result<MlsState, String>,
    elapsed: u128,
    r: Result<ProtocolOutcome, String>,
)
    requires
        exists|u: &mut User|
            *u == before && *final(u) == after && #[trigger] call_ensures(
                User::proposal_stored,
                (u, process, reply, elapsed),
                r,
            ),
        before.groups@.contains_key(process.group_name@),
    ensures
        reply matches Ok(state) ==> {
            &&& only_group_changed(before, after, process.group_name@)
            &&& after.groups@[process.group_name@].mls_group == state
            &&& after.groups@[process.group_name@].conversation
                == before.groups@[process.group_name@].conversation
            &&& after.groups@[process.group_name@].group_name
                == before.groups@[process.group_name@].group_name
            &&& r matches Ok(outcome) && {
                &&& outcome.post_update == PostUpdateActions::Nothing
                &&& outcome.group_id is None
                &&& outcome.record matches Some(record) && {
                    &&& record.group_name@ == process.group_name@
                    &&& record.action == CGKAAction::StoreProp(process.sender)
                    &&& record.epoch_change == process.epoch_change
                    &&& record.elapsed_time == elapsed
                    &&& record.num_users == state.members@.len()
                }
            }
        },
        reply matches Err(e) ==> after == before && (r matches Err(text) && text@
            == "Error storing proposal: "@ + e@),
{
}

/// A proposal of another member in the group's own epoch that the engine reads and stores
/// ends in one record, under the member who sent it, in that epoch, and its group has the
/// state in which the proposal waits.
pub proof fn proposals_of_others_are_stored(
    users: Seq<User>,
    prof: Option<Profiler>,
    message: ProtocolMessage,
    sender: String,
    timestamp: i64,
    begun: ProtocolStep,
    message_read: ProcessedMessage,
    read: Result<ProcessedStep, String>,
    process: ProcessMessage,
    state: MlsState,
    elapsed: u128,
    r: Result<ProtocolOutcome, String>,
)
    requires
        users.len() == 4,
        users[0].groups@.contains_key(decode_utf8(message.group_id@)),
        message.epoch == users[0].groups@[decode_utf8(message.group_id@)].mls_group.epoch,
        exists|u: &mut User, p: &mut Option<Profiler>|
            *u == users[0] && *final(u) == users[1] && *final(p) == prof && #[trigger] call_ensures(
                User::process_protocol_message,
                (u, p, &message, sender, timestamp),
                begun,
            ),
        begun matches ProtocolStep::Process(p) ==> p == process,
        exists|u: &mut User|
            *u == users[1] && *final(u) == users[2] && #[trigger] call_ensures(
                User::message_processed,
                (u, process, Ok(message_read)),
                read,
            ),
        message_read.content is ProposalMessage,
        exists|u: &mut User|
            *u == users[2] && *final(u) == users[3] && #[trigger] call_ensures(
                User::proposal_stored,
                (u, process, Ok(state), elapsed),
                r,
            ),
    ensures
        begun is Process,
        read matches Ok(ProcessedStep::StoreProposal(p)) && p == process,
        users[3].groups@.dom() == users[0].groups@.dom(),
        users[3].groups@[decode_utf8(message.group_id@)].mls_group == state,
        r matches Ok(outcome) && (outcome.record matches Some(record) && {
            &&& record.action == CGKAAction::StoreProp(sender)
            &&& record.epoch_change.epoch == message.epoch
            &&& record.epoch_change.timestamp == timestamp
        }),
{
    messages_up_to_the_epoch_are_processed(
        users[0],
        users[1],
        prof,
        message,
        sender,
        timestamp,
        begun,
    );
    proposals_are_to_be_stored(users[1], users[2], process, message_read, read);
    stored_proposals_are_recorded(users[2], users[3], process, Ok(state), elapsed, r);
    assert(users[3].groups@.dom() =~= users[0].groups@.dom());
}

/// A commit that the engine has read is to be merged. It brings the names of the added
/// clients and of the removed members, both in its order, and the number of members before
/// it; the user stays as it was.
pub proof fn commits_are_to_be_merged(
    before: User,
    after: User,
    process: ProcessMessage,
    message: ProcessedMessage,
    r: Result<ProcessedStep, String>,
)
    requires
        exists|u: &mut User|
            *u == before && *final(u) == after && #[trigger] call_ensures(
                User::message_processed,
                (u, process, Ok(message)),
                r,
            ),
        before.groups@.contains_key(process.group_name@),
        message.content is StagedCommitMessage,
    ensures
        after == before,
        ({
            let commit = message.content->StagedCommitMessage_0;
            let members = before.groups@[process.group_name@].mls_group.members@;
            &&& r matches Ok(ProcessedStep::Merge(merge))
            &&& merge.process == process
            &&& merge.new_members@.len() == commit.added@.len()
            &&& forall|i: int|
                0 <= i < commit.added@.len() ==> (#[trigger] merge.new_members@[i])@ == decode_utf8(
                    commit.added@[i]@,
                )
            &&& merge.removed_members@.len() == commit.removed@.len()
            &&& forall|i: int, j: int|
                0 <= i < commit.removed@.len() && 0 <= j < members.len() && members[j].index
                    == commit.removed@[i] && (forall|k: int|
                    0 <= k < j ==> (#[trigger] members[k]).index != commit.removed@[i]) ==> (
                #[trigger] merge.removed_members@[i])@ == decode_utf8(
                    (#[trigger] members[j]).identity@,
                )
            &&& merge.num_group_members == members.len()
            &&& merge.transcript_hash == commit.transcript_hash
            &&& merge.self_removed == commit.self_removed
        }),
{
    let commit = message.content->StagedCommitMessage_0;
    let members = before.groups@[process.group_name@].mls_group.members@;
    let merge = r->Ok_0->Merge_0;
    assert forall|i: int| 0 <= i < commit.added@.len() implies (
    #[trigger] merge.new_members@[i])@ == decode_utf8(commit.added@[i]@) by {
        let names = merge.new_members@.map_values(|s: String| s@);
        let added = commit.added@.map_values(|b: Vec<u8>| b@);
        assert(names == added.map_values(|b: Seq<u8>| decode_utf8(b)));
        assert(names[i] == decode_utf8(added[i]));
    }
    assert(merge.new_members@.map_values(|s: String| s@).len() == merge.new_members@.len());
    assert(merge.removed_members@.map_values(|s: String| s@).len() == merge.removed_members@.len());
    assert forall|i: int, j: int|
        0 <= i < commit.removed@.len() && 0 <= j < members.len() && members[j].index
            == commit.removed@[i] && (forall|k: int|
            0 <= k < j ==> (#[trigger] members[k]).index != commit.removed@[i]) implies (
    #[trigger] merge.removed_members@[i])@ == decode_utf8((#[trigger] members[j]).identity@) by {
        crate::contact_laws::first_with_leaf(members, commit.removed@[i], j);
        let names = merge.removed_members@.map_values(|s: String| s@);
        assert(names[i] == merge.removed_members@[i]@);
    }
}

/// A merged commit of another member gives its group the engine's state and keeps all else.
/// The orchestrator of an orchestrated user is told who came and who left and how many are
/// in the group then; an independent user tells no one.
pub proof fn merged_commits_change_the_group(
    before: User,
    after: User,
    merge: MergeStaged,
    state: MlsState,
    r: Result<(DecideNext, Option<OrchestratorCommit>), String>,
)
    requires
        exists|u: &mut User|
            *u == before && *final(u) == after && #[trigger] call_ensures(
                User::staged_commit_merged,
                (u, merge, Ok(state)),
                r,
            ),
        before.groups@.contains_key(merge.process.group_name@),
    ensures
        only_group_changed(before, after, merge.process.group_name@),
        after.groups@[merge.process.group_name@].mls_group == state,
        after.groups@[merge.process.group_name@].conversation
            == before.groups@[merge.process.group_name@].conversation,
        after.groups@[merge.process.group_name@].group_name
            == before.groups@[merge.process.group_name@].group_name,
        r matches Ok((decide, call)) && {
            &&& decide.process == merge.process
            &&& decide.self_removed == merge.self_removed
            &&& call is Some <==> before.agent_type is Orchestrator
            &&& call matches Some(c) ==> {
                &&& c.group_name@ == merge.process.group_name@
                &&& c.new_members@ == merge.new_members@
                &&& c.removed_members@ == merge.removed_members@
                &&& c.transcript_hash@ == merge.transcript_hash@
                &&& c.total_members + merge.removed_members@.len() == merge.num_group_members
                    + merge.new_members@.len()
            }
        },
{
}

/// A commit that the engine cannot merge changes nothing and is an error.
pub proof fn unmerged_commits_change_nothing(
    before: User,
    after: User,
    merge: MergeStaged,
    e: String,
    r: Result<(DecideNext, Option<OrchestratorCommit>), String>,
)
    requires
        exists|u: &mut User|
            *u == before && *final(u) == after && #[trigger] call_ensures(
                User::staged_commit_merged,
                (u, merge, Err(e)),
                r,
            ),
    ensures
        after == before,
        r matches Err(text) && text@ == "Error merging commit: "@ + e@,
{
}

/// An independent user draws lots: it goes inactive or listens, and never commits on that.
pub proof fn lots_are_drawn(inactive: bool, r: NextAction)
    requires
        call_ensures(independent_action, (inactive,), r),
    ensures
        inactive ==> r is Inactive,
        !inactive ==> r is Listen,
{
}

/// After a merged commit, a user who was removed by it or goes inactive is to leave the
/// group. Its record names the sender, the epoch after that of the group and the time until
/// now; no one is told, and the profile goes on.
pub proof fn removed_and_inactive_users_are_to_leave(
    user: User,
    prof: Option<Profiler>,
    prof_after: Option<Profiler>,
    decide: DecideNext,
    next_action: NextAction,
    elapsed: u128,
    elapsed_now: u128,
    step: DecidedStep,
)
    requires
        exists|p: &mut Option<Profiler>|
            *p == prof && *final(p) == prof_after && #[trigger] call_ensures(
                User::staged_commit_decided,
                (&user, p, decide, next_action, elapsed, elapsed_now),
                step,
            ),
        user.groups@.contains_key(decide.process.group_name@),
        decide.process.group_epoch < u64::MAX,
        decide.self_removed || next_action is Inactive,
    ensures
        prof_after == prof,
        step.notify is None,
        step.outcome.post_update == PostUpdateActions::Remove,
        step.outcome.group_id matches Some(id) && id@
            == user.groups@[decide.process.group_name@].mls_group.group_id@,
        step.outcome.record matches Some(record) && {
            &&& record.group_name@ == decide.process.group_name@
            &&& record.action == CGKAAction::Process(decide.process.sender)
            &&& record.epoch_change.epoch == decide.process.group_epoch + 1
            &&& record.epoch_change.timestamp == decide.process.epoch_change.timestamp
            &&& record.elapsed_time == elapsed_now
            &&& record.num_users
                == user.groups@[decide.process.group_name@].mls_group.members@.len()
        },
{
}

/// After a merged commit, a user who stays logs it under its sender, in the epoch after the
/// commit's and with the time up to the merge. Every time in the record is the one that the
/// profile holds under its name, and a new profile begins. The agent is told exactly if it
/// is the user's turn to commit.
pub proof fn followed_commits_are_recorded_with_their_times(
    user: User,
    prof: Option<Profiler>,
    prof_after: Option<Profiler>,
    decide: DecideNext,
    next_action: NextAction,
    elapsed: u128,
    elapsed_now: u128,
    step: DecidedStep,
)
    requires
        exists|p: &mut Option<Profiler>|
            *p == prof && *final(p) == prof_after && #[trigger] call_ensures(
                User::staged_commit_decided,
                (&user, p, decide, next_action, elapsed, elapsed_now),
                step,
            ),
        user.groups@.contains_key(decide.process.group_name@),
        decide.process.epoch_change.epoch < u64::MAX,
        !decide.self_removed,
        !(next_action is Inactive),
    ensures
        is_fresh(prof_after),
        step.notify is Some <==> next_action is Commit,
        step.notify matches Some(msg) ==> msg@ == decide.process.group_name@,
        step.outcome.post_update == PostUpdateActions::Nothing,
        step.outcome.group_id is None,
        step.outcome.record matches Some(record) && {
            &&& record.group_name@ == decide.process.group_name@
            &&& record.epoch_change.epoch == decide.process.epoch_change.epoch + 1
            &&& record.epoch_change.timestamp == decide.process.epoch_change.timestamp
            &&& record.elapsed_time == elapsed
            &&& record.num_users
                == user.groups@[decide.process.group_name@].mls_group.members@.len()
            &&& record.action matches CGKAAction::DeepProcess(sender, crypto, merge) && {
                &&& sender == decide.process.sender
                &&& crypto.total == time_under(prof, "total"@)
                &&& crypto.decrypt == time_under(prof, "decrypt"@)
                &&& crypto.verify == time_under(prof, "verify"@)
                &&& crypto.validation == time_under(prof, "validation"@)
                &&& crypto.apply_proposals == time_under(prof, "apply_proposals"@)
                &&& crypto.tree == time_under(prof, "tree"@)
                &&& crypto.path == time_under(prof, "path"@)
                &&& crypto.tree_hash == time_under(prof, "tree_hash"@)
                &&& crypto.parent_hash == time_under(prof, "parent_hash"@)
                &&& crypto.decrypt_path == time_under(prof, "decrypt_path"@)
                &&& crypto.schedule == time_under(prof, "schedule"@)
                &&& merge.total == time_under(prof, "merge_total"@)
                &&& merge.merge == time_under(prof, "merge"@)
                &&& merge.storage == time_under(prof, "merge_storage"@)
            }
        },
{
}

/// What comes of a followed commit is handed on unless the agent could not be told.
pub proof fn unannounced_commits_are_errors(
    user: User,
    step: DecidedStep,
    agent_reply: Result<(), String>,
    r: Result<ProtocolOutcome, String>,
)
    requires
        call_ensures(User::staged_commit_announced, (&user, step, agent_reply), r),
    ensures
        agent_reply is Ok ==> (r matches Ok(outcome) && outcome == step.outcome),
        agent_reply matches Err(e) ==> (r matches Err(text) && text == e),
{
}

/// A message after which nothing is to be done leaves the user as it was, and its record is
/// handed on. A user who is to leave a group has no records waiting any more: the text that
/// is to be written is what flushing the log yields. The subscription to the group is to end
/// where there is a broker; without a group it is an error.
pub proof fn leaving_begins_with_the_log(
    before: User,
    after: User,
    flushed: User,
    outcome: ProtocolOutcome,
    step: PostUpdateStep,
    written: String,
)
    requires
        exists|u: &mut User|
            *u == before && *final(u) == after && #[trigger] call_ensures(
                User::post_update,
                (u, outcome),
                step,
            ),
        exists|u: &mut User|
            *u == before && *final(u) == flushed && #[trigger] call_ensures(
                User::flush_logs,
                (u,),
                written,
            ),
    ensures
        outcome.post_update is Nothing ==> after == before && (step matches PostUpdateStep::Done(
            record,
        ) && record == outcome.record),
        outcome.post_update is Remove ==> {
            &&& after == (User { file_buffer: after.file_buffer, ..before })
            &&& after.file_buffer@.len() == 0
            &&& step matches PostUpdateStep::Leave { log, leave } && {
                &&& log@ == written@
                &&& leave is Ok <==> outcome.group_id is Some
                &&& leave matches Err(e) ==> e@
                    == "update::Error post update remove must have a group id"@
                &&& leave matches Ok(l) ==> {
                    &&& l.group_name@ == decode_utf8(outcome.group_id->Some_0@)
                    &&& l.record == outcome.record
                    &&& l.unsubscribe is None <==> before.ds is Request
                    &&& l.unsubscribe matches Some(call) ==> (call matches BrokerCall::Unsubscribe(
                        name,
                    ) && name@ == l.group_name@)
                }
            }
        },
{
}

/// A group is left once the subscription has ended: the user is not in it any more, in all
/// its other groups it still is, and the record is handed on. Where the subscription could
/// not be ended, the user stays and it is an error.
pub proof fn left_groups_are_gone(
    before: User,
    after: User,
    leave: LeaveGroup,
    reply: Result<(), String>,
    r: Result<Option<ActionRecord>, String>,
)
    requires
        exists|u: &mut User|
            *u == before && *final(u) == after && #[trigger] call_ensures(
                User::group_left,
                (u, leave, reply),
                r,
            ),
    ensures
        reply is Ok ==> {
            &&& after == (User { groups: after.groups, ..before })
            &&& !after.groups@.contains_key(leave.group_name@)
            &&& forall|name: Seq<char>|
                name != leave.group_name@ ==> (#[trigger] after.groups@.contains_key(name)
                    <==> before.groups@.contains_key(name))
            &&& forall|name: Seq<char>|
                after.groups@.contains_key(name) ==> #[trigger] after.groups@[name]
                    == before.groups@[name]
            &&& r matches Ok(record) && record == leave.record
        },
        reply matches Err(e) ==> after == before && (r matches Err(text) && text@
            == "Error unsubscribing: "@ + e@),
{
}

/// A message that the user has sent itself is there to confirm the commit of its group; a
/// welcome of anyone else is to be followed, if a tree comes with it, and any other message
/// is to be processed. Who sent it, and all that came with a welcome, is handed on.
pub proof fn messages_are_sorted(user: User, message: MessageIn, r: Result<InMessageStep, String>)
    requires
        call_ensures(User::process_in_message, (&user, message), r),
        !(message.msg is Other),
        decode_utf8(message.sender@) == user.username@ ==> !(message.msg is Welcome),
    ensures
        decode_utf8(message.sender@) == user.username@ ==> (r matches Ok(
            InMessageStep::Confirm(name),
        ) && match message.msg {
            MessageBody::PrivateMessage(m) => name@ == decode_utf8(m.group_id@),
            MessageBody::PublicMessage(m) => name@ == decode_utf8(m.group_id@),
            _ => true,
        }),
        decode_utf8(message.sender@) != user.username@ ==> match message.msg {
            MessageBody::Welcome(welcome) => {
                &&& message.ratchet_tree is None ==> (r matches Err(e) && e@
                    == "Welcome message must have ratchet tree"@)
                &&& message.ratchet_tree matches Some(tree) ==> (r matches Ok(
                    InMessageStep::Join(w),
                ) && {
                    &&& w.sender@ == decode_utf8(message.sender@)
                    &&& w.welcome == welcome
                    &&& w.ratchet_tree == tree
                    &&& w.welcome_size == message.msg_size + tree@.len()
                    &&& w.recipients == message.recipients
                    &&& w.active_members == message.active_members
                })
            },
            MessageBody::PrivateMessage(m) => r matches Ok(InMessageStep::Process(p, s)) && p == m
                && s@ == decode_utf8(message.sender@),
            MessageBody::PublicMessage(m) => r matches Ok(InMessageStep::Process(p, s)) && p == m
                && s@ == decode_utf8(message.sender@),
            MessageBody::Other => true,
        },
{
}

/// A welcome uses up the key packages that it is encrypted to and no others.
pub proof fn welcomes_use_up_key_packages(before: User, after: User, welcome: Welcome)
    requires
        exists|u: &mut User|
            *u == before && *final(u) == after && #[trigger] call_ensures(
                User::join_group,
                (u, &welcome),
                (),
            ),
    ensures
        after == (User { key_packages: after.key_packages, ..before }),
        forall|i: int|
            0 <= i < welcome.new_members@.len() ==> !after.key_packages@.contains_key(
                (#[trigger] welcome.new_members@[i])@,
            ),
        forall|h: Seq<u8>|
            before.key_packages@.contains_key(h) && (forall|i: int|
                0 <= i < welcome.new_members@.len() ==> (#[trigger] welcome.new_members@[i])@ != h)
                ==> #[trigger] after.key_packages@.contains_key(h) && after.key_packages@[h]
                == before.key_packages@[h],
        forall|h: Seq<u8>| #[trigger]
            after.key_packages@.contains_key(h) ==> before.key_packages@.contains_key(h),
{
    let hashes = welcome.new_members@.map_values(|b: Vec<u8>| b@);
    assert forall|i: int| 0 <= i < welcome.new_members@.len() implies !after.key_packages@.contains_key(
        (#[trigger] welcome.new_members@[i])@,
    ) by {
        assert(hashes[i] == welcome.new_members@[i]@);
        assert(hashes.contains(welcome.new_members@[i]@));
    }
    assert forall|h: Seq<u8>|
        before.key_packages@.contains_key(h) && (forall|i: int|
            0 <= i < welcome.new_members@.len() ==> (#[trigger] welcome.new_members@[i])@ != h) implies
            #[trigger] after.key_packages@.contains_key(h) && after.key_packages@[h]
            == before.key_packages@[h] by {
        if hashes.contains(h) {
            let i = hashes.index_of(h);
            assert(welcome.new_members@[i]@ == h);
        }
        assert(after.key_packages@.contains_key(h));
    }
}

/// A joined group is known under the name that its identifier spells, with the engine's state
/// and no messages; all else of the user stays. The additional data of the group are its
/// name with " AAD" behind it.
pub proof fn joined_groups_are_new(
    before: User,
    after: User,
    state: MlsState,
    elapsed: u128,
    timestamp: i64,
    r: Result<JoinedGroup, String>,
)
    requires
        exists|u: &mut User|
            *u == before && *final(u) == after && #[trigger] call_ensures(
                User::group_joined,
                (u, Ok(state), elapsed, timestamp),
                r,
            ),
    ensures
        ({
            let name = decode_utf8(state.group_id@);
            &&& only_group_changed(before, after, name)
            &&& after.groups@[name].group_name@ == name
            &&& after.groups@[name].mls_group == state
            &&& after.groups@[name].conversation.messages@.len() == 0
            &&& r matches Ok(joined) && {
                &&& joined.group_name@ == name
                &&& joined.epoch_change.epoch == state.epoch
                &&& joined.epoch_change.timestamp == timestamp
                &&& joined.elapsed_time == elapsed
                &&& joined.aad@ == encode_utf8(name + " AAD"@)
            }
        }),
{
}

/// A welcome that the engine cannot follow changes nothing and is an error that says where
/// it failed.
pub proof fn unfollowed_welcomes_change_nothing(
    before: User,
    after: User,
    e: JoinError,
    elapsed: u128,
    timestamp: i64,
    r: Result<JoinedGroup, String>,
)
    requires
        exists|u: &mut User|
            *u == before && *final(u) == after && #[trigger] call_ensures(
                User::group_joined,
                (u, Err(e), elapsed, timestamp),
                r,
            ),
    ensures
        after == before,
        r matches Err(text) && match e {
            JoinError::Staging(cause) => text@ == "Error staging Welcome: "@ + cause@,
            JoinError::Joining(cause) => text@ == "Error joining group: "@ + cause@,
        },
{
}

/// The additional data of a group are the encoding of its name with " AAD" behind it.
pub proof fn groups_have_additional_data(group_name: String, r: Vec<u8>)
    requires
        call_ensures(group_aad_bytes, (&group_name,), r),
    ensures
        r@ == encode_utf8(group_name@ + " AAD"@),
{
}

/// A user who has joined a group is in step with it, and a record says who welcomed it, how
/// large the welcome was and how many are in the group. An orchestrated user gets an
/// orchestrator that starts from the active members of the welcome and is told of its new
/// ones; an independent user gets none.
pub proof fn accepted_welcomes_put_the_user_in_step(
    before: User,
    after: User,
    w: WelcomeIn,
    joined: JoinedGroup,
    r: AcceptedWelcome,
)
    requires
        exists|u: &mut User|
            *u == before && *final(u) == after && #[trigger] call_ensures(
                User::welcome_accepted,
                (u, w, joined),
                r,
            ),
        before.groups@.contains_key(joined.group_name@),
    ensures
        after == (User { active: after.active, ..before }),
        after.active@ == before.active@.insert(joined.group_name@, (true, 0)),
        r.group_name@ == joined.group_name@,
        r.record.group_name@ == joined.group_name@,
        r.record.action == CGKAAction::Welcome(w.sender, w.welcome_size),
        r.record.epoch_change == joined.epoch_change,
        r.record.elapsed_time == joined.elapsed_time,
        r.record.num_users == before.groups@[joined.group_name@].mls_group.members@.len(),
        r.orchestrator is Some <==> before.agent_type is Orchestrator,
        r.orchestrator matches Some(o) ==> {
            let state = before.groups@[joined.group_name@].mls_group;
            &&& o.active_members@.len() == w.active_members->Some_0@.len()
            &&& forall|i: int|
                0 <= i < o.active_members@.len() ==> (#[trigger] o.active_members@[i])@
                    == decode_utf8(w.active_members->Some_0@[i]@)
            &&& o.commit.group_name@ == joined.group_name@
            &&& o.commit.removed_members@.len() == 0
            &&& o.commit.new_members@.len() == w.recipients@.len()
            &&& forall|i: int|
                0 <= i < w.recipients@.len() ==> (#[trigger] o.commit.new_members@[i])@
                    == decode_utf8(w.recipients@[i]@)
            &&& o.commit.total_members == state.members@.len()
            &&& o.commit.transcript_hash@ == state.transcript_hash@
        },
{
    if before.agent_type is Orchestrator {
        let o = r.orchestrator->Some_0;
        let active = w.active_members->Some_0@.map_values(|b: Vec<u8>| b@);
        let recipients = w.recipients@.map_values(|b: Vec<u8>| b@);
        let a = o.active_members@.map_values(|s: String| s@);
        let n = o.commit.new_members@.map_values(|s: String| s@);
        assert(a.len() == active.len() && n.len() == recipients.len());
        assert forall|i: int| 0 <= i < o.active_members@.len() implies (
        #[trigger] o.active_members@[i])@ == decode_utf8(w.active_members->Some_0@[i]@) by {
            assert(a[i] == decode_utf8(active[i]));
        }
        assert forall|i: int| 0 <= i < w.recipients@.len() implies (
        #[trigger] o.commit.new_members@[i])@ == decode_utf8(w.recipients@[i]@) by {
            assert(n[i] == decode_utf8(recipients[i]));
        }
    }
}

/// A welcomed user who goes inactive leaves the group again, with an acknowledgement under
/// its name, and stays in its other groups. Any other stays as it is and subscribes where
/// there is a broker; its agent is told exactly if it is its turn.
pub proof fn welcomed_users_stay_or_acknowledge(
    before: User,
    after: User,
    group_name: String,
    next_action: NextAction,
    r: WelcomeStep,
)
    requires
        exists|u: &mut User|
            *u == before && *final(u) == after && #[trigger] call_ensures(
                User::welcome_decided,
                (u, group_name, next_action),
                r,
            ),
    ensures
        next_action is Inactive ==> {
            &&& after == (User { groups: after.groups, ..before })
            &&& !after.groups@.contains_key(group_name@)
            &&& forall|name: Seq<char>|
                name != group_name@ ==> (#[trigger] after.groups@.contains_key(name)
                    <==> before.groups@.contains_key(name))
            &&& forall|name: Seq<char>|
                after.groups@.contains_key(name) ==> #[trigger] after.groups@[name]
                    == before.groups@[name]
            &&& r.ack matches Some(ack) && ack.sender@ == before.username@ && ack.group@
                == group_name@
            &&& r.subscribe is None
            &&& r.notify is None
        },
        !(next_action is Inactive) ==> {
            &&& after == before
            &&& r.ack is None
            &&& r.subscribe is None <==> before.ds is Request
            &&& r.subscribe matches Some(call) ==> (call matches BrokerCall::Subscribe(name)
                && name@ == group_name@)
            &&& r.notify is Some <==> next_action is Commit
            &&& r.notify matches Some(msg) ==> msg@ == group_name@
        },
{
}

/// The record of a welcome is handed on if both the subscription and the agent's message, in
/// this order, did not fail; else the first error is.
pub proof fn first_failure_after_a_welcome_counts(
    user: User,
    record: ActionRecord,
    subscribe_reply: Result<(), String>,
    agent_reply: Result<(), String>,
    r: Result<Option<ActionRecord>, String>,
)
    requires
        call_ensures(User::welcome_followed, (&user, record, subscribe_reply, agent_reply), r),
    ensures
        subscribe_reply is Ok && agent_reply is Ok ==> (r matches Ok(Some(done)) && done == record),
        subscribe_reply matches Err(e) ==> (r matches Err(text) && text == e),
        subscribe_reply is Ok && agent_reply is Err ==> (r matches Err(text) && text
            == agent_reply->Err_0),
{
}

/// The user's own messages leave no record beside that of the commit they confirm.
pub proof fn own_messages_add_no_record(
    user: User,
    reply: Result<(), String>,
    r: Result<Option<ActionRecord>, String>,
)
    requires
        call_ensures(User::own_message_confirmed, (&user, reply), r),
    ensures
        reply is Ok ==> (r matches Ok(record) && record is None),
        reply matches Err(e) ==> (r matches Err(text) && text == e),
{
}

/// A group that is entered is known under its name, without messages; nothing else changes.
pub proof fn entered_groups_are_known(before: User, after: User, group_name: String, state: MlsState)
    requires
        exists|u: &mut User|
            *u == before && *final(u) == after && #[trigger] call_ensures(
                User::enter_group,
                (u, &group_name, state),
                (),
            ),
    ensures
        only_group_changed(before, after, group_name@),
        after.groups@[group_name@].group_name@ == group_name@,
        after.groups@[group_name@].mls_group == state,
        after.groups@[group_name@].conversation.messages@.len() == 0,
{
}

} // verus!
