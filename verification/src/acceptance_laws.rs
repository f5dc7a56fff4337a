//! Which inputs the operations accept: all for which they have an answer.
use crate::action::CGKAAction;
use crate::commits::{
    CommitSent, ConfirmCommit, ConfirmedCommit, MergedCommit, PublishCommit, SendCommit,
};
use crate::compute_path::{ComputePath, PathReply};
use crate::contact_laws::leaf_found_or_not;
use crate::delivery::{GroupInfoAndTree, WelcomeAcknowledgement};
use crate::inbox::{JoinError, JoinedGroup, MessageBody, MessageIn, Welcome, WelcomeIn};
use crate::incoming::{
    DecideNext, DecidedStep, LeaveGroup, MergeStaged, ProcessMessage, ProtocolOutcome,
};
use crate::law_terms::time_under;
use crate::membership::{AddBundle, AddedMember, CreateGroup, CreatedGroup, ExternalJoin, Invite};
use crate::mls::{
    identity_at, AuthorizationPolicy, CommitBundle, MlsState, NextAction, ProcessMessageError,
    ProcessedMessage, Proposal, ProtocolMessage,
};
use crate::path_laws::answers;
use crate::profiling::Profiler;
use crate::proposals::{committable, CommitPending, DropProposals, ProposalsDropped, ProposeAction};
use crate::record::ActionRecord;
use crate::services::{ClientInfo, OrchestratorReply};
use crate::user::{AgentType, Contact, Group, StoredWelcome, User};
use vstd::prelude::*;
use vstd::utf8::*;

verus! {

/// A message of any kind and epoch can be taken up, as long as its group has a name and the
/// epoch after that of an early commit can be counted.
pub proof fn messages_can_be_taken_up(
    user: User,
    message: ProtocolMessage,
    sender: String,
    timestamp: i64,
)
    requires
        valid_utf8(message.group_id@),
        message.epoch == u64::MAX && message.content_type is Commit && user.groups@.contains_key(
            decode_utf8(message.group_id@),
        ) ==> user.groups@[decode_utf8(message.group_id@)].mls_group.epoch == u64::MAX,
    ensures
        forall|u: &mut User, p: &mut Option<Profiler>|
            *u == user ==> #[trigger] call_requires(
                User::process_protocol_message,
                (u, p, &message, sender, timestamp),
            ),
{
}

/// Every failure of the engine to read a message of a group that the user is in can be gone on
/// with.
pub proof fn engine_failures_can_be_gone_on_with(
    user: User,
    process: ProcessMessage,
    e: ProcessMessageError,
)
    requires
        user.groups@.contains_key(process.group_name@),
    ensures
        forall|u: &mut User|
            *u == user ==> #[trigger] call_requires(User::message_processed, (u, process, Err(e))),
{
}

/// Application messages, proposals and stored proposals can be gone on with.
pub proof fn read_messages_can_be_gone_on_with(
    user: User,
    process: ProcessMessage,
    message: ProcessedMessage,
    reply: Result<MlsState, String>,
    elapsed: u128,
)
    requires
        user.groups@.contains_key(process.group_name@),
        valid_utf8(message.sender@),
        message.content is ApplicationMessage ==> valid_utf8(
            message.content->ApplicationMessage_0@,
        ),
        !(message.content is StagedCommitMessage),
    ensures
        forall|u: &mut User|
            *u == user ==> #[trigger] call_requires(
                User::message_processed,
                (u, process, Ok(message)),
            ),
        forall|u: &mut User|
            *u == user ==> #[trigger] call_requires(
                User::proposal_stored,
                (u, process, reply, elapsed),
            ),
{
}

/// In a group that the user is in, every proposable action can be proposed; in any other,
/// every action can be refused.
pub proof fn actions_can_be_proposed(user: User, action: CGKAAction, group_name: String)
    requires
        action is Update || action is Invite || action is Remove || !user.groups@.contains_key(
            group_name@,
        ),
    ensures
        call_requires(User::propose, (&user, action, group_name)),
{
}

/// What a user is asked by name it answers for every name.
pub proof fn names_can_be_asked_for(
    user: User,
    name: String,
    group_name: String,
    group: Group,
    state: MlsState,
    identity: Vec<u8>,
    index: u32,
    amount: usize,
)
    ensures
        call_requires(User::own_identity, (&user,)),
        call_requires(User::contact_named, (&user, &name)),
        call_requires(User::find_member_index, (&user, &name, &group)),
        call_requires(User::remove, (&user, &name, &group_name)),
        call_requires(MlsState::member_at, (&state, index)),
        call_requires(MlsState::leaf_with, (&state, &identity)),
        call_requires(User::mls_recipients, (&user, &state)),
        call_requires(User::recipients, (&user, &group)),
        call_requires(User::number_of_members, (&user, &group_name)),
        call_requires(User::not_members_of_group, (&user, &group_name)),
        call_requires(User::list_of_groups, (&user,)),
        call_requires(User::group_list, (&user,)),
        call_requires(User::read_msgs, (&user, &group_name)),
        call_requires(User::invalid_proposals, (&user, &group_name)),
        call_requires(User::pending_proposals, (&user, &group_name)),
        call_requires(User::commit_to_proposals, (&user, group_name, amount)),
        call_requires(User::update_state, (&user, &group_name)),
        call_requires(User::publish_group_info, (&user, &group_name)),
        call_requires(User::send_application_msg, (&user, &name, &group_name)),
        call_requires(User::create_group, (&user, &group_name)),
        call_requires(User::group_exists, (&user, group_name)),
        call_requires(User::get_group_info, (&user, group_name)),
        call_requires(User::subscribe, (&user, group_name)),
        call_requires(User::unsubscribe, (&user, group_name)),
        call_requires(User::subscribe_welcome, (&user,)),
        call_requires(User::register, (&user,)),
        call_requires(User::key_packages, (&user,)),
        call_requires(User::log_path, (&user,)),
{
}

/// Whether a user is authorised in a group can be asked under every policy, under that of the
/// last member if the group has members.
pub proof fn authorisation_can_be_asked_for(
    user: User,
    group_name: String,
    policy: AuthorizationPolicy,
)
    requires
        policy is Last ==> 0 < user.groups@[group_name@].mls_group.members@.len() <= u32::MAX,
    ensures
        call_requires(User::is_authorised, (&user, &group_name, policy)),
{
}

/// Contacts, clients, key packages, welcomes and records can be taken in at any time.
pub proof fn users_can_learn_at_any_time(
    user: User,
    contact: Contact,
    clients: Result<Vec<ClientInfo>, String>,
    hash_ref: Vec<u8>,
    key_package: Vec<u8>,
    welcome: Welcome,
    record: ActionRecord,
    group_name: String,
    state: MlsState,
    outcome: ProtocolOutcome,
    leave: LeaveGroup,
    sent: SendCommit,
    created: CreatedGroup,
    reply: Result<(), String>,
)
    requires
        outcome.group_id matches Some(id) ==> valid_utf8(id@),
    ensures
        forall|u: &mut User| #[trigger] call_requires(User::add_contact, (u, contact)),
        forall|u: &mut User| #[trigger] call_requires(User::update_clients, (u, clients)),
        forall|u: &mut User| #[trigger]
            call_requires(User::add_key_package, (u, hash_ref, key_package)),
        forall|u: &mut User| #[trigger] call_requires(User::create_kp, (u, hash_ref, key_package)),
        forall|u: &mut User| #[trigger] call_requires(User::join_group, (u, &welcome)),
        forall|u: &mut User| #[trigger] call_requires(User::write_timestamp, (u, record)),
        forall|u: &mut User| #[trigger] call_requires(User::flush_logs, (u,)),
        forall|u: &mut User| #[trigger] call_requires(User::enter_group, (u, &group_name, state)),
        forall|u: &mut User| #[trigger] call_requires(User::post_update, (u, outcome)),
        forall|u: &mut User| #[trigger] call_requires(User::group_left, (u, leave, reply)),
        forall|u: &mut User| #[trigger] call_requires(User::commit_sent, (u, sent, reply)),
        forall|u: &mut User| #[trigger]
            call_requires(User::created_group_published, (u, created, reply)),
        forall|u: &mut User| #[trigger]
            call_requires(User::created_group_announced, (u, record, reply)),
        forall|u: &mut User, p: &mut Option<Profiler>| #[trigger]
            call_requires(User::confirm_commit, (u, p, group_name)),
{
}

/// Invitations, replies of services and results of the engine can be gone on with at any time.
pub proof fn replies_can_be_gone_on_with(
    user: User,
    name: String,
    group_name: String,
    invite: Invite,
    key_package: Result<Vec<u8>, String>,
    bundle: Result<AddBundle, String>,
    elapsed: u128,
    create: CreateGroup,
    sent: CommitSent,
    reply: Result<(), String>,
    agent_reply: Result<(), String>,
    record: ActionRecord,
    step: DecidedStep,
    p: ProposeAction,
    info: GroupInfoAndTree,
)
    ensures
        forall|prof: &mut Option<Profiler>| #[trigger]
            call_requires(User::invite, (&user, prof, name, group_name)),
        call_requires(User::invite_key_package, (&user, invite, key_package)),
        call_requires(User::member_added, (&user, invite, bundle, elapsed)),
        call_requires(User::new_group_subscribed, (&user, create, reply)),
        call_requires(User::commit_done, (&user, sent, reply)),
        call_requires(User::own_message_confirmed, (&user, reply)),
        call_requires(User::welcome_followed, (&user, record, reply, agent_reply)),
        call_requires(User::staged_commit_announced, (&user, step, agent_reply)),
        call_requires(User::propose_key_package, (&user, p, key_package)),
        call_requires(User::registered, (&user, reply)),
        call_requires(User::kp_published, (&user, reply)),
        call_requires(User::external_join, (&user, group_name, &info)),
{
}

/// In a group that the user is in, what the engine has made of a change can always be sent, and
/// a new state of the group can always be taken over.
pub proof fn changes_can_be_sent(
    user: User,
    name: String,
    group_name: String,
    reply: Result<CommitBundle, String>,
    elapsed: u128,
    timestamp: i64,
    message: Result<Vec<u8>, String>,
    state: MlsState,
    msg_out: Vec<u8>,
    group_info: Option<Vec<u8>>,
    welcome: Option<StoredWelcome>,
    action: CGKAAction,
    proposals: Vec<CGKAAction>,
)
    requires
        user.groups@.contains_key(group_name@),
    ensures
        call_requires(User::state_updated, (&user, group_name, reply, elapsed, timestamp)),
        call_requires(
            User::member_removed,
            (&user, name, group_name, reply, elapsed, timestamp),
        ),
        call_requires(User::application_msg_created, (&user, group_name, message)),
        call_requires(
            User::post_process_commit,
            (&user, group_name, msg_out, group_info, welcome, action, elapsed, timestamp),
        ),
        call_requires(
            User::proposals_committed,
            (&user, (CommitPending { group_name, proposals }), reply, elapsed, timestamp),
        ),
        forall|u: &mut User|
            *u == user ==> #[trigger] call_requires(
                User::set_group_state,
                (u, &group_name, state),
            ),
{
}

/// A confirmed commit can always be merged, published and logged in a group that the user is
/// in, with the orchestrator of the group where the user is orchestrated.
pub proof fn commits_can_be_confirmed(
    user: User,
    confirm: ConfirmCommit,
    state: MlsState,
    tree: Vec<u8>,
    publish: PublishCommit,
    reply: Result<(), String>,
    merged: MergedCommit,
)
    requires
        user.groups@.contains_key(confirm.group_name@),
        user.groups@.contains_key(publish.group_name@),
        user.groups@.contains_key(merged.group_name@),
        valid_utf8(user.groups@[merged.group_name@].mls_group.group_id@),
        user.agent_type matches AgentType::Orchestrator(known) ==> known@.contains_key(
            confirm.group_name@,
        ) && known@.contains_key(publish.group_name@),
    ensures
        forall|u: &mut User|
            *u == user ==> #[trigger] call_requires(User::commit_merged, (u, confirm, state, tree)),
        forall|u: &mut User|
            *u == user ==> #[trigger] call_requires(User::welcomes_sent, (u, merged, reply)),
        call_requires(User::commit_published, (&user, publish, reply)),
{
}

/// A received message of a group or a welcome can be taken in, as long as names can be read
/// and sizes counted.
pub proof fn received_messages_can_be_taken_in(user: User, message: MessageIn)
    requires
        valid_utf8(message.sender@),
        message.msg is PrivateMessage || message.msg is PublicMessage || (message.msg is Welcome
            && decode_utf8(message.sender@) != user.username@),
        message.msg matches MessageBody::PrivateMessage(m) ==> valid_utf8(m.group_id@),
        message.msg matches MessageBody::PublicMessage(m) ==> valid_utf8(m.group_id@),
        message.ratchet_tree matches Some(tree) ==> message.msg_size + tree@.len() <= usize::MAX,
    ensures
        call_requires(User::process_in_message, (&user, message)),
{
}

/// A joined group can be gone on with, a welcome decided on, and a group joined from outside.
pub proof fn groups_can_be_joined(
    user: User,
    reply: Result<MlsState, JoinError>,
    elapsed: u128,
    timestamp: i64,
    group_name: String,
    join: ExternalJoin,
    state: MlsState,
    commit: Vec<u8>,
    group_info: Option<Vec<u8>>,
)
    requires
        reply matches Ok(s) ==> valid_utf8(s.group_id@),
    ensures
        forall|u: &mut User| #[trigger]
            call_requires(User::group_joined, (u, reply, elapsed, timestamp)),
        forall|u: &mut User| #[trigger]
            call_requires(User::welcome_decided, (u, group_name, NextAction::Listen)),
        forall|u: &mut User| #[trigger]
            call_requires(
                User::externally_joined,
                (u, join, state, commit, group_info, elapsed, timestamp),
            ),
{
}

/// The replies of orchestrators are heard by every orchestrated user, and acknowledgements by
/// every user whose groups have orchestrators.
pub proof fn orchestrators_can_be_heard(
    user: User,
    group_name: String,
    reply: OrchestratorReply,
    ack: WelcomeAcknowledgement,
)
    requires
        user.agent_type matches AgentType::Orchestrator(known) ==> known@.contains_key(ack.group@),
    ensures
        user.agent_type is Orchestrator ==> forall|u: &mut User|
            *u == user ==> #[trigger] call_requires(
                User::orchestrator_replied,
                (u, group_name, reply),
            ),
        call_requires(User::process_ack, (&user, ack)),
{
}

/// What the engine made of the group of a staged commit, of an added member, of a proposal and
/// of a confirmed commit can be gone on with, as long as epochs, times and members can be
/// counted.
pub proof fn engine_results_can_be_gone_on_with(
    user: User,
    prof: Option<Profiler>,
    merge: MergeStaged,
    reply: Result<MlsState, String>,
    decide: DecideNext,
    next_action: NextAction,
    elapsed: u128,
    elapsed_now: u128,
    added: AddedMember,
    timestamp: i64,
    p: ProposeAction,
    proposal: Result<(Vec<u8>, MlsState), String>,
    confirmed: ConfirmedCommit,
    agent_reply: Result<(), String>,
)
    requires
        user.groups@.contains_key(merge.process.group_name@),
        user.agent_type matches AgentType::Orchestrator(known) ==> known@.contains_key(
            merge.process.group_name@,
        ),
        merge.num_group_members + merge.new_members@.len() <= usize::MAX,
        merge.removed_members@.len() <= merge.num_group_members + merge.new_members@.len(),
        user.groups@.contains_key(decide.process.group_name@),
        decide.process.group_epoch < u64::MAX,
        decide.process.epoch_change.epoch < u64::MAX,
        next_action is Commit ==> user.agent_type is Orchestrator,
        user.groups@.contains_key(added.invite.group_name@),
        added.elapsed + time_under(prof, "merge_total"@) <= u128::MAX,
        user.groups@.contains_key(p.group_name@),
        p.action is Update || p.action is Invite || p.action is Remove,
        user.groups@.contains_key(confirmed.group_name@),
        confirmed.record.epoch_change.epoch < u64::MAX,
        confirmed.record.elapsed_time + time_under(prof, "merge_total"@) <= u128::MAX,
    ensures
        forall|u: &mut User|
            *u == user ==> #[trigger] call_requires(User::staged_commit_merged, (u, merge, reply)),
        forall|f: &mut Option<Profiler>| #[trigger]
            call_requires(
                User::staged_commit_decided,
                (&user, f, decide, next_action, elapsed, elapsed_now),
            ),
        forall|u: &mut User, f: &mut Option<Profiler>|
            *u == user && *f == prof ==> #[trigger] call_requires(
                User::addition_merged,
                (u, f, added, reply, timestamp),
            ),
        forall|u: &mut User|
            *u == user ==> #[trigger] call_requires(
                User::proposed,
                (u, p, proposal, elapsed, timestamp),
            ),
        forall|u: &mut User, f: &mut Option<Profiler>|
            *u == user && *f == prof ==> #[trigger] call_requires(
                User::commit_confirmed,
                (u, f, confirmed, agent_reply),
            ),
{
}

/// The proposals of a group that the user is in can be dropped, chosen and committed: as many
/// as wait can be asked for, and what is left can be committed if it adds clients, removes
/// members or updates keys, and the names can be read.
pub proof fn waiting_proposals_can_be_committed(
    user: User,
    d: DropProposals,
    reply: ProposalsDropped,
    chosen: Vec<usize>,
)
    requires
        user.groups@.contains_key(d.group_name@),
        d.amount <= reply.state.pending_proposals@.len(),
        forall|i: int|
            0 <= i < chosen@.len() ==> #[trigger] chosen@[i] < reply.state.pending_proposals@.len(),
        forall|i: int|
            0 <= i < reply.state.pending_proposals@.len() ==> match (
            #[trigger] reply.state.pending_proposals@[i]).proposal {
                Proposal::Add(identity) => valid_utf8(identity@),
                Proposal::Remove(leaf) => forall|j: int|
                    0 <= j < reply.state.members@.len() ==> valid_utf8(
                        (#[trigger] reply.state.members@[j]).identity@,
                    ),
                Proposal::Update => true,
                Proposal::Other => false,
            },
        forall|i: int|
            0 <= i < reply.state.pending_proposals@.len() ==> ((
            #[trigger] reply.state.pending_proposals@[i]).proposal matches Proposal::Remove(leaf)
                ==> exists|j: int|
                0 <= j < reply.state.members@.len() && (#[trigger] reply.state.members@[j]).index
                    == leaf),
    ensures
        forall|u: &mut User|
            *u == user ==> #[trigger] call_requires(User::invalid_dropped, (u, d, reply)),
        forall|u: &mut User|
            *u == user ==> #[trigger] call_requires(
                User::surplus_chosen,
                (u, d, reply.state, &chosen),
            ),
        forall|u: &mut User|
            *u == user ==> #[trigger] call_requires(User::surplus_dropped, (u, d, reply)),
{
    let members = reply.state.members@;
    assert forall|leaf: u32|
        (exists|j: int| 0 <= j < members.len() && (#[trigger] members[j]).index == leaf) && (forall|
            j: int,
        |
            0 <= j < members.len() ==> valid_utf8(
                (#[trigger] members[j]).identity@,
            )) implies #[trigger] identity_at(members, leaf) is Some && valid_utf8(
        identity_at(members, leaf)->Some_0,
    ) by {
        leaf_found_or_not(members, leaf);
    }
    assert forall|i: int| 0 <= i < reply.state.pending_proposals@.len() implies committable(
        reply.state,
        #[trigger] reply.state.pending_proposals@[i],
    ) by {
        if let Proposal::Remove(leaf) = reply.state.pending_proposals@[i].proposal {
            assert(identity_at(members, leaf) is Some);
        }
    }
}

/// A new group, a followed welcome and the information on a group can be gone on with, and
/// every reply to the command that a path computation waits for.
pub proof fn groups_and_paths_can_be_gone_on_with(
    user: User,
    group_name: String,
    state: MlsState,
    elapsed: u128,
    timestamp: i64,
    orchestrator: OrchestratorReply,
    w: WelcomeIn,
    joined: JoinedGroup,
    active: Vec<Vec<u8>>,
    info: GroupInfoAndTree,
    export: Result<GroupInfoAndTree, String>,
    c: ComputePath,
    reply: PathReply,
)
    requires
        !user.groups@.contains_key(group_name@),
        user.groups@.contains_key(joined.group_name@),
        w.active_members == Some(active),
        forall|i: int| 0 <= i < active@.len() ==> valid_utf8((#[trigger] active@[i])@),
        forall|i: int| 0 <= i < w.recipients@.len() ==> valid_utf8((#[trigger] w.recipients@[i])@),
        orchestrator.next_action is Commit,
        valid_utf8(state.group_id@),
        answers(c, reply),
    ensures
        forall|u: &mut User|
            *u == user ==> #[trigger] call_requires(
                User::group_created,
                (u, group_name, state, elapsed, timestamp),
            ),
        user.agent_type is Orchestrator ==> forall|u: &mut User|
            *u == user ==> #[trigger] call_requires(
                User::created_group_orchestrated,
                (u, group_name, orchestrator),
            ),
        forall|u: &mut User|
            *u == user ==> #[trigger] call_requires(User::welcome_accepted, (u, w, joined)),
        call_requires(User::group_info_exported, (&user, &state, export)),
        call_requires(User::_publish_group_info, (&user, &state, info)),
        !(user.ds is Request) ==> call_requires(User::send_ack, (&user, group_name)),
        user.agent_type is Orchestrator ==> call_requires(User::send_to_agent, (&user, group_name)),
        call_requires(ComputePath::step, (c, reply)),
{
}

} // verus!
