//! What sending does: messages and commits, their confirmation, and what is asked of the
//! server, of brokers and of the agent.
use crate::action::CGKAAction;
use crate::commits::{
    CommitSent, ConfirmCommit, ConfirmStep, ConfirmedCommit, MergedCommit, PublishCommit,
    SendCommit,
};
use crate::contact_laws::{addresses_the_others, others_are_addressed};
use crate::delivery::{
    tls_contents, BrokerCall, ClientKeyPackages, DeliveryService, Directory, DirectoryCall,
    GroupInfoAndTree, GroupMessage, Outgoing, WelcomeAcknowledgement,
};
use crate::law_terms::{is_fresh, only_group_changed, time_under};
use crate::mls::MlsState;
use crate::profiling::Profiler;
use crate::record::{ActionRecord, EpochChange};
use crate::services::{OrchestratorCommit, OrchestratorReply, PublishGroupInfo};
use crate::user::{AgentType, Contact, StoredWelcome, User};
use vstd::prelude::*;
use vstd::utf8::*;

verus! {

/// Lookups go to the server in every case but that of gossip with a Kademlia directory.
pub open spec fn asks_the_server(user: User) -> bool {
    match user.ds {
        DeliveryService::Request => true,
        DeliveryService::PubSubMQTT => true,
        DeliveryService::GossipSub(Directory::Server) => true,
        DeliveryService::GossipSub(Directory::Kademlia) => false,
    }
}

/// A message of the user with these bytes and nothing beside them.
pub open spec fn is_plain_message(user: User, m: GroupMessage, bytes: Seq<u8>) -> bool {
    &&& m.msg@ == bytes
    &&& m.sender@ == encode_utf8(user.username@)
    &&& m.ratchet_tree is None
    &&& m.active_members is None
}

/// The bytes go out to a group: without a broker to the server, addressed to all members but
/// the user; with one to the broker, under the name of the group and without addresses.
pub open spec fn goes_out(user: User, out: Outgoing, group_name: Seq<char>, bytes: Seq<u8>) -> bool {
    match out {
        Outgoing::Backend(m) => {
            &&& user.ds is Request
            &&& is_plain_message(user, m, bytes)
            &&& exists|places: Seq<int>| #[trigger]
                addresses_the_others(
                    user,
                    user.groups@[group_name].mls_group.members@,
                    m.recipients@,
                    places,
                )
        },
        Outgoing::Broker(m, topic) => {
            &&& !(user.ds is Request)
            &&& is_plain_message(user, m, bytes)
            &&& topic@ == group_name
            &&& m.recipients@.len() == 0
        },
    }
}

/// A commit or proposal goes out to its group. What is pending holds the information on the
/// group and a record of the action with the epoch and the members of the group as they are
/// before it.
pub open spec fn commit_goes_out(
    user: User,
    send: SendCommit,
    group_name: Seq<char>,
    bytes: Seq<u8>,
    group_info: Option<Vec<u8>>,
    action: CGKAAction,
    elapsed: u128,
    timestamp: i64,
) -> bool {
    let record = send.pending.record;
    &&& send.group_name@ == group_name
    &&& goes_out(user, send.message, group_name, bytes)
    &&& send.pending.group_info == group_info
    &&& record.group_name@ == group_name
    &&& record.action == action
    &&& record.epoch_change.timestamp == timestamp
    &&& record.epoch_change.epoch == user.groups@[group_name].mls_group.epoch
    &&& record.elapsed_time == elapsed
    &&& record.num_users == user.groups@[group_name].mls_group.members@.len()
}

/// A message that goes to a group with the right addresses goes out to it.
pub proof fn group_messages_go_out(user: User, out: Outgoing, group_name: String, msg: Vec<u8>)
    requires
        user.goes_to_group(
            out,
            group_name,
            msg,
            user.addressees(user.groups@[group_name@].mls_group),
        ),
    ensures
        goes_out(user, out, group_name@, msg@),
{
    match out {
        Outgoing::Backend(m) => {
            let places = others_are_addressed(
                user,
                user.groups@[group_name@].mls_group.members@,
                m.recipients@,
            );
            assert(addresses_the_others(
                user,
                user.groups@[group_name@].mls_group.members@,
                m.recipients@,
                places,
            ));
        },
        Outgoing::Broker(m, _) => {
            assert(m.recipients@.map_values(|b: Vec<u8>| b@).len() == m.recipients@.len());
        },
    }
}

/// A commit that is sent goes out to its group and is what is pending.
pub proof fn sent_commits_go_out(
    user: User,
    send: SendCommit,
    group_name: String,
    msg_out: Vec<u8>,
    group_info: Option<Vec<u8>>,
    welcome: Option<StoredWelcome>,
    action: CGKAAction,
    elapsed_time: u128,
    timestamp: i64,
)
    requires
        user.sends_commit(
            send,
            group_name,
            msg_out,
            group_info,
            welcome,
            action,
            elapsed_time,
            timestamp,
        ),
    ensures
        commit_goes_out(
            user,
            send,
            group_name@,
            msg_out@,
            group_info,
            action,
            elapsed_time,
            timestamp,
        ),
        send.pending.welcome == welcome,
{
    group_messages_go_out(user, send.message, group_name, msg_out);
}

/// A commit that the engine has made goes out to its group; its record and its welcome are
/// kept.
pub proof fn commits_go_out(
    user: User,
    group_name: String,
    msg_out: Vec<u8>,
    group_info: Option<Vec<u8>>,
    welcome: Option<StoredWelcome>,
    action: CGKAAction,
    elapsed: u128,
    timestamp: i64,
    r: SendCommit,
)
    requires
        call_ensures(
            User::post_process_commit,
            (&user, group_name, msg_out, group_info, welcome, action, elapsed, timestamp),
            r,
        ),
    ensures
        commit_goes_out(user, r, group_name@, msg_out@, group_info, action, elapsed, timestamp),
        r.pending.welcome == welcome,
{
    sent_commits_go_out(
        user,
        r,
        group_name,
        msg_out,
        group_info,
        welcome,
        action,
        elapsed,
        timestamp,
    );
}

/// A commit that was sent is pending in its group, in place of any other; all other groups
/// keep theirs. It is confirmed at once exactly by an orchestrated user. One that could not
/// be sent changes nothing.
pub proof fn sent_commits_are_pending(
    before: User,
    after: User,
    sent: SendCommit,
    reply: Result<(), String>,
    r: Result<CommitSent, String>,
)
    requires
        exists|u: &mut User|
            *u == before && *final(u) == after && #[trigger] call_ensures(
                User::commit_sent,
                (u, sent, reply),
                r,
            ),
    ensures
        reply is Ok ==> {
            &&& after == (User { pending_commits: after.pending_commits, ..before })
            &&& after.pending_commits@.contains_key(sent.group_name@)
            &&& after.pending_commits@[sent.group_name@] == sent.pending
            &&& forall|name: Seq<char>|
                name != sent.group_name@ ==> (#[trigger] after.pending_commits@.contains_key(name)
                    <==> before.pending_commits@.contains_key(name))
            &&& forall|name: Seq<char>|
                name != sent.group_name@ && before.pending_commits@.contains_key(name)
                    ==> #[trigger] after.pending_commits@[name] == before.pending_commits@[name]
            &&& r matches Ok(done) && {
                &&& done.epoch_change == sent.pending.record.epoch_change
                &&& done.confirm <==> before.agent_type is Orchestrator
            }
        },
        reply matches Err(e) ==> after == before && (r matches Err(text) && text == e),
{
}

/// What comes of a sent commit is when it was sent and in which epoch, unless it was to be
/// confirmed and could not be.
pub proof fn done_commits_tell_their_epoch(
    user: User,
    sent: CommitSent,
    confirm_reply: Result<(), String>,
    r: Result<EpochChange, String>,
)
    requires
        call_ensures(User::commit_done, (&user, sent, confirm_reply), r),
    ensures
        confirm_reply is Ok ==> (r matches Ok(change) && change == sent.epoch_change),
        confirm_reply matches Err(e) ==> (r matches Err(text) && text == e),
{
}

/// Confirming takes up the pending commit of the group, which is then pending no longer;
/// those of other groups stay. Without one there is nothing to confirm, and in a group that
/// the user is no longer in it is an error. Either way a new profile begins.
pub proof fn pending_commits_are_taken_up_once(
    before: User,
    after: User,
    prof: Option<Profiler>,
    group_name: String,
    r: Result<Option<ConfirmCommit>, String>,
)
    requires
        exists|u: &mut User, p: &mut Option<Profiler>|
            *u == before && *final(u) == after && *final(p) == prof && #[trigger] call_ensures(
                User::confirm_commit,
                (u, p, group_name),
                r,
            ),
    ensures
        is_fresh(prof),
        after == (User { pending_commits: after.pending_commits, ..before }),
        !after.pending_commits@.contains_key(group_name@),
        forall|name: Seq<char>|
            name != group_name@ ==> (#[trigger] after.pending_commits@.contains_key(name)
                <==> before.pending_commits@.contains_key(name)),
        forall|name: Seq<char>|
            name != group_name@ && before.pending_commits@.contains_key(name)
                ==> #[trigger] after.pending_commits@[name] == before.pending_commits@[name],
        !before.pending_commits@.contains_key(group_name@) ==> (r matches Ok(c) && c is None),
        before.pending_commits@.contains_key(group_name@) ==> {
            &&& before.groups@.contains_key(group_name@) ==> (r matches Ok(Some(confirm))
                && confirm.group_name@ == group_name@ && confirm.pending
                == before.pending_commits@[group_name@])
            &&& !before.groups@.contains_key(group_name@) ==> (r matches Err(e) && e@
                == "No group with name "@ + group_name@ + " known."@)
        },
{
}

/// A welcome that the user sends holds the welcome of the commit, the tree of the group and
/// the names of all new members, and from an orchestrated user those of the members known to
/// be active.
pub open spec fn is_welcome_to_all(
    user: User,
    m: GroupMessage,
    welcome: StoredWelcome,
    tree: Seq<u8>,
    group_name: Seq<char>,
) -> bool {
    &&& m.msg@ == welcome.welcome@
    &&& m.sender@ == encode_utf8(user.username@)
    &&& m.ratchet_tree matches Some(t) && t@ == tree
    &&& m.recipients@.len() == welcome.recipients@.len()
    &&& forall|i: int|
        0 <= i < m.recipients@.len() ==> (#[trigger] m.recipients@[i])@ == encode_utf8(
            welcome.recipients@[i]@,
        )
    &&& m.active_members is Some <==> user.agent_type is Orchestrator
    &&& m.active_members matches Some(names) ==> {
        let known = user.agent_type->Orchestrator_0@[group_name]@;
        &&& names@.len() == known.len()
        &&& forall|i: int|
            0 <= i < names@.len() ==> (#[trigger] names@[i])@ == encode_utf8(known[i]@)
    }
}

/// A merged commit gives its group the engine's state and keeps all else. Its welcome, if it
/// has one, goes out once for each new member, without a broker to the server and with one
/// under the member's name; without a welcome none goes out and no one is new.
pub proof fn merged_commits_welcome_the_new_members(
    before: User,
    after: User,
    confirm: ConfirmCommit,
    state: MlsState,
    ratchet_tree: Vec<u8>,
    r: MergedCommit,
)
    requires
        exists|u: &mut User|
            *u == before && *final(u) == after && #[trigger] call_ensures(
                User::commit_merged,
                (u, confirm, state, ratchet_tree),
                r,
            ),
        before.groups@.contains_key(confirm.group_name@),
    ensures
        only_group_changed(before, after, confirm.group_name@),
        after.groups@[confirm.group_name@].mls_group == state,
        after.groups@[confirm.group_name@].conversation
            == before.groups@[confirm.group_name@].conversation,
        after.groups@[confirm.group_name@].group_name
            == before.groups@[confirm.group_name@].group_name,
        r.group_name@ == confirm.group_name@,
        r.group_info == confirm.pending.group_info,
        r.ratchet_tree@ == ratchet_tree@,
        r.record == confirm.pending.record,
        confirm.pending.welcome is None ==> r.welcomes@.len() == 0 && r.new_members@.len() == 0,
        confirm.pending.welcome matches Some(welcome) ==> {
            &&& r.new_members@ == welcome.recipients@
            &&& r.welcomes@.len() == welcome.recipients@.len()
            &&& forall|i: int|
                0 <= i < r.welcomes@.len() ==> match #[trigger] r.welcomes@[i] {
                    Outgoing::Backend(m) => before.ds is Request && is_welcome_to_all(
                        before,
                        m,
                        welcome,
                        ratchet_tree@,
                        confirm.group_name@,
                    ),
                    Outgoing::Broker(m, name) => !(before.ds is Request) && is_welcome_to_all(
                        before,
                        m,
                        welcome,
                        ratchet_tree@,
                        confirm.group_name@,
                    ) && name@ == welcome.recipients@[i]@,
                }
        },
{
    if let Some(welcome) = confirm.pending.welcome {
        assert forall|i: int| 0 <= i < r.welcomes@.len() implies match #[trigger] r.welcomes@[i] {
            Outgoing::Backend(m) => before.ds is Request && is_welcome_to_all(
                before,
                m,
                welcome,
                ratchet_tree@,
                confirm.group_name@,
            ),
            Outgoing::Broker(m, name) => !(before.ds is Request) && is_welcome_to_all(
                before,
                m,
                welcome,
                ratchet_tree@,
                confirm.group_name@,
            ) && name@ == welcome.recipients@[i]@,
        } by {
            let m = match r.welcomes@[i] {
                Outgoing::Backend(m) => m,
                Outgoing::Broker(m, _) => m,
            };
            welcome_reaches_all(before, m, welcome, ratchet_tree, confirm.group_name@);
        }
    }
}

proof fn welcome_reaches_all(
    user: User,
    m: GroupMessage,
    welcome: StoredWelcome,
    ratchet_tree: Vec<u8>,
    group_name: Seq<char>,
)
    requires
        user.is_welcome_message(m, welcome, ratchet_tree, group_name),
    ensures
        is_welcome_to_all(user, m, welcome, ratchet_tree@, group_name),
{
    let sent = m.recipients@.map_values(|b: Vec<u8>| b@);
    let names = welcome.recipients@.map_values(|s: String| s@);
    assert(sent == names.map_values(|s: Seq<char>| encode_utf8(s)));
    assert(sent.len() == m.recipients@.len() && names.len() == welcome.recipients@.len());
    assert forall|i: int| 0 <= i < m.recipients@.len() implies (#[trigger] m.recipients@[i])@
        == encode_utf8(welcome.recipients@[i]@) by {
        assert(sent[i] == m.recipients@[i]@);
        assert(names[i] == welcome.recipients@[i]@);
    }
    if let Some(a) = m.active_members {
        let known = user.agent_type->Orchestrator_0@[group_name]@;
        let active = a@.map_values(|b: Vec<u8>| b@);
        let texts = known.map_values(|s: String| s@);
        assert(active == texts.map_values(|s: Seq<char>| encode_utf8(s)));
        assert(active.len() == a@.len() && texts.len() == known.len());
        assert forall|i: int| 0 <= i < a@.len() implies (#[trigger] a@[i])@ == encode_utf8(
            known[i]@,
        ) by {
            assert(active[i] == a@[i]@);
            assert(texts[i] == known[i]@);
        }
    }
}

/// A call publishes this information under the name of a group, to the server also with that
/// of the user.
pub open spec fn publishes_under(
    user: User,
    call: PublishGroupInfo,
    group_name: Seq<char>,
    info: GroupInfoAndTree,
) -> bool {
    match call {
        DirectoryCall::Server((username, name, given)) => asks_the_server(user) && username@
            == user.username@ && name@ == group_name && given == info,
        DirectoryCall::Broker((name, given)) => !asks_the_server(user) && name@ == group_name
            && given == info,
    }
}

/// What is kept of a merged commit: who came, and who left, which is the removed user where
/// the commit removes one and no one else.
pub open spec fn keeps_comings_and_goings(p: PublishCommit, merged: MergedCommit) -> bool {
    &&& p.group_name@ == merged.group_name@
    &&& p.record == merged.record
    &&& p.new_members@ == merged.new_members@
    &&& match merged.record.action {
        CGKAAction::Remove(user, _) => p.removed_members@.len() == 1 && p.removed_members@[0]@
            == user@,
        _ => p.removed_members@.len() == 0,
    }
}

/// After the welcomes a proposal is logged, just as its record is when it is written down,
/// and nothing is published. The new state of the group after a commit is published: with
/// the information that came with the commit and the exported tree, or with what the engine
/// exports. If a welcome could not be sent, that is an error and nothing changes.
pub proof fn commits_are_published_and_proposals_logged(
    before: User,
    after: User,
    wrote: User,
    merged: MergedCommit,
    reply: Result<(), String>,
    r: Result<ConfirmStep, String>,
    written: Option<String>,
)
    requires
        exists|u: &mut User|
            *u == before && *final(u) == after && #[trigger] call_ensures(
                User::welcomes_sent,
                (u, merged, reply),
                r,
            ),
        exists|u: &mut User|
            *u == before && *final(u) == wrote && #[trigger] call_ensures(
                User::write_timestamp,
                (u, merged.record),
                written,
            ),
    ensures
        reply matches Err(e) ==> after == before && (r matches Err(text) && text == e),
        reply is Ok && merged.record.action is Propose ==> {
            &&& after == (User { file_buffer: after.file_buffer, ..before })
            &&& after.file_buffer@ == wrote.file_buffer@
            &&& r matches Ok(ConfirmStep::Done(log)) && {
                &&& log is Some <==> written is Some
                &&& log matches Some(text) ==> text@ == written->Some_0@
            }
        },
        reply is Ok && !(merged.record.action is Propose) ==> {
            &&& after == before
            &&& merged.group_info is None ==> (r matches Ok(ConfirmStep::Export(p))
                && keeps_comings_and_goings(p, merged))
            &&& merged.group_info matches Some(info) ==> (r matches Ok(ConfirmStep::Publish(p, call))
                && keeps_comings_and_goings(p, merged) && publishes_under(
                before,
                call,
                decode_utf8(before.groups@[merged.group_name@].mls_group.group_id@),
                (GroupInfoAndTree { group_info: info, ratchet_tree: Some(merged.ratchet_tree) }),
            ))
        },
{
}

/// Once a commit is published, the orchestrator of an orchestrated user is told of it: who
/// came, who left, and how the group stands; an independent user tells no one. A commit that
/// could not be published is an error.
pub proof fn published_commits_are_told_to_the_orchestrator(
    user: User,
    publish: PublishCommit,
    reply: Result<(), String>,
    r: Result<(ConfirmedCommit, Option<OrchestratorCommit>), String>,
)
    requires
        call_ensures(User::commit_published, (&user, publish, reply), r),
    ensures
        reply matches Err(e) ==> (r matches Err(text) && text == e),
        reply is Ok ==> (r matches Ok((confirmed, call)) && {
            let state = user.groups@[publish.group_name@].mls_group;
            &&& confirmed.group_name@ == publish.group_name@
            &&& confirmed.record == publish.record
            &&& call is Some <==> user.agent_type is Orchestrator
            &&& call matches Some(c) ==> {
                &&& c.group_name@ == publish.group_name@
                &&& c.new_members@ == publish.new_members@
                &&& c.removed_members@ == publish.removed_members@
                &&& c.total_members == state.members@.len()
                &&& c.transcript_hash@ == state.transcript_hash@
            }
        }),
{
}

/// A confirmed commit is logged as its record is when it is written down with the next epoch,
/// the members that the group then has and the time of merging added; and a new profile
/// begins. If the agent could not be told, nothing changes and that is an error.
pub proof fn confirmed_commits_are_logged_in_the_next_epoch(
    before: User,
    after: User,
    wrote: User,
    prof: Option<Profiler>,
    prof_after: Option<Profiler>,
    confirmed: ConfirmedCommit,
    agent_reply: Result<(), String>,
    r: Result<Option<String>, String>,
    record: ActionRecord,
    written: Option<String>,
)
    requires
        exists|u: &mut User, p: &mut Option<Profiler>|
            *u == before && *final(u) == after && *p == prof && *final(p) == prof_after
                && #[trigger] call_ensures(
                User::commit_confirmed,
                (u, p, confirmed, agent_reply),
                r,
            ),
        exists|u: &mut User|
            *u == before && *final(u) == wrote && #[trigger] call_ensures(
                User::write_timestamp,
                (u, record),
                written,
            ),
        record.group_name == confirmed.record.group_name,
        record.action == confirmed.record.action,
        record.epoch_change.timestamp == confirmed.record.epoch_change.timestamp,
        record.epoch_change.epoch == confirmed.record.epoch_change.epoch + 1,
        record.elapsed_time == confirmed.record.elapsed_time + time_under(prof, "merge_total"@),
        record.num_users == before.groups@[confirmed.group_name@].mls_group.members@.len(),
    ensures
        agent_reply is Ok ==> {
            &&& after == (User { file_buffer: after.file_buffer, ..before })
            &&& after.file_buffer@ == wrote.file_buffer@
            &&& is_fresh(prof_after)
            &&& r matches Ok(log) && {
                &&& log is Some <==> written is Some
                &&& log matches Some(text) ==> text@ == written->Some_0@
            }
        },
        agent_reply matches Err(e) ==> after == before && prof_after == prof && (r matches Err(text)
            && text == e),
{
    assert(before.confirmed_record(confirmed, User::merge_total(prof)) == record);
}

/// Whether a group exists and what is known of it is asked of the server or of the broker;
/// the server is told who asks for the information.
pub proof fn groups_are_looked_up(
    user: User,
    group_name: String,
    exists_call: DirectoryCall<String, String>,
    info_call: DirectoryCall<(String, String), String>,
)
    requires
        call_ensures(User::group_exists, (&user, group_name), exists_call),
        call_ensures(User::get_group_info, (&user, group_name), info_call),
    ensures
        match exists_call {
            DirectoryCall::Server(name) => asks_the_server(user) && name@ == group_name@,
            DirectoryCall::Broker(name) => !asks_the_server(user) && name@ == group_name@,
        },
        match info_call {
            DirectoryCall::Server((username, name)) => asks_the_server(user) && username@
                == user.username@ && name@ == group_name@,
            DirectoryCall::Broker(name) => !asks_the_server(user) && name@ == group_name@,
        },
{
}

/// A key package of a contact is asked for: of the server by the contact's identity, of a
/// broker by its name.
pub open spec fn asks_for_key_package(
    user: User,
    call: DirectoryCall<Vec<u8>, String>,
    contact: Contact,
) -> bool {
    match call {
        DirectoryCall::Server(id) => asks_the_server(user) && id@ == contact.id@,
        DirectoryCall::Broker(name) => !asks_the_server(user) && name@ == contact.username@,
    }
}

/// A key package is asked for where lookups go.
pub proof fn key_packages_are_asked_for(
    user: User,
    contact: Contact,
    r: DirectoryCall<Vec<u8>, String>,
)
    requires
        call_ensures(User::consume_key_package, (&user, &contact), r),
    ensures
        asks_for_key_package(user, r, contact),
{
}

/// A user registers under its name and its encoding; a refusal is an error.
pub proof fn users_register_under_their_name(
    user: User,
    call: (String, Vec<u8>),
    reply: Result<(), String>,
    r: Result<(), String>,
)
    requires
        call_ensures(User::register, (&user,), call),
        call_ensures(User::registered, (&user, reply), r),
    ensures
        call.0@ == user.username@,
        call.1@ == encode_utf8(user.username@),
        r is Ok <==> reply is Ok,
        reply matches Err(e) ==> (r matches Err(text) && text@ == "Error creating user: "@ + e@),
{
}

/// Subscriptions are made and ended where there is a broker, and only there: to welcomes under
/// the user's name, to messages under that of the group.
pub proof fn subscriptions_need_a_broker(
    user: User,
    group_name: String,
    welcomes: Option<BrokerCall>,
    begin: Option<BrokerCall>,
    end: Option<BrokerCall>,
)
    requires
        call_ensures(User::subscribe_welcome, (&user,), welcomes),
        call_ensures(User::subscribe, (&user, group_name), begin),
        call_ensures(User::unsubscribe, (&user, group_name), end),
    ensures
        user.ds is Request ==> welcomes is None && begin is None && end is None,
        !(user.ds is Request) ==> {
            &&& welcomes matches Some(BrokerCall::SubscribeWelcome(name)) && name@ == user.username@
            &&& begin matches Some(BrokerCall::Subscribe(name)) && name@ == group_name@
            &&& end matches Some(BrokerCall::Unsubscribe(name)) && name@ == group_name@
        },
{
}

/// A key package is kept under its hash reference, in place of any that had it, and all
/// others are kept; the listing holds exactly the pairs that are kept, each reference once.
pub proof fn key_packages_are_kept_and_listed(
    before: User,
    after: User,
    hash_ref: Vec<u8>,
    key_package: Vec<u8>,
    pair: (Vec<u8>, Vec<u8>),
    listed: Vec<(Vec<u8>, Vec<u8>)>,
)
    requires
        exists|u: &mut User|
            *u == before && *final(u) == after && #[trigger] call_ensures(
                User::add_key_package,
                (u, hash_ref, key_package),
                pair,
            ),
        call_ensures(User::key_packages, (&after,), listed),
    ensures
        after == (User { key_packages: after.key_packages, ..before }),
        pair.0@ == hash_ref@ && pair.1@ == key_package@,
        after.key_packages@.contains_key(hash_ref@),
        after.key_packages@[hash_ref@]@ == key_package@,
        forall|h: Seq<u8>|
            h != hash_ref@ ==> (#[trigger] after.key_packages@.contains_key(h)
                <==> before.key_packages@.contains_key(h)),
        forall|h: Seq<u8>|
            h != hash_ref@ && before.key_packages@.contains_key(h)
                ==> #[trigger] after.key_packages@[h] == before.key_packages@[h],
        forall|i: int|
            0 <= i < listed@.len() ==> after.key_packages@.contains_key((#[trigger] listed@[i]).0@)
                && after.key_packages@[listed@[i].0@]@ == listed@[i].1@,
        forall|i: int, j: int|
            0 <= i < j < listed@.len() ==> (#[trigger] listed@[i]).0@ != (#[trigger] listed@[j]).0@,
        forall|h: Seq<u8>| #[trigger]
            after.key_packages@.contains_key(h) ==> exists|i: int|
                0 <= i < listed@.len() && (#[trigger] listed@[i]).0@ == h,
{
    let refs = listed@.map_values(|p: (Vec<u8>, Vec<u8>)| p.0@);
    assert forall|i: int| 0 <= i < listed@.len() implies after.key_packages@.contains_key(
        (#[trigger] listed@[i]).0@,
    ) && after.key_packages@[listed@[i].0@]@ == listed@[i].1@ by {
        assert(refs[i] == listed@[i].0@);
        assert(refs.contains(listed@[i].0@));
    }
    assert forall|i: int, j: int| 0 <= i < j < listed@.len() implies (#[trigger] listed@[i]).0@ != (
    #[trigger] listed@[j]).0@ by {
        assert(refs[i] == listed@[i].0@ && refs[j] == listed@[j].0@);
    }
    assert forall|h: Seq<u8>| #[trigger] after.key_packages@.contains_key(h) implies exists|i: int|
        0 <= i < listed@.len() && (#[trigger] listed@[i]).0@ == h by {
        assert(refs.contains(h));
        let i = refs.index_of(h);
        assert(listed@[i].0@ == h);
    }
}

/// A new key package is kept just as any is, and published: to the server under the user's
/// identity with its hash reference, to a broker under the user's name.
pub proof fn new_key_packages_are_published(
    before: User,
    after: User,
    kept: User,
    hash_ref: Vec<u8>,
    key_package: Vec<u8>,
    pair: (Vec<u8>, Vec<u8>),
    r: DirectoryCall<(Vec<u8>, ClientKeyPackages), (String, Vec<u8>)>,
)
    requires
        exists|u: &mut User|
            *u == before && *final(u) == after && #[trigger] call_ensures(
                User::create_kp,
                (u, hash_ref, key_package),
                r,
            ),
        exists|u: &mut User|
            *u == before && *final(u) == kept && #[trigger] call_ensures(
                User::add_key_package,
                (u, hash_ref, key_package),
                pair,
            ),
    ensures
        after == (User { key_packages: after.key_packages, ..before }),
        after.key_packages@.dom() == kept.key_packages@.dom(),
        forall|h: Seq<u8>|
            kept.key_packages@.contains_key(h) ==> #[trigger] after.key_packages@[h]@
                == kept.key_packages@[h]@,
        match r {
            DirectoryCall::Server((identity, packages)) => {
                &&& asks_the_server(before)
                &&& identity@ == encode_utf8(before.username@)
                &&& packages.packages@.len() == 1
                &&& tls_contents(packages.packages@[0].0) == hash_ref@
                &&& packages.packages@[0].1@ == key_package@
            },
            DirectoryCall::Broker((username, package)) => {
                &&& !asks_the_server(before)
                &&& username@ == before.username@
                &&& package@ == key_package@
            },
        },
{
    assert(after.key_packages@.dom() =~= kept.key_packages@.dom());
}

/// A key package that could not be published is an error, which says so if it was for the
/// server.
pub proof fn unpublished_key_packages_are_errors(
    user: User,
    reply: Result<(), String>,
    r: Result<(), String>,
)
    requires
        call_ensures(User::kp_published, (&user, reply), r),
    ensures
        r is Ok <==> reply is Ok,
        reply matches Err(e) ==> (r matches Err(text) && if asks_the_server(user) {
            text@ == "Error sending new key package: "@ + e@
        } else {
            text@ == e@
        }),
{
}

/// A message is addressed by the client only where there is no broker to do so, and then to
/// all members but the user.
pub proof fn brokers_address_messages_themselves(
    user: User,
    state: MlsState,
    r: Vec<Vec<u8>>,
) -> (places: Seq<int>)
    requires
        call_ensures(User::group_recipients, (&user, &state), r),
    ensures
        user.ds is Request ==> addresses_the_others(user, state.members@, r@, places),
        !(user.ds is Request) ==> r@.len() == 0,
{
    assert(r@.map_values(|b: Vec<u8>| b@).len() == r@.len());
    if user.ds is Request {
        others_are_addressed(user, state.members@, r@)
    } else {
        Seq::empty()
    }
}

/// A message is sent as it is, under the user's identity and to the addresses given.
pub proof fn messages_are_sent_as_they_are(
    user: User,
    group_name: String,
    message: Vec<u8>,
    recipients: Vec<Vec<u8>>,
    r: Outgoing,
)
    requires
        call_ensures(User::send_to_group, (&user, group_name, message, recipients), r),
    ensures
        match r {
            Outgoing::Backend(m) => user.ds is Request && is_plain_message(user, m, message@)
                && m.recipients@.len() == recipients@.len() && forall|i: int|
                0 <= i < recipients@.len() ==> (#[trigger] m.recipients@[i])@ == recipients@[i]@,
            Outgoing::Broker(m, topic) => !(user.ds is Request) && is_plain_message(
                user,
                m,
                message@,
            ) && topic@ == group_name@ && m.recipients@.len() == recipients@.len() && forall|i: int|
                0 <= i < recipients@.len() ==> (#[trigger] m.recipients@[i])@ == recipients@[i]@,
        },
{
    let m = match r {
        Outgoing::Backend(m) => m,
        Outgoing::Broker(m, _) => m,
    };
    let sent = m.recipients@.map_values(|b: Vec<u8>| b@);
    let given = recipients@.map_values(|b: Vec<u8>| b@);
    assert(sent == given);
    assert(sent.len() == m.recipients@.len() && given.len() == recipients@.len());
    assert forall|i: int| 0 <= i < recipients@.len() implies (#[trigger] m.recipients@[i])@
        == recipients@[i]@ by {
        assert(sent[i] == m.recipients@[i]@ && given[i] == recipients@[i]@);
    }
}

/// An application message is begun with the encoding of its text in every group that the user
/// is in and in which no commit is pending, and in no other.
pub proof fn application_messages_wait_for_commits(
    user: User,
    msg: String,
    group_name: String,
    r: Result<Vec<u8>, String>,
)
    requires
        call_ensures(User::send_application_msg, (&user, &msg, &group_name), r),
    ensures
        r is Ok <==> user.groups@.contains_key(group_name@) && !user.pending_commits@.contains_key(
            group_name@,
        ),
        r matches Ok(payload) ==> payload@ == encode_utf8(msg@),
        user.pending_commits@.contains_key(group_name@) ==> (r matches Err(e) && e@
            == "There is a pending commit"@),
        !user.pending_commits@.contains_key(group_name@) && !user.groups@.contains_key(group_name@)
            ==> (r matches Err(e) && e@ == "Unknown group"@),
{
}

/// An application message that the engine has made goes out to the group.
pub proof fn application_messages_go_out(
    user: User,
    group_name: String,
    reply: Result<Vec<u8>, String>,
    r: Result<Outgoing, String>,
)
    requires
        call_ensures(User::application_msg_created, (&user, group_name, reply), r),
    ensures
        reply matches Ok(message) ==> (r matches Ok(out) && goes_out(
            user,
            out,
            group_name@,
            message@,
        )),
        reply matches Err(e) ==> (r matches Err(text) && text == e),
{
    if let Ok(message) = reply {
        group_messages_go_out(user, r->Ok_0, group_name, message);
    }
}

/// The information on a group that the user is in can be published, and is under the name
/// that the group's identifier spells.
pub proof fn group_information_is_published(
    user: User,
    group_name: String,
    begun: Result<(), String>,
    state: MlsState,
    reply: Result<GroupInfoAndTree, String>,
    r: Result<PublishGroupInfo, String>,
    info: GroupInfoAndTree,
    direct: PublishGroupInfo,
)
    requires
        call_ensures(User::publish_group_info, (&user, &group_name), begun),
        call_ensures(User::group_info_exported, (&user, &state, reply), r),
        call_ensures(User::_publish_group_info, (&user, &state, info), direct),
    ensures
        begun is Ok <==> user.groups@.contains_key(group_name@),
        begun matches Err(e) ==> e@ == "Unknown group"@,
        reply matches Ok(exported) ==> (r matches Ok(call) && publishes_under(
            user,
            call,
            decode_utf8(state.group_id@),
            exported,
        )),
        reply matches Err(e) ==> (r matches Err(text) && text@ == "Failed to export group info - "@
            + e@),
        publishes_under(user, direct, decode_utf8(state.group_id@), info),
{
}

/// Taking over the state of a group changes that state and nothing else.
pub proof fn states_are_taken_over(before: User, after: User, group_name: String, state: MlsState)
    requires
        exists|u: &mut User|
            *u == before && *final(u) == after && #[trigger] call_ensures(
                User::set_group_state,
                (u, &group_name, state),
                (),
            ),
        before.groups@.contains_key(group_name@),
    ensures
        only_group_changed(before, after, group_name@),
        after.groups@[group_name@].mls_group == state,
        after.groups@[group_name@].conversation == before.groups@[group_name@].conversation,
        after.groups@[group_name@].group_name == before.groups@[group_name@].group_name,
{
}

/// A user acknowledges under its own name, and tells its agent the group.
pub proof fn acknowledgements_name_user_and_group(
    user: User,
    group_name: String,
    ack: WelcomeAcknowledgement,
    told: String,
)
    requires
        call_ensures(User::send_ack, (&user, group_name), ack),
        call_ensures(User::send_to_agent, (&user, group_name), told),
    ensures
        ack.sender@ == user.username@,
        ack.group@ == group_name@,
        told@ == group_name@,
{
}

/// Acknowledgements of others count with the orchestrator of their group; the user's own, and
/// those for an independent user, count with no one.
pub proof fn acknowledgements_of_others_count(
    user: User,
    ack: WelcomeAcknowledgement,
    r: Option<String>,
)
    requires
        call_ensures(User::process_ack, (&user, ack), r),
    ensures
        r is Some <==> ack.sender@ != user.username@ && user.agent_type is Orchestrator,
        r matches Some(group) ==> group@ == ack.group@,
{
}

/// What the orchestrator of a group knows is kept for that group, and that of all others stays;
/// the agent is told of the group exactly if it is the user's turn to commit.
pub proof fn orchestrators_are_heard(
    before: User,
    after: User,
    group_name: String,
    reply: OrchestratorReply,
    r: Option<String>,
)
    requires
        exists|u: &mut User|
            *u == before && *final(u) == after && #[trigger] call_ensures(
                User::orchestrator_replied,
                (u, group_name, reply),
                r,
            ),
    ensures
        after == (User { agent_type: after.agent_type, ..before }),
        before.agent_type matches AgentType::Orchestrator(was) && (
        after.agent_type matches AgentType::Orchestrator(now) && {
            &&& now@.contains_key(group_name@)
            &&& now@[group_name@] == reply.known_members
            &&& forall|name: Seq<char>|
                name != group_name@ ==> (#[trigger] now@.contains_key(name)
                    <==> was@.contains_key(name))
            &&& forall|name: Seq<char>|
                name != group_name@ && was@.contains_key(name) ==> #[trigger] now@[name]
                    == was@[name]
        }),
        r is Some <==> reply.next_action is Commit,
        r matches Some(msg) ==> msg@ == group_name@,
{
}

} // verus!
