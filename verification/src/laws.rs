//! What holds of a user over several operations.
use crate::action::{CGKAAction, MergeTime, ProcessCryptoTime};
use crate::chance::is_choice;
use crate::commits::{
    CommitSent, ConfirmCommit, ConfirmedCommit, MergedCommit, PublishCommit, SendCommit,
};
use crate::delivery::{GroupMessage, Outgoing};
use crate::inbox::{AcceptedWelcome, InMessageStep, JoinedGroup, MessageIn, WelcomeIn};
use crate::incoming::{
    nothing, DecideNext, DecidedStep, MergeStaged, PostUpdateActions, PostUpdateStep,
    ProcessMessage, ProcessedStep, ProtocolStep,
};
use crate::mls::{
    AuthorizationPolicy, ContentType, Member, MlsState, NextAction, ProcessedMessage,
    ProtocolMessage, QueuedProposal,
};
use crate::profiling::Profiler;
use crate::proposals::{references_at, removals, removes};
use crate::record::{log_text, ActionRecord, EpochChange};
use crate::services::{pair_set, OrchestratorCommit};
use crate::text::{names_survive_encoding, texts};
use crate::user::{StoredWelcome, User};
use vstd::prelude::*;
use vstd::utf8::*;

verus! {

/// Confirming a commit a second time does nothing.
pub proof fn confirming_again_does_nothing(
    before: User,
    between: User,
    after: User,
    group_name: String,
    first: Result<Option<ConfirmCommit>, String>,
    second: Result<Option<ConfirmCommit>, String>,
)
    requires
        between.confirm_begins(before, group_name, first),
        after.confirm_begins(between, group_name, second),
    ensures
        after == between,
        second == Ok::<Option<ConfirmCommit>, String>(None),
{
}

/// What is confirmed in a group is what was sent to it last, and confirming it takes back
/// nothing but that it was pending: what the user knows is otherwise as it was before.
pub proof fn what_was_sent_is_confirmed(
    before: User,
    between: User,
    after: User,
    sent: SendCommit,
    reply: Result<(), String>,
    r: Result<CommitSent, String>,
    confirm: Result<Option<ConfirmCommit>, String>,
)
    requires
        between.commit_is_sent(before, sent, reply, r),
        r is Ok,
        after.confirm_begins(between, sent.group_name, confirm),
        before.groups@.contains_key(sent.group_name@),
    ensures
        confirm == Ok::<Option<ConfirmCommit>, String>(
            Some(ConfirmCommit { group_name: sent.group_name, pending: sent.pending }),
        ),
        after == (User { pending_commits: after.pending_commits, ..before }),
        after.pending_commits@ == before.pending_commits@.remove(sent.group_name@),
{
    assert(before.pending_commits@.insert(sent.group_name@, sent.pending).remove(sent.group_name@)
        =~= before.pending_commits@.remove(sent.group_name@));
}

/// From the moment a commit is sent until it is taken up to be confirmed, the user sends no
/// application message to the group; after that it does again.
pub proof fn pending_commits_hold_messages_back(
    before: User,
    between: User,
    after: User,
    sent: SendCommit,
    reply: Result<(), String>,
    r: Result<CommitSent, String>,
    confirm: Result<Option<ConfirmCommit>, String>,
    msg: Seq<char>,
    held: Result<Vec<u8>, String>,
    let_through: Result<Vec<u8>, String>,
)
    requires
        between.commit_is_sent(before, sent, reply, r),
        r is Ok,
        after.confirm_begins(between, sent.group_name, confirm),
        before.groups@.contains_key(sent.group_name@),
        between.message_is_begun(msg, sent.group_name@, held),
        after.message_is_begun(msg, sent.group_name@, let_through),
    ensures
        held matches Err(e) && e@ == "There is a pending commit"@,
        let_through matches Ok(payload) && payload@ == encode_utf8(msg),
{
}

/// A commit of a later epoch puts the user out of step with its group: from then on no
/// policy lets it issue updates there.
pub proof fn later_commits_take_authorisation(
    before: User,
    after: User,
    message: ProtocolMessage,
    sender: String,
    timestamp: i64,
    step: ProtocolStep,
    policy: AuthorizationPolicy,
    r: Result<bool, String>,
)
    requires
        after.message_begins(before, message, sender, timestamp, step),
        before.groups@.contains_key(decode_utf8(message.group_id@)),
        before.groups@[decode_utf8(message.group_id@)].mls_group.epoch < message.epoch,
        message.content_type == ContentType::Commit,
        after.authorisation(decode_utf8(message.group_id@), policy, r),
    ensures
        r == Ok::<bool, String>(false),
{
}

/// An application message or a proposal of a later epoch changes nothing and is not logged.
pub proof fn later_messages_are_dropped(
    before: User,
    after: User,
    message: ProtocolMessage,
    sender: String,
    timestamp: i64,
    step: ProtocolStep,
)
    requires
        after.message_begins(before, message, sender, timestamp, step),
        before.groups@.contains_key(decode_utf8(message.group_id@)),
        before.groups@[decode_utf8(message.group_id@)].mls_group.epoch < message.epoch,
        message.content_type != ContentType::Commit,
    ensures
        after == before,
        step == ProtocolStep::Done(nothing()),
{
}

/// A user who falls out of step logs the commit that shows it, and of the later commits
/// exactly the next one in turn.
pub proof fn out_of_step_commits_are_logged_in_turn(
    before: User,
    between: User,
    after: User,
    first: ProtocolMessage,
    second: ProtocolMessage,
    sender: String,
    timestamp: i64,
    first_step: ProtocolStep,
    second_step: ProtocolStep,
)
    requires
        between.message_begins(before, first, sender, timestamp, first_step),
        after.message_begins(between, second, sender, timestamp, second_step),
        first.group_id@ == second.group_id@,
        before.groups@.contains_key(decode_utf8(first.group_id@)),
        before.groups@[decode_utf8(first.group_id@)].mls_group.epoch < first.epoch,
        before.groups@[decode_utf8(first.group_id@)].mls_group.epoch < second.epoch,
        first.content_type == ContentType::Commit,
        second.content_type == ContentType::Commit,
        first.epoch < u64::MAX,
        second.epoch < u64::MAX,
        before.in_step(decode_utf8(first.group_id@)),
    ensures
        first_step matches ProtocolStep::Done(outcome) && outcome.record is Some,
        second_step matches ProtocolStep::Done(outcome) && (outcome.record is Some <==> second.epoch
            == first.epoch + 1),
{
}

/// A message that comes back to the user who sent it confirms the pending commit of its
/// group; for any user with another name it does not.
pub proof fn messages_are_known_by_their_sender(
    sender: User,
    receiver: User,
    out: Outgoing,
    group_name: String,
    msg: Vec<u8>,
    recipients: Seq<Seq<u8>>,
    message: MessageIn,
    r: Result<InMessageStep, String>,
)
    requires
        sender.goes_to_group(out, group_name, msg, recipients),
        message.sender@ == match out {
            Outgoing::Backend(m) => m.sender@,
            Outgoing::Broker(m, _) => m.sender@,
        },
        message.protocol_message() matches Some(m) && m.group_id@ == encode_utf8(group_name@),
        receiver.is_taken_in(message, r),
    ensures
        receiver.username@ == sender.username@ ==> (r matches Ok(InMessageStep::Confirm(g)) && g@
            == group_name@),
        receiver.username@ != sender.username@ ==> (r matches Ok(InMessageStep::Process(_, s))
            && s@ == sender.username@),
{
    encode_utf8_decode_utf8(sender.username@);
    encode_utf8_decode_utf8(group_name@);
}

/// The orchestrator of a welcomed user starts from the members that the orchestrator of the
/// welcoming user knows to be active, and is told of the same new members.
pub proof fn welcomes_carry_names(
    sender: User,
    receiver: User,
    sent: GroupMessage,
    welcome: StoredWelcome,
    ratchet_tree: Vec<u8>,
    group_name: Seq<char>,
    received: WelcomeIn,
    joined: JoinedGroup,
    accepted: AcceptedWelcome,
)
    requires
        sender.agent_type is Orchestrator,
        receiver.agent_type is Orchestrator,
        sender.is_welcome_message(sent, welcome, ratchet_tree, group_name),
        received.active_members == sent.active_members,
        received.recipients == sent.recipients,
        receiver.is_welcomed(accepted, received, joined),
    ensures
        receiver.welcome_is_legible(received),
        accepted.orchestrator matches Some(o) && {
            &&& Some(texts(o.active_members@)) == sender.active_members(group_name)
            &&& texts(o.commit.new_members@) == texts(welcome.recipients@)
        },
{
    names_survive_encoding(texts(welcome.recipients@));
    names_survive_encoding(sender.active_members(group_name)->Some_0);
}

/// A commit of the group's own epoch that is merged and does not make the user leave is
/// recorded once, under its sender, in the epoch after it and with the members after it.
pub proof fn followed_commits_are_recorded(
    users: Seq<User>,
    message: ProtocolMessage,
    sender: String,
    timestamp: i64,
    process: ProcessMessage,
    processed: ProcessedMessage,
    merge: MergeStaged,
    state: MlsState,
    decide: DecideNext,
    call: Option<OrchestratorCommit>,
    prof: Option<Profiler>,
    next_action: NextAction,
    elapsed: u128,
    elapsed_now: u128,
    step: DecidedStep,
)
    requires
        users.len() == 4,
        users[1].message_begins(
            users[0],
            message,
            sender,
            timestamp,
            ProtocolStep::Process(process),
        ),
        message.epoch == users[0].groups@[decode_utf8(message.group_id@)].mls_group.epoch,
        message.epoch < u64::MAX,
        processed.content is StagedCommitMessage,
        users[2].message_is_processed(
            users[1],
            process,
            Ok(processed),
            Ok(ProcessedStep::Merge(merge)),
        ),
        users[3].staged_is_merged(users[2], merge, Ok(state), Ok((decide, call))),
        users[3].is_decided(decide, prof, next_action, elapsed, elapsed_now, step),
        !merge.self_removed,
        next_action != NextAction::Inactive,
    ensures
        users[2] == users[0],
        users[3].regrouped(users[0], decode_utf8(message.group_id@), state),
        step.outcome.post_update == PostUpdateActions::Nothing,
        step.outcome.record matches Some(record) && record.holds(
            decode_utf8(message.group_id@),
            CGKAAction::DeepProcess(
                sender,
                ProcessCryptoTime::of(Profiler::recorded(prof)),
                MergeTime::of(Profiler::recorded(prof)),
            ),
            (EpochChange { timestamp, epoch: (message.epoch + 1) as u64 }),
            elapsed,
            state.members@.len(),
        ),
{
}

/// A user who is removed by a commit, or goes inactive after it, is asked to leave the
/// group that the commit was for.
pub proof fn removed_users_leave(
    users: Seq<User>,
    merge: MergeStaged,
    state: MlsState,
    decide: DecideNext,
    call: Option<OrchestratorCommit>,
    prof: Option<Profiler>,
    next_action: NextAction,
    elapsed: u128,
    elapsed_now: u128,
    decided: DecidedStep,
    step: PostUpdateStep,
)
    requires
        users.len() == 3,
        users[1].staged_is_merged(users[0], merge, Ok(state), Ok((decide, call))),
        users[1].is_decided(decide, prof, next_action, elapsed, elapsed_now, decided),
        merge.self_removed || next_action == NextAction::Inactive,
        users[2].is_updated(users[1], decided.outcome, step),
    ensures
        step matches PostUpdateStep::Leave { log, leave } && {
            &&& log@ == log_text(users[0].file_buffer@, users[0].username@)
            &&& leave matches Ok(l)
            &&& l.group_name@ == decode_utf8(state.group_id@)
            &&& l.record is Some
        },
        users[2].file_buffer@ == Seq::<ActionRecord>::empty(),
{
}

/// A commit that is sent and confirmed is logged with the time at which it was sent, in the
/// epoch after the one it was sent in, and with the members that it leaves.
pub proof fn confirmed_commits_are_logged(
    users: Seq<User>,
    send: SendCommit,
    group_name: String,
    msg_out: Vec<u8>,
    group_info: Option<Vec<u8>>,
    welcome: Option<StoredWelcome>,
    action: CGKAAction,
    elapsed_time: u128,
    timestamp: i64,
    sent: CommitSent,
    state: MlsState,
    ratchet_tree: Vec<u8>,
    merged: MergedCommit,
    publish: PublishCommit,
    confirmed: ConfirmedCommit,
    call: Option<OrchestratorCommit>,
    merge_total: u128,
)
    requires
        users.len() == 4,
        users[0].groups@.contains_key(group_name@),
        users[0].groups@[group_name@].mls_group.epoch < u64::MAX,
        elapsed_time + merge_total <= u128::MAX,
        users[0].sends_commit(
            send,
            group_name,
            msg_out,
            group_info,
            welcome,
            action,
            elapsed_time,
            timestamp,
        ),
        users[1].commit_is_sent(users[0], send, Ok(()), Ok(sent)),
        users[2].confirm_begins(
            users[1],
            group_name,
            Ok(Some(ConfirmCommit { group_name, pending: send.pending })),
        ),
        users[3].is_merged(
            users[2],
            (ConfirmCommit { group_name, pending: send.pending }),
            state,
            ratchet_tree,
            merged,
        ),
        User::is_publishing(publish, merged),
        users[3].is_published(publish, Ok(()), Ok((confirmed, call))),
    ensures
        users[3].confirmed_record(confirmed, merge_total).holds(
            group_name@,
            action,
            (EpochChange {
                timestamp,
                epoch: (users[0].groups@[group_name@].mls_group.epoch + 1) as u64,
            }),
            (elapsed_time + merge_total) as u128,
            state.members@.len(),
        ),
        sent.epoch_change == (EpochChange {
            timestamp,
            epoch: users[0].groups@[group_name@].mls_group.epoch,
        }),
{
}

/// The welcome of a commit waits until the commit is merged, and is then sent once for each
/// user whom it is for; a commit without a welcome welcomes no one.
pub proof fn welcomes_wait_for_the_merge(
    users: Seq<User>,
    send: SendCommit,
    group_name: String,
    msg_out: Vec<u8>,
    group_info: Option<Vec<u8>>,
    welcome: Option<StoredWelcome>,
    action: CGKAAction,
    elapsed_time: u128,
    timestamp: i64,
    sent: CommitSent,
    confirm: ConfirmCommit,
    state: MlsState,
    ratchet_tree: Vec<u8>,
    merged: MergedCommit,
)
    requires
        users.len() == 4,
        users[0].groups@.contains_key(group_name@),
        users[0].sends_commit(
            send,
            group_name,
            msg_out,
            group_info,
            welcome,
            action,
            elapsed_time,
            timestamp,
        ),
        users[1].commit_is_sent(users[0], send, Ok(()), Ok(sent)),
        users[2].confirm_begins(users[1], group_name, Ok(Some(confirm))),
        users[3].is_merged(users[2], confirm, state, ratchet_tree, merged),
    ensures
        match welcome {
            None => merged.welcomes@.len() == 0 && merged.new_members@.len() == 0,
            Some(w) => users[2].welcomes_all(merged.welcomes@, w, ratchet_tree, group_name@)
                && merged.new_members == w.recipients,
        },
{
}

/// The other members among a list of members.
pub open spec fn others(members: Seq<Member>, own: Seq<u8>) -> Seq<Seq<u8>> {
    members.filter_map(
        |m: Member|
            if m.identity@ == own {
                None
            } else {
                Some(m.identity@)
            },
    )
}

/// A message to a group is addressed to every other member by its identity, in order, and
/// never to the user itself.
pub proof fn messages_go_to_the_others(user: User, members: Seq<Member>)
    requires
        user.wf(),
    ensures
        user.recipients_of(members) == others(members, user.identity()),
        !user.recipients_of(members).contains(user.identity()),
    decreases members.len(),
{
    if members.len() > 0 {
        messages_go_to_the_others(user, members.drop_last());
        let m = members.last();
        let rest = user.recipients_of(members.drop_last());
        assert(user.recipients_of(members) == match user.recipient(m.identity@) {
            Some(id) => rest + seq![id],
            None => rest,
        });
        assert(others(members, user.identity()) == if m.identity@ == user.identity() {
            rest
        } else {
            rest + seq![m.identity@]
        });
        if user.recipients_of(members).contains(user.identity()) {
            let i = user.recipients_of(members).index_of(user.identity());
            if i < rest.len() {
                assert(rest[i] == user.identity());
                assert(rest.contains(user.identity()));
            }
        }
    }
}

proof fn outsiders_are_listed(user: User, ids: Seq<Seq<u8>>, members: Seq<Seq<u8>>, id: Seq<u8>)
    requires
        ids.contains(id),
        !members.contains(user.contacts@[id].id@),
    ensures
        user.contacts_outside(ids, members).contains(user.contacts@[id].username@),
    decreases ids.len(),
{
    let name = user.contacts@[id].username@;
    let rest = user.contacts_outside(ids.drop_last(), members);
    let list = user.contacts_outside(ids, members);
    if ids.last() == id {
        assert(list == rest + seq![name]);
        assert(list[rest.len() as int] == name);
    } else {
        let i = ids.index_of(id);
        assert(ids.drop_last()[i] == id);
        outsiders_are_listed(user, ids.drop_last(), members, id);
        let j = rest.index_of(name);
        assert(list[j] == name);
    }
}

proof fn listed_are_outsiders(user: User, ids: Seq<Seq<u8>>, members: Seq<Seq<u8>>, name: Seq<char>) -> (id:
    Seq<u8>)
    requires
        user.contacts_outside(ids, members).contains(name),
    ensures
        ids.contains(id),
        !members.contains(user.contacts@[id].id@),
        user.contacts@[id].username@ == name,
    decreases ids.len(),
{
    let rest = user.contacts_outside(ids.drop_last(), members);
    let list = user.contacts_outside(ids, members);
    let last = ids.last();
    if rest.contains(name) {
        let id = listed_are_outsiders(user, ids.drop_last(), members, name);
        let i = ids.drop_last().index_of(id);
        assert(ids[i] == id);
        id
    } else {
        let i = list.index_of(name);
        if i < rest.len() {
            assert(rest[i] == name);
        }
        assert(ids[ids.len() - 1] == last);
        last
    }
}

/// Of a group that the user is in, exactly those contacts are listed as outsiders that are
/// not among the other members.
pub proof fn contacts_are_inside_or_outside(user: User, group_name: Seq<char>, name: Seq<char>)
    requires
        user.wf(),
        user.contacts.order_lists_keys(),
    ensures
        user.contacts_outside(user.contacts.order(), user.others_in(group_name)).contains(name)
            <==> exists|id: Seq<u8>| #[trigger]
            user.contacts@.contains_key(id) && user.contacts@[id].username@ == name
                && !user.others_in(group_name).contains(id),
{
    let order = user.contacts.order();
    let members = user.others_in(group_name);
    if user.contacts_outside(order, members).contains(name) {
        let id = listed_are_outsiders(user, order, members, name);
        assert(user.contacts@.contains_key(id));
    }
    if exists|id: Seq<u8>| #[trigger]
        user.contacts@.contains_key(id) && user.contacts@[id].username@ == name && !members.contains(
            id,
        ) {
        let id = choose|id: Seq<u8>| #[trigger]
            user.contacts@.contains_key(id) && user.contacts@[id].username@ == name
                && !members.contains(id);
        assert(order.contains(id));
        outsiders_are_listed(user, order, members, id);
    }
}

/// Under a policy that singles out a member, no two members of a group with different
/// leaves are authorised.
pub proof fn one_leaf_is_authorised(a: MlsState, b: MlsState, policy: AuthorizationPolicy)
    requires
        policy != AuthorizationPolicy::Random,
        a.members@.len() == b.members@.len(),
        User::allowed(a, policy),
        User::allowed(b, policy),
    ensures
        a.own_leaf_index == b.own_leaf_index,
{
}

/// The proposals that are left when those with the given references are dropped.
pub open spec fn without(pending: Seq<QueuedProposal>, references: Seq<Seq<u8>>) -> Seq<
    QueuedProposal,
> {
    pending.filter(|p: QueuedProposal| !references.contains(p.reference@))
}

/// No two waiting proposals have the same reference.
pub open spec fn told_apart(pending: Seq<QueuedProposal>) -> bool {
    forall|i: int, j: int|
        0 <= i < j < pending.len() ==> (#[trigger] pending[i]).reference@ != (
        #[trigger] pending[j]).reference@
}

proof fn removals_hold(pending: Seq<QueuedProposal>, leaf: u32, reference: Seq<u8>)
    ensures
        removals(pending, leaf).contains(reference) <==> exists|i: int|
            0 <= i < pending.len() && removes(#[trigger] pending[i], leaf) && pending[i].reference@
                == reference,
    decreases pending.len(),
{
    if pending.len() > 0 {
        let rest = pending.drop_last();
        let last = pending.last();
        removals_hold(rest, leaf, reference);
        let list = removals(pending, leaf);
        let before = removals(rest, leaf);
        assert(list == if removes(last, leaf) {
            before + seq![last.reference@]
        } else {
            before
        });
        if before.contains(reference) {
            assert(list[before.index_of(reference)] == reference);
            let i = choose|i: int|
                0 <= i < rest.len() && removes(#[trigger] rest[i], leaf) && rest[i].reference@
                    == reference;
            assert(removes(pending[i], leaf));
        }
        if list.contains(reference) && !before.contains(reference) {
            let i = list.index_of(reference);
            if i < before.len() {
                assert(before[i] == reference);
            }
            assert(removes(pending[pending.len() - 1], leaf));
        }
        if exists|i: int|
            0 <= i < pending.len() && removes(#[trigger] pending[i], leaf) && pending[i].reference@
                == reference {
            let i = choose|i: int|
                0 <= i < pending.len() && removes(#[trigger] pending[i], leaf)
                    && pending[i].reference@ == reference;
            if i < rest.len() {
                assert(removes(rest[i], leaf));
            } else {
                assert(list[before.len() as int] == reference);
            }
        }
    }
}

proof fn invalid_are_counted(pending: Seq<QueuedProposal>, leaf: u32, n: int)
    requires
        told_apart(pending),
        0 <= n <= pending.len(),
    ensures
        without(pending.take(n), removals(pending, leaf)).len() + removals(pending.take(n), leaf).len()
            == n,
    decreases n,
{
    let references = removals(pending, leaf);
    reveal(Seq::filter);
    if n > 0 {
        invalid_are_counted(pending, leaf, n - 1);
        let part = pending.take(n);
        assert(part.drop_last() =~= pending.take(n - 1));
        let last = part.last();
        removals_hold(pending, leaf, last.reference@);
        if removes(last, leaf) {
            assert(removes(pending[n - 1], leaf));
        } else if references.contains(last.reference@) {
            let i = choose|i: int|
                0 <= i < pending.len() && removes(#[trigger] pending[i], leaf)
                    && pending[i].reference@ == last.reference@;
            assert(pending[n - 1] == last);
            if i < n - 1 {
                assert(pending[i].reference@ != pending[n - 1].reference@);
            } else if i > n - 1 {
                assert(pending[n - 1].reference@ != pending[i].reference@);
            }
        }
    }
}

/// Once the invalid proposals are dropped, none is left that removes the user itself, and
/// as many are left as were counted as pending.
pub proof fn no_one_commits_their_own_removal(state: MlsState)
    requires
        told_apart(state.pending_proposals@),
    ensures
        ({
            let left = without(state.pending_proposals@, User::invalid(state));
            &&& forall|i: int|
                0 <= i < left.len() ==> !removes(#[trigger] left[i], state.own_leaf_index)
            &&& left.len() == state.pending_proposals@.len() - User::invalid(state).len()
        }),
{
    let pending = state.pending_proposals@;
    let leaf = state.own_leaf_index;
    let references = removals(pending, leaf);
    let left = without(pending, references);
    invalid_are_counted(pending, leaf, pending.len() as int);
    assert(pending.take(pending.len() as int) =~= pending);
    assert forall|i: int| 0 <= i < left.len() implies !removes(#[trigger] left[i], leaf) by {
        let keep = |p: QueuedProposal| !references.contains(p.reference@);
        pending.lemma_filter_pred(keep, i);
        assert(left.contains(left[i]));
        pending.lemma_filter_contains_rev(keep, left[i]);
        let j = pending.index_of(left[i]);
        removals_hold(pending, leaf, left[i].reference@);
        if removes(left[i], leaf) {
            assert(removes(pending[j], leaf));
        }
    }
}

/// The chosen places below a bound.
spec fn chosen_below(chosen: Seq<usize>, n: int) -> Set<int> {
    Set::new(|i: int| 0 <= i < n && exists|j: int| 0 <= j < chosen.len() && #[trigger] chosen[j] == i)
}

proof fn chosen_below_grows(chosen: Seq<usize>, n: int)
    requires
        0 <= n,
    ensures
        chosen_below(chosen, n).finite(),
        !chosen_below(chosen, n).contains(n),
        chosen_below(chosen, n + 1) == if exists|j: int|
            0 <= j < chosen.len() && #[trigger] chosen[j] == n {
            chosen_below(chosen, n).insert(n)
        } else {
            chosen_below(chosen, n)
        },
    decreases n,
{
    if n > 0 {
        chosen_below_grows(chosen, n - 1);
    } else {
        assert(chosen_below(chosen, 0) =~= Set::empty());
    }
    if exists|j: int| 0 <= j < chosen.len() && #[trigger] chosen[j] == n {
        assert(chosen_below(chosen, n + 1) =~= chosen_below(chosen, n).insert(n));
    } else {
        assert(chosen_below(chosen, n + 1) =~= chosen_below(chosen, n));
    }
}

proof fn all_chosen_are_below(chosen: Seq<usize>, n: nat, amount: nat)
    requires
        is_choice(chosen, n, amount),
    ensures
        chosen_below(chosen, n as int).len() == amount,
{
    chosen.unique_seq_to_set();
    let places = chosen.to_set();
    let ints = places.map(|i: usize| i as int);
    assert(ints =~= chosen_below(chosen, n as int)) by {
        assert forall|i: int| ints.contains(i) <==> chosen_below(chosen, n as int).contains(i) by {
            if ints.contains(i) {
                let x = choose|x: usize| places.contains(x) && x as int == i;
                assert(chosen.contains(x));
                let j = chosen.index_of(x);
                assert(chosen[j] == i);
            }
            if chosen_below(chosen, n as int).contains(i) {
                let j = choose|j: int| 0 <= j < chosen.len() && #[trigger] chosen[j] == i;
                assert(places.contains(chosen[j]));
            }
        }
    }
    vstd::set_lib::lemma_map_size(places, ints, |i: usize| i as int);
}

proof fn chosen_are_counted(pending: Seq<QueuedProposal>, chosen: Seq<usize>, amount: nat, n: int)
    requires
        told_apart(pending),
        is_choice(chosen, pending.len(), amount),
        0 <= n <= pending.len(),
    ensures
        without(pending.take(n), references_at(pending, chosen)).len() + chosen_below(
            chosen,
            n,
        ).len() == n,
    decreases n,
{
    let references = references_at(pending, chosen);
    reveal(Seq::filter);
    if n == 0 {
        assert(chosen_below(chosen, 0) =~= Set::empty());
    } else {
        chosen_are_counted(pending, chosen, amount, n - 1);
        chosen_below_grows(chosen, n - 1);
        let part = pending.take(n);
        assert(part.drop_last() =~= pending.take(n - 1));
        let last = pending[n - 1];
        if exists|j: int| 0 <= j < chosen.len() && #[trigger] chosen[j] == n - 1 {
            let j = choose|j: int| 0 <= j < chosen.len() && #[trigger] chosen[j] == n - 1;
            assert(references[j] == last.reference@);
        } else if references.contains(last.reference@) {
            let j = references.index_of(last.reference@);
            let i = chosen[j] as int;
            assert(chosen[j] < pending.len());
            assert(pending[i].reference@ == last.reference@);
            if i < n - 1 {
                assert(pending[i].reference@ != pending[n - 1].reference@);
            } else if i > n - 1 {
                assert(pending[n - 1].reference@ != pending[i].reference@);
            }
        }
    }
}

/// Once the surplus proposals are dropped, whichever were chosen, exactly the amount that
/// was asked for is left to be committed.
pub proof fn the_amount_asked_for_is_committed(
    pending: Seq<QueuedProposal>,
    chosen: Seq<usize>,
    amount: nat,
)
    requires
        told_apart(pending),
        amount <= pending.len(),
        is_choice(chosen, pending.len(), (pending.len() - amount) as nat),
    ensures
        without(pending, references_at(pending, chosen)).len() == amount,
{
    let dropped = (pending.len() - amount) as nat;
    chosen_are_counted(pending, chosen, dropped, pending.len() as int);
    all_chosen_are_below(chosen, pending.len(), dropped);
    assert(pending.take(pending.len() as int) =~= pending);
}

proof fn listing_is_what_is_kept(
    user: User,
    pairs: Seq<(Vec<u8>, Vec<u8>)>,
    hash_ref: Seq<u8>,
    key_package: Seq<u8>,
)
    requires
        user.lists_key_packages(pairs),
    ensures
        pair_set(pairs).contains((hash_ref, key_package)) <==> user.key_packages@.contains_key(
            hash_ref,
        ) && user.key_packages@[hash_ref]@ == key_package,
{
    let refs = pairs.map_values(|p: (Vec<u8>, Vec<u8>)| p.0@);
    let views = pairs.map_values(|p: (Vec<u8>, Vec<u8>)| (p.0@, p.1@));
    if views.contains((hash_ref, key_package)) {
        let i = views.index_of((hash_ref, key_package));
        assert(views[i] == (pairs[i].0@, pairs[i].1@));
        assert(refs[i] == hash_ref);
        assert(refs.contains(hash_ref));
    }
    if user.key_packages@.contains_key(hash_ref) && user.key_packages@[hash_ref]@ == key_package {
        assert(refs.contains(hash_ref));
        let i = refs.index_of(hash_ref);
        assert(pairs[i].0@ == hash_ref);
        assert(views[i] == (hash_ref, key_package));
    }
}

/// After a key package was kept, the listing holds it behind its hash reference and every
/// pair with another hash reference that it held before. For a hash reference that was not
/// in use it is the old listing and the new pair.
pub proof fn kept_key_packages_are_listed(
    before: User,
    after: User,
    hash_ref: Seq<u8>,
    key_package: Seq<u8>,
    listed_before: Seq<(Vec<u8>, Vec<u8>)>,
    listed_after: Seq<(Vec<u8>, Vec<u8>)>,
)
    requires
        before.lists_key_packages(listed_before),
        after.keeps_key_package(before, hash_ref, key_package),
        after.lists_key_packages(listed_after),
    ensures
        forall|h: Seq<u8>, k: Seq<u8>| #[trigger]
            pair_set(listed_after).contains((h, k)) <==> if h == hash_ref {
                k == key_package
            } else {
                pair_set(listed_before).contains((h, k))
            },
        !before.key_packages@.contains_key(hash_ref) ==> pair_set(listed_after) == pair_set(
            listed_before,
        ).insert((hash_ref, key_package)),
{
    assert forall|h: Seq<u8>, k: Seq<u8>| #[trigger]
        pair_set(listed_after).contains((h, k)) <==> if h == hash_ref {
            k == key_package
        } else {
            pair_set(listed_before).contains((h, k))
        } by {
        listing_is_what_is_kept(before, listed_before, h, k);
        listing_is_what_is_kept(after, listed_after, h, k);
    }
    if !before.key_packages@.contains_key(hash_ref) {
        let union = pair_set(listed_before).insert((hash_ref, key_package));
        assert forall|p: (Seq<u8>, Seq<u8>)| #[trigger]
            pair_set(listed_after).contains(p) <==> union.contains(p) by {
            let (h, k) = p;
            assert(pair_set(listed_after).contains((h, k)) <==> if h == hash_ref {
                k == key_package
            } else {
                pair_set(listed_before).contains((h, k))
            });
            listing_is_what_is_kept(before, listed_before, h, k);
        }
        assert(pair_set(listed_after) =~= union);
    }
}

} // verus!
