//! What changing a group does: creating and joining one, inviting, removing, refreshing keys,
//! proposing, and committing to what was proposed.
use crate::action::CGKAAction;
use crate::chance::choose_places;
use crate::commits::SendCommit;
use crate::contact_laws::{identity_found_or_not, names_a_member};
use crate::delivery::{BrokerCall, DirectoryCall, GroupInfoAndTree};
use crate::law_terms::{is_fresh, kept_places, lists_places, only_group_changed, time_under};
use crate::membership::{
    AddBundle, AddedMember, CreateGroup, CreatedGroup, CreatedStep, ExternalJoin, Invite,
};
use crate::mls::{CommitBundle, Member, MlsState, Proposal, QueuedProposal};
use crate::profiling::Profiler;
use crate::proposals::{
    invited, removals, CommitPending, DropProposals, ProposalsDropped, Propose, ProposeAction,
    ProposeStep,
};
use crate::record::ActionRecord;
use crate::sending_laws::{asks_for_key_package, commit_goes_out, sent_commits_go_out};
use crate::services::OrchestratorReply;
use crate::user::{AgentType, User};
use vstd::prelude::*;
use vstd::utf8::*;

verus! {

/// The references are, in order, those of the waiting proposals that remove the user itself.
pub open spec fn lists_own_removals(state: MlsState, references: Seq<Vec<u8>>, places: Seq<int>) -> bool {
    let pending = state.pending_proposals@;
    &&& lists_places(
        places,
        pending.len(),
        |i: int| pending[i].proposal == Proposal::Remove(state.own_leaf_index),
    )
    &&& references.len() == places.len()
    &&& forall|k: int|
        0 <= k < references.len() ==> (#[trigger] references[k])@ == pending[places[k]].reference@
}

proof fn own_removals_are_listed(state: MlsState, references: Seq<Vec<u8>>) -> (places: Seq<int>)
    requires
        references.map_values(|b: Vec<u8>| b@) == User::invalid(state),
    ensures
        lists_own_removals(state, references, places),
        User::invalid(state).len() == places.len(),
{
    let pending = state.pending_proposals@;
    let own = state.own_leaf_index;
    let f = |p: QueuedProposal|
        if crate::proposals::removes(p, own) {
            Some(p.reference@)
        } else {
            None
        };
    let wanted = |i: int| pending[i].proposal == Proposal::Remove(own);
    let places = kept_places(pending, f, wanted);
    let bytes = references.map_values(|b: Vec<u8>| b@);
    assert(removals(pending, own) == pending.filter_map(f));
    assert(bytes.len() == references.len());
    assert forall|k: int| 0 <= k < references.len() implies (#[trigger] references[k])@
        == pending[places[k]].reference@ by {
        assert(bytes[k] == references[k]@);
        assert(f(pending[places[k]]) == Some(bytes[k]));
    }
    places
}

/// The proposals that a user cannot commit are those that remove the user itself: every one
/// of them, and no proposal that adds someone, refreshes keys or removes anyone else.
pub proof fn only_own_removals_are_invalid(
    user: User,
    group_name: String,
    r: Result<Vec<Vec<u8>>, String>,
) -> (places: Seq<int>)
    requires
        call_ensures(User::invalid_proposals, (&user, &group_name), r),
    ensures
        user.groups@.contains_key(group_name@) ==> (r matches Ok(references) && lists_own_removals(
            user.groups@[group_name@].mls_group,
            references@,
            places,
        )),
        !user.groups@.contains_key(group_name@) ==> (r matches Err(e) && e@ == "Unknown group"@),
{
    if user.groups@.contains_key(group_name@) {
        own_removals_are_listed(user.groups@[group_name@].mls_group, r->Ok_0@)
    } else {
        Seq::empty()
    }
}

/// As many proposals can be committed as wait and do not remove the user itself: each waiting
/// proposal either is among them or removes the user.
pub proof fn other_proposals_can_be_committed(
    user: User,
    group_name: String,
    r: Result<usize, String>,
) -> (places: Seq<int>)
    requires
        call_ensures(User::pending_proposals, (&user, &group_name), r),
    ensures
        user.groups@.contains_key(group_name@) ==> {
            let state = user.groups@[group_name@].mls_group;
            &&& lists_places(
                places,
                state.pending_proposals@.len(),
                |i: int|
                    state.pending_proposals@[i].proposal == Proposal::Remove(state.own_leaf_index),
            )
            &&& r matches Ok(n) && n + places.len() == state.pending_proposals@.len()
        },
        !user.groups@.contains_key(group_name@) ==> (r matches Err(e) && e@ == "Unknown group"@),
{
    if user.groups@.contains_key(group_name@) {
        let state = user.groups@[group_name@].mls_group;
        let pending = state.pending_proposals@;
        let own = state.own_leaf_index;
        let f = |p: QueuedProposal|
            if crate::proposals::removes(p, own) {
                Some(p.reference@)
            } else {
                None
            };
        let wanted = |i: int| pending[i].proposal == Proposal::Remove(own);
        assert(removals(pending, own) == pending.filter_map(f));
        kept_places(pending, f, wanted)
    } else {
        Seq::empty()
    }
}

/// Committing to proposals begins by dropping those that remove the user itself, and no
/// others; a proposal that adds, refreshes or removes someone else stays.
pub proof fn only_own_removals_are_dropped(
    user: User,
    group_name: String,
    amount: usize,
    r: Result<DropProposals, String>,
) -> (places: Seq<int>)
    requires
        call_ensures(User::commit_to_proposals, (&user, group_name, amount), r),
    ensures
        user.groups@.contains_key(group_name@) ==> (r matches Ok(d) && {
            &&& d.group_name@ == group_name@
            &&& d.amount == amount
            &&& lists_own_removals(
                user.groups@[group_name@].mls_group,
                d.references@,
                places,
            )
        }),
        !user.groups@.contains_key(group_name@) ==> (r matches Err(e) && e@ == "Unknown group"@),
{
    if user.groups@.contains_key(group_name@) {
        own_removals_are_listed(user.groups@[group_name@].mls_group, r->Ok_0.references@)
    } else {
        Seq::empty()
    }
}

/// Places that are chosen by chance are different, as many as asked for and within the bound.
pub proof fn chosen_places_differ(n: usize, amount: usize, r: Vec<usize>)
    requires
        call_ensures(choose_places, (n, amount), r),
    ensures
        r@.len() == amount,
        forall|i: int, j: int| 0 <= i < j < r@.len() ==> #[trigger] r@[i] != #[trigger] r@[j],
        forall|i: int| 0 <= i < r@.len() ==> #[trigger] r@[i] < n,
{
}

/// After the proposals that cannot be committed, so many others are dropped that the amount to
/// commit is left: different ones, each by its reference. The group has the engine's state.
pub proof fn surplus_proposals_are_dropped(
    before: User,
    after: User,
    d: DropProposals,
    reply: ProposalsDropped,
    r: Result<DropProposals, String>,
) -> (chosen: Seq<usize>)
    requires
        exists|u: &mut User|
            *u == before && *final(u) == after && #[trigger] call_ensures(
                User::invalid_dropped,
                (u, d, reply),
                r,
            ),
        before.groups@.contains_key(d.group_name@),
        reply.result is Ok ==> d.amount <= reply.state.pending_proposals@.len(),
    ensures
        takes_over(before, after, d.group_name@, reply.state),
        reply.result matches Err(e) ==> (r matches Err(text) && text@ == "Failed to remove proposal: "@
            + e@),
        reply.result is Ok ==> (r matches Ok(s) && {
            let pending = reply.state.pending_proposals@;
            &&& s.group_name@ == d.group_name@
            &&& s.amount == d.amount
            &&& s.references@.len() + d.amount == pending.len()
            &&& chosen.len() == s.references@.len()
            &&& forall|i: int, j: int|
                0 <= i < j < chosen.len() ==> #[trigger] chosen[i] != #[trigger] chosen[j]
            &&& forall|k: int|
                0 <= k < chosen.len() ==> #[trigger] chosen[k] < pending.len()
                    && s.references@[k]@ == pending[chosen[k] as int].reference@
        }),
{
    if reply.result is Ok {
        let pending = reply.state.pending_proposals@;
        let s = r->Ok_0;
        let chosen = choose|chosen: Seq<usize>| #[trigger]
            crate::chance::is_choice(chosen, pending.len(), (pending.len() - d.amount) as nat)
                && crate::text::byte_strings(s.references@) == crate::proposals::references_at(
                pending,
                chosen,
            );
        let bytes = s.references@.map_values(|b: Vec<u8>| b@);
        assert(bytes.len() == s.references@.len());
        assert forall|k: int| 0 <= k < chosen.len() implies #[trigger] chosen[k] < pending.len()
            && s.references@[k]@ == pending[chosen[k] as int].reference@ by {
            assert(bytes[k] == s.references@[k]@);
        }
        chosen
    } else {
        Seq::empty()
    }
}

/// The group with this name takes over a state, and nothing else changes.
pub open spec fn takes_over(before: User, after: User, name: Seq<char>, state: MlsState) -> bool {
    &&& only_group_changed(before, after, name)
    &&& after.groups@[name].mls_group == state
    &&& after.groups@[name].conversation == before.groups@[name].conversation
    &&& after.groups@[name].group_name == before.groups@[name].group_name
}

/// The proposals at the places that were chosen are dropped, by their references and in the
/// order of the choice.
pub proof fn chosen_proposals_are_dropped(
    before: User,
    after: User,
    d: DropProposals,
    state: MlsState,
    chosen: Vec<usize>,
    r: DropProposals,
)
    requires
        exists|u: &mut User|
            *u == before && *final(u) == after && #[trigger] call_ensures(
                User::surplus_chosen,
                (u, d, state, &chosen),
                r,
            ),
        before.groups@.contains_key(d.group_name@),
    ensures
        takes_over(before, after, d.group_name@, state),
        r.group_name@ == d.group_name@,
        r.amount == d.amount,
        r.references@.len() == chosen@.len(),
        forall|k: int|
            0 <= k < chosen@.len() ==> (#[trigger] r.references@[k])@
                == state.pending_proposals@[chosen@[k] as int].reference@,
{
    let bytes = r.references@.map_values(|b: Vec<u8>| b@);
    assert(bytes.len() == r.references@.len());
    assert forall|k: int| 0 <= k < chosen@.len() implies (#[trigger] r.references@[k])@
        == state.pending_proposals@[chosen@[k] as int].reference@ by {
        assert(bytes[k] == r.references@[k]@);
    }
}

/// An action says what a proposal does: whom it adds, or whom it removes, by the name of the
/// first member with the leaf, or that it refreshes keys.
pub open spec fn tells_proposal(action: CGKAAction, members: Seq<Member>, proposal: Proposal) -> bool {
    match proposal {
        Proposal::Add(identity) => action matches CGKAAction::Invite(user, size) && size == 0
            && user@ == decode_utf8(identity@),
        Proposal::Remove(leaf) => action matches CGKAAction::Remove(user, size) && size == 0
            && forall|j: int|
            0 <= j < members.len() && (#[trigger] members[j]).index == leaf && (forall|k: int|
                0 <= k < j ==> (#[trigger] members[k]).index != leaf) ==> user@ == decode_utf8(
                members[j].identity@,
            ),
        Proposal::Update => action matches CGKAAction::Update(size) && size == 0,
        Proposal::Other => true,
    }
}

/// Once the surplus is dropped, all that still waits is committed, told as one action for each
/// proposal and in their order; the group has the engine's state.
pub proof fn waiting_proposals_are_all_committed(
    before: User,
    after: User,
    d: DropProposals,
    reply: ProposalsDropped,
    r: Result<CommitPending, String>,
)
    requires
        exists|u: &mut User|
            *u == before && *final(u) == after && #[trigger] call_ensures(
                User::surplus_dropped,
                (u, d, reply),
                r,
            ),
        before.groups@.contains_key(d.group_name@),
    ensures
        takes_over(before, after, d.group_name@, reply.state),
        reply.result matches Err(e) ==> (r matches Err(text) && text@ == "Failed to remove proposal: "@
            + e@),
        reply.result is Ok ==> (r matches Ok(c) && {
            &&& c.group_name@ == d.group_name@
            &&& c.proposals@.len() == reply.state.pending_proposals@.len()
            &&& forall|i: int|
                0 <= i < c.proposals@.len() ==> tells_proposal(
                    #[trigger] c.proposals@[i],
                    reply.state.members@,
                    reply.state.pending_proposals@[i].proposal,
                )
        }),
{
    if reply.result is Ok {
        let c = r->Ok_0;
        let members = reply.state.members@;
        assert forall|i: int| 0 <= i < c.proposals@.len() implies tells_proposal(
            #[trigger] c.proposals@[i],
            members,
            reply.state.pending_proposals@[i].proposal,
        ) by {
            if let Proposal::Remove(leaf) = reply.state.pending_proposals@[i].proposal {
                assert forall|j: int|
                    0 <= j < members.len() && (#[trigger] members[j]).index == leaf && (forall|k: int|
                        0 <= k < j ==> (#[trigger] members[k]).index != leaf) implies
                        c.proposals@[i]->Remove_0@ == decode_utf8(members[j].identity@) by {
                    crate::contact_laws::first_with_leaf(members, leaf, j);
                }
            }
        }
    }
}

/// The committed proposals go out as one commit, with their actions and its size. Its welcome,
/// if there is one, is kept for the users whom the proposals invite, in their order and for
/// no one else.
pub proof fn committed_proposals_go_out(
    user: User,
    c: CommitPending,
    reply: Result<CommitBundle, String>,
    elapsed: u128,
    timestamp: i64,
    r: Result<SendCommit, String>,
) -> (places: Seq<int>)
    requires
        call_ensures(User::proposals_committed, (&user, c, reply, elapsed, timestamp), r),
    ensures
        reply matches Err(e) ==> (r matches Err(text) && text == e),
        reply matches Ok(bundle) ==> (r matches Ok(send) && {
            &&& commit_goes_out(
                user,
                send,
                c.group_name@,
                bundle.commit@,
                bundle.group_info,
                CGKAAction::Commit(c.proposals, bundle.commit.len()),
                elapsed,
                timestamp,
            )
            &&& send.pending.welcome is Some <==> bundle.welcome is Some
            &&& send.pending.welcome matches Some(w) ==> {
                &&& w.welcome@ == bundle.welcome->Some_0@
                &&& lists_places(
                    places,
                    c.proposals@.len(),
                    |i: int| c.proposals@[i] is Invite,
                )
                &&& w.recipients@.len() == places.len()
                &&& forall|k: int|
                    0 <= k < places.len() ==> (#[trigger] w.recipients@[k])@
                        == c.proposals@[places[k]]->Invite_0@
            }
        }),
{
    if let Ok(bundle) = reply {
        let send = r->Ok_0;
        sent_commits_go_out(
            user,
            send,
            c.group_name,
            bundle.commit,
            bundle.group_info,
            send.pending.welcome,
            CGKAAction::Commit(c.proposals, bundle.commit.len()),
            elapsed,
            timestamp,
        );
        let f = |a: CGKAAction|
            match a {
                CGKAAction::Invite(user, _) => Some(user@),
                _ => None,
            };
        let wanted = |i: int| c.proposals@[i] is Invite;
        let places = kept_places(c.proposals@, f, wanted);
        assert(invited(c.proposals@) == c.proposals@.filter_map(f));
        if let Some(w) = send.pending.welcome {
            let names = w.recipients@.map_values(|s: String| s@);
            assert(names.len() == w.recipients@.len());
            assert forall|k: int| 0 <= k < places.len() implies (#[trigger] w.recipients@[k])@
                == c.proposals@[places[k]]->Invite_0@ by {
                assert(names[k] == w.recipients@[k]@);
                assert(f(c.proposals@[places[k]]) == Some(names[k]));
                assert(wanted(places[k]));
            }
        }
        places
    } else {
        Seq::empty()
    }
}

/// A user proposes only in groups that it is in. To refresh its keys it needs nothing more;
/// to remove someone, that a member has the name, whose leaf is then proposed.
pub proof fn updates_and_removals_are_proposed(
    user: User,
    action: CGKAAction,
    group_name: String,
    r: Result<ProposeStep, String>,
)
    requires
        call_ensures(User::propose, (&user, action, group_name), r),
        action is Update || action is Remove,
    ensures
        !user.groups@.contains_key(group_name@) ==> (r matches Err(e) && e@ == "Unknown group"@),
        user.groups@.contains_key(group_name@) ==> {
            &&& action is Update ==> (r matches Ok(ProposeStep::Propose(p, Propose::Update))
                && p.action == action && p.group_name@ == group_name@)
            &&& action matches CGKAAction::Remove(name, _) ==> {
                let members = user.groups@[group_name@].mls_group.members@;
                match r {
                    Ok(ProposeStep::Propose(p, Propose::Remove(leaf))) => p.action == action
                        && p.group_name@ == group_name@ && names_a_member(
                        members,
                        name@,
                        Ok(leaf),
                    ),
                    Ok(_) => false,
                    Err(e) => names_a_member(members, name@, Err(e)),
                }
            }
        },
{
    if let CGKAAction::Remove(name, _) = action {
        identity_found_or_not(user.groups@[group_name@].mls_group.members@, encode_utf8(name@));
    }
}

/// An invitation is proposed by asking for a key package of a contact with the name of the
/// invited user. It is refused if a waiting proposal already adds a client with that name, or
/// else if no contact has the name, and only then.
pub proof fn invitations_are_proposed_once(
    user: User,
    name: String,
    size: usize,
    group_name: String,
    r: Result<ProposeStep, String>,
)
    requires
        call_ensures(User::propose, (&user, CGKAAction::Invite(name, size), group_name), r),
    ensures
        !user.groups@.contains_key(group_name@) ==> (r matches Err(e) && e@ == "Unknown group"@),
        user.groups@.contains_key(group_name@) ==> ({
            let pending = user.groups@[group_name@].mls_group.pending_proposals@;
            let already = exists|i: int|
                0 <= i < pending.len() && ((#[trigger] pending[i]).proposal matches Proposal::Add(id)
                    && id@ == encode_utf8(name@));
            let known = exists|id: Seq<u8>| #[trigger]
                user.contacts@.contains_key(id) && user.contacts@[id].username@ == name@;
            &&& already ==> (r matches Err(e) && e@
                == "There is already a pending proposal to add this user."@)
            &&& !already && !known ==> (r matches Err(e) && e@ == "No contact with name "@ + name@
                + " known."@)
            &&& !already && known ==> (r matches Ok(ProposeStep::LookUp(p, call)) && p.action
                == CGKAAction::Invite(name, size) && p.group_name@ == group_name@ && exists|id: Seq<
                u8,
            >| #[trigger]
                user.contacts@.contains_key(id) && user.contacts@[id].username@ == name@
                    && asks_for_key_package(user, call, user.contacts@[id]))
        }),
{
    let pending = user.groups@[group_name@].mls_group.pending_proposals@;
    if exists|i: int|
        0 <= i < pending.len() && ((#[trigger] pending[i]).proposal matches Proposal::Add(id) && id@
            == encode_utf8(name@)) {
        let i = choose|i: int|
            0 <= i < pending.len() && ((#[trigger] pending[i]).proposal matches Proposal::Add(id)
                && id@ == encode_utf8(name@));
        assert(crate::proposals::adds(pending[i], encode_utf8(name@)));
    } else {
        assert(forall|i: int|
            0 <= i < pending.len() ==> !crate::proposals::adds(
                #[trigger] pending[i],
                encode_utf8(name@),
            ));
    }
}

/// With the key package of the invited user, its addition is proposed.
pub proof fn key_packages_are_proposed(
    user: User,
    p: ProposeAction,
    reply: Result<Vec<u8>, String>,
    r: Result<(ProposeAction, Propose), String>,
)
    requires
        call_ensures(User::propose_key_package, (&user, p, reply), r),
    ensures
        reply matches Ok(key_package) ==> (r matches Ok((a, Propose::Add(given))) && a == p
            && given@ == key_package@),
        reply matches Err(e) ==> (r matches Err(text) && text == e),
{
}

/// A proposal goes out with the action that was asked for and the size of the message, and
/// without welcome or information on the group, which has the engine's state.
pub proof fn proposals_go_out(
    before: User,
    after: User,
    p: ProposeAction,
    reply: Result<(Vec<u8>, MlsState), String>,
    elapsed: u128,
    timestamp: i64,
    r: Result<SendCommit, String>,
)
    requires
        exists|u: &mut User|
            *u == before && *final(u) == after && #[trigger] call_ensures(
                User::proposed,
                (u, p, reply, elapsed, timestamp),
                r,
            ),
        before.groups@.contains_key(p.group_name@),
        p.action is Update || p.action is Invite || p.action is Remove,
    ensures
        reply matches Err(e) ==> after == before && (r matches Err(text) && text == e),
        reply matches Ok((message, state)) ==> {
            &&& takes_over(before, after, p.group_name@, state)
            &&& r matches Ok(send) && send.pending.welcome is None && (
            send.pending.record.action matches CGKAAction::Propose(inner) && {
                &&& commit_goes_out(
                    after,
                    send,
                    p.group_name@,
                    message@,
                    None,
                    CGKAAction::Propose(inner),
                    elapsed,
                    timestamp,
                )
                &&& p.action is Update ==> *inner == CGKAAction::Update(message.len())
                &&& p.action matches CGKAAction::Invite(name, _) ==> *inner == CGKAAction::Invite(
                    name,
                    message.len(),
                )
                &&& p.action matches CGKAAction::Remove(name, _) ==> *inner == CGKAAction::Remove(
                    name,
                    message.len(),
                )
            })
        },
{
    if let Ok((message, state)) = reply {
        let send = r->Ok_0;
        sent_commits_go_out(
            after,
            send,
            p.group_name,
            message,
            None,
            None,
            send.pending.record.action,
            elapsed,
            timestamp,
        );
    }
}

/// A group is created under the encoding of its name, with that and " AAD" behind it as its
/// additional data, after a subscription where there is a broker.
pub proof fn groups_are_created_under_their_name(user: User, group_name: String, r: CreateGroup)
    requires
        call_ensures(User::create_group, (&user, &group_name), r),
    ensures
        r.group_id@ == encode_utf8(group_name@),
        r.aad@ == encode_utf8(group_name@ + " AAD"@),
        r.subscribe is None <==> user.ds is Request,
        r.subscribe matches Some(call) ==> (call matches BrokerCall::Subscribe(name) && name@
            == group_name@),
{
}

/// Without its subscription no group is created.
pub proof fn unsubscribed_groups_are_not_created(
    user: User,
    create: CreateGroup,
    reply: Result<(), String>,
    r: Result<CreateGroup, String>,
)
    requires
        call_ensures(User::new_group_subscribed, (&user, create, reply), r),
    ensures
        reply is Ok ==> (r matches Ok(c) && c == create),
        reply matches Err(e) ==> (r matches Err(text) && text == e),
{
}

/// The creator of a group is in step with it, and the creation is to be recorded with one
/// member, in the epoch of the new group.
pub proof fn creators_are_in_step(
    before: User,
    after: User,
    group_name: String,
    state: MlsState,
    elapsed: u128,
    timestamp: i64,
    r: CreatedGroup,
)
    requires
        exists|u: &mut User|
            *u == before && *final(u) == after && #[trigger] call_ensures(
                User::group_created,
                (u, group_name, state, elapsed, timestamp),
                r,
            ),
    ensures
        after == (User { active: after.active, ..before }),
        after.active@ == before.active@.insert(group_name@, (true, 0)),
        r.group_name@ == group_name@,
        r.state == state,
        r.record.group_name@ == group_name@,
        r.record.action is Create,
        r.record.epoch_change.epoch == state.epoch,
        r.record.epoch_change.timestamp == timestamp,
        r.record.elapsed_time == elapsed,
        r.record.num_users == 1,
{
}

/// A published group is one that its creator is in, without messages. An independent creator
/// logs the creation as its record is when it is written down. An orchestrated one gets an
/// orchestrator that knows of no active members and is told of the creator as the only one;
/// its record waits for that. A group that could not be published is not entered.
pub proof fn created_groups_are_entered_once_published(
    before: User,
    after: User,
    wrote: User,
    created: CreatedGroup,
    reply: Result<(), String>,
    r: Result<CreatedStep, String>,
    written: Option<String>,
)
    requires
        exists|u: &mut User|
            *u == before && *final(u) == after && #[trigger] call_ensures(
                User::created_group_published,
                (u, created, reply),
                r,
            ),
        exists|u: &mut User|
            *u == before && *final(u) == wrote && #[trigger] call_ensures(
                User::write_timestamp,
                (u, created.record),
                written,
            ),
    ensures
        reply matches Err(e) ==> after == before && (r matches Err(text) && text == e),
        reply is Ok ==> {
            let name = created.group_name@;
            &&& after == (User {
                groups: after.groups,
                file_buffer: after.file_buffer,
                ..before
            })
            &&& after.groups@ == before.groups@.insert(name, after.groups@[name])
            &&& after.groups@[name].group_name@ == name
            &&& after.groups@[name].mls_group == created.state
            &&& after.groups@[name].conversation.messages@.len() == 0
            &&& before.agent_type is Independent ==> {
                &&& after.file_buffer@ == wrote.file_buffer@
                &&& r matches Ok(CreatedStep::Done(log)) && {
                    &&& log is Some <==> written is Some
                    &&& log matches Some(text) ==> text@ == written->Some_0@
                }
            }
            &&& before.agent_type is Orchestrator ==> {
                &&& after.file_buffer == before.file_buffer
                &&& r matches Ok(CreatedStep::Orchestrate(record, o)) && {
                    &&& record == created.record
                    &&& o.active_members@.len() == 0
                    &&& o.commit.group_name@ == name
                    &&& o.commit.removed_members@.len() == 0
                    &&& o.commit.new_members@.len() == 1
                    &&& o.commit.new_members@[0]@ == before.username@
                    &&& o.commit.total_members == 1
                    &&& o.commit.transcript_hash@ == created.state.transcript_hash@
                }
            }
        },
{
}

/// What the orchestrator of a created group knows is kept as any orchestrator's reply is, and
/// the agent is told of the group.
pub proof fn creators_have_the_first_turn(
    before: User,
    after: User,
    heard: User,
    group_name: String,
    reply: OrchestratorReply,
    r: String,
    told: Option<String>,
)
    requires
        exists|u: &mut User|
            *u == before && *final(u) == after && #[trigger] call_ensures(
                User::created_group_orchestrated,
                (u, group_name, reply),
                r,
            ),
        exists|u: &mut User|
            *u == before && *final(u) == heard && #[trigger] call_ensures(
                User::orchestrator_replied,
                (u, group_name, reply),
                told,
            ),
    ensures
        after == (User { agent_type: after.agent_type, ..before }),
        after.agent_type matches AgentType::Orchestrator(known) && (
        heard.agent_type matches AgentType::Orchestrator(same) && known@ == same@),
        r@ == group_name@,
{
}

/// The creation is logged as its record is when it is written down, unless the agent could
/// not be told.
pub proof fn announced_creations_are_logged(
    before: User,
    after: User,
    wrote: User,
    record: ActionRecord,
    agent_reply: Result<(), String>,
    r: Result<Option<String>, String>,
    written: Option<String>,
)
    requires
        exists|u: &mut User|
            *u == before && *final(u) == after && #[trigger] call_ensures(
                User::created_group_announced,
                (u, record, agent_reply),
                r,
            ),
        exists|u: &mut User|
            *u == before && *final(u) == wrote && #[trigger] call_ensures(
                User::write_timestamp,
                (u, record),
                written,
            ),
    ensures
        agent_reply matches Err(e) ==> after == before && (r matches Err(text) && text == e),
        agent_reply is Ok ==> {
            &&& after == (User { file_buffer: after.file_buffer, ..before })
            &&& after.file_buffer@ == wrote.file_buffer@
            &&& r matches Ok(log) && {
                &&& log is Some <==> written is Some
                &&& log matches Some(text) ==> text@ == written->Some_0@
            }
        },
{
}

/// Any contact can be invited by name: a key package of a contact with that name is asked for,
/// and only if there is none is the invitation refused. A new profile begins.
pub proof fn every_contact_can_be_invited(
    user: User,
    prof: Option<Profiler>,
    name: String,
    group_name: String,
    r: Result<(Invite, DirectoryCall<Vec<u8>, String>), String>,
)
    requires
        exists|p: &mut Option<Profiler>|
            *final(p) == prof && #[trigger] call_ensures(
                User::invite,
                (&user, p, name, group_name),
                r,
            ),
    ensures
        is_fresh(prof),
        r is Ok <==> exists|id: Seq<u8>| #[trigger]
            user.contacts@.contains_key(id) && user.contacts@[id].username@ == name@,
        r matches Ok((invite, call)) ==> invite.name == name && invite.group_name == group_name
            && exists|id: Seq<u8>| #[trigger]
            user.contacts@.contains_key(id) && user.contacts@[id].username@ == name@
                && asks_for_key_package(user, call, user.contacts@[id]),
        r matches Err(e) ==> e@ == "No contact with name "@ + name@ + " known."@,
{
}

/// The engine adds the invited user with its key package, in a group that the user is in.
pub proof fn invited_users_are_added(
    user: User,
    invite: Invite,
    reply: Result<Vec<u8>, String>,
    r: Result<(Invite, Vec<u8>), String>,
    bundle: Result<AddBundle, String>,
    elapsed: u128,
    added: Result<AddedMember, String>,
)
    requires
        call_ensures(User::invite_key_package, (&user, invite, reply), r),
        call_ensures(User::member_added, (&user, invite, bundle, elapsed), added),
    ensures
        r is Ok <==> reply is Ok && user.groups@.contains_key(invite.group_name@),
        r matches Ok((i, key_package)) ==> i == invite && key_package@ == reply->Ok_0@,
        reply matches Err(e) ==> (r matches Err(text) && text == e),
        reply is Ok && !user.groups@.contains_key(invite.group_name@) ==> (r matches Err(text)
            && text@ == "No group with name "@ + invite.group_name@ + " known."@),
        bundle matches Ok(b) ==> (added matches Ok(a) && a.invite == invite && a.bundle == b
            && a.elapsed == elapsed),
        bundle matches Err(e) ==> (added matches Err(text) && text@
            == "Failed to add member to group - "@ + e@),
{
}

/// An invitation goes out once it is merged: with its size, the times that the profile holds
/// and that of merging added, and with a welcome for the invited user alone. The group has
/// the engine's state, and a new profile begins.
pub proof fn invitations_go_out_with_their_times(
    before: User,
    after: User,
    prof: Option<Profiler>,
    prof_after: Option<Profiler>,
    added: AddedMember,
    reply: Result<MlsState, String>,
    timestamp: i64,
    r: Result<SendCommit, String>,
)
    requires
        exists|u: &mut User, p: &mut Option<Profiler>|
            *u == before && *final(u) == after && *p == prof && *final(p) == prof_after
                && #[trigger] call_ensures(User::addition_merged, (u, p, added, reply, timestamp), r),
        before.groups@.contains_key(added.invite.group_name@),
        added.elapsed + time_under(prof, "merge_total"@) <= u128::MAX,
    ensures
        reply matches Err(e) ==> after == before && prof_after == prof && (r matches Err(text)
            && text@ == "Error merging commit; "@ + e@),
        reply matches Ok(state) ==> {
            &&& takes_over(before, after, added.invite.group_name@, state)
            &&& is_fresh(prof_after)
            &&& r matches Ok(send) && (send.pending.record.action matches CGKAAction::DeepCommit(
                size,
                crypto,
                merge,
            ) && {
                &&& commit_goes_out(
                    after,
                    send,
                    added.invite.group_name@,
                    added.bundle.commit@,
                    added.bundle.group_info,
                    send.pending.record.action,
                    (added.elapsed + time_under(prof, "merge_total"@)) as u128,
                    timestamp,
                )
                &&& send.pending.welcome matches Some(w) && {
                    &&& w.welcome@ == added.bundle.welcome@
                    &&& w.recipients@.len() == 1
                    &&& w.recipients@[0]@ == added.invite.name@
                }
                &&& size == added.bundle.commit@.len()
                &&& crypto.total == time_under(prof, "total"@)
                &&& crypto.validation == time_under(prof, "validation"@)
                &&& crypto.apply_proposals == time_under(prof, "apply_proposals"@)
                &&& crypto.tree == time_under(prof, "tree"@)
                &&& crypto.path == time_under(prof, "path"@)
                &&& crypto.tree_hash == time_under(prof, "tree_hash"@)
                &&& crypto.parent_hash == time_under(prof, "parent_hash"@)
                &&& crypto.encrypt_path == time_under(prof, "encrypt_path"@)
                &&& crypto.sign == time_under(prof, "sign"@)
                &&& crypto.schedule == time_under(prof, "schedule"@)
                &&& crypto.welcome == time_under(prof, "welcome"@)
                &&& crypto.storage == time_under(prof, "storage"@)
                &&& crypto.encrypt == time_under(prof, "encrypt"@)
                &&& crypto.export == time_under(prof, "export"@)
                &&& merge.total == time_under(prof, "merge_total"@)
                &&& merge.merge == time_under(prof, "merge"@)
                &&& merge.storage == time_under(prof, "merge_storage"@)
            })
        },
{
    if let Ok(state) = reply {
        let send = r->Ok_0;
        sent_commits_go_out(
            after,
            send,
            added.invite.group_name,
            added.bundle.commit,
            added.bundle.group_info,
            send.pending.welcome,
            send.pending.record.action,
            (added.elapsed + time_under(prof, "merge_total"@)) as u128,
            timestamp,
        );
    }
}

/// Keys can be refreshed in every group that the user is in; the commit goes out with its
/// size and without a welcome.
pub proof fn key_refreshes_go_out(
    user: User,
    group_name: String,
    begun: Result<(), String>,
    reply: Result<CommitBundle, String>,
    elapsed: u128,
    timestamp: i64,
    r: Result<SendCommit, String>,
)
    requires
        call_ensures(User::update_state, (&user, &group_name), begun),
        call_ensures(User::state_updated, (&user, group_name, reply, elapsed, timestamp), r),
    ensures
        begun is Ok <==> user.groups@.contains_key(group_name@),
        begun matches Err(e) ==> e@ == "No group with name "@ + group_name@ + " known."@,
        reply matches Err(e) ==> (r matches Err(text) && text@ == "Failed to self update - "@ + e@),
        reply matches Ok(bundle) ==> (r matches Ok(send) && send.pending.welcome is None
            && commit_goes_out(
            user,
            send,
            group_name@,
            bundle.commit@,
            bundle.group_info,
            CGKAAction::Update(bundle.commit.len()),
            elapsed,
            timestamp,
        )),
{
    if let Ok(bundle) = reply {
        sent_commits_go_out(
            user,
            r->Ok_0,
            group_name,
            bundle.commit,
            bundle.group_info,
            None,
            CGKAAction::Update(bundle.commit.len()),
            elapsed,
            timestamp,
        );
    }
}

/// A removal goes out with the name of the removed user and the size of the commit, and
/// without a welcome.
pub proof fn removals_go_out(
    user: User,
    name: String,
    group_name: String,
    reply: Result<CommitBundle, String>,
    elapsed: u128,
    timestamp: i64,
    r: Result<SendCommit, String>,
)
    requires
        call_ensures(
            User::member_removed,
            (&user, name, group_name, reply, elapsed, timestamp),
            r,
        ),
    ensures
        reply matches Err(e) ==> (r matches Err(text) && text@
            == "Failed to remove member from group - "@ + e@),
        reply matches Ok(bundle) ==> (r matches Ok(send) && send.pending.welcome is None
            && commit_goes_out(
            user,
            send,
            group_name@,
            bundle.commit@,
            bundle.group_info,
            CGKAAction::Remove(name, bundle.commit.len()),
            elapsed,
            timestamp,
        )),
{
    if let Ok(bundle) = reply {
        sent_commits_go_out(
            user,
            r->Ok_0,
            group_name,
            bundle.commit,
            bundle.group_info,
            None,
            CGKAAction::Remove(name, bundle.commit.len()),
            elapsed,
            timestamp,
        );
    }
}

/// A group is joined from outside with the size of the information on it, under the same
/// additional data and subscription as a created one.
pub proof fn groups_are_joined_from_outside(
    user: User,
    group_name: String,
    info: GroupInfoAndTree,
    r: ExternalJoin,
)
    requires
        call_ensures(User::external_join, (&user, group_name, &info), r),
    ensures
        r.group_name@ == group_name@,
        r.aad@ == encode_utf8(group_name@ + " AAD"@),
        r.gi_size == info.group_info@.len(),
        r.subscribe is None <==> user.ds is Request,
        r.subscribe matches Some(call) ==> (call matches BrokerCall::Subscribe(name) && name@
            == group_name@),
{
}

/// Whoever joins a group from outside is in it and in step with it, without messages; the
/// commit goes out with its size and that of the information.
pub proof fn external_joins_go_out(
    before: User,
    after: User,
    join: ExternalJoin,
    state: MlsState,
    commit: Vec<u8>,
    group_info: Option<Vec<u8>>,
    elapsed: u128,
    timestamp: i64,
    r: SendCommit,
)
    requires
        exists|u: &mut User|
            *u == before && *final(u) == after && #[trigger] call_ensures(
                User::externally_joined,
                (u, join, state, commit, group_info, elapsed, timestamp),
                r,
            ),
    ensures
        ({
            let name = join.group_name@;
            &&& after == (User { groups: after.groups, active: after.active, ..before })
            &&& after.groups@ == before.groups@.insert(name, after.groups@[name])
            &&& after.groups@[name].group_name@ == name
            &&& after.groups@[name].mls_group == state
            &&& after.groups@[name].conversation.messages@.len() == 0
            &&& after.active@ == before.active@.insert(name, (true, 0))
            &&& r.pending.welcome is None
            &&& commit_goes_out(
                after,
                r,
                name,
                commit@,
                group_info,
                CGKAAction::Join(commit.len(), join.gi_size),
                elapsed,
                timestamp,
            )
        }),
{
    sent_commits_go_out(
        after,
        r,
        join.group_name,
        commit,
        group_info,
        None,
        CGKAAction::Join(commit.len(), join.gi_size),
        elapsed,
        timestamp,
    );
}

} // verus!
