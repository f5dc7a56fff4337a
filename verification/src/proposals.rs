//! Proposals: making one, telling which of the waiting ones can be committed, and
//! committing some of them.
use crate::action::CGKAAction;
use crate::chance::{choose_places, is_choice};
use crate::commits::SendCommit;
use crate::delivery::DirectoryCall;
use crate::mls::{identity_at, leaf_of, CommitBundle, MlsState, Proposal, QueuedProposal};
use crate::text::{byte_strings, copy_bytes, decode, encode, prefixed, same_bytes, texts};
use crate::user::{StoredWelcome, User};
use vstd::pervasive::unreached;
use vstd::prelude::*;
use vstd::string::*;
use vstd::utf8::*;

verus! {

/// A change of a group that the engine is to propose.
pub enum Propose {
    /// Refresh the user's own keys.
    Update,
    /// Add the client with this key package.
    Add(Vec<u8>),
    /// Remove the member with this leaf.
    Remove(u32),
}

/// An action that is being proposed in a group.
pub struct ProposeAction {
    pub action: CGKAAction,
    pub group_name: String,
}

/// What is needed to propose an action.
pub enum ProposeStep {
    /// The engine is to make the proposal.
    Propose(ProposeAction, Propose),
    /// A key package is needed first.
    LookUp(ProposeAction, DirectoryCall<Vec<u8>, String>),
}

/// Waiting proposals that the engine is to drop, in order, until one cannot be dropped.
pub struct DropProposals {
    pub group_name: String,
    /// How many proposals are to be committed.
    pub amount: usize,
    pub references: Vec<Vec<u8>>,
}

/// The state of a group after proposals were dropped, or the error of the first that could
/// not be, in its debug form.
pub struct ProposalsDropped {
    pub state: MlsState,
    pub result: Result<(), String>,
}

/// The waiting proposals of a group as actions, which the engine is to commit.
pub struct CommitPending {
    pub group_name: String,
    pub proposals: Vec<CGKAAction>,
}

/// The action can be proposed.
pub open spec fn proposable(action: CGKAAction) -> bool {
    action is Update || action is Invite || action is Remove
}

/// An action with the size of its message.
pub open spec fn sized(action: CGKAAction, size: usize) -> CGKAAction {
    match action {
        CGKAAction::Invite(user, _) => CGKAAction::Invite(user, size),
        CGKAAction::Remove(user, _) => CGKAAction::Remove(user, size),
        _ => CGKAAction::Update(size),
    }
}

/// A waiting proposal adds the client with an identity.
pub open spec fn adds(p: QueuedProposal, identity: Seq<u8>) -> bool {
    p.proposal matches Proposal::Add(id) && id@ == identity
}

/// A waiting proposal removes the member with a leaf.
pub open spec fn removes(p: QueuedProposal, leaf: u32) -> bool {
    p.proposal == Proposal::Remove(leaf)
}

/// The references of the proposals that remove the member with a leaf.
pub open spec fn removals(pending: Seq<QueuedProposal>, leaf: u32) -> Seq<Seq<u8>> {
    pending.filter_map(
        |p: QueuedProposal|
            if removes(p, leaf) {
                Some(p.reference@)
            } else {
                None
            },
    )
}

/// The references of the proposals at these places.
pub open spec fn references_at(pending: Seq<QueuedProposal>, places: Seq<usize>) -> Seq<Seq<u8>> {
    places.map_values(|i: usize| pending[i as int].reference@)
}

/// A proposal can be committed by a user who knows the group: the names that it holds can
/// be read.
pub open spec fn committable(state: MlsState, p: QueuedProposal) -> bool {
    match p.proposal {
        Proposal::Add(identity) => valid_utf8(identity@),
        Proposal::Remove(leaf) => identity_at(state.members@, leaf) matches Some(identity)
            && valid_utf8(identity),
        Proposal::Update => true,
        Proposal::Other => false,
    }
}

/// An action stands for a proposal.
pub open spec fn stands_for(action: CGKAAction, state: MlsState, p: QueuedProposal) -> bool {
    match p.proposal {
        Proposal::Add(identity) => action matches CGKAAction::Invite(user, size) && size == 0
            && user@ == decode_utf8(identity@),
        Proposal::Remove(leaf) => action matches CGKAAction::Remove(user, size) && size == 0
            && user@ == decode_utf8(identity_at(state.members@, leaf)->Some_0),
        Proposal::Update => action == CGKAAction::Update(0),
        Proposal::Other => false,
    }
}

/// The names of the invited users among a list of actions.
pub open spec fn invited(actions: Seq<CGKAAction>) -> Seq<Seq<char>> {
    actions.filter_map(
        |a: CGKAAction|
            match a {
                CGKAAction::Invite(user, _) => Some(user@),
                _ => None,
            },
    )
}

fn invited_users(actions: &Vec<CGKAAction>) -> (r: Vec<String>)
    ensures
        texts(r@) == invited(actions@),
{
    let mut r: Vec<String> = Vec::new();
    let mut i: usize = 0;
    assert(texts(r@) =~= invited(actions@.take(0)));
    while i < actions.len()
        invariant
            i <= actions.len(),
            texts(r@) == invited(actions@.take(i as int)),
        decreases actions.len() - i,
    {
        assert(actions@.take(i + 1).drop_last() =~= actions@.take(i as int));
        let ghost before = r@;
        match &actions[i] {
            CGKAAction::Invite(user, _) => {
                r.push(user.clone());
                assert(texts(r@) =~= texts(before) + seq![user@]);
            },
            _ => {},
        }
        assert(texts(r@) =~= invited(actions@.take(i + 1)));
        i += 1;
    }
    assert(actions@.take(i as int) =~= actions@);
    r
}

fn references_of(pending: &Vec<QueuedProposal>, places: &Vec<usize>) -> (r: Vec<Vec<u8>>)
    requires
        forall|i: int| 0 <= i < places@.len() ==> #[trigger] places@[i] < pending@.len(),
    ensures
        byte_strings(r@) == references_at(pending@, places@),
{
    let mut r: Vec<Vec<u8>> = Vec::new();
    let mut i: usize = 0;
    while i < places.len()
        invariant
            i <= places.len(),
            forall|j: int| 0 <= j < places@.len() ==> #[trigger] places@[j] < pending@.len(),
            r.len() == i,
            forall|j: int| 0 <= j < i ==> #[trigger] r@[j]@ == pending@[places@[j] as int].reference@,
        decreases places.len() - i,
    {
        r.push(copy_bytes(&pending[places[i]].reference));
        i += 1;
    }
    assert(byte_strings(r@) =~= references_at(pending@, places@));
    r
}

impl User {
    /// What is needed to propose an action in a group that the user is in.
    pub open spec fn proposes(self, p: ProposeAction, r: Result<ProposeStep, String>) -> bool {
        let state = self.groups@[p.group_name@].mls_group;
        match p.action {
            CGKAAction::Update(_) => r == Ok::<ProposeStep, String>(
                ProposeStep::Propose(p, Propose::Update),
            ),
            CGKAAction::Invite(user, _) => {
                if exists|i: int|
                    0 <= i < state.pending_proposals@.len() && adds(
                        #[trigger] state.pending_proposals@[i],
                        encode_utf8(user@),
                    ) {
                    r matches Err(e) && e@
                        == "There is already a pending proposal to add this user."@
                } else if forall|id: Seq<u8>| #[trigger]
                    self.contacts@.contains_key(id) ==> self.contacts@[id].username@ != user@ {
                    r matches Err(e) && e@ == Self::no_contact(user@)
                } else {
                    &&& r matches Ok(ProposeStep::LookUp(a, call))
                    &&& a == p
                    &&& exists|id: Seq<u8>| #[trigger]
                        self.contacts@.contains_key(id) && self.contacts@[id].username@ == user@
                            && self.takes_key_package(call, self.contacts@[id])
                }
            },
            CGKAAction::Remove(user, _) => match leaf_of(state.members@, encode_utf8(user@)) {
                Some(leaf) => r == Ok::<ProposeStep, String>(
                    ProposeStep::Propose(p, Propose::Remove(leaf)),
                ),
                None => r matches Err(e) && e@ == "Unknown member"@,
            },
            _ => false,
        }
    }

    fn adds_pending(pending: &Vec<QueuedProposal>, user: &String) -> (r: bool)
        ensures
            r == exists|i: int|
                0 <= i < pending@.len() && adds(#[trigger] pending@[i], encode_utf8(user@)),
    {
        let identity = encode(user.as_str());
        let mut i: usize = 0;
        while i < pending.len()
            invariant
                i <= pending.len(),
                identity@ == encode_utf8(user@),
                forall|j: int| 0 <= j < i ==> !adds(#[trigger] pending@[j], identity@),
            decreases pending.len() - i,
        {
            match &pending[i].proposal {
                Proposal::Add(id) => {
                    if same_bytes(id, &identity) {
                        assert(adds(pending@[i as int], identity@));
                        return true;
                    }
                },
                _ => {},
            }
            i += 1;
        }
        false
    }

    /// Begins to propose an action in a group: to refresh the user's keys, to invite a
    /// contact whose invitation is not proposed yet, or to remove a member.
    pub fn propose(&self, action: CGKAAction, group_name: String) -> (r: Result<ProposeStep, String>)
        requires
            self.groups@.contains_key(group_name@) ==> proposable(action),
        ensures
            if self.groups@.contains_key(group_name@) {
                self.proposes((ProposeAction { action, group_name }), r)
            } else {
                r matches Err(e) && e@ == "Unknown group"@
            },
    {
        let group = match self.groups.get(&group_name) {
            Some(group) => group,
            None => return Err("Unknown group".to_owned()),
        };
        match &action {
            CGKAAction::Update(_) => Ok(
                ProposeStep::Propose(ProposeAction { action, group_name }, Propose::Update),
            ),
            CGKAAction::Invite(user, _) => {
                if Self::adds_pending(&group.mls_group.pending_proposals, user) {
                    return Err("There is already a pending proposal to add this user.".to_owned());
                }
                let contact = match self.contact_named(user) {
                    Ok(contact) => contact,
                    Err(e) => return Err(e),
                };
                let call = self.consume_key_package(contact);
                assert(exists|id: Seq<u8>| #[trigger]
                    self.contacts@.contains_key(id) && self.contacts@[id].username@ == user@);
                Ok(ProposeStep::LookUp(ProposeAction { action, group_name }, call))
            },
            CGKAAction::Remove(user, _) => {
                let leaf = match self.find_member_index(user, group) {
                    Ok(leaf) => leaf,
                    Err(e) => return Err(e),
                };
                Ok(ProposeStep::Propose(ProposeAction { action, group_name }, Propose::Remove(leaf)))
            },
            _ => unreached(),
        }
    }

    /// Goes on with the key package of a user whose invitation is proposed.
    pub fn propose_key_package(&self, p: ProposeAction, reply: Result<Vec<u8>, String>) -> (r: Result<
        (ProposeAction, Propose),
        String,
    >)
        ensures
            match reply {
                Err(e) => r matches Err(text) && text == e,
                Ok(key_package) => r matches Ok((a, propose)) && a == p && propose == Propose::Add(
                    key_package,
                ),
            },
    {
        match reply {
            Err(e) => Err(e),
            Ok(key_package) => Ok((p, Propose::Add(key_package))),
        }
    }

    /// Goes on after the engine has made the proposal, or could not: the group has its new
    /// state, and the proposal is sent.
    pub fn proposed(
        &mut self,
        p: ProposeAction,
        reply: Result<(Vec<u8>, MlsState), String>,
        elapsed: u128,
        timestamp: i64,
    ) -> (r: Result<SendCommit, String>)
        requires
            old(self).groups@.contains_key(p.group_name@),
            proposable(p.action),
        ensures
            match reply {
                Err(e) => *final(self) == *old(self) && r == Err::<SendCommit, String>(e),
                Ok((message, state)) => {
                    &&& final(self).regrouped(*old(self), p.group_name@, state)
                    &&& r matches Ok(send)
                    &&& final(self).sends_commit(
                        send,
                        p.group_name,
                        message,
                        None,
                        None,
                        CGKAAction::Propose(Box::new(sized(p.action, message.len()))),
                        elapsed,
                        timestamp,
                    )
                },
            },
            old(self).wf() ==> final(self).wf(),
    {
        let (message, state) = match reply {
            Ok(proposal) => proposal,
            Err(e) => return Err(e),
        };
        let ProposeAction { action, group_name } = p;
        self.set_group_state(&group_name, state);
        let size = message.len();
        let action = match action {
            CGKAAction::Update(_) => CGKAAction::Update(size),
            CGKAAction::Invite(user, _) => CGKAAction::Invite(user, size),
            CGKAAction::Remove(user, _) => CGKAAction::Remove(user, size),
            _ => unreached(),
        };
        Ok(
            self.post_process_commit(
                group_name,
                message,
                None,
                None,
                CGKAAction::Propose(Box::new(action)),
                elapsed,
                timestamp,
            ),
        )
    }

    /// The proposals of a group that the user cannot commit: those that remove the user
    /// itself, as no one can commit their own removal.
    pub open spec fn invalid(state: MlsState) -> Seq<Seq<u8>> {
        removals(state.pending_proposals@, state.own_leaf_index)
    }

    /// Lists the references of the proposals that the user cannot commit.
    pub fn invalid_proposals(&self, group_name: &String) -> (r: Result<Vec<Vec<u8>>, String>)
        ensures
            if self.groups@.contains_key(group_name@) {
                &&& r matches Ok(references)
                &&& byte_strings(references@) == Self::invalid(
                    self.groups@[group_name@].mls_group,
                )
                &&& references@.len() <= self.groups@[group_name@].mls_group.pending_proposals@.len()
            } else {
                r matches Err(e) && e@ == "Unknown group"@
            },
    {
        let group = match self.groups.get(group_name) {
            Some(group) => group,
            None => return Err("Unknown group".to_owned()),
        };
        let own: u32 = group.mls_group.own_leaf_index;
        let pending = &group.mls_group.pending_proposals;
        let mut r: Vec<Vec<u8>> = Vec::new();
        let mut i: usize = 0;
        assert(byte_strings(r@) =~= removals(pending@.take(0), own));
        while i < pending.len()
            invariant
                i <= pending.len(),
                r@.len() <= i,
                byte_strings(r@) == removals(pending@.take(i as int), own),
            decreases pending.len() - i,
        {
            assert(pending@.take(i + 1).drop_last() =~= pending@.take(i as int));
            let ghost before = r@;
            let is_invalid = match &pending[i].proposal {
                Proposal::Remove(leaf) => *leaf == own,
                _ => false,
            };
            if is_invalid {
                let reference = copy_bytes(&pending[i].reference);
                r.push(reference);
                assert(byte_strings(r@) =~= byte_strings(before) + seq![reference@]);
            }
            assert(byte_strings(r@) =~= removals(pending@.take(i + 1), own));
            i += 1;
        }
        assert(pending@.take(i as int) =~= pending@);
        Ok(r)
    }

    /// Counts the waiting proposals of a group that the user can commit.
    pub fn pending_proposals(&self, group_name: &String) -> (r: Result<usize, String>)
        ensures
            if self.groups@.contains_key(group_name@) {
                let state = self.groups@[group_name@].mls_group;
                r matches Ok(num) && num == state.pending_proposals@.len() - Self::invalid(
                    state,
                ).len()
            } else {
                r matches Err(e) && e@ == "Unknown group"@
            },
    {
        let invalid_proposals = match self.invalid_proposals(group_name) {
            Ok(references) => references,
            Err(e) => return Err(e),
        };
        let group = self.groups.get(group_name).unwrap();
        assert(byte_strings(invalid_proposals@).len() == invalid_proposals@.len());
        Ok(group.mls_group.pending_proposals.len() - invalid_proposals.len())
    }

    /// Begins to commit `amount` of the waiting proposals of a group: those that the user
    /// cannot commit are to be dropped.
    pub fn commit_to_proposals(&self, group_name: String, amount: usize) -> (r: Result<
        DropProposals,
        String,
    >)
        ensures
            if self.groups@.contains_key(group_name@) {
                &&& r matches Ok(d)
                &&& d.group_name == group_name
                &&& d.amount == amount
                &&& byte_strings(d.references@) == Self::invalid(
                    self.groups@[group_name@].mls_group,
                )
            } else {
                r matches Err(e) && e@ == "Unknown group"@
            },
    {
        match self.invalid_proposals(&group_name) {
            Ok(references) => Ok(DropProposals { group_name, amount, references }),
            Err(e) => Err(e),
        }
    }

    /// Goes on after the proposals that cannot be committed were dropped, or one could not
    /// be: the group has its new state, and of the other proposals so many, chosen at
    /// random, are to be dropped that the amount to commit is left.
    pub fn invalid_dropped(&mut self, d: DropProposals, reply: ProposalsDropped) -> (r: Result<
        DropProposals,
        String,
    >)
        requires
            old(self).groups@.contains_key(d.group_name@),
            reply.result is Ok ==> d.amount <= reply.state.pending_proposals@.len(),
        ensures
            final(self).regrouped(*old(self), d.group_name@, reply.state),
            match reply.result {
                Err(e) => r matches Err(text) && text@ == "Failed to remove proposal: "@ + e@,
                Ok(_) => {
                    let pending = reply.state.pending_proposals@;
                    &&& r matches Ok(s)
                    &&& s.group_name == d.group_name
                    &&& s.amount == d.amount
                    &&& exists|chosen: Seq<usize>| #[trigger]
                        is_choice(chosen, pending.len(), (pending.len() - d.amount) as nat)
                            && byte_strings(s.references@) == references_at(pending, chosen)
                },
            },
            old(self).wf() ==> final(self).wf(),
    {
        let ProposalsDropped { state, result } = reply;
        match result {
            Err(e) => {
                self.set_group_state(&d.group_name, state);
                Err(prefixed("Failed to remove proposal: ", e.as_str()))
            },
            Ok(_) => {
                let n = state.pending_proposals.len();
                let chosen = choose_places(n, n - d.amount);
                assert(is_choice(
                    chosen@,
                    state.pending_proposals@.len(),
                    (state.pending_proposals@.len() - d.amount) as nat,
                ));
                Ok(self.surplus_chosen(d, state, &chosen))
            },
        }
    }

    /// Takes over the state of a group in which the proposals at these places are to be
    /// dropped.
    pub fn surplus_chosen(&mut self, d: DropProposals, state: MlsState, chosen: &Vec<usize>) -> (r:
        DropProposals)
        requires
            old(self).groups@.contains_key(d.group_name@),
            forall|i: int|
                0 <= i < chosen@.len() ==> #[trigger] chosen@[i] < state.pending_proposals@.len(),
        ensures
            final(self).regrouped(*old(self), d.group_name@, state),
            r.group_name == d.group_name,
            r.amount == d.amount,
            byte_strings(r.references@) == references_at(state.pending_proposals@, chosen@),
            old(self).wf() ==> final(self).wf(),
    {
        let references = references_of(&state.pending_proposals, chosen);
        self.set_group_state(&d.group_name, state);
        DropProposals { group_name: d.group_name, amount: d.amount, references }
    }

    /// The actions stand for the waiting proposals of a group, in order.
    pub open spec fn stand_for(actions: Seq<CGKAAction>, state: MlsState) -> bool {
        &&& actions.len() == state.pending_proposals@.len()
        &&& forall|i: int|
            0 <= i < actions.len() ==> stands_for(
                #[trigger] actions[i],
                state,
                state.pending_proposals@[i],
            )
    }

    fn action_for(state: &MlsState, p: &QueuedProposal) -> (r: CGKAAction)
        requires
            committable(*state, *p),
        ensures
            stands_for(r, *state, *p),
    {
        match &p.proposal {
            Proposal::Add(identity) => CGKAAction::Invite(decode(identity), 0),
            Proposal::Remove(leaf) => CGKAAction::Remove(
                decode(state.member_at(*leaf).unwrap()),
                0,
            ),
            Proposal::Update => CGKAAction::Update(0),
            Proposal::Other => unreached(),
        }
    }

    /// Goes on after the surplus proposals were dropped, or one could not be: the group has
    /// its new state, and the engine is to commit what is left.
    pub fn surplus_dropped(&mut self, d: DropProposals, reply: ProposalsDropped) -> (r: Result<
        CommitPending,
        String,
    >)
        requires
            old(self).groups@.contains_key(d.group_name@),
            reply.result is Ok ==> forall|i: int|
                0 <= i < reply.state.pending_proposals@.len() ==> committable(
                    reply.state,
                    #[trigger] reply.state.pending_proposals@[i],
                ),
        ensures
            final(self).regrouped(*old(self), d.group_name@, reply.state),
            match reply.result {
                Err(e) => r matches Err(text) && text@ == "Failed to remove proposal: "@ + e@,
                Ok(_) => {
                    &&& r matches Ok(c)
                    &&& c.group_name == d.group_name
                    &&& Self::stand_for(c.proposals@, reply.state)
                },
            },
            old(self).wf() ==> final(self).wf(),
    {
        let ProposalsDropped { state, result } = reply;
        let mut proposals: Vec<CGKAAction> = Vec::new();
        let outcome = match result {
            Err(e) => Err(prefixed("Failed to remove proposal: ", e.as_str())),
            Ok(_) => {
                let mut i: usize = 0;
                while i < state.pending_proposals.len()
                    invariant
                        i <= state.pending_proposals.len(),
                        forall|j: int|
                            0 <= j < state.pending_proposals@.len() ==> committable(
                                state,
                                #[trigger] state.pending_proposals@[j],
                            ),
                        proposals.len() == i,
                        forall|j: int|
                            0 <= j < i ==> stands_for(
                                #[trigger] proposals@[j],
                                state,
                                state.pending_proposals@[j],
                            ),
                    decreases state.pending_proposals.len() - i,
                {
                    proposals.push(Self::action_for(&state, &state.pending_proposals[i]));
                    i += 1;
                }
                Ok(())
            },
        };
        self.set_group_state(&d.group_name, state);
        match outcome {
            Err(e) => Err(e),
            Ok(_) => Ok(CommitPending { group_name: d.group_name, proposals }),
        }
    }

    /// Goes on after the engine has committed the waiting proposals, or could not: the
    /// commit is sent, and its welcome, if there is one, is kept for the invited users.
    pub fn proposals_committed(
        &self,
        c: CommitPending,
        reply: Result<CommitBundle, String>,
        elapsed: u128,
        timestamp: i64,
    ) -> (r: Result<SendCommit, String>)
        requires
            self.groups@.contains_key(c.group_name@),
        ensures
            match reply {
                Err(e) => r matches Err(text) && text == e,
                Ok(bundle) => {
                    &&& r matches Ok(send)
                    &&& self.sends_commit(
                        send,
                        c.group_name,
                        bundle.commit,
                        bundle.group_info,
                        send.pending.welcome,
                        CGKAAction::Commit(c.proposals, bundle.commit.len()),
                        elapsed,
                        timestamp,
                    )
                    &&& match bundle.welcome {
                        None => send.pending.welcome is None,
                        Some(welcome) => {
                            &&& send.pending.welcome matches Some(w)
                            &&& w.welcome == welcome
                            &&& texts(w.recipients@) == invited(c.proposals@)
                        },
                    }
                },
            },
    {
        let bundle = match reply {
            Ok(bundle) => bundle,
            Err(e) => return Err(e),
        };
        let stored_welcome = match bundle.welcome {
            Some(welcome) => Some(
                StoredWelcome { welcome, recipients: invited_users(&c.proposals) },
            ),
            None => None,
        };
        let size = bundle.commit.len();
        Ok(
            self.post_process_commit(
                c.group_name,
                bundle.commit,
                bundle.group_info,
                stored_welcome,
                CGKAAction::Commit(c.proposals, size),
                elapsed,
                timestamp,
            ),
        )
    }
}

} // verus!
