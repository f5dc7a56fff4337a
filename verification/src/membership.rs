//! Creating groups, inviting and removing members, refreshing one's own keys, and joining a
//! group from outside.
use crate::action::{CGKAAction, CryptoTime, MergeTime};
use crate::commits::SendCommit;
use crate::delivery::{BrokerCall, DirectoryCall, GroupInfoAndTree};
use crate::inbox::{group_aad, group_aad_bytes, NewOrchestrator};
use crate::logbook::logged;
use crate::mls::{leaf_of, CommitBundle, MlsState, NextAction};
use crate::profiling::{start_iteration, Profiler};
use crate::record::{ActionRecord, EpochChange};
use crate::services::{OrchestratorCommit, OrchestratorReply};
use crate::text::{copy_bytes, encode, prefixed, text_of};
use crate::user::{AgentType, StoredWelcome, User};
use vstd::prelude::*;
use vstd::string::*;
use vstd::utf8::*;

verus! {

/// A group that the engine is to create, after the user has subscribed to it.
pub struct CreateGroup {
    pub group_id: Vec<u8>,
    /// Additional authenticated data that the engine is to use in the group.
    pub aad: Vec<u8>,
    pub subscribe: Option<BrokerCall>,
}

/// A group that the engine has created, of which the information is to be published.
pub struct CreatedGroup {
    pub group_name: String,
    pub state: MlsState,
    pub record: ActionRecord,
}

/// What follows the publication of a created group.
pub enum CreatedStep {
    /// Nothing but to append this to the log file.
    Done(Option<String>),
    /// The orchestrator of the group is to be made, and the agent to be told of the reply;
    /// the record is logged after that.
    Orchestrate(ActionRecord, NewOrchestrator),
}

/// An invitation: who is invited, and to which group.
pub struct Invite {
    pub name: String,
    pub group_name: String,
}

/// What the engine makes of the addition of a member.
pub struct AddBundle {
    pub commit: Vec<u8>,
    pub welcome: Vec<u8>,
    pub group_info: Option<Vec<u8>>,
}

/// An addition that the engine has made and is to merge.
pub struct AddedMember {
    pub invite: Invite,
    pub bundle: AddBundle,
    pub elapsed: u128,
}

/// A group that the engine is to join from outside, after the user has subscribed to it.
pub struct ExternalJoin {
    pub group_name: String,
    pub aad: Vec<u8>,
    /// The length of the information on the group.
    pub gi_size: usize,
    pub subscribe: Option<BrokerCall>,
}

impl User {
    /// Begins to create a group with the given name.
    pub fn create_group(&self, group_name: &String) -> (r: CreateGroup)
        ensures
            r.group_id@ == encode_utf8(group_name@),
            r.aad@ == group_aad(group_name@),
            r.subscribe == self.subscription(*group_name),
    {
        CreateGroup {
            group_id: encode(group_name.as_str()),
            aad: group_aad_bytes(group_name),
            subscribe: self.subscribe(group_name.clone()),
        }
    }

    /// Goes on after the user has subscribed to the group, or could not: then the error is
    /// handed on, and no group is created.
    pub fn new_group_subscribed(&self, create: CreateGroup, reply: Result<(), String>) -> (r: Result<
        CreateGroup,
        String,
    >)
        ensures
            r == match reply {
                Ok(_) => Ok::<CreateGroup, String>(create),
                Err(e) => Err(e),
            },
    {
        match reply {
            Ok(_) => Ok(create),
            Err(e) => Err(e),
        }
    }

    /// Goes on after the engine has created the group: the user is in step with it.
    pub fn group_created(
        &mut self,
        group_name: String,
        state: MlsState,
        elapsed: u128,
        timestamp: i64,
    ) -> (r: CreatedGroup)
        requires
            !old(self).groups@.contains_key(group_name@),
        ensures
            *final(self) == (User { active: final(self).active, ..*old(self) }),
            final(self).active@ == old(self).active@.insert(group_name@, (true, 0)),
            r == (CreatedGroup {
                group_name,
                state,
                record: ActionRecord {
                    group_name,
                    action: CGKAAction::Create,
                    epoch_change: EpochChange { timestamp, epoch: state.epoch },
                    elapsed_time: elapsed,
                    num_users: 1,
                },
            }),
            old(self).wf() ==> final(self).wf(),
    {
        let _ = self.active.insert(group_name.clone(), (true, 0));
        let record = ActionRecord {
            group_name: group_name.clone(),
            action: CGKAAction::Create,
            epoch_change: EpochChange { timestamp, epoch: state.epoch },
            elapsed_time: elapsed,
            num_users: 1,
        };
        CreatedGroup { group_name, state, record }
    }

    /// What follows the publication of a created group: the creation is logged, by an
    /// orchestrated user only after its new orchestrator was told of the group with the
    /// user as its only member.
    pub open spec fn created_is_published(self, before: User, created: CreatedGroup, step: CreatedStep) -> bool {
        match before.agent_type {
            AgentType::Independent => {
                &&& step matches CreatedStep::Done(log)
                &&& (self.file_buffer@, text_of(log)) == logged(
                    before.file_buffer@,
                    created.record,
                    before.username@,
                )
                &&& (User { file_buffer: before.file_buffer, ..self }).has_joined(
                    before,
                    created.group_name@,
                    created.state,
                )
            },
            AgentType::Orchestrator(_) => {
                &&& self.has_joined(before, created.group_name@, created.state)
                &&& step matches CreatedStep::Orchestrate(record, o)
                &&& record == created.record
                &&& o.active_members@.len() == 0
                &&& o.commit.group_name == created.group_name
                &&& o.commit.removed_members@.len() == 0
                &&& o.commit.transcript_hash@ == created.state.transcript_hash@
                &&& o.commit.total_members == 1
                &&& o.commit.new_members@ == seq![before.username]
            },
        }
    }

    /// Goes on after the information on a created group was published, or could not be:
    /// the user is in the group.
    pub fn created_group_published(&mut self, created: CreatedGroup, reply: Result<(), String>) -> (r:
        Result<CreatedStep, String>)
        ensures
            match reply {
                Err(e) => *final(self) == *old(self) && r == Err::<CreatedStep, String>(e),
                Ok(_) => r matches Ok(step) && final(self).created_is_published(
                    *old(self),
                    created,
                    step,
                ),
            },
            old(self).wf() ==> final(self).wf(),
    {
        match reply {
            Err(e) => return Err(e),
            Ok(_) => {},
        }
        let CreatedGroup { group_name, state, record } = created;
        let transcript_hash = copy_bytes(&state.transcript_hash);
        self.enter_group(&group_name, state);
        let orchestrated = match &self.agent_type {
            AgentType::Independent => false,
            AgentType::Orchestrator(_) => true,
        };
        if !orchestrated {
            return Ok(CreatedStep::Done(self.write_timestamp(record)));
        }
        let new_members = vec![self.username.clone()];
        assert(new_members@ =~= seq![old(self).username]);
        Ok(
            CreatedStep::Orchestrate(
                record,
                NewOrchestrator {
                    active_members: Vec::new(),
                    commit: OrchestratorCommit {
                        group_name,
                        removed_members: Vec::new(),
                        transcript_hash,
                        total_members: 1,
                        new_members,
                    },
                },
            ),
        )
    }

    /// Goes on after the new orchestrator of a created group was told of it: the only member
    /// is the one whose turn it is, and the agent is to be told.
    pub fn created_group_orchestrated(&mut self, group_name: String, reply: OrchestratorReply) -> (r:
        String)
        requires
            old(self).agent_type is Orchestrator,
            reply.next_action == NextAction::Commit,
        ensures
            *final(self) == (User { agent_type: final(self).agent_type, ..*old(self) }),
            final(self).knows(*old(self), group_name@, reply.known_members),
            r == group_name,
            old(self).wf() ==> final(self).wf(),
    {
        self.keep_known_members(&group_name, reply.known_members);
        self.send_to_agent(group_name)
    }

    /// Ends the creation of a group by an orchestrated user, unless its agent could not be
    /// told: the creation is logged.
    pub fn created_group_announced(&mut self, record: ActionRecord, agent_reply: Result<(), String>) -> (r:
        Result<Option<String>, String>)
        ensures
            match agent_reply {
                Err(e) => *final(self) == *old(self) && r == Err::<Option<String>, String>(e),
                Ok(_) => {
                    &&& *final(self) == (User {
                        file_buffer: final(self).file_buffer,
                        ..*old(self)
                    })
                    &&& r matches Ok(log)
                    &&& (final(self).file_buffer@, text_of(log)) == logged(
                        old(self).file_buffer@,
                        record,
                        old(self).username@,
                    )
                },
            },
            old(self).wf() ==> final(self).wf(),
    {
        match agent_reply {
            Err(e) => Err(e),
            Ok(_) => Ok(self.write_timestamp(record)),
        }
    }

    /// Begins to invite the user with the given name: a key package of the contact is
    /// needed. A new profile is begun.
    pub fn invite(&self, prof: &mut Option<Profiler>, name: String, group_name: String) -> (r: Result<
        (Invite, DirectoryCall<Vec<u8>, String>),
        String,
    >)
        ensures
            match r {
                Ok((invite, call)) => {
                    &&& invite == (Invite { name, group_name })
                    &&& exists|id: Seq<u8>| #[trigger]
                        self.contacts@.contains_key(id) && self.contacts@[id].username@ == name@
                            && self.takes_key_package(call, self.contacts@[id])
                },
                Err(e) => e@ == Self::no_contact(name@) && forall|id: Seq<u8>| #[trigger]
                    self.contacts@.contains_key(id) ==> self.contacts@[id].username@ != name@,
            },
            *final(prof) matches Some(p) && p@ == Map::<Seq<char>, u128>::empty(),
    {
        let _ = start_iteration(prof);
        let contact = match self.contact_named(&name) {
            Ok(contact) => contact,
            Err(e) => return Err(e),
        };
        let call = self.consume_key_package(contact);
        Ok((Invite { name, group_name }, call))
    }

    /// Goes on with the key package of the invited user: the engine is to add it.
    pub fn invite_key_package(&self, invite: Invite, reply: Result<Vec<u8>, String>) -> (r: Result<
        (Invite, Vec<u8>),
        String,
    >)
        ensures
            match reply {
                Err(e) => r matches Err(text) && text == e,
                Ok(key_package) => if self.groups@.contains_key(invite.group_name@) {
                    r matches Ok((i, k)) && i == invite && k == key_package
                } else {
                    r matches Err(text) && text@ == Self::no_group(invite.group_name@)
                },
            },
    {
        match reply {
            Err(e) => Err(e),
            Ok(key_package) => {
                if self.groups.contains_key(&invite.group_name) {
                    Ok((invite, key_package))
                } else {
                    Err(Self::no_group_text(&invite.group_name))
                }
            },
        }
    }

    /// Goes on after the engine has added the invited user, or could not: it is to export
    /// the tree, timed under "export", and to merge the commit.
    pub fn member_added(&self, invite: Invite, reply: Result<AddBundle, String>, elapsed: u128) -> (r:
        Result<AddedMember, String>)
        ensures
            match reply {
                Err(e) => r matches Err(text) && text@ == "Failed to add member to group - "@ + e@,
                Ok(bundle) => r matches Ok(added) && added == (AddedMember {
                    invite,
                    bundle,
                    elapsed,
                }),
            },
    {
        match reply {
            Err(e) => Err(prefixed("Failed to add member to group - ", e.as_str())),
            Ok(bundle) => Ok(AddedMember { invite, bundle, elapsed }),
        }
    }

    /// The invitation is sent, with the times of the profile.
    pub open spec fn sends_invitation(
        self,
        send: SendCommit,
        added: AddedMember,
        times: Map<Seq<char>, u128>,
        timestamp: i64,
    ) -> bool {
        &&& self.sends_commit(
            send,
            added.invite.group_name,
            added.bundle.commit,
            added.bundle.group_info,
            send.pending.welcome,
            CGKAAction::DeepCommit(
                added.bundle.commit.len(),
                CryptoTime::of(times),
                MergeTime::of(times),
            ),
            (added.elapsed + Profiler::time(times, "merge_total"@)) as u128,
            timestamp,
        )
        &&& send.pending.welcome matches Some(w)
        &&& w.welcome == added.bundle.welcome
        &&& w.recipients@ == seq![added.invite.name]
    }

    /// Goes on after the engine has merged the invitation, or could not: the group has its
    /// new state, and the invitation is sent. The profile that was begun with it ends, and
    /// a new one begins.
    pub fn addition_merged(
        &mut self,
        prof: &mut Option<Profiler>,
        added: AddedMember,
        reply: Result<MlsState, String>,
        timestamp: i64,
    ) -> (r: Result<SendCommit, String>)
        requires
            old(self).groups@.contains_key(added.invite.group_name@),
            reply is Ok ==> added.elapsed + Self::merge_total(*old(prof)) <= u128::MAX,
        ensures
            match reply {
                Err(e) => {
                    &&& *final(self) == *old(self)
                    &&& *final(prof) == *old(prof)
                    &&& r matches Err(text)
                    &&& text@ == "Error merging commit; "@ + e@
                },
                Ok(state) => {
                    &&& final(self).regrouped(*old(self), added.invite.group_name@, state)
                    &&& r matches Ok(send)
                    &&& final(self).sends_invitation(
                        send,
                        added,
                        Profiler::recorded(*old(prof)),
                        timestamp,
                    )
                    &&& *final(prof) matches Some(p)
                    &&& p@ == Map::<Seq<char>, u128>::empty()
                },
            },
            old(self).wf() ==> final(self).wf(),
    {
        let state = match reply {
            Ok(state) => state,
            Err(e) => return Err(prefixed("Error merging commit; ", e.as_str())),
        };
        let AddedMember { invite, bundle, elapsed } = added;
        let Invite { name, group_name } = invite;
        self.set_group_state(&group_name, state);
        let ended = start_iteration(prof);
        let crypto_time = CryptoTime::from_profile(&ended);
        let merge_time = MergeTime::from_profile(&ended);
        let elapsed: u128 = elapsed + ended.get("merge_total");
        let recipients = vec![name];
        assert(recipients@ =~= seq![added.invite.name]);
        let stored_welcome = StoredWelcome { welcome: bundle.welcome, recipients };
        let size = bundle.commit.len();
        Ok(
            self.post_process_commit(
                group_name,
                bundle.commit,
                bundle.group_info,
                Some(stored_welcome),
                CGKAAction::DeepCommit(size, crypto_time, merge_time),
                elapsed,
                timestamp,
            ),
        )
    }

    /// Begins to refresh the user's keys in a group, which the engine is to do.
    pub fn update_state(&self, group_name: &String) -> (r: Result<(), String>)
        ensures
            if self.groups@.contains_key(group_name@) {
                r is Ok
            } else {
                r matches Err(e) && e@ == Self::no_group(group_name@)
            },
    {
        if self.groups.contains_key(group_name) {
            Ok(())
        } else {
            Err(Self::no_group_text(group_name))
        }
    }

    /// Goes on after the engine has refreshed the user's keys, or could not: the commit is
    /// sent.
    pub fn state_updated(
        &self,
        group_name: String,
        reply: Result<CommitBundle, String>,
        elapsed: u128,
        timestamp: i64,
    ) -> (r: Result<SendCommit, String>)
        requires
            self.groups@.contains_key(group_name@),
        ensures
            match reply {
                Err(e) => r matches Err(text) && text@ == "Failed to self update - "@ + e@,
                Ok(bundle) => r matches Ok(send) && self.sends_commit(
                    send,
                    group_name,
                    bundle.commit,
                    bundle.group_info,
                    None,
                    CGKAAction::Update(bundle.commit.len()),
                    elapsed,
                    timestamp,
                ),
            },
    {
        let bundle = match reply {
            Ok(bundle) => bundle,
            Err(e) => return Err(prefixed("Failed to self update - ", e.as_str())),
        };
        let size = bundle.commit.len();
        Ok(
            self.post_process_commit(
                group_name,
                bundle.commit,
                bundle.group_info,
                None,
                CGKAAction::Update(size),
                elapsed,
                timestamp,
            ),
        )
    }

    /// Begins to remove the user with the given name from the group: the leaf that the
    /// engine is to remove.
    pub fn remove(&self, name: &String, group_name: &String) -> (r: Result<u32, String>)
        ensures
            if !self.groups@.contains_key(group_name@) {
                r matches Err(e) && e@ == Self::no_group(group_name@)
            } else {
                match leaf_of(
                    self.groups@[group_name@].mls_group.members@,
                    encode_utf8(name@),
                ) {
                    Some(index) => r == Ok::<u32, String>(index),
                    None => r matches Err(e) && e@ == "Unknown member"@,
                }
            },
    {
        let group = match self.groups.get(group_name) {
            Some(group) => group,
            None => return Err(Self::no_group_text(group_name)),
        };
        self.find_member_index(name, group)
    }

    /// Goes on after the engine has removed a member, or could not: the commit is sent.
    pub fn member_removed(
        &self,
        name: String,
        group_name: String,
        reply: Result<CommitBundle, String>,
        elapsed: u128,
        timestamp: i64,
    ) -> (r: Result<SendCommit, String>)
        requires
            self.groups@.contains_key(group_name@),
        ensures
            match reply {
                Err(e) => r matches Err(text) && text@ == "Failed to remove member from group - "@
                    + e@,
                Ok(bundle) => r matches Ok(send) && self.sends_commit(
                    send,
                    group_name,
                    bundle.commit,
                    bundle.group_info,
                    None,
                    CGKAAction::Remove(name, bundle.commit.len()),
                    elapsed,
                    timestamp,
                ),
            },
    {
        let bundle = match reply {
            Ok(bundle) => bundle,
            Err(e) => return Err(prefixed("Failed to remove member from group - ", e.as_str())),
        };
        let size = bundle.commit.len();
        Ok(
            self.post_process_commit(
                group_name,
                bundle.commit,
                bundle.group_info,
                None,
                CGKAAction::Remove(name, size),
                elapsed,
                timestamp,
            ),
        )
    }

    /// Begins to join a group from outside with the information on it.
    pub fn external_join(&self, group_name: String, group_info: &GroupInfoAndTree) -> (r: ExternalJoin)
        ensures
            r.group_name == group_name,
            r.aad@ == group_aad(group_name@),
            r.gi_size == group_info.group_info@.len(),
            r.subscribe == self.subscription(group_name),
    {
        let aad = group_aad_bytes(&group_name);
        let subscribe = self.subscribe(group_name.clone());
        ExternalJoin { group_name, aad, gi_size: group_info.group_info.len(), subscribe }
    }

    /// Goes on after the engine has joined a group from outside: the user is in the group
    /// and in step with it, and the commit is sent.
    pub fn externally_joined(
        &mut self,
        join: ExternalJoin,
        state: MlsState,
        commit: Vec<u8>,
        group_info: Option<Vec<u8>>,
        elapsed: u128,
        timestamp: i64,
    ) -> (r: SendCommit)
        ensures
            (User { active: old(self).active, ..*final(self) }).has_joined(
                *old(self),
                join.group_name@,
                state,
            ),
            final(self).active@ == old(self).active@.insert(join.group_name@, (true, 0)),
            final(self).sends_commit(
                r,
                join.group_name,
                commit,
                group_info,
                None,
                CGKAAction::Join(commit.len(), join.gi_size),
                elapsed,
                timestamp,
            ),
            old(self).wf() ==> final(self).wf(),
    {
        let _ = self.active.insert(join.group_name.clone(), (true, 0));
        self.enter_group(&join.group_name, state);
        let commit_size = commit.len();
        self.post_process_commit(
            join.group_name,
            commit,
            group_info,
            None,
            CGKAAction::Join(commit_size, join.gi_size),
            elapsed,
            timestamp,
        )
    }
}

} // verus!
