//! Sending a commit or proposal and confirming it: a commit is pending from the moment it
//! is sent until the user takes it over into its own state of the group.
use crate::action::CGKAAction;
use crate::delivery::{DeliveryService, GroupInfoAndTree, GroupMessage, Outgoing};
use crate::logbook::logged;
use crate::mls::MlsState;
use crate::profiling::{start_iteration, Profiler};
use crate::record::{ActionRecord, EpochChange};
use crate::services::{OrchestratorCommit, PublishGroupInfo};
use crate::text::{byte_strings, copy_bytes, encode_all, encodings, text_of, texts};
use crate::user::{AgentType, PendingCommit, StoredWelcome, User};
use vstd::prelude::*;
use vstd::utf8::*;

verus! {

/// A commit or proposal on its way to the group.
pub struct SendCommit {
    pub group_name: String,
    pub message: Outgoing,
    pub pending: PendingCommit,
}

/// A commit or proposal that was sent: when and in which epoch, and whether it is to be
/// confirmed at once.
pub struct CommitSent {
    pub epoch_change: EpochChange,
    pub confirm: bool,
}

/// A commit that is being confirmed: the engine is to merge it and to export the tree.
pub struct ConfirmCommit {
    pub group_name: String,
    pub pending: PendingCommit,
}

/// A commit that was merged, with the welcomes that are to be sent, in order, until one
/// fails.
pub struct MergedCommit {
    pub group_name: String,
    pub group_info: Option<Vec<u8>>,
    pub ratchet_tree: Vec<u8>,
    pub record: ActionRecord,
    pub new_members: Vec<String>,
    pub welcomes: Vec<Outgoing>,
}

/// A commit whose new state of the group is being published.
pub struct PublishCommit {
    pub group_name: String,
    pub record: ActionRecord,
    pub new_members: Vec<String>,
    pub removed_members: Vec<String>,
}

/// What follows the welcomes of a merged commit.
pub enum ConfirmStep {
    /// Nothing but to append this to the log file.
    Done(Option<String>),
    /// The engine is to export the information on the group, which is then published.
    Export(PublishCommit),
    /// The information on the group is to be published.
    Publish(PublishCommit, PublishGroupInfo),
}

/// A published commit of which the orchestrator of the group, if there is one, is told.
pub struct ConfirmedCommit {
    pub group_name: String,
    pub record: ActionRecord,
}

impl User {
    /// The record of an action in a group.
    pub open spec fn record_of(
        self,
        group_name: String,
        action: CGKAAction,
        elapsed_time: u128,
        timestamp: i64,
    ) -> ActionRecord {
        ActionRecord {
            group_name,
            action,
            epoch_change: EpochChange {
                timestamp,
                epoch: self.groups@[group_name@].mls_group.epoch,
            },
            elapsed_time,
            num_users: self.groups@[group_name@].mls_group.members.len(),
        }
    }

    /// A commit is sent to its group, with a record of the group as it is before it.
    pub open spec fn sends_commit(
        self,
        send: SendCommit,
        group_name: String,
        msg_out: Vec<u8>,
        group_info: Option<Vec<u8>>,
        welcome: Option<StoredWelcome>,
        action: CGKAAction,
        elapsed_time: u128,
        timestamp: i64,
    ) -> bool {
        &&& send.group_name == group_name
        &&& self.goes_to_group(
            send.message,
            group_name,
            msg_out,
            self.addressees(self.groups@[group_name@].mls_group),
        )
        &&& send.pending == (PendingCommit {
            group_info,
            welcome,
            record: self.record_of(group_name, action, elapsed_time, timestamp),
        })
    }

    /// Sends a commit or proposal that the engine has made.
    pub fn post_process_commit(
        &self,
        group_name: String,
        msg_out: Vec<u8>,
        group_info: Option<Vec<u8>>,
        welcome: Option<StoredWelcome>,
        action: CGKAAction,
        elapsed_time: u128,
        timestamp: i64,
    ) -> (r: SendCommit)
        requires
            self.groups@.contains_key(group_name@),
        ensures
            self.sends_commit(
                r,
                group_name,
                msg_out,
                group_info,
                welcome,
                action,
                elapsed_time,
                timestamp,
            ),
    {
        let group = self.groups.get(&group_name).unwrap();
        let record = ActionRecord {
            group_name: group_name.clone(),
            action,
            epoch_change: EpochChange { timestamp, epoch: group.mls_group.epoch },
            elapsed_time,
            num_users: group.mls_group.members.len(),
        };
        let recipients = self.group_recipients(&group.mls_group);
        let message = self.send_to_group(group_name.clone(), msg_out, recipients);
        SendCommit { group_name, message, pending: PendingCommit { group_info, welcome, record } }
    }

    /// A commit that was sent is pending; one that could not be sent is not.
    pub open spec fn commit_is_sent(
        self,
        before: User,
        sent: SendCommit,
        reply: Result<(), String>,
        r: Result<CommitSent, String>,
    ) -> bool {
        match reply {
            Ok(_) => {
                &&& self == (User { pending_commits: self.pending_commits, ..before })
                &&& self.pending_commits@ == before.pending_commits@.insert(
                    sent.group_name@,
                    sent.pending,
                )
                &&& r == Ok::<CommitSent, String>(
                    CommitSent {
                        epoch_change: sent.pending.record.epoch_change,
                        confirm: before.agent_type is Orchestrator,
                    },
                )
            },
            Err(e) => self == before && r == Err::<CommitSent, String>(e),
        }
    }

    /// Goes on after a commit or proposal was sent, or could not be: it is now pending. An
    /// orchestrated user confirms it at once, an independent one when it comes back.
    pub fn commit_sent(&mut self, sent: SendCommit, reply: Result<(), String>) -> (r: Result<
        CommitSent,
        String,
    >)
        ensures
            final(self).commit_is_sent(*old(self), sent, reply, r),
            old(self).wf() ==> final(self).wf(),
    {
        match reply {
            Ok(_) => {
                let epoch_change = sent.pending.record.epoch_change;
                let _ = self.pending_commits.insert(sent.group_name, sent.pending);
                let confirm = match &self.agent_type {
                    AgentType::Orchestrator(_) => true,
                    AgentType::Independent => false,
                };
                Ok(CommitSent { epoch_change, confirm })
            },
            Err(e) => Err(e),
        }
    }

    /// What comes of a commit or proposal that was sent, once it was confirmed, if that was
    /// to be done at once, or could not be: when it was sent and in which epoch, or the error.
    pub fn commit_done(&self, sent: CommitSent, confirm_reply: Result<(), String>) -> (r: Result<
        EpochChange,
        String,
    >)
        ensures
            r == match confirm_reply {
                Ok(_) => Ok::<EpochChange, String>(sent.epoch_change),
                Err(e) => Err(e),
            },
    {
        match confirm_reply {
            Ok(_) => Ok(sent.epoch_change),
            Err(e) => Err(e),
        }
    }

    /// The pending commit of a group, if there is one, is taken up to be confirmed, and is
    /// pending no longer.
    pub open spec fn confirm_begins(
        self,
        before: User,
        group_name: String,
        r: Result<Option<ConfirmCommit>, String>,
    ) -> bool {
        if !before.pending_commits@.contains_key(group_name@) {
            self == before && r == Ok::<Option<ConfirmCommit>, String>(None)
        } else {
            &&& self == (User { pending_commits: self.pending_commits, ..before })
            &&& self.pending_commits@ == before.pending_commits@.remove(group_name@)
            &&& if before.groups@.contains_key(group_name@) {
                r == Ok::<Option<ConfirmCommit>, String>(
                    Some(
                        ConfirmCommit {
                            group_name,
                            pending: before.pending_commits@[group_name@],
                        },
                    ),
                )
            } else {
                r matches Err(e) && e@ == Self::no_group(group_name@)
            }
        }
    }

    /// Begins to confirm the pending commit of a group. A new profile is begun for it.
    pub fn confirm_commit(&mut self, prof: &mut Option<Profiler>, group_name: String) -> (r: Result<
        Option<ConfirmCommit>,
        String,
    >)
        ensures
            final(self).confirm_begins(*old(self), group_name, r),
            *final(prof) matches Some(p) && p@ == Map::<Seq<char>, u128>::empty(),
            old(self).wf() ==> final(self).wf(),
    {
        let _ = start_iteration(prof);
        match self.pending_commits.remove(&group_name) {
            None => Ok(None),
            Some(pending) => {
                if self.groups.contains_key(&group_name) {
                    Ok(Some(ConfirmCommit { group_name, pending }))
                } else {
                    Err(Self::no_group_text(&group_name))
                }
            },
        }
    }

    /// The members of a group that its orchestrator knows to be active.
    pub open spec fn active_members(self, group_name: Seq<char>) -> Option<Seq<Seq<char>>> {
        match self.agent_type {
            AgentType::Independent => None,
            AgentType::Orchestrator(known) => Some(texts(known@[group_name]@)),
        }
    }

    /// A welcome by the user, with the tree of the group, for the new members and with the
    /// active ones.
    pub open spec fn is_welcome_message(
        self,
        m: GroupMessage,
        welcome: StoredWelcome,
        ratchet_tree: Vec<u8>,
        group_name: Seq<char>,
    ) -> bool {
        &&& m.msg@ == welcome.welcome@
        &&& m.sender@ == self.identity()
        &&& m.ratchet_tree matches Some(tree) && tree@ == ratchet_tree@
        &&& byte_strings(m.recipients@) == encodings(texts(welcome.recipients@))
        &&& match self.active_members(group_name) {
            None => m.active_members is None,
            Some(names) => m.active_members matches Some(a) && byte_strings(a@) == encodings(names),
        }
    }

    /// The welcome is sent once for each new member: to the server without a broker, else
    /// to the broker under the member's name.
    pub open spec fn welcomes_all(
        self,
        welcomes: Seq<Outgoing>,
        welcome: StoredWelcome,
        ratchet_tree: Vec<u8>,
        group_name: Seq<char>,
    ) -> bool {
        &&& welcomes.len() == welcome.recipients@.len()
        &&& forall|i: int|
            0 <= i < welcomes.len() ==> match #[trigger] welcomes[i] {
                Outgoing::Backend(m) => self.ds == DeliveryService::Request
                    && self.is_welcome_message(m, welcome, ratchet_tree, group_name),
                Outgoing::Broker(m, name) => self.ds != DeliveryService::Request
                    && self.is_welcome_message(m, welcome, ratchet_tree, group_name) && name
                    == welcome.recipients@[i],
            }
    }

    fn welcome_message(
        &self,
        welcome: &StoredWelcome,
        ratchet_tree: &Vec<u8>,
        group_name: &String,
    ) -> (r: GroupMessage)
        requires
            self.agent_type is Orchestrator ==> self.orchestrated(group_name@),
        ensures
            self.is_welcome_message(r, *welcome, *ratchet_tree, group_name@),
    {
        let active_members = match &self.agent_type {
            AgentType::Independent => None,
            AgentType::Orchestrator(known) => Some(encode_all(known.get(group_name).unwrap())),
        };
        GroupMessage {
            msg: copy_bytes(&welcome.welcome),
            sender: self.own_identity(),
            ratchet_tree: Some(copy_bytes(ratchet_tree)),
            recipients: encode_all(&welcome.recipients),
            active_members,
        }
    }

    fn welcome_messages(
        &self,
        welcome: &StoredWelcome,
        ratchet_tree: &Vec<u8>,
        group_name: &String,
    ) -> (r: Vec<Outgoing>)
        requires
            self.agent_type is Orchestrator ==> self.orchestrated(group_name@),
        ensures
            self.welcomes_all(r@, *welcome, *ratchet_tree, group_name@),
    {
        let mut r: Vec<Outgoing> = Vec::new();
        let mut i: usize = 0;
        while i < welcome.recipients.len()
            invariant
                i <= welcome.recipients.len(),
                r.len() == i,
                self.agent_type is Orchestrator ==> self.orchestrated(group_name@),
                forall|j: int|
                    0 <= j < i ==> match #[trigger] r@[j] {
                        Outgoing::Backend(m) => self.ds == DeliveryService::Request
                            && self.is_welcome_message(m, *welcome, *ratchet_tree, group_name@),
                        Outgoing::Broker(m, name) => self.ds != DeliveryService::Request
                            && self.is_welcome_message(m, *welcome, *ratchet_tree, group_name@)
                            && name == welcome.recipients@[j],
                    },
            decreases welcome.recipients.len() - i,
        {
            let m = self.welcome_message(welcome, ratchet_tree, group_name);
            if self.ds.uses_broker() {
                r.push(Outgoing::Broker(m, welcome.recipients[i].clone()));
            } else {
                r.push(Outgoing::Backend(m));
            }
            i += 1;
        }
        r
    }

    /// A merged commit gives the group its new state and welcomes the new members.
    pub open spec fn is_merged(
        self,
        before: User,
        confirm: ConfirmCommit,
        state: MlsState,
        ratchet_tree: Vec<u8>,
        merged: MergedCommit,
    ) -> bool {
        &&& self.regrouped(before, confirm.group_name@, state)
        &&& merged.group_name == confirm.group_name
        &&& merged.group_info == confirm.pending.group_info
        &&& merged.ratchet_tree == ratchet_tree
        &&& merged.record == confirm.pending.record
        &&& match confirm.pending.welcome {
            None => merged.new_members@.len() == 0 && merged.welcomes@.len() == 0,
            Some(welcome) => merged.new_members == welcome.recipients && before.welcomes_all(
                merged.welcomes@,
                welcome,
                ratchet_tree,
                confirm.group_name@,
            ),
        }
    }

    /// Goes on after the engine has merged the commit: the group has its new state, and
    /// the new members are welcomed.
    pub fn commit_merged(
        &mut self,
        confirm: ConfirmCommit,
        state: MlsState,
        ratchet_tree: Vec<u8>,
    ) -> (r: MergedCommit)
        requires
            old(self).groups@.contains_key(confirm.group_name@),
            confirm.pending.welcome is Some && old(self).agent_type is Orchestrator ==> old(
                self,
            ).orchestrated(confirm.group_name@),
        ensures
            final(self).is_merged(*old(self), confirm, state, ratchet_tree, r),
            old(self).wf() ==> final(self).wf(),
    {
        let ConfirmCommit { group_name, pending } = confirm;
        let PendingCommit { group_info, welcome, record } = pending;
        self.set_group_state(&group_name, state);
        let (new_members, welcomes) = match welcome {
            None => (Vec::new(), Vec::new()),
            Some(welcome) => {
                let welcomes = self.welcome_messages(&welcome, &ratchet_tree, &group_name);
                (welcome.recipients, welcomes)
            },
        };
        MergedCommit { group_name, group_info, ratchet_tree, record, new_members, welcomes }
    }

    /// Who left by an action: the one who was removed.
    pub open spec fn is_removed_by(removed: Seq<String>, action: CGKAAction) -> bool {
        match action {
            CGKAAction::Remove(user, _) => removed == seq![user],
            _ => removed.len() == 0,
        }
    }

    fn removed_by(action: &CGKAAction) -> (r: Vec<String>)
        ensures
            Self::is_removed_by(r@, *action),
    {
        match action {
            CGKAAction::Remove(user, _) => {
                let removed = vec![user.clone()];
                assert(removed@ =~= seq![*user]);
                removed
            },
            _ => Vec::new(),
        }
    }

    /// What follows the welcomes: a proposal is only logged, the new state of the group
    /// after a commit is published.
    pub open spec fn welcomes_are_sent(self, before: User, merged: MergedCommit, step: ConfirmStep) -> bool {
        if merged.record.action is Propose {
            &&& self == (User { file_buffer: self.file_buffer, ..before })
            &&& step matches ConfirmStep::Done(log)
            &&& (self.file_buffer@, text_of(log)) == logged(
                before.file_buffer@,
                merged.record,
                before.username@,
            )
        } else {
            &&& self == before
            &&& match merged.group_info {
                None => step matches ConfirmStep::Export(p) && Self::is_publishing(p, merged),
                Some(group_info) => {
                    &&& step matches ConfirmStep::Publish(p, call)
                    &&& Self::is_publishing(p, merged)
                    &&& self.publishes(
                        call,
                        decode_utf8(before.groups@[merged.group_name@].mls_group.group_id@),
                        GroupInfoAndTree { group_info, ratchet_tree: Some(merged.ratchet_tree) },
                    )
                },
            }
        }
    }

    /// What is kept of a merged commit while the new state of the group is published.
    pub open spec fn is_publishing(p: PublishCommit, merged: MergedCommit) -> bool {
        &&& p.group_name == merged.group_name
        &&& p.record == merged.record
        &&& p.new_members == merged.new_members
        &&& Self::is_removed_by(p.removed_members@, merged.record.action)
    }

    /// Goes on after the welcomes were sent, or one could not be.
    pub fn welcomes_sent(&mut self, merged: MergedCommit, reply: Result<(), String>) -> (r: Result<
        ConfirmStep,
        String,
    >)
        requires
            old(self).groups@.contains_key(merged.group_name@),
            reply is Ok && !(merged.record.action is Propose) && merged.group_info is Some
                ==> valid_utf8(old(self).groups@[merged.group_name@].mls_group.group_id@),
        ensures
            match reply {
                Ok(_) => r matches Ok(step) && final(self).welcomes_are_sent(
                    *old(self),
                    merged,
                    step,
                ),
                Err(e) => *final(self) == *old(self) && r == Err::<ConfirmStep, String>(e),
            },
            old(self).wf() ==> final(self).wf(),
    {
        match reply {
            Err(e) => return Err(e),
            Ok(_) => {},
        }
        let MergedCommit { group_name, group_info, ratchet_tree, record, new_members, welcomes: _ } =
            merged;
        match &record.action {
            CGKAAction::Propose(_) => {
                return Ok(ConfirmStep::Done(self.write_timestamp(record)));
            },
            _ => {},
        }
        let removed_members = Self::removed_by(&record.action);
        match group_info {
            None => Ok(
                ConfirmStep::Export(
                    PublishCommit { group_name, record, new_members, removed_members },
                ),
            ),
            Some(group_info) => {
                let group = self.groups.get(&group_name).unwrap();
                let call = self._publish_group_info(
                    &group.mls_group,
                    GroupInfoAndTree { group_info, ratchet_tree: Some(ratchet_tree) },
                );
                Ok(
                    ConfirmStep::Publish(
                        PublishCommit { group_name, record, new_members, removed_members },
                        call,
                    ),
                )
            },
        }
    }

    /// The orchestrator of a group, if the user is orchestrated, is told of a commit.
    pub open spec fn tells_orchestrator(
        self,
        call: Option<OrchestratorCommit>,
        publish: PublishCommit,
    ) -> bool {
        match self.agent_type {
            AgentType::Independent => call is None,
            AgentType::Orchestrator(_) => {
                let state = self.groups@[publish.group_name@].mls_group;
                &&& call matches Some(c)
                &&& c.group_name == publish.group_name
                &&& c.removed_members == publish.removed_members
                &&& c.transcript_hash@ == state.transcript_hash@
                &&& c.total_members == state.members@.len()
                &&& c.new_members == publish.new_members
            },
        }
    }

    /// What follows the publication of the new state of a group.
    pub open spec fn is_published(
        self,
        publish: PublishCommit,
        reply: Result<(), String>,
        r: Result<(ConfirmedCommit, Option<OrchestratorCommit>), String>,
    ) -> bool {
        match reply {
            Ok(_) => {
                &&& r matches Ok((confirmed, call))
                &&& confirmed == (ConfirmedCommit {
                    group_name: publish.group_name,
                    record: publish.record,
                })
                &&& self.tells_orchestrator(call, publish)
            },
            Err(e) => r matches Err(text) && text == e,
        }
    }

    /// Goes on after the new state of the group was published, or could not be: the
    /// orchestrator of the group, if there is one, is to be told.
    pub fn commit_published(&self, publish: PublishCommit, reply: Result<(), String>) -> (r: Result<
        (ConfirmedCommit, Option<OrchestratorCommit>),
        String,
    >)
        requires
            self.groups@.contains_key(publish.group_name@),
            reply is Ok && self.agent_type is Orchestrator ==> self.orchestrated(
                publish.group_name@,
            ),
        ensures
            self.is_published(publish, reply, r),
    {
        match reply {
            Err(e) => return Err(e),
            Ok(_) => {},
        }
        let PublishCommit { group_name, record, new_members, removed_members } = publish;
        let call = match &self.agent_type {
            AgentType::Independent => None,
            AgentType::Orchestrator(_) => {
                let state = &self.groups.get(&group_name).unwrap().mls_group;
                Some(
                    OrchestratorCommit {
                        group_name: group_name.clone(),
                        removed_members,
                        transcript_hash: copy_bytes(&state.transcript_hash),
                        total_members: state.members.len(),
                        new_members,
                    },
                )
            },
        };
        Ok((ConfirmedCommit { group_name, record }, call))
    }

    /// The record of a commit as it is logged: the epoch and the members are those after
    /// the commit, and the time of merging is added.
    pub open spec fn confirmed_record(self, confirmed: ConfirmedCommit, merge_total: u128) -> ActionRecord {
        ActionRecord {
            epoch_change: EpochChange {
                epoch: (confirmed.record.epoch_change.epoch + 1) as u64,
                ..confirmed.record.epoch_change
            },
            num_users: self.groups@[confirmed.group_name@].mls_group.members.len(),
            elapsed_time: (confirmed.record.elapsed_time + merge_total) as u128,
            ..confirmed.record
        }
    }

    /// The time of merging in the current profile.
    pub open spec fn merge_total(prof: Option<Profiler>) -> u128 {
        Profiler::time(Profiler::recorded(prof), "merge_total"@)
    }

    /// Ends the confirmation of a commit, unless the agent should have been told that it
    /// is its turn and could not be: the commit is logged. The profile that was begun with
    /// the confirmation ends, and a new one begins.
    pub fn commit_confirmed(
        &mut self,
        prof: &mut Option<Profiler>,
        confirmed: ConfirmedCommit,
        agent_reply: Result<(), String>,
    ) -> (r: Result<Option<String>, String>)
        requires
            old(self).groups@.contains_key(confirmed.group_name@),
            agent_reply is Ok ==> confirmed.record.epoch_change.epoch < u64::MAX
                && confirmed.record.elapsed_time + Self::merge_total(*old(prof)) <= u128::MAX,
        ensures
            match agent_reply {
                Ok(_) => {
                    &&& *final(self) == (User {
                        file_buffer: final(self).file_buffer,
                        ..*old(self)
                    })
                    &&& r matches Ok(log)
                    &&& (final(self).file_buffer@, text_of(log)) == logged(
                        old(self).file_buffer@,
                        old(self).confirmed_record(confirmed, Self::merge_total(*old(prof))),
                        old(self).username@,
                    )
                    &&& *final(prof) matches Some(p) && p@ == Map::<Seq<char>, u128>::empty()
                },
                Err(e) => *final(self) == *old(self) && *final(prof) == *old(prof) && r == Err::<
                    Option<String>,
                    String,
                >(e),
            },
            old(self).wf() ==> final(self).wf(),
    {
        match agent_reply {
            Err(e) => return Err(e),
            Ok(_) => {},
        }
        let ended = start_iteration(prof);
        let additional_commit_time: u128 = ended.get("merge_total");
        let num_users = self.groups.get(&confirmed.group_name).unwrap().mls_group.members.len();
        let record = confirmed.record;
        let edited_record = ActionRecord {
            group_name: record.group_name,
            action: record.action,
            epoch_change: EpochChange {
                timestamp: record.epoch_change.timestamp,
                epoch: record.epoch_change.epoch + 1,
            },
            elapsed_time: record.elapsed_time + additional_commit_time,
            num_users,
        };
        Ok(self.write_timestamp(edited_record))
    }
}

} // verus!
