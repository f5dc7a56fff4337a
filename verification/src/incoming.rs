//! Processing the messages of a group: application messages, proposals and commits of the
//! other members.
use crate::action::{CGKAAction, MergeTime, ProcessCryptoTime};
use crate::conversation::ConversationMessage;
use crate::delivery::{BrokerCall, DeliveryService};
use crate::mls::{
    identity_at, ContentType, MlsState, NextAction, ProcessMessageError, ProcessedContent,
    ProcessedMessage, ProtocolMessage, StagedCommit,
};
use crate::profiling::{start_iteration, Profiler};
use crate::record::{log_text, ActionRecord, EpochChange};
use crate::services::OrchestratorCommit;
use crate::text::{
    all_utf8, byte_strings, copy_bytes, decode, decode_all, decodings, prefixed, texts,
};
use crate::user::{AgentType, Group, User};
use vstd::prelude::*;
use vstd::string::*;
use vstd::utf8::*;

verus! {

/// What is still to be done after a message was processed.
#[derive(Debug, Clone, Copy, PartialEq, Eq, Structural)]
pub enum PostUpdateActions {
    Nothing,
    /// Leave the group.
    Remove,
}

/// What comes of a message: a record to log, what is still to be done, and the group that
/// it is to be done in.
pub struct ProtocolOutcome {
    pub record: Option<ActionRecord>,
    pub post_update: PostUpdateActions,
    pub group_id: Option<Vec<u8>>,
}

/// Nothing comes of a message.
pub open spec fn nothing() -> ProtocolOutcome {
    ProtocolOutcome { record: None, post_update: PostUpdateActions::Nothing, group_id: None }
}

/// A message that the engine is to process.
pub struct ProcessMessage {
    pub group_name: String,
    pub sender: String,
    /// The epoch of the group before the message.
    pub group_epoch: u64,
    /// When the message was taken up and in which epoch its record is.
    pub epoch_change: EpochChange,
}

/// What follows from the epoch of a message.
pub enum ProtocolStep {
    Done(ProtocolOutcome),
    Process(ProcessMessage),
}

/// A commit of another member that the engine is to merge.
pub struct MergeStaged {
    pub process: ProcessMessage,
    pub new_members: Vec<String>,
    pub removed_members: Vec<String>,
    /// The number of members before the commit.
    pub num_group_members: usize,
    pub transcript_hash: Vec<u8>,
    pub self_removed: bool,
}

/// What follows from the content of a message.
pub enum ProcessedStep {
    Done(ProtocolOutcome),
    /// The engine is to store the proposal.
    StoreProposal(ProcessMessage),
    /// The engine is to merge the commit.
    Merge(MergeStaged),
}

/// A merged commit after which the next action of the user is to be decided.
pub struct DecideNext {
    pub process: ProcessMessage,
    pub self_removed: bool,
}

/// What comes of a commit, and the message with which the agent is to be told before that,
/// if it is the user's turn.
pub struct DecidedStep {
    pub outcome: ProtocolOutcome,
    pub notify: Option<String>,
}

/// A group that the user leaves: the subscription to it is to end.
pub struct LeaveGroup {
    pub group_name: String,
    pub record: Option<ActionRecord>,
    pub unsubscribe: Option<BrokerCall>,
}

/// What follows a processed message.
pub enum PostUpdateStep {
    Done(Option<ActionRecord>),
    /// The waiting records are to be appended to the log file, and the group is to be left.
    Leave { log: String, leave: Result<LeaveGroup, String> },
}

/// An independent user draws lots after each commit: it goes inactive or goes on listening.
pub open spec fn drawn(inactive: bool) -> NextAction {
    if inactive {
        NextAction::Inactive
    } else {
        NextAction::Listen
    }
}

/// What an independent user does next after drawing lots.
pub fn independent_action(inactive: bool) -> (r: NextAction)
    ensures
        r == drawn(inactive),
{
    if inactive {
        NextAction::Inactive
    } else {
        NextAction::Listen
    }
}

fn dropped() -> (r: ProtocolOutcome)
    ensures
        r == nothing(),
{
    ProtocolOutcome { record: None, post_update: PostUpdateActions::Nothing, group_id: None }
}

impl User {
    /// What follows from the epoch of a message. A message of an unknown group is dropped.
    /// A message of the group's epoch or an earlier one is processed. A commit of a later
    /// epoch shows that the user has fallen out of step: it is remembered which epoch comes
    /// next, and the commit is logged but not processed, as long as it is the first such
    /// commit or follows the last one; other messages of later epochs are dropped. A group
    /// of which it is not known whether the user is in step is taken to be.
    pub open spec fn message_begins(
        self,
        before: User,
        message: ProtocolMessage,
        sender: String,
        timestamp: i64,
        step: ProtocolStep,
    ) -> bool {
        let name = decode_utf8(message.group_id@);
        let group_epoch = before.groups@[name].mls_group.epoch;
        let next = (message.epoch + 1) as u64;
        if !before.groups@.contains_key(name) {
            self == before && step == ProtocolStep::Done(nothing())
        } else if group_epoch >= message.epoch {
            self == before && Self::is_processed(
                step,
                name,
                sender,
                group_epoch,
                EpochChange { timestamp, epoch: message.epoch },
            )
        } else if message.content_type != ContentType::Commit {
            self == before && step == ProtocolStep::Done(nothing())
        } else {
            &&& self == (User { active: self.active, ..before })
            &&& self.active@ == before.active@.insert(name, (false, next))
            &&& if !before.active@.contains_key(name) {
                Self::is_processed(
                    step,
                    name,
                    sender,
                    group_epoch,
                    EpochChange { timestamp, epoch: next },
                )
            } else if before.active@[name].0 || before.active@[name].1 == message.epoch {
                &&& step matches ProtocolStep::Done(outcome)
                &&& outcome.post_update == PostUpdateActions::Nothing
                &&& outcome.group_id is None
                &&& outcome.record matches Some(record)
                &&& record.holds(
                    name,
                    CGKAAction::Process(sender),
                    EpochChange { timestamp, epoch: next },
                    0,
                    0,
                )
            } else {
                step == ProtocolStep::Done(nothing())
            }
        }
    }

    /// The message is to be processed, with these values.
    pub open spec fn is_processed(
        step: ProtocolStep,
        name: Seq<char>,
        sender: String,
        group_epoch: u64,
        epoch_change: EpochChange,
    ) -> bool {
        &&& step matches ProtocolStep::Process(process)
        &&& process.group_name@ == name
        &&& process.sender == sender
        &&& process.group_epoch == group_epoch
        &&& process.epoch_change == epoch_change
    }

    /// Takes up a message of a group. A new profile is begun for it.
    pub fn process_protocol_message(
        &mut self,
        prof: &mut Option<Profiler>,
        message: &ProtocolMessage,
        sender: String,
        timestamp: i64,
    ) -> (r: ProtocolStep)
        requires
            valid_utf8(message.group_id@),
            ({
                let name = decode_utf8(message.group_id@);
                old(self).groups@.contains_key(name) && old(self).groups@[name].mls_group.epoch
                    < message.epoch && message.content_type == ContentType::Commit ==> message.epoch
                    < u64::MAX
            }),
        ensures
            final(self).message_begins(*old(self), *message, sender, timestamp, r),
            *final(prof) matches Some(p) && p@ == Map::<Seq<char>, u128>::empty(),
            old(self).wf() ==> final(self).wf(),
    {
        let _ = start_iteration(prof);
        let group_name = decode(&message.group_id);
        let group_epoch: u64 = match self.groups.get(&group_name) {
            Some(group) => group.mls_group.epoch,
            None => return ProtocolStep::Done(dropped()),
        };
        let message_epoch: u64 = message.epoch;
        let mut epoch_change = EpochChange { timestamp, epoch: message_epoch };
        if group_epoch < message_epoch {
            match message.content_type {
                ContentType::Application => return ProtocolStep::Done(dropped()),
                ContentType::Proposal => return ProtocolStep::Done(dropped()),
                ContentType::Commit => {},
            }
            let previous_state = self.active.insert(group_name.clone(), (false, message_epoch + 1));
            epoch_change = EpochChange { timestamp, epoch: message_epoch + 1 };
            match previous_state {
                Some((active, epoch)) => {
                    if epoch == message_epoch || active {
                        let record = ActionRecord {
                            group_name,
                            action: CGKAAction::Process(sender),
                            epoch_change,
                            elapsed_time: 0,
                            num_users: 0,
                        };
                        return ProtocolStep::Done(
                            ProtocolOutcome {
                                record: Some(record),
                                post_update: PostUpdateActions::Nothing,
                                group_id: None,
                            },
                        );
                    } else {
                        return ProtocolStep::Done(dropped());
                    }
                },
                None => {},
            }
        }
        ProtocolStep::Process(ProcessMessage { group_name, sender, group_epoch, epoch_change })
    }

    /// The removed members of a staged commit are members whose identities spell names.
    pub open spec fn removed_are_named(state: MlsState, removed: Seq<u32>) -> bool {
        forall|i: int|
            0 <= i < removed.len() ==> (identity_at(state.members@, #[trigger] removed[i]) matches Some(
                identity,
            ) && valid_utf8(identity))
    }

    /// The names of the members with these leaves.
    pub open spec fn names_at(state: MlsState, leaves: Seq<u32>) -> Seq<Seq<char>> {
        leaves.map_values(|leaf: u32| decode_utf8(identity_at(state.members@, leaf)->Some_0))
    }

    fn names_of(state: &MlsState, leaves: &Vec<u32>) -> (r: Vec<String>)
        requires
            Self::removed_are_named(*state, leaves@),
        ensures
            texts(r@) == Self::names_at(*state, leaves@),
    {
        let mut r: Vec<String> = Vec::new();
        let mut i: usize = 0;
        while i < leaves.len()
            invariant
                i <= leaves.len(),
                Self::removed_are_named(*state, leaves@),
                r.len() == i,
                forall|j: int|
                    0 <= j < i ==> #[trigger] r@[j]@ == decode_utf8(
                        identity_at(state.members@, leaves@[j])->Some_0,
                    ),
            decreases leaves.len() - i,
        {
            assert(identity_at(state.members@, leaves@[i as int]) is Some);
            r.push(decode(state.member_at(leaves[i]).unwrap()));
            i += 1;
        }
        assert(texts(r@) =~= Self::names_at(*state, leaves@));
        r
    }

    /// What a processed message holds can be read: names and texts are UTF-8, and a commit
    /// removes members only.
    pub open spec fn legible(state: MlsState, message: ProcessedMessage) -> bool {
        &&& valid_utf8(message.sender@)
        &&& match message.content {
            ProcessedContent::ApplicationMessage(bytes) => valid_utf8(bytes@),
            ProcessedContent::StagedCommitMessage(commit) => all_utf8(byte_strings(commit.added@))
                && Self::removed_are_named(state, commit.removed@),
            _ => true,
        }
    }

    /// An application message was added to the conversation of a group; all else of the
    /// user is as before.
    pub open spec fn has_conversed(
        self,
        before: User,
        group_name: Seq<char>,
        text: Seq<char>,
        author: Seq<char>,
    ) -> bool {
        let group = self.groups@[group_name];
        let group_before = before.groups@[group_name];
        &&& self == (User { groups: self.groups, ..before })
        &&& self.groups@ == before.groups@.insert(group_name, group)
        &&& group == (Group { conversation: group.conversation, ..group_before })
        &&& group.conversation@.len() == group_before.conversation@.len() + 1
        &&& group.conversation@.drop_last() == group_before.conversation@
        &&& group.conversation@.last().message@ == text
        &&& group.conversation@.last().author@ == author
    }

    /// A commit of another member is to be merged.
    pub open spec fn is_merging(
        merge: MergeStaged,
        process: ProcessMessage,
        state: MlsState,
        commit: StagedCommit,
    ) -> bool {
        &&& merge.process == process
        &&& texts(merge.new_members@) == decodings(byte_strings(commit.added@))
        &&& texts(merge.removed_members@) == Self::names_at(state, commit.removed@)
        &&& merge.num_group_members == state.members@.len()
        &&& merge.transcript_hash == commit.transcript_hash
        &&& merge.self_removed == commit.self_removed
    }

    /// What follows from the content of a message. A failure that comes of a race between
    /// commits drops the message, any other is an error. An application message joins the
    /// conversation, a proposal is stored, that of someone outside the group is ignored,
    /// and a commit is merged.
    pub open spec fn message_is_processed(
        self,
        before: User,
        process: ProcessMessage,
        reply: Result<ProcessedMessage, ProcessMessageError>,
        r: Result<ProcessedStep, String>,
    ) -> bool {
        let state = before.groups@[process.group_name@].mls_group;
        match reply {
            Err(e) => self == before && if e.failure.is_conflict() {
                r == Ok::<ProcessedStep, String>(ProcessedStep::Done(nothing()))
            } else {
                r == Err::<ProcessedStep, String>(e.text)
            },
            Ok(message) => match message.content {
                ProcessedContent::ApplicationMessage(bytes) => r == Ok::<ProcessedStep, String>(
                    ProcessedStep::Done(nothing()),
                ) && self.has_conversed(
                    before,
                    process.group_name@,
                    decode_utf8(bytes@),
                    decode_utf8(message.sender@),
                ),
                ProcessedContent::ProposalMessage => self == before && r == Ok::<
                    ProcessedStep,
                    String,
                >(ProcessedStep::StoreProposal(process)),
                ProcessedContent::ExternalJoinProposalMessage => self == before && r == Ok::<
                    ProcessedStep,
                    String,
                >(ProcessedStep::Done(nothing())),
                ProcessedContent::StagedCommitMessage(commit) => self == before && (r matches Ok(
                    ProcessedStep::Merge(merge),
                ) && Self::is_merging(merge, process, state, commit)),
            },
        }
    }

    /// Goes on with what the engine made of a message.
    pub fn message_processed(
        &mut self,
        process: ProcessMessage,
        reply: Result<ProcessedMessage, ProcessMessageError>,
    ) -> (r: Result<ProcessedStep, String>)
        requires
            old(self).groups@.contains_key(process.group_name@),
            reply matches Ok(message) ==> Self::legible(
                old(self).groups@[process.group_name@].mls_group,
                message,
            ),
        ensures
            final(self).message_is_processed(*old(self), process, reply, r),
            old(self).wf() ==> final(self).wf(),
    {
        let message = match reply {
            Ok(message) => message,
            Err(e) => {
                if e.failure.conflicts() {
                    return Ok(ProcessedStep::Done(dropped()));
                } else {
                    return Err(e.text);
                }
            },
        };
        match message.content {
            ProcessedContent::ApplicationMessage(bytes) => {
                let conversation_message = ConversationMessage::new(
                    decode(&bytes),
                    decode(&message.sender),
                );
                let group = self.groups.remove(&process.group_name).unwrap();
                let mut group = group;
                let ghost before = group.conversation@;
                group.conversation.add(conversation_message);
                assert(group.conversation@.drop_last() =~= before);
                let _ = self.groups.insert(process.group_name, group);
                assert(self.groups@ =~= old(self).groups@.insert(process.group_name@, group));
                Ok(ProcessedStep::Done(dropped()))
            },
            ProcessedContent::ProposalMessage => Ok(ProcessedStep::StoreProposal(process)),
            ProcessedContent::ExternalJoinProposalMessage => Ok(ProcessedStep::Done(dropped())),
            ProcessedContent::StagedCommitMessage(commit) => {
                let state = &self.groups.get(&process.group_name).unwrap().mls_group;
                let new_members = decode_all(&commit.added);
                let removed_members = Self::names_of(state, &commit.removed);
                let num_group_members = state.members.len();
                Ok(
                    ProcessedStep::Merge(
                        MergeStaged {
                            process,
                            new_members,
                            removed_members,
                            num_group_members,
                            transcript_hash: commit.transcript_hash,
                            self_removed: commit.self_removed,
                        },
                    ),
                )
            },
        }
    }

    /// Goes on after the engine has stored a proposal, or could not: the group has its new
    /// state, and a record says who proposed.
    pub fn proposal_stored(
        &mut self,
        process: ProcessMessage,
        reply: Result<MlsState, String>,
        elapsed: u128,
    ) -> (r: Result<ProtocolOutcome, String>)
        requires
            old(self).groups@.contains_key(process.group_name@),
        ensures
            match reply {
                Err(e) => *final(self) == *old(self) && (r matches Err(text) && text@
                    == "Error storing proposal: "@ + e@),
                Ok(state) => {
                    &&& final(self).regrouped(*old(self), process.group_name@, state)
                    &&& r matches Ok(outcome)
                    &&& outcome.post_update == PostUpdateActions::Nothing
                    &&& outcome.group_id is None
                    &&& outcome.record matches Some(record)
                    &&& record.holds(
                        process.group_name@,
                        CGKAAction::StoreProp(process.sender),
                        process.epoch_change,
                        elapsed,
                        state.members@.len(),
                    )
                },
            },
            old(self).wf() ==> final(self).wf(),
    {
        let state = match reply {
            Ok(state) => state,
            Err(e) => return Err(prefixed("Error storing proposal: ", e.as_str())),
        };
        let num_users = state.members.len();
        self.set_group_state(&process.group_name, state);
        let record = ActionRecord {
            group_name: process.group_name,
            action: CGKAAction::StoreProp(process.sender),
            epoch_change: process.epoch_change,
            elapsed_time: elapsed,
            num_users,
        };
        Ok(
            ProtocolOutcome {
                record: Some(record),
                post_update: PostUpdateActions::Nothing,
                group_id: None,
            },
        )
    }

    /// The orchestrator of an orchestrated user is told of a commit of another member.
    pub open spec fn tells_of_staged(self, call: Option<OrchestratorCommit>, merge: MergeStaged) -> bool {
        match self.agent_type {
            AgentType::Independent => call is None,
            AgentType::Orchestrator(_) => {
                &&& call matches Some(c)
                &&& c.group_name == merge.process.group_name
                &&& c.removed_members == merge.removed_members
                &&& c.transcript_hash == merge.transcript_hash
                &&& c.total_members == merge.num_group_members + merge.new_members@.len()
                    - merge.removed_members@.len()
                &&& c.new_members == merge.new_members
            },
        }
    }

    /// A merged commit of another member gives the group its new state.
    pub open spec fn staged_is_merged(
        self,
        before: User,
        merge: MergeStaged,
        reply: Result<MlsState, String>,
        r: Result<(DecideNext, Option<OrchestratorCommit>), String>,
    ) -> bool {
        match reply {
            Err(e) => self == before && (r matches Err(text) && text@ == "Error merging commit: "@
                + e@),
            Ok(state) => {
                &&& self.regrouped(before, merge.process.group_name@, state)
                &&& r matches Ok((decide, call))
                &&& decide == (DecideNext {
                    process: merge.process,
                    self_removed: merge.self_removed,
                })
                &&& before.tells_of_staged(call, merge)
            },
        }
    }

    /// Goes on after the engine has merged a commit of another member, or could not (with
    /// the error in its debug form): the group has its new state, and the orchestrator of
    /// the group is to be told, or an independent user is to draw lots.
    pub fn staged_commit_merged(&mut self, merge: MergeStaged, reply: Result<MlsState, String>) -> (r:
        Result<(DecideNext, Option<OrchestratorCommit>), String>)
        requires
            old(self).groups@.contains_key(merge.process.group_name@),
            reply is Ok && old(self).agent_type is Orchestrator ==> {
                &&& old(self).orchestrated(merge.process.group_name@)
                &&& merge.num_group_members + merge.new_members@.len() <= usize::MAX
                &&& merge.removed_members@.len() <= merge.num_group_members
                    + merge.new_members@.len()
            },
        ensures
            final(self).staged_is_merged(*old(self), merge, reply, r),
            old(self).wf() ==> final(self).wf(),
    {
        let state = match reply {
            Ok(state) => state,
            Err(e) => return Err(prefixed("Error merging commit: ", e.as_str())),
        };
        let MergeStaged {
            process,
            new_members,
            removed_members,
            num_group_members,
            transcript_hash,
            self_removed,
        } = merge;
        self.set_group_state(&process.group_name, state);
        let call = match &self.agent_type {
            AgentType::Independent => None,
            AgentType::Orchestrator(_) => {
                let total_members: usize = num_group_members + new_members.len()
                    - removed_members.len();
                Some(
                    OrchestratorCommit {
                        group_name: process.group_name.clone(),
                        removed_members,
                        transcript_hash,
                        total_members,
                        new_members,
                    },
                )
            },
        };
        Ok((DecideNext { process, self_removed }, call))
    }

    /// What comes of a merged commit of another member. A user who was removed or goes
    /// inactive leaves the group; any other logs the commit with the times of its profile,
    /// and its agent is told if it is its turn.
    pub open spec fn is_decided(
        self,
        decide: DecideNext,
        prof: Option<Profiler>,
        next_action: NextAction,
        elapsed: u128,
        elapsed_now: u128,
        step: DecidedStep,
    ) -> bool {
        let process = decide.process;
        let state = self.groups@[process.group_name@].mls_group;
        if decide.self_removed || next_action == NextAction::Inactive {
            &&& step.notify is None
            &&& step.outcome.post_update == PostUpdateActions::Remove
            &&& step.outcome.group_id matches Some(group_id) && group_id@ == state.group_id@
            &&& step.outcome.record matches Some(record)
            &&& record.holds(
                process.group_name@,
                CGKAAction::Process(process.sender),
                EpochChange {
                    epoch: (process.group_epoch + 1) as u64,
                    timestamp: process.epoch_change.timestamp,
                },
                elapsed_now,
                state.members@.len(),
            )
        } else {
            &&& match step.notify {
                Some(msg) => next_action == NextAction::Commit && msg == process.group_name,
                None => next_action != NextAction::Commit,
            }
            &&& step.outcome.post_update == PostUpdateActions::Nothing
            &&& step.outcome.group_id is None
            &&& step.outcome.record matches Some(record)
            &&& record.holds(
                process.group_name@,
                CGKAAction::DeepProcess(
                    process.sender,
                    ProcessCryptoTime::of(Profiler::recorded(prof)),
                    MergeTime::of(Profiler::recorded(prof)),
                ),
                EpochChange {
                    epoch: (process.epoch_change.epoch + 1) as u64,
                    timestamp: process.epoch_change.timestamp,
                },
                elapsed,
                state.members@.len(),
            )
        }
    }

    /// Ends the processing of a commit of another member, once it is decided what the user
    /// does next. `elapsed` is the time up to the merge, `elapsed_now` that up to now. For
    /// a user who stays, the profile ends and a new one begins.
    pub fn staged_commit_decided(
        &self,
        prof: &mut Option<Profiler>,
        decide: DecideNext,
        next_action: NextAction,
        elapsed: u128,
        elapsed_now: u128,
    ) -> (r: DecidedStep)
        requires
            self.groups@.contains_key(decide.process.group_name@),
            decide.self_removed || next_action == NextAction::Inactive
                ==> decide.process.group_epoch < u64::MAX,
            decide.process.epoch_change.epoch < u64::MAX,
            next_action == NextAction::Commit ==> self.agent_type is Orchestrator,
        ensures
            self.is_decided(decide, *old(prof), next_action, elapsed, elapsed_now, r),
            if decide.self_removed || next_action == NextAction::Inactive {
                *final(prof) == *old(prof)
            } else {
                *final(prof) matches Some(p) && p@ == Map::<Seq<char>, u128>::empty()
            },
    {
        let DecideNext { process, self_removed } = decide;
        let ProcessMessage { group_name, sender, group_epoch, epoch_change } = process;
        let state = &self.groups.get(&group_name).unwrap().mls_group;
        if self_removed || next_action == NextAction::Inactive {
            let record = ActionRecord {
                group_name,
                action: CGKAAction::Process(sender),
                epoch_change: EpochChange {
                    epoch: group_epoch + 1,
                    timestamp: epoch_change.timestamp,
                },
                elapsed_time: elapsed_now,
                num_users: state.members.len(),
            };
            return DecidedStep {
                outcome: ProtocolOutcome {
                    record: Some(record),
                    post_update: PostUpdateActions::Remove,
                    group_id: Some(copy_bytes(&state.group_id)),
                },
                notify: None,
            };
        }
        let ended = start_iteration(prof);
        let process_time = ProcessCryptoTime::from_profile(&ended);
        let merge_time = MergeTime::from_profile(&ended);
        let notify = match next_action {
            NextAction::Commit => Some(self.send_to_agent(group_name.clone())),
            _ => None,
        };
        let record = ActionRecord {
            group_name,
            action: CGKAAction::DeepProcess(sender, process_time, merge_time),
            epoch_change: EpochChange {
                epoch: epoch_change.epoch + 1,
                timestamp: epoch_change.timestamp,
            },
            elapsed_time: elapsed,
            num_users: state.members.len(),
        };
        DecidedStep {
            outcome: ProtocolOutcome {
                record: Some(record),
                post_update: PostUpdateActions::Nothing,
                group_id: None,
            },
            notify,
        }
    }

    /// What comes of a commit of another member, once the agent was told, if it was to be, or
    /// could not be: then the error is handed on, and the commit leaves no record.
    pub fn staged_commit_announced(&self, step: DecidedStep, agent_reply: Result<(), String>) -> (r:
        Result<ProtocolOutcome, String>)
        ensures
            r == match agent_reply {
                Ok(_) => Ok::<ProtocolOutcome, String>(step.outcome),
                Err(e) => Err(e),
            },
    {
        match agent_reply {
            Ok(_) => Ok(step.outcome),
            Err(e) => Err(e),
        }
    }

    /// What follows a processed message: a user who is to leave the group writes its
    /// waiting records and ends the subscription, any other has only the record.
    pub open spec fn is_updated(self, before: User, outcome: ProtocolOutcome, step: PostUpdateStep) -> bool {
        match outcome.post_update {
            PostUpdateActions::Nothing => self == before && step == PostUpdateStep::Done(
                outcome.record,
            ),
            PostUpdateActions::Remove => {
                &&& self == (User { file_buffer: self.file_buffer, ..before })
                &&& self.file_buffer@ == Seq::<ActionRecord>::empty()
                &&& step matches PostUpdateStep::Leave { log, leave }
                &&& log@ == log_text(before.file_buffer@, before.username@)
                &&& match outcome.group_id {
                    Some(group_id) => {
                        &&& leave matches Ok(l)
                        &&& l.group_name@ == decode_utf8(group_id@)
                        &&& l.record == outcome.record
                        &&& l.unsubscribe == if before.ds == DeliveryService::Request {
                            None::<BrokerCall>
                        } else {
                            Some(BrokerCall::Unsubscribe(l.group_name))
                        }
                    },
                    None => leave matches Err(e) && e@
                        == "update::Error post update remove must have a group id"@,
                }
            },
        }
    }

    /// Goes on after a message was processed.
    pub fn post_update(&mut self, outcome: ProtocolOutcome) -> (r: PostUpdateStep)
        requires
            outcome.group_id matches Some(group_id) ==> valid_utf8(group_id@),
        ensures
            final(self).is_updated(*old(self), outcome, r),
            old(self).wf() ==> final(self).wf(),
    {
        match outcome.post_update {
            PostUpdateActions::Nothing => PostUpdateStep::Done(outcome.record),
            PostUpdateActions::Remove => {
                let log = self.flush_logs();
                let leave = match outcome.group_id {
                    Some(group_id) => {
                        let group_name = decode(&group_id);
                        let unsubscribe = self.unsubscribe(group_name.clone());
                        Ok(LeaveGroup { group_name, record: outcome.record, unsubscribe })
                    },
                    None => Err(
                        "update::Error post update remove must have a group id".to_owned(),
                    ),
                };
                PostUpdateStep::Leave { log, leave }
            },
        }
    }

    /// Ends the leaving of a group after the subscription was ended, or could not be: the
    /// user is no longer in the group.
    pub fn group_left(&mut self, leave: LeaveGroup, reply: Result<(), String>) -> (r: Result<
        Option<ActionRecord>,
        String,
    >)
        ensures
            match reply {
                Err(e) => *final(self) == *old(self) && (r matches Err(text) && text@
                    == "Error unsubscribing: "@ + e@),
                Ok(_) => {
                    &&& *final(self) == (User { groups: final(self).groups, ..*old(self) })
                    &&& final(self).groups@ == old(self).groups@.remove(leave.group_name@)
                    &&& r == Ok::<Option<ActionRecord>, String>(leave.record)
                },
            },
            old(self).wf() ==> final(self).wf(),
    {
        match reply {
            Err(e) => Err(prefixed("Error unsubscribing: ", e.as_str())),
            Ok(_) => {
                let _ = self.groups.remove(&leave.group_name);
                Ok(leave.record)
            },
        }
    }
}

} // verus!
