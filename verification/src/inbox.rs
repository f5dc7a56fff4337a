//! Taking in a message: the user's own come back to be confirmed, welcomes are followed
//! into new groups, and all others are processed in theirs.
use crate::action::CGKAAction;
use crate::conversation::{Conversation, ConversationMessage};
use crate::delivery::{BrokerCall, DeliveryService, WelcomeAcknowledgement};
use crate::mls::{MlsState, NextAction, ProtocolMessage};
use crate::record::{ActionRecord, EpochChange};
use crate::services::OrchestratorCommit;
use crate::text::{
    all_utf8, byte_strings, copy_bytes, decode, decode_all, decodings, encode, prefixed, texts,
};
use crate::user::{AgentType, Group, User};
use vstd::pervasive::unreached;
use vstd::prelude::*;
use vstd::string::*;
use vstd::utf8::*;

verus! {

/// A welcome, with the hash references of the key packages that it is encrypted to.
pub struct Welcome {
    pub bytes: Vec<u8>,
    pub new_members: Vec<Vec<u8>>,
}

/// What a received message holds.
pub enum MessageBody {
    Welcome(Welcome),
    PrivateMessage(ProtocolMessage),
    PublicMessage(ProtocolMessage),
    Other,
}

/// A received message. `msg_size` is the length of the message before it was read.
pub struct MessageIn {
    pub sender: Vec<u8>,
    pub msg: MessageBody,
    pub msg_size: usize,
    pub ratchet_tree: Option<Vec<u8>>,
    pub recipients: Vec<Vec<u8>>,
    pub active_members: Option<Vec<Vec<u8>>>,
}

/// A welcome that is to be followed.
pub struct WelcomeIn {
    pub sender: String,
    pub welcome: Welcome,
    pub ratchet_tree: Vec<u8>,
    /// The length of the welcome and the tree together.
    pub welcome_size: usize,
    pub recipients: Vec<Vec<u8>>,
    pub active_members: Option<Vec<Vec<u8>>>,
}

/// What is to be done with a received message.
pub enum InMessageStep {
    /// The pending commit of the group is to be confirmed.
    Confirm(String),
    /// The welcome is to be followed.
    Join(WelcomeIn),
    /// The message of the group is to be processed, with the name of its sender.
    Process(ProtocolMessage, String),
}

/// Why the engine could not follow a welcome, in debug form.
pub enum JoinError {
    Staging(String),
    Joining(String),
}

/// A group that was joined, with the additional authenticated data that the engine is to
/// use in it.
pub struct JoinedGroup {
    pub group_name: String,
    pub epoch_change: EpochChange,
    pub elapsed_time: u128,
    pub aad: Vec<u8>,
}

/// A new orchestrator, with the members that it starts from and the first commit that it
/// is told of.
pub struct NewOrchestrator {
    pub active_members: Vec<String>,
    pub commit: OrchestratorCommit,
}

/// A followed welcome: its record, and the orchestrator that is to be made for the group
/// of an orchestrated user.
pub struct AcceptedWelcome {
    pub group_name: String,
    pub record: ActionRecord,
    pub orchestrator: Option<NewOrchestrator>,
}

/// What is to be done, in this order, once the user knows what it does next in a group
/// that it was welcomed to.
pub struct WelcomeStep {
    pub ack: Option<WelcomeAcknowledgement>,
    pub subscribe: Option<BrokerCall>,
    pub notify: Option<String>,
}

/// The length of an optional byte string.
pub open spec fn size_of(bytes: Option<Vec<u8>>) -> nat {
    match bytes {
        Some(b) => b@.len(),
        None => 0,
    }
}

/// The additional authenticated data of a group.
pub open spec fn group_aad(group_name: Seq<char>) -> Seq<u8> {
    encode_utf8(group_name + " AAD"@)
}

/// Writes the additional authenticated data of a group.
pub fn group_aad_bytes(group_name: &String) -> (r: Vec<u8>)
    ensures
        r@ == group_aad(group_name@),
{
    let mut s = group_name.clone();
    s.append(" AAD");
    encode(s.as_str())
}

impl MessageIn {
    /// The message of a group in a body.
    pub open spec fn protocol_message(self) -> Option<ProtocolMessage> {
        match self.msg {
            MessageBody::PrivateMessage(message) => Some(message),
            MessageBody::PublicMessage(message) => Some(message),
            _ => None,
        }
    }
}

impl User {
    /// What is to be done with a received message.
    pub open spec fn is_taken_in(self, message: MessageIn, r: Result<InMessageStep, String>) -> bool {
        let sender = decode_utf8(message.sender@);
        if sender == self.username@ {
            r matches Ok(InMessageStep::Confirm(group_name)) && group_name@ == decode_utf8(
                message.protocol_message()->Some_0.group_id@,
            )
        } else {
            match message.msg {
                MessageBody::Welcome(welcome) => match message.ratchet_tree {
                    None => r matches Err(e) && e@ == "Welcome message must have ratchet tree"@,
                    Some(ratchet_tree) => {
                        &&& r matches Ok(InMessageStep::Join(w))
                        &&& w.sender@ == sender
                        &&& w.welcome == welcome
                        &&& w.ratchet_tree == ratchet_tree
                        &&& w.welcome_size == message.msg_size + ratchet_tree@.len()
                        &&& w.recipients == message.recipients
                        &&& w.active_members == message.active_members
                    },
                },
                _ => {
                    &&& r matches Ok(InMessageStep::Process(m, s))
                    &&& Some(m) == message.protocol_message()
                    &&& s@ == sender
                },
            }
        }
    }

    /// Takes in a message. One that the user has sent itself confirms the pending commit
    /// of its group.
    pub fn process_in_message(&self, group_message: MessageIn) -> (r: Result<InMessageStep, String>)
        requires
            valid_utf8(group_message.sender@),
            !(group_message.msg is Other),
            decode_utf8(group_message.sender@) == self.username@ ==> (
            group_message.protocol_message() matches Some(m) && valid_utf8(m.group_id@)),
            group_message.msg_size + size_of(group_message.ratchet_tree) <= usize::MAX,
        ensures
            self.is_taken_in(group_message, r),
    {
        let MessageIn { sender, msg, msg_size, ratchet_tree, recipients, active_members } =
            group_message;
        let sender = decode(&sender);
        if sender == self.username {
            return match msg {
                MessageBody::PrivateMessage(m) => Ok(InMessageStep::Confirm(decode(&m.group_id))),
                MessageBody::PublicMessage(m) => Ok(InMessageStep::Confirm(decode(&m.group_id))),
                _ => unreached(),
            };
        }
        match msg {
            MessageBody::Welcome(welcome) => match ratchet_tree {
                None => Err("Welcome message must have ratchet tree".to_owned()),
                Some(ratchet_tree) => {
                    let welcome_size: usize = msg_size + ratchet_tree.len();
                    Ok(
                        InMessageStep::Join(
                            WelcomeIn {
                                sender,
                                welcome,
                                ratchet_tree,
                                welcome_size,
                                recipients,
                                active_members,
                            },
                        ),
                    )
                },
            },
            MessageBody::PrivateMessage(m) => Ok(InMessageStep::Process(m, sender)),
            MessageBody::PublicMessage(m) => Ok(InMessageStep::Process(m, sender)),
            MessageBody::Other => unreached(),
        }
    }

    /// Begins to follow a welcome, which the engine is to read: the key packages that it
    /// is encrypted to are used up.
    pub fn join_group(&mut self, welcome: &Welcome)
        ensures
            *final(self) == (User { key_packages: final(self).key_packages, ..*old(self) }),
            forall|hash_ref: Seq<u8>| #[trigger]
                final(self).key_packages@.contains_key(hash_ref) <==>
                    old(self).key_packages@.contains_key(hash_ref) && !byte_strings(
                    welcome.new_members@,
                ).contains(hash_ref),
            forall|hash_ref: Seq<u8>|
                final(self).key_packages@.contains_key(hash_ref) ==>
                    #[trigger] final(self).key_packages@[hash_ref]
                    == old(self).key_packages@[hash_ref],
            old(self).wf() ==> final(self).wf(),
    {
        let ghost hashes = byte_strings(welcome.new_members@);
        let mut i: usize = 0;
        while i < welcome.new_members.len()
            invariant
                i <= welcome.new_members.len(),
                hashes == byte_strings(welcome.new_members@),
                *self == (User { key_packages: self.key_packages, ..*old(self) }),
                forall|hash_ref: Seq<u8>| #[trigger]
                    self.key_packages@.contains_key(hash_ref) <==> old(
                        self,
                    ).key_packages@.contains_key(hash_ref) && !hashes.take(i as int).contains(
                        hash_ref,
                    ),
                forall|hash_ref: Seq<u8>|
                    self.key_packages@.contains_key(hash_ref) ==> #[trigger] self.key_packages@[hash_ref]
                        == old(self).key_packages@[hash_ref],
                old(self).wf() ==> self.wf(),
            decreases welcome.new_members.len() - i,
        {
            let ghost before = self.key_packages@;
            let _ = self.key_packages.remove(&welcome.new_members[i]);
            proof {
                let last = welcome.new_members@[i as int]@;
                assert(hashes.take(i + 1) =~= hashes.take(i as int).push(last));
                assert forall|h: Seq<u8>| #[trigger]
                    hashes.take(i + 1).contains(h) <==> hashes.take(i as int).contains(h) || h
                        == last by {
                    if hashes.take(i as int).contains(h) {
                        let j = hashes.take(i as int).index_of(h);
                        assert(hashes.take(i + 1)[j] == h);
                    }
                    if h == last {
                        assert(hashes.take(i + 1)[i as int] == h);
                    }
                }
            }
            i += 1;
        }
        assert(hashes.take(i as int) =~= hashes);
    }

    /// The user is in a group that it has just got to know, with an empty conversation;
    /// all else of it is as before.
    pub open spec fn has_joined(self, before: User, group_name: Seq<char>, state: MlsState) -> bool {
        &&& self == (User { groups: self.groups, ..before })
        &&& self.groups@ == before.groups@.insert(group_name, self.groups@[group_name])
        &&& self.groups@[group_name].group_name@ == group_name
        &&& self.groups@[group_name].conversation@ == Seq::<ConversationMessage>::empty()
        &&& self.groups@[group_name].mls_group == state
    }

    /// Adds a group that the user has just got to know.
    pub fn enter_group(&mut self, group_name: &String, state: MlsState)
        ensures
            final(self).has_joined(*old(self), group_name@, state),
            old(self).wf() ==> final(self).wf(),
    {
        let group = Group {
            group_name: group_name.clone(),
            conversation: Conversation::default(),
            mls_group: state,
        };
        let _ = self.groups.insert(group_name.clone(), group);
    }

    /// Goes on after the engine has followed a welcome, or could not: the user is in the
    /// group.
    pub fn group_joined(
        &mut self,
        reply: Result<MlsState, JoinError>,
        elapsed: u128,
        timestamp: i64,
    ) -> (r: Result<JoinedGroup, String>)
        requires
            reply matches Ok(state) ==> valid_utf8(state.group_id@),
        ensures
            match reply {
                Err(JoinError::Staging(e)) => *final(self) == *old(self) && (r matches Err(text)
                    && text@ == "Error staging Welcome: "@ + e@),
                Err(JoinError::Joining(e)) => *final(self) == *old(self) && (r matches Err(text)
                    && text@ == "Error joining group: "@ + e@),
                Ok(state) => {
                    let name = decode_utf8(state.group_id@);
                    &&& final(self).has_joined(*old(self), name, state)
                    &&& r matches Ok(joined)
                    &&& joined.group_name@ == name
                    &&& joined.epoch_change == (EpochChange { timestamp, epoch: state.epoch })
                    &&& joined.elapsed_time == elapsed
                    &&& joined.aad@ == group_aad(name)
                },
            },
            old(self).wf() ==> final(self).wf(),
    {
        let state = match reply {
            Ok(state) => state,
            Err(JoinError::Staging(e)) => return Err(
                prefixed("Error staging Welcome: ", e.as_str()),
            ),
            Err(JoinError::Joining(e)) => return Err(
                prefixed("Error joining group: ", e.as_str()),
            ),
        };
        let epoch_change = EpochChange { timestamp, epoch: state.epoch };
        let group_name = decode(&state.group_id);
        let aad = group_aad_bytes(&group_name);
        self.enter_group(&group_name, state);
        Ok(JoinedGroup { group_name, epoch_change, elapsed_time: elapsed, aad })
    }

    /// The names that come with a welcome to an orchestrated user are there and can be read.
    pub open spec fn welcome_is_legible(self, w: WelcomeIn) -> bool {
        self.agent_type is Orchestrator ==> {
            &&& w.active_members matches Some(active) && all_utf8(byte_strings(active@))
            &&& all_utf8(byte_strings(w.recipients@))
        }
    }

    /// The orchestrator for a group that an orchestrated user was welcomed to: it starts
    /// from the active members and is told of the commit that added the new ones.
    pub open spec fn is_welcomed(self, accepted: AcceptedWelcome, w: WelcomeIn, joined: JoinedGroup) -> bool {
        let state = self.groups@[joined.group_name@].mls_group;
        &&& accepted.group_name == joined.group_name
        &&& accepted.record.holds(
            joined.group_name@,
            CGKAAction::Welcome(w.sender, w.welcome_size),
            joined.epoch_change,
            joined.elapsed_time,
            state.members@.len(),
        )
        &&& match self.agent_type {
            AgentType::Independent => accepted.orchestrator is None,
            AgentType::Orchestrator(_) => {
                &&& accepted.orchestrator matches Some(o)
                &&& texts(o.active_members@) == decodings(
                    byte_strings(w.active_members->Some_0@),
                )
                &&& o.commit.group_name == joined.group_name
                &&& o.commit.removed_members@.len() == 0
                &&& o.commit.transcript_hash@ == state.transcript_hash@
                &&& o.commit.total_members == state.members@.len()
                &&& texts(o.commit.new_members@) == decodings(byte_strings(w.recipients@))
            },
        }
    }

    /// Goes on after a group was joined: the user is in step with it, and the group of an
    /// orchestrated user gets an orchestrator.
    pub fn welcome_accepted(&mut self, w: WelcomeIn, joined: JoinedGroup) -> (r: AcceptedWelcome)
        requires
            old(self).groups@.contains_key(joined.group_name@),
            old(self).welcome_is_legible(w),
        ensures
            *final(self) == (User { active: final(self).active, ..*old(self) }),
            final(self).active@ == old(self).active@.insert(joined.group_name@, (true, 0)),
            old(self).is_welcomed(r, w, joined),
            old(self).wf() ==> final(self).wf(),
    {
        let _ = self.active.insert(joined.group_name.clone(), (true, 0));
        let state = &self.groups.get(&joined.group_name).unwrap().mls_group;
        let num_users = state.members.len();
        let orchestrator = match &self.agent_type {
            AgentType::Independent => None,
            AgentType::Orchestrator(_) => {
                let active_members = decode_all(w.active_members.as_ref().unwrap());
                let new_members = decode_all(&w.recipients);
                Some(
                    NewOrchestrator {
                        active_members,
                        commit: OrchestratorCommit {
                            group_name: joined.group_name.clone(),
                            removed_members: Vec::new(),
                            transcript_hash: copy_bytes(&state.transcript_hash),
                            total_members: num_users,
                            new_members,
                        },
                    },
                )
            },
        };
        let record = ActionRecord {
            group_name: joined.group_name.clone(),
            epoch_change: joined.epoch_change,
            action: CGKAAction::Welcome(w.sender, w.welcome_size),
            elapsed_time: joined.elapsed_time,
            num_users,
        };
        AcceptedWelcome { group_name: joined.group_name, record, orchestrator }
    }

    /// Ends the following of a welcome. A user who goes inactive acknowledges the welcome
    /// and leaves the group; any other subscribes to the group, and its agent is told if
    /// it is its turn. An independent user listens.
    pub fn welcome_decided(&mut self, group_name: String, next_action: NextAction) -> (r: WelcomeStep)
        requires
            old(self).agent_type is Independent ==> next_action == NextAction::Listen,
            next_action == NextAction::Inactive ==> old(self).ds != DeliveryService::Request,
        ensures
            if next_action == NextAction::Inactive {
                &&& *final(self) == (User { groups: final(self).groups, ..*old(self) })
                &&& final(self).groups@ == old(self).groups@.remove(group_name@)
                &&& r.ack == Some(
                    WelcomeAcknowledgement { sender: old(self).username, group: group_name },
                )
                &&& r.subscribe is None
                &&& r.notify is None
            } else {
                &&& *final(self) == *old(self)
                &&& r.ack is None
                &&& r.subscribe == old(self).subscription(group_name)
                &&& r.notify == if next_action == NextAction::Commit {
                    Some(group_name)
                } else {
                    None::<String>
                }
            },
            old(self).wf() ==> final(self).wf(),
    {
        match next_action {
            NextAction::Inactive => {
                let ack = self.send_ack(group_name.clone());
                let _ = self.groups.remove(&group_name);
                WelcomeStep { ack: Some(ack), subscribe: None, notify: None }
            },
            NextAction::Listen => WelcomeStep {
                ack: None,
                subscribe: self.subscribe(group_name),
                notify: None,
            },
            NextAction::Commit => {
                let subscribe = self.subscribe(group_name.clone());
                WelcomeStep { ack: None, subscribe, notify: Some(self.send_to_agent(group_name)) }
            },
        }
    }

    /// What comes of a followed welcome, once the subscription was made, and the agent told
    /// after it, or neither was to be done: the record of the welcome. Where one of them
    /// could not be done, its error is handed on.
    pub fn welcome_followed(
        &self,
        record: ActionRecord,
        subscribe_reply: Result<(), String>,
        agent_reply: Result<(), String>,
    ) -> (r: Result<Option<ActionRecord>, String>)
        ensures
            r == match (subscribe_reply, agent_reply) {
                (Err(e), _) => Err::<Option<ActionRecord>, String>(e),
                (Ok(_), Err(e)) => Err(e),
                (Ok(_), Ok(_)) => Ok(Some(record)),
            },
    {
        match subscribe_reply {
            Err(e) => Err(e),
            Ok(_) => match agent_reply {
                Err(e) => Err(e),
                Ok(_) => Ok(Some(record)),
            },
        }
    }

    /// What comes of a message of the user's own, once the pending commit of its group was
    /// confirmed, or could not be: no record, or the error.
    pub fn own_message_confirmed(&self, reply: Result<(), String>) -> (r: Result<
        Option<ActionRecord>,
        String,
    >)
        ensures
            r == match reply {
                Ok(_) => Ok::<Option<ActionRecord>, String>(None),
                Err(e) => Err(e),
            },
    {
        match reply {
            Ok(_) => Ok(None),
            Err(e) => Err(e),
        }
    }
}

} // verus!
