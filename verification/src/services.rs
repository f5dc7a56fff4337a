//! What a user asks of the server, of brokers and of its agent, and what it makes of the
//! answers.
use crate::delivery::{
    tls_bytes, tls_contents, BrokerCall, ClientKeyPackages, DeliveryService, DirectoryCall,
    GroupInfoAndTree, GroupMessage, Outgoing, WelcomeAcknowledgement,
};
use crate::mls::{MlsState, NextAction};
use crate::text::{byte_strings, copy_bytes, decode, encode, prefixed, same_bytes};
use crate::user::{AgentType, Contact, Group, User};
use tls_codec::TlsByteVecU8;
use vstd::prelude::*;
use vstd::string::*;
use vstd::utf8::*;

verus! {

/// Another client as the server lists it.
pub struct ClientInfo {
    pub client_name: String,
    pub id: Vec<u8>,
}

/// What an orchestrator answers: what to do next, and which members it knows to be active.
pub struct OrchestratorReply {
    pub next_action: NextAction,
    pub known_members: Vec<String>,
}

/// A commit that the orchestrator of a group is told of: who left, the hash of the group's
/// history, how many members there are and who came.
pub struct OrchestratorCommit {
    pub group_name: String,
    pub removed_members: Vec<String>,
    pub transcript_hash: Vec<u8>,
    pub total_members: usize,
    pub new_members: Vec<String>,
}

/// The information on a group that is published, with the group's name and, for the
/// server, the user's.
pub type PublishGroupInfo = DirectoryCall<
    (String, String, GroupInfoAndTree),
    (String, GroupInfoAndTree),
>;

/// The contacts after a list of clients was added to them, but for the client with the
/// user's own identity.
pub open spec fn is_contacts_with(
    contacts: Map<Seq<u8>, Contact>,
    before: Map<Seq<u8>, Contact>,
    clients: Seq<ClientInfo>,
    own: Seq<u8>,
) -> bool {
    &&& forall|id: Seq<u8>| #[trigger]
        contacts.contains_key(id) <==> before.contains_key(id) || (id != own && lists(clients, id))
    &&& forall|id: Seq<u8>|
        id != own && lists(clients, id) ==> (#[trigger] contacts[id]).id@ == id
            && contacts[id].username@ == listed_name(clients, id)
    &&& forall|id: Seq<u8>|
        before.contains_key(id) && (id == own || !lists(clients, id)) ==> #[trigger] contacts[id]
            == before[id]
}

/// A client with an identity is in a list.
pub open spec fn lists(clients: Seq<ClientInfo>, id: Seq<u8>) -> bool
    decreases clients.len(),
{
    clients.len() > 0 && (clients.last().id@ == id || lists(clients.drop_last(), id))
}

/// The name that a list gives last to the client with an identity.
pub open spec fn listed_name(clients: Seq<ClientInfo>, id: Seq<u8>) -> Seq<char>
    decreases clients.len(),
{
    if clients.len() == 0 {
        Seq::empty()
    } else if clients.last().id@ == id {
        clients.last().client_name@
    } else {
        listed_name(clients.drop_last(), id)
    }
}

/// The set of the pairs in a listing of key packages.
pub open spec fn pair_set(pairs: Seq<(Vec<u8>, Vec<u8>)>) -> Set<(Seq<u8>, Seq<u8>)> {
    pairs.map_values(|p: (Vec<u8>, Vec<u8>)| (p.0@, p.1@)).to_set()
}

impl User {
    /// Asks whether a group exists.
    pub fn group_exists(&self, group_name: String) -> (r: DirectoryCall<String, String>)
        ensures
            r == if self.ds.looks_up_at_server() {
                DirectoryCall::<String, String>::Server(group_name)
            } else {
                DirectoryCall::<String, String>::Broker(group_name)
            },
    {
        if self.ds.uses_server() {
            DirectoryCall::Server(group_name)
        } else {
            DirectoryCall::Broker(group_name)
        }
    }

    /// Asks for the information on a group; the server is also told who asks.
    pub fn get_group_info(&self, group_name: String) -> (r: DirectoryCall<(String, String), String>)
        ensures
            r == if self.ds.looks_up_at_server() {
                DirectoryCall::<(String, String), String>::Server((self.username, group_name))
            } else {
                DirectoryCall::<(String, String), String>::Broker(group_name)
            },
    {
        if self.ds.uses_server() {
            DirectoryCall::Server((self.username.clone(), group_name))
        } else {
            DirectoryCall::Broker(group_name)
        }
    }

    /// The call takes a key package of a contact: from the server by the contact's
    /// identity, from a broker by its name.
    pub open spec fn takes_key_package(self, call: DirectoryCall<Vec<u8>, String>, contact: Contact) -> bool {
        match call {
            DirectoryCall::Server(id) => self.ds.looks_up_at_server() && id@ == contact.id@,
            DirectoryCall::Broker(name) => !self.ds.looks_up_at_server() && name
                == contact.username,
        }
    }

    /// Asks for a key package of a contact, which is then used up.
    pub fn consume_key_package(&self, contact: &Contact) -> (r: DirectoryCall<Vec<u8>, String>)
        ensures
            self.takes_key_package(r, *contact),
    {
        if self.ds.uses_server() {
            DirectoryCall::Server(copy_bytes(&contact.id))
        } else {
            DirectoryCall::Broker(contact.username.clone())
        }
    }

    /// Asks the server to register the user: under which name and identity.
    pub fn register(&self) -> (r: (String, Vec<u8>))
        ensures
            r.0 == self.username,
            r.1@ == self.identity(),
    {
        (self.username.clone(), self.own_identity())
    }

    /// What comes of a registration; an error is given in its debug form.
    pub fn registered(&self, reply: Result<(), String>) -> (r: Result<(), String>)
        ensures
            match reply {
                Ok(_) => r is Ok,
                Err(e) => r matches Err(text) && text@ == "Error creating user: "@ + e@,
            },
    {
        match reply {
            Ok(_) => Ok(()),
            Err(e) => Err(prefixed("Error creating user: ", e.as_str())),
        }
    }

    /// Subscribes to welcomes; without a broker there is nothing to do.
    pub fn subscribe_welcome(&self) -> (r: Option<BrokerCall>)
        ensures
            r == if self.ds == DeliveryService::Request {
                None::<BrokerCall>
            } else {
                Some(BrokerCall::SubscribeWelcome(self.username))
            },
    {
        if self.ds.uses_broker() {
            Some(BrokerCall::SubscribeWelcome(self.username.clone()))
        } else {
            None
        }
    }

    /// The subscription to the messages of a group, where there is a broker.
    pub open spec fn subscription(self, group_name: String) -> Option<BrokerCall> {
        if self.ds == DeliveryService::Request {
            None
        } else {
            Some(BrokerCall::Subscribe(group_name))
        }
    }

    /// Subscribes to the messages of a group; without a broker there is nothing to do.
    pub fn subscribe(&self, group_name: String) -> (r: Option<BrokerCall>)
        ensures
            r == self.subscription(group_name),
    {
        if self.ds.uses_broker() {
            Some(BrokerCall::Subscribe(group_name))
        } else {
            None
        }
    }

    /// Ends the subscription to a group; without a broker there is nothing to do.
    pub fn unsubscribe(&self, group_name: String) -> (r: Option<BrokerCall>)
        ensures
            r == if self.ds == DeliveryService::Request {
                None::<BrokerCall>
            } else {
                Some(BrokerCall::Unsubscribe(group_name))
            },
    {
        if self.ds.uses_broker() {
            Some(BrokerCall::Unsubscribe(group_name))
        } else {
            None
        }
    }

    /// The user keeps one more key package, under its hash reference; all else of it is as
    /// before.
    pub open spec fn keeps_key_package(
        self,
        before: User,
        hash_ref: Seq<u8>,
        key_package: Seq<u8>,
    ) -> bool {
        &&& self == (User { key_packages: self.key_packages, ..before })
        &&& self.key_packages@ == before.key_packages@.insert(
            hash_ref,
            self.key_packages@[hash_ref],
        )
        &&& self.key_packages@[hash_ref]@ == key_package
    }

    /// The pairs are the key packages that the user keeps, each once and behind its hash
    /// reference.
    pub open spec fn lists_key_packages(self, pairs: Seq<(Vec<u8>, Vec<u8>)>) -> bool {
        &&& pairs.map_values(|p: (Vec<u8>, Vec<u8>)| p.0@).no_duplicates()
        &&& forall|hash_ref: Seq<u8>| #[trigger]
            self.key_packages@.contains_key(hash_ref) <==> pairs.map_values(
                |p: (Vec<u8>, Vec<u8>)| p.0@,
            ).contains(hash_ref)
        &&& forall|i: int|
            0 <= i < pairs.len() ==> (#[trigger] pairs[i]).1@ == self.key_packages@[pairs[i].0@]@
    }

    /// Keeps a key package that the engine has made, and returns the pair of its hash
    /// reference and itself.
    pub fn add_key_package(&mut self, hash_ref: Vec<u8>, key_package: Vec<u8>) -> (r: (
        Vec<u8>,
        Vec<u8>,
    ))
        ensures
            final(self).keeps_key_package(*old(self), hash_ref@, key_package@),
            r == (hash_ref, key_package),
            old(self).wf() ==> final(self).wf(),
    {
        let kept = copy_bytes(&key_package);
        let _ = self.key_packages.insert(copy_bytes(&hash_ref), kept);
        (hash_ref, key_package)
    }

    /// Lists the key packages that are kept, with their hash references.
    pub fn key_packages(&self) -> (r: Vec<(Vec<u8>, Vec<u8>)>)
        ensures
            self.lists_key_packages(r@),
    {
        let n = self.key_packages.len();
        let ghost order = self.key_packages.order();
        let mut r: Vec<(Vec<u8>, Vec<u8>)> = Vec::new();
        let mut i: usize = 0;
        while i < n
            invariant
                i <= n,
                n == order.len(),
                order == self.key_packages.order(),
                r.len() == i,
                forall|j: int|
                    0 <= j < i ==> (#[trigger] r@[j]).0@ == order[j] && r@[j].1@
                        == self.key_packages@[order[j]]@,
            decreases n - i,
        {
            let (hash_ref, key_package) = self.key_packages.entry(i);
            r.push((copy_bytes(hash_ref), copy_bytes(key_package)));
            i += 1;
        }
        assert(r@.map_values(|p: (Vec<u8>, Vec<u8>)| p.0@) =~= order);
        r
    }

    /// Keeps a new key package and publishes it: to the server under the user's identity
    /// with its hash reference, to a broker under the user's name.
    pub fn create_kp(&mut self, hash_ref: Vec<u8>, key_package: Vec<u8>) -> (r: DirectoryCall<
        (Vec<u8>, ClientKeyPackages),
        (String, Vec<u8>),
    >)
        ensures
            final(self).keeps_key_package(*old(self), hash_ref@, key_package@),
            match r {
                DirectoryCall::Server((identity, ckp)) => {
                    &&& old(self).ds.looks_up_at_server()
                    &&& identity@ == old(self).identity()
                    &&& ckp.packages@.len() == 1
                    &&& tls_contents(ckp.packages@[0].0) == hash_ref@
                    &&& ckp.packages@[0].1 == key_package
                },
                DirectoryCall::Broker((username, kp)) => {
                    &&& !old(self).ds.looks_up_at_server()
                    &&& username == old(self).username
                    &&& kp == key_package
                },
            },
            old(self).wf() ==> final(self).wf(),
    {
        let (hash_ref, kp) = self.add_key_package(hash_ref, key_package);
        if self.ds.uses_server() {
            let packages: Vec<(TlsByteVecU8, Vec<u8>)> = vec![(tls_bytes(hash_ref), kp)];
            DirectoryCall::Server((self.own_identity(), ClientKeyPackages { packages }))
        } else {
            DirectoryCall::Broker((self.username.clone(), kp))
        }
    }

    /// What comes of publishing a key package; an error of the server is given in its
    /// debug form.
    pub fn kp_published(&self, reply: Result<(), String>) -> (r: Result<(), String>)
        ensures
            match reply {
                Ok(_) => r is Ok,
                Err(e) => r matches Err(text) && if self.ds.looks_up_at_server() {
                    text@ == "Error sending new key package: "@ + e@
                } else {
                    text == e
                },
            },
    {
        match reply {
            Ok(_) => Ok(()),
            Err(e) => {
                if self.ds.uses_server() {
                    Err(prefixed("Error sending new key package: ", e.as_str()))
                } else {
                    Err(e)
                }
            },
        }
    }

    /// Adds another user to the contacts, or gives a known one its new name; the user
    /// itself is not added.
    pub fn add_contact(&mut self, contact: Contact) -> (r: Result<(), String>)
        ensures
            r is Ok,
            *final(self) == (User { contacts: final(self).contacts, ..*old(self) }),
            final(self).contacts@ == if contact.id@ == old(self).identity() {
                old(self).contacts@
            } else {
                old(self).contacts@.insert(contact.id@, contact)
            },
            old(self).wf() ==> final(self).wf(),
    {
        let own = self.own_identity();
        if !same_bytes(&contact.id, &own) {
            let _ = self.contacts.insert(copy_bytes(&contact.id), contact);
        }
        Ok(())
    }

    /// Updates the contacts with all the clients known by the server; if the server does
    /// not tell them, the contacts stay.
    pub fn update_clients(&mut self, reply: Result<Vec<ClientInfo>, String>) -> (r: Result<
        (),
        String,
    >)
        ensures
            r is Ok,
            *final(self) == (User { contacts: final(self).contacts, ..*old(self) }),
            match reply {
                Ok(clients) => is_contacts_with(
                    final(self).contacts@,
                    old(self).contacts@,
                    clients@,
                    old(self).identity(),
                ),
                Err(_) => final(self).contacts == old(self).contacts,
            },
            old(self).wf() ==> final(self).wf(),
    {
        match reply {
            Ok(clients) => {
                let mut i: usize = 0;
                while i < clients.len()
                    invariant
                        i <= clients.len(),
                        *self == (User { contacts: self.contacts, ..*old(self) }),
                        is_contacts_with(
                            self.contacts@,
                            old(self).contacts@,
                            clients@.take(i as int),
                            old(self).identity(),
                        ),
                        old(self).wf() ==> self.wf(),
                    decreases clients.len() - i,
                {
                    assert(clients@.take(i + 1).drop_last() =~= clients@.take(i as int));
                    let c = &clients[i];
                    let _ = self.add_contact(
                        Contact { username: c.client_name.clone(), id: copy_bytes(&c.id) },
                    );
                    i += 1;
                }
                assert(clients@.take(i as int) =~= clients@);
            },
            Err(_) => {},
        }
        Ok(())
    }

    /// The addresses that a message of a group goes to: a broker knows them itself.
    pub open spec fn addressees(self, state: MlsState) -> Seq<Seq<u8>> {
        if self.ds == DeliveryService::Request {
            self.recipients_of(state.members@)
        } else {
            Seq::empty()
        }
    }

    /// Lists the addresses that a message of a group goes to.
    pub fn group_recipients(&self, state: &MlsState) -> (r: Vec<Vec<u8>>)
        ensures
            byte_strings(r@) == self.addressees(*state),
    {
        if self.ds.uses_broker() {
            let r: Vec<Vec<u8>> = Vec::new();
            assert(byte_strings(r@) =~= Seq::<Seq<u8>>::empty());
            r
        } else {
            self.mls_recipients(state)
        }
    }

    /// A message by the user, without a tree or active members.
    pub open spec fn is_group_message(self, m: GroupMessage, msg: Vec<u8>, recipients: Seq<Seq<u8>>) -> bool {
        &&& m.msg == msg
        &&& m.sender@ == self.identity()
        &&& m.ratchet_tree is None
        &&& byte_strings(m.recipients@) == recipients
        &&& m.active_members is None
    }

    /// A message goes to a group: through the server without a broker, else through the
    /// broker under the name of the group.
    pub open spec fn goes_to_group(
        self,
        out: Outgoing,
        group_name: String,
        msg: Vec<u8>,
        recipients: Seq<Seq<u8>>,
    ) -> bool {
        match out {
            Outgoing::Backend(m) => self.ds == DeliveryService::Request && self.is_group_message(
                m,
                msg,
                recipients,
            ),
            Outgoing::Broker(m, topic) => self.ds != DeliveryService::Request
                && self.is_group_message(m, msg, recipients) && topic == group_name,
        }
    }

    /// Sends a message to a group.
    pub fn send_to_group(
        &self,
        group_name: String,
        message_out: Vec<u8>,
        recipients: Vec<Vec<u8>>,
    ) -> (r: Outgoing)
        ensures
            self.goes_to_group(r, group_name, message_out, byte_strings(recipients@)),
    {
        let msg = GroupMessage {
            msg: message_out,
            sender: self.own_identity(),
            ratchet_tree: None,
            recipients,
            active_members: None,
        };
        if self.ds.uses_broker() {
            Outgoing::Broker(msg, group_name)
        } else {
            Outgoing::Backend(msg)
        }
    }

    /// An application message is refused while a commit waits to be confirmed, and for an
    /// unknown group; else the engine is to make a message of its text.
    pub open spec fn message_is_begun(
        self,
        msg: Seq<char>,
        group_name: Seq<char>,
        r: Result<Vec<u8>, String>,
    ) -> bool {
        if self.pending_commits@.contains_key(group_name) {
            r matches Err(e) && e@ == "There is a pending commit"@
        } else if !self.groups@.contains_key(group_name) {
            r matches Err(e) && e@ == "Unknown group"@
        } else {
            r matches Ok(payload) && payload@ == encode_utf8(msg)
        }
    }

    /// Begins to send an application message: what the engine is to make a message of.
    /// While a commit waits to be confirmed, no message is sent.
    pub fn send_application_msg(&self, msg: &String, group_name: &String) -> (r: Result<
        Vec<u8>,
        String,
    >)
        ensures
            self.message_is_begun(msg@, group_name@, r),
    {
        if self.pending_commits.contains_key(group_name) {
            return Err("There is a pending commit".to_owned());
        }
        if !self.groups.contains_key(group_name) {
            return Err("Unknown group".to_owned());
        }
        Ok(encode(msg.as_str()))
    }

    /// Goes on with the message that the engine has made: it is sent to the group.
    pub fn application_msg_created(
        &self,
        group_name: String,
        reply: Result<Vec<u8>, String>,
    ) -> (r: Result<Outgoing, String>)
        requires
            self.groups@.contains_key(group_name@),
        ensures
            match reply {
                Ok(message_out) => r matches Ok(out) && self.goes_to_group(
                    out,
                    group_name,
                    message_out,
                    self.addressees(self.groups@[group_name@].mls_group),
                ),
                Err(e) => r == Err::<Outgoing, String>(e),
            },
    {
        match reply {
            Ok(message_out) => {
                let group = self.groups.get(&group_name).unwrap();
                let recipients = self.group_recipients(&group.mls_group);
                Ok(self.send_to_group(group_name, message_out, recipients))
            },
            Err(e) => Err(e),
        }
    }

    /// The information on a group is published under the group's name.
    pub open spec fn publishes(
        self,
        call: PublishGroupInfo,
        group_name: Seq<char>,
        group_info: GroupInfoAndTree,
    ) -> bool {
        match call {
            DirectoryCall::Server((username, name, info)) => {
                &&& self.ds.looks_up_at_server()
                &&& username == self.username
                &&& name@ == group_name
                &&& info == group_info
            },
            DirectoryCall::Broker((name, info)) => {
                &&& !self.ds.looks_up_at_server()
                &&& name@ == group_name
                &&& info == group_info
            },
        }
    }

    /// Begins to publish the information on a group, which the engine is to export.
    pub fn publish_group_info(&self, group_name: &String) -> (r: Result<(), String>)
        ensures
            if self.groups@.contains_key(group_name@) {
                r is Ok
            } else {
                r matches Err(e) && e@ == "Unknown group"@
            },
    {
        if self.groups.contains_key(group_name) {
            Ok(())
        } else {
            Err("Unknown group".to_owned())
        }
    }

    /// Publishes the information that the engine has exported, if it could.
    pub fn group_info_exported(
        &self,
        state: &MlsState,
        reply: Result<GroupInfoAndTree, String>,
    ) -> (r: Result<PublishGroupInfo, String>)
        requires
            valid_utf8(state.group_id@),
        ensures
            match reply {
                Ok(group_info) => r matches Ok(call) && self.publishes(
                    call,
                    decode_utf8(state.group_id@),
                    group_info,
                ),
                Err(e) => r matches Err(text) && text@ == "Failed to export group info - "@ + e@,
            },
    {
        match reply {
            Ok(group_info) => Ok(self._publish_group_info(state, group_info)),
            Err(e) => Err(prefixed("Failed to export group info - ", e.as_str())),
        }
    }

    /// Publishes the information on a group.
    pub fn _publish_group_info(&self, state: &MlsState, group_info: GroupInfoAndTree) -> (r:
        PublishGroupInfo)
        requires
            valid_utf8(state.group_id@),
        ensures
            self.publishes(r, decode_utf8(state.group_id@), group_info),
    {
        let group_name = decode(&state.group_id);
        if self.ds.uses_server() {
            DirectoryCall::Server((self.username.clone(), group_name, group_info))
        } else {
            DirectoryCall::Broker((group_name, group_info))
        }
    }

    /// Tells a group through the broker that the user has got its welcome but does not
    /// stay active.
    pub fn send_ack(&self, group_name: String) -> (r: WelcomeAcknowledgement)
        requires
            self.ds != DeliveryService::Request,
        ensures
            r == (WelcomeAcknowledgement { sender: self.username, group: group_name }),
    {
        WelcomeAcknowledgement { sender: self.username.clone(), group: group_name }
    }

    /// The state of a group is the new one; all else of the user is as before.
    pub open spec fn regrouped(self, before: User, group_name: Seq<char>, state: MlsState) -> bool {
        &&& self == (User { groups: self.groups, ..before })
        &&& self.groups@ == before.groups@.insert(
            group_name,
            (Group { mls_group: state, ..before.groups@[group_name] }),
        )
    }

    /// Takes over the state of a group as the engine reports it.
    pub fn set_group_state(&mut self, group_name: &String, state: MlsState)
        requires
            old(self).groups@.contains_key(group_name@),
        ensures
            final(self).regrouped(*old(self), group_name@, state),
            old(self).wf() ==> final(self).wf(),
    {
        let group = self.groups.remove(group_name).unwrap();
        let mut group = group;
        group.mls_group = state;
        let _ = self.groups.insert(group_name.clone(), group);
        assert(self.groups@ =~= old(self).groups@.insert(
            group_name@,
            (Group { mls_group: state, ..old(self).groups@[group_name@] }),
        ));
    }

    /// The groups that have an orchestrator.
    pub open spec fn orchestrated(self, group_name: Seq<char>) -> bool {
        self.agent_type matches AgentType::Orchestrator(known) && known@.contains_key(group_name)
    }

    /// The message with which the agent of an orchestrated user is told that it is its
    /// turn in a group.
    pub fn send_to_agent(&self, msg: String) -> (r: String)
        requires
            self.agent_type is Orchestrator,
        ensures
            r == msg,
    {
        msg
    }

    /// Takes the acknowledgement of a welcome: the group whose orchestrator is to count
    /// it. Those of the user itself and those for an independent user go to no one.
    pub fn process_ack(&self, ack: WelcomeAcknowledgement) -> (r: Option<String>)
        requires
            ack.sender@ != self.username@ && self.agent_type is Orchestrator ==> self.orchestrated(
                ack.group@,
            ),
        ensures
            r == if ack.sender@ == self.username@ || self.agent_type is Independent {
                None::<String>
            } else {
                Some(ack.group)
            },
    {
        if ack.sender == self.username {
            return None;
        }
        match &self.agent_type {
            AgentType::Independent => None,
            AgentType::Orchestrator(_) => Some(ack.group),
        }
    }

    /// Keeps what the orchestrator of a group knows, and tells whom it asks to act: the
    /// agent, if it is the user's turn to commit.
    pub fn orchestrator_replied(&mut self, group_name: String, reply: OrchestratorReply) -> (r:
        Option<String>)
        requires
            old(self).agent_type is Orchestrator,
        ensures
            *final(self) == (User { agent_type: final(self).agent_type, ..*old(self) }),
            final(self).knows(*old(self), group_name@, reply.known_members),
            r == if reply.next_action == NextAction::Commit {
                Some(group_name)
            } else {
                None::<String>
            },
            old(self).wf() ==> final(self).wf(),
    {
        self.keep_known_members(&group_name, reply.known_members);
        match reply.next_action {
            NextAction::Commit => Some(self.send_to_agent(group_name)),
            _ => None,
        }
    }

    /// The orchestrators are those of before, but for that of a group, which knows these
    /// members.
    pub open spec fn knows(self, before: User, group_name: Seq<char>, known_members: Vec<String>) -> bool {
        &&& before.agent_type matches AgentType::Orchestrator(known_before)
        &&& self.agent_type matches AgentType::Orchestrator(known)
        &&& known@ == known_before@.insert(group_name, known_members)
    }

    pub(crate) fn keep_known_members(&mut self, group_name: &String, known_members: Vec<String>)
        requires
            old(self).agent_type is Orchestrator,
        ensures
            *final(self) == (User { agent_type: final(self).agent_type, ..*old(self) }),
            final(self).knows(*old(self), group_name@, known_members),
            old(self).wf() ==> final(self).wf(),
    {
        let mut agent_type = AgentType::Independent;
        std::mem::swap(&mut agent_type, &mut self.agent_type);
        match agent_type {
            AgentType::Orchestrator(known) => {
                let mut known = known;
                let _ = known.insert(group_name.clone(), known_members);
                self.agent_type = AgentType::Orchestrator(known);
            },
            AgentType::Independent => {},
        }
    }
}

} // verus!
