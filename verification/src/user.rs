//! A user of the emulated client: what it knows, what it can tell of its groups and
//! contacts, and which services it turns to.
//!
//! The services, the protocol engine and the orchestrators of groups are outside. An
//! operation that needs one of them says what is to be asked and goes on with the answer.
use crate::conversation::{last_n, Conversation, ConversationMessage};
use crate::delivery::DeliveryService;
use crate::mls::{leaf_of, AuthorizationPolicy, Member, MlsState};
use crate::record::ActionRecord;
use crate::table::Table;
use crate::text::{byte_strings, copy_bytes, copy_texts, decode, enclosed, encode, same_bytes, texts};
use vstd::prelude::*;
use vstd::string::*;
use vstd::utf8::*;

verus! {

/// How many records are kept before they are written to the log.
pub const FILE_BUFFER_SIZE: usize = 50;

/// Who decides when a user acts.
pub enum AgentType {
    /// An orchestrator for each group, here with the members that it knows to be active.
    Orchestrator(Table<String, Vec<String>>),
    Independent,
}

/// Another user.
#[derive(Debug)]
pub struct Contact {
    pub username: String,
    pub id: Vec<u8>,
}

impl Clone for Contact {
    fn clone(&self) -> (r: Self)
        ensures
            r.username == self.username,
            r.id@ == self.id@,
    {
        Contact { username: self.username.clone(), id: copy_bytes(&self.id) }
    }
}

/// A welcome that is sent once its commit is confirmed.
#[derive(Debug)]
pub struct StoredWelcome {
    pub welcome: Vec<u8>,
    pub recipients: Vec<String>,
}

impl Clone for StoredWelcome {
    fn clone(&self) -> (r: Self)
        ensures
            r.welcome@ == self.welcome@,
            r.recipients@ == self.recipients@,
    {
        StoredWelcome {
            welcome: copy_bytes(&self.welcome),
            recipients: copy_texts(&self.recipients),
        }
    }
}

/// A group that the user is in.
#[derive(Debug)]
pub struct Group {
    pub group_name: String,
    pub conversation: Conversation,
    pub mls_group: MlsState,
}

/// A commit or proposal that was sent and waits to be confirmed.
pub struct PendingCommit {
    pub group_info: Option<Vec<u8>>,
    pub welcome: Option<StoredWelcome>,
    pub record: ActionRecord,
}

/// A user of the emulated client.
pub struct User {
    pub username: String,
    pub contacts: Table<Vec<u8>, Contact>,
    pub groups: Table<String, Group>,
    /// The key packages that nobody has used yet, under their hash references.
    pub key_packages: Table<Vec<u8>, Vec<u8>>,
    pub pending_commits: Table<String, PendingCommit>,
    pub ds: DeliveryService,
    /// Of each group, whether the user is in step with it, or else the last epoch seen.
    pub active: Table<String, (bool, u64)>,
    pub agent_type: AgentType,
    pub file_buffer: Vec<ActionRecord>,
}

impl User {
    /// The identity by which other clients know the user.
    pub open spec fn identity(self) -> Seq<u8> {
        encode_utf8(self.username@)
    }

    /// The user is not among its own contacts, each contact is kept under its identity,
    /// and fewer records wait than are written at once.
    pub open spec fn wf(self) -> bool {
        &&& !self.contacts@.contains_key(self.identity())
        &&& forall|id: Seq<u8>| #[trigger]
            self.contacts@.contains_key(id) ==> self.contacts@[id].id@ == id
        &&& self.file_buffer@.len() < FILE_BUFFER_SIZE
    }

    /// A user who knows nothing yet.
    pub open spec fn is_new(self, username: Seq<char>, ds: DeliveryService) -> bool {
        &&& self.username@ == username
        &&& self.contacts@ == Map::<Seq<u8>, Contact>::empty()
        &&& self.groups@ == Map::<Seq<char>, Group>::empty()
        &&& self.key_packages@ == Map::<Seq<u8>, Vec<u8>>::empty()
        &&& self.pending_commits@ == Map::<Seq<char>, PendingCommit>::empty()
        &&& self.ds == ds
        &&& self.active@ == Map::<Seq<char>, (bool, u64)>::empty()
        &&& self.file_buffer@ == Seq::<ActionRecord>::empty()
    }

    fn new(username: String, ds: DeliveryService, agent_type: AgentType) -> (r: Self)
        ensures
            r.is_new(username@, ds),
            r.agent_type == agent_type,
            r.wf(),
    {
        User {
            username,
            contacts: Table::new(),
            groups: Table::new(),
            key_packages: Table::new(),
            pending_commits: Table::new(),
            ds,
            active: Table::new(),
            agent_type,
            file_buffer: Vec::new(),
        }
    }

    /// A user whose groups are orchestrated.
    pub fn new_orchestrated(username: String, ds: DeliveryService) -> (r: Self)
        ensures
            r.is_new(username@, ds),
            r.agent_type matches AgentType::Orchestrator(known) && known@ == Map::<
                Seq<char>,
                Vec<String>,
            >::empty(),
            r.wf(),
    {
        Self::new(username, ds, AgentType::Orchestrator(Table::new()))
    }

    /// A user who decides for itself.
    pub fn new_independent(username: String, ds: DeliveryService) -> (r: Self)
        ensures
            r.is_new(username@, ds),
            r.agent_type is Independent,
            r.wf(),
    {
        Self::new(username, ds, AgentType::Independent)
    }

    /// Writes the identity by which other clients know the user.
    pub fn own_identity(&self) -> (r: Vec<u8>)
        ensures
            r@ == self.identity(),
    {
        encode(self.username.as_str())
    }

    /// The error for a group that an operation does not know.
    pub open spec fn no_group(group_name: Seq<char>) -> Seq<char> {
        "No group with name "@ + group_name + " known."@
    }

    pub(crate) fn no_group_text(group_name: &String) -> (r: String)
        ensures
            r@ == Self::no_group(group_name@),
    {
        enclosed("No group with name ", group_name.as_str(), " known.")
    }

    /// The error for a name that no contact has.
    pub open spec fn no_contact(name: Seq<char>) -> Seq<char> {
        "No contact with name "@ + name + " known."@
    }

    /// Finds a contact by name.
    pub fn contact_named(&self, name: &String) -> (r: Result<&Contact, String>)
        ensures
            match r {
                Ok(c) => c.username@ == name@ && exists|id: Seq<u8>| #[trigger]
                    self.contacts@.contains_key(id) && self.contacts@[id] == *c,
                Err(e) => e@ == Self::no_contact(name@) && forall|id: Seq<u8>| #[trigger]
                    self.contacts@.contains_key(id) ==> self.contacts@[id].username@ != name@,
            },
    {
        let n = self.contacts.len();
        let mut i: usize = 0;
        while i < n
            invariant
                i <= n,
                n == self.contacts.order().len(),
                self.contacts.order_lists_keys(),
                forall|j: int|
                    0 <= j < i ==> self.contacts@[#[trigger] self.contacts.order()[j]].username@
                        != name@,
            decreases n - i,
        {
            let (id, contact) = self.contacts.entry(i);
            if contact.username == *name {
                assert(self.contacts@.contains_key(id@));
                return Ok(contact);
            }
            i += 1;
        }
        proof {
            assert forall|id: Seq<u8>| #[trigger]
                self.contacts@.contains_key(id) implies self.contacts@[id].username@ != name@ by {
                assert(self.contacts.order().contains(id));
                let j = self.contacts.order().index_of(id);
                assert(self.contacts.order()[j] == id);
            }
        }
        Err(enclosed("No contact with name ", name.as_str(), " known."))
    }

    /// Finds the leaf of a member by name.
    pub fn find_member_index(&self, name: &String, group: &Group) -> (r: Result<u32, String>)
        ensures
            match leaf_of(group.mls_group.members@, encode_utf8(name@)) {
                Some(index) => r == Ok::<u32, String>(index),
                None => r matches Err(e) && e@ == "Unknown member"@,
            },
    {
        match group.mls_group.leaf_with(&encode(name.as_str())) {
            Some(index) => Ok(index),
            None => Err("Unknown member".to_owned()),
        }
    }

    /// The address of a member, unless it is the user itself: the contact's, where it is
    /// one, else its identity.
    pub open spec fn recipient(self, identity: Seq<u8>) -> Option<Seq<u8>> {
        if identity == self.identity() {
            None
        } else if self.contacts@.contains_key(identity) {
            Some(self.contacts@[identity].id@)
        } else {
            Some(identity)
        }
    }

    /// The addresses of the other members.
    pub open spec fn recipients_of(self, members: Seq<Member>) -> Seq<Seq<u8>> {
        members.filter_map(|m: Member| self.recipient(m.identity@))
    }

    /// Lists the addresses of the other members of a group.
    pub fn mls_recipients(&self, mls_group: &MlsState) -> (r: Vec<Vec<u8>>)
        ensures
            byte_strings(r@) == self.recipients_of(mls_group.members@),
    {
        let own = self.own_identity();
        let ghost members = mls_group.members@;
        let mut r: Vec<Vec<u8>> = Vec::new();
        let mut i: usize = 0;
        assert(byte_strings(r@) =~= self.recipients_of(members.take(0)));
        while i < mls_group.members.len()
            invariant
                i <= mls_group.members.len(),
                members == mls_group.members@,
                own@ == self.identity(),
                byte_strings(r@) == self.recipients_of(members.take(i as int)),
            decreases mls_group.members.len() - i,
        {
            let identity = &mls_group.members[i].identity;
            assert(members.take(i + 1).drop_last() =~= members.take(i as int));
            let ghost before = r@;
            if !same_bytes(identity, &own) {
                let id = match self.contacts.get(identity) {
                    Some(contact) => copy_bytes(&contact.id),
                    None => copy_bytes(identity),
                };
                assert(self.recipient(identity@) == Some(id@));
                r.push(id);
                assert(byte_strings(r@) =~= byte_strings(before) + seq![id@]);
            }
            assert(byte_strings(r@) =~= self.recipients_of(members.take(i + 1)));
            i += 1;
        }
        assert(members.take(i as int) =~= members);
        r
    }

    /// Lists the clients in the group to send messages to.
    pub fn recipients(&self, group: &Group) -> (r: Vec<Vec<u8>>)
        ensures
            byte_strings(r@) == self.recipients_of(group.mls_group.members@),
    {
        self.mls_recipients(&group.mls_group)
    }

    /// The name of the client with an address.
    pub open spec fn name_of(self, id: Seq<u8>) -> Seq<char> {
        if self.contacts@.contains_key(id) {
            self.contacts@[id].username@
        } else {
            decode_utf8(id)
        }
    }

    /// An address is that of a contact or spells a name.
    pub open spec fn nameable(self, id: Seq<u8>) -> bool {
        self.contacts@.contains_key(id) || valid_utf8(id)
    }

    /// The other members of a group; of a group that the user is not in, none.
    pub open spec fn others_in(self, group_name: Seq<char>) -> Seq<Seq<u8>> {
        if self.groups@.contains_key(group_name) {
            self.recipients_of(self.groups@[group_name].mls_group.members@)
        } else {
            Seq::empty()
        }
    }

    /// Lists the names of the other members of a group.
    pub fn members_of_group(&self, group_name: &String) -> (r: Vec<String>)
        requires
            forall|i: int|
                0 <= i < self.others_in(group_name@).len() ==> self.nameable(
                    #[trigger] self.others_in(group_name@)[i],
                ),
        ensures
            texts(r@) == self.others_in(group_name@).map_values(|id: Seq<u8>| self.name_of(id)),
    {
        let ghost others = self.others_in(group_name@);
        let mut members: Vec<String> = Vec::new();
        let group = match self.groups.get(group_name) {
            Some(group) => group,
            None => {
                assert(texts(members@) =~= others.map_values(|id: Seq<u8>| self.name_of(id)));
                return members;
            },
        };
        let recipients = self.recipients(group);
        let mut i: usize = 0;
        while i < recipients.len()
            invariant
                i <= recipients.len(),
                byte_strings(recipients@) == others,
                forall|j: int| 0 <= j < others.len() ==> self.nameable(#[trigger] others[j]),
                members.len() == i,
                forall|j: int|
                    0 <= j < i ==> #[trigger] members@[j]@ == self.name_of(recipients@[j]@),
            decreases recipients.len() - i,
        {
            assert(others[i as int] == recipients@[i as int]@);
            let name = match self.contacts.get(&recipients[i]) {
                Some(contact) => contact.username.clone(),
                None => decode(&recipients[i]),
            };
            members.push(name);
            i += 1;
        }
        assert(others.len() == recipients@.len());
        assert(texts(members@) =~= others.map_values(|id: Seq<u8>| self.name_of(id)));
        members
    }

    /// Counts the members of a group, the user included; a group that the user is not in
    /// counts as one.
    pub fn number_of_members(&self, group_name: &String) -> (r: usize)
        ensures
            r == if self.groups@.contains_key(group_name@) {
                self.groups@[group_name@].mls_group.members@.len()
            } else {
                1
            },
    {
        match self.groups.get(group_name) {
            Some(group) => group.mls_group.members.len(),
            None => 1,
        }
    }

    /// The contacts that are not in a group, in the order of the contacts.
    pub open spec fn contacts_outside(self, ids: Seq<Seq<u8>>, others: Seq<Seq<u8>>) -> Seq<Seq<char>> {
        ids.filter_map(
            |id: Seq<u8>|
                if others.contains(self.contacts@[id].id@) {
                    None
                } else {
                    Some(self.contacts@[id].username@)
                },
        )
    }

    fn is_among(list: &Vec<Vec<u8>>, id: &Vec<u8>) -> (r: bool)
        ensures
            r == byte_strings(list@).contains(id@),
    {
        let mut i: usize = 0;
        while i < list.len()
            invariant
                i <= list.len(),
                forall|j: int| 0 <= j < i ==> #[trigger] list@[j]@ != id@,
            decreases list.len() - i,
        {
            if same_bytes(&list[i], id) {
                assert(byte_strings(list@)[i as int] == id@);
                return true;
            }
            i += 1;
        }
        assert(!byte_strings(list@).contains(id@)) by {
            if byte_strings(list@).contains(id@) {
                let j = byte_strings(list@).index_of(id@);
                assert(list@[j]@ == id@);
            }
        }
        false
    }

    /// Lists the names of the contacts that are not in a group; for a group that the user
    /// is not in, none.
    pub fn not_members_of_group(&self, group_name: &String) -> (r: Vec<String>)
        ensures
            self.contacts.order_lists_keys(),
            texts(r@) == if self.groups@.contains_key(group_name@) {
                self.contacts_outside(self.contacts.order(), self.others_in(group_name@))
            } else {
                Seq::empty()
            },
    {
        let n = self.contacts.len();
        let mut members: Vec<String> = Vec::new();
        let group = match self.groups.get(group_name) {
            Some(group) => group,
            None => {
                assert(texts(members@) =~= Seq::<Seq<char>>::empty());
                return members;
            },
        };
        let recipients = self.recipients(group);
        let ghost others = byte_strings(recipients@);
        let ghost order = self.contacts.order();
        let mut i: usize = 0;
        assert(texts(members@) =~= self.contacts_outside(order.take(0), others));
        while i < n
            invariant
                i <= n,
                n == order.len(),
                order == self.contacts.order(),
                others == byte_strings(recipients@),
                texts(members@) == self.contacts_outside(order.take(i as int), others),
            decreases n - i,
        {
            let (id, contact) = self.contacts.entry(i);
            assert(order.take(i + 1).drop_last() =~= order.take(i as int));
            let ghost before = members@;
            if !Self::is_among(&recipients, &contact.id) {
                members.push(contact.username.clone());
                assert(texts(members@) =~= texts(before) + seq![contact.username@]);
            }
            assert(texts(members@) =~= self.contacts_outside(order.take(i + 1), others));
            i += 1;
        }
        assert(order.take(i as int) =~= order);
        members
    }

    /// Lists the groups that the user is in.
    pub fn list_of_groups(&self) -> (r: Vec<String>)
        ensures
            texts(r@).no_duplicates(),
            forall|name: Seq<char>| #[trigger]
                texts(r@).contains(name) <==> self.groups@.contains_key(name),
    {
        let r = self.groups.keys();
        assert(texts(r@) =~= self.groups.order());
        r
    }

    /// Lists the groups that the user is in.
    pub fn group_list(&self) -> (r: Vec<String>)
        ensures
            texts(r@).no_duplicates(),
            forall|name: Seq<char>| #[trigger]
                texts(r@).contains(name) <==> self.groups@.contains_key(name),
    {
        self.list_of_groups()
    }

    /// Returns the last 100 messages sent to the group.
    pub fn read_msgs(&self, group_name: &String) -> (r: Result<
        Option<Vec<ConversationMessage>>,
        String,
    >)
        ensures
            if self.groups@.contains_key(group_name@) {
                r matches Ok(Some(messages)) && messages@ == last_n(
                    self.groups@[group_name@].conversation@,
                    100,
                )
            } else {
                r matches Err(e) && e@ == "Unknown group"@
            },
    {
        match self.groups.get(group_name) {
            Some(group) => Ok(group.conversation.get(100)),
            None => Err("Unknown group".to_owned()),
        }
    }

    /// The user follows the commits of a group.
    pub open spec fn in_step(self, group_name: Seq<char>) -> bool {
        self.active@.contains_key(group_name) && self.active@[group_name].0
    }

    /// Whether a policy lets the user issue updates in a group: not if the user has fallen
    /// out of step with it.
    pub open spec fn authorisation(
        self,
        group_name: Seq<char>,
        policy: AuthorizationPolicy,
        r: Result<bool, String>,
    ) -> bool {
        if !self.in_step(group_name) {
            r == Ok::<bool, String>(false)
        } else if !self.groups@.contains_key(group_name) {
            r matches Err(e) && e@ == "Unknown group"@
        } else {
            r == Ok::<bool, String>(Self::allowed(self.groups@[group_name].mls_group, policy))
        }
    }

    /// A user who has fallen out of step with a group is not authorised in it; one who is
    /// in step is, if the policy lets it.
    pub fn is_authorised(&self, group_name: &String, authorization_policy: AuthorizationPolicy) -> (r:
        Result<bool, String>)
        requires
            authorization_policy is Last && self.in_step(group_name@) && self.groups@.contains_key(
                group_name@,
            ) ==> (self.groups@[group_name@].mls_group.members@.len() as u32) > 0,
        ensures
            self.authorisation(group_name@, authorization_policy, r),
    {
        let in_step = match self.active.get(group_name) {
            Some(state) => state.0,
            None => false,
        };
        if !in_step {
            return Ok(false);
        }
        let group = match self.groups.get(group_name) {
            Some(group) => group,
            None => return Err("Unknown group".to_owned()),
        };
        let leaf_node_index: u32 = group.mls_group.own_leaf_index;
        match authorization_policy {
            AuthorizationPolicy::Random => Ok(true),
            AuthorizationPolicy::First => Ok(leaf_node_index == 0),
            AuthorizationPolicy::Last => Ok(
                leaf_node_index == #[verifier::truncate]
                (group.mls_group.members.len() as u32) - 1,
            ),
        }
    }

    /// Which member of a group a policy lets issue updates: any, the one with the first
    /// leaf, or the one with the last.
    pub open spec fn allowed(state: MlsState, policy: AuthorizationPolicy) -> bool {
        match policy {
            AuthorizationPolicy::Random => true,
            AuthorizationPolicy::First => state.own_leaf_index == 0,
            AuthorizationPolicy::Last => state.own_leaf_index == (state.members@.len() as u32) - 1,
        }
    }
}

} // verus!
