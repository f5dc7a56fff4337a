//! What small values tell, and that their copies hold the same.
use crate::action::{CGKAAction, CryptoTime, MergeTime, ProcessCryptoTime};
use crate::clock::timestamp_nanos;
use crate::compute_path::{LeafNode, UpdatePath, UpdatePathNode};
use crate::conversation::Conversation;
use crate::delivery::{DeliveryService, Directory};
use crate::mls::{MessageDecryptionError, ProcessFailure, ValidationError};
use crate::parameters::{Behaviour, DSType, Paradigm, UserParameters};
use crate::path_laws::{alike, same_bytes_one_by_one};
use crate::profiling::{Profiler, Stopwatch};
use crate::table::{Key, Table};
use crate::user::{Contact, StoredWelcome};
use vstd::prelude::*;

verus! {

/// Lookups go to the server but for gossip with a Kademlia directory, and messages go through
/// a broker but for requests, which are the default.
pub proof fn services_are_told_apart(
    ds: DeliveryService,
    server: bool,
    broker: bool,
    default: DeliveryService,
)
    requires
        call_ensures(DeliveryService::uses_server, (&ds,), server),
        call_ensures(DeliveryService::uses_broker, (&ds,), broker),
        call_ensures(DeliveryService::default, (), default),
    ensures
        match ds {
            DeliveryService::Request => server && !broker,
            DeliveryService::PubSubMQTT => server && broker,
            DeliveryService::GossipSub(Directory::Server) => server && broker,
            DeliveryService::GossipSub(Directory::Kademlia) => !server && broker,
        },
        default is Request,
{
}

/// A failure follows from a race between commits exactly if the epoch or the signature was
/// wrong, or the decryption failed or was out of bounds.
pub proof fn races_are_told_from_other_failures(failure: ProcessFailure, r: bool)
    requires
        call_ensures(ProcessFailure::conflicts, (&failure,), r),
    ensures
        match failure {
            ProcessFailure::ValidationError(ValidationError::WrongEpoch) => r,
            ProcessFailure::ValidationError(ValidationError::InvalidSignature) => r,
            ProcessFailure::ValidationError(
                ValidationError::UnableToDecrypt(MessageDecryptionError::AeadError),
            ) => r,
            ProcessFailure::ValidationError(
                ValidationError::UnableToDecrypt(MessageDecryptionError::GenerationOutOfBound),
            ) => r,
            ProcessFailure::ValidationError(
                ValidationError::UnableToDecrypt(MessageDecryptionError::Other),
            ) => !r,
            ProcessFailure::ValidationError(ValidationError::Other) => !r,
            ProcessFailure::Other => !r,
        },
{
}

/// What a profile gives for a key.
pub open spec fn gives(prof: Profiler, key: &'static str, time: u128) -> bool {
    call_ensures(Profiler::get, (&prof, key), time)
}

/// The times of a commit are those that the profile gives under their names.
pub proof fn commit_times_are_read(prof: Profiler, r: CryptoTime, time: u128)
    requires
        call_ensures(CryptoTime::from_profile, (&prof,), r),
    ensures
        gives(prof, "total", time) ==> r.total == time,
        gives(prof, "validation", time) ==> r.validation == time,
        gives(prof, "apply_proposals", time) ==> r.apply_proposals == time,
        gives(prof, "tree", time) ==> r.tree == time,
        gives(prof, "path", time) ==> r.path == time,
        gives(prof, "tree_hash", time) ==> r.tree_hash == time,
        gives(prof, "parent_hash", time) ==> r.parent_hash == time,
        gives(prof, "encrypt_path", time) ==> r.encrypt_path == time,
        gives(prof, "sign", time) ==> r.sign == time,
        gives(prof, "schedule", time) ==> r.schedule == time,
        gives(prof, "welcome", time) ==> r.welcome == time,
        gives(prof, "storage", time) ==> r.storage == time,
        gives(prof, "encrypt", time) ==> r.encrypt == time,
        gives(prof, "export", time) ==> r.export == time,
{
}

/// The times of processing a commit, and of merging one, are those that the profile gives
/// under their names.
pub proof fn processing_times_are_read(
    prof: Profiler,
    r: ProcessCryptoTime,
    merge: MergeTime,
    time: u128,
)
    requires
        call_ensures(ProcessCryptoTime::from_profile, (&prof,), r),
        call_ensures(MergeTime::from_profile, (&prof,), merge),
    ensures
        gives(prof, "total", time) ==> r.total == time,
        gives(prof, "decrypt", time) ==> r.decrypt == time,
        gives(prof, "verify", time) ==> r.verify == time,
        gives(prof, "validation", time) ==> r.validation == time,
        gives(prof, "apply_proposals", time) ==> r.apply_proposals == time,
        gives(prof, "tree", time) ==> r.tree == time,
        gives(prof, "path", time) ==> r.path == time,
        gives(prof, "tree_hash", time) ==> r.tree_hash == time,
        gives(prof, "parent_hash", time) ==> r.parent_hash == time,
        gives(prof, "decrypt_path", time) ==> r.decrypt_path == time,
        gives(prof, "schedule", time) ==> r.schedule == time,
        gives(prof, "merge_total", time) ==> merge.total == time,
        gives(prof, "merge", time) ==> merge.merge == time,
        gives(prof, "merge_storage", time) ==> merge.storage == time,
{
}

/// The clock shows no time before 1970, and no more time goes by than a duration can hold.
pub proof fn clocks_run_forward(now: Option<i64>, watch: Stopwatch, micros: u128)
    requires
        call_ensures(timestamp_nanos, (), now),
        call_ensures(Stopwatch::elapsed, (&watch,), micros),
    ensures
        now matches Some(nanos) ==> nanos >= 0,
        micros <= 18446744073709551615999999,
{
}

/// The copies of a contact and of a welcome hold the same, and a new conversation holds
/// nothing.
pub proof fn copied_contacts_and_welcomes_hold_the_same(
    contact: Contact,
    contact_copy: Contact,
    welcome: StoredWelcome,
    welcome_copy: StoredWelcome,
    empty: Conversation,
)
    requires
        call_ensures(Contact::clone, (&contact,), contact_copy),
        call_ensures(StoredWelcome::clone, (&welcome,), welcome_copy),
        call_ensures(Conversation::default, (), empty),
    ensures
        contact_copy.username@ == contact.username@,
        contact_copy.id@ == contact.id@,
        welcome_copy.welcome@ == welcome.welcome@,
        welcome_copy.recipients@ == welcome.recipients@,
        empty.messages@.len() == 0,
{
}

/// The copy of the parameters holds the same, but for what comes of copying the sections that
/// are read elsewhere.
pub proof fn copied_parameters_hold_the_same<O: Clone, I: Clone>(
    p: UserParameters<O, I>,
    copy: UserParameters<O, I>,
    ds: DSType,
    ds_copy: DSType,
    paradigm: Paradigm,
    paradigm_copy: Paradigm,
    behaviour: Behaviour<O, I>,
    behaviour_copy: Behaviour<O, I>,
)
    requires
        call_ensures(UserParameters::<O, I>::clone, (&p,), copy),
        call_ensures(DSType::clone, (&ds,), ds_copy),
        call_ensures(Paradigm::clone, (&paradigm,), paradigm_copy),
        call_ensures(Behaviour::<O, I>::clone, (&behaviour,), behaviour_copy),
    ensures
        copy.delivery_service == p.delivery_service,
        copy.server_url == p.server_url,
        copy.external_join == p.external_join,
        copy.join_chance == p.join_chance,
        copy.message_chance == p.message_chance,
        copy.message_length_min == p.message_length_min,
        copy.message_length_max == p.message_length_max,
        copy.groups@ == p.groups@,
        copy.max_members == p.max_members,
        copy.invite_chance == p.invite_chance,
        copy.remove_chance == p.remove_chance,
        copy.update_chance == p.update_chance,
        copy.behaviour is Orchestrated <==> p.behaviour is Orchestrated,
        p.behaviour matches Behaviour::Orchestrated(o) ==> cloned(o, copy.behaviour->Orchestrated_0),
        p.behaviour matches Behaviour::Independent(i) ==> cloned(i, copy.behaviour->Independent_0),
        copy.paradigm == p.paradigm,
        copy.proposals_per_commit == p.proposals_per_commit,
        copy.mqtt_url == p.mqtt_url,
        ds_copy == ds,
        paradigm_copy == paradigm,
        behaviour_copy is Orchestrated <==> behaviour is Orchestrated,
{
}

/// The copies of leaves and nodes hold the same.
pub proof fn copied_nodes_hold_the_same(
    leaf: LeafNode,
    leaf_copy: LeafNode,
    node: UpdatePathNode,
    node_copy: UpdatePathNode,
    path: UpdatePath,
    path_copy: UpdatePath,
)
    requires
        call_ensures(LeafNode::clone, (&leaf,), leaf_copy),
        call_ensures(UpdatePathNode::clone, (&node,), node_copy),
        call_ensures(UpdatePath::clone, (&path,), path_copy),
    ensures
        leaf_copy.encryption_key@ == leaf.encryption_key@,
        leaf_copy.credential@ == leaf.credential@,
        leaf_copy.signature_key@ == leaf.signature_key@,
        leaf_copy.capabilities@ == leaf.capabilities@,
        leaf_copy.extensions@ == leaf.extensions@,
        alike(node_copy, node),
        path_copy.nodes@.len() == path.nodes@.len(),
        forall|i: int|
            0 <= i < path.nodes@.len() ==> alike(#[trigger] path_copy.nodes@[i], path.nodes@[i]),
        path_copy.leaf_node.encryption_key@ == path.leaf_node.encryption_key@,
        path_copy.leaf_node.credential@ == path.leaf_node.credential@,
        path_copy.leaf_node.signature_key@ == path.leaf_node.signature_key@,
        path_copy.leaf_node.capabilities@ == path.leaf_node.capabilities@,
        path_copy.leaf_node.extensions@ == path.leaf_node.extensions@,
{
    same_bytes_one_by_one(node_copy.encrypted_path_secrets@, node.encrypted_path_secrets@);
    assert forall|i: int| 0 <= i < path.nodes@.len() implies alike(
        #[trigger] path_copy.nodes@[i],
        path.nodes@[i],
    ) by {
        assert(path_copy.nodes@[i].content() == path.nodes@[i].content());
        same_bytes_one_by_one(
            path_copy.nodes@[i].encrypted_path_secrets@,
            path.nodes@[i].encrypted_path_secrets@,
        );
    }
}

/// The copy of a table has a copy of each value under the same key, and no other keys.
pub proof fn copied_tables_hold_copies<K: Key, V: Clone>(
    table: Table<K, V>,
    copy: Table<K, V>,
    key: K,
    had: Option<&V>,
    has: Option<&V>,
)
    requires
        call_ensures(Table::<K, V>::clone, (&table,), copy),
        call_ensures(Table::<K, V>::get, (&table, &key), had),
        call_ensures(Table::<K, V>::get, (&copy, &key), has),
    ensures
        has is Some <==> had is Some,
        has matches Some(v) ==> cloned(*had->Some_0, *v),
{
    if had is Some {
        assert(table@.dom().contains(key@));
        assert(copy@.dom().contains(key@));
    }
    if has is Some {
        assert(copy@.dom().contains(key@));
        assert(table@.dom().contains(key@));
    }
}

/// The copy of an action is the same action with the same values and is written alike.
pub proof fn copied_actions_are_the_same(
    action: CGKAAction,
    copy: CGKAAction,
    text: String,
    same: String,
)
    requires
        call_ensures(CGKAAction::clone, (&action,), copy),
        call_ensures(CGKAAction::to_text, (&action,), text),
        call_ensures(CGKAAction::to_text, (&copy,), same),
    ensures
        same@ == text@,
        match action {
            CGKAAction::Propose(_) => copy is Propose,
            CGKAAction::CommitAttempt(_) => copy is CommitAttempt,
            CGKAAction::Commit(proposals, size) => copy matches CGKAAction::Commit(p, s) && s == size
                && p@.len() == proposals@.len(),
            _ => copy == action,
        },
{
}

} // verus!
