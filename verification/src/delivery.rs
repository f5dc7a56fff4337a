//! How messages reach other clients, and which service answers which question.
use tls_codec::TlsByteVecU8;
use vstd::prelude::*;

verus! {

/// Where groups and key packages are looked up when messages are gossiped.
#[derive(Debug, Clone, Copy, PartialEq, Eq, Structural)]
pub enum Directory {
    Server,
    Kademlia,
}

/// How messages are delivered.
#[derive(Debug, Clone, Copy, PartialEq, Eq, Structural)]
pub enum DeliveryService {
    /// By requests to the server.
    Request,
    /// By publishing to an MQTT broker.
    PubSubMQTT,
    /// By gossip, with lookups in the given directory.
    GossipSub(Directory),
}

impl Default for DeliveryService {
    fn default() -> (r: Self)
        ensures
            r == DeliveryService::Request,
    {
        DeliveryService::Request
    }
}

impl DeliveryService {
    /// Lookups go to the server, but for gossip with a Kademlia directory.
    pub open spec fn looks_up_at_server(self) -> bool {
        self != DeliveryService::GossipSub(Directory::Kademlia)
    }

    /// Whether lookups go to the server.
    pub fn uses_server(&self) -> (r: bool)
        ensures
            r == self.looks_up_at_server(),
    {
        match self {
            DeliveryService::Request => true,
            DeliveryService::PubSubMQTT => true,
            DeliveryService::GossipSub(Directory::Server) => true,
            DeliveryService::GossipSub(Directory::Kademlia) => false,
        }
    }

    /// Whether messages go through a broker.
    pub fn uses_broker(&self) -> (r: bool)
        ensures
            r == (*self != DeliveryService::Request),
    {
        match self {
            DeliveryService::Request => false,
            DeliveryService::PubSubMQTT => true,
            DeliveryService::GossipSub(_) => true,
        }
    }
}

/// A request to the directory of groups and key packages, with what the server or the
/// broker needs to answer it.
pub enum DirectoryCall<S, B> {
    Server(S),
    Broker(B),
}

/// A byte string with a length of one byte in front, of the crate `tls_codec`.
#[verifier::external_type_specification]
#[verifier::external_body]
pub struct ExTlsByteVecU8(tls_codec::TlsByteVecU8);

/// The bytes in such a byte string.
pub uninterp spec fn tls_contents(bytes: tls_codec::TlsByteVecU8) -> Seq<u8>;

/// Calls `<TlsByteVecU8 as From<Vec<u8>>>::from`, which takes over the bytes as they are.
#[verifier::external_body]
pub(crate) fn tls_bytes(bytes: Vec<u8>) -> (r: TlsByteVecU8)
    ensures
        tls_contents(r) == bytes@,
{
    bytes.into()
}

/// Key packages under their hash references, as they are published.
pub struct ClientKeyPackages {
    pub packages: Vec<(TlsByteVecU8, Vec<u8>)>,
}

/// Group information with the ratchet tree that belongs to it.
pub struct GroupInfoAndTree {
    pub group_info: Vec<u8>,
    pub ratchet_tree: Option<Vec<u8>>,
}

/// A message on its way between clients.
pub struct GroupMessage {
    pub msg: Vec<u8>,
    pub sender: Vec<u8>,
    pub ratchet_tree: Option<Vec<u8>>,
    pub recipients: Vec<Vec<u8>>,
    pub active_members: Option<Vec<Vec<u8>>>,
}

/// A message that is to be sent, with the service that takes it.
pub enum Outgoing {
    /// The server forwards it to its recipients.
    Backend(GroupMessage),
    /// A broker publishes it under a topic: the name of a group, or of a user who is
    /// welcomed.
    Broker(GroupMessage, String),
}

/// A request to a broker.
pub enum BrokerCall {
    SubscribeWelcome(String),
    Subscribe(String),
    Unsubscribe(String),
}

/// The acknowledgement of a welcome by a user who does not stay active.
#[derive(Debug)]
pub struct WelcomeAcknowledgement {
    pub sender: String,
    pub group: String,
}

} // verus!
