//! What a client knows of the state of its groups, and the messages that go through them.
//!
//! The protocol engine is outside: it holds the keys and does the cryptography. A client
//! keeps of each group what its decisions need, as the engine last reported it. Messages,
//! key packages, group information and trees are serialised here.
use crate::text::same_bytes;
use vstd::prelude::*;

verus! {

/// A member of a group.
#[derive(Debug)]
pub struct Member {
    pub index: u32,
    pub identity: Vec<u8>,
}

/// A proposed change of a group.
#[derive(Debug)]
pub enum Proposal {
    /// Add the client with this identity.
    Add(Vec<u8>),
    /// Remove the member with this leaf.
    Remove(u32),
    /// Refresh the keys of the proposer.
    Update,
    /// Anything else.
    Other,
}

/// A proposal that waits to be committed, with the reference under which it is kept.
#[derive(Debug)]
pub struct QueuedProposal {
    pub reference: Vec<u8>,
    pub proposal: Proposal,
}

/// The state of a group as the engine last reported it.
#[derive(Debug)]
pub struct MlsState {
    pub group_id: Vec<u8>,
    pub epoch: u64,
    pub own_leaf_index: u32,
    pub members: Vec<Member>,
    pub pending_proposals: Vec<QueuedProposal>,
    pub transcript_hash: Vec<u8>,
}

/// The identity of the first member with a leaf.
pub open spec fn identity_at(members: Seq<Member>, index: u32) -> Option<Seq<u8>>
    decreases members.len(),
{
    if members.len() == 0 {
        None
    } else if members[0].index == index {
        Some(members[0].identity@)
    } else {
        identity_at(members.drop_first(), index)
    }
}

/// The leaf of the first member with an identity.
pub open spec fn leaf_of(members: Seq<Member>, identity: Seq<u8>) -> Option<u32>
    decreases members.len(),
{
    if members.len() == 0 {
        None
    } else if members[0].identity@ == identity {
        Some(members[0].index)
    } else {
        leaf_of(members.drop_first(), identity)
    }
}

impl MlsState {
    /// The identity of the member with a leaf.
    pub fn member_at(&self, index: u32) -> (r: Option<&Vec<u8>>)
        ensures
            match r {
                Some(identity) => identity_at(self.members@, index) == Some(identity@),
                None => identity_at(self.members@, index) is None,
            },
    {
        let mut i: usize = 0;
        assert(self.members@.skip(0) =~= self.members@);
        while i < self.members.len()
            invariant
                i <= self.members.len(),
                identity_at(self.members@, index) == identity_at(self.members@.skip(i as int), index),
            decreases self.members.len() - i,
        {
            if self.members[i].index == index {
                return Some(&self.members[i].identity);
            }
            assert(self.members@.skip(i as int).drop_first() =~= self.members@.skip(i + 1));
            i += 1;
        }
        None
    }

    /// The leaf of the member with an identity.
    pub fn leaf_with(&self, identity: &Vec<u8>) -> (r: Option<u32>)
        ensures
            r == leaf_of(self.members@, identity@),
    {
        let mut i: usize = 0;
        assert(self.members@.skip(0) =~= self.members@);
        while i < self.members.len()
            invariant
                i <= self.members.len(),
                leaf_of(self.members@, identity@) == leaf_of(
                    self.members@.skip(i as int),
                    identity@,
                ),
            decreases self.members.len() - i,
        {
            if same_bytes(&self.members[i].identity, identity) {
                return Some(self.members[i].index);
            }
            assert(self.members@.skip(i as int).drop_first() =~= self.members@.skip(i + 1));
            i += 1;
        }
        None
    }
}

/// What the members of a group are told by a message.
#[derive(Debug, Clone, Copy, PartialEq, Eq, Structural)]
pub enum ContentType {
    Application,
    Proposal,
    Commit,
}

/// A message of a group that has not been processed yet.
pub struct ProtocolMessage {
    pub group_id: Vec<u8>,
    pub epoch: u64,
    pub content_type: ContentType,
    pub bytes: Vec<u8>,
}

/// A commit that the engine has checked but not yet merged.
pub struct StagedCommit {
    /// The identities of the added clients.
    pub added: Vec<Vec<u8>>,
    /// The leaves of the removed members.
    pub removed: Vec<u32>,
    pub self_removed: bool,
    pub transcript_hash: Vec<u8>,
}

/// What a processed message holds.
pub enum ProcessedContent {
    ApplicationMessage(Vec<u8>),
    ProposalMessage,
    ExternalJoinProposalMessage,
    StagedCommitMessage(StagedCommit),
}

/// A processed message with the identity of the member who sent it.
pub struct ProcessedMessage {
    pub sender: Vec<u8>,
    pub content: ProcessedContent,
}

/// Why a message could not be decrypted.
#[derive(Debug, Clone, Copy, PartialEq, Eq, Structural)]
pub enum MessageDecryptionError {
    /// The authenticated decryption failed.
    AeadError,
    /// The message lies too many generations ahead or behind.
    GenerationOutOfBound,
    Other,
}

/// Why a message is not valid.
#[derive(Debug, Clone, Copy, PartialEq, Eq, Structural)]
pub enum ValidationError {
    WrongEpoch,
    UnableToDecrypt(MessageDecryptionError),
    InvalidSignature,
    Other,
}

/// Why a message could not be processed, as the engine tells it.
#[derive(Debug, Clone, Copy, PartialEq, Eq, Structural)]
pub enum ProcessFailure {
    ValidationError(ValidationError),
    Other,
}

impl ProcessFailure {
    /// The failures that follow from a race between commits: a wrong epoch, a signature that
    /// is not valid, and a decryption that fails or is out of bounds.
    pub open spec fn is_conflict(self) -> bool {
        ||| self == ProcessFailure::ValidationError(ValidationError::WrongEpoch)
        ||| self == ProcessFailure::ValidationError(
            ValidationError::UnableToDecrypt(MessageDecryptionError::AeadError),
        )
        ||| self == ProcessFailure::ValidationError(ValidationError::InvalidSignature)
        ||| self == ProcessFailure::ValidationError(
            ValidationError::UnableToDecrypt(MessageDecryptionError::GenerationOutOfBound),
        )
    }

    /// Whether the failure follows from a race between commits.
    pub fn conflicts(&self) -> (r: bool)
        ensures
            r == self.is_conflict(),
    {
        match self {
            ProcessFailure::Other => false,
            ProcessFailure::ValidationError(error) => match error {
                ValidationError::WrongEpoch => true,
                ValidationError::InvalidSignature => true,
                ValidationError::UnableToDecrypt(MessageDecryptionError::AeadError) => true,
                ValidationError::UnableToDecrypt(MessageDecryptionError::GenerationOutOfBound) =>
                    true,
                ValidationError::UnableToDecrypt(MessageDecryptionError::Other) => false,
                ValidationError::Other => false,
            },
        }
    }
}

/// A failure with its text.
pub struct ProcessMessageError {
    pub failure: ProcessFailure,
    pub text: String,
}

/// What the engine makes of a commit: the message, the welcome for added members and the
/// information on the group after the commit.
pub struct CommitBundle {
    pub commit: Vec<u8>,
    pub welcome: Option<Vec<u8>>,
    pub group_info: Option<Vec<u8>>,
}

/// What a client is to do next in a group.
#[derive(Debug, Clone, Copy, PartialEq, Eq, Structural)]
pub enum NextAction {
    Inactive,
    Listen,
    Commit,
}

/// Which members may issue updates.
#[derive(Debug, Clone, Copy, PartialEq, Eq, Structural)]
pub enum AuthorizationPolicy {
    Random,
    First,
    Last,
}

} // verus!
