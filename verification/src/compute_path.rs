//! The update path of a commit: which parameters the new leaf gets, in what order the
//! tree is asked for the parts of the path, and what the finished path holds.
//!
//! The tree and its cryptography are outside: a [`ComputePath`] says with a
//! [`PathCommand`] what is to be done next and takes the outcome as a [`PathReply`].
//! Secrets, keys, credentials and extensions are byte strings here.
use crate::text::{byte_strings, copy_byte_strings, copy_bytes};
use vstd::pervasive::unreached;
use vstd::prelude::*;

verus! {

/// A credential and the key that its owner signs with.
pub struct CredentialWithKey {
    pub credential: Vec<u8>,
    pub signature_key: Vec<u8>,
}

/// What a committer wants its new leaf to hold; what is left open is filled in.
pub struct LeafNodeParameters {
    pub credential_with_key: Option<CredentialWithKey>,
    pub capabilities: Option<Vec<u8>>,
    pub extensions: Option<Vec<u8>>,
}

/// What the new leaf of a committer holds.
pub struct UpdateLeafNodeParams {
    pub credential_with_key: CredentialWithKey,
    pub capabilities: Vec<u8>,
    pub extensions: Vec<u8>,
}

/// A leaf of the tree.
pub struct LeafNode {
    pub encryption_key: Vec<u8>,
    pub credential: Vec<u8>,
    pub signature_key: Vec<u8>,
    pub capabilities: Vec<u8>,
    pub extensions: Vec<u8>,
}

impl LeafNode {
    /// What the leaf holds, field by field.
    pub open spec fn content(self) -> (Seq<u8>, Seq<u8>, Seq<u8>, Seq<u8>, Seq<u8>) {
        (
            self.encryption_key@,
            self.credential@,
            self.signature_key@,
            self.capabilities@,
            self.extensions@,
        )
    }
}

impl Clone for LeafNode {
    fn clone(&self) -> (r: Self)
        ensures
            r.content() == self.content(),
    {
        LeafNode {
            encryption_key: copy_bytes(&self.encryption_key),
            credential: copy_bytes(&self.credential),
            signature_key: copy_bytes(&self.signature_key),
            capabilities: copy_bytes(&self.capabilities),
            extensions: copy_bytes(&self.extensions),
        }
    }
}

/// A parent node of the tree.
pub struct ParentNode {
    pub encryption_key: Vec<u8>,
}

/// A node in the resolution of a copath node.
pub enum NodeReference {
    Leaf(LeafNode),
    Parent(ParentNode),
}

/// Who commits: someone outside the group, with the credential to join by, or a member.
pub enum CommitType {
    External(CredentialWithKey),
    Member,
}

/// One node of an update path: its public key and the path secret, encrypted to each
/// node of the copath resolution.
pub struct UpdatePathNode {
    pub public_key: Vec<u8>,
    pub encrypted_path_secrets: Vec<Vec<u8>>,
}

impl UpdatePathNode {
    /// What the node holds, field by field.
    pub open spec fn content(self) -> (Seq<u8>, Seq<Seq<u8>>) {
        (self.public_key@, byte_strings(self.encrypted_path_secrets@))
    }
}

impl Clone for UpdatePathNode {
    fn clone(&self) -> (r: Self)
        ensures
            r.content() == self.content(),
    {
        UpdatePathNode {
            public_key: copy_bytes(&self.public_key),
            encrypted_path_secrets: copy_byte_strings(&self.encrypted_path_secrets),
        }
    }
}

/// An update path with the committer's new leaf.
pub struct UpdatePath {
    pub leaf_node: LeafNode,
    pub nodes: Vec<UpdatePathNode>,
}

impl UpdatePath {
    /// The nodes hold the same, one by one.
    pub open spec fn same_nodes(self, other: UpdatePath) -> bool {
        &&& self.nodes@.len() == other.nodes@.len()
        &&& forall|i: int|
            0 <= i < self.nodes@.len() ==> (#[trigger] self.nodes@[i]).content()
                == other.nodes@[i].content()
    }
}

impl Clone for UpdatePath {
    fn clone(&self) -> (r: Self)
        ensures
            r.leaf_node.content() == self.leaf_node.content(),
            r.same_nodes(*self),
    {
        let mut nodes: Vec<UpdatePathNode> = Vec::new();
        let mut i: usize = 0;
        while i < self.nodes.len()
            invariant
                i <= self.nodes.len(),
                nodes.len() == i,
                forall|j: int|
                    0 <= j < i ==> (#[trigger] nodes@[j]).content() == self.nodes@[j].content(),
            decreases self.nodes.len() - i,
        {
            nodes.push(self.nodes[i].clone());
            i += 1;
        }
        UpdatePath { leaf_node: self.leaf_node.clone(), nodes }
    }
}

/// How many ciphertexts the nodes hold together.
pub open spec fn ciphertexts(nodes: Seq<UpdatePathNode>) -> nat
    decreases nodes.len(),
{
    if nodes.len() == 0 {
        0
    } else {
        ciphertexts(nodes.drop_last()) + nodes.last().encrypted_path_secrets@.len()
    }
}

proof fn ciphertexts_grow(nodes: Seq<UpdatePathNode>, i: int)
    requires
        0 <= i <= nodes.len(),
    ensures
        ciphertexts(nodes.take(i)) <= ciphertexts(nodes),
    decreases nodes.len() - i,
{
    if i < nodes.len() {
        ciphertexts_grow(nodes, i + 1);
        assert(nodes.take(i + 1).drop_last() =~= nodes.take(i));
    } else {
        assert(nodes.take(i) =~= nodes);
    }
}

impl UpdatePath {
    /// Counts the ciphertexts of all nodes.
    pub fn number_of_ciphertexts(&self) -> (r: usize)
        requires
            ciphertexts(self.nodes@) <= usize::MAX,
        ensures
            r == ciphertexts(self.nodes@),
    {
        let mut n: usize = 0;
        let mut i: usize = 0;
        assert(self.nodes@.take(0) =~= Seq::<UpdatePathNode>::empty());
        while i < self.nodes.len()
            invariant
                i <= self.nodes.len(),
                n == ciphertexts(self.nodes@.take(i as int)),
                ciphertexts(self.nodes@) <= usize::MAX,
            decreases self.nodes.len() - i,
        {
            proof {
                ciphertexts_grow(self.nodes@, i + 1);
                assert(self.nodes@.take(i + 1).drop_last() =~= self.nodes@.take(i as int));
            }
            n = n + self.nodes[i].encrypted_path_secrets.len();
            i += 1;
        }
        assert(self.nodes@.take(i as int) =~= self.nodes@);
        n
    }
}

/// Why a path could not be computed or read.
pub enum LibraryError {
    /// An inconsistency that the text describes.
    Custom(String),
    /// A value was too long to be encoded.
    MissingBoundCheck,
    /// The tree refused, for the reason in the text.
    Tree(String),
}

/// The values resulting from the preparation of a commit with path.
pub struct PathComputationResult {
    pub commit_secret: Option<Vec<u8>>,
    pub encrypted_path: Option<UpdatePath>,
    pub plain_path: Option<Vec<Vec<u8>>>,
    pub new_keypairs: Vec<Vec<u8>>,
}

impl Clone for PathComputationResult {
    fn clone(&self) -> (r: Self)
        ensures
            match self.commit_secret {
                Some(secret) => r.commit_secret matches Some(s) && s@ == secret@,
                None => r.commit_secret is None,
            },
            match self.encrypted_path {
                Some(path) => r.encrypted_path matches Some(p) && p.leaf_node.content()
                    == path.leaf_node.content() && p.same_nodes(path),
                None => r.encrypted_path is None,
            },
            match self.plain_path {
                Some(path) => r.plain_path matches Some(p) && byte_strings(p@) == byte_strings(
                    path@,
                ),
                None => r.plain_path is None,
            },
            byte_strings(r.new_keypairs@) == byte_strings(self.new_keypairs@),
    {
        PathComputationResult {
            commit_secret: match &self.commit_secret {
                Some(secret) => Some(copy_bytes(secret)),
                None => None,
            },
            encrypted_path: match &self.encrypted_path {
                Some(path) => Some(path.clone()),
                None => None,
            },
            plain_path: match &self.plain_path {
                Some(path) => Some(copy_byte_strings(path)),
                None => None,
            },
            new_keypairs: copy_byte_strings(&self.new_keypairs),
        }
    }
}

impl Default for PathComputationResult {
    fn default() -> (r: Self)
        ensures
            r.commit_secret is None,
            r.encrypted_path is None,
            r.plain_path is None,
            r.new_keypairs@.len() == 0,
    {
        PathComputationResult {
            commit_secret: None,
            encrypted_path: None,
            plain_path: None,
            new_keypairs: Vec::new(),
        }
    }
}

impl PathComputationResult {
    /// The number of ciphertexts of the encrypted path; without such a path, an error.
    pub open spec fn counts(self, r: Result<usize, LibraryError>) -> bool {
        match self.encrypted_path {
            None => r matches Err(LibraryError::Custom(text)) && text@
                == "No encrypted path found"@,
            Some(path) => r matches Ok(n) && n == ciphertexts(path.nodes@),
        }
    }

    /// Counts the ciphertexts of the encrypted path; without such a path it is an error.
    pub fn number_of_ciphertexts(&self) -> (r: Result<usize, LibraryError>)
        requires
            self.encrypted_path matches Some(path) ==> ciphertexts(path.nodes@) <= usize::MAX,
        ensures
            self.counts(r),
    {
        match &self.encrypted_path {
            None => Err(LibraryError::Custom("No encrypted path found".to_owned())),
            Some(path) => Ok(path.number_of_ciphertexts()),
        }
    }
}

/// A value that was asked for, or else the one that stands in for it.
pub open spec fn or_else<T>(asked: Option<T>, other: T) -> T {
    match asked {
        Some(value) => value,
        None => other,
    }
}

fn chosen<T>(asked: Option<T>, other: T) -> (r: T)
    ensures
        r == or_else(asked, other),
{
    match asked {
        Some(value) => value,
        None => other,
    }
}

/// What the new leaf of a committer holds: an external committer brings the credential
/// of its commit, a member keeps that of its leaf unless it asks for another; what else
/// is left open comes from the defaults or from the member's leaf.
pub open spec fn resolved_params(
    commit_type: CommitType,
    own_leaf: Option<LeafNode>,
    asked: LeafNodeParameters,
    default_capabilities: Vec<u8>,
    default_extensions: Vec<u8>,
) -> Option<UpdateLeafNodeParams> {
    match commit_type {
        CommitType::External(credential_with_key) => Some(
            UpdateLeafNodeParams {
                credential_with_key,
                capabilities: or_else(asked.capabilities, default_capabilities),
                extensions: or_else(asked.extensions, default_extensions),
            },
        ),
        CommitType::Member => match own_leaf {
            None => None,
            Some(leaf) => Some(
                UpdateLeafNodeParams {
                    credential_with_key: or_else(
                        asked.credential_with_key,
                        CredentialWithKey {
                            credential: leaf.credential,
                            signature_key: leaf.signature_key,
                        },
                    ),
                    capabilities: or_else(asked.capabilities, leaf.capabilities),
                    extensions: or_else(asked.extensions, leaf.extensions),
                },
            ),
        },
    }
}

/// What deriving a path yields.
pub struct DerivedPath {
    pub path: Vec<Vec<u8>>,
    pub plain_path: Vec<Vec<u8>>,
    pub parent_keypairs: Vec<Vec<u8>>,
    pub commit_secret: Vec<u8>,
}

/// What a computation hands on to the tree as it was given.
pub struct PathInputs {
    /// Whether the committer is outside the group.
    pub external: bool,
    /// Leaves that the path is not encrypted to.
    pub exclusion_list: Vec<u32>,
    /// New extensions of the group context.
    pub gc_extensions: Option<Vec<u8>>,
}

/// What the tree is to do next.
pub enum PathCommand {
    /// Add a placeholder leaf if `add_placeholder`, then list the filtered direct path.
    DirectPath { add_placeholder: bool, leaf_index: u32 },
    /// Derive the path along these nodes.
    Derive { path_indices: Vec<u32> },
    /// Put the path and a new leaf with these parameters into the tree.
    Apply {
        external: bool,
        leaf_index: u32,
        leaf_node_params: UpdateLeafNodeParams,
        path: Vec<Vec<u8>>,
    },
    /// Update the group context with these extensions and serialise it.
    GroupContext { gc_extensions: Option<Vec<u8>> },
    /// List the resolutions of the filtered copath without these leaves.
    CopathResolutions { leaf_index: u32, exclusion_list: Vec<u32> },
    /// Encrypt the path secrets to these keys.
    Encrypt { plain_path: Vec<Vec<u8>>, group_context: Vec<u8>, keys: Vec<Vec<Vec<u8>>> },
    /// Look up the committer's leaf.
    OwnLeaf { leaf_index: u32 },
}

impl PathCommand {
    /// The key under which the CPU time of the command is recorded.
    pub open spec fn profile_key(self) -> Option<Seq<char>> {
        match self {
            PathCommand::DirectPath { .. } => Some("tree"@),
            PathCommand::Derive { .. } => Some("path"@),
            PathCommand::Apply { .. } => None,
            PathCommand::GroupContext { .. } => Some("tree"@),
            PathCommand::CopathResolutions { .. } => Some("tree"@),
            PathCommand::Encrypt { .. } => Some("encrypt_path"@),
            PathCommand::OwnLeaf { .. } => None,
        }
    }

    /// Names the key under which the CPU time of the command is recorded.
    pub fn timed_under(&self) -> (r: Option<&'static str>)
        ensures
            match r {
                Some(key) => self.profile_key() == Some(key@),
                None => self.profile_key() is None,
            },
    {
        match self {
            PathCommand::DirectPath { .. } => Some("tree"),
            PathCommand::Derive { .. } => Some("path"),
            PathCommand::Apply { .. } => None,
            PathCommand::GroupContext { .. } => Some("tree"),
            PathCommand::CopathResolutions { .. } => Some("tree"),
            PathCommand::Encrypt { .. } => Some("encrypt_path"),
            PathCommand::OwnLeaf { .. } => None,
        }
    }
}

/// Why the group context could not be had.
pub enum ContextError {
    Update(String),
    Serialisation,
}

/// The outcome of a [`PathCommand`].
pub enum PathReply {
    DirectPath(Result<Vec<u32>, String>),
    Derived(Result<DerivedPath, String>),
    Applied(Result<Vec<Vec<u8>>, String>),
    GroupContext(Result<Vec<u8>, ContextError>),
    CopathResolutions(Vec<Vec<NodeReference>>),
    Encrypted(Result<Vec<UpdatePathNode>, String>),
    OwnLeaf(Option<LeafNode>),
}

/// What a computation waits for, with what it has gathered.
pub enum PathStage {
    DirectPath { leaf_node_params: UpdateLeafNodeParams, inputs: PathInputs },
    Derived { leaf_node_params: UpdateLeafNodeParams, inputs: PathInputs },
    Applied {
        plain_path: Vec<Vec<u8>>,
        parent_keypairs: Vec<Vec<u8>>,
        commit_secret: Vec<u8>,
        exclusion_list: Vec<u32>,
        gc_extensions: Option<Vec<u8>>,
    },
    GroupContext {
        plain_path: Vec<Vec<u8>>,
        new_keypairs: Vec<Vec<u8>>,
        commit_secret: Vec<u8>,
        exclusion_list: Vec<u32>,
    },
    Copath {
        plain_path: Vec<Vec<u8>>,
        new_keypairs: Vec<Vec<u8>>,
        commit_secret: Vec<u8>,
        group_context: Vec<u8>,
    },
    Encrypted { plain_path: Vec<Vec<u8>>, new_keypairs: Vec<Vec<u8>>, commit_secret: Vec<u8> },
    OwnLeaf {
        plain_path: Vec<Vec<u8>>,
        new_keypairs: Vec<Vec<u8>>,
        commit_secret: Vec<u8>,
        nodes: Vec<UpdatePathNode>,
    },
}

/// A path computation under way.
pub struct ComputePath {
    pub leaf_index: u32,
    pub stage: PathStage,
}

/// What follows an outcome: another command, or the end of the computation.
pub enum PathStep {
    Next(ComputePath, PathCommand),
    Done(Result<PathComputationResult, LibraryError>),
}

/// The public key of a node.
pub open spec fn node_key(node: NodeReference) -> Seq<u8> {
    match node {
        NodeReference::Leaf(leaf) => leaf.encryption_key@,
        NodeReference::Parent(parent) => parent.encryption_key@,
    }
}

/// `keys` holds the public key of every node of every resolution, in order.
pub open spec fn keys_of(resolutions: Seq<Vec<NodeReference>>, keys: Seq<Vec<Vec<u8>>>) -> bool {
    &&& keys.len() == resolutions.len()
    &&& forall|i: int|
        0 <= i < keys.len() ==> #[trigger] byte_strings(keys[i]@) == resolutions[i]@.map_values(
            |node: NodeReference| node_key(node),
        )
}

fn resolution_keys(resolution: &Vec<NodeReference>) -> (r: Vec<Vec<u8>>)
    ensures
        byte_strings(r@) == resolution@.map_values(|node: NodeReference| node_key(node)),
{
    let mut r: Vec<Vec<u8>> = Vec::new();
    let mut i: usize = 0;
    while i < resolution.len()
        invariant
            i <= resolution.len(),
            r.len() == i,
            forall|j: int| 0 <= j < i ==> #[trigger] r@[j]@ == node_key(resolution@[j]),
        decreases resolution.len() - i,
    {
        let k = match &resolution[i] {
            NodeReference::Leaf(leaf) => copy_bytes(&leaf.encryption_key),
            NodeReference::Parent(parent) => copy_bytes(&parent.encryption_key),
        };
        r.push(k);
        i += 1;
    }
    assert(byte_strings(r@) =~= resolution@.map_values(|node: NodeReference| node_key(node)));
    r
}

/// The public keys of the copath resolutions.
pub fn copath_keys(resolutions: &Vec<Vec<NodeReference>>) -> (r: Vec<Vec<Vec<u8>>>)
    ensures
        keys_of(resolutions@, r@),
{
    let mut r: Vec<Vec<Vec<u8>>> = Vec::new();
    let mut i: usize = 0;
    while i < resolutions.len()
        invariant
            i <= resolutions.len(),
            r.len() == i,
            forall|j: int|
                0 <= j < i ==> #[trigger] byte_strings(r@[j]@) == resolutions@[j]@.map_values(
                    |node: NodeReference| node_key(node),
                ),
        decreases resolutions.len() - i,
    {
        r.push(resolution_keys(&resolutions[i]));
        i += 1;
    }
    r
}

impl ComputePath {
    /// Begins the computation of a committer's path. A member without a leaf in the tree
    /// has no path.
    pub fn compute_path(
        leaf_index: u32,
        commit_type: CommitType,
        own_leaf: Option<LeafNode>,
        leaf_node_params: LeafNodeParameters,
        default_capabilities: Vec<u8>,
        default_extensions: Vec<u8>,
        exclusion_list: Vec<u32>,
        gc_extensions: Option<Vec<u8>>,
    ) -> (r: PathStep)
        ensures
            match resolved_params(
                commit_type,
                own_leaf,
                leaf_node_params,
                default_capabilities,
                default_extensions,
            ) {
                None => r matches PathStep::Done(Err(LibraryError::Custom(text))) && text@
                    == "Couldn't find own leaf"@,
                Some(params) => r == PathStep::Next(
                    ComputePath {
                        leaf_index,
                        stage: PathStage::DirectPath {
                            leaf_node_params: params,
                            inputs: PathInputs {
                                external: commit_type is External,
                                exclusion_list,
                                gc_extensions,
                            },
                        },
                    },
                    PathCommand::DirectPath {
                        add_placeholder: commit_type is External,
                        leaf_index,
                    },
                ),
            },
    {
        let (params, external) = match commit_type {
            CommitType::External(credential_with_key) => (
                UpdateLeafNodeParams {
                    credential_with_key,
                    capabilities: chosen(leaf_node_params.capabilities, default_capabilities),
                    extensions: chosen(leaf_node_params.extensions, default_extensions),
                },
                true,
            ),
            CommitType::Member => match own_leaf {
                None => {
                    return PathStep::Done(
                        Err(LibraryError::Custom("Couldn't find own leaf".to_owned())),
                    );
                },
                Some(leaf) => (
                    UpdateLeafNodeParams {
                        credential_with_key: chosen(
                            leaf_node_params.credential_with_key,
                            CredentialWithKey {
                                credential: leaf.credential,
                                signature_key: leaf.signature_key,
                            },
                        ),
                        capabilities: chosen(leaf_node_params.capabilities, leaf.capabilities),
                        extensions: chosen(leaf_node_params.extensions, leaf.extensions),
                    },
                    false,
                ),
            },
        };
        PathStep::Next(
            ComputePath {
                leaf_index,
                stage: PathStage::DirectPath {
                    leaf_node_params: params,
                    inputs: PathInputs { external, exclusion_list, gc_extensions },
                },
            },
            PathCommand::DirectPath { add_placeholder: external, leaf_index },
        )
    }

    /// Whether the reply is one to the command that the computation waits for.
    pub open spec fn awaits(self, reply: PathReply) -> bool {
        match self.stage {
            PathStage::DirectPath { .. } => reply is DirectPath,
            PathStage::Derived { .. } => reply is Derived,
            PathStage::Applied { .. } => reply is Applied,
            PathStage::GroupContext { .. } => reply is GroupContext,
            PathStage::Copath { .. } => reply is CopathResolutions,
            PathStage::Encrypted { .. } => reply is Encrypted,
            PathStage::OwnLeaf { .. } => reply is OwnLeaf,
        }
    }

    /// What follows a reply.
    pub open spec fn followed_by(self, reply: PathReply, step: PathStep) -> bool {
        let leaf_index = self.leaf_index;
        match (self.stage, reply) {
            (PathStage::DirectPath { leaf_node_params, inputs }, PathReply::DirectPath(Ok(path_indices))) =>
                step == PathStep::Next(
                ComputePath { leaf_index, stage: PathStage::Derived { leaf_node_params, inputs } },
                PathCommand::Derive { path_indices },
            ),
            (PathStage::Derived { leaf_node_params, inputs }, PathReply::Derived(Ok(derived))) => step
                == PathStep::Next(
                ComputePath {
                    leaf_index,
                    stage: PathStage::Applied {
                        plain_path: derived.plain_path,
                        parent_keypairs: derived.parent_keypairs,
                        commit_secret: derived.commit_secret,
                        exclusion_list: inputs.exclusion_list,
                        gc_extensions: inputs.gc_extensions,
                    },
                },
                PathCommand::Apply {
                    external: inputs.external,
                    leaf_index,
                    leaf_node_params,
                    path: derived.path,
                },
            ),
            (
                PathStage::Applied {
                    plain_path,
                    parent_keypairs,
                    commit_secret,
                    exclusion_list,
                    gc_extensions,
                },
                PathReply::Applied(Ok(keypairs)),
            ) => {
                &&& step matches PathStep::Next(next, PathCommand::GroupContext { gc_extensions: g })
                &&& g == gc_extensions
                &&& next.leaf_index == leaf_index
                &&& next.stage matches PathStage::GroupContext {
                    plain_path: p,
                    new_keypairs,
                    commit_secret: s,
                    exclusion_list: l,
                }
                &&& l == exclusion_list
                &&& p == plain_path
                &&& s == commit_secret
                &&& new_keypairs@ == keypairs@ + parent_keypairs@
            },
            (
                PathStage::GroupContext { plain_path, new_keypairs, commit_secret, exclusion_list },
                PathReply::GroupContext(Ok(group_context)),
            ) => step == PathStep::Next(
                ComputePath {
                    leaf_index,
                    stage: PathStage::Copath {
                        plain_path,
                        new_keypairs,
                        commit_secret,
                        group_context,
                    },
                },
                PathCommand::CopathResolutions { leaf_index, exclusion_list },
            ),
            (
                PathStage::Copath { plain_path, new_keypairs, commit_secret, group_context },
                PathReply::CopathResolutions(resolutions),
            ) => {
                &&& step matches PathStep::Next(
                    next,
                    PathCommand::Encrypt { plain_path: p, group_context: c, keys },
                )
                &&& next == ComputePath {
                    leaf_index,
                    stage: PathStage::Encrypted { plain_path, new_keypairs, commit_secret },
                }
                &&& byte_strings(p@) == byte_strings(plain_path@)
                &&& c == group_context
                &&& keys_of(resolutions@, keys@)
            },
            (
                PathStage::Encrypted { plain_path, new_keypairs, commit_secret },
                PathReply::Encrypted(Ok(nodes)),
            ) => step == PathStep::Next(
                ComputePath {
                    leaf_index,
                    stage: PathStage::OwnLeaf { plain_path, new_keypairs, commit_secret, nodes },
                },
                PathCommand::OwnLeaf { leaf_index },
            ),
            (
                PathStage::OwnLeaf { plain_path, new_keypairs, commit_secret, nodes },
                PathReply::OwnLeaf(Some(leaf_node)),
            ) => step == PathStep::Done(
                Ok(
                    PathComputationResult {
                        commit_secret: Some(commit_secret),
                        encrypted_path: Some(UpdatePath { leaf_node, nodes }),
                        plain_path: Some(plain_path),
                        new_keypairs,
                    },
                ),
            ),
            (_, PathReply::DirectPath(Err(e))) => step == PathStep::Done(
                Err(LibraryError::Tree(e)),
            ),
            (_, PathReply::Derived(Err(e))) => step == PathStep::Done(Err(LibraryError::Tree(e))),
            (_, PathReply::Applied(Err(e))) => step == PathStep::Done(Err(LibraryError::Tree(e))),
            (_, PathReply::GroupContext(Err(ContextError::Update(e)))) => step == PathStep::Done(
                Err(LibraryError::Tree(e)),
            ),
            (_, PathReply::GroupContext(Err(ContextError::Serialisation))) => step
                == PathStep::Done(Err(LibraryError::MissingBoundCheck)),
            (_, PathReply::Encrypted(Err(e))) => step == PathStep::Done(Err(LibraryError::Tree(e))),
            (_, PathReply::OwnLeaf(None)) => step matches PathStep::Done(
                Err(LibraryError::Custom(text)),
            ) && text@ == "Couldn't find own leaf"@,
            _ => false,
        }
    }

    /// Goes on with the outcome of the command that the computation waits for.
    pub fn step(self, reply: PathReply) -> (r: PathStep)
        requires
            self.awaits(reply),
        ensures
            self.followed_by(reply, r),
    {
        let leaf_index = self.leaf_index;
        match (self.stage, reply) {
            (PathStage::DirectPath { leaf_node_params, inputs }, PathReply::DirectPath(Ok(path_indices))) =>
                PathStep::Next(
                ComputePath { leaf_index, stage: PathStage::Derived { leaf_node_params, inputs } },
                PathCommand::Derive { path_indices },
            ),
            (PathStage::Derived { leaf_node_params, inputs }, PathReply::Derived(Ok(derived))) =>
                PathStep::Next(
                ComputePath {
                    leaf_index,
                    stage: PathStage::Applied {
                        plain_path: derived.plain_path,
                        parent_keypairs: derived.parent_keypairs,
                        commit_secret: derived.commit_secret,
                        exclusion_list: inputs.exclusion_list,
                        gc_extensions: inputs.gc_extensions,
                    },
                },
                PathCommand::Apply {
                    external: inputs.external,
                    leaf_index,
                    leaf_node_params,
                    path: derived.path,
                },
            ),
            (
                PathStage::Applied {
                    plain_path,
                    parent_keypairs,
                    commit_secret,
                    exclusion_list,
                    gc_extensions,
                },
                PathReply::Applied(Ok(keypairs)),
            ) => {
                let mut new_keypairs = keypairs;
                let mut parents = parent_keypairs;
                new_keypairs.append(&mut parents);
                PathStep::Next(
                    ComputePath {
                        leaf_index,
                        stage: PathStage::GroupContext {
                            plain_path,
                            new_keypairs,
                            commit_secret,
                            exclusion_list,
                        },
                    },
                    PathCommand::GroupContext { gc_extensions },
                )
            },
            (
                PathStage::GroupContext { plain_path, new_keypairs, commit_secret, exclusion_list },
                PathReply::GroupContext(Ok(group_context)),
            ) => PathStep::Next(
                ComputePath {
                    leaf_index,
                    stage: PathStage::Copath {
                        plain_path,
                        new_keypairs,
                        commit_secret,
                        group_context,
                    },
                },
                PathCommand::CopathResolutions { leaf_index, exclusion_list },
            ),
            (
                PathStage::Copath { plain_path, new_keypairs, commit_secret, group_context },
                PathReply::CopathResolutions(resolutions),
            ) => {
                let keys = copath_keys(&resolutions);
                let command = PathCommand::Encrypt {
                    plain_path: copy_byte_strings(&plain_path),
                    group_context,
                    keys,
                };
                PathStep::Next(
                    ComputePath {
                        leaf_index,
                        stage: PathStage::Encrypted { plain_path, new_keypairs, commit_secret },
                    },
                    command,
                )
            },
            (
                PathStage::Encrypted { plain_path, new_keypairs, commit_secret },
                PathReply::Encrypted(Ok(nodes)),
            ) => PathStep::Next(
                ComputePath {
                    leaf_index,
                    stage: PathStage::OwnLeaf { plain_path, new_keypairs, commit_secret, nodes },
                },
                PathCommand::OwnLeaf { leaf_index },
            ),
            (
                PathStage::OwnLeaf { plain_path, new_keypairs, commit_secret, nodes },
                PathReply::OwnLeaf(Some(leaf_node)),
            ) => PathStep::Done(
                Ok(
                    PathComputationResult {
                        commit_secret: Some(commit_secret),
                        encrypted_path: Some(UpdatePath { leaf_node, nodes }),
                        plain_path: Some(plain_path),
                        new_keypairs,
                    },
                ),
            ),
            (_, PathReply::DirectPath(Err(e))) => PathStep::Done(Err(LibraryError::Tree(e))),
            (_, PathReply::Derived(Err(e))) => PathStep::Done(Err(LibraryError::Tree(e))),
            (_, PathReply::Applied(Err(e))) => PathStep::Done(Err(LibraryError::Tree(e))),
            (_, PathReply::GroupContext(Err(ContextError::Update(e)))) => PathStep::Done(
                Err(LibraryError::Tree(e)),
            ),
            (_, PathReply::GroupContext(Err(ContextError::Serialisation))) => PathStep::Done(
                Err(LibraryError::MissingBoundCheck),
            ),
            (_, PathReply::Encrypted(Err(e))) => PathStep::Done(Err(LibraryError::Tree(e))),
            (_, PathReply::OwnLeaf(None)) => PathStep::Done(
                Err(LibraryError::Custom("Couldn't find own leaf".to_owned())),
            ),
            _ => unreached(),
        }
    }
}

/// A computation whose every command succeeds ends with the derived secrets and plain
/// path, the own key pairs before those of the parents, and the committer's new leaf on
/// top of nodes that were encrypted to the keys of the copath.
pub proof fn finished_path_holds_what_was_gathered(
    c: Seq<ComputePath>,
    k: Seq<PathCommand>,
    end: PathStep,
    path_indices: Vec<u32>,
    derived: DerivedPath,
    keypairs: Vec<Vec<u8>>,
    group_context: Vec<u8>,
    resolutions: Vec<Vec<NodeReference>>,
    nodes: Vec<UpdatePathNode>,
    leaf: LeafNode,
)
    requires
        c.len() == 7,
        k.len() == 6,
        c[0].stage is DirectPath,
        c[0].followed_by(PathReply::DirectPath(Ok(path_indices)), PathStep::Next(c[1], k[0])),
        c[1].followed_by(PathReply::Derived(Ok(derived)), PathStep::Next(c[2], k[1])),
        c[2].followed_by(PathReply::Applied(Ok(keypairs)), PathStep::Next(c[3], k[2])),
        c[3].followed_by(PathReply::GroupContext(Ok(group_context)), PathStep::Next(c[4], k[3])),
        c[4].followed_by(PathReply::CopathResolutions(resolutions), PathStep::Next(c[5], k[4])),
        c[5].followed_by(PathReply::Encrypted(Ok(nodes)), PathStep::Next(c[6], k[5])),
        c[6].followed_by(PathReply::OwnLeaf(Some(leaf)), end),
    ensures
        end matches PathStep::Done(Ok(result)) && {
            &&& result.commit_secret == Some(derived.commit_secret)
            &&& result.plain_path == Some(derived.plain_path)
            &&& result.new_keypairs@ == keypairs@ + derived.parent_keypairs@
            &&& result.encrypted_path == Some(UpdatePath { leaf_node: leaf, nodes })
        },
        k[1] matches PathCommand::Apply { leaf_node_params, path, .. } && path == derived.path
            && c[0].stage->DirectPath_leaf_node_params == leaf_node_params,
        k[4] matches PathCommand::Encrypt { plain_path, group_context: g, keys } && byte_strings(
            plain_path@,
        ) == byte_strings(derived.plain_path@) && g == group_context && keys_of(
            resolutions@,
            keys@,
        ),
{
}

/// How many nodes the resolutions of a copath hold together.
pub open spec fn resolved_nodes(resolutions: Seq<Vec<NodeReference>>) -> nat
    decreases resolutions.len(),
{
    if resolutions.len() == 0 {
        0
    } else {
        resolved_nodes(resolutions.drop_last()) + resolutions.last()@.len()
    }
}

/// The path secret of each node was encrypted once to each of the keys for it.
pub open spec fn encrypted_to_all(nodes: Seq<UpdatePathNode>, keys: Seq<Vec<Vec<u8>>>) -> bool {
    &&& nodes.len() == keys.len()
    &&& forall|i: int|
        0 <= i < nodes.len() ==> (#[trigger] nodes[i]).encrypted_path_secrets@.len()
            == keys[i]@.len()
}

proof fn ciphertexts_match_keys(
    nodes: Seq<UpdatePathNode>,
    keys: Seq<Vec<Vec<u8>>>,
    resolutions: Seq<Vec<NodeReference>>,
)
    requires
        encrypted_to_all(nodes, keys),
        keys_of(resolutions, keys),
    ensures
        ciphertexts(nodes) == resolved_nodes(resolutions),
    decreases nodes.len(),
{
    if nodes.len() > 0 {
        let n = nodes.len() - 1;
        let (nodes_before, keys_before) = (nodes.drop_last(), keys.drop_last());
        let resolutions_before = resolutions.drop_last();
        assert forall|i: int| 0 <= i < nodes_before.len() implies (
        #[trigger] nodes_before[i]).encrypted_path_secrets@.len() == keys_before[i]@.len() by {
            assert(nodes_before[i] == nodes[i]);
        }
        assert forall|i: int| 0 <= i < keys_before.len() implies #[trigger] byte_strings(
            keys_before[i]@,
        ) == resolutions_before[i]@.map_values(|node: NodeReference| node_key(node)) by {
            assert(keys_before[i] == keys[i]);
        }
        ciphertexts_match_keys(nodes_before, keys_before, resolutions_before);
        assert(nodes[n].encrypted_path_secrets@.len() == keys[n]@.len());
        assert(byte_strings(keys[n]@).len() == keys[n]@.len());
        assert(byte_strings(keys[n]@) == resolutions[n]@.map_values(
            |node: NodeReference| node_key(node),
        ));
    }
}

/// If the path secrets were encrypted once to each key that was handed over for that, a
/// finished path holds one ciphertext for each node in the resolutions of the copath, which
/// were asked for with the committer's leaf and the leaves to be left out.
pub proof fn ciphertexts_follow_the_copath(
    c: Seq<ComputePath>,
    k: Seq<PathCommand>,
    end: PathStep,
    path_indices: Vec<u32>,
    derived: DerivedPath,
    keypairs: Vec<Vec<u8>>,
    group_context: Vec<u8>,
    resolutions: Vec<Vec<NodeReference>>,
    nodes: Vec<UpdatePathNode>,
    leaf: LeafNode,
    r: Result<usize, LibraryError>,
)
    requires
        c.len() == 7,
        k.len() == 6,
        c[0].stage is DirectPath,
        c[0].followed_by(PathReply::DirectPath(Ok(path_indices)), PathStep::Next(c[1], k[0])),
        c[1].followed_by(PathReply::Derived(Ok(derived)), PathStep::Next(c[2], k[1])),
        c[2].followed_by(PathReply::Applied(Ok(keypairs)), PathStep::Next(c[3], k[2])),
        c[3].followed_by(PathReply::GroupContext(Ok(group_context)), PathStep::Next(c[4], k[3])),
        c[4].followed_by(PathReply::CopathResolutions(resolutions), PathStep::Next(c[5], k[4])),
        k[4] matches PathCommand::Encrypt { keys, .. } && encrypted_to_all(nodes@, keys@),
        c[5].followed_by(PathReply::Encrypted(Ok(nodes)), PathStep::Next(c[6], k[5])),
        c[6].followed_by(PathReply::OwnLeaf(Some(leaf)), end),
        end matches PathStep::Done(Ok(result)) && result.counts(r),
    ensures
        k[3] == (PathCommand::CopathResolutions {
            leaf_index: c[0].leaf_index,
            exclusion_list: c[0].stage->DirectPath_inputs.exclusion_list,
        }),
        r matches Ok(n) && n == resolved_nodes(resolutions@),
{
    let keys = k[4]->keys;
    ciphertexts_match_keys(nodes@, keys@, resolutions@);
}

} // verus!
