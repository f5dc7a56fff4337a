//! What computing the update path of a commit does, from the asking for it to its end.
use crate::compute_path::{
    copath_keys, CommitType, ComputePath, ContextError, DerivedPath, LeafNode,
    LeafNodeParameters, LibraryError, NodeReference, PathCommand, PathComputationResult, PathReply,
    PathStep, UpdateLeafNodeParams, UpdatePath, UpdatePathNode,
};
use vstd::prelude::*;

verus! {

/// The keys are those of the nodes of the resolutions, one for each, in order.
pub open spec fn holds_the_keys(resolutions: Seq<Vec<NodeReference>>, keys: Seq<Vec<Vec<u8>>>) -> bool {
    &&& keys.len() == resolutions.len()
    &&& forall|i: int|
        0 <= i < keys.len() ==> (#[trigger] keys[i])@.len() == resolutions[i]@.len()
    &&& forall|i: int, j: int|
        0 <= i < keys.len() && 0 <= j < keys[i]@.len() ==> (#[trigger] keys[i]@[j])@
            == match resolutions[i]@[j] {
            NodeReference::Leaf(leaf) => leaf.encryption_key@,
            NodeReference::Parent(parent) => parent.encryption_key@,
        }
}

proof fn keys_are_held(resolutions: Seq<Vec<NodeReference>>, keys: Seq<Vec<Vec<u8>>>)
    requires
        crate::compute_path::keys_of(resolutions, keys),
    ensures
        holds_the_keys(resolutions, keys),
{
    assert forall|i: int| 0 <= i < keys.len() implies (#[trigger] keys[i])@.len()
        == resolutions[i]@.len() by {
        let bytes = crate::text::byte_strings(keys[i]@);
        assert(bytes.len() == keys[i]@.len());
    }
    assert forall|i: int, j: int| 0 <= i < keys.len() && 0 <= j < keys[i]@.len() implies (
    #[trigger] keys[i]@[j])@ == match resolutions[i]@[j] {
        NodeReference::Leaf(leaf) => leaf.encryption_key@,
        NodeReference::Parent(parent) => parent.encryption_key@,
    } by {
        let bytes = crate::text::byte_strings(keys[i]@);
        assert(bytes[j] == keys[i]@[j]@);
        assert(keys[i]@.len() == resolutions[i]@.len());
    }
}

/// The keys of the copath are those of its nodes.
pub proof fn copath_keys_are_those_of_its_nodes(
    resolutions: Vec<Vec<NodeReference>>,
    r: Vec<Vec<Vec<u8>>>,
)
    requires
        call_ensures(copath_keys, (&resolutions,), r),
    ensures
        holds_the_keys(resolutions@, r@),
{
    keys_are_held(resolutions@, r@);
}

/// The new leaf of a committer from outside holds the credential it commits with, that of a
/// member the one it asks for or else that of its leaf. Capabilities and extensions are those
/// asked for; else they come from the defaults for a committer from outside and from the leaf
/// for a member.
pub open spec fn is_new_leaf(
    params: UpdateLeafNodeParams,
    commit_type: CommitType,
    own_leaf: Option<LeafNode>,
    asked: LeafNodeParameters,
    default_capabilities: Vec<u8>,
    default_extensions: Vec<u8>,
) -> bool {
    &&& commit_type matches CommitType::External(given) ==> params.credential_with_key == given
    &&& commit_type is Member && asked.credential_with_key is Some ==> Some(
        params.credential_with_key,
    ) == asked.credential_with_key
    &&& commit_type is Member && asked.credential_with_key is None ==> (own_leaf matches Some(leaf)
        && params.credential_with_key.credential == leaf.credential
        && params.credential_with_key.signature_key == leaf.signature_key)
    &&& asked.capabilities matches Some(c) ==> params.capabilities == c
    &&& asked.extensions matches Some(e) ==> params.extensions == e
    &&& asked.capabilities is None && commit_type is External ==> params.capabilities
        == default_capabilities
    &&& asked.extensions is None && commit_type is External ==> params.extensions
        == default_extensions
    &&& asked.capabilities is None && commit_type is Member ==> (own_leaf matches Some(leaf)
        && params.capabilities == leaf.capabilities)
    &&& asked.extensions is None && commit_type is Member ==> (own_leaf matches Some(leaf)
        && params.extensions == leaf.extensions)
}

/// A path is begun for every committer but a member without a leaf. All that the tree is asked
/// for along the way concerns the committer's leaf. If each command succeeds, the tree is
/// asked in turn for the direct path (with a placeholder first for a committer from outside),
/// for the path along it, to take in that path and the new leaf, for the context with the
/// given extensions, for the copath without the given leaves, and for the secrets encrypted
/// to the keys of that copath. The finished path holds what came of it: the secret and the
/// plain path that were derived, the own key pairs before those of the parents, and the
/// encrypted nodes under the committer's leaf.
pub proof fn finished_paths_hold_what_the_tree_made(
    leaf_index: u32,
    commit_type: CommitType,
    own_leaf: Option<LeafNode>,
    asked: LeafNodeParameters,
    default_capabilities: Vec<u8>,
    default_extensions: Vec<u8>,
    exclusion_list: Vec<u32>,
    gc_extensions: Option<Vec<u8>>,
    c: Seq<ComputePath>,
    k: Seq<PathCommand>,
    end: PathStep,
    path_indices: Vec<u32>,
    derived: DerivedPath,
    keypairs: Vec<Vec<u8>>,
    group_context: Vec<u8>,
    resolutions: Vec<Vec<NodeReference>>,
    nodes: Vec<UpdatePathNode>,
    leaf: LeafNode,
)
    requires
        c.len() == 7,
        k.len() == 7,
        call_ensures(
            ComputePath::compute_path,
            (
                leaf_index,
                commit_type,
                own_leaf,
                asked,
                default_capabilities,
                default_extensions,
                exclusion_list,
                gc_extensions,
            ),
            PathStep::Next(c[0], k[0]),
        ),
        call_ensures(
            ComputePath::step,
            (c[0], PathReply::DirectPath(Ok(path_indices))),
            PathStep::Next(c[1], k[1]),
        ),
        call_ensures(
            ComputePath::step,
            (c[1], PathReply::Derived(Ok(derived))),
            PathStep::Next(c[2], k[2]),
        ),
        call_ensures(
            ComputePath::step,
            (c[2], PathReply::Applied(Ok(keypairs))),
            PathStep::Next(c[3], k[3]),
        ),
        call_ensures(
            ComputePath::step,
            (c[3], PathReply::GroupContext(Ok(group_context))),
            PathStep::Next(c[4], k[4]),
        ),
        call_ensures(
            ComputePath::step,
            (c[4], PathReply::CopathResolutions(resolutions)),
            PathStep::Next(c[5], k[5]),
        ),
        call_ensures(
            ComputePath::step,
            (c[5], PathReply::Encrypted(Ok(nodes))),
            PathStep::Next(c[6], k[6]),
        ),
        call_ensures(ComputePath::step, (c[6], PathReply::OwnLeaf(Some(leaf))), end),
    ensures
        k[0] matches PathCommand::DirectPath { add_placeholder, leaf_index: l } && l == leaf_index
            && (add_placeholder <==> commit_type is External),
        k[1] matches PathCommand::Derive { path_indices: p } && p@ == path_indices@,
        k[2] matches PathCommand::Apply { external, leaf_index: l, leaf_node_params, path } && {
            &&& external <==> commit_type is External
            &&& l == leaf_index
            &&& path == derived.path
            &&& is_new_leaf(
                leaf_node_params,
                commit_type,
                own_leaf,
                asked,
                default_capabilities,
                default_extensions,
            )
        },
        k[3] matches PathCommand::GroupContext { gc_extensions: g } && g == gc_extensions,
        k[4] matches PathCommand::CopathResolutions { leaf_index: l, exclusion_list: x } && l
            == leaf_index && x@ == exclusion_list@,
        k[5] matches PathCommand::Encrypt { plain_path, group_context: g, keys } && {
            &&& plain_path@.len() == derived.plain_path@.len()
            &&& forall|i: int|
                0 <= i < plain_path@.len() ==> (#[trigger] plain_path@[i])@
                    == derived.plain_path@[i]@
            &&& g@ == group_context@
            &&& holds_the_keys(resolutions@, keys@)
        },
        k[6] matches PathCommand::OwnLeaf { leaf_index: l } && l == leaf_index,
        end matches PathStep::Done(Ok(result)) && {
            &&& result.commit_secret == Some(derived.commit_secret)
            &&& result.plain_path == Some(derived.plain_path)
            &&& result.new_keypairs@ == keypairs@ + derived.parent_keypairs@
            &&& result.encrypted_path matches Some(path) && path.leaf_node == leaf && path.nodes
                == nodes
        },
{
    let keys = k[5]->keys;
    keys_are_held(resolutions@, keys@);
    let handed = k[5]->Encrypt_plain_path;
    let a = handed@.map_values(|b: Vec<u8>| b@);
    let b = derived.plain_path@.map_values(|b: Vec<u8>| b@);
    assert(a == b);
    assert(a.len() == handed@.len() && b.len() == derived.plain_path@.len());
    assert forall|i: int| 0 <= i < handed@.len() implies (#[trigger] handed@[i])@
        == derived.plain_path@[i]@ by {
        assert(a[i] == handed@[i]@ && b[i] == derived.plain_path@[i]@);
    }
}

/// A path is refused at once exactly for a member whose leaf is not in the tree.
pub proof fn paths_need_a_leaf(
    leaf_index: u32,
    commit_type: CommitType,
    own_leaf: Option<LeafNode>,
    asked: LeafNodeParameters,
    default_capabilities: Vec<u8>,
    default_extensions: Vec<u8>,
    exclusion_list: Vec<u32>,
    gc_extensions: Option<Vec<u8>>,
    r: PathStep,
)
    requires
        call_ensures(
            ComputePath::compute_path,
            (
                leaf_index,
                commit_type,
                own_leaf,
                asked,
                default_capabilities,
                default_extensions,
                exclusion_list,
                gc_extensions,
            ),
            r,
        ),
    ensures
        r is Done <==> commit_type is Member && own_leaf is None,
        r matches PathStep::Done(done) ==> (done matches Err(LibraryError::Custom(text)) && text@
            == "Couldn't find own leaf"@),
{
}

/// The reply is one to the command that a computation waits for.
pub open spec fn answers(c: ComputePath, reply: PathReply) -> bool {
    match reply {
        PathReply::DirectPath(_) => c.stage is DirectPath,
        PathReply::Derived(_) => c.stage is Derived,
        PathReply::Applied(_) => c.stage is Applied,
        PathReply::GroupContext(_) => c.stage is GroupContext,
        PathReply::CopathResolutions(_) => c.stage is Copath,
        PathReply::Encrypted(_) => c.stage is Encrypted,
        PathReply::OwnLeaf(_) => c.stage is OwnLeaf,
    }
}

/// A command that fails ends the computation with its error, whichever it is.
pub proof fn failures_end_the_computation(c: ComputePath, reply: PathReply, r: PathStep)
    requires
        answers(c, reply),
        call_ensures(ComputePath::step, (c, reply), r),
    ensures
        match reply {
            PathReply::DirectPath(Err(e)) => r matches PathStep::Done(Err(LibraryError::Tree(text)))
                && text == e,
            PathReply::Derived(Err(e)) => r matches PathStep::Done(Err(LibraryError::Tree(text)))
                && text == e,
            PathReply::Applied(Err(e)) => r matches PathStep::Done(Err(LibraryError::Tree(text)))
                && text == e,
            PathReply::GroupContext(Err(ContextError::Update(e))) => r matches PathStep::Done(
                Err(LibraryError::Tree(text)),
            ) && text == e,
            PathReply::GroupContext(Err(ContextError::Serialisation)) => r matches PathStep::Done(
                Err(LibraryError::MissingBoundCheck),
            ),
            PathReply::Encrypted(Err(e)) => r matches PathStep::Done(Err(LibraryError::Tree(text)))
                && text == e,
            PathReply::OwnLeaf(None) => r matches PathStep::Done(Err(LibraryError::Custom(text)))
                && text@ == "Couldn't find own leaf"@,
            PathReply::OwnLeaf(Some(_)) => r matches PathStep::Done(Ok(_)),
            _ => r is Next,
        },
{
}

/// A path without nodes has no ciphertexts, and one more node brings as many as it holds. A
/// result has as many as its path, and without a path that is an error.
pub proof fn ciphertexts_are_counted_by_node(
    path: UpdatePath,
    more: UpdatePath,
    node: UpdatePathNode,
    n: usize,
    m: usize,
    result: PathComputationResult,
    r: Result<usize, LibraryError>,
)
    requires
        more.nodes@ == path.nodes@.push(node),
        call_ensures(UpdatePath::number_of_ciphertexts, (&path,), n),
        call_ensures(UpdatePath::number_of_ciphertexts, (&more,), m),
        call_ensures(PathComputationResult::number_of_ciphertexts, (&result,), r),
        result.encrypted_path matches Some(p) ==> p == more,
    ensures
        path.nodes@.len() == 0 ==> n == 0,
        m == n + node.encrypted_path_secrets@.len(),
        result.encrypted_path is Some ==> (r matches Ok(count) && count == m),
        result.encrypted_path is None ==> (r matches Err(LibraryError::Custom(text)) && text@
            == "No encrypted path found"@),
{
    assert(more.nodes@.drop_last() =~= path.nodes@);
}

/// The time of a command is recorded under the part of the work that it belongs to.
pub proof fn commands_are_timed(c: PathCommand, r: Option<&'static str>)
    requires
        call_ensures(PathCommand::timed_under, (&c,), r),
    ensures
        match c {
            PathCommand::DirectPath { .. } => r matches Some(key) && key@ == "tree"@,
            PathCommand::Derive { .. } => r matches Some(key) && key@ == "path"@,
            PathCommand::GroupContext { .. } => r matches Some(key) && key@ == "tree"@,
            PathCommand::CopathResolutions { .. } => r matches Some(key) && key@ == "tree"@,
            PathCommand::Encrypt { .. } => r matches Some(key) && key@ == "encrypt_path"@,
            PathCommand::Apply { .. } => r is None,
            PathCommand::OwnLeaf { .. } => r is None,
        },
{
}

/// The nodes have the same key and the same ciphertexts.
pub open spec fn alike(p: UpdatePathNode, q: UpdatePathNode) -> bool {
    &&& p.public_key@ == q.public_key@
    &&& p.encrypted_path_secrets@.len() == q.encrypted_path_secrets@.len()
    &&& forall|i: int|
        0 <= i < p.encrypted_path_secrets@.len() ==> (#[trigger] p.encrypted_path_secrets@[i])@
            == q.encrypted_path_secrets@[i]@
}

/// An empty result holds nothing, and the copy of a result holds the same as the result.
pub proof fn copied_results_hold_the_same(
    empty: PathComputationResult,
    result: PathComputationResult,
    copy: PathComputationResult,
)
    requires
        call_ensures(PathComputationResult::default, (), empty),
        call_ensures(PathComputationResult::clone, (&result,), copy),
    ensures
        empty.commit_secret is None && empty.encrypted_path is None && empty.plain_path is None,
        empty.new_keypairs@.len() == 0,
        copy.commit_secret is Some <==> result.commit_secret is Some,
        copy.commit_secret matches Some(s) ==> s@ == result.commit_secret->Some_0@,
        copy.encrypted_path is Some <==> result.encrypted_path is Some,
        copy.encrypted_path matches Some(p) ==> {
            let q = result.encrypted_path->Some_0;
            &&& p.leaf_node.encryption_key@ == q.leaf_node.encryption_key@
            &&& p.leaf_node.credential@ == q.leaf_node.credential@
            &&& p.leaf_node.signature_key@ == q.leaf_node.signature_key@
            &&& p.leaf_node.capabilities@ == q.leaf_node.capabilities@
            &&& p.leaf_node.extensions@ == q.leaf_node.extensions@
            &&& p.nodes@.len() == q.nodes@.len()
            &&& forall|i: int|
                0 <= i < p.nodes@.len() ==> alike(#[trigger] p.nodes@[i], q.nodes@[i])
        },
        copy.plain_path is Some <==> result.plain_path is Some,
        copy.plain_path matches Some(p) ==> {
            let q = result.plain_path->Some_0;
            p@.len() == q@.len() && forall|i: int|
                0 <= i < p@.len() ==> (#[trigger] p@[i])@ == q@[i]@
        },
        copy.new_keypairs@.len() == result.new_keypairs@.len(),
        forall|i: int|
            0 <= i < copy.new_keypairs@.len() ==> (#[trigger] copy.new_keypairs@[i])@
                == result.new_keypairs@[i]@,
{
    same_bytes_one_by_one(copy.new_keypairs@, result.new_keypairs@);
    if let Some(p) = copy.plain_path {
        same_bytes_one_by_one(p@, result.plain_path->Some_0@);
    }
    if let Some(p) = copy.encrypted_path {
        let q = result.encrypted_path->Some_0;
        assert forall|i: int| 0 <= i < p.nodes@.len() implies alike(
            #[trigger] p.nodes@[i],
            q.nodes@[i],
        ) by {
            assert(p.nodes@[i].content() == q.nodes@[i].content());
            same_bytes_one_by_one(
                p.nodes@[i].encrypted_path_secrets@,
                q.nodes@[i].encrypted_path_secrets@,
            );
        }
    }
}

/// Lists of byte strings that hold the same hold it one by one.
pub proof fn same_bytes_one_by_one(a: Seq<Vec<u8>>, b: Seq<Vec<u8>>)
    requires
        crate::text::byte_strings(a) == crate::text::byte_strings(b),
    ensures
        a.len() == b.len(),
        forall|i: int| 0 <= i < a.len() ==> (#[trigger] a[i])@ == b[i]@,
{
    let (p, q) = (crate::text::byte_strings(a), crate::text::byte_strings(b));
    assert(p.len() == a.len() && q.len() == b.len());
    assert forall|i: int| 0 <= i < a.len() implies (#[trigger] a[i])@ == b[i]@ by {
        assert(p[i] == a[i]@ && q[i] == b[i]@);
    }
}

} // verus!
