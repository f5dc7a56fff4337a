use emulated_client::compute_path::{
    copath_keys, CommitType, ComputePath, ContextError, CredentialWithKey, DerivedPath, LeafNode,
    LeafNodeParameters, LibraryError, NodeReference, ParentNode, PathCommand,
    PathComputationResult, PathReply, PathStep, UpdatePath, UpdatePathNode,
};

fn leaf(key: u8) -> LeafNode {
    LeafNode {
        encryption_key: vec![key],
        credential: vec![1, key],
        signature_key: vec![2, key],
        capabilities: vec![3, key],
        extensions: vec![4, key],
    }
}

fn open_params() -> LeafNodeParameters {
    LeafNodeParameters { credential_with_key: None, capabilities: None, extensions: None }
}

fn start(commit_type: CommitType, own: Option<LeafNode>, params: LeafNodeParameters) -> PathStep {
    ComputePath::compute_path(
        5,
        commit_type,
        own,
        params,
        vec![70],
        vec![71],
        vec![8, 9],
        Some(vec![60]),
    )
}

fn next(step: PathStep) -> (ComputePath, PathCommand) {
    match step {
        PathStep::Next(c, k) => (c, k),
        PathStep::Done(_) => panic!("the computation has ended"),
    }
}

fn error(step: PathStep) -> LibraryError {
    match step {
        PathStep::Done(Err(e)) => e,
        _ => panic!("no error"),
    }
}

fn derived() -> DerivedPath {
    DerivedPath {
        path: vec![vec![20]],
        plain_path: vec![vec![21], vec![22]],
        parent_keypairs: vec![vec![23]],
        commit_secret: vec![24],
    }
}

fn at_applied() -> ComputePath {
    let (c, _) = next(start(CommitType::Member, Some(leaf(0)), open_params()));
    let (c, _) = next(c.step(PathReply::DirectPath(Ok(vec![1, 3]))));
    next(c.step(PathReply::Derived(Ok(derived())))).0
}

#[test]
fn a_member_without_a_leaf_has_no_path() {
    match error(start(CommitType::Member, None, open_params())) {
        LibraryError::Custom(text) => assert_eq!(text, "Couldn't find own leaf"),
        _ => panic!("another error"),
    }
}

#[test]
fn a_member_keeps_what_its_leaf_holds() {
    let (c, k) = next(start(CommitType::Member, Some(leaf(7)), open_params()));
    assert!(matches!(k, PathCommand::DirectPath { add_placeholder: false, leaf_index: 5 }));
    assert_eq!(k.timed_under(), Some("tree"));
    let (c, k) = next(c.step(PathReply::DirectPath(Ok(vec![1, 3]))));
    assert!(matches!(&k, PathCommand::Derive { path_indices } if *path_indices == vec![1, 3]));
    assert_eq!(k.timed_under(), Some("path"));
    let (_, k) = next(c.step(PathReply::Derived(Ok(derived()))));
    assert_eq!(k.timed_under(), None);
    match k {
        PathCommand::Apply { external, leaf_index, leaf_node_params, path } => {
            assert!(!external);
            assert_eq!(leaf_index, 5);
            assert_eq!(leaf_node_params.credential_with_key.credential, vec![1, 7]);
            assert_eq!(leaf_node_params.credential_with_key.signature_key, vec![2, 7]);
            assert_eq!(leaf_node_params.capabilities, vec![3, 7]);
            assert_eq!(leaf_node_params.extensions, vec![4, 7]);
            assert_eq!(path, vec![vec![20]]);
        }
        _ => panic!("another command"),
    }
}

#[test]
fn asked_parameters_come_first() {
    let params = LeafNodeParameters {
        credential_with_key: Some(CredentialWithKey {
            credential: vec![30],
            signature_key: vec![31],
        }),
        capabilities: Some(vec![32]),
        extensions: Some(vec![33]),
    };
    let (c, _) = next(start(CommitType::Member, Some(leaf(7)), params));
    let (c, _) = next(c.step(PathReply::DirectPath(Ok(vec![]))));
    let (_, k) = next(c.step(PathReply::Derived(Ok(derived()))));
    match k {
        PathCommand::Apply { leaf_node_params, .. } => {
            assert_eq!(leaf_node_params.credential_with_key.credential, vec![30]);
            assert_eq!(leaf_node_params.capabilities, vec![32]);
            assert_eq!(leaf_node_params.extensions, vec![33]);
        }
        _ => panic!("another command"),
    }
}

#[test]
fn an_external_committer_brings_its_credential() {
    let external = CommitType::External(CredentialWithKey {
        credential: vec![40],
        signature_key: vec![41],
    });
    let (c, k) = next(start(external, None, open_params()));
    assert!(matches!(k, PathCommand::DirectPath { add_placeholder: true, .. }));
    let (c, _) = next(c.step(PathReply::DirectPath(Ok(vec![]))));
    let (_, k) = next(c.step(PathReply::Derived(Ok(derived()))));
    match k {
        PathCommand::Apply { external, leaf_node_params, .. } => {
            assert!(external);
            assert_eq!(leaf_node_params.credential_with_key.credential, vec![40]);
            assert_eq!(leaf_node_params.capabilities, vec![70]);
            assert_eq!(leaf_node_params.extensions, vec![71]);
        }
        _ => panic!("another command"),
    }
}

#[test]
fn a_finished_path_holds_what_was_gathered() {
    let c = at_applied();
    let (c, k) = next(c.step(PathReply::Applied(Ok(vec![vec![50]]))));
    assert_eq!(k.timed_under(), Some("tree"));
    assert!(matches!(k, PathCommand::GroupContext { gc_extensions: Some(e) } if e == vec![60]));
    let (c, k) = next(c.step(PathReply::GroupContext(Ok(vec![61]))));
    assert_eq!(k.timed_under(), Some("tree"));
    assert!(matches!(
        k,
        PathCommand::CopathResolutions { leaf_index: 5, exclusion_list } if exclusion_list == vec![8, 9]
    ));
    let resolutions = vec![
        vec![NodeReference::Leaf(leaf(1)), NodeReference::Parent(ParentNode { encryption_key: vec![2] })],
        vec![],
    ];
    let (c, k) = next(c.step(PathReply::CopathResolutions(resolutions)));
    assert_eq!(k.timed_under(), Some("encrypt_path"));
    match k {
        PathCommand::Encrypt { plain_path, group_context, keys } => {
            assert_eq!(plain_path, vec![vec![21], vec![22]]);
            assert_eq!(group_context, vec![61]);
            assert_eq!(keys, vec![vec![vec![1], vec![2]], vec![]]);
        }
        _ => panic!("another command"),
    }
    let nodes = vec![
        UpdatePathNode { public_key: vec![1], encrypted_path_secrets: vec![vec![1], vec![2]] },
        UpdatePathNode { public_key: vec![2], encrypted_path_secrets: vec![vec![3]] },
    ];
    let (c, k) = next(c.step(PathReply::Encrypted(Ok(nodes))));
    assert_eq!(k.timed_under(), None);
    assert!(matches!(k, PathCommand::OwnLeaf { leaf_index: 5 }));
    match c.step(PathReply::OwnLeaf(Some(leaf(9)))) {
        PathStep::Done(Ok(result)) => {
            assert!(matches!(result.number_of_ciphertexts(), Ok(3)));
            assert_eq!(result.commit_secret, Some(vec![24]));
            assert_eq!(result.plain_path, Some(vec![vec![21], vec![22]]));
            assert_eq!(result.new_keypairs, vec![vec![50], vec![23]]);
            assert_eq!(result.encrypted_path.unwrap().leaf_node.encryption_key, vec![9]);
        }
        _ => panic!("the computation has not ended"),
    }
}

#[test]
fn a_failure_of_the_tree_ends_the_computation() {
    let (c, _) = next(start(CommitType::Member, Some(leaf(0)), open_params()));
    match error(c.step(PathReply::DirectPath(Err("full".to_string())))) {
        LibraryError::Tree(text) => assert_eq!(text, "full"),
        _ => panic!("another error"),
    }
    match error(at_applied().step(PathReply::Applied(Err("no".to_string())))) {
        LibraryError::Tree(text) => assert_eq!(text, "no"),
        _ => panic!("another error"),
    }
}

#[test]
fn a_context_can_fail_in_two_ways() {
    let at_context = || next(at_applied().step(PathReply::Applied(Ok(vec![])))).0;
    assert!(matches!(
        error(at_context().step(PathReply::GroupContext(Err(ContextError::Serialisation)))),
        LibraryError::MissingBoundCheck
    ));
    assert!(matches!(
        error(at_context().step(PathReply::GroupContext(Err(ContextError::Update("u".to_string()))))),
        LibraryError::Tree(text) if text == "u"
    ));
}

#[test]
fn a_lost_leaf_is_an_error_at_the_end() {
    let (c, _) = next(at_applied().step(PathReply::Applied(Ok(vec![]))));
    let (c, _) = next(c.step(PathReply::GroupContext(Ok(vec![]))));
    let (c, _) = next(c.step(PathReply::CopathResolutions(vec![])));
    let (c, _) = next(c.step(PathReply::Encrypted(Ok(vec![]))));
    assert!(matches!(
        error(c.step(PathReply::OwnLeaf(None))),
        LibraryError::Custom(text) if text == "Couldn't find own leaf"
    ));
}

#[test]
fn a_result_without_a_path_has_no_ciphertexts() {
    let empty = PathComputationResult::default();
    assert!(empty.commit_secret.is_none() && empty.plain_path.is_none());
    assert!(matches!(
        empty.number_of_ciphertexts(),
        Err(LibraryError::Custom(text)) if text == "No encrypted path found"
    ));
    let path = UpdatePath { leaf_node: leaf(1), nodes: vec![] };
    assert_eq!(path.number_of_ciphertexts(), 0);
    assert_eq!(copath_keys(&vec![]), Vec::<Vec<Vec<u8>>>::new());
}

#[test]
fn each_copath_node_gets_one_ciphertext() {
    let (c, _) = next(at_applied().step(PathReply::Applied(Ok(vec![]))));
    let (c, _) = next(c.step(PathReply::GroupContext(Ok(vec![]))));
    let resolutions = vec![
        vec![NodeReference::Leaf(leaf(1)), NodeReference::Leaf(leaf(2))],
        vec![],
        vec![NodeReference::Parent(ParentNode { encryption_key: vec![3] })],
    ];
    let (c, k) = next(c.step(PathReply::CopathResolutions(resolutions)));
    let nodes = match k {
        PathCommand::Encrypt { keys, .. } => keys
            .into_iter()
            .map(|keys| UpdatePathNode { public_key: vec![], encrypted_path_secrets: keys })
            .collect(),
        _ => panic!("another command"),
    };
    let (c, _) = next(c.step(PathReply::Encrypted(Ok(nodes))));
    match c.step(PathReply::OwnLeaf(Some(leaf(9)))) {
        PathStep::Done(Ok(result)) => assert!(matches!(result.number_of_ciphertexts(), Ok(3))),
        _ => panic!("the computation has not ended"),
    }
}

#[test]
fn a_copied_result_holds_the_same_path() {
    let node = UpdatePathNode { public_key: vec![5], encrypted_path_secrets: vec![vec![6], vec![7]] };
    let result = PathComputationResult {
        commit_secret: Some(vec![1]),
        encrypted_path: Some(UpdatePath { leaf_node: leaf(2), nodes: vec![node] }),
        plain_path: Some(vec![vec![3], vec![4]]),
        new_keypairs: vec![vec![8]],
    };
    let copy = result.clone();
    assert_eq!(copy.commit_secret, Some(vec![1]));
    assert_eq!(copy.plain_path, Some(vec![vec![3], vec![4]]));
    assert_eq!(copy.new_keypairs, vec![vec![8]]);
    assert!(matches!(copy.number_of_ciphertexts(), Ok(2)));
    let path = copy.encrypted_path.unwrap();
    assert_eq!(path.leaf_node.credential, vec![1, 2]);
    assert_eq!(path.nodes[0].public_key, vec![5]);
    assert_eq!(path.nodes[0].encrypted_path_secrets, vec![vec![6], vec![7]]);
    let empty = PathComputationResult::default().clone();
    assert!(empty.commit_secret.is_none() && empty.encrypted_path.is_none());
    assert!(empty.plain_path.is_none() && empty.new_keypairs.is_empty());
}
