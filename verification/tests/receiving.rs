use emulated_client::action::CGKAAction;
use emulated_client::conversation::Conversation;
use emulated_client::delivery::{BrokerCall, DeliveryService, Directory};
use emulated_client::inbox::{
    group_aad_bytes, InMessageStep, JoinError, JoinedGroup, MessageBody, MessageIn, Welcome,
    WelcomeIn,
};
use emulated_client::incoming::{
    independent_action, DecideNext, MergeStaged, PostUpdateActions, PostUpdateStep, ProcessMessage,
    ProcessedStep, ProtocolOutcome, ProtocolStep,
};
use emulated_client::mls::{
    AuthorizationPolicy, ContentType, Member, MessageDecryptionError, MlsState, NextAction,
    ProcessFailure, ProcessMessageError, ProcessedContent, ProcessedMessage, ProtocolMessage,
    StagedCommit, ValidationError,
};
use emulated_client::profiling::Profiler;
use emulated_client::record::{ActionRecord, EpochChange};
use emulated_client::table::Table;
use emulated_client::user::{AgentType, Group, User};

const GOSSIP: DeliveryService = DeliveryService::GossipSub(Directory::Server);

fn s(text: &str) -> String {
    text.to_string()
}

fn state(epoch: u64, names: &[&str]) -> MlsState {
    MlsState {
        group_id: b"g".to_vec(),
        epoch,
        own_leaf_index: 0,
        members: names
            .iter()
            .enumerate()
            .map(|(i, n)| Member { index: i as u32, identity: n.as_bytes().to_vec() })
            .collect(),
        pending_proposals: vec![],
        transcript_hash: vec![epoch as u8],
    }
}

fn user(orchestrated: bool) -> User {
    let mut user = User::new_independent(s("me"), GOSSIP);
    if orchestrated {
        let mut known = Table::new();
        known.insert(s("g"), vec![s("me")]);
        user.agent_type = AgentType::Orchestrator(known);
    }
    user.groups.insert(
        s("g"),
        Group {
            group_name: s("g"),
            conversation: Conversation::default(),
            mls_group: state(5, &["me", "ann", "bob"]),
        },
    );
    user.active.insert(s("g"), (true, 0));
    user
}

fn message(group: &str, epoch: u64, content_type: ContentType) -> ProtocolMessage {
    ProtocolMessage { group_id: group.as_bytes().to_vec(), epoch, content_type, bytes: vec![1] }
}

fn take_up(user: &mut User, epoch: u64, content_type: ContentType) -> ProtocolStep {
    user.process_protocol_message(&mut None, &message("g", epoch, content_type), s("ann"), 77)
}

fn record_of(step: ProtocolStep) -> Option<ActionRecord> {
    match step {
        ProtocolStep::Done(outcome) => {
            assert_eq!(outcome.post_update, PostUpdateActions::Nothing);
            assert!(outcome.group_id.is_none());
            outcome.record
        }
        ProtocolStep::Process(_) => panic!("the message is to be dropped or logged"),
    }
}

fn process(user: &mut User) -> ProcessMessage {
    match take_up(user, 5, ContentType::Commit) {
        ProtocolStep::Process(p) => p,
        ProtocolStep::Done(_) => panic!("the message is to be processed"),
    }
}

fn from_ann(content: ProcessedContent) -> Result<ProcessedMessage, ProcessMessageError> {
    Ok(ProcessedMessage { sender: b"ann".to_vec(), content })
}

fn failed(failure: ProcessFailure) -> Result<ProcessedMessage, ProcessMessageError> {
    Err(ProcessMessageError { failure, text: s("reason") })
}

fn commit(self_removed: bool) -> StagedCommit {
    StagedCommit {
        added: vec![b"eve".to_vec(), b"zoe".to_vec()],
        removed: vec![2],
        self_removed,
        transcript_hash: vec![42],
    }
}

fn merge(user: &mut User, self_removed: bool) -> MergeStaged {
    let p = process(user);
    let reply = from_ann(ProcessedContent::StagedCommitMessage(commit(self_removed)));
    match user.message_processed(p, reply) {
        Ok(ProcessedStep::Merge(m)) => m,
        _ => panic!("the commit is to be merged"),
    }
}

fn decide(user: &mut User, self_removed: bool) -> DecideNext {
    let m = merge(user, self_removed);
    user.staged_commit_merged(m, Ok(state(6, &["me", "ann", "eve", "zoe"]))).ok().unwrap().0
}

#[test]
fn a_message_of_an_unknown_group_is_dropped() {
    let mut user = user(false);
    let m = message("h", 5, ContentType::Commit);
    let mut prof = None;
    assert!(record_of(user.process_protocol_message(&mut prof, &m, s("ann"), 77)).is_none());
    assert!(prof.is_some());
}

#[test]
fn a_message_of_the_epoch_is_processed() {
    let mut user = user(false);
    for epoch in [3, 5] {
        match take_up(&mut user, epoch, ContentType::Application) {
            ProtocolStep::Process(p) => {
                assert_eq!((p.group_name.as_str(), p.sender.as_str()), ("g", "ann"));
                assert_eq!(p.group_epoch, 5);
                assert_eq!(p.epoch_change, EpochChange { timestamp: 77, epoch });
            }
            ProtocolStep::Done(_) => panic!("the message is to be processed"),
        }
    }
}

#[test]
fn later_application_messages_and_proposals_are_dropped() {
    let mut user = user(false);
    assert!(record_of(take_up(&mut user, 6, ContentType::Application)).is_none());
    assert!(record_of(take_up(&mut user, 6, ContentType::Proposal)).is_none());
    assert_eq!(user.active.get(&s("g")), Some(&(true, 0)));
}

#[test]
fn later_commits_put_the_user_out_of_step() {
    let mut user = user(false);
    let record = record_of(take_up(&mut user, 7, ContentType::Commit)).unwrap();
    assert_eq!(record.action, CGKAAction::Process(s("ann")));
    assert_eq!(record.epoch_change, EpochChange { timestamp: 77, epoch: 8 });
    assert_eq!((record.elapsed_time, record.num_users), (0, 0));
    assert_eq!(user.active.get(&s("g")), Some(&(false, 8)));
    assert_eq!(user.is_authorised(&s("g"), AuthorizationPolicy::Random), Ok(false));
    assert!(record_of(take_up(&mut user, 8, ContentType::Commit)).is_some());
    assert!(record_of(take_up(&mut user, 11, ContentType::Commit)).is_none());
    assert_eq!(user.active.get(&s("g")), Some(&(false, 12)));
}

#[test]
fn without_knowledge_a_later_commit_is_still_processed() {
    let mut user = user(false);
    user.active.remove(&s("g"));
    match take_up(&mut user, 6, ContentType::Commit) {
        ProtocolStep::Process(p) => assert_eq!(p.epoch_change.epoch, 7),
        ProtocolStep::Done(_) => panic!("the message is to be processed"),
    }
    assert_eq!(user.active.get(&s("g")), Some(&(false, 7)));
}

#[test]
fn races_between_commits_drop_the_message() {
    let undecrypted = ValidationError::UnableToDecrypt;
    for error in [
        ValidationError::WrongEpoch,
        undecrypted(MessageDecryptionError::AeadError),
        ValidationError::InvalidSignature,
        undecrypted(MessageDecryptionError::GenerationOutOfBound),
    ] {
        let mut user = user(false);
        let p = process(&mut user);
        match user.message_processed(p, failed(ProcessFailure::ValidationError(error))) {
            Ok(ProcessedStep::Done(outcome)) => assert!(outcome.record.is_none()),
            _ => panic!("the message is to be dropped"),
        }
    }
    for failure in [
        ProcessFailure::Other,
        ProcessFailure::ValidationError(ValidationError::Other),
        ProcessFailure::ValidationError(undecrypted(MessageDecryptionError::Other)),
    ] {
        let mut user = user(false);
        let p = process(&mut user);
        assert!(matches!(user.message_processed(p, failed(failure)), Err(e) if e == "reason"));
    }
}

#[test]
fn application_messages_join_the_conversation() {
    let mut user = user(false);
    let p = process(&mut user);
    let reply = from_ann(ProcessedContent::ApplicationMessage(b"hello".to_vec()));
    assert!(matches!(user.message_processed(p, reply), Ok(ProcessedStep::Done(_))));
    let messages = user.read_msgs(&s("g")).unwrap().unwrap();
    assert_eq!(messages.len(), 1);
    assert_eq!((messages[0].message.as_str(), messages[0].author.as_str()), ("hello", "ann"));
}

#[test]
fn external_proposals_are_ignored() {
    let mut user = user(false);
    let p = process(&mut user);
    let reply = from_ann(ProcessedContent::ExternalJoinProposalMessage);
    match user.message_processed(p, reply) {
        Ok(ProcessedStep::Done(outcome)) => assert!(outcome.record.is_none()),
        _ => panic!("nothing is to be done"),
    }
}

#[test]
fn proposals_are_stored_and_recorded() {
    let mut user = user(false);
    let p = process(&mut user);
    let p = match user.message_processed(p, from_ann(ProcessedContent::ProposalMessage)) {
        Ok(ProcessedStep::StoreProposal(p)) => p,
        _ => panic!("the proposal is to be stored"),
    };
    let outcome = user.proposal_stored(p, Ok(state(5, &["me"])), 12).ok().unwrap();
    let record = outcome.record.unwrap();
    assert_eq!(record.action, CGKAAction::StoreProp(s("ann")));
    assert_eq!(record.epoch_change, EpochChange { timestamp: 77, epoch: 5 });
    assert_eq!((record.elapsed_time, record.num_users), (12, 1));
    assert_eq!(user.number_of_members(&s("g")), 1);
    let p = process(&mut user);
    assert_eq!(
        user.proposal_stored(p, Err(s("full")), 12).err(),
        Some(s("Error storing proposal: full"))
    );
}

#[test]
fn a_staged_commit_names_who_comes_and_goes() {
    let mut user = user(false);
    let m = merge(&mut user, false);
    assert_eq!(m.new_members, vec![s("eve"), s("zoe")]);
    assert_eq!(m.removed_members, vec![s("bob")]);
    assert_eq!(m.num_group_members, 3);
    assert_eq!(m.transcript_hash, vec![42]);
    assert!(!m.self_removed);
    assert_eq!(
        user.staged_commit_merged(m, Err(s("Broken"))).err(),
        Some(s("Error merging commit: Broken"))
    );
}

#[test]
fn the_orchestrator_hears_of_a_staged_commit() {
    let mut user = user(true);
    let m = merge(&mut user, false);
    let (_, call) = user.staged_commit_merged(m, Ok(state(6, &["me"]))).ok().unwrap();
    let call = call.unwrap();
    assert_eq!(call.total_members, 3 + 2 - 1);
    assert_eq!(call.removed_members, vec![s("bob")]);
    assert_eq!(call.new_members, vec![s("eve"), s("zoe")]);
    assert_eq!((call.group_name.as_str(), call.transcript_hash), ("g", vec![42]));
}

#[test]
fn a_followed_commit_is_recorded_with_its_times() {
    let mut user = user(false);
    let d = decide(&mut user, false);
    let mut prof = Some(Profiler::new());
    prof.as_mut().unwrap().add("decrypt", 6);
    prof.as_mut().unwrap().add("merge_total", 8);
    let step = user.staged_commit_decided(&mut prof, d, independent_action(false), 50, 60);
    assert!(step.notify.is_none());
    assert_eq!(step.outcome.post_update, PostUpdateActions::Nothing);
    let record = step.outcome.record.unwrap();
    assert_eq!(record.epoch_change, EpochChange { timestamp: 77, epoch: 6 });
    assert_eq!((record.elapsed_time, record.num_users), (50, 4));
    assert_eq!(
        record.action.to_text(),
        "DeepProcess ann || 0 6 0 0 0 0 0 0 0 0 0 || 8 0 0"
    );
    assert_eq!(prof.unwrap().get("decrypt"), 0);
}

#[test]
fn the_agent_is_told_after_a_followed_commit() {
    let mut user = user(true);
    let d = decide(&mut user, false);
    let step = user.staged_commit_decided(&mut None, d, NextAction::Commit, 50, 60);
    assert_eq!(step.notify, Some(s("g")));
    let outcome = user.staged_commit_announced(step, Ok(())).ok().unwrap();
    assert_eq!(outcome.post_update, PostUpdateActions::Nothing);
    assert_eq!(outcome.record.unwrap().elapsed_time, 50);
}

#[test]
fn an_agent_that_cannot_be_told_of_a_commit_is_an_error() {
    let mut user = user(true);
    let d = decide(&mut user, false);
    let step = user.staged_commit_decided(&mut None, d, NextAction::Commit, 50, 60);
    assert_eq!(user.staged_commit_announced(step, Err(s("gone"))).err(), Some(s("gone")));
}

#[test]
fn lots_decide_for_independent_users() {
    assert_eq!(independent_action(true), NextAction::Inactive);
    assert_eq!(independent_action(false), NextAction::Listen);
}

#[test]
fn removed_and_inactive_users_leave_the_group() {
    for (self_removed, next) in [(true, NextAction::Listen), (false, NextAction::Inactive)] {
        let mut user = user(false);
        user.write_timestamp(ActionRecord {
            group_name: s("x"),
            action: CGKAAction::Create,
            epoch_change: EpochChange { timestamp: 1, epoch: 0 },
            elapsed_time: 2,
            num_users: 1,
        });
        let d = decide(&mut user, self_removed);
        let step = user.staged_commit_decided(&mut None, d, next, 50, 60);
        assert!(step.notify.is_none());
        let outcome = step.outcome;
        assert_eq!(outcome.post_update, PostUpdateActions::Remove);
        assert_eq!(outcome.group_id, Some(b"g".to_vec()));
        let record = outcome.record.as_ref().unwrap();
        assert_eq!(record.action, CGKAAction::Process(s("ann")));
        assert_eq!((record.epoch_change.epoch, record.elapsed_time), (6, 60));
        let leave = match user.post_update(outcome) {
            PostUpdateStep::Leave { log, leave } => {
                assert_eq!(log, "x 0 1 me Create 1 2\n");
                leave.ok().unwrap()
            }
            PostUpdateStep::Done(_) => panic!("the group is to be left"),
        };
        assert!(user.file_buffer.is_empty());
        assert!(matches!(&leave.unsubscribe, Some(BrokerCall::Unsubscribe(g)) if g == "g"));
        assert!(user.group_left(leave, Ok(())).ok().unwrap().is_some());
        assert!(user.list_of_groups().is_empty());
    }
}

#[test]
fn leaving_needs_a_group_and_its_broker() {
    let mut user = user(false);
    let outcome = ProtocolOutcome {
        record: None,
        post_update: PostUpdateActions::Remove,
        group_id: None,
    };
    match user.post_update(outcome) {
        PostUpdateStep::Leave { leave, .. } => assert_eq!(
            leave.err(),
            Some(s("update::Error post update remove must have a group id"))
        ),
        PostUpdateStep::Done(_) => panic!("the group is to be left"),
    }
    let outcome = ProtocolOutcome {
        record: None,
        post_update: PostUpdateActions::Remove,
        group_id: Some(b"g".to_vec()),
    };
    match user.post_update(outcome) {
        PostUpdateStep::Leave { leave, .. } => assert_eq!(
            user.group_left(leave.ok().unwrap(), Err(s("gone"))).err(),
            Some(s("Error unsubscribing: gone"))
        ),
        PostUpdateStep::Done(_) => panic!("the group is to be left"),
    }
    assert_eq!(user.list_of_groups(), vec![s("g")]);
    let outcome = ProtocolOutcome {
        record: None,
        post_update: PostUpdateActions::Nothing,
        group_id: None,
    };
    assert!(matches!(user.post_update(outcome), PostUpdateStep::Done(None)));
}

fn received(sender: &str, msg: MessageBody, ratchet_tree: Option<Vec<u8>>) -> MessageIn {
    MessageIn {
        sender: sender.as_bytes().to_vec(),
        msg,
        msg_size: 10,
        ratchet_tree,
        recipients: vec![b"me".to_vec(), b"eve".to_vec()],
        active_members: Some(vec![b"ann".to_vec()]),
    }
}

fn welcome() -> Welcome {
    Welcome { bytes: vec![1], new_members: vec![vec![7], vec![8]] }
}

fn welcome_in(user: &User) -> WelcomeIn {
    let m = received("ann", MessageBody::Welcome(welcome()), Some(vec![0; 5]));
    match user.process_in_message(m) {
        Ok(InMessageStep::Join(w)) => w,
        _ => panic!("the welcome is to be followed"),
    }
}

fn joined(user: &mut User) -> JoinedGroup {
    let mut new = state(3, &["ann", "me"]);
    new.group_id = b"new".to_vec();
    user.group_joined(Ok(new), 31, 99).ok().unwrap()
}

#[test]
fn own_messages_confirm_commits() {
    let user = user(false);
    for body in [
        MessageBody::PrivateMessage(message("g", 9, ContentType::Commit)),
        MessageBody::PublicMessage(message("g", 9, ContentType::Commit)),
    ] {
        assert!(matches!(
            user.process_in_message(received("me", body, None)),
            Ok(InMessageStep::Confirm(g)) if g == "g"
        ));
    }
}

#[test]
fn own_messages_leave_no_record() {
    let user = user(false);
    assert!(matches!(user.own_message_confirmed(Ok(())), Ok(None)));
    assert_eq!(user.own_message_confirmed(Err(s("offline"))).err(), Some(s("offline")));
}

#[test]
fn messages_of_others_are_processed() {
    let user = user(false);
    for body in [
        MessageBody::PrivateMessage(message("g", 9, ContentType::Commit)),
        MessageBody::PublicMessage(message("g", 9, ContentType::Commit)),
    ] {
        assert!(matches!(
            user.process_in_message(received("ann", body, None)),
            Ok(InMessageStep::Process(m, sender)) if m.epoch == 9 && sender == "ann"
        ));
    }
}

#[test]
fn a_welcome_needs_a_tree() {
    let user = user(false);
    assert!(matches!(
        user.process_in_message(received("ann", MessageBody::Welcome(welcome()), None)),
        Err(e) if e == "Welcome message must have ratchet tree"
    ));
    let w = welcome_in(&user);
    assert_eq!(w.welcome_size, 15);
    assert_eq!((w.sender.as_str(), w.ratchet_tree.len()), ("ann", 5));
}

#[test]
fn a_welcome_uses_up_key_packages() {
    let mut user = user(false);
    for hash in [6u8, 7, 8] {
        user.add_key_package(vec![hash], vec![hash, hash]);
    }
    user.join_group(&welcome());
    assert_eq!(user.key_packages(), vec![(vec![6], vec![6, 6])]);
}

#[test]
fn a_joined_group_is_new() {
    let mut user = user(false);
    let j = joined(&mut user);
    assert_eq!(j.group_name, "new");
    assert_eq!(j.epoch_change, EpochChange { timestamp: 99, epoch: 3 });
    assert_eq!((j.elapsed_time, j.aad), (31, b"new AAD".to_vec()));
    assert_eq!(group_aad_bytes(&s("g")), b"g AAD".to_vec());
    assert_eq!(user.number_of_members(&s("new")), 2);
    assert!(user.read_msgs(&s("new")).unwrap().unwrap().is_empty());
    assert_eq!(
        user.group_joined(Err(JoinError::Staging(s("Old"))), 1, 1).err(),
        Some(s("Error staging Welcome: Old"))
    );
    assert_eq!(
        user.group_joined(Err(JoinError::Joining(s("Bad"))), 1, 1).err(),
        Some(s("Error joining group: Bad"))
    );
}

#[test]
fn an_accepted_welcome_is_recorded() {
    let mut user = user(false);
    let w = welcome_in(&user);
    let j = joined(&mut user);
    let accepted = user.welcome_accepted(w, j);
    assert!(accepted.orchestrator.is_none());
    assert_eq!(accepted.record.action, CGKAAction::Welcome(s("ann"), 15));
    assert_eq!((accepted.record.elapsed_time, accepted.record.num_users), (31, 2));
    assert_eq!(user.active.get(&s("new")), Some(&(true, 0)));
    let step = user.welcome_decided(s("new"), NextAction::Listen);
    assert!(step.ack.is_none() && step.notify.is_none());
    assert!(matches!(step.subscribe, Some(BrokerCall::Subscribe(g)) if g == "new"));
    let record = user.welcome_followed(accepted.record, Ok(()), Ok(())).ok().unwrap().unwrap();
    assert_eq!((record.group_name.as_str(), record.elapsed_time), ("new", 31));
}

#[test]
fn a_welcome_that_cannot_be_followed_up_is_an_error() {
    let mut user = user(true);
    let w = welcome_in(&user);
    let j = joined(&mut user);
    let record = user.welcome_accepted(w, j).record;
    assert_eq!(
        user.welcome_followed(record.clone(), Ok(()), Err(s("no agent"))).err(),
        Some(s("no agent"))
    );
    assert_eq!(
        user.welcome_followed(record, Err(s("offline")), Ok(())).err(),
        Some(s("offline"))
    );
}

#[test]
fn a_welcomed_group_gets_an_orchestrator() {
    let mut user = user(true);
    let w = welcome_in(&user);
    let j = joined(&mut user);
    let o = user.welcome_accepted(w, j).orchestrator.unwrap();
    assert_eq!(o.active_members, vec![s("ann")]);
    assert_eq!(o.commit.new_members, vec![s("me"), s("eve")]);
    assert!(o.commit.removed_members.is_empty());
    assert_eq!((o.commit.total_members, o.commit.transcript_hash), (2, vec![3]));
    let step = user.welcome_decided(s("new"), NextAction::Commit);
    assert_eq!(step.notify, Some(s("new")));
    assert!(step.subscribe.is_some() && step.ack.is_none());
}

#[test]
fn inactive_users_acknowledge_and_leave() {
    let mut user = user(true);
    joined(&mut user);
    let step = user.welcome_decided(s("new"), NextAction::Inactive);
    let ack = step.ack.unwrap();
    assert_eq!((ack.sender.as_str(), ack.group.as_str()), ("me", "new"));
    assert!(step.subscribe.is_none() && step.notify.is_none());
    assert_eq!(user.list_of_groups(), vec![s("g")]);
}
