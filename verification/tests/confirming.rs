use emulated_client::action::CGKAAction;
use emulated_client::commits::{ConfirmCommit, ConfirmStep, MergedCommit, SendCommit};
use emulated_client::conversation::Conversation;
use emulated_client::delivery::{DeliveryService, Directory, DirectoryCall, Outgoing};
use emulated_client::inbox::{InMessageStep, MessageBody, MessageIn, Welcome};
use emulated_client::mls::{ContentType, Member, MlsState, ProtocolMessage};
use emulated_client::profiling::Profiler;
use emulated_client::table::Table;
use emulated_client::user::{AgentType, Group, StoredWelcome, User};

fn s(text: &str) -> String {
    text.to_string()
}

fn state(epoch: u64, names: &[&str]) -> MlsState {
    MlsState {
        group_id: b"g".to_vec(),
        epoch,
        own_leaf_index: 0,
        members: names
            .iter()
            .enumerate()
            .map(|(i, n)| Member { index: i as u32, identity: n.as_bytes().to_vec() })
            .collect(),
        pending_proposals: vec![],
        transcript_hash: vec![epoch as u8],
    }
}

fn user(ds: DeliveryService, orchestrated: bool) -> User {
    let mut user = User::new_independent(s("me"), ds);
    if orchestrated {
        let mut known = Table::new();
        known.insert(s("g"), vec![s("me"), s("ann")]);
        user.agent_type = AgentType::Orchestrator(known);
    }
    user.groups.insert(
        s("g"),
        Group {
            group_name: s("g"),
            conversation: Conversation::default(),
            mls_group: state(5, &["me", "ann"]),
        },
    );
    user
}

fn send(user: &User, action: CGKAAction, welcome: Option<StoredWelcome>, info: bool) -> SendCommit {
    let info = if info { Some(vec![40]) } else { None };
    user.post_process_commit(s("g"), vec![1, 2, 3], info, welcome, action, 100, 777)
}

fn welcome() -> Option<StoredWelcome> {
    Some(StoredWelcome { welcome: vec![30], recipients: vec![s("bob"), s("eve")] })
}

fn sent_user(user: &mut User, send: SendCommit) -> ConfirmCommit {
    user.commit_sent(send, Ok(())).ok().unwrap();
    user.confirm_commit(&mut None, s("g")).ok().unwrap().unwrap()
}

fn merged(user: &mut User, action: CGKAAction, w: Option<StoredWelcome>, info: bool) -> MergedCommit {
    let send = send(user, action, w, info);
    let confirm = sent_user(user, send);
    user.commit_merged(confirm, state(6, &["me", "ann", "bob", "eve"]), vec![50])
}

#[test]
fn a_commit_is_recorded_as_it_is_sent() {
    let user = user(DeliveryService::Request, false);
    let send = send(&user, CGKAAction::Update(3), None, true);
    match &send.message {
        Outgoing::Backend(m) => {
            assert_eq!(m.msg, vec![1, 2, 3]);
            assert_eq!(m.recipients, vec![b"ann".to_vec()]);
        }
        Outgoing::Broker(_, _) => panic!("there is no broker"),
    }
    let record = &send.pending.record;
    assert_eq!((record.epoch_change.epoch, record.epoch_change.timestamp), (5, 777));
    assert_eq!((record.num_users, record.elapsed_time), (2, 100));
    assert_eq!(record.action, CGKAAction::Update(3));
    assert_eq!(send.pending.group_info, Some(vec![40]));
}

#[test]
fn a_sent_commit_is_pending_until_it_is_confirmed() {
    let mut user = user(DeliveryService::PubSubMQTT, false);
    let send = send(&user, CGKAAction::Update(3), None, true);
    let sent = user.commit_sent(send, Ok(())).ok().unwrap();
    assert_eq!((sent.epoch_change.epoch, sent.epoch_change.timestamp), (5, 777));
    assert!(!sent.confirm);
    assert_eq!(
        user.send_application_msg(&s("hi"), &s("g")),
        Err(s("There is a pending commit"))
    );
    let mut prof = Some(Profiler::new());
    prof.as_mut().unwrap().add("tree", 4);
    let confirm = user.confirm_commit(&mut prof, s("g")).ok().unwrap().unwrap();
    assert_eq!(prof.unwrap().get("tree"), 0);
    assert_eq!(confirm.pending.record.action, CGKAAction::Update(3));
    assert!(user.confirm_commit(&mut None, s("g")).ok().unwrap().is_none());
    assert!(user.send_application_msg(&s("hi"), &s("g")).is_ok());
}

#[test]
fn orchestrated_users_confirm_at_once() {
    let mut user = user(DeliveryService::Request, true);
    let send = send(&user, CGKAAction::Update(3), None, true);
    assert!(user.commit_sent(send, Ok(())).ok().unwrap().confirm);
}

#[test]
fn a_commit_that_could_not_be_confirmed_is_an_error() {
    let mut user = user(DeliveryService::Request, true);
    let first = send(&user, CGKAAction::Update(3), None, true);
    let sent = user.commit_sent(first, Ok(())).ok().unwrap();
    assert_eq!(user.commit_done(sent, Err(s("offline"))).err(), Some(s("offline")));
    let second = send(&user, CGKAAction::Update(3), None, true);
    let sent = user.commit_sent(second, Ok(())).ok().unwrap();
    let change = user.commit_done(sent, Ok(())).ok().unwrap();
    assert_eq!((change.epoch, change.timestamp), (5, 777));
}

#[test]
fn a_commit_that_was_not_sent_is_not_pending() {
    let mut user = user(DeliveryService::Request, false);
    let send = send(&user, CGKAAction::Update(3), None, true);
    assert_eq!(user.commit_sent(send, Err(s("offline"))).err(), Some(s("offline")));
    assert!(user.pending_commits.get(&s("g")).is_none());
}

#[test]
fn a_commit_of_a_lost_group_is_an_error_once() {
    let mut user = user(DeliveryService::Request, false);
    let send = send(&user, CGKAAction::Update(3), None, true);
    user.commit_sent(send, Ok(())).ok().unwrap();
    user.groups.remove(&s("g"));
    assert_eq!(
        user.confirm_commit(&mut None, s("g")).err(),
        Some(s("No group with name g known."))
    );
    assert!(user.confirm_commit(&mut None, s("g")).ok().unwrap().is_none());
}

#[test]
fn every_new_member_is_welcomed() {
    let mut at_server = user(DeliveryService::Request, false);
    let m = merged(&mut at_server, CGKAAction::Create, welcome(), true);
    assert_eq!(m.new_members, vec![s("bob"), s("eve")]);
    assert_eq!(m.welcomes.len(), 2);
    for out in &m.welcomes {
        match out {
            Outgoing::Backend(w) => {
                assert_eq!((&w.msg, &w.sender), (&vec![30], &b"me".to_vec()));
                assert_eq!(w.ratchet_tree, Some(vec![50]));
                assert_eq!(w.recipients, vec![b"bob".to_vec(), b"eve".to_vec()]);
                assert!(w.active_members.is_none());
            }
            Outgoing::Broker(_, _) => panic!("there is no broker"),
        }
    }
    assert_eq!(at_server.number_of_members(&s("g")), 4);
    let mut at_broker = user(DeliveryService::GossipSub(Directory::Kademlia), true);
    let m = merged(&mut at_broker, CGKAAction::Create, welcome(), true);
    let names: Vec<String> = m
        .welcomes
        .iter()
        .map(|out| match out {
            Outgoing::Broker(w, name) => {
                assert_eq!(w.active_members, Some(vec![b"me".to_vec(), b"ann".to_vec()]));
                name.clone()
            }
            Outgoing::Backend(_) => panic!("there is a broker"),
        })
        .collect();
    assert_eq!(names, vec![s("bob"), s("eve")]);
}

#[test]
fn a_confirmed_proposal_is_only_logged() {
    let mut user = user(DeliveryService::Request, false);
    let action = CGKAAction::Propose(Box::new(CGKAAction::Update(3)));
    let m = merged(&mut user, action, None, false);
    assert!(m.new_members.is_empty() && m.welcomes.is_empty());
    assert!(matches!(user.welcomes_sent(m, Ok(())), Ok(ConfirmStep::Done(None))));
    assert_eq!(user.file_buffer.len(), 1);
    assert_eq!(user.file_buffer[0].epoch_change.epoch, 5);
    assert_eq!(user.file_buffer[0].num_users, 2);
}

#[test]
fn a_failed_welcome_ends_the_confirmation() {
    let mut user = user(DeliveryService::Request, false);
    let m = merged(&mut user, CGKAAction::Create, welcome(), true);
    assert!(matches!(user.welcomes_sent(m, Err(s("e"))), Err(e) if e == "e"));
    assert!(user.file_buffer.is_empty());
}

#[test]
fn a_confirmed_commit_is_published_and_logged() {
    let mut user = user(DeliveryService::Request, false);
    let m = merged(&mut user, CGKAAction::Update(3), welcome(), true);
    let publish = match user.welcomes_sent(m, Ok(())) {
        Ok(ConfirmStep::Publish(publish, DirectoryCall::Server((username, name, info)))) => {
            assert_eq!((username.as_str(), name.as_str()), ("me", "g"));
            assert_eq!((info.group_info, info.ratchet_tree), (vec![40], Some(vec![50])));
            publish
        }
        _ => panic!("the group is to be published"),
    };
    let (confirmed, call) = user.commit_published(publish, Ok(())).ok().unwrap();
    assert!(call.is_none());
    let mut prof = Some(Profiler::new());
    prof.as_mut().unwrap().add("merge_total", 11);
    assert_eq!(user.commit_confirmed(&mut prof, confirmed, Ok(())), Ok(None));
    let record = &user.file_buffer[0];
    assert_eq!((record.epoch_change.epoch, record.epoch_change.timestamp), (6, 777));
    assert_eq!((record.elapsed_time, record.num_users), (111, 4));
    assert_eq!(record.action, CGKAAction::Update(3));
    assert_eq!(prof.unwrap().get("merge_total"), 0);
}

#[test]
fn a_commit_without_group_information_needs_an_export() {
    let mut user = user(DeliveryService::Request, false);
    let m = merged(&mut user, CGKAAction::Update(3), None, false);
    assert!(matches!(user.welcomes_sent(m, Ok(())), Ok(ConfirmStep::Export(_))));
}

#[test]
fn the_orchestrator_hears_of_a_confirmed_commit() {
    let mut user = user(DeliveryService::Request, true);
    let m = merged(&mut user, CGKAAction::Remove(s("zoe"), 3), welcome(), false);
    let publish = match user.welcomes_sent(m, Ok(())) {
        Ok(ConfirmStep::Export(publish)) => publish,
        _ => panic!("the group is to be exported"),
    };
    let (confirmed, call) = user.commit_published(publish, Ok(())).ok().unwrap();
    let call = call.unwrap();
    assert_eq!(call.group_name, "g");
    assert_eq!(call.removed_members, vec![s("zoe")]);
    assert_eq!(call.transcript_hash, vec![6]);
    assert_eq!(call.total_members, 4);
    assert_eq!(call.new_members, vec![s("bob"), s("eve")]);
    assert_eq!(
        user.commit_confirmed(&mut None, confirmed, Err(s("closed"))),
        Err(s("closed"))
    );
    assert!(user.file_buffer.is_empty());
}

#[test]
fn an_unpublished_commit_is_not_logged() {
    let mut user = user(DeliveryService::Request, false);
    let m = merged(&mut user, CGKAAction::Update(3), None, true);
    match user.welcomes_sent(m, Ok(())) {
        Ok(ConfirmStep::Publish(publish, _)) => {
            assert_eq!(user.commit_published(publish, Err(s("down"))).err(), Some(s("down")));
        }
        _ => panic!("the group is to be published"),
    }
}

#[test]
fn a_welcome_carries_names_from_user_to_user() {
    let mut sender = user(DeliveryService::GossipSub(Directory::Kademlia), true);
    let m = merged(&mut sender, CGKAAction::Create, welcome(), true);
    let sent = match m.welcomes.into_iter().next() {
        Some(Outgoing::Broker(w, _)) => w,
        _ => panic!("there is a broker"),
    };
    let mut receiver =
        User::new_orchestrated(s("bob"), DeliveryService::GossipSub(Directory::Kademlia));
    let step = receiver.process_in_message(MessageIn {
        sender: sent.sender,
        msg: MessageBody::Welcome(Welcome { bytes: sent.msg, new_members: vec![] }),
        msg_size: 1,
        ratchet_tree: sent.ratchet_tree,
        recipients: sent.recipients,
        active_members: sent.active_members,
    });
    let w = match step {
        Ok(InMessageStep::Join(w)) => w,
        _ => panic!("the welcome is to be followed"),
    };
    assert_eq!(w.sender, "me");
    let joined = receiver.group_joined(Ok(state(6, &["me", "ann", "bob", "eve"])), 1, 2).ok().unwrap();
    let o = receiver.welcome_accepted(w, joined).orchestrator.unwrap();
    assert_eq!(o.active_members, vec![s("me"), s("ann")]);
    assert_eq!(o.commit.new_members, vec![s("bob"), s("eve")]);
}

#[test]
fn a_message_confirms_only_for_its_sender() {
    let sender = user(DeliveryService::PubSubMQTT, false);
    let other = User::new_independent(s("bob"), DeliveryService::PubSubMQTT);
    let send = send(&sender, CGKAAction::Update(3), None, true);
    let sent_by = match send.message {
        Outgoing::Broker(m, _) => m.sender,
        Outgoing::Backend(_) => panic!("there is a broker"),
    };
    let received = || MessageIn {
        sender: sent_by.clone(),
        msg: MessageBody::PrivateMessage(ProtocolMessage {
            group_id: b"g".to_vec(),
            epoch: 5,
            content_type: ContentType::Commit,
            bytes: vec![1],
        }),
        msg_size: 1,
        ratchet_tree: None,
        recipients: vec![],
        active_members: None,
    };
    assert!(matches!(
        sender.process_in_message(received()),
        Ok(InMessageStep::Confirm(g)) if g == "g"
    ));
    assert!(matches!(
        other.process_in_message(received()),
        Ok(InMessageStep::Process(_, name)) if name == "me"
    ));
}
