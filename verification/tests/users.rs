use emulated_client::conversation::{Conversation, ConversationMessage};
use emulated_client::delivery::{
    BrokerCall, DeliveryService, Directory, DirectoryCall, GroupInfoAndTree, Outgoing,
    WelcomeAcknowledgement,
};
use emulated_client::mls::{AuthorizationPolicy, Member, MlsState, NextAction};
use emulated_client::services::{ClientInfo, OrchestratorReply};
use emulated_client::user::{AgentType, Contact, Group, StoredWelcome, User};

const KADEMLIA: DeliveryService = DeliveryService::GossipSub(Directory::Kademlia);

fn s(text: &str) -> String {
    text.to_string()
}

fn member(index: u32, name: &str) -> Member {
    Member { index, identity: name.as_bytes().to_vec() }
}

fn state(members: Vec<Member>, own_leaf_index: u32) -> MlsState {
    MlsState {
        group_id: b"g".to_vec(),
        epoch: 4,
        own_leaf_index,
        members,
        pending_proposals: vec![],
        transcript_hash: vec![9],
    }
}

fn user(ds: DeliveryService) -> User {
    let mut user = User::new_independent(s("me"), ds);
    let members = vec![member(0, "ann"), member(1, "me"), member(3, "bob")];
    user.groups.insert(
        s("g"),
        Group {
            group_name: s("g"),
            conversation: Conversation::default(),
            mls_group: state(members, 1),
        },
    );
    user
}

fn contact(username: &str, id: &str) -> Contact {
    Contact { username: s(username), id: id.as_bytes().to_vec() }
}

#[test]
fn new_users_know_nothing() {
    let user = User::new_orchestrated(s("me"), DeliveryService::Request);
    assert_eq!(user.username, "me");
    assert_eq!(user.own_identity(), b"me".to_vec());
    assert!(matches!(&user.agent_type, AgentType::Orchestrator(known) if known.len() == 0));
    assert!(user.group_list().is_empty() && user.key_packages().is_empty());
    assert_eq!(user.contacts.len(), 0);
    assert!(matches!(User::new_independent(s("x"), KADEMLIA).agent_type, AgentType::Independent));
    assert_eq!(DeliveryService::default(), DeliveryService::Request);
}

#[test]
fn users_do_not_become_their_own_contacts() {
    let mut user = user(DeliveryService::Request);
    user.add_contact(contact("Me", "me")).unwrap();
    user.add_contact(contact("Ann", "ann")).unwrap();
    assert_eq!(user.contacts.len(), 1);
    assert_eq!(user.contact_named(&s("Ann")).ok().unwrap().id, b"ann".to_vec());
    assert_eq!(user.contact_named(&s("Me")).err().unwrap(), "No contact with name Me known.");
}

#[test]
fn the_last_name_of_a_client_counts() {
    let mut user = user(DeliveryService::Request);
    user.add_contact(contact("Old", "bob")).unwrap();
    let info = |name: &str, id: &str| ClientInfo { client_name: s(name), id: id.as_bytes().to_vec() };
    let updated = user.update_clients(Ok(vec![
        info("Ann", "ann"),
        info("Robert", "bob"),
        info("Bob", "bob"),
        info("Me", "me"),
    ]));
    assert_eq!(updated, Ok(()));
    assert_eq!(user.contacts.len(), 2);
    assert!(user.contact_named(&s("Bob")).is_ok());
    assert!(user.contact_named(&s("Old")).is_err());
    assert!(user.contact_named(&s("Robert")).is_err());
    user.update_clients(Err(s("offline"))).unwrap();
    assert_eq!(user.contacts.len(), 2);
}

#[test]
fn members_are_found_by_name() {
    let user = user(DeliveryService::Request);
    let group = user.groups.get(&s("g")).unwrap();
    assert_eq!(user.find_member_index(&s("bob"), group), Ok(3));
    assert_eq!(user.find_member_index(&s("eve"), group), Err(s("Unknown member")));
}

#[test]
fn messages_are_addressed_to_the_other_members() {
    let mut user = user(DeliveryService::Request);
    user.add_contact(contact("Bob", "bob")).unwrap();
    let group = user.groups.get(&s("g")).unwrap();
    assert_eq!(user.recipients(group), vec![b"ann".to_vec(), b"bob".to_vec()]);
}

#[test]
fn members_and_outsiders_are_told_apart() {
    let mut user = user(DeliveryService::Request);
    user.add_contact(contact("Bobby", "bob")).unwrap();
    user.add_contact(contact("Eve", "eve")).unwrap();
    assert_eq!(user.members_of_group(&s("g")), vec![s("ann"), s("Bobby")]);
    assert_eq!(user.not_members_of_group(&s("g")), vec![s("Eve")]);
    assert_eq!(user.number_of_members(&s("g")), 3);
    assert!(user.members_of_group(&s("h")).is_empty());
    assert!(user.not_members_of_group(&s("h")).is_empty());
    assert_eq!(user.number_of_members(&s("h")), 1);
    assert_eq!(user.list_of_groups(), vec![s("g")]);
}

#[test]
fn the_last_hundred_messages_are_read() {
    let mut user = user(DeliveryService::Request);
    let mut group = user.groups.remove(&s("g")).unwrap();
    for i in 0..103 {
        group.conversation.add(ConversationMessage::new(format!("m{i}"), s("ann")));
    }
    user.groups.insert(s("g"), group);
    let messages = user.read_msgs(&s("g")).unwrap().unwrap();
    assert_eq!(messages.len(), 100);
    assert_eq!(messages[0].message, "m3");
    assert_eq!((messages[99].message.as_str(), messages[99].author.as_str()), ("m102", "ann"));
    assert_eq!(user.read_msgs(&s("h")).err().unwrap(), "Unknown group");
}

#[test]
fn short_conversations_are_read_whole() {
    let mut conversation = Conversation::default();
    assert_eq!(conversation.get(100).unwrap().len(), 0);
    conversation.add(ConversationMessage::new(s("hi"), s("ann")));
    assert_eq!(conversation.get(100).unwrap().len(), 1);
    assert_eq!(conversation.get(1).unwrap()[0].message, "hi");
    assert_eq!(conversation.get(0).unwrap().len(), 0);
}

#[test]
fn policies_single_out_members() {
    let mut user = user(DeliveryService::Request);
    let g = s("g");
    assert_eq!(user.is_authorised(&g, AuthorizationPolicy::Random), Ok(false));
    user.active.insert(s("g"), (true, 0));
    assert_eq!(user.is_authorised(&g, AuthorizationPolicy::Random), Ok(true));
    assert_eq!(user.is_authorised(&g, AuthorizationPolicy::First), Ok(false));
    assert_eq!(user.is_authorised(&g, AuthorizationPolicy::Last), Ok(false));
    for (leaf, first, last) in [(0, true, false), (2, false, true)] {
        user.set_group_state(
            &g,
            state(vec![member(0, "a"), member(1, "b"), member(2, "c")], leaf),
        );
        assert_eq!(user.is_authorised(&g, AuthorizationPolicy::First), Ok(first));
        assert_eq!(user.is_authorised(&g, AuthorizationPolicy::Last), Ok(last));
    }
    user.active.insert(s("g"), (false, 9));
    assert_eq!(user.is_authorised(&g, AuthorizationPolicy::Random), Ok(false));
    user.active.insert(s("h"), (true, 0));
    assert_eq!(
        user.is_authorised(&s("h"), AuthorizationPolicy::Random),
        Err(s("Unknown group"))
    );
}

#[test]
fn lookups_go_to_the_directory() {
    for ds in [
        DeliveryService::Request,
        DeliveryService::PubSubMQTT,
        DeliveryService::GossipSub(Directory::Server),
    ] {
        let user = user(ds);
        assert!(matches!(user.group_exists(s("g")), DirectoryCall::Server(g) if g == "g"));
        assert!(matches!(
            user.get_group_info(s("g")),
            DirectoryCall::Server((me, g)) if me == "me" && g == "g"
        ));
        assert!(matches!(
            user.consume_key_package(&contact("Bob", "bob")),
            DirectoryCall::Server(id) if id == b"bob".to_vec()
        ));
    }
    let user = user(KADEMLIA);
    assert!(matches!(user.group_exists(s("g")), DirectoryCall::Broker(g) if g == "g"));
    assert!(matches!(user.get_group_info(s("g")), DirectoryCall::Broker(g) if g == "g"));
    assert!(matches!(
        user.consume_key_package(&contact("Bob", "bob")),
        DirectoryCall::Broker(name) if name == "Bob"
    ));
}

#[test]
fn a_registration_names_the_user() {
    let user = user(DeliveryService::Request);
    assert_eq!(user.register(), (s("me"), b"me".to_vec()));
    assert_eq!(user.registered(Ok(())), Ok(()));
    assert_eq!(user.registered(Err(s("\"taken\""))), Err(s("Error creating user: \"taken\"")));
}

#[test]
fn subscriptions_need_a_broker() {
    let request = user(DeliveryService::Request);
    assert!(request.subscribe_welcome().is_none());
    assert!(request.subscribe(s("g")).is_none());
    assert!(request.unsubscribe(s("g")).is_none());
    for ds in [DeliveryService::PubSubMQTT, KADEMLIA] {
        let user = user(ds);
        assert!(matches!(user.subscribe_welcome(), Some(BrokerCall::SubscribeWelcome(n)) if n == "me"));
        assert!(matches!(user.subscribe(s("g")), Some(BrokerCall::Subscribe(n)) if n == "g"));
        assert!(matches!(user.unsubscribe(s("g")), Some(BrokerCall::Unsubscribe(n)) if n == "g"));
    }
}

#[test]
fn new_key_packages_are_kept_and_published() {
    let mut at_server = user(DeliveryService::PubSubMQTT);
    match at_server.create_kp(vec![1, 2], vec![3]) {
        DirectoryCall::Server((identity, ckp)) => {
            assert_eq!(identity, b"me".to_vec());
            assert_eq!(ckp.packages.len(), 1);
            assert_eq!(ckp.packages[0].0.as_slice(), &[1, 2]);
            assert_eq!(ckp.packages[0].1, vec![3]);
        }
        DirectoryCall::Broker(_) => panic!("the server is the directory"),
    }
    assert_eq!(at_server.key_packages(), vec![(vec![1, 2], vec![3])]);
    assert_eq!(at_server.kp_published(Ok(())), Ok(()));
    assert_eq!(
        at_server.kp_published(Err(s("\"no\""))),
        Err(s("Error sending new key package: \"no\""))
    );
    let mut at_broker = user(KADEMLIA);
    assert!(matches!(
        at_broker.create_kp(vec![1], vec![3]),
        DirectoryCall::Broker((name, kp)) if name == "me" && kp == vec![3]
    ));
    assert_eq!(at_broker.kp_published(Err(s("no"))), Err(s("no")));
    assert_eq!(at_broker.add_key_package(vec![7], vec![8]), (vec![7], vec![8]));
    assert_eq!(at_broker.key_packages().len(), 2);
}

#[test]
fn application_messages_go_to_the_group() {
    let request = user(DeliveryService::Request);
    assert_eq!(request.send_application_msg(&s("hi"), &s("g")), Ok(b"hi".to_vec()));
    assert_eq!(request.send_application_msg(&s("hi"), &s("h")), Err(s("Unknown group")));
    match request.application_msg_created(s("g"), Ok(vec![5])) {
        Ok(Outgoing::Backend(m)) => {
            assert_eq!((m.msg, m.sender), (vec![5], b"me".to_vec()));
            assert_eq!(m.recipients, vec![b"ann".to_vec(), b"bob".to_vec()]);
            assert!(m.ratchet_tree.is_none() && m.active_members.is_none());
        }
        _ => panic!("a message to the server"),
    }
    assert_eq!(request.application_msg_created(s("g"), Err(s("e"))).err(), Some(s("e")));
    match user(KADEMLIA).application_msg_created(s("g"), Ok(vec![5])) {
        Ok(Outgoing::Broker(m, topic)) => {
            assert_eq!(topic, "g");
            assert!(m.recipients.is_empty());
        }
        _ => panic!("a message to the broker"),
    }
}

#[test]
fn group_information_is_published() {
    let info = || GroupInfoAndTree { group_info: vec![1], ratchet_tree: Some(vec![2]) };
    let at_server = user(DeliveryService::Request);
    assert_eq!(at_server.publish_group_info(&s("g")), Ok(()));
    assert_eq!(at_server.publish_group_info(&s("h")), Err(s("Unknown group")));
    let group = at_server.groups.get(&s("g")).unwrap();
    match at_server.group_info_exported(&group.mls_group, Ok(info())) {
        Ok(DirectoryCall::Server((username, name, i))) => {
            assert_eq!((username.as_str(), name.as_str()), ("me", "g"));
            assert_eq!((i.group_info, i.ratchet_tree), (vec![1], Some(vec![2])));
        }
        _ => panic!("the server is the directory"),
    }
    assert_eq!(
        at_server.group_info_exported(&group.mls_group, Err(s("locked"))).err(),
        Some(s("Failed to export group info - locked"))
    );
    let at_broker = user(KADEMLIA);
    let group = at_broker.groups.get(&s("g")).unwrap();
    assert!(matches!(
        at_broker._publish_group_info(&group.mls_group, info()),
        DirectoryCall::Broker((name, _)) if name == "g"
    ));
}

#[test]
fn acknowledgements_reach_the_orchestrator() {
    let ack = |sender: &str| WelcomeAcknowledgement { sender: s(sender), group: s("g") };
    assert_eq!(user(KADEMLIA).process_ack(ack("bob")), None);
    let mut user = User::new_orchestrated(s("me"), KADEMLIA);
    user.orchestrator_replied(
        s("g"),
        OrchestratorReply { next_action: NextAction::Listen, known_members: vec![s("me")] },
    );
    assert_eq!(user.process_ack(ack("me")), None);
    assert_eq!(user.process_ack(ack("bob")), Some(s("g")));
    let sent = user.send_ack(s("g"));
    assert_eq!((sent.sender.as_str(), sent.group.as_str()), ("me", "g"));
}

#[test]
fn the_agent_is_told_when_it_is_its_turn() {
    let mut user = User::new_orchestrated(s("me"), KADEMLIA);
    let reply = |next_action| OrchestratorReply { next_action, known_members: vec![s("a"), s("b")] };
    assert_eq!(user.orchestrator_replied(s("g"), reply(NextAction::Commit)), Some(s("g")));
    assert_eq!(user.orchestrator_replied(s("g"), reply(NextAction::Listen)), None);
    assert_eq!(user.orchestrator_replied(s("g"), reply(NextAction::Inactive)), None);
    assert!(matches!(
        &user.agent_type,
        AgentType::Orchestrator(known) if *known.get(&s("g")).unwrap() == vec![s("a"), s("b")]
    ));
    assert_eq!(user.send_to_agent(s("g")), "g");
}

#[test]
fn a_listing_grows_by_what_is_kept() {
    let mut user = user(DeliveryService::Request);
    user.add_key_package(vec![1], vec![10]);
    user.add_key_package(vec![2], vec![20]);
    let mut expected = user.key_packages();
    let pair = user.add_key_package(vec![3], vec![30]);
    assert_eq!(pair, (vec![3], vec![30]));
    expected.push(pair);
    expected.sort();
    let mut listed = user.key_packages();
    listed.sort();
    assert_eq!(listed, expected);
    user.add_key_package(vec![2], vec![21]);
    let mut listed = user.key_packages();
    listed.sort();
    assert_eq!(listed, vec![(vec![1], vec![10]), (vec![2], vec![21]), (vec![3], vec![30])]);
}

#[test]
fn copies_hold_the_same() {
    let ann = contact("Ann", "ann");
    let copy = ann.clone();
    assert_eq!((copy.username, copy.id), (s("Ann"), b"ann".to_vec()));
    assert_eq!(format!("{:?}", ann), "Contact { username: \"Ann\", id: [97, 110, 110] }");
    let welcome = StoredWelcome { welcome: vec![1, 2], recipients: vec![s("bob")] };
    let copy = welcome.clone();
    assert_eq!((copy.welcome, copy.recipients), (vec![1, 2], vec![s("bob")]));
    assert_eq!(format!("{:?}", welcome), "StoredWelcome { welcome: [1, 2], recipients: [\"bob\"] }");
}
