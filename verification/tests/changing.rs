use emulated_client::action::CGKAAction;
use emulated_client::chance::choose_places;
use emulated_client::clock::{nanos_of, timestamp_nanos};
use emulated_client::commits::SendCommit;
use emulated_client::conversation::Conversation;
use emulated_client::delivery::{BrokerCall, DeliveryService, DirectoryCall, GroupInfoAndTree, Outgoing};
use emulated_client::membership::{AddBundle, CreatedStep};
use emulated_client::mls::{
    CommitBundle, Member, MlsState, NextAction, Proposal, QueuedProposal,
};
use emulated_client::profiling::Profiler;
use emulated_client::proposals::{DropProposals, ProposalsDropped, Propose, ProposeStep};
use emulated_client::services::OrchestratorReply;
use emulated_client::table::Table;
use emulated_client::user::{AgentType, Contact, Group, User};

fn s(text: &str) -> String {
    text.to_string()
}

fn queued(reference: u8, proposal: Proposal) -> QueuedProposal {
    QueuedProposal { reference: vec![reference], proposal }
}

fn state(names: &[&str], pending_proposals: Vec<QueuedProposal>) -> MlsState {
    MlsState {
        group_id: b"g".to_vec(),
        epoch: 5,
        own_leaf_index: 1,
        members: names
            .iter()
            .enumerate()
            .map(|(i, n)| Member { index: i as u32, identity: n.as_bytes().to_vec() })
            .collect(),
        pending_proposals,
        transcript_hash: vec![9],
    }
}

fn waiting() -> Vec<QueuedProposal> {
    vec![
        queued(10, Proposal::Add(b"eve".to_vec())),
        queued(11, Proposal::Remove(1)),
        queued(12, Proposal::Remove(2)),
        queued(13, Proposal::Update),
        queued(14, Proposal::Remove(1)),
    ]
}

fn user(pending: Vec<QueuedProposal>) -> User {
    let mut user = User::new_independent(s("me"), DeliveryService::PubSubMQTT);
    user.add_contact(Contact { username: s("Eve"), id: b"eve".to_vec() }).unwrap();
    user.add_contact(Contact { username: s("zoe"), id: b"zoe".to_vec() }).unwrap();
    user.groups.insert(
        s("g"),
        Group {
            group_name: s("g"),
            conversation: Conversation::default(),
            mls_group: state(&["ann", "me", "bob"], pending),
        },
    );
    user
}

fn bundle() -> CommitBundle {
    CommitBundle { commit: vec![1; 7], welcome: Some(vec![2]), group_info: Some(vec![3]) }
}

fn action_of(send: &SendCommit) -> &CGKAAction {
    assert_eq!(send.group_name, "g");
    assert!(matches!(&send.message, Outgoing::Broker(_, topic) if topic == "g"));
    let record = &send.pending.record;
    assert_eq!((record.elapsed_time, record.epoch_change.timestamp), (40, 50));
    &record.action
}

#[test]
fn updates_and_removals_can_be_proposed() {
    let user = user(vec![]);
    assert!(matches!(
        user.propose(CGKAAction::Update(0), s("g")),
        Ok(ProposeStep::Propose(_, Propose::Update))
    ));
    assert!(matches!(
        user.propose(CGKAAction::Remove(s("bob"), 0), s("g")),
        Ok(ProposeStep::Propose(_, Propose::Remove(2)))
    ));
    assert_eq!(
        user.propose(CGKAAction::Remove(s("zed"), 0), s("g")).err(),
        Some(s("Unknown member"))
    );
    assert_eq!(user.propose(CGKAAction::Update(0), s("h")).err(), Some(s("Unknown group")));
}

#[test]
fn an_invitation_is_proposed_once() {
    let user = user(vec![queued(1, Proposal::Add(b"zoe".to_vec()))]);
    assert_eq!(
        user.propose(CGKAAction::Invite(s("zoe"), 0), s("g")).err(),
        Some(s("There is already a pending proposal to add this user."))
    );
    assert_eq!(
        user.propose(CGKAAction::Invite(s("nobody"), 0), s("g")).err(),
        Some(s("No contact with name nobody known."))
    );
    let p = match user.propose(CGKAAction::Invite(s("Eve"), 0), s("g")) {
        Ok(ProposeStep::LookUp(p, DirectoryCall::Server(id))) => {
            assert_eq!(id, b"eve".to_vec());
            p
        }
        _ => panic!("a key package is needed"),
    };
    assert!(matches!(
        user.propose_key_package(p, Ok(vec![8])),
        Ok((_, Propose::Add(kp))) if kp == vec![8]
    ));
}

#[test]
fn a_missing_key_package_ends_the_proposal() {
    let user = user(vec![]);
    match user.propose(CGKAAction::Invite(s("Eve"), 0), s("g")) {
        Ok(ProposeStep::LookUp(p, _)) => {
            assert_eq!(user.propose_key_package(p, Err(s("none"))).err(), Some(s("none")));
        }
        _ => panic!("a key package is needed"),
    }
}

#[test]
fn proposals_are_sent_with_their_size() {
    for (action, shown) in [
        (CGKAAction::Update(0), "Propose Update 4"),
        (CGKAAction::Remove(s("bob"), 0), "Propose Remove bob 4"),
        (CGKAAction::Invite(s("Eve"), 0), "Propose Invite Eve 4"),
    ] {
        let mut user = user(vec![]);
        let p = match user.propose(action, s("g")) {
            Ok(ProposeStep::Propose(p, _)) => p,
            Ok(ProposeStep::LookUp(p, _)) => p,
            Err(e) => panic!("{e}"),
        };
        let after = state(&["ann", "me", "bob"], vec![queued(1, Proposal::Update)]);
        let send = user.proposed(p, Ok((vec![0; 4], after)), 40, 50).ok().unwrap();
        assert_eq!(action_of(&send).to_text(), shown);
        assert!(send.pending.welcome.is_none() && send.pending.group_info.is_none());
        assert_eq!(user.pending_proposals(&s("g")), Ok(1));
    }
}

#[test]
fn a_failed_proposal_changes_nothing() {
    let mut user = user(vec![]);
    match user.propose(CGKAAction::Update(0), s("g")) {
        Ok(ProposeStep::Propose(p, _)) => {
            assert_eq!(user.proposed(p, Err(s("late")), 40, 50).err(), Some(s("late")));
        }
        _ => panic!("the engine is to propose"),
    }
}

#[test]
fn own_removals_do_not_count_as_pending() {
    let user = user(waiting());
    assert_eq!(user.invalid_proposals(&s("g")), Ok(vec![vec![11], vec![14]]));
    assert_eq!(user.pending_proposals(&s("g")), Ok(3));
    assert_eq!(user.pending_proposals(&s("h")), Err(s("Unknown group")));
    assert_eq!(user.invalid_proposals(&s("h")), Err(s("Unknown group")));
}

fn dropped(user: &mut User, d: DropProposals) -> (MlsState, DropProposals) {
    let group = user.groups.get(&s("g")).unwrap();
    let left = group
        .mls_group
        .pending_proposals
        .iter()
        .filter(|p| !d.references.contains(&p.reference))
        .map(|p| {
            queued(
                p.reference[0],
                match &p.proposal {
                    Proposal::Add(id) => Proposal::Add(id.clone()),
                    Proposal::Remove(leaf) => Proposal::Remove(*leaf),
                    Proposal::Update => Proposal::Update,
                    Proposal::Other => Proposal::Other,
                },
            )
        })
        .collect();
    (state(&["ann", "me", "bob"], left), d)
}

#[test]
fn the_amount_asked_for_is_committed_without_own_removals() {
    for amount in 0..=3 {
        for _ in 0..5 {
            let mut user = user(waiting());
            let d = user.commit_to_proposals(s("g"), amount).ok().unwrap();
            assert_eq!(d.references, vec![vec![11], vec![14]]);
            let (left, d) = dropped(&mut user, d);
            let d = user
                .invalid_dropped(d, ProposalsDropped { state: left, result: Ok(()) })
                .ok()
                .unwrap();
            assert_eq!(d.references.len(), 3 - amount);
            let (left, d) = dropped(&mut user, d);
            let c = user
                .surplus_dropped(d, ProposalsDropped { state: left, result: Ok(()) })
                .ok()
                .unwrap();
            assert_eq!(c.proposals.len(), amount);
            assert!(!c.proposals.contains(&CGKAAction::Remove(s("me"), 0)));
        }
    }
}

#[test]
fn chosen_proposals_are_dropped_by_reference() {
    let mut user = user(vec![]);
    let d = DropProposals { group_name: s("g"), amount: 2, references: vec![] };
    let pending = vec![
        queued(20, Proposal::Update),
        queued(21, Proposal::Update),
        queued(22, Proposal::Update),
    ];
    let d = user.surplus_chosen(d, state(&["ann", "me"], pending), &vec![2, 0]);
    assert_eq!((d.amount, d.references), (2, vec![vec![22], vec![20]]));
    assert_eq!(user.number_of_members(&s("g")), 2);
}

#[test]
fn proposals_that_stay_are_an_error() {
    let mut user = user(waiting());
    let d = user.commit_to_proposals(s("g"), 1).ok().unwrap();
    let reply = || ProposalsDropped { state: state(&["me"], vec![]), result: Err(s("Lost")) };
    assert_eq!(
        user.invalid_dropped(d, reply()).err(),
        Some(s("Failed to remove proposal: Lost"))
    );
    let d = DropProposals { group_name: s("g"), amount: 1, references: vec![] };
    assert_eq!(
        user.surplus_dropped(d, reply()).err(),
        Some(s("Failed to remove proposal: Lost"))
    );
    assert_eq!(user.commit_to_proposals(s("h"), 1).err(), Some(s("Unknown group")));
}

#[test]
fn committed_proposals_are_sent_as_actions() {
    let mut user = user(vec![]);
    let d = DropProposals { group_name: s("g"), amount: 3, references: vec![] };
    let pending = vec![
        queued(1, Proposal::Add(b"eve".to_vec())),
        queued(2, Proposal::Remove(2)),
        queued(3, Proposal::Update),
        queued(4, Proposal::Add(b"zoe".to_vec())),
    ];
    let left = state(&["ann", "me", "bob"], pending);
    let c = user.surplus_dropped(d, ProposalsDropped { state: left, result: Ok(()) }).ok().unwrap();
    assert_eq!(
        c.proposals,
        vec![
            CGKAAction::Invite(s("eve"), 0),
            CGKAAction::Remove(s("bob"), 0),
            CGKAAction::Update(0),
            CGKAAction::Invite(s("zoe"), 0),
        ]
    );
    let send = user.proposals_committed(c, Ok(bundle()), 40, 50).ok().unwrap();
    assert_eq!(action_of(&send).to_text(), "Commit 4 7");
    let welcome = send.pending.welcome.unwrap();
    assert_eq!((welcome.welcome, welcome.recipients), (vec![2], vec![s("eve"), s("zoe")]));
    assert_eq!(send.pending.group_info, Some(vec![3]));
}

#[test]
fn a_commit_without_additions_welcomes_no_one() {
    let mut user = user(vec![]);
    let d = || DropProposals { group_name: s("g"), amount: 0, references: vec![] };
    let left = || ProposalsDropped { state: state(&["ann", "me"], vec![]), result: Ok(()) };
    let c = user.surplus_dropped(d(), left()).ok().unwrap();
    let reply = CommitBundle { commit: vec![1], welcome: None, group_info: None };
    let send = user.proposals_committed(c, Ok(reply), 40, 50).ok().unwrap();
    assert!(send.pending.welcome.is_none() && send.pending.group_info.is_none());
    let c = user.surplus_dropped(d(), left()).ok().unwrap();
    assert_eq!(user.proposals_committed(c, Err(s("e")), 40, 50).err(), Some(s("e")));
}

#[test]
fn an_invitation_needs_a_contact_and_a_group() {
    let user = user(vec![]);
    assert_eq!(
        user.invite(&mut None, s("nobody"), s("g")).err(),
        Some(s("No contact with name nobody known."))
    );
    let (invite, call) = user.invite(&mut None, s("Eve"), s("h")).ok().unwrap();
    assert!(matches!(call, DirectoryCall::Server(id) if id == b"eve".to_vec()));
    assert_eq!(
        user.invite_key_package(invite, Ok(vec![1])).err(),
        Some(s("No group with name h known."))
    );
    let (invite, _) = user.invite(&mut None, s("Eve"), s("g")).ok().unwrap();
    assert_eq!(user.invite_key_package(invite, Err(s("none"))).err(), Some(s("none")));
}

#[test]
fn an_invitation_is_sent_with_its_times() {
    let mut user = user(vec![]);
    let mut prof = None;
    let (invite, _) = user.invite(&mut prof, s("Eve"), s("g")).ok().unwrap();
    let (invite, kp) = user.invite_key_package(invite, Ok(vec![1])).ok().unwrap();
    assert_eq!(kp, vec![1]);
    let reply = AddBundle { commit: vec![0; 7], welcome: vec![5], group_info: Some(vec![6]) };
    let added = user.member_added(invite, Ok(reply), 30).ok().unwrap();
    prof.as_mut().unwrap().add("export", 3);
    prof.as_mut().unwrap().add("merge_total", 10);
    let after = state(&["ann", "me", "bob", "eve"], vec![]);
    let send = user.addition_merged(&mut prof, added, Ok(after), 50).ok().unwrap();
    assert_eq!(
        action_of(&send).to_text(),
        "DeepCommit 7 || 0 0 0 0 0 0 0 0 0 0 0 || 0 0 || 3 || 10 0 0"
    );
    assert_eq!(send.pending.record.num_users, 4);
    let welcome = send.pending.welcome.unwrap();
    assert_eq!((welcome.welcome, welcome.recipients), (vec![5], vec![s("Eve")]));
    assert_eq!(prof.unwrap().get("export"), 0);
}

#[test]
fn an_invitation_can_fail_in_the_engine() {
    let mut user = user(vec![]);
    let (invite, _) = user.invite(&mut None, s("Eve"), s("g")).ok().unwrap();
    assert_eq!(
        user.member_added(invite, Err(s("full")), 30).err(),
        Some(s("Failed to add member to group - full"))
    );
    let (invite, _) = user.invite(&mut None, s("Eve"), s("g")).ok().unwrap();
    let reply = AddBundle { commit: vec![], welcome: vec![], group_info: None };
    let added = user.member_added(invite, Ok(reply), 30).ok().unwrap();
    let mut prof = Some(Profiler::new());
    assert_eq!(
        user.addition_merged(&mut prof, added, Err(s("stale")), 50).err(),
        Some(s("Error merging commit; stale"))
    );
    assert_eq!(user.number_of_members(&s("g")), 3);
}

#[test]
fn keys_are_refreshed_in_known_groups() {
    let user = user(vec![]);
    assert_eq!(user.update_state(&s("g")), Ok(()));
    assert_eq!(user.update_state(&s("h")), Err(s("No group with name h known.")));
    let send = user.state_updated(s("g"), Ok(bundle()), 40, 50).ok().unwrap();
    assert_eq!(*action_of(&send), CGKAAction::Update(7));
    assert!(send.pending.welcome.is_none());
    assert_eq!(
        user.state_updated(s("g"), Err(s("x")), 40, 50).err(),
        Some(s("Failed to self update - x"))
    );
}

#[test]
fn members_are_removed_by_their_leaf() {
    let user = user(vec![]);
    assert_eq!(user.remove(&s("bob"), &s("g")), Ok(2));
    assert_eq!(user.remove(&s("zed"), &s("g")), Err(s("Unknown member")));
    assert_eq!(user.remove(&s("bob"), &s("h")), Err(s("No group with name h known.")));
    let send = user.member_removed(s("bob"), s("g"), Ok(bundle()), 40, 50).ok().unwrap();
    assert_eq!(*action_of(&send), CGKAAction::Remove(s("bob"), 7));
    assert_eq!(
        user.member_removed(s("bob"), s("g"), Err(s("x")), 40, 50).err(),
        Some(s("Failed to remove member from group - x"))
    );
}

#[test]
fn joining_from_outside_enters_the_group() {
    let mut user = user(vec![]);
    user.groups.remove(&s("g"));
    let info = GroupInfoAndTree { group_info: vec![0; 12], ratchet_tree: None };
    let join = user.external_join(s("g"), &info);
    assert_eq!((join.gi_size, join.aad.clone()), (12, b"g AAD".to_vec()));
    assert!(matches!(&join.subscribe, Some(BrokerCall::Subscribe(g)) if g == "g"));
    let send =
        user.externally_joined(join, state(&["ann", "me"], vec![]), vec![0; 9], None, 40, 50);
    assert_eq!(*action_of(&send), CGKAAction::Join(9, 12));
    assert_eq!(user.active.get(&s("g")), Some(&(true, 0)));
    assert_eq!(user.list_of_groups(), vec![s("g")]);
}

#[test]
fn a_created_group_is_logged() {
    let mut user = user(vec![]);
    let create = user.create_group(&s("n"));
    assert_eq!((create.group_id, create.aad), (b"n".to_vec(), b"n AAD".to_vec()));
    assert!(matches!(create.subscribe, Some(BrokerCall::Subscribe(g)) if g == "n"));
    let created = user.group_created(s("n"), state(&["me"], vec![]), 40, 50);
    assert_eq!(user.active.get(&s("n")), Some(&(true, 0)));
    assert!(user.groups.get(&s("n")).is_none());
    assert!(matches!(user.created_group_published(created, Ok(())), Ok(CreatedStep::Done(None))));
    assert!(user.groups.get(&s("n")).is_some());
    let record = &user.file_buffer[0];
    assert_eq!((record.num_users, record.elapsed_time), (1, 40));
    assert_eq!(record.action, CGKAAction::Create);
}

#[test]
fn a_group_is_created_only_with_its_subscription() {
    let user = user(vec![]);
    let create = user.create_group(&s("n"));
    assert_eq!(user.new_group_subscribed(create, Err(s("offline"))).err(), Some(s("offline")));
    let create = user.create_group(&s("n"));
    let create = user.new_group_subscribed(create, Ok(())).ok().unwrap();
    assert_eq!(create.group_id, b"n".to_vec());
}

#[test]
fn an_orchestrated_creator_is_its_first_member() {
    let mut user = user(vec![]);
    user.agent_type = AgentType::Orchestrator(Table::new());
    let created = user.group_created(s("n"), state(&["me"], vec![]), 40, 50);
    let record = match user.created_group_published(created, Ok(())) {
        Ok(CreatedStep::Orchestrate(record, o)) => {
            assert!(o.active_members.is_empty());
            assert_eq!(o.commit.new_members, vec![s("me")]);
            assert_eq!((o.commit.total_members, o.commit.transcript_hash), (1, vec![9]));
            record
        }
        _ => panic!("the orchestrator is to be made"),
    };
    assert!(user.file_buffer.is_empty());
    let reply = OrchestratorReply { next_action: NextAction::Commit, known_members: vec![s("me")] };
    assert_eq!(user.created_group_orchestrated(s("n"), reply), "n");
    assert!(matches!(
        &user.agent_type,
        AgentType::Orchestrator(known) if *known.get(&s("n")).unwrap() == vec![s("me")]
    ));
    assert_eq!(user.created_group_announced(record.clone(), Err(s("closed"))), Err(s("closed")));
    assert_eq!(user.created_group_announced(record, Ok(())), Ok(None));
    assert_eq!(user.file_buffer.len(), 1);
}

#[test]
fn an_unpublished_group_is_not_entered() {
    let mut user = user(vec![]);
    let created = user.group_created(s("n"), state(&["me"], vec![]), 40, 50);
    assert_eq!(user.created_group_published(created, Err(s("down"))).err(), Some(s("down")));
    assert!(user.groups.get(&s("n")).is_none());
}

#[test]
fn chosen_places_differ_and_stay_below_the_bound() {
    for n in 0..8 {
        for amount in 0..=n {
            let mut chosen = choose_places(n, amount);
            assert_eq!(chosen.len(), amount);
            assert!(chosen.iter().all(|i| *i < n));
            chosen.sort();
            chosen.dedup();
            assert_eq!(chosen.len(), amount);
        }
    }
}

#[test]
fn choices_are_up_to_chance() {
    let first = choose_places(30, 15);
    assert!((0..50).any(|_| choose_places(30, 15) != first));
}

#[test]
fn the_clock_counts_nanoseconds() {
    let now = timestamp_nanos().unwrap();
    assert!(now > 1_600_000_000_000_000_000);
    assert!(timestamp_nanos().unwrap() >= now - 1_000_000_000);
}

#[test]
fn instants_are_counted_as_long_as_they_fit() {
    assert_eq!(nanos_of(0, 0), Some(0));
    assert_eq!(nanos_of(1, 5), Some(1_000_000_005));
    assert_eq!(nanos_of(-1, 999_999_999), Some(-1));
    assert_eq!(nanos_of(9_223_372_036, 854_775_807), Some(i64::MAX));
    assert_eq!(nanos_of(9_223_372_036, 854_775_808), None);
    assert_eq!(nanos_of(-9_223_372_037, 145_224_192), Some(i64::MIN));
    assert_eq!(nanos_of(-9_223_372_037, 145_224_191), None);
    assert_eq!(nanos_of(i64::MAX, 0), None);
    assert_eq!(nanos_of(i64::MIN, 0), None);
}
