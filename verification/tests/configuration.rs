use config::{Config, Value, ValueKind};
use emulated_client::delivery::{DeliveryService, Directory};
use emulated_client::fraction::Fraction;
use emulated_client::parameters::{
    replicas, Behaviour, DSType, GossipSubConfig, Paradigm, Sections, UserParameters, INVITE_CHANCE,
    JOIN_CHANCE, MESSAGE_CHANCE, REMOVE_CHANCE, UPDATE_CHANCE,
};
use emulated_client::startup::{create_user_from_ds, mqtt_endpoint};
use emulated_client::user::AgentType;

type Parameters = UserParameters<&'static str, &'static str>;

fn settings(pairs: Vec<(&str, Value)>) -> Config {
    let mut builder = Config::builder();
    for (key, value) in pairs {
        builder = builder.set_override(key, value).unwrap();
    }
    builder.build().unwrap()
}

fn text(s: &str) -> Value {
    Value::new(None, ValueKind::String(s.to_string()))
}

fn number(n: i64) -> Value {
    Value::new(None, ValueKind::I64(n))
}

fn fraction(x: f64) -> Value {
    Value::new(None, ValueKind::Float(x))
}

fn sections() -> Sections<&'static str, &'static str> {
    Sections {
        gossipsub: Some(GossipSubConfig { directory: Directory::Kademlia }),
        orchestrated: Some("orchestrated section"),
        independent: Some("independent section"),
        independent_default: "independent default",
    }
}

fn exceeds(a: u64, b: u64, c: u64) -> bool {
    f64::from_bits(a) + f64::from_bits(b) + f64::from_bits(c) > 1.0
}

fn read(config: &Config) -> Parameters {
    Parameters::new_from_settings(config, sections(), exceeds).unwrap()
}

fn is_default(p: &Parameters) {
    assert!(matches!(p.delivery_service, DSType::Request));
    assert_eq!(p.server_url, "http://localhost:8080/");
    assert!(!p.external_join);
    assert_eq!(f64::from_bits(p.join_chance.bits), 0.05);
    assert_eq!(f64::from_bits(p.message_chance.bits), 0.4);
    assert_eq!((p.message_length_min, p.message_length_max), (200, 2000));
    assert_eq!(p.groups, vec!["group_AAA".to_string()]);
    assert_eq!(p.max_members, 1000);
    assert_eq!(f64::from_bits(p.invite_chance.bits), 0.6);
    assert_eq!(f64::from_bits(p.remove_chance.bits), 0.1);
    assert_eq!(f64::from_bits(p.update_chance.bits), 0.3);
    assert!(matches!(p.behaviour, Behaviour::Independent("independent default")));
    assert!(matches!(p.paradigm, Paradigm::Commit));
    assert_eq!(p.proposals_per_commit, 2);
    assert_eq!(p.mqtt_url, "tcp://localhost:1883");
}

#[test]
fn chances_are_the_bits_of_doubles() {
    assert_eq!(JOIN_CHANCE, 0.05f64.to_bits());
    assert_eq!(MESSAGE_CHANCE, 0.4f64.to_bits());
    assert_eq!(INVITE_CHANCE, 0.6f64.to_bits());
    assert_eq!(REMOVE_CHANCE, 0.1f64.to_bits());
    assert_eq!(UPDATE_CHANCE, 0.3f64.to_bits());
}

#[test]
fn the_defaults_hold_without_settings() {
    is_default(&Parameters::default("independent default"));
    is_default(&read(&settings(vec![])));
}

#[test]
fn every_setting_is_read() {
    let groups = Value::new(None, ValueKind::Array(vec![text("a"), text("b"), number(3)]));
    let p = read(&settings(vec![
        ("mqtt.url", text("tcp://broker:1999")),
        ("cgka.ds", text("mqtt")),
        ("http_server.url", text("http://server.example:81/x")),
        ("cgka.external_join", Value::new(None, ValueKind::Boolean(true))),
        ("cgka.join_chance", fraction(0.25)),
        ("cgka.message_chance", fraction(0.5)),
        ("cgka.message_length_min", number(1)),
        ("cgka.message_length_max", number(2)),
        ("meta.behaviour", text("orchestrated")),
        ("cgka.groups", groups),
        ("cgka.max_members", number(17)),
        ("paradigm.paradigm", text("propose")),
        ("paradigm.proposals_per_commit", number(4)),
        ("paradigm.invite_chance", fraction(0.5)),
        ("paradigm.remove_chance", fraction(0.25)),
        ("paradigm.update_chance", fraction(0.25)),
    ]));
    assert!(matches!(&p.delivery_service, DSType::PubSubMQTT(url) if url == "tcp://broker:1999"));
    assert_eq!(p.server_url, "http://server.example:81/x");
    assert!(p.external_join);
    assert_eq!(f64::from_bits(p.join_chance.bits), 0.25);
    assert_eq!(f64::from_bits(p.message_chance.bits), 0.5);
    assert_eq!((p.message_length_min, p.message_length_max), (1, 2));
    assert!(matches!(p.behaviour, Behaviour::Orchestrated("orchestrated section")));
    assert_eq!(p.groups, vec!["a".to_string(), "b".to_string(), "3".to_string()]);
    assert_eq!(p.max_members, 17);
    assert!(matches!(&p.paradigm, Paradigm::Named(name) if name == "propose"));
    assert_eq!(p.proposals_per_commit, 4);
    assert_eq!(f64::from_bits(p.invite_chance.bits), 0.5);
    assert_eq!(f64::from_bits(p.remove_chance.bits), 0.25);
    assert_eq!(f64::from_bits(p.update_chance.bits), 0.25);
    assert_eq!(p.mqtt_url, "tcp://broker:1999");
}

#[test]
fn delivery_services_go_by_their_names() {
    let p = read(&settings(vec![("cgka.ds", text("gossipsub"))]));
    assert!(matches!(
        p.delivery_service,
        DSType::GossipSub(GossipSubConfig { directory: Directory::Kademlia })
    ));
    let p = read(&settings(vec![("cgka.ds", text("mqtt"))]));
    assert!(matches!(p.delivery_service, DSType::PubSubMQTT(url) if url == "tcp://localhost:1883"));
    let p = read(&settings(vec![("cgka.ds", text("pigeons"))]));
    assert!(matches!(p.delivery_service, DSType::Request));
}

#[test]
fn other_behaviours_are_independent() {
    let p = read(&settings(vec![("meta.behaviour", text("anything"))]));
    assert!(matches!(p.behaviour, Behaviour::Independent("independent section")));
}

#[test]
fn negative_numbers_wrap_around() {
    let p = read(&settings(vec![("cgka.max_members", number(-1))]));
    assert_eq!(p.max_members, usize::MAX);
}

#[test]
fn too_large_chances_are_refused() {
    let config = settings(vec![("paradigm.update_chance", fraction(0.9))]);
    match Parameters::new_from_settings(&config, sections(), exceeds) {
        Err(e) => assert_eq!(
            e,
            "The sum of \"invite_chance\", \"remove_chance\", \"update_chance\" cannot be greater than 1.0"
        ),
        Ok(_) => panic!("the chances are too large"),
    }
    assert!(matches!(
        Parameters::try_new_from_settings(&config, sections(), exceeds),
        Some(Err(_))
    ));
}

#[test]
fn unreadable_settings_give_no_parameters() {
    let try_read = |config: &Config, sections| {
        Parameters::try_new_from_settings(config, sections, exceeds)
    };
    assert!(try_read(&settings(vec![("http_server.url", text("not a url"))]), sections()).is_none());
    let without = || Sections::<&str, &str> {
        gossipsub: None,
        orchestrated: None,
        independent: None,
        independent_default: "default",
    };
    assert!(try_read(&settings(vec![("cgka.ds", text("gossipsub"))]), without()).is_none());
    assert!(try_read(&settings(vec![("meta.behaviour", text("orchestrated"))]), without()).is_none());
    assert!(try_read(&settings(vec![("meta.behaviour", text("x"))]), without()).is_none());
    assert!(matches!(try_read(&settings(vec![]), without()), Some(Ok(_))));
}

#[test]
fn replicas_are_counted() {
    assert_eq!(replicas(&settings(vec![])), 1);
    assert_eq!(replicas(&settings(vec![("meta.replicas", number(12))])), 12);
}

#[test]
fn replicas_are_numbered_users() {
    let p = read(&settings(vec![("cgka.ds", text("gossipsub"))]));
    let users = create_user_from_ds(&p, 11, &"User_1".to_string());
    assert_eq!(users.len(), 11);
    assert_eq!(users[0].username, "User_1_0");
    assert_eq!(users[10].username, "User_1_10");
    for user in &users {
        assert_eq!(user.ds, DeliveryService::GossipSub(Directory::Kademlia));
        assert!(matches!(user.agent_type, AgentType::Independent));
        assert!(user.list_of_groups().is_empty());
    }
    let mut names: Vec<&String> = users.iter().map(|u| &u.username).collect();
    names.sort();
    names.dedup();
    assert_eq!(names.len(), 11);
}

#[test]
fn orchestrated_parameters_make_orchestrated_users() {
    let p = read(&settings(vec![("meta.behaviour", text("orchestrated"))]));
    let users = create_user_from_ds(&p, 2, &"u".to_string());
    for user in &users {
        assert_eq!(user.ds, DeliveryService::Request);
        assert!(matches!(&user.agent_type, AgentType::Orchestrator(known) if known.len() == 0));
    }
    let p = read(&settings(vec![("cgka.ds", text("mqtt"))]));
    assert_eq!(create_user_from_ds(&p, 1, &"u".to_string())[0].ds, DeliveryService::PubSubMQTT);
}

#[test]
fn a_broker_is_reached_at_host_and_port() {
    assert_eq!(
        mqtt_endpoint(&"tcp://localhost:1883".to_string()),
        Some(("localhost".to_string(), 1883))
    );
    assert_eq!(mqtt_endpoint(&"tcp://localhost".to_string()), None);
    assert_eq!(mqtt_endpoint(&"mailto:x@y".to_string()), None);
    assert_eq!(mqtt_endpoint(&"no url".to_string()), None);
}

#[test]
fn chances_compare_as_doubles() {
    let chance = |x: f64| Fraction { bits: x.to_bits() };
    let values = [0.0, -0.0, 0.3, -0.3, 1.0, f64::INFINITY, f64::NEG_INFINITY, f64::NAN, -f64::NAN];
    for x in values {
        for y in values {
            assert_eq!(chance(x) == chance(y), x == y, "{} {}", x, y);
        }
    }
}

#[test]
fn parameters_are_compared_and_copied() {
    let p = read(&settings(vec![("cgka.ds", text("mqtt"))]));
    let mut q = p.clone();
    assert!(p == q);
    q.join_chance = Fraction { bits: 0.06f64.to_bits() };
    assert!(p != q);
    let zero = |x: f64| read(&settings(vec![("cgka.join_chance", fraction(x))]));
    assert!(zero(0.0) == zero(-0.0));
    assert!(zero(f64::NAN) != zero(f64::NAN));
    assert!(p != read(&settings(vec![])));
}
