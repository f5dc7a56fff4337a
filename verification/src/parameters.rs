//! The parameters of an emulated user, read from a configuration.
use crate::delivery::Directory;
use crate::fraction::Fraction;
use crate::settings::{
    at, at_or, config_bools, config_flat_lists, config_fractions, config_ints, config_lists,
    config_strings, get_bool, get_fraction, get_int, get_list, get_string, is_setting, parse_url,
    url_normal_form,
};
use crate::text::{copy_texts, same_text, texts};
use config::Config;
use vstd::prelude::*;
use vstd::string::*;

verus! {

/// What the choice of a gossip network decides for a user.
#[derive(Debug, Clone, Copy, PartialEq, Eq, Structural)]
pub struct GossipSubConfig {
    pub directory: Directory,
}

/// The delivery service to set up.
#[derive(Debug, PartialEq)]
pub enum DSType {
    Request,
    /// An MQTT broker at a URL.
    PubSubMQTT(String),
    GossipSub(GossipSubConfig),
}

/// How a user decides when to act, with the parameters of that.
#[derive(Debug, PartialEq)]
pub enum Behaviour<O, I> {
    Orchestrated(O),
    Independent(I),
}

/// Whether users commit at once or propose first, under the name that the agents know.
#[derive(Debug, PartialEq)]
pub enum Paradigm {
    Commit,
    Named(String),
}

/// The sections of a configuration that other parts of the client read for themselves;
/// `None` stands for a section that could not be read.
pub struct Sections<O, I> {
    pub gossipsub: Option<GossipSubConfig>,
    pub orchestrated: Option<O>,
    pub independent: Option<I>,
    /// Parameters of independent behaviour for a configuration that names no behaviour.
    pub independent_default: I,
}

/// The parameters of an emulated user. Their debug text, with the chances as numbers and
/// the URL in its parts, is the program's.
#[derive(PartialEq)]
pub struct UserParameters<O, I> {
    pub delivery_service: DSType,
    /// The URL of the server in normal form.
    pub server_url: String,
    pub external_join: bool,
    pub join_chance: Fraction,
    pub message_chance: Fraction,
    pub message_length_min: usize,
    pub message_length_max: usize,
    pub groups: Vec<String>,
    pub max_members: usize,
    pub invite_chance: Fraction,
    pub remove_chance: Fraction,
    pub update_chance: Fraction,
    pub behaviour: Behaviour<O, I>,
    pub paradigm: Paradigm,
    pub proposals_per_commit: usize,
    pub mqtt_url: String,
}

impl Clone for DSType {
    fn clone(&self) -> (r: Self)
        ensures
            r == *self,
    {
        match self {
            DSType::Request => DSType::Request,
            DSType::PubSubMQTT(url) => DSType::PubSubMQTT(url.clone()),
            DSType::GossipSub(config) => DSType::GossipSub(*config),
        }
    }
}

impl<O: Clone, I: Clone> Clone for Behaviour<O, I> {
    fn clone(&self) -> (r: Self)
        ensures
            match *self {
                Behaviour::Orchestrated(o) => r matches Behaviour::Orchestrated(c) && cloned(o, c),
                Behaviour::Independent(i) => r matches Behaviour::Independent(c) && cloned(i, c),
            },
    {
        match self {
            Behaviour::Orchestrated(o) => Behaviour::Orchestrated(o.clone()),
            Behaviour::Independent(i) => Behaviour::Independent(i.clone()),
        }
    }
}

impl Clone for Paradigm {
    fn clone(&self) -> (r: Self)
        ensures
            r == *self,
    {
        match self {
            Paradigm::Commit => Paradigm::Commit,
            Paradigm::Named(name) => Paradigm::Named(name.clone()),
        }
    }
}

impl<O: Clone, I: Clone> Clone for UserParameters<O, I> {
    fn clone(&self) -> (r: Self)
        ensures
            r == (UserParameters { groups: r.groups, behaviour: r.behaviour, ..*self }),
            r.groups@ == self.groups@,
            match self.behaviour {
                Behaviour::Orchestrated(o) => r.behaviour matches Behaviour::Orchestrated(c)
                    && cloned(o, c),
                Behaviour::Independent(i) => r.behaviour matches Behaviour::Independent(c)
                    && cloned(i, c),
            },
    {
        UserParameters {
            delivery_service: self.delivery_service.clone(),
            server_url: self.server_url.clone(),
            external_join: self.external_join,
            join_chance: self.join_chance,
            message_chance: self.message_chance,
            message_length_min: self.message_length_min,
            message_length_max: self.message_length_max,
            groups: copy_texts(&self.groups),
            max_members: self.max_members,
            invite_chance: self.invite_chance,
            remove_chance: self.remove_chance,
            update_chance: self.update_chance,
            behaviour: self.behaviour.clone(),
            paradigm: self.paradigm.clone(),
            proposals_per_commit: self.proposals_per_commit,
            mqtt_url: self.mqtt_url.clone(),
        }
    }
}

/// The double 0.05.
pub const JOIN_CHANCE: u64 = 0x3fa999999999999a;

/// The double 0.4.
pub const MESSAGE_CHANCE: u64 = 0x3fd999999999999a;

/// The double 0.6.
pub const INVITE_CHANCE: u64 = 0x3fe3333333333333;

/// The double 0.1.
pub const REMOVE_CHANCE: u64 = 0x3fb999999999999a;

/// The double 0.3.
pub const UPDATE_CHANCE: u64 = 0x3fd3333333333333;

/// The message for chances that are too large together.
pub open spec fn chances_too_large() -> Seq<char> {
    "The sum of \"invite_chance\", \"remove_chance\", \"update_chance\" cannot be greater than 1.0"@
}

/// The server of a configuration can be set up: what it holds as the URL of the server,
/// if it holds any, is a URL.
pub open spec fn server_readable(settings: config::Config) -> bool {
    config_strings(settings).contains_key("http_server.url"@) ==> url_normal_form(
        config_strings(settings)["http_server.url"@],
    ) is Some
}

impl<O, I> Sections<O, I> {
    /// The sections that a configuration asks for could be read.
    pub open spec fn readable(self, settings: config::Config) -> bool {
        &&& at(config_strings(settings), "cgka.ds"@) == Some("gossipsub"@) ==> self.gossipsub is Some
        &&& match at(config_strings(settings), "meta.behaviour"@) {
            Some(b) => if b == "orchestrated"@ {
                self.orchestrated is Some
            } else {
                self.independent is Some
            },
            None => true,
        }
    }
}

impl<O, I> UserParameters<O, I> {
    /// The parameters for a configuration that holds none.
    pub open spec fn is_default(self, independent: I) -> bool {
        &&& self.delivery_service is Request
        &&& self.server_url@ == "http://localhost:8080/"@
        &&& !self.external_join
        &&& self.join_chance.bits == JOIN_CHANCE
        &&& self.message_chance.bits == MESSAGE_CHANCE
        &&& self.message_length_min == 200
        &&& self.message_length_max == 2000
        &&& texts(self.groups@) == seq!["group_AAA"@]
        &&& self.max_members == 1000
        &&& self.invite_chance.bits == INVITE_CHANCE
        &&& self.remove_chance.bits == REMOVE_CHANCE
        &&& self.update_chance.bits == UPDATE_CHANCE
        &&& self.behaviour == Behaviour::<O, I>::Independent(independent)
        &&& self.paradigm is Commit
        &&& self.proposals_per_commit == 2
        &&& self.mqtt_url@ == "tcp://localhost:1883"@
    }

    /// The parameters for a configuration that holds none.
    pub fn default(independent: I) -> (r: Self)
        ensures
            r.is_default(independent),
    {
        let server_url = parse_url("http://localhost:8080").unwrap();
        let groups = vec!["group_AAA".to_owned()];
        assert(texts(groups@) =~= seq!["group_AAA"@]);
        UserParameters {
            delivery_service: DSType::Request,
            server_url,
            external_join: false,
            join_chance: Fraction { bits: JOIN_CHANCE },
            message_chance: Fraction { bits: MESSAGE_CHANCE },
            message_length_min: 200,
            message_length_max: 2000,
            groups,
            max_members: 1000,
            invite_chance: Fraction { bits: INVITE_CHANCE },
            remove_chance: Fraction { bits: REMOVE_CHANCE },
            update_chance: Fraction { bits: UPDATE_CHANCE },
            behaviour: Behaviour::Independent(independent),
            paradigm: Paradigm::Commit,
            proposals_per_commit: 2,
            mqtt_url: "tcp://localhost:1883".to_owned(),
        }
    }

    /// The URL of the MQTT broker that a configuration names.
    pub open spec fn mqtt_url_of(settings: config::Config) -> Seq<char> {
        at_or(config_strings(settings), "mqtt.url"@, "tcp://localhost:1883"@)
    }

    /// The delivery service is the one that the configuration names; any other name, or
    /// none, stands for requests to the server.
    pub open spec fn has_delivery_service(self, settings: config::Config, sections: Sections<O, I>) -> bool {
        match at(config_strings(settings), "cgka.ds"@) {
            Some(name) => if name == "mqtt"@ {
                self.delivery_service matches DSType::PubSubMQTT(url) && url@ == Self::mqtt_url_of(
                    settings,
                )
            } else if name == "gossipsub"@ {
                self.delivery_service == DSType::GossipSub(sections.gossipsub->Some_0)
            } else {
                self.delivery_service is Request
            },
            None => self.delivery_service is Request,
        }
    }

    /// The behaviour is the one that the configuration names; any other name stands for
    /// independent behaviour, and none for its defaults.
    pub open spec fn has_behaviour(self, settings: config::Config, sections: Sections<O, I>) -> bool {
        self.behaviour == match at(config_strings(settings), "meta.behaviour"@) {
            Some(name) => if name == "orchestrated"@ {
                Behaviour::<O, I>::Orchestrated(sections.orchestrated->Some_0)
            } else {
                Behaviour::<O, I>::Independent(sections.independent->Some_0)
            },
            None => Behaviour::<O, I>::Independent(sections.independent_default),
        }
    }

    /// The chances of the three actions that exclude each other.
    pub open spec fn chances(settings: config::Config) -> (u64, u64, u64) {
        (
            at_or(config_fractions(settings), "paradigm.invite_chance"@, INVITE_CHANCE),
            at_or(config_fractions(settings), "paradigm.remove_chance"@, REMOVE_CHANCE),
            at_or(config_fractions(settings), "paradigm.update_chance"@, UPDATE_CHANCE),
        )
    }

    /// The parameters are those of the configuration, with defaults for what it lacks.
    pub open spec fn follows(self, settings: config::Config, sections: Sections<O, I>) -> bool {
        &&& self.has_delivery_service(settings, sections)
        &&& self.has_behaviour(settings, sections)
        &&& match at(config_strings(settings), "http_server.url"@) {
            Some(text) => Some(self.server_url@) == url_normal_form(text),
            None => self.server_url@ == "http://localhost:8080/"@,
        }
        &&& self.external_join == at_or(config_bools(settings), "cgka.external_join"@, false)
        &&& self.join_chance.bits == at_or(
            config_fractions(settings),
            "cgka.join_chance"@,
            JOIN_CHANCE,
        )
        &&& self.message_chance.bits == at_or(
            config_fractions(settings),
            "cgka.message_chance"@,
            MESSAGE_CHANCE,
        )
        &&& self.message_length_min == at_or(
            config_ints(settings),
            "cgka.message_length_min"@,
            200,
        ) as usize
        &&& self.message_length_max == at_or(
            config_ints(settings),
            "cgka.message_length_max"@,
            2000,
        ) as usize
        &&& !config_lists(settings).contains("cgka.groups"@) ==> texts(self.groups@) == seq![
            "group_AAA"@,
        ]
        &&& config_flat_lists(settings).contains_key("cgka.groups"@) ==> texts(self.groups@)
            == config_flat_lists(settings)["cgka.groups"@]
        &&& self.max_members == at_or(config_ints(settings), "cgka.max_members"@, 1000) as usize
        &&& (self.invite_chance.bits, self.remove_chance.bits, self.update_chance.bits)
            == Self::chances(settings)
        &&& match at(config_strings(settings), "paradigm.paradigm"@) {
            Some(name) => self.paradigm matches Paradigm::Named(n) && n@ == name,
            None => self.paradigm is Commit,
        }
        &&& self.proposals_per_commit == at_or(
            config_ints(settings),
            "paradigm.proposals_per_commit"@,
            2,
        ) as usize
        &&& self.mqtt_url@ == Self::mqtt_url_of(settings)
    }

    fn delivery_service_from(
        settings: &Config,
        mqtt_url: &String,
        gossipsub: Option<GossipSubConfig>,
    ) -> (r: DSType)
        requires
            at(config_strings(*settings), "cgka.ds"@) == Some("gossipsub"@) ==> gossipsub is Some,
        ensures
            match at(config_strings(*settings), "cgka.ds"@) {
                Some(name) => if name == "mqtt"@ {
                    r == DSType::PubSubMQTT(*mqtt_url)
                } else if name == "gossipsub"@ {
                    r == DSType::GossipSub(gossipsub->Some_0)
                } else {
                    r is Request
                },
                None => r is Request,
            },
    {
        match get_string(settings, "cgka.ds") {
            Some(name) => {
                if same_text(name.as_str(), "mqtt") {
                    DSType::PubSubMQTT(mqtt_url.clone())
                } else if same_text(name.as_str(), "gossipsub") {
                    DSType::GossipSub(gossipsub.unwrap())
                } else {
                    DSType::Request
                }
            },
            None => DSType::Request,
        }
    }

    fn behaviour_from(
        settings: &Config,
        orchestrated: Option<O>,
        independent: Option<I>,
        independent_default: I,
    ) -> (r: Behaviour<O, I>)
        requires
            match at(config_strings(*settings), "meta.behaviour"@) {
                Some(b) => if b == "orchestrated"@ {
                    orchestrated is Some
                } else {
                    independent is Some
                },
                None => true,
            },
        ensures
            r == match at(config_strings(*settings), "meta.behaviour"@) {
                Some(name) => if name == "orchestrated"@ {
                    Behaviour::<O, I>::Orchestrated(orchestrated->Some_0)
                } else {
                    Behaviour::<O, I>::Independent(independent->Some_0)
                },
                None => Behaviour::<O, I>::Independent(independent_default),
            },
    {
        match get_string(settings, "meta.behaviour") {
            Some(name) => {
                if same_text(name.as_str(), "orchestrated") {
                    Behaviour::Orchestrated(orchestrated.unwrap())
                } else {
                    Behaviour::Independent(independent.unwrap())
                }
            },
            None => Behaviour::Independent(independent_default),
        }
    }

    /// Reads the parameters from a configuration. `sum_exceeds_one` tells of three doubles,
    /// given by their bits, whether their sum is greater than one; where it says so of the
    /// chances to invite, remove and update, the configuration is refused.
    pub fn new_from_settings<F: Fn(u64, u64, u64) -> bool>(
        settings: &Config,
        sections: Sections<O, I>,
        sum_exceeds_one: F,
    ) -> (r: Result<Self, String>)
        requires
            server_readable(*settings),
            sections.readable(*settings),
            forall|a: u64, b: u64, c: u64| #[trigger]
                call_requires(sum_exceeds_one, (a, b, c)),
        ensures
            match r {
                Ok(p) => p.follows(*settings, sections) && call_ensures(
                    sum_exceeds_one,
                    Self::chances(*settings),
                    false,
                ),
                Err(e) => e@ == chances_too_large() && call_ensures(
                    sum_exceeds_one,
                    Self::chances(*settings),
                    true,
                ),
            },
    {
        let mqtt_url = or_text(get_string(settings, "mqtt.url"), "tcp://localhost:1883");
        let delivery_service = Self::delivery_service_from(settings, &mqtt_url, sections.gossipsub);
        let server_url = match get_string(settings, "http_server.url") {
            Some(text) => parse_url(text.as_str()).unwrap(),
            None => parse_url("http://localhost:8080").unwrap(),
        };
        let external_join = get_bool(settings, "cgka.external_join").unwrap_or(false);
        let join_chance: u64 = get_fraction(settings, "cgka.join_chance").unwrap_or(JOIN_CHANCE);
        let message_chance: u64 = get_fraction(settings, "cgka.message_chance").unwrap_or(
            MESSAGE_CHANCE,
        );
        let message_length_min: i64 = get_int(settings, "cgka.message_length_min").unwrap_or(200);
        let message_length_max: i64 = get_int(settings, "cgka.message_length_max").unwrap_or(2000);
        let behaviour = Self::behaviour_from(
            settings,
            sections.orchestrated,
            sections.independent,
            sections.independent_default,
        );
        let groups = match get_list(settings, "cgka.groups") {
            Some(list) => list,
            None => vec!["group_AAA".to_owned()],
        };
        assert(!config_lists(*settings).contains("cgka.groups"@) ==> texts(groups@) =~= seq![
            "group_AAA"@,
        ]);
        let max_members: i64 = get_int(settings, "cgka.max_members").unwrap_or(1000);
        let paradigm = match get_string(settings, "paradigm.paradigm") {
            Some(name) => Paradigm::Named(name),
            None => Paradigm::Commit,
        };
        let proposals_per_commit: i64 = get_int(
            settings,
            "paradigm.proposals_per_commit",
        ).unwrap_or(2);
        let invite_chance: u64 = get_fraction(settings, "paradigm.invite_chance").unwrap_or(
            INVITE_CHANCE,
        );
        let remove_chance: u64 = get_fraction(settings, "paradigm.remove_chance").unwrap_or(
            REMOVE_CHANCE,
        );
        let update_chance: u64 = get_fraction(settings, "paradigm.update_chance").unwrap_or(
            UPDATE_CHANCE,
        );
        if sum_exceeds_one(invite_chance, remove_chance, update_chance) {
            return Err(
                "The sum of \"invite_chance\", \"remove_chance\", \"update_chance\" cannot be greater than 1.0".to_owned(),
            );
        }
        Ok(
            UserParameters {
                delivery_service,
                server_url,
                external_join,
                join_chance: Fraction { bits: join_chance },
                message_chance: Fraction { bits: message_chance },
                message_length_min: #[verifier::truncate]
                (message_length_min as usize),
                message_length_max: #[verifier::truncate]
                (message_length_max as usize),
                groups,
                max_members: #[verifier::truncate]
                (max_members as usize),
                invite_chance: Fraction { bits: invite_chance },
                remove_chance: Fraction { bits: remove_chance },
                update_chance: Fraction { bits: update_chance },
                behaviour,
                paradigm,
                proposals_per_commit: #[verifier::truncate]
                (proposals_per_commit as usize),
                mqtt_url,
            },
        )
    }

    /// Reads the parameters from any configuration: nothing where the URL of the server
    /// or a section that it asks for cannot be read.
    pub fn try_new_from_settings<F: Fn(u64, u64, u64) -> bool>(
        settings: &Config,
        sections: Sections<O, I>,
        sum_exceeds_one: F,
    ) -> (r: Option<Result<Self, String>>)
        requires
            forall|a: u64, b: u64, c: u64| #[trigger]
                call_requires(sum_exceeds_one, (a, b, c)),
        ensures
            r is Some <==> server_readable(*settings) && sections.readable(*settings),
            match r {
                Some(Ok(p)) => p.follows(*settings, sections) && call_ensures(
                    sum_exceeds_one,
                    Self::chances(*settings),
                    false,
                ),
                Some(Err(e)) => e@ == chances_too_large() && call_ensures(
                    sum_exceeds_one,
                    Self::chances(*settings),
                    true,
                ),
                None => true,
            },
    {
        let server_ok = match get_string(settings, "http_server.url") {
            Some(text) => parse_url(text.as_str()).is_some(),
            None => true,
        };
        let ds_ok = match get_string(settings, "cgka.ds") {
            Some(name) => !same_text(name.as_str(), "gossipsub") || sections.gossipsub.is_some(),
            None => true,
        };
        let behaviour_ok = match get_string(settings, "meta.behaviour") {
            Some(name) => if same_text(name.as_str(), "orchestrated") {
                sections.orchestrated.is_some()
            } else {
                sections.independent.is_some()
            },
            None => true,
        };
        if server_ok && ds_ok && behaviour_ok {
            Some(Self::new_from_settings(settings, sections, sum_exceeds_one))
        } else {
            None
        }
    }
}

fn or_text(s: Option<String>, other: &str) -> (r: String)
    ensures
        r@ == match s {
            Some(text) => text@,
            None => other@,
        },
{
    match s {
        Some(text) => text,
        None => other.to_owned(),
    }
}

/// How many replicas of a user a configuration asks for.
pub fn replicas(settings: &Config) -> (r: usize)
    ensures
        r == at_or(config_ints(*settings), "meta.replicas"@, 1) as usize,
{
    let n: i64 = get_int(settings, "meta.replicas").unwrap_or(1);
    #[verifier::truncate]
    (n as usize)
}

/// A configuration that holds none of the settings gives the default parameters.
pub proof fn empty_settings_give_defaults<O, I>(
    p: UserParameters<O, I>,
    settings: config::Config,
    sections: Sections<O, I>,
)
    requires
        p.follows(settings, sections),
        forall|key: Seq<char>| #[trigger]
            is_setting(key) ==> !config_strings(settings).contains_key(key)
                && !config_ints(settings).contains_key(key) && !config_bools(settings).contains_key(
                key,
            ) && !config_fractions(settings).contains_key(key) && !config_lists(settings).contains(
                key,
            ),
    ensures
        p.is_default(sections.independent_default),
{
    assert(is_setting("mqtt.url"@) && is_setting("cgka.ds"@) && is_setting("http_server.url"@));
    assert(is_setting("cgka.external_join"@) && is_setting("cgka.join_chance"@));
    assert(is_setting("cgka.message_chance"@) && is_setting("cgka.message_length_min"@));
    assert(is_setting("cgka.message_length_max"@) && is_setting("meta.behaviour"@));
    assert(is_setting("cgka.groups"@) && is_setting("cgka.max_members"@));
    assert(is_setting("paradigm.paradigm"@) && is_setting("paradigm.proposals_per_commit"@));
    assert(is_setting("paradigm.invite_chance"@) && is_setting("paradigm.remove_chance"@));
    assert(is_setting("paradigm.update_chance"@));
}

} // verus!
