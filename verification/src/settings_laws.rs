//! What the settings of a configuration mean for the parameters of a user, and what the
//! parameters mean for the users that are set up.
use crate::delivery::DeliveryService;
use crate::parameters::{replicas, Behaviour, DSType, Paradigm, Sections, UserParameters};
use crate::settings::{
    config_bools, config_flat_lists, config_fractions, config_ints, config_lists, config_strings,
    url_host, url_normal_form, url_port,
};
use crate::startup::{create_client_agent, create_user_from_ds, mqtt_endpoint};
use crate::text_laws::{is_numeral, numerals_are_decimal};
use crate::user::{AgentType, User};
use vstd::prelude::*;

verus! {

/// A number that a configuration holds under a key is that of the parameter, taken into the
/// range of sizes; without one the parameter has its default.
pub open spec fn takes_number(settings: config::Config, key: Seq<char>, default: usize, value: usize) -> bool {
    &&& config_ints(settings).contains_key(key) ==> value == config_ints(settings)[key] as usize
    &&& !config_ints(settings).contains_key(key) ==> value == default
}

/// A fraction that a configuration holds under a key is that of the parameter, bit for bit;
/// without one the parameter has its default.
pub open spec fn takes_fraction(settings: config::Config, key: Seq<char>, default: u64, bits: u64) -> bool {
    &&& config_fractions(settings).contains_key(key) ==> bits == config_fractions(settings)[key]
    &&& !config_fractions(settings).contains_key(key) ==> bits == default
}

/// Every setting that the configuration holds is the value of its parameter, and every
/// parameter without a setting has its default.
pub open spec fn takes_settings<O, I>(
    p: UserParameters<O, I>,
    settings: config::Config,
    sections: Sections<O, I>,
) -> bool {
    let strings = config_strings(settings);
    let bools = config_bools(settings);
    &&& bools.contains_key("cgka.external_join"@) ==> p.external_join
        == bools["cgka.external_join"@]
    &&& !bools.contains_key("cgka.external_join"@) ==> !p.external_join
    &&& takes_fraction(settings, "cgka.join_chance"@, 0x3fa999999999999a, p.join_chance.bits)
    &&& takes_fraction(settings, "cgka.message_chance"@, 0x3fd999999999999a, p.message_chance.bits)
    &&& takes_fraction(settings, "paradigm.invite_chance"@, 0x3fe3333333333333, p.invite_chance.bits)
    &&& takes_fraction(settings, "paradigm.remove_chance"@, 0x3fb999999999999a, p.remove_chance.bits)
    &&& takes_fraction(settings, "paradigm.update_chance"@, 0x3fd3333333333333, p.update_chance.bits)
    &&& takes_number(settings, "cgka.message_length_min"@, 200, p.message_length_min)
    &&& takes_number(settings, "cgka.message_length_max"@, 2000, p.message_length_max)
    &&& takes_number(settings, "cgka.max_members"@, 1000, p.max_members)
    &&& takes_number(settings, "paradigm.proposals_per_commit"@, 2, p.proposals_per_commit)
    &&& strings.contains_key("mqtt.url"@) ==> p.mqtt_url@ == strings["mqtt.url"@]
    &&& !strings.contains_key("mqtt.url"@) ==> p.mqtt_url@ == "tcp://localhost:1883"@
    &&& strings.contains_key("http_server.url"@) ==> Some(p.server_url@) == url_normal_form(
        strings["http_server.url"@],
    )
    &&& !strings.contains_key("http_server.url"@) ==> p.server_url@ == "http://localhost:8080/"@
    &&& strings.contains_key("paradigm.paradigm"@) ==> (p.paradigm matches Paradigm::Named(name)
        && name@ == strings["paradigm.paradigm"@])
    &&& !strings.contains_key("paradigm.paradigm"@) ==> p.paradigm is Commit
    &&& strings.contains_key("cgka.ds"@) && strings["cgka.ds"@] == "mqtt"@ ==> (
    p.delivery_service matches DSType::PubSubMQTT(url) && url@ == p.mqtt_url@)
    &&& strings.contains_key("cgka.ds"@) && strings["cgka.ds"@] != "mqtt"@ && strings["cgka.ds"@]
        == "gossipsub"@ ==> (p.delivery_service matches DSType::GossipSub(config)
        && sections.gossipsub == Some(config))
    &&& (strings.contains_key("cgka.ds"@) ==> strings["cgka.ds"@] != "mqtt"@ && strings["cgka.ds"@]
        != "gossipsub"@) ==> p.delivery_service is Request
    &&& strings.contains_key("meta.behaviour"@) && strings["meta.behaviour"@] == "orchestrated"@
        ==> (p.behaviour matches Behaviour::Orchestrated(o) && sections.orchestrated == Some(o))
    &&& strings.contains_key("meta.behaviour"@) && strings["meta.behaviour"@] != "orchestrated"@
        ==> (p.behaviour matches Behaviour::Independent(i) && sections.independent == Some(i))
    &&& !strings.contains_key("meta.behaviour"@) ==> (p.behaviour matches Behaviour::Independent(i)
        && i == sections.independent_default)
    &&& config_flat_lists(settings).contains_key("cgka.groups"@) ==> {
        let items = config_flat_lists(settings)["cgka.groups"@];
        &&& p.groups@.len() == items.len()
        &&& forall|i: int| 0 <= i < items.len() ==> (#[trigger] p.groups@[i])@ == items[i]
    }
    &&& !config_lists(settings).contains("cgka.groups"@) ==> p.groups@.len() == 1 && p.groups@[0]@
        == "group_AAA"@
}

proof fn followed_settings_are_taken<O, I>(
    p: UserParameters<O, I>,
    settings: config::Config,
    sections: Sections<O, I>,
)
    requires
        p.follows(settings, sections),
        sections.readable(settings),
    ensures
        takes_settings(p, settings, sections),
{
    let names = p.groups@.map_values(|s: String| s@);
    assert(names.len() == p.groups@.len());
    if config_flat_lists(settings).contains_key("cgka.groups"@) {
        let items = config_flat_lists(settings)["cgka.groups"@];
        assert forall|i: int| 0 <= i < items.len() implies (#[trigger] p.groups@[i])@ == items[i] by {
            assert(names[i] == p.groups@[i]@);
        }
    }
    if !config_lists(settings).contains("cgka.groups"@) {
        assert(names[0] == p.groups@[0]@);
    }
}

/// The URL of the server that a configuration holds, and the sections that it asks for, can be
/// read.
pub open spec fn can_be_read<O, I>(settings: config::Config, sections: Sections<O, I>) -> bool {
    let strings = config_strings(settings);
    &&& strings.contains_key("http_server.url"@) ==> url_normal_form(
        strings["http_server.url"@],
    ) is Some
    &&& strings.contains_key("cgka.ds"@) && strings["cgka.ds"@] == "gossipsub"@
        ==> sections.gossipsub is Some
    &&& strings.contains_key("meta.behaviour"@) && strings["meta.behaviour"@] == "orchestrated"@
        ==> sections.orchestrated is Some
    &&& strings.contains_key("meta.behaviour"@) && strings["meta.behaviour"@] != "orchestrated"@
        ==> sections.independent is Some
}

/// The answer to the question whether three chances are too large together was asked of those
/// to invite, to remove and to update, in this order.
pub open spec fn judged<F: Fn(u64, u64, u64) -> bool>(
    settings: config::Config,
    sum_exceeds_one: F,
    verdict: bool,
) -> bool {
    exists|invite: u64, remove: u64, update: u64|
        takes_fraction(settings, "paradigm.invite_chance"@, 0x3fe3333333333333, invite)
            && takes_fraction(settings, "paradigm.remove_chance"@, 0x3fb999999999999a, remove)
            && takes_fraction(settings, "paradigm.update_chance"@, 0x3fd3333333333333, update)
            && #[trigger] call_ensures(sum_exceeds_one, (invite, remove, update), verdict)
}

/// The parameters that are read take every setting that the configuration holds. They are
/// refused only because the three chances are judged too large together, and not refused
/// where they are judged not to be.
pub proof fn settings_are_taken<O, I, F: Fn(u64, u64, u64) -> bool>(
    settings: config::Config,
    sections: Sections<O, I>,
    sum_exceeds_one: F,
    r: Result<UserParameters<O, I>, String>,
)
    requires
        call_ensures(
            UserParameters::<O, I>::new_from_settings::<F>,
            (&settings, sections, sum_exceeds_one),
            r,
        ),
        can_be_read(settings, sections),
    ensures
        r matches Ok(p) ==> takes_settings(p, settings, sections) && judged(
            settings,
            sum_exceeds_one,
            false,
        ),
        r matches Err(e) ==> e@
            == "The sum of \"invite_chance\", \"remove_chance\", \"update_chance\" cannot be greater than 1.0"@
            && judged(settings, sum_exceeds_one, true),
{
    if let Ok(p) = r {
        followed_settings_are_taken(p, settings, sections);
    }
    chances_are_judged::<O, I, F>(settings, sum_exceeds_one, r is Err);
}

proof fn chances_are_judged<O, I, F: Fn(u64, u64, u64) -> bool>(
    settings: config::Config,
    sum_exceeds_one: F,
    verdict: bool,
)
    requires
        call_ensures(sum_exceeds_one, UserParameters::<O, I>::chances(settings), verdict),
    ensures
        judged(settings, sum_exceeds_one, verdict),
{
    let (invite, remove, update) = UserParameters::<O, I>::chances(settings);
    assert(call_ensures(sum_exceeds_one, (invite, remove, update), verdict));
}

/// Any configuration can be tried: parameters are read or refused just where they can be, and
/// then as they are otherwise.
pub proof fn settings_are_tried<O, I, F: Fn(u64, u64, u64) -> bool>(
    settings: config::Config,
    sections: Sections<O, I>,
    sum_exceeds_one: F,
    r: Option<Result<UserParameters<O, I>, String>>,
)
    requires
        call_ensures(
            UserParameters::<O, I>::try_new_from_settings::<F>,
            (&settings, sections, sum_exceeds_one),
            r,
        ),
    ensures
        r is Some <==> can_be_read(settings, sections),
        r matches Some(Ok(p)) ==> takes_settings(p, settings, sections) && judged(
            settings,
            sum_exceeds_one,
            false,
        ),
        r matches Some(Err(e)) ==> e@
            == "The sum of \"invite_chance\", \"remove_chance\", \"update_chance\" cannot be greater than 1.0"@
            && judged(settings, sum_exceeds_one, true),
{
    if r is Some {
        if let Some(Ok(p)) = r {
            followed_settings_are_taken(p, settings, sections);
        }
        chances_are_judged::<O, I, F>(settings, sum_exceeds_one, r->Some_0 is Err);
    }
}

/// The defaults are the parameters of a configuration without settings.
pub proof fn defaults_need_no_settings<O, I>(
    independent: I,
    r: UserParameters<O, I>,
    settings: config::Config,
    sections: Sections<O, I>,
    p: UserParameters<O, I>,
)
    requires
        call_ensures(UserParameters::<O, I>::default, (independent,), r),
        takes_settings(p, settings, sections),
        forall|key: Seq<char>| !#[trigger] config_strings(settings).contains_key(key),
        forall|key: Seq<char>| !#[trigger] config_ints(settings).contains_key(key),
        forall|key: Seq<char>| !#[trigger] config_bools(settings).contains_key(key),
        forall|key: Seq<char>| !#[trigger] config_fractions(settings).contains_key(key),
        forall|key: Seq<char>| !#[trigger] config_lists(settings).contains(key),
        sections.independent_default == independent,
    ensures
        r.delivery_service == p.delivery_service,
        r.server_url@ == p.server_url@,
        r.external_join == p.external_join,
        r.join_chance == p.join_chance,
        r.message_chance == p.message_chance,
        r.message_length_min == p.message_length_min,
        r.message_length_max == p.message_length_max,
        r.groups@.len() == 1 && p.groups@.len() == 1 && r.groups@[0]@ == p.groups@[0]@,
        r.max_members == p.max_members,
        r.invite_chance == p.invite_chance,
        r.remove_chance == p.remove_chance,
        r.update_chance == p.update_chance,
        r.behaviour == p.behaviour,
        r.paradigm == p.paradigm,
        r.proposals_per_commit == p.proposals_per_commit,
        r.mqtt_url@ == p.mqtt_url@,
{
    let names = r.groups@.map_values(|s: String| s@);
    assert(names.len() == r.groups@.len());
    assert(names[0] == r.groups@[0]@);
}

/// As many replicas are made as the configuration asks for, and one if it does not say.
pub proof fn replicas_are_asked_for(settings: config::Config, r: usize)
    requires
        call_ensures(replicas, (&settings,), r),
    ensures
        takes_number(settings, "meta.replicas"@, 1, r),
{
}

/// A user is set up with a name, for a delivery service, and orchestrated or independent as
/// its parameters say; it starts empty.
pub open spec fn is_set_up<O, I>(
    user: User,
    name: Seq<char>,
    ds: DeliveryService,
    behaviour: Behaviour<O, I>,
) -> bool {
    &&& crate::contact_laws::starts_empty(user, name, ds)
    &&& user.agent_type is Orchestrator <==> behaviour is Orchestrated
    &&& user.agent_type matches AgentType::Orchestrator(known) ==> forall|k: Seq<char>|
        !#[trigger] known@.contains_key(k)
}

/// A user behaves as its parameters say.
pub proof fn users_behave_as_asked<O, I>(
    ds: DeliveryService,
    p: UserParameters<O, I>,
    name: String,
    r: User,
)
    requires
        call_ensures(create_client_agent::<O, I>, (ds, &p, name), r),
    ensures
        is_set_up(r, name@, ds, p.behaviour),
{
}

/// The replicas of a user are numbered from zero: each has the user's name, an underscore and
/// its number in decimal for a name, and the delivery service and the behaviour of the
/// parameters.
pub proof fn replicas_are_numbered<O, I>(
    p: UserParameters<O, I>,
    n: usize,
    username: String,
    r: Vec<User>,
) -> (numbers: Seq<Seq<char>>)
    requires
        call_ensures(create_user_from_ds::<O, I>, (&p, n, &username), r),
    ensures
        r@.len() == n,
        numbers.len() == n,
        forall|i: int| 0 <= i < n ==> is_numeral(#[trigger] numbers[i], i as nat),
        forall|i: int|
            0 <= i < n ==> is_set_up(
                #[trigger] r@[i],
                username@ + "_"@ + numbers[i],
                match p.delivery_service {
                    DSType::Request => DeliveryService::Request,
                    DSType::PubSubMQTT(_) => DeliveryService::PubSubMQTT,
                    DSType::GossipSub(config) => DeliveryService::GossipSub(config.directory),
                },
                p.behaviour,
            ),
{
    let numbers = Seq::new(n as nat, |i: int| crate::text::decimal(i as nat));
    assert forall|i: int| 0 <= i < n implies is_numeral(#[trigger] numbers[i], i as nat) by {
        numerals_are_decimal(i as nat);
    }
    numbers
}

/// The broker of a URL is reached where the URL has both a host and a port.
pub proof fn brokers_have_host_and_port(url: String, r: Option<(String, u16)>)
    requires
        call_ensures(mqtt_endpoint, (&url,), r),
    ensures
        r is Some <==> url_host(url@) is Some && url_port(url@) is Some,
        r matches Some((host, port)) ==> url_host(url@) == Some(host@) && url_port(url@) == Some(
            port,
        ),
{
}

} // verus!
