//! Setting up the users that a configuration asks for.
use crate::delivery::DeliveryService;
use crate::parameters::{Behaviour, DSType, UserParameters};
use crate::settings::{parse_url_host, parse_url_port, url_host, url_port};
use crate::text::{decimal, decimal_is_injective, decimal_text};
use crate::user::{AgentType, User};
use vstd::prelude::*;
use vstd::string::*;

verus! {

/// The name of a replica of a user.
pub open spec fn replica_name(username: Seq<char>, i: nat) -> Seq<char> {
    username + "_"@ + decimal(i)
}

/// How messages are delivered by a delivery service that is set up.
pub open spec fn service_of(delivery_service: DSType) -> DeliveryService {
    match delivery_service {
        DSType::Request => DeliveryService::Request,
        DSType::PubSubMQTT(_) => DeliveryService::PubSubMQTT,
        DSType::GossipSub(config) => DeliveryService::GossipSub(config.directory),
    }
}

/// A new user behaves as the parameters say.
pub open spec fn behaves<O, I>(user: User, behaviour: Behaviour<O, I>) -> bool {
    match behaviour {
        Behaviour::Orchestrated(_) => user.agent_type matches AgentType::Orchestrator(known)
            && known@ == Map::<Seq<char>, Vec<String>>::empty(),
        Behaviour::Independent(_) => user.agent_type is Independent,
    }
}

/// Makes a user who behaves as the parameters say.
pub fn create_client_agent<O, I>(
    ds: DeliveryService,
    user_parameters: &UserParameters<O, I>,
    name: String,
) -> (r: User)
    ensures
        r.is_new(name@, ds),
        behaves(r, user_parameters.behaviour),
        r.wf(),
{
    match &user_parameters.behaviour {
        Behaviour::Orchestrated(_) => User::new_orchestrated(name, ds),
        Behaviour::Independent(_) => User::new_independent(name, ds),
    }
}

/// Makes the replicas of a user, each with its number behind the name.
pub fn create_user_from_ds<O, I>(
    user_parameters: &UserParameters<O, I>,
    replicas: usize,
    username: &String,
) -> (r: Vec<User>)
    ensures
        r@.len() == replicas,
        forall|i: int|
            0 <= i < r@.len() ==> {
                &&& (#[trigger] r@[i]).is_new(
                    replica_name(username@, i as nat),
                    service_of(user_parameters.delivery_service),
                )
                &&& behaves(r@[i], user_parameters.behaviour)
                &&& r@[i].wf()
            },
{
    let ds = match &user_parameters.delivery_service {
        DSType::Request => DeliveryService::Request,
        DSType::PubSubMQTT(_) => DeliveryService::PubSubMQTT,
        DSType::GossipSub(config) => DeliveryService::GossipSub(config.directory),
    };
    let mut r: Vec<User> = Vec::new();
    let mut i: usize = 0;
    while i < replicas
        invariant
            i <= replicas,
            r.len() == i,
            ds == service_of(user_parameters.delivery_service),
            forall|j: int|
                0 <= j < i ==> {
                    &&& (#[trigger] r@[j]).is_new(replica_name(username@, j as nat), ds)
                    &&& behaves(r@[j], user_parameters.behaviour)
                    &&& r@[j].wf()
                },
        decreases replicas - i,
    {
        let mut name = username.clone();
        name.append("_");
        let number = decimal_text(i as u128);
        name.append(number.as_str());
        assert(name@ =~= replica_name(username@, i as nat));
        r.push(create_client_agent(ds, user_parameters, name));
        i += 1;
    }
    r
}

/// Where the MQTT broker of a URL is reached: its host and port, if the URL has both.
pub fn mqtt_endpoint(url: &String) -> (r: Option<(String, u16)>)
    ensures
        match (url_host(url@), url_port(url@)) {
            (Some(host), Some(port)) => r matches Some((h, p)) && h@ == host && p == port,
            _ => r is None,
        },
{
    match (parse_url_host(url.as_str()), parse_url_port(url.as_str())) {
        (Some(host), Some(port)) => Some((host, port)),
        _ => None,
    }
}

/// Two replicas of a user have different names.
pub proof fn replicas_differ(username: Seq<char>, i: nat, j: nat)
    requires
        replica_name(username, i) == replica_name(username, j),
    ensures
        i == j,
{
    let n = (username + "_"@).len();
    assert(replica_name(username, i).skip(n as int) =~= decimal(i));
    assert(replica_name(username, j).skip(n as int) =~= decimal(j));
    decimal_is_injective(i, j);
}

} // verus!
