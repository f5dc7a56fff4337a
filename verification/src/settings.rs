//! Reading single settings out of a configuration and URLs out of text.
use crate::text::{text_of, texts};
use config::Config;
use vstd::prelude::*;

verus! {

/// A configuration of the crate `config`: values under dotted keys.
#[verifier::external_type_specification]
#[verifier::external_body]
pub struct ExConfig(config::Config);

/// The keys that are read.
pub open spec fn is_setting(key: Seq<char>) -> bool {
    ||| key == "mqtt.url"@
    ||| key == "cgka.ds"@
    ||| key == "http_server.url"@
    ||| key == "cgka.external_join"@
    ||| key == "cgka.join_chance"@
    ||| key == "cgka.message_chance"@
    ||| key == "cgka.message_length_min"@
    ||| key == "cgka.message_length_max"@
    ||| key == "meta.behaviour"@
    ||| key == "meta.replicas"@
    ||| key == "cgka.groups"@
    ||| key == "cgka.max_members"@
    ||| key == "paradigm.paradigm"@
    ||| key == "paradigm.proposals_per_commit"@
    ||| key == "paradigm.invite_chance"@
    ||| key == "paradigm.remove_chance"@
    ||| key == "paradigm.update_chance"@
}

/// The settings that can be read as a string.
pub uninterp spec fn config_strings(settings: config::Config) -> Map<Seq<char>, Seq<char>>;

/// The settings that can be read as an integer.
pub uninterp spec fn config_ints(settings: config::Config) -> Map<Seq<char>, i64>;

/// The settings that can be read as a truth value.
pub uninterp spec fn config_bools(settings: config::Config) -> Map<Seq<char>, bool>;

/// The settings that can be read as a fraction, each as the bits of its double.
pub uninterp spec fn config_fractions(settings: config::Config) -> Map<Seq<char>, u64>;

/// The settings that can be read as a list.
pub uninterp spec fn config_lists(settings: config::Config) -> Set<Seq<char>>;

/// The settings that can be read as a list without tables in it, each with its items as text.
pub uninterp spec fn config_flat_lists(settings: config::Config) -> Map<Seq<char>, Seq<Seq<char>>>;

/// What a map holds under a key.
pub open spec fn at<V>(map: Map<Seq<char>, V>, key: Seq<char>) -> Option<V> {
    if map.contains_key(key) {
        Some(map[key])
    } else {
        None
    }
}

/// What a map holds under a key, or else a stand-in.
pub open spec fn at_or<V>(map: Map<Seq<char>, V>, key: Seq<char>, other: V) -> V {
    if map.contains_key(key) {
        map[key]
    } else {
        other
    }
}

/// Calls `Config::get_string` and takes an error for a missing value. The result is the
/// string that the configuration holds under the key.
#[verifier::external_body]
pub(crate) fn get_string(settings: &Config, key: &str) -> (r: Option<String>)
    requires
        is_setting(key@),
    ensures
        text_of(r) == at(config_strings(*settings), key@),
{
    settings.get_string(key).ok()
}

/// Calls `Config::get_int` and takes an error for a missing value. The result is the
/// integer that the configuration holds under the key.
#[verifier::external_body]
pub(crate) fn get_int(settings: &Config, key: &str) -> (r: Option<i64>)
    requires
        is_setting(key@),
    ensures
        r == at(config_ints(*settings), key@),
{
    settings.get_int(key).ok()
}

/// Calls `Config::get_bool` and takes an error for a missing value. The result is the
/// truth value that the configuration holds under the key.
#[verifier::external_body]
pub(crate) fn get_bool(settings: &Config, key: &str) -> (r: Option<bool>)
    requires
        is_setting(key@),
    ensures
        r == at(config_bools(*settings), key@),
{
    settings.get_bool(key).ok()
}

/// Calls `Config::get_float`, takes an error for a missing value and hands out the bits
/// of the double. The result is the fraction that the configuration holds under the key.
#[verifier::external_body]
pub(crate) fn get_fraction(settings: &Config, key: &str) -> (r: Option<u64>)
    requires
        is_setting(key@),
    ensures
        r == at(config_fractions(*settings), key@),
{
    settings.get_float(key).ok().map(|fraction| fraction.to_bits())
}

/// Calls `Config::get_array`, takes an error for a missing value and writes each item as
/// text. The result is the list that the configuration holds under the key. The text of
/// an item that holds a table follows the walk of a hash map, so of lists with such items
/// only their presence is stated.
#[verifier::external_body]
pub(crate) fn get_list(settings: &Config, key: &str) -> (r: Option<Vec<String>>)
    requires
        is_setting(key@),
    ensures
        r is Some <==> config_lists(*settings).contains(key@),
        config_flat_lists(*settings).contains_key(key@) ==> r is Some && texts(
            r->Some_0@,
        ) == config_flat_lists(*settings)[key@],
{
    settings.get_array(key).ok().map(|items| items.iter().map(|item| item.to_string()).collect())
}

/// The normal form of a URL, for text that is one.
pub uninterp spec fn url_normal_form(text: Seq<char>) -> Option<Seq<char>>;

/// The host of a URL, for text that is a URL with a host.
pub uninterp spec fn url_host(text: Seq<char>) -> Option<Seq<char>>;

/// The port of a URL, for text that is a URL with a port other than that of its scheme.
pub uninterp spec fn url_port(text: Seq<char>) -> Option<u16>;

/// Calls `url::Url::parse`, which accepts absolute URLs, and hands out the URL as it is
/// then written. A host without a path gets the path `/`, as the one URL that is spelt out
/// here shows.
#[verifier::external_body]
pub(crate) fn parse_url(text: &str) -> (r: Option<String>)
    ensures
        text_of(r) == url_normal_form(text@),
        text@ == "http://localhost:8080"@ ==> text_of(r) == Some("http://localhost:8080/"@),
{
    url::Url::parse(text).ok().map(|url| url.into())
}

/// Calls `url::Url::host_str` on the URL that the text stands for.
#[verifier::external_body]
pub(crate) fn parse_url_host(text: &str) -> (r: Option<String>)
    ensures
        text_of(r) == url_host(text@),
{
    url::Url::parse(text).ok().and_then(|url| url.host_str().map(|host| host.to_string()))
}

/// Calls `url::Url::port` on the URL that the text stands for.
#[verifier::external_body]
pub(crate) fn parse_url_port(text: &str) -> (r: Option<u16>)
    ensures
        r == url_port(text@),
{
    url::Url::parse(text).ok().and_then(|url| url.port())
}

} // verus!
