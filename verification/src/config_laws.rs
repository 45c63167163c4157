//! Laws of the configuration: what is accepted, what is refused, and what becomes of every part
//! of what was given.
use vstd::prelude::*;
use crate::config;
use crate::config::{
    BaseUrlModel, CliModel, ForwardTargetModel, InAppModel, NormalizedModel, PathPlaceModel,
};
use crate::config_file;
use crate::float;
use crate::float::FloatBits;
use crate::ip;
use crate::ip::IpAddress;
use crate::json;
use crate::json::Json;
use crate::mapping;
use crate::mapping::{Curve, MappingModel, UpperBound};
use crate::service;
use crate::smoothing;
use crate::smoothing::OutputTuning;
use crate::text;

verus! {

/// The site is one that may be used: over the secure scheme, on this machine, or where plain
/// connections were allowed.
pub open spec fn may_be_used(url: BaseUrlModel, allow_insecure: bool) -> bool {
    url.scheme == "https"@ || url.host == Some("127.0.0.1"@) || url.host == Some("localhost"@)
        || allow_insecure
}

/// The site is the one that was entered, blanks aside, and is accepted exactly where it can be
/// read and may be used.
pub proof fn law_site(raw: Seq<char>, allow_insecure: bool)
    ensures
        match config::base_url_of(raw, allow_insecure) {
            Ok(url) => config::url_parts(text::trimmed(raw)) == Ok::<BaseUrlModel, Seq<char>>(url)
                && may_be_used(url, allow_insecure) && text::trimmed(raw).len() > 0,
            Err(_) => text::trimmed(raw).len() == 0 || match config::url_parts(text::trimmed(raw)) {
                Ok(url) => !may_be_used(url, allow_insecure),
                Err(_) => true,
            },
        },
{
}

/// The list of senders is accepted exactly where every entry that is not blank is an address, and
/// then holds just those addresses.
pub proof fn law_senders_read(items: Seq<Seq<char>>, address: IpAddress)
    ensures
        match config::senders(items) {
            Ok(list) => {
                &&& forall|i: int|
                    0 <= i < items.len() ==> text::trimmed(#[trigger] items[i]).len() == 0
                        || ip::ip_address(text::trimmed(items[i])) is Some
                &&& list.contains(address) <==> exists|i: int|
                    0 <= i < items.len() && text::trimmed(#[trigger] items[i]).len() > 0
                        && ip::ip_address(text::trimmed(items[i])) == Some(address)
            },
            Err(message) => exists|i: int|
                0 <= i < items.len() && text::trimmed(#[trigger] items[i]).len() > 0
                    && ip::ip_address(text::trimmed(items[i])) is None && text::contains_text(
                    message,
                    text::trimmed(items[i]),
                ),
        },
    decreases items.len(),
{
    if items.len() > 0 {
        let shorter = items.drop_last();
        law_senders_read(shorter, address);
        assert forall|i: int| 0 <= i < shorter.len() implies #[trigger] shorter[i] == items[i] by {}
        let last = items.len() - 1;
        let item = text::trimmed(items[last]);
        match config::senders(shorter) {
            Err(message) => {
                let i = choose|i: int|
                    0 <= i < shorter.len() && text::trimmed(#[trigger] shorter[i]).len() > 0
                        && ip::ip_address(text::trimmed(shorter[i])) is None
                        && text::contains_text(message, text::trimmed(shorter[i]));
                assert(text::trimmed(items[i]).len() > 0);
            },
            Ok(before) => {
                if item.len() > 0 && ip::ip_address(item) is None {
                    let message = "Invalid sender IP '"@ + item + "'"@;
                    assert(text::occurs_at(message, item, "Invalid sender IP '"@.len() as int)) by {
                        let at = "Invalid sender IP '"@.len() as int;
                        assert(message.subrange(at, at + item.len()) =~= item);
                    }
                    assert(text::trimmed(items[last]).len() > 0);
                } else {
                    let list = config::senders(items)->Ok_0;
                    assert forall|i: int| 0 <= i < items.len() implies text::trimmed(
                        #[trigger] items[i],
                    ).len() == 0 || ip::ip_address(text::trimmed(items[i])) is Some by {
                        if i < last {
                            assert(text::trimmed(shorter[i]).len() == 0 || ip::ip_address(
                                text::trimmed(shorter[i]),
                            ) is Some);
                        }
                    }
                    if before.contains(address) {
                        let j = choose|j: int| 0 <= j < before.len() && before[j] == address;
                        assert(list[j] == address);
                        let i = choose|i: int|
                            0 <= i < shorter.len() && text::trimmed(#[trigger] shorter[i]).len()
                                > 0 && ip::ip_address(text::trimmed(shorter[i])) == Some(address);
                        assert(text::trimmed(items[i]).len() > 0);
                    } else {
                        assert forall|i: int|
                            0 <= i < items.len() && text::trimmed(#[trigger] items[i]).len() > 0
                                && ip::ip_address(text::trimmed(items[i])) == Some(address) implies i
                            == last by {
                            if i < last {
                                assert(text::trimmed(shorter[i]).len() > 0);
                            }
                        }
                        if item.len() > 0 && ip::ip_address(item) == Some(address) {
                            assert(list[list.len() - 1] == address);
                            assert(text::trimmed(items[last]).len() > 0);
                        }
                        if list.contains(address) {
                            let j = choose|j: int| 0 <= j < list.len() && list[j] == address;
                            if j < before.len() {
                                assert(before[j] == address);
                            }
                            assert(text::trimmed(items[last]).len() > 0);
                        }
                    }
                }
            },
        }
    }
}

/// A listener without leave for the network stays on this machine and lists no senders; with it,
/// anything that can be read is accepted as it is.
pub proof fn law_network(host: Seq<char>, allow: bool, list: Result<Seq<IpAddress>, Seq<char>>)
    ensures
        config::network_rules(host, allow, list) is Ok <==> list is Ok && (allow || (
        ip::loopback_host(host) && list->Ok_0.len() == 0)),
        config::network_rules(host, allow, list) is Ok ==> config::network_rules(host, allow, list)
            == list,
{
}

/// A host is one of this machine where it is the local name or a loopback address, blanks aside,
/// and only then.
pub proof fn law_local_host(host: Seq<char>)
    ensures
        ip::loopback_host(host) <==> text::lower_text(text::trimmed(host)) == text::lower_text(
            "localhost"@,
        ) || (ip::ip_address(text::trimmed(host)) matches Some(address) && ip::loopback(address)),
{
}

/// Logging only the configured input wins over logging only the rest; either switches the log on,
/// and nothing switches it off.
pub proof fn law_debug_flags(log_osc: bool, unmapped_only: bool, configured_only: bool, log_relay: bool)
    ensures
        ({
            let flags = config::debug_flags(log_osc, unmapped_only, configured_only, log_relay);
            &&& flags.log_relay == log_relay
            &&& flags.log_configured_only == configured_only
            &&& flags.log_unmapped_only <==> unmapped_only && !configured_only
            &&& log_osc || unmapped_only || configured_only <==> flags.log_osc
        }),
{
}

/// A target that names a host and a port is kept, blanks aside, after those before it; any other
/// is dropped.
pub proof fn law_targets_kept(targets: Seq<ForwardTargetModel>, target: ForwardTargetModel)
    ensures
        config::normalized_targets(Seq::empty()).len() == 0,
        text::trimmed(target.host).len() > 0 && target.port > 0 ==> config::normalized_targets(
            targets.push(target),
        ) == config::normalized_targets(targets).push(
            ForwardTargetModel { host: text::trimmed(target.host), port: target.port },
        ),
        text::trimmed(target.host).len() == 0 || target.port == 0 ==> config::normalized_targets(
            targets.push(target),
        ) == config::normalized_targets(targets),
{
    assert(targets.push(target).drop_last() =~= targets);
}

/// Normalizing a mapping keeps its direction, its curve and every number that is in range, and
/// drops it only where its address is no path.
pub proof fn law_mapping_normalized(given: MappingModel)
    ensures
        match mapping::normalized_mapping(given) {
            Some(made) => {
                &&& made.address == text::trimmed(given.address) && made.address.len() > 0
                    && made.address[0] == '/'
                &&& made.invert == given.invert && made.curve == given.curve
                &&& given.weight.finite() ==> made.weight == given.weight
                &&& float::in_unit(given.deadzone) ==> made.deadzone == given.deadzone
                &&& float::in_unit(made.deadzone)
                &&& given.min.finite() ==> made.min == given.min
                &&& given.max == UpperBound::OneAboveMin ==> made.max == UpperBound::OneAboveMin
                &&& (given.max matches UpperBound::Value(top) ==> (given.min.finite()
                    && top.finite() && given.min.below(top) ==> made.max == given.max))
                &&& (given.max matches UpperBound::Value(top) ==> (given.min.finite()
                    && top.finite() && top.at_most(given.min) ==> made.max
                    == UpperBound::OneAboveMin))
            },
            None => text::trimmed(given.address).len() == 0 || text::trimmed(given.address)[0]
                != '/',
        },
{
}

/// Mappings are normalized one after the other.
pub proof fn law_mappings_kept(mappings: Seq<MappingModel>, given: MappingModel)
    ensures
        config::normalized_mappings(Seq::empty()).len() == 0,
        config::normalized_mappings(mappings.push(given)) == match mapping::normalized_mapping(
            given,
        ) {
            Some(made) => config::normalized_mappings(mappings).push(made),
            None => config::normalized_mappings(mappings),
        },
{
    assert(mappings.push(given).drop_last() =~= mappings);
}

/// The tuning keeps every number that is within its limits.
pub proof fn law_tuning_kept(tuning: OutputTuning)
    ensures
        smoothing::within_limits(tuning) && tuning.emit_hz.finite() ==> smoothing::sanitized(tuning)
            == tuning,
        smoothing::sanitized(smoothing::sanitized(tuning)) == smoothing::sanitized(tuning),
        tuning.heartbeat_ms < 200 ==> smoothing::sanitized(tuning).heartbeat_ms == 200,
        tuning.heartbeat_ms > 10_000 ==> smoothing::sanitized(tuning).heartbeat_ms == 10_000,
{
}

/// A path that is absolute is used as it is, any other as the system completes it.
pub proof fn law_path(path: Seq<char>, place: PathPlaceModel)
    ensures
        place.absolute ==> config::resolved_path(path, place) == Ok::<Seq<char>, Seq<char>>(path),
        !place.absolute ==> (config::resolved_path(path, place) is Ok <==> place.from_here is Ok)
            && (place.from_here matches Ok(full) ==> config::resolved_path(path, place) == Ok::<
            Seq<char>,
            Seq<char>,
        >(full)),
{
}

/// A configuration is accepted exactly where its site may be used, creator, key, host and port are
/// given, the network rules hold and the path leads somewhere. Every part of the result comes
/// from the part that it is named after.
pub proof fn law_configuration(config: InAppModel, stream_key: Seq<char>, place: PathPlaceModel)
    ensures
        ({
            let site = config::base_url_of(config.website_base_url, config.allow_insecure_http);
            let senders = config::senders(config.osc_allowed_senders);
            let host = text::trimmed(config.osc_listen.host);
            &&& config::normalized_in_app(config, stream_key, place) is Ok <==> {
                &&& site is Ok
                &&& text::trimmed(config.creator_username).len() > 0
                &&& text::trimmed(stream_key).len() > 0
                &&& host.len() > 0 && config.osc_listen.port > 0
                &&& senders is Ok
                &&& config.allow_network_osc || (ip::loopback_host(host) && senders->Ok_0.len()
                    == 0)
                &&& place.absolute || place.from_here is Ok
            }
            &&& config::normalized_in_app(config, stream_key, place) matches Ok(c) ==> {
                &&& c.base_url == site->Ok_0
                &&& c.creator_username == text::trimmed(config.creator_username)
                &&& c.stream_key == text::trimmed(stream_key)
                &&& c.osc_listen.host == host && c.osc_listen.port == config.osc_listen.port
                &&& c.allow_network_osc == config.allow_network_osc
                &&& c.osc_allowed_senders == senders->Ok_0
                &&& text::trimmed(config.relay.session_path).len() > 0 ==> c.relay.session_path
                    == text::trimmed(config.relay.session_path)
                &&& text::trimmed(config.relay.session_path).len() == 0 ==> c.relay.session_path
                    == "/api/sps/session"@
                &&& text::trimmed(config.relay.ingest_path).len() > 0 ==> c.relay.ingest_path
                    == text::trimmed(config.relay.ingest_path)
                &&& text::trimmed(config.relay.ingest_path).len() == 0 ==> c.relay.ingest_path
                    == "/api/sps/ingest"@
                &&& c.debug == config::debug_flags(
                    config.debug.log_osc,
                    config.debug.log_unmapped_only,
                    config.debug.log_configured_only,
                    config.debug.log_relay,
                )
                &&& c.discovery.enabled == config.discovery.enabled
                &&& c.discovery.include_arg_types == config.discovery.include_arg_types
                &&& place.absolute && config.discovery.file_path.len() > 0
                    ==> c.discovery.file_path == config.discovery.file_path
                &&& !place.absolute ==> Ok::<Seq<char>, Seq<char>>(c.discovery.file_path)
                    == place.from_here
                &&& c.forward_targets == config::normalized_targets(config.forward_targets)
                &&& c.mappings == config::normalized_mappings(config.mappings)
                &&& c.output == smoothing::sanitized(config.output)
            }
        }),
{
}

/// Normalizing what is already in order gives it back: the result of one configuration, entered
/// again, gives the same parts.
pub proof fn law_configuration_settles(
    config: InAppModel,
    stream_key: Seq<char>,
    place: PathPlaceModel,
)
    ensures
        config::normalized_in_app(config, stream_key, place) matches Ok(c) ==> {
            &&& config::debug_flags(
                c.debug.log_osc,
                c.debug.log_unmapped_only,
                c.debug.log_configured_only,
                c.debug.log_relay,
            ) == c.debug
            &&& smoothing::sanitized(c.output) == c.output
            &&& text::trimmed(c.creator_username) == c.creator_username
            &&& text::trimmed(c.stream_key) == c.stream_key
            &&& text::trimmed(c.osc_listen.host) == c.osc_listen.host
        },
{
    mapping::law_trim_again(config.creator_username);
    mapping::law_trim_again(stream_key);
    mapping::law_trim_again(config.osc_listen.host);
}

/// An entry of a document becomes a mapping of just its own members.
pub proof fn law_mapping_of_entry(entry: Json)
    ensures
        config_file::mapping_from(entry) matches Some(made) ==> {
            let weight = json::number_reading(json::field(entry, "weight"@));
            let deadzone = json::number_reading(json::field(entry, "deadzone"@));
            let min = json::number_reading(json::field(entry, "min"@));
            let max = json::number_reading(json::field(entry, "max"@));
            &&& (json::as_text(json::field(entry, "address"@)) matches Some(address)
                && made.address == text::trimmed(address))
            &&& made.invert <==> json::is_truthy(json::field(entry, "invert"@))
            &&& (json::as_text(json::field(entry, "curve"@)) matches Some(name) ==> made.curve
                == mapping::named_curve(name))
            &&& json::as_text(json::field(entry, "curve"@)) is None ==> made.curve == Curve::Linear
            &&& weight.finite() ==> made.weight == weight
            &&& !weight.finite() ==> made.weight == float::number(float::ONE)
            &&& float::in_unit(deadzone) ==> made.deadzone == deadzone
            &&& min.finite() ==> made.min == min
            &&& !min.finite() ==> made.min == float::number(0)
            &&& max.finite() && made.min.below(max) ==> made.max == UpperBound::Value(max)
            &&& max.finite() && max.at_most(made.min) ==> made.max == UpperBound::OneAboveMin
        },
        (json::as_text(json::field(entry, "address"@)) matches Some(address) && text::trimmed(
            address,
        ).len() > 0 && text::trimmed(address)[0] == '/') <==> config_file::mapping_from(
            entry,
        ) is Some,
{
    if let Some(address) = json::as_text(json::field(entry, "address"@)) {
        mapping::law_trim_again(address);
    } else {
        lemma_trim_nothing();
    }
    reveal_strlit("linear");
    reveal_strlit("easeOutQuad");
    reveal_strlit("easeInQuad");
    reveal_strlit("easeInOutQuad");
    mapping::law_curve_name(Curve::Linear);
}

proof fn lemma_trim_nothing()
    ensures
        text::trimmed(Seq::<char>::empty()).len() == 0,
{
}

/// An entry of a document becomes a target of just its own members.
pub proof fn law_target_of_entry(entry: Json)
    ensures
        match config_file::target_from(entry) {
            Some(target) => {
                &&& (json::as_text(json::field(entry, "host"@)) matches Some(host) && target.host
                    == text::trimmed(host) && target.host.len() > 0)
                &&& json::number_reading(json::field(entry, "port"@)).is_natural(
                    target.port as nat,
                )
                &&& target.port > 0
            },
            None => match json::as_text(json::field(entry, "host"@)) {
                Some(host) => text::trimmed(host).len() == 0 || forall|n: nat|
                    1 <= n <= 65535 ==> !#[trigger] json::number_reading(
                        json::field(entry, "port"@),
                    ).is_natural(n),
                None => true,
            },
        },
{
}

/// Entries are read one after the other, and those that make nothing are passed over.
pub proof fn law_entries_in_order(entries: Seq<Json>, entry: Json)
    ensures
        config_file::mappings_from(Seq::empty()).len() == 0,
        config_file::mappings_from(entries.push(entry)) == match config_file::mapping_from(entry) {
            Some(made) => config_file::mappings_from(entries).push(made),
            None => config_file::mappings_from(entries),
        },
        config_file::targets_from(Seq::empty()).len() == 0,
        config_file::targets_from(entries.push(entry)) == match config_file::target_from(entry) {
            Some(made) => config_file::targets_from(entries).push(made),
            None => config_file::targets_from(entries),
        },
        config_file::texts_among(Seq::empty()).len() == 0,
        config_file::texts_among(entries.push(entry)) == match entry {
            Json::Text(s) => config_file::texts_among(entries).push(s),
            _ => config_file::texts_among(entries),
        },
{
    assert(entries.push(entry).drop_last() =~= entries);
}

/// A number of the output is the document's where that is within the limits; where the document
/// has none, it is the default.
pub proof fn law_output_number(config: Json, name: Seq<char>, default: u64, min: u64, max: u64)
    requires
        float::number(min).at_most(float::number(default)),
        float::number(default).at_most(float::number(max)),
        float::number(default).finite(),
    ensures
        json::field2(config, "output"@, name) is None ==> config_file::output_number(
            config,
            name,
            default,
            min,
            max,
        ) == float::number(default),
        (json::field2(config, "output"@, name) matches Some(Json::Number(n)) ==> (n.float.finite()
            && float::number(min).at_most(n.float) && n.float.at_most(float::number(max))
            ==> config_file::output_number(config, name, default, min, max) == n.float)),
        float::number(min).at_most(config_file::output_number(config, name, default, min, max)),
        config_file::output_number(config, name, default, min, max).at_most(float::number(max)),
{
}

/// Each number of the output is read under its own name.
pub proof fn law_output_names(config: Json)
    ensures
        ({
            let out = config_file::document_output(config);
            let hz = json::field2(config, "output"@, "emitHz"@);
            let attack = json::field2(config, "output"@, "attackMs"@);
            let release = json::field2(config, "output"@, "releaseMs"@);
            let alpha = json::field2(config, "output"@, "emaAlpha"@);
            let delta = json::field2(config, "output"@, "minDelta"@);
            let default = smoothing::default_tuning();
            &&& (hz matches Some(Json::Number(n)) ==> (n.float.finite() && float::number(
                smoothing::TWO,
            ).at_most(n.float) && n.float.at_most(float::number(smoothing::SIXTY)) ==> out.emit_hz
                == n.float))
            &&& (attack matches Some(Json::Number(n)) ==> (n.float.finite() && float::number(
                smoothing::TEN,
            ).at_most(n.float) && n.float.at_most(float::number(smoothing::TWO_THOUSAND))
                ==> out.attack_ms == n.float))
            &&& (release matches Some(Json::Number(n)) ==> (n.float.finite() && float::number(
                smoothing::TEN,
            ).at_most(n.float) && n.float.at_most(float::number(smoothing::FIVE_THOUSAND))
                ==> out.release_ms == n.float))
            &&& (alpha matches Some(Json::Number(n)) ==> (n.float.finite() && float::number(
                smoothing::HUNDREDTH,
            ).at_most(n.float) && n.float.at_most(float::number(float::ONE)) ==> out.ema_alpha
                == n.float))
            &&& (delta matches Some(Json::Number(n)) ==> (float::in_unit(n.float)
                ==> out.min_delta == n.float))
            &&& hz is None ==> out.emit_hz == default.emit_hz
            &&& attack is None ==> out.attack_ms == default.attack_ms
            &&& release is None ==> out.release_ms == default.release_ms
            &&& alpha is None ==> out.ema_alpha == default.ema_alpha
            &&& delta is None ==> out.min_delta == default.min_delta
            &&& smoothing::sanitized(default) == default
        }),
{
}

/// A document is accepted exactly where its site may be used, creator, key, host, port and inputs
/// are given, the network rules hold and the path leads somewhere. A switch of the command line
/// adds to the document and never takes from it.
pub proof fn law_document(config: Json, cli: CliModel, place: PathPlaceModel)
    ensures
        ({
            let site = config::base_url_of(
                json::text_or(json::field(config, "websiteBaseUrl"@), ""@),
                json::field(config, "allowInsecureHttp"@) == Some(Json::Bool(true)),
            );
            let creator = text::trimmed(json::text_or(json::field(config, "creatorUsername"@), ""@));
            let key = text::trimmed(json::text_or(json::field(config, "streamKey"@), ""@));
            let host = text::trimmed(
                json::text_or(json::field2(config, "oscListen"@, "host"@), "127.0.0.1"@),
            );
            let network = json::is_truthy(json::field(config, "allowNetworkOsc"@));
            let senders = config_file::document_senders(config);
            let inputs = json::as_array(json::field(config, "inputs"@));
            &&& config_file::normalized_document(config, cli, place) is Ok <==> {
                &&& site is Ok
                &&& creator.len() > 0 && key.len() > 0 && host.len() > 0
                &&& config_file::document_port(config) is Some
                &&& senders is Ok
                &&& network || (ip::loopback_host(host) && senders->Ok_0.len() == 0)
                &&& place.absolute || place.from_here is Ok
                &&& inputs is Some && inputs->0.len() > 0
            }
            &&& config_file::normalized_document(config, cli, place) matches Ok(c) ==> {
                &&& c.base_url == site->Ok_0 && c.creator_username == creator && c.stream_key == key
                &&& c.osc_listen.host == host && Some(c.osc_listen.port as nat)
                    == config_file::document_port(config)
                &&& c.allow_network_osc == network && c.osc_allowed_senders == senders->Ok_0
                &&& c.mappings == config_file::mappings_from(inputs->0)
                &&& c.output == config_file::document_output(config)
                &&& c.relay.session_path == json::text_or(
                    json::field2(config, "relay"@, "sessionPath"@),
                    "/api/sps/session"@,
                )
                &&& c.relay.ingest_path == json::text_or(
                    json::field2(config, "relay"@, "ingestPath"@),
                    "/api/sps/ingest"@,
                )
                &&& cli.debug_relay || json::is_truthy(json::field2(config, "debug"@, "logRelay"@))
                    <==> c.debug.log_relay
                &&& cli.debug_configured_only || json::is_truthy(
                    json::field2(config, "debug"@, "logConfiguredOnly"@),
                ) <==> c.debug.log_configured_only
                &&& cli.debug_unmapped_only && !c.debug.log_configured_only
                    ==> c.debug.log_unmapped_only
                &&& json::is_truthy(json::field2(config, "debug"@, "logUnmappedOnly"@))
                    && !c.debug.log_configured_only ==> c.debug.log_unmapped_only
                &&& c.debug.log_unmapped_only ==> cli.debug_unmapped_only || json::is_truthy(
                    json::field2(config, "debug"@, "logUnmappedOnly"@),
                )
                &&& cli.debug_osc || json::is_truthy(json::field2(config, "debug"@, "logOsc"@))
                    ==> c.debug.log_osc
                &&& (cli.discovery_path matches Some(path) && text::trimmed(path).len() > 0)
                    ==> c.discovery.enabled && (place.absolute ==> c.discovery.file_path
                    == text::trimmed(cli.discovery_path->0))
                &&& json::is_truthy(json::field2(config, "discovery"@, "enabled"@))
                    ==> c.discovery.enabled
                &&& c.discovery.enabled ==> json::is_truthy(
                    json::field2(config, "discovery"@, "enabled"@),
                ) || (cli.discovery_path matches Some(path) && text::trimmed(path).len() > 0)
                &&& cli.discovery_include_arg_types || json::is_truthy(
                    json::field2(config, "discovery"@, "includeArgTypes"@),
                ) <==> c.discovery.include_arg_types
                &&& !place.absolute ==> Ok::<Seq<char>, Seq<char>>(c.discovery.file_path)
                    == place.from_here
                &&& (json::as_array(json::field(config, "forwardTargets"@)) matches Some(entries)
                    ==> c.forward_targets == config_file::targets_from(entries))
                &&& json::as_array(json::field(config, "forwardTargets"@)) is None
                    ==> c.forward_targets.len() == 0
            }
        }),
{
}

/// The senders of a document are those of its list, or those of its text between the separators;
/// where it names none there are none.
pub proof fn law_document_senders(config: Json)
    ensures
        match json::field(config, "oscAllowedSenders"@) {
            None => config_file::document_senders(config) == Ok::<Seq<IpAddress>, Seq<char>>(
                Seq::empty(),
            ),
            Some(Json::Array(items)) => config_file::document_senders(config) == config::senders(
                config_file::texts_among(items),
            ),
            Some(Json::Text(s)) => config_file::document_senders(config) == config::senders(
                text::pieces(s, seq![',', '\n', '\r', ';']),
            ),
            Some(_) => config_file::document_senders(config) is Err,
        },
{
}

/// The relay is addressed with the site, the creator, the key and the two paths of the
/// configuration.
pub proof fn law_relay_addressed(config: NormalizedModel)
    ensures
        ({
            let client = service::relay_config(config);
            &&& client.base_url == config.base_url
            &&& client.creator_username == config.creator_username
            &&& client.stream_key == config.stream_key
            &&& client.session_path == config.relay.session_path
            &&& client.ingest_path == config.relay.ingest_path
        }),
{
}

/// The address of a socket is its host and its port with a colon between.
pub proof fn law_socket_address(host: Seq<char>, port: u16)
    ensures
        ({
            let address = service::socket_text(host, port);
            let digits = text::decimal_text(port as nat);
            &&& address.len() == host.len() + 1 + digits.len()
            &&& address.take(host.len() as int) == host
            &&& address[host.len() as int] == ':'
            &&& address.skip(host.len() as int + 1) == digits
        }),
{
    reveal_strlit(":");
    let address = service::socket_text(host, port);
    let digits = text::decimal_text(port as nat);
    assert(address.take(host.len() as int) =~= host);
    assert(address.skip(host.len() as int + 1) =~= digits);
}

/// The limits and the defaults of the output are the numbers that they are named after.
pub proof fn law_tuning_numbers()
    ensures
        float::number(float::ONE).is_natural(1),
        float::number(smoothing::TWO).is_natural(2),
        float::number(smoothing::TEN).is_natural(10),
        float::number(smoothing::TWENTY).is_natural(20),
        float::number(smoothing::FIFTY_FIVE).is_natural(55),
        float::number(smoothing::SIXTY).is_natural(60),
        float::number(smoothing::TWO_HUNDRED).is_natural(200),
        float::number(smoothing::TWO_HUNDRED_TWENTY).is_natural(220),
        float::number(smoothing::THOUSAND).is_natural(1_000),
        float::number(smoothing::TWO_THOUSAND).is_natural(2_000),
        float::number(smoothing::FIVE_THOUSAND).is_natural(5_000),
        float::number(smoothing::TEN_THOUSAND).is_natural(10_000),
        smoothing::default_tuning().emit_hz.is_natural(20),
        smoothing::default_tuning().attack_ms.is_natural(55),
        smoothing::default_tuning().release_ms.is_natural(220),
        smoothing::default_tuning().heartbeat_ms == 1_000,
{
    vstd::arithmetic::power2::lemma2_to64_rest();
}

/// A tuning is brought within its limits: from 2 to 60 times a second, an attack from 10 to 2000
/// and a release from 10 to 5000 milliseconds.
pub proof fn law_tuning_limits(
    tuning: OutputTuning,
    two: FloatBits,
    ten: FloatBits,
    sixty: FloatBits,
    two_thousand: FloatBits,
    five_thousand: FloatBits,
)
    requires
        two.is_natural(2),
        ten.is_natural(10),
        sixty.is_natural(60),
        two_thousand.is_natural(2_000),
        five_thousand.is_natural(5_000),
    ensures
        two.at_most(smoothing::sanitized(tuning).emit_hz),
        smoothing::sanitized(tuning).emit_hz.at_most(sixty),
        ten.at_most(smoothing::sanitized(tuning).attack_ms),
        smoothing::sanitized(tuning).attack_ms.at_most(two_thousand),
        ten.at_most(smoothing::sanitized(tuning).release_ms),
        smoothing::sanitized(tuning).release_ms.at_most(five_thousand),
{
    law_tuning_numbers();
    lemma_same_natural(two, float::number(smoothing::TWO), 2);
    lemma_same_natural(ten, float::number(smoothing::TEN), 10);
    lemma_same_natural(sixty, float::number(smoothing::SIXTY), 60);
    lemma_same_natural(two_thousand, float::number(smoothing::TWO_THOUSAND), 2_000);
    lemma_same_natural(five_thousand, float::number(smoothing::FIVE_THOUSAND), 5_000);
}

proof fn lemma_same_natural(a: FloatBits, b: FloatBits, n: nat)
    requires
        a.is_natural(n),
        b.is_natural(n),
        n > 0,
    ensures
        a == b,
{
    let p = vstd::arithmetic::power2::pow2((1075 - a.exponent()) as nat);
    let q = vstd::arithmetic::power2::pow2((1075 - b.exponent()) as nat);
    if a.exponent() < b.exponent() {
        lemma_doubles((1075 - b.exponent()) as nat, (1075 - a.exponent()) as nat);
        assert(n * p >= 2 * (n * q)) by (nonlinear_arith)
            requires
                p >= 2 * q,
                n > 0,
        ;
    } else if b.exponent() < a.exponent() {
        lemma_doubles((1075 - a.exponent()) as nat, (1075 - b.exponent()) as nat);
        assert(n * q >= 2 * (n * p)) by (nonlinear_arith)
            requires
                q >= 2 * p,
                n > 0,
        ;
    }
}

proof fn lemma_doubles(small: nat, large: nat)
    requires
        small < large,
    ensures
        vstd::arithmetic::power2::pow2(large) >= 2 * vstd::arithmetic::power2::pow2(small),
    decreases large - small,
{
    vstd::arithmetic::power2::lemma_pow2_unfold(large);
    vstd::arithmetic::power2::lemma_pow2_pos((large - 1) as nat);
    if small + 1 < large {
        lemma_doubles(small, (large - 1) as nat);
    }
}

proof fn lemma_default(k: int)
    requires
        0 <= k < 13,
    ensures
        config_file::default_config() is Object,
        config_file::default_config()->Object_0.len() == 13,
        json::distinct_names(config_file::default_config()->Object_0),
        json::lookup(
            config_file::default_config()->Object_0,
            config_file::default_config()->Object_0[k].0,
        ) == Some(config_file::default_config()->Object_0[k].1),
{
    reveal_strlit("allowInsecureHttp");
    reveal_strlit("allowNetworkOsc");
    reveal_strlit("creatorUsername");
    reveal_strlit("debug");
    reveal_strlit("discovery");
    reveal_strlit("forwardTargets");
    reveal_strlit("inputs");
    reveal_strlit("oscAllowedSenders");
    reveal_strlit("oscListen");
    reveal_strlit("output");
    reveal_strlit("relay");
    reveal_strlit("streamKey");
    reveal_strlit("websiteBaseUrl");
    let entries = config_file::default_config()->Object_0;
    assert(entries[0].0.len() == 17 && entries[0].0[0] == 'a');
    assert(entries[1].0.len() == 15 && entries[1].0[0] == 'a');
    assert(entries[2].0.len() == 15 && entries[2].0[0] == 'c');
    assert(entries[3].0.len() == 5 && entries[3].0[0] == 'd');
    assert(entries[4].0.len() == 9 && entries[4].0[0] == 'd');
    assert(entries[5].0.len() == 14 && entries[5].0[0] == 'f');
    assert(entries[6].0.len() == 6 && entries[6].0[0] == 'i');
    assert(entries[7].0.len() == 17 && entries[7].0[0] == 'o');
    assert(entries[8].0.len() == 9 && entries[8].0[0] == 'o');
    assert(entries[9].0.len() == 6 && entries[9].0[0] == 'o');
    assert(entries[10].0.len() == 5 && entries[10].0[0] == 'r');
    assert(entries[11].0.len() == 9 && entries[11].0[0] == 's');
    assert(entries[12].0.len() == 14 && entries[12].0[0] == 'w');
    assert forall|i: int, j: int| 0 <= i < j < 13 implies (#[trigger] entries[i]).0 != (
    #[trigger] entries[j]).0 by {
        assert(entries[i].0.len() != entries[j].0.len() || entries[i].0[0] != entries[j].0[0]);
    }
    json::lemma_lookup_at(entries, k);
}

/// A document that says nothing of it leaves the network and plain connections forbidden, names no
/// creator, no key, no sender and no target, and listens on this machine at port 9001.
pub proof fn law_document_defaults(incoming: Seq<(Seq<char>, Json)>)
    requires
        json::distinct_names(incoming),
    ensures
        ({
            let merged = json::merged(config_file::default_config(), Json::Object(incoming));
            &&& json::lookup(incoming, "allowInsecureHttp"@) is None ==> json::field(
                merged,
                "allowInsecureHttp"@,
            ) == Some(Json::Bool(false))
            &&& json::lookup(incoming, "allowNetworkOsc"@) is None ==> json::field(
                merged,
                "allowNetworkOsc"@,
            ) == Some(Json::Bool(false))
            &&& json::lookup(incoming, "creatorUsername"@) is None ==> json::field(
                merged,
                "creatorUsername"@,
            ) == Some(Json::Text(""@))
            &&& json::lookup(incoming, "streamKey"@) is None ==> json::field(merged, "streamKey"@)
                == Some(Json::Text(""@))
            &&& json::lookup(incoming, "oscAllowedSenders"@) is None
                ==> config_file::document_senders(merged) == Ok::<Seq<IpAddress>, Seq<char>>(
                Seq::empty(),
            )
            &&& json::lookup(incoming, "forwardTargets"@) is None ==> config_file::document_targets(
                merged,
            ).len() == 0
            &&& json::lookup(incoming, "oscListen"@) is None ==> json::field(merged, "oscListen"@)
                == Some(config_file::default_osclisten_model())
        }),
{
    let entries = config_file::default_config()->Object_0;
    lemma_default(0);
    lemma_default(1);
    lemma_default(2);
    lemma_default(5);
    lemma_default(7);
    lemma_default(8);
    lemma_default(11);
    json::law_merge_by_name(entries, incoming, "allowInsecureHttp"@);
    json::law_merge_by_name(entries, incoming, "allowNetworkOsc"@);
    json::law_merge_by_name(entries, incoming, "creatorUsername"@);
    json::law_merge_by_name(entries, incoming, "streamKey"@);
    json::law_merge_by_name(entries, incoming, "oscAllowedSenders"@);
    json::law_merge_by_name(entries, incoming, "forwardTargets"@);
    json::law_merge_by_name(entries, incoming, "oscListen"@);
    assert(config_file::texts_among(Seq::empty()) =~= Seq::empty());
    assert(config::senders(Seq::empty()) == Ok::<Seq<IpAddress>, Seq<char>>(Seq::empty()));
}

} // verus!
