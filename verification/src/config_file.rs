//! Configuration files: the defaults, and the rules that read a JSON document.
use vstd::prelude::*;
use vstd::arithmetic::power2::pow2;
use vstd::string::*;
use crate::config;
use crate::config::{
    CliModel, CliOptions, ConfigError, DiscoveryConfig, DiscoveryModel, ForwardTarget,
    ForwardTargetModel, NormalizedConfig, NormalizedModel, OscListen, OscListenModel, PathPlace,
    PathPlaceModel, RelayPaths, RelayPathsModel,
};
use crate::float;
use crate::float::FloatBits;
use crate::ip;
use crate::ip::IpAddress;
use crate::json;
use crate::json::{Json, JsonNumber, JsonValue, NumberModel};
use crate::mapping;
use crate::mapping::{Curve, Mapping, MappingModel};
use crate::model;
use crate::smoothing;
use crate::smoothing::OutputTuning;
use crate::text;

verus! {

/// A whole number in a JSON document.
pub open spec fn whole_number(n: u64, bits: u64) -> Json {
    Json::Number(
        NumberModel {
            float: float::number(bits),
            unsigned: Some(n),
            signed: Some(n as i64),
            text: text::decimal_text(n as nat),
        },
    )
}

fn make_whole(n: u64, bits: u64) -> (r: JsonValue)
    requires
        n <= 0x7FFF_FFFF,
    ensures
        r@ == whole_number(n, bits),
{
    JsonValue::Number(
        JsonNumber {
            float: float::from_bits(bits),
            unsigned: Some(n),
            signed: Some(n as i64),
            text: text::decimal(n),
        },
    )
}

/// A number with a fraction in a JSON document.
pub open spec fn fraction(bits: u64, notation: Seq<char>) -> Json {
    Json::Number(
        NumberModel { float: float::number(bits), unsigned: None, signed: None, text: notation },
    )
}

fn make_fraction(bits: u64, notation: &str) -> (r: JsonValue)
    ensures
        r@ == fraction(bits, notation@),
{
    JsonValue::Number(
        JsonNumber {
            float: float::from_bits(bits),
            unsigned: None,
            signed: None,
            text: notation.to_owned(),
        },
    )
}

/// The default of `debug`.
pub open spec fn default_debug_model() -> Json {
    Json::Object(seq![("logConfiguredOnly"@, Json::Bool(false)), ("logOsc"@, Json::Bool(false)), ("logRelay"@, Json::Bool(false)), ("logUnmappedOnly"@, Json::Bool(false))])
}

fn default_debug() -> (r: JsonValue)
    ensures
        r@ == default_debug_model(),
{
    let mut entries: Vec<(String, JsonValue)> = Vec::new();
    json::push_entry(&mut entries, "logConfiguredOnly", JsonValue::Bool(false));
    json::push_entry(&mut entries, "logOsc", JsonValue::Bool(false));
    json::push_entry(&mut entries, "logRelay", JsonValue::Bool(false));
    json::push_entry(&mut entries, "logUnmappedOnly", JsonValue::Bool(false));
    assert(json::entries_content(entries@) =~= default_debug_model()->Object_0);
    JsonValue::Object(entries)
}

/// The default of `discovery`.
pub open spec fn default_discovery_model() -> Json {
    Json::Object(seq![("enabled"@, Json::Bool(false)), ("filePath"@, Json::Text("scripts/vrl-osc-discovered.txt"@)), ("includeArgTypes"@, Json::Bool(false))])
}

fn default_discovery() -> (r: JsonValue)
    ensures
        r@ == default_discovery_model(),
{
    let mut entries: Vec<(String, JsonValue)> = Vec::new();
    json::push_entry(&mut entries, "enabled", JsonValue::Bool(false));
    json::push_entry(&mut entries, "filePath", JsonValue::Text("scripts/vrl-osc-discovered.txt".to_owned()));
    json::push_entry(&mut entries, "includeArgTypes", JsonValue::Bool(false));
    assert(json::entries_content(entries@) =~= default_discovery_model()->Object_0);
    JsonValue::Object(entries)
}

/// The default of one of the `inputs`.
pub open spec fn default_input_model() -> Json {
    Json::Object(seq![("address"@, Json::Text("/avatar/parameters/SPS_Contact"@)), ("curve"@, Json::Text("linear"@)), ("deadzone"@, fraction(0x3F94_7AE1_47AE_147B, "0.02"@)), ("invert"@, Json::Bool(false)), ("max"@, whole_number(1, 0x3FF0_0000_0000_0000)), ("min"@, whole_number(0, 0x0000_0000_0000_0000)), ("weight"@, whole_number(1, 0x3FF0_0000_0000_0000))])
}

fn default_input() -> (r: JsonValue)
    ensures
        r@ == default_input_model(),
{
    let mut entries: Vec<(String, JsonValue)> = Vec::new();
    json::push_entry(&mut entries, "address", JsonValue::Text("/avatar/parameters/SPS_Contact".to_owned()));
    json::push_entry(&mut entries, "curve", JsonValue::Text("linear".to_owned()));
    json::push_entry(&mut entries, "deadzone", make_fraction(0x3F94_7AE1_47AE_147B, "0.02"));
    json::push_entry(&mut entries, "invert", JsonValue::Bool(false));
    json::push_entry(&mut entries, "max", make_whole(1, 0x3FF0_0000_0000_0000));
    json::push_entry(&mut entries, "min", make_whole(0, 0x0000_0000_0000_0000));
    json::push_entry(&mut entries, "weight", make_whole(1, 0x3FF0_0000_0000_0000));
    assert(json::entries_content(entries@) =~= default_input_model()->Object_0);
    JsonValue::Object(entries)
}

/// The default of `oscListen`.
pub open spec fn default_osclisten_model() -> Json {
    Json::Object(seq![("host"@, Json::Text("127.0.0.1"@)), ("port"@, whole_number(9001, 0x40C1_9480_0000_0000))])
}

fn default_osclisten() -> (r: JsonValue)
    ensures
        r@ == default_osclisten_model(),
{
    let mut entries: Vec<(String, JsonValue)> = Vec::new();
    json::push_entry(&mut entries, "host", JsonValue::Text("127.0.0.1".to_owned()));
    json::push_entry(&mut entries, "port", make_whole(9001, 0x40C1_9480_0000_0000));
    assert(json::entries_content(entries@) =~= default_osclisten_model()->Object_0);
    JsonValue::Object(entries)
}

/// The default of `output`.
pub open spec fn default_output_model() -> Json {
    Json::Object(seq![("attackMs"@, whole_number(55, 0x404B_8000_0000_0000)), ("emaAlpha"@, fraction(0x3FD6_6666_6666_6666, "0.35"@)), ("emitHz"@, whole_number(20, 0x4034_0000_0000_0000)), ("heartbeatMs"@, whole_number(1000, 0x408F_4000_0000_0000)), ("minDelta"@, fraction(0x3F8E_B851_EB85_1EB8, "0.015"@)), ("releaseMs"@, whole_number(220, 0x406B_8000_0000_0000))])
}

fn default_output() -> (r: JsonValue)
    ensures
        r@ == default_output_model(),
{
    let mut entries: Vec<(String, JsonValue)> = Vec::new();
    json::push_entry(&mut entries, "attackMs", make_whole(55, 0x404B_8000_0000_0000));
    json::push_entry(&mut entries, "emaAlpha", make_fraction(0x3FD6_6666_6666_6666, "0.35"));
    json::push_entry(&mut entries, "emitHz", make_whole(20, 0x4034_0000_0000_0000));
    json::push_entry(&mut entries, "heartbeatMs", make_whole(1000, 0x408F_4000_0000_0000));
    json::push_entry(&mut entries, "minDelta", make_fraction(0x3F8E_B851_EB85_1EB8, "0.015"));
    json::push_entry(&mut entries, "releaseMs", make_whole(220, 0x406B_8000_0000_0000));
    assert(json::entries_content(entries@) =~= default_output_model()->Object_0);
    JsonValue::Object(entries)
}

/// The default of `relay`.
pub open spec fn default_relay_model() -> Json {
    Json::Object(seq![("ingestPath"@, Json::Text("/api/sps/ingest"@)), ("sessionPath"@, Json::Text("/api/sps/session"@))])
}

fn default_relay() -> (r: JsonValue)
    ensures
        r@ == default_relay_model(),
{
    let mut entries: Vec<(String, JsonValue)> = Vec::new();
    json::push_entry(&mut entries, "ingestPath", JsonValue::Text("/api/sps/ingest".to_owned()));
    json::push_entry(&mut entries, "sessionPath", JsonValue::Text("/api/sps/session".to_owned()));
    assert(json::entries_content(entries@) =~= default_relay_model()->Object_0);
    JsonValue::Object(entries)
}

/// The configuration over which a given one is laid.
pub open spec fn default_config() -> Json {
    Json::Object(
        seq![
            ("allowInsecureHttp"@, Json::Bool(false)),
            ("allowNetworkOsc"@, Json::Bool(false)),
            ("creatorUsername"@, Json::Text(""@)),
            ("debug"@, default_debug_model()),
            ("discovery"@, default_discovery_model()),
            ("forwardTargets"@, Json::Array(Seq::empty())),
            ("inputs"@, Json::Array(seq![default_input_model()])),
            ("oscAllowedSenders"@, Json::Array(Seq::empty())),
            ("oscListen"@, default_osclisten_model()),
            ("output"@, default_output_model()),
            ("relay"@, default_relay_model()),
            ("streamKey"@, Json::Text(""@)),
            ("websiteBaseUrl"@, Json::Text("https://dev.vrlewds.com"@)),
        ],
    )
}

fn default_config_value() -> (r: JsonValue)
    ensures
        r@ == default_config(),
{
    let mut inputs: Vec<JsonValue> = Vec::new();
    json::push_item(&mut inputs, default_input());
    let mut entries: Vec<(String, JsonValue)> = Vec::new();
    json::push_entry(&mut entries, "allowInsecureHttp", JsonValue::Bool(false));
    json::push_entry(&mut entries, "allowNetworkOsc", JsonValue::Bool(false));
    json::push_entry(&mut entries, "creatorUsername", JsonValue::Text("".to_owned()));
    json::push_entry(&mut entries, "debug", default_debug());
    json::push_entry(&mut entries, "discovery", default_discovery());
    json::push_entry(&mut entries, "forwardTargets", JsonValue::Array(Vec::new()));
    json::push_entry(&mut entries, "inputs", JsonValue::Array(inputs));
    json::push_entry(&mut entries, "oscAllowedSenders", JsonValue::Array(Vec::new()));
    json::push_entry(&mut entries, "oscListen", default_osclisten());
    json::push_entry(&mut entries, "output", default_output());
    json::push_entry(&mut entries, "relay", default_relay());
    json::push_entry(&mut entries, "streamKey", JsonValue::Text("".to_owned()));
    json::push_entry(&mut entries, "websiteBaseUrl", JsonValue::Text("https://dev.vrlewds.com".to_owned()));
    assert(json::entries_content(entries@) =~= default_config()->Object_0);
    JsonValue::Object(entries)
}

/// Lays a document over the defaults.
pub fn merge_with_defaults(user_config: &JsonValue) -> (r: JsonValue)
    ensures
        r@ == json::merged(default_config(), user_config@),
{
    json::deep_merge(&default_config_value(), user_config)
}

/// A configuration that was read from a file.
#[derive(Debug, PartialEq, Eq)]
pub struct LoadedConfig {
    pub full_path: String,
    pub value: JsonValue,
}

/// Reads the text of a configuration file: a JSON document, laid over the defaults.
pub fn load_config_text(full_path: &str, raw: &str) -> (r: Result<LoadedConfig, ConfigError>)
    ensures
        match r {
            Ok(loaded) => json::parsed_json(raw@) is Ok && loaded.full_path@ == full_path@
                && loaded.value@ == json::merged(default_config(), json::parsed_json(raw@)->Ok_0),
            Err(error) => json::parsed_json(raw@) is Err && error.message@
                == "Failed to parse config JSON: "@ + json::parsed_json(raw@)->Err_0,
        },
{
    match json::parse(raw) {
        Ok(value) => Ok(
            LoadedConfig { full_path: full_path.to_owned(), value: merge_with_defaults(&value) },
        ),
        Err(message) => Err(
            ConfigError {
                message: text::concat2("Failed to parse config JSON: ", message.as_str()),
            },
        ),
    }
}

/// The text that a value is, trimmed; empty where it is none.
pub open spec fn trimmed_text(value: Option<Json>) -> Seq<char> {
    match json::as_text(value) {
        Some(s) => text::trimmed(s),
        None => Seq::empty(),
    }
}

fn read_trimmed(value: Option<&JsonValue>) -> (r: String)
    ensures
        r@ == trimmed_text(json::model(value)),
{
    match json::text_of(value) {
        Some(s) => text::trim(s).to_owned(),
        None => String::new(),
    }
}

/// The mapping that an entry of `inputs` describes, if its address starts with a slash.
pub open spec fn mapping_from(entry: Json) -> Option<MappingModel> {
    let one = float::number(float::ONE);
    let zero = float::number(0);
    mapping::mapping_of(
        trimmed_text(json::field(entry, "address"@)),
        mapping::finite_or(json::number_reading(json::field(entry, "weight"@)), one),
        json::number_reading(json::field(entry, "deadzone"@)),
        json::is_truthy(json::field(entry, "invert"@)),
        mapping::named_curve(
            match json::as_text(json::field(entry, "curve"@)) {
                Some(name) => name,
                None => "linear"@,
            },
        ),
        mapping::finite_or(json::number_reading(json::field(entry, "min"@)), zero),
        mapping::finite_or(json::number_reading(json::field(entry, "max"@)), one),
    )
}

fn read_mapping(entry: &JsonValue) -> (r: Option<Mapping>)
    ensures
        model::opt_view(r) == mapping_from(entry@),
{
    let one = float::from_bits(float::ONE);
    let zero = float::from_bits(0);
    let address = read_trimmed(entry.get("address"));
    let curve = match json::text_of(entry.get("curve")) {
        Some(name) => Curve::from_name(name),
        None => Curve::from_name("linear"),
    };
    Mapping::new(
        address.as_str(),
        mapping::finite_or_default(json::js_to_number(entry.get("weight")), one),
        json::js_to_number(entry.get("deadzone")),
        json::js_truthy(entry.get("invert")),
        curve,
        mapping::finite_or_default(json::js_to_number(entry.get("min")), zero),
        mapping::finite_or_default(json::js_to_number(entry.get("max")), one),
    )
}

/// The mappings that the entries describe, those that are none left out.
pub open spec fn mappings_from(entries: Seq<Json>) -> Seq<MappingModel>
    decreases entries.len(),
{
    if entries.len() == 0 {
        Seq::empty()
    } else {
        let before = mappings_from(entries.drop_last());
        match mapping_from(entries.last()) {
            Some(m) => before.push(m),
            None => before,
        }
    }
}

/// The mappings of a document; `inputs` has to be a list that is not empty.
pub open spec fn document_mappings(config: Json) -> Result<Seq<MappingModel>, Seq<char>> {
    match json::as_array(json::field(config, "inputs"@)) {
        Some(entries) => if entries.len() == 0 {
            Err("config.inputs must contain at least one OSC mapping"@)
        } else {
            Ok(mappings_from(entries))
        },
        None => Err("config.inputs must contain at least one OSC mapping"@),
    }
}

fn normalize_mappings(config: &JsonValue) -> (r: Result<Vec<Mapping>, ConfigError>)
    ensures
        match r {
            Ok(list) => document_mappings(config@) == Ok::<Seq<MappingModel>, Seq<char>>(
                model::views(list@),
            ),
            Err(error) => document_mappings(config@) == Err::<Seq<MappingModel>, Seq<char>>(
                error.message@,
            ),
        },
{
    let required = "config.inputs must contain at least one OSC mapping";
    let inputs = match json::array_of(config.get("inputs")) {
        Some(inputs) => inputs,
        None => {
            return Err(ConfigError { message: required.to_owned() });
        },
    };
    proof {
        json::lemma_items_content(inputs@);
    }
    if inputs.len() == 0 {
        return Err(ConfigError { message: required.to_owned() });
    }
    let ghost all = json::items_content(inputs@);
    let mut out: Vec<Mapping> = Vec::new();
    let mut i: usize = 0;
    assert(all.take(0) =~= Seq::empty());
    assert(model::views(out@) =~= Seq::empty());
    while i < inputs.len()
        invariant
            i <= inputs@.len(),
            all == json::items_content(inputs@),
            model::views(out@) == mappings_from(all.take(i as int)),
        decreases inputs@.len() - i,
    {
        proof {
            json::lemma_items_content(inputs@);
        }
        assert(all.take(i + 1).drop_last() =~= all.take(i as int));
        assert(all.take(i + 1).last() == inputs@[i as int]@);
        if let Some(m) = read_mapping(&inputs[i]) {
            proof {
                model::lemma_views_push(out@, m);
            }
            out.push(m);
        }
        i += 1;
    }
    assert(all.take(i as int) =~= all);
    Ok(out)
}

/// The target that an entry of `forwardTargets` describes: a host and a port from 1 to 65535.
pub open spec fn target_from(entry: Json) -> Option<ForwardTargetModel> {
    let host = trimmed_text(json::field(entry, "host"@));
    match float::port_of(json::number_reading(json::field(entry, "port"@))) {
        Some(port) => if host.len() == 0 {
            None
        } else {
            Some(ForwardTargetModel { host, port: port as u16 })
        },
        None => None,
    }
}

/// The targets that the entries describe, those that are none left out.
pub open spec fn targets_from(entries: Seq<Json>) -> Seq<ForwardTargetModel>
    decreases entries.len(),
{
    if entries.len() == 0 {
        Seq::empty()
    } else {
        let before = targets_from(entries.drop_last());
        match target_from(entries.last()) {
            Some(target) => before.push(target),
            None => before,
        }
    }
}

/// The targets of a document.
pub open spec fn document_targets(config: Json) -> Seq<ForwardTargetModel> {
    match json::as_array(json::field(config, "forwardTargets"@)) {
        Some(entries) => targets_from(entries),
        None => Seq::empty(),
    }
}

fn read_target(entry: &JsonValue) -> (r: Option<ForwardTarget>)
    ensures
        model::opt_view(r) == target_from(entry@),
{
    let host = read_trimmed(entry.get("host"));
    let port = json::js_to_number(entry.get("port")).as_port();
    match port {
        Some(port) => {
            if host.as_str().unicode_len() == 0 {
                None
            } else {
                Some(ForwardTarget { host, port })
            }
        },
        None => None,
    }
}

fn normalize_forward_targets(config: &JsonValue) -> (r: Vec<ForwardTarget>)
    ensures
        model::views(r@) == document_targets(config@),
{
    let mut out: Vec<ForwardTarget> = Vec::new();
    assert(model::views(out@) =~= Seq::empty());
    let targets = match json::array_of(config.get("forwardTargets")) {
        Some(targets) => targets,
        None => {
            return out;
        },
    };
    let ghost all = json::items_content(targets@);
    let mut i: usize = 0;
    assert(all.take(0) =~= Seq::empty());
    while i < targets.len()
        invariant
            i <= targets@.len(),
            all == json::items_content(targets@),
            model::views(out@) == targets_from(all.take(i as int)),
        decreases targets@.len() - i,
    {
        proof {
            json::lemma_items_content(targets@);
        }
        assert(all.take(i + 1).drop_last() =~= all.take(i as int));
        assert(all.take(i + 1).last() == targets@[i as int]@);
        if let Some(target) = read_target(&targets[i]) {
            proof {
                model::lemma_views_push(out@, target);
            }
            out.push(target);
        }
        i += 1;
    }
    proof {
        json::lemma_items_content(targets@);
    }
    assert(all.take(i as int) =~= all);
    out
}

/// The texts among the values of a list.
pub open spec fn texts_among(items: Seq<Json>) -> Seq<Seq<char>>
    decreases items.len(),
{
    if items.len() == 0 {
        Seq::empty()
    } else {
        let before = texts_among(items.drop_last());
        match items.last() {
            Json::Text(s) => before.push(s),
            _ => before,
        }
    }
}

/// The characters that separate addresses in one text.
pub open spec fn sender_separators() -> Seq<char> {
    seq![',', '\n', '\r', ';']
}

/// The senders of a document: a list of texts, or one text with separators.
pub open spec fn document_senders(config: Json) -> Result<Seq<IpAddress>, Seq<char>> {
    match json::field(config, "oscAllowedSenders"@) {
        None => Ok(Seq::empty()),
        Some(Json::Array(items)) => config::senders(texts_among(items)),
        Some(Json::Text(s)) => config::senders(text::pieces(s, sender_separators())),
        Some(_) => Err("config.oscAllowedSenders must be an array of IP strings"@),
    }
}

fn normalize_allowed_senders(config: &JsonValue) -> (r: Result<Vec<IpAddress>, ConfigError>)
    ensures
        config::list_outcome(r) == document_senders(config@),
{
    match config.get("oscAllowedSenders") {
        None => Ok(Vec::new()),
        Some(JsonValue::Array(items)) => {
            let ghost all = json::items_content(items@);
            let mut list: Vec<String> = Vec::new();
            let mut i: usize = 0;
            assert(all.take(0) =~= Seq::empty());
            assert(text::texts(list@) =~= Seq::empty());
            while i < items.len()
                invariant
                    i <= items@.len(),
                    all == json::items_content(items@),
                    text::texts(list@) == texts_among(all.take(i as int)),
                decreases items@.len() - i,
            {
                proof {
                    json::lemma_items_content(items@);
                }
                assert(all.take(i + 1).drop_last() =~= all.take(i as int));
                assert(all.take(i + 1).last() == items@[i as int]@);
                if let JsonValue::Text(s) = &items[i] {
                    proof {
                        text::lemma_texts_push(list@, *s);
                    }
                    list.push(s.clone());
                }
                i += 1;
            }
            proof {
                json::lemma_items_content(items@);
            }
            assert(all.take(i as int) =~= all);
            config::parse_allowed_sender_items(&list)
        },
        Some(JsonValue::Text(s)) => {
            let separators = vec![',', '\n', '\r', ';'];
            assert(separators@ =~= sender_separators());
            let list = text::split(s.as_str(), &separators);
            config::parse_allowed_sender_items(&list)
        },
        Some(_) => Err(
            ConfigError {
                message: "config.oscAllowedSenders must be an array of IP strings".to_owned(),
            },
        ),
    }
}

/// A member of `output`, read as a number and held within its limits.
pub open spec fn output_number(
    config: Json,
    name: Seq<char>,
    default: u64,
    min: u64,
    max: u64,
) -> FloatBits {
    float::clamped(
        json::number_or(json::field2(config, "output"@, name), float::number(default)),
        float::number(min),
        float::number(max),
    )
}

fn read_output_number(config: &JsonValue, name: &str, default: u64, min: u64, max: u64) -> (r:
    FloatBits)
    ensures
        r == output_number(config@, name@, default, min, max),
{
    float::clamp(
        json::number_with_nullish_default(
            json::get2(config, "output", name),
            float::from_bits(default),
        ),
        float::from_bits(min),
        float::from_bits(max),
    )
}

/// The tuning of a document.
pub open spec fn document_output(config: Json) -> OutputTuning {
    OutputTuning {
        emit_hz: output_number(
            config,
            "emitHz"@,
            smoothing::TWENTY,
            smoothing::TWO,
            smoothing::SIXTY,
        ),
        attack_ms: output_number(
            config,
            "attackMs"@,
            smoothing::FIFTY_FIVE,
            smoothing::TEN,
            smoothing::TWO_THOUSAND,
        ),
        release_ms: output_number(
            config,
            "releaseMs"@,
            smoothing::TWO_HUNDRED_TWENTY,
            smoothing::TEN,
            smoothing::FIVE_THOUSAND,
        ),
        ema_alpha: output_number(
            config,
            "emaAlpha"@,
            smoothing::DEFAULT_ALPHA,
            smoothing::HUNDREDTH,
            float::ONE,
        ),
        min_delta: output_number(config, "minDelta"@, smoothing::DEFAULT_DELTA, 0, float::ONE),
        heartbeat_ms: output_number(
            config,
            "heartbeatMs"@,
            smoothing::THOUSAND,
            smoothing::TWO_HUNDRED,
            smoothing::TEN_THOUSAND,
        ).floor() as u64,
    }
}

fn normalize_output_config(config: &JsonValue) -> (r: OutputTuning)
    ensures
        r == document_output(config@),
{
    let heartbeat = read_output_number(
        config,
        "heartbeatMs",
        smoothing::THOUSAND,
        smoothing::TWO_HUNDRED,
        smoothing::TEN_THOUSAND,
    );
    assert(smoothing::TWO_HUNDRED <= heartbeat.bits <= smoothing::TEN_THOUSAND);
    OutputTuning {
        emit_hz: read_output_number(
            config,
            "emitHz",
            smoothing::TWENTY,
            smoothing::TWO,
            smoothing::SIXTY,
        ),
        attack_ms: read_output_number(
            config,
            "attackMs",
            smoothing::FIFTY_FIVE,
            smoothing::TEN,
            smoothing::TWO_THOUSAND,
        ),
        release_ms: read_output_number(
            config,
            "releaseMs",
            smoothing::TWO_HUNDRED_TWENTY,
            smoothing::TEN,
            smoothing::FIVE_THOUSAND,
        ),
        ema_alpha: read_output_number(
            config,
            "emaAlpha",
            smoothing::DEFAULT_ALPHA,
            smoothing::HUNDREDTH,
            float::ONE,
        ),
        min_delta: read_output_number(
            config,
            "minDelta",
            smoothing::DEFAULT_DELTA,
            0,
            float::ONE,
        ),
        heartbeat_ms: heartbeat.whole_part(),
    }
}

/// Whether a member of a member counts as true.
pub open spec fn flag(config: Json, outer: Seq<char>, inner: Seq<char>) -> bool {
    json::is_truthy(json::field2(config, outer, inner))
}

fn read_flag(config: &JsonValue, outer: &str, inner: &str) -> (r: bool)
    ensures
        r == flag(config@, outer@, inner@),
{
    json::js_truthy(json::get2(config, outer, inner))
}

/// The path that the command line gives for the discovery file, empty where it gives none.
pub open spec fn cli_discovery_path(cli: CliModel) -> Seq<char> {
    match cli.discovery_path {
        Some(path) => text::trimmed(path),
        None => Seq::empty(),
    }
}

/// The discovery path of a document under the command line's options, before it is resolved.
pub open spec fn document_path(config: Json, cli: CliModel) -> Seq<char> {
    let given = cli_discovery_path(cli);
    config::nonempty_or(
        if given.len() > 0 {
            given
        } else {
            trimmed_text(json::field2(config, "discovery"@, "filePath"@))
        },
        "scripts/vrl-osc-discovered.txt"@,
    )
}

fn read_cli_discovery_path(cli: &CliOptions) -> (r: String)
    ensures
        r@ == cli_discovery_path(cli@),
{
    match &cli.discovery_path {
        Some(path) => text::trim(path.as_str()).to_owned(),
        None => String::new(),
    }
}

/// The discovery path of a document under the command line's options, before it is resolved.
pub fn discovery_path(config: &JsonValue, cli: &CliOptions) -> (r: String)
    ensures
        r@ == document_path(config@, cli@),
{
    let given = read_cli_discovery_path(cli);
    let path = if given.as_str().unicode_len() > 0 {
        given
    } else {
        read_trimmed(json::get2(config, "discovery", "filePath"))
    };
    config::nonempty_or_default(path.as_str(), "scripts/vrl-osc-discovered.txt")
}

/// The discovery settings of a document under the command line's options, with the path of the
/// file.
pub open spec fn document_discovery(
    config: Json,
    cli: CliModel,
    file_path: Seq<char>,
) -> DiscoveryModel {
    DiscoveryModel {
        enabled: cli_discovery_path(cli).len() > 0 || flag(config, "discovery"@, "enabled"@),
        file_path,
        include_arg_types: cli.discovery_include_arg_types || flag(
            config,
            "discovery"@,
            "includeArgTypes"@,
        ),
    }
}

fn normalize_discovery(config: &JsonValue, cli: &CliOptions, file_path: String) -> (r:
    DiscoveryConfig)
    ensures
        r@ == document_discovery(config@, cli@, file_path@),
{
    let given = read_cli_discovery_path(cli);
    DiscoveryConfig {
        enabled: given.as_str().unicode_len() > 0 || read_flag(config, "discovery", "enabled"),
        file_path,
        include_arg_types: cli.discovery_include_arg_types || read_flag(
            config,
            "discovery",
            "includeArgTypes",
        ),
    }
}

/// The port of a document: an integer from 1 to 65535, 9001 where none is given.
pub open spec fn document_port(config: Json) -> Option<nat> {
    float::port_of(
        json::number_or(
            json::field2(config, "oscListen"@, "port"@),
            float::number(0x40C1_9480_0000_0000),
        ),
    )
}

/// The normalized form of a document under the command line's options, or the first rule that it
/// breaks.
pub open spec fn normalized_document(config: Json, cli: CliModel, place: PathPlaceModel) -> Result<
    NormalizedModel,
    Seq<char>,
> {
    let creator = text::trimmed(json::text_or(json::field(config, "creatorUsername"@), ""@));
    let key = text::trimmed(json::text_or(json::field(config, "streamKey"@), ""@));
    let host = text::trimmed(
        json::text_or(json::field2(config, "oscListen"@, "host"@), "127.0.0.1"@),
    );
    let allow_network = json::is_truthy(json::field(config, "allowNetworkOsc"@));
    match config::base_url_of(
        json::text_or(json::field(config, "websiteBaseUrl"@), ""@),
        json::field(config, "allowInsecureHttp"@) == Some(Json::Bool(true)),
    ) {
        Err(message) => Err(message),
        Ok(url) => if creator.len() == 0 {
            Err("config.creatorUsername is required"@)
        } else if key.len() == 0 {
            Err("config.streamKey is required"@)
        } else if host.len() == 0 {
            Err("config.oscListen.host is required"@)
        } else if document_port(config) is None {
            Err("config.oscListen.port must be a valid UDP port"@)
        } else {
            match config::network_rules(host, allow_network, document_senders(config)) {
                Err(message) => Err(message),
                Ok(addresses) => match config::resolved_path(document_path(config, cli), place) {
                    Err(message) => Err(message),
                    Ok(file_path) => match document_mappings(config) {
                        Err(message) => Err(message),
                        Ok(mappings) => Ok(
                            NormalizedModel {
                                base_url: url,
                                creator_username: creator,
                                stream_key: key,
                                osc_listen: OscListenModel {
                                    host,
                                    port: (document_port(config)->0) as u16,
                                },
                                allow_network_osc: allow_network,
                                osc_allowed_senders: addresses,
                                relay: RelayPathsModel {
                                    session_path: json::text_or(
                                        json::field2(config, "relay"@, "sessionPath"@),
                                        "/api/sps/session"@,
                                    ),
                                    ingest_path: json::text_or(
                                        json::field2(config, "relay"@, "ingestPath"@),
                                        "/api/sps/ingest"@,
                                    ),
                                },
                                debug: config::debug_flags(
                                    cli.debug_osc || flag(config, "debug"@, "logOsc"@),
                                    cli.debug_unmapped_only || flag(
                                        config,
                                        "debug"@,
                                        "logUnmappedOnly"@,
                                    ),
                                    cli.debug_configured_only || flag(
                                        config,
                                        "debug"@,
                                        "logConfiguredOnly"@,
                                    ),
                                    cli.debug_relay || flag(config, "debug"@, "logRelay"@),
                                ),
                                discovery: document_discovery(config, cli, file_path),
                                forward_targets: document_targets(config),
                                mappings,
                                output: document_output(config),
                            },
                        ),
                    },
                },
            }
        },
    }
}

/// Normalizes a document under the command line's options. `place` is what the system makes of the
/// document's discovery path.
pub fn normalize_config(config: &JsonValue, cli_options: &CliOptions, place: &PathPlace) -> (r:
    Result<NormalizedConfig, ConfigError>)
    ensures
        config::outcome(r) == normalized_document(config@, cli_options@, place@),
{
    let raw_base = json::string_or_truthy_fallback(config.get("websiteBaseUrl"), "");
    let allow_insecure = match json::bool_of(config.get("allowInsecureHttp")) {
        Some(value) => value,
        None => false,
    };
    let base_url = match config::normalize_base_url(raw_base.as_str(), allow_insecure) {
        Ok(url) => url,
        Err(error) => {
            return Err(error);
        },
    };
    let creator = json::string_or_truthy_fallback(config.get("creatorUsername"), "");
    let creator = text::trim(creator.as_str());
    let key = json::string_or_truthy_fallback(config.get("streamKey"), "");
    let key = text::trim(key.as_str());
    if creator.unicode_len() == 0 {
        return Err(ConfigError { message: "config.creatorUsername is required".to_owned() });
    }
    if key.unicode_len() == 0 {
        return Err(ConfigError { message: "config.streamKey is required".to_owned() });
    }
    let host = json::string_or_truthy_fallback(
        json::get2(config, "oscListen", "host"),
        "127.0.0.1",
    );
    let host = text::trim(host.as_str());
    if host.unicode_len() == 0 {
        return Err(ConfigError { message: "config.oscListen.host is required".to_owned() });
    }
    let port_number = json::number_with_nullish_default(
        json::get2(config, "oscListen", "port"),
        float::from_bits(0x40C1_9480_0000_0000),
    );
    let port = match port_number.as_port() {
        Some(port) => port,
        None => {
            return Err(
                ConfigError {
                    message: "config.oscListen.port must be a valid UDP port".to_owned(),
                },
            );
        },
    };
    let allow_network_osc = json::js_truthy(config.get("allowNetworkOsc"));
    let list = normalize_allowed_senders(config);
    let osc_allowed_senders = match config::check_network_rules(host, allow_network_osc, list) {
        Ok(addresses) => addresses,
        Err(error) => {
            return Err(error);
        },
    };
    let raw_path = discovery_path(config, cli_options);
    let file_path = match config::resolve_path(raw_path.as_str(), place) {
        Ok(path) => path,
        Err(error) => {
            return Err(error);
        },
    };
    let mappings = match normalize_mappings(config) {
        Ok(mappings) => mappings,
        Err(error) => {
            return Err(error);
        },
    };
    Ok(
        NormalizedConfig {
            base_url,
            creator_username: creator.to_owned(),
            stream_key: key.to_owned(),
            osc_listen: OscListen { host: host.to_owned(), port },
            allow_network_osc,
            osc_allowed_senders,
            relay: RelayPaths {
                session_path: json::string_or_truthy_fallback(
                    json::get2(config, "relay", "sessionPath"),
                    "/api/sps/session",
                ),
                ingest_path: json::string_or_truthy_fallback(
                    json::get2(config, "relay", "ingestPath"),
                    "/api/sps/ingest",
                ),
            },
            debug: config::resolve_debug_flags(
                cli_options.debug_osc || read_flag(config, "debug", "logOsc"),
                cli_options.debug_unmapped_only || read_flag(config, "debug", "logUnmappedOnly"),
                cli_options.debug_configured_only || read_flag(
                    config,
                    "debug",
                    "logConfiguredOnly",
                ),
                cli_options.debug_relay || read_flag(config, "debug", "logRelay"),
            ),
            discovery: normalize_discovery(config, cli_options, file_path),
            forward_targets: normalize_forward_targets(config),
            mappings,
            output: normalize_output_config(config),
        },
    )
}

/// What holds of every normalized configuration.
pub open spec fn obeys_rules(c: NormalizedModel) -> bool {
    &&& c.creator_username.len() > 0
    &&& c.stream_key.len() > 0
    &&& c.osc_listen.host.len() > 0
    &&& c.osc_listen.port > 0
    &&& c.discovery.file_path.len() > 0
    &&& !c.allow_network_osc ==> ip::loopback_host(c.osc_listen.host)
        && c.osc_allowed_senders.len() == 0
    &&& c.osc_allowed_senders.no_duplicates()
    &&& !(c.debug.log_unmapped_only && c.debug.log_configured_only)
    &&& c.debug.log_unmapped_only || c.debug.log_configured_only ==> c.debug.log_osc
    &&& smoothing::within_limits(c.output)
    &&& forall|i: int|
        0 <= i < c.forward_targets.len() ==> (#[trigger] c.forward_targets[i]).host.len() > 0
            && c.forward_targets[i].port > 0
    &&& forall|i: int|
        0 <= i < c.mappings.len() ==> mapping::normalized_mapping(#[trigger] c.mappings[i]) == Some(
            c.mappings[i],
        )
}

proof fn lemma_targets(targets: Seq<ForwardTargetModel>)
    ensures
        forall|i: int|
            0 <= i < config::normalized_targets(targets).len() ==> (
            #[trigger] config::normalized_targets(targets)[i]).host.len() > 0
                && config::normalized_targets(targets)[i].port > 0,
    decreases targets.len(),
{
    if targets.len() > 0 {
        lemma_targets(targets.drop_last());
        let before = config::normalized_targets(targets.drop_last());
        let all = config::normalized_targets(targets);
        assert forall|i: int| 0 <= i < all.len() implies (#[trigger] all[i]).host.len() > 0
            && all[i].port > 0 by {
            if i < before.len() {
                assert(all[i] == before[i]);
            }
        }
    }
}

proof fn lemma_mappings(mappings: Seq<MappingModel>)
    ensures
        forall|i: int|
            0 <= i < config::normalized_mappings(mappings).len() ==> mapping::normalized_mapping(
                #[trigger] config::normalized_mappings(mappings)[i],
            ) == Some(config::normalized_mappings(mappings)[i]),
    decreases mappings.len(),
{
    if mappings.len() > 0 {
        lemma_mappings(mappings.drop_last());
        if mapping::normalized_mapping(mappings.last()) is Some {
            mapping::law_normalized_mapping(mappings.last());
        }
    }
}

proof fn lemma_document_targets(entries: Seq<Json>)
    ensures
        forall|i: int|
            0 <= i < targets_from(entries).len() ==> (#[trigger] targets_from(
                entries,
            )[i]).host.len() > 0 && targets_from(entries)[i].port > 0,
    decreases entries.len(),
{
    if entries.len() > 0 {
        lemma_document_targets(entries.drop_last());
        let before = targets_from(entries.drop_last());
        let all = targets_from(entries);
        assert forall|i: int| 0 <= i < all.len() implies (#[trigger] all[i]).host.len() > 0
            && all[i].port > 0 by {
            if i < before.len() {
                assert(all[i] == before[i]);
            }
        }
    }
}

proof fn lemma_document_mappings(entries: Seq<Json>)
    ensures
        forall|i: int|
            0 <= i < mappings_from(entries).len() ==> mapping::normalized_mapping(
                #[trigger] mappings_from(entries)[i],
            ) == Some(mappings_from(entries)[i]),
    decreases entries.len(),
{
    if entries.len() > 0 {
        lemma_document_mappings(entries.drop_last());
        let entry = entries.last();
        if mapping_from(entry) is Some {
            mapping::law_made_mapping(
                trimmed_text(json::field(entry, "address"@)),
                mapping::finite_or(
                    json::number_reading(json::field(entry, "weight"@)),
                    float::number(float::ONE),
                ),
                json::number_reading(json::field(entry, "deadzone"@)),
                json::is_truthy(json::field(entry, "invert"@)),
                mapping::named_curve(
                    match json::as_text(json::field(entry, "curve"@)) {
                        Some(name) => name,
                        None => "linear"@,
                    },
                ),
                mapping::finite_or(
                    json::number_reading(json::field(entry, "min"@)),
                    float::number(0),
                ),
                mapping::finite_or(
                    json::number_reading(json::field(entry, "max"@)),
                    float::number(float::ONE),
                ),
            );
        }
    }
}

proof fn lemma_document_senders(config: Json)
    ensures
        document_senders(config) matches Ok(list) ==> list.no_duplicates(),
{
    match json::field(config, "oscAllowedSenders"@) {
        Some(Json::Array(items)) => {
            config::law_senders_distinct(texts_among(items));
        },
        Some(Json::Text(s)) => {
            config::law_senders_distinct(text::pieces(s, sender_separators()));
        },
        _ => {},
    }
}

/// No path leads to the empty path.
pub open spec fn leads_somewhere(place: PathPlaceModel) -> bool {
    place.from_here matches Ok(full) ==> full.len() > 0
}

/// A profile's configuration that is accepted obeys the rules once it is normalized.
pub proof fn law_in_app_obeys_rules(
    config: config::InAppModel,
    stream_key: Seq<char>,
    place: PathPlaceModel,
)
    requires
        leads_somewhere(place),
    ensures
        config::normalized_in_app(config, stream_key, place) matches Ok(c) ==> obeys_rules(c),
{
    reveal_strlit("scripts/vrl-osc-discovered.txt");
    config::law_senders_distinct(config.osc_allowed_senders);
    lemma_targets(config.forward_targets);
    lemma_mappings(config.mappings);
    smoothing::law_sanitized_tuning(config.output);
}

/// A document that is accepted obeys the rules once it is normalized.
pub proof fn law_document_obeys_rules(config: Json, cli: CliModel, place: PathPlaceModel)
    requires
        leads_somewhere(place),
    ensures
        normalized_document(config, cli, place) matches Ok(c) ==> obeys_rules(c),
{
    reveal_strlit("scripts/vrl-osc-discovered.txt");
    lemma_document_senders(config);
    match json::as_array(json::field(config, "forwardTargets"@)) {
        Some(entries) => {
            lemma_document_targets(entries);
        },
        None => {},
    }
    match json::as_array(json::field(config, "inputs"@)) {
        Some(entries) => {
            lemma_document_mappings(entries);
        },
        None => {},
    }
    lemma_document_output(config);
}

proof fn lemma_document_output(config: Json)
    ensures
        smoothing::within_limits(document_output(config)),
{
    let heartbeat = output_number(
        config,
        "heartbeatMs"@,
        smoothing::THOUSAND,
        smoothing::TWO_HUNDRED,
        smoothing::TEN_THOUSAND,
    );
    assert(smoothing::TWO_HUNDRED <= heartbeat.bits <= smoothing::TEN_THOUSAND);
    lemma_floor_range(heartbeat);
}

proof fn lemma_floor_range(x: FloatBits)
    requires
        smoothing::TWO_HUNDRED <= x.bits <= smoothing::TEN_THOUSAND,
    ensures
        200 <= x.floor() <= 10_000,
{
    vstd::arithmetic::power2::lemma2_to64();
    vstd::arithmetic::power2::lemma2_to64_rest();
    let e = x.exponent();
    assert(1030 <= e <= 1036);
    if e == 1030 {
        assert(pow2((1075 - e) as nat) == 0x200000000000);
        assert(x.floor() == x.significand() / 0x200000000000);
    } else if e == 1031 {
        assert(pow2((1075 - e) as nat) == 0x100000000000);
        assert(x.floor() == x.significand() / 0x100000000000);
    } else if e == 1032 {
        assert(pow2((1075 - e) as nat) == 0x80000000000);
        assert(x.floor() == x.significand() / 0x80000000000);
    } else if e == 1033 {
        assert(pow2((1075 - e) as nat) == 0x40000000000);
        assert(x.floor() == x.significand() / 0x40000000000);
    } else if e == 1034 {
        assert(pow2((1075 - e) as nat) == 0x20000000000);
        assert(x.floor() == x.significand() / 0x20000000000);
    } else if e == 1035 {
        assert(pow2((1075 - e) as nat) == 0x10000000000);
        assert(x.floor() == x.significand() / 0x10000000000);
    } else if e == 1036 {
        assert(pow2((1075 - e) as nat) == 0x8000000000);
        assert(x.floor() == x.significand() / 0x8000000000);
    }
}

/// The stream key appears in a normalized configuration as the stream key and nowhere else: two
/// keys that are accepted give configurations that differ in it alone.
pub proof fn law_stream_key_stands_alone(
    config: config::InAppModel,
    first: Seq<char>,
    second: Seq<char>,
    place: PathPlaceModel,
)
    requires
        text::trimmed(first).len() > 0,
        text::trimmed(second).len() > 0,
    ensures
        config::normalized_in_app(config, second, place) == match config::normalized_in_app(
            config,
            first,
            place,
        ) {
            Ok(c) => Ok::<NormalizedModel, Seq<char>>(
                NormalizedModel { stream_key: text::trimmed(second), ..c },
            ),
            Err(message) => Err::<NormalizedModel, Seq<char>>(message),
        },
{
}

} // verus!
