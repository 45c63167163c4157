//! Profiles as rows of a database.
use vstd::prelude::*;
use vstd::string::*;
use crate::config;
use crate::config::{
    DebugConfig,
    DiscoveryConfig,
    DiscoveryModel,
    ForwardTarget,
    ForwardTargetModel,
    InAppConfig,
    InAppModel,
    NormalizedConfig,
    NormalizedModel,
    OscListen,
    OscListenModel,
    PathPlaceModel,
    RelayPaths,
    RelayPathsModel,
};
use crate::float::FloatBits;
use crate::ip;
use crate::ip::IpAddress;
use crate::ip_text;
use crate::mapping;
use crate::mapping::{Curve, Mapping, MappingModel, UpperBound};
use crate::model;
use crate::model::Duplicate;
use crate::smoothing::OutputTuning;
use crate::store;
use crate::store::{AppProfile, ProfileModel};
use crate::text;

verus! {

/// The key of the schema's version.
pub const META_SCHEMA_VERSION: &'static str = "schema_version";

/// The key of the profile that was selected last.
pub const META_LAST_SELECTED_PROFILE_ID: &'static str = "last_selected_profile_id";

/// The key of whether closing the window leaves the program running.
pub const META_CLOSE_TO_BACKGROUND: &'static str = "close_to_background";

/// A truth value as a number.
pub open spec fn number_of(value: bool) -> i64 {
    if value {
        1
    } else {
        0
    }
}

/// A truth value as a number.
pub fn bool_to_i64(value: bool) -> (r: i64)
    ensures
        r == number_of(value),
{
    if value {
        1
    } else {
        0
    }
}

/// A number as a truth value.
pub fn i64_to_bool(value: i64) -> (r: bool)
    ensures
        r == (value != 0),
{
    value != 0
}

/// Addresses, one to a line.
pub open spec fn sender_lines(list: Seq<IpAddress>) -> Seq<char> {
    text::joined(store::address_texts(list), "\n"@)
}

/// Writes addresses, one to a line.
pub fn format_osc_sender_lines(senders: &Vec<IpAddress>) -> (r: String)
    ensures
        r@ == sender_lines(senders@),
{
    let ghost wanted = store::address_texts(senders@);
    let mut out: Vec<String> = Vec::new();
    let mut i: usize = 0;
    assert(text::texts(out@) =~= wanted.take(0));
    while i < senders.len()
        invariant
            i <= senders@.len(),
            wanted == store::address_texts(senders@),
            text::texts(out@) == wanted.take(i as int),
        decreases senders@.len() - i,
    {
        let item = ip_text::format_ip(senders[i]);
        proof {
            text::lemma_texts_push(out@, item);
        }
        out.push(item);
        i += 1;
        assert(text::texts(out@) =~= wanted.take(i as int));
    }
    assert(wanted.take(i as int) =~= wanted);
    text::join(&out, "\n")
}

/// The characters that separate addresses.
pub open spec fn line_separators() -> Seq<char> {
    seq!['\n', ',', ';']
}

/// The addresses that items write, in their canonical texts; what is no address is left out.
pub open spec fn canonical_senders(items: Seq<Seq<char>>) -> Seq<Seq<char>>
    decreases items.len(),
{
    if items.len() == 0 {
        Seq::empty()
    } else {
        let before = canonical_senders(items.drop_last());
        match ip::ip_address(text::trimmed(items.last())) {
            Some(address) => if text::trimmed(items.last()).len() == 0 {
                before
            } else {
                before.push(ip_text::ip_text(address))
            },
            None => before,
        }
    }
}

/// Reads addresses, in their canonical texts.
pub fn parse_osc_sender_lines(raw: &str) -> (r: Vec<String>)
    ensures
        text::texts(r@) == canonical_senders(text::pieces(raw@, line_separators())),
{
    let separators = vec!['\n', ',', ';'];
    assert(separators@ =~= line_separators());
    let items = text::split(raw, &separators);
    let ghost all = text::texts(items@);
    let mut out: Vec<String> = Vec::new();
    let mut i: usize = 0;
    assert(all.take(0) =~= Seq::empty());
    assert(text::texts(out@) =~= Seq::empty());
    while i < items.len()
        invariant
            i <= items@.len(),
            all == text::texts(items@),
            text::texts(out@) == canonical_senders(all.take(i as int)),
        decreases items@.len() - i,
    {
        assert(all.take(i + 1).drop_last() =~= all.take(i as int));
        assert(all.take(i + 1).last() == items@[i as int]@);
        let item = text::trim(items[i].as_str());
        if item.unicode_len() > 0 {
            if let Some(address) = ip::parse_ip(item) {
                let canonical = ip_text::format_ip(address);
                proof {
                    text::lemma_texts_push(out@, canonical);
                }
                out.push(canonical);
            }
        }
        i += 1;
    }
    assert(all.take(i as int) =~= all);
    out
}

/// The columns of a profile.
#[derive(Debug, PartialEq, Eq)]
pub struct ProfileRow {
    pub id: String,
    pub name: String,
    pub website_base_url: String,
    pub creator_username: String,
    pub allow_insecure_http: i64,
    pub osc_host: String,
    pub osc_port: i64,
    pub osc_allow_network: i64,
    pub osc_allowed_senders: String,
    pub relay_session_path: String,
    pub relay_ingest_path: String,
    pub debug_log_osc: i64,
    pub debug_log_unmapped_only: i64,
    pub debug_log_configured_only: i64,
    pub debug_log_relay: i64,
    pub discovery_enabled: i64,
    pub discovery_file_path: String,
    pub discovery_include_arg_types: i64,
    pub output_emit_hz: FloatBits,
    pub output_attack_ms: FloatBits,
    pub output_release_ms: FloatBits,
    pub output_ema_alpha: FloatBits,
    pub output_min_delta: FloatBits,
    pub output_heartbeat_ms: i64,
}

/// The model of `ProfileRow`.
#[verifier::ext_equal]
pub struct RowModel {
    pub id: Seq<char>,
    pub name: Seq<char>,
    pub website_base_url: Seq<char>,
    pub creator_username: Seq<char>,
    pub allow_insecure_http: i64,
    pub osc_host: Seq<char>,
    pub osc_port: i64,
    pub osc_allow_network: i64,
    pub osc_allowed_senders: Seq<char>,
    pub relay_session_path: Seq<char>,
    pub relay_ingest_path: Seq<char>,
    pub debug_log_osc: i64,
    pub debug_log_unmapped_only: i64,
    pub debug_log_configured_only: i64,
    pub debug_log_relay: i64,
    pub discovery_enabled: i64,
    pub discovery_file_path: Seq<char>,
    pub discovery_include_arg_types: i64,
    pub output_emit_hz: FloatBits,
    pub output_attack_ms: FloatBits,
    pub output_release_ms: FloatBits,
    pub output_ema_alpha: FloatBits,
    pub output_min_delta: FloatBits,
    pub output_heartbeat_ms: i64,
}

impl View for ProfileRow {
    type V = RowModel;

    open spec fn view(&self) -> RowModel {
        RowModel {
            id: self.id@,
            name: self.name@,
            website_base_url: self.website_base_url@,
            creator_username: self.creator_username@,
            allow_insecure_http: self.allow_insecure_http,
            osc_host: self.osc_host@,
            osc_port: self.osc_port,
            osc_allow_network: self.osc_allow_network,
            osc_allowed_senders: self.osc_allowed_senders@,
            relay_session_path: self.relay_session_path@,
            relay_ingest_path: self.relay_ingest_path@,
            debug_log_osc: self.debug_log_osc,
            debug_log_unmapped_only: self.debug_log_unmapped_only,
            debug_log_configured_only: self.debug_log_configured_only,
            debug_log_relay: self.debug_log_relay,
            discovery_enabled: self.discovery_enabled,
            discovery_file_path: self.discovery_file_path@,
            discovery_include_arg_types: self.discovery_include_arg_types,
            output_emit_hz: self.output_emit_hz,
            output_attack_ms: self.output_attack_ms,
            output_release_ms: self.output_release_ms,
            output_ema_alpha: self.output_ema_alpha,
            output_min_delta: self.output_min_delta,
            output_heartbeat_ms: self.output_heartbeat_ms,
        }
    }
}

impl Duplicate for ProfileRow {
    fn duplicate(&self) -> (r: Self) {
        ProfileRow {
            id: self.id.clone(),
            name: self.name.clone(),
            website_base_url: self.website_base_url.clone(),
            creator_username: self.creator_username.clone(),
            allow_insecure_http: self.allow_insecure_http,
            osc_host: self.osc_host.clone(),
            osc_port: self.osc_port,
            osc_allow_network: self.osc_allow_network,
            osc_allowed_senders: self.osc_allowed_senders.clone(),
            relay_session_path: self.relay_session_path.clone(),
            relay_ingest_path: self.relay_ingest_path.clone(),
            debug_log_osc: self.debug_log_osc,
            debug_log_unmapped_only: self.debug_log_unmapped_only,
            debug_log_configured_only: self.debug_log_configured_only,
            debug_log_relay: self.debug_log_relay,
            discovery_enabled: self.discovery_enabled,
            discovery_file_path: self.discovery_file_path.clone(),
            discovery_include_arg_types: self.discovery_include_arg_types,
            output_emit_hz: self.output_emit_hz,
            output_attack_ms: self.output_attack_ms,
            output_release_ms: self.output_release_ms,
            output_ema_alpha: self.output_ema_alpha,
            output_min_delta: self.output_min_delta,
            output_heartbeat_ms: self.output_heartbeat_ms,
        }
    }
}

/// The columns of a mapping. The upper end is one above the lower end, or the number that the column holds.
#[derive(Debug, PartialEq, Eq)]
pub struct MappingRow {
    pub address: String,
    pub weight: FloatBits,
    pub deadzone: FloatBits,
    pub invert: i64,
    pub curve: String,
    pub min_value: FloatBits,
    pub max_value: UpperBound,
}

/// The model of `MappingRow`.
#[verifier::ext_equal]
pub struct MappingRowModel {
    pub address: Seq<char>,
    pub weight: FloatBits,
    pub deadzone: FloatBits,
    pub invert: i64,
    pub curve: Seq<char>,
    pub min_value: FloatBits,
    pub max_value: UpperBound,
}

impl View for MappingRow {
    type V = MappingRowModel;

    open spec fn view(&self) -> MappingRowModel {
        MappingRowModel {
            address: self.address@,
            weight: self.weight,
            deadzone: self.deadzone,
            invert: self.invert,
            curve: self.curve@,
            min_value: self.min_value,
            max_value: self.max_value,
        }
    }
}

impl Duplicate for MappingRow {
    fn duplicate(&self) -> (r: Self) {
        MappingRow {
            address: self.address.clone(),
            weight: self.weight,
            deadzone: self.deadzone,
            invert: self.invert,
            curve: self.curve.clone(),
            min_value: self.min_value,
            max_value: self.max_value,
        }
    }
}

/// The columns of a forward target.
#[derive(Debug, PartialEq, Eq)]
pub struct TargetRow {
    pub host: String,
    pub port: i64,
}

/// The model of `TargetRow`.
#[verifier::ext_equal]
pub struct TargetRowModel {
    pub host: Seq<char>,
    pub port: i64,
}

impl View for TargetRow {
    type V = TargetRowModel;

    open spec fn view(&self) -> TargetRowModel {
        TargetRowModel {
            host: self.host@,
            port: self.port,
        }
    }
}

impl Duplicate for TargetRow {
    fn duplicate(&self) -> (r: Self) {
        TargetRow {
            host: self.host.clone(),
            port: self.port,
        }
    }
}

/// The row of a profile with the given normalized configuration.
pub open spec fn row_of(
    id: Seq<char>,
    name: Seq<char>,
    n: NormalizedModel,
    allow_insecure_http: bool,
) -> RowModel {
    RowModel {
        id: id,
        name: text::trimmed(name),
        website_base_url: n.base_url.text,
        creator_username: n.creator_username,
        allow_insecure_http: number_of(allow_insecure_http),
        osc_host: n.osc_listen.host,
        osc_port: n.osc_listen.port as i64,
        osc_allow_network: number_of(n.allow_network_osc),
        osc_allowed_senders: sender_lines(n.osc_allowed_senders),
        relay_session_path: n.relay.session_path,
        relay_ingest_path: n.relay.ingest_path,
        debug_log_osc: number_of(n.debug.log_osc),
        debug_log_unmapped_only: number_of(n.debug.log_unmapped_only),
        debug_log_configured_only: number_of(n.debug.log_configured_only),
        debug_log_relay: number_of(n.debug.log_relay),
        discovery_enabled: number_of(n.discovery.enabled),
        discovery_file_path: n.discovery.file_path,
        discovery_include_arg_types: number_of(n.discovery.include_arg_types),
        output_emit_hz: n.output.emit_hz,
        output_attack_ms: n.output.attack_ms,
        output_release_ms: n.output.release_ms,
        output_ema_alpha: n.output.ema_alpha,
        output_min_delta: n.output.min_delta,
        output_heartbeat_ms: n.output.heartbeat_ms as i64,
    }
}

/// Makes the row of a profile.
pub fn profile_row(id: &str, name: &str, n: &NormalizedConfig, allow_insecure_http: bool) -> (r:
    ProfileRow)
    ensures
        r@ == row_of(id@, name@, n@, allow_insecure_http),
{
    ProfileRow {
        id: id.to_owned(),
        name: text::trim(name).to_owned(),
        website_base_url: n.base_url.text.clone(),
        creator_username: n.creator_username.clone(),
        allow_insecure_http: bool_to_i64(allow_insecure_http),
        osc_host: n.osc_listen.host.clone(),
        osc_port: n.osc_listen.port as i64,
        osc_allow_network: bool_to_i64(n.allow_network_osc),
        osc_allowed_senders: format_osc_sender_lines(&n.osc_allowed_senders),
        relay_session_path: n.relay.session_path.clone(),
        relay_ingest_path: n.relay.ingest_path.clone(),
        debug_log_osc: bool_to_i64(n.debug.log_osc),
        debug_log_unmapped_only: bool_to_i64(n.debug.log_unmapped_only),
        debug_log_configured_only: bool_to_i64(n.debug.log_configured_only),
        debug_log_relay: bool_to_i64(n.debug.log_relay),
        discovery_enabled: bool_to_i64(n.discovery.enabled),
        discovery_file_path: n.discovery.file_path.clone(),
        discovery_include_arg_types: bool_to_i64(n.discovery.include_arg_types),
        output_emit_hz: n.output.emit_hz,
        output_attack_ms: n.output.attack_ms,
        output_release_ms: n.output.release_ms,
        output_ema_alpha: n.output.ema_alpha,
        output_min_delta: n.output.min_delta,
        output_heartbeat_ms: n.output.heartbeat_ms as i64,
    }
}

/// The row of a mapping.
pub open spec fn mapping_row_of(m: MappingModel) -> MappingRowModel {
    MappingRowModel {
        address: m.address,
        weight: m.weight,
        deadzone: m.deadzone,
        invert: number_of(m.invert),
        curve: mapping::curve_text(m.curve),
        min_value: m.min,
        max_value: m.max,
    }
}

/// Makes the row of a mapping.
pub fn mapping_row(m: &Mapping) -> (r: MappingRow)
    ensures
        r@ == mapping_row_of(m@),
{
    MappingRow {
        address: m.address.clone(),
        weight: m.weight,
        deadzone: m.deadzone,
        invert: bool_to_i64(m.invert),
        curve: m.curve.name().to_owned(),
        min_value: m.min,
        max_value: m.max,
    }
}

/// The mapping in a row, if its address starts with a slash.
pub open spec fn row_mapping(row: MappingRowModel) -> Option<MappingModel> {
    match row.max_value {
        UpperBound::Value(max) => mapping::mapping_of(
            row.address,
            row.weight,
            row.deadzone,
            row.invert != 0,
            mapping::named_curve(row.curve),
            row.min_value,
            max,
        ),
        UpperBound::OneAboveMin => mapping::normalized_mapping(
            MappingModel {
                address: row.address,
                weight: row.weight,
                deadzone: row.deadzone,
                invert: row.invert != 0,
                curve: mapping::named_curve(row.curve),
                min: row.min_value,
                max: UpperBound::OneAboveMin,
            },
        ),
    }
}

/// Reads the mapping in a row.
pub fn mapping_from_row(row: &MappingRow) -> (r: Option<Mapping>)
    ensures
        model::opt_view(r) == row_mapping(row@),
{
    let curve = Curve::from_name(row.curve.as_str());
    match row.max_value {
        UpperBound::Value(max) => Mapping::new(
            row.address.as_str(),
            row.weight,
            row.deadzone,
            i64_to_bool(row.invert),
            curve,
            row.min_value,
            max,
        ),
        UpperBound::OneAboveMin => {
            let m = Mapping {
                address: row.address.clone(),
                weight: row.weight,
                deadzone: row.deadzone,
                invert: i64_to_bool(row.invert),
                curve,
                min: row.min_value,
                max: UpperBound::OneAboveMin,
            };
            m.normalized()
        },
    }
}

/// Makes the row of a target.
pub fn target_row(target: &ForwardTarget) -> (r: TargetRow)
    ensures
        r@ == target_row_of(target@),
{
    TargetRow { host: target.host.clone(), port: target.port as i64 }
}

/// The row of a target.
pub open spec fn target_row_of(target: ForwardTargetModel) -> TargetRowModel {
    TargetRowModel { host: target.host, port: target.port as i64 }
}

/// The target in a row.
pub open spec fn row_target(row: TargetRowModel) -> ForwardTargetModel {
    ForwardTargetModel { host: row.host, port: row.port as u16 }
}

/// Reads the target in a row. A number that is no port keeps its low sixteen bits.
pub fn target_from_row(row: &TargetRow) -> (r: ForwardTarget)
    ensures
        r@ == row_target(row@),
{
    ForwardTarget {
        host: row.host.clone(),
        port: #[verifier::truncate]
        (row.port as u16),
    }
}

/// The profile in rows, with its mappings and its targets.
pub open spec fn row_profile(
    row: RowModel,
    mappings: Seq<MappingModel>,
    targets: Seq<ForwardTargetModel>,
) -> ProfileModel {
    ProfileModel {
        id: row.id,
        name: row.name,
        config: InAppModel {
            website_base_url: row.website_base_url,
            creator_username: row.creator_username,
            allow_insecure_http: row.allow_insecure_http != 0,
            osc_listen: OscListenModel { host: row.osc_host, port: row.osc_port as u16 },
            allow_network_osc: row.osc_allow_network != 0,
            osc_allowed_senders: canonical_senders(
                text::pieces(row.osc_allowed_senders, line_separators()),
            ),
            relay: RelayPathsModel {
                session_path: row.relay_session_path,
                ingest_path: row.relay_ingest_path,
            },
            debug: DebugConfig {
                log_osc: row.debug_log_osc != 0,
                log_unmapped_only: row.debug_log_unmapped_only != 0,
                log_configured_only: row.debug_log_configured_only != 0,
                log_relay: row.debug_log_relay != 0,
            },
            discovery: DiscoveryModel {
                enabled: row.discovery_enabled != 0,
                file_path: row.discovery_file_path,
                include_arg_types: row.discovery_include_arg_types != 0,
            },
            forward_targets: targets,
            mappings,
            output: OutputTuning {
                emit_hz: row.output_emit_hz,
                attack_ms: row.output_attack_ms,
                release_ms: row.output_release_ms,
                ema_alpha: row.output_ema_alpha,
                min_delta: row.output_min_delta,
                heartbeat_ms: row.output_heartbeat_ms as u64,
            },
        },
    }
}

/// Reads the profile in rows.
pub fn profile_from_rows(row: &ProfileRow, mappings: Vec<Mapping>, targets: Vec<ForwardTarget>) -> (r:
    AppProfile)
    ensures
        r@ == row_profile(row@, model::views(mappings@), model::views(targets@)),
{
    AppProfile {
        id: row.id.clone(),
        name: row.name.clone(),
        config: InAppConfig {
            website_base_url: row.website_base_url.clone(),
            creator_username: row.creator_username.clone(),
            allow_insecure_http: i64_to_bool(row.allow_insecure_http),
            osc_listen: OscListen {
                host: row.osc_host.clone(),
                port: #[verifier::truncate]
                (row.osc_port as u16),
            },
            allow_network_osc: i64_to_bool(row.osc_allow_network),
            osc_allowed_senders: parse_osc_sender_lines(row.osc_allowed_senders.as_str()),
            relay: RelayPaths {
                session_path: row.relay_session_path.clone(),
                ingest_path: row.relay_ingest_path.clone(),
            },
            debug: DebugConfig {
                log_osc: i64_to_bool(row.debug_log_osc),
                log_unmapped_only: i64_to_bool(row.debug_log_unmapped_only),
                log_configured_only: i64_to_bool(row.debug_log_configured_only),
                log_relay: i64_to_bool(row.debug_log_relay),
            },
            discovery: DiscoveryConfig {
                enabled: i64_to_bool(row.discovery_enabled),
                file_path: row.discovery_file_path.clone(),
                include_arg_types: i64_to_bool(row.discovery_include_arg_types),
            },
            forward_targets: targets,
            mappings,
            output: OutputTuning {
                emit_hz: row.output_emit_hz,
                attack_ms: row.output_attack_ms,
                release_ms: row.output_release_ms,
                ema_alpha: row.output_ema_alpha,
                min_delta: row.output_min_delta,
                heartbeat_ms: #[verifier::truncate]
                (row.output_heartbeat_ms as u64),
            },
        },
    }
}

/// Whether closing the window leaves the program running, as it is kept.
pub open spec fn kept_preference(value: Option<Seq<char>>) -> Option<bool> {
    match value {
        Some(s) => if s == "1"@ || s == "true"@ {
            Some(true)
        } else if s == "0"@ || s == "false"@ {
            Some(false)
        } else {
            None
        },
        None => None,
    }
}

/// Reads whether closing the window leaves the program running.
pub fn parse_preference(value: Option<&str>) -> (r: Option<bool>)
    ensures
        r == kept_preference(
            match value {
                Some(s) => Some(s@),
                None => None,
            },
        ),
{
    match value {
        Some(s) => {
            if text::same_text(s, "1") || text::same_text(s, "true") {
                Some(true)
            } else if text::same_text(s, "0") || text::same_text(s, "false") {
                Some(false)
            } else {
                None
            }
        },
        None => None,
    }
}

/// The text under which whether closing the window leaves the program running is kept.
pub open spec fn preference_of(enabled: bool) -> Seq<char> {
    if enabled {
        "1"@
    } else {
        "0"@
    }
}

/// Writes whether closing the window leaves the program running.
pub fn preference_text(enabled: bool) -> (r: &'static str)
    ensures
        r@ == preference_of(enabled),
{
    if enabled {
        "1"
    } else {
        "0"
    }
}

/// Whether a message of the database says that a column is already there.
pub fn is_duplicate_column(message: &str) -> (r: bool)
    ensures
        r == text::contains_text(text::lower_text(message@), "duplicate column name"@),
{
    let lower = text::lowercase(message);
    text::contains(lower.as_str(), "duplicate column name")
}

/// The preference is read back as it was written.
pub proof fn law_preference_read_back(enabled: bool)
    ensures
        kept_preference(Some(preference_of(enabled))) == Some(enabled),
{
    reveal_strlit("0");
    reveal_strlit("1");
    reveal_strlit("true");
    reveal_strlit("false");
    assert("0"@[0] != "1"@[0]);
    assert("0"@.len() != "true"@.len());
}

/// A normalized mapping is read back from its row.
pub proof fn law_mapping_read_back(m: MappingModel)
    requires
        mapping::normalized_mapping(m) == Some(m),
    ensures
        row_mapping(mapping_row_of(m)) == Some(m),
{
    mapping::law_curve_name(m.curve);
    mapping::law_normalized_mapping(m);
}

/// A target is read back from its row.
pub proof fn law_target_read_back(target: ForwardTargetModel)
    ensures
        row_target(target_row_of(target)) == target,
{
}

/// The character is one of those that addresses are written with.
pub open spec fn address_char(c: char) -> bool {
    c == '.' || c == ':' || '0' <= c <= '9' || 'a' <= c <= 'f'
}

/// The text is written with those characters.
pub open spec fn address_text(s: Seq<char>) -> bool {
    forall|i: int| 0 <= i < s.len() ==> address_char(#[trigger] s[i])
}

proof fn lemma_decimal_chars(n: nat)
    ensures
        address_text(text::decimal_text(n)),
    decreases n,
{
    if n >= 10 {
        lemma_decimal_chars(n / 10);
        let s = text::decimal_text(n);
        assert forall|i: int| 0 <= i < s.len() implies address_char(#[trigger] s[i]) by {
            if i < s.len() - 1 {
                assert(s[i] == text::decimal_text(n / 10)[i]);
            }
        }
    }
}

proof fn lemma_hex_chars(n: nat)
    ensures
        address_text(ip_text::hex_text(n)),
    decreases n,
{
    if n >= 16 {
        lemma_hex_chars(n / 16);
        let s = ip_text::hex_text(n);
        assert forall|i: int| 0 <= i < s.len() implies address_char(#[trigger] s[i]) by {
            if i < s.len() - 1 {
                assert(s[i] == ip_text::hex_text(n / 16)[i]);
            }
        }
    }
}

proof fn lemma_joined_chars(parts: Seq<Seq<char>>, separator: Seq<char>)
    requires
        address_text(separator),
        forall|i: int| 0 <= i < parts.len() ==> address_text(#[trigger] parts[i]),
    ensures
        address_text(text::joined(parts, separator)),
    decreases parts.len(),
{
    if parts.len() > 1 {
        lemma_joined_chars(parts.drop_last(), separator);
        let before = text::joined(parts.drop_last(), separator);
        let s = text::joined(parts, separator);
        let last = parts[parts.len() - 1];
        assert(address_text(last));
        assert forall|i: int| 0 <= i < s.len() implies address_char(#[trigger] s[i]) by {
            if i < before.len() {
                assert(s[i] == before[i]);
            } else if i < before.len() + separator.len() {
                assert(s[i] == separator[i - before.len()]);
            } else {
                assert(s[i] == last[i - before.len() - separator.len()]);
            }
        }
    }
}

proof fn lemma_ip_chars(address: IpAddress)
    ensures
        address_text(ip_text::ip_text(address)),
{
    reveal_strlit(".");
    reveal_strlit(":");
    reveal_strlit("::");
    reveal_strlit("::ffff:");
    match address {
        IpAddress::V4(n) => {
            lemma_v4_chars(n);
        },
        IpAddress::V6(n) => {
            let g = ip_text::segments(n);
            let (start, len) = ip_text::longest_run(g, 8);
            if ip_text::maps_v4(n) {
                lemma_v4_chars((n % 0x1_0000_0000) as u32);
            } else if len > 1 {
                lemma_group_chars(g.take(start));
                lemma_group_chars(g.skip(start + len));
            } else {
                lemma_group_chars(g);
            }
        },
    }
}

proof fn lemma_v4_chars(n: u32)
    ensures
        address_text(ip_text::v4_text(n)),
{
    reveal_strlit(".");
    lemma_decimal_chars((n / 0x100_0000) as nat);
    lemma_decimal_chars((n / 0x1_0000 % 0x100) as nat);
    lemma_decimal_chars((n / 0x100 % 0x100) as nat);
    lemma_decimal_chars((n % 0x100) as nat);
    let parts = ip_text::octets(n);
    assert forall|i: int| 0 <= i < parts.len() implies address_text(#[trigger] parts[i]) by {}
    lemma_joined_chars(parts, "."@);
}

proof fn lemma_group_chars(g: Seq<u16>)
    ensures
        address_text(ip_text::groups_text(g)),
{
    reveal_strlit(":");
    let parts = ip_text::group_texts(g);
    assert forall|i: int| 0 <= i < parts.len() implies address_text(#[trigger] parts[i]) by {
        lemma_hex_chars(g[i] as nat);
    }
    lemma_joined_chars(parts, ":"@);
}

proof fn lemma_address_trimmed(s: Seq<char>)
    requires
        address_text(s),
    ensures
        text::trimmed(s) == s,
{
    if s.len() > 0 {
        assert(address_char(s[0]));
        assert(address_char(s[s.len() - 1]));
    }
}

proof fn lemma_canonical(list: Seq<IpAddress>)
    ensures
        canonical_senders(store::address_texts(list)) == store::address_texts(list),
    decreases list.len(),
{
    let texts = store::address_texts(list);
    if list.len() > 0 {
        lemma_canonical(list.drop_last());
        assert(texts.drop_last() =~= store::address_texts(list.drop_last()));
        let s = ip_text::ip_text(list.last());
        ip_text::law_ip_text_reads_back(list.last());
        lemma_ip_chars(list.last());
        lemma_address_trimmed(s);
        lemma_nonempty(s);
        assert(texts.drop_last().push(s) =~= texts);
    } else {
        assert(texts =~= Seq::empty());
    }
}

proof fn lemma_nonempty(s: Seq<char>)
    requires
        ip::ip_address(s) is Some,
    ensures
        s.len() > 0,
{
    reveal_strlit("::");
    if s.len() == 0 {
        assert(s =~= Seq::empty());
        assert(text::pieces(s, seq!['.']) =~= seq![Seq::<char>::empty()]);
        assert(ip::dotted(s) is None);
        assert(text::find_text(s, "::"@) is None);
        assert(ip::colon_groups(s) is None);
    }
}

/// Senders that are kept one to a line are read back as they were.
pub proof fn law_senders_read_back(list: Seq<IpAddress>)
    ensures
        canonical_senders(text::pieces(sender_lines(list), line_separators()))
            == store::address_texts(list),
{
    reveal_strlit("\n");
    assert("\n"@ =~= seq!['\n']);
    let parts = store::address_texts(list);
    let separators = line_separators();
    if list.len() == 0 {
        assert(parts =~= Seq::empty());
        let raw = sender_lines(list);
        assert(raw =~= Seq::empty());
        let items = text::pieces(raw, separators);
        assert(items =~= seq![Seq::<char>::empty()]);
        assert(items.drop_last() =~= Seq::empty());
        assert(canonical_senders(items.drop_last()) =~= Seq::empty());
        assert(text::trimmed(items.last()) =~= Seq::empty());
    } else {
        assert forall|i: int| 0 <= i < parts.len() implies ip_text::free_of(
            #[trigger] parts[i],
            separators,
        ) by {
            lemma_ip_chars(list[i]);
            let s = parts[i];
            assert forall|k: int| 0 <= k < s.len() implies !separators.contains(#[trigger] s[k]) by {
                assert(address_char(s[k]));
            }
        }
        assert(separators.contains('\n')) by {
            assert(separators[0] == '\n');
        }
        ip_text::law_split_joined(parts, '\n', separators);
        lemma_canonical(list);
    }
}

/// A profile is read back from its rows: what comes out is the profile that its normalized form
/// leaves to be kept.
pub proof fn law_profile_read_back(
    id: Seq<char>,
    name: Seq<char>,
    n: NormalizedModel,
    allow_insecure_http: bool,
)
    requires
        n.output.heartbeat_ms <= i64::MAX,
    ensures
        row_profile(row_of(id, name, n, allow_insecure_http), n.mappings, n.forward_targets) == (
        ProfileModel {
            id,
            name: text::trimmed(name),
            config: store::stored_config(n, allow_insecure_http),
        }),
{
    law_senders_read_back(n.osc_allowed_senders);
    let row = row_of(id, name, n, allow_insecure_http);
    let p = row_profile(row, n.mappings, n.forward_targets);
    assert(p.config =~= store::stored_config(n, allow_insecure_http));
}

proof fn lemma_stored_senders(list: Seq<IpAddress>)
    requires
        list.no_duplicates(),
    ensures
        config::senders(store::address_texts(list)) == Ok::<Seq<IpAddress>, Seq<char>>(list),
    decreases list.len(),
{
    let texts = store::address_texts(list);
    if list.len() > 0 {
        let shorter = list.drop_last();
        assert(shorter.no_duplicates());
        lemma_stored_senders(shorter);
        assert(texts.drop_last() =~= store::address_texts(shorter));
        let s = ip_text::ip_text(list.last());
        ip_text::law_ip_text_reads_back(list.last());
        lemma_ip_chars(list.last());
        lemma_address_trimmed(s);
        lemma_nonempty(s);
        assert(!shorter.contains(list.last())) by {
            if shorter.contains(list.last()) {
                let k = choose|k: int| 0 <= k < shorter.len() && shorter[k] == list.last();
                assert(list[k] == list[list.len() - 1]);
            }
        }
        assert(shorter.push(list.last()) =~= list);
    } else {
        assert(texts =~= Seq::empty());
        assert(list =~= Seq::empty());
    }
}

proof fn lemma_same_targets(targets: Seq<ForwardTargetModel>)
    requires
        forall|i: int|
            0 <= i < targets.len() ==> (#[trigger] targets[i]).port > 0 && targets[i].host.len() > 0
                && text::trimmed(targets[i].host) == targets[i].host,
    ensures
        config::normalized_targets(targets) == targets,
    decreases targets.len(),
{
    if targets.len() > 0 {
        let shorter = targets.drop_last();
        assert forall|i: int| 0 <= i < shorter.len() implies (#[trigger] shorter[i]).port > 0
            && shorter[i].host.len() > 0 && text::trimmed(shorter[i].host) == shorter[i].host by {
            assert(shorter[i] == targets[i]);
        }
        lemma_same_targets(shorter);
        let last = targets[targets.len() - 1];
        assert(shorter.push(last) =~= targets);
        assert(ForwardTargetModel { host: text::trimmed(last.host), port: last.port } =~= last);
    } else {
        assert(targets =~= Seq::empty());
    }
}

proof fn lemma_same_mappings(mappings: Seq<MappingModel>)
    requires
        forall|i: int|
            0 <= i < mappings.len() ==> mapping::normalized_mapping(#[trigger] mappings[i]) == Some(
                mappings[i],
            ),
    ensures
        config::normalized_mappings(mappings) == mappings,
    decreases mappings.len(),
{
    if mappings.len() > 0 {
        let shorter = mappings.drop_last();
        assert forall|i: int| 0 <= i < shorter.len() implies mapping::normalized_mapping(
            #[trigger] shorter[i],
        ) == Some(shorter[i]) by {
            assert(shorter[i] == mappings[i]);
        }
        lemma_same_mappings(shorter);
        assert(mapping::normalized_mapping(mappings[mappings.len() - 1]) is Some);
        assert(shorter.push(mappings.last()) =~= mappings);
    } else {
        assert(mappings =~= Seq::empty());
    }
}

proof fn lemma_targets_trimmed(targets: Seq<ForwardTargetModel>)
    ensures
        forall|i: int|
            0 <= i < config::normalized_targets(targets).len() ==> (
            #[trigger] config::normalized_targets(targets)[i]).port > 0
                && config::normalized_targets(targets)[i].host.len() > 0 && text::trimmed(
                config::normalized_targets(targets)[i].host,
            ) == config::normalized_targets(targets)[i].host,
    decreases targets.len(),
{
    if targets.len() > 0 {
        lemma_targets_trimmed(targets.drop_last());
        mapping::law_trim_again(targets.last().host);
        let before = config::normalized_targets(targets.drop_last());
        let all = config::normalized_targets(targets);
        assert forall|i: int| 0 <= i < all.len() implies (#[trigger] all[i]).port > 0
            && all[i].host.len() > 0 && text::trimmed(all[i].host) == all[i].host by {
            if i < before.len() {
                assert(all[i] == before[i]);
            }
        }
    }
}

/// What is kept of a profile normalizes to what it was made from: starting a stored profile uses
/// the configuration that was accepted when it was written. `later` is what the system then makes of
/// the path that was resolved: it has to be absolute, and the URL's own text has to denote the URL
/// again.
pub proof fn law_stored_profile_normalizes_the_same(
    config: InAppModel,
    stream_key: Seq<char>,
    place: PathPlaceModel,
    later: PathPlaceModel,
)
    requires
        crate::config_file::leads_somewhere(place),
        later.absolute,
        config::normalized_in_app(config, stream_key, place) is Ok,
        config::base_url_of(
            (config::normalized_in_app(config, stream_key, place)->Ok_0).base_url.text,
            config.allow_insecure_http,
        ) == Ok::<config::BaseUrlModel, Seq<char>>(
            (config::normalized_in_app(config, stream_key, place)->Ok_0).base_url,
        ),
    ensures
        config::normalized_in_app(
            store::stored_config(
                config::normalized_in_app(config, stream_key, place)->Ok_0,
                config.allow_insecure_http,
            ),
            stream_key,
            later,
        ) == config::normalized_in_app(config, stream_key, place),
{
    reveal_strlit("scripts/vrl-osc-discovered.txt");
    reveal_strlit("/api/sps/session");
    reveal_strlit("/api/sps/ingest");
    let n = config::normalized_in_app(config, stream_key, place)->Ok_0;
    let stored = store::stored_config(n, config.allow_insecure_http);
    mapping::law_trim_again(config.creator_username);
    mapping::law_trim_again(config.osc_listen.host);
    mapping::law_trim_again(config.relay.session_path);
    mapping::law_trim_again(config.relay.ingest_path);
    lemma_default_paths();
    config::law_senders_distinct(config.osc_allowed_senders);
    lemma_stored_senders(n.osc_allowed_senders);
    lemma_targets_trimmed(config.forward_targets);
    lemma_same_targets(n.forward_targets);
    crate::config_file::law_in_app_obeys_rules(config, stream_key, place);
    lemma_same_mappings(n.mappings);
    crate::smoothing::law_sanitized_tuning(config.output);
    lemma_loopback_trimmed(config.osc_listen.host);
}

proof fn lemma_loopback_trimmed(host: Seq<char>)
    ensures
        ip::loopback_host(text::trimmed(host)) == ip::loopback_host(host),
{
    mapping::law_trim_again(host);
}

proof fn lemma_default_paths()
    ensures
        text::trimmed("/api/sps/session"@) == "/api/sps/session"@,
        text::trimmed("/api/sps/ingest"@) == "/api/sps/ingest"@,
{
    reveal_strlit("/api/sps/session");
    reveal_strlit("/api/sps/ingest");
    let a = "/api/sps/session"@;
    let b = "/api/sps/ingest"@;
    assert(a.len() == 16 && a[0] == '/' && a[15] == 'n');
    assert(b.len() == 15 && b[0] == '/' && b[14] == 't');
}

/// The rows of a profile do not depend on its stream key: any two keys that are accepted leave the
/// same rows, of the profile, of its mappings and of its targets.
pub proof fn law_rows_free_of_key(
    id: Seq<char>,
    name: Seq<char>,
    config: InAppModel,
    first: Seq<char>,
    second: Seq<char>,
    place: PathPlaceModel,
)
    requires
        text::trimmed(first).len() > 0,
        text::trimmed(second).len() > 0,
        config::normalized_in_app(config, first, place) is Ok,
    ensures
        config::normalized_in_app(config, second, place) is Ok,
        ({
            let a = config::normalized_in_app(config, first, place)->Ok_0;
            let b = config::normalized_in_app(config, second, place)->Ok_0;
            &&& row_of(id, name, a, config.allow_insecure_http) == row_of(
                id,
                name,
                b,
                config.allow_insecure_http,
            )
            &&& a.mappings == b.mappings
            &&& a.forward_targets == b.forward_targets
        }),
{
}

/// Sanitizing a profile that was sanitized changes nothing, and its name is trimmed. `later` is what
/// the system makes of the path that was resolved: it has to be absolute, and the URL's own text has
/// to denote the URL again.
pub proof fn law_sanitizing_again(
    profile: ProfileModel,
    stream_key: Seq<char>,
    id: Seq<char>,
    place: PathPlaceModel,
    later: PathPlaceModel,
)
    requires
        crate::config_file::leads_somewhere(place),
        later.absolute,
        config::normalized_in_app(profile.config, stream_key, place) is Ok,
        config::base_url_of(
            (config::normalized_in_app(profile.config, stream_key, place)->Ok_0).base_url.text,
            profile.config.allow_insecure_http,
        ) == Ok::<config::BaseUrlModel, Seq<char>>(
            (config::normalized_in_app(profile.config, stream_key, place)->Ok_0).base_url,
        ),
    ensures
        ({
            let kept = store::sanitized_profile(profile, stream_key, id, place)->Ok_0;
            &&& store::sanitized_profile(profile, stream_key, id, place) is Ok
            &&& store::sanitized_profile(kept, stream_key, id, later) == Ok::<ProfileModel, Seq<char>>(
                kept,
            )
            &&& kept.id == id
            &&& kept.name == text::trimmed(kept.name)
        }),
{
    law_stored_profile_normalizes_the_same(profile.config, stream_key, place, later);
    mapping::law_trim_again(profile.name);
}

/// A profile that was saved starts as what it was saved from: its rows give back its id, its
/// trimmed name, its mappings and its targets in their order, and with its stream key they
/// normalize to the configuration that was accepted. `later` is what the system makes of the path
/// that was resolved: it has to be absolute, and the URL's own text has to denote the URL again.
pub proof fn law_saved_profile_starts(
    profile: ProfileModel,
    stream_key: Seq<char>,
    id: Seq<char>,
    place: PathPlaceModel,
    later: PathPlaceModel,
)
    requires
        crate::config_file::leads_somewhere(place),
        later.absolute,
        config::normalized_in_app(profile.config, stream_key, place) is Ok,
        config::base_url_of(
            (config::normalized_in_app(profile.config, stream_key, place)->Ok_0).base_url.text,
            profile.config.allow_insecure_http,
        ) == Ok::<config::BaseUrlModel, Seq<char>>(
            (config::normalized_in_app(profile.config, stream_key, place)->Ok_0).base_url,
        ),
    ensures
        ({
            let n = config::normalized_in_app(profile.config, stream_key, place)->Ok_0;
            let row = row_of(id, profile.name, n, profile.config.allow_insecure_http);
            let loaded = row_profile(row, n.mappings, n.forward_targets);
            &&& loaded.id == id
            &&& loaded.name == text::trimmed(profile.name)
            &&& loaded.config.mappings == n.mappings
            &&& loaded.config.forward_targets == n.forward_targets
            &&& config::normalized_in_app(loaded.config, stream_key, later) == Ok::<
                NormalizedModel,
                Seq<char>,
            >(n)
        }),
{
    let n = config::normalized_in_app(profile.config, stream_key, place)->Ok_0;
    crate::smoothing::law_sanitized_tuning(profile.config.output);
    law_profile_read_back(id, profile.name, n, profile.config.allow_insecure_http);
    law_stored_profile_normalizes_the_same(profile.config, stream_key, place, later);
}

} // verus!
