//! Configuration: the sources it comes from, its rules and its normalized form.
use vstd::prelude::*;
use vstd::string::*;
use crate::ip;
use crate::ip::IpAddress;
use crate::mapping;
use crate::mapping::{Mapping, MappingModel};
use crate::model;
use crate::model::Duplicate;
use crate::smoothing;
use crate::smoothing::OutputTuning;
use crate::text;

verus! {

/// What the command line asks for.
#[derive(Debug, PartialEq, Eq)]
pub struct CliOptions {
    pub debug_osc: bool,
    pub debug_unmapped_only: bool,
    pub debug_configured_only: bool,
    pub debug_relay: bool,
    pub discovery_path: Option<String>,
    pub discovery_include_arg_types: bool,
}

/// The model of `CliOptions`.
#[verifier::ext_equal]
pub struct CliModel {
    pub debug_osc: bool,
    pub debug_unmapped_only: bool,
    pub debug_configured_only: bool,
    pub debug_relay: bool,
    pub discovery_path: Option<Seq<char>>,
    pub discovery_include_arg_types: bool,
}

impl View for CliOptions {
    type V = CliModel;

    open spec fn view(&self) -> CliModel {
        CliModel {
            debug_osc: self.debug_osc,
            debug_unmapped_only: self.debug_unmapped_only,
            debug_configured_only: self.debug_configured_only,
            debug_relay: self.debug_relay,
            discovery_path: model::opt_text(self.discovery_path),
            discovery_include_arg_types: self.discovery_include_arg_types,
        }
    }
}

impl Duplicate for CliOptions {
    fn duplicate(&self) -> (r: Self) {
        CliOptions {
            debug_osc: self.debug_osc,
            debug_unmapped_only: self.debug_unmapped_only,
            debug_configured_only: self.debug_configured_only,
            debug_relay: self.debug_relay,
            discovery_path: model::copy_opt_text(&self.discovery_path),
            discovery_include_arg_types: self.discovery_include_arg_types,
        }
    }
}

impl Default for CliOptions {
    fn default() -> (r: Self)
        ensures
            r@ == (CliModel {
                debug_osc: false,
                debug_unmapped_only: false,
                debug_configured_only: false,
                debug_relay: false,
                discovery_path: None,
                discovery_include_arg_types: false,
            }),
    {
        CliOptions {
            debug_osc: false,
            debug_unmapped_only: false,
            debug_configured_only: false,
            debug_relay: false,
            discovery_path: None,
            discovery_include_arg_types: false,
        }
    }
}

/// Where OSC packets are received.
#[derive(Debug, PartialEq, Eq)]
pub struct OscListen {
    pub host: String,
    pub port: u16,
}

/// The model of `OscListen`.
#[verifier::ext_equal]
pub struct OscListenModel {
    pub host: Seq<char>,
    pub port: u16,
}

impl View for OscListen {
    type V = OscListenModel;

    open spec fn view(&self) -> OscListenModel {
        OscListenModel {
            host: self.host@,
            port: self.port,
        }
    }
}

impl Duplicate for OscListen {
    fn duplicate(&self) -> (r: Self) {
        OscListen {
            host: self.host.clone(),
            port: self.port,
        }
    }
}

/// The paths of the relay service.
#[derive(Debug, PartialEq, Eq)]
pub struct RelayPaths {
    pub session_path: String,
    pub ingest_path: String,
}

/// The model of `RelayPaths`.
#[verifier::ext_equal]
pub struct RelayPathsModel {
    pub session_path: Seq<char>,
    pub ingest_path: Seq<char>,
}

impl View for RelayPaths {
    type V = RelayPathsModel;

    open spec fn view(&self) -> RelayPathsModel {
        RelayPathsModel {
            session_path: self.session_path@,
            ingest_path: self.ingest_path@,
        }
    }
}

impl Duplicate for RelayPaths {
    fn duplicate(&self) -> (r: Self) {
        RelayPaths {
            session_path: self.session_path.clone(),
            ingest_path: self.ingest_path.clone(),
        }
    }
}

/// What is written to the log for debugging.
#[derive(Debug, Clone, Copy, PartialEq, Eq, Structural)]
pub struct DebugConfig {
    pub log_osc: bool,
    pub log_unmapped_only: bool,
    pub log_configured_only: bool,
    pub log_relay: bool,
}

/// Whether and where the addresses that were seen are written down.
#[derive(Debug, PartialEq, Eq)]
pub struct DiscoveryConfig {
    pub enabled: bool,
    pub file_path: String,
    pub include_arg_types: bool,
}

/// The model of `DiscoveryConfig`.
#[verifier::ext_equal]
pub struct DiscoveryModel {
    pub enabled: bool,
    pub file_path: Seq<char>,
    pub include_arg_types: bool,
}

impl View for DiscoveryConfig {
    type V = DiscoveryModel;

    open spec fn view(&self) -> DiscoveryModel {
        DiscoveryModel {
            enabled: self.enabled,
            file_path: self.file_path@,
            include_arg_types: self.include_arg_types,
        }
    }
}

impl Duplicate for DiscoveryConfig {
    fn duplicate(&self) -> (r: Self) {
        DiscoveryConfig {
            enabled: self.enabled,
            file_path: self.file_path.clone(),
            include_arg_types: self.include_arg_types,
        }
    }
}

/// Where packets are forwarded to.
#[derive(Debug, PartialEq, Eq)]
pub struct ForwardTarget {
    pub host: String,
    pub port: u16,
}

/// The model of `ForwardTarget`.
#[verifier::ext_equal]
pub struct ForwardTargetModel {
    pub host: Seq<char>,
    pub port: u16,
}

impl View for ForwardTarget {
    type V = ForwardTargetModel;

    open spec fn view(&self) -> ForwardTargetModel {
        ForwardTargetModel {
            host: self.host@,
            port: self.port,
        }
    }
}

impl Duplicate for ForwardTarget {
    fn duplicate(&self) -> (r: Self) {
        ForwardTarget {
            host: self.host.clone(),
            port: self.port,
        }
    }
}

/// A parsed URL: its normalized text, its scheme and its host.
#[derive(Debug, PartialEq, Eq)]
pub struct BaseUrl {
    pub text: String,
    pub scheme: String,
    pub host: Option<String>,
}

/// The model of `BaseUrl`.
#[verifier::ext_equal]
pub struct BaseUrlModel {
    pub text: Seq<char>,
    pub scheme: Seq<char>,
    pub host: Option<Seq<char>>,
}

impl View for BaseUrl {
    type V = BaseUrlModel;

    open spec fn view(&self) -> BaseUrlModel {
        BaseUrlModel {
            text: self.text@,
            scheme: self.scheme@,
            host: model::opt_text(self.host),
        }
    }
}

impl Duplicate for BaseUrl {
    fn duplicate(&self) -> (r: Self) {
        BaseUrl {
            text: self.text.clone(),
            scheme: self.scheme.clone(),
            host: model::copy_opt_text(&self.host),
        }
    }
}

/// A configuration that obeys the rules.
#[derive(Debug, PartialEq, Eq)]
pub struct NormalizedConfig {
    pub base_url: BaseUrl,
    pub creator_username: String,
    pub stream_key: String,
    pub osc_listen: OscListen,
    pub allow_network_osc: bool,
    pub osc_allowed_senders: Vec<IpAddress>,
    pub relay: RelayPaths,
    pub debug: DebugConfig,
    pub discovery: DiscoveryConfig,
    pub forward_targets: Vec<ForwardTarget>,
    pub mappings: Vec<Mapping>,
    pub output: OutputTuning,
}

/// The model of `NormalizedConfig`.
#[verifier::ext_equal]
pub struct NormalizedModel {
    pub base_url: BaseUrlModel,
    pub creator_username: Seq<char>,
    pub stream_key: Seq<char>,
    pub osc_listen: OscListenModel,
    pub allow_network_osc: bool,
    pub osc_allowed_senders: Seq<IpAddress>,
    pub relay: RelayPathsModel,
    pub debug: DebugConfig,
    pub discovery: DiscoveryModel,
    pub forward_targets: Seq<ForwardTargetModel>,
    pub mappings: Seq<MappingModel>,
    pub output: OutputTuning,
}

impl View for NormalizedConfig {
    type V = NormalizedModel;

    open spec fn view(&self) -> NormalizedModel {
        NormalizedModel {
            base_url: self.base_url@,
            creator_username: self.creator_username@,
            stream_key: self.stream_key@,
            osc_listen: self.osc_listen@,
            allow_network_osc: self.allow_network_osc,
            osc_allowed_senders: self.osc_allowed_senders@,
            relay: self.relay@,
            debug: self.debug,
            discovery: self.discovery@,
            forward_targets: model::views(self.forward_targets@),
            mappings: model::views(self.mappings@),
            output: self.output,
        }
    }
}

impl Duplicate for NormalizedConfig {
    fn duplicate(&self) -> (r: Self) {
        NormalizedConfig {
            base_url: self.base_url.duplicate(),
            creator_username: self.creator_username.clone(),
            stream_key: self.stream_key.clone(),
            osc_listen: self.osc_listen.duplicate(),
            allow_network_osc: self.allow_network_osc,
            osc_allowed_senders: model::copy_plain(&self.osc_allowed_senders),
            relay: self.relay.duplicate(),
            debug: self.debug,
            discovery: self.discovery.duplicate(),
            forward_targets: model::copy_all(&self.forward_targets),
            mappings: model::copy_all(&self.mappings),
            output: self.output,
        }
    }
}

/// A configuration as a profile holds it. The stream key is kept elsewhere.
#[derive(Debug, PartialEq, Eq)]
pub struct InAppConfig {
    pub website_base_url: String,
    pub creator_username: String,
    pub allow_insecure_http: bool,
    pub osc_listen: OscListen,
    pub allow_network_osc: bool,
    pub osc_allowed_senders: Vec<String>,
    pub relay: RelayPaths,
    pub debug: DebugConfig,
    pub discovery: DiscoveryConfig,
    pub forward_targets: Vec<ForwardTarget>,
    pub mappings: Vec<Mapping>,
    pub output: OutputTuning,
}

/// The model of `InAppConfig`.
#[verifier::ext_equal]
pub struct InAppModel {
    pub website_base_url: Seq<char>,
    pub creator_username: Seq<char>,
    pub allow_insecure_http: bool,
    pub osc_listen: OscListenModel,
    pub allow_network_osc: bool,
    pub osc_allowed_senders: Seq<Seq<char>>,
    pub relay: RelayPathsModel,
    pub debug: DebugConfig,
    pub discovery: DiscoveryModel,
    pub forward_targets: Seq<ForwardTargetModel>,
    pub mappings: Seq<MappingModel>,
    pub output: OutputTuning,
}

impl View for InAppConfig {
    type V = InAppModel;

    open spec fn view(&self) -> InAppModel {
        InAppModel {
            website_base_url: self.website_base_url@,
            creator_username: self.creator_username@,
            allow_insecure_http: self.allow_insecure_http,
            osc_listen: self.osc_listen@,
            allow_network_osc: self.allow_network_osc,
            osc_allowed_senders: text::texts(self.osc_allowed_senders@),
            relay: self.relay@,
            debug: self.debug,
            discovery: self.discovery@,
            forward_targets: model::views(self.forward_targets@),
            mappings: model::views(self.mappings@),
            output: self.output,
        }
    }
}

impl Duplicate for InAppConfig {
    fn duplicate(&self) -> (r: Self) {
        InAppConfig {
            website_base_url: self.website_base_url.clone(),
            creator_username: self.creator_username.clone(),
            allow_insecure_http: self.allow_insecure_http,
            osc_listen: self.osc_listen.duplicate(),
            allow_network_osc: self.allow_network_osc,
            osc_allowed_senders: text::copy_texts(&self.osc_allowed_senders),
            relay: self.relay.duplicate(),
            debug: self.debug,
            discovery: self.discovery.duplicate(),
            forward_targets: model::copy_all(&self.forward_targets),
            mappings: model::copy_all(&self.mappings),
            output: self.output,
        }
    }
}

/// Why a configuration is refused.
#[derive(Debug, PartialEq, Eq)]
pub struct ConfigError {
    pub message: String,
}

/// The model of `ConfigError`.
#[verifier::ext_equal]
pub struct ConfigErrorModel {
    pub message: Seq<char>,
}

impl View for ConfigError {
    type V = ConfigErrorModel;

    open spec fn view(&self) -> ConfigErrorModel {
        ConfigErrorModel {
            message: self.message@,
        }
    }
}

impl Duplicate for ConfigError {
    fn duplicate(&self) -> (r: Self) {
        ConfigError {
            message: self.message.clone(),
        }
    }
}

impl ConfigError {
    fn new(message: &str) -> (r: Self)
        ensures
            r.message@ == message@,
    {
        ConfigError { message: message.to_owned() }
    }
}

/// The outcome of a check, with its error's message.
pub open spec fn outcome<T: View>(result: Result<T, ConfigError>) -> Result<T::V, Seq<char>> {
    match result {
        Ok(value) => Ok(value@),
        Err(error) => Err(error.message@),
    }
}

/// The parts of the URL that a text denotes, or the message that says why it denotes none.
pub uninterp spec fn url_parts(raw: Seq<char>) -> Result<BaseUrlModel, Seq<char>>;

/// `url::Url::parse`, with `as_str`, `scheme` and `host_str` of what it returns, or the text of
/// its error.
#[verifier::external_body]
pub(crate) fn parse_url(raw: &str) -> (r: Result<BaseUrl, String>)
    ensures
        match r {
            Ok(url) => url_parts(raw@) == Ok::<BaseUrlModel, Seq<char>>(url@),
            Err(message) => url_parts(raw@) == Err::<BaseUrlModel, Seq<char>>(message@),
        },
{
    let url = url::Url::parse(raw).map_err(|e| e.to_string())?;
    Ok(
        BaseUrl {
            text: url.as_str().to_owned(),
            scheme: url.scheme().to_owned(),
            host: url.host_str().map(|host| host.to_owned()),
        },
    )
}

/// The host of the URL is this machine.
pub open spec fn local_url(url: BaseUrlModel) -> bool {
    url.host == Some("127.0.0.1"@) || url.host == Some("localhost"@)
}

/// The base URL that a text denotes: a URL that uses HTTPS, or names this machine, or may be
/// insecure.
pub open spec fn base_url_of(raw: Seq<char>, allow_insecure: bool) -> Result<
    BaseUrlModel,
    Seq<char>,
> {
    let trimmed = text::trimmed(raw);
    if trimmed.len() == 0 {
        Err("config.websiteBaseUrl is required"@)
    } else {
        match url_parts(trimmed) {
            Err(_) => Err("config.websiteBaseUrl must be a valid URL"@),
            Ok(url) => if url.scheme != "https"@ && !(local_url(url) || allow_insecure) {
                Err(
                    "websiteBaseUrl must use HTTPS unless allowInsecureHttp=true for local testing"@,
                )
            } else {
                Ok(url)
            },
        }
    }
}

/// Checks the parts of a base URL.
pub fn check_base_url(url: BaseUrl, allow_insecure: bool) -> (r: Result<BaseUrl, ConfigError>)
    ensures
        outcome(r) == (if url@.scheme != "https"@ && !(local_url(url@) || allow_insecure) {
            Err(
                "websiteBaseUrl must use HTTPS unless allowInsecureHttp=true for local testing"@,
            )
        } else {
            Ok(url@)
        }),
{
    let local = match &url.host {
        Some(host) => text::same_text(host.as_str(), "127.0.0.1") || text::same_text(
            host.as_str(),
            "localhost",
        ),
        None => false,
    };
    if !text::same_text(url.scheme.as_str(), "https") && !(local || allow_insecure) {
        return Err(
            ConfigError::new(
                "websiteBaseUrl must use HTTPS unless allowInsecureHttp=true for local testing",
            ),
        );
    }
    Ok(url)
}

/// Parses and checks a base URL.
pub fn normalize_base_url(raw: &str, allow_insecure: bool) -> (r: Result<BaseUrl, ConfigError>)
    ensures
        outcome(r) == base_url_of(raw@, allow_insecure),
{
    let trimmed = text::trim(raw);
    if trimmed.unicode_len() == 0 {
        return Err(ConfigError::new("config.websiteBaseUrl is required"));
    }
    match parse_url(trimmed) {
        Err(_) => Err(ConfigError::new("config.websiteBaseUrl must be a valid URL")),
        Ok(url) => check_base_url(url, allow_insecure),
    }
}

/// The addresses that the items write, each once, in the order in which they first occur. Empty
/// items are passed over; the first item that is no address is refused.
pub open spec fn senders(items: Seq<Seq<char>>) -> Result<Seq<IpAddress>, Seq<char>>
    decreases items.len(),
{
    if items.len() == 0 {
        Ok(Seq::empty())
    } else {
        match senders(items.drop_last()) {
            Err(message) => Err(message),
            Ok(before) => {
                let item = text::trimmed(items.last());
                if item.len() == 0 {
                    Ok(before)
                } else {
                    match ip::ip_address(item) {
                        None => Err("Invalid sender IP '"@ + item + "'"@),
                        Some(address) => if before.contains(address) {
                            Ok(before)
                        } else {
                            Ok(before.push(address))
                        },
                    }
                }
            },
        }
    }
}

proof fn lemma_senders_fail(items: Seq<Seq<char>>, n: int)
    requires
        0 <= n <= items.len(),
        senders(items.take(n)) is Err,
    ensures
        senders(items) == senders(items.take(n)),
    decreases items.len(),
{
    if n < items.len() {
        assert(items.drop_last().take(n) =~= items.take(n));
        lemma_senders_fail(items.drop_last(), n);
    } else {
        assert(items.take(n) =~= items);
    }
}

/// No sender is listed twice.
pub proof fn law_senders_distinct(items: Seq<Seq<char>>)
    ensures
        senders(items) matches Ok(list) ==> list.no_duplicates(),
    decreases items.len(),
{
    if items.len() > 0 {
        law_senders_distinct(items.drop_last());
    }
}

fn contains_address(list: &Vec<IpAddress>, address: IpAddress) -> (r: bool)
    ensures
        r == list@.contains(address),
{
    let mut i: usize = 0;
    while i < list.len()
        invariant
            i <= list@.len(),
            forall|j: int| 0 <= j < i ==> list@[j] != address,
        decreases list@.len() - i,
    {
        if list[i] == address {
            assert(list@[i as int] == address);
            return true;
        }
        i += 1;
    }
    false
}

/// The outcome of reading a list of addresses.
pub open spec fn list_outcome(result: Result<Vec<IpAddress>, ConfigError>) -> Result<
    Seq<IpAddress>,
    Seq<char>,
> {
    match result {
        Ok(list) => Ok(list@),
        Err(error) => Err(error.message@),
    }
}

/// Reads the addresses that items write.
pub fn parse_allowed_sender_items(items: &Vec<String>) -> (r: Result<Vec<IpAddress>, ConfigError>)
    ensures
        list_outcome(r) == senders(text::texts(items@)),
{
    let ghost all = text::texts(items@);
    let mut out: Vec<IpAddress> = Vec::new();
    let mut i: usize = 0;
    assert(all.take(0) =~= Seq::empty());
    while i < items.len()
        invariant
            i <= items@.len(),
            all == text::texts(items@),
            senders(all.take(i as int)) == Ok::<Seq<IpAddress>, Seq<char>>(out@),
        decreases items@.len() - i,
    {
        assert(all.take(i + 1).drop_last() =~= all.take(i as int));
        assert(all.take(i + 1).last() == items@[i as int]@);
        let item = text::trim(items[i].as_str());
        if item.unicode_len() > 0 {
            match ip::parse_ip(item) {
                None => {
                    proof {
                        lemma_senders_fail(all, i + 1);
                    }
                    let message = text::concat3("Invalid sender IP '", item, "'");
                    return Err(ConfigError { message });
                },
                Some(address) => {
                    if !contains_address(&out, address) {
                        out.push(address);
                    }
                },
            }
        }
        i += 1;
    }
    assert(all.take(i as int) =~= all);
    Ok(out)
}

/// The text where it is not empty, or else the fallback.
pub open spec fn nonempty_or(s: Seq<char>, fallback: Seq<char>) -> Seq<char> {
    if s.len() == 0 {
        fallback
    } else {
        s
    }
}

/// The text where it is not empty, or else the fallback.
pub fn nonempty_or_default(s: &str, fallback: &str) -> (r: String)
    ensures
        r@ == nonempty_or(s@, fallback@),
{
    if s.unicode_len() == 0 {
        fallback.to_owned()
    } else {
        s.to_owned()
    }
}

/// The debug flags that follow from what was asked for: only configured messages wins over only
/// unmapped ones, and either turns logging on.
pub open spec fn debug_flags(
    log_osc: bool,
    unmapped_only: bool,
    configured_only: bool,
    log_relay: bool,
) -> DebugConfig {
    let log_unmapped_only = unmapped_only && !configured_only;
    DebugConfig {
        log_osc: log_osc || log_unmapped_only || configured_only,
        log_unmapped_only,
        log_configured_only: configured_only,
        log_relay,
    }
}

/// The debug flags that follow from what was asked for.
pub fn resolve_debug_flags(
    log_osc: bool,
    unmapped_only: bool,
    configured_only: bool,
    log_relay: bool,
) -> (r: DebugConfig)
    ensures
        r == debug_flags(log_osc, unmapped_only, configured_only, log_relay),
{
    let log_unmapped_only = unmapped_only && !configured_only;
    DebugConfig {
        log_osc: log_osc || log_unmapped_only || configured_only,
        log_unmapped_only,
        log_configured_only: configured_only,
        log_relay,
    }
}

/// The normalized mappings of a list, those that are none left out.
pub open spec fn normalized_mappings(mappings: Seq<MappingModel>) -> Seq<MappingModel>
    decreases mappings.len(),
{
    if mappings.len() == 0 {
        Seq::empty()
    } else {
        let before = normalized_mappings(mappings.drop_last());
        match mapping::normalized_mapping(mappings.last()) {
            Some(m) => before.push(m),
            None => before,
        }
    }
}

fn normalize_mapping_list(mappings: &Vec<Mapping>) -> (r: Vec<Mapping>)
    ensures
        model::views(r@) == normalized_mappings(model::views(mappings@)),
{
    let ghost all = model::views(mappings@);
    let mut out: Vec<Mapping> = Vec::new();
    let mut i: usize = 0;
    assert(all.take(0) =~= Seq::empty());
    assert(model::views(out@) =~= Seq::empty());
    while i < mappings.len()
        invariant
            i <= mappings@.len(),
            all == model::views(mappings@),
            model::views(out@) == normalized_mappings(all.take(i as int)),
        decreases mappings@.len() - i,
    {
        assert(all.take(i + 1).drop_last() =~= all.take(i as int));
        assert(all.take(i + 1).last() == mappings@[i as int]@);
        if let Some(m) = mappings[i].normalized() {
            proof {
                model::lemma_views_push(out@, m);
            }
            out.push(m);
        }
        i += 1;
    }
    assert(all.take(i as int) =~= all);
    out
}

/// The targets of a list that have a host and a port, with their hosts trimmed.
pub open spec fn normalized_targets(targets: Seq<ForwardTargetModel>) -> Seq<ForwardTargetModel>
    decreases targets.len(),
{
    if targets.len() == 0 {
        Seq::empty()
    } else {
        let before = normalized_targets(targets.drop_last());
        let target = targets.last();
        if text::trimmed(target.host).len() == 0 || target.port == 0 {
            before
        } else {
            before.push(ForwardTargetModel { host: text::trimmed(target.host), port: target.port })
        }
    }
}

fn normalize_target_list(targets: &Vec<ForwardTarget>) -> (r: Vec<ForwardTarget>)
    ensures
        model::views(r@) == normalized_targets(model::views(targets@)),
{
    let ghost all = model::views(targets@);
    let mut out: Vec<ForwardTarget> = Vec::new();
    let mut i: usize = 0;
    assert(all.take(0) =~= Seq::empty());
    assert(model::views(out@) =~= Seq::empty());
    while i < targets.len()
        invariant
            i <= targets@.len(),
            all == model::views(targets@),
            model::views(out@) == normalized_targets(all.take(i as int)),
        decreases targets@.len() - i,
    {
        assert(all.take(i + 1).drop_last() =~= all.take(i as int));
        assert(all.take(i + 1).last() == targets@[i as int]@);
        let host = text::trim(targets[i].host.as_str());
        if host.unicode_len() > 0 && targets[i].port != 0 {
            let target = ForwardTarget { host: host.to_owned(), port: targets[i].port };
            proof {
                model::lemma_views_push(out@, target);
            }
            out.push(target);
        }
        i += 1;
    }
    assert(all.take(i as int) =~= all);
    out
}

/// The rules on who may send: a host that is not this machine, and a list of senders, need the
/// network mode.
pub open spec fn network_rules(
    host: Seq<char>,
    allow_network: bool,
    list: Result<Seq<IpAddress>, Seq<char>>,
) -> Result<Seq<IpAddress>, Seq<char>> {
    if !allow_network && !ip::loopback_host(host) {
        Err("config.oscListen.host must be loopback unless allowNetworkOsc=true"@)
    } else {
        match list {
            Err(message) => Err(message),
            Ok(addresses) => if !allow_network && addresses.len() > 0 {
                Err("config.oscAllowedSenders requires allowNetworkOsc=true"@)
            } else {
                Ok(addresses)
            },
        }
    }
}

/// Checks the rules on who may send.
pub fn check_network_rules(
    host: &str,
    allow_network: bool,
    list: Result<Vec<IpAddress>, ConfigError>,
) -> (r: Result<Vec<IpAddress>, ConfigError>)
    ensures
        list_outcome(r) == network_rules(host@, allow_network, list_outcome(list)),
{
    if !allow_network && !ip::is_loopback_host(host) {
        return Err(
            ConfigError::new("config.oscListen.host must be loopback unless allowNetworkOsc=true"),
        );
    }
    match list {
        Err(error) => Err(error),
        Ok(addresses) => {
            if !allow_network && addresses.len() > 0 {
                return Err(
                    ConfigError::new("config.oscAllowedSenders requires allowNetworkOsc=true"),
                );
            }
            Ok(addresses)
        },
    }
}

/// What the system makes of a path: whether it is absolute, and where it leads from the current
/// directory, or why that directory is not known.
#[derive(Debug, PartialEq, Eq)]
pub struct PathPlace {
    pub absolute: bool,
    pub from_here: Result<String, String>,
}

/// The model of `PathPlace`.
pub struct PathPlaceModel {
    pub absolute: bool,
    pub from_here: Result<Seq<char>, Seq<char>>,
}

impl View for PathPlace {
    type V = PathPlaceModel;

    open spec fn view(&self) -> PathPlaceModel {
        PathPlaceModel {
            absolute: self.absolute,
            from_here: match self.from_here {
                Ok(path) => Ok(path@),
                Err(message) => Err(message@),
            },
        }
    }
}

/// The absolute form of a path: the path itself where it is absolute, else where it leads from the
/// current directory.
pub open spec fn resolved_path(path: Seq<char>, place: PathPlaceModel) -> Result<Seq<char>, Seq<char>> {
    if place.absolute {
        Ok(path)
    } else {
        match place.from_here {
            Ok(full) => Ok(full),
            Err(message) => Err("Failed to resolve current directory: "@ + message),
        }
    }
}

/// Makes a path absolute. `place` is what the system makes of it.
pub fn resolve_path(path: &str, place: &PathPlace) -> (r: Result<String, ConfigError>)
    ensures
        outcome(r) == resolved_path(path@, place@),
{
    if place.absolute {
        return Ok(path.to_owned());
    }
    match &place.from_here {
        Ok(full) => Ok(full.clone()),
        Err(message) => Err(
            ConfigError {
                message: text::concat2("Failed to resolve current directory: ", message.as_str()),
            },
        ),
    }
}

/// The discovery path of a profile's configuration, before it is resolved.
pub open spec fn in_app_path(config: InAppModel) -> Seq<char> {
    nonempty_or(config.discovery.file_path, "scripts/vrl-osc-discovered.txt"@)
}

/// The normalized form of a profile's configuration with a stream key, or the first rule that it
/// breaks.
pub open spec fn normalized_in_app(
    config: InAppModel,
    stream_key: Seq<char>,
    place: PathPlaceModel,
) -> Result<NormalizedModel, Seq<char>> {
    let creator = text::trimmed(config.creator_username);
    let key = text::trimmed(stream_key);
    let host = text::trimmed(config.osc_listen.host);
    match base_url_of(config.website_base_url, config.allow_insecure_http) {
        Err(message) => Err(message),
        Ok(url) => if creator.len() == 0 {
            Err("config.creatorUsername is required"@)
        } else if key.len() == 0 {
            Err("config.streamKey is required"@)
        } else if host.len() == 0 {
            Err("config.oscListen.host is required"@)
        } else if config.osc_listen.port == 0 {
            Err("config.oscListen.port must be a valid UDP port"@)
        } else {
            match network_rules(
                host,
                config.allow_network_osc,
                senders(config.osc_allowed_senders),
            ) {
                Err(message) => Err(message),
                Ok(addresses) => match resolved_path(in_app_path(config), place) {
                    Err(message) => Err(message),
                    Ok(file_path) => Ok(
                        NormalizedModel {
                            base_url: url,
                            creator_username: creator,
                            stream_key: key,
                            osc_listen: OscListenModel { host, port: config.osc_listen.port },
                            allow_network_osc: config.allow_network_osc,
                            osc_allowed_senders: addresses,
                            relay: RelayPathsModel {
                                session_path: nonempty_or(
                                    text::trimmed(config.relay.session_path),
                                    "/api/sps/session"@,
                                ),
                                ingest_path: nonempty_or(
                                    text::trimmed(config.relay.ingest_path),
                                    "/api/sps/ingest"@,
                                ),
                            },
                            debug: debug_flags(
                                config.debug.log_osc,
                                config.debug.log_unmapped_only,
                                config.debug.log_configured_only,
                                config.debug.log_relay,
                            ),
                            discovery: DiscoveryModel {
                                enabled: config.discovery.enabled,
                                file_path,
                                include_arg_types: config.discovery.include_arg_types,
                            },
                            forward_targets: normalized_targets(config.forward_targets),
                            mappings: normalized_mappings(config.mappings),
                            output: smoothing::sanitized(config.output),
                        },
                    ),
                },
            }
        },
    }
}

/// The discovery path of a profile's configuration, before it is resolved.
pub fn in_app_discovery_path(config: &InAppConfig) -> (r: String)
    ensures
        r@ == in_app_path(config@),
{
    nonempty_or_default(config.discovery.file_path.as_str(), "scripts/vrl-osc-discovered.txt")
}

/// Normalizes a profile's configuration with a stream key. `place` is what the system makes of the
/// configuration's discovery path.
pub fn normalize_in_app_config(config: &InAppConfig, stream_key: &str, place: &PathPlace) -> (r:
    Result<NormalizedConfig, ConfigError>)
    ensures
        outcome(r) == normalized_in_app(config@, stream_key@, place@),
{
    let base_url = match normalize_base_url(
        config.website_base_url.as_str(),
        config.allow_insecure_http,
    ) {
        Ok(url) => url,
        Err(error) => {
            return Err(error);
        },
    };
    let creator_username = text::trim(config.creator_username.as_str());
    let key = text::trim(stream_key);
    if creator_username.unicode_len() == 0 {
        return Err(ConfigError::new("config.creatorUsername is required"));
    }
    if key.unicode_len() == 0 {
        return Err(ConfigError::new("config.streamKey is required"));
    }
    let host = text::trim(config.osc_listen.host.as_str());
    if host.unicode_len() == 0 {
        return Err(ConfigError::new("config.oscListen.host is required"));
    }
    if config.osc_listen.port == 0 {
        return Err(ConfigError::new("config.oscListen.port must be a valid UDP port"));
    }
    let list = parse_allowed_sender_items(&config.osc_allowed_senders);
    let osc_allowed_senders = match check_network_rules(host, config.allow_network_osc, list) {
        Ok(addresses) => addresses,
        Err(error) => {
            return Err(error);
        },
    };
    let raw_path = in_app_discovery_path(config);
    let file_path = match resolve_path(raw_path.as_str(), place) {
        Ok(path) => path,
        Err(error) => {
            return Err(error);
        },
    };
    Ok(
        NormalizedConfig {
            base_url,
            creator_username: creator_username.to_owned(),
            stream_key: key.to_owned(),
            osc_listen: OscListen { host: host.to_owned(), port: config.osc_listen.port },
            allow_network_osc: config.allow_network_osc,
            osc_allowed_senders,
            relay: RelayPaths {
                session_path: nonempty_or_default(
                    text::trim(config.relay.session_path.as_str()),
                    "/api/sps/session",
                ),
                ingest_path: nonempty_or_default(
                    text::trim(config.relay.ingest_path.as_str()),
                    "/api/sps/ingest",
                ),
            },
            debug: resolve_debug_flags(
                config.debug.log_osc,
                config.debug.log_unmapped_only,
                config.debug.log_configured_only,
                config.debug.log_relay,
            ),
            discovery: DiscoveryConfig {
                enabled: config.discovery.enabled,
                file_path,
                include_arg_types: config.discovery.include_arg_types,
            },
            forward_targets: normalize_target_list(&config.forward_targets),
            mappings: normalize_mapping_list(&config.mappings),
            output: config.output.sanitize(),
        },
    )
}

} // verus!
