//! What the pages of the window show.
use vstd::prelude::*;
use vstd::string::*;
use crate::bridge_loop::{RuntimeSnapshot, SnapshotModel};
use crate::desktop;
use crate::desktop::{LiveGateRequest, LiveGateStatus, Report};
use crate::diagnostics;
use crate::diagnostics::{DiagnosticsModel, VrchatDiagnostics};
use crate::float::FloatBits;
use crate::forms;
use crate::intiface::{
    BridgeSnapshotModel,
    FeatureModel,
    IntifaceBridgeSnapshot,
    IntifaceFeature,
    IntifaceSnapshot,
    ProbeModel,
};
use crate::model;
use crate::model::Duplicate;
use crate::oscquery;
use crate::oscquery::{EndpointModel, OscQueryEndpoint, OscQueryStatus};
use crate::runtime::{LogLineModel, RuntimeLogLine};
use crate::store::{ProfileSummary, SummaryModel};
use crate::text;

verus! {

/// How a line is to be read.
#[derive(Debug, Clone, Copy, PartialEq, Eq, Structural)]
pub enum Tone {
    Plain,
    Ready,
    Pending,
    Heading,
    Warning,
    Fault,
}

/// A line of a page.
#[derive(Debug, PartialEq, Eq)]
pub struct PanelLine {
    pub text: String,
    pub tone: Tone,
}

/// The model of `PanelLine`.
#[verifier::ext_equal]
pub struct LineModel {
    pub text: Seq<char>,
    pub tone: Tone,
}

impl View for PanelLine {
    type V = LineModel;

    open spec fn view(&self) -> LineModel {
        LineModel {
            text: self.text@,
            tone: self.tone,
        }
    }
}

impl Duplicate for PanelLine {
    fn duplicate(&self) -> (r: Self) {
        PanelLine {
            text: self.text.clone(),
            tone: self.tone,
        }
    }
}

/// A line without emphasis.
pub open spec fn plain(s: Seq<char>) -> LineModel {
    LineModel { text: s, tone: Tone::Plain }
}

/// A line that reports a fault.
pub open spec fn fault(s: Seq<char>) -> LineModel {
    LineModel { text: s, tone: Tone::Fault }
}

/// A line that opens a part of a page.
pub open spec fn heading(s: Seq<char>) -> LineModel {
    LineModel { text: s, tone: Tone::Heading }
}

fn add_line(lines: &mut Vec<PanelLine>, text: String, tone: Tone)
    ensures
        model::views(final(lines)@) == model::views(old(lines)@).push(
            LineModel { text: text@, tone },
        ),
{
    let line = PanelLine { text, tone };
    proof {
        model::lemma_views_push(lines@, line);
    }
    lines.push(line);
}

fn add_pair(lines: &mut Vec<PanelLine>, label: &str, value: &str)
    ensures
        model::views(final(lines)@) == model::views(old(lines)@).push(plain(label@ + value@)),
{
    add_line(lines, text::concat2(label, value), Tone::Plain);
}

fn add_count(lines: &mut Vec<PanelLine>, label: &str, count: u64)
    ensures
        model::views(final(lines)@) == model::views(old(lines)@).push(
            plain(label@ + text::decimal_text(count as nat)),
        ),
{
    let digits = text::decimal(count);
    add_pair(lines, label, digits.as_str());
}

fn add_time(lines: &mut Vec<PanelLine>, label: &str, time_ms: i64)
    ensures
        model::views(final(lines)@) == model::views(old(lines)@).push(
            plain(label@ + text::signed_text(time_ms as int)),
        ),
{
    let digits = text::signed_decimal(time_ms);
    add_pair(lines, label, digits.as_str());
}

/// Which website is signed in at.
#[derive(Debug, Clone, Copy, PartialEq, Eq, Structural)]
pub enum Environment {
    Stable,
    Nightly,
    Custom,
}

/// The website that a URL names.
pub open spec fn environment_of(base_url: Seq<char>) -> Environment {
    let lower = text::lower_text(text::trimmed(base_url));
    if lower == text::lower_text("https://vrlewds.com"@) {
        Environment::Stable
    } else if lower == text::lower_text("https://dev.vrlewds.com"@) {
        Environment::Nightly
    } else {
        Environment::Custom
    }
}

impl Environment {
    /// The website that a URL names.
    pub fn of(base_url: &str) -> (r: Environment)
        ensures
            r == environment_of(base_url@),
    {
        let trimmed = text::trim(base_url);
        if text::same_text_ignore_case(trimmed, "https://vrlewds.com") {
            Environment::Stable
        } else if text::same_text_ignore_case(trimmed, "https://dev.vrlewds.com") {
            Environment::Nightly
        } else {
            Environment::Custom
        }
    }

    /// What it is offered as.
    pub fn label(self) -> (r: &'static str)
        ensures
            r@ == (match self {
                Environment::Stable => "Stable (vrlewds.com)"@,
                Environment::Nightly => "Nightly (dev.vrlewds.com)"@,
                Environment::Custom => "Custom URL"@,
            }),
    {
        match self {
            Environment::Stable => "Stable (vrlewds.com)",
            Environment::Nightly => "Nightly (dev.vrlewds.com)",
            Environment::Custom => "Custom URL",
        }
    }

    /// The URL once the website is chosen: a custom one stays as it was entered.
    pub fn base_url(self, entered: &str) -> (r: String)
        ensures
            r@ == (match self {
                Environment::Stable => "https://vrlewds.com"@,
                Environment::Nightly => "https://dev.vrlewds.com"@,
                Environment::Custom => entered@,
            }),
    {
        match self {
            Environment::Stable => "https://vrlewds.com".to_owned(),
            Environment::Nightly => "https://dev.vrlewds.com".to_owned(),
            Environment::Custom => entered.to_owned(),
        }
    }
}

/// What the setup page checks.
#[derive(Debug, Clone, Copy, PartialEq, Eq, Structural)]
pub struct Checklist {
    pub configuration_loaded: bool,
    pub credential_configured: bool,
    pub auto_mode_enabled: bool,
    pub bridge_engaged: bool,
    pub osc_enabled: bool,
    pub self_interact_enabled: bool,
    pub everyone_interact_enabled: bool,
    pub oscquery_discovered: bool,
    pub intiface_reachable: bool,
}

/// A point of the checklist.
pub open spec fn point(label: Seq<char>, ok: bool) -> LineModel {
    if ok {
        LineModel { text: "[x] "@ + label, tone: Tone::Ready }
    } else {
        LineModel { text: "[ ] "@ + label, tone: Tone::Pending }
    }
}

fn add_point(lines: &mut Vec<PanelLine>, label: &str, ok: bool)
    ensures
        model::views(final(lines)@) == model::views(old(lines)@).push(point(label@, ok)),
{
    if ok {
        add_line(lines, text::concat2("[x] ", label), Tone::Ready);
    } else {
        add_line(lines, text::concat2("[ ] ", label), Tone::Pending);
    }
}

/// What is known to be true.
pub open spec fn known_true(value: Option<bool>) -> bool {
    value == Some(true)
}

fn is_known_true(value: Option<bool>) -> (r: bool)
    ensures
        r == known_true(value),
{
    match value {
        Some(flag) => flag,
        None => false,
    }
}

impl Checklist {
    /// Checks what is known.
    pub fn new(
        profile_selected: bool,
        has_stream_key: bool,
        auto_enabled: bool,
        running: bool,
        diagnostics: &VrchatDiagnostics,
        oscquery: &OscQueryStatus,
        probe: &IntifaceSnapshot,
    ) -> (r: Self)
        ensures
            r == (Checklist {
                configuration_loaded: profile_selected,
                credential_configured: has_stream_key,
                auto_mode_enabled: auto_enabled,
                bridge_engaged: running,
                osc_enabled: known_true(diagnostics@.osc_enabled),
                self_interact_enabled: known_true(diagnostics@.self_interact_enabled),
                everyone_interact_enabled: known_true(diagnostics@.everyone_interact_enabled),
                oscquery_discovered: oscquery@.endpoint is Some,
                intiface_reachable: probe@.connected,
            }),
    {
        Checklist {
            configuration_loaded: profile_selected,
            credential_configured: has_stream_key,
            auto_mode_enabled: auto_enabled,
            bridge_engaged: running,
            osc_enabled: is_known_true(diagnostics.osc_enabled),
            self_interact_enabled: is_known_true(diagnostics.self_interact_enabled),
            everyone_interact_enabled: is_known_true(diagnostics.everyone_interact_enabled),
            oscquery_discovered: oscquery.endpoint.is_some(),
            intiface_reachable: probe.connected,
        }
    }

    /// The points of the checklist.
    pub open spec fn points(self) -> Seq<LineModel> {
        seq![
            point("Configuration loaded"@, self.configuration_loaded),
            point("Credential configured"@, self.credential_configured),
            point("Bridge auto mode enabled"@, self.auto_mode_enabled),
            point("Bridge engaged"@, self.bridge_engaged),
            point("VRChat OSC enabled"@, self.osc_enabled),
            point("VRChat self interact enabled"@, self.self_interact_enabled),
            point("VRChat everyone interact enabled"@, self.everyone_interact_enabled),
            point("OSCQuery discovered"@, self.oscquery_discovered),
            point("Intiface reachable"@, self.intiface_reachable),
        ]
    }

    /// Writes the points of the checklist.
    pub fn lines(&self) -> (r: Vec<PanelLine>)
        ensures
            model::views(r@) == self.points(),
    {
        let mut lines: Vec<PanelLine> = Vec::new();
        assert(model::views(lines@) =~= Seq::empty());
        add_point(&mut lines, "Configuration loaded", self.configuration_loaded);
        add_point(&mut lines, "Credential configured", self.credential_configured);
        add_point(&mut lines, "Bridge auto mode enabled", self.auto_mode_enabled);
        add_point(&mut lines, "Bridge engaged", self.bridge_engaged);
        add_point(&mut lines, "VRChat OSC enabled", self.osc_enabled);
        add_point(&mut lines, "VRChat self interact enabled", self.self_interact_enabled);
        add_point(&mut lines, "VRChat everyone interact enabled", self.everyone_interact_enabled);
        add_point(&mut lines, "OSCQuery discovered", self.oscquery_discovered);
        add_point(&mut lines, "Intiface reachable", self.intiface_reachable);
        assert(model::views(lines@) =~= self.points());
        lines
    }
}

/// The lines with one more where there is a value.
pub open spec fn with_optional(
    lines: Seq<LineModel>,
    label: Seq<char>,
    value: Option<Seq<char>>,
    tone: Tone,
) -> Seq<LineModel> {
    match value {
        Some(found) => lines.push(LineModel { text: label + found, tone }),
        None => lines,
    }
}

fn add_optional(lines: &mut Vec<PanelLine>, label: &str, value: &Option<String>, tone: Tone)
    ensures
        model::views(final(lines)@) == with_optional(
            model::views(old(lines)@),
            label@,
            model::opt_text(*value),
            tone,
        ),
{
    if let Some(found) = value {
        add_line(lines, text::concat2(label, found.as_str()), tone);
    }
}

/// What the home page says of the stream that is watched.
pub open spec fn gate_lines(
    auto_enabled: bool,
    request: Option<desktop::RequestModel>,
    status: desktop::StatusModel,
) -> Seq<LineModel> {
    let toggle = plain(
        "Engage toggle: "@ + (if auto_enabled {
            "ON (auto)"@
        } else {
            "OFF"@
        }),
    );
    let gate = plain(
        "Stream live gate: "@ + (match status.is_live {
            Some(true) => "live"@,
            Some(false) => "offline"@,
            None => "unknown"@,
        }),
    );
    let start = seq![toggle, gate];
    let target = match request {
        Some(found) => start.push(
            plain("Gate target: "@ + found.creator_username + " @ "@ + found.base_url),
        ),
        None => start,
    };
    let checked = if status.checked_at_ms > 0 {
        target.push(plain("Last live check: "@ + text::signed_text(status.checked_at_ms as int)))
    } else {
        target
    };
    with_optional(
        with_optional(
            with_optional(checked, "Matched streamId: "@, status.stream_id, Tone::Plain),
            "Live title: "@,
            status.stream_title,
            Tone::Plain,
        ),
        "Live check error: "@,
        status.last_error,
        Tone::Fault,
    )
}

/// Writes what the home page says of the stream that is watched.
pub fn write_gate(
    auto_enabled: bool,
    request: &Option<LiveGateRequest>,
    status: &LiveGateStatus,
) -> (r: Vec<PanelLine>)
    ensures
        model::views(r@) == gate_lines(auto_enabled, model::opt_view(*request), status@),
{
    let mut lines: Vec<PanelLine> = Vec::new();
    assert(model::views(lines@) =~= Seq::empty());
    let toggle = if auto_enabled {
        "ON (auto)"
    } else {
        "OFF"
    };
    let gate = match status.is_live {
        Some(live) => if live {
            "live"
        } else {
            "offline"
        },
        None => "unknown",
    };
    add_pair(&mut lines, "Engage toggle: ", toggle);
    add_pair(&mut lines, "Stream live gate: ", gate);
    proof {
        let start = seq![plain("Engage toggle: "@ + toggle@), plain("Stream live gate: "@ + gate@)];
        assert(model::views(lines@) =~= start);
    }
    if let Some(found) = request {
        let mut target = text::concat3("Gate target: ", found.creator_username.as_str(), " @ ");
        target.append(found.base_url.as_str());
        add_line(&mut lines, target, Tone::Plain);
    }
    if status.checked_at_ms > 0 {
        add_time(&mut lines, "Last live check: ", status.checked_at_ms);
    }
    add_optional(&mut lines, "Matched streamId: ", &status.stream_id, Tone::Plain);
    add_optional(&mut lines, "Live title: ", &status.stream_title, Tone::Plain);
    add_optional(&mut lines, "Live check error: ", &status.last_error, Tone::Fault);
    lines
}

/// A text, or a dash where it is empty.
pub open spec fn or_dash(s: Seq<char>) -> Seq<char> {
    if s.len() == 0 {
        "-"@
    } else {
        s
    }
}

fn dash_if_empty(s: &str) -> (r: &str)
    ensures
        r@ == or_dash(s@),
{
    if s.unicode_len() == 0 {
        "-"
    } else {
        s
    }
}

/// A text, or a dash where there is none.
pub open spec fn or_dash_opt(s: Option<Seq<char>>) -> Seq<char> {
    match s {
        Some(found) => found,
        None => "-"@,
    }
}

fn dash_if_none(s: &Option<String>) -> (r: String)
    ensures
        r@ == or_dash_opt(model::opt_text(*s)),
{
    match s {
        Some(found) => found.clone(),
        None => "-".to_owned(),
    }
}

/// The levels of the bridge, written out.
#[derive(Debug, PartialEq, Eq)]
pub struct LevelTexts {
    pub current: String,
    pub target: String,
    pub peak: String,
}

/// What the home page says of the running bridge.
pub open spec fn snapshot_lines(
    running: bool,
    active_profile: Option<Seq<char>>,
    snapshot: Option<SnapshotModel>,
    levels: LevelTexts,
) -> Seq<LineModel> {
    let start = seq![
        plain(
            "Status: "@ + (if running {
                "Engaged"@
            } else {
                "Disengaged"@
            }),
        ),
        plain("Active config: "@ + or_dash_opt(active_profile)),
    ];
    match snapshot {
        None => start.push(plain("Runtime not started."@)),
        Some(s) => {
            let all = start + seq![
                plain("Seq: "@ + text::decimal_text(s.seq as nat)),
                plain("Current intensity: "@ + levels.current@),
                plain("Target intensity: "@ + levels.target@),
                plain("Peak intensity: "@ + levels.peak@),
                plain("Relay connected: "@ + text::flag_text(s.relay_connected)),
                plain(
                    "Auto-disengaged: "@ + (if s.auto_disengaged {
                        "yes"@
                    } else {
                        "no"@
                    }),
                ),
                plain("OSC packets: "@ + text::decimal_text(s.osc_packets_received as nat)),
                plain("OSC messages: "@ + text::decimal_text(s.osc_messages_received as nat)),
                plain("Mapped messages: "@ + text::decimal_text(s.mapped_messages_received as nat)),
                plain(
                    "Unmapped messages: "@ + text::decimal_text(
                        s.unmapped_messages_received as nat,
                    ),
                ),
                plain(
                    "Discovery entries: "@ + text::decimal_text(s.discovery_entries_written as nat),
                ),
                plain(
                    "Last source: "@ + or_dash(s.last_source_address) + " ["@
                        + s.last_source_arg_type + "]"@,
                ),
            ];
            if s.last_error.len() == 0 {
                all
            } else {
                all.push(fault("Last error: "@ + s.last_error))
            }
        },
    }
}

/// Writes what the home page says of the running bridge.
pub fn write_snapshot(
    running: bool,
    active_profile: &Option<String>,
    snapshot: &Option<RuntimeSnapshot>,
    levels: &LevelTexts,
) -> (r: Vec<PanelLine>)
    ensures
        model::views(r@) == snapshot_lines(
            running,
            model::opt_text(*active_profile),
            model::opt_view(*snapshot),
            *levels,
        ),
{
    let ghost wanted = snapshot_lines(
        running,
        model::opt_text(*active_profile),
        model::opt_view(*snapshot),
        *levels,
    );
    let mut lines: Vec<PanelLine> = Vec::new();
    assert(model::views(lines@) =~= Seq::empty());
    let status = if running {
        "Engaged"
    } else {
        "Disengaged"
    };
    add_pair(&mut lines, "Status: ", status);
    let active = dash_if_none(active_profile);
    add_pair(&mut lines, "Active config: ", active.as_str());
    match snapshot {
        None => {
            add_line(&mut lines, "Runtime not started.".to_owned(), Tone::Plain);
        },
        Some(s) => {
            let disengaged = if s.auto_disengaged {
                "yes"
            } else {
                "no"
            };
            add_count(&mut lines, "Seq: ", s.seq);
            add_pair(&mut lines, "Current intensity: ", levels.current.as_str());
            add_pair(&mut lines, "Target intensity: ", levels.target.as_str());
            add_pair(&mut lines, "Peak intensity: ", levels.peak.as_str());
            add_pair(&mut lines, "Relay connected: ", text::flag(s.relay_connected));
            add_pair(&mut lines, "Auto-disengaged: ", disengaged);
            add_count(&mut lines, "OSC packets: ", s.osc_packets_received);
            add_count(&mut lines, "OSC messages: ", s.osc_messages_received);
            add_count(&mut lines, "Mapped messages: ", s.mapped_messages_received);
            add_count(&mut lines, "Unmapped messages: ", s.unmapped_messages_received);
            add_count(&mut lines, "Discovery entries: ", s.discovery_entries_written);
            let mut source = text::concat3(
                "Last source: ",
                dash_if_empty(s.last_source_address.as_str()),
                " [",
            );
            source.append(s.last_source_arg_type.as_str());
            source.append("]");
            add_line(&mut lines, source, Tone::Plain);
            if s.last_error.as_str().unicode_len() > 0 {
                add_line(
                    &mut lines,
                    text::concat2("Last error: ", s.last_error.as_str()),
                    Tone::Fault,
                );
            }
        },
    }
    assert(model::views(lines@) =~= wanted);
    lines
}

/// The line that shows a line of the log.
pub open spec fn log_text(line: LogLineModel) -> Seq<char> {
    "["@ + text::signed_text(line.ts_ms as int) + "]["@ + line.level + "] "@ + line.message
}

/// Writes the line that shows a line of the log.
pub fn write_log_line(line: &RuntimeLogLine) -> (r: String)
    ensures
        r@ == log_text(line@),
{
    let time = text::signed_decimal(line.ts_ms);
    let mut out = text::concat3("[", time.as_str(), "][");
    out.append(line.level.as_str());
    out.append("] ");
    out.append(line.message.as_str());
    out
}

/// The line that shows a profile in a list.
pub open spec fn profile_text(summary: SummaryModel) -> Seq<char> {
    summary.name + " | "@ + summary.creator_username + " | key="@ + (if summary.has_stream_key {
        "set"@
    } else {
        "missing"@
    }) + " | updated="@ + text::signed_text(summary.updated_at_ms as int)
}

/// Writes the line that shows a profile in a list.
pub fn write_profile(summary: &ProfileSummary) -> (r: String)
    ensures
        r@ == profile_text(summary@),
{
    let mut out = text::concat3(summary.name.as_str(), " | ", summary.creator_username.as_str());
    out.append(" | key=");
    out.append(
        if summary.has_stream_key {
            "set"
        } else {
            "missing"
        },
    );
    out.append(" | updated=");
    let updated = text::signed_decimal(summary.updated_at_ms);
    out.append(updated.as_str());
    out
}

/// What is said of the credential in a form.
pub open spec fn credential_hint(entered: Seq<char>, has_stream_key: bool) -> Seq<char> {
    let key = text::trimmed(forms::on_one_line(entered));
    if key.len() > 0 {
        text::decimal_text(key.len()) + " chars entered"@
    } else if has_stream_key {
        "(leave blank to keep existing)"@
    } else {
        "No credential entered"@
    }
}

/// Writes what is said of the credential in a form.
pub fn write_credential_hint(entered: &str, has_stream_key: bool) -> (r: String)
    ensures
        r@ == credential_hint(entered@, has_stream_key),
{
    let key = forms::normalized_stream_key_input(entered);
    let length: usize = key.as_str().unicode_len();
    if length > 0 {
        let digits = text::decimal(length as u64);
        text::concat2(digits.as_str(), " chars entered")
    } else if has_stream_key {
        "(leave blank to keep existing)".to_owned()
    } else {
        "No credential entered".to_owned()
    }
}

/// What came of a click on the mapping of a parameter.
#[derive(Debug, Clone, Copy, PartialEq, Eq, Structural)]
pub enum MappingChange {
    Removed(usize),
    Added,
    AlreadyThere,
}

/// What is reported of a click on the mapping of a parameter.
pub open spec fn mapping_change_text(change: MappingChange, key: Seq<char>) -> Seq<char> {
    match change {
        MappingChange::Removed(count) => "Removed "@ + text::decimal_text(count as nat)
            + " mapping(s) for "@ + forms::parameter_address(key) + ". Save settings to persist."@,
        MappingChange::Added => "Added default mapping for "@ + forms::parameter_address(key)
            + ". Save settings to persist."@,
        MappingChange::AlreadyThere => "Mapping already exists for "@ + forms::parameter_address(
            key,
        ) + "."@,
    }
}

/// Writes what is reported of a click on the mapping of a parameter.
pub fn mapping_change_message(change: MappingChange, key: &str) -> (r: String)
    ensures
        r@ == mapping_change_text(change, key@),
{
    let address = forms::mapping_address_for_param_key(key);
    match change {
        MappingChange::Removed(count) => {
            let digits = text::decimal(count as u64);
            let mut out = text::concat3("Removed ", digits.as_str(), " mapping(s) for ");
            out.append(address.as_str());
            out.append(". Save settings to persist.");
            out
        },
        MappingChange::Added => text::concat3(
            "Added default mapping for ",
            address.as_str(),
            ". Save settings to persist.",
        ),
        MappingChange::AlreadyThere => text::concat3(
            "Mapping already exists for ",
            address.as_str(),
            ".",
        ),
    }
}

/// A number, or a dash where there is none.
pub open spec fn port_or_dash(port: Option<u16>) -> Seq<char> {
    match port {
        Some(found) => text::decimal_text(found as nat),
        None => "-"@,
    }
}

fn dash_if_no_port(port: Option<u16>) -> (r: String)
    ensures
        r@ == port_or_dash(port),
{
    match port {
        Some(found) => text::decimal(found as u64),
        None => "-".to_owned(),
    }
}

/// What is shown of a value that may not be known.
pub open spec fn known_text(value: Option<bool>) -> Seq<char> {
    match value {
        Some(true) => "true"@,
        Some(false) => "false"@,
        None => "unknown"@,
    }
}

/// Lines of one tone.
pub open spec fn toned(texts: Seq<Seq<char>>, tone: Tone) -> Seq<LineModel> {
    Seq::new(texts.len(), |i: int| LineModel { text: texts[i], tone })
}

fn add_texts(lines: &mut Vec<PanelLine>, texts: &Vec<String>, tone: Tone)
    ensures
        model::views(final(lines)@) == model::views(old(lines)@) + toned(text::texts(texts@), tone),
{
    let ghost start = model::views(lines@);
    let ghost more = toned(text::texts(texts@), tone);
    let mut i: usize = 0;
    assert(start + more.take(0) =~= start);
    while i < texts.len()
        invariant
            i <= texts@.len(),
            more == toned(text::texts(texts@), tone),
            model::views(lines@) == start + more.take(i as int),
        decreases texts@.len() - i,
    {
        let ghost before = model::views(lines@);
        add_line(lines, texts[i].clone(), tone);
        i += 1;
        assert(model::views(lines@) =~= before.push(more[i - 1]));
        assert(model::views(lines@) =~= start + more.take(i as int));
    }
    assert(more.take(i as int) =~= more);
}

/// A part of a page with a heading, left out where it is empty.
pub open spec fn part(title: Seq<char>, texts: Seq<Seq<char>>, tone: Tone) -> Seq<LineModel> {
    if texts.len() == 0 {
        Seq::empty()
    } else {
        seq![heading(title)] + toned(texts, tone)
    }
}

fn add_part(lines: &mut Vec<PanelLine>, title: &str, texts: &Vec<String>, tone: Tone)
    ensures
        model::views(final(lines)@) == model::views(old(lines)@) + part(
            title@,
            text::texts(texts@),
            tone,
        ),
{
    let ghost start = model::views(lines@);
    if texts.len() > 0 {
        add_line(lines, title.to_owned(), Tone::Heading);
        add_texts(lines, texts, tone);
    }
    assert(text::texts(texts@).len() == texts@.len());
    assert(model::views(lines@) =~= start + part(title@, text::texts(texts@), tone));
}

/// What the diagnostics page says of VRChat.
pub open spec fn diagnostics_lines(d: DiagnosticsModel) -> Seq<LineModel> {
    let start = seq![
        plain("Checked at: "@ + text::signed_text(d.checked_at_ms as int)),
        plain("VRChat OSC enabled: "@ + known_text(d.osc_enabled)),
        plain("VRChat self interact enabled: "@ + known_text(d.self_interact_enabled)),
        plain("VRChat everyone interact enabled: "@ + known_text(d.everyone_interact_enabled)),
        plain("Latest VRChat log: "@ + or_dash_opt(d.latest_log_path)),
        plain("OSCQuery port from VRChat log: "@ + port_or_dash(d.oscquery_port_from_logs)),
    ];
    with_optional(start, "OSC startup failure: "@, d.osc_start_failure, Tone::Fault) + part(
        "Warnings"@,
        diagnostics::warnings(d),
        Tone::Warning,
    ) + part("Diagnostics Errors"@, d.errors, Tone::Fault)
}

/// Writes what the diagnostics page says of VRChat.
pub fn write_diagnostics(d: &VrchatDiagnostics) -> (r: Vec<PanelLine>)
    ensures
        model::views(r@) == diagnostics_lines(d@),
{
    let mut lines: Vec<PanelLine> = Vec::new();
    assert(model::views(lines@) =~= Seq::empty());
    add_time(&mut lines, "Checked at: ", d.checked_at_ms);
    add_pair(&mut lines, "VRChat OSC enabled: ", desktop::option_bool_text(d.osc_enabled));
    add_pair(
        &mut lines,
        "VRChat self interact enabled: ",
        desktop::option_bool_text(d.self_interact_enabled),
    );
    add_pair(
        &mut lines,
        "VRChat everyone interact enabled: ",
        desktop::option_bool_text(d.everyone_interact_enabled),
    );
    let log = dash_if_none(&d.latest_log_path);
    add_pair(&mut lines, "Latest VRChat log: ", log.as_str());
    let port = dash_if_no_port(d.oscquery_port_from_logs);
    add_pair(&mut lines, "OSCQuery port from VRChat log: ", port.as_str());
    proof {
        let m = d@;
        let start = seq![
            plain("Checked at: "@ + text::signed_text(m.checked_at_ms as int)),
            plain("VRChat OSC enabled: "@ + known_text(m.osc_enabled)),
            plain("VRChat self interact enabled: "@ + known_text(m.self_interact_enabled)),
            plain("VRChat everyone interact enabled: "@ + known_text(m.everyone_interact_enabled)),
            plain("Latest VRChat log: "@ + or_dash_opt(m.latest_log_path)),
            plain("OSCQuery port from VRChat log: "@ + port_or_dash(m.oscquery_port_from_logs)),
        ];
        assert(model::views(lines@) =~= start);
    }
    add_optional(&mut lines, "OSC startup failure: ", &d.osc_start_failure, Tone::Fault);
    let warnings = d.warning_lines();
    add_part(&mut lines, "Warnings", &warnings, Tone::Warning);
    add_part(&mut lines, "Diagnostics Errors", &d.errors, Tone::Fault);
    lines
}

/// What the diagnostics page says of the parameter server.
pub open spec fn oscquery_lines(status: oscquery::StatusModel) -> Seq<LineModel> {
    let start = match status.endpoint {
        Some(e) => seq![
            plain(
                "Endpoint: "@ + e.oscquery_host + ":"@ + text::decimal_text(e.oscquery_port as nat)
                    + " (source "@ + e.source + ")"@,
            ),
            plain(
                "VRChat OSC target: "@ + e.osc_host + ":"@ + text::decimal_text(e.osc_port as nat),
            ),
        ],
        None => seq![plain("Endpoint: not discovered"@)],
    };
    with_optional(start, "Last OSCQuery error: "@, status.last_error, Tone::Fault)
}

/// Writes what the diagnostics page says of the parameter server.
pub fn write_oscquery(status: &OscQueryStatus) -> (r: Vec<PanelLine>)
    ensures
        model::views(r@) == oscquery_lines(status@),
{
    let mut lines: Vec<PanelLine> = Vec::new();
    assert(model::views(lines@) =~= Seq::empty());
    match &status.endpoint {
        Some(e) => {
            let query_port = text::decimal(e.oscquery_port as u64);
            let mut endpoint = text::concat3("Endpoint: ", e.oscquery_host.as_str(), ":");
            endpoint.append(query_port.as_str());
            endpoint.append(" (source ");
            endpoint.append(e.source.as_str());
            endpoint.append(")");
            add_line(&mut lines, endpoint, Tone::Plain);
            let osc_port = text::decimal(e.osc_port as u64);
            let mut target = text::concat3("VRChat OSC target: ", e.osc_host.as_str(), ":");
            target.append(osc_port.as_str());
            add_line(&mut lines, target, Tone::Plain);
            proof {
                let m = e@;
                let start = seq![
                    plain(
                        "Endpoint: "@ + m.oscquery_host + ":"@ + text::decimal_text(
                            m.oscquery_port as nat,
                        ) + " (source "@ + m.source + ")"@,
                    ),
                    plain(
                        "VRChat OSC target: "@ + m.osc_host + ":"@ + text::decimal_text(
                            m.osc_port as nat,
                        ),
                    ),
                ];
                assert(model::views(lines@) =~= start);
            }
        },
        None => {
            add_line(&mut lines, "Endpoint: not discovered".to_owned(), Tone::Plain);
            assert(model::views(lines@) =~= seq![plain("Endpoint: not discovered"@)]);
        },
    }
    add_optional(&mut lines, "Last OSCQuery error: ", &status.last_error, Tone::Fault);
    lines
}

/// What is reported of a search for the parameter server.
pub open spec fn discovery_text(
    endpoint: Option<EndpointModel>,
    last_error: Option<Seq<char>>,
) -> Seq<char> {
    match endpoint {
        Some(e) => "OSCQuery discovered via "@ + e.source + " at "@ + e.oscquery_host + ":"@
            + text::decimal_text(e.oscquery_port as nat) + " -> OSC "@ + e.osc_host + ":"@
            + text::decimal_text(e.osc_port as nat),
        None => "OSCQuery discovery failed: "@ + (match last_error {
            Some(error) => error,
            None => "not discovered"@,
        }),
    }
}

/// Writes what is reported of a search for the parameter server.
pub fn discovery_report(endpoint: &Option<OscQueryEndpoint>, last_error: &Option<String>) -> (r:
    Report)
    ensures
        r.message@ == discovery_text(model::opt_view(*endpoint), model::opt_text(*last_error)),
        r.is_error == endpoint.is_none(),
{
    match endpoint {
        Some(e) => {
            let query_port = text::decimal(e.oscquery_port as u64);
            let osc_port = text::decimal(e.osc_port as u64);
            let mut out = text::concat3("OSCQuery discovered via ", e.source.as_str(), " at ");
            out.append(e.oscquery_host.as_str());
            out.append(":");
            out.append(query_port.as_str());
            out.append(" -> OSC ");
            out.append(e.osc_host.as_str());
            out.append(":");
            out.append(osc_port.as_str());
            Report { message: out, is_error: false }
        },
        None => {
            let message = match last_error {
                Some(error) => text::concat2("OSCQuery discovery failed: ", error.as_str()),
                None => text::concat2("OSCQuery discovery failed: ", "not discovered"),
            };
            Report { message, is_error: true }
        },
    }
}

/// What is reported of a probe of the device server.
pub fn probe_report(probe: &IntifaceSnapshot) -> (r: Report)
    ensures
        r.is_error == !probe@.connected,
        r.message@ == (if probe@.connected {
            "Intiface probe succeeded"@
        } else {
            "Intiface probe failed: "@ + (match probe@.last_error {
                Some(error) => error,
                None => "unknown error"@,
            })
        }),
{
    if probe.connected {
        return Report { message: "Intiface probe succeeded".to_owned(), is_error: false };
    }
    let message = match &probe.last_error {
        Some(error) => text::concat2("Intiface probe failed: ", error.as_str()),
        None => text::concat2("Intiface probe failed: ", "unknown error"),
    };
    Report { message, is_error: true }
}

/// What the device page says of the last probe.
pub open spec fn probe_lines(probe: ProbeModel) -> Seq<LineModel> {
    with_optional(
        seq![
            plain("Connected: "@ + text::flag_text(probe.connected)),
            plain("Server: "@ + probe.server_name),
            plain("Checked at: "@ + text::signed_text(probe.checked_at_ms as int)),
        ],
        "Last error: "@,
        probe.last_error,
        Tone::Fault,
    )
}

/// Writes what the device page says of the last probe.
pub fn write_probe(probe: &IntifaceSnapshot) -> (r: Vec<PanelLine>)
    ensures
        model::views(r@) == probe_lines(probe@),
{
    let mut lines: Vec<PanelLine> = Vec::new();
    assert(model::views(lines@) =~= Seq::empty());
    add_pair(&mut lines, "Connected: ", text::flag(probe.connected));
    add_pair(&mut lines, "Server: ", probe.server_name.as_str());
    add_time(&mut lines, "Checked at: ", probe.checked_at_ms);
    assert(model::views(lines@) =~= seq![
        plain("Connected: "@ + text::flag_text(probe@.connected)),
        plain("Server: "@ + probe@.server_name),
        plain("Checked at: "@ + text::signed_text(probe@.checked_at_ms as int)),
    ]);
    add_optional(&mut lines, "Last error: ", &probe.last_error, Tone::Fault);
    lines
}

/// What the device page says of the bridge to the device server, with its level written out.
pub open spec fn direct_lines(
    engaged: bool,
    snapshot: BridgeSnapshotModel,
    level: Seq<char>,
) -> Seq<LineModel> {
    let all = seq![
        plain(
            "Status: "@ + (if engaged {
                "engaged"@
            } else {
                "disengaged"@
            }),
        ),
        plain("Connected: "@ + text::flag_text(snapshot.connected)),
        plain("Devices: "@ + text::decimal_text(snapshot.device_count as nat)),
        plain("Commands sent: "@ + text::decimal_text(snapshot.commands_sent as nat)),
        plain("Last level: "@ + level),
        plain("Last sent at: "@ + text::signed_text(snapshot.last_sent_at_ms as int)),
    ];
    if snapshot.last_error.len() == 0 {
        all
    } else {
        all.push(fault("Bridge error: "@ + snapshot.last_error))
    }
}

/// Writes what the device page says of the bridge to the device server.
pub fn write_direct_bridge(engaged: bool, snapshot: &IntifaceBridgeSnapshot, level: &str) -> (r:
    Vec<PanelLine>)
    ensures
        model::views(r@) == direct_lines(engaged, snapshot@, level@),
{
    let ghost wanted = direct_lines(engaged, snapshot@, level@);
    let mut lines: Vec<PanelLine> = Vec::new();
    assert(model::views(lines@) =~= Seq::empty());
    let status = if engaged {
        "engaged"
    } else {
        "disengaged"
    };
    add_pair(&mut lines, "Status: ", status);
    add_pair(&mut lines, "Connected: ", text::flag(snapshot.connected));
    add_count(&mut lines, "Devices: ", snapshot.device_count as u64);
    add_count(&mut lines, "Commands sent: ", snapshot.commands_sent);
    add_pair(&mut lines, "Last level: ", level);
    add_time(&mut lines, "Last sent at: ", snapshot.last_sent_at_ms);
    if snapshot.last_error.as_str().unicode_len() > 0 {
        add_line(
            &mut lines,
            text::concat2("Bridge error: ", snapshot.last_error.as_str()),
            Tone::Fault,
        );
    }
    assert(model::views(lines@) =~= wanted);
    lines
}

/// The line that shows a feature of a device.
pub open spec fn feature_text(feature: FeatureModel) -> Seq<char> {
    feature.command_type + " #"@ + text::decimal_text(feature.index as nat) + " "@ + or_dash_opt(
        feature.actuator_type,
    )
}

/// Writes the line that shows a feature of a device.
pub fn write_feature(feature: &IntifaceFeature) -> (r: String)
    ensures
        r@ == feature_text(feature@),
{
    let index = text::decimal(feature.index as u64);
    let actuator = dash_if_none(&feature.actuator_type);
    let mut out = text::concat3(feature.command_type.as_str(), " #", index.as_str());
    out.append(" ");
    out.append(actuator.as_str());
    out
}

/// The actuator that a test drives, where the feature can be driven.
pub open spec fn test_actuator(feature: FeatureModel) -> Option<Seq<char>> {
    if feature.command_type == "ScalarCmd"@ {
        Some(
            match feature.actuator_type {
                Some(actuator) => actuator,
                None => "Vibrate"@,
            },
        )
    } else {
        None
    }
}

/// The actuator that a test drives, where the feature can be driven.
pub fn find_test_actuator(feature: &IntifaceFeature) -> (r: Option<String>)
    ensures
        model::opt_text(r) == test_actuator(feature@),
{
    if !text::same_text(feature.command_type.as_str(), "ScalarCmd") {
        return None;
    }
    match &feature.actuator_type {
        Some(actuator) => Some(actuator.clone()),
        None => Some("Vibrate".to_owned()),
    }
}

/// The highest output of an entered route: never below its lowest.
pub fn held_max_output(min_output: FloatBits, max_output: FloatBits) -> (r: FloatBits)
    ensures
        r == (if max_output.below(min_output) {
            min_output
        } else {
            max_output
        }),
{
    if max_output.less_than(&min_output) {
        min_output
    } else {
        max_output
    }
}

} // verus!
