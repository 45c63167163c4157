//! Laws of what the window shows: every line says what it is labelled with, faults stand out, and
//! no credential is shown.
use vstd::prelude::*;
use crate::bridge_loop::SnapshotModel;
use crate::desktop;
use crate::diagnostics;
use crate::diagnostics::DiagnosticsModel;
use crate::forms;
use crate::intiface::{BridgeSnapshotModel, FeatureModel, ProbeModel};
use crate::ip;
use crate::ip_text;
use crate::oscquery;
use crate::oscquery::EndpointModel;
use crate::panels;
use crate::panels::{Checklist, Environment, LevelTexts, LineModel, MappingChange, Tone};
use crate::rows;
use crate::runtime::LogLineModel;
use crate::store::SummaryModel;
use crate::text;
use crate::text_laws;

verus! {

/// The line ends in the text.
pub open spec fn ends_in(line: LineModel, s: Seq<char>) -> bool {
    s.is_suffix_of(line.text)
}

proof fn lemma_ends(before: Seq<char>, s: Seq<char>)
    ensures
        s.is_suffix_of(before + s),
{
    let whole = before + s;
    assert(whole.subrange(whole.len() - s.len(), whole.len() as int) =~= s);
}

/// A site is recognised by its address, large and small letters alike and blanks aside.
pub proof fn law_environment(base_url: Seq<char>)
    ensures
        ({
            let lower = text::lower_text(text::trimmed(base_url));
            &&& panels::environment_of(base_url) == Environment::Stable <==> lower
                == "https://vrlewds.com"@
            &&& panels::environment_of(base_url) == Environment::Nightly <==> lower
                == "https://dev.vrlewds.com"@
        }),
{
    reveal_strlit("https://vrlewds.com");
    reveal_strlit("https://dev.vrlewds.com");
    assert(text::lower_text("https://vrlewds.com"@) =~= "https://vrlewds.com"@);
    assert(text::lower_text("https://dev.vrlewds.com"@) =~= "https://dev.vrlewds.com"@);
    assert("https://vrlewds.com"@.len() != "https://dev.vrlewds.com"@.len());
}

/// A point of the checklist is ticked exactly where it holds.
pub proof fn law_checklist(list: Checklist)
    ensures
        list.points().len() == 9,
        list.points()[0].tone == Tone::Ready <==> list.configuration_loaded,
        list.points()[1].tone == Tone::Ready <==> list.credential_configured,
        list.points()[2].tone == Tone::Ready <==> list.auto_mode_enabled,
        list.points()[3].tone == Tone::Ready <==> list.bridge_engaged,
        list.points()[4].tone == Tone::Ready <==> list.osc_enabled,
        list.points()[5].tone == Tone::Ready <==> list.self_interact_enabled,
        list.points()[6].tone == Tone::Ready <==> list.everyone_interact_enabled,
        list.points()[7].tone == Tone::Ready <==> list.oscquery_discovered,
        list.points()[8].tone == Tone::Ready <==> list.intiface_reachable,
        ends_in(list.points()[0], "Configuration loaded"@),
        ends_in(list.points()[1], "Credential configured"@),
        ends_in(list.points()[3], "Bridge engaged"@),
        ends_in(list.points()[8], "Intiface reachable"@),
{
    lemma_ends("[x] "@, "Configuration loaded"@);
    lemma_ends("[ ] "@, "Configuration loaded"@);
    lemma_ends("[x] "@, "Credential configured"@);
    lemma_ends("[ ] "@, "Credential configured"@);
    lemma_ends("[x] "@, "Bridge engaged"@);
    lemma_ends("[ ] "@, "Bridge engaged"@);
    lemma_ends("[x] "@, "Intiface reachable"@);
    lemma_ends("[ ] "@, "Intiface reachable"@);
}

/// A setting counts as on only where it is known to be.
pub proof fn law_known(value: Option<bool>)
    ensures
        panels::known_true(value) <==> value == Some(true),
        value == Some(true) ==> panels::known_text(value) == "true"@,
        value == Some(false) ==> panels::known_text(value) == "false"@,
        value is None ==> panels::known_text(value) == "unknown"@,
{
}

/// The panel of the live stream shows whether the mode is on, what is known of the stream, and the
/// target, the identifier, the title and the fault where there are any; only the fault stands out.
pub proof fn law_gate_lines(
    auto_enabled: bool,
    request: Option<desktop::RequestModel>,
    status: desktop::StatusModel,
)
    ensures
        ({
            let lines = panels::gate_lines(auto_enabled, request, status);
            &&& lines.len() >= 2
            &&& ends_in(
                lines[0],
                if auto_enabled {
                    "ON (auto)"@
                } else {
                    "OFF"@
                },
            )
            &&& ends_in(
                lines[1],
                match status.is_live {
                    Some(true) => "live"@,
                    Some(false) => "offline"@,
                    None => "unknown"@,
                },
            )
            &&& (request matches Some(found) ==> lines.len() >= 3 && ends_in(lines[2], found.base_url)
                && text::contains_text(lines[2].text, found.creator_username))
            &&& lines.len() == 2 + some(request is Some) + some(status.checked_at_ms > 0) + some(
                status.stream_id is Some,
            ) + some(status.stream_title is Some) + some(status.last_error is Some)
            &&& (status.last_error matches Some(why) ==> ends_in(lines.last(), why)
                && lines.last().tone == Tone::Fault)
            &&& status.last_error is None ==> (status.stream_title matches Some(title) ==> ends_in(
                lines.last(),
                title,
            ))
            &&& status.last_error is None && status.stream_title is None ==> (
            status.stream_id matches Some(id) ==> ends_in(lines.last(), id))
        }),
{
    lemma_ends("Engage toggle: "@, "ON (auto)"@);
    lemma_ends("Engage toggle: "@, "OFF"@);
    lemma_ends("Stream live gate: "@, "live"@);
    lemma_ends("Stream live gate: "@, "offline"@);
    lemma_ends("Stream live gate: "@, "unknown"@);
    if let Some(found) = request {
        lemma_ends("Gate target: "@ + found.creator_username + " @ "@, found.base_url);
        text_laws::law_holds_its_middle(
            "Gate target: "@,
            found.creator_username,
            " @ "@ + found.base_url,
        );
        assert("Gate target: "@ + found.creator_username + (" @ "@ + found.base_url)
            =~= "Gate target: "@ + found.creator_username + " @ "@ + found.base_url);
    }
    if let Some(why) = status.last_error {
        lemma_ends("Live check error: "@, why);
    }
    if let Some(title) = status.stream_title {
        lemma_ends("Live title: "@, title);
    }
    if let Some(id) = status.stream_id {
        lemma_ends("Matched streamId: "@, id);
    }
}

/// One where it holds.
pub open spec fn some(holds: bool) -> nat {
    if holds {
        1
    } else {
        0
    }
}

/// The state of the bridge is shown number by number, each under its own label, and its error only
/// where there is one.
pub proof fn law_snapshot_lines(
    running: bool,
    active: Option<Seq<char>>,
    s: SnapshotModel,
    levels: LevelTexts,
)
    ensures
        ({
            let lines = panels::snapshot_lines(running, active, Some(s), levels);
            &&& lines.len() == 14 + some(s.last_error.len() > 0)
            &&& ends_in(
                lines[0],
                if running {
                    "Engaged"@
                } else {
                    "Disengaged"@
                },
            )
            &&& (active matches Some(id) ==> ends_in(lines[1], id))
            &&& lines[2].text == "Seq: "@ + text::decimal_text(s.seq as nat)
            &&& lines[3].text == "Current intensity: "@ + levels.current@
            &&& lines[4].text == "Target intensity: "@ + levels.target@
            &&& lines[5].text == "Peak intensity: "@ + levels.peak@
            &&& lines[6].text == "Relay connected: "@ + text::flag_text(s.relay_connected)
            &&& ends_in(
                lines[7],
                if s.auto_disengaged {
                    "yes"@
                } else {
                    "no"@
                },
            )
            &&& lines[8].text == "OSC packets: "@ + text::decimal_text(s.osc_packets_received as nat)
            &&& lines[9].text == "OSC messages: "@ + text::decimal_text(
                s.osc_messages_received as nat,
            )
            &&& lines[10].text == "Mapped messages: "@ + text::decimal_text(
                s.mapped_messages_received as nat,
            )
            &&& lines[11].text == "Unmapped messages: "@ + text::decimal_text(
                s.unmapped_messages_received as nat,
            )
            &&& lines[12].text == "Discovery entries: "@ + text::decimal_text(
                s.discovery_entries_written as nat,
            )
            &&& s.last_error.len() > 0 ==> lines.last().tone == Tone::Fault && ends_in(
                lines.last(),
                s.last_error,
            )
            &&& panels::snapshot_lines(running, active, None, levels).len() == 3
        }),
{
    lemma_ends("Status: "@, "Engaged"@);
    lemma_ends("Status: "@, "Disengaged"@);
    lemma_ends("Auto-disengaged: "@, "yes"@);
    lemma_ends("Auto-disengaged: "@, "no"@);
    lemma_ends("Last error: "@, s.last_error);
    if let Some(id) = active {
        lemma_ends("Active config: "@, id);
    }
}

/// A line of the log ends in its message and names its time and its level.
pub proof fn law_log_text(line: LogLineModel)
    ensures
        line.message.is_suffix_of(panels::log_text(line)),
        text::contains_text(panels::log_text(line), line.level),
        text::contains_text(panels::log_text(line), text::signed_text(line.ts_ms as int)),
{
    let time = text::signed_text(line.ts_ms as int);
    let whole = panels::log_text(line);
    lemma_ends("["@ + time + "]["@ + line.level + "] "@, line.message);
    text_laws::law_holds_its_middle("["@ + time + "]["@, line.level, "] "@ + line.message);
    assert("["@ + time + "]["@ + line.level + ("] "@ + line.message) =~= whole);
    text_laws::law_holds_its_middle("["@, time, "]["@ + line.level + "] "@ + line.message);
    assert("["@ + time + ("]["@ + line.level + "] "@ + line.message) =~= whole);
}

/// A profile is shown by its name and its creator, and by whether it has a key.
pub proof fn law_profile_text(summary: SummaryModel)
    ensures
        summary.name.is_prefix_of(panels::profile_text(summary)),
        text::contains_text(panels::profile_text(summary), summary.creator_username),
        text::signed_text(summary.updated_at_ms as int).is_suffix_of(panels::profile_text(summary)),
        summary.has_stream_key ==> text::contains_text(panels::profile_text(summary), "set"@),
        !summary.has_stream_key ==> text::contains_text(panels::profile_text(summary), "missing"@),
{
    let whole = panels::profile_text(summary);
    let word = if summary.has_stream_key {
        "set"@
    } else {
        "missing"@
    };
    let time = text::signed_text(summary.updated_at_ms as int);
    let end = " | updated="@ + time;
    assert(whole.subrange(0, summary.name.len() as int) =~= summary.name);
    lemma_ends(
        summary.name + " | "@ + summary.creator_username + " | key="@ + word + " | updated="@,
        time,
    );
    text_laws::law_holds_its_middle(
        summary.name + " | "@,
        summary.creator_username,
        " | key="@ + word + end,
    );
    assert(summary.name + " | "@ + summary.creator_username + (" | key="@ + word + end) =~= whole);
    text_laws::law_holds_its_middle(
        summary.name + " | "@ + summary.creator_username + " | key="@,
        word,
        end,
    );
    assert(summary.name + " | "@ + summary.creator_username + " | key="@ + word + end =~= whole);
}

/// The hint beside the credential says how many characters were entered and nothing else of them.
pub proof fn law_credential_hint(first: Seq<char>, second: Seq<char>, has_stream_key: bool)
    requires
        text::trimmed(forms::on_one_line(first)).len() == text::trimmed(
            forms::on_one_line(second),
        ).len(),
    ensures
        panels::credential_hint(first, has_stream_key) == panels::credential_hint(
            second,
            has_stream_key,
        ),
        text::trimmed(forms::on_one_line(first)).len() > 0 ==> text::decimal_text(
            text::trimmed(forms::on_one_line(first)).len(),
        ).is_prefix_of(panels::credential_hint(first, has_stream_key)),
        text::trimmed(forms::on_one_line(first)).len() == 0 && has_stream_key
            ==> panels::credential_hint(first, has_stream_key) == "(leave blank to keep existing)"@,
        text::trimmed(forms::on_one_line(first)).len() == 0 && !has_stream_key
            ==> panels::credential_hint(first, has_stream_key) == "No credential entered"@,
{
    let n = text::decimal_text(text::trimmed(forms::on_one_line(first)).len());
    let whole = n + " chars entered"@;
    assert(whole.subrange(0, n.len() as int) =~= n);
}

/// A change of the mappings is reported with the address and, where rows were removed, their
/// number.
pub proof fn law_mapping_change(count: usize, key: Seq<char>)
    ensures
        text::contains_text(
            panels::mapping_change_text(MappingChange::Removed(count), key),
            forms::parameter_address(key),
        ),
        text::contains_text(
            panels::mapping_change_text(MappingChange::Removed(count), key),
            text::decimal_text(count as nat),
        ),
        text::contains_text(
            panels::mapping_change_text(MappingChange::Added, key),
            forms::parameter_address(key),
        ),
        text::contains_text(
            panels::mapping_change_text(MappingChange::AlreadyThere, key),
            forms::parameter_address(key),
        ),
{
    let address = forms::parameter_address(key);
    let n = text::decimal_text(count as nat);
    let end = ". Save settings to persist."@;
    text_laws::law_holds_its_middle("Removed "@ + n + " mapping(s) for "@, address, end);
    text_laws::law_holds_its_middle("Removed "@, n, " mapping(s) for "@ + address + end);
    assert("Removed "@ + n + (" mapping(s) for "@ + address + end) =~= "Removed "@ + n
        + " mapping(s) for "@ + address + end);
    text_laws::law_holds_its_middle("Added default mapping for "@, address, end);
    text_laws::law_holds_its_middle("Mapping already exists for "@, address, "."@);
}

/// The diagnosis shows its six readings, the failed start, every warning and every error, each
/// kind in its own tone.
pub proof fn law_diagnostics_lines(d: DiagnosticsModel, i: int)
    ensures
        ({
            let lines = panels::diagnostics_lines(d);
            let warnings = diagnostics::warnings(d);
            let start = 6 + some(d.osc_start_failure is Some);
            &&& lines.len() == start + some(warnings.len() > 0) + warnings.len() + some(
                d.errors.len() > 0,
            ) + d.errors.len()
            &&& ends_in(lines[1], panels::known_text(d.osc_enabled))
            &&& ends_in(lines[2], panels::known_text(d.self_interact_enabled))
            &&& ends_in(lines[3], panels::known_text(d.everyone_interact_enabled))
            &&& (d.latest_log_path matches Some(path) ==> ends_in(lines[4], path))
            &&& (d.oscquery_port_from_logs matches Some(port) ==> ends_in(
                lines[5],
                text::decimal_text(port as nat),
            ))
            &&& (d.osc_start_failure matches Some(why) ==> ends_in(lines[6], why) && lines[6].tone
                == Tone::Fault)
            &&& 0 <= i < warnings.len() ==> lines[start + 1 + i] == (LineModel {
                text: warnings[i],
                tone: Tone::Warning,
            })
            &&& 0 <= i < d.errors.len() ==> lines[lines.len() - d.errors.len() + i] == (LineModel {
                text: d.errors[i],
                tone: Tone::Fault,
            })
        }),
{
    lemma_ends("VRChat OSC enabled: "@, panels::known_text(d.osc_enabled));
    lemma_ends("VRChat self interact enabled: "@, panels::known_text(d.self_interact_enabled));
    lemma_ends(
        "VRChat everyone interact enabled: "@,
        panels::known_text(d.everyone_interact_enabled),
    );
    if let Some(path) = d.latest_log_path {
        lemma_ends("Latest VRChat log: "@, path);
    }
    if let Some(port) = d.oscquery_port_from_logs {
        lemma_ends("OSCQuery port from VRChat log: "@, text::decimal_text(port as nat));
    }
    if let Some(why) = d.osc_start_failure {
        lemma_ends("OSC startup failure: "@, why);
    }
}

/// The endpoint is shown with where it answers, where it was found and where it receives.
pub proof fn law_endpoint_shown(status: oscquery::StatusModel)
    ensures
        ({
            let lines = panels::oscquery_lines(status);
            &&& (status.endpoint matches Some(e) ==> text::contains_text(
                lines[0].text,
                e.oscquery_host,
            ) && text::contains_text(lines[0].text, e.source) && ends_in(
                lines[1],
                e.osc_host + ":"@ + text::decimal_text(e.osc_port as nat),
            ))
            &&& lines.len() == 1 + some(status.endpoint is Some) + some(status.last_error is Some)
            &&& (status.last_error matches Some(why) ==> ends_in(lines.last(), why)
                && lines.last().tone == Tone::Fault)
        }),
{
    if let Some(e) = status.endpoint {
        let port = text::decimal_text(e.oscquery_port as nat);
        let end = ":"@ + port + " (source "@ + e.source + ")"@;
        let whole = "Endpoint: "@ + e.oscquery_host + ":"@ + port + " (source "@ + e.source + ")"@;
        text_laws::law_holds_its_middle("Endpoint: "@, e.oscquery_host, end);
        assert("Endpoint: "@ + e.oscquery_host + end =~= whole);
        text_laws::law_holds_its_middle(
            "Endpoint: "@ + e.oscquery_host + ":"@ + port + " (source "@,
            e.source,
            ")"@,
        );
        let target = e.osc_host + ":"@ + text::decimal_text(e.osc_port as nat);
        lemma_ends("VRChat OSC target: "@, target);
        assert("VRChat OSC target: "@ + target =~= "VRChat OSC target: "@ + e.osc_host + ":"@
            + text::decimal_text(e.osc_port as nat));
    }
    if let Some(why) = status.last_error {
        lemma_ends("Last OSCQuery error: "@, why);
    }
}

/// A search is reported with its source and its target, or with the reason why it failed.
pub proof fn law_discovery_text(e: EndpointModel, why: Option<Seq<char>>)
    ensures
        text::contains_text(panels::discovery_text(Some(e), why), e.source),
        (e.osc_host + ":"@ + text::decimal_text(e.osc_port as nat)).is_suffix_of(
            panels::discovery_text(Some(e), why),
        ),
        (why matches Some(reason) ==> reason.is_suffix_of(panels::discovery_text(None, why))),
{
    let port = text::decimal_text(e.oscquery_port as nat);
    let target = e.osc_host + ":"@ + text::decimal_text(e.osc_port as nat);
    let whole = panels::discovery_text(Some(e), why);
    let end = " at "@ + e.oscquery_host + ":"@ + port + " -> OSC "@ + target;
    text_laws::law_holds_its_middle("OSCQuery discovered via "@, e.source, end);
    assert("OSCQuery discovered via "@ + e.source + end =~= whole);
    lemma_ends(
        "OSCQuery discovered via "@ + e.source + " at "@ + e.oscquery_host + ":"@ + port + " -> OSC "@,
        target,
    );
    assert("OSCQuery discovered via "@ + e.source + " at "@ + e.oscquery_host + ":"@ + port
        + " -> OSC "@ + target =~= whole);
    if let Some(reason) = why {
        lemma_ends("OSCQuery discovery failed: "@, reason);
    }
}

/// A probe of the device server and the direct bridge are shown reading by reading.
pub proof fn law_device_lines(
    probe: ProbeModel,
    engaged: bool,
    bridge: BridgeSnapshotModel,
    level: Seq<char>,
)
    ensures
        ({
            let lines = panels::probe_lines(probe);
            &&& lines[0].text == "Connected: "@ + text::flag_text(probe.connected)
            &&& ends_in(lines[1], probe.server_name)
            &&& ends_in(lines[2], text::signed_text(probe.checked_at_ms as int))
            &&& lines.len() == 3 + some(probe.last_error is Some)
            &&& (probe.last_error matches Some(why) ==> ends_in(lines[3], why))
        }),
        ({
            let lines = panels::direct_lines(engaged, bridge, level);
            &&& ends_in(
                lines[0],
                if engaged {
                    "engaged"@
                } else {
                    "disengaged"@
                },
            )
            &&& lines[1].text == "Connected: "@ + text::flag_text(bridge.connected)
            &&& ends_in(lines[2], text::decimal_text(bridge.device_count as nat))
            &&& ends_in(lines[3], text::decimal_text(bridge.commands_sent as nat))
            &&& ends_in(lines[4], level)
            &&& ends_in(lines[5], text::signed_text(bridge.last_sent_at_ms as int))
            &&& lines.len() == 6 + some(bridge.last_error.len() > 0)
            &&& bridge.last_error.len() > 0 ==> ends_in(lines[6], bridge.last_error)
        }),
{
    lemma_ends("Server: "@, probe.server_name);
    lemma_ends("Checked at: "@, text::signed_text(probe.checked_at_ms as int));
    if let Some(why) = probe.last_error {
        lemma_ends("Last error: "@, why);
    }
    lemma_ends("Status: "@, "engaged"@);
    lemma_ends("Status: "@, "disengaged"@);
    lemma_ends("Devices: "@, text::decimal_text(bridge.device_count as nat));
    lemma_ends("Commands sent: "@, text::decimal_text(bridge.commands_sent as nat));
    lemma_ends("Last level: "@, level);
    lemma_ends("Last sent at: "@, text::signed_text(bridge.last_sent_at_ms as int));
    lemma_ends("Bridge error: "@, bridge.last_error);
}

/// Only a scalar feature can be tried, as the actuator it is; a feature is shown by its command and
/// its kind.
pub proof fn law_feature_shown(feature: FeatureModel)
    ensures
        panels::test_actuator(feature) is Some <==> feature.command_type == "ScalarCmd"@,
        feature.command_type == "ScalarCmd"@ ==> (feature.actuator_type matches Some(kind)
            ==> panels::test_actuator(feature) == Some(kind)),
        feature.command_type.is_prefix_of(panels::feature_text(feature)),
        (feature.actuator_type matches Some(kind) ==> kind.is_suffix_of(
            panels::feature_text(feature),
        )),
{
    let whole = panels::feature_text(feature);
    assert(whole.subrange(0, feature.command_type.len() as int) =~= feature.command_type);
    if let Some(kind) = feature.actuator_type {
        lemma_ends(
            feature.command_type + " #"@ + text::decimal_text(feature.index as nat) + " "@,
            kind,
        );
    }
}

/// A switch is kept as one or zero and anything but zero is read as on; a preference is known only
/// where it is written in one of its four ways.
pub proof fn law_kept_switches(value: bool, s: Seq<char>)
    ensures
        (rows::number_of(value) != 0) == value,
        rows::kept_preference(None) is None,
        s != "1"@ && s != "true"@ && s != "0"@ && s != "false"@ ==> rows::kept_preference(Some(s))
            is None,
        rows::kept_preference(Some("true"@)) == Some(true),
        rows::kept_preference(Some("false"@)) == Some(false),
{
    reveal_strlit("1");
    reveal_strlit("true");
    reveal_strlit("false");
    assert("false"@.len() == 5);
    assert("true"@.len() == 4);
    assert("1"@.len() == 1);
}

/// Senders that are kept are read one after the other, each as its address is written, and what is
/// no address is passed over.
pub proof fn law_kept_senders(items: Seq<Seq<char>>, item: Seq<char>)
    ensures
        rows::canonical_senders(Seq::empty()).len() == 0,
        text::trimmed(item).len() > 0 ==> (ip::ip_address(text::trimmed(item)) matches Some(address)
            ==> rows::canonical_senders(items.push(item)) == rows::canonical_senders(items).push(
            ip_text::ip_text(address),
        )),
        ip::ip_address(text::trimmed(item)) is None ==> rows::canonical_senders(items.push(item))
            == rows::canonical_senders(items),
{
    assert(items.push(item).drop_last() =~= items);
}

} // verus!
