//! What the game's own files say of its OSC support.
use vstd::prelude::*;
use vstd::slice::*;
use vstd::string::*;
use crate::model;
use crate::model::Duplicate;
use crate::text;

verus! {

/// How much of the end of a log is read, in bytes.
pub const LOG_TAIL_BYTES: u64 = 2_097_152;

/// What was found out about the game.
#[derive(Debug, PartialEq, Eq)]
pub struct VrchatDiagnostics {
    pub checked_at_ms: i64,
    pub osc_enabled: Option<bool>,
    pub self_interact_enabled: Option<bool>,
    pub everyone_interact_enabled: Option<bool>,
    pub latest_log_path: Option<String>,
    pub osc_start_failure: Option<String>,
    pub oscquery_port_from_logs: Option<u16>,
    pub osc_launch_arg: Option<String>,
    pub osc_input_port: Option<u16>,
    pub osc_output_host: Option<String>,
    pub osc_output_port: Option<u16>,
    pub errors: Vec<String>,
}

/// The model of `VrchatDiagnostics`.
#[verifier::ext_equal]
pub struct DiagnosticsModel {
    pub checked_at_ms: i64,
    pub osc_enabled: Option<bool>,
    pub self_interact_enabled: Option<bool>,
    pub everyone_interact_enabled: Option<bool>,
    pub latest_log_path: Option<Seq<char>>,
    pub osc_start_failure: Option<Seq<char>>,
    pub oscquery_port_from_logs: Option<u16>,
    pub osc_launch_arg: Option<Seq<char>>,
    pub osc_input_port: Option<u16>,
    pub osc_output_host: Option<Seq<char>>,
    pub osc_output_port: Option<u16>,
    pub errors: Seq<Seq<char>>,
}

impl View for VrchatDiagnostics {
    type V = DiagnosticsModel;

    open spec fn view(&self) -> DiagnosticsModel {
        DiagnosticsModel {
            checked_at_ms: self.checked_at_ms,
            osc_enabled: self.osc_enabled,
            self_interact_enabled: self.self_interact_enabled,
            everyone_interact_enabled: self.everyone_interact_enabled,
            latest_log_path: model::opt_text(self.latest_log_path),
            osc_start_failure: model::opt_text(self.osc_start_failure),
            oscquery_port_from_logs: self.oscquery_port_from_logs,
            osc_launch_arg: model::opt_text(self.osc_launch_arg),
            osc_input_port: self.osc_input_port,
            osc_output_host: model::opt_text(self.osc_output_host),
            osc_output_port: self.osc_output_port,
            errors: text::texts(self.errors@),
        }
    }
}

impl Duplicate for VrchatDiagnostics {
    fn duplicate(&self) -> (r: Self) {
        VrchatDiagnostics {
            checked_at_ms: self.checked_at_ms,
            osc_enabled: self.osc_enabled,
            self_interact_enabled: self.self_interact_enabled,
            everyone_interact_enabled: self.everyone_interact_enabled,
            latest_log_path: model::copy_opt_text(&self.latest_log_path),
            osc_start_failure: model::copy_opt_text(&self.osc_start_failure),
            oscquery_port_from_logs: self.oscquery_port_from_logs,
            osc_launch_arg: model::copy_opt_text(&self.osc_launch_arg),
            osc_input_port: self.osc_input_port,
            osc_output_host: model::copy_opt_text(&self.osc_output_host),
            osc_output_port: self.osc_output_port,
            errors: text::copy_texts(&self.errors),
        }
    }
}

/// What a log says.
#[derive(Debug, PartialEq, Eq)]
pub struct VrchatLogScan {
    pub osc_start_failure: Option<String>,
    pub oscquery_port: Option<u16>,
    pub osc_launch_arg: Option<String>,
    pub osc_input_port: Option<u16>,
    pub osc_output_host: Option<String>,
    pub osc_output_port: Option<u16>,
}

/// The model of `VrchatLogScan`.
#[verifier::ext_equal]
pub struct ScanModel {
    pub osc_start_failure: Option<Seq<char>>,
    pub oscquery_port: Option<u16>,
    pub osc_launch_arg: Option<Seq<char>>,
    pub osc_input_port: Option<u16>,
    pub osc_output_host: Option<Seq<char>>,
    pub osc_output_port: Option<u16>,
}

impl View for VrchatLogScan {
    type V = ScanModel;

    open spec fn view(&self) -> ScanModel {
        ScanModel {
            osc_start_failure: model::opt_text(self.osc_start_failure),
            oscquery_port: self.oscquery_port,
            osc_launch_arg: model::opt_text(self.osc_launch_arg),
            osc_input_port: self.osc_input_port,
            osc_output_host: model::opt_text(self.osc_output_host),
            osc_output_port: self.osc_output_port,
        }
    }
}

impl Duplicate for VrchatLogScan {
    fn duplicate(&self) -> (r: Self) {
        VrchatLogScan {
            osc_start_failure: model::copy_opt_text(&self.osc_start_failure),
            oscquery_port: self.oscquery_port,
            osc_launch_arg: model::copy_opt_text(&self.osc_launch_arg),
            osc_input_port: self.osc_input_port,
            osc_output_host: model::copy_opt_text(&self.osc_output_host),
            osc_output_port: self.osc_output_port,
        }
    }
}

/// A launch argument that sets the OSC ports.
#[derive(Debug, PartialEq, Eq)]
pub struct OscLaunchConfig {
    pub raw: String,
    pub input_port: u16,
    pub output_host: String,
    pub output_port: u16,
}

/// The model of `OscLaunchConfig`.
#[verifier::ext_equal]
pub struct LaunchModel {
    pub raw: Seq<char>,
    pub input_port: u16,
    pub output_host: Seq<char>,
    pub output_port: u16,
}

impl View for OscLaunchConfig {
    type V = LaunchModel;

    open spec fn view(&self) -> LaunchModel {
        LaunchModel {
            raw: self.raw@,
            input_port: self.input_port,
            output_host: self.output_host@,
            output_port: self.output_port,
        }
    }
}

impl Duplicate for OscLaunchConfig {
    fn duplicate(&self) -> (r: Self) {
        OscLaunchConfig {
            raw: self.raw.clone(),
            input_port: self.input_port,
            output_host: self.output_host.clone(),
            output_port: self.output_port,
        }
    }
}

/// A list with one text more where the condition holds.
pub open spec fn with_line(lines: Seq<Seq<char>>, holds: bool, line: Seq<char>) -> Seq<Seq<char>> {
    if holds {
        lines.push(line)
    } else {
        lines
    }
}

/// The warnings that follow from a diagnosis.
pub open spec fn warnings(d: DiagnosticsModel) -> Seq<Seq<char>> {
    let none = Seq::<Seq<char>>::empty();
    let osc = with_line(
        none,
        d.osc_enabled == Some(false),
        "VRChat OSC appears disabled. Enable Options > OSC > Enabled in VRChat."@,
    );
    let self_interact = with_line(
        osc,
        d.self_interact_enabled == Some(false),
        "VRChat Self Interact appears disabled. Enable Settings > Avatar Interactions > Self Interact."@,
    );
    let everyone = with_line(
        self_interact,
        d.everyone_interact_enabled == Some(false),
        "VRChat interaction level is not Everyone. Set Avatar Interactions to Everyone."@,
    );
    match d.osc_start_failure {
        Some(failure) => everyone.push("VRChat log reports OSC startup failure: "@ + failure),
        None => everyone,
    }
}

fn push_text(lines: &mut Vec<String>, line: String)
    ensures
        text::texts(final(lines)@) == text::texts(old(lines)@).push(line@),
{
    proof {
        text::lemma_texts_push(lines@, line);
    }
    lines.push(line);
}

impl VrchatDiagnostics {
    /// The warnings that follow from the diagnosis.
    pub fn warning_lines(&self) -> (r: Vec<String>)
        ensures
            text::texts(r@) == warnings(self@),
    {
        let mut lines: Vec<String> = Vec::new();
        assert(text::texts(lines@) =~= Seq::empty());
        if let Some(false) = self.osc_enabled {
            push_text(
                &mut lines,
                "VRChat OSC appears disabled. Enable Options > OSC > Enabled in VRChat.".to_owned(),
            );
        }
        if let Some(false) = self.self_interact_enabled {
            push_text(
                &mut lines,
                "VRChat Self Interact appears disabled. Enable Settings > Avatar Interactions > Self Interact.".to_owned(),
            );
        }
        if let Some(false) = self.everyone_interact_enabled {
            push_text(
                &mut lines,
                "VRChat interaction level is not Everyone. Set Avatar Interactions to Everyone.".to_owned(),
            );
        }
        if let Some(failure) = &self.osc_start_failure {
            push_text(
                &mut lines,
                text::concat2("VRChat log reports OSC startup failure: ", failure.as_str()),
            );
        }
        lines
    }
}

/// The launch argument in a log line: what follows `--osc=`, without quotes, as an input port, a
/// host and an output port between colons. The host may hold colons itself.
pub open spec fn launch_config(line: Seq<char>) -> Option<LaunchModel> {
    match text::find_text(line, "--osc="@) {
        None => None,
        Some(i) => {
            let word = text::first_word(line.skip(i + "--osc="@.len()));
            let token = text::trimmed(text::strip_char(text::strip_char(word, '"'), '\''));
            let parts = text::pieces(token, seq![':']);
            let host = text::trimmed(
                text::joined(parts.subrange(1, parts.len() - 1), ":"@),
            );
            if token.len() == 0 || parts.len() < 3 {
                None
            } else {
                match (
                    text::unsigned_value(parts[0], 65535),
                    text::unsigned_value(parts.last(), 65535),
                ) {
                    (Some(input), Some(output)) => if host.len() == 0 {
                        None
                    } else {
                        Some(
                            LaunchModel {
                                raw: token,
                                input_port: input as u16,
                                output_host: host,
                                output_port: output as u16,
                            },
                        )
                    },
                    _ => None,
                }
            }
        },
    }
}

/// Reads the launch argument in a log line.
pub fn extract_osc_launch_config_from_log_line(line: &str) -> (r: Option<OscLaunchConfig>)
    ensures
        model::opt_view(r) == launch_config(line@),
{
    let needle = "--osc=";
    let at: usize = match text::find(line, needle) {
        Some(i) => i,
        None => {
            return None;
        },
    };
    let len: usize = needle.unicode_len();
    let total: usize = line.unicode_len();
    assert(at + len <= total);
    let word = text::word(text::skip_chars(line, at + len));
    let token = text::trim(text::trim_char(text::trim_char(word, '"'), '\''));
    if token.unicode_len() == 0 {
        return None;
    }
    let separators = vec![':'];
    assert(separators@ =~= seq![':']);
    let parts = text::split(token, &separators);
    let ghost views = text::pieces(token@, seq![':']);
    assert(text::texts(parts@) == views);
    let count: usize = parts.len();
    if count < 3 {
        return None;
    }
    assert(views[0] == parts@[0]@ && views.last() == parts@[count - 1]@);
    let input: u64 = match text::parse_unsigned(parts[0].as_str(), 65535) {
        Some(n) => n,
        None => {
            return None;
        },
    };
    let output: u64 = match text::parse_unsigned(parts[count - 1].as_str(), 65535) {
        Some(n) => n,
        None => {
            return None;
        },
    };
    let mut middle: Vec<String> = Vec::new();
    let mut i: usize = 1;
    let ghost inner = views.subrange(1, views.len() - 1);
    assert(text::texts(middle@) =~= inner.take(0));
    while i < count - 1
        invariant
            1 <= i <= count - 1,
            count == parts@.len(),
            text::texts(parts@) == views,
            inner == views.subrange(1, views.len() - 1),
            text::texts(middle@) == inner.take(i - 1),
        decreases count - i,
    {
        let part = parts[i].clone();
        assert(inner[i - 1] == part@);
        push_text(&mut middle, part);
        i += 1;
        assert(text::texts(middle@) =~= inner.take(i - 1));
    }
    assert(inner.take(i - 1) =~= inner);
    let joined = text::join(&middle, ":");
    let host = text::trim(joined.as_str());
    if host.unicode_len() == 0 {
        return None;
    }
    Some(
        OscLaunchConfig {
            raw: token.to_owned(),
            input_port: input as u16,
            output_host: host.to_owned(),
            output_port: output as u16,
        },
    )
}

/// The digits that a text starts with.
pub open spec fn leading_digits(s: Seq<char>) -> Seq<char>
    decreases s.len(),
{
    if s.len() == 0 || !text::is_digit(s[0]) {
        Seq::empty()
    } else {
        seq![s[0]] + leading_digits(s.drop_first())
    }
}

proof fn lemma_leading_digits(s: Seq<char>, n: int)
    requires
        0 <= n <= s.len(),
        forall|j: int| 0 <= j < n ==> text::is_digit(#[trigger] s[j]),
        n == s.len() || !text::is_digit(s[n]),
    ensures
        leading_digits(s) == s.take(n),
    decreases n,
{
    if n > 0 {
        lemma_leading_digits(s.drop_first(), n - 1);
        assert(seq![s[0]] + s.drop_first().take(n - 1) =~= s.take(n));
    } else {
        assert(s.take(0) =~= Seq::<char>::empty());
    }
}

/// The OSCQuery port in a log line, from 1 to 65535.
pub open spec fn oscquery_port(line: Seq<char>) -> Option<nat> {
    match text::find_text(line, "of type OSCQuery on "@) {
        None => None,
        Some(i) => {
            let digits = leading_digits(line.skip(i + "of type OSCQuery on "@.len()));
            match text::unsigned_value(digits, 65535) {
                Some(port) => if port == 0 {
                    None
                } else {
                    Some(port)
                },
                None => None,
            }
        },
    }
}

/// Reads the OSCQuery port in a log line.
pub fn extract_oscquery_port_from_log_line(line: &str) -> (r: Option<u16>)
    ensures
        match r {
            Some(port) => oscquery_port(line@) == Some(port as nat),
            None => oscquery_port(line@) is None,
        },
{
    let needle = "of type OSCQuery on ";
    let at: usize = match text::find(line, needle) {
        Some(i) => i,
        None => {
            return None;
        },
    };
    let len: usize = needle.unicode_len();
    let total: usize = line.unicode_len();
    assert(at + len <= total);
    let rest = text::skip_chars(line, at + len);
    let chars = text::chars_of(rest);
    let mut n: usize = 0;
    while n < chars.len() && '0' <= chars[n] && chars[n] <= '9'
        invariant
            n <= chars@.len(),
            chars@ == rest@,
            forall|j: int| 0 <= j < n ==> text::is_digit(#[trigger] rest@[j]),
        decreases chars@.len() - n,
    {
        n += 1;
    }
    proof {
        lemma_leading_digits(rest@, n as int);
    }
    match text::parse_unsigned(text::take_chars(rest, n), 65535) {
        Some(port) => {
            if port == 0 {
                None
            } else {
                Some(port as u16)
            }
        },
        None => None,
    }
}

/// What a log says once one more line was read.
pub open spec fn scan_line(scan: ScanModel, line: Seq<char>) -> ScanModel {
    let launch = launch_config(line);
    ScanModel {
        osc_start_failure: if text::contains_text(line, "Could not Start OSC"@) {
            Some(text::trimmed(line))
        } else {
            scan.osc_start_failure
        },
        oscquery_port: match oscquery_port(line) {
            Some(port) => Some(port as u16),
            None => scan.oscquery_port,
        },
        osc_launch_arg: match launch {
            Some(config) => Some(config.raw),
            None => scan.osc_launch_arg,
        },
        osc_input_port: match launch {
            Some(config) => Some(config.input_port),
            None => scan.osc_input_port,
        },
        osc_output_host: match launch {
            Some(config) => Some(config.output_host),
            None => scan.osc_output_host,
        },
        osc_output_port: match launch {
            Some(config) => Some(config.output_port),
            None => scan.osc_output_port,
        },
    }
}

/// What no line says.
pub open spec fn blank_scan() -> ScanModel {
    ScanModel {
        osc_start_failure: None,
        oscquery_port: None,
        osc_launch_arg: None,
        osc_input_port: None,
        osc_output_host: None,
        osc_output_port: None,
    }
}

impl Default for VrchatLogScan {
    fn default() -> (r: Self)
        ensures
            r@ == blank_scan(),
    {
        VrchatLogScan {
            osc_start_failure: None,
            oscquery_port: None,
            osc_launch_arg: None,
            osc_input_port: None,
            osc_output_host: None,
            osc_output_port: None,
        }
    }
}

/// What the lines of a log say: of each kind the last one counts.
pub open spec fn scan_lines(lines: Seq<Seq<char>>) -> ScanModel
    decreases lines.len(),
{
    if lines.len() == 0 {
        blank_scan()
    } else {
        scan_line(scan_lines(lines.drop_last()), lines.last())
    }
}

/// Reads the text of a log.
pub fn scan_log_text(log: &str) -> (r: VrchatLogScan)
    ensures
        r@ == scan_lines(text::text_lines(log@)),
{
    let lines = text::lines(log);
    let ghost all = text::texts(lines@);
    let mut scan = VrchatLogScan {
        osc_start_failure: None,
        oscquery_port: None,
        osc_launch_arg: None,
        osc_input_port: None,
        osc_output_host: None,
        osc_output_port: None,
    };
    let mut i: usize = 0;
    assert(all.take(0) =~= Seq::empty());
    while i < lines.len()
        invariant
            i <= lines@.len(),
            all == text::texts(lines@),
            scan@ == scan_lines(all.take(i as int)),
        decreases lines@.len() - i,
    {
        assert(all.take(i + 1).drop_last() =~= all.take(i as int));
        assert(all.take(i + 1).last() == lines@[i as int]@);
        let line = lines[i].as_str();
        if text::contains(line, "Could not Start OSC") {
            scan.osc_start_failure = Some(text::trim(line).to_owned());
        }
        if let Some(port) = extract_oscquery_port_from_log_line(line) {
            scan.oscquery_port = Some(port);
        }
        if let Some(config) = extract_osc_launch_config_from_log_line(line) {
            scan.osc_launch_arg = Some(config.raw);
            scan.osc_input_port = Some(config.input_port);
            scan.osc_output_host = Some(config.output_host);
            scan.osc_output_port = Some(config.output_port);
        }
        i += 1;
    }
    assert(all.take(i as int) =~= all);
    scan
}

/// The place behind the first line feed at or behind `from`, or nothing where there is none.
pub open spec fn line_start(bytes: Seq<u8>, from: int) -> Option<int>
    decreases bytes.len() - from,
{
    if from >= bytes.len() {
        None
    } else if bytes[from] == 10 {
        Some(from + 1)
    } else {
        line_start(bytes, from + 1)
    }
}

/// The part of a log's end that is read: from the first whole line on where the log was cut.
pub open spec fn whole_lines(bytes: Seq<u8>, cut: bool) -> Seq<u8> {
    match line_start(bytes, 0) {
        Some(start) => if cut {
            bytes.skip(start)
        } else {
            bytes
        },
        None => bytes,
    }
}

/// Reads the end of a log. `cut` tells that the log goes on before it.
pub fn scan_vrchat_log(bytes: &[u8], cut: bool) -> (r: VrchatLogScan)
    ensures
        r@ == scan_lines(text::text_lines(text::bytes_text(whole_lines(bytes@, cut)))),
{
    let len: usize = bytes.len();
    let mut at: usize = 0;
    while at < len && bytes[at] != 10
        invariant
            at <= len,
            len == bytes@.len(),
            line_start(bytes@, 0) == line_start(bytes@, at as int),
        decreases len - at,
    {
        at += 1;
    }
    let start: usize = if cut && at < len {
        at + 1
    } else {
        0
    };
    assert(bytes@.subrange(start as int, len as int) =~= whole_lines(bytes@, cut));
    let log = text::decode_lossy(slice_subrange(bytes, start, len));
    scan_log_text(log.as_str())
}

/// Where reading a log of the given length starts.
pub fn log_tail_start(file_len: u64) -> (r: u64)
    ensures
        r == (if file_len > LOG_TAIL_BYTES {
            file_len - LOG_TAIL_BYTES
        } else {
            0
        }),
{
    if file_len > LOG_TAIL_BYTES {
        file_len - LOG_TAIL_BYTES
    } else {
        0
    }
}

/// A file in the log directory, with a number that orders the times of change.
#[derive(Debug, PartialEq, Eq)]
pub struct LogFile {
    pub name: String,
    pub modified: u128,
}

/// The file is a log and no file before it in the list is one that changed as late.
pub open spec fn is_latest(files: Seq<LogFile>, i: int) -> bool {
    &&& 0 <= i < files.len()
    &&& "output_log"@.is_prefix_of(files[i].name@)
    &&& forall|j: int|
        0 <= j < files.len() && "output_log"@.is_prefix_of((#[trigger] files[j]).name@)
            ==> files[j].modified < files[i].modified || files[j].modified == files[i].modified && i
            <= j
}

/// The log that changed last, the first of the list where several did.
pub fn find_latest_vrchat_log(files: &Vec<LogFile>) -> (r: Option<usize>)
    ensures
        match r {
            Some(i) => is_latest(files@, i as int),
            None => forall|j: int|
                0 <= j < files@.len() ==> !"output_log"@.is_prefix_of((#[trigger] files@[j]).name@),
        },
{
    let mut newest: Option<usize> = None;
    let mut i: usize = 0;
    while i < files.len()
        invariant
            i <= files@.len(),
            match newest {
                Some(n) => n < i && "output_log"@.is_prefix_of(files@[n as int].name@)
                    && forall|j: int|
                    0 <= j < i && "output_log"@.is_prefix_of((#[trigger] files@[j]).name@)
                        ==> files@[j].modified < files@[n as int].modified || files@[j].modified
                        == files@[n as int].modified && n <= j,
                None => forall|j: int|
                    0 <= j < i ==> !"output_log"@.is_prefix_of((#[trigger] files@[j]).name@),
            },
        decreases files@.len() - i,
    {
        if text::starts_with(files[i].name.as_str(), "output_log") {
            newest = match newest {
                Some(n) => {
                    if files[i].modified <= files[n].modified {
                        Some(n)
                    } else {
                        Some(i)
                    }
                },
                None => Some(i),
            };
        }
        i += 1;
    }
    newest
}

/// A registry value is the wanted one: the names are the same but for case, or it is followed by
/// `_h` and anything.
pub open spec fn registry_name(name: Seq<char>, target: Seq<char>) -> bool {
    ||| text::lower_text(name) == text::lower_text(target)
    ||| (text::lower_text(target) + "_h"@).is_prefix_of(text::lower_text(name))
}

/// Whether a registry value is the wanted one.
pub fn registry_name_matches(name: &str, target: &str) -> (r: bool)
    ensures
        r == registry_name(name@, target@),
{
    let name_lower = text::lowercase(name);
    let target_lower = text::lowercase(target);
    let hashed = text::concat2(target_lower.as_str(), "_h");
    text::same_text(name_lower.as_str(), target_lower.as_str()) || text::starts_with(
        name_lower.as_str(),
        hashed.as_str(),
    )
}

/// A number of the registry, as whether it is the expected one.
pub fn registry_flag(value: Option<u32>, expected: u32) -> (r: Option<bool>)
    ensures
        r == (match value {
            Some(n) => Some(n == expected),
            None => None,
        }),
{
    match value {
        Some(n) => Some(n == expected),
        None => None,
    }
}

/// What became of the search for a log.
#[derive(Debug, PartialEq, Eq)]
pub enum LogOutcome {
    NoDirectory,
    Scanned { path: String, scan: VrchatLogScan },
    ScanFailed { path: String, error: String },
    NoLog { directory: String },
    ListFailed { directory: String, error: String },
}

/// What is known of the switches in the game's settings.
#[derive(Debug, Clone, Copy, PartialEq, Eq, Structural)]
pub struct RegistryFlags {
    pub osc_enabled: Option<bool>,
    pub self_interact_enabled: Option<bool>,
    pub everyone_interact_enabled: Option<bool>,
}

/// A diagnosis that knows nothing yet.
pub open spec fn blank_diagnosis(now_ms: i64) -> DiagnosticsModel {
    DiagnosticsModel {
        checked_at_ms: now_ms,
        osc_enabled: None,
        self_interact_enabled: None,
        everyone_interact_enabled: None,
        latest_log_path: None,
        osc_start_failure: None,
        oscquery_port_from_logs: None,
        osc_launch_arg: None,
        osc_input_port: None,
        osc_output_host: None,
        osc_output_port: None,
        errors: Seq::empty(),
    }
}

impl Default for VrchatDiagnostics {
    fn default() -> (r: Self)
        ensures
            r@ == blank_diagnosis(0),
    {
        let r = VrchatDiagnostics {
            checked_at_ms: 0,
            osc_enabled: None,
            self_interact_enabled: None,
            everyone_interact_enabled: None,
            latest_log_path: None,
            osc_start_failure: None,
            oscquery_port_from_logs: None,
            osc_launch_arg: None,
            osc_input_port: None,
            osc_output_host: None,
            osc_output_port: None,
            errors: Vec::new(),
        };
        assert(r@.errors =~= Seq::empty());
        r
    }
}

/// The diagnosis after the settings were read.
pub open spec fn with_registry(
    d: DiagnosticsModel,
    registry: Result<RegistryFlags, String>,
) -> DiagnosticsModel {
    match registry {
        Ok(flags) => DiagnosticsModel {
            osc_enabled: flags.osc_enabled,
            self_interact_enabled: flags.self_interact_enabled,
            everyone_interact_enabled: flags.everyone_interact_enabled,
            ..d
        },
        Err(error) => DiagnosticsModel {
            errors: d.errors.push("Registry check failed: "@ + error@),
            ..d
        },
    }
}

/// The diagnosis after the search for a log.
pub open spec fn with_log(d: DiagnosticsModel, log: LogOutcome) -> DiagnosticsModel {
    match log {
        LogOutcome::NoDirectory => DiagnosticsModel {
            errors: d.errors.push("Could not resolve VRChat log directory"@),
            ..d
        },
        LogOutcome::Scanned { path, scan } => DiagnosticsModel {
            latest_log_path: Some(path@),
            osc_start_failure: scan@.osc_start_failure,
            oscquery_port_from_logs: scan@.oscquery_port,
            osc_launch_arg: scan@.osc_launch_arg,
            osc_input_port: scan@.osc_input_port,
            osc_output_host: scan@.osc_output_host,
            osc_output_port: scan@.osc_output_port,
            ..d
        },
        LogOutcome::ScanFailed { path, error } => DiagnosticsModel {
            latest_log_path: Some(path@),
            errors: d.errors.push("Failed scanning VRChat log: "@ + error@),
            ..d
        },
        LogOutcome::NoLog { directory } => DiagnosticsModel {
            errors: d.errors.push("No output_log file found in "@ + directory@),
            ..d
        },
        LogOutcome::ListFailed { directory, error } => DiagnosticsModel {
            errors: d.errors.push(
                "Failed to enumerate VRChat logs in "@ + directory@ + ": "@ + error@,
            ),
            ..d
        },
    }
}

/// Puts a diagnosis together.
pub fn collect_vrchat_diagnostics(
    now_ms: i64,
    registry: Result<RegistryFlags, String>,
    log: LogOutcome,
) -> (r: VrchatDiagnostics)
    ensures
        r@ == with_log(with_registry(blank_diagnosis(now_ms), registry), log),
{
    let mut out = VrchatDiagnostics {
        checked_at_ms: now_ms,
        osc_enabled: None,
        self_interact_enabled: None,
        everyone_interact_enabled: None,
        latest_log_path: None,
        osc_start_failure: None,
        oscquery_port_from_logs: None,
        osc_launch_arg: None,
        osc_input_port: None,
        osc_output_host: None,
        osc_output_port: None,
        errors: Vec::new(),
    };
    assert(out@.errors =~= Seq::empty());
    match registry {
        Ok(flags) => {
            out.osc_enabled = flags.osc_enabled;
            out.self_interact_enabled = flags.self_interact_enabled;
            out.everyone_interact_enabled = flags.everyone_interact_enabled;
        },
        Err(error) => {
            push_text(
                &mut out.errors,
                text::concat2("Registry check failed: ", error.as_str()),
            );
        },
    }
    match log {
        LogOutcome::NoDirectory => {
            push_text(&mut out.errors, "Could not resolve VRChat log directory".to_owned());
        },
        LogOutcome::Scanned { path, scan } => {
            out.latest_log_path = Some(path);
            out.osc_start_failure = scan.osc_start_failure;
            out.oscquery_port_from_logs = scan.oscquery_port;
            out.osc_launch_arg = scan.osc_launch_arg;
            out.osc_input_port = scan.osc_input_port;
            out.osc_output_host = scan.osc_output_host;
            out.osc_output_port = scan.osc_output_port;
        },
        LogOutcome::ScanFailed { path, error } => {
            out.latest_log_path = Some(path);
            push_text(
                &mut out.errors,
                text::concat2("Failed scanning VRChat log: ", error.as_str()),
            );
        },
        LogOutcome::NoLog { directory } => {
            push_text(
                &mut out.errors,
                text::concat2("No output_log file found in ", directory.as_str()),
            );
        },
        LogOutcome::ListFailed { directory, error } => {
            let mut message = text::concat3(
                "Failed to enumerate VRChat logs in ",
                directory.as_str(),
                ": ",
            );
            message.append(error.as_str());
            push_text(&mut out.errors, message);
        },
    }
    out
}

/// What a log says, where its later part goes on after its earlier one: of each kind the later
/// part counts, if it speaks of it.
pub open spec fn scan_continued(earlier: ScanModel, later: ScanModel) -> ScanModel {
    ScanModel {
        osc_start_failure: if later.osc_start_failure is Some {
            later.osc_start_failure
        } else {
            earlier.osc_start_failure
        },
        oscquery_port: if later.oscquery_port is Some {
            later.oscquery_port
        } else {
            earlier.oscquery_port
        },
        osc_launch_arg: if later.osc_launch_arg is Some {
            later.osc_launch_arg
        } else {
            earlier.osc_launch_arg
        },
        osc_input_port: if later.osc_input_port is Some {
            later.osc_input_port
        } else {
            earlier.osc_input_port
        },
        osc_output_host: if later.osc_output_host is Some {
            later.osc_output_host
        } else {
            earlier.osc_output_host
        },
        osc_output_port: if later.osc_output_port is Some {
            later.osc_output_port
        } else {
            earlier.osc_output_port
        },
    }
}

/// Where a log is parted between two lines, its later part wins, kind by kind.
pub proof fn law_later_lines_win(earlier: Seq<Seq<char>>, later: Seq<Seq<char>>)
    ensures
        scan_lines(earlier + later) == scan_continued(scan_lines(earlier), scan_lines(later)),
    decreases later.len(),
{
    if later.len() == 0 {
        assert(earlier + later =~= earlier);
    } else {
        law_later_lines_win(earlier, later.drop_last());
        assert((earlier + later).drop_last() =~= earlier + later.drop_last());
        assert((earlier + later).last() == later.last());
    }
}

/// Where the text of a log is parted behind a line feed, its later part wins, kind by kind.
pub proof fn law_later_text_wins(earlier: Seq<char>, later: Seq<char>)
    requires
        earlier.len() > 0,
        earlier.last() == '\n',
    ensures
        scan_lines(text::text_lines(earlier + later)) == scan_continued(
            scan_lines(text::text_lines(earlier)),
            scan_lines(text::text_lines(later)),
        ),
{
    text::law_lines_parted(earlier, later);
    law_later_lines_win(text::text_lines(earlier), text::text_lines(later));
}

/// The line is the last one with the settings of a launch.
pub open spec fn last_launch(lines: Seq<Seq<char>>, i: int) -> bool {
    &&& 0 <= i < lines.len()
    &&& launch_config(lines[i]) is Some
    &&& forall|j: int| i < j < lines.len() ==> launch_config(#[trigger] lines[j]) is None
}

/// The settings of a launch come together: all four are those of the last line that has them, or
/// no line has them and none is known.
pub proof fn law_launch_settings_together(lines: Seq<Seq<char>>)
    ensures
        ({
            let scan = scan_lines(lines);
            ||| exists|i: int| #[trigger]
                last_launch(lines, i) && {
                    let config = launch_config(lines[i])->0;
                    &&& scan.osc_launch_arg == Some(config.raw)
                    &&& scan.osc_input_port == Some(config.input_port)
                    &&& scan.osc_output_host == Some(config.output_host)
                    &&& scan.osc_output_port == Some(config.output_port)
                }
            ||| (forall|i: int| 0 <= i < lines.len() ==> launch_config(#[trigger] lines[i]) is None)
                && scan.osc_launch_arg is None && scan.osc_input_port is None
                && scan.osc_output_host is None && scan.osc_output_port is None
        }),
    decreases lines.len(),
{
    if lines.len() > 0 {
        let shorter = lines.drop_last();
        law_launch_settings_together(shorter);
        let n = lines.len() - 1;
        if launch_config(lines.last()) is Some {
            assert(last_launch(lines, n));
        } else {
            if exists|i: int| #[trigger] last_launch(shorter, i) {
                let i = choose|i: int| #[trigger] last_launch(shorter, i);
                assert(shorter[i] == lines[i]);
                assert forall|j: int| i < j < lines.len() implies launch_config(
                    #[trigger] lines[j],
                ) is None by {
                    if j < n {
                        assert(shorter[j] == lines[j]);
                    }
                }
                assert(last_launch(lines, i));
            } else {
                assert forall|i: int| 0 <= i < lines.len() implies launch_config(
                    #[trigger] lines[i],
                ) is None by {
                    if i < n {
                        assert(shorter[i] == lines[i]);
                    }
                }
            }
        }
    }
}

} // verus!
