//! What the desktop window decides: when the bridge runs, which profile is shown, what the tray says.
use vstd::prelude::*;
use vstd::string::*;
use crate::forms::{FormModel, ProfileForm};
use crate::json;
use crate::json::{Json, JsonValue};
use crate::mapping::Curve;
use crate::model;
use crate::model::Duplicate;
use crate::store::{LoadedProfile, ProfileSummary, SummaryModel};
use crate::text;

verus! {

/// The pages of the window.
#[derive(Debug, Clone, Copy, PartialEq, Eq, Structural)]
pub enum DesktopTab {
    Login,
    Setup,
    Home,
    Logs,
    AvatarDebugger,
    Settings,
    Diagnostics,
    Intiface,
}

/// The name of a page.
pub open spec fn tab_label(tab: DesktopTab) -> Seq<char> {
    match tab {
        DesktopTab::Login => "Login"@,
        DesktopTab::Setup => "Setup Wizard"@,
        DesktopTab::Home => "Home"@,
        DesktopTab::Logs => "Logs"@,
        DesktopTab::AvatarDebugger => "Parameters"@,
        DesktopTab::Settings => "Settings"@,
        DesktopTab::Diagnostics => "Diagnostics"@,
        DesktopTab::Intiface => "Intiface"@,
    }
}

impl DesktopTab {
    /// The name of the page.
    pub fn label(self) -> (r: &'static str)
        ensures
            r@ == tab_label(self),
    {
        match self {
            DesktopTab::Login => "Login",
            DesktopTab::Setup => "Setup Wizard",
            DesktopTab::Home => "Home",
            DesktopTab::Logs => "Logs",
            DesktopTab::AvatarDebugger => "Parameters",
            DesktopTab::Settings => "Settings",
            DesktopTab::Diagnostics => "Diagnostics",
            DesktopTab::Intiface => "Intiface",
        }
    }

    /// The pages, in the order in which they are offered.
    pub fn all() -> (r: Vec<DesktopTab>)
        ensures
            r@ == seq![
                DesktopTab::Login,
                DesktopTab::Setup,
                DesktopTab::Home,
                DesktopTab::Logs,
                DesktopTab::AvatarDebugger,
                DesktopTab::Settings,
                DesktopTab::Diagnostics,
                DesktopTab::Intiface,
            ],
    {
        let tabs = vec![
            DesktopTab::Login,
            DesktopTab::Setup,
            DesktopTab::Home,
            DesktopTab::Logs,
            DesktopTab::AvatarDebugger,
            DesktopTab::Settings,
            DesktopTab::Diagnostics,
            DesktopTab::Intiface,
        ];
        assert(tabs@ =~= seq![
            DesktopTab::Login,
            DesktopTab::Setup,
            DesktopTab::Home,
            DesktopTab::Logs,
            DesktopTab::AvatarDebugger,
            DesktopTab::Settings,
            DesktopTab::Diagnostics,
            DesktopTab::Intiface,
        ]);
        tabs
    }

    /// The page to show: whoever has signed in does not see the login page.
    pub fn shown(self, signed_in: bool) -> (r: DesktopTab)
        ensures
            r == (if signed_in && self == DesktopTab::Login {
                DesktopTab::Home
            } else {
                self
            }),
    {
        if signed_in && self == DesktopTab::Login {
            DesktopTab::Home
        } else {
            self
        }
    }
}

/// What is shown of a value that may not be known.
pub fn option_bool_text(value: Option<bool>) -> (r: &'static str)
    ensures
        r@ == (match value {
            Some(true) => "true"@,
            Some(false) => "false"@,
            None => "unknown"@,
        }),
{
    match value {
        Some(flag) => if flag {
            "true"
        } else {
            "false"
        },
        None => "unknown",
    }
}

/// The curves, in the order in which they are offered.
pub fn available_curves() -> (r: Vec<Curve>)
    ensures
        r@ == seq![
            Curve::Linear,
            Curve::EaseOutQuad,
            Curve::EaseInQuad,
            Curve::EaseInOutQuad,
        ],
{
    let curves = vec![
        Curve::Linear,
        Curve::EaseOutQuad,
        Curve::EaseInQuad,
        Curve::EaseInOutQuad,
    ];
    assert(curves@ =~= seq![
        Curve::Linear,
        Curve::EaseOutQuad,
        Curve::EaseInQuad,
        Curve::EaseInOutQuad,
    ]);
    curves
}

/// The name under which a curve is offered.
pub fn curve_label(curve: Curve) -> (r: &'static str)
    ensures
        r@ == (match curve {
            Curve::Linear => "Linear"@,
            Curve::EaseOutQuad => "EaseOutQuad"@,
            Curve::EaseInQuad => "EaseInQuad"@,
            Curve::EaseInOutQuad => "EaseInOutQuad"@,
        }),
{
    match curve {
        Curve::Linear => "Linear",
        Curve::EaseOutQuad => "EaseOutQuad",
        Curve::EaseInQuad => "EaseInQuad",
        Curve::EaseInOutQuad => "EaseInOutQuad",
    }
}

/// Whose stream is watched.
#[derive(Debug, PartialEq, Eq)]
pub struct LiveGateRequest {
    pub base_url: String,
    pub creator_username: String,
}

/// The model of `LiveGateRequest`.
#[verifier::ext_equal]
pub struct RequestModel {
    pub base_url: Seq<char>,
    pub creator_username: Seq<char>,
}

impl View for LiveGateRequest {
    type V = RequestModel;

    open spec fn view(&self) -> RequestModel {
        RequestModel {
            base_url: self.base_url@,
            creator_username: self.creator_username@,
        }
    }
}

impl Duplicate for LiveGateRequest {
    fn duplicate(&self) -> (r: Self) {
        LiveGateRequest {
            base_url: self.base_url.clone(),
            creator_username: self.creator_username.clone(),
        }
    }
}

/// What is known of the stream that is watched.
#[derive(Debug, PartialEq, Eq)]
pub struct LiveGateStatus {
    pub request: Option<LiveGateRequest>,
    pub checked_at_ms: i64,
    pub is_live: Option<bool>,
    pub stream_id: Option<String>,
    pub stream_title: Option<String>,
    pub last_error: Option<String>,
}

/// The model of `LiveGateStatus`.
#[verifier::ext_equal]
pub struct StatusModel {
    pub request: Option<RequestModel>,
    pub checked_at_ms: i64,
    pub is_live: Option<bool>,
    pub stream_id: Option<Seq<char>>,
    pub stream_title: Option<Seq<char>>,
    pub last_error: Option<Seq<char>>,
}

impl View for LiveGateStatus {
    type V = StatusModel;

    open spec fn view(&self) -> StatusModel {
        StatusModel {
            request: model::opt_view(self.request),
            checked_at_ms: self.checked_at_ms,
            is_live: self.is_live,
            stream_id: model::opt_text(self.stream_id),
            stream_title: model::opt_text(self.stream_title),
            last_error: model::opt_text(self.last_error),
        }
    }
}

impl Duplicate for LiveGateStatus {
    fn duplicate(&self) -> (r: Self) {
        LiveGateStatus {
            request: model::copy_opt(&self.request),
            checked_at_ms: self.checked_at_ms,
            is_live: self.is_live,
            stream_id: model::copy_opt_text(&self.stream_id),
            stream_title: model::copy_opt_text(&self.stream_title),
            last_error: model::copy_opt_text(&self.last_error),
        }
    }
}

/// Nothing is known.
pub open spec fn unknown_status(request: Option<RequestModel>, now_ms: i64) -> StatusModel {
    StatusModel {
        request,
        checked_at_ms: now_ms,
        is_live: None,
        stream_id: None,
        stream_title: None,
        last_error: None,
    }
}

/// A word to the watch on a stream.
#[derive(Debug, PartialEq, Eq)]
pub enum LiveGateCommand {
    /// The stream that is watched from now on, if any.
    Configure(Option<LiveGateRequest>),
    /// Look at once.
    Trigger,
}

/// The model of `LiveGateCommand`.
pub enum GateCommandModel {
    Configure(Option<RequestModel>),
    Trigger,
}

impl View for LiveGateCommand {
    type V = GateCommandModel;

    open spec fn view(&self) -> GateCommandModel {
        match *self {
            LiveGateCommand::Configure(request) => GateCommandModel::Configure(
                model::opt_view(request),
            ),
            LiveGateCommand::Trigger => GateCommandModel::Trigger,
        }
    }
}

/// What the watch on a stream waited for.
#[derive(Debug, PartialEq, Eq)]
pub enum GateEvent {
    /// A word arrived.
    Command(LiveGateCommand),
    /// The time between two looks is over.
    Timeout,
}

/// What is watched once a word was heard.
pub open spec fn gate_after(configured: Option<RequestModel>, command: GateCommandModel) -> Option<
    RequestModel,
> {
    match command {
        GateCommandModel::Configure(request) => request,
        GateCommandModel::Trigger => configured,
    }
}

/// What is watched once several words were heard: what the last one that names a stream, or none,
/// says.
pub open spec fn gate_after_all(
    configured: Option<RequestModel>,
    commands: Seq<GateCommandModel>,
) -> Option<RequestModel>
    decreases commands.len(),
{
    if commands.len() == 0 {
        configured
    } else {
        gate_after(gate_after_all(configured, commands.drop_last()), commands.last())
    }
}

/// Whether a look is due after the watch woke up.
pub open spec fn look_due(
    configured: Option<RequestModel>,
    woken_by_word: bool,
    more: Seq<GateCommandModel>,
) -> bool {
    woken_by_word || configured is Some || more.len() > 0
}

/// What is watched after the watch woke up and heard the words that had gathered, and whether a
/// look is due: always after a word, and after a wait only where a stream was watched.
pub fn live_gate_step(
    configured: Option<LiveGateRequest>,
    first: GateEvent,
    more: Vec<LiveGateCommand>,
) -> (r: (Option<LiveGateRequest>, bool))
    ensures
        model::opt_view(r.0) == gate_after_all(
            match first {
                GateEvent::Command(command) => gate_after(model::opt_view(configured), command@),
                GateEvent::Timeout => model::opt_view(configured),
            },
            model::views(more@),
        ),
        r.1 == look_due(model::opt_view(configured), first is Command, model::views(more@)),
        r.1 == (first is Command || configured is Some || more@.len() > 0),
{
    let poll = match &first {
        GateEvent::Command(_) => true,
        GateEvent::Timeout => configured.is_some() || more.len() > 0,
    };
    let mut watched = match first {
        GateEvent::Command(LiveGateCommand::Configure(request)) => request,
        _ => configured,
    };
    let ghost start = model::opt_view(watched);
    let ghost all = model::views(more@);
    let mut i: usize = 0;
    assert(all.take(0) =~= Seq::empty());
    while i < more.len()
        invariant
            i <= more@.len(),
            all == model::views(more@),
            model::opt_view(watched) == gate_after_all(start, all.take(i as int)),
        decreases more@.len() - i,
    {
        assert(all.take(i + 1).drop_last() =~= all.take(i as int));
        assert(all.take(i + 1).last() == more@[i as int]@);
        if let LiveGateCommand::Configure(request) = &more[i] {
            watched = model::copy_opt(request);
        }
        i += 1;
    }
    assert(all.take(i as int) =~= all);
    (watched, poll)
}

/// Only the last word that names a stream counts: what stood before it, and what was watched, is
/// forgotten.
pub proof fn law_last_request_counts(
    configured: Option<RequestModel>,
    before: Seq<GateCommandModel>,
    request: Option<RequestModel>,
    triggers: Seq<GateCommandModel>,
)
    requires
        forall|i: int| 0 <= i < triggers.len() ==> (#[trigger] triggers[i]) is Trigger,
    ensures
        gate_after_all(
            configured,
            before.push(GateCommandModel::Configure(request)) + triggers,
        ) == request,
    decreases triggers.len(),
{
    let all = before.push(GateCommandModel::Configure(request)) + triggers;
    if triggers.len() == 0 {
        assert(all =~= before.push(GateCommandModel::Configure(request)));
    } else {
        assert(all.drop_last() =~= before.push(GateCommandModel::Configure(request))
            + triggers.drop_last());
        assert(all.last() == triggers[triggers.len() - 1]);
        law_last_request_counts(configured, before, request, triggers.drop_last());
    }
}

impl LiveGateStatus {
    /// Nothing is watched.
    pub fn idle(now_ms: i64) -> (r: Self)
        ensures
            r@ == unknown_status(None, now_ms),
    {
        LiveGateStatus {
            request: None,
            checked_at_ms: now_ms,
            is_live: None,
            stream_id: None,
            stream_title: None,
            last_error: None,
        }
    }

    /// The check failed.
    pub fn failed(request: &LiveGateRequest, now_ms: i64, message: String) -> (r: Self)
        ensures
            r@ == (StatusModel {
                last_error: Some(message@),
                ..unknown_status(Some(request@), now_ms)
            }),
    {
        LiveGateStatus {
            request: Some(request.duplicate()),
            checked_at_ms: now_ms,
            is_live: None,
            stream_id: None,
            stream_title: None,
            last_error: Some(message),
        }
    }
}

impl Default for LiveGateStatus {
    fn default() -> (r: Self)
        ensures
            r@ == unknown_status(None, 0),
    {
        LiveGateStatus::idle(0)
    }
}

/// Whose stream is to be watched, if any.
pub open spec fn watched(
    auto_enabled: bool,
    profile_selected: bool,
    form: FormModel,
) -> Option<RequestModel> {
    let base_url = text::trimmed(form.website_base_url);
    let creator_username = text::trimmed(form.creator_username);
    if !auto_enabled || !profile_selected || base_url.len() == 0 || creator_username.len() == 0 {
        None
    } else {
        Some(RequestModel { base_url, creator_username })
    }
}

/// Whose stream is to be watched, if any.
pub fn current_live_gate_request(
    auto_enabled: bool,
    profile_selected: bool,
    form: &ProfileForm,
) -> (r: Option<LiveGateRequest>)
    ensures
        model::opt_view(r) == watched(auto_enabled, profile_selected, form@),
{
    if !auto_enabled || !profile_selected {
        return None;
    }
    let base_url = text::trim(form.website_base_url.as_str());
    let creator_username = text::trim(form.creator_username.as_str());
    if base_url.unicode_len() == 0 || creator_username.unicode_len() == 0 {
        return None;
    }
    Some(
        LiveGateRequest {
            base_url: base_url.to_owned(),
            creator_username: creator_username.to_owned(),
        },
    )
}

fn same_request(a: &LiveGateRequest, b: &LiveGateRequest) -> (r: bool)
    ensures
        r == (a@ == b@),
{
    let same = text::same_text(a.base_url.as_str(), b.base_url.as_str()) && text::same_text(
        a.creator_username.as_str(),
        b.creator_username.as_str(),
    );
    assert(same == (a@ =~= b@));
    same
}

/// Whether the same stream is watched.
pub fn same_watch(a: &Option<LiveGateRequest>, b: &Option<LiveGateRequest>) -> (r: bool)
    ensures
        r == (model::opt_view(*a) == model::opt_view(*b)),
{
    match (a, b) {
        (Some(x), Some(y)) => same_request(x, y),
        (None, None) => true,
        _ => false,
    }
}

/// Where the list of live streams is found.
pub fn live_streams_url(request: &LiveGateRequest) -> (r: String)
    ensures
        r@ == text::drop_trailing(request@.base_url, '/') + "/api/streams/live"@,
{
    text::concat2(text::trim_end_char(request.base_url.as_str(), '/'), "/api/streams/live")
}

/// A listed stream is the creator's and live.
pub open spec fn stream_is_live(stream: Json, creator: Seq<char>) -> bool {
    let name = match json::as_text(json::field(stream, "creatorUsername"@)) {
        Some(s) => s,
        None => Seq::empty(),
    };
    let says_live = match json::as_text(json::field(stream, "status"@)) {
        Some(s) => text::lower_text(s) == text::lower_text("live"@),
        None => false,
    };
    text::lower_text(name) == text::lower_text(text::trimmed(creator)) && (says_live
        || json::as_bool(json::field(stream, "creatorIsLive"@)) == Some(true))
}

/// The first listed stream that is the creator's and live.
pub open spec fn live_stream(streams: Seq<Json>, creator: Seq<char>) -> Option<Json>
    decreases streams.len(),
{
    if streams.len() == 0 {
        None
    } else if stream_is_live(streams[0], creator) {
        Some(streams[0])
    } else {
        live_stream(streams.drop_first(), creator)
    }
}

/// What a list of live streams says of the stream that is watched.
pub open spec fn live_status(request: RequestModel, now_ms: i64, payload: Json) -> StatusModel {
    let blank = unknown_status(Some(request), now_ms);
    match json::as_array(json::field(payload, "streams"@)) {
        None => StatusModel { last_error: Some("missing streams array"@), ..blank },
        Some(streams) => match live_stream(streams, request.creator_username) {
            Some(stream) => StatusModel {
                is_live: Some(true),
                stream_id: json::as_text(json::field(stream, "streamId"@)),
                stream_title: json::as_text(json::field(stream, "title"@)),
                ..blank
            },
            None => StatusModel { is_live: Some(false), ..blank },
        },
    }
}

fn is_live_stream(stream: &JsonValue, creator: &str) -> (r: bool)
    ensures
        r == stream_is_live(stream@, creator@),
{
    let name = match json::text_of(stream.get("creatorUsername")) {
        Some(s) => s.to_owned(),
        None => String::new(),
    };
    let says_live = match json::text_of(stream.get("status")) {
        Some(s) => text::same_text_ignore_case(s, "live"),
        None => false,
    };
    let creator_live = match json::bool_of(stream.get("creatorIsLive")) {
        Some(flag) => flag,
        None => false,
    };
    text::same_text_ignore_case(name.as_str(), text::trim(creator)) && (says_live || creator_live)
}

fn member_text(stream: &JsonValue, name: &str) -> (r: Option<String>)
    ensures
        model::opt_text(r) == json::as_text(json::field(stream@, name@)),
{
    match json::text_of(stream.get(name)) {
        Some(s) => Some(s.to_owned()),
        None => None,
    }
}

/// Reads a list of live streams.
pub fn read_live_streams(request: &LiveGateRequest, now_ms: i64, payload: &JsonValue) -> (r:
    LiveGateStatus)
    ensures
        r@ == live_status(request@, now_ms, payload@),
{
    let streams = match json::array_of(payload.get("streams")) {
        Some(items) => items,
        None => {
            return LiveGateStatus::failed(request, now_ms, "missing streams array".to_owned());
        },
    };
    let ghost all = json::items_content(streams@);
    let ghost creator = request@.creator_username;
    proof {
        json::lemma_items_content(streams@);
    }
    let mut i: usize = 0;
    assert(all.skip(0) =~= all);
    while i < streams.len()
        invariant
            i <= streams@.len(),
            all == json::items_content(streams@),
            all.len() == streams@.len(),
            forall|k: int| 0 <= k < streams@.len() ==> #[trigger] all[k] == streams@[k]@,
            creator == request@.creator_username,
            json::as_array(json::field(payload@, "streams"@)) == Some(all),
            live_stream(all, creator) == live_stream(all.skip(i as int), creator),
        decreases streams@.len() - i,
    {
        assert(all.skip(i as int)[0] == all[i as int]);
        assert(all.skip(i as int).drop_first() =~= all.skip(i + 1));
        let stream = &streams[i];
        if is_live_stream(stream, request.creator_username.as_str()) {
            return LiveGateStatus {
                request: Some(request.duplicate()),
                checked_at_ms: now_ms,
                is_live: Some(true),
                stream_id: member_text(stream, "streamId"),
                stream_title: member_text(stream, "title"),
                last_error: None,
            };
        }
        i += 1;
    }
    LiveGateStatus {
        request: Some(request.duplicate()),
        checked_at_ms: now_ms,
        is_live: Some(false),
        stream_id: None,
        stream_title: None,
        last_error: None,
    }
}

/// What is done about the bridge.
#[derive(Debug, Clone, Copy, PartialEq, Eq, Structural)]
pub enum AutoStep {
    Nothing,
    Start,
    Stop,
}

/// What is done about the bridge, given what is known of the stream. Nothing is done on what was
/// found out about another stream.
pub open spec fn auto_step(
    auto_enabled: bool,
    profile_selected: bool,
    request: Option<RequestModel>,
    status: StatusModel,
    running: bool,
    attempt_due: bool,
) -> AutoStep {
    if !auto_enabled || !profile_selected || request is None || status.request != request {
        AutoStep::Nothing
    } else {
        match status.is_live {
            Some(true) => if running || !attempt_due {
                AutoStep::Nothing
            } else {
                AutoStep::Start
            },
            Some(false) => if running {
                AutoStep::Stop
            } else {
                AutoStep::Nothing
            },
            None => AutoStep::Nothing,
        }
    }
}

/// Decides about the bridge.
pub fn apply_auto_bridge_policy(
    auto_enabled: bool,
    profile_selected: bool,
    request: &Option<LiveGateRequest>,
    status: &LiveGateStatus,
    running: bool,
    attempt_due: bool,
) -> (r: AutoStep)
    ensures
        r == auto_step(
            auto_enabled,
            profile_selected,
            model::opt_view(*request),
            status@,
            running,
            attempt_due,
        ),
{
    if !auto_enabled || !profile_selected || request.is_none() {
        return AutoStep::Nothing;
    }
    if !same_watch(&status.request, request) {
        return AutoStep::Nothing;
    }
    match status.is_live {
        Some(live) => if live {
            if running || !attempt_due {
                AutoStep::Nothing
            } else {
                AutoStep::Start
            }
        } else if running {
            AutoStep::Stop
        } else {
            AutoStep::Nothing
        },
        None => AutoStep::Nothing,
    }
}

/// The bridge is started only for a stream that is live, and stopped only for one that is not.
pub proof fn law_auto_follows_stream(
    auto_enabled: bool,
    profile_selected: bool,
    request: Option<RequestModel>,
    status: StatusModel,
    running: bool,
    attempt_due: bool,
)
    ensures
        auto_step(auto_enabled, profile_selected, request, status, running, attempt_due)
            == AutoStep::Start ==> status.is_live == Some(true) && status.request == request
            && !running && auto_enabled,
        auto_step(auto_enabled, profile_selected, request, status, running, attempt_due)
            == AutoStep::Stop ==> status.is_live == Some(false) && status.request == request
            && running && auto_enabled,
{
}

/// What is reported when the stream went live.
pub fn engaged_message(creator: &str) -> (r: String)
    ensures
        r@ == "Bridge auto-engaged for "@ + creator@ + " (stream live)"@,
{
    text::concat3("Bridge auto-engaged for ", creator, " (stream live)")
}

/// What is reported when the stream went offline.
pub fn disengaged_message(creator: &str) -> (r: String)
    ensures
        r@ == "Bridge auto-disengaged for "@ + creator@ + " (stream offline)"@,
{
    text::concat3("Bridge auto-disengaged for ", creator, " (stream offline)")
}

/// What is reported, and whether it is an error.
#[derive(Debug, PartialEq, Eq)]
pub struct Report {
    pub message: String,
    pub is_error: bool,
}

/// Whether the automatic mode is on after it was asked for, and what is reported.
pub fn enable_bridge_auto_mode(enabled: bool, can_start: bool, source: &str) -> (r: (bool, Report))
    ensures
        r.0 == (enabled || can_start),
        r.1.is_error == !can_start,
        r.1.message@ == (if !can_start {
            "Bridge enable blocked: configure credential in Settings first"@
        } else if enabled {
            "Bridge auto mode already enabled ("@ + source@ + ")"@
        } else {
            "Bridge auto mode enabled ("@ + source@ + ")"@
        }),
{
    if !can_start {
        let message = "Bridge enable blocked: configure credential in Settings first".to_owned();
        return (enabled, Report { message, is_error: true });
    }
    let message = if enabled {
        text::concat3("Bridge auto mode already enabled (", source, ")")
    } else {
        text::concat3("Bridge auto mode enabled (", source, ")")
    };
    (true, Report { message, is_error: false })
}

/// What is reported once the automatic mode is off: `stopped` is what stopping a running bridge
/// came to.
pub fn disable_bridge_auto_mode(stopped: Option<Result<(), String>>, source: &str) -> (r: Report)
    ensures
        match stopped {
            None => !r.is_error && r.message@ == "Bridge auto mode disabled ("@ + source@ + ")"@,
            Some(Ok(_)) => !r.is_error && r.message@
                == "Bridge disengaged and auto mode disabled ("@ + source@ + ")"@,
            Some(Err(error)) => r.is_error && r.message@ == "Failed to stop bridge: "@ + error@,
        },
{
    match stopped {
        None => Report {
            message: text::concat3("Bridge auto mode disabled (", source, ")"),
            is_error: false,
        },
        Some(Ok(_)) => Report {
            message: text::concat3("Bridge disengaged and auto mode disabled (", source, ")"),
            is_error: false,
        },
        Some(Err(error)) => Report {
            message: text::concat2("Failed to stop bridge: ", error.as_str()),
            is_error: true,
        },
    }
}

/// What the tray shares with the window.
#[derive(Debug, PartialEq, Eq)]
pub struct TrayBridge {
    pub selected_profile_id: Option<String>,
    pub auto_bridge_enabled: bool,
}

/// What a click on the tray asks for.
#[derive(Debug, PartialEq, Eq)]
pub enum TrayStep {
    /// Stop the bridge.
    Stop,
    /// Start the bridge for a profile.
    Start(String),
    /// Say why nothing is started.
    Refuse(String),
}

impl Default for TrayBridge {
    fn default() -> (r: Self)
        ensures
            r.selected_profile_id is None,
            !r.auto_bridge_enabled,
    {
        TrayBridge { selected_profile_id: None, auto_bridge_enabled: false }
    }
}

impl TrayBridge {
    /// Takes a click: the automatic mode is switched, and stays off where no profile is selected
    /// and none was selected last.
    pub fn toggle(&mut self, last_selected: Option<String>) -> (r: TrayStep)
        ensures
            final(self).selected_profile_id == old(self).selected_profile_id,
            old(self).auto_bridge_enabled ==> r is Stop && !final(self).auto_bridge_enabled,
            !old(self).auto_bridge_enabled ==> match (
                old(self).selected_profile_id,
                last_selected,
            ) {
                (Some(id), _) => final(self).auto_bridge_enabled && (r matches TrayStep::Start(
                    found,
                ) && found@ == id@),
                (None, Some(id)) => final(self).auto_bridge_enabled && r == TrayStep::Start(id),
                (None, None) => !final(self).auto_bridge_enabled && (r matches TrayStep::Refuse(
                    message,
                ) && message@ == "No selected profile to start from tray"@),
            },
    {
        if self.auto_bridge_enabled {
            self.auto_bridge_enabled = false;
            return TrayStep::Stop;
        }
        let chosen = match &self.selected_profile_id {
            Some(id) => Some(id.clone()),
            None => last_selected,
        };
        match chosen {
            Some(id) => {
                self.auto_bridge_enabled = true;
                TrayStep::Start(id)
            },
            None => TrayStep::Refuse("No selected profile to start from tray".to_owned()),
        }
    }

    /// Checks the profile that is to be started. The automatic mode is switched off again where
    /// the profile has no credential.
    pub fn check_profile(
        &mut self,
        profile_id: &str,
        loaded: Result<Option<LoadedProfile>, String>,
    ) -> (r: Result<(), String>)
        ensures
            final(self).selected_profile_id == old(self).selected_profile_id,
            match loaded {
                Err(error) => final(self).auto_bridge_enabled == old(self).auto_bridge_enabled && (
                r matches Err(message) && message@ == "load profile failed: "@ + error@),
                Ok(None) => final(self).auto_bridge_enabled == old(self).auto_bridge_enabled && (
                r matches Err(message) && message@ == "Profile not found: "@ + profile_id@),
                Ok(Some(found)) => if has_credential(found@.stream_key) {
                    r is Ok && final(self).auto_bridge_enabled == old(self).auto_bridge_enabled
                } else {
                    !final(self).auto_bridge_enabled && (r matches Err(message) && message@
                        == "Profile has no bridge credential: "@ + profile_id@)
                },
            },
    {
        match loaded {
            Err(error) => Err(text::concat2("load profile failed: ", error.as_str())),
            Ok(None) => Err(text::concat2("Profile not found: ", profile_id)),
            Ok(Some(found)) => {
                let usable = match &found.stream_key {
                    Some(key) => text::trim(key.as_str()).unicode_len() > 0,
                    None => false,
                };
                if !usable {
                    self.auto_bridge_enabled = false;
                    return Err(text::concat2("Profile has no bridge credential: ", profile_id));
                }
                Ok(())
            },
        }
    }
}

/// A credential is there and not blank.
pub open spec fn has_credential(key: Option<Seq<char>>) -> bool {
    match key {
        Some(key) => text::trimmed(key).len() > 0,
        None => false,
    }
}

/// What is reported after the tray stopped the bridge.
pub fn tray_stop_report(stopped: Result<(), String>) -> (r: Result<String, String>)
    ensures
        match stopped {
            Ok(_) => r matches Ok(message) && message@ == "Bridge auto mode disabled from tray"@,
            Err(error) => r matches Err(message) && message@ == "stop runtime failed: "@ + error@,
        },
{
    match stopped {
        Ok(_) => Ok("Bridge auto mode disabled from tray".to_owned()),
        Err(error) => Err(text::concat2("stop runtime failed: ", error.as_str())),
    }
}

/// What is reported after the tray started the bridge.
pub fn tray_start_report(profile_id: &str, started: Result<(), String>) -> (r: Result<
    String,
    String,
>)
    ensures
        match started {
            Ok(_) => r matches Ok(message) && message@ == "Bridge enabled from tray for profile "@
                + profile_id@,
            Err(error) => r matches Err(message) && message@ == "start profile failed: "@ + error@,
        },
{
    match started {
        Ok(_) => Ok(text::concat2("Bridge enabled from tray for profile ", profile_id)),
        Err(error) => Err(text::concat2("start profile failed: ", error.as_str())),
    }
}

/// The state that the tray shows.
pub fn tray_bridge_state_label(running: bool, auto_enabled: bool) -> (r: &'static str)
    ensures
        r@ == (if running {
            "Connected"@
        } else if auto_enabled {
            "Enabled"@
        } else {
            "Disabled"@
        }),
{
    if running {
        "Connected"
    } else if auto_enabled {
        "Enabled"
    } else {
        "Disabled"
    }
}

/// The entries of the tray's menu.
#[derive(Debug, PartialEq, Eq)]
pub struct TrayLabels {
    pub state: String,
    pub toggle: String,
    pub can_toggle: bool,
}

/// The entries of the tray's menu.
pub fn tray_labels(
    running: bool,
    auto_enabled: bool,
    profile_selected: bool,
    has_stream_key: bool,
) -> (r: TrayLabels)
    ensures
        r.state@ == "Bridge State: "@ + (if running {
            "Connected"@
        } else if auto_enabled {
            "Enabled"@
        } else {
            "Disabled"@
        }),
        r.toggle@ == (if auto_enabled {
            "Toggle Bridge: Disable"@
        } else {
            "Toggle Bridge: Enable"@
        }),
        r.can_toggle == (auto_enabled || (profile_selected && has_stream_key)),
{
    let toggle = if auto_enabled {
        "Toggle Bridge: Disable".to_owned()
    } else {
        "Toggle Bridge: Enable".to_owned()
    };
    TrayLabels {
        state: text::concat2("Bridge State: ", tray_bridge_state_label(running, auto_enabled)),
        toggle,
        can_toggle: auto_enabled || (profile_selected && has_stream_key),
    }
}

/// A profile is listed.
pub open spec fn is_listed(profiles: Seq<SummaryModel>, id: Seq<char>) -> bool {
    exists|i: int| 0 <= i < profiles.len() && (#[trigger] profiles[i]).id == id
}

/// Whether a profile is listed.
pub fn lists_profile(profiles: &Vec<ProfileSummary>, id: &str) -> (r: bool)
    ensures
        r == is_listed(model::views(profiles@), id@),
{
    let ghost all = model::views(profiles@);
    let mut i: usize = 0;
    while i < profiles.len()
        invariant
            i <= profiles@.len(),
            all == model::views(profiles@),
            forall|j: int| 0 <= j < i ==> (#[trigger] all[j]).id != id@,
        decreases profiles@.len() - i,
    {
        assert(all[i as int] == profiles@[i as int]@);
        if text::same_text(profiles[i].id.as_str(), id) {
            return true;
        }
        i += 1;
    }
    false
}

/// The profile that is shown first, and whether the one that was selected last is forgotten.
#[derive(Debug, PartialEq, Eq)]
pub enum Restore {
    /// The profile that was selected last.
    Last(String),
    /// The first listed profile, which is selected from now on.
    First(String),
    /// There is none.
    New,
}

/// The profile that is shown first.
pub open spec fn shown_first(profiles: Seq<SummaryModel>, last_selected: Option<Seq<char>>) -> Option<
    Seq<char>,
> {
    if last_selected is Some && is_listed(profiles, last_selected->0) {
        last_selected
    } else if profiles.len() == 0 {
        None
    } else {
        Some(profiles[0].id)
    }
}

/// Picks the profile that is shown first: the one that was selected last where it is still there,
/// or else the first.
pub fn restore_last_selected_profile(
    profiles: &Vec<ProfileSummary>,
    last_selected: Option<String>,
) -> (r: Restore)
    ensures
        shown_first(model::views(profiles@), model::opt_text(last_selected)) == (match r {
            Restore::Last(id) => Some(id@),
            Restore::First(id) => Some(id@),
            Restore::New => None,
        }),
        match last_selected {
            Some(id) => is_listed(model::views(profiles@), id@) ==> r == Restore::Last(id),
            None => true,
        },
        (last_selected matches Some(id) ==> !is_listed(model::views(profiles@), id@)) ==> (
        if profiles@.len() == 0 {
            r is New
        } else {
            r matches Restore::First(id) && id@ == profiles@[0].id@
        }),
{
    if let Some(id) = last_selected {
        if lists_profile(profiles, id.as_str()) {
            return Restore::Last(id);
        }
    }
    if profiles.len() == 0 {
        Restore::New
    } else {
        Restore::First(profiles[0].id.clone())
    }
}

/// What is reported when a profile was loaded.
pub fn loaded_message(name: &str, has_stream_key: bool) -> (r: String)
    ensures
        r@ == "Loaded profile "@ + name@ + (if has_stream_key {
            " (credential present)"@
        } else {
            " (credential missing)"@
        }),
{
    if has_stream_key {
        text::concat3("Loaded profile ", name, " (credential present)")
    } else {
        text::concat3("Loaded profile ", name, " (credential missing)")
    }
}

/// What is done when the window is to be closed.
#[derive(Debug, Clone, Copy, PartialEq, Eq, Structural)]
pub enum CloseStep {
    /// Let it close.
    Close,
    /// Keep it, hidden in the tray.
    Hide,
    /// Keep it, hidden already.
    StayHidden,
    /// Keep it, minimized.
    Minimize,
}

/// What is done when the window is to be closed.
pub open spec fn closing(close_to_background: bool, tray_available: bool, hidden: bool) -> CloseStep {
    if !close_to_background {
        CloseStep::Close
    } else if !tray_available {
        CloseStep::Minimize
    } else if hidden {
        CloseStep::StayHidden
    } else {
        CloseStep::Hide
    }
}

/// Decides what is done when the window is to be closed.
pub fn close_step(close_to_background: bool, tray_available: bool, hidden: bool) -> (r: CloseStep)
    ensures
        r == closing(close_to_background, tray_available, hidden),
        r == (if !close_to_background {
            CloseStep::Close
        } else if !tray_available {
            CloseStep::Minimize
        } else if hidden {
            CloseStep::StayHidden
        } else {
            CloseStep::Hide
        }),
{
    if !close_to_background {
        CloseStep::Close
    } else if !tray_available {
        CloseStep::Minimize
    } else if hidden {
        CloseStep::StayHidden
    } else {
        CloseStep::Hide
    }
}

} // verus!
