//! The relay: sessions, events and what the service's replies mean.
use vstd::prelude::*;
use vstd::string::*;
use crate::config::{BaseUrl, BaseUrlModel};
use crate::float::FloatBits;
use crate::json;
use crate::json::{Json, JsonValue};
use crate::model;
use crate::model::Duplicate;
use crate::payload;
use crate::payload::{Payload, PayloadModel};
use crate::text;

verus! {

/// Where an event's value came from.
#[derive(Debug, PartialEq, Eq)]
pub struct RelaySource {
    pub address: String,
    pub arg_type: String,
}

/// The model of `RelaySource`.
#[verifier::ext_equal]
pub struct SourceModel {
    pub address: Seq<char>,
    pub arg_type: Seq<char>,
}

impl View for RelaySource {
    type V = SourceModel;

    open spec fn view(&self) -> SourceModel {
        SourceModel {
            address: self.address@,
            arg_type: self.arg_type@,
        }
    }
}

impl Duplicate for RelaySource {
    fn duplicate(&self) -> (r: Self) {
        RelaySource {
            address: self.address.clone(),
            arg_type: self.arg_type.clone(),
        }
    }
}

/// An intensity event.
#[derive(Debug, PartialEq, Eq)]
pub struct RelayEvent {
    pub seq: u64,
    pub ts: i64,
    pub intensity: FloatBits,
    pub peak: FloatBits,
    pub raw: FloatBits,
    pub source: RelaySource,
}

/// The model of `RelayEvent`.
#[verifier::ext_equal]
pub struct EventModel {
    pub seq: u64,
    pub ts: i64,
    pub intensity: FloatBits,
    pub peak: FloatBits,
    pub raw: FloatBits,
    pub source: SourceModel,
}

impl View for RelayEvent {
    type V = EventModel;

    open spec fn view(&self) -> EventModel {
        EventModel {
            seq: self.seq,
            ts: self.ts,
            intensity: self.intensity,
            peak: self.peak,
            raw: self.raw,
            source: self.source@,
        }
    }
}

impl Duplicate for RelayEvent {
    fn duplicate(&self) -> (r: Self) {
        RelayEvent {
            seq: self.seq,
            ts: self.ts,
            intensity: self.intensity,
            peak: self.peak,
            raw: self.raw,
            source: self.source.duplicate(),
        }
    }
}

/// What a relay client needs to know.
#[derive(Debug, PartialEq, Eq)]
pub struct RelayClientConfig {
    pub base_url: BaseUrl,
    pub creator_username: String,
    pub stream_key: String,
    pub session_path: String,
    pub ingest_path: String,
}

/// The model of `RelayClientConfig`.
#[verifier::ext_equal]
pub struct ClientConfigModel {
    pub base_url: BaseUrlModel,
    pub creator_username: Seq<char>,
    pub stream_key: Seq<char>,
    pub session_path: Seq<char>,
    pub ingest_path: Seq<char>,
}

impl View for RelayClientConfig {
    type V = ClientConfigModel;

    open spec fn view(&self) -> ClientConfigModel {
        ClientConfigModel {
            base_url: self.base_url@,
            creator_username: self.creator_username@,
            stream_key: self.stream_key@,
            session_path: self.session_path@,
            ingest_path: self.ingest_path@,
        }
    }
}

impl Duplicate for RelayClientConfig {
    fn duplicate(&self) -> (r: Self) {
        RelayClientConfig {
            base_url: self.base_url.duplicate(),
            creator_username: self.creator_username.clone(),
            stream_key: self.stream_key.clone(),
            session_path: self.session_path.clone(),
            ingest_path: self.ingest_path.clone(),
        }
    }
}

/// A session with the relay.
#[derive(Debug, PartialEq, Eq)]
pub struct RelaySessionState {
    pub stream_id: String,
    pub relay_token: String,
    pub relay_token_expires_at_ms: i64,
    pub clock_offset_ms: i64,
    pub max_skew_ms: i64,
}

/// The model of `RelaySessionState`.
#[verifier::ext_equal]
pub struct SessionModel {
    pub stream_id: Seq<char>,
    pub relay_token: Seq<char>,
    pub relay_token_expires_at_ms: i64,
    pub clock_offset_ms: i64,
    pub max_skew_ms: i64,
}

impl View for RelaySessionState {
    type V = SessionModel;

    open spec fn view(&self) -> SessionModel {
        SessionModel {
            stream_id: self.stream_id@,
            relay_token: self.relay_token@,
            relay_token_expires_at_ms: self.relay_token_expires_at_ms,
            clock_offset_ms: self.clock_offset_ms,
            max_skew_ms: self.max_skew_ms,
        }
    }
}

impl Duplicate for RelaySessionState {
    fn duplicate(&self) -> (r: Self) {
        RelaySessionState {
            stream_id: self.stream_id.clone(),
            relay_token: self.relay_token.clone(),
            relay_token_expires_at_ms: self.relay_token_expires_at_ms,
            clock_offset_ms: self.clock_offset_ms,
            max_skew_ms: self.max_skew_ms,
        }
    }
}

/// The state before there is a session.
pub open spec fn no_session() -> SessionModel {
    SessionModel {
        stream_id: Seq::empty(),
        relay_token: Seq::empty(),
        relay_token_expires_at_ms: 0,
        clock_offset_ms: 0,
        max_skew_ms: 30_000,
    }
}

impl Default for RelaySessionState {
    fn default() -> (r: Self)
        ensures
            r@ == no_session(),
    {
        RelaySessionState {
            stream_id: String::new(),
            relay_token: String::new(),
            relay_token_expires_at_ms: 0,
            clock_offset_ms: 0,
            max_skew_ms: 30_000,
        }
    }
}

/// A reply of the service. The names of the headers are in lower case.
#[derive(Debug, PartialEq, Eq)]
pub struct HttpResponse {
    pub status: u16,
    pub headers: Vec<(String, String)>,
    pub body: String,
}

/// The model of `HttpResponse`.
#[verifier::ext_equal]
pub struct ResponseModel {
    pub status: u16,
    pub headers: Seq<(Seq<char>, Seq<char>)>,
    pub body: Seq<char>,
}

impl View for HttpResponse {
    type V = ResponseModel;

    open spec fn view(&self) -> ResponseModel {
        ResponseModel {
            status: self.status,
            headers: model::pairs(self.headers@),
            body: self.body@,
        }
    }
}

/// What can go wrong with the relay.
#[derive(Debug, PartialEq, Eq)]
pub enum RelayError {
    Transport(String),
    InvalidResponse(String),
    SessionAuthFailed(String),
    RelayTokenRejected,
    StreamOfflineOrRotated,
    Throttled,
    TimestampRejectedResynced,
    IngestFailed(String),
}

/// The model of `RelayError`.
pub enum ErrorModel {
    Transport(Seq<char>),
    InvalidResponse(Seq<char>),
    SessionAuthFailed(Seq<char>),
    RelayTokenRejected,
    StreamOfflineOrRotated,
    Throttled,
    TimestampRejectedResynced,
    IngestFailed(Seq<char>),
}

impl View for RelayError {
    type V = ErrorModel;

    open spec fn view(&self) -> ErrorModel {
        match *self {
            RelayError::Transport(message) => ErrorModel::Transport(message@),
            RelayError::InvalidResponse(message) => ErrorModel::InvalidResponse(message@),
            RelayError::SessionAuthFailed(message) => ErrorModel::SessionAuthFailed(message@),
            RelayError::RelayTokenRejected => ErrorModel::RelayTokenRejected,
            RelayError::StreamOfflineOrRotated => ErrorModel::StreamOfflineOrRotated,
            RelayError::Throttled => ErrorModel::Throttled,
            RelayError::TimestampRejectedResynced => ErrorModel::TimestampRejectedResynced,
            RelayError::IngestFailed(message) => ErrorModel::IngestFailed(message@),
        }
    }
}

/// The text of an error.
pub open spec fn error_text(error: ErrorModel) -> Seq<char> {
    match error {
        ErrorModel::Transport(message) => "Transport error: "@ + message,
        ErrorModel::InvalidResponse(message) => "Invalid response: "@ + message,
        ErrorModel::SessionAuthFailed(message) => "Session auth failed: "@ + message,
        ErrorModel::RelayTokenRejected => "Relay token rejected"@,
        ErrorModel::StreamOfflineOrRotated => "Creator stream is offline or rotated"@,
        ErrorModel::Throttled => "Relay event throttled"@,
        ErrorModel::TimestampRejectedResynced => {
            "Relay ingest rejected timestamp; re-synced clock offset and will retry"@
        },
        ErrorModel::IngestFailed(message) => "Relay ingest failed: "@ + message,
    }
}

impl RelayError {
    /// The text of the error.
    pub fn message(&self) -> (r: String)
        ensures
            r@ == error_text(self@),
    {
        match self {
            RelayError::Transport(message) => text::concat2("Transport error: ", message.as_str()),
            RelayError::InvalidResponse(message) => text::concat2(
                "Invalid response: ",
                message.as_str(),
            ),
            RelayError::SessionAuthFailed(message) => text::concat2(
                "Session auth failed: ",
                message.as_str(),
            ),
            RelayError::RelayTokenRejected => "Relay token rejected".to_owned(),
            RelayError::StreamOfflineOrRotated => {
                "Creator stream is offline or rotated".to_owned()
            },
            RelayError::Throttled => "Relay event throttled".to_owned(),
            RelayError::TimestampRejectedResynced => {
                "Relay ingest rejected timestamp; re-synced clock offset and will retry".to_owned()
            },
            RelayError::IngestFailed(message) => text::concat2(
                "Relay ingest failed: ",
                message.as_str(),
            ),
        }
    }
}

/// The outcome of a request to the relay.
pub open spec fn outcome(result: Result<(), RelayError>) -> Result<(), ErrorModel> {
    match result {
        Ok(_) => Ok(()),
        Err(error) => Err(error@),
    }
}

/// The document of an event.
pub open spec fn event_payload(event: EventModel) -> PayloadModel {
    PayloadModel::Members(
        seq![
            ("seq"@, PayloadModel::Unsigned(event.seq)),
            ("ts"@, PayloadModel::Signed(event.ts)),
            ("intensity"@, PayloadModel::Float(event.intensity)),
            ("peak"@, PayloadModel::Float(event.peak)),
            ("raw"@, PayloadModel::Float(event.raw)),
            (
                "source"@,
                PayloadModel::Members(
                    seq![
                        ("address"@, PayloadModel::Text(event.source.address)),
                        ("argType"@, PayloadModel::Text(event.source.arg_type)),
                    ],
                ),
            ),
        ],
    )
}

impl RelayEvent {
    /// The document of the event.
    pub fn as_json(&self) -> (r: Payload)
        ensures
            r@ == event_payload(self@),
    {
        let mut source: Vec<(String, Payload)> = Vec::new();
        payload::push_member(
            &mut source,
            "address",
            payload::text_value(self.source.address.as_str()),
        );
        payload::push_member(
            &mut source,
            "argType",
            payload::text_value(self.source.arg_type.as_str()),
        );
        let mut members: Vec<(String, Payload)> = Vec::new();
        payload::push_member(&mut members, "seq", Payload::Unsigned(self.seq));
        payload::push_member(&mut members, "ts", Payload::Signed(self.ts));
        payload::push_member(&mut members, "intensity", Payload::Float(self.intensity));
        payload::push_member(&mut members, "peak", Payload::Float(self.peak));
        payload::push_member(&mut members, "raw", Payload::Float(self.raw));
        let ghost source_model = payload::members_model(source@);
        payload::push_member(&mut members, "source", Payload::Members(source));
        proof {
            let expected = event_payload(self@)->Members_0;
            assert(source_model =~= expected[5].1->Members_0);
            assert(payload::members_model(members@) =~= expected);
        }
        Payload::Members(members)
    }
}

/// A request, as it is handed over.
#[verifier::ext_equal]
pub struct RequestModel {
    pub url: Seq<char>,
    pub headers: Seq<(Seq<char>, Seq<char>)>,
    pub body: PayloadModel,
}

/// What carries requests to the service.
pub trait HttpTransport {
    /// The requests that were handed over so far.
    spec fn sent(&self) -> Seq<RequestModel>;

    /// What came back for them.
    spec fn received(&self) -> Seq<Result<ResponseModel, ErrorModel>>;

    /// Posts a document and waits for the reply.
    fn post_json(&mut self, url: &str, headers: &Vec<(String, String)>, body: Payload) -> (r: Result<
        HttpResponse,
        RelayError,
    >)
        ensures
            final(self).sent() == old(self).sent().push(
                RequestModel { url: url@, headers: model::pairs(headers@), body: body@ },
            ),
            final(self).received() == old(self).received().push(reply_of(r)),
    ;
}

/// A reply, or the error in its place.
pub open spec fn reply_of(result: Result<HttpResponse, RelayError>) -> Result<
    ResponseModel,
    ErrorModel,
> {
    match result {
        Ok(response) => Ok(response@),
        Err(error) => Err(error@),
    }
}

/// Whether a credential is a token of the companion.
pub open spec fn is_token(credential: Seq<char>) -> bool {
    "vca1."@.is_prefix_of(text::trimmed(credential))
}

/// Whether a credential is a token of the companion.
pub fn is_companion_token_credential(value: &str) -> (r: bool)
    ensures
        r == is_token(value@),
{
    text::starts_with(text::trim(value), "vca1.")
}

/// The URL that a path denotes relative to a base, or the message with which it is refused.
pub uninterp spec fn url_joined(base: Seq<char>, path: Seq<char>) -> Result<Seq<char>, Seq<char>>;

/// `url::Url::join` on the URL that `url::Url::parse` reads from the base: the text of the URL,
/// or of the error.
#[verifier::external_body]
pub(crate) fn join_url(base: &str, path: &str) -> (r: Result<String, String>)
    ensures
        match r {
            Ok(url) => url_joined(base@, path@) == Ok::<Seq<char>, Seq<char>>(url@),
            Err(message) => url_joined(base@, path@) == Err::<Seq<char>, Seq<char>>(message@),
        },
{
    url::Url::parse(base).and_then(|url| url.join(path)).map(|url| url.to_string()).map_err(
        |e| e.to_string(),
    )
}

/// The URL of a path at the service.
pub open spec fn service_url(base: BaseUrlModel, path: Seq<char>) -> Result<Seq<char>, ErrorModel> {
    match url_joined(base.text, path) {
        Ok(url) => Ok(url),
        Err(message) => Err(ErrorModel::InvalidResponse("Failed to build URL: "@ + message)),
    }
}

/// Builds the URL of a path at the service.
pub fn build_url(base_url: &BaseUrl, path: &str) -> (r: Result<String, RelayError>)
    ensures
        match r {
            Ok(url) => service_url(base_url@, path@) == Ok::<Seq<char>, ErrorModel>(url@),
            Err(error) => service_url(base_url@, path@) == Err::<Seq<char>, ErrorModel>(error@),
        },
{
    match join_url(base_url.text.as_str(), path) {
        Ok(url) => Ok(url),
        Err(message) => Err(
            RelayError::InvalidResponse(text::concat2("Failed to build URL: ", message.as_str())),
        ),
    }
}

/// The time that an RFC 3339 text denotes, in milliseconds since the epoch.
pub uninterp spec fn iso_millis(value: Seq<char>) -> Option<i64>;

/// `chrono::DateTime::parse_from_rfc3339` and `timestamp_millis`.
#[verifier::external_body]
fn parse_iso(value: &str) -> (r: Option<i64>)
    ensures
        r == iso_millis(value@),
{
    chrono::DateTime::parse_from_rfc3339(value).ok().map(|time| time.timestamp_millis())
}

/// The time that an HTTP date denotes, in milliseconds since the epoch; zero where it lies before
/// the epoch.
pub uninterp spec fn http_date_millis(value: Seq<char>) -> Option<i64>;

/// `httpdate::parse_http_date`, as milliseconds since the epoch.
#[verifier::external_body]
fn parse_http_date(value: &str) -> (r: Option<i64>)
    ensures
        r == http_date_millis(value@),
{
    let time = httpdate::parse_http_date(value).ok()?;
    Some(time.duration_since(std::time::UNIX_EPOCH).unwrap_or_default().as_millis() as i64)
}

/// The time in the `date` header of a reply.
pub open spec fn response_date(headers: Seq<(Seq<char>, Seq<char>)>) -> Option<i64> {
    match model::pair_value(headers, "date"@) {
        Some(value) => http_date_millis(value),
        None => None,
    }
}

/// Reads the time in the `date` header of a reply.
pub fn parse_response_date_ms(headers: &Vec<(String, String)>) -> (r: Option<i64>)
    ensures
        r == response_date(model::pairs(headers@)),
{
    match model::find_pair(headers, "date") {
        Some(value) => parse_http_date(value),
        None => None,
    }
}

/// The document in a body, `null` where there is none.
pub open spec fn body_json(body: Seq<char>) -> Json {
    if text::trimmed(body).len() == 0 {
        Json::Null
    } else {
        match json::parsed_json(body) {
            Ok(value) => value,
            Err(_) => Json::Null,
        }
    }
}

/// Reads the document in a body.
pub fn parse_json_body(body: &str) -> (r: JsonValue)
    ensures
        r@ == body_json(body@),
{
    if text::trim(body).unicode_len() == 0 {
        return JsonValue::Null;
    }
    match json::parse(body) {
        Ok(value) => value,
        Err(_) => JsonValue::Null,
    }
}

/// The status reports success.
pub open spec fn success(status: u16) -> bool {
    200 <= status < 300
}

/// `HTTP` and a status.
pub open spec fn status_text(status: u16) -> Seq<char> {
    "HTTP "@ + text::decimal_text(status as nat)
}

/// `HTTP` and a status.
pub fn http_status_text(status: u16) -> (r: String)
    ensures
        r@ == status_text(status),
{
    let number = text::decimal(status as u64);
    text::concat2("HTTP ", number.as_str())
}

/// What a reply to a session request grants.
#[derive(Debug, PartialEq, Eq)]
pub struct SessionGrant {
    pub token: String,
    pub expires_at: String,
    pub stream_id: String,
    pub server_now_ms: Option<i64>,
    pub max_skew_ms: Option<i64>,
    pub companion_token: Option<String>,
}

/// The model of `SessionGrant`.
#[verifier::ext_equal]
pub struct GrantModel {
    pub token: Seq<char>,
    pub expires_at: Seq<char>,
    pub stream_id: Seq<char>,
    pub server_now_ms: Option<i64>,
    pub max_skew_ms: Option<i64>,
    pub companion_token: Option<Seq<char>>,
}

impl View for SessionGrant {
    type V = GrantModel;

    open spec fn view(&self) -> GrantModel {
        GrantModel {
            token: self.token@,
            expires_at: self.expires_at@,
            stream_id: self.stream_id@,
            server_now_ms: self.server_now_ms,
            max_skew_ms: self.max_skew_ms,
            companion_token: model::opt_text(self.companion_token),
        }
    }
}

impl Duplicate for SessionGrant {
    fn duplicate(&self) -> (r: Self) {
        SessionGrant {
            token: self.token.clone(),
            expires_at: self.expires_at.clone(),
            stream_id: self.stream_id.clone(),
            server_now_ms: self.server_now_ms,
            max_skew_ms: self.max_skew_ms,
            companion_token: model::copy_opt_text(&self.companion_token),
        }
    }
}

/// The text that a member is, empty where it is none.
pub open spec fn member_text(value: Json, name: Seq<char>) -> Seq<char> {
    match json::as_text(json::field(value, name)) {
        Some(s) => s,
        None => Seq::empty(),
    }
}

/// The text that a member is, empty where it is none.
pub fn read_member_text(value: &JsonValue, name: &str) -> (r: String)
    ensures
        r@ == member_text(value@, name@),
{
    match json::text_of(value.get(name)) {
        Some(s) => s.to_owned(),
        None => String::new(),
    }
}

/// What a reply to a session request grants, or why it grants nothing.
pub open spec fn grant_of(status: u16, value: Json) -> Result<GrantModel, ErrorModel> {
    if !success(status) {
        Err(
            ErrorModel::SessionAuthFailed(
                match json::as_text(json::field(value, "error"@)) {
                    Some(message) => message,
                    None => status_text(status),
                },
            ),
        )
    } else {
        let token = member_text(value, "token"@);
        let expires_at = member_text(value, "expiresAt"@);
        let stream_id = member_text(value, "streamId"@);
        if token.len() == 0 || expires_at.len() == 0 || stream_id.len() == 0 {
            Err(ErrorModel::InvalidResponse("Session auth returned invalid payload"@))
        } else {
            let renewed = text::trimmed(member_text(value, "companionToken"@));
            Ok(
                GrantModel {
                    token,
                    expires_at,
                    stream_id,
                    server_now_ms: json::as_signed(json::field(value, "serverNowMs"@)),
                    max_skew_ms: json::as_signed(json::field(value, "maxSkewMs"@)),
                    companion_token: if renewed.len() == 0 {
                        None
                    } else {
                        Some(renewed)
                    },
                },
            )
        }
    }
}

/// Reads a reply to a session request.
pub fn read_session_reply(status: u16, value: &JsonValue) -> (r: Result<SessionGrant, RelayError>)
    ensures
        match r {
            Ok(grant) => grant_of(status, value@) == Ok::<GrantModel, ErrorModel>(grant@),
            Err(error) => grant_of(status, value@) == Err::<GrantModel, ErrorModel>(error@),
        },
{
    if !(200 <= status && status < 300) {
        let message = match json::text_of(value.get("error")) {
            Some(message) => message.to_owned(),
            None => http_status_text(status),
        };
        return Err(RelayError::SessionAuthFailed(message));
    }
    let token = read_member_text(value, "token");
    let expires_at = read_member_text(value, "expiresAt");
    let stream_id = read_member_text(value, "streamId");
    if token.as_str().unicode_len() == 0 || expires_at.as_str().unicode_len() == 0
        || stream_id.as_str().unicode_len() == 0 {
        return Err(
            RelayError::InvalidResponse("Session auth returned invalid payload".to_owned()),
        );
    }
    let renewed = read_member_text(value, "companionToken");
    let renewed = text::trim(renewed.as_str());
    let companion_token = if renewed.unicode_len() == 0 {
        None
    } else {
        Some(renewed.to_owned())
    };
    Ok(
        SessionGrant {
            token,
            expires_at,
            stream_id,
            server_now_ms: json::signed_of(value.get("serverNowMs")),
            max_skew_ms: json::signed_of(value.get("maxSkewMs")),
            companion_token,
        },
    )
}

/// A relay client, apart from what carries its requests.
#[verifier::ext_equal]
pub struct ClientModel {
    pub config: ClientConfigModel,
    pub state: SessionModel,
}

/// The client once a grant was taken over: `expires_at_ms` is the time that the grant's expiry
/// denotes and `date_ms` that of the reply's `date` header.
pub open spec fn granted(
    client: ClientModel,
    grant: GrantModel,
    expires_at_ms: Option<i64>,
    date_ms: Option<i64>,
    now_ms: i64,
) -> (ClientModel, Result<(), ErrorModel>) {
    match expires_at_ms {
        None => (
            client,
            Err(ErrorModel::InvalidResponse("Session auth returned invalid expiresAt"@)),
        ),
        Some(expires) => {
            let server_now = match grant.server_now_ms {
                Some(time) => Some(time),
                None => date_ms,
            };
            let state = SessionModel {
                stream_id: grant.stream_id,
                relay_token: grant.token,
                relay_token_expires_at_ms: expires,
                clock_offset_ms: match server_now {
                    Some(time) => time.wrapping_sub(now_ms),
                    None => client.state.clock_offset_ms,
                },
                max_skew_ms: match grant.max_skew_ms {
                    Some(skew) => if skew > 0 {
                        skew
                    } else {
                        client.state.max_skew_ms
                    },
                    None => client.state.max_skew_ms,
                },
            };
            let stream_key = match grant.companion_token {
                Some(token) => if is_token(client.config.stream_key) {
                    token
                } else {
                    client.config.stream_key
                },
                None => client.config.stream_key,
            };
            (
                ClientModel {
                    config: ClientConfigModel { stream_key, ..client.config },
                    state,
                },
                Ok(()),
            )
        },
    }
}

/// The client after a reply to a session request.
pub open spec fn session_answered(client: ClientModel, response: ResponseModel, now_ms: i64) -> (
    ClientModel,
    Result<(), ErrorModel>,
) {
    match grant_of(response.status, body_json(response.body)) {
        Err(error) => (client, Err(error)),
        Ok(grant) => granted(
            client,
            grant,
            iso_millis(grant.expires_at),
            response_date(response.headers),
            now_ms,
        ),
    }
}

/// The client without its token.
pub open spec fn without_token(client: ClientModel) -> ClientModel {
    ClientModel {
        state: SessionModel {
            relay_token: Seq::empty(),
            relay_token_expires_at_ms: 0,
            ..client.state
        },
        ..client
    }
}

/// The client after a reply to an event. `date_ms` is the time of the reply's `date` header.
pub open spec fn event_answered(
    client: ClientModel,
    status: u16,
    body: Seq<char>,
    date_ms: Option<i64>,
    now_ms: i64,
) -> (ClientModel, Result<(), ErrorModel>) {
    if status == 401 || status == 403 {
        (without_token(client), Err(ErrorModel::RelayTokenRejected))
    } else if status == 409 {
        (without_token(client), Err(ErrorModel::StreamOfflineOrRotated))
    } else if status == 429 {
        (client, Err(ErrorModel::Throttled))
    } else if success(status) {
        (client, Ok(()))
    } else if status == 400 && text::contains_text(body, "Stale or invalid event timestamp"@) {
        (
            match date_ms {
                Some(date) => ClientModel {
                    state: SessionModel {
                        clock_offset_ms: date.wrapping_sub(now_ms),
                        ..client.state
                    },
                    ..client
                },
                None => client,
            },
            Err(ErrorModel::TimestampRejectedResynced),
        )
    } else {
        (
            client,
            Err(
                ErrorModel::IngestFailed(
                    if text::trimmed(body).len() == 0 {
                        status_text(status)
                    } else {
                        status_text(status) + " "@ + text::trimmed(body)
                    },
                ),
            ),
        )
    }
}

/// The request for a session.
pub open spec fn session_request(config: ClientConfigModel, url: Seq<char>) -> RequestModel {
    let credential = text::trimmed(config.stream_key);
    let content = ("content-type"@, "application/json"@);
    let creator = ("creatorUsername"@, PayloadModel::Text(config.creator_username));
    if is_token(credential) {
        RequestModel {
            url,
            headers: seq![content, ("authorization"@, "Bearer "@ + credential)],
            body: PayloadModel::Members(seq![creator]),
        }
    } else {
        RequestModel {
            url,
            headers: seq![content],
            body: PayloadModel::Members(
                seq![creator, ("streamKey"@, PayloadModel::Text(credential))],
            ),
        }
    }
}

/// The request that carries an event.
pub open spec fn event_request(token: Seq<char>, url: Seq<char>, event: EventModel) -> RequestModel {
    RequestModel {
        url,
        headers: seq![
            ("content-type"@, "application/json"@),
            ("authorization"@, "Bearer "@ + token),
        ],
        body: event_payload(event),
    }
}

/// The service's time at a local time, as the session knows it.
pub open spec fn service_time(state: SessionModel, now_ms: i64) -> i64 {
    now_ms.wrapping_add(state.clock_offset_ms)
}

/// A token is there and lasts for more than twenty seconds.
pub open spec fn session_fresh(state: SessionModel, now_ms: i64) -> bool {
    state.relay_token.len() > 0 && state.relay_token_expires_at_ms - now_ms > 20_000
}

/// What a call leaves behind: the client, the requests handed over, what came back for them and
/// the outcome.
#[verifier::ext_equal]
pub struct CallModel {
    pub client: ClientModel,
    pub sent: Seq<RequestModel>,
    pub received: Seq<Result<ResponseModel, ErrorModel>>,
    pub result: Result<(), ErrorModel>,
}

/// What asking for a session leaves behind where `reply` comes back.
pub open spec fn session_created(
    client: ClientModel,
    sent: Seq<RequestModel>,
    received: Seq<Result<ResponseModel, ErrorModel>>,
    now_ms: i64,
    reply: Result<ResponseModel, ErrorModel>,
) -> CallModel {
    match service_url(client.config.base_url, client.config.session_path) {
        Err(error) => CallModel { client, sent, received, result: Err(error) },
        Ok(url) => {
            let sent = sent.push(session_request(client.config, url));
            let received = received.push(reply);
            match reply {
                Err(error) => CallModel { client, sent, received, result: Err(error) },
                Ok(response) => {
                    let (client, result) = session_answered(client, response, now_ms);
                    CallModel { client, sent, received, result }
                },
            }
        },
    }
}

/// What making sure of a session leaves behind.
pub open spec fn session_ensured(
    client: ClientModel,
    sent: Seq<RequestModel>,
    received: Seq<Result<ResponseModel, ErrorModel>>,
    now_ms: i64,
    reply: Result<ResponseModel, ErrorModel>,
) -> CallModel {
    if session_fresh(client.state, now_ms) {
        CallModel { client, sent, received, result: Ok(()) }
    } else {
        session_created(client, sent, received, now_ms, reply)
    }
}

/// What sending an event leaves behind: `session_reply` answers the session request, if one is
/// needed, and `reply` the event.
pub open spec fn event_pushed(
    client: ClientModel,
    sent: Seq<RequestModel>,
    received: Seq<Result<ResponseModel, ErrorModel>>,
    event: EventModel,
    now_ms: i64,
    session_reply: Result<ResponseModel, ErrorModel>,
    reply: Result<ResponseModel, ErrorModel>,
) -> CallModel {
    let ready = session_ensured(client, sent, received, now_ms, session_reply);
    match ready.result {
        Err(_) => ready,
        Ok(_) => match service_url(ready.client.config.base_url, ready.client.config.ingest_path) {
            Err(error) => CallModel { result: Err(error), ..ready },
            Ok(url) => {
                let sent = ready.sent.push(
                    event_request(ready.client.state.relay_token, url, event),
                );
                let received = ready.received.push(reply);
                match reply {
                    Err(error) => CallModel { sent, received, result: Err(error), ..ready },
                    Ok(response) => {
                        let (client, result) = event_answered(
                            ready.client,
                            response.status,
                            response.body,
                            response_date(response.headers),
                            now_ms,
                        );
                        CallModel { client, sent, received, result }
                    },
                }
            },
        },
    }
}

/// A client of the relay service.
pub struct RelayClient<T: HttpTransport> {
    transport: T,
    config: RelayClientConfig,
    state: RelaySessionState,
}

impl<T: HttpTransport> RelayClient<T> {
    /// The client, apart from what carries its requests.
    pub closed spec fn client(&self) -> ClientModel {
        ClientModel { config: self.config@, state: self.state@ }
    }

    /// The requests that were handed over so far.
    pub closed spec fn sent(&self) -> Seq<RequestModel> {
        self.transport.sent()
    }

    /// What came back for them.
    pub closed spec fn received(&self) -> Seq<Result<ResponseModel, ErrorModel>> {
        self.transport.received()
    }

    /// Makes a client without a session.
    pub fn new(config: RelayClientConfig, transport: T) -> (r: Self)
        ensures
            r.client() == (ClientModel { config: config@, state: no_session() }),
            r.sent() == transport.sent(),
            r.received() == transport.received(),
    {
        RelayClient { transport, config, state: RelaySessionState::default() }
    }

    /// The state of the session.
    pub fn state(&self) -> (r: &RelaySessionState)
        ensures
            r@ == self.client().state,
    {
        &self.state
    }

    /// The configuration, with the credential that is used now.
    pub fn config(&self) -> (r: &RelayClientConfig)
        ensures
            r@ == self.client().config,
    {
        &self.config
    }

    /// What carries the requests.
    pub fn transport(&self) -> (r: &T)
        ensures
            r.sent() == self.sent(),
            r.received() == self.received(),
    {
        &self.transport
    }

    /// The service's time at a local time.
    pub fn next_client_ts_ms(&self, now_ms: i64) -> (r: i64)
        ensures
            r == now_ms.wrapping_add(self.client().state.clock_offset_ms),
            r == service_time(self.client().state, now_ms),
    {
        now_ms.wrapping_add(self.state.clock_offset_ms)
    }

    /// Takes over a grant.
    pub fn accept_grant(
        &mut self,
        grant: SessionGrant,
        expires_at_ms: Option<i64>,
        date_ms: Option<i64>,
        now_ms: i64,
    ) -> (r: Result<(), RelayError>)
        ensures
            (final(self).client(), outcome(r)) == granted(
                old(self).client(),
                grant@,
                expires_at_ms,
                date_ms,
                now_ms,
            ),
            final(self).sent() == old(self).sent(),
            final(self).received() == old(self).received(),
    {
        let expires: i64 = match expires_at_ms {
            Some(expires) => expires,
            None => {
                return Err(
                    RelayError::InvalidResponse(
                        "Session auth returned invalid expiresAt".to_owned(),
                    ),
                );
            },
        };
        let server_now = match grant.server_now_ms {
            Some(time) => Some(time),
            None => date_ms,
        };
        self.state.relay_token = grant.token;
        self.state.relay_token_expires_at_ms = expires;
        self.state.stream_id = grant.stream_id;
        if let Some(time) = server_now {
            self.state.clock_offset_ms = time.wrapping_sub(now_ms);
        }
        if let Some(skew) = grant.max_skew_ms {
            if skew > 0 {
                self.state.max_skew_ms = skew;
            }
        }
        if is_companion_token_credential(self.config.stream_key.as_str()) {
            if let Some(token) = grant.companion_token {
                self.config.stream_key = token;
            }
        }
        Ok(())
    }

    /// Takes over a reply to a session request.
    pub fn accept_session_reply(&mut self, response: &HttpResponse, now_ms: i64) -> (r: Result<
        (),
        RelayError,
    >)
        ensures
            (final(self).client(), outcome(r)) == session_answered(
                old(self).client(),
                response@,
                now_ms,
            ),
            final(self).sent() == old(self).sent(),
            final(self).received() == old(self).received(),
    {
        let value = parse_json_body(response.body.as_str());
        let grant = match read_session_reply(response.status, &value) {
            Ok(grant) => grant,
            Err(error) => {
                return Err(error);
            },
        };
        let expires = parse_iso(grant.expires_at.as_str());
        let date = parse_response_date_ms(&response.headers);
        self.accept_grant(grant, expires, date, now_ms)
    }

    /// Asks for a session.
    pub fn create_session(&mut self, now_ms: i64) -> (r: Result<(), RelayError>)
        ensures
            (CallModel {
                client: final(self).client(),
                sent: final(self).sent(),
                received: final(self).received(),
                result: outcome(r),
            }) == session_created(
                old(self).client(),
                old(self).sent(),
                old(self).received(),
                now_ms,
                final(self).received().last(),
            ),
    {
        let url = match build_url(&self.config.base_url, self.config.session_path.as_str()) {
            Ok(url) => url,
            Err(error) => {
                return Err(error);
            },
        };
        let credential = text::trim(self.config.stream_key.as_str());
        let mut headers: Vec<(String, String)> = Vec::new();
        headers.push(("content-type".to_owned(), "application/json".to_owned()));
        let mut members: Vec<(String, Payload)> = Vec::new();
        payload::push_member(
            &mut members,
            "creatorUsername",
            payload::text_value(self.config.creator_username.as_str()),
        );
        if is_companion_token_credential(credential) {
            headers.push(("authorization".to_owned(), text::concat2("Bearer ", credential)));
        } else {
            payload::push_member(&mut members, "streamKey", payload::text_value(credential));
        }
        proof {
            let request = session_request(self.config@, url@);
            assert(model::pairs(headers@) =~= request.headers);
            assert(payload::members_model(members@) =~= request.body->Members_0);
        }
        let reply = self.transport.post_json(url.as_str(), &headers, Payload::Members(members));
        match reply {
            Ok(response) => self.accept_session_reply(&response, now_ms),
            Err(error) => Err(error),
        }
    }

    /// Makes sure that there is a session that lasts.
    pub fn ensure_session(&mut self, now_ms: i64) -> (r: Result<(), RelayError>)
        ensures
            (CallModel {
                client: final(self).client(),
                sent: final(self).sent(),
                received: final(self).received(),
                result: outcome(r),
            }) == session_ensured(
                old(self).client(),
                old(self).sent(),
                old(self).received(),
                now_ms,
                final(self).received().last(),
            ),
    {
        let left: i128 = self.state.relay_token_expires_at_ms as i128 - now_ms as i128;
        if self.state.relay_token.as_str().unicode_len() > 0 && left > 20_000 {
            return Ok(());
        }
        self.create_session(now_ms)
    }

    /// Takes over a reply to an event.
    pub fn accept_event_reply(
        &mut self,
        status: u16,
        body: &str,
        date_ms: Option<i64>,
        now_ms: i64,
    ) -> (r: Result<(), RelayError>)
        ensures
            (final(self).client(), outcome(r)) == event_answered(
                old(self).client(),
                status,
                body@,
                date_ms,
                now_ms,
            ),
            final(self).sent() == old(self).sent(),
            final(self).received() == old(self).received(),
    {
        if status == 401 || status == 403 || status == 409 {
            self.state.relay_token = String::new();
            self.state.relay_token_expires_at_ms = 0;
            assert(self.client().state.relay_token =~= Seq::<char>::empty());
            if status == 409 {
                return Err(RelayError::StreamOfflineOrRotated);
            }
            return Err(RelayError::RelayTokenRejected);
        }
        if status == 429 {
            return Err(RelayError::Throttled);
        }
        if 200 <= status && status < 300 {
            return Ok(());
        }
        if status == 400 && text::contains(body, "Stale or invalid event timestamp") {
            if let Some(date) = date_ms {
                self.state.clock_offset_ms = date.wrapping_sub(now_ms);
            }
            return Err(RelayError::TimestampRejectedResynced);
        }
        let status_line = http_status_text(status);
        let trimmed = text::trim(body);
        let message = if trimmed.unicode_len() == 0 {
            status_line
        } else {
            text::concat3(status_line.as_str(), " ", trimmed)
        };
        Err(RelayError::IngestFailed(message))
    }

    /// Sends an event.
    pub fn push_event(&mut self, event: &RelayEvent, now_ms: i64) -> (r: Result<(), RelayError>)
        ensures
            (CallModel {
                client: final(self).client(),
                sent: final(self).sent(),
                received: final(self).received(),
                result: outcome(r),
            }) == event_pushed(
                old(self).client(),
                old(self).sent(),
                old(self).received(),
                event@,
                now_ms,
                final(self).received()[old(self).received().len() as int],
                final(self).received().last(),
            ),
    {
        let ready = self.ensure_session(now_ms);
        if let Err(error) = ready {
            return Err(error);
        }
        let url = match build_url(&self.config.base_url, self.config.ingest_path.as_str()) {
            Ok(url) => url,
            Err(error) => {
                return Err(error);
            },
        };
        let mut headers: Vec<(String, String)> = Vec::new();
        headers.push(("content-type".to_owned(), "application/json".to_owned()));
        headers.push(
            (
                "authorization".to_owned(),
                text::concat2("Bearer ", self.state.relay_token.as_str()),
            ),
        );
        assert(model::pairs(headers@) =~= event_request(
            self.state@.relay_token,
            url@,
            event@,
        ).headers);
        let reply = self.transport.post_json(url.as_str(), &headers, event.as_json());
        match reply {
            Ok(response) => {
                let date = parse_response_date_ms(&response.headers);
                self.accept_event_reply(response.status, response.body.as_str(), date, now_ms)
            },
            Err(error) => Err(error),
        }
    }
}

/// A refused token, and a stream that is offline or was rotated, end the session: the token is
/// dropped, and the next event asks for a new session first.
pub proof fn law_refusal_ends_session(
    client: ClientModel,
    status: u16,
    body: Seq<char>,
    date_ms: Option<i64>,
    now_ms: i64,
    later_ms: i64,
)
    requires
        status == 401 || status == 403 || status == 409,
    ensures
        ({
            let (after, result) = event_answered(client, status, body, date_ms, now_ms);
            &&& result is Err
            &&& after.state.relay_token.len() == 0
            &&& !session_fresh(after.state, later_ms)
        }),
{
}

/// A reply to an event never changes the credential, and neither does a session that is granted
/// to a stream key: only a companion token is replaced, by the token that the grant renews it
/// with.
pub proof fn law_credential_kept(
    client: ClientModel,
    response: ResponseModel,
    status: u16,
    body: Seq<char>,
    date_ms: Option<i64>,
    now_ms: i64,
)
    ensures
        event_answered(client, status, body, date_ms, now_ms).0.config == client.config,
        !is_token(client.config.stream_key) ==> session_answered(
            client,
            response,
            now_ms,
        ).0.config == client.config,
{
    assert(session_answered(client, response, now_ms).0.config.stream_key
        == client.config.stream_key ==> session_answered(client, response, now_ms).0.config
        =~= client.config);
}

/// The client with another credential and another token.
pub open spec fn with_secrets(
    client: ClientModel,
    credential: Seq<char>,
    token: Seq<char>,
) -> ClientModel {
    ClientModel {
        config: ClientConfigModel { stream_key: credential, ..client.config },
        state: SessionModel { relay_token: token, ..client.state },
    }
}

/// Neither the credential nor the token stands in an error, so none gets into the log: whatever
/// they are, the same replies lead to the same outcome.
pub proof fn law_secrets_not_in_errors(
    client: ClientModel,
    credential: Seq<char>,
    token: Seq<char>,
    sent: Seq<RequestModel>,
    received: Seq<Result<ResponseModel, ErrorModel>>,
    event: EventModel,
    now_ms: i64,
    session_reply: Result<ResponseModel, ErrorModel>,
    reply: Result<ResponseModel, ErrorModel>,
)
    requires
        token.len() > 0 <==> client.state.relay_token.len() > 0,
    ensures
        event_pushed(
            with_secrets(client, credential, token),
            sent,
            received,
            event,
            now_ms,
            session_reply,
            reply,
        ).result == event_pushed(
            client,
            sent,
            received,
            event,
            now_ms,
            session_reply,
            reply,
        ).result,
{
    let other = with_secrets(client, credential, token);
    let ready = session_ensured(client, sent, received, now_ms, session_reply);
    let other_ready = session_ensured(other, sent, received, now_ms, session_reply);
    assert(ready.result == other_ready.result);
    assert(ready.client.config.base_url == other_ready.client.config.base_url);
    assert(ready.client.config.ingest_path == other_ready.client.config.ingest_path);
}

/// A request for a session that is refused leaves the client as it was.
pub proof fn law_refused_session_changes_nothing(
    client: ClientModel,
    response: ResponseModel,
    now_ms: i64,
)
    requires
        session_answered(client, response, now_ms).1 is Err,
    ensures
        session_answered(client, response, now_ms).0 == client,
{
}

/// What sends events for the bridge.
pub trait RelayPublisher: Send {
    /// Sends an event.
    fn push_event(&mut self, event: &RelayEvent, now_ms: i64) -> (r: Result<(), RelayError>);

    /// The service's time at a local time.
    fn next_client_ts_ms(&self, now_ms: i64) -> (r: i64);

    /// The state of the session.
    fn session_state(&self) -> (r: RelaySessionState);
}

impl<T: HttpTransport + Send> RelayPublisher for RelayClient<T> {
    fn push_event(&mut self, event: &RelayEvent, now_ms: i64) -> (r: Result<(), RelayError>)
        ensures
            (CallModel {
                client: final(self).client(),
                sent: final(self).sent(),
                received: final(self).received(),
                result: outcome(r),
            }) == event_pushed(
                old(self).client(),
                old(self).sent(),
                old(self).received(),
                event@,
                now_ms,
                final(self).received()[old(self).received().len() as int],
                final(self).received().last(),
            ),
    {
        RelayClient::push_event(self, event, now_ms)
    }

    fn next_client_ts_ms(&self, now_ms: i64) -> (r: i64)
        ensures
            r == now_ms.wrapping_add(self.client().state.clock_offset_ms),
    {
        RelayClient::next_client_ts_ms(self, now_ms)
    }

    fn session_state(&self) -> (r: RelaySessionState)
        ensures
            r@ == self.client().state,
    {
        self.state.duplicate()
    }
}

/// A request that was recorded.
#[derive(Debug, PartialEq, Eq)]
pub struct SentRequest {
    pub url: String,
    pub headers: Vec<(String, String)>,
    pub body: Payload,
}

impl View for SentRequest {
    type V = RequestModel;

    open spec fn view(&self) -> RequestModel {
        RequestModel {
            url: self.url@,
            headers: model::pairs(self.headers@),
            body: self.body@,
        }
    }
}

/// A transport that records the requests and answers with replies given beforehand.
pub struct MockTransport {
    pub requests: Vec<SentRequest>,
    pub responses: Vec<Result<HttpResponse, RelayError>>,
    pub given: Ghost<Seq<Result<ResponseModel, ErrorModel>>>,
}

impl MockTransport {
    /// A transport with the given replies.
    pub fn with_responses(responses: Vec<Result<HttpResponse, RelayError>>) -> (r: Self)
        ensures
            r.requests@.len() == 0,
            r.responses == responses,
            r.received() == Seq::<Result<ResponseModel, ErrorModel>>::empty(),
    {
        MockTransport { requests: Vec::new(), responses, given: Ghost(Seq::empty()) }
    }
}

impl HttpTransport for MockTransport {
    open spec fn sent(&self) -> Seq<RequestModel> {
        model::views(self.requests@)
    }

    open spec fn received(&self) -> Seq<Result<ResponseModel, ErrorModel>> {
        self.given@
    }

    fn post_json(&mut self, url: &str, headers: &Vec<(String, String)>, body: Payload) -> (r: Result<
        HttpResponse,
        RelayError,
    >)
        ensures
            old(self).responses@.len() > 0 ==> r == old(self).responses@[0]
                && final(self).responses@ == old(self).responses@.drop_first(),
            old(self).responses@.len() == 0 ==> final(self).responses@.len() == 0 && reply_of(r)
                == Err::<ResponseModel, ErrorModel>(
                ErrorModel::Transport("No mock response queued"@),
            ),
    {
        let request = SentRequest {
            url: url.to_owned(),
            headers: model::copy_pairs(headers),
            body,
        };
        proof {
            model::lemma_views_push(self.requests@, request);
        }
        self.requests.push(request);
        let reply = if self.responses.len() == 0 {
            Err(RelayError::Transport("No mock response queued".to_owned()))
        } else {
            let first = self.responses.remove(0);
            assert(self.responses@ =~= old(self).responses@.drop_first());
            first
        };
        self.given = Ghost(self.given@.push(reply_of(reply)));
        reply
    }
}

/// An HTTP client. Nothing is promised of it: what it hands back is up to the network.
pub trait HttpClient {
    /// Posts a document and waits for the reply.
    fn post(&mut self, url: &str, headers: &Vec<(String, String)>, body: Payload) -> (r: Result<
        HttpResponse,
        RelayError,
    >);
}

/// A transport that hands each request to an HTTP client.
pub struct ClientTransport<C: HttpClient> {
    client: C,
    asked: Ghost<Seq<RequestModel>>,
    answered: Ghost<Seq<Result<ResponseModel, ErrorModel>>>,
}

impl<C: HttpClient> ClientTransport<C> {
    /// Makes a transport that has handed nothing over yet.
    pub fn new(client: C) -> (r: Self)
        ensures
            r.sent() == Seq::<RequestModel>::empty(),
            r.received() == Seq::<Result<ResponseModel, ErrorModel>>::empty(),
    {
        ClientTransport { client, asked: Ghost(Seq::empty()), answered: Ghost(Seq::empty()) }
    }
}

impl<C: HttpClient> HttpTransport for ClientTransport<C> {
    closed spec fn sent(&self) -> Seq<RequestModel> {
        self.asked@
    }

    closed spec fn received(&self) -> Seq<Result<ResponseModel, ErrorModel>> {
        self.answered@
    }

    fn post_json(&mut self, url: &str, headers: &Vec<(String, String)>, body: Payload) -> (r: Result<
        HttpResponse,
        RelayError,
    >) {
        self.asked = Ghost(
            self.asked@.push(
                RequestModel { url: url@, headers: model::pairs(headers@), body: body@ },
            ),
        );
        let reply = self.client.post(url, headers, body);
        self.answered = Ghost(self.answered@.push(reply_of(reply)));
        reply
    }
}

} // verus!
