//! Laws of the conversation with the relay: when a session is asked for, what a request says,
//! what a reply changes, and how long the relay is left alone after an error.
use vstd::prelude::*;
use crate::json;
use crate::mapping;
use crate::payload::PayloadModel;
use crate::relay;
use crate::relay::{
    CallModel, ClientConfigModel, ClientModel, ErrorModel, EventModel, RequestModel, ResponseModel,
};
use crate::runtime;
use crate::session_laws;
use crate::text;

verus! {

/// The member stands in the document.
pub open spec fn says(body: PayloadModel, name: Seq<char>, value: PayloadModel) -> bool {
    body matches PayloadModel::Members(members) && members.contains((name, value))
}

/// How many members a document has.
pub open spec fn member_count(body: PayloadModel) -> nat {
    match body {
        PayloadModel::Members(members) => members.len(),
        _ => 0,
    }
}

/// The header stands in the request.
pub open spec fn sends(request: RequestModel, name: Seq<char>, value: Seq<char>) -> bool {
    request.headers.contains((name, value))
}

/// With a token that is missing or runs out within twenty seconds, the first request goes to the
/// session path; with one that lasts longer, the only request is the event's, to the ingest path
/// and under that token. Nothing that was sent before is touched.
pub proof fn law_session_asked_for_first(
    client: ClientModel,
    sent: Seq<RequestModel>,
    received: Seq<Result<ResponseModel, ErrorModel>>,
    event: EventModel,
    now_ms: i64,
    session_reply: Result<ResponseModel, ErrorModel>,
    reply: Result<ResponseModel, ErrorModel>,
)
    ensures
        ({
            let call = relay::event_pushed(
                client,
                sent,
                received,
                event,
                now_ms,
                session_reply,
                reply,
            );
            let session_url = relay::url_joined(
                client.config.base_url.text,
                client.config.session_path,
            );
            let ingest_url = relay::url_joined(
                client.config.base_url.text,
                client.config.ingest_path,
            );
            let lasts = client.state.relay_token.len() > 0 && now_ms + 20_000
                < client.state.relay_token_expires_at_ms;
            &&& sent.is_prefix_of(call.sent)
            &&& call.sent.len() <= sent.len() + 2
            &&& call.sent.len() - sent.len() == call.received.len() - received.len()
            &&& lasts ==> {
                &&& call.sent.len() <= sent.len() + 1
                &&& ingest_url is Ok <==> call.sent.len() == sent.len() + 1
                &&& call.sent.len() == sent.len() + 1 ==> {
                    let request = call.sent[sent.len() as int];
                    &&& Ok::<Seq<char>, Seq<char>>(request.url) == ingest_url
                    &&& sends(request, "authorization"@, "Bearer "@ + client.state.relay_token)
                    &&& request.body == relay::event_payload(event)
                }
            }
            &&& !lasts ==> {
                &&& session_url is Ok <==> call.sent.len() > sent.len()
                &&& call.sent.len() > sent.len() ==> Ok::<Seq<char>, Seq<char>>(
                    call.sent[sent.len() as int].url,
                ) == session_url && call.sent[sent.len() as int] == relay::session_request(
                    client.config,
                    call.sent[sent.len() as int].url,
                )
                &&& call.sent.len() == sent.len() + 2 ==> {
                    let request = call.sent[sent.len() as int + 1];
                    &&& session_reply matches Ok(response) && relay::success(response.status)
                    &&& Ok::<Seq<char>, Seq<char>>(request.url) == ingest_url
                    &&& request.body == relay::event_payload(event)
                    &&& session_reply matches Ok(response) && sends(
                        request,
                        "authorization"@,
                        "Bearer "@ + relay::member_text(
                            relay::body_json(response.body),
                            "token"@,
                        ),
                    )
                }
                &&& session_reply is Err ==> call.sent.len() <= sent.len() + 1 && call.result is Err
            }
        }),
{
    let ready = relay::session_ensured(client, sent, received, now_ms, session_reply);
    if let Ok(url) = relay::service_url(
        ready.client.config.base_url,
        ready.client.config.ingest_path,
    ) {
        let request = relay::event_request(ready.client.state.relay_token, url, event);
        assert(request.headers[1] == ("authorization"@, "Bearer "@
            + ready.client.state.relay_token));
    }
}

/// What a push reports is the first thing that went wrong: the session's error, else the
/// transport's, else what the event's reply says.
pub proof fn law_push_reports(
    client: ClientModel,
    sent: Seq<RequestModel>,
    received: Seq<Result<ResponseModel, ErrorModel>>,
    event: EventModel,
    now_ms: i64,
    session_reply: Result<ResponseModel, ErrorModel>,
    reply: Result<ResponseModel, ErrorModel>,
)
    ensures
        ({
            let call = relay::event_pushed(
                client,
                sent,
                received,
                event,
                now_ms,
                session_reply,
                reply,
            );
            let ready = relay::session_ensured(client, sent, received, now_ms, session_reply);
            &&& call.result is Ok ==> ready.result is Ok && (reply matches Ok(response) && 200
                <= response.status <= 299)
            &&& ready.result is Err ==> call == ready
            &&& ready.result is Ok && call.sent.len() > ready.sent.len() ==> {
                &&& call.received.last() == reply
                &&& (reply matches Err(error) ==> call.result == Err::<(), ErrorModel>(error)
                    && call.client == ready.client)
                &&& (reply matches Ok(response) ==> (call.client, call.result)
                    == relay::event_answered(
                    ready.client,
                    response.status,
                    response.body,
                    relay::response_date(response.headers),
                    now_ms,
                ))
            }
            &&& ready.result is Ok && call.sent.len() == ready.sent.len() ==> call.client
                == ready.client && call.result is Err
        }),
{
}

/// The same of a session: what it reports is the transport's error, else what the reply says.
pub proof fn law_session_reports(
    client: ClientModel,
    sent: Seq<RequestModel>,
    received: Seq<Result<ResponseModel, ErrorModel>>,
    now_ms: i64,
    reply: Result<ResponseModel, ErrorModel>,
)
    ensures
        ({
            let call = relay::session_created(client, sent, received, now_ms, reply);
            &&& call.sent.len() == sent.len() ==> call.result is Err && call.client == client
            &&& call.sent.len() > sent.len() ==> {
                &&& call.sent.len() == sent.len() + 1 && call.received == received.push(reply)
                &&& (reply matches Err(error) ==> call.result == Err::<(), ErrorModel>(error)
                    && call.client == client)
                &&& (reply matches Ok(response) ==> (call.client, call.result)
                    == relay::session_answered(client, response, now_ms))
            }
        }),
{
}

/// A client that has just been made has no session and takes its own clock for the service's.
pub proof fn law_new_client()
    ensures
        relay::no_session().relay_token.len() == 0,
        relay::no_session().clock_offset_ms == 0,
        relay::no_session().max_skew_ms == 30_000,
{
}

/// A token that was found to last is used as it is, and asking again changes nothing.
pub proof fn law_lasting_session_kept(
    client: ClientModel,
    sent: Seq<RequestModel>,
    received: Seq<Result<ResponseModel, ErrorModel>>,
    now_ms: i64,
    reply: Result<ResponseModel, ErrorModel>,
)
    ensures
        client.state.relay_token.len() > 0 && now_ms + 20_000
            < client.state.relay_token_expires_at_ms ==> relay::session_ensured(
            client,
            sent,
            received,
            now_ms,
            reply,
        ) == (CallModel { client, sent, received, result: Ok(()) }),
        client.state.relay_token.len() == 0 || now_ms + 20_000
            >= client.state.relay_token_expires_at_ms ==> relay::session_ensured(
            client,
            sent,
            received,
            now_ms,
            reply,
        ) == relay::session_created(client, sent, received, now_ms, reply),
{
}

/// A request for a session names the creator. A companion token goes into the header and nowhere
/// else; any other key goes into the document and not into a header.
pub proof fn law_session_request(config: ClientConfigModel, url: Seq<char>)
    ensures
        ({
            let request = relay::session_request(config, url);
            let credential = text::trimmed(config.stream_key);
            &&& request.url == url
            &&& says(
                request.body,
                "creatorUsername"@,
                PayloadModel::Text(config.creator_username),
            )
            &&& sends(request, "content-type"@, "application/json"@)
            &&& if "vca1."@.is_prefix_of(credential) {
                &&& sends(request, "authorization"@, "Bearer "@ + credential)
                &&& member_count(request.body) == 1
                &&& request.headers.len() == 2
            } else {
                &&& says(request.body, "streamKey"@, PayloadModel::Text(credential))
                &&& member_count(request.body) == 2
                &&& request.headers.len() == 1
            }
        }),
{
    let request = relay::session_request(config, url);
    let credential = text::trimmed(config.stream_key);
    mapping::law_trim_again(config.stream_key);
    assert(request.headers[0] == ("content-type"@, "application/json"@));
    let creator = ("creatorUsername"@, PayloadModel::Text(config.creator_username));
    if relay::is_token(credential) {
        assert(request.headers[1] == ("authorization"@, "Bearer "@ + credential));
        assert(seq![creator][0] == creator);
    } else {
        let key = ("streamKey"@, PayloadModel::Text(credential));
        assert(seq![creator, key][0] == creator);
        assert(seq![creator, key][1] == key);
    }
}

/// A credential is a companion token exactly where it starts with the mark of one, blanks aside.
pub proof fn law_token_mark(rest: Seq<char>, credential: Seq<char>)
    ensures
        text::trimmed(credential) == "vca1."@ + rest ==> relay::is_token(credential),
        relay::is_token(credential) ==> text::trimmed(credential).len() >= 5
            && text::trimmed(credential).take(5) == "vca1."@,
{
    reveal_strlit("vca1.");
    if text::trimmed(credential) == "vca1."@ + rest {
        assert("vca1."@ =~= text::trimmed(credential).subrange(0, "vca1."@.len() as int));
    }
    if relay::is_token(credential) {
        assert(text::trimmed(credential).take(5) =~= "vca1."@);
    }
}

/// The document of an event says its number, its time, its three levels and its source, each
/// under its own name.
pub proof fn law_event_document(event: EventModel)
    ensures
        ({
            let body = relay::event_payload(event);
            &&& member_count(body) == 6
            &&& says(body, "seq"@, PayloadModel::Unsigned(event.seq))
            &&& says(body, "ts"@, PayloadModel::Signed(event.ts))
            &&& says(body, "intensity"@, PayloadModel::Float(event.intensity))
            &&& says(body, "peak"@, PayloadModel::Float(event.peak))
            &&& says(body, "raw"@, PayloadModel::Float(event.raw))
            &&& body matches PayloadModel::Members(members) && exists|i: int|
                0 <= i < members.len() && (#[trigger] members[i]).0 == "source"@ && member_count(
                    members[i].1,
                ) == 2 && says(
                    members[i].1,
                    "address"@,
                    PayloadModel::Text(event.source.address),
                ) && says(members[i].1, "argType"@, PayloadModel::Text(event.source.arg_type))
        }),
{
    let body = relay::event_payload(event);
    if let PayloadModel::Members(members) = body {
        assert(members[0] == ("seq"@, PayloadModel::Unsigned(event.seq)));
        assert(members[1] == ("ts"@, PayloadModel::Signed(event.ts)));
        assert(members[2] == ("intensity"@, PayloadModel::Float(event.intensity)));
        assert(members[3] == ("peak"@, PayloadModel::Float(event.peak)));
        assert(members[4] == ("raw"@, PayloadModel::Float(event.raw)));
        assert(members[5].0 == "source"@);
        if let PayloadModel::Members(inner) = members[5].1 {
            assert(inner[0] == ("address"@, PayloadModel::Text(event.source.address)));
            assert(inner[1] == ("argType"@, PayloadModel::Text(event.source.arg_type)));
        }
    }
}

/// A session is taken up exactly where the reply succeeds and names a token, a stream and a time
/// that can be read. The client then holds what the reply named, and its clock agrees with the
/// service's.
pub proof fn law_session_taken_up(client: ClientModel, response: ResponseModel, now_ms: i64)
    ensures
        ({
            let (after, result) = relay::session_answered(client, response, now_ms);
            let body = relay::body_json(response.body);
            let token = relay::member_text(body, "token"@);
            let stream = relay::member_text(body, "streamId"@);
            let expires = relay::member_text(body, "expiresAt"@);
            let renewed = text::trimmed(relay::member_text(body, "companionToken"@));
            let server_now = json::as_signed(json::field(body, "serverNowMs"@));
            let skew = json::as_signed(json::field(body, "maxSkewMs"@));
            &&& result is Ok <==> 200 <= response.status <= 299 && token.len() > 0 && stream.len()
                > 0 && expires.len() > 0 && relay::iso_millis(expires) is Some
            &&& !(200 <= response.status <= 299) ==> (result matches Err(
                ErrorModel::SessionAuthFailed(message),
            ) && (json::as_text(json::field(body, "error"@)) matches Some(said) ==> message
                == said))
            &&& 200 <= response.status <= 299 && result is Err ==> result->Err_0 is InvalidResponse
            &&& result is Err ==> after == client
            &&& result is Ok ==> {
                &&& after.state.relay_token == token
                &&& after.state.stream_id == stream
                &&& Some(after.state.relay_token_expires_at_ms) == relay::iso_millis(expires)
                &&& (server_now matches Some(time) ==> (i64::MIN <= time - now_ms <= i64::MAX
                    ==> now_ms + after.state.clock_offset_ms == time))
                &&& server_now is None ==> (relay::response_date(response.headers) matches Some(
                    date,
                ) ==> (i64::MIN <= date - now_ms <= i64::MAX ==> now_ms
                    + after.state.clock_offset_ms == date))
                &&& server_now is None && relay::response_date(response.headers) is None
                    ==> after.state.clock_offset_ms == client.state.clock_offset_ms
                &&& (skew matches Some(n) ==> after.state.max_skew_ms == if n > 0 {
                    n
                } else {
                    client.state.max_skew_ms
                })
                &&& skew is None ==> after.state.max_skew_ms == client.state.max_skew_ms
                &&& renewed.len() > 0 && relay::is_token(client.config.stream_key)
                    ==> after.config.stream_key == renewed
                &&& renewed.len() == 0 || !relay::is_token(client.config.stream_key)
                    ==> after.config.stream_key == client.config.stream_key
                &&& after.config.base_url == client.config.base_url
                &&& after.config.creator_username == client.config.creator_username
                &&& after.config.session_path == client.config.session_path
                &&& after.config.ingest_path == client.config.ingest_path
            }
        }),
{
}

/// An event counts as accepted exactly where the status says success, and each refusal has its
/// own error. The token is dropped where it was rejected or the stream is gone, and kept
/// otherwise; the clock is set anew only where the time was refused.
pub proof fn law_event_reply(
    client: ClientModel,
    status: u16,
    body: Seq<char>,
    date_ms: Option<i64>,
    now_ms: i64,
)
    ensures
        ({
            let (after, result) = relay::event_answered(client, status, body, date_ms, now_ms);
            let stale = status == 400 && text::contains_text(
                body,
                "Stale or invalid event timestamp"@,
            );
            &&& result is Ok <==> 200 <= status <= 299
            &&& result == Err::<(), ErrorModel>(ErrorModel::RelayTokenRejected) <==> status == 401
                || status == 403
            &&& result == Err::<(), ErrorModel>(ErrorModel::StreamOfflineOrRotated) <==> status
                == 409
            &&& result == Err::<(), ErrorModel>(ErrorModel::Throttled) <==> status == 429
            &&& result == Err::<(), ErrorModel>(ErrorModel::TimestampRejectedResynced) <==> stale
            &&& after.config == client.config
            &&& after.state.stream_id == client.state.stream_id
            &&& after.state.max_skew_ms == client.state.max_skew_ms
            &&& status != 401 && status != 403 && status != 409 ==> after.state.relay_token
                == client.state.relay_token && after.state.relay_token_expires_at_ms
                == client.state.relay_token_expires_at_ms
            &&& status == 401 || status == 403 || status == 409 ==> after.state.relay_token.len()
                == 0
            &&& stale ==> (date_ms matches Some(date) ==> (i64::MIN <= date - now_ms <= i64::MAX
                ==> now_ms + after.state.clock_offset_ms == date))
            &&& !stale || date_ms is None ==> after.state.clock_offset_ms
                == client.state.clock_offset_ms
            &&& result matches Err(ErrorModel::IngestFailed(message)) ==> {
                &&& text::trimmed(body).is_suffix_of(message)
                &&& relay::status_text(status).is_prefix_of(message)
            }
        }),
{
    let (after, result) = relay::event_answered(client, status, body, date_ms, now_ms);
    if let Err(ErrorModel::IngestFailed(message)) = result {
        let t = text::trimmed(body);
        let s = relay::status_text(status);
        assert(message.subrange(0, s.len() as int) =~= s);
        assert(message.subrange(message.len() - t.len(), message.len() as int) =~= t);
    }
}

/// The text of an error ends in what it reports.
pub proof fn law_error_says_why(message: Seq<char>, status: u16)
    ensures
        message.is_suffix_of(relay::error_text(ErrorModel::Transport(message))),
        message.is_suffix_of(relay::error_text(ErrorModel::InvalidResponse(message))),
        message.is_suffix_of(relay::error_text(ErrorModel::SessionAuthFailed(message))),
        message.is_suffix_of(relay::error_text(ErrorModel::IngestFailed(message))),
        "HTTP "@ + text::decimal_text(status as nat) == relay::status_text(status),
{
    let a = relay::error_text(ErrorModel::Transport(message));
    let b = relay::error_text(ErrorModel::InvalidResponse(message));
    let c = relay::error_text(ErrorModel::SessionAuthFailed(message));
    let d = relay::error_text(ErrorModel::IngestFailed(message));
    assert(a.subrange(a.len() - message.len(), a.len() as int) =~= message);
    assert(b.subrange(b.len() - message.len(), b.len() as int) =~= message);
    assert(c.subrange(c.len() - message.len(), c.len() as int) =~= message);
    assert(d.subrange(d.len() - message.len(), d.len() as int) =~= message);
}

/// A delay starts at its base and doubles from one attempt to the next, up to its cap.
pub proof fn law_delay_doubles(base: int, max: int, attempts: nat)
    requires
        0 < base <= max,
        1 <= attempts,
    ensures
        runtime::backoff(base, max, 0) == base,
        runtime::backoff(base, max, 1) == base,
        attempts <= 10 && 2 * runtime::backoff(base, max, attempts) <= max ==> runtime::backoff(
            base,
            max,
            attempts + 1,
        ) == 2 * runtime::backoff(base, max, attempts),
        attempts <= 10 && 2 * runtime::backoff(base, max, attempts) > max ==> runtime::backoff(
            base,
            max,
            attempts + 1,
        ) == max,
        attempts >= 11 ==> runtime::backoff(base, max, attempts) == runtime::backoff(base, max, 11),
{
    vstd::arithmetic::power2::lemma2_to64();
    if attempts <= 10 {
        let n = (attempts - 1) as nat;
        let x = vstd::arithmetic::power2::pow2(n);
        let y = vstd::arithmetic::power2::pow2((n + 1) as nat);
        vstd::arithmetic::power2::lemma_pow2_unfold((n + 1) as nat);
        vstd::arithmetic::power2::lemma_pow2_pos(n);
        assert(base * y == 2 * (base * x)) by (nonlinear_arith)
            requires
                y == 2 * x,
        ;
        assert(base * x >= base) by (nonlinear_arith)
            requires
                x >= 1,
                base > 0,
        ;
    }
}

/// A throttled relay is left alone for longer than one that refuses the credential or the stream,
/// and that one for longer than one that could not be reached. A refused time is tried again
/// after half a second, however often.
pub proof fn law_delays_of_errors(message: Seq<char>, attempts: nat)
    ensures
        runtime::retry_delay(ErrorModel::TimestampRejectedResynced, attempts) == 500,
        runtime::retry_delay(ErrorModel::Throttled, attempts) > runtime::retry_delay(
            ErrorModel::RelayTokenRejected,
            attempts,
        ) > runtime::retry_delay(ErrorModel::Transport(message), attempts),
        runtime::retry_delay(ErrorModel::RelayTokenRejected, attempts) == runtime::retry_delay(
            ErrorModel::StreamOfflineOrRotated,
            attempts,
        ) == runtime::retry_delay(ErrorModel::SessionAuthFailed(message), attempts),
        runtime::retry_delay(ErrorModel::Transport(message), attempts) == runtime::retry_delay(
            ErrorModel::InvalidResponse(message),
            attempts,
        ) == runtime::retry_delay(ErrorModel::IngestFailed(message), attempts),
        attempts <= 1 ==> runtime::retry_delay(ErrorModel::Throttled, attempts) == 8_000
            && runtime::retry_delay(ErrorModel::RelayTokenRejected, attempts) == 4_000
            && runtime::retry_delay(ErrorModel::Transport(message), attempts) == 1_200,
        attempts >= 7 ==> runtime::retry_delay(ErrorModel::Throttled, attempts) == 180_000
            && runtime::retry_delay(ErrorModel::RelayTokenRejected, attempts) == 120_000
            && runtime::retry_delay(ErrorModel::Transport(message), attempts) == 45_000,
{
    vstd::arithmetic::power2::lemma2_to64();
}

/// After a session was taken up the service's time is the one that the reply named, and it moves
/// on with the local clock; after a refused time it is that of the refusal.
pub proof fn law_service_time(
    client: ClientModel,
    response: ResponseModel,
    status: u16,
    body: Seq<char>,
    date_ms: Option<i64>,
    now_ms: i64,
    later_ms: i64,
)
    ensures
        ({
            let (after, result) = relay::session_answered(client, response, now_ms);
            let server_now = json::as_signed(
                json::field(relay::body_json(response.body), "serverNowMs"@),
            );
            result is Ok ==> (server_now matches Some(time) ==> relay::service_time(
                after.state,
                now_ms,
            ) == time)
        }),
        ({
            let (after, result) = relay::event_answered(client, status, body, date_ms, now_ms);
            result == Err::<(), ErrorModel>(ErrorModel::TimestampRejectedResynced) ==> (
            date_ms matches Some(date) ==> relay::service_time(after.state, now_ms) == date)
        }),
        relay::service_time(relay::no_session(), now_ms) == now_ms,
        0 <= now_ms <= later_ms && 0 <= relay::service_time(client.state, now_ms)
            && relay::service_time(client.state, now_ms) + (later_ms - now_ms) <= i64::MAX
            ==> relay::service_time(client.state, later_ms) == relay::service_time(
            client.state,
            now_ms,
        ) + (later_ms - now_ms),
{
}

/// A body is what it writes; one that is blank or cannot be read says nothing.
pub proof fn law_body(body: Seq<char>)
    ensures
        text::trimmed(body).len() == 0 ==> relay::body_json(body) == json::Json::Null,
        text::trimmed(body).len() > 0 ==> match json::parsed_json(body) {
            Ok(value) => relay::body_json(body) == value,
            Err(_) => relay::body_json(body) == json::Json::Null,
        },
{
}

/// The date of a reply is that of its first date header, where it can be read.
pub proof fn law_date(headers: Seq<(Seq<char>, Seq<char>)>, value: Seq<char>)
    ensures
        relay::response_date(seq![("date"@, value)] + headers) == relay::http_date_millis(value),
        (forall|i: int| 0 <= i < headers.len() ==> (#[trigger] headers[i]).0 != "date"@)
            ==> relay::response_date(headers) is None,
{
    let more = seq![("date"@, value)] + headers;
    assert(more[0] == ("date"@, value));
    session_laws::law_first_value(headers, "date"@);
}

} // verus!
