use vibealong::config::BaseUrl;
use vibealong::float::{from_bits, FloatBits};
use vibealong::payload::Payload;
use vibealong::relay::{
    build_url, is_companion_token_credential, parse_json_body, parse_response_date_ms,
    HttpResponse, MockTransport, RelayClient, RelayClientConfig, RelayError, RelayEvent,
    RelaySource, SessionGrant,
};

fn number(x: f64) -> FloatBits {
    from_bits(x.to_bits())
}

fn base_url() -> BaseUrl {
    BaseUrl {
        text: "https://dev.vrlewds.com/".to_string(),
        scheme: "https".to_string(),
        host: Some("dev.vrlewds.com".to_string()),
    }
}

fn cfg() -> RelayClientConfig {
    RelayClientConfig {
        base_url: base_url(),
        creator_username: "Vee".to_string(),
        stream_key: "secret".to_string(),
        session_path: "/api/sps/session".to_string(),
        ingest_path: "/api/sps/ingest".to_string(),
    }
}

fn ok_session_response() -> HttpResponse {
    HttpResponse {
        status: 200,
        headers: vec![(
            "date".to_string(),
            "Wed, 21 Oct 2015 07:28:00 GMT".to_string(),
        )],
        body: r#"{
            "token": "tok_123",
            "expiresAt": "2026-03-06T05:00:00.000Z",
            "streamId": "stream_1",
            "serverNowMs": 1000000,
            "maxSkewMs": 45000
        }"#
        .to_string(),
    }
}

fn reply(status: u16, body: &str) -> HttpResponse {
    HttpResponse {
        status,
        headers: Vec::new(),
        body: body.to_string(),
    }
}

fn event(seq: u64, address: &str) -> RelayEvent {
    RelayEvent {
        seq,
        ts: 10,
        intensity: number(0.2),
        peak: number(0.4),
        raw: number(0.2),
        source: RelaySource {
            address: address.to_string(),
            arg_type: "f".to_string(),
        },
    }
}

#[test]
fn create_session_sets_state_fields() {
    let mock = MockTransport::with_responses(vec![Ok(ok_session_response())]);
    let mut client = RelayClient::new(cfg(), mock);
    client.create_session(900_000).expect("session");

    assert_eq!(client.state().relay_token, "tok_123");
    assert_eq!(client.state().stream_id, "stream_1");
    assert_eq!(client.state().clock_offset_ms, 100_000);
    assert_eq!(client.state().max_skew_ms, 45_000);
}

#[test]
fn ingest_401_clears_token() {
    let mock = MockTransport::with_responses(vec![Ok(ok_session_response()), Ok(reply(401, ""))]);
    let mut client = RelayClient::new(cfg(), mock);
    let event = RelayEvent {
        seq: 1,
        ts: 10,
        intensity: number(0.5),
        peak: number(0.6),
        raw: number(0.7),
        source: RelaySource {
            address: "/avatar/parameters/SPS_Contact".to_string(),
            arg_type: "f".to_string(),
        },
    };

    let error = client.push_event(&event, 1_000_000).expect_err("must fail");
    assert_eq!(error, RelayError::RelayTokenRejected);
    assert!(client.state().relay_token.is_empty());
    assert_eq!(client.state().relay_token_expires_at_ms, 0);
}

#[test]
fn ingest_stale_timestamp_resyncs_clock_offset() {
    let mock = MockTransport::with_responses(vec![
        Ok(ok_session_response()),
        Ok(HttpResponse {
            status: 400,
            headers: vec![(
                "date".to_string(),
                "Wed, 21 Oct 2015 07:30:00 GMT".to_string(),
            )],
            body: "Stale or invalid event timestamp".to_string(),
        }),
    ]);
    let mut client = RelayClient::new(cfg(), mock);

    let now_ms = 1_000;
    let error = client
        .push_event(&event(1, "/x"), now_ms)
        .expect_err("must fail");
    assert_eq!(error, RelayError::TimestampRejectedResynced);
    assert!(client.state().clock_offset_ms > 0);
    assert_eq!(client.state().clock_offset_ms, 1_445_412_600_000 - now_ms);
}

#[test]
fn valid_existing_token_skips_session_request() {
    let mock = MockTransport::with_responses(vec![Ok(reply(200, ""))]);
    let mut client = RelayClient::new(cfg(), mock);
    let grant = SessionGrant {
        token: "tok_live".to_string(),
        expires_at: String::new(),
        stream_id: String::new(),
        server_now_ms: None,
        max_skew_ms: None,
        companion_token: None,
    };
    client.accept_grant(grant, Some(1_000_000), None, 0);
    assert_eq!(client.state().relay_token, "tok_live");
    assert_eq!(client.state().relay_token_expires_at_ms, 1_000_000);

    client.push_event(&event(10, "/x"), 900_000).expect("ingest");
    assert_eq!(client.transport().requests.len(), 1);
    assert_eq!(
        client.transport().requests[0].url,
        "https://dev.vrlewds.com/api/sps/ingest"
    );
}

#[test]
fn requests_carry_what_the_service_expects() {
    let mock = MockTransport::with_responses(vec![Ok(ok_session_response()), Ok(reply(200, ""))]);
    let mut client = RelayClient::new(cfg(), mock);
    client.push_event(&event(3, "/x"), 900_000).expect("ingest");
    let sent = &client.transport().requests;
    assert_eq!(sent.len(), 2);
    assert_eq!(sent[0].url, "https://dev.vrlewds.com/api/sps/session");
    assert_eq!(sent[1].url, "https://dev.vrlewds.com/api/sps/ingest");
    assert_eq!(
        sent[1].headers,
        vec![
            ("content-type".to_string(), "application/json".to_string()),
            ("authorization".to_string(), "Bearer tok_123".to_string()),
        ]
    );
    assert_eq!(
        sent[1].body,
        Payload::Members(vec![
            ("seq".to_string(), Payload::Unsigned(3)),
            ("ts".to_string(), Payload::Signed(10)),
            ("intensity".to_string(), Payload::Float(number(0.2))),
            ("peak".to_string(), Payload::Float(number(0.4))),
            ("raw".to_string(), Payload::Float(number(0.2))),
            (
                "source".to_string(),
                Payload::Members(vec![
                    ("address".to_string(), Payload::Text("/x".to_string())),
                    ("argType".to_string(), Payload::Text("f".to_string())),
                ])
            ),
        ])
    );
}

#[test]
fn dates_are_read_from_headers() {
    let headers = vec![(
        "date".to_string(),
        "Wed, 21 Oct 2015 07:28:00 GMT".to_string(),
    )];
    assert_eq!(parse_response_date_ms(&headers), Some(1_445_412_480_000));
    assert_eq!(
        parse_response_date_ms(&vec![("date".to_string(), "yesterday".to_string())]),
        None
    );
    assert_eq!(parse_response_date_ms(&Vec::new()), None);
}

#[test]
fn expiry_is_read_from_the_grant() {
    let mock = MockTransport::with_responses(vec![Ok(ok_session_response())]);
    let mut client = RelayClient::new(cfg(), mock);
    client.create_session(900_000).expect("session");
    assert_eq!(client.state().relay_token_expires_at_ms, 1_772_773_200_000);
}

#[test]
fn refused_sessions_change_nothing() {
    let mock = MockTransport::with_responses(vec![Ok(reply(403, r#"{"message": "no"}"#))]);
    let mut client = RelayClient::new(cfg(), mock);
    let error = client.create_session(1).expect_err("refused");
    assert!(!error.message().is_empty());
    assert_eq!(client.state().relay_token, "");
    assert_eq!(client.config().stream_key, "secret");

    let mock = MockTransport::with_responses(Vec::new());
    let mut client = RelayClient::new(cfg(), mock);
    assert_eq!(
        client.create_session(1).expect_err("no reply"),
        RelayError::Transport("No mock response queued".to_string())
    );
}

#[test]
fn replies_to_events_have_their_errors() {
    for status in [400u16, 403, 404, 429, 500] {
        let mock = MockTransport::with_responses(vec![
            Ok(ok_session_response()),
            Ok(reply(status, "trouble")),
        ]);
        let mut client = RelayClient::new(cfg(), mock);
        let error = client.push_event(&event(1, "/x"), 900_000).expect_err("fails");
        assert!(!error.message().is_empty());
    }
}

#[test]
fn urls_are_joined_to_the_base() {
    assert_eq!(
        build_url(&base_url(), "/api/x?y=1").expect("url"),
        "https://dev.vrlewds.com/api/x?y=1"
    );
    let broken = BaseUrl {
        text: "no url".to_string(),
        scheme: String::new(),
        host: None,
    };
    assert!(build_url(&broken, "/x").is_err());
}

#[test]
fn companion_tokens_are_told_apart() {
    assert!(is_companion_token_credential(" vca1.abc"));
    assert!(!is_companion_token_credential("stream_key_abc"));
    assert!(!is_companion_token_credential(""));
}

#[test]
fn bodies_that_are_no_json_are_kept_as_text() {
    assert!(parse_json_body(r#"{"a": 1}"#).get("a").is_some());
    assert!(parse_json_body("plain").get("a").is_none());
}

#[test]
fn client_time_follows_the_service() {
    let mock = MockTransport::with_responses(vec![Ok(ok_session_response())]);
    let mut client = RelayClient::new(cfg(), mock);
    assert_eq!(client.next_client_ts_ms(5), 5);
    client.create_session(900_000).expect("session");
    assert_eq!(client.next_client_ts_ms(900_000), 1_000_000);
}

#[test]
fn secrets_do_not_stand_in_errors() {
    for status in [400, 401, 403, 409, 429, 500] {
        let outcome = |key: &str| {
            let mock = MockTransport::with_responses(vec![
                Ok(ok_session_response()),
                Ok(reply(status, "broken")),
            ]);
            let mut client = RelayClient::new(
                RelayClientConfig {
                    stream_key: key.to_string(),
                    ..cfg()
                },
                mock,
            );
            client
                .push_event(&event(1, "/x"), 1_000)
                .expect_err("must fail")
                .message()
        };
        let message = outcome("first_secret");
        assert_eq!(message, outcome("second_secret"));
        assert!(!message.contains("secret"));
        assert!(!message.contains("tok_123"));
    }
}
