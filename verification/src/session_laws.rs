//! Laws of the desktop session: the stream that is watched, the bridge that follows it, and the
//! login through the browser.
use vstd::prelude::*;
use vstd::utf8::*;
use crate::config;
use crate::config::BaseUrlModel;
use crate::desktop;
use crate::desktop::{AutoStep, CloseStep, GateCommandModel, RequestModel, StatusModel};
use crate::forms::FormModel;
use crate::ip;
use crate::json;
use crate::json::Json;
use crate::login;
use crate::login::{AuthModel, PageModel, PollStep, Received};
use crate::model;
use crate::relay;
use crate::store::SummaryModel;
use crate::text;
use crate::text_laws;

verus! {

/// A stream is watched exactly where the automatic mode is on, a profile is selected and the form
/// names a site and a creator; it is theirs, blanks aside.
pub proof fn law_what_is_watched(auto_enabled: bool, profile_selected: bool, form: FormModel)
    ensures
        match desktop::watched(auto_enabled, profile_selected, form) {
            Some(request) => auto_enabled && profile_selected && request.base_url == text::trimmed(
                form.website_base_url,
            ) && request.creator_username == text::trimmed(form.creator_username)
                && request.base_url.len() > 0 && request.creator_username.len() > 0,
            None => !auto_enabled || !profile_selected || text::trimmed(
                form.website_base_url,
            ).len() == 0 || text::trimmed(form.creator_username).len() == 0,
        },
{
}

/// A word that only asks to look leaves what is watched alone.
pub proof fn law_looking_changes_nothing(
    configured: Option<RequestModel>,
    words: Seq<GateCommandModel>,
)
    requires
        forall|i: int| 0 <= i < words.len() ==> (#[trigger] words[i]) is Trigger,
    ensures
        desktop::gate_after_all(configured, words) == configured,
    decreases words.len(),
{
    if words.len() > 0 {
        assert(words[words.len() - 1] is Trigger);
        law_looking_changes_nothing(configured, words.drop_last());
    }
}

/// A stream counts as the creator's live one only where it names the creator, large and small
/// letters alike, and says by its status or its flag that it is live; either will do.
pub proof fn law_live_stream(stream: Json, creator: Seq<char>)
    ensures
        ({
            let name = json::as_text(json::field(stream, "creatorUsername"@));
            let status = json::as_text(json::field(stream, "status"@));
            let flag = json::as_bool(json::field(stream, "creatorIsLive"@));
            let live_word = status is Some && text::lower_text(status->0) == text::lower_text(
                "live"@,
            );
            &&& name is Some && text::lower_text(name->0) != text::lower_text(
                text::trimmed(creator),
            ) ==> !desktop::stream_is_live(stream, creator)
            &&& name is None && text::trimmed(creator).len() > 0 ==> !desktop::stream_is_live(
                stream,
                creator,
            )
            &&& !live_word && flag != Some(true) ==> !desktop::stream_is_live(stream, creator)
            &&& name is Some && text::lower_text(name->0) == text::lower_text(text::trimmed(creator))
                && live_word ==> desktop::stream_is_live(stream, creator)
            &&& name is Some && text::lower_text(name->0) == text::lower_text(text::trimmed(creator))
                && flag == Some(true) ==> desktop::stream_is_live(stream, creator)
        }),
{
    assert(text::lower_text(Seq::empty()).len() == 0);
    assert(text::lower_text(text::trimmed(creator)).len() == text::trimmed(creator).len());
}

/// A creator is live exactly where one of the listed streams is theirs and live, and offline where
/// the list has none; without a list nothing is known and the fault is named. The identifier and
/// the title are those of the first such stream.
pub proof fn law_live_status(request: RequestModel, now_ms: i64, payload: Json)
    ensures
        ({
            let status = desktop::live_status(request, now_ms, payload);
            &&& status.request == Some(request) && status.checked_at_ms == now_ms
            &&& match json::as_array(json::field(payload, "streams"@)) {
                None => status.is_live is None && status.last_error is Some && status.stream_id is None,
                Some(streams) => {
                    &&& status.last_error is None && status.is_live is Some
                    &&& status.is_live == Some(true) <==> exists|i: int|
                        0 <= i < streams.len() && desktop::stream_is_live(
                            #[trigger] streams[i],
                            request.creator_username,
                        )
                    &&& status.is_live == Some(true) ==> exists|i: int|
                        first_live(streams, request.creator_username, i) && status.stream_id
                            == json::as_text(json::field(#[trigger] streams[i], "streamId"@))
                            && status.stream_title == json::as_text(
                            json::field(streams[i], "title"@),
                        )
                },
            }
        }),
{
    if let Some(streams) = json::as_array(json::field(payload, "streams"@)) {
        lemma_first_live(streams, request.creator_username);
        if let Some(stream) = desktop::live_stream(streams, request.creator_username) {
            let i = choose|i: int|
                #[trigger] first_live(streams, request.creator_username, i) && streams[i] == stream;
            assert(first_live(streams, request.creator_username, i));
            assert(desktop::stream_is_live(streams[i], request.creator_username));
        }
    }
}

/// The stream is the first that is the creator's and live.
pub open spec fn first_live(streams: Seq<Json>, creator: Seq<char>, i: int) -> bool {
    &&& 0 <= i < streams.len()
    &&& desktop::stream_is_live(streams[i], creator)
    &&& forall|j: int| 0 <= j < i ==> !desktop::stream_is_live(#[trigger] streams[j], creator)
}

proof fn lemma_first_live(streams: Seq<Json>, creator: Seq<char>)
    ensures
        match desktop::live_stream(streams, creator) {
            Some(stream) => exists|i: int|
                #[trigger] first_live(streams, creator, i) && streams[i] == stream,
            None => forall|i: int|
                0 <= i < streams.len() ==> !desktop::stream_is_live(#[trigger] streams[i], creator),
        },
    decreases streams.len(),
{
    if streams.len() > 0 {
        if desktop::stream_is_live(streams[0], creator) {
            assert(first_live(streams, creator, 0));
        } else {
            let rest = streams.drop_first();
            lemma_first_live(rest, creator);
            match desktop::live_stream(rest, creator) {
                Some(stream) => {
                    let i = choose|i: int|
                        #[trigger] first_live(rest, creator, i) && rest[i] == stream;
                    assert forall|j: int| 0 <= j < i + 1 implies !desktop::stream_is_live(
                        #[trigger] streams[j],
                        creator,
                    ) by {
                        if j > 0 {
                            assert(streams[j] == rest[j - 1]);
                        }
                    }
                    assert(streams[i + 1] == rest[i]);
                    assert(first_live(streams, creator, i + 1));
                },
                None => {
                    assert forall|i: int| 0 <= i < streams.len() implies !desktop::stream_is_live(
                        #[trigger] streams[i],
                        creator,
                    ) by {
                        if i > 0 {
                            assert(streams[i] == rest[i - 1]);
                        }
                    }
                },
            }
        }
    }
}

/// The bridge is started exactly where the watched stream is known to be live and an attempt is
/// due, and stopped exactly where it is known to be offline; what is known of another stream, or
/// nothing, moves it in neither direction.
pub proof fn law_bridge_follows(
    auto_enabled: bool,
    profile_selected: bool,
    request: Option<RequestModel>,
    status: StatusModel,
    running: bool,
    attempt_due: bool,
)
    ensures
        ({
            let step = desktop::auto_step(
                auto_enabled,
                profile_selected,
                request,
                status,
                running,
                attempt_due,
            );
            let watching = auto_enabled && profile_selected && request is Some && status.request
                == request;
            &&& step == AutoStep::Start <==> watching && status.is_live == Some(true) && !running
                && attempt_due
            &&& step == AutoStep::Stop <==> watching && status.is_live == Some(false) && running
        }),
{
}

/// A credential counts only where it is more than blanks.
pub proof fn law_has_credential(key: Seq<char>)
    ensures
        !desktop::has_credential(None),
        desktop::has_credential(Some(key)) <==> text::trimmed(key).len() > 0,
{
}

/// Escaping keeps every plain character, writes the five others as their entities and joins what
/// it makes of two texts.
pub proof fn law_escaped(s: Seq<char>, c: char)
    ensures
        login::escaped(Seq::empty()).len() == 0,
        c != '&' && c != '<' && c != '>' && c != '"' && c != '\'' ==> login::escaped(s.push(c))
            == login::escaped(s).push(c),
        login::escaped(s.push('&')) == login::escaped(s) + "&amp;"@,
        login::escaped(s.push('<')) == login::escaped(s) + "&lt;"@,
        login::escaped(s.push('>')) == login::escaped(s) + "&gt;"@,
        login::escaped(s.push('"')) == login::escaped(s) + "&quot;"@,
        login::escaped(s.push('\'')) == login::escaped(s) + "&#39;"@,
{
    assert(s.push(c).drop_last() =~= s);
    assert(s.push('&').drop_last() =~= s);
    assert(s.push('<').drop_last() =~= s);
    assert(s.push('>').drop_last() =~= s);
    assert(s.push('"').drop_last() =~= s);
    assert(s.push('\'').drop_last() =~= s);
    assert(login::escaped(s) + seq![c] =~= login::escaped(s).push(c));
}

/// A page shows its title and its message, both escaped, and tells an error from a success.
pub proof fn law_page(page: PageModel)
    ensures
        text::contains_text(login::page_text(page), login::escaped(page.title)),
        text::contains_text(login::page_text(page), login::escaped(page.message)),
        login::page_text(page) != login::page_text(PageModel { is_error: !page.is_error, ..page }),
{
    reveal_strlit("#ff6b7a");
    reveal_strlit("#00ff99");
    let accent = if page.is_error {
        "#ff6b7a"@
    } else {
        "#00ff99"@
    };
    let badge = if page.is_error {
        "LOGIN ERROR"@
    } else {
        "VIBEALONG"@
    };
    let title = login::escaped(page.title);
    let message = login::escaped(page.message);
    let whole = login::page_text(page);
    let rest = login::PAGE_STYLE@ + accent + login::PAGE_BODY@ + badge + login::PAGE_HEADING@ + title
        + login::PAGE_MESSAGE@ + message + login::PAGE_END@;
    text_laws::law_holds_its_middle(login::PAGE_START@, title, rest);
    assert(login::PAGE_START@ + title + rest =~= whole);
    let start = login::PAGE_START@ + title + login::PAGE_STYLE@ + accent + login::PAGE_BODY@ + badge
        + login::PAGE_HEADING@ + title + login::PAGE_MESSAGE@;
    text_laws::law_holds_its_middle(start, message, login::PAGE_END@);
    let other = PageModel { is_error: !page.is_error, ..page };
    let at = (login::PAGE_START@ + title + login::PAGE_STYLE@).len() as int + 1;
    assert(login::page_text(page)[at] == accent[1]);
    if page.is_error {
        assert(login::page_text(other)[at] == "#00ff99"@[1]);
    } else {
        assert(login::page_text(other)[at] == "#ff6b7a"@[1]);
    }
}

/// A reply starts with its status, ends in its body and says how many bytes that has.
pub proof fn law_http_reply(status_line: Seq<char>, body: Seq<char>)
    ensures
        status_line.is_prefix_of(login::http_reply(status_line, body)),
        body.is_suffix_of(login::http_reply(status_line, body)),
        text::contains_text(
            login::http_reply(status_line, body),
            "Content-Length: "@ + text::decimal_text(encode_utf8(body).len()),
        ),
{
    reveal_strlit(
        "\r\nContent-Type: text/html; charset=utf-8\r\nCache-Control: no-store\r\nContent-Length: ",
    );
    reveal_strlit("\r\nContent-Type: text/html; charset=utf-8\r\nCache-Control: no-store\r\n");
    reveal_strlit("Content-Length: ");
    let whole = login::http_reply(status_line, body);
    assert(whole.subrange(0, status_line.len() as int) =~= status_line);
    assert(whole.subrange(whole.len() - body.len(), whole.len() as int) =~= body);
    let digits = text::decimal_text(encode_utf8(body).len());
    let head = "\r\nContent-Type: text/html; charset=utf-8\r\nCache-Control: no-store\r\n"@;
    let end = "\r\nConnection: close\r\n\r\n"@ + body;
    let middle = "Content-Length: "@ + digits;
    assert(head + "Content-Length: "@
        =~= "\r\nContent-Type: text/html; charset=utf-8\r\nCache-Control: no-store\r\nContent-Length: "@);
    text_laws::law_holds_its_middle(status_line + head, middle, end);
    assert(status_line + head + middle + end =~= whole);
}

/// What stands first under a name is what is found, and nothing is found only where the name does
/// not occur.
pub proof fn law_first_value(items: Seq<(Seq<char>, Seq<char>)>, name: Seq<char>)
    ensures
        match model::pair_value(items, name) {
            Some(value) => exists|i: int|
                0 <= i < items.len() && #[trigger] items[i] == (name, value) && forall|j: int|
                    0 <= j < i ==> (#[trigger] items[j]).0 != name,
            None => forall|i: int| 0 <= i < items.len() ==> (#[trigger] items[i]).0 != name,
        },
    decreases items.len(),
{
    if items.len() > 0 {
        let rest = items.drop_first();
        law_first_value(rest, name);
        if items[0].0 == name {
            assert(items[0] == (name, items[0].1));
        } else {
            match model::pair_value(rest, name) {
                Some(value) => {
                    let i = choose|i: int|
                        0 <= i < rest.len() && #[trigger] rest[i] == (name, value) && forall|j: int|
                            0 <= j < i ==> (#[trigger] rest[j]).0 != name;
                    assert(items[i + 1] == (name, value));
                    assert forall|j: int| 0 <= j < i + 1 implies (#[trigger] items[j]).0 != name by {
                        if j > 0 {
                            assert(items[j] == rest[j - 1]);
                        }
                    }
                },
                None => {
                    assert forall|i: int| 0 <= i < items.len() implies (#[trigger] items[i]).0
                        != name by {
                        if i > 0 {
                            assert(items[i] == rest[i - 1]);
                        }
                    }
                },
            }
        }
    }
}

/// A flag says yes as a one or as the word, large and small letters alike and blanks aside, and in
/// no other way.
pub proof fn law_says_yes(value: Seq<char>)
    ensures
        text::trimmed(value) == "1"@ ==> login::says_yes(value),
        text::lower_text(text::trimmed(value)) == "true"@ ==> login::says_yes(value),
        login::says_yes(value) ==> text::trimmed(value) == "1"@ || text::lower_text(
            text::trimmed(value),
        ) == "true"@,
{
    reveal_strlit("true");
    assert(text::lower_text("true"@) =~= "true"@);
}

/// The answer of the browser is taken up exactly where it names the expected state, reports no
/// error and brings a credential, which is then the one it brought. Otherwise it says why, and
/// brings none.
pub proof fn law_answer(query: Seq<(Seq<char>, Seq<char>)>, expected: Seq<char>)
    ensures
        ({
            let (page, result) = login::answer_of(query, expected);
            let state = model::pair_value(query, "state"@);
            let named = (state is Some && state->0 == expected) || (state is None && expected.len()
                == 0);
            let error = model::pair_value(query, "error"@);
            let reported = error is Some && text::trimmed(error->0).len() > 0;
            let token = model::pair_value(query, "token"@);
            let brought = token is Some && text::trimmed(token->0).len() > 0;
            &&& result.token is Some <==> named && !reported && brought
            &&& result.token is Some ==> result.token == token
            &&& result.error is Some <==> result.token is None
            &&& named && reported ==> result.error == error && page.message == error->0
            &&& page.is_error <==> result.token is None
            &&& result.creator_offline <==> exists|i: int|
                0 <= i < query.len() && (#[trigger] query[i]).0 == "creatorOffline"@
                    && login::says_yes(query[i].1)
            &&& result.mode == login::query_value(query, "mode"@)
            &&& result.creator_username == login::query_value(query, "creatorUsername"@)
            &&& result.stream_id == login::query_value(query, "streamId"@)
            &&& result.expires_at == login::query_value(query, "expiresAt"@)
            &&& result.website_base_url == login::query_value(query, "websiteBaseUrl"@)
            &&& (state matches Some(s) ==> result.state == s)
        }),
{
    assert(expected.len() == 0 ==> expected =~= Seq::<char>::empty());
}

/// A value of the query is what stands first under its name, and none where that is blank.
pub proof fn law_query_value(query: Seq<(Seq<char>, Seq<char>)>, name: Seq<char>)
    ensures
        match model::pair_value(query, name) {
            Some(value) => if text::trimmed(value).len() > 0 {
                login::query_value(query, name) == Some(value)
            } else {
                login::query_value(query, name) is None
            },
            None => login::query_value(query, name) is None,
        },
{
}

/// A request asks for its second word.
pub proof fn law_request_target(method: Seq<char>, target: Seq<char>, rest: Seq<char>)
    requires
        method.len() > 0,
        forall|i: int| 0 <= i < method.len() ==> !text::is_white(#[trigger] method[i]),
        target.len() > 0,
        forall|i: int| 0 <= i < target.len() ==> !text::is_white(#[trigger] target[i]),
    ensures
        login::request_target(method + seq![' '] + target + seq![' '] + rest) == target,
        login::request_target(method) == "/"@,
{
    let tail = target + seq![' '] + rest;
    let line = method + seq![' '] + target + seq![' '] + rest;
    assert(line =~= method + seq![' '] + tail);
    text_laws::law_first_word(method, ' ', tail);
    text_laws::law_first_word(target, ' ', rest);
    assert(line[0] == method[0]);
    assert(text::skip_white(line) == line);
    let after = login::after_first_word(line);
    assert(after =~= seq![' '] + tail);
    assert(after.drop_first() =~= tail);
    assert(after[0] == ' ');
    assert(text::skip_white(after) == text::skip_white(tail));
    assert(tail[0] == target[0]);
    assert(text::skip_white(tail) == tail);
    assert(text::skip_white(method) == method);
    assert(login::after_first_word(method) =~= Seq::empty());
}

/// A request is answered by what the query of its first line says; one that is empty or cannot be
/// read is reported.
pub proof fn law_callback(request: Seq<u8>, expected: Seq<char>)
    ensures
        ({
            let lines = text::text_lines(text::bytes_text(request));
            &&& request.len() == 0 || lines.len() == 0 ==> login::callback_outcome(
                request,
                expected,
            ) is Err
            &&& request.len() > 0 && lines.len() > 0 ==> match login::url_query(
                "http://127.0.0.1"@ + login::request_target(lines[0]),
            ) {
                None => login::callback_outcome(request, expected) is Err,
                Some(query) => login::callback_outcome(request, expected) matches Ok((reply, result))
                    && result == login::answer_of(query, expected).1 && login::page_text(
                    login::answer_of(query, expected).0,
                ).is_suffix_of(reply),
            }
        }),
{
    let lines = text::text_lines(text::bytes_text(request));
    if request.len() > 0 && lines.len() > 0 {
        if let Some(query) = login::url_query("http://127.0.0.1"@ + login::request_target(lines[0])) {
            law_http_reply(
                "HTTP/1.1 200 OK"@,
                login::page_text(login::answer_of(query, expected).0),
            );
        }
    }
}

/// The site of a login is the one that was entered, and may be used over the secure scheme always,
/// over the plain one only where that was allowed, and over no other.
pub proof fn law_login_site(parsed: Result<BaseUrlModel, Seq<char>>, allow: bool)
    ensures
        login::checked_website(parsed, allow) is Ok <==> (parsed matches Ok(url) && (url.scheme
            == "https"@ || (allow && url.scheme == "http"@))),
        login::checked_website(parsed, allow) is Ok ==> login::checked_website(parsed, allow)
            == parsed,
{
}

/// What is entered as a site is read without the blanks around it and the strokes behind it.
pub proof fn law_site_entered(entered: Seq<char>, allow: bool)
    ensures
        ({
            let base = text::drop_trailing(text::trimmed(entered), '/');
            &&& base.len() == 0 ==> login::website_of(entered, allow) is Err
            &&& base.len() > 0 ==> login::website_of(entered, allow) == login::checked_website(
                config::url_parts(base),
                allow,
            )
        }),
{
}

/// A byte that may stand as it is does; a blank becomes a plus; any other is written as its two
/// hexadecimal digits behind a percent sign, from which it can be read back.
pub proof fn law_encoded(bytes: Seq<u8>, b: u8)
    ensures
        ({
            let before = login::encoded_bytes(bytes);
            let after = login::encoded_bytes(bytes.push(b));
            let kept = 48 <= b <= 57 || 65 <= b <= 90 || 97 <= b <= 122 || b == 42 || b == 45 || b
                == 46 || b == 95;
            &&& before.is_prefix_of(after)
            &&& kept ==> after == before.push(b as char)
            &&& b == 32 ==> after == before.push('+')
            &&& !kept && b != 32 ==> {
                &&& after.len() == before.len() + 3
                &&& after[before.len() as int] == '%'
                &&& (ip::hex_digit(after[before.len() as int + 1]) matches Some(high) && (
                ip::hex_digit(after[before.len() as int + 2]) matches Some(low) && b == high * 16
                    + low))
            }
        }),
{
    let before = login::encoded_bytes(bytes);
    let after = login::encoded_bytes(bytes.push(b));
    assert(bytes.push(b).drop_last() =~= bytes);
    assert(after.subrange(0, before.len() as int) =~= before);
    assert(before + seq![b as char] =~= before.push(b as char));
    assert(before + seq!['+'] =~= before.push('+'));
    let high = b as int / 16;
    let low = b as int % 16;
    assert(0 <= high < 16 && 0 <= low < 16);
    assert(ip::hex_digit(login::hex_digit(high)) == Some(high));
    assert(ip::hex_digit(login::hex_digit(low)) == Some(low));
}

/// The browser is sent to the login of the site with the state and the address to come back to,
/// both encoded.
pub proof fn law_login_address(base: BaseUrlModel, state: Seq<char>, callback: Seq<char>)
    ensures
        match (
            relay::url_joined(base.text, "/api/vibealong/companion/desktop-login"@),
            login::login_address(base, state, callback),
        ) {
            (Ok(url), Ok(address)) => url.is_prefix_of(address) && login::encoded_bytes(
                encode_utf8(callback),
            ).is_suffix_of(address) && text::contains_text(
                address,
                "state="@ + login::encoded_bytes(encode_utf8(state)) + "&"@,
            ),
            (Err(message), Err(report)) => message.is_suffix_of(report),
            _ => false,
        },
{
    reveal_strlit("?mode=creator&state=");
    reveal_strlit("?mode=creator&");
    reveal_strlit("state=");
    reveal_strlit("&redirect_uri=");
    reveal_strlit("&");
    reveal_strlit("redirect_uri=");
    match relay::url_joined(base.text, "/api/vibealong/companion/desktop-login"@) {
        Ok(url) => {
            let address = url + login::login_query(state, callback);
            let a = login::encoded_bytes(encode_utf8(state));
            let b = login::encoded_bytes(encode_utf8(callback));
            assert(address.subrange(0, url.len() as int) =~= url);
            assert(address.subrange(address.len() - b.len(), address.len() as int) =~= b);
            assert("?mode=creator&state="@ =~= "?mode=creator&"@ + "state="@);
            assert("&redirect_uri="@ =~= "&"@ + "redirect_uri="@);
            let start = url + "?mode=creator&"@;
            let middle = "state="@ + a + "&"@;
            let end = "redirect_uri="@ + b;
            text_laws::law_holds_its_middle(start, middle, end);
            assert(start + middle + end =~= address);
        },
        Err(message) => {
            let report = "Failed to build login URL: "@ + message;
            assert(report.subrange(report.len() - message.len(), report.len() as int) =~= message);
        },
    }
}

/// The address to come back to is on this machine, under the given port.
pub proof fn law_callback_address(port: u16)
    ensures
        login::callback_address(port) == "http://127.0.0.1:"@ + text::decimal_text(port as nat)
            + "/callback"@,
{
}

/// A credential is used only from a result that reports no error and brings more than blanks.
pub proof fn law_usable(result: AuthModel)
    ensures
        login::usable_token(result) is Ok <==> result.error is None && result.token is Some
            && text::trimmed(result.token->0).len() > 0,
        login::usable_token(result) matches Ok(token) ==> result.token == Some(token),
        (result.error matches Some(error) ==> (login::usable_token(result) matches Err(message)
            && error.is_suffix_of(message))),
{
    if let Some(error) = result.error {
        let message = "Companion login failed: "@ + error;
        assert(message.subrange(message.len() - error.len(), message.len() as int) =~= error);
    }
}

/// A login fills the credential into the form. It fills in the creator and the site only where the
/// form has none, and touches nothing else.
pub proof fn law_login_fills_form(form: FormModel, result: AuthModel, token: Seq<char>)
    ensures
        ({
            let after = login::signed_in_form(form, result, token);
            &&& after.stream_key == token
            &&& text::trimmed(form.creator_username).len() > 0 ==> after.creator_username
                == form.creator_username
            &&& text::trimmed(form.creator_username).len() == 0 ==> (
            result.creator_username matches Some(creator) ==> after.creator_username == creator)
            &&& text::trimmed(form.website_base_url).len() > 0 ==> after.website_base_url
                == form.website_base_url
            &&& text::trimmed(form.website_base_url).len() == 0 ==> (
            result.website_base_url matches Some(site) ==> after.website_base_url == site)
            &&& result.creator_username is None ==> after.creator_username == form.creator_username
            &&& result.website_base_url is None ==> after.website_base_url == form.website_base_url
            &&& after == (FormModel {
                stream_key: after.stream_key,
                creator_username: after.creator_username,
                website_base_url: after.website_base_url,
                ..form
            })
        }),
{
}

/// The report of a login does not depend on the credential, and names the mode, the stream and the
/// time where they are given.
pub proof fn law_login_report(result: AuthModel, token: Option<Seq<char>>)
    ensures
        login::signed_in_text(result) == login::signed_in_text(AuthModel { token, ..result }),
        (result.mode matches Some(mode) ==> (text::trimmed(mode).len() > 0 ==> text::contains_text(
            login::signed_in_text(result),
            " mode="@ + mode,
        ))),
        (result.stream_id matches Some(stream) ==> (text::trimmed(stream).len() > 0
            ==> text::contains_text(login::signed_in_text(result), " stream="@ + stream))),
        (result.expires_at matches Some(time) ==> (text::trimmed(time).len() > 0
            ==> text::contains_text(login::signed_in_text(result), " expires="@ + time))),
{
    let start = "Companion login complete. Credential saved."@;
    let a = login::detail(" mode="@, result.mode);
    let b = login::detail(" stream="@, result.stream_id);
    let c = login::detail(" expires="@, result.expires_at);
    let end = if result.creator_offline {
        " creator is offline; bridge will engage once stream is live"@
    } else {
        Seq::<char>::empty()
    };
    let whole = login::signed_in_text(result);
    assert(whole == start + a + b + c + end);
    text_laws::law_holds_its_middle(start, a, b + c + end);
    assert(start + a + (b + c + end) =~= whole);
    text_laws::law_holds_its_middle(start + a, b, c + end);
    assert(start + a + b + (c + end) =~= whole);
    text_laws::law_holds_its_middle(start + a + b, c, end);
}

/// A wait for the browser ends after five minutes. Before that it goes on until an answer comes,
/// which is taken up only where it names the state that was sent.
pub proof fn law_login_wait(
    elapsed_seconds: u64,
    received: Received,
    expected: Seq<char>,
    step: PollStep,
)
    requires
        login::polled(elapsed_seconds, received, expected, step),
    ensures
        step is Apply ==> elapsed_seconds < 300 && (received matches Received::Answer(result)
            && result.state@ == expected && expected.len() > 0 && step == PollStep::Apply(result)),
        step is Wait <==> elapsed_seconds < 300 && received is Nothing,
        elapsed_seconds >= 300 ==> step is Fail,
        elapsed_seconds < 300 ==> (received matches Received::Answer(result) ==> (expected.len() > 0
            && result.state@ == expected ==> step is Apply)),
{
}

/// A wait that ends without a word looks only where something is watched; every word leads to a
/// look.
pub proof fn law_when_to_look(
    configured: Option<RequestModel>,
    woken_by_word: bool,
    more: Seq<GateCommandModel>,
)
    ensures
        configured is None && !woken_by_word && more.len() == 0 ==> !desktop::look_due(
            configured,
            woken_by_word,
            more,
        ),
        configured is Some ==> desktop::look_due(configured, woken_by_word, more),
        woken_by_word || more.len() > 0 ==> desktop::look_due(configured, woken_by_word, more),
{
}

/// The profile that is shown first is one that is listed: the last selected where it is among
/// them, else the first; there is none only where none is listed.
pub proof fn law_shown_first(profiles: Seq<SummaryModel>, last: Option<Seq<char>>)
    ensures
        match desktop::shown_first(profiles, last) {
            Some(id) => (exists|i: int| 0 <= i < profiles.len() && (#[trigger] profiles[i]).id == id)
                && (last == Some(id) || id == profiles[0].id),
            None => profiles.len() == 0,
        },
        (last matches Some(id) ==> ((exists|i: int|
            0 <= i < profiles.len() && (#[trigger] profiles[i]).id == id) ==> desktop::shown_first(
            profiles,
            last,
        ) == last)),
{
    if profiles.len() > 0 {
        assert(profiles[0].id == profiles[0].id);
    }
}

/// A window closes exactly where it is not kept in the background. It is hidden only where a tray
/// can bring it back, and only once.
pub proof fn law_closing(close_to_background: bool, tray_available: bool, hidden: bool)
    ensures
        ({
            let step = desktop::closing(close_to_background, tray_available, hidden);
            &&& step == CloseStep::Close <==> !close_to_background
            &&& step == CloseStep::Hide <==> close_to_background && tray_available && !hidden
            &&& step == CloseStep::StayHidden <==> close_to_background && tray_available && hidden
            &&& step == CloseStep::Minimize <==> close_to_background && !tray_available
        }),
{
}

} // verus!
