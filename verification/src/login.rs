//! Signing in with the browser: the address that is opened, and the answer that comes back.
use vstd::prelude::*;
use vstd::string::*;
use vstd::utf8::*;
use crate::config;
use crate::config::{BaseUrl, BaseUrlModel};
use crate::forms;
use crate::forms::{FormModel, ProfileForm};
use crate::model;
use crate::model::Duplicate;
use crate::relay;
use crate::store;
use crate::text;

verus! {

/// Up to the title.
pub const PAGE_START: &'static str = "<!doctype html><html lang='en'><head><meta charset='utf-8'/>\
    <meta name='viewport' content='width=device-width, initial-scale=1'/><title>";

/// From the title to the accent colour.
pub const PAGE_STYLE: &'static str = "</title><style>\
    :root {--bg: #0a0a0a; --panel: rgba(18,18,18,.95); --text: #f4f4f4;--muted: #a8b3ae; --accent: ";

/// From the accent colour to the badge.
pub const PAGE_BODY: &'static str = ";}* { box-sizing: border-box; }\
    body {margin: 0; min-height: 100vh; display: grid; place-items: center;color: var(--text); font-family: 'DM Sans','Segoe UI',system-ui,sans-serif;background: radial-gradient(1200px 600px at 50% -10%, rgba(0,255,153,.08), transparent 60%), var(--bg);}\
    .panel {width: min(92vw, 680px); padding: 30px 26px; border-radius: 16px;background: var(--panel); border: 1px solid color-mix(in srgb, var(--accent) 48%, transparent);box-shadow: 0 24px 60px rgba(0,0,0,.45);}\
    .kicker {margin: 0 0 12px 0; font-size: 12px; letter-spacing: .14em; text-transform: uppercase;color: var(--accent); font-weight: 700;}\
    h1 { margin: 0 0 10px 0; font-size: clamp(28px, 4vw, 44px); line-height: 1.08; }\
    p { margin: 0; color: var(--muted); font-size: 17px; line-height: 1.45; }\
    .hint { margin-top: 18px; font-size: 14px; color: #98a29d; }</style></head><body>\
    <main class='panel'><p class='kicker'>";

/// From the badge to the heading.
pub const PAGE_HEADING: &'static str = "</p><h1>";

/// From the heading to the message.
pub const PAGE_MESSAGE: &'static str = "</h1><p>";

/// What follows the message.
pub const PAGE_END: &'static str = "</p><p class='hint'>You can return to the Vibealong desktop app now.</p></main></body>\
    </html>";

/// What a character is written as in a page.
pub open spec fn escaped_char(c: char) -> Seq<char> {
    if c == '&' {
        "&amp;"@
    } else if c == '<' {
        "&lt;"@
    } else if c == '>' {
        "&gt;"@
    } else if c == '"' {
        "&quot;"@
    } else if c == '\'' {
        "&#39;"@
    } else {
        seq![c]
    }
}

/// What a text is written as in a page.
pub open spec fn escaped(s: Seq<char>) -> Seq<char>
    decreases s.len(),
{
    if s.len() == 0 {
        Seq::empty()
    } else {
        escaped(s.drop_last()) + escaped_char(s.last())
    }
}

/// Writes a text so that a page shows it.
pub fn html_escape(value: &str) -> (r: String)
    ensures
        r@ == escaped(value@),
{
    let chars = text::chars_of(value);
    let mut out = String::new();
    let mut i: usize = 0;
    assert(value@.take(0) =~= Seq::empty());
    assert(out@ =~= Seq::empty());
    while i < chars.len()
        invariant
            i <= chars@.len(),
            chars@ == value@,
            out@ == escaped(value@.take(i as int)),
        decreases chars@.len() - i,
    {
        assert(value@.take(i + 1).drop_last() =~= value@.take(i as int));
        assert(value@.take(i + 1).last() == value@[i as int]);
        let ghost before = out@;
        let c = chars[i];
        if c == '&' {
            out.append("&amp;");
        } else if c == '<' {
            out.append("&lt;");
        } else if c == '>' {
            out.append("&gt;");
        } else if c == '"' {
            out.append("&quot;");
        } else if c == '\'' {
            out.append("&#39;");
        } else {
            out.push(c);
            assert(out@ =~= before + seq![c]);
        }
        assert(out@ == before + escaped_char(c));
        i += 1;
    }
    assert(value@.take(i as int) =~= value@);
    out
}

/// Whether a character can open or close a tag or a quoted attribute.
pub open spec fn is_markup(c: char) -> bool {
    c == '<' || c == '>' || c == '"' || c == '\''
}

proof fn lemma_escaped_char(c: char)
    ensures
        forall|i: int|
            0 <= i < escaped_char(c).len() ==> !is_markup(#[trigger] escaped_char(c)[i]),
{
    reveal_strlit("&amp;");
    reveal_strlit("&lt;");
    reveal_strlit("&gt;");
    reveal_strlit("&quot;");
    reveal_strlit("&#39;");
}

/// What was escaped opens no tag and closes no quote.
pub proof fn law_escaped_is_inert(s: Seq<char>)
    ensures
        forall|i: int| 0 <= i < escaped(s).len() ==> !is_markup(#[trigger] escaped(s)[i]),
    decreases s.len(),
{
    if s.len() > 0 {
        let before = escaped(s.drop_last());
        law_escaped_is_inert(s.drop_last());
        lemma_escaped_char(s.last());
        assert forall|i: int| 0 <= i < escaped(s).len() implies !is_markup(
            #[trigger] escaped(s)[i],
        ) by {
            if i < before.len() {
                assert(escaped(s)[i] == before[i]);
            } else {
                assert(escaped(s)[i] == escaped_char(s.last())[i - before.len()]);
            }
        }
    }
}

/// A page that is shown in the browser.
pub struct PageModel {
    pub title: Seq<char>,
    pub message: Seq<char>,
    pub is_error: bool,
}

/// The text of a page.
pub open spec fn page_text(page: PageModel) -> Seq<char> {
    let accent = if page.is_error {
        "#ff6b7a"@
    } else {
        "#00ff99"@
    };
    let badge = if page.is_error {
        "LOGIN ERROR"@
    } else {
        "VIBEALONG"@
    };
    PAGE_START@ + escaped(page.title) + PAGE_STYLE@ + accent + PAGE_BODY@ + badge + PAGE_HEADING@
        + escaped(page.title) + PAGE_MESSAGE@ + escaped(page.message) + PAGE_END@
}

/// Writes a page.
pub fn build_callback_page_html(title: &str, message: &str, is_error: bool) -> (r: String)
    ensures
        r@ == page_text(PageModel { title: title@, message: message@, is_error }),
{
    let title_safe = html_escape(title);
    let message_safe = html_escape(message);
    let mut out = text::concat3(PAGE_START, title_safe.as_str(), PAGE_STYLE);
    if is_error {
        out.append("#ff6b7a");
    } else {
        out.append("#00ff99");
    }
    out.append(PAGE_BODY);
    if is_error {
        out.append("LOGIN ERROR");
    } else {
        out.append("VIBEALONG");
    }
    out.append(PAGE_HEADING);
    out.append(title_safe.as_str());
    out.append(PAGE_MESSAGE);
    out.append(message_safe.as_str());
    out.append(PAGE_END);
    out
}

/// The reply that carries a page.
pub open spec fn http_reply(status_line: Seq<char>, body: Seq<char>) -> Seq<char> {
    status_line
        + "\r\nContent-Type: text/html; charset=utf-8\r\nCache-Control: no-store\r\nContent-Length: "@
        + text::decimal_text(encode_utf8(body).len()) + "\r\nConnection: close\r\n\r\n"@ + body
}

/// Writes the reply that carries a page.
pub fn build_http_response(status_line: &str, html_body: &str) -> (r: String)
    ensures
        r@ == http_reply(status_line@, html_body@),
{
    let length = text::decimal(text::byte_len(html_body) as u64);
    let mut out = text::concat3(
        status_line,
        "\r\nContent-Type: text/html; charset=utf-8\r\nCache-Control: no-store\r\nContent-Length: ",
        length.as_str(),
    );
    out.append("\r\nConnection: close\r\n\r\n");
    out.append(html_body);
    out
}

/// What signing in came to.
#[derive(Debug, PartialEq, Eq)]
pub struct CompanionBrowserAuthResult {
    pub state: String,
    pub token: Option<String>,
    pub error: Option<String>,
    pub mode: Option<String>,
    pub creator_username: Option<String>,
    pub stream_id: Option<String>,
    pub expires_at: Option<String>,
    pub website_base_url: Option<String>,
    pub creator_offline: bool,
}

/// The model of `CompanionBrowserAuthResult`.
#[verifier::ext_equal]
pub struct AuthModel {
    pub state: Seq<char>,
    pub token: Option<Seq<char>>,
    pub error: Option<Seq<char>>,
    pub mode: Option<Seq<char>>,
    pub creator_username: Option<Seq<char>>,
    pub stream_id: Option<Seq<char>>,
    pub expires_at: Option<Seq<char>>,
    pub website_base_url: Option<Seq<char>>,
    pub creator_offline: bool,
}

impl View for CompanionBrowserAuthResult {
    type V = AuthModel;

    open spec fn view(&self) -> AuthModel {
        AuthModel {
            state: self.state@,
            token: model::opt_text(self.token),
            error: model::opt_text(self.error),
            mode: model::opt_text(self.mode),
            creator_username: model::opt_text(self.creator_username),
            stream_id: model::opt_text(self.stream_id),
            expires_at: model::opt_text(self.expires_at),
            website_base_url: model::opt_text(self.website_base_url),
            creator_offline: self.creator_offline,
        }
    }
}

impl Duplicate for CompanionBrowserAuthResult {
    fn duplicate(&self) -> (r: Self) {
        CompanionBrowserAuthResult {
            state: self.state.clone(),
            token: model::copy_opt_text(&self.token),
            error: model::copy_opt_text(&self.error),
            mode: model::copy_opt_text(&self.mode),
            creator_username: model::copy_opt_text(&self.creator_username),
            stream_id: model::copy_opt_text(&self.stream_id),
            expires_at: model::copy_opt_text(&self.expires_at),
            website_base_url: model::copy_opt_text(&self.website_base_url),
            creator_offline: self.creator_offline,
        }
    }
}

/// Signing in failed without an answer.
pub open spec fn unanswered(state: Seq<char>, message: Seq<char>) -> AuthModel {
    AuthModel {
        state,
        token: None,
        error: Some(message),
        mode: None,
        creator_username: None,
        stream_id: None,
        expires_at: None,
        website_base_url: None,
        creator_offline: false,
    }
}

fn without_answer(state: &str, message: String) -> (r: CompanionBrowserAuthResult)
    ensures
        r@ == unanswered(state@, message@),
{
    CompanionBrowserAuthResult {
        state: state.to_owned(),
        token: None,
        error: Some(message),
        mode: None,
        creator_username: None,
        stream_id: None,
        expires_at: None,
        website_base_url: None,
        creator_offline: false,
    }
}

/// No answer came in time.
pub fn callback_timed_out(state: &str) -> (r: CompanionBrowserAuthResult)
    ensures
        r@ == unanswered(state@, "Timed out waiting for browser callback"@),
{
    without_answer(state, "Timed out waiting for browser callback".to_owned())
}

/// The listener failed.
pub fn callback_listener_failed(state: &str, error: &str) -> (r: CompanionBrowserAuthResult)
    ensures
        r@ == unanswered(state@, "Local callback listener failed: "@ + error@),
{
    without_answer(state, text::concat2("Local callback listener failed: ", error))
}

/// The pairs of names and values in the query of the URL that a text denotes, if it denotes one.
pub uninterp spec fn url_query(raw: Seq<char>) -> Option<Seq<(Seq<char>, Seq<char>)>>;

/// `url::Url::query_pairs` of the URL that `url::Url::parse` reads from the text.
#[verifier::external_body]
fn query_pairs(raw: &str) -> (r: Option<Vec<(String, String)>>)
    ensures
        match r {
            Some(found) => url_query(raw@) == Some(model::pairs(found@)),
            None => url_query(raw@) is None,
        },
{
    let url = url::Url::parse(raw).ok()?;
    Some(url.query_pairs().map(|(name, value)| (name.into_owned(), value.into_owned())).collect())
}

/// The value of a name in a query, where it is not blank.
pub open spec fn query_value(query: Seq<(Seq<char>, Seq<char>)>, name: Seq<char>) -> Option<
    Seq<char>,
> {
    match model::pair_value(query, name) {
        Some(value) => if text::trimmed(value).len() == 0 {
            None
        } else {
            Some(value)
        },
        None => None,
    }
}

fn find_value(query: &Vec<(String, String)>, name: &str) -> (r: Option<String>)
    ensures
        model::opt_text(r) == query_value(model::pairs(query@), name@),
{
    match model::find_pair(query, name) {
        Some(value) => if text::trim(value).unicode_len() == 0 {
            None
        } else {
            Some(value.to_owned())
        },
        None => None,
    }
}

/// A value says yes.
pub open spec fn says_yes(value: Seq<char>) -> bool {
    text::trimmed(value) == "1"@ || text::lower_text(text::trimmed(value)) == text::lower_text(
        "true"@,
    )
}

/// Some value of the query says that the creator is offline.
pub open spec fn says_offline(query: Seq<(Seq<char>, Seq<char>)>) -> bool {
    exists|i: int|
        0 <= i < query.len() && (#[trigger] query[i]).0 == "creatorOffline"@ && says_yes(query[i].1)
}

fn find_offline(query: &Vec<(String, String)>) -> (r: bool)
    ensures
        r == says_offline(model::pairs(query@)),
{
    let ghost all = model::pairs(query@);
    let mut i: usize = 0;
    while i < query.len()
        invariant
            i <= query@.len(),
            all == model::pairs(query@),
            forall|j: int|
                0 <= j < i ==> !((#[trigger] all[j]).0 == "creatorOffline"@ && says_yes(all[j].1)),
        decreases query@.len() - i,
    {
        assert(all[i as int] == (query@[i as int].0@, query@[i as int].1@));
        if text::same_text(query[i].0.as_str(), "creatorOffline") {
            let value = text::trim(query[i].1.as_str());
            if text::same_text(value, "1") || text::same_text_ignore_case(value, "true") {
                assert(says_yes(all[i as int].1));
                return true;
            }
        }
        i += 1;
    }
    false
}

/// The state that an answer names.
pub open spec fn answered_state(query: Seq<(Seq<char>, Seq<char>)>) -> Seq<char> {
    match model::pair_value(query, "state"@) {
        Some(state) => state,
        None => Seq::empty(),
    }
}

/// What an answer says, with the token and the error that are taken from it.
pub open spec fn answer_model(
    query: Seq<(Seq<char>, Seq<char>)>,
    token: Option<Seq<char>>,
    error: Option<Seq<char>>,
) -> AuthModel {
    AuthModel {
        state: answered_state(query),
        token,
        error,
        mode: query_value(query, "mode"@),
        creator_username: query_value(query, "creatorUsername"@),
        stream_id: query_value(query, "streamId"@),
        expires_at: query_value(query, "expiresAt"@),
        website_base_url: query_value(query, "websiteBaseUrl"@),
        creator_offline: says_offline(query),
    }
}

/// The page that is shown for an answer, and what signing in came to. A token counts only where
/// the answer names the expected state and no error.
pub open spec fn answer_of(query: Seq<(Seq<char>, Seq<char>)>, expected: Seq<char>) -> (
    PageModel,
    AuthModel,
) {
    if answered_state(query) != expected {
        (
            PageModel {
                title: "Login Failed"@,
                message: "State validation failed. Return to Vibealong and try again."@,
                is_error: true,
            },
            answer_model(query, None, Some("State validation failed"@)),
        )
    } else {
        match query_value(query, "error"@) {
            Some(message) => (
                PageModel { title: "Login Failed"@, message, is_error: true },
                answer_model(query, None, Some(message)),
            ),
            None => match query_value(query, "token"@) {
                Some(token) => (
                    PageModel {
                        title: "You're Signed In"@,
                        message: if says_offline(query) {
                            "Vibealong login is complete. Credential was saved and will activate once you are live."@
                        } else {
                            "Vibealong login is complete. Credential was saved successfully."@
                        },
                        is_error: false,
                    },
                    answer_model(query, Some(token), None),
                ),
                None => (
                    PageModel {
                        title: "Login Failed"@,
                        message: "No credential was returned. Return to Vibealong and try again."@,
                        is_error: true,
                    },
                    answer_model(query, None, Some("No token returned from browser login"@)),
                ),
            },
        }
    }
}

fn answer_with(
    query: &Vec<(String, String)>,
    token: Option<String>,
    error: Option<String>,
) -> (r: CompanionBrowserAuthResult)
    ensures
        r@ == answer_model(
            model::pairs(query@),
            model::opt_text(token),
            model::opt_text(error),
        ),
{
    let state = match model::find_pair(query, "state") {
        Some(state) => state.to_owned(),
        None => String::new(),
    };
    CompanionBrowserAuthResult {
        state,
        token,
        error,
        mode: find_value(query, "mode"),
        creator_username: find_value(query, "creatorUsername"),
        stream_id: find_value(query, "streamId"),
        expires_at: find_value(query, "expiresAt"),
        website_base_url: find_value(query, "websiteBaseUrl"),
        creator_offline: find_offline(query),
    }
}

/// Reads the query of an answer: the page to show, and what signing in came to.
pub fn read_answer(query: &Vec<(String, String)>, expected: &str) -> (r: (
    String,
    CompanionBrowserAuthResult,
))
    ensures
        r.0@ == page_text(answer_of(model::pairs(query@), expected@).0),
        r.1@ == answer_of(model::pairs(query@), expected@).1,
{
    let state = match model::find_pair(query, "state") {
        Some(state) => state.to_owned(),
        None => String::new(),
    };
    assert(state@ == answered_state(model::pairs(query@)));
    if !text::same_text(state.as_str(), expected) {
        let page = build_callback_page_html(
            "Login Failed",
            "State validation failed. Return to Vibealong and try again.",
            true,
        );
        return (page, answer_with(query, None, Some("State validation failed".to_owned())));
    }
    if let Some(message) = find_value(query, "error") {
        let page = build_callback_page_html("Login Failed", message.as_str(), true);
        return (page, answer_with(query, None, Some(message)));
    }
    if let Some(token) = find_value(query, "token") {
        let message = if find_offline(query) {
            "Vibealong login is complete. Credential was saved and will activate once you are live."
        } else {
            "Vibealong login is complete. Credential was saved successfully."
        };
        let page = build_callback_page_html("You're Signed In", message, false);
        return (page, answer_with(query, Some(token), None));
    }
    let page = build_callback_page_html(
        "Login Failed",
        "No credential was returned. Return to Vibealong and try again.",
        true,
    );
    (page, answer_with(query, None, Some("No token returned from browser login".to_owned())))
}

/// A credential is taken only from an answer that names the expected state and no error.
pub proof fn law_credential_needs_state(
    query: Seq<(Seq<char>, Seq<char>)>,
    expected: Seq<char>,
)
    ensures
        answer_of(query, expected).1.token is Some ==> answer_of(query, expected).1.state
            == expected && answer_of(query, expected).1.error is None
            && !answer_of(query, expected).0.is_error,
        answer_of(query, expected).1.token is None <==> answer_of(query, expected).1.error is Some,
{
}

/// What follows the first word.
pub open spec fn after_first_word(s: Seq<char>) -> Seq<char> {
    text::skip_white(s).skip(text::first_word(s).len() as int)
}

/// What an HTTP request asks for: the second word of its first line, or the root.
pub open spec fn request_target(line: Seq<char>) -> Seq<char> {
    let second = text::first_word(after_first_word(line));
    if second.len() == 0 {
        "/"@
    } else {
        second
    }
}

fn skip_first_word(s: &str) -> (r: &str)
    ensures
        r@ == after_first_word(s@),
{
    let chars = text::chars_of(s);
    let mut start: usize = 0;
    assert(s@.skip(0) =~= s@);
    while start < chars.len() && text::is_whitespace(chars[start])
        invariant
            start <= chars@.len(),
            chars@ == s@,
            text::skip_white(s@) == text::skip_white(s@.skip(start as int)),
        decreases chars@.len() - start,
    {
        assert(s@.skip(start as int).drop_first() =~= s@.skip(start + 1));
        start += 1;
    }
    let ghost body = s@.skip(start as int);
    let mut end: usize = start;
    while end < chars.len() && !text::is_whitespace(chars[end])
        invariant
            start <= end <= chars@.len(),
            chars@ == s@,
            body == s@.skip(start as int),
            forall|j: int| 0 <= j < end - start ==> !text::is_white(#[trigger] body[j]),
        decreases chars@.len() - end,
    {
        assert(body[end - start] == s@[end as int]);
        end += 1;
    }
    proof {
        if end < s@.len() {
            assert(body[end - start] == s@[end as int]);
        }
        text::lemma_leading_word(body, end - start);
        assert(text::skip_white(s@) == body);
        assert(body.skip(end - start) =~= s@.skip(end as int));
    }
    text::skip_chars(s, end)
}

/// What the request of the browser comes to: the reply to send and what signing in came to, or why
/// there is none.
pub open spec fn callback_outcome(request: Seq<u8>, expected: Seq<char>) -> Result<
    (Seq<char>, AuthModel),
    Seq<char>,
> {
    let lines = text::text_lines(text::bytes_text(request));
    if request.len() == 0 {
        Err("browser callback closed without request"@)
    } else if lines.len() == 0 {
        Err("invalid callback request"@)
    } else {
        match url_query("http://127.0.0.1"@ + request_target(lines[0])) {
            None => Err("invalid callback URL"@),
            Some(query) => {
                let (page, result) = answer_of(query, expected);
                Ok((http_reply("HTTP/1.1 200 OK"@, page_text(page)), result))
            },
        }
    }
}

/// Answers the request of the browser.
pub fn handle_companion_auth_callback(request: &[u8], expected: &str) -> (r: Result<
    (String, CompanionBrowserAuthResult),
    String,
>)
    ensures
        match r {
            Ok((reply, result)) => callback_outcome(request@, expected@) == Ok::<
                (Seq<char>, AuthModel),
                Seq<char>,
            >((reply@, result@)),
            Err(message) => callback_outcome(request@, expected@) == Err::<
                (Seq<char>, AuthModel),
                Seq<char>,
            >(message@),
        },
{
    if request.len() == 0 {
        return Err("browser callback closed without request".to_owned());
    }
    let decoded = text::decode_lossy(request);
    let lines = text::lines(decoded.as_str());
    if lines.len() == 0 {
        return Err("invalid callback request".to_owned());
    }
    assert(text::texts(lines@)[0] == lines@[0]@);
    let found = text::word(skip_first_word(lines[0].as_str()));
    let target = if found.unicode_len() == 0 {
        "/"
    } else {
        found
    };
    let url = text::concat2("http://127.0.0.1", target);
    match query_pairs(url.as_str()) {
        None => Err("invalid callback URL".to_owned()),
        Some(query) => {
            let (page, result) = read_answer(&query, expected);
            let reply = build_http_response("HTTP/1.1 200 OK", page.as_str());
            Ok((reply, result))
        },
    }
}

/// The website to sign in at, from what its URL is read as, or what is wrong with it.
pub open spec fn checked_website(
    parsed: Result<BaseUrlModel, Seq<char>>,
    allow_insecure_http: bool,
) -> Result<BaseUrlModel, Seq<char>> {
    match parsed {
        Err(message) => Err("Website Base URL is invalid: "@ + message),
        Ok(url) => if !allow_insecure_http && url.scheme != "https"@ {
            Err("Website Base URL must use HTTPS unless 'Allow Insecure HTTP' is enabled."@)
        } else if allow_insecure_http && url.scheme != "https"@ && url.scheme != "http"@ {
            Err("Website Base URL must use HTTP or HTTPS"@)
        } else {
            Ok(url)
        },
    }
}

/// The outcome of reading a URL.
pub open spec fn url_outcome(result: Result<BaseUrl, String>) -> Result<BaseUrlModel, Seq<char>> {
    match result {
        Ok(url) => Ok(url@),
        Err(message) => Err(message@),
    }
}

/// Checks the website to sign in at.
pub fn check_website(parsed: Result<BaseUrl, String>, allow_insecure_http: bool) -> (r: Result<
    BaseUrl,
    String,
>)
    ensures
        url_outcome(r) == checked_website(url_outcome(parsed), allow_insecure_http),
{
    match parsed {
        Err(message) => Err(text::concat2("Website Base URL is invalid: ", message.as_str())),
        Ok(url) => {
            let https = text::same_text(url.scheme.as_str(), "https");
            if !allow_insecure_http && !https {
                return Err(
                    "Website Base URL must use HTTPS unless 'Allow Insecure HTTP' is enabled.".to_owned(),
                );
            }
            if allow_insecure_http && !https && !text::same_text(url.scheme.as_str(), "http") {
                return Err("Website Base URL must use HTTP or HTTPS".to_owned());
            }
            Ok(url)
        },
    }
}

/// The website to sign in at, or what is wrong with what was entered.
pub open spec fn website_of(entered: Seq<char>, allow_insecure_http: bool) -> Result<
    BaseUrlModel,
    Seq<char>,
> {
    let base = text::drop_trailing(text::trimmed(entered), '/');
    if base.len() == 0 {
        Err("Website Base URL is required before opening Vibealong login"@)
    } else {
        checked_website(config::url_parts(base), allow_insecure_http)
    }
}

/// Reads the website to sign in at.
pub fn login_website(entered: &str, allow_insecure_http: bool) -> (r: Result<BaseUrl, String>)
    ensures
        url_outcome(r) == website_of(entered@, allow_insecure_http),
{
    let base = text::trim_end_char(text::trim(entered), '/');
    if base.unicode_len() == 0 {
        return Err("Website Base URL is required before opening Vibealong login".to_owned());
    }
    check_website(config::parse_url(base), allow_insecure_http)
}

/// A hexadecimal digit.
pub open spec fn hex_digit(n: int) -> char {
    if n < 10 {
        (48 + n) as char
    } else {
        (55 + n) as char
    }
}

/// What a byte is written as in a query.
pub open spec fn encoded_byte(b: u8) -> Seq<char> {
    if 48 <= b <= 57 || 65 <= b <= 90 || 97 <= b <= 122 || b == 42 || b == 45 || b == 46 || b == 95 {
        seq![b as char]
    } else if b == 32 {
        seq!['+']
    } else {
        seq!['%', hex_digit(b as int / 16), hex_digit(b as int % 16)]
    }
}

/// What bytes are written as in a query.
pub open spec fn encoded_bytes(bytes: Seq<u8>) -> Seq<char>
    decreases bytes.len(),
{
    if bytes.len() == 0 {
        Seq::empty()
    } else {
        encoded_bytes(bytes.drop_last()) + encoded_byte(bytes.last())
    }
}

/// `url::form_urlencoded::byte_serialize`: digits, ASCII letters and `*-._` stay, a space becomes a
/// plus sign, and any other byte becomes a percent sign with two hexadecimal digits.
#[verifier::external_body]
fn encode_query_text(value: &str) -> (r: String)
    ensures
        r@ == encoded_bytes(encode_utf8(value@)),
{
    url::form_urlencoded::byte_serialize(value.as_bytes()).collect()
}

/// Makes the state that tells one sign-in from another.
pub fn new_login_state() -> (r: String)
    ensures
        store::random_id(r@),
{
    store::fresh_id()
}

/// Where the browser is to bring the answer.
pub open spec fn callback_address(port: u16) -> Seq<char> {
    "http://127.0.0.1:"@ + text::decimal_text(port as nat) + "/callback"@
}

/// Where the browser is to bring the answer.
pub fn callback_url(port: u16) -> (r: String)
    ensures
        r@ == callback_address(port),
{
    let digits = text::decimal(port as u64);
    text::concat3("http://127.0.0.1:", digits.as_str(), "/callback")
}

/// The query that says who signs in and where the answer goes.
pub open spec fn login_query(state: Seq<char>, callback: Seq<char>) -> Seq<char> {
    "?mode=creator&state="@ + encoded_bytes(encode_utf8(state)) + "&redirect_uri="@ + encoded_bytes(
        encode_utf8(callback),
    )
}

/// The address at which the user signs in.
pub open spec fn login_address(
    base: BaseUrlModel,
    state: Seq<char>,
    callback: Seq<char>,
) -> Result<Seq<char>, Seq<char>> {
    match relay::url_joined(base.text, "/api/vibealong/companion/desktop-login"@) {
        Err(message) => Err("Failed to build login URL: "@ + message),
        Ok(url) => Ok(url + login_query(state, callback)),
    }
}

/// Builds the address at which the user signs in.
pub fn login_url(base: &BaseUrl, state: &str, callback: &str) -> (r: Result<String, String>)
    ensures
        forms::text_outcome(r) == login_address(base@, state@, callback@),
{
    match relay::join_url(base.text.as_str(), "/api/vibealong/companion/desktop-login") {
        Err(message) => Err(text::concat2("Failed to build login URL: ", message.as_str())),
        Ok(url) => {
            let state = encode_query_text(state);
            let callback = encode_query_text(callback);
            let mut query = text::concat3("?mode=creator&state=", state.as_str(), "&redirect_uri=");
            query.append(callback.as_str());
            Ok(text::concat2(url.as_str(), query.as_str()))
        },
    }
}

/// What was encoded ends no value of a query: it holds none of the characters that part one.
pub proof fn law_encoded_is_inert(bytes: Seq<u8>)
    ensures
        forall|i: int|
            0 <= i < encoded_bytes(bytes).len() ==> {
                let c = #[trigger] encoded_bytes(bytes)[i];
                c != '&' && c != '=' && c != '#' && c != '?' && c != ' '
            },
    decreases bytes.len(),
{
    if bytes.len() > 0 {
        let before = encoded_bytes(bytes.drop_last());
        let b = bytes.last();
        law_encoded_is_inert(bytes.drop_last());
        assert forall|i: int| 0 <= i < encoded_bytes(bytes).len() implies {
            let c = #[trigger] encoded_bytes(bytes)[i];
            c != '&' && c != '=' && c != '#' && c != '?' && c != ' '
        } by {
            if i < before.len() {
                assert(encoded_bytes(bytes)[i] == before[i]);
            } else {
                assert(encoded_bytes(bytes)[i] == encoded_byte(b)[i - before.len()]);
            }
        }
    }
}

/// The form after signing in: what was left empty is filled in, and the credential is entered.
pub open spec fn signed_in_form(form: FormModel, result: AuthModel, token: Seq<char>) -> FormModel {
    FormModel {
        creator_username: if text::trimmed(form.creator_username).len() == 0
            && result.creator_username is Some {
            result.creator_username->0
        } else {
            form.creator_username
        },
        website_base_url: if text::trimmed(form.website_base_url).len() == 0
            && result.website_base_url is Some {
            result.website_base_url->0
        } else {
            form.website_base_url
        },
        stream_key: token,
        ..form
    }
}

/// The token of an answer that can be used, or what is reported.
pub open spec fn usable_token(result: AuthModel) -> Result<Seq<char>, Seq<char>> {
    match result.error {
        Some(error) => Err("Companion login failed: "@ + error),
        None => match result.token {
            Some(token) => if text::trimmed(token).len() == 0 {
                Err("Companion login failed: empty token"@)
            } else {
                Ok(token)
            },
            None => Err("Companion login failed: empty token"@),
        },
    }
}

/// Enters what signing in came to into a form, or tells what is wrong with it.
pub fn apply_companion_browser_auth_result(
    form: &mut ProfileForm,
    result: &CompanionBrowserAuthResult,
) -> (r: Result<(), String>)
    ensures
        match usable_token(result@) {
            Ok(token) => r is Ok && final(form)@ == signed_in_form(old(form)@, result@, token),
            Err(message) => r matches Err(text) && text@ == message && *final(form) == *old(form),
        },
{
    if let Some(error) = &result.error {
        return Err(text::concat2("Companion login failed: ", error.as_str()));
    }
    let token = match &result.token {
        Some(token) => token,
        None => {
            return Err("Companion login failed: empty token".to_owned());
        },
    };
    if text::trim(token.as_str()).unicode_len() == 0 {
        return Err("Companion login failed: empty token".to_owned());
    }
    if text::trim(form.creator_username.as_str()).unicode_len() == 0 {
        if let Some(username) = &result.creator_username {
            form.creator_username = username.clone();
        }
    }
    if text::trim(form.website_base_url.as_str()).unicode_len() == 0 {
        if let Some(base_url) = &result.website_base_url {
            form.website_base_url = base_url.clone();
        }
    }
    form.stream_key = token.clone();
    assert(form@ =~= signed_in_form(old(form)@, result@, token@));
    Ok(())
}

/// A detail of what is reported, where it is not blank.
pub open spec fn detail(label: Seq<char>, value: Option<Seq<char>>) -> Seq<char> {
    match value {
        Some(value) => if text::trimmed(value).len() == 0 {
            Seq::empty()
        } else {
            label + value
        },
        None => Seq::empty(),
    }
}

fn append_detail(out: &mut String, label: &str, value: &Option<String>)
    ensures
        final(out)@ == old(out)@ + detail(label@, model::opt_text(*value)),
{
    if let Some(value) = value {
        if text::trim(value.as_str()).unicode_len() > 0 {
            out.append(label);
            out.append(value.as_str());
        }
    }
    assert(out@ =~= old(out)@ + detail(label@, model::opt_text(*value)));
}

/// What is reported once the credential is saved.
pub open spec fn signed_in_text(result: AuthModel) -> Seq<char> {
    "Companion login complete. Credential saved."@ + detail(" mode="@, result.mode) + detail(
        " stream="@,
        result.stream_id,
    ) + detail(" expires="@, result.expires_at) + (if result.creator_offline {
        " creator is offline; bridge will engage once stream is live"@
    } else {
        Seq::empty()
    })
}

/// What is reported once the credential is saved.
pub fn signed_in_message(result: &CompanionBrowserAuthResult) -> (r: String)
    ensures
        r@ == signed_in_text(result@),
{
    let mut out = "Companion login complete. Credential saved.".to_owned();
    append_detail(&mut out, " mode=", &result.mode);
    append_detail(&mut out, " stream=", &result.stream_id);
    append_detail(&mut out, " expires=", &result.expires_at);
    let ghost before = out@;
    if result.creator_offline {
        out.append(" creator is offline; bridge will engage once stream is live");
    } else {
        assert(before + Seq::<char>::empty() =~= before);
    }
    out
}

/// What came from the listener.
#[derive(Debug, PartialEq, Eq)]
pub enum Received {
    Nothing,
    Disconnected,
    Answer(CompanionBrowserAuthResult),
}

/// What is done about a sign-in that is under way.
#[derive(Debug, PartialEq, Eq)]
pub enum PollStep {
    /// Go on waiting.
    Wait,
    /// Give up, with a message.
    Fail(String),
    /// Take up the answer.
    Apply(CompanionBrowserAuthResult),
}

/// How long an answer is waited for, in seconds.
pub const LOGIN_SECONDS: u64 = 300;

/// What is done about a sign-in that began a number of seconds ago.
pub open spec fn polled(elapsed_seconds: u64, received: Received, expected: Seq<char>, step: PollStep) -> bool {
    if elapsed_seconds >= LOGIN_SECONDS {
        step matches PollStep::Fail(message) && message@
            == "Companion login timed out; start login again."@
    } else {
        match received {
            Received::Nothing => step is Wait,
            Received::Disconnected => step matches PollStep::Fail(message) && message@
                == "Companion login listener disconnected unexpectedly."@,
            Received::Answer(result) => if expected.len() == 0 || result.state@ != expected {
                step matches PollStep::Fail(message) && message@
                    == "Companion login failed: state mismatch"@
            } else {
                step == PollStep::Apply(result)
            },
        }
    }
}

/// Decides on a sign-in that is under way.
pub fn poll_companion_browser_login(
    elapsed_seconds: u64,
    received: Received,
    expected: &str,
) -> (r: PollStep)
    ensures
        polled(elapsed_seconds, received, expected@, r),
{
    if elapsed_seconds >= LOGIN_SECONDS {
        return PollStep::Fail("Companion login timed out; start login again.".to_owned());
    }
    match received {
        Received::Nothing => PollStep::Wait,
        Received::Disconnected => PollStep::Fail(
            "Companion login listener disconnected unexpectedly.".to_owned(),
        ),
        Received::Answer(result) => if expected.unicode_len() == 0 || !text::same_text(
            result.state.as_str(),
            expected,
        ) {
            PollStep::Fail("Companion login failed: state mismatch".to_owned())
        } else {
            PollStep::Apply(result)
        },
    }
}

} // verus!
