//! OSCQuery: finding the game's endpoint and reading the values that it offers.
use vstd::prelude::*;
use vstd::string::*;
use crate::ip;
use crate::ip::IpAddress;
use crate::json;
use crate::json::{Json, JsonValue};
use crate::model;
use crate::model::Duplicate;
use crate::runtime;
use crate::text;

verus! {

/// An OSCQuery endpoint and the OSC port that it announces.
#[derive(Debug, PartialEq, Eq)]
pub struct OscQueryEndpoint {
    pub oscquery_host: String,
    pub oscquery_port: u16,
    pub osc_host: String,
    pub osc_port: u16,
    pub source: String,
}

/// The model of `OscQueryEndpoint`.
#[verifier::ext_equal]
pub struct EndpointModel {
    pub oscquery_host: Seq<char>,
    pub oscquery_port: u16,
    pub osc_host: Seq<char>,
    pub osc_port: u16,
    pub source: Seq<char>,
}

impl View for OscQueryEndpoint {
    type V = EndpointModel;

    open spec fn view(&self) -> EndpointModel {
        EndpointModel {
            oscquery_host: self.oscquery_host@,
            oscquery_port: self.oscquery_port,
            osc_host: self.osc_host@,
            osc_port: self.osc_port,
            source: self.source@,
        }
    }
}

impl Duplicate for OscQueryEndpoint {
    fn duplicate(&self) -> (r: Self) {
        OscQueryEndpoint {
            oscquery_host: self.oscquery_host.clone(),
            oscquery_port: self.oscquery_port,
            osc_host: self.osc_host.clone(),
            osc_port: self.osc_port,
            source: self.source.clone(),
        }
    }
}

/// What is known of the endpoint.
#[derive(Debug, PartialEq, Eq)]
pub struct OscQueryStatus {
    pub endpoint: Option<OscQueryEndpoint>,
    pub last_error: Option<String>,
}

/// The model of `OscQueryStatus`.
#[verifier::ext_equal]
pub struct StatusModel {
    pub endpoint: Option<EndpointModel>,
    pub last_error: Option<Seq<char>>,
}

impl View for OscQueryStatus {
    type V = StatusModel;

    open spec fn view(&self) -> StatusModel {
        StatusModel {
            endpoint: model::opt_view(self.endpoint),
            last_error: model::opt_text(self.last_error),
        }
    }
}

impl Duplicate for OscQueryStatus {
    fn duplicate(&self) -> (r: Self) {
        OscQueryStatus {
            endpoint: model::copy_opt(&self.endpoint),
            last_error: model::copy_opt_text(&self.last_error),
        }
    }
}

impl Default for OscQueryStatus {
    fn default() -> (r: Self)
        ensures
            r@ == (StatusModel { endpoint: None, last_error: None }),
    {
        OscQueryStatus { endpoint: None, last_error: None }
    }
}

/// A host as it stands in a URL: an IPv6 address in brackets.
pub open spec fn url_host(host: Seq<char>) -> Seq<char> {
    let s = text::trimmed(host);
    if text::begins_with(s, '[') && s.last() == ']' {
        s
    } else if text::contains_text(s, ":"@) {
        "["@ + s + "]"@
    } else {
        s
    }
}

/// Writes a host as it stands in a URL.
pub fn host_for_url(host: &str) -> (r: String)
    ensures
        r@ == url_host(host@),
{
    let s = text::trim(host);
    let len: usize = s.unicode_len();
    if text::starts_with_char(s, '[') && s.get_char(len - 1) == ']' {
        return s.to_owned();
    }
    if text::contains(s, ":") {
        return text::concat3("[", s, "]");
    }
    s.to_owned()
}

/// The URL of a path at an endpoint.
pub open spec fn url_at(host: Seq<char>, port: u16, path: Seq<char>) -> Seq<char> {
    "http://"@ + url_host(host) + ":"@ + text::decimal_text(port as nat) + path
}

/// Writes the URL of a path at an endpoint.
pub fn endpoint_url(host: &str, port: u16, path: &str) -> (r: String)
    ensures
        r@ == url_at(host@, port, path@),
{
    let host = host_for_url(host);
    let port = text::decimal(port as u64);
    let mut out = text::concat3("http://", host.as_str(), ":");
    out.append(port.as_str());
    out.append(path);
    out
}

/// A path that starts with a slash and, but for the root, ends without one.
pub open spec fn query_path(path: Seq<char>) -> Seq<char> {
    let s = text::trimmed(path);
    let bare = text::drop_trailing(s, '/');
    if s.len() == 0 || s == "/"@ {
        "/"@
    } else if text::begins_with(bare, '/') {
        bare
    } else {
        "/"@ + bare
    }
}

/// Brings a path into the form that is asked for.
pub fn normalize_query_path(path: &str) -> (r: String)
    ensures
        r@ == query_path(path@),
{
    let s = text::trim(path);
    if s.unicode_len() == 0 || text::same_text(s, "/") {
        return "/".to_owned();
    }
    let bare = text::trim_end_char(s, '/');
    if text::starts_with_char(bare, '/') {
        bare.to_owned()
    } else {
        text::concat2("/", bare)
    }
}

/// The key is the path or lies under it.
pub open spec fn under_path(key: Seq<char>, path: Seq<char>) -> bool {
    key == path || (path + "/"@).is_prefix_of(key)
}

/// The values whose keys are the path or lie under it; all of them under the root.
pub open spec fn values_under(values: Seq<(Seq<char>, Json)>, path: Seq<char>) -> Seq<
    (Seq<char>, Json),
>
    decreases values.len(),
{
    if path == "/"@ || values.len() == 0 {
        values
    } else {
        let before = values_under(values.drop_last(), path);
        if under_path(values.last().0, path) {
            before.push(values.last())
        } else {
            before
        }
    }
}

/// Keeps the values whose keys are the path or lie under it.
pub fn filter_values_under_path(values: Vec<(String, JsonValue)>, path: &str) -> (r: Vec<
    (String, JsonValue),
>)
    ensures
        json::entries_content(r@) == values_under(json::entries_content(values@), path@),
{
    if text::same_text(path, "/") {
        return values;
    }
    let prefix = text::concat2(path, "/");
    let ghost all = json::entries_content(values@);
    let mut out: Vec<(String, JsonValue)> = Vec::new();
    let mut i: usize = 0;
    assert(all.take(0) =~= Seq::empty());
    while i < values.len()
        invariant
            i <= values@.len(),
            all == json::entries_content(values@),
            path@ != "/"@,
            prefix@ == path@ + "/"@,
            json::entries_content(out@) == values_under(all.take(i as int), path@),
        decreases values@.len() - i,
    {
        proof {
            json::lemma_entries_content(values@);
            assert(all.take(i + 1).drop_last() =~= all.take(i as int));
            assert(all.take(i + 1).last() == all[i as int]);
        }
        let key = values[i].0.as_str();
        if text::same_text(key, path) || text::starts_with(key, prefix.as_str()) {
            json::push_entry(&mut out, key, values[i].1.copy());
        }
        i += 1;
    }
    proof {
        json::lemma_entries_content(values@);
        assert(all.take(i as int) =~= all);
    }
    out
}

/// The name of the avatar parameter at a path: what follows the prefix, where it is not blank.
pub open spec fn param_name(path: Seq<char>) -> Option<Seq<char>> {
    let prefix = runtime::param_prefix();
    if prefix.is_prefix_of(path) && text::trimmed(path.skip(prefix.len() as int)).len() > 0 {
        Some(path.skip(prefix.len() as int))
    } else {
        None
    }
}

/// The name of the avatar parameter at a path.
pub fn avatar_param_name_from_full_path(path: &str) -> (r: Option<&str>)
    ensures
        match r {
            Some(name) => param_name(path@) == Some(name@),
            None => param_name(path@) is None,
        },
{
    let prefix = "/avatar/parameters/";
    if !text::starts_with(path, prefix) {
        return None;
    }
    let len: usize = prefix.unicode_len();
    let name = text::skip_chars(path, len);
    if text::trim(name).unicode_len() == 0 {
        None
    } else {
        Some(name)
    }
}

/// The values of avatar parameters, by their names.
pub open spec fn param_values(values: Seq<(Seq<char>, Json)>) -> Seq<(Seq<char>, Json)>
    decreases values.len(),
{
    if values.len() == 0 {
        Seq::empty()
    } else {
        let before = param_values(values.drop_last());
        match param_name(values.last().0) {
            Some(name) => json::with_entry(before, name, values.last().1),
            None => before,
        }
    }
}

/// Picks the values of avatar parameters.
pub fn avatar_parameters(values: &Vec<(String, JsonValue)>) -> (r: Vec<(String, JsonValue)>)
    ensures
        json::entries_content(r@) == param_values(json::entries_content(values@)),
{
    let ghost all = json::entries_content(values@);
    let mut out: Vec<(String, JsonValue)> = Vec::new();
    let mut i: usize = 0;
    assert(all.take(0) =~= Seq::empty());
    while i < values.len()
        invariant
            i <= values@.len(),
            all == json::entries_content(values@),
            json::entries_content(out@) == param_values(all.take(i as int)),
        decreases values@.len() - i,
    {
        proof {
            json::lemma_entries_content(values@);
            assert(all.take(i + 1).drop_last() =~= all.take(i as int));
            assert(all.take(i + 1).last() == all[i as int]);
        }
        if let Some(name) = avatar_param_name_from_full_path(values[i].0.as_str()) {
            json::set_entry(&mut out, name.to_owned(), values[i].1.copy());
        }
        i += 1;
    }
    proof {
        json::lemma_entries_content(values@);
        assert(all.take(i as int) =~= all);
    }
    out
}

/// The value that a node announces: its path and the first of its values.
pub open spec fn own_value(node: Json) -> Option<(Seq<char>, Json)> {
    match (
        json::as_text(json::field(node, "FULL_PATH"@)),
        json::as_array(json::field(node, "VALUE"@)),
    ) {
        (Some(path), Some(values)) => if values.len() > 0 {
            Some((path, values[0]))
        } else {
            None
        },
        _ => None,
    }
}

/// The values with those of the items added, one item after the other.
pub open spec fn collected_items(items: Seq<Json>, values: Seq<(Seq<char>, Json)>) -> Seq<
    (Seq<char>, Json),
>
    decreases items,
{
    if items.len() == 0 {
        values
    } else {
        collected(items.last(), collected_items(items.drop_last(), values))
    }
}

/// The values with those of the members added, one member after the other.
pub open spec fn collected_members(
    members: Seq<(Seq<char>, Json)>,
    values: Seq<(Seq<char>, Json)>,
) -> Seq<(Seq<char>, Json)>
    decreases members,
{
    if members.len() == 0 {
        values
    } else {
        collected(members.last().1, collected_members(members.drop_last(), values))
    }
}

/// The values with those of a tree of nodes added: a node's own value first, then those below it.
pub open spec fn collected(node: Json, values: Seq<(Seq<char>, Json)>) -> Seq<(Seq<char>, Json)>
    decreases node,
{
    match node {
        Json::Array(items) => collected_items(items, values),
        Json::Object(members) => collected_members(
            members,
            match own_value(node) {
                Some((path, value)) => json::with_entry(values, path, value),
                None => values,
            },
        ),
        _ => values,
    }
}

/// Collects the values of a tree of nodes.
pub fn collect_oscquery_values(input: &JsonValue, output: &mut Vec<(String, JsonValue)>)
    ensures
        json::entries_content(final(output)@) == collected(
            input@,
            json::entries_content(old(output)@),
        ),
    decreases input,
{
    match input {
        JsonValue::Array(items) => {
            let ghost all = json::items_content(items@);
            let ghost start = json::entries_content(output@);
            let mut i: usize = 0;
            assert(all.take(0) =~= Seq::empty());
            while i < items.len()
                invariant
                    i <= items@.len(),
                    *input == JsonValue::Array(*items),
                    all == json::items_content(items@),
                    json::entries_content(output@) == collected_items(
                        all.take(i as int),
                        start,
                    ),
                decreases items@.len() - i,
            {
                proof {
                    json::lemma_items_content(items@);
                    assert(all.take(i + 1).drop_last() =~= all.take(i as int));
                    assert(all.take(i + 1).last() == all[i as int]);
                    assert(decreases_to!(*input => input->Array_0));
                    assert(decreases_to!(input->Array_0 => input->Array_0@));
                    assert(decreases_to!(items@ => items@[i as int]));
                }
                collect_oscquery_values(&items[i], output);
                i += 1;
            }
            proof {
                json::lemma_items_content(items@);
                assert(all.take(i as int) =~= all);
            }
        },
        JsonValue::Object(entries) => {
            let path = json::text_of(input.get("FULL_PATH"));
            let values = json::array_of(input.get("VALUE"));
            if let (Some(path), Some(values)) = (path, values) {
                proof {
                    json::lemma_items_content(values@);
                }
                if values.len() > 0 {
                    json::set_entry(output, path.to_owned(), values[0].copy());
                }
            }
            let ghost all = json::entries_content(entries@);
            let ghost start = json::entries_content(output@);
            let mut i: usize = 0;
            assert(all.take(0) =~= Seq::empty());
            while i < entries.len()
                invariant
                    i <= entries@.len(),
                    *input == JsonValue::Object(*entries),
                    all == json::entries_content(entries@),
                    json::entries_content(output@) == collected_members(
                        all.take(i as int),
                        start,
                    ),
                decreases entries@.len() - i,
            {
                proof {
                    json::lemma_entries_content(entries@);
                    assert(all.take(i + 1).drop_last() =~= all.take(i as int));
                    assert(all.take(i + 1).last() == all[i as int]);
                    assert(decreases_to!(*input => input->Object_0));
                    assert(decreases_to!(input->Object_0 => input->Object_0@));
                    assert(decreases_to!(entries@ => entries@[i as int]));
                    assert(decreases_to!(entries@[i as int] => entries@[i as int].1));
                }
                collect_oscquery_values(&entries[i].1, output);
                i += 1;
            }
            proof {
                json::lemma_entries_content(entries@);
                assert(all.take(i as int) =~= all);
            }
        },
        _ => {},
    }
}

/// The port that host information announces, as a number or as a text.
pub open spec fn announced_port(value: Option<Json>) -> Option<nat> {
    match value {
        Some(Json::Number(n)) => match n.unsigned {
            Some(port) => if port <= 65535 {
                Some(port as nat)
            } else {
                None
            },
            None => None,
        },
        Some(Json::Text(s)) => text::unsigned_value(s, 65535),
        _ => None,
    }
}

/// The endpoint that host information describes, or why it describes none of the game's.
pub open spec fn endpoint_from(host: Seq<char>, port: u16, info: Json) -> Result<
    EndpointModel,
    Seq<char>,
> {
    let name = match json::as_text(json::field(info, "NAME"@)) {
        Some(name) => name,
        None => Seq::empty(),
    };
    if port == 0 {
        Err("invalid OSCQuery port 0"@)
    } else if !"VRChat-Client-"@.is_prefix_of(name) {
        Err("endpoint host info NAME is not VRChat client: "@ + name)
    } else {
        match json::as_text(json::field(info, "OSC_IP"@)) {
            None => Err("HOST_INFO missing OSC_IP"@),
            Some(osc_host) => match announced_port(json::field(info, "OSC_PORT"@)) {
                None => Err("HOST_INFO missing OSC_PORT"@),
                Some(osc_port) => if osc_port == 0 {
                    Err("HOST_INFO OSC_PORT must be > 0"@)
                } else {
                    Ok(
                        EndpointModel {
                            oscquery_host: host,
                            oscquery_port: port,
                            osc_host,
                            osc_port: osc_port as u16,
                            source: Seq::empty(),
                        },
                    )
                },
            },
        }
    }
}

/// The outcome of a check.
pub open spec fn check_outcome(result: Result<OscQueryEndpoint, String>) -> Result<
    EndpointModel,
    Seq<char>,
> {
    match result {
        Ok(endpoint) => Ok(endpoint@),
        Err(message) => Err(message@),
    }
}

/// Reads the host information of an endpoint.
pub fn check_host_info(host: &str, port: u16, info: &JsonValue) -> (r: Result<
    OscQueryEndpoint,
    String,
>)
    ensures
        check_outcome(r) == endpoint_from(host@, port, info@),
{
    if port == 0 {
        return Err("invalid OSCQuery port 0".to_owned());
    }
    let name = match json::text_of(info.get("NAME")) {
        Some(name) => name.to_owned(),
        None => String::new(),
    };
    if !text::starts_with(name.as_str(), "VRChat-Client-") {
        return Err(
            text::concat2("endpoint host info NAME is not VRChat client: ", name.as_str()),
        );
    }
    let osc_host = match json::text_of(info.get("OSC_IP")) {
        Some(osc_host) => osc_host.to_owned(),
        None => {
            return Err("HOST_INFO missing OSC_IP".to_owned());
        },
    };
    let announced = match info.get("OSC_PORT") {
        Some(JsonValue::Number(n)) => match n.unsigned {
            Some(port) => {
                if port <= 65535 {
                    Some(port)
                } else {
                    None
                }
            },
            None => None,
        },
        Some(JsonValue::Text(s)) => text::parse_unsigned(s.as_str(), 65535),
        _ => None,
    };
    match announced {
        None => Err("HOST_INFO missing OSC_PORT".to_owned()),
        Some(osc_port) => {
            if osc_port == 0 {
                return Err("HOST_INFO OSC_PORT must be > 0".to_owned());
            }
            let endpoint = OscQueryEndpoint {
                oscquery_host: host.to_owned(),
                oscquery_port: port,
                osc_host,
                osc_port: osc_port as u16,
                source: String::new(),
            };
            assert(endpoint@.source =~= Seq::empty());
            Ok(endpoint)
        },
    }
}

/// The order in which hosts are tried: loopback first, IPv4 before IPv6, names last.
pub open spec fn host_priority(host: Seq<char>) -> int {
    match ip::ip_address(host) {
        Some(IpAddress::V4(n)) => if ip::loopback(IpAddress::V4(n)) {
            0
        } else {
            2
        },
        Some(IpAddress::V6(n)) => if ip::loopback(IpAddress::V6(n)) {
            1
        } else {
            3
        },
        None => 4,
    }
}

/// The order in which hosts are tried.
pub fn host_discovery_priority(host: &str) -> (r: u8)
    ensures
        r == host_priority(host@),
        r <= 4,
{
    match ip::parse_ip(host) {
        Some(address) => {
            let loopback = ip::is_loopback(address);
            match address {
                IpAddress::V4(_) => if loopback {
                    0
                } else {
                    2
                },
                IpAddress::V6(_) => if loopback {
                    1
                } else {
                    3
                },
            }
        },
        None => 4,
    }
}

/// The hosts of one priority, in their order.
pub open spec fn hosts_of(hosts: Seq<Seq<char>>, priority: int) -> Seq<Seq<char>>
    decreases hosts.len(),
{
    if hosts.len() == 0 {
        Seq::empty()
    } else {
        let before = hosts_of(hosts.drop_last(), priority);
        if host_priority(hosts.last()) == priority {
            before.push(hosts.last())
        } else {
            before
        }
    }
}

/// The hosts by priority, those below a given one, each priority in the order of the list.
pub open spec fn by_priority(hosts: Seq<Seq<char>>, below: nat) -> Seq<Seq<char>>
    decreases below,
{
    if below == 0 {
        Seq::empty()
    } else {
        by_priority(hosts, (below - 1) as nat) + hosts_of(hosts, below - 1)
    }
}

/// The texts without those that equal the one before them.
pub open spec fn without_adjacent(items: Seq<Seq<char>>) -> Seq<Seq<char>>
    decreases items.len(),
{
    if items.len() == 0 {
        Seq::empty()
    } else {
        let before = without_adjacent(items.drop_last());
        if before.len() > 0 && before.last() == items.last() {
            before
        } else {
            before.push(items.last())
        }
    }
}

/// Puts hosts in the order in which they are tried, without repeats next to each other.
pub fn order_hosts(hosts: &Vec<String>) -> (r: Vec<String>)
    ensures
        text::texts(r@) == without_adjacent(by_priority(text::texts(hosts@), 5)),
{
    let ghost all = text::texts(hosts@);
    let mut sorted: Vec<String> = Vec::new();
    let mut priority: u8 = 0;
    assert(text::texts(sorted@) =~= Seq::empty());
    while priority < 5
        invariant
            priority <= 5,
            all == text::texts(hosts@),
            text::texts(sorted@) == by_priority(all, priority as nat),
        decreases 5 - priority,
    {
        let ghost before = text::texts(sorted@);
        let mut i: usize = 0;
        assert(all.take(0) =~= Seq::empty());
        assert(before + Seq::<Seq<char>>::empty() =~= before);
        while i < hosts.len()
            invariant
                i <= hosts@.len(),
                priority < 5,
                all == text::texts(hosts@),
                text::texts(sorted@) == before + hosts_of(all.take(i as int), priority as int),
            decreases hosts@.len() - i,
        {
            assert(all.take(i + 1).drop_last() =~= all.take(i as int));
            assert(all.take(i + 1).last() == hosts@[i as int]@);
            if host_discovery_priority(hosts[i].as_str()) == priority {
                let host = hosts[i].clone();
                let ghost part = hosts_of(all.take(i as int), priority as int);
                proof {
                    text::lemma_texts_push(sorted@, host);
                    assert((before + part).push(host@) =~= before + part.push(host@));
                }
                sorted.push(host);
            }
            i += 1;
        }
        assert(all.take(i as int) =~= all);
        priority += 1;
    }
    let ghost ordered = text::texts(sorted@);
    let mut out: Vec<String> = Vec::new();
    let mut i: usize = 0;
    assert(ordered.take(0) =~= Seq::empty());
    assert(text::texts(out@) =~= Seq::empty());
    while i < sorted.len()
        invariant
            i <= sorted@.len(),
            ordered == text::texts(sorted@),
            text::texts(out@) == without_adjacent(ordered.take(i as int)),
        decreases sorted@.len() - i,
    {
        assert(ordered.take(i + 1).drop_last() =~= ordered.take(i as int));
        assert(ordered.take(i + 1).last() == sorted@[i as int]@);
        let repeated = if out.len() == 0 {
            false
        } else {
            assert(text::texts(out@).last() == out@[out@.len() - 1]@);
            text::same_text(out[out.len() - 1].as_str(), sorted[i].as_str())
        };
        if !repeated {
            let host = sorted[i].clone();
            proof {
                text::lemma_texts_push(out@, host);
            }
            out.push(host);
        }
        i += 1;
    }
    assert(ordered.take(i as int) =~= ordered);
    out
}

/// The endpoint with its source.
pub open spec fn from_source(endpoint: EndpointModel, source: Seq<char>) -> EndpointModel {
    EndpointModel { source, ..endpoint }
}

/// The status after the endpoint that was known was checked again.
pub open spec fn cached_checked(
    status: StatusModel,
    result: Result<EndpointModel, Seq<char>>,
) -> StatusModel {
    match (status.endpoint, result) {
        (Some(previous), Ok(endpoint)) => StatusModel {
            endpoint: Some(
                from_source(
                    endpoint,
                    if text::trimmed(previous.source).len() == 0 {
                        "cached"@
                    } else {
                        previous.source
                    },
                ),
            ),
            last_error: None,
        },
        (Some(_), Err(message)) => StatusModel {
            last_error: Some("cached endpoint check failed: "@ + message),
            ..status
        },
        (None, _) => status,
    }
}

/// The status after the search failed: an earlier reason is kept.
pub open spec fn search_failed(status: StatusModel) -> StatusModel {
    match status.last_error {
        Some(_) => status,
        None => StatusModel {
            last_error: Some("OSCQuery endpoint not discovered"@),
            ..status
        },
    }
}

/// The status once an endpoint was found.
pub open spec fn found_by(endpoint: EndpointModel, source: Seq<char>) -> StatusModel {
    StatusModel { endpoint: Some(from_source(endpoint, source)), last_error: None }
}

/// What a search for the parameter server does next.
#[derive(Debug, PartialEq, Eq)]
pub enum DiscoveryStep {
    /// Check whether the endpoint that was known still answers at this host and port.
    CheckKnown { host: String, port: u16 },
    /// Look on the network.
    Browse,
    /// Check the port of this machine that VRChat's log mentions.
    CheckHint { port: u16 },
    /// Stop: there is an endpoint.
    Found,
    /// Stop: there is none.
    Failed,
}

/// The status and the next step after looking on the network.
pub open spec fn browsed(
    status: StatusModel,
    found: Option<EndpointModel>,
    hint: Option<u16>,
) -> (StatusModel, DiscoveryStep) {
    match (found, hint) {
        (Some(endpoint), _) => (found_by(endpoint, "mdns"@), DiscoveryStep::Found),
        (None, Some(port)) => (status, DiscoveryStep::CheckHint { port }),
        (None, None) => (search_failed(status), DiscoveryStep::Failed),
    }
}

/// The status and the next step after checking the port that the log mentions.
pub open spec fn hint_checked(
    status: StatusModel,
    result: Result<EndpointModel, Seq<char>>,
) -> (StatusModel, DiscoveryStep) {
    match result {
        Ok(endpoint) => (found_by(endpoint, "vrchat-log"@), DiscoveryStep::Found),
        Err(message) => (
            StatusModel { last_error: Some(message), ..status },
            DiscoveryStep::Failed,
        ),
    }
}

impl OscQueryStatus {
    /// The first step of a search: an endpoint that is known is tried before all others.
    pub fn discover(&self) -> (r: DiscoveryStep)
        ensures
            match self@.endpoint {
                Some(known) => r matches DiscoveryStep::CheckKnown { host, port } && host@
                    == known.oscquery_host && port == known.oscquery_port,
                None => r is Browse,
            },
    {
        match &self.endpoint {
            Some(known) => DiscoveryStep::CheckKnown {
                host: known.oscquery_host.clone(),
                port: known.oscquery_port,
            },
            None => DiscoveryStep::Browse,
        }
    }

    /// Takes over a check of the endpoint that was known.
    pub fn on_cached_check(&mut self, result: Result<OscQueryEndpoint, String>) -> (r:
        DiscoveryStep)
        requires
            old(self).endpoint is Some,
        ensures
            final(self)@ == cached_checked(old(self)@, check_outcome(result)),
            r == (if result is Ok {
                DiscoveryStep::Found
            } else {
                DiscoveryStep::Browse
            }),
    {
        match result {
            Ok(endpoint) => {
                let mut endpoint = endpoint;
                if let Some(previous) = &self.endpoint {
                    endpoint.source = if text::trim(previous.source.as_str()).unicode_len() == 0 {
                        "cached".to_owned()
                    } else {
                        previous.source.clone()
                    };
                }
                self.endpoint = Some(endpoint);
                self.last_error = None;
                DiscoveryStep::Found
            },
            Err(message) => {
                self.last_error = Some(
                    text::concat2("cached endpoint check failed: ", message.as_str()),
                );
                DiscoveryStep::Browse
            },
        }
    }

    fn take(&mut self, endpoint: OscQueryEndpoint, source: &str)
        ensures
            final(self)@ == found_by(endpoint@, source@),
    {
        let mut endpoint = endpoint;
        endpoint.source = source.to_owned();
        self.endpoint = Some(endpoint);
        self.last_error = None;
    }

    /// Takes over what was found on the network. `hint` is the port that VRChat's log mentions.
    pub fn on_browsed(&mut self, found: Option<OscQueryEndpoint>, hint: Option<u16>) -> (r:
        DiscoveryStep)
        ensures
            (final(self)@, r) == browsed(old(self)@, model::opt_view(found), hint),
    {
        match (found, hint) {
            (Some(endpoint), _) => {
                self.take(endpoint, "mdns");
                DiscoveryStep::Found
            },
            (None, Some(port)) => DiscoveryStep::CheckHint { port },
            (None, None) => {
                if self.last_error.is_none() {
                    self.last_error = Some("OSCQuery endpoint not discovered".to_owned());
                }
                DiscoveryStep::Failed
            },
        }
    }

    /// Takes over a check of the port that VRChat's log mentions.
    pub fn on_hint_check(&mut self, result: Result<OscQueryEndpoint, String>) -> (r: DiscoveryStep)
        ensures
            (final(self)@, r) == hint_checked(old(self)@, check_outcome(result)),
    {
        match result {
            Ok(endpoint) => {
                self.take(endpoint, "vrchat-log");
                DiscoveryStep::Found
            },
            Err(message) => {
                self.last_error = Some(message);
                DiscoveryStep::Failed
            },
        }
    }
}

/// A search that finds an endpoint leaves no error behind, and one that finds none says why.
pub proof fn law_search_says_why(
    status: StatusModel,
    known: Result<EndpointModel, Seq<char>>,
    found: Option<EndpointModel>,
    hint: Option<u16>,
    hinted: Result<EndpointModel, Seq<char>>,
)
    ensures
        status.endpoint is Some && known is Ok ==> cached_checked(status, known).endpoint is Some
            && cached_checked(status, known).last_error is None,
        browsed(status, found, hint).1 is Found ==> browsed(status, found, hint).0.endpoint is Some
            && browsed(status, found, hint).0.last_error is None,
        browsed(status, found, hint).1 is Failed ==> browsed(
            status,
            found,
            hint,
        ).0.last_error is Some,
        hint_checked(status, hinted).1 is Found ==> hint_checked(status, hinted).0.endpoint is Some
            && hint_checked(status, hinted).0.last_error is None,
        hint_checked(status, hinted).1 is Failed ==> hint_checked(
            status,
            hinted,
        ).0.last_error is Some,
{
}

} // verus!
