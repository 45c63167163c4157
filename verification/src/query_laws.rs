//! Laws of what is learnt about the avatar and its host: the values that are read from it, the
//! search for it, and what its logs say.
use vstd::prelude::*;
use crate::diagnostics;
use crate::diagnostics::{DiagnosticsModel, LogFile, LogOutcome, RegistryFlags, ScanModel};
use crate::float;
use crate::float::FloatBits;
use crate::ip;
use crate::ip::IpAddress;
use crate::json;
use crate::json::Json;
use crate::oscquery;
use crate::oscquery::{DiscoveryStep, EndpointModel, StatusModel};
use crate::params;
use crate::runtime;
use crate::runtime::ParamModel;
use crate::text;
use crate::text_laws;

verus! {

/// A host with a colon in it stands in brackets in an address, once; any other stands as it is,
/// blanks aside.
pub proof fn law_url_host(host: Seq<char>)
    ensures
        ({
            let s = text::trimmed(host);
            let bracketed = s.len() > 0 && s[0] == '[' && s.last() == ']';
            let colon = exists|i: int| 0 <= i < s.len() && #[trigger] s[i] == ':';
            &&& bracketed || !colon ==> oscquery::url_host(host) == s
            &&& !bracketed && colon ==> oscquery::url_host(host) == seq!['['] + s + seq![']']
        }),
{
    reveal_strlit(":");
    reveal_strlit("[");
    reveal_strlit("]");
    let s = text::trimmed(host);
    assert("["@ =~= seq!['[']);
    assert("]"@ =~= seq![']']);
    if exists|i: int| 0 <= i < s.len() && #[trigger] s[i] == ':' {
        let i = choose|i: int| 0 <= i < s.len() && #[trigger] s[i] == ':';
        assert(s.subrange(i, i + 1) =~= ":"@);
        assert(text::occurs_at(s, ":"@, i));
    }
    if text::contains_text(s, ":"@) {
        let i = choose|i: int| text::occurs_at(s, ":"@, i);
        assert(s.subrange(i, i + 1)[0] == ':');
        assert(s[i] == ':');
    }
}

/// An address is made of the host, the port and the path, in this order.
pub proof fn law_url_at(host: Seq<char>, port: u16, path: Seq<char>)
    ensures
        path.is_suffix_of(oscquery::url_at(host, port, path)),
        oscquery::url_at(host, port, path) == "http://"@ + (oscquery::url_host(host) + (":"@
            + text::decimal_text(port as nat))) + path,
{
    let whole = oscquery::url_at(host, port, path);
    assert(whole.subrange(whole.len() - path.len(), whole.len() as int) =~= path);
    assert(whole =~= "http://"@ + (oscquery::url_host(host) + (":"@ + text::decimal_text(
        port as nat,
    ))) + path);
}

/// A path starts with a stroke and ends in one only where it is the root; one that is in order
/// stays as it is.
pub proof fn law_query_path(path: Seq<char>)
    ensures
        oscquery::query_path(path).len() > 0 && oscquery::query_path(path)[0] == '/',
        oscquery::query_path(path).last() == '/' ==> oscquery::query_path(path).len() == 1,
        path.len() > 1 && path[0] == '/' && path.last() != '/' && text::trimmed(path) == path
            ==> oscquery::query_path(path) == path,
        text::trimmed(path).len() == 0 ==> oscquery::query_path(path) == "/"@,
{
    reveal_strlit("/");
    let s = text::trimmed(path);
    text_laws::law_ends_stripped(s, '/');
}

/// The values under a path are those at the path and those below it, in their order; under the
/// root they are all.
pub proof fn law_values_under(
    values: Seq<(Seq<char>, Json)>,
    entry: (Seq<char>, Json),
    path: Seq<char>,
)
    ensures
        oscquery::values_under(values, "/"@) == values,
        path != "/"@ ==> oscquery::values_under(Seq::empty(), path).len() == 0,
        path != "/"@ && (entry.0 == path || (path + "/"@).is_prefix_of(entry.0))
            ==> oscquery::values_under(values.push(entry), path) == oscquery::values_under(
            values,
            path,
        ).push(entry),
        path != "/"@ && entry.0 != path && !(path + "/"@).is_prefix_of(entry.0)
            ==> oscquery::values_under(values.push(entry), path) == oscquery::values_under(
            values,
            path,
        ),
{
    assert(values.push(entry).drop_last() =~= values);
}

/// The name of a parameter is what follows the path of the parameters, where that is more than
/// blanks; any other path names none.
pub proof fn law_parameter_name(name: Seq<char>, path: Seq<char>)
    ensures
        text::trimmed(name).len() > 0 ==> oscquery::param_name("/avatar/parameters/"@ + name)
            == Some(name),
        text::trimmed(name).len() == 0 ==> oscquery::param_name("/avatar/parameters/"@ + name)
            is None,
        !"/avatar/parameters/"@.is_prefix_of(path) ==> oscquery::param_name(path) is None,
{
    let prefix = "/avatar/parameters/"@;
    let whole = prefix + name;
    assert(whole.subrange(0, prefix.len() as int) =~= prefix);
    assert(whole.skip(prefix.len() as int) =~= name);
}

/// Among the values of parameters, the last one of a name counts, and other paths do not.
pub proof fn law_parameter_values(
    values: Seq<(Seq<char>, Json)>,
    entry: (Seq<char>, Json),
    name: Seq<char>,
)
    ensures
        json::lookup(oscquery::param_values(Seq::empty()), name) is None,
        json::lookup(oscquery::param_values(values.push(entry)), name) == (
        if oscquery::param_name(entry.0) == Some(name) {
            Some(entry.1)
        } else {
            json::lookup(oscquery::param_values(values), name)
        }),
{
    assert(values.push(entry).drop_last() =~= values);
    if let Some(found) = oscquery::param_name(entry.0) {
        json::lemma_with_entry(oscquery::param_values(values), found, entry.1, name);
    }
}

/// A node has a value of its own exactly where it names its path and lists a value; that is the
/// first one.
pub proof fn law_own_value(node: Json)
    ensures
        match oscquery::own_value(node) {
            Some((path, value)) => json::field(node, "FULL_PATH"@) == Some(Json::Text(path)) && (
            json::field(node, "VALUE"@) matches Some(Json::Array(items)) && items.len() > 0
                && items[0] == value),
            None => json::as_text(json::field(node, "FULL_PATH"@)) is None || match json::as_array(
                json::field(node, "VALUE"@),
            ) {
                Some(items) => items.len() == 0,
                None => true,
            },
        },
{
}

/// Collecting the values of a tree loses none that was there, and finds the value of every node on
/// the way down.
pub proof fn law_collected(node: Json, values: Seq<(Seq<char>, Json)>, path: Seq<char>)
    ensures
        json::lookup(values, path) is Some ==> json::lookup(
            oscquery::collected(node, values),
            path,
        ) is Some,
        (oscquery::own_value(node) matches Some((own, _)) ==> (own == path ==> json::lookup(
            oscquery::collected(node, values),
            path,
        ) is Some)),
        !(node is Array) && !(node is Object) ==> oscquery::collected(node, values) == values,
        (node matches Json::Object(members) ==> forall|i: int|
            0 <= i < members.len() && holds_path(#[trigger] members[i].1, path) ==> json::lookup(
                oscquery::collected(node, values),
                path,
            ) is Some),
        (node matches Json::Array(items) ==> forall|i: int|
            0 <= i < items.len() && holds_path(#[trigger] items[i], path) ==> json::lookup(
                oscquery::collected(node, values),
                path,
            ) is Some),
    decreases node, 0nat,
{
    match node {
        Json::Array(items) => {
            lemma_collected_items(items, values, path);
        },
        Json::Object(members) => {
            let start = match oscquery::own_value(node) {
                Some((own, value)) => json::with_entry(values, own, value),
                None => values,
            };
            if let Some((own, value)) = oscquery::own_value(node) {
                json::lemma_with_entry(values, own, value, path);
            }
            lemma_collected_members(members, start, path);
        },
        _ => {},
    }
}

/// The node has a value of its own at the path.
pub open spec fn holds_path(node: Json, path: Seq<char>) -> bool {
    node is Object && (oscquery::own_value(node) matches Some((own, _)) && own == path)
}

proof fn lemma_collected_items(items: Seq<Json>, values: Seq<(Seq<char>, Json)>, path: Seq<char>)
    ensures
        json::lookup(values, path) is Some ==> json::lookup(
            oscquery::collected_items(items, values),
            path,
        ) is Some,
        forall|i: int|
            0 <= i < items.len() && holds_path(#[trigger] items[i], path) ==> json::lookup(
                oscquery::collected_items(items, values),
                path,
            ) is Some,
    decreases items, 0nat,
{
    if items.len() > 0 {
        let shorter = items.drop_last();
        lemma_collected_items(shorter, values, path);
        law_collected(items.last(), oscquery::collected_items(shorter, values), path);
        assert forall|i: int|
            0 <= i < items.len() && holds_path(#[trigger] items[i], path) implies json::lookup(
            oscquery::collected_items(items, values),
            path,
        ) is Some by {
            if i < shorter.len() {
                assert(holds_path(shorter[i], path));
            }
        }
    }
}

proof fn lemma_collected_members(
    members: Seq<(Seq<char>, Json)>,
    values: Seq<(Seq<char>, Json)>,
    path: Seq<char>,
)
    ensures
        json::lookup(values, path) is Some ==> json::lookup(
            oscquery::collected_members(members, values),
            path,
        ) is Some,
        forall|i: int|
            0 <= i < members.len() && holds_path(#[trigger] members[i].1, path) ==> json::lookup(
                oscquery::collected_members(members, values),
                path,
            ) is Some,
    decreases members, 0nat,
{
    if members.len() > 0 {
        let shorter = members.drop_last();
        lemma_collected_members(shorter, values, path);
        law_collected(members.last().1, oscquery::collected_members(shorter, values), path);
        assert forall|i: int|
            0 <= i < members.len() && holds_path(#[trigger] members[i].1, path) implies json::lookup(
            oscquery::collected_members(members, values),
            path,
        ) is Some by {
            if i < shorter.len() {
                assert(holds_path(shorter[i].1, path));
            }
        }
    }
}

/// An endpoint is accepted exactly where it is reached at a port, names itself the avatar's client
/// and announces an address and a port from one up; it is then reached there.
pub proof fn law_endpoint(host: Seq<char>, port: u16, info: Json)
    ensures
        ({
            let name = json::as_text(json::field(info, "NAME"@));
            let address = json::as_text(json::field(info, "OSC_IP"@));
            let announced = oscquery::announced_port(json::field(info, "OSC_PORT"@));
            &&& oscquery::endpoint_from(host, port, info) is Ok ==> port > 0 && name is Some
                && "VRChat-Client-"@.is_prefix_of(name->0) && address is Some && announced is Some
                && announced->0 > 0
            &&& port > 0 && name is Some && "VRChat-Client-"@.is_prefix_of(name->0) && address is Some
                && announced is Some && announced->0 > 0 ==> oscquery::endpoint_from(
                host,
                port,
                info,
            ) is Ok
            &&& oscquery::endpoint_from(host, port, info) matches Ok(found) ==> found.oscquery_host
                == host && found.oscquery_port == port && found.osc_host == address->0
                && found.osc_port == announced->0 && found.source.len() == 0
        }),
{
    reveal_strlit("VRChat-Client-");
    let announced = oscquery::announced_port(json::field(info, "OSC_PORT"@));
    assert(announced matches Some(n) ==> n <= 65535);
    assert(!"VRChat-Client-"@.is_prefix_of(Seq::<char>::empty()));
}

/// A port is announced as a number or as a text that writes one, up to the largest port.
pub proof fn law_announced_port(n: json::NumberModel, s: Seq<char>)
    ensures
        oscquery::announced_port(None) is None,
        (n.unsigned matches Some(port) ==> (port <= 65535 ==> oscquery::announced_port(
            Some(Json::Number(n)),
        ) == Some(port as nat))),
        (n.unsigned matches Some(port) ==> (port > 65535 ==> oscquery::announced_port(
            Some(Json::Number(n)),
        ) is None)),
        n.unsigned is None ==> oscquery::announced_port(Some(Json::Number(n))) is None,
        oscquery::announced_port(Some(Json::Text(s))) == text::unsigned_value(s, 65535),
        oscquery::announced_port(Some(Json::Bool(true))) is None,
{
}

/// Addresses of this machine are tried before others, short ones before long ones of the same
/// kind, and what is no address last.
pub proof fn law_host_priority(host: Seq<char>)
    ensures
        match ip::ip_address(host) {
            Some(IpAddress::V4(n)) => oscquery::host_priority(host) == (if n / 0x100_0000u32 == 127 {
                0int
            } else {
                2
            }),
            Some(IpAddress::V6(n)) => oscquery::host_priority(host) == (if n == 1 {
                1int
            } else {
                3
            }),
            None => oscquery::host_priority(host) == 4,
        },
        0 <= oscquery::host_priority(host) <= 4,
{
}

/// The hosts are tried in the order of their priority, and each of them is.
pub proof fn law_hosts_ordered(hosts: Seq<Seq<char>>, host: Seq<char>, below: nat)
    ensures
        forall|i: int, j: int|
            0 <= i < j < oscquery::by_priority(hosts, below).len() ==> oscquery::host_priority(
                #[trigger] oscquery::by_priority(hosts, below)[i],
            ) <= oscquery::host_priority(#[trigger] oscquery::by_priority(hosts, below)[j]),
        forall|i: int|
            0 <= i < oscquery::by_priority(hosts, below).len() ==> oscquery::host_priority(
                #[trigger] oscquery::by_priority(hosts, below)[i],
            ) < below,
        oscquery::by_priority(hosts, below).contains(host) <==> hosts.contains(host)
            && oscquery::host_priority(host) < below,
    decreases below,
{
    if below > 0 {
        let before = oscquery::by_priority(hosts, (below - 1) as nat);
        let more = oscquery::hosts_of(hosts, below - 1);
        let all = oscquery::by_priority(hosts, below);
        law_hosts_ordered(hosts, host, (below - 1) as nat);
        lemma_hosts_of(hosts, host, below - 1);
        law_host_priority(host);
        assert forall|i: int| 0 <= i < all.len() implies oscquery::host_priority(
            #[trigger] all[i],
        ) < below by {
            if i < before.len() {
                assert(all[i] == before[i]);
            } else {
                assert(all[i] == more[i - before.len()]);
            }
        }
        assert forall|i: int, j: int| 0 <= i < j < all.len() implies oscquery::host_priority(
            #[trigger] all[i],
        ) <= oscquery::host_priority(#[trigger] all[j]) by {
            if j < before.len() {
                assert(all[i] == before[i]);
                assert(all[j] == before[j]);
            } else {
                assert(all[j] == more[j - before.len()]);
                if i < before.len() {
                    assert(all[i] == before[i]);
                } else {
                    assert(all[i] == more[i - before.len()]);
                }
            }
        }
        if before.contains(host) {
            let i = choose|i: int| 0 <= i < before.len() && before[i] == host;
            assert(all[i] == host);
        }
        if more.contains(host) {
            let i = choose|i: int| 0 <= i < more.len() && more[i] == host;
            assert(all[before.len() + i] == host);
        }
        if all.contains(host) {
            let i = choose|i: int| 0 <= i < all.len() && all[i] == host;
            if i < before.len() {
                assert(before[i] == host);
            } else {
                assert(more[i - before.len()] == host);
            }
        }
    } else {
        law_host_priority(host);
    }
}

proof fn lemma_hosts_of(hosts: Seq<Seq<char>>, host: Seq<char>, priority: int)
    ensures
        forall|i: int|
            0 <= i < oscquery::hosts_of(hosts, priority).len() ==> oscquery::host_priority(
                #[trigger] oscquery::hosts_of(hosts, priority)[i],
            ) == priority,
        oscquery::hosts_of(hosts, priority).contains(host) <==> hosts.contains(host)
            && oscquery::host_priority(host) == priority,
    decreases hosts.len(),
{
    if hosts.len() > 0 {
        let shorter = hosts.drop_last();
        let before = oscquery::hosts_of(shorter, priority);
        let all = oscquery::hosts_of(hosts, priority);
        lemma_hosts_of(shorter, host, priority);
        if shorter.contains(host) {
            let i = choose|i: int| 0 <= i < shorter.len() && shorter[i] == host;
            assert(hosts[i] == host);
        }
        if hosts.contains(host) {
            let i = choose|i: int| 0 <= i < hosts.len() && hosts[i] == host;
            if i < shorter.len() {
                assert(shorter[i] == host);
            }
        }
        if before.contains(host) {
            let i = choose|i: int| 0 <= i < before.len() && before[i] == host;
            assert(all[i] == host);
        }
        if all.contains(host) {
            let i = choose|i: int| 0 <= i < all.len() && all[i] == host;
            if i < before.len() {
                assert(before[i] == host);
            } else {
                assert(hosts[hosts.len() - 1] == host);
            }
        }
        if hosts.last() == host && oscquery::host_priority(host) == priority {
            assert(all[all.len() - 1] == host);
            assert(hosts[hosts.len() - 1] == host);
        }
    }
}

/// Taking out repeats that stand side by side loses no host.
pub proof fn law_adjacent_repeats(items: Seq<Seq<char>>, item: Seq<char>)
    ensures
        oscquery::without_adjacent(items).contains(item) <==> items.contains(item),
        forall|i: int|
            0 < i < oscquery::without_adjacent(items).len() ==> #[trigger] oscquery::without_adjacent(
                items,
            )[i] != oscquery::without_adjacent(items)[i - 1],
        items.len() > 0 ==> oscquery::without_adjacent(items).len() > 0
            && oscquery::without_adjacent(items).last() == items.last(),
    decreases items.len(),
{
    if items.len() > 0 {
        let shorter = items.drop_last();
        let before = oscquery::without_adjacent(shorter);
        let all = oscquery::without_adjacent(items);
        law_adjacent_repeats(shorter, item);
        if shorter.contains(item) {
            let i = choose|i: int| 0 <= i < shorter.len() && shorter[i] == item;
            assert(items[i] == item);
        }
        if items.contains(item) {
            let i = choose|i: int| 0 <= i < items.len() && items[i] == item;
            if i < shorter.len() {
                assert(shorter[i] == item);
            }
        }
        if before.contains(item) {
            let i = choose|i: int| 0 <= i < before.len() && before[i] == item;
            assert(all[i] == item);
        }
        if all.contains(item) {
            let i = choose|i: int| 0 <= i < all.len() && all[i] == item;
            if i < before.len() {
                assert(before[i] == item);
            } else {
                assert(items[items.len() - 1] == item);
            }
        }
        if items.last() == item {
            assert(all[all.len() - 1] == item);
            assert(items[items.len() - 1] == item);
        }
    }
}

/// A search ends with the endpoint that was found and where it was found, or keeps what was known
/// and says why; the log's hint is tried only where the network gave nothing.
pub proof fn law_search(
    status: StatusModel,
    checked: Result<EndpointModel, Seq<char>>,
    found: Option<EndpointModel>,
    hint: Option<u16>,
)
    ensures
        (found matches Some(endpoint) ==> {
            let (after, step) = oscquery::browsed(status, found, hint);
            &&& step is Found && after.last_error is None
            &&& (after.endpoint matches Some(e) && e == (EndpointModel {
                source: "mdns"@,
                ..endpoint
            }))
        }),
        found is None ==> {
            let (after, step) = oscquery::browsed(status, found, hint);
            &&& (hint matches Some(port) ==> step == (DiscoveryStep::CheckHint { port }) && after
                == status)
            &&& hint is None ==> step is Failed && after.endpoint == status.endpoint && (
            status.last_error is Some ==> after.last_error == status.last_error)
        },
        match checked {
            Ok(endpoint) => {
                let (after, step) = oscquery::hint_checked(status, checked);
                &&& step is Found && after.last_error is None
                &&& (after.endpoint matches Some(e) && e == (EndpointModel {
                    source: "vrchat-log"@,
                    ..endpoint
                }))
            },
            Err(message) => {
                let (after, step) = oscquery::hint_checked(status, checked);
                step is Failed && after.last_error == Some(message) && after.endpoint
                    == status.endpoint
            },
        },
        (status.endpoint matches Some(known) ==> match checked {
            Ok(endpoint) => {
                let after = oscquery::cached_checked(status, checked);
                &&& after.last_error is None
                &&& (after.endpoint matches Some(e) && e.oscquery_host == endpoint.oscquery_host
                    && e.oscquery_port == endpoint.oscquery_port && e.osc_host == endpoint.osc_host
                    && e.osc_port == endpoint.osc_port && (text::trimmed(known.source).len() > 0
                    ==> e.source == known.source))
            },
            Err(message) => {
                let after = oscquery::cached_checked(status, checked);
                after.endpoint == status.endpoint && (after.last_error matches Some(why)
                    && message.is_suffix_of(why))
            },
        }),
        status.endpoint is None ==> oscquery::cached_checked(status, checked) == status,
{
    if let Err(message) = checked {
        let why = "cached endpoint check failed: "@ + message;
        assert(why.subrange(why.len() - message.len(), why.len() as int) =~= message);
    }
}

/// There is a warning for each setting that is known to be off and for a start that failed, and
/// for nothing else.
pub proof fn law_warnings(d: DiagnosticsModel)
    ensures
        diagnostics::warnings(d).len() == count(d.osc_enabled == Some(false)) + count(
            d.self_interact_enabled == Some(false),
        ) + count(d.everyone_interact_enabled == Some(false)) + count(d.osc_start_failure is Some),
        (d.osc_start_failure matches Some(failure) ==> failure.is_suffix_of(
            diagnostics::warnings(d).last(),
        )),
        d.osc_enabled == Some(false) ==> diagnostics::warnings(d)[0]
            == "VRChat OSC appears disabled. Enable Options > OSC > Enabled in VRChat."@,
        d.osc_enabled != Some(false) && d.self_interact_enabled == Some(false)
            ==> diagnostics::warnings(d)[0]
            == "VRChat Self Interact appears disabled. Enable Settings > Avatar Interactions > Self Interact."@,
{
    if let Some(failure) = d.osc_start_failure {
        let line = "VRChat log reports OSC startup failure: "@ + failure;
        assert(line.subrange(line.len() - failure.len(), line.len() as int) =~= failure);
    }
}

/// One where it holds.
pub open spec fn count(holds: bool) -> nat {
    if holds {
        1
    } else {
        0
    }
}

proof fn lemma_leading_digits(digits: Seq<char>, rest: Seq<char>)
    requires
        text::all_digits(digits),
        rest.len() == 0 || !text::is_digit(rest[0]),
    ensures
        diagnostics::leading_digits(digits + rest) == digits,
    decreases digits.len(),
{
    let s = digits + rest;
    if digits.len() > 0 {
        assert(text::is_digit(digits[0]));
        let tail = digits.drop_first();
        assert forall|i: int| 0 <= i < tail.len() implies text::is_digit(#[trigger] tail[i]) by {
            assert(tail[i] == digits[i + 1]);
        }
        lemma_leading_digits(tail, rest);
        assert(s.drop_first() =~= tail + rest);
        assert(s[0] == digits[0]);
        assert(seq![digits[0]] + tail =~= digits);
    } else {
        assert(s =~= rest);
        assert(digits =~= Seq::empty());
    }
}

/// The port that a line of the log mentions is read, whatever stands before the mention and after
/// the digits.
pub proof fn law_logged_port(before: Seq<char>, port: u16, rest: Seq<char>)
    requires
        port > 0,
        rest.len() == 0 || !text::is_digit(rest[0]),
        text::find_text(
            before + "of type OSCQuery on "@ + text::decimal_text(port as nat) + rest,
            "of type OSCQuery on "@,
        ) == Some(before.len() as int),
    ensures
        diagnostics::oscquery_port(
            before + "of type OSCQuery on "@ + text::decimal_text(port as nat) + rest,
        ) == Some(port as nat),
{
    let mark = "of type OSCQuery on "@;
    let digits = text::decimal_text(port as nat);
    let line = before + mark + digits + rest;
    text_laws::law_number_read_back(port as nat, 65535);
    lemma_leading_digits(digits, rest);
    assert(line.skip(before.len() as int + mark.len()) =~= digits + rest);
}

/// A line that mentions no port brings none.
pub proof fn law_no_logged_port(line: Seq<char>)
    ensures
        !text::contains_text(line, "of type OSCQuery on "@) ==> diagnostics::oscquery_port(line)
            is None,
        diagnostics::oscquery_port(line) matches Some(port) ==> 1 <= port <= 65535,
        !text::contains_text(line, "--osc="@) ==> diagnostics::launch_config(line) is None,
{
    text_laws::law_search(line, "of type OSCQuery on "@);
    text_laws::law_search(line, "--osc="@);
}

/// A plain character of a host in a launch setting.
pub open spec fn plain_char(c: char) -> bool {
    !text::is_white(c) && c != '"' && c != '\'' && c != ':'
}

/// The setting that a line of the log mentions is read: the port to receive at, the host and the
/// port to send to.
pub proof fn law_logged_launch(before: Seq<char>, input: u16, host: Seq<char>, output: u16)
    requires
        host.len() > 0,
        forall|i: int| 0 <= i < host.len() ==> plain_char(#[trigger] host[i]),
        text::find_text(
            before + "--osc="@ + (text::decimal_text(input as nat) + seq![':'] + host + seq![':']
                + text::decimal_text(output as nat)),
            "--osc="@,
        ) == Some(before.len() as int),
    ensures
        ({
            let token = text::decimal_text(input as nat) + seq![':'] + host + seq![':']
                + text::decimal_text(output as nat);
            diagnostics::launch_config(before + "--osc="@ + token) matches Some(found)
                && found.input_port == input && found.output_host == host && found.output_port
                == output && found.raw == token
        }),
{
    reveal_strlit(":");
    assert(":"@ =~= seq![':']);
    let a = text::decimal_text(input as nat);
    let b = text::decimal_text(output as nat);
    let token = a + seq![':'] + host + seq![':'] + b;
    let line = before + "--osc="@ + token;
    let mark = "--osc="@;
    text_laws::law_number_read_back(input as nat, 65535);
    text_laws::law_number_read_back(output as nat, 65535);
    assert(line.skip(before.len() as int + mark.len()) =~= token);
    lemma_token_plain(a, host, b);
    lemma_token_parts(a, host, b);
    let parts = text::pieces(token, seq![':']);
    assert(parts.subrange(1, parts.len() - 1) =~= seq![host]);
    assert(text::trimmed(host) == host) by {
        assert(plain_char(host[0]));
        assert(plain_char(host[host.len() - 1]));
        text_laws::law_blanks_do_not_count(host, ' ');
    }
}

proof fn lemma_token_plain(a: Seq<char>, host: Seq<char>, b: Seq<char>)
    requires
        a.len() > 0,
        b.len() > 0,
        text::all_digits(a),
        text::all_digits(b),
        forall|i: int| 0 <= i < host.len() ==> plain_char(#[trigger] host[i]),
    ensures
        ({
            let token = a + seq![':'] + host + seq![':'] + b;
            &&& text::first_word(token) == token
            &&& text::strip_char(text::strip_char(token, '"'), '\'') == token
            &&& text::trimmed(token) == token
        }),
{
    let token = a + seq![':'] + host + seq![':'] + b;
    assert forall|i: int| 0 <= i < token.len() implies !text::is_white(#[trigger] token[i])
        && token[i] != '"' && token[i] != '\'' by {
        if i < a.len() {
            assert(token[i] == a[i]);
            assert(text::is_digit(a[i]));
        } else if a.len() < i <= a.len() + host.len() {
            assert(token[i] == host[i - a.len() - 1]);
            assert(plain_char(host[i - a.len() - 1]));
        } else if i > a.len() + host.len() + 1 {
            assert(token[i] == b[i - a.len() - host.len() - 2]);
            assert(text::is_digit(b[i - a.len() - host.len() - 2]));
        }
    }
    text_laws::law_first_word(token, ' ', Seq::empty());
    text_laws::law_ends_stripped(token, '"');
    text_laws::law_ends_stripped(token, '\'');
    text_laws::law_blanks_do_not_count(token, ' ');
    assert(token.last() == token[token.len() - 1]);
}

proof fn lemma_token_parts(a: Seq<char>, host: Seq<char>, b: Seq<char>)
    requires
        text::all_digits(a),
        text::all_digits(b),
        forall|i: int| 0 <= i < host.len() ==> plain_char(#[trigger] host[i]),
    ensures
        text::pieces(a + seq![':'] + host + seq![':'] + b, seq![':']) == seq![a, host, b],
{
    let separators = seq![':'];
    assert(separators[0] == ':');
    assert forall|i: int| 0 <= i < a.len() implies #[trigger] a[i] != ':' by {
        assert(text::is_digit(a[i]));
    }
    assert forall|i: int| 0 <= i < b.len() implies #[trigger] b[i] != ':' by {
        assert(text::is_digit(b[i]));
    }
    assert forall|i: int| 0 <= i < host.len() implies #[trigger] host[i] != ':' by {
        assert(plain_char(host[i]));
    }
    text_laws::lemma_one_piece(a, ':');
    text_laws::lemma_one_piece(b, ':');
    text_laws::lemma_one_piece(host, ':');
    text::law_pieces_parted(host, ':', b, separators);
    let tail = host.push(':') + b;
    text::law_pieces_parted(a, ':', tail, separators);
    assert(a + seq![':'] + host + seq![':'] + b =~= a.push(':') + tail);
    assert(seq![a] + (seq![host] + seq![b]) =~= seq![a, host, b]);
}

/// A line changes just what it mentions: a failed start, a port, the settings of a launch.
pub proof fn law_line_scanned(scan: ScanModel, line: Seq<char>)
    ensures
        ({
            let after = diagnostics::scan_line(scan, line);
            &&& text::contains_text(line, "Could not Start OSC"@) ==> after.osc_start_failure
                == Some(text::trimmed(line))
            &&& !text::contains_text(line, "Could not Start OSC"@) ==> after.osc_start_failure
                == scan.osc_start_failure
            &&& (diagnostics::oscquery_port(line) matches Some(port) ==> after.oscquery_port
                == Some(port as u16))
            &&& diagnostics::oscquery_port(line) is None ==> after.oscquery_port
                == scan.oscquery_port
            &&& (diagnostics::launch_config(line) matches Some(config) ==> after.osc_launch_arg
                == Some(config.raw) && after.osc_input_port == Some(config.input_port)
                && after.osc_output_host == Some(config.output_host) && after.osc_output_port
                == Some(config.output_port))
            &&& diagnostics::launch_config(line) is None ==> after.osc_launch_arg
                == scan.osc_launch_arg && after.osc_input_port == scan.osc_input_port
                && after.osc_output_host == scan.osc_output_host && after.osc_output_port
                == scan.osc_output_port
        }),
{
}

/// A log that is read from its middle starts with its first whole line; one that is read from its
/// start loses nothing.
pub proof fn law_whole_lines(before: Seq<u8>, rest: Seq<u8>)
    requires
        forall|i: int| 0 <= i < before.len() ==> #[trigger] before[i] != 10,
    ensures
        diagnostics::whole_lines(before + seq![10u8] + rest, true) == rest,
        diagnostics::whole_lines(before + seq![10u8] + rest, false) == before + seq![10u8] + rest,
        diagnostics::whole_lines(before, true) == before,
{
    let bytes = before + seq![10u8] + rest;
    lemma_line_start(bytes, 0, before.len() as int);
    lemma_no_line(before, 0);
    assert(bytes.skip(before.len() as int + 1) =~= rest);
}

proof fn lemma_line_start(bytes: Seq<u8>, from: int, at: int)
    requires
        0 <= from <= at < bytes.len(),
        bytes[at] == 10,
        forall|i: int| from <= i < at ==> #[trigger] bytes[i] != 10,
    ensures
        diagnostics::line_start(bytes, from) == Some(at + 1),
    decreases at - from,
{
    if from < at {
        lemma_line_start(bytes, from + 1, at);
    }
}

proof fn lemma_no_line(bytes: Seq<u8>, from: int)
    requires
        0 <= from <= bytes.len(),
        forall|i: int| from <= i < bytes.len() ==> #[trigger] bytes[i] != 10,
    ensures
        diagnostics::line_start(bytes, from) is None,
    decreases bytes.len() - from,
{
    if from < bytes.len() {
        lemma_no_line(bytes, from + 1);
    }
}

/// There is at most one latest log, and no log was changed after it.
pub proof fn law_latest_log(files: Seq<LogFile>, i: int, j: int)
    requires
        diagnostics::is_latest(files, i),
        0 <= j < files.len(),
        "output_log"@.is_prefix_of(files[j].name@),
    ensures
        files[j].modified <= files[i].modified,
        diagnostics::is_latest(files, j) ==> i == j,
        files[j].modified == files[i].modified ==> i <= j,
{
}

/// A value of the registry is known by its name, or by its name with the mark of a hash behind it,
/// large and small letters alike.
pub proof fn law_registry_name(name: Seq<char>, target: Seq<char>, rest: Seq<char>)
    ensures
        diagnostics::registry_name(target, target),
        text::lower_text(name) == text::lower_text(target) + "_h"@ + rest
            ==> diagnostics::registry_name(name, target),
        name.len() < target.len() ==> !diagnostics::registry_name(name, target),
        diagnostics::registry_name(name, target) ==> text::lower_text(name).take(
            target.len() as int,
        ) == text::lower_text(target),
{
    let low = text::lower_text(name);
    let wanted = text::lower_text(target);
    let marked = wanted + "_h"@;
    if low == marked + rest {
        assert(low.subrange(0, marked.len() as int) =~= marked);
    }
    if diagnostics::registry_name(name, target) {
        if low == wanted {
            assert(low.take(target.len() as int) =~= wanted);
        } else {
            assert(low.subrange(0, marked.len() as int) == marked);
            assert forall|i: int| 0 <= i < wanted.len() implies low[i] == wanted[i] by {
                assert(marked[i] == wanted[i]);
                assert(low.subrange(0, marked.len() as int)[i] == low[i]);
            }
            assert(low.take(target.len() as int) =~= wanted);
        }
    }
}

/// A diagnosis takes the flags from the registry and the rest from the log, and reports what could
/// not be read.
pub proof fn law_diagnosis(
    now_ms: i64,
    registry: Result<RegistryFlags, String>,
    log: LogOutcome,
)
    ensures
        ({
            let d = diagnostics::with_log(
                diagnostics::with_registry(diagnostics::blank_diagnosis(now_ms), registry),
                log,
            );
            &&& d.checked_at_ms == now_ms
            &&& (registry matches Ok(flags) ==> d.osc_enabled == flags.osc_enabled
                && d.self_interact_enabled == flags.self_interact_enabled
                && d.everyone_interact_enabled == flags.everyone_interact_enabled)
            &&& registry is Err ==> d.osc_enabled is None && d.self_interact_enabled is None
                && d.everyone_interact_enabled is None
            &&& (log matches LogOutcome::Scanned { path, scan } ==> d.latest_log_path == Some(path@)
                && d.osc_start_failure == scan@.osc_start_failure && d.oscquery_port_from_logs
                == scan@.oscquery_port && d.osc_launch_arg == scan@.osc_launch_arg
                && d.osc_input_port == scan@.osc_input_port && d.osc_output_host
                == scan@.osc_output_host && d.osc_output_port == scan@.osc_output_port)
            &&& !(log is Scanned) ==> d.osc_start_failure is None && d.oscquery_port_from_logs is None
                && d.osc_launch_arg is None
            &&& (log matches LogOutcome::ScanFailed { path, error } ==> d.latest_log_path == Some(
                path@,
            ))
            &&& d.errors.len() == count(registry is Err) + count(!(log is Scanned))
        }),
{
}

/// A parameter is listed where it is the root of the listed ones or below it.
pub proof fn law_listed(rest: Seq<char>, key: Seq<char>)
    ensures
        params::listed("OGB"@),
        params::listed("OGB/"@ + rest),
        params::listed(key) ==> key.len() >= 3 && key.take(3) == "OGB"@ && (key.len() > 3 ==> key[3]
            == '/'),
        params::shown(key, true),
        params::shown(key, false) == params::listed(key),
{
    reveal_strlit("OGB");
    reveal_strlit("OGB/");
    let whole = "OGB/"@ + rest;
    assert(whole.subrange(0, 4) =~= "OGB/"@);
    if params::listed(key) {
        if key == "OGB"@ {
            assert(key.take(3) =~= "OGB"@);
        } else {
            assert(key.subrange(0, 4) == "OGB/"@);
            assert(key[0] == key.subrange(0, 4)[0]);
            assert(key[1] == key.subrange(0, 4)[1]);
            assert(key[2] == key.subrange(0, 4)[2]);
            assert(key[3] == key.subrange(0, 4)[3]);
            assert(key.take(3) =~= "OGB"@);
        }
    }
}

/// What is shown of a list is what may be shown, in its order.
pub proof fn law_shown_params(
    entries: Seq<(Seq<char>, ParamModel)>,
    entry: (Seq<char>, ParamModel),
    show_all: bool,
)
    ensures
        params::visible(Seq::empty(), show_all).len() == 0,
        show_all || params::listed(entry.0) ==> params::visible(entries.push(entry), show_all)
            == params::visible(entries, show_all).push(entry),
        !show_all && !params::listed(entry.0) ==> params::visible(entries.push(entry), show_all)
            == params::visible(entries, show_all),
{
    assert(entries.push(entry).drop_last() =~= entries);
}

/// The value of a parameter in a list.
pub open spec fn value_in(entries: Seq<(Seq<char>, ParamModel)>, key: Seq<char>) -> Option<ParamModel> {
    match params::first_place(entries, key) {
        Some(i) => Some(entries[i].1),
        None => None,
    }
}

proof fn lemma_first_place(entries: Seq<(Seq<char>, ParamModel)>, key: Seq<char>)
    ensures
        match params::first_place(entries, key) {
            Some(i) => 0 <= i < entries.len() && entries[i].0 == key && forall|j: int|
                0 <= j < i ==> (#[trigger] entries[j]).0 != key,
            None => forall|j: int| 0 <= j < entries.len() ==> (#[trigger] entries[j]).0 != key,
        },
    decreases entries.len(),
{
    if entries.len() > 0 {
        let shorter = entries.drop_last();
        lemma_first_place(shorter, key);
        match params::first_place(shorter, key) {
            Some(i) => {
                assert(entries[i] == shorter[i]);
                assert forall|j: int| 0 <= j < i implies (#[trigger] entries[j]).0 != key by {
                    assert(shorter[j].0 != key);
                }
            },
            None => {
                assert forall|j: int| 0 <= j < shorter.len() implies (#[trigger] entries[j]).0
                    != key by {
                    assert(shorter[j].0 != key);
                }
            },
        }
    }
}

/// A fresh value takes the place of the one that is there only where it is asked to; a new name is
/// always added; every other name keeps its value.
pub proof fn law_fresh_value(
    entries: Seq<(Seq<char>, ParamModel)>,
    entry: (Seq<char>, ParamModel),
    replace: bool,
    other: Seq<char>,
)
    ensures
        ({
            let after = params::with_param(entries, entry, replace);
            &&& value_in(entries, entry.0) is None ==> value_in(after, entry.0) == Some(entry.1)
            &&& value_in(entries, entry.0) is Some ==> value_in(after, entry.0) == (if replace {
                Some(entry.1)
            } else {
                value_in(entries, entry.0)
            })
            &&& other != entry.0 ==> value_in(after, other) == value_in(entries, other)
        }),
{
    let after = params::with_param(entries, entry, replace);
    lemma_first_place(entries, entry.0);
    lemma_first_place(entries, other);
    lemma_first_place(after, entry.0);
    lemma_first_place(after, other);
    match params::first_place(entries, entry.0) {
        Some(i) => {
            if replace {
                assert(after[i] == entry);
                if other != entry.0 {
                    assert forall|j: int| 0 <= j < entries.len() && j != i implies (
                    #[trigger] after[j]) == entries[j] by {}
                    if let Some(k) = params::first_place(entries, other) {
                        assert(after[k] == entries[k]);
                        assert(after[params::first_place(after, other)->0].0 == other);
                        let m = params::first_place(after, other)->0;
                        assert(entries[m] == after[m]);
                    } else if let Some(m) = params::first_place(after, other) {
                        assert(entries[m] == after[m]);
                    }
                }
                let m = params::first_place(after, entry.0)->0;
                if m < i {
                    assert(entries[m] == after[m]);
                }
            }
        },
        None => {
            let last = after.len() - 1;
            assert(after[last] == entry);
            let m = params::first_place(after, entry.0)->0;
            if m < last {
                assert(entries[m] == after[m]);
            }
            if other != entry.0 {
                if let Some(k) = params::first_place(entries, other) {
                    assert(after[k] == entries[k]);
                    let p = params::first_place(after, other)->0;
                    assert(entries[p] == after[p]);
                } else if let Some(p) = params::first_place(after, other) {
                    assert(entries[p] == after[p]);
                }
            }
        },
    }
}

/// Fresh values are taken up one after the other, and the merged list is then put in order.
pub proof fn law_fresh_values(
    entries: Seq<(Seq<char>, ParamModel)>,
    more: Seq<(Seq<char>, ParamModel)>,
    entry: (Seq<char>, ParamModel),
    replace: bool,
)
    ensures
        params::with_params(entries, Seq::empty(), replace) == entries,
        params::with_params(entries, more.push(entry), replace) == params::with_param(
            params::with_params(entries, more, replace),
            entry,
            replace,
        ),
        params::merged(entries, more, replace).to_multiset() == params::with_params(
            params::with_params(Seq::empty(), entries, true),
            more,
            replace,
        ).to_multiset(),
{
    assert(more.push(entry).drop_last() =~= more);
    runtime::law_listing_in_order(
        params::with_params(params::with_params(Seq::empty(), entries, true), more, replace),
    );
}

/// The values of the running bridge replace those that are known, and where it has none to show
/// the known ones stay.
pub proof fn law_refreshed(
    current: Seq<(Seq<char>, ParamModel)>,
    fresh: Seq<(Seq<char>, ParamModel)>,
    show_all: bool,
)
    ensures
        params::visible(fresh, show_all).len() == 0 ==> params::refreshed(current, fresh, show_all)
            == params::visible(current, show_all),
        params::visible(fresh, show_all).len() > 0 ==> params::refreshed(current, fresh, show_all)
            == params::visible(
            params::merged(current, params::visible(fresh, show_all), true),
            show_all,
        ),
{
}

/// Values that were asked for fill a list that is empty or not kept fresh by a running bridge; to
/// one that is, they add only what it lacks; and an answer without values does not clear it.
pub proof fn law_asked_for(
    current: Seq<(Seq<char>, ParamModel)>,
    values: Seq<(Seq<char>, Json)>,
    show_all: bool,
    running: bool,
)
    ensures
        ({
            let found = runtime::sorted_entries(params::document_params(values, show_all));
            &&& params::updated(current, values, show_all, running) is None <==> found.len() == 0
                && current.len() > 0
            &&& found.len() > 0 && running && current.len() > 0 ==> params::updated(
                current,
                values,
                show_all,
                running,
            ) == Some(params::visible(params::merged(current, found, false), show_all))
            &&& found.len() > 0 && !running ==> params::updated(current, values, show_all, running)
                == Some(params::visible(found, show_all))
        }),
{
}

/// A number that is finite, a flag and a text are values; lists, objects and nothing are none.
pub proof fn law_document_value(value: Json)
    ensures
        match value {
            Json::Number(n) => params::document_value(value) == (if n.float.finite() {
                Some(ParamModel::Number(n.float))
            } else {
                None
            }),
            Json::Bool(flag) => params::document_value(value) == Some(ParamModel::Bool(flag)),
            Json::Text(s) => params::document_value(value) == Some(ParamModel::Text(s)),
            Json::Null => params::document_value(value) is None,
            Json::Array(_) => params::document_value(value) is None,
            Json::Object(_) => params::document_value(value) is None,
        },
{
}

/// The values of a document are taken one after the other where they may be shown; all of the
/// listed ones are written out in full.
pub proof fn law_document_params(values: Seq<(Seq<char>, Json)>, key: Seq<char>, value: Json, show_all: bool)
    ensures
        params::document_params(Seq::empty(), show_all).len() == 0,
        params::document_params(values.push((key, value)), show_all) == (
        match params::document_value(value) {
            Some(found) => if show_all || params::listed(key) {
                params::document_params(values, show_all).push((key, found))
            } else {
                params::document_params(values, show_all)
            },
            None => params::document_params(values, show_all),
        }),
        params::written_values(Seq::empty()).len() == 0,
        params::listed(key) ==> params::written_values(values.push((key, value)))
            == params::written_values(values).push(
            (key, ParamModel::Text(json::json_text(value))),
        ),
        !params::listed(key) ==> params::written_values(values.push((key, value)))
            == params::written_values(values),
{
    assert(values.push((key, value)).drop_last() =~= values);
}

/// A parameter is read as a number: one that is one as itself, a flag as one or zero, and a text as
/// the number that it writes.
pub proof fn law_param_reading(value: ParamModel, widened: FloatBits)
    ensures
        match value {
            ParamModel::Int(_) => params::reading(value, widened) == Some(widened),
            ParamModel::Float(_) => params::reading(value, widened) == Some(widened),
            ParamModel::Number(number) => params::reading(value, widened) == Some(number),
            ParamModel::Bool(true) => params::reading(value, widened) == Some(
                float::number(float::ONE),
            ),
            ParamModel::Bool(false) => params::reading(value, widened) == Some(float::number(0)),
            ParamModel::Text(s) => match float::float_reading(s) {
                Some(bits) => params::reading(value, widened) == Some(float::number(bits)),
                None => params::reading(value, widened) is None,
            },
        },
{
}

/// The lines of a log are scanned one after the other, from nothing.
pub proof fn law_lines_scanned(lines: Seq<Seq<char>>, line: Seq<char>)
    ensures
        diagnostics::scan_lines(lines.push(line)) == diagnostics::scan_line(
            diagnostics::scan_lines(lines),
            line,
        ),
        ({
            let scan = diagnostics::scan_lines(Seq::empty());
            &&& scan.osc_start_failure is None && scan.oscquery_port is None
            &&& scan.osc_launch_arg is None && scan.osc_input_port is None
            &&& scan.osc_output_host is None && scan.osc_output_port is None
        }),
{
    assert(lines.push(line).drop_last() =~= lines);
}

} // verus!
