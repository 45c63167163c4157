//! Laws of what surrounds the signal: who may send, what is logged, discovered and kept.
use vstd::prelude::*;
use crate::bridge_loop;
use crate::bridge_loop::Admission;
use crate::config::{DiscoveryModel, NormalizedModel};
use crate::engine;
use crate::ip;
use crate::ip::IpAddress;
use crate::mapping::MappingModel;
use crate::osc::{ArgModel, MessageModel};
use crate::runtime;
use crate::runtime::{MappingState, ParamModel};
use crate::text;
use vstd::utf8::*;

verus! {

/// A packet is read exactly where its sender may send: from the network only where that is
/// allowed, and, where senders are listed, only from those. A sender that may not is mentioned in
/// the log once.
pub proof fn law_who_may_send(
    config: NormalizedModel,
    mentioned: Seq<IpAddress>,
    sender: IpAddress,
)
    ensures
        bridge_loop::admission(config, mentioned, sender) == Admission::Accept <==> (
        config.allow_network_osc || ip::loopback(sender)) && (config.osc_allowed_senders.len() == 0
            || config.osc_allowed_senders.contains(sender)),
        bridge_loop::admission(config, mentioned, sender) == Admission::IgnoreAndLog
            ==> !mentioned.contains(sender) && bridge_loop::admission(
            config,
            mentioned.push(sender),
            sender,
        ) == Admission::Ignore,
        bridge_loop::admission(config, mentioned, sender) == Admission::Ignore
            ==> mentioned.contains(sender),
{
    assert(mentioned.push(sender)[mentioned.len() as int] == sender);
}

/// An address of four octets is one of this machine exactly where the first octet is 127; of the
/// longer addresses only the one is.
pub proof fn law_loopback(a: u8, b: u8, c: u8, d: u8, long: u128)
    ensures
        ip::loopback(IpAddress::V4((a * 0x100_0000 + b * 0x1_0000 + c * 0x100 + d) as u32))
            <==> a == 127,
        ip::loopback(IpAddress::V6(long)) <==> long == 1,
{
    let n = (a * 0x100_0000 + b * 0x1_0000 + c * 0x100 + d) as u32;
    assert(n / 0x100_0000u32 == a) by (nonlinear_arith)
        requires
            n == a * 0x100_0000 + b * 0x1_0000 + c * 0x100 + d,
            0 <= a < 256,
            0 <= b < 256,
            0 <= c < 256,
            0 <= d < 256,
    ;
}

/// A message counts as mapped exactly where it brings a sample, and as unmapped exactly where no
/// mapping has its address.
pub proof fn law_mapped_brings_sample(message: MessageModel, mappings: Seq<MappingModel>)
    ensures
        runtime::mapping_state(message, mappings) == MappingState::Mapped
            <==> engine::message_samples(message, mappings).len() > 0,
        runtime::mapping_state(message, mappings) == MappingState::Unmapped <==> forall|i: int|
            0 <= i < mappings.len() ==> (#[trigger] mappings[i]).address != message.address,
{
    lemma_some_sample(message, mappings);
}

proof fn lemma_some_sample(message: MessageModel, mappings: Seq<MappingModel>)
    ensures
        engine::message_samples(message, mappings).len() > 0 <==> runtime::mapping_state(
            message,
            mappings,
        ) == MappingState::Mapped,
    decreases mappings.len(),
{
    if mappings.len() > 0 {
        let shorter = mappings.drop_last();
        lemma_some_sample(message, shorter);
        if runtime::address_mapped(shorter, message.address) {
            let i = choose|i: int|
                0 <= i < shorter.len() && (#[trigger] shorter[i]).address == message.address;
            assert(mappings[i].address == message.address);
        }
        if runtime::address_mapped(mappings, message.address) && mappings.last().address
            != message.address {
            let i = choose|i: int|
                0 <= i < mappings.len() && (#[trigger] mappings[i]).address == message.address;
            assert(shorter[i].address == message.address);
        }
        if mappings.last().address == message.address {
            assert(mappings[mappings.len() - 1].address == message.address);
        }
    }
}

/// Nothing is logged that is not asked for. The whole input is logged where no restriction is
/// set; one restriction leaves out the mapped messages, the other the unmapped ones.
pub proof fn law_what_is_logged(config: NormalizedModel, state: MappingState)
    ensures
        !config.debug.log_osc ==> !runtime::osc_logged(config, state),
        config.debug.log_osc && !config.debug.log_unmapped_only && !config.debug.log_configured_only
            ==> runtime::osc_logged(config, state),
        config.debug.log_osc && config.debug.log_unmapped_only && !config.debug.log_configured_only
            ==> (runtime::osc_logged(config, state) <==> state == MappingState::Unmapped),
        config.debug.log_osc && config.debug.log_configured_only && !config.debug.log_unmapped_only
            ==> (runtime::osc_logged(config, state) <==> state == MappingState::Mapped || state
            == MappingState::AddressMatchNonNumeric),
{
}

/// A line of the log names the state, the address, the types and the values.
pub proof fn law_log_line(message: MessageModel, state: MappingState, args: Seq<Seq<char>>)
    ensures
        runtime::state_name(state).is_prefix_of(runtime::osc_line(message, state, args)),
        args.len() > 0 ==> text::joined(args, ", "@).is_suffix_of(
            runtime::osc_line(message, state, args),
        ),
        text::occurs_at(
            runtime::osc_line(message, state, args),
            message.address,
            runtime::state_name(state).len() as int + 1,
        ),
{
    reveal_strlit(" ");
    let line = runtime::osc_line(message, state, args);
    let name = runtime::state_name(state);
    let values = text::joined(args, ", "@);
    assert(line.subrange(0, name.len() as int) =~= name);
    if args.len() > 0 {
        assert(line.subrange(line.len() - values.len(), line.len() as int) =~= values);
    }
    let at = name.len() as int + 1;
    assert(line.subrange(at, at + message.address.len()) =~= message.address);
}

/// An entry is discovered for every address that is a path. It is the address itself, or starts
/// with it where the types are wanted and then names them.
pub proof fn law_discovered_entry(message: MessageModel, include_arg_types: bool)
    ensures
        ({
            let address = text::trimmed(message.address);
            let tags = text::trimmed(message.arg_types);
            match bridge_loop::discovery_entry(message, include_arg_types) {
                Some(entry) => {
                    &&& address.len() > 0 && address[0] == '/'
                    &&& address.is_prefix_of(entry)
                    &&& !include_arg_types ==> entry == address
                    &&& include_arg_types && tags.len() > 0 ==> text::occurs_at(
                        entry,
                        tags,
                        address.len() as int + 2,
                    ) && entry.len() == address.len() + tags.len() + 3
                    &&& include_arg_types && tags.len() == 0 ==> entry.len() == address.len() + 4
                },
                None => address.len() == 0 || address[0] != '/',
            }
        }),
{
    reveal_strlit("\t[");
    reveal_strlit("-");
    reveal_strlit("]");
    let address = text::trimmed(message.address);
    let tags = text::trimmed(message.arg_types);
    if let Some(entry) = bridge_loop::discovery_entry(message, include_arg_types) {
        assert(entry.subrange(0, address.len() as int) =~= address);
        if include_arg_types && tags.len() > 0 {
            let at = address.len() as int + 2;
            assert(entry.subrange(at, at + tags.len()) =~= tags);
        }
    }
}

/// A new entry is kept at the end where there is room and it is short enough; whatever happens,
/// what was kept stays.
pub proof fn law_entry_considered(entries: Seq<Seq<char>>, entry: Seq<char>)
    ensures
        entries.is_prefix_of(bridge_loop::considered(entries, entry)),
        entries.contains(entry) ==> bridge_loop::considered(entries, entry) == entries,
        !entries.contains(entry) && entries.len() < 5000 && encode_utf8(entry).len() <= 256
            ==> bridge_loop::considered(entries, entry) == entries.push(entry),
        entries.len() >= 5000 || encode_utf8(entry).len() > 256 ==> bridge_loop::considered(
            entries,
            entry,
        ) == entries,
        bridge_loop::considered(bridge_loop::considered(entries, entry), entry)
            == bridge_loop::considered(entries, entry),
{
    let after = bridge_loop::considered(entries, entry);
    assert(entries.is_prefix_of(after)) by {
        assert(after.subrange(0, entries.len() as int) =~= entries);
    }
    if bridge_loop::entry_kept(entries, entry) {
        assert(after[entries.len() as int] == entry);
    }
}

/// Every line of a file that is neither blank, a remark nor too long is an entry, blanks aside,
/// and nothing else is.
pub proof fn law_entries_of_lines(lines: Seq<Seq<char>>, entry: Seq<char>)
    ensures
        bridge_loop::entry_lines(lines).contains(entry) <==> entry.len() > 0 && entry[0] != '#'
            && encode_utf8(entry).len() <= 256 && exists|i: int|
            0 <= i < lines.len() && text::trimmed(#[trigger] lines[i]) == entry,
    decreases lines.len(),
{
    if lines.len() > 0 {
        let shorter = lines.drop_last();
        let before = bridge_loop::entry_lines(shorter);
        let out = bridge_loop::entry_lines(lines);
        law_entries_of_lines(shorter, entry);
        if before.contains(entry) {
            let i = choose|i: int| 0 <= i < before.len() && before[i] == entry;
            assert(out[i] == entry);
        }
        if exists|i: int| 0 <= i < shorter.len() && text::trimmed(#[trigger] shorter[i]) == entry {
            let i = choose|i: int|
                0 <= i < shorter.len() && text::trimmed(#[trigger] shorter[i]) == entry;
            assert(text::trimmed(lines[i]) == entry);
        }
        if exists|i: int| 0 <= i < lines.len() && text::trimmed(#[trigger] lines[i]) == entry {
            let i = choose|i: int|
                0 <= i < lines.len() && text::trimmed(#[trigger] lines[i]) == entry;
            if i < shorter.len() {
                assert(text::trimmed(shorter[i]) == entry);
            }
        }
        if text::trimmed(lines.last()) == entry {
            assert(text::trimmed(lines[lines.len() - 1]) == entry);
            if entry.len() > 0 && entry[0] != '#' && bridge_loop::entry_fits(entry) {
                assert(out[out.len() - 1] == entry);
            }
        }
        if out.contains(entry) {
            let i = choose|i: int| 0 <= i < out.len() && out[i] == entry;
            if i < before.len() {
                assert(before[i] == entry);
            } else {
                assert(text::trimmed(lines[lines.len() - 1]) == entry);
            }
        }
    }
}

/// Dropping repeats loses no entry and adds none.
pub proof fn law_repeats_dropped(items: Seq<Seq<char>>, entry: Seq<char>)
    ensures
        bridge_loop::without_repeats(items).contains(entry) <==> items.contains(entry),
        bridge_loop::without_repeats(items).len() <= items.len(),
    decreases items.len(),
{
    if items.len() > 0 {
        let shorter = items.drop_last();
        let before = bridge_loop::without_repeats(shorter);
        let out = bridge_loop::without_repeats(items);
        law_repeats_dropped(shorter, entry);
        if shorter.contains(entry) {
            let i = choose|i: int| 0 <= i < shorter.len() && shorter[i] == entry;
            assert(items[i] == entry);
        }
        if items.contains(entry) {
            let i = choose|i: int| 0 <= i < items.len() && items[i] == entry;
            if i < shorter.len() {
                assert(shorter[i] == entry);
            }
        }
        if before.contains(entry) {
            let i = choose|i: int| 0 <= i < before.len() && before[i] == entry;
            assert(out[i] == entry);
        }
        if out.contains(entry) {
            let i = choose|i: int| 0 <= i < out.len() && out[i] == entry;
            if i < before.len() {
                assert(before[i] == entry);
            } else {
                assert(items[items.len() - 1] == entry);
            }
        }
        if items.last() == entry {
            assert(items[items.len() - 1] == entry);
            if !before.contains(entry) {
                assert(out[out.len() - 1] == entry);
            }
        }
    }
}

/// The last items of a list are its end, as many as there are up to the limit.
pub proof fn law_last_items<T>(items: Seq<T>, n: int)
    requires
        n >= 0,
    ensures
        runtime::last_items(items, n).is_suffix_of(items),
        items.len() <= n ==> runtime::last_items(items, n) == items,
        items.len() > n ==> runtime::last_items(items, n).len() == n,
{
    let out = runtime::last_items(items, n);
    assert(items.subrange(items.len() - out.len(), items.len() as int) =~= out);
}

/// The name of an avatar's parameter is what follows the path of the parameters; any other
/// address is its own name.
pub proof fn law_param_name(address: Seq<char>)
    ensures
        runtime::param_key("/avatar/parameters/"@ + address) == address,
        !"/avatar/parameters/"@.is_prefix_of(address) ==> runtime::param_key(address) == address,
{
    let whole = "/avatar/parameters/"@ + address;
    let n = "/avatar/parameters/"@.len() as int;
    assert(whole.subrange(0, n) =~= "/avatar/parameters/"@);
    assert(whole.skip(n) =~= address);
}

/// The value of a parameter is the first argument as it came; only a float that is no finite
/// number is left out.
pub proof fn law_param_value(args: Seq<ArgModel>)
    ensures
        args.len() == 0 ==> runtime::param_value(args) is None,
        args.len() > 0 ==> match args[0] {
            ArgModel::Int(n) => runtime::param_value(args) == Some(ParamModel::Int(n)),
            ArgModel::Bool(flag) => runtime::param_value(args) == Some(ParamModel::Bool(flag)),
            ArgModel::Str(s) => runtime::param_value(args) == Some(ParamModel::Text(s)),
            ArgModel::Float(bits) => if bits < 0x7F80_0000 || 0x8000_0000 <= bits < 0xFF80_0000 {
                runtime::param_value(args) == Some(ParamModel::Float(bits))
            } else {
                runtime::param_value(args) is None
            },
        },
{
}

/// A full cache drops what it has kept longest; otherwise every value keeps its place.
pub proof fn law_cache_order(entries: Seq<(Seq<char>, ParamModel)>, key: Seq<char>, value: ParamModel)
    ensures
        ({
            let after = runtime::cache_inserted(entries, key, value);
            let known = exists|i: int| 0 <= i < entries.len() && (#[trigger] entries[i]).0 == key;
            &&& known ==> after.len() == entries.len() && forall|i: int|
                0 <= i < entries.len() && (#[trigger] entries[i]).0 != key ==> after[i] == entries[i]
            &&& !known && entries.len() < 4096 ==> after == entries.push((key, value))
            &&& !known && entries.len() >= 4096 ==> after.len() == entries.len() && after.last() == (
                key,
                value,
            ) && forall|i: int|
                0 < i < entries.len() ==> #[trigger] entries[i] == after[i - 1]
        }),
{
}

/// Of the lines of a file the first five thousand entries count, each once.
pub proof fn law_file_entries(raw: Seq<char>, entry: Seq<char>)
    ensures
        ({
            let lines = bridge_loop::entry_lines(text::pieces(raw, seq!['\n']));
            &&& bridge_loop::file_entries(raw).contains(entry) <==> exists|i: int|
                0 <= i < lines.len() && i < 5000 && #[trigger] lines[i] == entry
            &&& bridge_loop::file_entries(raw).len() <= 5000
        }),
{
    let lines = bridge_loop::entry_lines(text::pieces(raw, seq!['\n']));
    let first = bridge_loop::first_items(lines, 5000);
    law_repeats_dropped(first, entry);
    if first.contains(entry) {
        let i = choose|i: int| 0 <= i < first.len() && first[i] == entry;
        assert(lines[i] == entry);
    }
    if exists|i: int| 0 <= i < lines.len() && i < 5000 && #[trigger] lines[i] == entry {
        let i = choose|i: int| 0 <= i < lines.len() && i < 5000 && #[trigger] lines[i] == entry;
        assert(first[i] == entry);
    }
}

/// A number is shown as it is written, a flag as its word and a text as itself.
pub proof fn law_shown_value(value: ParamModel, number: Seq<char>)
    ensures
        match value {
            ParamModel::Bool(true) => runtime::shown_value(value, number) == "true"@,
            ParamModel::Bool(false) => runtime::shown_value(value, number) == "false"@,
            ParamModel::Text(s) => runtime::shown_value(value, number) == s,
            _ => runtime::shown_value(value, number) == number,
        },
{
}

/// A message adds at most its own entry, and only where discovery is on.
pub proof fn law_observed_entries(
    entries: Seq<Seq<char>>,
    discovery: DiscoveryModel,
    message: MessageModel,
)
    ensures
        ({
            let after = bridge_loop::observed_entries(entries, discovery, message);
            let entry = bridge_loop::discovery_entry(message, discovery.include_arg_types);
            &&& !discovery.enabled || entry is None ==> after == entries
            &&& discovery.enabled ==> (entry matches Some(found) ==> (after == entries || after
                == entries.push(found)))
            &&& discovery.enabled && entries.len() < 5000 ==> (entry matches Some(found) ==> (
            encode_utf8(found).len() <= 256 ==> after.contains(found)))
        }),
{
    if let Some(found) = bridge_loop::discovery_entry(message, discovery.include_arg_types) {
        assert(entries.push(found)[entries.len() as int] == found);
    }
}

/// A sender that may not send is mentioned the first time and never again, however many packets of
/// others come between; a sender that may is never mentioned.
pub proof fn law_mentioned_once(
    config: NormalizedModel,
    mentioned: Seq<IpAddress>,
    sender: IpAddress,
    other: IpAddress,
)
    ensures
        ({
            let after = bridge_loop::mentioned_after(config, mentioned, sender);
            &&& bridge_loop::admission(config, after, sender) != Admission::IgnoreAndLog
            &&& bridge_loop::admission(config, after, sender) == Admission::Accept
                <==> bridge_loop::admission(config, mentioned, sender) == Admission::Accept
            &&& bridge_loop::admission(config, mentioned, sender) == Admission::Accept ==> after
                == mentioned
            &&& mentioned.contains(other) ==> after.contains(other)
            &&& other != sender && after.contains(other) ==> mentioned.contains(other)
            &&& other != sender ==> bridge_loop::admission(config, after, other)
                == bridge_loop::admission(config, mentioned, other)
        }),
{
    let after = bridge_loop::mentioned_after(config, mentioned, sender);
    let more = mentioned.push(sender);
    assert(more[mentioned.len() as int] == sender);
    if mentioned.contains(other) {
        let i = choose|i: int| 0 <= i < mentioned.len() && mentioned[i] == other;
        assert(more[i] == other);
    }
    if more.contains(other) && other != sender {
        let i = choose|i: int| 0 <= i < more.len() && more[i] == other;
        assert(mentioned[i] == other);
    }
}

} // verus!
