//! What reading OSC packets promises: a message that was written is read back as it was, and a
//! bundle gives the messages of its chunks in order.
use vstd::prelude::*;
use vstd::utf8::*;
use crate::osc::{ArgModel, MessageModel};
use crate::osc;

verus! {

/// The four bytes of a number, most significant first.
pub open spec fn number_bytes(n: int) -> Seq<u8> {
    seq![
        (n / 0x100_0000) as u8,
        (n / 0x1_0000 % 0x100) as u8,
        (n / 0x100 % 0x100) as u8,
        (n % 0x100) as u8,
    ]
}

/// Chunks, each behind its size.
pub open spec fn chunk_bytes(parts: Seq<Seq<u8>>) -> Seq<u8>
    decreases parts.len(),
{
    if parts.len() == 0 {
        Seq::empty()
    } else {
        number_bytes(parts[0].len() as int) + parts[0] + chunk_bytes(parts.drop_first())
    }
}

/// The messages of several packets, one after the other.
pub open spec fn part_messages(parts: Seq<Seq<u8>>) -> Seq<MessageModel>
    decreases parts.len(),
{
    if parts.len() == 0 {
        Seq::empty()
    } else {
        osc::packet_messages(parts[0]) + part_messages(parts.drop_first())
    }
}

/// The bytes behind a string up to the next multiple of four, at least one.
pub open spec fn padding(len: nat) -> Seq<u8> {
    Seq::new((osc::aligned(len as int + 1) - len) as nat, |i: int| 0u8)
}

/// A string in a packet: its bytes and its padding.
pub open spec fn string_bytes(s: Seq<char>) -> Seq<u8> {
    encode_utf8(s) + padding(encode_utf8(s).len())
}

/// A text can stand in a packet: it holds no zero character.
pub open spec fn writable(s: Seq<char>) -> bool {
    forall|i: int| 0 <= i < s.len() ==> #[trigger] s[i] != '\0'
}

proof fn lemma_number(packet: Seq<u8>, at: int, n: int)
    requires
        0 <= at,
        at + 4 <= packet.len(),
        packet.subrange(at, at + 4) == number_bytes(n),
        0 <= n < 0x1_0000_0000,
    ensures
        osc::unsigned_at(packet, at) == n,
{
    let four = packet.subrange(at, at + 4);
    assert(four[0] == packet[at]);
    assert(four[1] == packet[at + 1]);
    assert(four[2] == packet[at + 2]);
    assert(four[3] == packet[at + 3]);
}

proof fn lemma_chunks(before: Seq<u8>, parts: Seq<Seq<u8>>, tail: Seq<u8>)
    requires
        forall|i: int| 0 <= i < parts.len() ==> 0 < (#[trigger] parts[i]).len() <= 0x7FFF_FFFF,
        !osc::chunk_fits(tail, 0),
    ensures
        osc::chunk_messages(before + chunk_bytes(parts) + tail, before.len() as int)
            == part_messages(parts),
    decreases parts.len(),
{
    let packet = before + chunk_bytes(parts) + tail;
    let at = before.len() as int;
    if parts.len() == 0 {
        assert(packet =~= before + tail);
        if tail.len() >= 4 {
            assert(packet[at] == tail[0]);
            assert(packet[at + 1] == tail[1]);
            assert(packet[at + 2] == tail[2]);
            assert(packet[at + 3] == tail[3]);
        }
    } else {
        let part = parts[0];
        let rest = parts.drop_first();
        let size = number_bytes(part.len() as int);
        let next = before + size + part;
        assert(packet =~= next + chunk_bytes(rest) + tail);
        assert(packet.subrange(at, at + 4) =~= size);
        lemma_number(packet, at, part.len() as int);
        assert(packet.subrange(at + 4, at + 4 + part.len()) =~= part);
        assert forall|i: int| 0 <= i < rest.len() implies 0 < (#[trigger] rest[i]).len()
            <= 0x7FFF_FFFF by {
            assert(rest[i] == parts[i + 1]);
        }
        lemma_chunks(next, rest, tail);
        assert(next.len() == at + 4 + part.len());
    }
}

proof fn lemma_zero_at(packet: Seq<u8>, from: int, end: int)
    requires
        0 <= from <= end < packet.len(),
        forall|i: int| from <= i < end ==> #[trigger] packet[i] != 0,
        packet[end] == 0,
    ensures
        osc::zero_from(packet, from) == end,
    decreases end - from,
{
    if from < end {
        lemma_zero_at(packet, from + 1, end);
    }
}

proof fn lemma_scalar_nonzero(n: u32)
    requires
        n != 0,
        is_scalar(n),
    ensures
        forall|i: int| 0 <= i < encode_scalar(n).len() ==> #[trigger] encode_scalar(n)[i] != 0,
{
    assert(has_width_1_encoding(n) ==> n <= 0x7F);
    assert(n <= 0x7F && n != 0 ==> (n & 0x7F) as u8 != 0) by (bit_vector);
    assert(0xC0u8 | ((n >> 6) & 0x1F) as u8 != 0) by (bit_vector);
    assert(0xE0u8 | ((n >> 12) & 0x0F) as u8 != 0) by (bit_vector);
    assert(0xF0u8 | ((n >> 18) & 0x7) as u8 != 0) by (bit_vector);
    assert(0x80u8 | (n & 0x3F) as u8 != 0) by (bit_vector);
    assert(0x80u8 | ((n >> 6) & 0x3F) as u8 != 0) by (bit_vector);
    assert(0x80u8 | ((n >> 12) & 0x3F) as u8 != 0) by (bit_vector);
}

proof fn lemma_bytes_nonzero(s: Seq<char>)
    requires
        writable(s),
    ensures
        forall|i: int| 0 <= i < encode_utf8(s).len() ==> #[trigger] encode_utf8(s)[i] != 0,
    decreases s.len(),
{
    if s.len() > 0 {
        let rest = s.drop_first();
        assert(writable(rest)) by {
            assert forall|i: int| 0 <= i < rest.len() implies #[trigger] rest[i] != '\0' by {
                assert(rest[i] == s[i + 1]);
            }
        }
        lemma_bytes_nonzero(rest);
        char_is_scalar(s[0]);
        char_u32_cast(s[0], s[0] as u32);
        assert(s[0] != '\0');
        assert(s[0] as u32 != 0);
        lemma_scalar_nonzero(s[0] as u32);
        let head = encode_scalar(s[0] as u32);
        assert forall|i: int| 0 <= i < encode_utf8(s).len() implies #[trigger] encode_utf8(s)[i]
            != 0 by {
            if i < head.len() {
                assert(encode_utf8(s)[i] == head[i]);
            } else {
                assert(encode_utf8(s)[i] == encode_utf8(rest)[i - head.len()]);
            }
        }
    }
}

proof fn lemma_string(before: Seq<u8>, s: Seq<char>, after: Seq<u8>)
    requires
        before.len() % 4 == 0,
        writable(s),
    ensures
        osc::string_at(before + string_bytes(s) + after, before.len() as int) == Some(
            (s, (before.len() + string_bytes(s).len()) as int),
        ),
        string_bytes(s).len() % 4 == 0,
{
    let packet = before + string_bytes(s) + after;
    let at = before.len() as int;
    let bytes = encode_utf8(s);
    let end = at + bytes.len();
    lemma_bytes_nonzero(s);
    assert forall|i: int| at <= i < end implies #[trigger] packet[i] != 0 by {
        assert(packet[i] == bytes[i - at]);
    }
    assert(packet[end] == padding(bytes.len())[0]);
    lemma_zero_at(packet, at, end);
    assert(packet.subrange(at, end) =~= bytes);
    encode_utf8_valid_utf8(s);
    encode_utf8_decode_utf8(s);
}

/// A bundle gives the messages of its chunks in order. What follows the last chunk that fits is
/// passed over, and the messages that were read before it are kept.
pub proof fn law_bundle_messages(time: Seq<u8>, parts: Seq<Seq<u8>>, tail: Seq<u8>)
    requires
        time.len() == 8,
        forall|i: int| 0 <= i < parts.len() ==> 0 < (#[trigger] parts[i]).len() <= 0x7FFF_FFFF,
        !osc::chunk_fits(tail, 0),
    ensures
        osc::packet_messages(
            string_bytes(osc::bundle_marker()) + time + chunk_bytes(parts) + tail,
        ) == part_messages(parts),
{
    let marker = osc::bundle_marker();
    reveal_strlit("#bundle");
    assert(writable(marker));
    let head = string_bytes(marker);
    let after = time + chunk_bytes(parts) + tail;
    let packet = head + time + chunk_bytes(parts) + tail;
    assert(packet =~= Seq::<u8>::empty() + head + after);
    lemma_string(Seq::empty(), marker, after);
    assert(packet =~= (head + time) + chunk_bytes(parts) + tail);
    lemma_chunks(head + time, parts, tail);
}

/// The type tag of an argument.
pub open spec fn tag_of(arg: ArgModel) -> char {
    match arg {
        ArgModel::Int(_) => 'i',
        ArgModel::Float(_) => 'f',
        ArgModel::Bool(flag) => if flag {
            'T'
        } else {
            'F'
        },
        ArgModel::Str(_) => 's',
    }
}

/// The type tags of a list of arguments.
pub open spec fn tags_of(args: Seq<ArgModel>) -> Seq<char> {
    Seq::new(args.len(), |i: int| tag_of(args[i]))
}

/// The bytes of an argument.
pub open spec fn arg_bytes(arg: ArgModel) -> Seq<u8> {
    match arg {
        ArgModel::Int(n) => number_bytes(
            if n < 0 {
                n + 0x1_0000_0000
            } else {
                n as int
            },
        ),
        ArgModel::Float(bits) => number_bytes(bits as int),
        ArgModel::Bool(_) => Seq::empty(),
        ArgModel::Str(s) => string_bytes(s),
    }
}

/// The bytes of a list of arguments.
pub open spec fn args_bytes(args: Seq<ArgModel>) -> Seq<u8>
    decreases args.len(),
{
    if args.len() == 0 {
        Seq::empty()
    } else {
        args_bytes(args.drop_last()) + arg_bytes(args.last())
    }
}

/// An argument can stand in a packet.
pub open spec fn writable_arg(arg: ArgModel) -> bool {
    match arg {
        ArgModel::Str(s) => writable(s),
        _ => true,
    }
}

proof fn lemma_arg(before: Seq<u8>, arg: ArgModel, after: Seq<u8>)
    requires
        before.len() % 4 == 0,
        writable_arg(arg),
    ensures
        osc::arg_at(before + arg_bytes(arg) + after, tag_of(arg), before.len() as int) == Some(
            (arg, (before.len() + arg_bytes(arg).len()) as int),
        ),
        arg_bytes(arg).len() % 4 == 0,
{
    let packet = before + arg_bytes(arg) + after;
    let at = before.len() as int;
    match arg {
        ArgModel::Int(n) => {
            let m = if n < 0 {
                n + 0x1_0000_0000
            } else {
                n as int
            };
            assert(packet.subrange(at, at + 4) =~= number_bytes(m));
            lemma_number(packet, at, m);
        },
        ArgModel::Float(bits) => {
            assert(packet.subrange(at, at + 4) =~= number_bytes(bits as int));
            lemma_number(packet, at, bits as int);
        },
        ArgModel::Bool(_) => {},
        ArgModel::Str(s) => {
            lemma_string(before, s, after);
        },
    }
}

#[verifier::spinoff_prover]
#[verifier::rlimit(40)]
proof fn lemma_args(before: Seq<u8>, args: Seq<ArgModel>, after: Seq<u8>)
    requires
        before.len() % 4 == 0,
        forall|i: int| 0 <= i < args.len() ==> writable_arg(#[trigger] args[i]),
    ensures
        osc::args_at(before + args_bytes(args) + after, tags_of(args), before.len() as int) == Some(
            (args, (before.len() + args_bytes(args).len()) as int),
        ),
        args_bytes(args).len() % 4 == 0,
    decreases args.len(),
{
    if args.len() == 0 {
        assert(tags_of(args) =~= Seq::empty());
        assert(args =~= Seq::empty());
    } else {
        let shorter = args.drop_last();
        let last = args.last();
        let packet = before + args_bytes(args) + after;
        assert(packet =~= before + args_bytes(shorter) + (arg_bytes(last) + after));
        lemma_args(before, shorter, arg_bytes(last) + after);
        assert(tags_of(args).drop_last() =~= tags_of(shorter));
        assert(packet =~= (before + args_bytes(shorter)) + arg_bytes(last) + after);
        lemma_arg(before + args_bytes(shorter), last, after);
        assert(shorter.push(last) =~= args);
    }
}

/// A message written by its address, its type tags and its arguments is read back whole.
pub proof fn law_message_read_back(address: Seq<char>, args: Seq<ArgModel>)
    requires
        writable(address),
        address != osc::bundle_marker(),
        forall|i: int| 0 <= i < args.len() ==> writable_arg(#[trigger] args[i]),
    ensures
        osc::packet_messages(
            string_bytes(address) + string_bytes(seq![','] + tags_of(args)) + args_bytes(args),
        ) == seq![
            MessageModel {
                address,
                args,
                arg_type: if args.len() > 0 {
                    Some(tag_of(args[0]))
                } else {
                    None
                },
                arg_types: tags_of(args),
            },
        ],
{
    let tag_text = seq![','] + tags_of(args);
    let head = string_bytes(address);
    let middle = string_bytes(tag_text);
    let packet = head + middle + args_bytes(args);
    assert(writable(tag_text));
    assert(packet =~= Seq::<u8>::empty() + head + (middle + args_bytes(args)));
    lemma_string(Seq::empty(), address, middle + args_bytes(args));
    lemma_string(head, tag_text, args_bytes(args));
    assert(packet =~= (head + middle) + args_bytes(args) + Seq::empty());
    lemma_args(head + middle, args, Seq::empty());
    assert(tag_text.skip(1) =~= tags_of(args));
}

/// A place is moved on to the next multiple of four, and not at all where it is one.
pub proof fn law_aligned(n: int)
    ensures
        n <= osc::aligned(n) < n + 4,
        osc::aligned(n) % 4 == 0,
{
}

/// A bundle is known by its mark.
pub proof fn law_bundle_marker()
    ensures
        osc::bundle_marker() == seq!['#', 'b', 'u', 'n', 'd', 'l', 'e'],
{
    reveal_strlit("#bundle");
    assert(osc::bundle_marker() =~= seq!['#', 'b', 'u', 'n', 'd', 'l', 'e']);
}

/// A chunk is read only where its size is there, is more than nothing and does not lead out of the
/// packet; what does not fit ends the bundle.
pub proof fn law_chunk_fits(packet: Seq<u8>, at: int, n: int)
    requires
        0 <= at,
        at + 4 <= packet.len(),
        0 <= n < 0x8000_0000,
        packet.subrange(at, at + 4) == number_bytes(n),
    ensures
        osc::chunk_fits(packet, at) <==> 0 < n <= packet.len() - at - 4,
        !osc::chunk_fits(packet, at) ==> osc::chunk_messages(packet, at).len() == 0,
        !osc::chunk_fits(packet, packet.len() - 3),
{
    lemma_number(packet, at, n);
}

/// Arguments are read only where every tag is known and what it announces is there: one argument
/// for each tag, of the kind that the tag names.
pub proof fn law_arguments_of_tags(packet: Seq<u8>, tags: Seq<char>, cursor: int)
    ensures
        osc::args_at(packet, tags, cursor) matches Some((args, end)) ==> args.len() == tags.len()
            && cursor <= end && forall|i: int|
            0 <= i < tags.len() ==> match #[trigger] args[i] {
                ArgModel::Int(_) => tags[i] == 'i',
                ArgModel::Float(_) => tags[i] == 'f',
                ArgModel::Bool(flag) => tags[i] == (if flag {
                    'T'
                } else {
                    'F'
                }),
                ArgModel::Str(_) => tags[i] == 's',
            },
        (exists|i: int|
            0 <= i < tags.len() && #[trigger] tags[i] != 'i' && tags[i] != 'f' && tags[i] != 'T'
                && tags[i] != 'F' && tags[i] != 's') ==> osc::args_at(packet, tags, cursor) is None,
    decreases tags.len(),
{
    if tags.len() > 0 {
        let shorter = tags.drop_last();
        law_arguments_of_tags(packet, shorter, cursor);
        if let Some((before, next)) = osc::args_at(packet, shorter, cursor) {
            lemma_moves_on(packet, tags.last(), next);
            if let Some((args, _)) = osc::args_at(packet, tags, cursor) {
                assert forall|i: int| 0 <= i < tags.len() implies match #[trigger] args[i] {
                    ArgModel::Int(_) => tags[i] == 'i',
                    ArgModel::Float(_) => tags[i] == 'f',
                    ArgModel::Bool(flag) => tags[i] == (if flag {
                        'T'
                    } else {
                        'F'
                    }),
                    ArgModel::Str(_) => tags[i] == 's',
                } by {
                    if i < shorter.len() {
                        assert(args[i] == before[i]);
                        assert(shorter[i] == tags[i]);
                    }
                }
            }
        }
        if exists|i: int|
            0 <= i < tags.len() && #[trigger] tags[i] != 'i' && tags[i] != 'f' && tags[i] != 'T'
                && tags[i] != 'F' && tags[i] != 's' {
            let i = choose|i: int|
                0 <= i < tags.len() && #[trigger] tags[i] != 'i' && tags[i] != 'f' && tags[i] != 'T'
                    && tags[i] != 'F' && tags[i] != 's';
            if i < shorter.len() {
                assert(shorter[i] == tags[i]);
            }
        }
    }
}

proof fn lemma_moves_on(packet: Seq<u8>, tag: char, cursor: int)
    ensures
        osc::arg_at(packet, tag, cursor) matches Some((_, end)) ==> cursor <= end,
{
    lemma_zero_behind(packet, cursor);
}

proof fn lemma_zero_behind(packet: Seq<u8>, from: int)
    ensures
        from <= packet.len() ==> from <= osc::zero_from(packet, from),
    decreases packet.len() - from,
{
    if from < packet.len() && packet[from] != 0 {
        lemma_zero_behind(packet, from + 1);
    }
}

/// A number that does not fit into the rest of the packet is not read, and one that does takes
/// four bytes.
pub proof fn law_numbers_take_four(packet: Seq<u8>, cursor: int)
    ensures
        cursor + 4 > packet.len() ==> osc::arg_at(packet, 'i', cursor) is None && osc::arg_at(
            packet,
            'f',
            cursor,
        ) is None,
        cursor + 4 <= packet.len() ==> (osc::arg_at(packet, 'i', cursor) matches Some((_, end))
            && end == cursor + 4),
        cursor + 4 <= packet.len() ==> (osc::arg_at(packet, 'f', cursor) matches Some((_, end))
            && end == cursor + 4),
        osc::arg_at(packet, 'T', cursor) == Some((ArgModel::Bool(true), cursor)),
        osc::arg_at(packet, 'F', cursor) == Some((ArgModel::Bool(false), cursor)),
{
}

/// A message needs an address and a list of tags behind a comma, both ended by a zero.
pub proof fn law_message_shape(packet: Seq<u8>)
    ensures
        osc::message_in(packet) matches Some(message) ==> {
            &&& (osc::string_at(packet, 0) matches Some((address, tags_at)) && message.address
                == address && (osc::string_at(packet, tags_at) matches Some((tags, _)) && tags.len()
                > 0 && tags[0] == ',' && message.arg_types == tags.skip(1)))
            &&& message.args.len() == message.arg_types.len()
            &&& message.arg_type == (if message.arg_types.len() > 0 {
                Some(message.arg_types[0])
            } else {
                None
            })
        },
        (forall|i: int| 0 <= i < packet.len() ==> #[trigger] packet[i] != 0) ==> osc::message_in(
            packet,
        ) is None && osc::packet_messages(packet).len() == 0,
{
    if let Some((address, tags_at)) = osc::string_at(packet, 0) {
        if let Some((tags, args_at)) = osc::string_at(packet, tags_at) {
            law_arguments_of_tags(packet, tags.skip(1), args_at);
        }
    }
    if forall|i: int| 0 <= i < packet.len() ==> #[trigger] packet[i] != 0 {
        lemma_no_zero(packet, 0);
    }
}

proof fn lemma_no_zero(packet: Seq<u8>, from: int)
    requires
        0 <= from,
        forall|i: int| 0 <= i < packet.len() ==> #[trigger] packet[i] != 0,
    ensures
        osc::zero_from(packet, from) == packet.len(),
    decreases packet.len() - from,
{
    if from < packet.len() {
        lemma_no_zero(packet, from + 1);
    }
}

} // verus!
