//! OSC packets: messages and bundles of messages, read from bytes.
use vstd::prelude::*;
use vstd::slice::*;
use crate::float;
use crate::float::FloatBits;
use crate::text;

verus! {

/// An argument of an OSC message. A float is kept by its bits.
#[derive(Debug, PartialEq, Eq)]
pub enum OscArg {
    Int(i32),
    Float(u32),
    Bool(bool),
    Str(String),
}

/// The model of an argument.
pub enum ArgModel {
    Int(i32),
    Float(u32),
    Bool(bool),
    Str(Seq<char>),
}

impl View for OscArg {
    type V = ArgModel;

    open spec fn view(&self) -> ArgModel {
        match *self {
            OscArg::Int(n) => ArgModel::Int(n),
            OscArg::Float(bits) => ArgModel::Float(bits),
            OscArg::Bool(flag) => ArgModel::Bool(flag),
            OscArg::Str(s) => ArgModel::Str(s@),
        }
    }
}

/// The models of a list of arguments.
pub open spec fn arg_models(args: Seq<OscArg>) -> Seq<ArgModel> {
    Seq::new(args.len(), |i: int| args[i]@)
}

/// An OSC message.
#[derive(Debug, PartialEq, Eq)]
pub struct OscMessage {
    pub address: String,
    pub args: Vec<OscArg>,
    pub arg_type: Option<char>,
    pub arg_types: String,
}

/// The model of a message.
#[verifier::ext_equal]
pub struct MessageModel {
    pub address: Seq<char>,
    pub args: Seq<ArgModel>,
    pub arg_type: Option<char>,
    pub arg_types: Seq<char>,
}

impl View for OscMessage {
    type V = MessageModel;

    open spec fn view(&self) -> MessageModel {
        MessageModel {
            address: self.address@,
            args: arg_models(self.args@),
            arg_type: self.arg_type,
            arg_types: self.arg_types@,
        }
    }
}

/// The models of a list of messages.
pub open spec fn message_models(messages: Seq<OscMessage>) -> Seq<MessageModel> {
    Seq::new(messages.len(), |i: int| messages[i]@)
}

/// The next multiple of four.
pub open spec fn aligned(n: int) -> int {
    (n + 3) / 4 * 4
}

/// The place of the first zero byte at or behind `from`; the packet's length where there is none.
pub open spec fn zero_from(packet: Seq<u8>, from: int) -> int
    decreases packet.len() - from,
{
    if from >= packet.len() {
        packet.len() as int
    } else if packet[from] == 0 {
        from
    } else {
        zero_from(packet, from + 1)
    }
}

/// The string that starts at a place in the packet, and the place behind its padding.
pub open spec fn string_at(packet: Seq<u8>, offset: int) -> Option<(Seq<char>, int)> {
    let end = zero_from(packet, offset);
    if end >= packet.len() || aligned(end + 1) > packet.len() {
        None
    } else {
        Some((text::bytes_text(packet.subrange(offset, end)), aligned(end + 1)))
    }
}

/// Reads the string that starts at a place in the packet.
fn read_osc_string(packet: &[u8], offset: usize) -> (r: Option<(String, usize)>)
    requires
        offset <= packet@.len(),
    ensures
        match r {
            Some((s, next)) => string_at(packet@, offset as int) == Some((s@, next as int)) && offset
                < next <= packet@.len(),
            None => string_at(packet@, offset as int) is None,
        },
{
    let len: usize = packet.len();
    let mut cursor: usize = offset;
    while cursor < len && packet[cursor] != 0
        invariant
            len == packet@.len(),
            offset <= cursor <= len,
            zero_from(packet@, offset as int) == zero_from(packet@, cursor as int),
        decreases len - cursor,
    {
        cursor += 1;
    }
    if cursor >= len {
        return None;
    }
    let value = text::decode_lossy(slice_subrange(packet, offset, cursor));
    let past: usize = cursor + 1;
    let excess: usize = past % 4;
    let padding: usize = if excess == 0 {
        0
    } else {
        4 - excess
    };
    assert(aligned(past as int) == past + padding);
    if padding > len - past {
        return None;
    }
    Some((value, past + padding))
}

/// The unsigned number in the four bytes at a place, most significant first.
pub open spec fn unsigned_at(packet: Seq<u8>, offset: int) -> int {
    packet[offset] * 0x100_0000 + packet[offset + 1] * 0x1_0000 + packet[offset + 2] * 0x100
        + packet[offset + 3]
}

/// The two's complement number in the four bytes at a place, most significant first.
pub open spec fn signed_at(packet: Seq<u8>, offset: int) -> int {
    let n = unsigned_at(packet, offset);
    if n >= 0x8000_0000 {
        n - 0x1_0000_0000
    } else {
        n
    }
}

fn read_u32_be(packet: &[u8], offset: usize) -> (r: u32)
    requires
        offset + 4 <= packet@.len(),
    ensures
        r == unsigned_at(packet@, offset as int),
{
    packet[offset] as u32 * 0x100_0000 + packet[offset + 1] as u32 * 0x1_0000 + packet[offset
        + 2] as u32 * 0x100 + packet[offset + 3] as u32
}

fn read_i32_be(packet: &[u8], offset: usize) -> (r: i32)
    requires
        offset + 4 <= packet@.len(),
    ensures
        r == signed_at(packet@, offset as int),
{
    let n: u32 = read_u32_be(packet, offset);
    if n >= 0x8000_0000 {
        (n as i64 - 0x1_0000_0000) as i32
    } else {
        n as i32
    }
}

/// The argument with the given type tag at a place, and the place behind it.
pub open spec fn arg_at(packet: Seq<u8>, tag: char, cursor: int) -> Option<(ArgModel, int)> {
    if tag == 'i' {
        if cursor + 4 > packet.len() {
            None
        } else {
            Some((ArgModel::Int(signed_at(packet, cursor) as i32), cursor + 4))
        }
    } else if tag == 'f' {
        if cursor + 4 > packet.len() {
            None
        } else {
            Some((ArgModel::Float(unsigned_at(packet, cursor) as u32), cursor + 4))
        }
    } else if tag == 'T' {
        Some((ArgModel::Bool(true), cursor))
    } else if tag == 'F' {
        Some((ArgModel::Bool(false), cursor))
    } else if tag == 's' {
        match string_at(packet, cursor) {
            Some((s, next)) => Some((ArgModel::Str(s), next)),
            None => None,
        }
    } else {
        None
    }
}

/// The arguments with the given type tags from a place on, and the place behind them; nothing
/// where a tag is not supported or the packet ends too early.
pub open spec fn args_at(packet: Seq<u8>, tags: Seq<char>, cursor: int) -> Option<
    (Seq<ArgModel>, int),
>
    decreases tags.len(),
{
    if tags.len() == 0 {
        Some((Seq::empty(), cursor))
    } else {
        match args_at(packet, tags.drop_last(), cursor) {
            None => None,
            Some((args, next)) => match arg_at(packet, tags.last(), next) {
                None => None,
                Some((arg, end)) => Some((args.push(arg), end)),
            },
        }
    }
}

proof fn lemma_args_fail(packet: Seq<u8>, tags: Seq<char>, cursor: int, n: int)
    requires
        0 <= n <= tags.len(),
        args_at(packet, tags.take(n), cursor) is None,
    ensures
        args_at(packet, tags, cursor) is None,
    decreases tags.len(),
{
    if n < tags.len() {
        assert(tags.drop_last().take(n) =~= tags.take(n));
        lemma_args_fail(packet, tags.drop_last(), cursor, n);
    } else {
        assert(tags.take(n) =~= tags);
    }
}

/// The message that a packet is: an address, a type tag string that starts with a comma, and the
/// arguments that the tags announce.
pub open spec fn message_in(packet: Seq<u8>) -> Option<MessageModel> {
    match string_at(packet, 0) {
        None => None,
        Some((address, tags_start)) => match string_at(packet, tags_start) {
            None => None,
            Some((tag_text, args_start)) => if !text::begins_with(tag_text, ',') {
                None
            } else {
                let tags = tag_text.skip(1);
                match args_at(packet, tags, args_start) {
                    None => None,
                    Some((args, _)) => Some(
                        MessageModel {
                            address,
                            args,
                            arg_type: if tags.len() > 0 {
                                Some(tags[0])
                            } else {
                                None
                            },
                            arg_types: tags,
                        },
                    ),
                }
            },
        },
    }
}

/// Reads one argument.
fn read_arg(packet: &[u8], tag: char, cursor: usize) -> (r: Option<(OscArg, usize)>)
    requires
        cursor <= packet@.len(),
    ensures
        match r {
            Some((arg, next)) => arg_at(packet@, tag, cursor as int) == Some((arg@, next as int))
                && next <= packet@.len(),
            None => arg_at(packet@, tag, cursor as int) is None,
        },
{
    let len: usize = packet.len();
    if tag == 'i' {
        if len - cursor < 4 {
            return None;
        }
        Some((OscArg::Int(read_i32_be(packet, cursor)), cursor + 4))
    } else if tag == 'f' {
        if len - cursor < 4 {
            return None;
        }
        Some((OscArg::Float(read_u32_be(packet, cursor)), cursor + 4))
    } else if tag == 'T' {
        Some((OscArg::Bool(true), cursor))
    } else if tag == 'F' {
        Some((OscArg::Bool(false), cursor))
    } else if tag == 's' {
        match read_osc_string(packet, cursor) {
            Some((s, next)) => Some((OscArg::Str(s), next)),
            None => None,
        }
    } else {
        None
    }
}

/// Reads a message.
fn parse_osc_message(packet: &[u8]) -> (r: Option<OscMessage>)
    ensures
        match r {
            Some(message) => message_in(packet@) == Some(message@),
            None => message_in(packet@) is None,
        },
{
    let (address, tags_start) = match read_osc_string(packet, 0) {
        Some(found) => found,
        None => {
            return None;
        },
    };
    let (tag_text, args_start) = match read_osc_string(packet, tags_start) {
        Some(found) => found,
        None => {
            return None;
        },
    };
    if !text::starts_with_char(tag_text.as_str(), ',') {
        return None;
    }
    let arg_types = text::skip_chars(tag_text.as_str(), 1).to_owned();
    let tags = text::chars_of(arg_types.as_str());
    let mut args: Vec<OscArg> = Vec::new();
    let mut cursor: usize = args_start;
    let mut i: usize = 0;
    assert(tags@.take(0) =~= Seq::empty());
    assert(arg_models(args@) =~= Seq::empty());
    while i < tags.len()
        invariant
            i <= tags@.len(),
            cursor <= packet@.len(),
            tags@ == arg_types@,
            tags@ == tag_text@.skip(1),
            string_at(packet@, 0) == Some((address@, tags_start as int)),
            string_at(packet@, tags_start as int) == Some((tag_text@, args_start as int)),
            text::begins_with(tag_text@, ','),
            args_at(packet@, tags@.take(i as int), args_start as int) == Some(
                (arg_models(args@), cursor as int),
            ),
        decreases tags@.len() - i,
    {
        assert(tags@.take(i + 1).drop_last() =~= tags@.take(i as int));
        match read_arg(packet, tags[i], cursor) {
            Some((arg, next)) => {
                let ghost before = arg_models(args@);
                args.push(arg);
                assert(arg_models(args@) =~= before.push(arg@));
                cursor = next;
            },
            None => {
                proof {
                    lemma_args_fail(packet@, tags@, args_start as int, i + 1);
                }
                return None;
            },
        }
        i += 1;
    }
    assert(tags@.take(i as int) =~= tags@);
    let arg_type = if tags.len() > 0 {
        Some(tags[0])
    } else {
        None
    };
    Some(OscMessage { address, args, arg_type, arg_types })
}

/// The address that marks a bundle.
pub open spec fn bundle_marker() -> Seq<char> {
    "#bundle"@
}

/// A chunk of a bundle starts at the place: its size is positive and the packet holds it whole.
pub open spec fn chunk_fits(packet: Seq<u8>, cursor: int) -> bool {
    &&& cursor + 4 <= packet.len()
    &&& 0 < signed_at(packet, cursor)
    &&& cursor + 4 + signed_at(packet, cursor) <= packet.len()
}

/// The messages of the chunks from a place on, up to the first chunk that does not fit.
pub open spec fn chunk_messages(packet: Seq<u8>, cursor: int) -> Seq<MessageModel>
    decreases packet.len(), packet.len() - cursor,
{
    if cursor < 0 || !chunk_fits(packet, cursor) {
        Seq::empty()
    } else {
        let start = cursor + 4;
        let end = start + signed_at(packet, cursor);
        packet_messages(packet.subrange(start, end)) + chunk_messages(packet, end)
    }
}

/// The messages of a packet: those of its chunks where it is a bundle, or else the one message
/// that it is.
pub open spec fn packet_messages(packet: Seq<u8>) -> Seq<MessageModel>
    decreases packet.len(), packet.len() + 1,
{
    match string_at(packet, 0) {
        None => Seq::empty(),
        Some((address, next)) => if address != bundle_marker() {
            match message_in(packet) {
                Some(message) => seq![message],
                None => Seq::empty(),
            }
        } else if next < 0 || next + 8 > packet.len() {
            Seq::empty()
        } else {
            chunk_messages(packet, next + 8)
        },
    }
}

/// Reads a packet.
pub fn parse_osc_packet(packet: &[u8]) -> (r: Vec<OscMessage>)
    ensures
        message_models(r@) == packet_messages(packet@),
    decreases packet@.len(),
{
    let mut messages: Vec<OscMessage> = Vec::new();
    assert(message_models(messages@) =~= Seq::empty());
    let (first, next) = match read_osc_string(packet, 0) {
        Some(found) => found,
        None => {
            return messages;
        },
    };
    if !text::same_text(first.as_str(), "#bundle") {
        if let Some(message) = parse_osc_message(packet) {
            messages.push(message);
            assert(message_models(messages@) =~= seq![message@]);
        }
        return messages;
    }
    let len: usize = packet.len();
    if len - next < 8 {
        return messages;
    }
    let mut cursor: usize = next + 8;
    let ghost whole = chunk_messages(packet@, cursor as int);
    assert(message_models(messages@) + whole =~= whole);
    while len - cursor >= 4
        invariant
            len == packet@.len(),
            cursor <= len,
            packet_messages(packet@) == whole,
            message_models(messages@) + chunk_messages(packet@, cursor as int) == whole,
        ensures
            !chunk_fits(packet@, cursor as int),
        decreases len - cursor,
    {
        let size: i32 = read_i32_be(packet, cursor);
        if size <= 0 || (size as usize) > len - cursor - 4 {
            break;
        }
        let start: usize = cursor + 4;
        let end: usize = start + size as usize;
        let ghost before = message_models(messages@);
        let mut chunk = parse_osc_packet(slice_subrange(packet, start, end));
        let ghost read = message_models(chunk@);
        messages.append(&mut chunk);
        proof {
            assert(message_models(messages@) =~= before + read);
            assert((before + read) + chunk_messages(packet@, end as int) =~= before + (read
                + chunk_messages(packet@, end as int)));
        }
        cursor = end;
    }
    assert(message_models(messages@) + Seq::<MessageModel>::empty() =~= message_models(messages@));
    messages
}

/// A number that an argument carries. A float is kept by its bits.
#[derive(Debug, Clone, Copy, PartialEq, Eq, Structural)]
pub enum OscNumber {
    Int(i32),
    Float(u32),
    Bool(bool),
}

/// What a truth value counts as: one where it is true, else zero.
pub open spec fn truth_number(number: OscNumber) -> Option<FloatBits> {
    match number {
        OscNumber::Bool(flag) => Some(
            if flag {
                float::number(float::ONE)
            } else {
                float::number(0)
            },
        ),
        _ => None,
    }
}

impl OscNumber {
    /// What a truth value counts as.
    pub fn truth_value(&self) -> (r: Option<FloatBits>)
        ensures
            r == truth_number(*self),
    {
        match *self {
            OscNumber::Bool(flag) => Some(
                if flag {
                    float::from_bits(float::ONE)
                } else {
                    float::from_bits(0)
                },
            ),
            _ => None,
        }
    }
}

/// A binary32 number, given by its bits, is neither infinite nor a NaN.
pub open spec fn single_finite(bits: u32) -> bool {
    bits % 0x8000_0000u32 < 0x7F80_0000
}

/// The number that an argument carries, if it carries one: an integer, a finite float or a
/// truth value.
pub open spec fn arg_number(arg: ArgModel) -> Option<OscNumber> {
    match arg {
        ArgModel::Int(n) => Some(OscNumber::Int(n)),
        ArgModel::Float(bits) => if single_finite(bits) {
            Some(OscNumber::Float(bits))
        } else {
            None
        },
        ArgModel::Bool(flag) => Some(OscNumber::Bool(flag)),
        ArgModel::Str(_) => None,
    }
}

/// The number of the first argument that carries one.
pub open spec fn first_number(args: Seq<ArgModel>) -> Option<OscNumber>
    decreases args.len(),
{
    if args.len() == 0 {
        None
    } else if arg_number(args[0]) is Some {
        arg_number(args[0])
    } else {
        first_number(args.drop_first())
    }
}

/// The number of the first argument that carries one.
pub fn extract_numeric_arg(args: &Vec<OscArg>) -> (r: Option<OscNumber>)
    ensures
        r == first_number(arg_models(args@)),
{
    let mut i: usize = 0;
    let ghost all = arg_models(args@);
    assert(all.skip(0) =~= all);
    while i < args.len()
        invariant
            i <= args@.len(),
            all == arg_models(args@),
            first_number(all) == first_number(all.skip(i as int)),
        decreases args@.len() - i,
    {
        assert(all.skip(i as int)[0] == args@[i as int]@);
        assert(all.skip(i as int).drop_first() =~= all.skip(i + 1));
        match &args[i] {
            OscArg::Int(n) => {
                return Some(OscNumber::Int(*n));
            },
            OscArg::Float(bits) => {
                if *bits % 0x8000_0000 < 0x7F80_0000 {
                    return Some(OscNumber::Float(*bits));
                }
            },
            OscArg::Bool(flag) => {
                return Some(OscNumber::Bool(*flag));
            },
            OscArg::Str(_) => {},
        }
        i += 1;
    }
    None
}

} // verus!
