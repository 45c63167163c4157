//! IP addresses: their textual forms and the loopback ranges.
use vstd::prelude::*;
use vstd::string::*;
use crate::text;

verus! {

/// An IP address, as the number that its bytes form.
#[derive(Debug, Clone, Copy, PartialEq, Eq, Structural, Hash)]
pub enum IpAddress {
    V4(u32),
    V6(u128),
}

/// The number that a part of a dotted address writes: one to three digits without a leading
/// zero, at most 255.
pub open spec fn octet(s: Seq<char>) -> Option<nat> {
    if 1 <= s.len() <= 3 && text::all_digits(s) && (s.len() == 1 || s[0] != '0')
        && text::digits_value(s) <= 255 {
        Some(text::digits_value(s))
    } else {
        None
    }
}

/// The address that four dotted parts write.
pub open spec fn dotted(s: Seq<char>) -> Option<nat> {
    let parts = text::pieces(s, seq!['.']);
    if parts.len() == 4 && octet(parts[0]) is Some && octet(parts[1]) is Some && octet(
        parts[2],
    ) is Some && octet(parts[3]) is Some {
        Some(
            octet(parts[0])->0 * 0x100_0000 + octet(parts[1])->0 * 0x1_0000 + octet(parts[2])->0
                * 0x100 + octet(parts[3])->0,
        )
    } else {
        None
    }
}

fn parse_octet(s: &str) -> (r: Option<u32>)
    ensures
        match r {
            Some(n) => octet(s@) == Some(n as nat) && n <= 255,
            None => octet(s@) is None,
        },
{
    let len: usize = s.unicode_len();
    if len < 1 || len > 3 {
        return None;
    }
    let first = s.get_char(0);
    if first == '+' {
        assert(!text::is_digit(s@[0]));
        return None;
    }
    if len > 1 && first == '0' {
        return None;
    }
    match text::parse_unsigned(s, 255) {
        Some(n) => Some(n as u32),
        None => None,
    }
}

fn parse_dotted(s: &str) -> (r: Option<u32>)
    ensures
        match r {
            Some(n) => dotted(s@) == Some(n as nat),
            None => dotted(s@) is None,
        },
{
    let separators = vec!['.'];
    let parts = text::split(s, &separators);
    let ghost views = text::pieces(s@, seq!['.']);
    assert(separators@ =~= seq!['.']);
    assert(text::texts(parts@) == views);
    assert(views.len() == parts@.len());
    if parts.len() != 4 {
        return None;
    }
    assert(views[0] == parts@[0]@ && views[1] == parts@[1]@ && views[2] == parts@[2]@ && views[3]
        == parts@[3]@);
    match (
        parse_octet(parts[0].as_str()),
        parse_octet(parts[1].as_str()),
        parse_octet(parts[2].as_str()),
        parse_octet(parts[3].as_str()),
    ) {
        (Some(a), Some(b), Some(c), Some(d)) => Some(
            a * 0x100_0000 + b * 0x1_0000 + c * 0x100 + d,
        ),
        _ => None,
    }
}

/// The value of a hexadecimal digit.
pub open spec fn hex_digit(c: char) -> Option<int> {
    if '0' <= c <= '9' {
        Some(c as int - 48)
    } else if 'a' <= c <= 'f' {
        Some(c as int - 87)
    } else if 'A' <= c <= 'F' {
        Some(c as int - 55)
    } else {
        None
    }
}

/// The number that hexadecimal digits write.
pub open spec fn hex_value(s: Seq<char>) -> Option<int>
    decreases s.len(),
{
    if s.len() == 0 {
        Some(0)
    } else {
        match (hex_value(s.drop_last()), hex_digit(s.last())) {
            (Some(high), Some(low)) => Some(high * 16 + low),
            _ => None,
        }
    }
}

/// The group that a part between colons writes: one to four hexadecimal digits.
pub open spec fn group(s: Seq<char>) -> Option<u16> {
    if 1 <= s.len() <= 4 {
        match hex_value(s) {
            Some(n) => Some(n as u16),
            None => None,
        }
    } else {
        None
    }
}

/// The groups that parts between colons write.
pub open spec fn groups(parts: Seq<Seq<char>>) -> Option<Seq<u16>>
    decreases parts.len(),
{
    if parts.len() == 0 {
        Some(Seq::empty())
    } else {
        match (groups(parts.drop_last()), group(parts.last())) {
            (Some(before), Some(n)) => Some(before.push(n)),
            _ => None,
        }
    }
}

/// The groups of a run of parts joined by colons. The last part may be a dotted address, which
/// stands for two groups, where `dotted_end` allows it. An empty run has no groups.
pub open spec fn run_groups(s: Seq<char>, dotted_end: bool) -> Option<Seq<u16>> {
    if s.len() == 0 {
        Some(Seq::empty())
    } else {
        let parts = text::pieces(s, seq![':']);
        match groups(parts.drop_last()) {
            None => None,
            Some(before) => match group(parts.last()) {
                Some(n) => Some(before.push(n)),
                None => match dotted(parts.last()) {
                    Some(n) => if dotted_end {
                        Some(before.push((n / 0x1_0000) as u16).push((n % 0x1_0000) as u16))
                    } else {
                        None
                    },
                    None => None,
                },
            },
        }
    }
}

/// The number that eight groups form.
pub open spec fn groups_value(g: Seq<u16>) -> int {
    g[0] * 0x1_0000_0000_0000_0000_0000_0000_0000 + g[1] * 0x1_0000_0000_0000_0000_0000_0000
        + g[2] * 0x1_0000_0000_0000_0000_0000 + g[3] * 0x1_0000_0000_0000_0000 + g[4]
        * 0x1_0000_0000_0000 + g[5] * 0x1_0000_0000 + g[6] * 0x1_0000 + g[7]
}

/// The address that groups between colons write. Two colons in a row, once at most, stand for as
/// many zero groups as are missing, one at least.
pub open spec fn colon_groups(s: Seq<char>) -> Option<Seq<u16>> {
    match text::find_text(s, "::"@) {
        None => match run_groups(s, true) {
            Some(all) => if all.len() == 8 {
                Some(all)
            } else {
                None
            },
            None => None,
        },
        Some(i) => match (run_groups(s.take(i), false), run_groups(s.skip(i + 2), true)) {
            (Some(head), Some(tail)) => if head.len() + tail.len() <= 7 {
                Some(
                    head + Seq::new((8 - head.len() - tail.len()) as nat, |k: int| 0u16) + tail,
                )
            } else {
                None
            },
            _ => None,
        },
    }
}

/// The address that a text writes.
pub open spec fn ip_address(s: Seq<char>) -> Option<IpAddress> {
    match dotted(s) {
        Some(n) => Some(IpAddress::V4(n as u32)),
        None => match colon_groups(s) {
            Some(g) => Some(IpAddress::V6(groups_value(g) as u128)),
            None => None,
        },
    }
}

fn parse_hex_digit(c: char) -> (r: Option<u32>)
    ensures
        match r {
            Some(n) => hex_digit(c) == Some(n as int) && n < 16,
            None => hex_digit(c) is None,
        },
{
    if '0' <= c && c <= '9' {
        Some(c as u32 - 48)
    } else if 'a' <= c && c <= 'f' {
        Some(c as u32 - 87)
    } else if 'A' <= c && c <= 'F' {
        Some(c as u32 - 55)
    } else {
        None
    }
}

proof fn lemma_hex_fail(s: Seq<char>, n: int)
    requires
        0 <= n <= s.len(),
        hex_value(s.take(n)) is None,
    ensures
        hex_value(s) is None,
    decreases s.len(),
{
    if n < s.len() {
        assert(s.drop_last().take(n) =~= s.take(n));
        lemma_hex_fail(s.drop_last(), n);
    } else {
        assert(s.take(n) =~= s);
    }
}

fn parse_group(s: &str) -> (r: Option<u16>)
    ensures
        r == group(s@),
{
    let chars = text::chars_of(s);
    if chars.len() < 1 || chars.len() > 4 {
        return None;
    }
    let mut value: u32 = 0;
    let mut limit: u32 = 1;
    let mut i: usize = 0;
    assert(s@.take(0) =~= Seq::empty());
    while i < chars.len()
        invariant
            i <= chars@.len() <= 4,
            chars@ == s@,
            hex_value(s@.take(i as int)) == Some(value as int),
            value < limit,
            i == 0 ==> limit == 1,
            i == 1 ==> limit == 16,
            i == 2 ==> limit == 256,
            i == 3 ==> limit == 4096,
            i == 4 ==> limit == 65536,
        decreases chars@.len() - i,
    {
        assert(s@.take(i + 1).drop_last() =~= s@.take(i as int));
        match parse_hex_digit(chars[i]) {
            Some(n) => {
                value = value * 16 + n;
                limit = limit * 16;
            },
            None => {
                proof {
                    lemma_hex_fail(s@, i + 1);
                }
                return None;
            },
        }
        i += 1;
    }
    assert(s@.take(i as int) =~= s@);
    Some(value as u16)
}

proof fn lemma_groups_fail(parts: Seq<Seq<char>>, n: int)
    requires
        0 <= n <= parts.len(),
        groups(parts.take(n)) is None,
    ensures
        groups(parts) is None,
    decreases parts.len(),
{
    if n < parts.len() {
        assert(parts.drop_last().take(n) =~= parts.take(n));
        lemma_groups_fail(parts.drop_last(), n);
    } else {
        assert(parts.take(n) =~= parts);
    }
}

fn parse_run(s: &str, dotted_end: bool) -> (r: Option<Vec<u16>>)
    ensures
        match r {
            Some(g) => run_groups(s@, dotted_end) == Some(g@),
            None => run_groups(s@, dotted_end) is None,
        },
{
    let mut out: Vec<u16> = Vec::new();
    if s.unicode_len() == 0 {
        return Some(out);
    }
    let separators = vec![':'];
    let parts = text::split(s, &separators);
    let ghost views = text::pieces(s@, seq![':']);
    assert(separators@ =~= seq![':']);
    assert(text::texts(parts@) == views);
    proof {
        text::lemma_pieces_nonempty(s@, seq![':']);
    }
    let last: usize = parts.len() - 1;
    let ghost front = views.drop_last();
    let mut i: usize = 0;
    assert(front.take(0) =~= Seq::empty());
    while i < last
        invariant
            i <= last,
            last == parts@.len() - 1,
            s@.len() > 0,
            text::texts(parts@) == views,
            views == text::pieces(s@, seq![':']),
            front == views.drop_last(),
            groups(front.take(i as int)) == Some(out@),
        decreases last - i,
    {
        assert(front.take(i + 1).drop_last() =~= front.take(i as int));
        assert(front.take(i + 1).last() == parts@[i as int]@);
        match parse_group(parts[i].as_str()) {
            Some(n) => {
                out.push(n);
            },
            None => {
                proof {
                    lemma_groups_fail(front, i + 1);
                }
                return None;
            },
        }
        i += 1;
    }
    assert(front.take(i as int) =~= front);
    assert(views.last() == parts@[last as int]@);
    match parse_group(parts[last].as_str()) {
        Some(n) => {
            out.push(n);
            Some(out)
        },
        None => match parse_dotted(parts[last].as_str()) {
            Some(n) => {
                if dotted_end {
                    out.push((n / 0x1_0000) as u16);
                    out.push((n % 0x1_0000) as u16);
                    Some(out)
                } else {
                    None
                }
            },
            None => None,
        },
    }
}

fn parse_colon_groups(s: &str) -> (r: Option<Vec<u16>>)
    ensures
        match r {
            Some(g) => colon_groups(s@) == Some(g@) && g@.len() == 8,
            None => colon_groups(s@) is None,
        },
{
    proof {
        reveal_strlit("::");
        assert("::"@.len() == 2);
    }
    let total: usize = s.unicode_len();
    match text::find(s, "::") {
        None => match parse_run(s, true) {
            Some(all) => {
                if all.len() == 8 {
                    Some(all)
                } else {
                    None
                }
            },
            None => None,
        },
        Some(i) => {
            assert(i + 2 <= total);
            let head = parse_run(text::take_chars(s, i), false);
            let tail = parse_run(text::skip_chars(s, i + 2), true);
            match (head, tail) {
                (Some(head), Some(tail)) => {
                    if head.len() > 7 || tail.len() > 7 - head.len() {
                        return None;
                    }
                    let ghost h = head@;
                    let ghost t = tail@;
                    let ghost zeros = Seq::new((8 - h.len() - t.len()) as nat, |k: int| 0u16);
                    let mut all = head;
                    let mut rest = tail;
                    let missing: usize = 8 - all.len() - rest.len();
                    let mut k: usize = 0;
                    assert(zeros.take(0) =~= Seq::empty());
                    while k < missing
                        invariant
                            k <= missing,
                            missing == zeros.len(),
                            forall|j: int| 0 <= j < zeros.len() ==> #[trigger] zeros[j] == 0u16,
                            all@ == h + zeros.take(k as int),
                        decreases missing - k,
                    {
                        all.push(0);
                        k += 1;
                        assert(all@ =~= h + zeros.take(k as int));
                    }
                    assert(zeros.take(k as int) =~= zeros);
                    all.append(&mut rest);
                    assert(all@ =~= h + zeros + t);
                    Some(all)
                },
                _ => None,
            }
        },
    }
}

/// Parses an IP address.
pub fn parse_ip(s: &str) -> (r: Option<IpAddress>)
    ensures
        r == ip_address(s@),
{
    match parse_dotted(s) {
        Some(n) => Some(IpAddress::V4(n)),
        None => match parse_colon_groups(s) {
            Some(g) => Some(
                IpAddress::V6(
                    g[0] as u128 * 0x1_0000_0000_0000_0000_0000_0000_0000 + g[1] as u128
                        * 0x1_0000_0000_0000_0000_0000_0000 + g[2] as u128
                        * 0x1_0000_0000_0000_0000_0000 + g[3] as u128 * 0x1_0000_0000_0000_0000
                        + g[4] as u128 * 0x1_0000_0000_0000 + g[5] as u128 * 0x1_0000_0000
                        + g[6] as u128 * 0x1_0000 + g[7] as u128,
                ),
            ),
            None => None,
        },
    }
}

/// The address is one of `127.0.0.0/8`, or `::1`.
pub open spec fn loopback(ip: IpAddress) -> bool {
    match ip {
        IpAddress::V4(n) => n / 0x100_0000u32 == 127,
        IpAddress::V6(n) => n == 1,
    }
}

/// Whether an address is a loopback address.
pub fn is_loopback(ip: IpAddress) -> (r: bool)
    ensures
        r == loopback(ip),
{
    match ip {
        IpAddress::V4(n) => n / 0x100_0000 == 127,
        IpAddress::V6(n) => n == 1,
    }
}

/// The host is `localhost`, in any case, or a loopback address.
pub open spec fn loopback_host(host: Seq<char>) -> bool {
    let s = text::trimmed(host);
    ||| text::lower_text(s) == text::lower_text("localhost"@)
    ||| ip_address(s) is Some && loopback(ip_address(s)->0)
}

/// Whether a host is `localhost` or a loopback address.
pub fn is_loopback_host(host: &str) -> (r: bool)
    ensures
        r == loopback_host(host@),
{
    let trimmed = text::trim(host);
    if text::same_text_ignore_case(trimmed, "localhost") {
        return true;
    }
    match parse_ip(trimmed) {
        Some(ip) => is_loopback(ip),
        None => false,
    }
}

} // verus!
