//! The canonical texts of IP addresses, which read back as the addresses they were made from.
use vstd::prelude::*;
use vstd::string::*;
use crate::ip;
use crate::ip::IpAddress;
use crate::text;

verus! {

/// The notation of a hexadecimal digit.
pub open spec fn hex_char(d: int) -> char {
    if d < 10 {
        (48 + d) as char
    } else {
        (87 + d) as char
    }
}

/// The hexadecimal notation of a number.
pub open spec fn hex_text(n: nat) -> Seq<char>
    decreases n,
{
    if n < 16 {
        seq![hex_char(n as int)]
    } else {
        hex_text(n / 16).push(hex_char((n % 16) as int))
    }
}

/// The four numbers of a dotted address.
pub open spec fn octets(n: u32) -> Seq<Seq<char>> {
    seq![
        text::decimal_text((n / 0x100_0000) as nat),
        text::decimal_text((n / 0x1_0000 % 0x100) as nat),
        text::decimal_text((n / 0x100 % 0x100) as nat),
        text::decimal_text((n % 0x100) as nat),
    ]
}

/// The text of an IPv4 address.
pub open spec fn v4_text(n: u32) -> Seq<char> {
    text::joined(octets(n), "."@)
}

/// The eight groups of an IPv6 address.
pub open spec fn segments(n: u128) -> Seq<u16> {
    seq![
        (n / 0x1_0000_0000_0000_0000_0000_0000_0000 % 0x1_0000) as u16,
        (n / 0x1_0000_0000_0000_0000_0000_0000 % 0x1_0000) as u16,
        (n / 0x1_0000_0000_0000_0000_0000 % 0x1_0000) as u16,
        (n / 0x1_0000_0000_0000_0000 % 0x1_0000) as u16,
        (n / 0x1_0000_0000_0000 % 0x1_0000) as u16,
        (n / 0x1_0000_0000 % 0x1_0000) as u16,
        (n / 0x1_0000 % 0x1_0000) as u16,
        (n % 0x1_0000) as u16,
    ]
}

/// How many zero groups end before a place.
pub open spec fn zeros_before(g: Seq<u16>, end: int) -> int
    decreases end,
{
    if end <= 0 || g[end - 1] != 0 {
        0
    } else {
        zeros_before(g, end - 1) + 1
    }
}

/// The first of the longest runs of zero groups before a place: its start and its length.
pub open spec fn longest_run(g: Seq<u16>, end: int) -> (int, int)
    decreases end,
{
    if end <= 0 {
        (0, 0)
    } else {
        let (start, len) = longest_run(g, end - 1);
        let here = zeros_before(g, end);
        if here > len {
            (end - here, here)
        } else {
            (start, len)
        }
    }
}

/// The texts of groups.
pub open spec fn group_texts(g: Seq<u16>) -> Seq<Seq<char>> {
    Seq::new(g.len(), |i: int| hex_text(g[i] as nat))
}

/// Groups between colons.
pub open spec fn groups_text(g: Seq<u16>) -> Seq<char> {
    text::joined(group_texts(g), ":"@)
}

/// The address stands for an IPv4 address.
pub open spec fn maps_v4(n: u128) -> bool {
    n / 0x1_0000_0000 == 0xFFFF
}

/// The text of an IPv6 address: one that stands for an IPv4 address ends in its text, and the
/// first of the longest runs of two or more zero groups is left out.
pub open spec fn v6_text(n: u128) -> Seq<char> {
    let g = segments(n);
    let (start, len) = longest_run(g, 8);
    if maps_v4(n) {
        "::ffff:"@ + v4_text((n % 0x1_0000_0000) as u32)
    } else if len > 1 {
        groups_text(g.take(start)) + "::"@ + groups_text(g.skip(start + len))
    } else {
        groups_text(g)
    }
}

/// The text of an address.
pub open spec fn ip_text(address: IpAddress) -> Seq<char> {
    match address {
        IpAddress::V4(n) => v4_text(n),
        IpAddress::V6(n) => v6_text(n),
    }
}

fn hex_digit_char(d: u16) -> (r: char)
    requires
        d < 16,
    ensures
        r == hex_char(d as int),
{
    if d < 10 {
        (48u8 + d as u8) as char
    } else {
        (87u8 + d as u8) as char
    }
}

fn write_hex(n: u16) -> (r: String)
    ensures
        r@ == hex_text(n as nat),
    decreases n,
{
    let digit = hex_digit_char(n % 16);
    let mut out = if n < 16 {
        String::new()
    } else {
        write_hex(n / 16)
    };
    out.push(digit);
    assert(n < 16 ==> out@ =~= seq![digit]);
    out
}

fn write_v4(n: u32) -> (r: String)
    ensures
        r@ == v4_text(n),
{
    let mut parts: Vec<String> = Vec::new();
    parts.push(text::decimal((n / 0x100_0000) as u64));
    parts.push(text::decimal((n / 0x1_0000 % 0x100) as u64));
    parts.push(text::decimal((n / 0x100 % 0x100) as u64));
    parts.push(text::decimal((n % 0x100) as u64));
    assert(text::texts(parts@) =~= octets(n));
    text::join(&parts, ".")
}

fn write_groups(g: &Vec<u16>, from: usize, to: usize) -> (r: String)
    requires
        from <= to <= g@.len(),
    ensures
        r@ == groups_text(g@.subrange(from as int, to as int)),
{
    let ghost part = g@.subrange(from as int, to as int);
    let ghost wanted = group_texts(part);
    let mut parts: Vec<String> = Vec::new();
    let mut i: usize = from;
    assert(text::texts(parts@) =~= wanted.take(0));
    while i < to
        invariant
            from <= i <= to <= g@.len(),
            part == g@.subrange(from as int, to as int),
            wanted == group_texts(part),
            text::texts(parts@) == wanted.take(i - from),
        decreases to - i,
    {
        let item = write_hex(g[i]);
        assert(part[i - from] == g@[i as int]);
        proof {
            text::lemma_texts_push(parts@, item);
        }
        parts.push(item);
        i += 1;
        assert(text::texts(parts@) =~= wanted.take(i - from));
    }
    assert(wanted.take(i - from) =~= wanted);
    text::join(&parts, ":")
}

fn find_longest_run(g: &Vec<u16>) -> (r: (usize, usize))
    requires
        g@.len() == 8,
    ensures
        (r.0 as int, r.1 as int) == longest_run(g@, 8),
        r.0 + r.1 <= 8,
{
    let mut start: usize = 0;
    let mut len: usize = 0;
    let mut here: usize = 0;
    let mut i: usize = 0;
    while i < 8
        invariant
            i <= 8,
            g@.len() == 8,
            (start as int, len as int) == longest_run(g@, i as int),
            start + len <= i,
            here == zeros_before(g@, i as int),
            here <= i,
        decreases 8 - i,
    {
        if g[i] == 0 {
            here += 1;
        } else {
            here = 0;
        }
        i += 1;
        if here > len {
            start = i - here;
            len = here;
        }
    }
    (start, len)
}

fn write_v6(n: u128) -> (r: String)
    ensures
        r@ == v6_text(n),
{
    if n / 0x1_0000_0000 == 0xFFFF {
        let mapped = write_v4((n % 0x1_0000_0000) as u32);
        return text::concat2("::ffff:", mapped.as_str());
    }
    let g: Vec<u16> = vec![
        (n / 0x1_0000_0000_0000_0000_0000_0000_0000 % 0x1_0000) as u16,
        (n / 0x1_0000_0000_0000_0000_0000_0000 % 0x1_0000) as u16,
        (n / 0x1_0000_0000_0000_0000_0000 % 0x1_0000) as u16,
        (n / 0x1_0000_0000_0000_0000 % 0x1_0000) as u16,
        (n / 0x1_0000_0000_0000 % 0x1_0000) as u16,
        (n / 0x1_0000_0000 % 0x1_0000) as u16,
        (n / 0x1_0000 % 0x1_0000) as u16,
        (n % 0x1_0000) as u16,
    ];
    assert(g@ =~= segments(n));
    let (start, len) = find_longest_run(&g);
    if len > 1 {
        let head = write_groups(&g, 0, start);
        let tail = write_groups(&g, start + len, 8);
        assert(g@.subrange(0, start as int) =~= g@.take(start as int));
        assert(g@.subrange(start + len, 8) =~= g@.skip(start + len));
        return text::concat3(head.as_str(), "::", tail.as_str());
    }
    assert(g@.subrange(0, 8) =~= g@);
    write_groups(&g, 0, 8)
}

/// Writes an address.
pub fn format_ip(address: IpAddress) -> (r: String)
    ensures
        r@ == ip_text(address),
{
    match address {
        IpAddress::V4(n) => write_v4(n),
        IpAddress::V6(n) => write_v6(n),
    }
}

/// The text holds none of the characters.
pub open spec fn free_of(s: Seq<char>, chars: Seq<char>) -> bool {
    forall|i: int| 0 <= i < s.len() ==> !chars.contains(#[trigger] s[i])
}

pub proof fn lemma_pieces_append(a: Seq<char>, b: Seq<char>, separators: Seq<char>)
    requires
        free_of(b, separators),
    ensures
        text::pieces(a, separators).len() > 0,
        text::pieces(a + b, separators) == text::pieces(a, separators).drop_last().push(
            text::pieces(a, separators).last() + b,
        ),
    decreases b.len(),
{
    text::lemma_pieces_nonempty(a, separators);
    let base = text::pieces(a, separators);
    if b.len() == 0 {
        assert(a + b =~= a);
        assert(base.last() + b =~= base.last());
        assert(base.drop_last().push(base.last()) =~= base);
    } else {
        let shorter = b.drop_last();
        assert(free_of(shorter, separators));
        lemma_pieces_append(a, shorter, separators);
        assert((a + b).drop_last() =~= a + shorter);
        assert((a + b).last() == b.last());
        assert(!separators.contains(b[b.len() - 1]));
        let before = text::pieces(a + shorter, separators);
        assert(before.drop_last() =~= base.drop_last());
        assert(before.last() == base.last() + shorter);
        assert((base.last() + shorter).push(b.last()) =~= base.last() + b);
    }
}

/// Splitting what was joined gives the parts back, where they hold no separator.
pub proof fn law_split_joined(parts: Seq<Seq<char>>, separator: char, separators: Seq<char>)
    requires
        parts.len() > 0,
        separators.contains(separator),
        forall|i: int| 0 <= i < parts.len() ==> free_of(#[trigger] parts[i], separators),
    ensures
        text::pieces(text::joined(parts, seq![separator]), separators) == parts,
    decreases parts.len(),
{
    let whole = text::joined(parts, seq![separator]);
    let empty = Seq::<char>::empty();
    if parts.len() == 1 {
        lemma_pieces_append(empty, parts[0], separators);
        assert(empty + parts[0] =~= parts[0]);
        assert(text::pieces(empty, separators) =~= seq![empty]);
        assert(text::pieces(whole, separators) =~= parts);
    } else {
        let front = parts.drop_last();
        let before = text::joined(front, seq![separator]);
        law_split_joined(front, separator, separators);
        let opened = before + seq![separator];
        assert(opened.drop_last() =~= before);
        assert(opened.last() == separator);
        assert(text::pieces(opened, separators) == front.push(empty));
        assert(free_of(parts[parts.len() - 1], separators));
        lemma_pieces_append(opened, parts.last(), separators);
        assert(opened + parts.last() =~= whole);
        assert(front.push(empty).drop_last() =~= front);
        assert(empty + parts.last() =~= parts.last());
        assert(front.push(parts.last()) =~= parts);
    }
}

pub proof fn lemma_decimal(n: nat)
    ensures
        text::decimal_text(n).len() > 0,
        text::all_digits(text::decimal_text(n)),
        text::digits_value(text::decimal_text(n)) == n,
        n >= 10 ==> text::decimal_text(n).len() >= 2,
        n >= 1 ==> text::decimal_text(n)[0] != '0',
        n < 10 ==> text::decimal_text(n).len() == 1,
        n < 100 ==> text::decimal_text(n).len() <= 2,
        n < 1000 ==> text::decimal_text(n).len() <= 3,
    decreases n,
{
    let s = text::decimal_text(n);
    if n < 10 {
        assert(s.drop_last() =~= Seq::empty());
        assert(text::digits_value(s.drop_last()) == 0);
    } else {
        lemma_decimal(n / 10);
        let high = text::decimal_text(n / 10);
        assert(s.drop_last() =~= high);
        assert(s[0] == high[0]);
        assert forall|i: int| 0 <= i < s.len() implies text::is_digit(#[trigger] s[i]) by {
            if i < high.len() {
                assert(s[i] == high[i]);
            }
        }
    }
}

proof fn lemma_octet(n: nat)
    requires
        n <= 255,
    ensures
        ip::octet(text::decimal_text(n)) == Some(n),
        free_of(text::decimal_text(n), seq!['.']),
        free_of(text::decimal_text(n), seq![':']),
        text::decimal_text(n).len() >= 1,
{
    lemma_decimal(n);
    let s = text::decimal_text(n);
    assert forall|i: int| 0 <= i < s.len() implies !seq!['.'].contains(#[trigger] s[i]) by {
        assert(text::is_digit(s[i]));
    }
    assert forall|i: int| 0 <= i < s.len() implies !seq![':'].contains(#[trigger] s[i]) by {
        assert(text::is_digit(s[i]));
    }
}

proof fn lemma_octets_value(n: u32)
    ensures
        (n / 0x100_0000) * 0x100_0000 + (n / 0x1_0000 % 0x100) * 0x1_0000 + (n / 0x100 % 0x100)
            * 0x100 + n % 0x100 == n,
        n / 0x100_0000 <= 255,
{
    let q1 = n / 0x100;
    let q2 = q1 / 0x100;
    let q3 = q2 / 0x100;
    assert(q2 == n / 0x1_0000);
    assert(q3 == n / 0x100_0000);
    assert(n == q1 * 0x100 + n % 0x100);
    assert(q1 == q2 * 0x100 + q1 % 0x100);
    assert(q2 == q3 * 0x100 + q2 % 0x100);
}

#[verifier::spinoff_prover]
#[verifier::rlimit(50)]
proof fn lemma_v4(n: u32)
    ensures
        ip::dotted(v4_text(n)) == Some(n as nat),
        free_of(v4_text(n), seq![':']),
        v4_text(n).len() >= 7,
{
    reveal_strlit(".");
    assert("."@ =~= seq!['.']);
    let parts = octets(n);
    lemma_octet((n / 0x100_0000) as nat);
    lemma_octet((n / 0x1_0000 % 0x100) as nat);
    lemma_octet((n / 0x100 % 0x100) as nat);
    lemma_octet((n % 0x100) as nat);
    assert forall|i: int| 0 <= i < parts.len() implies free_of(#[trigger] parts[i], seq!['.']) by {}
    assert(seq!['.'].contains('.')) by {
        assert(seq!['.'][0] == '.');
    }
    law_split_joined(parts, '.', seq!['.']);
    assert(text::pieces(v4_text(n), seq!['.']) == parts);
    lemma_octets_value(n);
    lemma_joined4(parts[0], parts[1], parts[2], parts[3]);
}

proof fn lemma_joined4(a: Seq<char>, b: Seq<char>, c: Seq<char>, d: Seq<char>)
    ensures
        text::joined(seq![a, b, c, d], "."@) == a + "."@ + b + "."@ + c + "."@ + d,
{
    let all = seq![a, b, c, d];
    let three = seq![a, b, c];
    let two = seq![a, b];
    let one = seq![a];
    assert(all.drop_last() =~= three);
    assert(three.drop_last() =~= two);
    assert(two.drop_last() =~= one);
    assert(text::joined(one, "."@) == a);
    assert(text::joined(two, "."@) == a + "."@ + b);
    assert(text::joined(three, "."@) == a + "."@ + b + "."@ + c);
}

proof fn lemma_hex(n: nat)
    ensures
        hex_text(n).len() > 0,
        ip::hex_value(hex_text(n)) == Some(n as int),
        free_of(hex_text(n), seq![':', '.']),
        n < 16 ==> hex_text(n).len() == 1,
        n < 256 ==> hex_text(n).len() <= 2,
        n < 4096 ==> hex_text(n).len() <= 3,
        n < 65536 ==> hex_text(n).len() <= 4,
    decreases n,
{
    let s = hex_text(n);
    let d = (n % 16) as int;
    assert(ip::hex_digit(hex_char(d)) == Some(d));
    assert(!seq![':', '.'].contains(hex_char(d)));
    if n < 16 {
        assert(s.drop_last() =~= Seq::empty());
        assert(ip::hex_value(s.drop_last()) == Some(0int));
    } else {
        lemma_hex(n / 16);
        let high = hex_text(n / 16);
        assert(s.drop_last() =~= high);
        assert forall|i: int| 0 <= i < s.len() implies !seq![':', '.'].contains(#[trigger] s[i]) by {
            if i < high.len() {
                assert(s[i] == high[i]);
            }
        }
    }
}

proof fn lemma_groups(g: Seq<u16>)
    ensures
        ip::groups(group_texts(g)) == Some(g),
    decreases g.len(),
{
    if g.len() > 0 {
        lemma_groups(g.drop_last());
        assert(group_texts(g).drop_last() =~= group_texts(g.drop_last()));
        lemma_hex(g.last() as nat);
        assert(g.drop_last().push(g.last()) =~= g);
    } else {
        assert(g =~= Seq::empty());
    }
}

/// No two colons stand side by side, and none at either end.
pub open spec fn single_colons(s: Seq<char>) -> bool {
    &&& forall|i: int| 0 <= i < s.len() - 1 ==> !(#[trigger] s[i] == ':' && s[i + 1] == ':')
    &&& s.len() > 0 ==> s[0] != ':' && s.last() != ':'
}

proof fn lemma_single_colons(g: Seq<u16>)
    ensures
        single_colons(groups_text(g)),
        free_of(groups_text(g), seq!['.']),
        g.len() > 0 ==> groups_text(g).len() > 0,
    decreases g.len(),
{
    reveal_strlit(":");
    assert(":"@ =~= seq![':']);
    let s = groups_text(g);
    let parts = group_texts(g);
    if g.len() == 0 {
        assert(parts =~= Seq::empty());
        assert(s =~= Seq::empty());
    } else {
        lemma_hex(g.last() as nat);
        let last = hex_text(g.last() as nat);
        assert(parts.last() == last);
        assert forall|i: int| 0 <= i < last.len() implies #[trigger] last[i] != ':' && last[i]
            != '.' by {
            assert(!seq![':', '.'].contains(last[i]));
            assert(seq![':', '.'][0] == ':');
            assert(seq![':', '.'][1] == '.');
        }
        if g.len() == 1 {
            assert(parts[0] == last);
            assert(s == last);
        } else {
            let front = g.drop_last();
            lemma_single_colons(front);
            assert(parts.drop_last() =~= group_texts(front));
            let before = groups_text(front);
            assert(s == before + seq![':'] + last);
            let n = before.len() as int;
            assert(forall|i: int| 0 <= i < n ==> s[i] == before[i]);
            assert(s[n] == ':');
            assert(forall|i: int| n < i < s.len() ==> s[i] == last[i - n - 1]);
            assert forall|i: int| 0 <= i < s.len() - 1 implies !(#[trigger] s[i] == ':' && s[i + 1]
                == ':') by {
                if i < n - 1 {
                    assert(s[i] == before[i]);
                    assert(s[i + 1] == before[i + 1]);
                } else if i == n - 1 {
                    assert(s[i] == before[n - 1]);
                } else {
                    assert(s[i + 1] == last[i - n]);
                }
            }
            assert forall|i: int| 0 <= i < s.len() implies !seq!['.'].contains(#[trigger] s[i]) by {
                if i < n {
                    assert(s[i] == before[i]);
                    assert(!seq!['.'].contains(before[i]));
                } else if i > n {
                    assert(s[i] == last[i - n - 1]);
                }
            }
            assert(s[0] == before[0]);
            assert(s.last() == last[last.len() - 1]);
        }
    }
}

proof fn lemma_run(g: Seq<u16>, dotted_end: bool)
    ensures
        ip::run_groups(groups_text(g), dotted_end) == Some(g),
{
    lemma_single_colons(g);
    if g.len() == 0 {
        assert(group_texts(g) =~= Seq::empty());
        assert(g =~= Seq::empty());
    } else {
        reveal_strlit(":");
        assert(":"@ =~= seq![':']);
        let parts = group_texts(g);
        assert forall|i: int| 0 <= i < parts.len() implies free_of(#[trigger] parts[i], seq![':']) by {
            lemma_hex(g[i] as nat);
            let p = parts[i];
            assert forall|k: int| 0 <= k < p.len() implies !seq![':'].contains(#[trigger] p[k]) by {
                assert(!seq![':', '.'].contains(p[k]));
                assert(seq![':', '.'][0] == ':');
            }
        }
        assert(seq![':'].contains(':')) by {
            assert(seq![':'][0] == ':');
        }
        law_split_joined(parts, ':', seq![':']);
        lemma_groups(g.drop_last());
        assert(parts.drop_last() =~= group_texts(g.drop_last()));
        lemma_hex(g.last() as nat);
        assert(g.drop_last().push(g.last()) =~= g);
    }
}

proof fn lemma_not_dotted(s: Seq<char>)
    requires
        free_of(s, seq!['.']),
    ensures
        ip::dotted(s) is None,
{
    let empty = Seq::<char>::empty();
    lemma_pieces_append(empty, s, seq!['.']);
    assert(empty + s =~= s);
    assert(text::pieces(empty, seq!['.']) =~= seq![empty]);
}

proof fn lemma_first_at(s: Seq<char>, pattern: Seq<char>, k: int)
    requires
        text::occurs_at(s, pattern, k),
        forall|j: int| 0 <= j < k ==> !text::occurs_at(s, pattern, j),
    ensures
        text::find_text(s, pattern) == Some(k),
{
    text::lemma_find_from(s, pattern, 0);
}

proof fn lemma_segments(n: u128)
    ensures
        ip::groups_value(segments(n)) == n,
{
    let g = segments(n);
    let q1 = n / 0x1_0000;
    let q2 = q1 / 0x1_0000;
    let q3 = q2 / 0x1_0000;
    let q4 = q3 / 0x1_0000;
    let q5 = q4 / 0x1_0000;
    let q6 = q5 / 0x1_0000;
    let q7 = q6 / 0x1_0000;
    assert(q2 == n / 0x1_0000_0000);
    assert(q3 == n / 0x1_0000_0000_0000);
    assert(q4 == n / 0x1_0000_0000_0000_0000);
    assert(q5 == n / 0x1_0000_0000_0000_0000_0000);
    assert(q6 == n / 0x1_0000_0000_0000_0000_0000_0000);
    assert(q7 == n / 0x1_0000_0000_0000_0000_0000_0000_0000);
    assert(q7 < 0x1_0000);
    assert(g[7] == n % 0x1_0000 && n == q1 * 0x1_0000 + g[7]);
    assert(g[6] == q1 % 0x1_0000 && q1 == q2 * 0x1_0000 + g[6]);
    assert(g[5] == q2 % 0x1_0000 && q2 == q3 * 0x1_0000 + g[5]);
    assert(g[4] == q3 % 0x1_0000 && q3 == q4 * 0x1_0000 + g[4]);
    assert(g[3] == q4 % 0x1_0000 && q4 == q5 * 0x1_0000 + g[3]);
    assert(g[2] == q5 % 0x1_0000 && q5 == q6 * 0x1_0000 + g[2]);
    assert(g[1] == q6 % 0x1_0000 && q6 == q7 * 0x1_0000 + g[1]);
    assert(g[0] == q7);
}

proof fn lemma_zeros(g: Seq<u16>, end: int)
    requires
        0 <= end <= g.len(),
    ensures
        0 <= zeros_before(g, end) <= end,
        forall|i: int| end - zeros_before(g, end) <= i < end ==> #[trigger] g[i] == 0,
    decreases end,
{
    if end > 0 && g[end - 1] == 0 {
        lemma_zeros(g, end - 1);
    }
}

proof fn lemma_longest(g: Seq<u16>, end: int)
    requires
        0 <= end <= g.len(),
    ensures
        ({
            let (start, len) = longest_run(g, end);
            &&& 0 <= start && 0 <= len && start + len <= end
            &&& forall|i: int| start <= i < start + len ==> #[trigger] g[i] == 0
        }),
    decreases end,
{
    if end > 0 {
        lemma_longest(g, end - 1);
        lemma_zeros(g, end);
    }
}

#[verifier::spinoff_prover]
#[verifier::rlimit(50)]
proof fn lemma_v6_shortened(n: u128)
    requires
        !maps_v4(n),
        longest_run(segments(n), 8).1 > 1,
    ensures
        ip::ip_address(v6_text(n)) == Some(IpAddress::V6(n)),
{
    reveal_strlit("::");
    let g = segments(n);
    let (start, len) = longest_run(g, 8);
    let s = v6_text(n);
    lemma_longest(g, 8);
    lemma_segments(n);
    let head = g.take(start);
    let tail = g.skip(start + len);
    let h = groups_text(head);
    let t = groups_text(tail);
    lemma_single_colons(head);
    lemma_single_colons(tail);
    lemma_run(head, false);
    lemma_run(tail, true);
    let k = h.len() as int;
    assert(s == h + "::"@ + t);
    assert(s.subrange(k, k + 2) =~= "::"@);
    assert forall|j: int| 0 <= j < k implies !text::occurs_at(s, "::"@, j) by {
        if text::occurs_at(s, "::"@, j) {
            let pair = s.subrange(j, j + 2);
            assert(pair[0] == s[j] && pair[1] == s[j + 1]);
            assert(s[j] == h[j]);
            if j + 1 < k {
                assert(s[j + 1] == h[j + 1]);
            }
            assert(false);
        }
    }
    lemma_first_at(s, "::"@, k);
    assert(s.take(k) =~= h);
    assert(s.skip(k + 2) =~= t);
    let zeros = Seq::new((8 - head.len() - tail.len()) as nat, |i: int| 0u16);
    assert(head + zeros + tail =~= g);
    assert(free_of(s, seq!['.'])) by {
        assert forall|i: int| 0 <= i < s.len() implies !seq!['.'].contains(#[trigger] s[i]) by {
            if i < k {
                assert(s[i] == h[i]);
                assert(!seq!['.'].contains(h[i]));
            } else if i >= k + 2 {
                assert(s[i] == t[i - k - 2]);
                assert(!seq!['.'].contains(t[i - k - 2]));
            } else {
                assert(s[i] == ':');
            }
        }
    }
    lemma_not_dotted(s);
}

#[verifier::spinoff_prover]
#[verifier::rlimit(50)]
proof fn lemma_v6_full(n: u128)
    requires
        !maps_v4(n),
        longest_run(segments(n), 8).1 <= 1,
    ensures
        ip::ip_address(v6_text(n)) == Some(IpAddress::V6(n)),
{
    reveal_strlit("::");
    let g = segments(n);
    let s = v6_text(n);
    lemma_segments(n);
    lemma_single_colons(g);
    lemma_run(g, true);
    text::lemma_find_from(s, "::"@, 0);
    if let Some(i) = text::find_text(s, "::"@) {
        let pair = s.subrange(i, i + 2);
        assert(pair[0] == s[i] && pair[1] == s[i + 1]);
        assert(false);
    }
    lemma_not_dotted(s);
}

#[verifier::spinoff_prover]
#[verifier::rlimit(50)]
proof fn lemma_v6_mapped(n: u128)
    requires
        maps_v4(n),
    ensures
        ip::ip_address(v6_text(n)) == Some(IpAddress::V6(n)),
{
    reveal_strlit("::");
    reveal_strlit("::ffff:");
    reveal_strlit("ffff");
    reveal_strlit(":");
    reveal_strlit(".");
    let low = (n % 0x1_0000_0000) as u32;
    let v = v4_text(low);
    let s = v6_text(n);
    lemma_v4(low);
    // The whole is no dotted address: its first part is too long.
    let parts = octets(low);
    let first = "::ffff:"@ + parts[0];
    let spread = seq![first, parts[1], parts[2], parts[3]];
    lemma_joined4(parts[0], parts[1], parts[2], parts[3]);
    lemma_joined4(first, parts[1], parts[2], parts[3]);
    assert(octets(low) =~= seq![parts[0], parts[1], parts[2], parts[3]]);
    assert(s =~= text::joined(spread, "."@));
    assert("."@ =~= seq!['.']);
    lemma_octet((low / 0x100_0000) as nat);
    lemma_octet((low / 0x1_0000 % 0x100) as nat);
    lemma_octet((low / 0x100 % 0x100) as nat);
    lemma_octet((low % 0x100) as nat);
    assert(free_of(first, seq!['.'])) by {
        assert forall|i: int| 0 <= i < first.len() implies !seq!['.'].contains(
            #[trigger] first[i],
        ) by {
            if i >= 7 {
                assert(first[i] == parts[0][i - 7]);
                assert(!seq!['.'].contains(parts[0][i - 7]));
            } else {
                assert(first[i] == "::ffff:"@[i]);
            }
        }
    }
    assert forall|i: int| 0 <= i < spread.len() implies free_of(#[trigger] spread[i], seq!['.']) by {}
    assert(seq!['.'].contains('.')) by {
        assert(seq!['.'][0] == '.');
    }
    law_split_joined(spread, '.', seq!['.']);
    assert(ip::dotted(s) is None);
    // The two colons stand first, and what follows is a group and a dotted address.
    assert(s.subrange(0, 2) =~= "::"@);
    lemma_first_at(s, "::"@, 0);
    assert(s.take(0) =~= Seq::empty());
    let tail = s.skip(2);
    let pair = seq!["ffff"@, v];
    assert(":"@ =~= seq![':']);
    assert(pair.drop_last() =~= seq!["ffff"@]);
    assert(text::joined(pair.drop_last(), ":"@) == "ffff"@);
    assert(text::joined(pair, ":"@) == "ffff"@ + ":"@ + v);
    assert(tail =~= text::joined(pair, ":"@));
    assert forall|i: int| 0 <= i < pair.len() implies free_of(#[trigger] pair[i], seq![':']) by {}
    assert(seq![':'].contains(':')) by {
        assert(seq![':'][0] == ':');
    }
    law_split_joined(pair, ':', seq![':']);
    lemma_ffff();
    assert(ip::groups(seq!["ffff"@]) == Some(seq![0xFFFFu16])) by {
        assert(seq!["ffff"@].drop_last() =~= Seq::empty());
        assert(ip::groups(seq!["ffff"@].drop_last()) == Some(Seq::<u16>::empty()));
        assert(Seq::<u16>::empty().push(0xFFFFu16) =~= seq![0xFFFFu16]);
    }
    assert(ip::group(v) is None);
    let g = seq![0xFFFFu16].push((low / 0x1_0000) as u16).push((low % 0x1_0000) as u16);
    assert(ip::run_groups(tail, true) == Some(g));
    let empty = Seq::<u16>::empty();
    let zeros = Seq::new(5, |i: int| 0u16);
    let all = empty + zeros + g;
    assert(Seq::new((8 - empty.len() - g.len()) as nat, |i: int| 0u16) =~= zeros);
    assert(all[5] == 0xFFFF && all[6] == (low / 0x1_0000) as u16 && all[7] == (low
        % 0x1_0000) as u16);
    assert(ip::groups_value(all) == n);
}

proof fn lemma_ffff()
    ensures
        ip::group("ffff"@) == Some(0xFFFFu16),
{
    reveal_strlit("ffff");
    let s = "ffff"@;
    let s3 = s.drop_last();
    let s2 = s3.drop_last();
    let s1 = s2.drop_last();
    assert(s1.drop_last() =~= Seq::empty());
    assert(ip::hex_value(s1.drop_last()) == Some(0int));
    assert(ip::hex_value(s1) == Some(15int));
    assert(ip::hex_value(s2) == Some(255int));
    assert(ip::hex_value(s3) == Some(4095int));
    assert(ip::hex_value(s) == Some(65535int));
}

/// The text of an address reads back as the address.
pub proof fn law_ip_text_reads_back(address: IpAddress)
    ensures
        ip::ip_address(ip_text(address)) == Some(address),
{
    match address {
        IpAddress::V4(n) => {
            lemma_v4(n);
        },
        IpAddress::V6(n) => {
            if maps_v4(n) {
                lemma_v6_mapped(n);
            } else if longest_run(segments(n), 8).1 > 1 {
                lemma_v6_shortened(n);
            } else {
                lemma_v6_full(n);
            }
        },
    }
}

} // verus!
