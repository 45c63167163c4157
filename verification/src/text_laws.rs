//! Laws of texts, numbers and documents on which everything else is built.
use vstd::prelude::*;
use crate::float;
use crate::float::FloatBits;
use crate::ip;
use crate::ip_text;
use crate::json;
use crate::json::Json;
use crate::smoothing;
use crate::text;

verus! {

/// The characters are all blank.
pub open spec fn all_white(s: Seq<char>) -> bool {
    forall|i: int| 0 <= i < s.len() ==> text::is_white(#[trigger] s[i])
}

/// Blanks, tabs and the ends of lines are blank, and nothing that is printed in ASCII is.
pub proof fn law_white(c: char)
    ensures
        c == ' ' || c == '\t' || c == '\n' || c == '\r' ==> text::is_white(c),
        33 <= c as int <= 126 ==> !text::is_white(c),
{
}

/// Trimming takes blanks from both ends and nothing else, until neither end is blank.
pub proof fn law_trimmed(s: Seq<char>)
    ensures
        exists|i: int, j: int|
            0 <= i <= j <= s.len() && text::trimmed(s) == #[trigger] s.subrange(i, j) && all_white(
                s.take(i),
            ) && all_white(s.skip(j)),
        text::trimmed(s).len() > 0 ==> !text::is_white(text::trimmed(s)[0]) && !text::is_white(
            text::trimmed(s).last(),
        ),
        text::trimmed(s).len() == 0 ==> all_white(s),
{
    lemma_skipped(s);
    let t = text::skip_white(s);
    let i = s.len() - t.len();
    lemma_dropped(t);
    let u = text::drop_white(t);
    let j = i + u.len();
    assert(u =~= s.subrange(i, j)) by {
        assert(t =~= s.skip(i));
        assert(u =~= t.take(u.len() as int));
    }
    assert(all_white(s.skip(j))) by {
        assert forall|k: int| 0 <= k < s.skip(j).len() implies text::is_white(
            #[trigger] s.skip(j)[k],
        ) by {
            assert(s.skip(j)[k] == t.skip(u.len() as int)[k]);
        }
    }
    assert(text::trimmed(s) == s.subrange(i, j));
    if u.len() > 0 {
        assert(u[0] == t[0]);
    } else {
        assert forall|k: int| 0 <= k < s.len() implies text::is_white(#[trigger] s[k]) by {
            if k < i {
                assert(s.take(i)[k] == s[k]);
            } else {
                assert(s.skip(j)[k - j] == s[k]);
            }
        }
    }
}

proof fn lemma_skipped(s: Seq<char>)
    ensures
        text::skip_white(s).len() <= s.len(),
        text::skip_white(s) == s.skip(s.len() - text::skip_white(s).len()),
        all_white(s.take(s.len() - text::skip_white(s).len())),
        text::skip_white(s).len() > 0 ==> !text::is_white(text::skip_white(s)[0]),
    decreases s.len(),
{
    if s.len() > 0 && text::is_white(s[0]) {
        let rest = s.drop_first();
        lemma_skipped(rest);
        let n = s.len() - text::skip_white(s).len();
        assert(rest.skip(n - 1) =~= s.skip(n));
        assert forall|k: int| 0 <= k < n implies text::is_white(#[trigger] s.take(n)[k]) by {
            if k > 0 {
                assert(s.take(n)[k] == rest.take(n - 1)[k - 1]);
            }
        }
    } else {
        assert(s.skip(0) =~= s);
    }
}

proof fn lemma_dropped(s: Seq<char>)
    ensures
        text::drop_white(s).len() <= s.len(),
        text::drop_white(s) == s.take(text::drop_white(s).len() as int),
        all_white(s.skip(text::drop_white(s).len() as int)),
        text::drop_white(s).len() > 0 ==> !text::is_white(text::drop_white(s).last()),
    decreases s.len(),
{
    if s.len() > 0 && text::is_white(s.last()) {
        let rest = s.drop_last();
        lemma_dropped(rest);
        let n = text::drop_white(s).len() as int;
        assert(rest.take(n) =~= s.take(n));
        assert forall|k: int| 0 <= k < s.len() - n implies text::is_white(
            #[trigger] s.skip(n)[k],
        ) by {
            if k < rest.len() - n {
                assert(s.skip(n)[k] == rest.skip(n)[k]);
            }
        }
    } else {
        assert(s.take(s.len() as int) =~= s);
    }
}

/// A text without blanks at its ends is trimmed already, and blanks put before or after a text do
/// not change what is left of it.
pub proof fn law_blanks_do_not_count(s: Seq<char>, c: char)
    requires
        text::is_white(c),
    ensures
        text::trimmed(seq![c] + s) == text::trimmed(s),
        text::trimmed(s.push(c)) == text::trimmed(s),
        s.len() > 0 && !text::is_white(s[0]) && !text::is_white(s.last()) ==> text::trimmed(s) == s,
{
    let before = seq![c] + s;
    assert(before.drop_first() =~= s);
    assert(before[0] == c);
    lemma_blank_after(s, c);
}

proof fn lemma_blank_after(s: Seq<char>, c: char)
    requires
        text::is_white(c),
    ensures
        text::trimmed(s.push(c)) == text::trimmed(s),
    decreases s.len(),
{
    let longer = s.push(c);
    if s.len() > 0 && text::is_white(s[0]) {
        assert(longer[0] == s[0]);
        assert(longer.drop_first() =~= s.drop_first().push(c));
        lemma_blank_after(s.drop_first(), c);
    } else if s.len() > 0 {
        assert(longer[0] == s[0]);
        assert(longer.drop_last() =~= s);
        assert(longer.last() == c);
    } else {
        assert(longer[0] == c);
        assert(longer.drop_first() =~= s);
    }
}

/// A character is taken from the end, or from both ends, as often as it stands there, and nothing
/// else is.
pub proof fn law_ends_stripped(s: Seq<char>, c: char)
    ensures
        text::drop_trailing(s, c).is_prefix_of(s),
        text::drop_trailing(s.push(c), c) == text::drop_trailing(s, c),
        text::drop_trailing(s, c).len() > 0 ==> text::drop_trailing(s, c).last() != c,
        forall|i: int|
            text::drop_trailing(s, c).len() <= i < s.len() ==> #[trigger] s[i] == c,
        s.len() > 0 && s[0] != c && s.last() != c ==> text::strip_char(s, c) == s,
        text::drop_leading(seq![c] + s, c) == text::drop_leading(s, c),
    decreases s.len(),
{
    assert(s.push(c).drop_last() =~= s);
    assert((seq![c] + s).drop_first() =~= s);
    if s.len() > 0 && s.last() == c {
        law_ends_stripped(s.drop_last(), c);
        let out = text::drop_trailing(s, c);
        assert(out =~= s.subrange(0, out.len() as int)) by {
            assert(out =~= s.drop_last().subrange(0, out.len() as int));
        }
        assert forall|i: int| out.len() <= i < s.len() implies #[trigger] s[i] == c by {
            if i < s.len() - 1 {
                assert(s.drop_last()[i] == c);
            }
        }
    } else {
        assert(s =~= s.subrange(0, s.len() as int));
    }
}

/// Large letters become small ones; every other character stays; doing it again changes nothing.
pub proof fn law_lower(s: Seq<char>, i: int)
    requires
        0 <= i < s.len(),
    ensures
        text::lower_text(s).len() == s.len(),
        'A' <= s[i] <= 'Z' ==> text::lower_text(s)[i] as int == s[i] as int + 32,
        !('A' <= s[i] <= 'Z') ==> text::lower_text(s)[i] == s[i],
        text::lower_text(text::lower_text(s)) == text::lower_text(s),
{
    let low = text::lower_text(s);
    assert(text::lower_text(low) =~= low);
}

/// A search finds the first place where the pattern stands, and fails only where it stands
/// nowhere.
pub proof fn law_search(s: Seq<char>, pattern: Seq<char>)
    ensures
        match text::find_text(s, pattern) {
            Some(i) => 0 <= i <= s.len() - pattern.len() && s.subrange(i, i + pattern.len())
                == pattern && forall|j: int|
                0 <= j < i ==> #[trigger] s.subrange(j, j + pattern.len()) != pattern,
            None => forall|j: int|
                0 <= j <= s.len() - pattern.len() ==> #[trigger] s.subrange(
                    j,
                    j + pattern.len(),
                ) != pattern,
        },
        text::find_text(s, pattern) is Some <==> text::contains_text(s, pattern),
{
    text::lemma_find_from(s, pattern, 0);
    match text::find_text(s, pattern) {
        Some(i) => {
            assert(text::occurs_at(s, pattern, i));
            assert forall|j: int| 0 <= j < i implies #[trigger] s.subrange(j, j + pattern.len())
                != pattern by {
                assert(!text::occurs_at(s, pattern, j));
            }
        },
        None => {
            assert forall|j: int| 0 <= j <= s.len() - pattern.len() implies #[trigger] s.subrange(
                j,
                j + pattern.len(),
            ) != pattern by {
                assert(!text::occurs_at(s, pattern, j));
            }
        },
    }
}

/// A text holds whatever stands between its start and its end.
pub proof fn law_holds_its_middle(before: Seq<char>, middle: Seq<char>, after: Seq<char>)
    ensures
        text::contains_text(before + middle + after, middle),
{
    let s = before + middle + after;
    assert(s.subrange(before.len() as int, before.len() as int + middle.len()) =~= middle);
    assert(text::occurs_at(s, middle, before.len() as int));
}

/// The first word is what stands before the first blank, blanks in front aside.
pub proof fn law_first_word(word: Seq<char>, blank: char, rest: Seq<char>)
    requires
        word.len() > 0,
        forall|i: int| 0 <= i < word.len() ==> !text::is_white(#[trigger] word[i]),
        text::is_white(blank),
    ensures
        text::first_word(word) == word,
        text::first_word(word + seq![blank] + rest) == word,
        text::first_word(seq![blank] + word) == word,
{
    let a = word + seq![blank] + rest;
    assert(a[0] == word[0]);
    assert(a[word.len() as int] == blank);
    assert(text::skip_white(word) == word);
    assert(text::skip_white(a) == a);
    assert forall|j: int| 0 <= j < word.len() implies !text::is_white(a[j]) by {
        assert(a[j] == word[j]);
    }
    text::lemma_leading_word(word, word.len() as int);
    text::lemma_leading_word(a, word.len() as int);
    assert(a.take(word.len() as int) =~= word);
    assert(word.take(word.len() as int) =~= word);
    let b = seq![blank] + word;
    assert(b.drop_first() =~= word);
    assert(b[0] == blank);
}

/// A number that is written is read back, up to the largest that is allowed, with or without a
/// sign; a larger one is refused.
pub proof fn law_number_read_back(n: nat, max: nat)
    ensures
        n <= max ==> text::unsigned_value(text::decimal_text(n), max) == Some(n),
        n <= max ==> text::unsigned_value(seq!['+'] + text::decimal_text(n), max) == Some(n),
        n > max ==> text::unsigned_value(text::decimal_text(n), max) is None,
        text::decimal_text(n).len() > 0,
        text::all_digits(text::decimal_text(n)),
        text::trimmed(text::decimal_text(n)) == text::decimal_text(n),
{
    ip_text::lemma_decimal(n);
    let s = text::decimal_text(n);
    assert(text::is_digit(s[0]));
    assert(text::is_digit(s[s.len() - 1]));
    let signed = seq!['+'] + s;
    assert(signed[0] == '+');
    assert(signed.drop_first() =~= s);
}

/// Only digits are read as a number, and each one more counts ten times what stood before it.
pub proof fn law_digits(s: Seq<char>, d: char, max: nat)
    requires
        s.len() > 0,
        s[0] != '+',
    ensures
        match text::unsigned_value(s, max) {
            Some(n) => text::is_digit(d) && n * 10 + (d as nat - 48) <= max ==> text::unsigned_value(
                s.push(d),
                max,
            ) == Some((n * 10 + (d as nat - 48)) as nat),
            None => text::unsigned_value(s.push(d), max) is None,
        },
        !text::is_digit(d) ==> text::unsigned_value(s.push(d), max) is None,
{
    let longer = s.push(d);
    assert(longer.drop_last() =~= s);
    assert(longer[0] == s[0]);
    assert(longer[s.len() as int] == d);
    if text::all_digits(longer) {
        assert forall|i: int| 0 <= i < s.len() implies text::is_digit(#[trigger] s[i]) by {
            assert(longer[i] == s[i]);
        }
    }
    if text::all_digits(s) && text::is_digit(d) {
        assert forall|i: int| 0 <= i < longer.len() implies text::is_digit(#[trigger] longer[i]) by {
            if i < s.len() {
                assert(longer[i] == s[i]);
            }
        }
    }
}

/// A negative number is written as its size with a sign before it.
pub proof fn law_signed_text(n: int)
    ensures
        n >= 0 ==> text::signed_text(n) == text::decimal_text(n as nat),
        n < 0 ==> text::signed_text(n)[0] == '-' && text::signed_text(n).skip(1)
            == text::decimal_text((-n) as nat),
{
    if n < 0 {
        assert(text::signed_text(n).skip(1) =~= text::decimal_text((-n) as nat));
    }
}

/// Joining puts the separator between the parts and nowhere else.
pub proof fn law_joined(parts: Seq<Seq<char>>, part: Seq<char>, separator: Seq<char>)
    ensures
        text::joined(Seq::empty(), separator).len() == 0,
        text::joined(seq![part], separator) == part,
        parts.len() > 0 ==> text::joined(parts.push(part), separator) == text::joined(
            parts,
            separator,
        ) + separator + part,
{
    assert(parts.push(part).drop_last() =~= parts);
}

/// The first character in which two texts differ decides which comes first; a text comes before
/// those that go on from it.
pub proof fn law_order_by_first_difference(
    common: Seq<char>,
    a: char,
    x: Seq<char>,
    b: char,
    y: Seq<char>,
)
    requires
        a != b,
    ensures
        text::text_before(common + seq![a] + x, common + seq![b] + y) <==> (a as int) < (b as int),
        text::text_before(common, common + seq![a] + x),
        !text::text_before(common + seq![a] + x, common),
    decreases common.len(),
{
    let p = common + seq![a] + x;
    let q = common + seq![b] + y;
    if common.len() > 0 {
        let rest = common.drop_first();
        law_order_by_first_difference(rest, a, x, b, y);
        assert(p.drop_first() =~= rest + seq![a] + x);
        assert(q.drop_first() =~= rest + seq![b] + y);
    }
}

/// A line ends at its mark, with or without a return before it, and the last one needs none.
pub proof fn law_lines(line: Seq<char>)
    requires
        line.len() > 0,
        line.last() != '\r',
        forall|i: int| 0 <= i < line.len() ==> #[trigger] line[i] != '\n',
    ensures
        text::text_lines(Seq::empty()).len() == 0,
        text::text_lines(line) == seq![line],
        text::text_lines(line.push('\n')) == seq![line],
        text::text_lines(line.push('\r').push('\n')) == seq![line],
{
    let separators = seq!['\n'];
    let empty = Seq::<char>::empty();
    assert(separators[0] == '\n');
    assert(text::pieces(empty, separators) =~= seq![empty]);
    lemma_one_piece(line, '\n');
    text::law_pieces_parted(line, '\n', empty, separators);
    assert(line.push('\n') + empty =~= line.push('\n'));
    let returned = line.push('\r');
    assert forall|i: int| 0 <= i < returned.len() implies #[trigger] returned[i] != '\n' by {
        if i < line.len() {
            assert(returned[i] == line[i]);
        }
    }
    lemma_one_piece(returned, '\n');
    text::law_pieces_parted(returned, '\n', empty, separators);
    assert(returned.push('\n') + empty =~= returned.push('\n'));
    assert(returned.drop_last() =~= line);
    assert(text::text_lines(line) =~= seq![line]);
    assert(text::pieces(line.push('\n'), separators) =~= seq![line, empty]);
    assert(text::text_lines(line.push('\n')) =~= seq![line]);
    assert(text::pieces(returned.push('\n'), separators) =~= seq![returned, empty]);
    assert(text::text_lines(returned.push('\n')) =~= seq![line]);
}

/// A text without the separator is one piece.
pub proof fn lemma_one_piece(s: Seq<char>, c: char)
    requires
        forall|i: int| 0 <= i < s.len() ==> #[trigger] s[i] != c,
    ensures
        text::pieces(s, seq![c]) == seq![s],
{
    let empty = Seq::<char>::empty();
    assert(ip_text::free_of(s, seq![c])) by {
        assert forall|i: int| 0 <= i < s.len() implies !seq![c].contains(#[trigger] s[i]) by {}
    }
    ip_text::lemma_pieces_append(empty, s, seq![c]);
    assert(empty + s =~= s);
    assert(text::pieces(empty, seq![c]) =~= seq![empty]);
    assert(text::pieces(s, seq![c]) =~= seq![s]);
}

/// The pieces of a text, joined by the separator, are the text, and none holds the separator.
pub proof fn law_pieces_joined(s: Seq<char>, c: char)
    ensures
        text::joined(text::pieces(s, seq![c]), seq![c]) == s,
        forall|i: int, j: int|
            0 <= i < text::pieces(s, seq![c]).len() && 0 <= j < text::pieces(s, seq![c])[i].len()
                ==> #[trigger] text::pieces(s, seq![c])[i][j] != c,
    decreases s.len(),
{
    let parts = text::pieces(s, seq![c]);
    let empty = Seq::<char>::empty();
    if s.len() > 0 {
        let shorter = s.drop_last();
        law_pieces_joined(shorter, c);
        text::lemma_pieces_nonempty(shorter, seq![c]);
        let before = text::pieces(shorter, seq![c]);
        assert(seq![c].contains(s.last()) <==> s.last() == c) by {
            assert(seq![c][0] == c);
        }
        if s.last() == c {
            law_joined(before, empty, seq![c]);
            assert(text::joined(parts, seq![c]) =~= shorter + seq![c]);
            assert(shorter + seq![c] =~= s);
        } else {
            let front = before.drop_last();
            let last = before.last();
            let longer = last.push(s.last());
            assert(front.push(last) =~= before);
            if front.len() > 0 {
                law_joined(front, last, seq![c]);
                law_joined(front, longer, seq![c]);
                let opened = text::joined(front, seq![c]) + seq![c];
                assert(opened + longer =~= (opened + last).push(s.last()));
            } else {
                assert(before =~= seq![last]);
                assert(parts =~= seq![longer]);
            }
            assert(text::joined(parts, seq![c]) =~= shorter.push(s.last()));
            assert(shorter.push(s.last()) =~= s);
        }
        assert forall|i: int, j: int|
            0 <= i < parts.len() && 0 <= j < parts[i].len() implies #[trigger] parts[i][j] != c by {
            if i < before.len() - 1 || (s.last() == c && i < before.len()) {
                assert(parts[i] == before[i]);
                assert(before[i][j] != c);
            } else if s.last() != c && j < parts[i].len() - 1 {
                assert(parts[i][j] == before[i][j]);
            }
        }
    }
}

/// A number has one way of being written without zeros in front.
proof fn lemma_written_one_way(s: Seq<char>)
    requires
        s.len() > 0,
        text::all_digits(s),
        s.len() == 1 || s[0] != '0',
    ensures
        text::decimal_text(text::digits_value(s)) == s,
        s[0] != '0' ==> text::digits_value(s) > 0,
    decreases s.len(),
{
    let rest = s.drop_last();
    let d = (s.last() as nat - 48) as nat;
    assert(text::is_digit(s[s.len() - 1]));
    assert(text::digit_char(d) == s.last());
    if s.len() == 1 {
        assert(text::digits_value(rest) == 0);
        assert(text::decimal_text(d) =~= s);
    } else {
        assert(rest[0] == s[0]);
        assert forall|i: int| 0 <= i < rest.len() implies text::is_digit(#[trigger] rest[i]) by {
            assert(rest[i] == s[i]);
        }
        lemma_written_one_way(rest);
        let n = text::digits_value(s);
        assert(n == text::digits_value(rest) * 10 + d);
        assert(n / 10 == text::digits_value(rest));
        assert(n % 10 == d);
        assert(text::decimal_text(n) =~= s);
    }
}

/// An address of four numbers has one way of being written: what is read as one is what is written
/// for it.
pub proof fn law_short_address(s: Seq<char>, n: u32)
    requires
        ip::dotted(s) == Some(n as nat),
    ensures
        s == ip_text::ip_text(ip::IpAddress::V4(n)),
{
    reveal_strlit(".");
    assert("."@ =~= seq!['.']);
    let parts = text::pieces(s, seq!['.']);
    law_pieces_joined(s, '.');
    let a = ip::octet(parts[0])->0;
    let b = ip::octet(parts[1])->0;
    let c = ip::octet(parts[2])->0;
    let d = ip::octet(parts[3])->0;
    lemma_written_one_way(parts[0]);
    lemma_written_one_way(parts[1]);
    lemma_written_one_way(parts[2]);
    lemma_written_one_way(parts[3]);
    lemma_octets(n, a, b, c, d);
    assert(ip_text::octets(n)[0] == parts[0]);
    assert(ip_text::octets(n)[1] == parts[1]);
    assert(ip_text::octets(n)[2] == parts[2]);
    assert(ip_text::octets(n)[3] == parts[3]);
    assert(ip_text::octets(n) =~= parts);
}

proof fn lemma_octets(n: u32, a: nat, b: nat, c: nat, d: nat)
    requires
        n == a * 0x100_0000 + b * 0x1_0000 + c * 0x100 + d,
        a <= 255,
        b <= 255,
        c <= 255,
        d <= 255,
    ensures
        (n / 0x100_0000) as nat == a,
        (n / 0x1_0000 % 0x100) as nat == b,
        (n / 0x100 % 0x100) as nat == c,
        (n % 0x100) as nat == d,
{
    let x: int = (a * 0x100 + b) as int;
    let y: int = x * 0x100 + c;
    let m: int = n as int;
    assert(m == y * 0x100 + d);
    lemma_last_octet(y, d);
    lemma_last_octet(x, c);
    lemma_last_octet(a as int, b);
    assert(m / 0x100 == y);
    assert(m / 0x1_0000 == x) by {
        vstd::arithmetic::div_mod::lemma_div_denominator(m, 0x100, 0x100);
    }
    assert(m / 0x100_0000 == a) by {
        vstd::arithmetic::div_mod::lemma_div_denominator(m, 0x1_0000, 0x100);
    }
}

proof fn lemma_last_octet(high: int, low: nat)
    requires
        0 <= high,
        low <= 255,
    ensures
        (high * 0x100 + low) / 0x100 == high,
        (high * 0x100 + low) % 0x100 == low,
{
}

/// Numbers are ordered: of two, just one is smaller, or they are the same; nothing is ordered with
/// what is no number.
pub proof fn law_number_order(a: FloatBits, b: FloatBits, c: FloatBits)
    ensures
        !a.nan() && !b.nan() ==> a.below(b) || b.below(a) || a.equals(b),
        !(a.below(b) && b.below(a)),
        a.below(b) && b.below(c) ==> a.below(c),
        a.at_most(b) <==> a.below(b) || a.equals(b),
        a.nan() || b.nan() ==> !a.below(b) && !a.at_most(b) && !a.equals(b),
        float::number(0).below(float::number(float::ONE)),
        float::number(0).equals(float::number(float::SIGN)),
{
}

/// A number within the limits stays as it is, one below comes to the lower limit and one above to
/// the upper; what is not finite comes to the lower limit.
pub proof fn law_clamped(value: FloatBits, min: FloatBits, max: FloatBits)
    requires
        min.finite(),
        max.finite(),
        min.at_most(max),
    ensures
        value.finite() && min.at_most(value) && value.at_most(max) ==> float::clamped(value, min, max)
            == value,
        value.finite() && value.below(min) ==> float::clamped(value, min, max) == min,
        value.finite() && max.below(value) ==> float::clamped(value, min, max) == max,
        !value.finite() ==> float::clamped(value, min, max) == min,
        float::clamped(float::clamped(value, min, max), min, max) == float::clamped(value, min, max),
{
}

/// The larger of two numbers is one of them and not below the other.
pub proof fn law_larger(a: FloatBits, b: FloatBits)
    ensures
        smoothing::larger(a, b) == a || smoothing::larger(a, b) == b,
        !a.nan() && !b.nan() ==> a.at_most(smoothing::larger(a, b)) && b.at_most(
            smoothing::larger(a, b),
        ),
        a.nan() ==> smoothing::larger(a, b) == b,
        b.nan() && !a.nan() ==> smoothing::larger(a, b) == a,
{
}

/// A number is a port exactly where it is a whole number from one to 65535, and then that port.
pub proof fn law_port(value: FloatBits, n: nat)
    requires
        1 <= n <= 65535,
    ensures
        value.is_natural(n) ==> float::port_of(value) == Some(n),
        float::port_of(value) == Some(n) ==> value.is_natural(n),
        float::port_of(value) is Some ==> 1 <= float::port_of(value)->0 <= 65535,
{
    if value.is_natural(n) {
        let m = float::port_of(value)->0;
        assert(value.is_natural(m));
        let p = vstd::arithmetic::power2::pow2((1075 - value.exponent()) as nat);
        vstd::arithmetic::power2::lemma_pow2_pos((1075 - value.exponent()) as nat);
        assert(m == n) by (nonlinear_arith)
            requires
                m * p == n * p,
                p > 0,
        ;
    }
}

/// Nothing, a denial, zero, what is no number and an empty text count as no; everything else
/// counts as yes.
pub proof fn law_truth(value: Json)
    ensures
        json::truthy(value) <==> match value {
            Json::Null => false,
            Json::Bool(flag) => flag,
            Json::Number(n) => n.float.below(float::number(0)) || float::number(0).below(n.float),
            Json::Text(s) => s.len() > 0,
            Json::Array(_) => true,
            Json::Object(_) => true,
        },
        !json::is_truthy(None),
        json::is_truthy(Some(value)) == json::truthy(value),
{
}

/// A value that counts as yes is written out; where there is none the fallback stands.
pub proof fn law_text_or(value: Json, fallback: Seq<char>, s: Seq<char>)
    ensures
        json::text_or(None, fallback) == fallback,
        !json::truthy(value) ==> json::text_or(Some(value), fallback) == fallback,
        s.len() > 0 ==> json::text_or(Some(Json::Text(s)), fallback) == s,
        json::truthy(value) && !(value is Text) ==> json::text_or(Some(value), fallback)
            == json::json_text(value),
{
}

/// A number stands for itself, a flag for one or zero, a blank text and nothing written for zero,
/// and a text for the number that it writes; nothing else stands for a number.
pub proof fn law_number_reading(value: Json, default: FloatBits)
    ensures
        json::number_reading(None).nan(),
        match value {
            Json::Null => json::number_reading(Some(value)) == float::number(0),
            Json::Bool(flag) => json::number_reading(Some(value)) == (if flag {
                float::number(float::ONE)
            } else {
                float::number(0)
            }),
            Json::Number(n) => json::number_reading(Some(value)) == n.float,
            Json::Text(s) => if text::trimmed(s).len() == 0 {
                json::number_reading(Some(value)) == float::number(0)
            } else {
                match float::float_reading(text::trimmed(s)) {
                    Some(bits) => json::number_reading(Some(value)) == float::number(bits),
                    None => json::number_reading(Some(value)).nan(),
                }
            },
            Json::Array(_) => json::number_reading(Some(value)).nan(),
            Json::Object(_) => json::number_reading(Some(value)).nan(),
        },
        json::number_or(None, default) == default,
        json::number_or(Some(Json::Null), default) == default,
        !(value is Null) ==> json::number_or(Some(value), default) == json::number_reading(
            Some(value),
        ),
{
}

/// A text that is quoted holds no control character, and its own characters stand in it in order:
/// quoting a longer text adds to what is inside.
pub proof fn law_quoted(s: Seq<char>, c: char)
    ensures
        json::json_quoted(s)[0] == '"' && json::json_quoted(s).last() == '"',
        forall|i: int| 0 <= i < json::json_quoted(s).len() ==> (#[trigger] json::json_quoted(
            s,
        )[i]) as int >= 32,
        c != '"' && c != '\\' && c as int >= 32 ==> json::json_quoted(s.push(c)) == json::json_quoted(
            s,
        ).drop_last() + seq![c, '"'],
        c == '"' || c == '\\' ==> json::json_quoted(s.push(c)) == json::json_quoted(s).drop_last()
            + seq!['\\', c, '"'],
{
    lemma_inner(s);
    let inner = json::json_inner(s);
    let quoted = json::json_quoted(s);
    assert forall|i: int| 0 <= i < quoted.len() implies (#[trigger] quoted[i]) as int >= 32 by {
        if 0 < i < quoted.len() - 1 {
            assert(quoted[i] == inner[i - 1]);
        }
    }
    let longer = s.push(c);
    assert(longer.drop_last() =~= s);
    if c != '"' && c != '\\' && c as int >= 32 {
        assert(json::json_quoted(longer) =~= quoted.drop_last() + seq![c, '"']);
    }
    if c == '"' || c == '\\' {
        assert(json::json_quoted(longer) =~= quoted.drop_last() + seq!['\\', c, '"']);
    }
}

proof fn lemma_escaped(c: char)
    ensures
        forall|k: int| 0 <= k < json::json_escaped(c).len() ==> (#[trigger] json::json_escaped(
            c,
        )[k]) as int >= 32,
{
    let n = c as int;
    let more = json::json_escaped(c);
    if n < 32 {
        assert(ip_text::hex_char(n / 16) as int >= 48);
        assert(ip_text::hex_char(n % 16) as int >= 48);
    }
    assert forall|k: int| 0 <= k < more.len() implies (#[trigger] more[k]) as int >= 32 by {}
}

proof fn lemma_inner(s: Seq<char>)
    ensures
        forall|i: int| 0 <= i < json::json_inner(s).len() ==> (#[trigger] json::json_inner(
            s,
        )[i]) as int >= 32,
    decreases s.len(),
{
    if s.len() > 0 {
        lemma_inner(s.drop_last());
        let before = json::json_inner(s.drop_last());
        let more = json::json_escaped(s.last());
        let all = json::json_inner(s);
        lemma_escaped(s.last());
        assert forall|i: int| 0 <= i < all.len() implies (#[trigger] all[i]) as int >= 32 by {
            if i < before.len() {
                assert(all[i] == before[i]);
            } else {
                assert(all[i] == more[i - before.len()]);
            }
        }
    }
}

/// A document is written part by part: a text quoted, a list and an object with commas between
/// their parts, each member behind its name.
pub proof fn law_document_text(items: Seq<Json>, item: Json, members: Seq<(Seq<char>, Json)>, name: Seq<char>)
    ensures
        json::json_text(Json::Null) == "null"@,
        json::json_text(Json::Text(name)) == json::json_quoted(name),
        json::json_text(Json::Array(Seq::empty())) == "["@ + "]"@,
        json::json_text(Json::Array(seq![item])) == "["@ + json::json_text(item) + "]"@,
        json::json_text(Json::Object(seq![(name, item)])) == "{"@ + (json::json_quoted(name) + ":"@
            + json::json_text(item)) + "}"@,
        json::item_texts(items.push(item)) == json::item_texts(items).push(json::json_text(item)),
        json::member_texts(members.push((name, item))) == json::member_texts(members).push(
            json::json_quoted(name) + ":"@ + json::json_text(item),
        ),
{
    assert(items.push(item).drop_last() =~= items);
    assert(members.push((name, item)).drop_last() =~= members);
    let one = seq![item];
    assert(one.drop_last() =~= Seq::empty());
    assert(one.last() == item);
    assert(json::item_texts(one.drop_last()) =~= Seq::empty());
    assert(json::item_texts(one) =~= seq![json::json_text(item)]);
    let only = seq![(name, item)];
    assert(only.drop_last() =~= Seq::empty());
    assert(only.last() == (name, item));
    assert(json::member_texts(only.drop_last()) =~= Seq::empty());
    let line = json::json_quoted(name) + ":"@ + json::json_text(item);
    assert(json::member_texts(only) =~= seq![line]);
    assert(json::item_texts(Seq::empty()) =~= Seq::empty());
    assert("["@ + Seq::<char>::empty() + "]"@ =~= "["@ + "]"@);
}

/// A long address stands for eight groups; one that leaves none out has a colon between every two
/// of them, the last two being written as a short address or not.
pub proof fn law_long_address(s: Seq<char>)
    ensures
        ip::colon_groups(s) matches Some(g) ==> g.len() == 8,
        ip::colon_groups(s) is Some && !text::contains_text(s, "::"@) ==> 7 <= text::pieces(
            s,
            seq![':'],
        ).len() <= 8,
{
    law_search(s, "::"@);
    if ip::colon_groups(s) is Some && !text::contains_text(s, "::"@) {
        let parts = text::pieces(s, seq![':']);
        lemma_groups_len(parts.drop_last());
        text::lemma_pieces_nonempty(s, seq![':']);
    }
}

proof fn lemma_groups_len(parts: Seq<Seq<char>>)
    ensures
        ip::groups(parts) matches Some(g) ==> g.len() == parts.len() && forall|i: int|
            0 <= i < parts.len() ==> 1 <= (#[trigger] parts[i]).len() <= 4,
    decreases parts.len(),
{
    if parts.len() > 0 {
        let shorter = parts.drop_last();
        lemma_groups_len(shorter);
        if ip::groups(parts) is Some {
            assert forall|i: int| 0 <= i < parts.len() implies 1 <= (#[trigger] parts[i]).len() <= 4 by {
                if i < shorter.len() {
                    assert(shorter[i] == parts[i]);
                }
            }
        }
    }
}

/// What lies below infinity is finite, on either side of zero; infinity is not, and is a number;
/// what lies beyond it is none.
pub proof fn law_finite(bits: u64)
    ensures
        bits < 0x7FF0_0000_0000_0000 ==> float::number(bits).finite(),
        0x8000_0000_0000_0000 <= bits < 0xFFF0_0000_0000_0000 ==> float::number(bits).finite(),
        !float::number(0x7FF0_0000_0000_0000).finite(),
        !float::number(0x7FF0_0000_0000_0000).nan(),
        !float::number(0xFFF0_0000_0000_0000).finite(),
        float::number(bits).nan() ==> !float::number(bits).finite(),
        float::number(float::NAN).nan(),
{
}

/// The whole part of a number is the largest whole number that is not above it.
pub proof fn law_whole_part(value: FloatBits)
    requires
        value.bits < float::SIGN,
        1023 <= value.exponent() <= 1075,
    ensures
        ({
            let unit = vstd::arithmetic::power2::pow2((1075 - value.exponent()) as nat);
            &&& value.floor() * unit <= value.significand()
            &&& value.significand() < (value.floor() + 1) * unit
        }),
        forall|n: nat| #[trigger] value.is_natural(n) ==> value.floor() == n,
{
    let unit = vstd::arithmetic::power2::pow2((1075 - value.exponent()) as nat) as int;
    let s = value.significand();
    vstd::arithmetic::power2::lemma_pow2_pos((1075 - value.exponent()) as nat);
    vstd::arithmetic::div_mod::lemma_fundamental_div_mod(s, unit);
    let q = s / unit;
    assert(q * unit <= s < (q + 1) * unit) by (nonlinear_arith)
        requires
            s == unit * q + s % unit,
            0 <= s % unit < unit,
    ;
    assert forall|n: nat| #[trigger] value.is_natural(n) implies value.floor() == n by {
        assert(q == n) by (nonlinear_arith)
            requires
                q * unit <= s < (q + 1) * unit,
                s == n * unit,
                unit > 0,
        ;
    }
}

/// A member is read as what it is, and as nothing else.
pub proof fn law_kinds(s: Seq<char>, flag: bool, n: json::NumberModel, items: Seq<Json>)
    ensures
        json::as_text(Some(Json::Text(s))) == Some(s),
        json::as_text(Some(Json::Bool(flag))) is None,
        json::as_text(Some(Json::Number(n))) is None,
        json::as_text(None) is None,
        json::as_bool(Some(Json::Bool(flag))) == Some(flag),
        json::as_bool(Some(Json::Text(s))) is None,
        json::as_unsigned(Some(Json::Number(n))) == n.unsigned,
        json::as_unsigned(Some(Json::Text(s))) is None,
        json::as_signed(Some(Json::Number(n))) == n.signed,
        json::as_signed(Some(Json::Text(s))) is None,
        json::as_array(Some(Json::Array(items))) == Some(items),
        json::as_array(Some(Json::Text(s))) is None,
{
}

/// A member of a member is found step by step.
pub proof fn law_nested(value: Json, outer: Seq<char>, inner: Seq<char>)
    ensures
        match json::field(value, outer) {
            Some(child) => json::field2(value, outer, inner) == json::field(child, inner),
            None => json::field2(value, outer, inner) is None,
        },
        !(value is Object) ==> json::field(value, outer) is None,
{
}

} // verus!
