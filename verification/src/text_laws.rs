//! What holds of numerals, white space, fields and paths in general.
use crate::path::{absolute, beneath, expanded, joined, part_len, parts, same_components};
use crate::text::{
    after_space, ascii_space, begins_with, blank, decimal, digit_char, digit_value, digits_value,
    field, hexadecimal, lemma_numeral_reads_back, lossy_text, number, numeral, shown,
    signed_decimal, trimmed, trimmed_start, white_space, word_len, zero_padded,
};
use vstd::prelude::*;
use vstd::utf8::{decode_utf8, encode_utf8, valid_utf8};

verus! {

// Numerals

/// A numeral is written with the digits and the small letters behind them, has
/// no zero in front unless it is a lone zero, and denotes its number.
pub proof fn law_numerals_are_canonical(n: nat, base: nat)
    requires
        2 <= base <= 16,
    ensures
        numeral(n, base).len() > 0,
        digits_value(numeral(n, base), base) == Some(n),
        forall|i: int|
            0 <= i < numeral(n, base).len() ==> '0' <= #[trigger] numeral(n, base)[i] <= '9' || 'a'
                <= numeral(n, base)[i] <= 'f',
        n > 0 ==> numeral(n, base)[0] != '0',
        n == 0 ==> numeral(n, base) == seq!['0'],
    decreases n,
{
    lemma_numeral_reads_back(n, base);
    let s = numeral(n, base);
    if n < base {
        assert(s =~= seq![digit_char(n as int)]);
    } else {
        vstd::arithmetic::div_mod::lemma_div_decreases(n as int, base as int);
        vstd::arithmetic::div_mod::lemma_div_non_zero(n as int, base as int);
        assert(0 <= n % base < base) by (nonlinear_arith)
            requires
                base >= 2,
        ;
        law_numerals_are_canonical(n / base, base);
        let front = numeral(n / base, base);
        assert(s =~= front.push(digit_char((n % base) as int)));
        assert forall|i: int| 0 <= i < s.len() implies '0' <= #[trigger] s[i] <= '9' || 'a' <= s[i]
            <= 'f' by {
            if i < front.len() {
                assert(s[i] == front[i]);
            }
        }
        assert(s[0] == front[0]);
    }
}

/// Numerals in base ten hold digits only.
pub proof fn law_decimals_hold_digits_only(n: nat)
    ensures
        forall|i: int| 0 <= i < decimal(n).len() ==> '0' <= #[trigger] decimal(n)[i] <= '9',
        digits_value(decimal(n), 10) == Some(n),
        digits_value(hexadecimal(n), 16) == Some(n),
{
    lemma_numeral_reads_back(n, 10);
    lemma_numeral_reads_back(n, 16);
    assert forall|i: int| 0 <= i < decimal(n).len() implies '0' <= #[trigger] decimal(n)[i] <= '9' by {
        assert(digit_value(decimal(n)[i], 10) is Some);
        law_numerals_are_canonical(n, 10);
    }
}

/// A negative integer is written with a minus sign and its magnitude, any
/// other as its numeral; so different integers are written differently.
pub proof fn law_integers_are_read_back(a: int, b: int)
    ensures
        a >= 0 ==> digits_value(signed_decimal(a), 10) == Some(a as nat),
        a < 0 ==> signed_decimal(a).len() > 1 && signed_decimal(a)[0] == '-' && digits_value(
            signed_decimal(a).skip(1),
            10,
        ) == Some((-a) as nat),
        signed_decimal(a) == signed_decimal(b) ==> a == b,
{
    law_decimals_hold_digits_only(if a < 0 {
        (-a) as nat
    } else {
        a as nat
    });
    law_decimals_hold_digits_only(if b < 0 {
        (-b) as nat
    } else {
        b as nat
    });
    if a < 0 {
        assert(signed_decimal(a).skip(1) =~= decimal((-a) as nat));
        lemma_numeral_reads_back((-a) as nat, 10);
    } else {
        lemma_numeral_reads_back(a as nat, 10);
    }
    if b < 0 {
        assert(signed_decimal(b).skip(1) =~= decimal((-b) as nat));
        lemma_numeral_reads_back((-b) as nat, 10);
    } else {
        lemma_numeral_reads_back(b as nat, 10);
    }
}

/// A text is padded with nothing but zeros, nothing but in front, and just up
/// to the width.
pub proof fn law_padding_goes_in_front(s: Seq<char>, width: nat)
    ensures
        s.len() >= width ==> zero_padded(s, width) == s,
        s.len() < width ==> zero_padded(s, width).len() == width,
        zero_padded(s, width).skip(zero_padded(s, width).len() - s.len()) == s,
        forall|i: int|
            0 <= i < zero_padded(s, width).len() - s.len() ==> #[trigger] zero_padded(s, width)[i] == '0',
{
    assert(zero_padded(s, width).skip(zero_padded(s, width).len() - s.len()) =~= s);
}

/// Digits in front of others count for more: the value of two runs of digits,
/// one behind the other.
pub proof fn law_digits_are_positional(a: Seq<char>, c: char, base: nat)
    requires
        digits_value(a, base) is Some,
        digit_value(c, base) is Some,
    ensures
        digits_value(a.push(c), base) == Some(
            digits_value(a, base)->0 * base + digit_value(c, base)->0,
        ),
        digits_value(seq![], base) == Some(0nat),
{
    assert(a.push(c).drop_last() =~= a);
}

/// The ten digits and the letters, small or capital, have their values; a
/// value is below its base, and nothing else has one.
pub proof fn law_digits_have_their_values(c: char, base: nat)
    requires
        base <= 36,
    ensures
        digit_value(c, base) matches Some(v) ==> v < base,
        '0' <= c <= '9' && c as int - 48 < base ==> digit_value(c, base) == Some((c as int - 48) as nat),
        'a' <= c <= 'z' && c as int - 87 < base ==> digit_value(c, base) == Some((c as int - 87) as nat),
        'A' <= c <= 'Z' && c as int - 55 < base ==> digit_value(c, base) == Some((c as int - 55) as nat),
        digit_value(c, base) is Some ==> '0' <= c <= '9' || 'a' <= c <= 'z' || 'A' <= c <= 'Z',
{
}

/// Zeros in front do not change the number that digits denote.
pub proof fn lemma_zeros_in_front(n: nat, s: Seq<char>, base: nat)
    requires
        2 <= base <= 16,
        digits_value(s, base) is Some,
    ensures
        digits_value(Seq::new(n, |i: int| '0') + s, base) == digits_value(s, base),
    decreases n + s.len(),
{
    let zeros = Seq::new(n, |i: int| '0');
    if s.len() > 0 {
        assert((zeros + s).drop_last() =~= zeros + s.drop_last());
        lemma_zeros_in_front(n, s.drop_last(), base);
    } else if n > 0 {
        assert((zeros + s).drop_last() =~= Seq::new((n - 1) as nat, |i: int| '0') + s);
        lemma_zeros_in_front((n - 1) as nat, s, base);
        assert(digit_value('0', base) == Some(0nat));
        assert(0 * base == 0) by (nonlinear_arith);
    } else {
        assert(zeros + s =~= s);
    }
}

/// A number is read from its numeral, with any zeros in front and with or
/// without a plus sign, just where it is at most the limit. Nothing is read
/// from no digits, or where something stands that is no digit.
pub proof fn law_numbers_are_read(n: nat, base: nat, max: nat, zeros: nat)
    requires
        2 <= base <= 16,
    ensures
        ({
            let digits = Seq::new(zeros, |i: int| '0') + numeral(n, base);
            let read = if n <= max {
                Some(n)
            } else {
                None
            };
            number(digits, base, max) == read && number(seq!['+'] + digits, base, max) == read
        }),
        number(seq![], base, max) is None,
        number(seq!['+'], base, max) is None,
{
    let digits = Seq::new(zeros, |i: int| '0') + numeral(n, base);
    lemma_numeral_reads_back(n, base);
    lemma_zeros_in_front(zeros, numeral(n, base), base);
    assert((seq!['+'] + digits).skip(1) =~= digits);
    assert(digits[0] == '0' || digits[0] == numeral(n, base)[0]);
    assert(seq!['+'].skip(1) =~= Seq::<char>::empty());
}

/// What is no digit spoils a run of digits.
proof fn lemma_spoiled(s: Seq<char>, i: int, base: nat)
    requires
        0 <= i < s.len(),
        digit_value(s[i], base) is None,
    ensures
        digits_value(s, base) is None,
    decreases s.len(),
{
    if i < s.len() - 1 {
        assert(s.drop_last()[i] == s[i]);
        lemma_spoiled(s.drop_last(), i, base);
    }
}

/// Nothing is read where something stands that is no digit, but for a plus
/// sign in front; what is read is at most the limit.
pub proof fn law_only_digits_are_read(s: Seq<char>, i: int, base: nat, max: nat)
    requires
        2 <= base <= 16,
        0 <= i < s.len(),
        digit_value(s[i], base) is None,
        i > 0 || s[0] != '+',
    ensures
        number(s, base, max) is None,
{
    if s[0] == '+' {
        assert(s.skip(1)[i - 1] == s[i]);
        lemma_spoiled(s.skip(1), i - 1, base);
    } else {
        lemma_spoiled(s, i, base);
    }
}

/// Bytes that encode a text are shown as that text, whole; other bytes as
/// `String::from_utf8_lossy` has them.
pub proof fn law_bytes_are_shown_as_their_text(bytes: Seq<u8>, text: Seq<char>)
    ensures
        shown(encode_utf8(text)) == text,
        valid_utf8(bytes) ==> shown(bytes) == decode_utf8(bytes),
        !valid_utf8(bytes) ==> shown(bytes) == lossy_text(bytes),
{
    vstd::utf8::encode_utf8_valid_utf8(text);
    vstd::utf8::encode_utf8_decode_utf8(text);
}

// White space

/// White space is what Unicode lists as such, and nothing else: 25 characters.
/// In ASCII it is the vertical tab and what separates fields.
pub proof fn law_white_space_is_unicodes(c: char)
    ensures
        white_space(c) <==> seq![
            '\u{9}', '\u{a}', '\u{b}', '\u{c}', '\u{d}', '\u{20}', '\u{85}', '\u{a0}',
            '\u{1680}', '\u{2000}', '\u{2001}', '\u{2002}', '\u{2003}', '\u{2004}', '\u{2005}',
            '\u{2006}', '\u{2007}', '\u{2008}', '\u{2009}', '\u{200a}', '\u{2028}', '\u{2029}',
            '\u{202f}', '\u{205f}', '\u{3000}',
        ].contains(c),
        ascii_space(c) <==> white_space(c) && (c as int) < 128 && c != '\u{b}',
{
    let all = seq![
        '\u{9}', '\u{a}', '\u{b}', '\u{c}', '\u{d}', '\u{20}', '\u{85}', '\u{a0}',
        '\u{1680}', '\u{2000}', '\u{2001}', '\u{2002}', '\u{2003}', '\u{2004}', '\u{2005}',
        '\u{2006}', '\u{2007}', '\u{2008}', '\u{2009}', '\u{200a}', '\u{2028}', '\u{2029}',
        '\u{202f}', '\u{205f}', '\u{3000}',
    ];
    assert(all[0] == '\u{9}' && all[1] == '\u{a}' && all[2] == '\u{b}' && all[3] == '\u{c}');
    assert(all[4] == '\u{d}' && all[5] == '\u{20}' && all[6] == '\u{85}' && all[7] == '\u{a0}');
    assert(all[8] == '\u{1680}' && all[9] == '\u{2000}' && all[10] == '\u{2001}');
    assert(all[11] == '\u{2002}' && all[12] == '\u{2003}' && all[13] == '\u{2004}');
    assert(all[14] == '\u{2005}' && all[15] == '\u{2006}' && all[16] == '\u{2007}');
    assert(all[17] == '\u{2008}' && all[18] == '\u{2009}' && all[19] == '\u{200a}');
    assert(all[20] == '\u{2028}' && all[21] == '\u{2029}' && all[22] == '\u{202f}');
    assert(all[23] == '\u{205f}' && all[24] == '\u{3000}');
}

/// A text is blank just where each of its characters is white space.
pub proof fn law_blank_texts_hold_white_space_only(s: Seq<char>, c: char)
    ensures
        blank(seq![]),
        blank(s) && s.contains(c) ==> white_space(c),
        s.contains(c) && !white_space(c) ==> !blank(s),
        blank(s) && white_space(c) ==> blank(s.push(c)),
{
}

/// Where what trimming leaves of a text begins and ends in it.
proof fn lemma_trim_bounds(s: Seq<char>) -> (at: (int, int))
    ensures
        0 <= at.0 <= at.1 <= s.len(),
        s.subrange(at.0, at.1) == trimmed(s),
        forall|k: int| 0 <= k < at.0 ==> white_space(#[trigger] s[k]),
        forall|k: int| at.1 <= k < s.len() ==> white_space(#[trigger] s[k]),
        at.0 < at.1 ==> !white_space(s[at.0]) && !white_space(s[at.1 - 1]),
    decreases s.len(),
{
    if s.len() > 0 && white_space(s[0]) {
        let t = s.skip(1);
        let (i, j) = lemma_trim_bounds(t);
        assert(s.subrange(i + 1, j + 1) =~= t.subrange(i, j));
        assert forall|k: int| 0 <= k < i + 1 implies white_space(#[trigger] s[k]) by {
            if k > 0 {
                assert(t[k - 1] == s[k]);
            }
        }
        assert forall|k: int| j + 1 <= k < s.len() implies white_space(#[trigger] s[k]) by {
            assert(t[k - 1] == s[k]);
        }
        (i + 1, j + 1)
    } else if s.len() > 0 && white_space(s.last()) {
        let t = s.drop_last();
        let (i, j) = lemma_trim_bounds(t);
        assert(s.subrange(i, j) =~= t.subrange(i, j));
        assert forall|k: int| 0 <= k < i implies white_space(#[trigger] s[k]) by {
            assert(t[k] == s[k]);
        }
        assert forall|k: int| j <= k < s.len() implies white_space(#[trigger] s[k]) by {
            if k < t.len() {
                assert(t[k] == s[k]);
            }
        }
        (i, j)
    } else {
        assert(s.subrange(0, s.len() as int) =~= s);
        (0, s.len() as int)
    }
}

/// Trimming takes white space off both ends, all of it, and nothing else.
pub proof fn law_trimming_takes_the_ends_off(s: Seq<char>)
    ensures
        exists|i: int, j: int|
            0 <= i <= j <= s.len() && #[trigger] s.subrange(i, j) == trimmed(s) && blank(s.take(i))
                && blank(s.skip(j)),
        trimmed(s).len() > 0 ==> !white_space(trimmed(s)[0]) && !white_space(trimmed(s).last()),
{
    let (i, j) = lemma_trim_bounds(s);
    assert(s.subrange(i, j) == trimmed(s));
    assert(blank(s.take(i)));
    assert(blank(s.skip(j)));
}

/// Trimming the start takes white space off it, all of it, and nothing else.
pub proof fn law_trimming_the_start_keeps_the_end(s: Seq<char>)
    ensures
        exists|i: int|
            0 <= i <= s.len() && #[trigger] s.skip(i) == trimmed_start(s) && blank(s.take(i)),
        trimmed_start(s).len() > 0 ==> !white_space(trimmed_start(s)[0]),
    decreases s.len(),
{
    if s.len() > 0 && white_space(s[0]) {
        let t = s.skip(1);
        law_trimming_the_start_keeps_the_end(t);
        let i = choose|i: int|
            0 <= i <= t.len() && #[trigger] t.skip(i) == trimmed_start(t) && blank(t.take(i));
        assert(s.skip(i + 1) =~= t.skip(i));
        assert forall|k: int| 0 <= k < s.take(i + 1).len() implies white_space(
            #[trigger] s.take(i + 1)[k],
        ) by {
            if k > 0 {
                assert(t.take(i)[k - 1] == s.take(i + 1)[k]);
            }
        }
    } else {
        assert(s.skip(0) =~= s);
        assert(blank(s.take(0)));
    }
}

/// White space in front of a text counts for nothing.
pub proof fn lemma_trimmed_front(gap: Seq<char>, s: Seq<char>)
    requires
        blank(gap),
    ensures
        trimmed(gap + s) == trimmed(s),
        trimmed_start(gap + s) == trimmed_start(s),
    decreases gap.len(),
{
    if gap.len() == 0 {
        assert(gap + s =~= s);
    } else {
        assert((gap + s)[0] == gap[0]);
        assert((gap + s).skip(1) =~= gap.skip(1) + s);
        assert forall|i: int| 0 <= i < gap.skip(1).len() implies white_space(
            #[trigger] gap.skip(1)[i],
        ) by {
            assert(gap.skip(1)[i] == gap[i + 1]);
        }
        lemma_trimmed_front(gap.skip(1), s);
    }
}

/// A text between stretches of white space is what trimming leaves, where
/// neither of its ends is white space.
pub proof fn law_trimming_finds_the_text(before: Seq<char>, s: Seq<char>, after: Seq<char>)
    requires
        blank(before),
        blank(after),
        s.len() > 0 ==> !white_space(s[0]) && !white_space(s.last()),
    ensures
        trimmed(before + s + after) == s,
    decreases after.len(),
{
    assert(before + s + after =~= before + (s + after));
    lemma_trimmed_front(before, s + after);
    if s.len() == 0 {
        assert(s + after =~= after + seq![]);
        lemma_trimmed_front(after, seq![]);
        assert(s =~= Seq::<char>::empty());
    } else if after.len() == 0 {
        assert(s + after =~= s);
    } else {
        let t = s + after;
        let shorter = after.drop_last();
        assert(t.last() == after.last());
        assert(white_space(after[after.len() - 1]));
        assert(t[0] == s[0]);
        assert(t.drop_last() =~= s + shorter);
        assert forall|i: int| 0 <= i < shorter.len() implies white_space(#[trigger] shorter[i]) by {
            assert(shorter[i] == after[i]);
        }
        law_trimming_finds_the_text(seq![], s, shorter);
        assert(seq![] + s + shorter =~= s + shorter);
    }
}

// Fields

/// Whether a text holds nothing but white space that separates fields.
pub open spec fn gap(s: Seq<char>) -> bool {
    forall|i: int| 0 <= i < s.len() ==> ascii_space(#[trigger] s[i])
}

/// Whether a text holds no white space that separates fields.
pub open spec fn solid(s: Seq<char>) -> bool {
    forall|i: int| 0 <= i < s.len() ==> !ascii_space(#[trigger] s[i])
}

proof fn lemma_after_gap(before: Seq<char>, s: Seq<char>)
    requires
        gap(before),
        s.len() > 0 ==> !ascii_space(s[0]),
    ensures
        after_space(before + s) == s,
    decreases before.len(),
{
    if before.len() == 0 {
        assert(before + s =~= s);
    } else {
        assert((before + s)[0] == before[0]);
        assert((before + s).skip(1) =~= before.skip(1) + s);
        assert forall|i: int| 0 <= i < before.skip(1).len() implies ascii_space(
            #[trigger] before.skip(1)[i],
        ) by {
            assert(before.skip(1)[i] == before[i + 1]);
        }
        lemma_after_gap(before.skip(1), s);
    }
}

proof fn lemma_solid_len(word: Seq<char>, rest: Seq<char>)
    requires
        solid(word),
        rest.len() > 0 ==> ascii_space(rest[0]),
    ensures
        word_len(word + rest) == word.len(),
    decreases word.len(),
{
    let s = word + rest;
    if word.len() == 0 {
        assert(s =~= rest);
    } else {
        assert(s[0] == word[0]);
        assert(s.skip(1) =~= word.skip(1) + rest);
        assert forall|i: int| 0 <= i < word.skip(1).len() implies !ascii_space(
            #[trigger] word.skip(1)[i],
        ) by {
            assert(word.skip(1)[i] == word[i + 1]);
        }
        lemma_solid_len(word.skip(1), rest);
    }
}

/// The first field of a text is its first run of characters between white
/// space, and the others are the fields of what follows it. A text of white
/// space alone has none.
pub proof fn law_fields_stand_apart_by_white_space(
    before: Seq<char>,
    word: Seq<char>,
    rest: Seq<char>,
    n: nat,
)
    requires
        gap(before),
        solid(word),
        rest.len() > 0 ==> ascii_space(rest[0]),
    ensures
        word.len() > 0 ==> field(before + word + rest, 0) == Some(word),
        word.len() > 0 ==> field(before + word + rest, n + 1) == field(rest, n),
        field(before, n) is None,
{
    lemma_after_gap(before, seq![]);
    assert(before + seq![] =~= before);
    if word.len() > 0 {
        assert(before + word + rest =~= before + (word + rest));
        assert((word + rest)[0] == word[0]);
        lemma_after_gap(before, word + rest);
        lemma_solid_len(word, rest);
        assert((word + rest).take(word.len() as int) =~= word);
        assert((word + rest).skip(word.len() as int) =~= rest);
    }
}

/// A text begins with another just where the other stands in front of
/// something.
pub proof fn law_texts_begin_with_what_stands_in_front(p: Seq<char>, rest: Seq<char>, s: Seq<char>)
    ensures
        begins_with(p + rest, p),
        begins_with(s, p) ==> s == p + s.skip(p.len() as int),
{
    assert((p + rest).take(p.len() as int) =~= p);
    if begins_with(s, p) {
        assert(s =~= s.take(p.len() as int) + s.skip(p.len() as int));
    }
}

// Paths

/// A joined path ends with what was put behind, and begins with the base, with
/// one separator between them; a separator that the base ends with is that
/// one. An absolute path stands for itself.
pub proof fn law_joined_paths_hold_both(base: Seq<char>, rest: Seq<char>)
    ensures
        joined(base, rest).skip(joined(base, rest).len() - rest.len()) == rest,
        absolute(rest) ==> joined(base, rest) == rest,
        !absolute(rest) ==> begins_with(joined(base, rest), base),
        !absolute(rest) && base.len() > 0 && base.last() != '/' ==> joined(base, rest) == joined(
            base + seq!['/'],
            rest,
        ) && joined(base, rest).len() == base.len() + 1 + rest.len() && joined(base, rest)[base.len() as int]
            == '/',
        !absolute(rest) && (base.len() == 0 || base.last() == '/') ==> joined(base, rest) == base + rest,
{
    let j = joined(base, rest);
    assert(j.skip(j.len() - rest.len()) =~= rest);
    if !absolute(rest) {
        assert(j.take(base.len() as int) =~= base);
        if base.len() > 0 && base.last() != '/' {
            assert((base + seq!['/']).last() == '/');
            assert(j =~= (base + seq!['/']) + rest);
        }
    }
}

proof fn lemma_part_len(a: Seq<char>, rest: Seq<char>)
    requires
        !a.contains('/'),
        rest.len() > 0 ==> rest[0] == '/',
    ensures
        part_len(a + rest) == a.len(),
    decreases a.len(),
{
    if a.len() == 0 {
        assert(a + rest =~= rest);
    } else {
        assert((a + rest)[0] == a[0]);
        assert(a.contains(a[0]));
        assert((a + rest).skip(1) =~= a.skip(1) + rest);
        assert forall|c: char| a.skip(1).contains(c) implies a.contains(c) by {
            let i = choose|i: int| 0 <= i < a.skip(1).len() && a.skip(1)[i] == c;
            assert(a[i + 1] == c);
        }
        lemma_part_len(a.skip(1), rest);
    }
}

/// A name without a separator is one part, unless it is empty or a lone dot
/// behind a separator.
pub proof fn law_names_are_parts(name: Seq<char>, at_start: bool)
    requires
        !name.contains('/'),
    ensures
        name.len() > 0 && (at_start || name != seq!['.']) ==> parts(name, at_start) == seq![name],
        name.len() == 0 ==> parts(name, at_start).len() == 0,
        !at_start && name == seq!['.'] ==> parts(name, at_start).len() == 0,
{
    lemma_part_len(name, seq![]);
    assert(name + seq![] =~= name);
    assert(name.take(name.len() as int) =~= name);
}

/// The number of characters before the first separator.
proof fn lemma_part_len_bound(s: Seq<char>)
    ensures
        part_len(s) <= s.len(),
        part_len(s) < s.len() ==> s[part_len(s) as int] == '/',
        !s.take(part_len(s) as int).contains('/'),
    decreases s.len(),
{
    if s.len() > 0 && s[0] != '/' {
        lemma_part_len_bound(s.skip(1));
        let k = part_len(s) as int;
        assert(s.skip(1).take(k - 1) =~= s.take(k).skip(1));
        if s.take(k).contains('/') {
            let i = choose|i: int| 0 <= i < s.take(k).len() && s.take(k)[i] == '/';
            assert(s.skip(1).take(k - 1)[i - 1] == '/');
        }
    }
}

/// The parts of two paths with a separator between them are those of the one
/// and then those of the other.
pub proof fn law_separators_part_paths(a: Seq<char>, b: Seq<char>, at_start: bool)
    ensures
        parts(a + seq!['/'] + b, at_start) == parts(a, at_start) + parts(b, false),
    decreases a.len(),
{
    let s = a + seq!['/'] + b;
    lemma_part_len_bound(a);
    let k = part_len(a) as int;
    let head = a.take(k);
    if k < a.len() {
        let tail = a.skip(k);
        assert(a =~= head + tail);
        assert(s =~= head + (tail + seq!['/'] + b));
        assert((tail + seq!['/'] + b)[0] == '/');
        lemma_part_len(head, tail + seq!['/'] + b);
        assert(s.take(k) =~= head);
        assert(s.skip(k + 1) =~= a.skip(k + 1) + seq!['/'] + b);
        law_separators_part_paths(a.skip(k + 1), b, false);
    } else {
        assert(head =~= a);
        assert(s =~= a + (seq!['/'] + b));
        lemma_part_len(a, seq!['/'] + b);
        assert(s.take(k) =~= a);
        assert(s.skip(k + 1) =~= b);
    }
    assert(parts(s, at_start) =~= parts(a, at_start) + parts(b, false));
}

/// A path is the same with separators behind it or repeated in it and with
/// lone dots between them; and paths with different names in one directory
/// differ, as do an absolute path and another that is not.
pub proof fn law_paths_are_compared_by_parts(a: Seq<char>, b: Seq<char>, c: Seq<char>)
    ensures
        same_components(a, a),
        same_components(a, b) == same_components(b, a),
        same_components(a, b) && same_components(b, c) ==> same_components(a, c),
        a.len() > 0 ==> same_components(a, a + seq!['/']),
        same_components(a + seq!['/'] + b, a + seq!['/', '/'] + b),
        same_components(a + seq!['/'] + b, a + seq!['/', '.', '/'] + b),
        absolute(a) != absolute(b) ==> !same_components(a, b),
{
    if a.len() > 0 {
        law_separators_part_paths(a, seq![], true);
        law_names_are_parts(seq![], false);
        assert(a + seq!['/'] + seq![] =~= a + seq!['/']);
        assert(parts(a, true) + parts(seq![], false) =~= parts(a, true));
        assert((a + seq!['/'])[0] == a[0]);
    }
    law_separators_part_paths(a, b, true);
    law_separators_part_paths(a + seq!['/'], b, true);
    assert(a + seq!['/'] + seq!['/'] + b =~= a + seq!['/', '/'] + b);
    law_separators_part_paths(a, seq![], true);
    law_names_are_parts(seq![], false);
    assert(a + seq!['/'] + seq![] =~= a + seq!['/']);
    assert(parts(a, true) + parts(seq![], false) =~= parts(a, true));
    let dotted = a + seq!['/'] + seq!['.'];
    law_separators_part_paths(dotted, b, true);
    assert(dotted + seq!['/'] + b =~= a + seq!['/', '.', '/'] + b);
    law_separators_part_paths(a, seq!['.'], true);
    law_names_are_parts(seq!['.'], false);
    assert(parts(a, true) + parts(seq!['.'], false) =~= parts(a, true));
    if a.len() > 0 {
        assert((a + seq!['/'] + b)[0] == a[0]);
        assert((a + seq!['/', '/'] + b)[0] == a[0]);
        assert((a + seq!['/', '.', '/'] + b)[0] == a[0]);
    } else {
        assert((a + seq!['/'] + b)[0] == '/');
        assert((a + seq!['/', '/'] + b)[0] == '/');
        assert((a + seq!['/', '.', '/'] + b)[0] == '/');
    }
}

/// Two names in one directory are different paths.
pub proof fn law_names_tell_paths_apart(dir: Seq<char>, a: Seq<char>, b: Seq<char>)
    requires
        !a.contains('/'),
        !b.contains('/'),
        a.len() > 0,
        b.len() > 0,
        a != seq!['.'],
        b != seq!['.'],
    ensures
        same_components(dir + seq!['/'] + a, dir + seq!['/'] + b) <==> a == b,
{
    law_separators_part_paths(dir, a, true);
    law_separators_part_paths(dir, b, true);
    law_names_are_parts(a, false);
    law_names_are_parts(b, false);
    let p = parts(dir, true);
    if p + seq![a] == p + seq![b] {
        assert((p + seq![a])[p.len() as int] == a);
        assert((p + seq![b])[p.len() as int] == b);
    }
    if dir.len() > 0 {
        assert((dir + seq!['/'] + a)[0] == dir[0]);
        assert((dir + seq!['/'] + b)[0] == dir[0]);
    } else {
        assert((dir + seq!['/'] + a)[0] == '/');
        assert((dir + seq!['/'] + b)[0] == '/');
    }
}

/// A tilde and a separator at the start of a path stand for the home
/// directory, where there is one. Every other path stays as it is.
pub proof fn law_a_tilde_stands_for_home(path: Seq<char>, home: Seq<char>, rest: Seq<char>)
    ensures
        expanded(path, None) == path,
        !begins_with(path, seq!['~', '/']) ==> expanded(path, Some(home)) == path,
        expanded(seq!['~', '/'] + rest, Some(home)) == joined(home, rest),
{
    assert((seq!['~', '/'] + rest).skip(2) =~= rest);
    if path.len() >= 2 && path[0] == '~' && path[1] == '/' {
        assert(path.take(2) =~= seq!['~', '/']);
    }
}

/// A file beneath a directory is the directory, one separator and the name;
/// a separator that the directory ends with is that one.
pub proof fn law_files_stand_beneath_directories(dir: Seq<u8>, name: Seq<u8>)
    ensures
        beneath(dir, name).skip(beneath(dir, name).len() - name.len()) == name,
        beneath(dir, name).take(dir.len() as int) == dir,
        dir.len() > 0 && dir.last() != 47 ==> beneath(dir, name).len() == dir.len() + 1 + name.len()
            && beneath(dir, name)[dir.len() as int] == 47,
        dir.len() == 0 || dir.last() == 47 ==> beneath(dir, name) == dir + name,
{
    let b = beneath(dir, name);
    assert(b.skip(b.len() - name.len()) =~= name);
    assert(b.take(dir.len() as int) =~= dir);
}

} // verus!
