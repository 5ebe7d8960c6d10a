//! Key names and characters as Linux evdev keycodes.
//!
//! `ydotool key` takes the codes of `linux/input-event-codes.h`, not X11
//! keysyms. A US keyboard numbers its keys row by row, so a character's code
//! follows from its place in its row.
use vstd::prelude::*;

use crate::text::{chars_of, first_position, number, piece, read_number, same_text};

verus! {

/// The code of a character that stands in a row of keys, whose first key has
/// the code `first`.
pub open spec fn code_in_row(row: Seq<char>, first: int, c: char) -> Option<u16> {
    match row.index_of_first(c) {
        Some(i) => Some((first + i) as u16),
        None => None,
    }
}

/// The first of two codes that there is.
pub open spec fn either(a: Option<u16>, b: Option<u16>) -> Option<u16> {
    if a is Some {
        a
    } else {
        b
    }
}

/// The code of a character that is typed without the shift key.
pub open spec fn plain_code(c: char) -> Option<u16> {
    either(
        either(code_in_row("1234567890-="@, 2, c), code_in_row("qwertyuiop[]"@, 16, c)),
        either(code_in_row("asdfghjkl;'`"@, 30, c), code_in_row("\\zxcvbnm,./"@, 43, c)),
    )
}

/// The code of a character that is typed with the shift key.
pub open spec fn shifted_code(c: char) -> Option<u16> {
    either(
        either(code_in_row("!@#$%^&*()_+"@, 2, c), code_in_row("QWERTYUIOP{}"@, 16, c)),
        either(code_in_row("ASDFGHJKL:\"~"@, 30, c), code_in_row("|ZXCVBNM<>?"@, 43, c)),
    )
}

/// The code of a character and whether the shift key goes with it.
pub open spec fn char_code(c: char) -> Option<(u16, bool)> {
    if c == ' ' {
        Some((57, false))
    } else if c == '\t' {
        Some((15, false))
    } else if c == '\n' {
        Some((28, false))
    } else if let Some(code) = plain_code(c) {
        Some((code, false))
    } else if let Some(code) = shifted_code(c) {
        Some((code, true))
    } else {
        None
    }
}

/// The code of a key with a name of more than one letter.
pub open spec fn named_code(n: Seq<char>) -> Option<u16> {
    if n == "enter"@ || n == "return"@ {
        Some(28)
    } else if n == "esc"@ || n == "escape"@ {
        Some(1)
    } else if n == "tab"@ {
        Some(15)
    } else if n == "space"@ {
        Some(57)
    } else if n == "backspace"@ {
        Some(14)
    } else if n == "delete"@ || n == "del"@ {
        Some(111)
    } else if n == "insert"@ || n == "ins"@ {
        Some(110)
    } else if n == "home"@ {
        Some(102)
    } else if n == "end"@ {
        Some(107)
    } else if n == "pageup"@ || n == "pgup"@ {
        Some(104)
    } else if n == "pagedown"@ || n == "pgdn"@ {
        Some(109)
    } else if n == "up"@ {
        Some(103)
    } else if n == "down"@ {
        Some(108)
    } else if n == "left"@ {
        Some(105)
    } else if n == "right"@ {
        Some(106)
    } else {
        named_symbol_code(n)
    }
}

/// The code of a key that is named after its symbol.
pub open spec fn named_symbol_code(n: Seq<char>) -> Option<u16> {
    if n == "minus"@ {
        Some(12)
    } else if n == "equal"@ {
        Some(13)
    } else if n == "comma"@ {
        Some(51)
    } else if n == "period"@ {
        Some(52)
    } else if n == "slash"@ {
        Some(53)
    } else if n == "semicolon"@ {
        Some(39)
    } else if n == "apostrophe"@ {
        Some(40)
    } else if n == "leftbracket"@ {
        Some(26)
    } else if n == "rightbracket"@ {
        Some(27)
    } else if n == "backslash"@ {
        Some(43)
    } else if n == "grave"@ {
        Some(41)
    } else {
        None
    }
}

/// The code of a function key, `f1` to `f12`. The number is read as a `u16`,
/// with leading zeros or a plus sign in front.
pub open spec fn function_code(n: Seq<char>) -> Option<u16> {
    if n.len() == 0 || n[0] != 'f' {
        None
    } else {
        match number(n.skip(1), 10, 65535) {
            Some(k) => if 1 <= k <= 10 {
                Some((58 + k) as u16)
            } else if k == 11 {
                Some(87)
            } else if k == 12 {
                Some(88)
            } else {
                None
            },
            None => None,
        }
    }
}

/// The code of a key whose name is given in lower case. A name of one
/// character is that character's key.
pub open spec fn key_code(n: Seq<char>) -> Option<u16> {
    if n.len() == 1 {
        match char_code(n[0]) {
            Some((code, _)) => Some(code),
            None => None,
        }
    } else {
        either(named_code(n), function_code(n))
    }
}

/// The code of a modifier whose name is given in lower case: the key on the
/// left-hand side.
pub open spec fn modifier_code(n: Seq<char>) -> Option<u16> {
    if n == "ctrl"@ || n == "control"@ {
        Some(29)
    } else if n == "shift"@ {
        Some(42)
    } else if n == "alt"@ || n == "option"@ {
        Some(56)
    } else if n == "meta"@ || n == "super"@ || n == "cmd"@ || n == "command"@ || n == "win"@ {
        Some(125)
    } else {
        None
    }
}

// Lower case

/// What `str::to_lowercase` makes of a text.
pub uninterp spec fn lowercased(s: Seq<char>) -> Seq<char>;

/// Whether a text holds ASCII characters only.
pub open spec fn ascii(s: Seq<char>) -> bool {
    forall|i: int| 0 <= i < s.len() ==> (#[trigger] s[i] as int) < 128
}

/// A character with `A` to `Z` brought to lower case.
pub open spec fn ascii_lower(c: char) -> char {
    if 'A' <= c <= 'Z' {
        (c as int + 32) as char
    } else {
        c
    }
}

/// A text with `A` to `Z` brought to lower case.
pub open spec fn ascii_lowered(s: Seq<char>) -> Seq<char> {
    Seq::new(s.len(), |i: int| ascii_lower(s[i]))
}

/// A name in lower case.
pub open spec fn lowered(s: Seq<char>) -> Seq<char> {
    if ascii(s) {
        ascii_lowered(s)
    } else {
        lowercased(s)
    }
}

/// `str::to_lowercase`, which follows Unicode's mapping. In ASCII that mapping
/// takes `A` to `Z` to `a` to `z` and leaves the rest as it is.
#[verifier::external_body]
fn lowercase(s: &str) -> (r: String)
    ensures
        r@ == lowercased(s@),
        ascii(s@) ==> r@ == ascii_lowered(s@),
{
    s.to_lowercase()
}

// The keys

/// Looks a character up in a row of keys.
fn find_in_row(row: &str, first: u16, c: char) -> (r: Option<u16>)
    requires
        row@.len() <= 12,
        first <= 43,
    ensures
        r == code_in_row(row@, first as int, c),
{
    match first_position(&chars_of(row), c) {
        Some(i) => Some(first + i as u16),
        None => None,
    }
}

/// The first of two codes that there is.
fn first_code(a: Option<u16>, b: Option<u16>) -> (r: Option<u16>)
    ensures
        r == either(a, b),
{
    if a.is_some() {
        a
    } else {
        b
    }
}

/// The rows are at most twelve keys long.
proof fn lemma_rows()
    ensures
        "1234567890-="@.len() == 12,
        "qwertyuiop[]"@.len() == 12,
        "asdfghjkl;'`"@.len() == 12,
        "\\zxcvbnm,./"@.len() == 11,
        "!@#$%^&*()_+"@.len() == 12,
        "QWERTYUIOP{}"@.len() == 12,
        "ASDFGHJKL:\"~"@.len() == 12,
        "|ZXCVBNM<>?"@.len() == 11,
{
    reveal_strlit("1234567890-=");
    reveal_strlit("qwertyuiop[]");
    reveal_strlit("asdfghjkl;'`");
    reveal_strlit("\\zxcvbnm,./");
    reveal_strlit("!@#$%^&*()_+");
    reveal_strlit("QWERTYUIOP{}");
    reveal_strlit("ASDFGHJKL:\"~");
    reveal_strlit("|ZXCVBNM<>?");
}

/// The keycode of a printable ASCII character, and whether it needs the shift
/// key.
pub fn char_keycode(c: char) -> (r: Option<(u16, bool)>)
    ensures
        r == char_code(c),
{
    proof {
        lemma_rows();
    }
    if c == ' ' {
        return Some((57, false));
    }
    if c == '\t' {
        return Some((15, false));
    }
    if c == '\n' {
        return Some((28, false));
    }
    let plain = first_code(
        first_code(find_in_row("1234567890-=", 2, c), find_in_row("qwertyuiop[]", 16, c)),
        first_code(find_in_row("asdfghjkl;'`", 30, c), find_in_row("\\zxcvbnm,./", 43, c)),
    );
    if let Some(code) = plain {
        return Some((code, false));
    }
    let shifted = first_code(
        first_code(find_in_row("!@#$%^&*()_+", 2, c), find_in_row("QWERTYUIOP{}", 16, c)),
        first_code(find_in_row("ASDFGHJKL:\"~", 30, c), find_in_row("|ZXCVBNM<>?", 43, c)),
    );
    match shifted {
        Some(code) => Some((code, true)),
        None => None,
    }
}

/// Whether a name is one of two.
fn is_either(n: &str, a: &str, b: &str) -> (r: bool)
    ensures
        r == (n@ == a@ || n@ == b@),
{
    same_text(n, a) || same_text(n, b)
}

/// The code of a key with a name of more than one letter.
fn named_key(n: &str) -> (r: Option<u16>)
    ensures
        r == named_code(n@),
{
    if is_either(n, "enter", "return") {
        Some(28)
    } else if is_either(n, "esc", "escape") {
        Some(1)
    } else if same_text(n, "tab") {
        Some(15)
    } else if same_text(n, "space") {
        Some(57)
    } else if same_text(n, "backspace") {
        Some(14)
    } else if is_either(n, "delete", "del") {
        Some(111)
    } else if is_either(n, "insert", "ins") {
        Some(110)
    } else if same_text(n, "home") {
        Some(102)
    } else if same_text(n, "end") {
        Some(107)
    } else if is_either(n, "pageup", "pgup") {
        Some(104)
    } else if is_either(n, "pagedown", "pgdn") {
        Some(109)
    } else if same_text(n, "up") {
        Some(103)
    } else if same_text(n, "down") {
        Some(108)
    } else if same_text(n, "left") {
        Some(105)
    } else if same_text(n, "right") {
        Some(106)
    } else {
        named_symbol_key(n)
    }
}

/// The code of a key that is named after its symbol.
fn named_symbol_key(n: &str) -> (r: Option<u16>)
    ensures
        r == named_symbol_code(n@),
{
    if same_text(n, "minus") {
        Some(12)
    } else if same_text(n, "equal") {
        Some(13)
    } else if same_text(n, "comma") {
        Some(51)
    } else if same_text(n, "period") {
        Some(52)
    } else if same_text(n, "slash") {
        Some(53)
    } else if same_text(n, "semicolon") {
        Some(39)
    } else if same_text(n, "apostrophe") {
        Some(40)
    } else if same_text(n, "leftbracket") {
        Some(26)
    } else if same_text(n, "rightbracket") {
        Some(27)
    } else if same_text(n, "backslash") {
        Some(43)
    } else if same_text(n, "grave") {
        Some(41)
    } else {
        None
    }
}

/// The one character of a text, if it has just one.
fn single_char(n: &[char]) -> (r: Option<char>)
    ensures
        r == (if n@.len() == 1 {
            Some(n@[0])
        } else {
            None
        }),
{
    if n.len() == 1 {
        Some(n[0])
    } else {
        None
    }
}

/// The code of a function key.
fn function_key(n: &[char]) -> (r: Option<u16>)
    ensures
        r == function_code(n@),
{
    if n.len() == 0 || n[0] != 'f' {
        return None;
    }
    let digits = piece(n, 1, n.len());
    assert(digits@ =~= n@.skip(1));
    match read_number(&digits, 10, 65535) {
        Some(k) => if 1 <= k && k <= 10 {
            Some(58 + k as u16)
        } else if k == 11 {
            Some(87)
        } else if k == 12 {
            Some(88)
        } else {
            None
        },
        None => None,
    }
}

/// The keycode of a key whose name is given in lower case.
pub fn keycode_of_lowercase(n: &str) -> (r: Option<u16>)
    ensures
        r == key_code(n@),
{
    let chars = chars_of(n);
    if let Some(c) = single_char(&chars) {
        return match char_keycode(c) {
            Some((code, _)) => Some(code),
            None => None,
        };
    }
    first_code(named_key(n), function_key(&chars))
}

/// The keycode of a named key, in upper or lower case.
pub fn keycode(name: &str) -> (r: Option<u16>)
    ensures
        r == key_code(lowered(name@)),
{
    let n = lowercase(name);
    keycode_of_lowercase(n.as_str())
}

/// The keycode of a modifier whose name is given in lower case.
pub fn modifier_keycode_of_lowercase(n: &str) -> (r: Option<u16>)
    ensures
        r == modifier_code(n@),
{
    if is_either(n, "ctrl", "control") {
        Some(29)
    } else if same_text(n, "shift") {
        Some(42)
    } else if is_either(n, "alt", "option") {
        Some(56)
    } else if is_either(n, "meta", "super") || is_either(n, "cmd", "command") || same_text(n, "win") {
        Some(125)
    } else {
        None
    }
}

/// The keycode of a modifier, in upper or lower case: the key on the left-hand
/// side.
pub fn modifier_keycode(name: &str) -> (r: Option<u16>)
    ensures
        r == modifier_code(lowered(name@)),
{
    let n = lowercase(name);
    modifier_keycode_of_lowercase(n.as_str())
}

// Laws

/// A code found in a row leads back to the character.
proof fn lemma_row_lookup(row: Seq<char>, first: int, c: char)
    requires
        row.len() <= 12,
        0 <= first <= 43,
    ensures
        code_in_row(row, first, c) matches Some(code) ==> first <= code < first + row.len()
            && row[code - first] == c,
{
    row.index_of_first_ensures(c);
}

/// No two characters are typed by the same key with the same use of shift.
pub proof fn law_characters_have_keys_of_their_own(a: char, b: char)
    requires
        char_code(a) is Some,
        char_code(a) == char_code(b),
    ensures
        a == b,
{
    lemma_rows();
    lemma_char_rows(a);
    lemma_char_rows(b);
}

/// What each row says of a character.
pub proof fn lemma_char_rows(c: char)
    ensures
        code_in_row("1234567890-="@, 2, c) matches Some(k) ==> 2 <= k < 14 && "1234567890-="@[k - 2] == c,
        code_in_row("qwertyuiop[]"@, 16, c) matches Some(k) ==> 16 <= k < 28 && "qwertyuiop[]"@[k - 16] == c,
        code_in_row("asdfghjkl;'`"@, 30, c) matches Some(k) ==> 30 <= k < 42 && "asdfghjkl;'`"@[k - 30] == c,
        code_in_row("\\zxcvbnm,./"@, 43, c) matches Some(k) ==> 43 <= k < 54 && "\\zxcvbnm,./"@[k - 43] == c,
        code_in_row("!@#$%^&*()_+"@, 2, c) matches Some(k) ==> 2 <= k < 14 && "!@#$%^&*()_+"@[k - 2] == c,
        code_in_row("QWERTYUIOP{}"@, 16, c) matches Some(k) ==> 16 <= k < 28 && "QWERTYUIOP{}"@[k - 16] == c,
        code_in_row("ASDFGHJKL:\"~"@, 30, c) matches Some(k) ==> 30 <= k < 42 && "ASDFGHJKL:\"~"@[k - 30] == c,
        code_in_row("|ZXCVBNM<>?"@, 43, c) matches Some(k) ==> 43 <= k < 54 && "|ZXCVBNM<>?"@[k - 43] == c,
{
    lemma_rows();
    lemma_row_lookup("1234567890-="@, 2, c);
    lemma_row_lookup("qwertyuiop[]"@, 16, c);
    lemma_row_lookup("asdfghjkl;'`"@, 30, c);
    lemma_row_lookup("\\zxcvbnm,./"@, 43, c);
    lemma_row_lookup("!@#$%^&*()_+"@, 2, c);
    lemma_row_lookup("QWERTYUIOP{}"@, 16, c);
    lemma_row_lookup("ASDFGHJKL:\"~"@, 30, c);
    lemma_row_lookup("|ZXCVBNM<>?"@, 43, c);
}

/// A character that stands in a row has a code there.
proof fn lemma_row_holds(row: Seq<char>, first: int)
    ensures
        forall|i: int| 0 <= i < row.len() ==> code_in_row(row, first, #[trigger] row[i]) is Some,
{
    assert forall|i: int| 0 <= i < row.len() implies code_in_row(row, first, #[trigger] row[i]) is Some by {
        row.index_of_first_ensures(row[i]);
        assert(row.contains(row[i]));
    }
}

/// The characters of the rows.
proof fn lemma_row_characters()
    ensures
        "1234567890-="@ == seq!['1', '2', '3', '4', '5', '6', '7', '8', '9', '0', '-', '='],
        "qwertyuiop[]"@ == seq!['q', 'w', 'e', 'r', 't', 'y', 'u', 'i', 'o', 'p', '[', ']'],
        "asdfghjkl;'`"@ == seq!['a', 's', 'd', 'f', 'g', 'h', 'j', 'k', 'l', ';', '\'', '`'],
        "\\zxcvbnm,./"@ == seq!['\\', 'z', 'x', 'c', 'v', 'b', 'n', 'm', ',', '.', '/'],
        "!@#$%^&*()_+"@ == seq!['!', '@', '#', '$', '%', '^', '&', '*', '(', ')', '_', '+'],
        "QWERTYUIOP{}"@ == seq!['Q', 'W', 'E', 'R', 'T', 'Y', 'U', 'I', 'O', 'P', '{', '}'],
        "ASDFGHJKL:\"~"@ == seq!['A', 'S', 'D', 'F', 'G', 'H', 'J', 'K', 'L', ':', '"', '~'],
        "|ZXCVBNM<>?"@ == seq!['|', 'Z', 'X', 'C', 'V', 'B', 'N', 'M', '<', '>', '?'],
{
    lemma_rows();
    reveal_strlit("1234567890-=");
    reveal_strlit("qwertyuiop[]");
    reveal_strlit("asdfghjkl;'`");
    reveal_strlit("\\zxcvbnm,./");
    reveal_strlit("!@#$%^&*()_+");
    reveal_strlit("QWERTYUIOP{}");
    reveal_strlit("ASDFGHJKL:\"~");
    reveal_strlit("|ZXCVBNM<>?");
    assert("1234567890-="@ =~= seq!['1', '2', '3', '4', '5', '6', '7', '8', '9', '0', '-', '=']);
    assert("qwertyuiop[]"@ =~= seq!['q', 'w', 'e', 'r', 't', 'y', 'u', 'i', 'o', 'p', '[', ']']);
    assert("asdfghjkl;'`"@ =~= seq!['a', 's', 'd', 'f', 'g', 'h', 'j', 'k', 'l', ';', '\'', '`']);
    assert("\\zxcvbnm,./"@ =~= seq!['\\', 'z', 'x', 'c', 'v', 'b', 'n', 'm', ',', '.', '/']);
    assert("!@#$%^&*()_+"@ =~= seq!['!', '@', '#', '$', '%', '^', '&', '*', '(', ')', '_', '+']);
    assert("QWERTYUIOP{}"@ =~= seq!['Q', 'W', 'E', 'R', 'T', 'Y', 'U', 'I', 'O', 'P', '{', '}']);
    assert("ASDFGHJKL:\"~"@ =~= seq!['A', 'S', 'D', 'F', 'G', 'H', 'J', 'K', 'L', ':', '"', '~']);
    assert("|ZXCVBNM<>?"@ =~= seq!['|', 'Z', 'X', 'C', 'V', 'B', 'N', 'M', '<', '>', '?']);
}

/// The characters that have a key are the printable ones of ASCII, the tab and
/// the line feed.
pub proof fn law_printable_characters_have_keys(c: char)
    ensures
        char_code(c) is Some <==> ' ' <= c <= '~' || c == '\t' || c == '\n',
{
    lemma_rows();
    lemma_char_rows(c);
    lemma_row_characters();
    lemma_row_holds("1234567890-="@, 2);
    lemma_row_holds("qwertyuiop[]"@, 16);
    lemma_row_holds("asdfghjkl;'`"@, 30);
    lemma_row_holds("\\zxcvbnm,./"@, 43);
    lemma_row_holds("!@#$%^&*()_+"@, 2);
    lemma_row_holds("QWERTYUIOP{}"@, 16);
    lemma_row_holds("ASDFGHJKL:\"~"@, 30);
    lemma_row_holds("|ZXCVBNM<>?"@, 43);
    assert("1234567890-="@[0] == '1' && "1234567890-="@[1] == '2' && "1234567890-="@[2] == '3' && "1234567890-="@[3] == '4' && "1234567890-="@[4] == '5' && "1234567890-="@[5] == '6' && "1234567890-="@[6] == '7' && "1234567890-="@[7] == '8' && "1234567890-="@[8] == '9' && "1234567890-="@[9] == '0' && "1234567890-="@[10] == '-' && "1234567890-="@[11] == '=');
    assert("qwertyuiop[]"@[0] == 'q' && "qwertyuiop[]"@[1] == 'w' && "qwertyuiop[]"@[2] == 'e' && "qwertyuiop[]"@[3] == 'r' && "qwertyuiop[]"@[4] == 't' && "qwertyuiop[]"@[5] == 'y' && "qwertyuiop[]"@[6] == 'u' && "qwertyuiop[]"@[7] == 'i' && "qwertyuiop[]"@[8] == 'o' && "qwertyuiop[]"@[9] == 'p' && "qwertyuiop[]"@[10] == '[' && "qwertyuiop[]"@[11] == ']');
    assert("asdfghjkl;'`"@[0] == 'a' && "asdfghjkl;'`"@[1] == 's' && "asdfghjkl;'`"@[2] == 'd' && "asdfghjkl;'`"@[3] == 'f' && "asdfghjkl;'`"@[4] == 'g' && "asdfghjkl;'`"@[5] == 'h' && "asdfghjkl;'`"@[6] == 'j' && "asdfghjkl;'`"@[7] == 'k' && "asdfghjkl;'`"@[8] == 'l' && "asdfghjkl;'`"@[9] == ';' && "asdfghjkl;'`"@[10] == '\'' && "asdfghjkl;'`"@[11] == '`');
    assert("\\zxcvbnm,./"@[0] == '\\' && "\\zxcvbnm,./"@[1] == 'z' && "\\zxcvbnm,./"@[2] == 'x' && "\\zxcvbnm,./"@[3] == 'c' && "\\zxcvbnm,./"@[4] == 'v' && "\\zxcvbnm,./"@[5] == 'b' && "\\zxcvbnm,./"@[6] == 'n' && "\\zxcvbnm,./"@[7] == 'm' && "\\zxcvbnm,./"@[8] == ',' && "\\zxcvbnm,./"@[9] == '.' && "\\zxcvbnm,./"@[10] == '/');
    assert("!@#$%^&*()_+"@[0] == '!' && "!@#$%^&*()_+"@[1] == '@' && "!@#$%^&*()_+"@[2] == '#' && "!@#$%^&*()_+"@[3] == '$' && "!@#$%^&*()_+"@[4] == '%' && "!@#$%^&*()_+"@[5] == '^' && "!@#$%^&*()_+"@[6] == '&' && "!@#$%^&*()_+"@[7] == '*' && "!@#$%^&*()_+"@[8] == '(' && "!@#$%^&*()_+"@[9] == ')' && "!@#$%^&*()_+"@[10] == '_' && "!@#$%^&*()_+"@[11] == '+');
    assert("QWERTYUIOP{}"@[0] == 'Q' && "QWERTYUIOP{}"@[1] == 'W' && "QWERTYUIOP{}"@[2] == 'E' && "QWERTYUIOP{}"@[3] == 'R' && "QWERTYUIOP{}"@[4] == 'T' && "QWERTYUIOP{}"@[5] == 'Y' && "QWERTYUIOP{}"@[6] == 'U' && "QWERTYUIOP{}"@[7] == 'I' && "QWERTYUIOP{}"@[8] == 'O' && "QWERTYUIOP{}"@[9] == 'P' && "QWERTYUIOP{}"@[10] == '{' && "QWERTYUIOP{}"@[11] == '}');
    assert("ASDFGHJKL:\"~"@[0] == 'A' && "ASDFGHJKL:\"~"@[1] == 'S' && "ASDFGHJKL:\"~"@[2] == 'D' && "ASDFGHJKL:\"~"@[3] == 'F' && "ASDFGHJKL:\"~"@[4] == 'G' && "ASDFGHJKL:\"~"@[5] == 'H' && "ASDFGHJKL:\"~"@[6] == 'J' && "ASDFGHJKL:\"~"@[7] == 'K' && "ASDFGHJKL:\"~"@[8] == 'L' && "ASDFGHJKL:\"~"@[9] == ':' && "ASDFGHJKL:\"~"@[10] == '"' && "ASDFGHJKL:\"~"@[11] == '~');
    assert("|ZXCVBNM<>?"@[0] == '|' && "|ZXCVBNM<>?"@[1] == 'Z' && "|ZXCVBNM<>?"@[2] == 'X' && "|ZXCVBNM<>?"@[3] == 'C' && "|ZXCVBNM<>?"@[4] == 'V' && "|ZXCVBNM<>?"@[5] == 'B' && "|ZXCVBNM<>?"@[6] == 'N' && "|ZXCVBNM<>?"@[7] == 'M' && "|ZXCVBNM<>?"@[8] == '<' && "|ZXCVBNM<>?"@[9] == '>' && "|ZXCVBNM<>?"@[10] == '?');
}

/// Whether the small letters of a row stand where its capitals stand.
spec fn matching_rows(plain: Seq<char>, shifted: Seq<char>) -> bool {
    &&& plain.len() == shifted.len() <= 12
    &&& forall|i: int| 0 <= i < plain.len() ==> !('A' <= #[trigger] plain[i] <= 'Z')
    &&& forall|i: int|
        0 <= i < plain.len() ==> ('a' <= #[trigger] plain[i] <= 'z' || 'A' <= shifted[i] <= 'Z' ==> 'A'
            <= shifted[i] <= 'Z' && plain[i] == ascii_lower(shifted[i]))
}

/// A capital stands in a row where its small letter stands.
proof fn lemma_capital_in_row(plain: Seq<char>, shifted: Seq<char>, first: int, c: char)
    requires
        matching_rows(plain, shifted),
        'A' <= c <= 'Z',
    ensures
        code_in_row(plain, first, ascii_lower(c)) == code_in_row(shifted, first, c),
        code_in_row(plain, first, c) is None,
{
    let small = ascii_lower(c);
    plain.index_of_first_ensures(c);
    plain.index_of_first_ensures(small);
    shifted.index_of_first_ensures(c);
    if plain.contains(small) {
        let i = plain.index_of_first(small)->0;
        assert(plain[i] == small && shifted[i] == c);
        assert(shifted.contains(c));
    }
    if shifted.contains(c) {
        let j = shifted.index_of_first(c)->0;
        assert(plain[j] == small);
        assert(plain.contains(small));
    }
}

/// The small letters stand where the capitals stand.
proof fn lemma_matching_rows()
    ensures
        matching_rows("1234567890-="@, "!@#$%^&*()_+"@),
        matching_rows("qwertyuiop[]"@, "QWERTYUIOP{}"@),
        matching_rows("asdfghjkl;'`"@, "ASDFGHJKL:\"~"@),
        matching_rows("\\zxcvbnm,./"@, "|ZXCVBNM<>?"@),
{
    lemma_rows();
    lemma_row_characters();
}

/// A capital letter is its small letter's key with shift.
pub proof fn law_capitals_shift_the_same_key(c: char)
    requires
        'A' <= c <= 'Z',
    ensures
        (char_code(c) matches Some((code, shift)) && shift && char_code(ascii_lower(c)) == Some(
            (code, false),
        )),
{
    lemma_matching_rows();
    lemma_capital_in_row("1234567890-="@, "!@#$%^&*()_+"@, 2, c);
    lemma_capital_in_row("qwertyuiop[]"@, "QWERTYUIOP{}"@, 16, c);
    lemma_capital_in_row("asdfghjkl;'`"@, "ASDFGHJKL:\"~"@, 30, c);
    lemma_capital_in_row("\\zxcvbnm,./"@, "|ZXCVBNM<>?"@, 43, c);
    law_printable_characters_have_keys(c);
}

/// Key names and modifier names that differ in the case of ASCII letters only
/// name the same key.
pub proof fn law_names_ignore_case(a: Seq<char>, b: Seq<char>)
    requires
        ascii(a),
        ascii(b),
        a.len() == b.len(),
        forall|i: int| 0 <= i < a.len() ==> ascii_lower(#[trigger] a[i]) == ascii_lower(b[i]),
    ensures
        key_code(lowered(a)) == key_code(lowered(b)),
        modifier_code(lowered(a)) == modifier_code(lowered(b)),
{
    assert(lowered(a) =~= lowered(b));
}

/// A name of one ASCII character names the key that types the character; where
/// the character has no key, neither has the name.
pub proof fn law_single_characters_name_their_keys(c: char)
    requires
        (c as int) < 128,
    ensures
        key_code(lowered(seq![c])) == (match char_code(c) {
            Some((code, _)) => Some(code),
            None => None,
        }),
{
    let name = seq![c];
    assert(ascii(name));
    assert(lowered(name) =~= seq![ascii_lower(c)]);
    if 'A' <= c <= 'Z' {
        law_capitals_shift_the_same_key(c);
    }
}

} // verus!
