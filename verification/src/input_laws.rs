//! What holds of keys, key presses, the cursor and gestures in general.
use crate::evdev::{
    char_code, code_in_row, key_code, lemma_char_rows, lowered, modifier_code,
};
use crate::gesture::{
    after_events, asked, begun, Gesture, GestureAction, GestureEvent, GesturePhase,
};
use crate::path::beneath;
use crate::real_input::{
    candidate_paths, click_code, commanded, cursor_fields, event_text, event_texts, key_events,
    lowered_names, modifier_codes, BackendModel, Capability, KeyEvent, RealInputError, YdotoolCall, YdotoolVerb,
    CLICK_PAUSE_MS, MAX_PLACEMENT_ITERS, MOVE_SETTLE_MS,
};
use crate::text::{blank, decimal, lemma_numeral_reads_back, number, shown, trimmed, trimmed_start, white_space};
use crate::text_laws::{
    law_numbers_are_read, law_trimming_finds_the_text, law_trimming_takes_the_ends_off,
    law_trimming_the_start_keeps_the_end, lemma_trimmed_front,
};
use vstd::prelude::*;
use vstd::utf8::encode_utf8;

verus! {

// Keys

/// The key that a character is typed by.
pub open spec fn code_of(c: char) -> Option<u16> {
    match char_code(c) {
        Some((code, _)) => Some(code),
        None => None,
    }
}

/// A character's key is the one that stands at its place on a US keyboard,
/// whose rows are numbered from the left: with shift it types what is printed
/// above, without shift what is printed below.
pub proof fn law_keys_type_what_is_printed_on_them(c: char)
    ensures
        char_code(c) matches Some((k, false)) ==> (c == ' ' && k == 57) || (c == '\t' && k == 15) || (c
            == '\n' && k == 28) || (2 <= k < 14 && "1234567890-="@[k - 2] == c) || (16 <= k < 28
            && "qwertyuiop[]"@[k - 16] == c) || (30 <= k < 42 && "asdfghjkl;'`"@[k - 30] == c) || (43 <= k
            < 54 && "\\zxcvbnm,./"@[k - 43] == c),
        char_code(c) matches Some((k, true)) ==> (2 <= k < 14 && "!@#$%^&*()_+"@[k - 2] == c) || (16 <= k
            < 28 && "QWERTYUIOP{}"@[k - 16] == c) || (30 <= k < 42 && "ASDFGHJKL:\"~"@[k - 30] == c) || (43
            <= k < 54 && "|ZXCVBNM<>?"@[k - 43] == c),
{
    lemma_char_rows(c);
}

/// A name that stands for a symbol names the symbol's key, the short forms of
/// names name the same keys as the long ones, and the keys that type nothing
/// have their own.
pub proof fn law_names_lead_to_their_keys()
    ensures
        key_code("enter"@) == code_of('\n'),
        key_code("tab"@) == code_of('\t'),
        key_code("space"@) == code_of(' '),
        key_code("minus"@) == code_of('-'),
        key_code("equal"@) == code_of('='),
        key_code("comma"@) == code_of(','),
        key_code("period"@) == code_of('.'),
        key_code("slash"@) == code_of('/'),
        key_code("semicolon"@) == code_of(';'),
        key_code("apostrophe"@) == code_of('\''),
        key_code("leftbracket"@) == code_of('['),
        key_code("rightbracket"@) == code_of(']'),
        key_code("backslash"@) == code_of('\\'),
        key_code("grave"@) == code_of('`'),
        key_code("return"@) == key_code("enter"@),
        key_code("escape"@) == key_code("esc"@),
        key_code("del"@) == key_code("delete"@),
        key_code("ins"@) == key_code("insert"@),
        key_code("pgup"@) == key_code("pageup"@),
        key_code("pgdn"@) == key_code("pagedown"@),
        key_code("esc"@) == Some(1u16),
        key_code("backspace"@) == Some(14u16),
        key_code("home"@) == Some(102u16),
        key_code("up"@) == Some(103u16),
        key_code("pageup"@) == Some(104u16),
        key_code("left"@) == Some(105u16),
        key_code("right"@) == Some(106u16),
        key_code("end"@) == Some(107u16),
        key_code("down"@) == Some(108u16),
        key_code("pagedown"@) == Some(109u16),
        key_code("insert"@) == Some(110u16),
        key_code("delete"@) == Some(111u16),
{
    reveal_strlit("enter");
    reveal_strlit("return");
    reveal_strlit("esc");
    reveal_strlit("escape");
    reveal_strlit("tab");
    reveal_strlit("space");
    reveal_strlit("backspace");
    reveal_strlit("delete");
    reveal_strlit("del");
    reveal_strlit("insert");
    reveal_strlit("ins");
    reveal_strlit("home");
    reveal_strlit("end");
    reveal_strlit("pageup");
    reveal_strlit("pgup");
    reveal_strlit("pagedown");
    reveal_strlit("pgdn");
    reveal_strlit("up");
    reveal_strlit("down");
    reveal_strlit("left");
    reveal_strlit("right");
    reveal_strlit("minus");
    reveal_strlit("equal");
    reveal_strlit("comma");
    reveal_strlit("period");
    reveal_strlit("slash");
    reveal_strlit("semicolon");
    reveal_strlit("apostrophe");
    reveal_strlit("leftbracket");
    reveal_strlit("rightbracket");
    reveal_strlit("backslash");
    reveal_strlit("grave");
    assert("enter"@.len() == 5);
    assert("return"@.len() == 6);
    assert("esc"@.len() == 3);
    assert("escape"@.len() == 6);
    assert("tab"@.len() == 3);
    assert("space"@.len() == 5);
    assert("backspace"@.len() == 9);
    assert("delete"@.len() == 6);
    assert("del"@.len() == 3);
    assert("insert"@.len() == 6);
    assert("ins"@.len() == 3);
    assert("home"@.len() == 4);
    assert("end"@.len() == 3);
    assert("pageup"@.len() == 6);
    assert("pgup"@.len() == 4);
    assert("pagedown"@.len() == 8);
    assert("pgdn"@.len() == 4);
    assert("up"@.len() == 2);
    assert("down"@.len() == 4);
    assert("left"@.len() == 4);
    assert("right"@.len() == 5);
    assert("minus"@.len() == 5);
    assert("equal"@.len() == 5);
    assert("comma"@.len() == 5);
    assert("period"@.len() == 6);
    assert("slash"@.len() == 5);
    assert("semicolon"@.len() == 9);
    assert("apostrophe"@.len() == 10);
    assert("leftbracket"@.len() == 11);
    assert("rightbracket"@.len() == 12);
    assert("backslash"@.len() == 9);
    assert("grave"@.len() == 5);
    assert(code_of('\n') == Some(28u16) && code_of('\t') == Some(15u16) && code_of(' ') == Some(57u16));
    lemma_symbol_keys();
}

/// The keys of the symbols that have names.
proof fn lemma_symbol_keys()
    ensures
        code_of('-') == Some(12u16),
        code_of('=') == Some(13u16),
        code_of(',') == Some(51u16),
        code_of('.') == Some(52u16),
        code_of('/') == Some(53u16),
        code_of(';') == Some(39u16),
        code_of('\'') == Some(40u16),
        code_of('[') == Some(26u16),
        code_of(']') == Some(27u16),
        code_of('\\') == Some(43u16),
        code_of('`') == Some(41u16),
{
    reveal_strlit("1234567890-=");
    reveal_strlit("qwertyuiop[]");
    reveal_strlit("asdfghjkl;'`");
    reveal_strlit("\\zxcvbnm,./");
    lemma_symbol_key("1234567890-="@, 2, 10);
    lemma_symbol_key("1234567890-="@, 2, 11);
    lemma_symbol_key("qwertyuiop[]"@, 16, 10);
    lemma_symbol_key("qwertyuiop[]"@, 16, 11);
    lemma_symbol_key("asdfghjkl;'`"@, 30, 9);
    lemma_symbol_key("asdfghjkl;'`"@, 30, 10);
    lemma_symbol_key("asdfghjkl;'`"@, 30, 11);
    lemma_symbol_key("\\zxcvbnm,./"@, 43, 0);
    lemma_symbol_key("\\zxcvbnm,./"@, 43, 8);
    lemma_symbol_key("\\zxcvbnm,./"@, 43, 9);
    lemma_symbol_key("\\zxcvbnm,./"@, 43, 10);
    lemma_not_in_row("1234567890-="@, 2);
    lemma_not_in_row("qwertyuiop[]"@, 16);
    lemma_not_in_row("asdfghjkl;'`"@, 30);
}

/// A character that stands at a place of a row and at none before it is found
/// there.
proof fn lemma_symbol_key(row: Seq<char>, first: int, i: int)
    requires
        0 <= i < row.len() <= 12,
        forall|j: int| 0 <= j < i ==> #[trigger] row[j] != row[i],
    ensures
        code_in_row(row, first, row[i]) == Some((first + i) as u16),
{
    row.index_of_first_ensures(row[i]);
    assert(row.contains(row[i]));
}

/// A character that stands at no place of a row is not found in it.
proof fn lemma_not_in_row(row: Seq<char>, first: int)
    ensures
        forall|c: char|
            (forall|j: int| 0 <= j < row.len() ==> #[trigger] row[j] != c) ==> #[trigger] code_in_row(
                row,
                first,
                c,
            ) is None,
{
    assert forall|c: char|
        (forall|j: int| 0 <= j < row.len() ==> #[trigger] row[j] != c) implies #[trigger] code_in_row(
        row,
        first,
        c,
    ) is None by {
        row.index_of_first_ensures(c);
    }
}

/// No other name of more than one character names a key: only those of the
/// keys above, and an `f` with a number from one to twelve.
pub proof fn law_other_names_have_no_key(n: Seq<char>)
    requires
        n.len() != 1,
        key_code(n) is Some,
    ensures
        ({
            ||| n == "enter"@ || n == "return"@ || n == "esc"@ || n == "escape"@ || n == "tab"@ || n == "space"@ || n == "backspace"@ || n == "delete"@ || n == "del"@ || n == "insert"@ || n == "ins"@ || n == "home"@ || n == "end"@ || n == "pageup"@ || n == "pgup"@ || n == "pagedown"@ || n == "pgdn"@ || n == "up"@ || n == "down"@ || n == "left"@ || n == "right"@ || n == "minus"@ || n == "equal"@ || n == "comma"@ || n == "period"@ || n == "slash"@ || n == "semicolon"@ || n == "apostrophe"@ || n == "leftbracket"@ || n == "rightbracket"@ || n == "backslash"@ || n == "grave"@
            ||| n.len() > 1 && n[0] == 'f' && (number(n.skip(1), 10, 65535) matches Some(k) && 1 <= k <= 12)
        }),
{
    if n.len() > 0 && n[0] == 'f' && n.len() <= 1 {
        assert(n.skip(1) =~= Seq::<char>::empty());
    }
}

/// The function keys are named by an `f` and their number, with any zeros in
/// front of it: the first ten have successive keys, and so have the last two.
pub proof fn law_function_keys_are_numbered(n: nat, zeros: nat)
    ensures
        ({
            let name = seq!['f'] + (Seq::new(zeros, |i: int| '0') + decimal(n));
            key_code(name) == (if 1 <= n <= 10 {
                Some((58 + n) as u16)
            } else if n == 11 || n == 12 {
                Some((76 + n) as u16)
            } else {
                None
            })
        }),
{
    let digits = Seq::new(zeros, |i: int| '0') + decimal(n);
    let name = seq!['f'] + digits;
    law_numbers_are_read(n, 10, 65535, zeros);
    lemma_numeral_reads_back(n, 10);
    assert(name.skip(1) =~= digits);
    assert(name.len() > 1 && name[0] == 'f');
    reveal_strlit("enter");
    reveal_strlit("return");
    reveal_strlit("esc");
    reveal_strlit("escape");
    reveal_strlit("tab");
    reveal_strlit("space");
    reveal_strlit("backspace");
    reveal_strlit("delete");
    reveal_strlit("del");
    reveal_strlit("insert");
    reveal_strlit("ins");
    reveal_strlit("home");
    reveal_strlit("end");
    reveal_strlit("pageup");
    reveal_strlit("pgup");
    reveal_strlit("pagedown");
    reveal_strlit("pgdn");
    reveal_strlit("up");
    reveal_strlit("down");
    reveal_strlit("left");
    reveal_strlit("right");
    reveal_strlit("minus");
    reveal_strlit("equal");
    reveal_strlit("comma");
    reveal_strlit("period");
    reveal_strlit("slash");
    reveal_strlit("semicolon");
    reveal_strlit("apostrophe");
    reveal_strlit("leftbracket");
    reveal_strlit("rightbracket");
    reveal_strlit("backslash");
    reveal_strlit("grave");
}

/// The names of the modifiers, and the keys on the left-hand side that they
/// stand for. Nothing else is a modifier.
pub proof fn law_modifiers_have_their_keys(n: Seq<char>)
    ensures
        modifier_code("ctrl"@) == Some(29u16) && modifier_code("control"@) == modifier_code("ctrl"@),
        modifier_code("shift"@) == Some(42u16),
        modifier_code("alt"@) == Some(56u16) && modifier_code("option"@) == modifier_code("alt"@),
        modifier_code("super"@) == Some(125u16) && modifier_code("meta"@) == modifier_code("super"@)
            && modifier_code("cmd"@) == modifier_code("super"@) && modifier_code("command"@)
            == modifier_code("super"@) && modifier_code("win"@) == modifier_code("super"@),
        modifier_code(n) is Some ==> n == "ctrl"@ || n == "control"@ || n == "shift"@ || n == "alt"@ || n
            == "option"@ || n == "meta"@ || n == "super"@ || n == "cmd"@ || n == "command"@ || n
            == "win"@,
{
    reveal_strlit("ctrl");
    reveal_strlit("control");
    reveal_strlit("shift");
    reveal_strlit("alt");
    reveal_strlit("option");
    reveal_strlit("meta");
    reveal_strlit("super");
    reveal_strlit("cmd");
    reveal_strlit("command");
    reveal_strlit("win");
    assert("ctrl"@.len() == 4 && "control"@.len() == 7 && "shift"@.len() == 5 && "alt"@.len() == 3);
    assert("option"@.len() == 6 && "meta"@.len() == 4 && "super"@.len() == 5 && "cmd"@.len() == 3);
    assert("command"@.len() == 7 && "win"@.len() == 3);
    assert("ctrl"@[0] == 'c' && "control"@[2] == 'n' && "shift"@[1] == 'h' && "alt"@[0] == 'a');
    assert("option"@[0] == 'o' && "meta"@[0] == 'm' && "super"@[1] == 'u' && "cmd"@[0] == 'c');
    assert("command"@[2] == 'm' && "win"@[0] == 'w');
}

/// An ASCII name in capitals is brought to small letters, character by
/// character, and nothing else of it changes.
pub proof fn law_names_are_brought_to_lower_case(s: Seq<char>, i: int)
    requires
        forall|j: int| 0 <= j < s.len() ==> (#[trigger] s[j] as int) < 128,
        0 <= i < s.len(),
    ensures
        lowered(s).len() == s.len(),
        'A' <= s[i] <= 'Z' ==> lowered(s)[i] as int == s[i] as int + 32,
        !('A' <= s[i] <= 'Z') ==> lowered(s)[i] == s[i],
{
}

// Key presses

/// The codes of two lists of modifiers, one behind the other, are those of the
/// one and then those of the other.
pub proof fn law_modifiers_go_name_by_name(a: Seq<Seq<char>>, b: Seq<Seq<char>>)
    ensures
        modifier_codes(a + b) == modifier_codes(a) + modifier_codes(b),
    decreases b.len(),
{
    if b.len() == 0 {
        assert(a + b =~= a);
    } else {
        assert((a + b).drop_last() =~= a + b.drop_last());
        law_modifiers_go_name_by_name(a, b.drop_last());
    }
    assert(modifier_codes(a + b) =~= modifier_codes(a) + modifier_codes(b));
}

/// Each name in a list that is a modifier contributes its key, in order, and
/// only the names that are none are left out.
pub proof fn law_every_modifier_is_pressed(names: Seq<Seq<char>>)
    ensures
        modifier_codes(names) == names.filter(|n: Seq<char>| modifier_code(n) is Some).map_values(
            |n: Seq<char>| modifier_code(n)->0,
        ),
        (forall|i: int| 0 <= i < names.len() ==> modifier_code(#[trigger] names[i]) is Some)
            ==> modifier_codes(names).len() == names.len() && forall|i: int|
            0 <= i < names.len() ==> Some(#[trigger] modifier_codes(names)[i]) == modifier_code(names[i]),
    decreases names.len(),
{
    reveal(Seq::filter);
    let known = |n: Seq<char>| modifier_code(n) is Some;
    let code = |n: Seq<char>| modifier_code(n)->0;
    if names.len() > 0 {
        let before = names.drop_last();
        law_every_modifier_is_pressed(before);
        if known(names.last()) {
            assert(before.filter(known).push(names.last()).map_values(code) =~= before.filter(
                known,
            ).map_values(code).push(code(names.last())));
        }
        if forall|i: int| 0 <= i < names.len() ==> modifier_code(#[trigger] names[i]) is Some {
            assert forall|i: int| 0 <= i < before.len() implies modifier_code(
                #[trigger] before[i],
            ) is Some by {
                assert(before[i] == names[i]);
            }
            assert(modifier_code(names[names.len() - 1]) is Some);
            assert forall|i: int| 0 <= i < names.len() implies Some(
                #[trigger] modifier_codes(names)[i],
            ) == modifier_code(names[i]) by {
                if i < before.len() {
                    assert(modifier_codes(names)[i] == modifier_codes(before)[i]);
                    assert(before[i] == names[i]);
                }
            }
        }
    }
    assert(modifier_codes(names) =~= names.filter(known).map_values(code));
}

/// The names that a caller gives count by their lower case, one for one.
pub proof fn law_given_names_are_all_looked_at(names: Seq<&str>, i: int)
    requires
        0 <= i < names.len(),
    ensures
        lowered_names(names).len() == names.len(),
        lowered_names(names)[i] == lowered(names[i]@),
{
}

/// A press of a key with modifiers is two events for each of its keys, in the
/// order of a hand: the modifiers go down one after the other, the key goes
/// down and up, and the modifiers go up the other way round.
pub proof fn law_a_press_is_two_events_a_key(main: u16, mods: Seq<u16>, i: int)
    ensures
        key_events(main, mods).len() == 2 * mods.len() + 2,
        0 <= i < mods.len() ==> {
            &&& key_events(main, mods)[i] == (KeyEvent { code: mods[i], down: true })
            &&& key_events(main, mods)[key_events(main, mods).len() - 1 - i] == (KeyEvent {
                code: mods[i],
                down: false,
            })
        },
        key_events(main, mods)[mods.len() as int] == (KeyEvent { code: main, down: true }),
        key_events(main, mods)[mods.len() as int + 1] == (KeyEvent { code: main, down: false }),
{
    if 0 <= i < mods.len() {
        assert(mods.reverse()[mods.len() - 1 - i] == mods[i]);
    }
}

/// Each event is one argument: the key's number, a colon, and one for down or
/// zero for up.
pub proof fn law_events_are_written_one_by_one(events: Seq<KeyEvent>, i: int)
    requires
        0 <= i < events.len(),
    ensures
        event_texts(events).len() == events.len(),
        event_texts(events)[i] == decimal(events[i].code as nat) + seq![
            ':',
            if events[i].down {
                '1'
            } else {
                '0'
            },
        ],
{
    reveal_strlit(":1");
    reveal_strlit(":0");
    assert(event_text(events[i]) =~= decimal(events[i].code as nat) + seq![
        ':',
        if events[i].down {
            '1'
        } else {
            '0'
        },
    ]);
}

/// Two presses that are written alike are presses of the same key.
pub proof fn law_written_events_tell_their_keys(a: KeyEvent, b: KeyEvent)
    ensures
        event_text(a) == event_text(b) ==> a == b,
{
    reveal_strlit(":1");
    reveal_strlit(":0");
    let s = event_text(a);
    let t = event_text(b);
    lemma_numeral_reads_back(a.code as nat, 10);
    lemma_numeral_reads_back(b.code as nat, 10);
    if s == t {
        assert(s.take(s.len() - 2) =~= decimal(a.code as nat));
        assert(t.take(t.len() - 2) =~= decimal(b.code as nat));
        assert(s.last() == if a.down {
            '1'
        } else {
            '0'
        });
        assert(t.last() == if b.down {
            '1'
        } else {
            '0'
        });
    }
}

/// Each button has a click of its own: the second is the middle one and the
/// third the right one, and every other number stands for the left one.
pub proof fn law_buttons_have_clicks_of_their_own(button: u8)
    ensures
        click_code(1) == "0xC0"@,
        click_code(2) == "0xC2"@,
        click_code(3) == "0xC1"@,
        button != 2 && button != 3 ==> click_code(button) == click_code(1),
        click_code(1) != click_code(2) && click_code(2) != click_code(3) && click_code(1) != click_code(3),
{
    reveal_strlit("0xC0");
    reveal_strlit("0xC1");
    reveal_strlit("0xC2");
    assert("0xC0"@[3] == '0' && "0xC1"@[3] == '1' && "0xC2"@[3] == '2');
}

/// With ydotool, every operation is one run of it over the chosen socket, with
/// the operation's verb and arguments; it fails just with the backend that is
/// not implemented.
pub proof fn law_operations_run_ydotool(
    backend: BackendModel,
    verb: YdotoolVerb,
    rest: Seq<Seq<char>>,
    r: Result<Option<YdotoolCall>, RealInputError>,
)
    requires
        commanded(backend, verb, rest, r),
    ensures
        backend matches BackendModel::Ydotool { path } ==> (r matches Ok(Some(call)) && call.socket@
            == path && call.verb == verb && call.rest@.len() == rest.len() && forall|i: int|
            0 <= i < rest.len() ==> (#[trigger] call.rest@[i])@ == rest[i]),
        backend is DevUinput ==> r is Err,
{
    if let BackendModel::Ydotool { path } = backend {
        let call = r->Ok_0->0;
        assert forall|i: int| 0 <= i < rest.len() implies (#[trigger] call.rest@[i])@ == rest[i] by {
            assert(call@.rest[i] == call.rest@[i]@);
        }
    }
}

/// The socket is looked for at each place that is known, the likeliest first:
/// where the environment names it, in the runtime directory, in that of the
/// user's number, and always under `/tmp`, last.
pub proof fn law_sockets_are_looked_for_everywhere(
    named: Option<Seq<u8>>,
    runtime_dir: Option<Seq<u8>>,
    uid: Option<Seq<char>>,
)
    ensures
        ({
            let all = candidate_paths(named, runtime_dir, uid);
            let behind_name: int = if named is Some {
                1
            } else {
                0
            };
            let behind_dir: int = if runtime_dir is Some {
                behind_name + 1
            } else {
                behind_name
            };
            &&& all.len() >= 1 && all.last() == encode_utf8("/tmp/.ydotool_socket"@)
            &&& all.len() == behind_dir + (if uid is Some {
                2int
            } else {
                1int
            })
            &&& named matches Some(p) ==> all[0] == p
            &&& runtime_dir matches Some(d) ==> all[behind_name] == beneath(
                d,
                encode_utf8(".ydotool_socket"@),
            )
            &&& uid matches Some(u) ==> all[behind_dir] == encode_utf8(
                "/run/user/"@ + u + "/.ydotool_socket"@,
            )
        }),
{
}

// The cursor

/// White space behind a text counts for nothing.
proof fn lemma_trimmed_back(s: Seq<char>)
    requires
        s.len() > 0,
        white_space(s.last()),
    ensures
        trimmed(s) == trimmed(s.drop_last()),
    decreases s.len(),
{
    if white_space(s[0]) {
        if s.len() == 1 {
            assert(s.skip(1) =~= s.drop_last());
        } else {
            assert(s.skip(1).last() == s.last());
            lemma_trimmed_back(s.skip(1));
            assert(s.skip(1).drop_last() =~= s.drop_last().skip(1));
            assert(s.drop_last()[0] == s[0]);
        }
    }
}

/// A text is the white space at its start and a rest that begins with none.
proof fn lemma_front(s: Seq<char>) -> (parts: (Seq<char>, Seq<char>))
    ensures
        s == parts.0 + parts.1,
        blank(parts.0),
        parts.1.len() > 0 ==> !white_space(parts.1[0]),
        trimmed(parts.1) == trimmed(s),
{
    law_trimming_the_start_keeps_the_end(s);
    let i = choose|i: int|
        0 <= i <= s.len() && #[trigger] s.skip(i) == trimmed_start(s) && blank(s.take(i));
    assert(s =~= s.take(i) + s.skip(i));
    lemma_trimmed_front(s.take(i), s.skip(i));
    (s.take(i), s.skip(i))
}

/// A text is a front that ends with no white space, and the white space at its
/// end.
proof fn lemma_back(s: Seq<char>) -> (parts: (Seq<char>, Seq<char>))
    ensures
        s == parts.0 + parts.1,
        blank(parts.1),
        parts.0.len() > 0 ==> !white_space(parts.0.last()),
        trimmed(parts.0) == trimmed(s),
    decreases s.len(),
{
    if s.len() > 0 && white_space(s.last()) {
        let (front, end) = lemma_back(s.drop_last());
        lemma_trimmed_back(s);
        assert(s =~= s.drop_last().push(s.last()));
        assert((front + end).push(s.last()) =~= front + end.push(s.last()));
        (front, end.push(s.last()))
    } else {
        assert(s =~= s + seq![]);
        (s, seq![])
    }
}

/// Where a text holds its first comma.
proof fn lemma_first_comma(left: Seq<char>, right: Seq<char>)
    requires
        !left.contains(','),
    ensures
        (left + seq![','] + right).index_of_first(',') == Some(left.len() as int),
        (left + seq![','] + right).take(left.len() as int) == left,
        (left + seq![','] + right).skip(left.len() as int + 1) == right,
{
    let whole = left + seq![','] + right;
    whole.index_of_first_ensures(',');
    assert(whole[left.len() as int] == ',');
    assert(whole.contains(','));
    let i = whole.index_of_first(',')->0;
    if i < left.len() {
        assert(left[i] == ',');
    }
    assert(whole.take(left.len() as int) =~= left);
    assert(whole.skip(left.len() as int + 1) =~= right);
}

/// The cursor's two numerals are what stands before and behind the first
/// comma, without the white space around them.
pub proof fn law_the_cursor_is_read_around_the_comma(x: Seq<char>, y: Seq<char>)
    requires
        !x.contains(','),
    ensures
        cursor_fields(x + seq![','] + y) == Some((trimmed(x), trimmed(y))),
{
    let (front, left) = lemma_front(x);
    let (right, end) = lemma_back(y);
    let kept = left + seq![','] + right;
    assert(x + seq![','] + y =~= front + kept + end);
    if left.len() > 0 {
        assert(kept[0] == left[0]);
    }
    if right.len() > 0 {
        assert(kept.last() == right.last());
    }
    law_trimming_finds_the_text(front, kept, end);
    if left.contains(',') {
        let i = choose|i: int| 0 <= i < left.len() && left[i] == ',';
        assert(x[front.len() + i] == ',');
    }
    lemma_first_comma(left, right);
}

/// Without a comma no position is read of the cursor.
pub proof fn law_without_a_comma_there_is_no_cursor(said: Seq<char>)
    requires
        !said.contains(','),
    ensures
        cursor_fields(said) is None,
{
    law_trimming_takes_the_ends_off(said);
    let t = trimmed(said);
    let (i, j) = choose|i: int, j: int|
        0 <= i <= j <= said.len() && #[trigger] said.subrange(i, j) == trimmed(said) && blank(
            said.take(i),
        ) && blank(said.skip(j));
    t.index_of_first_ensures(',');
    if t.contains(',') {
        let k = choose|k: int| 0 <= k < t.len() && t[k] == ',';
        assert(said[i + k] == ',');
    }
}

/// A failure says what failed: it names the key that has no code, or what
/// ydotool was asked to do and what it said, or what can be reached.
pub proof fn law_failures_of_input_say_why(text: String, verb: YdotoolVerb)
    ensures
        RealInputError::NoKeycode(text).words() == "no evdev keycode for key '"@ + text@ + "'"@,
        (RealInputError::Ydotool { verb, said: text }).words() == "ydotool \""@ + verb.word()
            + "\" failed: "@ + text@,
        RealInputError::Unavailable(text).words() == "real-input tier unavailable: "@ + text@
            + ". Start ydotoold (e.g. `systemctl --user start ydotool` or run `ydotoold`), or make /dev/uinput writable (add your user to the 'input' group and re-login). See `cua-driver doctor`."@,
        RealInputError::CursorposFailed.words() == "hyprctl cursorpos failed"@,
        RealInputError::UnexpectedCursorpos.words() == "unexpected cursorpos output"@,
        YdotoolVerb::MouseMove.word() == "mousemove"@,
        YdotoolVerb::Click.word() == "click"@,
        YdotoolVerb::Type.word() == "type"@,
        YdotoolVerb::Key.word() == "key"@,
{
}

/// What can be reached is told in one line: the socket where there is one, and
/// otherwise whether the device can be written and, if not, whether the group
/// is the reason.
pub proof fn law_capabilities_are_told(cap: Capability)
    ensures
        cap.ydotool_socket matches Some(socket) ==> cap.summary_words() == "ydotoold socket "@ + shown(
            socket@,
        ) + " (preferred)"@,
        cap.ydotool_socket is None && cap.dev_uinput_writable ==> cap.summary_words()
            == "/dev/uinput writable but ydotoold not running — start ydotoold; direct /dev/uinput injection is a tracked follow-up"@,
        cap.ydotool_socket is None && !cap.dev_uinput_writable && cap.in_input_group
            ==> cap.summary_words() == "unavailable — no ydotoold socket and /dev/uinput not writable ("@
            + "in 'input' group"@ + ")"@,
        cap.ydotool_socket is None && !cap.dev_uinput_writable && !cap.in_input_group
            ==> cap.summary_words() == "unavailable — no ydotoold socket and /dev/uinput not writable ("@
            + "NOT in 'input' group"@ + ")"@,
{
}

// Gestures

/// A gesture whose pointer is read off target each time.
proof fn lemma_off_target(g: Gesture, events: Seq<GestureEvent>)
    requires
        begun(g),
        events.len() < MAX_PLACEMENT_ITERS,
        forall|i: int| 0 <= i < events.len() ==> #[trigger] events[i] == GestureEvent::OffTarget,
    ensures
        after_events(g, events) == (Gesture {
            clicks: g.clicks,
            phase: GesturePhase::Placing { corrections: events.len() as usize },
        }),
    decreases events.len(),
{
    if events.len() > 0 {
        let before = events.drop_last();
        assert forall|i: int| 0 <= i < before.len() implies #[trigger] before[i]
            == GestureEvent::OffTarget by {
            assert(before[i] == events[i]);
        }
        lemma_off_target(g, before);
        assert(events[events.len() - 1] == GestureEvent::OffTarget);
    }
}

/// A placement is corrected as long as there are corrections left, and only
/// then given up: the pointer is commanded eight times, and no fewer, before a
/// gesture is refused. Once the cursor is on target, the gesture clicks at
/// once, or reports after how many commands it got there if it has no click.
pub proof fn law_placements_are_not_given_up_early(g: Gesture, events: Seq<GestureEvent>)
    requires
        begun(g),
        events.len() < MAX_PLACEMENT_ITERS,
        forall|i: int| 0 <= i < events.len() ==> #[trigger] events[i] == GestureEvent::OffTarget,
    ensures
        MAX_PLACEMENT_ITERS == 8 && CLICK_PAUSE_MS == 80 && MOVE_SETTLE_MS == 60,
        asked(g, events) == GestureAction::Move,
        asked(g, events.push(GestureEvent::OffTarget)) == (if events.len() + 1 < 8 {
            GestureAction::Move
        } else {
            GestureAction::Refuse
        }),
        asked(g, events.push(GestureEvent::OnTarget)) == (if g.clicks > 0 {
            GestureAction::Click { pause_ms: 0 }
        } else {
            GestureAction::Finish { iterations: (events.len() + 1) as usize }
        }),
        asked(g, events.push(GestureEvent::Failed)) == GestureAction::Fail,
{
    lemma_off_target(g, events);
    if events.len() > 0 {
        let before = events.drop_last();
        assert forall|i: int| 0 <= i < before.len() implies #[trigger] before[i]
            == GestureEvent::OffTarget by {
            assert(before[i] == events[i]);
        }
        lemma_off_target(g, before);
        assert(events[events.len() - 1] == GestureEvent::OffTarget);
    }
    assert(events.push(GestureEvent::OffTarget).drop_last() =~= events);
    assert(events.push(GestureEvent::OnTarget).drop_last() =~= events);
    assert(events.push(GestureEvent::Failed).drop_last() =~= events);
}

/// A gesture after its placement and some clicks.
proof fn lemma_clicking(g: Gesture, placing: Seq<GestureEvent>, clicked: nat)
    requires
        begun(g),
        placing.len() < MAX_PLACEMENT_ITERS,
        forall|i: int| 0 <= i < placing.len() ==> #[trigger] placing[i] == GestureEvent::OffTarget,
        clicked < g.clicks,
    ensures
        after_events(
            g,
            placing.push(GestureEvent::OnTarget) + Seq::new(clicked, |i: int| GestureEvent::Clicked),
        ) == (Gesture {
            clicks: g.clicks,
            phase: GesturePhase::Clicking {
                iterations: (placing.len() + 1) as usize,
                clicked: clicked as usize,
            },
        }),
    decreases clicked,
{
    let done = Seq::new(clicked, |i: int| GestureEvent::Clicked);
    let placed = placing.push(GestureEvent::OnTarget);
    let events = placed + done;
    if clicked == 0 {
        assert(events =~= placed);
        assert(placed.drop_last() =~= placing);
        lemma_off_target(g, placing);
    } else {
        let less = Seq::new((clicked - 1) as nat, |i: int| GestureEvent::Clicked);
        assert(events.drop_last() =~= placed + less);
        lemma_clicking(g, placing, (clicked - 1) as nat);
        assert(events.last() == GestureEvent::Clicked);
    }
}

/// A gesture clicks as often as it is to, with a pause between two clicks, and
/// then reports after how many commands the pointer was placed. A click that
/// fails ends it.
pub proof fn law_gestures_click_to_the_end(g: Gesture, placing: Seq<GestureEvent>, clicked: nat)
    requires
        begun(g),
        placing.len() < MAX_PLACEMENT_ITERS,
        forall|i: int| 0 <= i < placing.len() ==> #[trigger] placing[i] == GestureEvent::OffTarget,
        1 <= clicked <= g.clicks,
    ensures
        ({
            let before = placing.push(GestureEvent::OnTarget) + Seq::new(
                (clicked - 1) as nat,
                |i: int| GestureEvent::Clicked,
            );
            &&& asked(g, before.push(GestureEvent::Clicked)) == (if clicked < g.clicks {
                GestureAction::Click { pause_ms: CLICK_PAUSE_MS }
            } else {
                GestureAction::Finish { iterations: (placing.len() + 1) as usize }
            })
            &&& asked(g, before.push(GestureEvent::Failed)) == GestureAction::Fail
        }),
{
    let before = placing.push(GestureEvent::OnTarget) + Seq::new(
        (clicked - 1) as nat,
        |i: int| GestureEvent::Clicked,
    );
    lemma_clicking(g, placing, (clicked - 1) as nat);
    assert(before.push(GestureEvent::Clicked).drop_last() =~= before);
    assert(before.push(GestureEvent::Failed).drop_last() =~= before);
}

} // verus!
