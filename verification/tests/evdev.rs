use cua_driver::evdev::{char_keycode, keycode, keycode_of_lowercase, modifier_keycode, modifier_keycode_of_lowercase};

#[test]
fn named_keys_map_to_evdev() {
    assert_eq!(keycode("enter"), Some(28));
    assert_eq!(keycode("Escape"), Some(1));
    assert_eq!(keycode("left"), Some(105));
    assert_eq!(keycode("F5"), Some(63));
    assert_eq!(keycode("f12"), Some(88));
}

#[test]
fn letters_and_shifted_symbols() {
    assert_eq!(keycode("a"), Some(30));
    assert_eq!(keycode("z"), Some(44));
    assert_eq!(char_keycode('A'), Some((30, true)));
    assert_eq!(char_keycode('!'), Some((2, true)));
    assert_eq!(char_keycode('5'), Some((6, false)));
}

#[test]
fn modifiers_are_left_variants() {
    assert_eq!(modifier_keycode("ctrl"), Some(29));
    assert_eq!(modifier_keycode("super"), Some(125));
    assert_eq!(modifier_keycode("nope"), None);
}

#[test]
fn unknown_returns_none() {
    assert_eq!(keycode("nonsense-key"), None);
    assert_eq!(char_keycode('€'), None);
}

#[test]
fn every_key_name_has_its_code() {
    let table: [(&str, u16); 52] = [
        ("enter", 28), ("return", 28), ("esc", 1), ("escape", 1), ("tab", 15), ("space", 57),
        (" ", 57), ("backspace", 14), ("delete", 111), ("del", 111), ("insert", 110), ("ins", 110),
        ("home", 102), ("end", 107), ("pageup", 104), ("pgup", 104), ("pagedown", 109),
        ("pgdn", 109), ("up", 103), ("down", 108), ("left", 105), ("right", 106), ("minus", 12),
        ("-", 12), ("equal", 13), ("=", 13), ("comma", 51), (",", 51), ("period", 52), (".", 52),
        ("slash", 53), ("/", 53), ("semicolon", 39), (";", 39), ("apostrophe", 40), ("'", 40),
        ("leftbracket", 26), ("[", 26), ("rightbracket", 27), ("]", 27), ("backslash", 43),
        ("\\", 43), ("grave", 41), ("`", 41), ("f1", 59), ("f10", 68), ("f11", 87), ("f12", 88),
        ("f+5", 63), ("f05", 63), ("f", 33), ("\t", 15),
    ];
    for (name, code) in table {
        assert_eq!(keycode_of_lowercase(name), Some(code), "{name}");
        assert_eq!(keycode(&name.to_uppercase()), Some(code), "{name}");
    }
    for name in ["", "f0", "f13", "f65536", "f+", "ff", "entr", "ENTER"] {
        assert_eq!(keycode_of_lowercase(name), None, "{name}");
    }
    assert_eq!(keycode("ENTER"), Some(28));
}

#[test]
fn letters_follow_the_keyboard_rows() {
    let codes: [u16; 26] = [
        30, 48, 46, 32, 18, 33, 34, 35, 23, 36, 37, 38, 50, 49, 24, 25, 16, 19, 31, 20, 22, 47, 17,
        45, 21, 44,
    ];
    for (i, code) in codes.into_iter().enumerate() {
        let small = (b'a' + i as u8) as char;
        assert_eq!(char_keycode(small), Some((code, false)));
        assert_eq!(char_keycode(small.to_ascii_uppercase()), Some((code, true)));
        assert_eq!(keycode(&small.to_string()), Some(code));
        assert_eq!(keycode(&small.to_ascii_uppercase().to_string()), Some(code));
    }
}

#[test]
fn symbols_and_digits_have_their_codes() {
    let rows: [(&str, &str, u16); 4] = [
        ("1234567890-=", "!@#$%^&*()_+", 2),
        ("[]", "{}", 26),
        (";'`", ":\"~", 39),
        (",./", "<>?", 51),
    ];
    for (plain, shifted, first) in rows {
        for (i, c) in plain.chars().enumerate() {
            assert_eq!(char_keycode(c), Some((first + i as u16, false)));
        }
        for (i, c) in shifted.chars().enumerate() {
            assert_eq!(char_keycode(c), Some((first + i as u16, true)));
        }
    }
    assert_eq!(char_keycode('\\'), Some((43, false)));
    assert_eq!(char_keycode('|'), Some((43, true)));
    assert_eq!(char_keycode(' '), Some((57, false)));
    assert_eq!(char_keycode('\t'), Some((15, false)));
    assert_eq!(char_keycode('\n'), Some((28, false)));
}

#[test]
fn printable_characters_and_no_others_have_keys() {
    let mut seen: Vec<(u16, bool)> = Vec::new();
    for code in 0u32..0x300 {
        let c = char::from_u32(code).unwrap();
        let key = char_keycode(c);
        let typed = (' '..='~').contains(&c) || c == '\t' || c == '\n';
        assert_eq!(key.is_some(), typed, "{c:?}");
        if let Some(key) = key {
            assert!(!seen.contains(&key), "{c:?}");
            seen.push(key);
        }
    }
}

#[test]
fn modifier_names_have_their_codes() {
    let table: [(&str, u16); 10] = [
        ("ctrl", 29), ("control", 29), ("shift", 42), ("alt", 56), ("option", 56), ("meta", 125),
        ("super", 125), ("cmd", 125), ("command", 125), ("win", 125),
    ];
    for (name, code) in table {
        assert_eq!(modifier_keycode_of_lowercase(name), Some(code));
        assert_eq!(modifier_keycode(&name.to_uppercase()), Some(code));
    }
    assert_eq!(modifier_keycode_of_lowercase("CTRL"), None);
    assert_eq!(modifier_keycode("CTRL"), Some(29));
}

#[test]
fn names_ignore_case_and_single_characters_name_their_keys() {
    assert_eq!(keycode("PageUp"), keycode("pAGEuP"));
    assert_eq!(modifier_keycode("Super"), modifier_keycode("sUPER"));
    for code in 0u8..128 {
        let c = code as char;
        assert_eq!(keycode(&c.to_string()), char_keycode(c).map(|(k, _)| k), "{c:?}");
    }
}
