use cua_driver::path::{expand_tilde, join, put_beneath, same_path};
use cua_driver::text::{
    chars_of, first_position, is_blank, is_white_space, last_position, nth_field, push_decimal,
    push_hexadecimal, push_padded_decimal, push_signed_decimal, read_number, same_text, starts_with,
    string_list, string_of, trim, trim_start,
};

fn chars(s: &str) -> Vec<char> {
    chars_of(s)
}

#[test]
fn texts_go_to_characters_and_back() {
    for s in ["", "abc", "tür — €", "a\0b"] {
        assert_eq!(chars_of(s), s.chars().collect::<Vec<char>>());
        assert_eq!(string_of(&chars_of(s)), s);
        assert!(same_text(s, &s.to_string()));
    }
    assert!(!same_text("a", "b"));
    assert!(!same_text("a", "aa"));
    assert_eq!(string_list(&["a", "b"]), vec!["a", "b"]);
}

#[test]
fn numbers_are_written_as_std_writes_them() {
    for n in [0u64, 7, 10, 99, 100, 255, 256, 65535, 1 << 40, u64::MAX] {
        let mut s = "x".to_string();
        push_decimal(&mut s, n);
        assert_eq!(s, format!("x{n}"));
        let mut s = String::new();
        push_hexadecimal(&mut s, n);
        assert_eq!(s, format!("{n:x}"));
        let mut s = String::new();
        push_padded_decimal(&mut s, n, 5);
        assert_eq!(s, format!("{n:05}"));
    }
    for n in [0i64, -1, 42, -90, i64::MIN, i64::MAX] {
        let mut s = String::new();
        push_signed_decimal(&mut s, n);
        assert_eq!(s, n.to_string());
    }
}

#[test]
fn numbers_are_read_as_std_reads_them() {
    for s in [
        "", "+", "-", "0", "00", "+7", "++7", "-7", "65535", "65536", "12a", "ff", "FF", "fg", " 1",
        "1 ", "18446744073709551615", "18446744073709551616", "99999999999999999999999", "1_0", "٣",
    ] {
        let v = chars(s);
        assert_eq!(read_number(&v, 10, u64::MAX), s.parse::<u64>().ok(), "{s}");
        assert_eq!(read_number(&v, 10, 65535), s.parse::<u16>().ok().map(u64::from), "{s}");
        assert_eq!(read_number(&v, 16, u64::MAX), u64::from_str_radix(s, 16).ok(), "{s}");
    }
}

#[test]
fn white_space_is_what_std_takes_for_it() {
    for code in 0u32..=0x10ffff {
        if let Some(c) = char::from_u32(code) {
            assert_eq!(is_white_space(c), c.is_whitespace(), "{code:x}");
        }
    }
}

#[test]
fn trimming_is_what_std_does() {
    for s in ["", " ", "a", " a ", "\u{3000}a b\u{85}", "\n\t\u{200b}x\r\n", "  \u{2028} "] {
        assert_eq!(string_of(&trim(&chars(s))), s.trim());
        assert_eq!(string_of(&trim_start(s)), s.trim_start());
        assert_eq!(is_blank(s), s.trim().is_empty());
    }
}

#[test]
fn fields_are_what_std_splits() {
    for s in ["", "  ", "a", " a  b\tc\n", "a\u{b}b c", "x\u{a0}y z\u{c}w"] {
        let v = chars(s);
        for n in 0..5 {
            let field = nth_field(&v, n).map(|f| string_of(&f));
            assert_eq!(field.as_deref(), s.split_ascii_whitespace().nth(n), "{s:?} {n}");
        }
    }
}

#[test]
fn characters_are_found_from_either_end() {
    let v = chars("a)b)c");
    assert_eq!(first_position(&v, ')'), Some(1));
    assert_eq!(last_position(&v, ')'), Some(3));
    assert_eq!(first_position(&v, 'z'), None);
    assert_eq!(last_position(&v, 'z'), None);
    assert!(starts_with(&v, &chars("a)")));
    assert!(starts_with(&v, &[]));
    assert!(!starts_with(&v, &chars("a]")));
    assert!(!starts_with(&chars("a"), &v));
}

#[test]
fn paths_are_joined_as_std_joins_them() {
    for base in ["", "/", "a", "a/", "/a/b"] {
        for rest in ["b", "/b", "b/c", ""] {
            let expected = std::path::Path::new(base).join(rest);
            assert_eq!(join(base, rest), expected.to_str().unwrap());
        }
    }
    assert_eq!(put_beneath(b"/a", b"b"), b"/a/b".to_vec());
    assert_eq!(put_beneath(b"/a/", b"b"), b"/a/b".to_vec());
    assert_eq!(put_beneath(b"", b"b"), b"b".to_vec());
}

#[test]
fn paths_are_compared_as_std_compares_them() {
    let all = ["", "/", ".", "./a", "a", "a/", "a/.", "a//b", "a/b", "/a/b", "a/./b", "a/../b", "..", "./"];
    for a in all {
        for b in all {
            let expected = std::path::Path::new(a) == std::path::Path::new(b);
            assert_eq!(same_path(a, b), expected, "{a:?} {b:?}");
        }
    }
}

#[test]
fn home_directories_are_filled_in() {
    assert_eq!(expand_tilde("~/rec", Some("/home/u")), "/home/u/rec");
    assert_eq!(expand_tilde("~/rec", Some("/home/u/")), "/home/u/rec");
    assert_eq!(expand_tilde("~/rec", None), "~/rec");
    assert_eq!(expand_tilde("~", Some("/home/u")), "~");
    assert_eq!(expand_tilde("~u/rec", Some("/home/u")), "~u/rec");
    assert_eq!(expand_tilde("/abs/~/x", Some("/home/u")), "/abs/~/x");
    assert_eq!(expand_tilde("~//etc", Some("/home/u")), "/etc");
}
