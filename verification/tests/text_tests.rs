use social_api::text::{
    chars_of, find_chars, i32_to_string, replace_char_chars, splitn_chars, string_of, trim_chars,
    usize_to_string,
};

fn cs(s: &str) -> Vec<char> {
    s.chars().collect()
}

fn pieces(v: Vec<Vec<char>>) -> Vec<String> {
    v.into_iter().map(|p| p.into_iter().collect()).collect()
}

#[test]
fn trim_drops_unicode_white_space() {
    assert_eq!(string_of(&trim_chars(&cs(" \t a b \u{3000}\n"))), "a b");
    assert_eq!(string_of(&trim_chars(&cs("   "))), "");
    for s in ["", "x", "\u{a0}y\u{2029}", " z\u{85}"] {
        assert_eq!(string_of(&trim_chars(&cs(s))), s.trim());
    }
}

#[test]
fn splitn_matches_std() {
    for (s, n, p) in [
        ("a: b: c", 2usize, ": "),
        ("GET / HTTP/1.1", 3, " "),
        ("no-match", 2, "?"),
        ("", 2, ":"),
        ("a  b", 3, " "),
        ("x?y?z", 0, "?"),
        ("::", 3, ":"),
    ] {
        let expected: Vec<String> = s.splitn(n, p).map(|x| x.to_string()).collect();
        assert_eq!(pieces(splitn_chars(&cs(s), n, &cs(p))), expected);
    }
}

#[test]
fn find_gives_first_position() {
    assert_eq!(find_chars(&cs("abcabc"), &cs("ca")), Some(2));
    assert_eq!(find_chars(&cs("abc"), &cs("abcd")), None);
    assert_eq!(find_chars(&cs("abc"), &cs("")), Some(0));
}

#[test]
fn replace_char_matches_std() {
    let q: Vec<char> = cs("\\'");
    assert_eq!(string_of(&replace_char_chars(&cs("it's 'x'"), '\'', &q)), "it's 'x'".replace("'", "\\'"));
    assert_eq!(string_of(&replace_char_chars(&cs("a-b-c"), '-', &Vec::new())), "abc");
}

#[test]
fn decimal_rendering_matches_to_string() {
    for n in [0usize, 7, 10, 99, 1234567890, usize::MAX] {
        assert_eq!(usize_to_string(n), n.to_string());
    }
    for n in [0i32, -1, 42, i32::MIN, i32::MAX] {
        assert_eq!(i32_to_string(n), n.to_string());
    }
}

#[test]
fn chars_round_trip() {
    assert_eq!(string_of(&chars_of("héllo")), "héllo");
}
