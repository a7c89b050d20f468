use course_ics::text::{
    append, char_is_whitespace, copy_range, find, join, matches_at, remove_all, same_chars, split,
    split_once, to_chars, to_string, trim,
};

fn chars(s: &str) -> Vec<char> {
    s.chars().collect()
}

fn text(v: &[char]) -> String {
    v.iter().collect()
}

#[test]
fn to_chars_gives_the_characters_in_order() {
    assert_eq!(to_chars("a,b c"), vec!['a', ',', 'b', ' ', 'c']);
    assert_eq!(to_chars(""), Vec::<char>::new());
    assert_eq!(to_chars("né\u{3000}"), vec!['n', 'é', '\u{3000}']);
}

#[test]
fn to_string_gives_the_characters_in_order() {
    assert_eq!(to_string(&['M', 'I', 'L', ' ', '2']), "MIL 2");
    assert_eq!(to_string(&[]), "");
    assert_eq!(to_string(&['é', '越']), "é越");
}

#[test]
fn to_string_undoes_to_chars() {
    for s in ["", "Milner,room 204", "REG,[LEC],taught by Smith, Jane", "tab\there", "ü ☃"] {
        assert_eq!(to_string(&to_chars(s)), s);
    }
}

#[test]
fn copy_range_copies_the_positions_asked_for() {
    let s = chars("[LEC]");
    assert_eq!(copy_range(&s, 1, 4), chars("LEC"));
    assert_eq!(copy_range(&s, 0, 5), s);
    assert_eq!(copy_range(&s, 2, 2), Vec::<char>::new());
}

#[test]
fn append_adds_at_the_end() {
    let mut v = chars("Data");
    append(&mut v, &chars(" 250"));
    assert_eq!(v, chars("Data 250"));
    append(&mut v, &[]);
    assert_eq!(v, chars("Data 250"));
}

#[test]
fn white_space_is_what_unicode_says() {
    for c in [
        '\t', '\n', '\u{0B}', '\u{0C}', '\r', ' ', '\u{85}', '\u{A0}', '\u{1680}', '\u{2000}',
        '\u{2005}', '\u{200A}', '\u{2028}', '\u{2029}', '\u{202F}', '\u{205F}', '\u{3000}',
    ] {
        assert!(char_is_whitespace(c), "{:?}", c);
    }
    for c in ['a', '0', ',', '[', '\u{08}', '\u{0E}', '\u{1F}', '\u{200B}', '\u{180E}', '\u{FEFF}']
    {
        assert!(!char_is_whitespace(c), "{:?}", c);
    }
}

#[test]
fn white_space_agrees_with_the_standard_library() {
    let mut code: u32 = 0;
    while code <= 0x3100 {
        if let Some(c) = char::from_u32(code) {
            assert_eq!(char_is_whitespace(c), c.is_whitespace(), "{:?}", c);
        }
        code += 1;
    }
}

#[test]
fn same_chars_compares_every_character() {
    assert!(same_chars(&chars("Milner"), &chars("Milner")));
    assert!(!same_chars(&chars("Milner"), &chars("Milnes")));
    assert!(!same_chars(&chars("Milner"), &chars("Milne")));
    assert!(same_chars(&[], &[]));
}

#[test]
fn matches_at_looks_at_one_position() {
    let s = chars("a, b");
    let sep = chars(", ");
    assert!(matches_at(&s, &sep, 1));
    assert!(!matches_at(&s, &sep, 0));
    assert!(!matches_at(&s, &sep, 3));
    assert!(!matches_at(&s, &sep, 9));
    assert!(matches_at(&s, &[], 4));
    assert!(!matches_at(&s, &[], 5));
}

#[test]
fn find_returns_the_leftmost_position() {
    let s = chars("room 1, room 2");
    let word = chars("room");
    assert_eq!(find(&s, &word, 0), Some(0));
    assert_eq!(find(&s, &word, 1), Some(8));
    assert_eq!(find(&s, &word, 9), None);
    assert_eq!(find(&s, &chars("rooms"), 0), None);
    assert_eq!(find(&s, &chars("room 1, room 2 and more"), 0), None);
    assert_eq!(find(&s, &[], 3), Some(3));
    assert_eq!(find(&s, &[], 14), Some(14));
    assert_eq!(find(&[], &word, 0), None);
}

#[test]
fn split_once_cuts_at_the_leftmost_pattern() {
    let r = split_once(&chars("REG,[LEC],taught by"), &chars(","));
    assert_eq!(r, Some((chars("REG"), chars("[LEC],taught by"))));
    assert_eq!(split_once(&chars(",x"), &chars(",")), Some((chars(""), chars("x"))));
    assert_eq!(split_once(&chars("x,"), &chars(",")), Some((chars("x"), chars(""))));
    assert_eq!(split_once(&chars("no commas here"), &chars(",")), None);
    assert_eq!(split_once(&chars(""), &chars(",")), None);
}

#[test]
fn split_cuts_at_every_pattern() {
    let sep = chars(", ");
    let parts = split(&chars("Smith, Jane, Doe, John"), &sep);
    assert_eq!(parts, vec![chars("Smith"), chars("Jane"), chars("Doe"), chars("John")]);
    assert_eq!(split(&chars(""), &sep), vec![chars("")]);
    assert_eq!(split(&chars("Smith"), &sep), vec![chars("Smith")]);
    assert_eq!(split(&chars(", "), &sep), vec![chars(""), chars("")]);
    assert_eq!(split(&chars("a,, b"), &sep), vec![chars("a,"), chars("b")]);
    assert_eq!(split(&chars("a, , b"), &sep), vec![chars("a"), chars(""), chars("b")]);
    assert_eq!(split(&chars("aaa"), &chars("aa")), vec![chars(""), chars("a")]);
}

#[test]
fn split_agrees_with_the_standard_library() {
    for s in ["Smith, Jane, Doe, John", "", ", ", "a, , b, ", ",a ,b", "x,  y"] {
        let expected: Vec<Vec<char>> = s.split(", ").map(chars).collect();
        assert_eq!(split(&chars(s), &chars(", ")), expected, "{:?}", s);
    }
}

#[test]
fn split_with_an_empty_pattern_cuts_nowhere() {
    assert_eq!(split(&chars("abc"), &[]), vec![chars("abc")]);
}

#[test]
fn join_glues_with_the_separator_between() {
    let sep = chars(", ");
    assert_eq!(
        join(&vec![chars("Jane Smith"), chars("John Doe")], &sep),
        chars("Jane Smith, John Doe")
    );
    assert_eq!(join(&vec![chars("Jane Smith")], &sep), chars("Jane Smith"));
    assert_eq!(join(&vec![], &sep), chars(""));
    assert_eq!(join(&vec![chars(""), chars("")], &sep), chars(", "));
}

#[test]
fn join_undoes_split() {
    for s in ["Smith, Jane, Doe, John", "", ", ", "a, , b, ", "no separator"] {
        let sep = chars(", ");
        assert_eq!(text(&join(&split(&chars(s), &sep), &sep)), s);
    }
}

#[test]
fn remove_all_takes_every_occurrence_out() {
    assert_eq!(remove_all(&chars("room 204"), &chars("room")), chars(" 204"));
    assert_eq!(remove_all(&chars("room room 5 room"), &chars("room")), chars("  5 "));
    assert_eq!(remove_all(&chars("204"), &chars("room")), chars("204"));
    assert_eq!(remove_all(&chars("rroomoom"), &chars("room")), chars("room"));
    assert_eq!(remove_all(&chars("abc"), &[]), chars("abc"));
}

#[test]
fn remove_all_agrees_with_the_standard_library() {
    let word = chars("taught by");
    for s in [
        "taught by Smith, Jane",
        "taught bytaught by",
        "x taught by y taught by",
        "ttaught byaught by",
        "",
    ] {
        assert_eq!(text(&remove_all(&chars(s), &word)), s.replace("taught by", ""));
    }
}

#[test]
fn trim_cuts_white_space_off_both_ends() {
    assert_eq!(trim(&chars("  204 ")), chars("204"));
    assert_eq!(trim(&chars("\t\n a b \r\n")), chars("a b"));
    assert_eq!(trim(&chars("\u{3000}x\u{A0}")), chars("x"));
    assert_eq!(trim(&chars("x")), chars("x"));
    assert_eq!(trim(&chars("   ")), chars(""));
    assert_eq!(trim(&chars("")), chars(""));
}

#[test]
fn trim_agrees_with_the_standard_library() {
    for s in [" Smith, Jane ", "\u{2003}a\u{2003}", "\u{200B} a", "a  b", " \u{85} ", "\u{1680}\u{180E}"]
    {
        assert_eq!(text(&trim(&chars(s))), s.trim(), "{:?}", s);
    }
}
