use tmux_snapshot::text::{
    chars_at, chars_of, classify, digit_to_char, digits_at, find_char, find_glyph, glyphs_of,
    last_segment_at, parse_u8_at, push_decimal, string_of, text_of, trim_at, trim_end_markers_at,
    Glyph,
};

fn chars(s: &str) -> Vec<char> {
    s.chars().collect()
}

#[test]
fn glyphs_carry_the_classes_of_their_characters() {
    assert_eq!(
        classify('a'),
        Glyph { c: 'a', alphanumeric: true, numeric: false, whitespace: false }
    );
    assert_eq!(classify('7'), Glyph { c: '7', alphanumeric: true, numeric: true, whitespace: false });
    assert_eq!(
        classify(' '),
        Glyph { c: ' ', alphanumeric: false, numeric: false, whitespace: true }
    );
    assert_eq!(
        classify('*'),
        Glyph { c: '*', alphanumeric: false, numeric: false, whitespace: false }
    );
    assert_eq!(
        classify('\u{00BD}'),
        Glyph { c: '\u{00BD}', alphanumeric: true, numeric: true, whitespace: false }
    );
    assert_eq!(
        classify('\u{00E9}'),
        Glyph { c: '\u{00E9}', alphanumeric: true, numeric: false, whitespace: false }
    );
    assert_eq!(
        classify('\u{2003}'),
        Glyph { c: '\u{2003}', alphanumeric: false, numeric: false, whitespace: true }
    );
    assert_eq!(glyphs_of("a 7"), vec![classify('a'), classify(' '), classify('7')]);
    assert_eq!(glyphs_of(""), Vec::<Glyph>::new());
}

#[test]
fn glyphs_give_their_characters_back() {
    let g = glyphs_of("hello world");
    assert_eq!(chars_at(&g, 0, g.len()), chars("hello world"));
    assert_eq!(chars_at(&g, 6, 8), vec!['w', 'o']);
    assert_eq!(text_of(&g, 0, g.len()), "hello world");
    assert_eq!(text_of(&g, 4, 7), "o w");
    assert_eq!(text_of(&g, 2, 2), "");
}

#[test]
fn find_glyph_gives_the_first_index_in_range() {
    let g = glyphs_of("a:b:c");
    assert_eq!(find_glyph(&g, ':', 0, 5), 1);
    assert_eq!(find_glyph(&g, ':', 2, 5), 3);
    assert_eq!(find_glyph(&g, ':', 4, 5), 5);
    assert_eq!(find_glyph(&g, 'x', 0, 5), 5);
}

#[test]
fn classes_are_read_from_the_glyphs() {
    // A glyph says what its character counts as: here a `#` that is taken
    // for a letter stays at the end of the name.
    let mut g = glyphs_of("ab#");
    assert_eq!(trim_end_markers_at(&g, 0, 3), 2);
    g[2].alphanumeric = true;
    assert_eq!(trim_end_markers_at(&g, 0, 3), 3);
    let mut g = glyphs_of("_x_");
    assert_eq!(trim_at(&g, 0, 3), (0, 3));
    g[0].whitespace = true;
    g[2].whitespace = true;
    assert_eq!(trim_at(&g, 0, 3), (1, 2));
    let mut g = glyphs_of("a1");
    assert_eq!(digits_at(&g, 0, 2), vec!['1']);
    g[0].numeric = true;
    assert_eq!(digits_at(&g, 0, 2), vec!['a', '1']);
}

#[test]
fn chars_and_strings_convert_both_ways() {
    assert_eq!(chars_of("a\u{00E9}\u{1F600}z"), vec!['a', '\u{00E9}', '\u{1F600}', 'z']);
    assert_eq!(chars_of(""), Vec::<char>::new());
    let v = chars("hello world");
    assert_eq!(string_of(&v, 0, v.len()), "hello world");
    assert_eq!(string_of(&v, 6, 11), "world");
    assert_eq!(string_of(&v, 3, 3), "");
}

#[test]
fn find_char_gives_the_first_index_in_range() {
    let v = chars("a:b:c");
    assert_eq!(find_char(&v, ':', 0, 5), 1);
    assert_eq!(find_char(&v, ':', 2, 5), 3);
    assert_eq!(find_char(&v, ':', 4, 5), 5);
    assert_eq!(find_char(&v, ':', 0, 1), 1);
    assert_eq!(find_char(&v, 'x', 0, 5), 5);
    assert_eq!(find_char(&v, ':', 2, 2), 2);
}

#[test]
fn trim_at_takes_whitespace_off_both_ends() {
    let v = glyphs_of(" \t ab cd \n");
    assert_eq!(trim_at(&v, 0, v.len()), (3, 8));
    assert_eq!(trim_at(&v, 4, 6), (4, 5));
    let blank = glyphs_of("  \u{2003} ");
    let (a, b) = trim_at(&blank, 0, blank.len());
    assert_eq!(a, b);
    assert_eq!(trim_at(&v, 5, 5), (5, 5));
    let plain = glyphs_of("xy");
    assert_eq!(trim_at(&plain, 0, 2), (0, 2));
}

#[test]
fn trim_end_markers_takes_non_alphanumerics_off_the_end() {
    let v = glyphs_of("editor*-");
    assert_eq!(trim_end_markers_at(&v, 0, v.len()), 6);
    let v = glyphs_of("a*b*");
    assert_eq!(trim_end_markers_at(&v, 0, 4), 3);
    assert_eq!(trim_end_markers_at(&v, 0, 2), 1);
    let v = glyphs_of("***");
    assert_eq!(trim_end_markers_at(&v, 0, 3), 0);
    assert_eq!(trim_end_markers_at(&v, 1, 3), 1);
    let v = glyphs_of("caf\u{00E9}!");
    assert_eq!(trim_end_markers_at(&v, 0, 5), 4);
    let v = glyphs_of("v2");
    assert_eq!(trim_end_markers_at(&v, 0, 2), 2);
}

#[test]
fn digits_at_keeps_numeric_characters_in_order() {
    let v = glyphs_of("@1x2 y\u{00BD}3");
    assert_eq!(digits_at(&v, 0, v.len()), vec!['1', '2', '\u{00BD}', '3']);
    assert_eq!(digits_at(&v, 2, 4), vec!['2']);
    assert_eq!(digits_at(&v, 0, 1), Vec::<char>::new());
}

#[test]
fn parse_u8_at_reads_small_numbers() {
    let read = |s: &str| {
        let v = chars(s);
        parse_u8_at(&v, 0, v.len())
    };
    assert_eq!(read("0"), Some(0));
    assert_eq!(read("9"), Some(9));
    assert_eq!(read("42"), Some(42));
    assert_eq!(read("255"), Some(255));
    assert_eq!(read("+255"), Some(255));
    assert_eq!(read("000"), Some(0));
    assert_eq!(read("0255"), Some(255));
    assert_eq!(read("256"), None);
    assert_eq!(read("1000"), None);
    assert_eq!(read("99999999999999999999999"), None);
    assert_eq!(read(""), None);
    assert_eq!(read("+"), None);
    assert_eq!(read("-1"), None);
    assert_eq!(read("++1"), None);
    assert_eq!(read("1+"), None);
    assert_eq!(read("1 "), None);
    assert_eq!(read("2560x"), None);
    assert_eq!(read("\u{0663}"), None);
    let v = chars("ab12cd");
    assert_eq!(parse_u8_at(&v, 2, 4), Some(12));
}

#[test]
fn parse_u8_at_agrees_with_the_standard_reader() {
    for s in ["0", "7", "+7", "007", "255", "256", "", "+", "-0", "12a", " 1", "300", "+0255"] {
        let v = chars(s);
        assert_eq!(parse_u8_at(&v, 0, v.len()), s.parse::<u8>().ok());
    }
}

#[test]
fn decimal_digits_are_written_without_leading_zeros() {
    for (n, text) in [(0u8, "0"), (5, "5"), (10, "10"), (99, "99"), (100, "100"), (109, "109"), (255, "255")] {
        let mut s = String::from("w:");
        push_decimal(&mut s, n);
        assert_eq!(s, format!("w:{}", text));
    }
    assert_eq!(digit_to_char(0), '0');
    assert_eq!(digit_to_char(4), '4');
    assert_eq!(digit_to_char(9), '9');
}

#[test]
fn every_u8_is_written_as_the_standard_formatter_writes_it() {
    for n in 0..=255u8 {
        let mut s = String::new();
        push_decimal(&mut s, n);
        assert_eq!(s, format!("{}", n));
        let v = chars(&s);
        assert_eq!(parse_u8_at(&v, 0, v.len()), Some(n));
    }
}

#[test]
fn last_segment_starts_behind_the_last_slash() {
    assert_eq!(last_segment_at(&chars("/home/user/demo")), 11);
    assert_eq!(last_segment_at(&chars("demo")), 0);
    assert_eq!(last_segment_at(&chars("demo/")), 5);
    assert_eq!(last_segment_at(&chars("")), 0);
}

#[test]
fn whitespace_is_the_white_space_property() {
    for c in (0..=0x10FFFFu32).filter_map(char::from_u32) {
        let listed = matches!(
            c,
            '\u{9}'..='\u{d}'
                | ' '
                | '\u{85}'
                | '\u{a0}'
                | '\u{1680}'
                | '\u{2000}'..='\u{200a}'
                | '\u{2028}'
                | '\u{2029}'
                | '\u{202f}'
                | '\u{205f}'
                | '\u{3000}'
        );
        assert_eq!(classify(c).whitespace, listed, "{:?}", c);
    }
}

#[test]
fn ascii_letters_and_digits_are_the_alphanumeric_ascii_characters() {
    for c in (0..=0x7Fu32).filter_map(char::from_u32) {
        let letter = matches!(c, 'a'..='z' | 'A'..='Z');
        let digit = matches!(c, '0'..='9');
        let g = classify(c);
        assert_eq!(g.alphanumeric, letter || digit, "{:?}", c);
        assert_eq!(g.numeric, digit, "{:?}", c);
    }
}
