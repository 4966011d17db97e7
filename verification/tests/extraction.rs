use tmux_snapshot::object::{
    extract_layout, parse_raw_string_tuple, Pane, ParseError, Session, Window, WindowListing,
};
use tmux_snapshot::text::glyphs_of;

fn lines(items: &[&str]) -> Vec<String> {
    items.iter().map(|s| s.to_string()).collect()
}

fn listing(line: &str, panes: &[&str]) -> WindowListing {
    WindowListing { line: line.to_string(), panes: lines(panes) }
}

#[test]
fn session_line_gives_name_and_count() {
    let header = Session::extract_header("work: 2 windows (created ...) [layout]");
    assert_eq!(header, Ok(("work".to_string(), 2)));
}

#[test]
fn session_line_with_marker_glyphs() {
    let header = Session::extract_header("dev-*: 12 windows (created Tue) (attached)");
    assert_eq!(header, Ok(("dev".to_string(), 12)));
}

#[test]
fn session_name_keeps_inner_markers() {
    let header = Session::extract_header("my-proj_2!: 3 windows");
    assert_eq!(header, Ok(("my-proj_2".to_string(), 3)));
}

#[test]
fn session_count_accepts_plus_and_leading_zeros() {
    assert_eq!(Session::extract_header("a: +7 windows"), Ok(("a".to_string(), 7)));
    assert_eq!(Session::extract_header("a: 007 windows"), Ok(("a".to_string(), 7)));
    assert_eq!(Session::extract_header("a: 255 windows"), Ok(("a".to_string(), 255)));
}

#[test]
fn session_count_that_is_no_number_fails() {
    assert_eq!(Session::extract_header("work: two windows"), Err(ParseError::WindowCount));
    assert_eq!(Session::extract_header("work: -2 windows"), Err(ParseError::WindowCount));
    assert_eq!(Session::extract_header("work: + windows"), Err(ParseError::WindowCount));
    assert_eq!(Session::extract_header("work: 2w windows"), Err(ParseError::WindowCount));
}

#[test]
fn session_count_out_of_range_fails() {
    assert_eq!(Session::extract_header("work: 256 windows"), Err(ParseError::WindowCount));
    assert_eq!(Session::extract_header("work: 0000000300 windows"), Err(ParseError::WindowCount));
}

#[test]
fn session_line_without_count_token_fails() {
    assert_eq!(Session::extract_header("work: 2"), Err(ParseError::WindowCount));
    assert_eq!(Session::extract_header("work:"), Err(ParseError::WindowCount));
    assert_eq!(Session::extract_header("work:    "), Err(ParseError::WindowCount));
}

#[test]
fn session_line_without_colon_fails() {
    assert_eq!(Session::extract_header("work 2 windows"), Err(ParseError::Delimiter));
    assert_eq!(Session::extract_header(""), Err(ParseError::Delimiter));
}

#[test]
fn session_line_is_cut_at_the_first_colon() {
    let header = Session::extract_header("a:b: 4 windows");
    assert_eq!(header, Err(ParseError::WindowCount));
    let header = Session::extract_header("a: 4 windows (created 10:30)");
    assert_eq!(header, Ok(("a".to_string(), 4)));
}

#[test]
fn raw_tuple_is_cut_at_the_first_colon() {
    assert_eq!(
        parse_raw_string_tuple("1: editor: x"),
        Ok(("1".to_string(), " editor: x".to_string()))
    );
    assert_eq!(parse_raw_string_tuple(":"), Ok((String::new(), String::new())));
    assert_eq!(parse_raw_string_tuple("no delimiter"), Err(ParseError::Delimiter));
}

#[test]
fn window_line_gives_id_name_and_layout() {
    let l = listing(
        "1: editor* (1 panes) [8ea0,150x40,0,0{75x40,0,0,1,74x40,76,0,2}]",
        &["0: [75x40] [history 0/2000, 0 bytes] %1 (active)"],
    );
    let w = Window::extract_window(&l).unwrap();
    assert_eq!(w.id, 1);
    assert_eq!(w.name, "editor");
    assert_eq!(w.layout, "8ea0,150x40,0,0{75x40,0,0,1,74x40,76,0,2}");
    assert_eq!(w.pane_count, 1);
    assert_eq!(w.panes, Some(vec![Pane { id: 0 }]));
}

#[test]
fn window_pane_count_is_the_number_of_pane_lines() {
    let l = listing("3: logs- (9 panes) [abcd]", &["0: a", "1: b", "2: c"]);
    let w = Window::extract_window(&l).unwrap();
    assert_eq!(w.id, 3);
    assert_eq!(w.name, "logs");
    assert_eq!(w.layout, "abcd");
    assert_eq!(w.pane_count, 3);
    assert_eq!(w.panes, Some(vec![Pane { id: 0 }, Pane { id: 1 }, Pane { id: 2 }]));
}

#[test]
fn window_with_unreadable_panes_keeps_count_and_drops_panes() {
    let l = listing("2: shell (2 panes) [xy]", &["0: ok", "broken line"]);
    let w = Window::extract_window(&l).unwrap();
    assert_eq!(w.pane_count, 2);
    assert_eq!(w.panes, None);
}

#[test]
fn window_id_reads_digits_among_markers() {
    assert_eq!(Window::extract_id("@1x2: name rest"), Ok(12));
    assert_eq!(Window::extract_id(" 7 : name rest"), Ok(7));
    assert_eq!(Window::extract_id("255: name rest"), Ok(255));
}

#[test]
fn window_id_missing_or_too_large_fails() {
    assert_eq!(Window::extract_id("x: name rest"), Err(ParseError::WindowId));
    assert_eq!(Window::extract_id(": name rest"), Err(ParseError::WindowId));
    assert_eq!(Window::extract_id("256: name rest"), Err(ParseError::WindowId));
    assert_eq!(Window::extract_id("no delimiter"), Err(ParseError::Delimiter));
}

#[test]
fn window_id_with_other_numeric_characters_fails() {
    // A numeric character that is no decimal digit of ASCII is kept by the
    // filter and refused by the number reader.
    assert_eq!(Window::extract_id("1\u{00BD}: name rest"), Err(ParseError::WindowId));
    assert_eq!(Window::extract_id("\u{0663}: name rest"), Err(ParseError::WindowId));
}

#[test]
fn window_line_without_name_token_fails() {
    let l = listing("1: editor", &[]);
    assert_eq!(Window::extract_window(&l), Err(ParseError::WindowName));
    let l = listing("1:", &[]);
    assert_eq!(Window::extract_window(&l), Err(ParseError::WindowName));
}

#[test]
fn window_id_error_comes_before_name_error() {
    let l = listing("x: editor", &[]);
    assert_eq!(Window::extract_window(&l), Err(ParseError::WindowId));
    let l = listing("editor", &[]);
    assert_eq!(Window::extract_window(&l), Err(ParseError::Delimiter));
}

#[test]
fn window_name_made_of_markers_is_empty() {
    let l = listing("4: *** (1 panes)", &["0: p"]);
    let w = Window::extract_window(&l).unwrap();
    assert_eq!(w.name, "");
    assert_eq!(w.layout, "");
}

#[test]
fn window_name_is_trimmed_of_surrounding_whitespace() {
    let l = listing("4:\t  vim\u{00A0}* (1 panes)", &["0: p"]);
    let w = Window::extract_window(&l).unwrap();
    assert_eq!(w.name, "vim");
}

#[test]
fn windows_come_in_listing_order() {
    let ls = vec![
        listing("5: first* (1 panes) [80x24] [layout a1] @5 (active)", &["0: p"]),
        listing("2: second- (2 panes) [80x24] [layout a2] @2", &["0: p", "1: p"]),
        listing("9: third (1 panes) [a3]", &["4: p"]),
    ];
    let ws = Window::extract_windows(&ls).unwrap();
    assert_eq!(ws.len(), 3);
    assert_eq!((ws[0].id, ws[0].name.as_str(), ws[0].layout.as_str()), (5, "first", "a1"));
    assert_eq!((ws[1].id, ws[1].name.as_str(), ws[1].layout.as_str()), (2, "second", "a2"));
    assert_eq!((ws[2].id, ws[2].name.as_str(), ws[2].layout.as_str()), (9, "third", "a3"));
    assert_eq!(ws[1].pane_count, 2);
    assert_eq!(ws[2].panes, Some(vec![Pane { id: 4 }]));
}

#[test]
fn windows_fail_with_the_first_unreadable_line() {
    let ls = vec![
        listing("1: a (1 panes)", &["0: p"]),
        listing("2: b", &["0: p"]),
        listing("x: c (1 panes)", &["0: p"]),
    ];
    assert_eq!(Window::extract_windows(&ls), Err(ParseError::WindowName));
    assert_eq!(Window::extract_windows(&Vec::new()), Ok(Vec::new()));
}

#[test]
fn pane_lines_give_ids() {
    assert_eq!(Pane::extract_pane("0: [75x40] %1 (active)"), Ok(Pane { id: 0 }));
    assert_eq!(Pane::extract_pane("%12: [75x40]"), Ok(Pane { id: 12 }));
    assert_eq!(
        Pane::extract_panes(&lines(&["0: a", "1: b", "17: c"])),
        Ok(vec![Pane { id: 0 }, Pane { id: 1 }, Pane { id: 17 }])
    );
    assert_eq!(Pane::extract_panes(&Vec::new()), Ok(Vec::new()));
}

#[test]
fn pane_lines_without_digits_or_with_overflow_fail() {
    assert_eq!(Pane::extract_pane("x: a"), Err(ParseError::PaneId));
    assert_eq!(Pane::extract_pane("300: a"), Err(ParseError::PaneId));
    assert_eq!(Pane::extract_pane("7 a"), Err(ParseError::Delimiter));
    assert_eq!(
        Pane::extract_panes(&lines(&["0: a", "nothing", "x: c"])),
        Err(ParseError::Delimiter)
    );
    assert_eq!(Pane::extract_panes(&lines(&["0: a", "x: c", "nothing"])), Err(ParseError::PaneId));
}

#[test]
fn layout_is_what_the_keyword_token_holds() {
    assert_eq!(
        extract_layout(
            "1: editor* (2 panes) [150x40] [layout 8ea0,150x40,0,0{75x40,0,0,1,74x40,76,0,2}] @1 (active)"
        ),
        "8ea0,150x40,0,0{75x40,0,0,1,74x40,76,0,2}"
    );
    assert_eq!(
        extract_layout("3: vim* (1 panes) [80x24] [layout b25f,80x24,0,0,3] @3 (active)"),
        "b25f,80x24,0,0,3"
    );
    assert_eq!(extract_layout("x [layout abc] y"), "abc");
    assert_eq!(extract_layout("x [layout abc]"), "abc");
    assert_eq!(extract_layout("[layout ] y"), "");
    assert_eq!(extract_layout("[l a b c] y"), "a b c");
}

#[test]
fn layout_may_hold_brackets_of_its_own() {
    assert_eq!(
        extract_layout(
            "2: logs- (2 panes) [150x40] [layout a1b2,150x40,0,0[150x20,0,0,3,150x19,0,21,4]] @2"
        ),
        "a1b2,150x40,0,0[150x20,0,0,3,150x19,0,21,4]"
    );
    assert_eq!(extract_layout("2: b [layout a[b]c]"), "a[b]c");
    assert_eq!(extract_layout("2: b [a[b]c]"), "a[b]c");
}

#[test]
fn layout_of_a_bare_token_that_closes_the_line() {
    assert_eq!(
        extract_layout("1: editor* (1 panes) [8ea0,150x40,0,0{75x40,0,0,1,74x40,76,0,2}]"),
        "8ea0,150x40,0,0{75x40,0,0,1,74x40,76,0,2}"
    );
    assert_eq!(extract_layout("[]"), "");
    assert_eq!(extract_layout("[x]"), "x");
    assert_eq!(extract_layout("a] [x]"), "x");
}

#[test]
fn size_token_is_no_layout() {
    assert_eq!(extract_layout("1: editor* (1 panes) [150x40] @1 (active)"), "");
    assert_eq!(extract_layout("1: a (1 panes) [c59f,80x24,0,0,3] @3 (active)"), "");
    assert_eq!(extract_layout("x [one] [two]"), "");
    assert_eq!(extract_layout("x [one] two"), "");
}

#[test]
fn layout_is_empty_without_a_token() {
    assert_eq!(extract_layout("1: editor* (1 panes)"), "");
    assert_eq!(extract_layout(""), "");
    assert_eq!(extract_layout("1: editor ] ["), "");
    assert_eq!(extract_layout("1: editor [never closed"), "");
    assert_eq!(extract_layout("1: editor [closed]without boundary"), "");
    assert_eq!(extract_layout("1: editor [layout never closed"), "");
    assert_eq!(extract_layout("1: editor [layout closed]without boundary"), "");
    assert_eq!(extract_layout("work: 2 windows (created ...) [layout]"), "");
    assert_eq!(extract_layout("["), "");
    assert_eq!(extract_layout("[l"), "");
}

#[test]
fn layout_is_taken_from_the_first_keyword_token() {
    assert_eq!(extract_layout("x [layout one] [layout two]"), "one");
    assert_eq!(extract_layout("x [layout one]y] z"), "one]y");
    assert_eq!(extract_layout("x [8ea0] [layout one] [two]"), "one");
    assert_eq!(extract_layout("x [layout one [layout two] z"), "one [layout two");
    // The keyword runs through the first space behind its `[`, wherever
    // that space stands.
    assert_eq!(extract_layout("1: editor [layout] [8ea0]"), "[8ea0");
}

#[test]
fn windows_of_a_live_listing() {
    let ls = vec![
        listing("3: vim* (1 panes) [80x24] [layout b25f,80x24,0,0,3] @3 (active)", &["0: [80x24]"]),
        listing("7: logs- (1 panes) [80x24] [layout b260,80x24,0,0,7] @7", &["0: [80x24]"]),
    ];
    let ws = Window::extract_windows(&ls).unwrap();
    assert_eq!(ws.len(), 2);
    assert_eq!((ws[0].id, ws[0].name.as_str(), ws[0].layout.as_str()), (3, "vim", "b25f,80x24,0,0,3"));
    assert_eq!((ws[1].id, ws[1].name.as_str(), ws[1].layout.as_str()), (7, "logs", "b260,80x24,0,0,7"));
    assert_eq!(ws[0].pane_count, 1);
    assert_eq!(ws[1].pane_count, 1);
    assert_eq!(ws[0].panes, Some(vec![Pane { id: 0 }]));
}

#[test]
fn session_with_windows() {
    let ls = vec![
        listing("1: editor* (1 panes) [8ea0,150x40,0,0{75x40,0,0,1,74x40,76,0,2}]", &["0: p"]),
        listing("2: shell- (2 panes) [aaaa,1x1,0,0]", &["0: p", "1: p"]),
    ];
    let s = Session::extract_session("work: 2 windows (created ...) [layout]", &ls).unwrap();
    assert_eq!(s.name, "work");
    assert_eq!(s.window_count, 2);
    let ws = s.windows.unwrap();
    assert_eq!(ws.len(), 2);
    assert_eq!(ws[0].id, 1);
    assert_eq!(ws[0].name, "editor");
    assert_eq!(ws[0].layout, "8ea0,150x40,0,0{75x40,0,0,1,74x40,76,0,2}");
    assert_eq!(ws[1].name, "shell");
    assert_eq!(ws[1].pane_count, 2);
}

#[test]
fn session_with_unreadable_windows_is_still_a_session() {
    let ls = vec![listing("broken", &[])];
    let s = Session::extract_session("work: 2 windows", &ls).unwrap();
    assert_eq!(s.name, "work");
    assert_eq!(s.window_count, 2);
    assert_eq!(s.windows, None);
}

#[test]
fn session_line_error_is_not_hidden_by_windows() {
    let ls = vec![listing("1: a (1 panes)", &["0: p"])];
    assert_eq!(Session::extract_session("work: many windows", &ls), Err(ParseError::WindowCount));
    assert_eq!(Session::extract_session("work", &ls), Err(ParseError::Delimiter));
}

#[test]
fn readers_of_glyphs_agree_with_the_readers_of_lines() {
    for line in [
        "work: 2 windows (created ...) [layout]",
        "1: editor* (1 panes) [8ea0,150x40,0,0{75x40,0,0,1,74x40,76,0,2}]",
        "0: [75x40] [history 0/2000, 0 bytes] %1 (active)",
        "no delimiter",
        "x: y",
        ": 300 z",
        "",
    ] {
        let g = glyphs_of(line);
        assert_eq!(Session::read_header(&g), Session::extract_header(line));
        assert_eq!(Window::read_id(&g), Window::extract_id(line));
        assert_eq!(Pane::read(&g), Pane::extract_pane(line));
    }
    assert_eq!(
        Window::read_name(&glyphs_of("1: editor* (1 panes) [x]")),
        Ok("editor".to_string())
    );
    assert_eq!(Window::read_name(&glyphs_of("1: editor")), Err(ParseError::WindowName));
    assert_eq!(Window::read_name(&glyphs_of("editor")), Err(ParseError::Delimiter));
}

#[test]
fn readers_of_glyphs_go_by_the_classes_given() {
    let mut g = glyphs_of("w#: 2 windows");
    assert_eq!(Session::read_header(&g), Ok(("w".to_string(), 2)));
    g[1].alphanumeric = true;
    assert_eq!(Session::read_header(&g), Ok(("w#".to_string(), 2)));
    let mut g = glyphs_of("a1: name rest");
    assert_eq!(Window::read_id(&g), Ok(1));
    g[0].numeric = true;
    assert_eq!(Window::read_id(&g), Err(ParseError::WindowId));
}

#[test]
fn session_lines_of_every_count_give_name_and_count() {
    for n in 0..=255u8 {
        for (name, markers) in [("work", ""), ("dev", "*"), ("caf\u{00E9}", "-!"), ("a1", "()")] {
            let line = format!("{}{}: {} windows (created now) [80x24]", name, markers, n);
            assert_eq!(Session::extract_header(&line), Ok((name.to_string(), n)));
            let session = Session::extract_session(&line, &Vec::new()).unwrap();
            assert_eq!(session.name, name);
            assert_eq!(session.window_count, n);
        }
    }
}

#[test]
fn session_lines_with_a_malformed_count_give_no_session() {
    for token in ["two", "2x", "x2", "1.5", "-1", "0x10", "1e3", "\u{0663}"] {
        let line = format!("work: {} windows (created now)", token);
        assert_eq!(Session::extract_header(&line), Err(ParseError::WindowCount));
        assert_eq!(Session::extract_session(&line, &Vec::new()), Err(ParseError::WindowCount));
    }
}
