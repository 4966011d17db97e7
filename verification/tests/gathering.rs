use tmux_snapshot::arguments::CreateArgs;
use tmux_snapshot::environment::Environment;
use tmux_snapshot::object::{Pane, WindowListing};
use tmux_snapshot::snapshot::Listed;

fn words(items: &[&str]) -> Vec<String> {
    items.iter().map(|s| s.to_string()).collect()
}

/// Answers the queries of a gathering from a table, and returns what was
/// asked and what was gathered.
fn gather(wanted: &str, table: &[(&[&str], &[&str])]) -> (Vec<Vec<String>>, Listed) {
    let mut asked = Vec::new();
    let mut listed = Listed::new();
    for _ in 0..100 {
        let query = match listed.next_query(&wanted.to_string()) {
            Some(query) => query,
            None => return (asked, listed),
        };
        let answer = table
            .iter()
            .find(|(q, _)| words(q) == query)
            .map(|(_, lines)| words(lines))
            .unwrap_or_else(|| panic!("no answer for {:?}", query));
        asked.push(query);
        listed.accept(answer);
    }
    panic!("the gathering did not end");
}

const SESSIONS: &[&str] = &["dev: 1 windows (created ...)", "work: 2 windows (created ...) [layout]"];

#[test]
fn gathering_asks_for_sessions_windows_and_panes_in_turn() {
    let table: &[(&[&str], &[&str])] = &[
        (&["list-sessions"], SESSIONS),
        (&["list-windows", "-t", "work"], &["1: editor* (2 panes) [aaaa]", "3: shell- (1 panes) [bbbb]"]),
        (&["list-pane", "-t", "work:1"], &["0: a", "1: b"]),
        (&["list-pane", "-t", "work:3"], &["0: c"]),
    ];
    let (asked, listed) = gather("work", table);
    assert_eq!(
        asked,
        vec![
            words(&["list-sessions"]),
            words(&["list-windows", "-t", "work"]),
            words(&["list-pane", "-t", "work:1"]),
            words(&["list-pane", "-t", "work:3"]),
        ]
    );
    assert_eq!(
        listed.listings(),
        vec![
            WindowListing { line: "1: editor* (2 panes) [aaaa]".to_string(), panes: words(&["0: a", "1: b"]) },
            WindowListing { line: "3: shell- (1 panes) [bbbb]".to_string(), panes: words(&["0: c"]) },
        ]
    );
    let mut env = Environment::new(false, "/tmp/x".to_string());
    let args = CreateArgs { session_name: "work".to_string() };
    let session =
        env.create_session(args, listed.sessions.as_ref().unwrap(), &listed.listings()).unwrap();
    assert_eq!(session.name, "work");
    assert_eq!(session.window_count, 2);
    let ws = session.windows.unwrap();
    assert_eq!(ws.len(), 2);
    assert_eq!((ws[0].id, ws[0].name.as_str(), ws[0].layout.as_str()), (1, "editor", "aaaa"));
    assert_eq!(ws[0].pane_count, 2);
    assert_eq!(ws[0].panes, Some(vec![Pane { id: 0 }, Pane { id: 1 }]));
    assert_eq!((ws[1].id, ws[1].name.as_str(), ws[1].layout.as_str()), (3, "shell", "bbbb"));
    assert_eq!(ws[1].pane_count, 1);
}

#[test]
fn gathering_stops_at_the_first_window_that_cannot_be_read() {
    let table: &[(&[&str], &[&str])] = &[
        (&["list-sessions"], SESSIONS),
        (&["list-windows", "-t", "work"], &["1: editor* (2 panes)", "x: shell", "3: logs (1 panes)"]),
        (&["list-pane", "-t", "work:1"], &["0: a", "1: b"]),
    ];
    let (asked, listed) = gather("work", table);
    assert_eq!(asked.len(), 3);
    assert_eq!(listed.panes.len(), 1);
    let listings = listed.listings();
    assert_eq!(listings.len(), 3);
    assert_eq!(listings[1].panes, Vec::<String>::new());
    let mut env = Environment::new(false, "/tmp/x".to_string());
    let args = CreateArgs { session_name: "work".to_string() };
    let session = env.create_session(args, listed.sessions.as_ref().unwrap(), &listings).unwrap();
    assert_eq!(session.name, "work");
    assert_eq!(session.windows, None);
}

#[test]
fn gathering_stops_behind_a_window_without_a_name() {
    let table: &[(&[&str], &[&str])] = &[
        (&["list-sessions"], SESSIONS),
        (&["list-windows", "-t", "work"], &["1: editor", "3: logs (1 panes)"]),
        (&["list-pane", "-t", "work:1"], &["0: a"]),
    ];
    let (asked, listed) = gather("work", table);
    assert_eq!(asked.len(), 3);
    assert_eq!(listed.panes.len(), 1);
}

#[test]
fn gathering_goes_on_behind_panes_that_cannot_be_read() {
    let table: &[(&[&str], &[&str])] = &[
        (&["list-sessions"], SESSIONS),
        (&["list-windows", "-t", "work"], &["1: editor (1 panes)", "3: logs (1 panes)"]),
        (&["list-pane", "-t", "work:1"], &["broken"]),
        (&["list-pane", "-t", "work:3"], &["0: a"]),
    ];
    let (asked, listed) = gather("work", table);
    assert_eq!(asked.len(), 4);
    let mut env = Environment::new(false, "/tmp/x".to_string());
    let args = CreateArgs { session_name: "work".to_string() };
    let session =
        env.create_session(args, listed.sessions.as_ref().unwrap(), &listed.listings()).unwrap();
    let ws = session.windows.unwrap();
    assert_eq!(ws[0].panes, None);
    assert_eq!(ws[0].pane_count, 1);
    assert_eq!(ws[1].panes, Some(vec![Pane { id: 0 }]));
}

#[test]
fn gathering_ends_with_the_session_listing_where_the_session_is_not_found() {
    let table: &[(&[&str], &[&str])] = &[(&["list-sessions"], SESSIONS)];
    let (asked, listed) = gather("none", table);
    assert_eq!(asked, vec![words(&["list-sessions"])]);
    assert_eq!(listed.windows, None);
    assert_eq!(listed.listings(), Vec::new());
    let table: &[(&[&str], &[&str])] = &[(&["list-sessions"], &["work: many windows"])];
    let (asked, _) = gather("work", table);
    assert_eq!(asked.len(), 1);
    let table: &[(&[&str], &[&str])] = &[(&["list-sessions"], &["work: 1 windows", "garbage"])];
    let (asked, _) = gather("work", table);
    assert_eq!(asked.len(), 1);
}

#[test]
fn gathering_uses_the_name_without_its_markers() {
    let table: &[(&[&str], &[&str])] = &[
        (&["list-sessions"], &["work*: 1 windows"]),
        (&["list-windows", "-t", "work"], &[]),
    ];
    let (asked, listed) = gather("work*", table);
    assert_eq!(asked.len(), 2);
    assert_eq!(listed.windows, Some(Vec::new()));
    assert_eq!(listed.next_query(&"work*".to_string()), None);
}

#[test]
fn accept_fills_the_listings_in_order() {
    let mut listed = Listed::new();
    assert_eq!(listed, Listed { sessions: None, windows: None, panes: Vec::new() });
    listed.accept(words(&["a"]));
    listed.accept(words(&["b"]));
    listed.accept(words(&["c"]));
    listed.accept(words(&["d"]));
    assert_eq!(
        listed,
        Listed {
            sessions: Some(words(&["a"])),
            windows: Some(words(&["b"])),
            panes: vec![words(&["c"]), words(&["d"])],
        }
    );
}
