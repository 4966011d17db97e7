use tmux_snapshot::environment::{Environment, ReplayError, StructuralError};
use tmux_snapshot::object::{Session, Window};
use tmux_snapshot::replay::{Action, Event, Stage};

fn words(items: &[&str]) -> Vec<String> {
    items.iter().map(|s| s.to_string()).collect()
}

fn window(id: u8, name: &str, layout: &str, pane_count: usize) -> Window {
    Window { id, name: name.to_string(), layout: layout.to_string(), pane_count, panes: None }
}

fn loaded(inside_tmux: bool) -> Environment {
    let mut env = Environment::new(inside_tmux, "/tmp/x".to_string());
    let session = Session {
        name: "work".to_string(),
        window_count: 2,
        windows: Some(vec![window(1, "editor", "aaaa,1x1,0,0", 3), window(2, "shell", "bbbb,2x2,0,0", 1)]),
    };
    env.get_session(session).unwrap();
    env
}

/// Runs a replay in which the command at `fail_at` fails (none where it is
/// `None`), and returns what was issued and how the replay ended.
fn drive(env: &Environment, listing: &[&str], fail_at: Option<usize>) -> (Vec<Vec<String>>, Action) {
    let mut issued = Vec::new();
    let mut stage = Stage::Ready;
    let mut event = Event::Start;
    for _ in 0..100 {
        let (next, action) = env.step(stage, event);
        stage = next;
        event = match action {
            Action::Run(c) => {
                issued.push(c);
                if fail_at == Some(issued.len() - 1) {
                    Event::Failed
                } else {
                    Event::Succeeded
                }
            }
            Action::Query(q) => {
                issued.push(q);
                if fail_at == Some(issued.len() - 1) {
                    Event::Failed
                } else {
                    Event::Listed(words(listing))
                }
            }
            end => {
                assert_eq!(stage, Stage::Over);
                return (issued, end);
            }
        };
    }
    panic!("the replay did not end");
}

#[test]
fn steps_issue_the_whole_sequence_in_order() {
    let (issued, end) = drive(&loaded(false), &["0: zsh* (1 panes) [x]"], None);
    assert_eq!(end, Action::Finish);
    assert_eq!(
        issued,
        vec![
            words(&["new-session", "-d", "-s", "work"]),
            words(&["list-windows", "-t", "work"]),
            words(&["rename-window", "-t", "work:0", "editor"]),
            words(&["split-window", "-h", "-t", "work:1"]),
            words(&["split-window", "-h", "-t", "work:1"]),
            words(&["new-window", "-d", "-t", "work", "-n", "shell"]),
            words(&["select-layout", "-t", "work:2", "bbbb,2x2,0,0"]),
            words(&["attach", "-t", "work"]),
        ]
    );
}

#[test]
fn steps_end_with_a_switch_inside_the_multiplexer() {
    let (issued, end) = drive(&loaded(true), &["5: zsh"], None);
    assert_eq!(end, Action::Finish);
    assert_eq!(issued.len(), 8);
    assert_eq!(issued[2], words(&["rename-window", "-t", "work:5", "editor"]));
    assert_eq!(issued[7], words(&["switch", "-t", "work"]));
}

#[test]
fn steps_stop_at_the_first_failure() {
    for k in 0..8 {
        let (issued, end) = drive(&loaded(false), &["0: zsh"], Some(k));
        assert_eq!(end, Action::Abort(ReplayError::CommandFailed));
        assert_eq!(issued.len(), k + 1);
    }
}

#[test]
fn steps_refuse_a_snapshot_without_windows_before_any_command() {
    let mut env = Environment::new(false, "/tmp/x".to_string());
    let (issued, end) = drive(&env, &["0: zsh"], None);
    assert_eq!(end, Action::Abort(ReplayError::NotReplayable(StructuralError::NoSession)));
    assert!(issued.is_empty());
    let absent = Session { name: "work".to_string(), window_count: 2, windows: None };
    assert_eq!(env.get_session(absent), Err(StructuralError::NoWindows));
    let (issued, end) = drive(&env, &["0: zsh"], None);
    assert_eq!(end, Action::Abort(ReplayError::NotReplayable(StructuralError::NoWindows)));
    assert!(issued.is_empty());
    let empty = Session { name: "work".to_string(), window_count: 0, windows: Some(Vec::new()) };
    assert_eq!(env.get_session(empty), Err(StructuralError::NoWindows));
    let (issued, end) = drive(&env, &["0: zsh"], None);
    assert_eq!(end, Action::Abort(ReplayError::NotReplayable(StructuralError::NoWindows)));
    assert!(issued.is_empty());
}

#[test]
fn steps_stop_where_the_new_session_lists_nothing_readable() {
    let (issued, end) = drive(&loaded(false), &[], None);
    assert_eq!(end, Action::Abort(ReplayError::EmptyListing));
    assert_eq!(issued.len(), 2);
    let (issued, end) = drive(&loaded(false), &["no delimiter"], None);
    assert_eq!(end, Action::Abort(ReplayError::Parse(tmux_snapshot::object::ParseError::Delimiter)));
    assert_eq!(issued.len(), 2);
}

#[test]
fn steps_refuse_events_out_of_turn() {
    let env = loaded(false);
    let out = (Stage::Over, Action::Abort(ReplayError::OutOfTurn));
    assert_eq!(env.step(Stage::Ready, Event::Succeeded), out);
    assert_eq!(env.step(Stage::Ready, Event::Failed), out);
    assert_eq!(env.step(Stage::Creating, Event::Start), out);
    assert_eq!(env.step(Stage::Creating, Event::Listed(words(&["0: zsh"]))), out);
    assert_eq!(env.step(Stage::Listing, Event::Succeeded), out);
    assert_eq!(env.step(Stage::Over, Event::Start), out);
    assert_eq!(env.step(Stage::Over, Event::Succeeded), out);
    assert_eq!(env.step(Stage::Over, Event::Failed), out);
    let plan = vec![words(&["a"]), words(&["b"])];
    assert_eq!(env.step(Stage::Issuing { plan: plan.clone(), issued: 1 }, Event::Start), out);
    assert_eq!(
        env.step(Stage::Issuing { plan: plan.clone(), issued: 1 }, Event::Succeeded),
        (Stage::Issuing { plan: plan.clone(), issued: 2 }, Action::Run(words(&["b"])))
    );
    assert_eq!(
        env.step(Stage::Issuing { plan: plan.clone(), issued: 2 }, Event::Succeeded),
        (Stage::Over, Action::Finish)
    );
    assert_eq!(
        env.step(Stage::Issuing { plan, issued: 7 }, Event::Succeeded),
        (Stage::Over, Action::Finish)
    );
}
