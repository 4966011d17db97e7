//! The context of one invocation, the lookup of a live session, and the
//! commands that rebuild a session from its snapshot.

use vstd::prelude::*;
use vstd::string::StringExecFns;
use crate::arguments::CreateArgs;
use crate::object::{
    listing_views, session_of, window_views, ParseError, Session, SessionView, Window,
    WindowListing, WindowView,
};
use crate::text::{
    chars_of, decimal, find_char, last_segment, last_segment_at, parse_u8_of_decimal,
    push_decimal, split_once, string_of,
};

verus! {

/// One invocation of the multiplexer: its arguments, in order.
pub type Command = Vec<String>;

/// A sequence of arguments as a mathematical value.
pub type Words = Seq<Seq<char>>;

/// How a multiplexer target is written: the session, a `:`, the window.
pub open spec fn target_of(session: Seq<char>, window: Seq<char>) -> Seq<char> {
    session + seq![':'] + window
}

/// The command that creates the session, detached.
pub open spec fn new_session_command(session: Seq<char>) -> Words {
    seq!["new-session"@, "-d"@, "-s"@, session]
}

/// The query for the windows of a session.
pub open spec fn list_windows_query(session: Seq<char>) -> Words {
    seq!["list-windows"@, "-t"@, session]
}

/// The query for the panes of a window.
pub open spec fn list_panes_query(session: Seq<char>, window_id: u8) -> Words {
    seq!["list-pane"@, "-t"@, target_of(session, decimal(window_id))]
}

/// The query for the live sessions.
pub open spec fn list_sessions_query() -> Words {
    seq!["list-sessions"@]
}

/// The command that names the window at `index`.
pub open spec fn rename_window_command(
    session: Seq<char>,
    index: Seq<char>,
    name: Seq<char>,
) -> Words {
    seq!["rename-window"@, "-t"@, target_of(session, index), name]
}

/// The command that splits a window side by side.
pub open spec fn split_window_command(session: Seq<char>, window_id: u8) -> Words {
    seq!["split-window"@, "-h"@, "-t"@, target_of(session, decimal(window_id))]
}

/// The command that adds a named window to the session, detached.
pub open spec fn new_window_command(session: Seq<char>, name: Seq<char>) -> Words {
    seq!["new-window"@, "-d"@, "-t"@, session, "-n"@, name]
}

/// The command that gives a window its recorded layout.
pub open spec fn select_layout_command(
    session: Seq<char>,
    window_id: u8,
    layout: Seq<char>,
) -> Words {
    seq!["select-layout"@, "-t"@, target_of(session, decimal(window_id)), layout]
}

/// The command that ends the replay: a switch of the client where the
/// caller runs inside the multiplexer, an attach where it does not.
pub open spec fn enter_command(session: Seq<char>, inside_tmux: bool) -> Words {
    if inside_tmux {
        seq!["switch"@, "-t"@, session]
    } else {
        seq!["attach"@, "-t"@, session]
    }
}

/// How many splits give a window its panes: one less than its pane count,
/// and none for a window without panes.
pub open spec fn split_count(w: WindowView) -> nat {
    if w.pane_count >= 1 {
        (w.pane_count - 1) as nat
    } else {
        0
    }
}

/// The same split, `n` times.
pub open spec fn repeated_split(session: Seq<char>, window_id: u8, n: nat) -> Seq<Words> {
    Seq::new(n, |i: int| split_window_command(session, window_id))
}

/// The splits of one window.
pub open spec fn splits_of(session: Seq<char>, w: WindowView) -> Seq<Words> {
    repeated_split(session, w.id, split_count(w))
}

/// The commands for a window other than the first: its creation, its
/// splits, its layout.
pub open spec fn window_commands(session: Seq<char>, w: WindowView) -> Seq<Words> {
    seq![new_window_command(session, w.name)] + splits_of(session, w) + seq![
        select_layout_command(session, w.id, w.layout),
    ]
}

/// The commands for the windows behind the first among the first `n`, in
/// order.
pub open spec fn later_windows_commands(
    session: Seq<char>,
    windows: Seq<WindowView>,
    n: int,
) -> Seq<Words>
    decreases n,
{
    if n <= 1 || n > windows.len() {
        Seq::empty()
    } else {
        later_windows_commands(session, windows, n - 1) + window_commands(
            session,
            windows[n - 1],
        )
    }
}

/// The commands that follow the creation of the session: the window that
/// the multiplexer made with the session, found at `index`, takes the first
/// window's name and splits; each later window is created, split and laid
/// out; the last command enters the session.
pub open spec fn replay_tail(
    session: Seq<char>,
    windows: Seq<WindowView>,
    index: Seq<char>,
    inside_tmux: bool,
) -> Seq<Words>
    recommends
        windows.len() > 0,
{
    seq![rename_window_command(session, index, windows[0].name)] + splits_of(session, windows[0])
        + later_windows_commands(session, windows, windows.len() as int) + seq![
        enter_command(session, inside_tmux),
    ]
}

/// Every command of a replay, in the order in which it is issued.
pub open spec fn replay_commands(
    session: Seq<char>,
    windows: Seq<WindowView>,
    index: Seq<char>,
    inside_tmux: bool,
) -> Seq<Words>
    recommends
        windows.len() > 0,
{
    seq![new_session_command(session)] + replay_tail(session, windows, index, inside_tmux)
}

/// Why a snapshot cannot be replayed at all.
#[derive(Debug, Clone, Copy, PartialEq, Eq, Structural)]
pub enum StructuralError {
    /// No snapshot was loaded.
    NoSession,
    /// The snapshot holds no window.
    NoWindows,
    /// A window of the snapshot has no pane.
    NoPanes,
}

/// Why a replay stopped.
#[derive(Debug, Clone, Copy, PartialEq, Eq, Structural)]
pub enum ReplayError {
    /// The snapshot cannot be replayed.
    NotReplayable(StructuralError),
    /// The new session lists no window.
    EmptyListing,
    /// The line of the new session's window cannot be read.
    Parse(ParseError),
    /// The multiplexer failed at a command or at a query.
    CommandFailed,
    /// An event was reported that the replay did not wait for.
    OutOfTurn,
}

/// Why no snapshot was taken.
#[derive(Debug, Clone, PartialEq, Eq)]
pub enum SnapshotError {
    /// No live session has the name asked for. Holds the names of the live
    /// sessions.
    Lookup(Vec<String>),
    /// A session line cannot be read.
    Parse(ParseError),
}

/// What starts a replay: the command that creates the session, and the
/// query whose answer the rest of the replay needs.
#[derive(Debug, Clone, PartialEq, Eq)]
pub struct Opening {
    /// Creates the session.
    pub create: Command,
    /// Lists the windows of the session just created.
    pub query: Command,
}

/// The context of one invocation.
#[derive(Debug)]
pub struct Environment {
    inside_tmux: bool,
    full_path: String,
    working_directory: String,
    session: Option<Session>,
}

/// An [`Environment`] as a mathematical value.
pub struct EnvironmentView {
    pub inside_tmux: bool,
    pub full_path: Seq<char>,
    pub working_directory: Seq<char>,
    pub session: Option<SessionView>,
}

impl View for Environment {
    type V = EnvironmentView;

    closed spec fn view(&self) -> EnvironmentView {
        EnvironmentView {
            inside_tmux: self.inside_tmux,
            full_path: self.full_path@,
            working_directory: self.working_directory@,
            session: match self.session {
                Some(s) => Some(s@),
                None => None,
            },
        }
    }
}

/// Whether each of the windows has at least one pane.
pub open spec fn every_window_has_panes(windows: Seq<WindowView>) -> bool {
    forall|i: int| 0 <= i < windows.len() ==> (#[trigger] windows[i]).pane_count >= 1
}

/// The name and the windows of a snapshot that can be replayed: a snapshot
/// must be loaded, hold at least one window, and each of its windows at
/// least one pane.
pub open spec fn replayable(session: Option<SessionView>) -> Result<
    (Seq<char>, Seq<WindowView>),
    StructuralError,
> {
    match session {
        None => Err(StructuralError::NoSession),
        Some(s) => match s.windows {
            None => Err(StructuralError::NoWindows),
            Some(ws) => if ws.len() == 0 {
                Err(StructuralError::NoWindows)
            } else if !every_window_has_panes(ws) {
                Err(StructuralError::NoPanes)
            } else {
                Ok((s.name, ws))
            },
        },
    }
}

/// The index under which the multiplexer made the first window of a new
/// session: the head of the first line of the session's window listing.
pub open spec fn initial_index_of(listing: Seq<Seq<char>>) -> Result<Seq<char>, ReplayError> {
    if listing.len() == 0 {
        Err(ReplayError::EmptyListing)
    } else {
        match split_once(listing[0], ':') {
            Some((head, _)) => Ok(head),
            None => Err(ReplayError::Parse(ParseError::Delimiter)),
        }
    }
}

/// What a replay issues after the creation of the session, given the window
/// listing of the new session.
pub open spec fn replay_of(env: EnvironmentView, listing: Seq<Seq<char>>) -> Result<
    Seq<Words>,
    ReplayError,
> {
    match replayable(env.session) {
        Err(e) => Err(ReplayError::NotReplayable(e)),
        Ok((name, windows)) => match initial_index_of(listing) {
            Err(e) => Err(e),
            Ok(index) => Ok(replay_tail(name, windows, index, env.inside_tmux)),
        },
    }
}

/// The target `session:window` for a window index.
fn window_target(session: &String, window_id: u8) -> (t: String)
    ensures
        t@ == target_of(session@, decimal(window_id)),
{
    let mut t = session.clone();
    t.push(':');
    push_decimal(&mut t, window_id);
    t
}

/// The command that creates the session, detached.
pub fn new_session(session: &String) -> (c: Command)
    ensures
        c.deep_view() == new_session_command(session@),
{
    let c = vec!["new-session".to_owned(), "-d".to_owned(), "-s".to_owned(), session.clone()];
    assert(c.deep_view() =~= new_session_command(session@));
    c
}

/// The query for the live sessions.
pub fn list_sessions() -> (c: Command)
    ensures
        c.deep_view() == list_sessions_query(),
{
    let c = vec!["list-sessions".to_owned()];
    assert(c.deep_view() =~= list_sessions_query());
    c
}

/// The query for the windows of a session.
pub fn list_windows(session: &String) -> (c: Command)
    ensures
        c.deep_view() == list_windows_query(session@),
{
    let c = vec!["list-windows".to_owned(), "-t".to_owned(), session.clone()];
    assert(c.deep_view() =~= list_windows_query(session@));
    c
}

/// The query for the panes of a window.
pub fn list_panes(session: &String, window_id: u8) -> (c: Command)
    ensures
        c.deep_view() == list_panes_query(session@, window_id),
{
    let c = vec!["list-pane".to_owned(), "-t".to_owned(), window_target(session, window_id)];
    assert(c.deep_view() =~= list_panes_query(session@, window_id));
    c
}

/// The command that names the window at `index`.
fn rename_window(session: &String, index: &String, name: &String) -> (c: Command)
    ensures
        c.deep_view() == rename_window_command(session@, index@, name@),
{
    let mut target = session.clone();
    target.push(':');
    target.append(index.as_str());
    assert(target@ =~= target_of(session@, index@));
    let c = vec!["rename-window".to_owned(), "-t".to_owned(), target, name.clone()];
    assert(c.deep_view() =~= rename_window_command(session@, index@, name@));
    c
}

/// The command that splits a window side by side.
fn split_window(session: &String, window_id: u8) -> (c: Command)
    ensures
        c.deep_view() == split_window_command(session@, window_id),
{
    let c = vec![
        "split-window".to_owned(),
        "-h".to_owned(),
        "-t".to_owned(),
        window_target(session, window_id),
    ];
    assert(c.deep_view() =~= split_window_command(session@, window_id));
    c
}

/// The command that adds a named window to the session, detached.
fn new_window(session: &String, name: &String) -> (c: Command)
    ensures
        c.deep_view() == new_window_command(session@, name@),
{
    let c = vec![
        "new-window".to_owned(),
        "-d".to_owned(),
        "-t".to_owned(),
        session.clone(),
        "-n".to_owned(),
        name.clone(),
    ];
    assert(c.deep_view() =~= new_window_command(session@, name@));
    c
}

/// The command that gives a window its recorded layout.
fn select_layout(session: &String, window_id: u8, layout: &String) -> (c: Command)
    ensures
        c.deep_view() == select_layout_command(session@, window_id, layout@),
{
    let c = vec![
        "select-layout".to_owned(),
        "-t".to_owned(),
        window_target(session, window_id),
        layout.clone(),
    ];
    assert(c.deep_view() =~= select_layout_command(session@, window_id, layout@));
    c
}

/// The command that ends the replay.
fn enter(session: &String, inside_tmux: bool) -> (c: Command)
    ensures
        c.deep_view() == enter_command(session@, inside_tmux),
{
    let verb = if inside_tmux {
        "switch".to_owned()
    } else {
        "attach".to_owned()
    };
    let c = vec![verb, "-t".to_owned(), session.clone()];
    assert(c.deep_view() =~= enter_command(session@, inside_tmux));
    c
}

/// Appends one command.
fn issue(commands: &mut Vec<Command>, c: Command)
    ensures
        final(commands).deep_view() == old(commands).deep_view().push(c.deep_view()),
{
    commands.push(c);
    assert(commands.deep_view() =~= old(commands).deep_view().push(c.deep_view()));
}

/// Appends the splits of one window.
fn issue_splits(commands: &mut Vec<Command>, session: &String, w: &Window)
    ensures
        final(commands).deep_view() == old(commands).deep_view() + splits_of(session@, w@),
{
    let ghost before = commands.deep_view();
    let mut k: usize = 1;
    assert(commands.deep_view() =~= before + repeated_split(session@, w.id, 0));
    while k < w.pane_count
        invariant
            1 <= k,
            k <= w.pane_count || k == 1,
            commands.deep_view() == before + repeated_split(session@, w.id, (k - 1) as nat),
        decreases w.pane_count - k,
    {
        issue(commands, split_window(session, w.id));
        assert(commands.deep_view() =~= before + repeated_split(session@, w.id, k as nat));
        k += 1;
    }
}

/// The name in a session line: what stands before its first `:`.
pub open spec fn session_head_of(line: Seq<char>) -> Option<Seq<char>> {
    match split_once(line, ':') {
        Some((head, _)) => Some(head),
        None => None,
    }
}

/// Whether every line of a session listing holds a `:`.
pub open spec fn all_delimited(lines: Seq<Seq<char>>) -> bool {
    forall|j: int| 0 <= j < lines.len() ==> session_head_of(#[trigger] lines[j]) is Some
}

/// The index of the first line at or after `from` that describes the session
/// `name`; `lines.len()` where there is none.
pub open spec fn first_named_from(lines: Seq<Seq<char>>, name: Seq<char>, from: int) -> int
    decreases lines.len() - from,
{
    if from < 0 || from >= lines.len() {
        lines.len() as int
    } else if session_head_of(lines[from]) == Some(name) {
        from
    } else {
        first_named_from(lines, name, from + 1)
    }
}

/// The names in a session listing, line by line.
pub open spec fn heads_of(lines: Seq<Seq<char>>) -> Seq<Seq<char>> {
    Seq::new(lines.len(), |j: int| session_head_of(lines[j]).unwrap())
}

impl Environment {
    /// The context of an invocation that runs in the directory `full_path`,
    /// inside the multiplexer or not. The working directory is the last
    /// segment of the path; no snapshot is loaded yet.
    pub fn new(inside_tmux: bool, full_path: String) -> (env: Environment)
        ensures
            env@ == (EnvironmentView {
                inside_tmux,
                full_path: full_path@,
                working_directory: last_segment(full_path@),
                session: None,
            }),
    {
        let v = chars_of(full_path.as_str());
        let start: usize = last_segment_at(&v);
        let working_directory = string_of(&v, start, v.len());
        Environment { inside_tmux, full_path, working_directory, session: None }
    }

    /// Whether the invocation runs inside a client of the multiplexer.
    pub fn inside_tmux(&self) -> (r: bool)
        ensures
            r == self@.inside_tmux,
    {
        self.inside_tmux
    }

    /// The directory in which the invocation runs.
    pub fn full_path(&self) -> (r: &String)
        ensures
            r@ == self@.full_path,
    {
        &self.full_path
    }

    /// The last segment of the directory in which the invocation runs.
    pub fn working_directory(&self) -> (r: &String)
        ensures
            r@ == self@.working_directory,
    {
        &self.working_directory
    }

    /// The snapshot that was loaded, if any.
    pub fn session(&self) -> (r: &Option<Session>)
        ensures
            match *r {
                Some(s) => self@.session == Some(s@),
                None => self@.session is None,
            },
    {
        &self.session
    }

    /// Looks a session up by its name in the listing of the live sessions.
    /// A line without a `:` makes the listing unreadable; else the first
    /// line whose head is the name is found, or the lookup fails with the
    /// names that the listing holds.
    pub fn find_session(raw_sessions: &Vec<String>, session_name: &String) -> (r: Result<
        usize,
        SnapshotError,
    >)
        ensures
            match r {
                Ok(i) => all_delimited(raw_sessions.deep_view()) && i < raw_sessions.len() && i
                    == first_named_from(raw_sessions.deep_view(), session_name@, 0),
                Err(SnapshotError::Parse(e)) => e == ParseError::Delimiter && !all_delimited(
                    raw_sessions.deep_view(),
                ),
                Err(SnapshotError::Lookup(names)) => all_delimited(raw_sessions.deep_view())
                    && first_named_from(raw_sessions.deep_view(), session_name@, 0)
                    == raw_sessions.len() && names.deep_view() == heads_of(
                    raw_sessions.deep_view(),
                ),
            },
    {
        let ghost lines = raw_sessions.deep_view();
        let mut names: Vec<String> = Vec::new();
        let mut found: Option<usize> = None;
        let mut i: usize = 0;
        while i < raw_sessions.len()
            invariant
                i <= raw_sessions.len(),
                lines == raw_sessions.deep_view(),
                names.len() == i,
                forall|j: int|
                    0 <= j < i ==> session_head_of(#[trigger] lines[j]) == Some(names[j]@),
                match found {
                    Some(k) => k < i && k == first_named_from(lines, session_name@, 0),
                    None => first_named_from(lines, session_name@, 0) == first_named_from(
                        lines,
                        session_name@,
                        i as int,
                    ),
                },
            decreases raw_sessions.len() - i,
        {
            assert(lines[i as int] == raw_sessions[i as int]@);
            let v = chars_of(raw_sessions[i].as_str());
            let n: usize = v.len();
            assert(v@.subrange(0, n as int) =~= v@);
            let colon: usize = find_char(&v, ':', 0, n);
            if colon >= n {
                assert(session_head_of(lines[i as int]) is None);
                return Err(SnapshotError::Parse(ParseError::Delimiter));
            }
            let head = string_of(&v, 0, colon);
            assert(v@.take(colon as int) =~= v@.subrange(0, colon as int));
            if found.is_none() && head == *session_name {
                found = Some(i);
            }
            names.push(head);
            i += 1;
        }
        match found {
            Some(k) => Ok(k),
            None => {
                assert(names.deep_view() =~= heads_of(lines));
                Err(SnapshotError::Lookup(names))
            },
        }
    }

    /// Takes the snapshot of the live session that `args` names: the session
    /// is looked up in the listing of the live sessions, and its line is read
    /// together with the listings of its windows. The context is left as it
    /// was.
    pub fn create_session(
        &mut self,
        args: CreateArgs,
        raw_sessions: &Vec<String>,
        listings: &Vec<WindowListing>,
    ) -> (r: Result<Session, SnapshotError>)
        ensures
            final(self)@ == old(self)@,
            ({
                let lines = raw_sessions.deep_view();
                let first = first_named_from(lines, args.session_name@, 0);
                match r {
                    Ok(s) => all_delimited(lines) && first < lines.len() && session_of(
                        lines[first],
                        listing_views(listings@),
                    ) == Ok::<SessionView, ParseError>(s@),
                    Err(SnapshotError::Parse(e)) => if all_delimited(lines) {
                        first < lines.len() && session_of(lines[first], listing_views(listings@))
                            == Err::<SessionView, ParseError>(e)
                    } else {
                        e == ParseError::Delimiter
                    },
                    Err(SnapshotError::Lookup(names)) => all_delimited(lines) && first
                        == lines.len() && names.deep_view() == heads_of(lines),
                }
            }),
    {
        let i: usize = match Environment::find_session(raw_sessions, &args.session_name) {
            Err(e) => {
                return Err(e);
            },
            Ok(i) => i,
        };
        assert(raw_sessions.deep_view()[i as int] == raw_sessions[i as int]@);
        match Session::extract_session(raw_sessions[i].as_str(), listings) {
            Ok(session) => Ok(session),
            Err(e) => Err(SnapshotError::Parse(e)),
        }
    }

    /// What starts the replay of the loaded snapshot. Fails, before anything
    /// is issued, where no snapshot is loaded or the snapshot holds no
    /// window.
    pub fn opening(&self) -> (r: Result<Opening, StructuralError>)
        ensures
            match replayable(self@.session) {
                Ok((name, _)) => r is Ok && r->Ok_0.create.deep_view() == new_session_command(name)
                    && r->Ok_0.query.deep_view() == list_windows_query(name),
                Err(e) => r is Err && r->Err_0 == e,
            },
    {
        match self.replayable_parts() {
            Err(e) => Err(e),
            Ok((config, _)) => Ok(
                Opening { create: new_session(&config.name), query: list_windows(&config.name) },
            ),
        }
    }

    /// The loaded snapshot and its windows, where it can be replayed.
    #[verifier::loop_isolation(false)]
    fn replayable_parts(&self) -> (r: Result<(&Session, &Vec<Window>), StructuralError>)
        ensures
            match r {
                Ok((config, windows)) => self.session == Some(*config) && config.windows == Some(
                    *windows,
                ) && windows.len() > 0 && replayable(self@.session) == Ok::<
                    (Seq<char>, Seq<WindowView>),
                    StructuralError,
                >((config.name@, window_views(windows@))),
                Err(e) => replayable(self@.session) == Err::<
                    (Seq<char>, Seq<WindowView>),
                    StructuralError,
                >(e),
            },
    {
        let config = match &self.session {
            None => {
                return Err(StructuralError::NoSession);
            },
            Some(config) => config,
        };
        let windows = match &config.windows {
            None => {
                return Err(StructuralError::NoWindows);
            },
            Some(windows) => windows,
        };
        if windows.len() == 0 {
            return Err(StructuralError::NoWindows);
        }
        let ghost views = window_views(windows@);
        let mut i: usize = 0;
        while i < windows.len()
            invariant
                i <= windows.len(),
                views == window_views(windows@),
                forall|j: int| 0 <= j < i ==> (#[trigger] views[j]).pane_count >= 1,
            decreases windows.len() - i,
        {
            if windows[i].pane_count == 0 {
                assert(views[i as int].pane_count == 0);
                return Err(StructuralError::NoPanes);
            }
            assert(views[i as int].pane_count >= 1);
            i += 1;
        }
        Ok((config, windows))
    }

    /// Loads a snapshot into the context and starts its replay.
    pub fn get_session(&mut self, session: Session) -> (r: Result<Opening, StructuralError>)
        ensures
            final(self)@ == (EnvironmentView { session: Some(session@), ..old(self)@ }),
            match replayable(Some(session@)) {
                Ok((name, _)) => r is Ok && r->Ok_0.create.deep_view() == new_session_command(name)
                    && r->Ok_0.query.deep_view() == list_windows_query(name),
                Err(e) => r is Err && r->Err_0 == e,
            },
    {
        self.session = Some(session);
        self.opening()
    }

    /// The commands that rebuild the loaded snapshot once its session was
    /// created, in the order in which they are to be issued. `listing` is
    /// the window listing of the new session: its first line tells under
    /// which index the multiplexer made the session's first window.
    pub fn execute_config(&self, listing: &Vec<String>) -> (r: Result<Vec<Command>, ReplayError>)
        ensures
            match replay_of(self@, listing.deep_view()) {
                Ok(commands) => r is Ok && r->Ok_0.deep_view() == commands,
                Err(e) => r is Err && r->Err_0 == e,
            },
    {
        let (config, windows) = match self.replayable_parts() {
            Err(e) => {
                return Err(ReplayError::NotReplayable(e));
            },
            Ok(parts) => parts,
        };
        if listing.len() == 0 {
            return Err(ReplayError::EmptyListing);
        }
        assert(listing.deep_view()[0] == listing[0]@);
        let line = chars_of(listing[0].as_str());
        let n: usize = line.len();
        assert(line@.subrange(0, n as int) =~= line@);
        let colon: usize = find_char(&line, ':', 0, n);
        if colon >= n {
            return Err(ReplayError::Parse(ParseError::Delimiter));
        }
        let index = string_of(&line, 0, colon);
        assert(line@.take(colon as int) =~= line@.subrange(0, colon as int));
        let ghost name = config.name@;
        let ghost views = window_views(windows@);
        let mut commands: Vec<Command> = Vec::new();
        assert(commands.deep_view() =~= Seq::<Words>::empty());
        issue(&mut commands, rename_window(&config.name, &index, &windows[0].name));
        issue_splits(&mut commands, &config.name, &windows[0]);
        let ghost head = commands.deep_view();
        assert(head =~= seq![rename_window_command(name, index@, views[0].name)] + splits_of(
            name,
            views[0],
        ));
        let mut k: usize = 1;
        assert(commands.deep_view() =~= head + later_windows_commands(name, views, 1));
        while k < windows.len()
            invariant
                1 <= k <= windows.len(),
                name == config.name@,
                views == window_views(windows@),
                commands.deep_view() == head + later_windows_commands(name, views, k as int),
            decreases windows.len() - k,
        {
            let window = &windows[k];
            assert(views[k as int] == window@);
            issue(&mut commands, new_window(&config.name, &window.name));
            issue_splits(&mut commands, &config.name, window);
            issue(&mut commands, select_layout(&config.name, window.id, &window.layout));
            assert(commands.deep_view() =~= head + later_windows_commands(name, views, k + 1));
            k += 1;
        }
        issue(&mut commands, enter(&config.name, self.inside_tmux));
        assert(commands.deep_view() =~= replay_tail(name, views, index@, self.inside_tmux));
        Ok(commands)
    }
}

/// The replay of a snapshot of two windows, the first with three panes and
/// the second with one: the session is created, its first window renamed
/// and split twice, the second window created and laid out without a split,
/// and the session entered. Seven commands, in this order, whatever the
/// names and the layout are.
pub proof fn replay_of_two_windows(
    session: Seq<char>,
    first: WindowView,
    second: WindowView,
    index: Seq<char>,
    inside_tmux: bool,
)
    requires
        first.pane_count == 3,
        second.pane_count == 1,
    ensures
        replay_commands(session, seq![first, second], index, inside_tmux) == seq![
            new_session_command(session),
            rename_window_command(session, index, first.name),
            split_window_command(session, first.id),
            split_window_command(session, first.id),
            new_window_command(session, second.name),
            select_layout_command(session, second.id, second.layout),
            enter_command(session, inside_tmux),
        ],
{
    let windows = seq![first, second];
    assert(later_windows_commands(session, windows, 1) =~= Seq::<Words>::empty());
    assert(later_windows_commands(session, windows, 2) =~= window_commands(session, second));
    assert(splits_of(session, first) =~= seq![
        split_window_command(session, first.id),
        split_window_command(session, first.id),
    ]);
    assert(splits_of(session, second) =~= Seq::<Words>::empty());
    assert(replay_commands(session, windows, index, inside_tmux) =~= seq![
        new_session_command(session),
        rename_window_command(session, index, first.name),
        split_window_command(session, first.id),
        split_window_command(session, first.id),
        new_window_command(session, second.name),
        select_layout_command(session, second.id, second.layout),
        enter_command(session, inside_tmux),
    ]);
}

/// A window is never split as often as it has panes: the splits of a window
/// are one less than its panes, and none where it has at most one.
pub proof fn splits_are_one_less_than_panes(session: Seq<char>, w: WindowView)
    ensures
        w.pane_count >= 1 ==> splits_of(session, w).len() == w.pane_count - 1,
        w.pane_count <= 1 ==> splits_of(session, w).len() == 0,
        forall|i: int|
            0 <= i < splits_of(session, w).len() ==> splits_of(session, w)[i]
                == split_window_command(session, w.id),
{
}

/// A snapshot without windows is never replayed: whatever the multiplexer
/// lists, the replay fails before its first command.
pub proof fn replay_needs_windows(env: EnvironmentView, listing: Seq<Seq<char>>)
    requires
        env.session is Some,
        env.session->Some_0.windows is None || env.session->Some_0.windows->Some_0.len() == 0,
    ensures
        replayable(env.session) == Err::<(Seq<char>, Seq<WindowView>), StructuralError>(
            StructuralError::NoWindows,
        ),
        replay_of(env, listing) == Err::<Seq<Words>, ReplayError>(
            ReplayError::NotReplayable(StructuralError::NoWindows),
        ),
{
}

/// How often the command `c` stands in `commands`.
pub open spec fn count_of(commands: Seq<Words>, c: Words) -> nat
    decreases commands.len(),
{
    if commands.len() == 0 {
        0
    } else {
        count_of(commands.drop_last(), c) + if commands.last() == c {
            1nat
        } else {
            0nat
        }
    }
}

/// Whether no two of the windows have the same index.
pub open spec fn distinct_ids(windows: Seq<WindowView>) -> bool {
    forall|i: int, j: int|
        0 <= i < j < windows.len() ==> (#[trigger] windows[i]).id != (#[trigger] windows[j]).id
}

/// A command stands in two joined sequences as often as in the one and in
/// the other together.
pub proof fn lemma_count_of_join(a: Seq<Words>, b: Seq<Words>, c: Words)
    ensures
        count_of(a + b, c) == count_of(a, c) + count_of(b, c),
    decreases b.len(),
{
    if b.len() == 0 {
        assert(a + b =~= a);
    } else {
        assert((a + b).drop_last() =~= a + b.drop_last());
        lemma_count_of_join(a, b.drop_last(), c);
    }
}

/// A command stands once in the sequence made of it, and not at all in one
/// made of another.
pub proof fn lemma_count_of_one(x: Words, c: Words)
    ensures
        count_of(seq![x], c) == if x == c {
            1nat
        } else {
            0nat
        },
{
    assert(seq![x].drop_last() =~= Seq::<Words>::empty());
    assert(count_of(Seq::<Words>::empty(), c) == 0);
    assert(seq![x].last() == x);
}

/// A split repeated `n` times stands `n` times in the sequence, and no other
/// command stands in it.
pub proof fn lemma_count_of_repeated(session: Seq<char>, window_id: u8, n: nat, c: Words)
    ensures
        count_of(repeated_split(session, window_id, n), c) == if c == split_window_command(
            session,
            window_id,
        ) {
            n
        } else {
            0nat
        },
    decreases n,
{
    if n > 0 {
        assert(repeated_split(session, window_id, n).drop_last() =~= repeated_split(
            session,
            window_id,
            (n - 1) as nat,
        ));
        lemma_count_of_repeated(session, window_id, (n - 1) as nat, c);
    }
}

/// The splits of two windows with different indices are different
/// commands.
pub proof fn lemma_splits_differ(session: Seq<char>, a: u8, b: u8)
    requires
        a != b,
    ensures
        split_window_command(session, a) != split_window_command(session, b),
{
    if split_window_command(session, a) == split_window_command(session, b) {
        let ta = target_of(session, decimal(a));
        let tb = target_of(session, decimal(b));
        assert(split_window_command(session, a)[3] == ta);
        assert(split_window_command(session, b)[3] == tb);
        assert(ta.skip(session.len() as int + 1) =~= decimal(a));
        assert(tb.skip(session.len() as int + 1) =~= decimal(b));
        parse_u8_of_decimal(a);
        parse_u8_of_decimal(b);
    }
}

/// A split is none of the other commands of a replay.
pub proof fn lemma_split_is_no_other_command(
    session: Seq<char>,
    window_id: u8,
    other_id: u8,
    index: Seq<char>,
    name: Seq<char>,
    layout: Seq<char>,
    inside_tmux: bool,
)
    ensures
        split_window_command(session, window_id) != new_session_command(session),
        split_window_command(session, window_id) != rename_window_command(session, index, name),
        split_window_command(session, window_id) != new_window_command(session, name),
        split_window_command(session, window_id) != select_layout_command(
            session,
            other_id,
            layout,
        ),
        split_window_command(session, window_id) != enter_command(session, inside_tmux),
{
    reveal_strlit("split-window");
    reveal_strlit("new-session");
    reveal_strlit("rename-window");
    reveal_strlit("select-layout");
    let split = split_window_command(session, window_id);
    assert(split[0].len() == 12);
    assert(new_session_command(session)[0].len() == 11);
    assert(rename_window_command(session, index, name)[0].len() == 13);
    assert(select_layout_command(session, other_id, layout)[0].len() == 13);
    assert(split.len() == 4);
    assert(new_window_command(session, name).len() == 6);
    assert(enter_command(session, inside_tmux).len() == 3);
}

/// Among the commands of a window behind the first, the split of a window
/// stands as often as that window has splits where it is this window, and
/// not at all where it is another.
pub proof fn lemma_count_of_window_commands(session: Seq<char>, w: WindowView, window_id: u8)
    ensures
        count_of(window_commands(session, w), split_window_command(session, window_id)) == if w.id
            == window_id {
            split_count(w)
        } else {
            0nat
        },
{
    let c = split_window_command(session, window_id);
    let first = seq![new_window_command(session, w.name)];
    let last = seq![select_layout_command(session, w.id, w.layout)];
    lemma_split_is_no_other_command(session, window_id, w.id, w.name, w.name, w.layout, true);
    lemma_count_of_one(new_window_command(session, w.name), c);
    lemma_count_of_one(select_layout_command(session, w.id, w.layout), c);
    lemma_count_of_repeated(session, w.id, split_count(w), c);
    if w.id != window_id {
        lemma_splits_differ(session, w.id, window_id);
    }
    lemma_count_of_join(first, splits_of(session, w), c);
    lemma_count_of_join(first + splits_of(session, w), last, c);
}

/// Among the commands of the windows behind the first, the split of the
/// window at `i` stands as often as that window has splits where it is one
/// of them, and not at all where it is the first.
pub proof fn lemma_count_of_later_windows(
    session: Seq<char>,
    windows: Seq<WindowView>,
    n: int,
    i: int,
)
    requires
        0 <= i < windows.len(),
        0 <= n <= windows.len(),
        distinct_ids(windows),
    ensures
        count_of(
            later_windows_commands(session, windows, n),
            split_window_command(session, windows[i].id),
        ) == if 1 <= i < n {
            split_count(windows[i])
        } else {
            0nat
        },
    decreases n,
{
    if n > 1 {
        let c = split_window_command(session, windows[i].id);
        lemma_count_of_later_windows(session, windows, n - 1, i);
        lemma_count_of_window_commands(session, windows[n - 1], windows[i].id);
        lemma_count_of_join(
            later_windows_commands(session, windows, n - 1),
            window_commands(session, windows[n - 1]),
            c,
        );
        if i != n - 1 {
            if i < n - 1 {
                assert(windows[i].id != windows[n - 1].id);
            } else {
                assert(windows[n - 1].id != windows[i].id);
            }
        }
    }
}

/// Over the whole replay each window is split one time less than it has
/// panes, never as often as it has panes: where no two windows have the
/// same index, the split that targets the window at `i` stands in the
/// sequence exactly `pane_count - 1` times, and not at all for a window
/// with one pane.
pub proof fn splits_of_each_window(
    session: Seq<char>,
    windows: Seq<WindowView>,
    index: Seq<char>,
    inside_tmux: bool,
    i: int,
)
    requires
        0 <= i < windows.len(),
        distinct_ids(windows),
        every_window_has_panes(windows),
    ensures
        count_of(
            replay_commands(session, windows, index, inside_tmux),
            split_window_command(session, windows[i].id),
        ) == windows[i].pane_count - 1,
        count_of(
            replay_tail(session, windows, index, inside_tmux),
            split_window_command(session, windows[i].id),
        ) == windows[i].pane_count - 1,
{
    let id = windows[i].id;
    let c = split_window_command(session, id);
    let create = seq![new_session_command(session)];
    let rename = seq![rename_window_command(session, index, windows[0].name)];
    let firsts = splits_of(session, windows[0]);
    let later = later_windows_commands(session, windows, windows.len() as int);
    let enter = seq![enter_command(session, inside_tmux)];
    lemma_split_is_no_other_command(session, id, id, index, windows[0].name, index, inside_tmux);
    lemma_count_of_one(new_session_command(session), c);
    lemma_count_of_one(rename_window_command(session, index, windows[0].name), c);
    lemma_count_of_one(enter_command(session, inside_tmux), c);
    lemma_count_of_repeated(session, windows[0].id, split_count(windows[0]), c);
    if i != 0 {
        assert(windows[0].id != windows[i].id);
        lemma_splits_differ(session, windows[0].id, id);
    }
    lemma_count_of_later_windows(session, windows, windows.len() as int, i);
    lemma_count_of_join(rename, firsts, c);
    lemma_count_of_join(rename + firsts, later, c);
    lemma_count_of_join(rename + firsts + later, enter, c);
    lemma_count_of_join(create, replay_tail(session, windows, index, inside_tmux), c);
    assert(windows[i].pane_count >= 1);
}

} // verus!
