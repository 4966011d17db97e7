//! The replay of a snapshot, step by step: from where the replay stands and
//! what the multiplexer answered to what is to be done next. The caller
//! performs each action and reports its outcome; the first failure ends the
//! replay.

use vstd::prelude::*;
use crate::text::copy_lines;
use crate::environment::{
    initial_index_of, list_windows_query, new_session_command, replay_commands, replay_of,
    replay_tail, replayable, Command, Environment, EnvironmentView, ReplayError, StructuralError,
    Words,
};

verus! {

/// Where a replay stands.
#[derive(Debug, Clone, PartialEq, Eq)]
pub enum Stage {
    /// Nothing was issued yet.
    Ready,
    /// The creation of the session was issued.
    Creating,
    /// The windows of the new session were asked for.
    Listing,
    /// The first `issued` commands of `plan` were issued.
    Issuing { plan: Vec<Command>, issued: usize },
    /// The replay has ended.
    Over,
}

/// What the caller reports.
#[derive(Debug, Clone, PartialEq, Eq)]
pub enum Event {
    /// The replay is to begin.
    Start,
    /// The command last issued succeeded.
    Succeeded,
    /// The command or query last issued failed.
    Failed,
    /// The lines that the query last issued gave.
    Listed(Vec<String>),
}

/// What the caller is to do next.
#[derive(Debug, Clone, PartialEq, Eq)]
pub enum Action {
    /// Issue this command and report whether it succeeded.
    Run(Command),
    /// Issue this query and report its lines.
    Query(Command),
    /// Nothing more: the session is rebuilt.
    Finish,
    /// Nothing more: the replay failed.
    Abort(ReplayError),
}

/// A [`Stage`] as a mathematical value.
pub enum StageView {
    Ready,
    Creating,
    Listing,
    Issuing { plan: Seq<Words>, issued: nat },
    Over,
}

/// An [`Event`] as a mathematical value.
pub enum EventView {
    Start,
    Succeeded,
    Failed,
    Listed(Seq<Seq<char>>),
}

/// An [`Action`] as a mathematical value.
pub enum ActionView {
    Run(Words),
    Query(Words),
    Finish,
    Abort(ReplayError),
}

impl View for Stage {
    type V = StageView;

    open spec fn view(&self) -> StageView {
        match self {
            Stage::Ready => StageView::Ready,
            Stage::Creating => StageView::Creating,
            Stage::Listing => StageView::Listing,
            Stage::Issuing { plan, issued } => StageView::Issuing {
                plan: plan.deep_view(),
                issued: *issued as nat,
            },
            Stage::Over => StageView::Over,
        }
    }
}

impl View for Event {
    type V = EventView;

    open spec fn view(&self) -> EventView {
        match self {
            Event::Start => EventView::Start,
            Event::Succeeded => EventView::Succeeded,
            Event::Failed => EventView::Failed,
            Event::Listed(lines) => EventView::Listed(lines.deep_view()),
        }
    }
}

impl View for Action {
    type V = ActionView;

    open spec fn view(&self) -> ActionView {
        match self {
            Action::Run(c) => ActionView::Run(c.deep_view()),
            Action::Query(c) => ActionView::Query(c.deep_view()),
            Action::Finish => ActionView::Finish,
            Action::Abort(e) => ActionView::Abort(*e),
        }
    }
}

/// The end of a replay that failed with `e`.
pub open spec fn abort(e: ReplayError) -> (StageView, ActionView) {
    (StageView::Over, ActionView::Abort(e))
}

/// One step of a replay. The session is created first, and only a snapshot
/// that can be replayed gets that far; then the windows of the new session
/// are asked for; then the commands planned from the answer are issued one
/// by one, each after the one before it succeeded. A failure ends the
/// replay at once, and so does an event that the stage does not wait for.
pub open spec fn step_of(env: EnvironmentView, stage: StageView, event: EventView) -> (
    StageView,
    ActionView,
) {
    match (stage, event) {
        (StageView::Ready, EventView::Start) => match replayable(env.session) {
            Err(e) => abort(ReplayError::NotReplayable(e)),
            Ok((name, _)) => (StageView::Creating, ActionView::Run(new_session_command(name))),
        },
        (StageView::Creating, EventView::Succeeded) => match replayable(env.session) {
            Err(e) => abort(ReplayError::NotReplayable(e)),
            Ok((name, _)) => (StageView::Listing, ActionView::Query(list_windows_query(name))),
        },
        (StageView::Listing, EventView::Listed(lines)) => match replay_of(env, lines) {
            Err(e) => abort(e),
            Ok(plan) => (StageView::Issuing { plan, issued: 1 }, ActionView::Run(plan[0])),
        },
        (StageView::Issuing { plan, issued }, EventView::Succeeded) => if issued < plan.len() {
            (
                StageView::Issuing { plan, issued: issued + 1 },
                ActionView::Run(plan[issued as int]),
            )
        } else {
            (StageView::Over, ActionView::Finish)
        },
        (StageView::Creating, EventView::Failed) => abort(ReplayError::CommandFailed),
        (StageView::Listing, EventView::Failed) => abort(ReplayError::CommandFailed),
        (StageView::Issuing { .. }, EventView::Failed) => abort(ReplayError::CommandFailed),
        _ => abort(ReplayError::OutOfTurn),
    }
}

impl Environment {
    /// One step of the replay of the loaded snapshot: where the replay
    /// stands next, and what the caller is to do.
    pub fn step(&self, stage: Stage, event: Event) -> (r: (Stage, Action))
        ensures
            (r.0@, r.1@) == step_of(self@, stage@, event@),
    {
        match (stage, event) {
            (Stage::Ready, Event::Start) => match self.opening() {
                Err(e) => (Stage::Over, Action::Abort(ReplayError::NotReplayable(e))),
                Ok(opening) => (Stage::Creating, Action::Run(opening.create)),
            },
            (Stage::Creating, Event::Succeeded) => match self.opening() {
                Err(e) => (Stage::Over, Action::Abort(ReplayError::NotReplayable(e))),
                Ok(opening) => (Stage::Listing, Action::Query(opening.query)),
            },
            (Stage::Listing, Event::Listed(lines)) => match self.execute_config(&lines) {
                Err(e) => (Stage::Over, Action::Abort(e)),
                Ok(plan) => {
                    proof {
                        lemma_replay_has_commands(self@, lines.deep_view());
                    }
                    let first = copy_lines(&plan[0]);
                    (Stage::Issuing { plan, issued: 1 }, Action::Run(first))
                },
            },
            (Stage::Issuing { plan, issued }, Event::Succeeded) => {
                if issued < plan.len() {
                    let next = copy_lines(&plan[issued]);
                    (Stage::Issuing { plan, issued: issued + 1 }, Action::Run(next))
                } else {
                    (Stage::Over, Action::Finish)
                }
            },
            (Stage::Creating, Event::Failed) => (
                Stage::Over,
                Action::Abort(ReplayError::CommandFailed),
            ),
            (Stage::Listing, Event::Failed) => (
                Stage::Over,
                Action::Abort(ReplayError::CommandFailed),
            ),
            (Stage::Issuing { .. }, Event::Failed) => (
                Stage::Over,
                Action::Abort(ReplayError::CommandFailed),
            ),
            _ => (Stage::Over, Action::Abort(ReplayError::OutOfTurn)),
        }
    }
}

/// What follows the creation of a session holds at least the renaming of
/// its first window and the command that enters it.
pub proof fn lemma_replay_has_commands(env: EnvironmentView, listing: Seq<Seq<char>>)
    requires
        replay_of(env, listing) is Ok,
    ensures
        replay_of(env, listing)->Ok_0.len() >= 2,
{
}

/// A replay in which nothing fails issues the commands of the snapshot in
/// their order, one per step, and then finishes: the creation of the session
/// at the start, the query for its windows once it is created, the first
/// command behind the creation once the windows are listed, each further
/// command once the one before it succeeded, and the end after the last.
pub proof fn replay_issues_every_command_in_order(env: EnvironmentView, listing: Seq<Seq<char>>)
    requires
        replayable(env.session) is Ok,
        initial_index_of(listing) is Ok,
    ensures
        ({
            let name = replayable(env.session)->Ok_0.0;
            let windows = replayable(env.session)->Ok_0.1;
            let index = initial_index_of(listing)->Ok_0;
            let all = replay_commands(name, windows, index, env.inside_tmux);
            let plan = replay_tail(name, windows, index, env.inside_tmux);
            &&& all.len() == plan.len() + 1
            &&& step_of(env, StageView::Ready, EventView::Start) == (
                StageView::Creating,
                ActionView::Run(all[0]),
            )
            &&& step_of(env, StageView::Creating, EventView::Succeeded) == (
                StageView::Listing,
                ActionView::Query(list_windows_query(name)),
            )
            &&& step_of(env, StageView::Listing, EventView::Listed(listing)) == (
                StageView::Issuing { plan, issued: 1 },
                ActionView::Run(all[1]),
            )
            &&& forall|k: nat|
                1 <= k < plan.len() ==> #[trigger] step_of(
                    env,
                    StageView::Issuing { plan, issued: k },
                    EventView::Succeeded,
                ) == (StageView::Issuing { plan, issued: (k + 1) as nat }, ActionView::Run(all[k as int + 1]))
            &&& step_of(env, StageView::Issuing { plan, issued: plan.len() }, EventView::Succeeded)
                == (StageView::Over, ActionView::Finish)
        }),
{
}

/// A snapshot that cannot be replayed is refused at the start, before any
/// command: one that is not loaded, one without windows, one with a window
/// without panes.
pub proof fn unfit_snapshot_issues_nothing(env: EnvironmentView)
    requires
        replayable(env.session) is Err,
    ensures
        step_of(env, StageView::Ready, EventView::Start) == abort(
            ReplayError::NotReplayable(replayable(env.session)->Err_0),
        ),
        env.session is Some && (env.session->Some_0.windows is None
            || env.session->Some_0.windows->Some_0.len() == 0) ==> replayable(env.session)->Err_0
            == StructuralError::NoWindows,
{
}

/// A failure ends the replay: whatever was issued last, the report of its
/// failure gives no further command.
pub proof fn failure_ends_the_replay(env: EnvironmentView, stage: StageView)
    ensures
        step_of(env, stage, EventView::Failed).0 == StageView::Over,
        step_of(env, stage, EventView::Failed).1 is Abort,
        !(stage is Ready) && !(stage is Over) ==> step_of(env, stage, EventView::Failed).1
            == ActionView::Abort(ReplayError::CommandFailed),
{
}

/// A replay that has ended stays ended: no event gives a further command.
pub proof fn ended_replay_issues_nothing(env: EnvironmentView, event: EventView)
    ensures
        step_of(env, StageView::Over, event) == abort(ReplayError::OutOfTurn),
{
}

} // verus!
