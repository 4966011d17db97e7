//! What the command line asks for.

use vstd::prelude::*;

verus! {

/// The arguments of one invocation.
#[derive(Debug, Clone, PartialEq, Eq)]
pub struct TmuxArgs {
    /// The subcommand, where one was given.
    pub action: Option<Action>,
}

/// The subcommands.
#[derive(Debug, Clone, PartialEq, Eq)]
pub enum Action {
    /// Take a snapshot of the live session of the given name.
    Create(CreateArgs),
    /// Rebuild a session from the snapshot at the given path.
    Load(LoadArgs),
    /// Refresh an existing snapshot.
    Update,
}

/// The arguments of `create`.
#[derive(Debug, Clone, PartialEq, Eq)]
pub struct CreateArgs {
    /// The name of the live session.
    pub session_name: String,
}

/// The arguments of `load`.
#[derive(Debug, Clone, PartialEq, Eq)]
pub struct LoadArgs {
    /// The path of the snapshot file.
    pub path: String,
}

/// The snapshot that is loaded where the command line names none.
pub open spec fn fallback_path() -> Seq<char> {
    "example.yaml"@
}

impl TmuxArgs {
    /// The path of the snapshot that this invocation loads: the one given
    /// with `load`, the fallback where no subcommand was given, and none for
    /// the other subcommands.
    pub open spec fn spec_load_path(&self) -> Option<Seq<char>> {
        match self.action {
            Some(Action::Load(args)) => Some(args.path@),
            Some(_) => None,
            None => Some(fallback_path()),
        }
    }

    /// The path of the snapshot that this invocation loads, if it loads one.
    pub fn load_path(&self) -> (r: Option<String>)
        ensures
            match self.spec_load_path() {
                Some(path) => r is Some && r->Some_0@ == path,
                None => r is None,
            },
    {
        match &self.action {
            Some(Action::Load(args)) => Some(args.path.clone()),
            Some(_) => None,
            None => Some("example.yaml".to_owned()),
        }
    }
}

} // verus!
