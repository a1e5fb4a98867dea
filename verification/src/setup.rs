//! Making a new scan map: a name is asked for until one is given, then the
//! notes.

use vstd::prelude::*;
use crate::model::ScanMap;
use crate::text::{strip_newlines, without_newlines};

verus! {

/// How far the making of a new scan map has come.
#[derive(Debug, PartialEq, Eq)]
pub enum Setup {
    /// Waiting for a name that is not empty.
    CollectName,
    /// The name is known; waiting for the notes.
    CollectNotes { name: String },
    /// The map is made.
    Ready { map: ScanMap },
}

/// What the caller is to do next.
#[derive(Debug, Clone, Copy, PartialEq, Eq, Structural)]
pub enum SetupAction {
    /// Tell the user that the name cannot be empty and ask for it again.
    RetryName,
    /// Ask for the notes.
    AskNotes,
    /// Take the map.
    Finish,
    /// Nothing: the map is made already.
    Ignore,
}

/// The step from `pre` on the line `line` to `post`, with `action` for the
/// caller.
pub open spec fn setup_transition(
    pre: Setup,
    line: Seq<char>,
    post: Setup,
    action: SetupAction,
) -> bool {
    match pre {
        Setup::CollectName => if without_newlines(line).len() > 0 {
            &&& post matches Setup::CollectNotes { name }
            &&& name@ == without_newlines(line)
            &&& action == SetupAction::AskNotes
        } else {
            post == Setup::CollectName && action == SetupAction::RetryName
        },
        Setup::CollectNotes { name } => {
            &&& post matches Setup::Ready { map }
            &&& map.name == name
            &&& map.notes@ == without_newlines(line)
            &&& map.nodes@.len() == 0
            &&& action == SetupAction::Finish
        },
        Setup::Ready { map } => post == pre && action == SetupAction::Ignore,
    }
}

/// The line that tells the user that a name is needed.
pub fn name_error() -> (out: &'static str)
    ensures
        out@ == "    Error: Name cannot be empty"@,
{
    "    Error: Name cannot be empty"
}

impl Setup {
    /// The name that is known is not empty.
    pub open spec fn wf(self) -> bool {
        match self {
            Setup::CollectName => true,
            Setup::CollectNotes { name } => name@.len() > 0,
            Setup::Ready { map } => map.name@.len() > 0,
        }
    }

    /// What is shown while the making waits in this state: the question for
    /// the name or for the notes, or nothing once the map is made.
    pub open spec fn prompt_text(self) -> Seq<char> {
        match self {
            Setup::CollectName => "    Name: "@,
            Setup::CollectNotes { .. } => "    Notes (empty for none): "@,
            Setup::Ready { .. } => ""@,
        }
    }

    /// Gives what is shown while the making waits in this state.
    pub fn prompt(&self) -> (out: &'static str)
        ensures
            out@ == self.prompt_text(),
    {
        match self {
            Setup::CollectName => "    Name: ",
            Setup::CollectNotes { .. } => "    Notes (empty for none): ",
            Setup::Ready { .. } => "",
        }
    }

    /// The start: the name is asked for first.
    pub fn new() -> (s: Setup)
        ensures
            s == Setup::CollectName,
            s.wf(),
    {
        Setup::CollectName
    }

    /// Takes one line that the user typed and says what the caller is to do
    /// next.
    pub fn step(self, line: &str) -> (r: (Setup, SetupAction))
        ensures
            setup_transition(self, line@, r.0, r.1),
            self.wf() ==> r.0.wf(),
    {
        match self {
            Setup::CollectName => {
                let name = strip_newlines(line);
                if name.as_str().is_empty() {
                    (Setup::CollectName, SetupAction::RetryName)
                } else {
                    (Setup::CollectNotes { name }, SetupAction::AskNotes)
                }
            },
            Setup::CollectNotes { name } => {
                let notes = strip_newlines(line);
                let map = ScanMap { name, notes, nodes: Vec::new() };
                (Setup::Ready { map }, SetupAction::Finish)
            },
            Setup::Ready { map } => (Setup::Ready { map }, SetupAction::Ignore),
        }
    }
}

} // verus!
