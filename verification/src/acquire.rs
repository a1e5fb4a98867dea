//! Recording one node: the position is asked for until it is valid, then the
//! notes, then the networks are scanned. The library decides; the caller asks
//! the user, runs the scan and hands in what came of it.

use vstd::prelude::*;
use crate::error::{Axis, InvalidInput, ScanError};
use crate::model::{finite_bits, is_finite_bits, Coordinate, Node, Sighting};
use crate::scan::{
    from_scan, is_stable_sort, lemma_stable_sort_permutes, same_groups, sort_by_mac, sorted_by_mac,
    tagged,
};
use crate::text::{strip_newlines, without_newlines};

verus! {

/// How far the recording of a node has come.
#[derive(Debug, PartialEq, Eq)]
pub enum Acquisition {
    /// Waiting for a valid position.
    CollectPosition,
    /// The position is known; waiting for the notes.
    CollectNotes { position: Coordinate },
    /// Position and notes are known; waiting for the scan.
    Scan { position: Coordinate, notes: String },
    /// Finished, with the node or with the failure of the scan.
    Done { outcome: Result<Node, ScanError> },
}

/// What the caller hands in.
#[derive(Debug, PartialEq, Eq)]
pub enum Event {
    /// A line was read for the position. `readings` holds one entry for each
    /// token of the line, in order: the bit pattern of the single-precision
    /// number that the token writes, or `None` where it writes none.
    Position { readings: Vec<Option<u32>> },
    /// A line was read for the notes.
    Notes { line: String },
    /// The scan has run. `time` was taken just before it was started, in
    /// milliseconds since the Unix epoch.
    Scanned { time: u128, result: Result<Vec<Sighting>, ScanError> },
}

/// What the caller is to do next.
#[derive(Debug, Clone, Copy, PartialEq, Eq, Structural)]
pub enum Action {
    /// Tell the user what was wrong with the position and ask for it again.
    Retry { problem: InvalidInput },
    /// Ask for the notes.
    AskNotes,
    /// Take the time and run the scan.
    RunScan,
    /// Show the node; `warn` says that the scan found no network.
    Show { warn: bool },
    /// Give up: the scan failed and there is no node.
    Fail,
    /// Nothing: the event does not belong to this state.
    Ignore,
}

/// The reading is the bit pattern of a finite number.
pub open spec fn valid_reading(r: Option<u32>) -> bool {
    r matches Some(bits) && finite_bits(bits)
}

/// The position that the readings of one line give: exactly three are
/// needed, each a finite number. The first axis that fails is named.
pub open spec fn position_of(readings: Seq<Option<u32>>) -> Result<Coordinate, InvalidInput> {
    if readings.len() != 3 {
        Err(InvalidInput::Format)
    } else if !valid_reading(readings[0]) {
        Err(InvalidInput::Number(Axis::X))
    } else if !valid_reading(readings[1]) {
        Err(InvalidInput::Number(Axis::Y))
    } else if !valid_reading(readings[2]) {
        Err(InvalidInput::Number(Axis::Z))
    } else {
        Ok(Coordinate { x: readings[0]->0, y: readings[1]->0, z: readings[2]->0 })
    }
}

fn reading(readings: &Vec<Option<u32>>, i: usize, axis: Axis) -> (r: Result<u32, InvalidInput>)
    requires
        i < readings@.len(),
    ensures
        valid_reading(readings@[i as int]) ==> r == Ok::<u32, InvalidInput>(
            readings@[i as int]->0,
        ),
        !valid_reading(readings@[i as int]) ==> r == Err::<u32, InvalidInput>(
            InvalidInput::Number(axis),
        ),
{
    match readings[i] {
        Some(bits) => {
            if is_finite_bits(bits) {
                Ok(bits)
            } else {
                Err(InvalidInput::Number(axis))
            }
        },
        None => Err(InvalidInput::Number(axis)),
    }
}

/// Makes the position out of the readings of one line, or says what is wrong
/// with them.
pub fn read_position(readings: &Vec<Option<u32>>) -> (r: Result<Coordinate, InvalidInput>)
    ensures
        r == position_of(readings@),
{
    if readings.len() != 3 {
        return Err(InvalidInput::Format);
    }
    let x = match reading(readings, 0, Axis::X) {
        Ok(bits) => bits,
        Err(problem) => {
            return Err(problem);
        },
    };
    let y = match reading(readings, 1, Axis::Y) {
        Ok(bits) => bits,
        Err(problem) => {
            return Err(problem);
        },
    };
    let z = match reading(readings, 2, Axis::Z) {
        Ok(bits) => bits,
        Err(problem) => {
            return Err(problem);
        },
    };
    Ok(Coordinate { x, y, z })
}

/// The step from `pre` on `event` to `post`, with `action` for the caller.
pub open spec fn transition(
    pre: Acquisition,
    event: Event,
    post: Acquisition,
    action: Action,
) -> bool {
    match (pre, event) {
        (Acquisition::CollectPosition, Event::Position { readings }) => match position_of(
            readings@,
        ) {
            Ok(position) => post == (Acquisition::CollectNotes { position }) && action
                == Action::AskNotes,
            Err(problem) => post == Acquisition::CollectPosition && action == (Action::Retry {
                problem,
            }),
        },
        (Acquisition::CollectNotes { position }, Event::Notes { line }) => {
            &&& post matches Acquisition::Scan { position: p, notes }
            &&& p == position
            &&& notes@ == without_newlines(line@)
            &&& action == Action::RunScan
        },
        (Acquisition::Scan { position, notes }, Event::Scanned { time, result: Ok(sightings) }) => {
            &&& post matches Acquisition::Done { outcome: Ok(node) }
            &&& node.position == position
            &&& node.notes == notes
            &&& is_stable_sort(node.networks@, tagged(sightings@, time))
            &&& action == (Action::Show { warn: sightings@.len() == 0 })
        },
        (Acquisition::Scan { position, notes }, Event::Scanned { time, result: Err(e) }) => {
            &&& post == (Acquisition::Done { outcome: Err(e) })
            &&& action == Action::Fail
        },
        _ => post == pre && action == Action::Ignore,
    }
}

/// The line above the questions of a recording.
pub fn opening() -> (out: &'static str)
    ensures
        out@ == "New measurement properties:"@,
{
    "New measurement properties:"
}

/// The warning that goes with a scan that found no network.
pub fn empty_scan_warning() -> (out: &'static str)
    ensures
        out@
            == "Warning: No networks were found, this indicates that you may have to run this tool with elevated privileges"@,
{
    "Warning: No networks were found, this indicates that you may have to run this tool with elevated privileges"
}

impl Acquisition {
    /// The start of a recording: the position is asked for first.
    pub fn new() -> (a: Acquisition)
        ensures
            a == Acquisition::CollectPosition,
    {
        Acquisition::CollectPosition
    }

    /// What is shown while the recording waits in this state: the question
    /// for the position or for the notes, the word that a scan is running, or
    /// nothing once it is finished.
    pub open spec fn prompt_text(self) -> Seq<char> {
        match self {
            Acquisition::CollectPosition => "    Coordinates (x y z): "@,
            Acquisition::CollectNotes { .. } => "    Notes (empty for none): "@,
            Acquisition::Scan { .. } => "Scanning"@,
            Acquisition::Done { .. } => ""@,
        }
    }

    /// Gives what is shown while the recording waits in this state.
    pub fn prompt(&self) -> (out: &'static str)
        ensures
            out@ == self.prompt_text(),
    {
        match self {
            Acquisition::CollectPosition => "    Coordinates (x y z): ",
            Acquisition::CollectNotes { .. } => "    Notes (empty for none): ",
            Acquisition::Scan { .. } => "Scanning",
            Acquisition::Done { .. } => "",
        }
    }

    /// Takes one event and says what the caller is to do next.
    pub fn step(self, event: Event) -> (r: (Acquisition, Action))
        ensures
            transition(self, event, r.0, r.1),
    {
        match self {
            Acquisition::CollectPosition => match event {
                Event::Position { readings } => match read_position(&readings) {
                    Ok(position) => (Acquisition::CollectNotes { position }, Action::AskNotes),
                    Err(problem) => (Acquisition::CollectPosition, Action::Retry { problem }),
                },
                _ => (Acquisition::CollectPosition, Action::Ignore),
            },
            Acquisition::CollectNotes { position } => match event {
                Event::Notes { line } => {
                    let notes = strip_newlines(line.as_str());
                    (Acquisition::Scan { position, notes }, Action::RunScan)
                },
                _ => (Acquisition::CollectNotes { position }, Action::Ignore),
            },
            Acquisition::Scan { position, notes } => match event {
                Event::Scanned { time, result } => match result {
                    Ok(sightings) => {
                        let warn = sightings.len() == 0;
                        let mut networks = from_scan(sightings, time);
                        sort_by_mac(&mut networks);
                        let node = Node { position, notes, networks };
                        (Acquisition::Done { outcome: Ok(node) }, Action::Show { warn })
                    },
                    Err(e) => (Acquisition::Done { outcome: Err(e) }, Action::Fail),
                },
                _ => (Acquisition::Scan { position, notes }, Action::Ignore),
            },
            Acquisition::Done { outcome } => (Acquisition::Done { outcome }, Action::Ignore),
        }
    }
}

/// A line that does not give exactly three finite numbers leaves the
/// recording in `CollectPosition`: the user is told what is wrong and asked
/// again, and nothing fails.
pub proof fn lemma_malformed_position_stays(
    readings: Vec<Option<u32>>,
    post: Acquisition,
    action: Action,
)
    requires
        transition(Acquisition::CollectPosition, Event::Position { readings }, post, action),
        readings@.len() != 3 || exists|i: int| 0 <= i < 3 && !valid_reading(#[trigger] readings@[i]),
    ensures
        post == Acquisition::CollectPosition,
        action == (Action::Retry { problem: position_of(readings@)->Err_0 }),
        position_of(readings@) is Err,
{
}

/// The recording gets to `CollectNotes` in one way only: from
/// `CollectPosition`, on a line that gives exactly three finite numbers,
/// which then are the position.
pub proof fn lemma_notes_follow_valid_position(
    pre: Acquisition,
    event: Event,
    post: Acquisition,
    action: Action,
)
    requires
        transition(pre, event, post, action),
        post is CollectNotes,
        action != Action::Ignore,
    ensures
        pre == Acquisition::CollectPosition,
        event matches Event::Position { readings } && readings@.len() == 3 && valid_reading(
            readings@[0],
        ) && valid_reading(readings@[1]) && valid_reading(readings@[2]) && post == (
        Acquisition::CollectNotes {
            position: Coordinate {
                x: readings@[0]->0,
                y: readings@[1]->0,
                z: readings@[2]->0,
            },
        }),
        post->CollectNotes_position.finite(),
{
}

/// A scan that finds no network is no failure: the recording ends with a
/// node that holds the position, the notes and no observation, and the
/// caller is told to warn.
pub proof fn lemma_empty_scan_gives_node(
    position: Coordinate,
    notes: String,
    time: u128,
    sightings: Vec<Sighting>,
    post: Acquisition,
    action: Action,
)
    requires
        transition(
            Acquisition::Scan { position, notes },
            Event::Scanned { time, result: Ok(sightings) },
            post,
            action,
        ),
        sightings@.len() == 0,
    ensures
        post matches Acquisition::Done { outcome: Ok(node) } && node.position == position
            && node.notes == notes && node.networks@.len() == 0,
        action == (Action::Show { warn: true }),
{
}

/// A scan that fails ends the recording without a node.
pub proof fn lemma_failed_scan_gives_no_node(
    position: Coordinate,
    notes: String,
    time: u128,
    e: ScanError,
    post: Acquisition,
    action: Action,
)
    requires
        transition(
            Acquisition::Scan { position, notes },
            Event::Scanned { time, result: Err(e) },
            post,
            action,
        ),
    ensures
        post == (Acquisition::Done { outcome: Err(e) }),
        action == Action::Fail,
{
}

/// The node of a scan that succeeds holds one observation for each
/// sighting, each with the time of the scan, in ascending order of the
/// hardware addresses; observations with the same address stand in the order
/// in which the scan gave them.
pub proof fn lemma_scan_is_stored_sorted(
    position: Coordinate,
    notes: String,
    time: u128,
    sightings: Vec<Sighting>,
    post: Acquisition,
    action: Action,
)
    requires
        transition(
            Acquisition::Scan { position, notes },
            Event::Scanned { time, result: Ok(sightings) },
            post,
            action,
        ),
    ensures
        post matches Acquisition::Done { outcome: Ok(node) } && node.networks@.len()
            == sightings@.len() && sorted_by_mac(node.networks@) && same_groups(
            node.networks@,
            tagged(sightings@, time),
        ) && node.networks@.to_multiset() == tagged(sightings@, time).to_multiset(),
        forall|i: int|
            0 <= i < sightings@.len() ==> (#[trigger] post->Done_outcome->Ok_0.networks@[i]).time_scanned
                == time,
{
    let node = post->Done_outcome->Ok_0;
    lemma_stable_sort_permutes(node.networks@, tagged(sightings@, time));
    assert forall|i: int| 0 <= i < sightings@.len() implies (#[trigger] node.networks@[i]).time_scanned
        == time by {
        let n = node.networks@[i];
        let given = tagged(sightings@, time);
        assert(node.networks@.contains(n));
        vstd::seq_lib::to_multiset_contains(node.networks@, n);
        vstd::seq_lib::to_multiset_contains(given, n);
        let j = choose|j: int| 0 <= j < given.len() && given[j] == n;
        assert(given[j].time_scanned == time);
    }
}

} // verus!
