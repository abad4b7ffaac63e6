//! One poll of the data file, and the collector's decisions between its
//! reads and waits.

use vstd::prelude::*;
use crate::files::{get_newest_csv_file, newest_of, none_eligible, FileEntry};
use crate::layout::PREFIX_WIDTH;
use crate::record::{extract, readings_of, RecordError};
use crate::state::{applied, MetricsState, StateValues};
use crate::table::{read_table, table_of, LastRow, LastRowTexts};

verus! {

/// Seconds between two polls.
pub const POLL_INTERVAL_SECONDS: u64 = 10;

/// Why a poll changed nothing. Each of these is transient: the next poll
/// tries again.
#[derive(Clone, Copy, Debug, PartialEq, Eq, Structural)]
pub enum PollError {
    /// The header row could not be read.
    UnreadableHeader,
    /// The last data row could not be read as a row of the table.
    MalformedRow,
    /// The last data row gave no readings.
    Record(RecordError),
}

/// How a poll ended.
#[derive(Clone, Copy, Debug, PartialEq, Eq, Structural)]
pub enum PollOutcome {
    /// The readings of the last data row were applied.
    Applied,
    /// The table has no data row yet; the state is as it was.
    NoData,
    /// The poll failed; the state is as it was.
    Failed(PollError),
}

/// How a poll ends on a table with a header of `header_width` columns and
/// the last data row `last`.
pub open spec fn outcome_of(header_width: int, last: LastRowTexts) -> PollOutcome {
    if header_width < PREFIX_WIDTH {
        PollOutcome::Failed(PollError::Record(RecordError::NarrowHeader))
    } else {
        match last {
            LastRowTexts::Nothing => PollOutcome::NoData,
            LastRowTexts::Malformed => PollOutcome::Failed(PollError::MalformedRow),
            LastRowTexts::Fields(fields) => match readings_of(header_width, fields) {
                Ok(_) => PollOutcome::Applied,
                Err(e) => PollOutcome::Failed(PollError::Record(e)),
            },
        }
    }
}

/// The state after such a poll: the readings applied as a whole where the
/// row gives them, the state untouched otherwise.
pub open spec fn state_after(
    state: StateValues,
    header_width: int,
    last: LastRowTexts,
) -> StateValues {
    match last {
        LastRowTexts::Fields(fields) => match readings_of(header_width, fields) {
            Ok(readings) => applied(state, readings),
            Err(_) => state,
        },
        _ => state,
    }
}

/// Applies the last data row of a table to the state.
pub fn apply_last_row(state: &mut MetricsState, header_width: usize, last: &LastRow) -> (outcome:
    PollOutcome)
    ensures
        outcome == outcome_of(header_width as int, last@),
        final(state)@ == state_after(old(state)@, header_width as int, last@),
{
    if header_width < PREFIX_WIDTH {
        return PollOutcome::Failed(PollError::Record(RecordError::NarrowHeader));
    }
    match last {
        LastRow::Nothing => PollOutcome::NoData,
        LastRow::Malformed => PollOutcome::Failed(PollError::MalformedRow),
        LastRow::Fields(fields) => match extract(header_width, fields) {
            Ok(readings) => {
                state.apply(&readings);
                PollOutcome::Applied
            },
            Err(e) => PollOutcome::Failed(PollError::Record(e)),
        },
    }
}

/// How a poll of the file contents `data` ends.
pub open spec fn poll_outcome_of(data: Seq<u8>) -> PollOutcome {
    match table_of(data) {
        Some((width, last)) => outcome_of(width as int, last),
        None => PollOutcome::Failed(PollError::UnreadableHeader),
    }
}

/// The state after a poll of the file contents `data`.
pub open spec fn polled(state: StateValues, data: Seq<u8>) -> StateValues {
    match table_of(data) {
        Some((width, last)) => state_after(state, width as int, last),
        None => state,
    }
}

/// Polls the contents of the data file: reads the table and applies its
/// last data row to the state.
pub fn poll(state: &mut MetricsState, data: &[u8]) -> (outcome: PollOutcome)
    ensures
        outcome == poll_outcome_of(data@),
        final(state)@ == polled(old(state)@, data@),
{
    match read_table(data) {
        Some(table) => apply_last_row(state, table.header_width, &table.last),
        None => PollOutcome::Failed(PollError::UnreadableHeader),
    }
}

/// What has happened since the collector's last decision.
pub enum Event {
    /// The collector starts, or the wait between two polls is over.
    Wake,
    /// The data directory could not be listed.
    Unlistable,
    /// The data directory was listed.
    Listed(Vec<FileEntry>),
    /// The chosen file could not be opened or read.
    Unreadable,
    /// The chosen file was read.
    Contents(Vec<u8>),
}

/// What there is to report of a poll cycle.
#[derive(Clone, Copy, Debug, PartialEq, Eq, Structural)]
pub enum Report {
    /// The file could not be opened; nothing was polled.
    OpenFailed,
    /// The file was polled.
    Polled(PollOutcome),
}

/// What the collector does next.
#[derive(Clone, Copy, Debug, PartialEq, Eq, Structural)]
pub enum Action {
    /// List the data directory.
    List,
    /// Read the entry at this position of the listing.
    Read(usize),
    /// Report the cycle, then wait for the poll interval.
    Wait(Report),
    /// Stop the whole process: the directory cannot be listed or holds no
    /// data file.
    Terminate,
}

/// The collector's decision on `event`.
pub open spec fn action_of(event: Event) -> Action {
    match event {
        Event::Wake => Action::List,
        Event::Unlistable => Action::Terminate,
        Event::Listed(entries) => match newest_of(entries@) {
            Some(at) => Action::Read(at as usize),
            None => Action::Terminate,
        },
        Event::Unreadable => Action::Wait(Report::OpenFailed),
        Event::Contents(data) => Action::Wait(Report::Polled(poll_outcome_of(data@))),
    }
}

/// The state after the collector's decision on `event`: only the contents
/// of a file can change it.
pub open spec fn state_on(state: StateValues, event: Event) -> StateValues {
    match event {
        Event::Contents(data) => polled(state, data@),
        _ => state,
    }
}

/// Decides what the collector does on `event`, and applies a file's
/// contents to the state. A directory that cannot be listed, or a listing
/// without an eligible file, ends the process; a file that cannot be read,
/// or whose poll fails, costs one cycle and leaves the state as it was.
pub fn step(state: &mut MetricsState, event: &Event) -> (action: Action)
    ensures
        action == action_of(*event),
        final(state)@ == state_on(old(state)@, *event),
        event matches Event::Listed(entries) ==> (action == Action::Terminate <==> none_eligible(
            entries@,
        )),
{
    match event {
        Event::Wake => Action::List,
        Event::Unlistable => Action::Terminate,
        Event::Listed(entries) => match get_newest_csv_file(entries) {
            Some(at) => Action::Read(at),
            None => Action::Terminate,
        },
        Event::Unreadable => Action::Wait(Report::OpenFailed),
        Event::Contents(data) => Action::Wait(Report::Polled(poll(state, data.as_slice()))),
    }
}

} // verus!
