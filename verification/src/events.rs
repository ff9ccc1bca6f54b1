//! The events the controller consumes. Key input, corpus growth, finished
//! ranking jobs and the missing-input signal all arrive through one
//! channel and are handled one at a time, in arrival order.

use vstd::prelude::*;

use crate::rank::SortedList;

verus! {

/// A key press, as the controller understands it.
#[derive(Clone, Copy, Debug, PartialEq, Eq, Structural)]
pub enum Key {
    Char(char),
    Backspace,
    Up,
    Down,
    Enter,
    Esc,
    Other,
}

/// What flows through the event bus.
pub enum Event {
    /// A key press from the input reader thread.
    Input(Key),
    /// A batch of lines from the ingestion feed.
    AddList(Vec<Vec<char>>),
    /// The ranked list of a completed ranking job.
    RefreshList(SortedList),
    /// Standard input is an interactive terminal: nothing will arrive.
    NoStdin,
}

} // verus!
