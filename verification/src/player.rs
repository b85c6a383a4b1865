//! Player commands and the errors of the user interface.

use vstd::prelude::*;
use crate::radio::RadioStationId;

verus! {

/// What to play.
pub enum Play {
    Radio(RadioStationId),
}

/// A command for the player.
pub enum Action {
    Play(Play),
    Stop,
    Pause,
    Skip,
}

/// Errors of the user interface.
pub enum Error {
    NotFound(String),
    Network(String),
    System(String),
}

impl Error {
    /// A system error with the given message.
    pub fn new(from: String) -> (r: Error)
        ensures
            r matches Error::System(m) && m@ == from@,
    {
        Error::System(from)
    }
}

} // verus!
