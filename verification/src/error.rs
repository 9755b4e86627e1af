//! Errors reported to the caller whose request could not be served.

use vstd::prelude::*;

verus! {

/// Why a fleet was not accepted.
#[derive(Clone, Copy, PartialEq, Eq, Structural, Debug)]
pub enum FleetError {
    /// The fleet is not four one-deck, three two-deck, two three-deck and
    /// one four-deck ship.
    InvalidComposition,
}

/// Why a request was not served. None of these ends the game or the process.
#[derive(Clone, Copy, PartialEq, Eq, Structural, Debug)]
pub enum GameError {
    /// The submitted fleet was malformed; the caller may submit another.
    FleetError(FleetError),
    /// A coordinate lies outside the board.
    BadRequest,
    /// No session has the given id.
    SessionNotFound,
    /// The session already has two players, or two bound connections.
    SessionFull,
    /// The player already takes part in a session.
    AlreadyInSession,
    /// The game is not in progress, or another player holds the turn.
    NotYourTurn,
    /// The id drawn for a new session is in use; nothing was created.
    IdInUse,
}

impl GameError {
    /// What the caller is told.
    pub open spec fn text(self) -> Seq<char> {
        match self {
            GameError::FleetError(_) => "Incorrect number of ships"@,
            GameError::BadRequest => "Incorrect coordinates"@,
            GameError::SessionNotFound => "No such game"@,
            GameError::SessionFull => "The game is full"@,
            GameError::AlreadyInSession => "Already in a game"@,
            GameError::NotYourTurn => "Not your turn"@,
            GameError::IdInUse => "No free game id"@,
        }
    }

    /// Executable form of [`GameError::text`].
    pub fn message(&self) -> (s: String)
        ensures
            s@ == self.text(),
    {
        let text = match self {
            GameError::FleetError(_) => "Incorrect number of ships",
            GameError::BadRequest => "Incorrect coordinates",
            GameError::SessionNotFound => "No such game",
            GameError::SessionFull => "The game is full",
            GameError::AlreadyInSession => "Already in a game",
            GameError::NotYourTurn => "Not your turn",
            GameError::IdInUse => "No free game id",
        };
        text.to_owned()
    }

    /// Whether the connection that got this answer to a turn has nothing
    /// left to wait for: its game is gone.
    pub fn ends_connection(&self) -> (ends: bool)
        ensures
            ends == (self is SessionNotFound),
    {
        matches!(self, GameError::SessionNotFound)
    }

    /// Whether the caller can mend the request and make it again: the
    /// fleet or the cell was wrong, or it was not the caller's turn.
    pub open spec fn is_mendable(self) -> bool {
        self is FleetError || self is BadRequest || self is NotYourTurn
    }
}

} // verus!
