//! The ways in which a move can be refused.

use vstd::prelude::*;
use vstd::string::*;

verus! {

/// Why a move was not applied.
#[derive(Debug, Clone, Copy, PartialEq, Eq, Structural)]
pub enum Error {
    /// The cell index lies outside the board.
    InvalidSpace,
    /// The move is not allowed in the current position.
    InvalidMove,
    /// Nine moves are already on record.
    HistoryFull,
}

impl Error {
    /// The text by which the error is reported.
    pub open spec fn message(self) -> Seq<char> {
        match self {
            Error::InvalidSpace => "invalid space"@,
            Error::InvalidMove => "invalid move"@,
            Error::HistoryFull => "game history full"@,
        }
    }

    /// The error as text.
    pub fn to_string(&self) -> (text: String)
        ensures
            text@ == self.message(),
    {
        match self {
            Error::InvalidSpace => String::from_str("invalid space"),
            Error::InvalidMove => String::from_str("invalid move"),
            Error::HistoryFull => String::from_str("game history full"),
        }
    }
}

/// No two errors are reported with the same text.
pub proof fn lemma_messages_distinct(a: Error, b: Error)
    ensures
        a.message() == b.message() <==> a == b,
{
    reveal_strlit("invalid space");
    reveal_strlit("invalid move");
    reveal_strlit("game history full");
    assert("invalid space"@.len() == 13);
    assert("invalid move"@.len() == 12);
    assert("game history full"@.len() == 17);
}

} // verus!
