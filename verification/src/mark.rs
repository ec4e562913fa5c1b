//! The three states of a cell and the rule by which turns alternate.

use vstd::prelude::*;
use vstd::string::*;

verus! {

/// What a cell holds: one of the two players' marks, or nothing.
#[derive(Debug, Clone, Copy, PartialEq, Eq, Structural)]
pub enum Mark {
    X,
    O,
    Blank,
}

impl Mark {
    /// The mark that moves after `self`: `X` follows `Blank` and `O`, `O` follows `X`.
    pub open spec fn successor(self) -> Mark {
        match self {
            Mark::X => Mark::O,
            Mark::O | Mark::Blank => Mark::X,
        }
    }

    /// The single character that stands for the mark in a rendered grid.
    pub open spec fn glyph(self) -> char {
        match self {
            Mark::X => 'X',
            Mark::O => 'O',
            Mark::Blank => ' ',
        }
    }

    /// Whether the mark belongs to a player.
    pub open spec fn is_player(self) -> bool {
        self != Mark::Blank
    }

    /// The mark that a three-way draw stands for: `X` for 0, `O` for 1, blank for anything else.
    pub open spec fn sampled(draw: u8) -> Mark {
        match draw {
            0 => Mark::X,
            1 => Mark::O,
            _ => Mark::Blank,
        }
    }

    /// The mark that a three-way draw stands for: `X` for 0, `O` for 1, blank for anything else.
    pub fn sample(draw: u8) -> (mark: Mark)
        ensures
            mark == Mark::sampled(draw),
    {
        match draw {
            0 => Mark::X,
            1 => Mark::O,
            _ => Mark::Blank,
        }
    }

    /// Hands the turn to the other player.
    pub fn next(&mut self)
        ensures
            *final(self) == old(self).successor(),
    {
        *self = match *self {
            Mark::Blank | Mark::O => Mark::X,
            Mark::X => Mark::O,
        }
    }

    /// The mark as text: `"X"`, `"O"`, or one space for a blank cell.
    pub fn to_string(&self) -> (text: String)
        ensures
            text@ == seq![self.glyph()],
    {
        proof {
            reveal_strlit("X");
            reveal_strlit("O");
            reveal_strlit(" ");
        }
        let text = match self {
            Mark::X => String::from_str("X"),
            Mark::O => String::from_str("O"),
            Mark::Blank => String::from_str(" "),
        };
        assert(text@ =~= seq![self.glyph()]);
        text
    }
}

impl Default for Mark {
    /// A cell starts out blank.
    fn default() -> (mark: Mark)
        ensures
            mark == Mark::Blank,
    {
        Mark::Blank
    }
}

} // verus!
