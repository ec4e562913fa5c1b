//! The bounded record of the cells played, in the order of play.

use crate::board::Space;
use crate::error::Error;
use vstd::prelude::*;

verus! {

/// The most moves that one game can record: one per cell.
pub const MAX_HISTORY_SIZE: usize = 9;

/// The cells played so far, oldest first, in a fixed buffer of nine slots.
#[derive(Debug, Clone, Copy, PartialEq, Eq)]
pub struct History {
    len: u8,
    moves: [Option<Space>; 9],
}

impl View for History {
    type V = Seq<int>;

    /// The indices of the cells played, oldest first.
    closed spec fn view(&self) -> Seq<int> {
        Seq::new(self.len as nat, |i: int| self.moves@[i].unwrap().index())
    }
}

impl History {
    /// The first `len` slots hold valid spaces, the others are empty, and
    /// `len` never exceeds the capacity.
    #[verifier::type_invariant]
    pub closed spec fn wf(self) -> bool {
        &&& self.len <= MAX_HISTORY_SIZE
        &&& forall|i: int|
            0 <= i < self.len ==> (#[trigger] self.moves@[i]) is Some && self.moves@[i].unwrap().wf()
        &&& forall|i: int| self.len <= i < MAX_HISTORY_SIZE ==> (#[trigger] self.moves@[i]) is None
    }

    /// A well-formed history records at most nine moves, each on a cell of the board.
    pub proof fn lemma_bounds(self)
        requires
            self.wf(),
        ensures
            self@.len() <= MAX_HISTORY_SIZE,
            forall|i: int| 0 <= i < self@.len() ==> 0 <= #[trigger] self@[i] < 9,
    {
        assert forall|i: int| 0 <= i < self@.len() implies 0 <= #[trigger] self@[i] < 9 by {
            self.moves@[i].unwrap().lemma_index_in_range();
        }
    }

    /// The history of a game in which nothing has been played.
    pub fn new() -> (history: History)
        ensures
            history.wf(),
            history@ == Seq::<int>::empty(),
    {
        let history = History { len: 0, moves: [None; 9] };
        assert(history@ =~= Seq::<int>::empty());
        history
    }

    /// The number of moves on record.
    pub fn len(&self) -> (len: usize)
        ensures
            self.wf(),
            len == self@.len(),
            len <= MAX_HISTORY_SIZE,
    {
        proof {
            use_type_invariant(self);
        }
        self.len as usize
    }

    /// Appends `space` to the record. Fails with `HistoryFull`, changing
    /// nothing, exactly when nine moves are already on record.
    pub fn add(&mut self, space: Space) -> (res: Result<(), Error>)
        ensures
            final(self).wf(),
            old(self)@.len() == MAX_HISTORY_SIZE ==> res == Err::<(), Error>(Error::HistoryFull)
                && *final(self) == *old(self),
            old(self)@.len() != MAX_HISTORY_SIZE ==> res is Ok && final(self)@ == old(self)@.push(
                space.index(),
            ),
    {
        proof {
            use_type_invariant(&*self);
            use_type_invariant(&space);
        }
        if self.len as usize == MAX_HISTORY_SIZE {
            return Err(Error::HistoryFull);
        }
        let mut moves = self.moves;
        moves[self.len as usize] = Some(space);
        let updated = History { len: self.len + 1, moves };
        assert(updated@ =~= self@.push(space.index()));
        *self = updated;
        Ok(())
    }
}

} // verus!
