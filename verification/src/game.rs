//! The game: whose turn it is, the board, and the record of moves, advanced
//! one move at a time.

use crate::board::{blank_cells, Board, Space};
use crate::error::Error;
use crate::history::{History, MAX_HISTORY_SIZE};
use crate::mark::Mark;
use vstd::prelude::*;

verus! {

/// The player who makes move number `n`, counting from zero: `X` opens and the two alternate.
pub open spec fn mover(n: nat) -> Mark {
    if n % 2 == 0 {
        Mark::X
    } else {
        Mark::O
    }
}

/// The board that results from playing `history` on a blank board: each
/// cell holds the mark of the last move made on it.
pub open spec fn replay(history: Seq<int>) -> Seq<Mark>
    decreases history.len(),
{
    if history.len() == 0 {
        blank_cells()
    } else {
        replay(history.drop_last()).update(history.last(), mover((history.len() - 1) as nat))
    }
}

/// A game as a mathematical value.
#[verifier::ext_equal]
pub struct GameState {
    /// The mark that the next accepted move will place.
    pub turn: Mark,
    /// The nine cells in cell order.
    pub board: Seq<Mark>,
    /// The cells played, oldest first.
    pub history: Seq<int>,
}

impl GameState {
    /// The state in which every game starts: a blank board, `X` to move, nothing on record.
    pub open spec fn initial() -> GameState {
        GameState { turn: Mark::X, board: blank_cells(), history: Seq::empty() }
    }

    /// A state that play can reach: at most nine moves on record, each on a
    /// cell of the board; the board is what those moves leave behind; and the
    /// turn is that of the player who makes the next move.
    pub open spec fn wf(self) -> bool {
        &&& self.history.len() <= MAX_HISTORY_SIZE
        &&& forall|i: int| 0 <= i < self.history.len() ==> 0 <= #[trigger] self.history[i] < 9
        &&& self.board == replay(self.history)
        &&& self.turn == mover(self.history.len())
    }

    /// How a move on the raw cell index `space` is answered: an index off the
    /// board is refused first, then a move beyond the ninth.
    pub open spec fn verdict(self, space: u8) -> Result<(), Error> {
        if space > 8 {
            Err(Error::InvalidSpace)
        } else if self.history.len() >= MAX_HISTORY_SIZE {
            Err(Error::HistoryFull)
        } else {
            Ok(())
        }
    }

    /// The state after the player to move has marked the cell `space`: the
    /// cell holds that player's mark, whatever it held before, the move is on
    /// record, and the turn has passed on.
    pub open spec fn place(self, space: int) -> GameState {
        GameState {
            turn: self.turn.successor(),
            board: self.board.update(space, self.turn),
            history: self.history.push(space),
        }
    }

    /// The state after one attempted move: advanced if the move is accepted, unchanged if not.
    pub open spec fn step(self, space: u8) -> GameState {
        if self.verdict(space) is Ok {
            self.place(space as int)
        } else {
            self
        }
    }

    /// The state after a series of attempted moves, made in order.
    pub open spec fn play(self, attempts: Seq<u8>) -> GameState
        decreases attempts.len(),
    {
        if attempts.len() == 0 {
            self
        } else {
            self.play(attempts.drop_last()).step(attempts.last())
        }
    }

    /// How many of a series of attempted moves are accepted.
    pub open spec fn accepted(self, attempts: Seq<u8>) -> nat
        decreases attempts.len(),
    {
        if attempts.len() == 0 {
            0
        } else {
            let earlier = attempts.drop_last();
            let last: nat = if self.play(earlier).verdict(attempts.last()) is Ok {
                1
            } else {
                0
            };
            self.accepted(earlier) + last
        }
    }
}

/// A game of tic-tac-toe in progress.
#[derive(Debug, Clone, Copy, PartialEq, Eq)]
pub struct Game {
    turn: Mark,
    board: Board,
    history: History,
}

impl View for Game {
    type V = GameState;

    closed spec fn view(&self) -> GameState {
        GameState { turn: self.turn, board: self.board@, history: self.history@ }
    }
}

impl Game {
    /// Every game is in a state that play can reach.
    #[verifier::type_invariant]
    pub closed spec fn wf(self) -> bool {
        self.history.wf() && self@.wf()
    }

    /// What holds of every game, stated over its view.
    pub proof fn lemma_wf(self)
        requires
            self.wf(),
        ensures
            self@.wf(),
    {
    }

    /// A new game: a blank board, `X` to move, nothing on record.
    pub fn new() -> (game: Game)
        ensures
            game.wf(),
            game@ == GameState::initial(),
    {
        Game { turn: Mark::X, board: Board::new(), history: History::new() }
    }

    /// Attempts a move by the player to move on the raw cell index `space`.
    ///
    /// The index is validated first, then the room left on record; a refused
    /// move leaves the game as it was. An accepted move marks the cell,
    /// whether or not it was already taken, records the move and passes the
    /// turn on.
    pub fn mark(&mut self, space: u8) -> (res: Result<(), Error>)
        ensures
            final(self).wf(),
            res == old(self)@.verdict(space),
            final(self)@ == old(self)@.step(space),
            res is Err ==> *final(self) == *old(self),
    {
        proof {
            use_type_invariant(&*self);
        }
        let cell = match Space::try_from(space) {
            Ok(cell) => cell,
            Err(e) => {
                return Err(e);
            },
        };
        if self.history.len() == MAX_HISTORY_SIZE {
            return Err(Error::HistoryFull);
        }
        let mut board = self.board;
        let mut history = self.history;
        let mut turn = self.turn;
        match board.mark(cell, turn) {
            Ok(()) => {},
            Err(e) => {
                return Err(e);
            },
        }
        match history.add(cell) {
            Ok(()) => {},
            Err(e) => {
                return Err(e);
            },
        }
        turn.next();
        proof {
            let before = self@;
            assert(history@.drop_last() =~= before.history);
            assert(history@.last() == space as int);
        }
        *self = Game { turn, board, history };
        Ok(())
    }

    /// The mark that the next accepted move will place.
    pub fn turn(&self) -> (turn: Mark)
        ensures
            turn == self@.turn,
    {
        self.turn
    }

    /// The board as it stands.
    pub fn board(&self) -> (board: Board)
        ensures
            board@ == self@.board,
    {
        self.board
    }

    /// The record of the moves made.
    pub fn history(&self) -> (history: History)
        ensures
            history@ == self@.history,
    {
        self.history
    }
}

/// The cells of `board` that hold a player's mark.
pub open spec fn occupied(board: Seq<Mark>) -> Set<int> {
    Set::new(|i: int| 0 <= i < board.len() && board[i].is_player())
}

/// Replaying moves made on cells of the board gives a board of nine cells.
pub proof fn lemma_replay_len(history: Seq<int>)
    requires
        forall|i: int| 0 <= i < history.len() ==> 0 <= #[trigger] history[i] < 9,
    ensures
        replay(history).len() == 9,
    decreases history.len(),
{
    if history.len() > 0 {
        lemma_replay_len(history.drop_last());
    }
}

/// After a replay the cells that hold a player's mark are exactly the cells played.
pub proof fn lemma_replay_occupied(history: Seq<int>)
    requires
        forall|i: int| 0 <= i < history.len() ==> 0 <= #[trigger] history[i] < 9,
    ensures
        occupied(replay(history)) == history.to_set(),
    decreases history.len(),
{
    lemma_replay_len(history);
    if history.len() == 0 {
        assert(occupied(replay(history)) =~= history.to_set());
    } else {
        let earlier = history.drop_last();
        lemma_replay_len(earlier);
        lemma_replay_occupied(earlier);
        assert forall|i: int| history.to_set().contains(i) <==> earlier.to_set().contains(i) || i
            == history.last() by {
            if earlier.to_set().contains(i) {
                let k = choose|k: int| 0 <= k < earlier.len() && earlier[k] == i;
                assert(history[k] == i);
            }
            if i == history.last() {
                assert(history[history.len() - 1] == i);
            }
            if history.to_set().contains(i) {
                let k = choose|k: int| 0 <= k < history.len() && history[k] == i;
                if k < earlier.len() {
                    assert(earlier[k] == i);
                }
            }
        }
        assert(occupied(replay(history)) =~= history.to_set());
    }
}

impl GameState {
    /// The initial state is one that play can reach.
    pub proof fn lemma_initial_wf()
        ensures
            GameState::initial().wf(),
    {
    }

    /// An attempted move, accepted or not, leads from a reachable state to a reachable state.
    pub proof fn lemma_step_wf(self, space: u8)
        requires
            self.wf(),
        ensures
            self.step(space).wf(),
    {
        if self.verdict(space) is Ok {
            let after = self.place(space as int);
            assert(after.history.drop_last() =~= self.history);
        }
    }

    /// A move is accepted exactly when its index is on the board and fewer
    /// than nine moves are on record; whether the cell is already taken
    /// plays no part. An accepted move is added to the record, puts the
    /// mover's mark into its cell and passes the turn to the other player.
    pub proof fn lemma_accepted_move(self, space: u8)
        requires
            self.wf(),
        ensures
            self.verdict(space) is Ok <==> space <= 8 && self.history.len() < 9,
            self.verdict(space) is Ok ==> {
                let after = self.step(space);
                &&& after.history == self.history.push(space as int)
                &&& after.board[space as int] == self.turn
                &&& after.turn != self.turn
                &&& after.turn.is_player()
            },
            self.verdict(space) is Err ==> self.step(space) == self,
    {
        lemma_replay_len(self.history);
    }

    /// Over any series of attempted moves the state stays reachable, the
    /// record grows by one entry for each accepted move and by nothing else,
    /// and the moves already on record stay where they were.
    pub proof fn lemma_play(self, attempts: Seq<u8>)
        requires
            self.wf(),
        ensures
            self.play(attempts).wf(),
            self.play(attempts).history.len() == self.history.len() + self.accepted(attempts),
            self.accepted(attempts) <= attempts.len(),
            self.history.is_prefix_of(self.play(attempts).history),
        decreases attempts.len(),
    {
        if attempts.len() > 0 {
            let earlier = attempts.drop_last();
            self.lemma_play(earlier);
            self.play(earlier).lemma_step_wf(attempts.last());
        }
    }

    /// From the start of a game, after any series of attempts of which `n`
    /// were accepted, `n` moves are on record, `n` is at most nine, and the
    /// turn is `X` if `n` is even and `O` if it is odd.
    pub proof fn lemma_turns_alternate(attempts: Seq<u8>)
        ensures
            ({
                let n = GameState::initial().accepted(attempts);
                let state = GameState::initial().play(attempts);
                &&& state.history.len() == n
                &&& n <= 9
                &&& state.turn == if n % 2 == 0 {
                    Mark::X
                } else {
                    Mark::O
                }
            }),
    {
        GameState::initial().lemma_play(attempts);
    }

    /// Once nine moves of a game have been accepted, every further attempt
    /// is refused: with `HistoryFull` if its index is on the board, with
    /// `InvalidSpace` if not; and the game stays as it is.
    pub proof fn lemma_tenth_move_refused(attempts: Seq<u8>, space: u8)
        requires
            GameState::initial().accepted(attempts) == 9,
        ensures
            ({
                let state = GameState::initial().play(attempts);
                &&& space <= 8 ==> state.verdict(space) == Err::<(), Error>(Error::HistoryFull)
                &&& space > 8 ==> state.verdict(space) == Err::<(), Error>(Error::InvalidSpace)
                &&& state.step(space) == state
            }),
    {
        GameState::initial().lemma_play(attempts);
    }

    /// The first nine attempts with an index on the board are all accepted, one after the other.
    pub proof fn lemma_valid_moves_accepted(attempts: Seq<u8>)
        requires
            attempts.len() <= 9,
            forall|i: int| 0 <= i < attempts.len() ==> #[trigger] attempts[i] <= 8,
        ensures
            GameState::initial().accepted(attempts) == attempts.len(),
            GameState::initial().play(attempts).history == attempts.map_values(|s: u8| s as int),
        decreases attempts.len(),
    {
        let start = GameState::initial();
        if attempts.len() == 0 {
            assert(start.play(attempts).history =~= attempts.map_values(|s: u8| s as int));
        } else {
            let earlier = attempts.drop_last();
            GameState::lemma_valid_moves_accepted(earlier);
            start.lemma_play(earlier);
            assert(start.play(attempts).history =~= attempts.map_values(|s: u8| s as int));
        }
    }

    /// In a reachable state a cell holds a player's mark exactly if a move
    /// was made on it. So the marked cells are never more than the moves on
    /// record, and exactly as many while no cell has been played twice.
    pub proof fn lemma_marked_cells(self)
        requires
            self.wf(),
        ensures
            occupied(self.board) == self.history.to_set(),
            occupied(self.board).len() <= self.history.len(),
            self.history.no_duplicates() ==> occupied(self.board).len() == self.history.len(),
    {
        lemma_replay_occupied(self.history);
        self.history.lemma_cardinality_of_set();
        if self.history.no_duplicates() {
            self.history.unique_seq_to_set();
        }
    }

    /// Two moves on one game, made one after the other in either order, are
    /// both accepted and both on record when there is room for two: neither
    /// undoes the other.
    pub proof fn lemma_two_moves_both_recorded(self, first: u8, second: u8)
        requires
            self.wf(),
            self.history.len() + 2 <= 9,
            first <= 8,
            second <= 8,
        ensures
            self.verdict(first) is Ok,
            self.step(first).verdict(second) is Ok,
            self.step(first).step(second).history == self.history.push(first as int).push(
                second as int,
            ),
            self.step(first).step(second).history.len() == self.history.len() + 2,
            self.step(first).step(second).turn == self.turn,
    {
    }
}

} // verus!
