//! The registry of games and the operations that a front end offers on it:
//! start a game, make a move, look a game up, list the games.

use crate::board::{cell_label, grid_text, label_view};
use crate::error::Error;
use crate::game::{Game, GameState};
use crate::mark::Mark;
use std::collections::HashMap;
use vstd::prelude::*;
use vstd::string::*;

verus! {

broadcast use vstd::std_specs::hash::group_hash_axioms;

/// The text with which a lookup of an unknown identifier is refused.
pub open spec fn not_found_text() -> Seq<char> {
    "Game not found"@
}

/// The games of a registry as a mathematical value: each known identifier with its game.
pub type Games = Map<u128, GameState>;

/// How a move on game `game_id` is answered: with `not_found_text` if the
/// identifier is unknown, else with the game's own verdict, an error as its text.
pub open spec fn move_outcome(games: Games, game_id: u128, space: u8) -> Result<(), Seq<char>> {
    if !games.contains_key(game_id) {
        Err(not_found_text())
    } else {
        match games[game_id].verdict(space) {
            Ok(()) => Ok(()),
            Err(e) => Err(e.message()),
        }
    }
}

/// The games after an attempted move on game `game_id`: that game has made
/// its step, every other game is as it was, and no game has come or gone.
pub open spec fn after_move(games: Games, game_id: u128, space: u8) -> Games {
    if games.contains_key(game_id) {
        games.insert(game_id, games[game_id].step(space))
    } else {
        games
    }
}

/// The text of a result whose error is a string.
pub open spec fn outcome_view(res: Result<(), String>) -> Result<(), Seq<char>> {
    match res {
        Ok(()) => Ok(()),
        Err(e) => Err(e@),
    }
}

/// Draws a new random (version 4) identifier with `uuid::Uuid::new_v4` and
/// hands it out as the 128-bit number that `Uuid::as_u128` gives. Nothing is
/// claimed of the number drawn.
#[verifier::external_body]
fn fresh_game_id() -> (game_id: u128) {
    uuid::Uuid::new_v4().as_u128()
}

/// The registry: every game that has been started, under its identifier.
pub struct GameStore {
    games: HashMap<u128, Game>,
}

impl View for GameStore {
    type V = Games;

    closed spec fn view(&self) -> Games {
        self.games@.map_values(|game: Game| game@)
    }
}

impl GameStore {
    /// Every game in the registry is in a state that play can reach.
    #[verifier::type_invariant]
    pub closed spec fn wf(self) -> bool {
        forall|game_id: u128| #[trigger]
            self.games@.contains_key(game_id) ==> self.games@[game_id].wf()
    }

    /// What holds of every registry, stated over its view.
    pub proof fn lemma_wf(self)
        requires
            self.wf(),
        ensures
            forall|game_id: u128| #[trigger] self@.contains_key(game_id) ==> self@[game_id].wf(),
            self@.dom().finite(),
    {
        assert forall|game_id: u128| #[trigger] self@.contains_key(game_id) implies self@[game_id].wf() by {
            self.games@[game_id].lemma_wf();
        }
        assert(self@.dom() =~= self.games@.dom());
    }

    /// A registry without games.
    pub fn new() -> (store: GameStore)
        ensures
            store.wf(),
            store@ == Map::<u128, GameState>::empty(),
    {
        let store = GameStore { games: HashMap::new() };
        assert(store@ =~= Map::<u128, GameState>::empty());
        store
    }

    /// Puts `game` into the registry under `game_id`, in place of any game that was there.
    pub fn insert_game(&mut self, game_id: u128, game: Game)
        ensures
            final(self).wf(),
            final(self)@ == old(self)@.insert(game_id, game@),
    {
        proof {
            use_type_invariant(&*self);
            use_type_invariant(&game);
        }
        let mut games = HashMap::new();
        std::mem::swap(&mut games, &mut self.games);
        games.insert(game_id, game);
        let store = GameStore { games };
        assert(store@ =~= old(self)@.insert(game_id, game@));
        *self = store;
    }

    /// Puts `game` into the registry under a newly drawn identifier and returns the identifier.
    pub fn add_game(&mut self, game: Game) -> (game_id: u128)
        ensures
            final(self).wf(),
            final(self)@ == old(self)@.insert(game_id, game@),
    {
        let game_id = fresh_game_id();
        self.insert_game(game_id, game);
        game_id
    }

    /// A copy of the game under `game_id`, or `None` if the identifier is unknown.
    pub fn get_game(&self, game_id: &u128) -> (found: Option<Game>)
        ensures
            match found {
                Some(game) => self@.contains_key(*game_id) && game@ == self@[*game_id] && game.wf(),
                None => !self@.contains_key(*game_id),
            },
    {
        proof {
            use_type_invariant(self);
        }
        match self.games.get(game_id) {
            Some(game) => Some(*game),
            None => None,
        }
    }

    /// Attempts a move on the game under `game_id`, as one step on the
    /// registry: the game is looked up, makes its step, and is stored back.
    ///
    /// An unknown identifier is refused with `"Game not found"`, and a move
    /// that the game refuses with the text of the game's error; either way
    /// the registry stays as it was.
    pub fn make_move(&mut self, game_id: &u128, space: u8) -> (res: Result<(), String>)
        ensures
            final(self).wf(),
            outcome_view(res) == move_outcome(old(self)@, *game_id, space),
            final(self)@ == after_move(old(self)@, *game_id, space),
    {
        proof {
            use_type_invariant(&*self);
        }
        match self.get_game(game_id) {
            Some(mut game) => {
                match game.mark(space) {
                    Ok(()) => {
                        self.insert_game(*game_id, game);
                        Ok(())
                    },
                    Err(e) => {
                        assert(self@ =~= after_move(self@, *game_id, space));
                        Err(e.to_string())
                    },
                }
            },
            None => Err(String::from_str("Game not found")),
        }
    }

    /// Replaces the game under `game_id` by `game`. An unknown identifier is
    /// refused with `"Game not found"`, and nothing is stored.
    pub fn update_game(&mut self, game_id: &u128, game: Game) -> (res: Result<(), String>)
        ensures
            final(self).wf(),
            old(self)@.contains_key(*game_id) ==> res is Ok && final(self)@ == old(self)@.insert(
                *game_id,
                game@,
            ),
            !old(self)@.contains_key(*game_id) ==> outcome_view(res) == Err::<(), Seq<char>>(
                not_found_text(),
            ) && final(self)@ == old(self)@,
    {
        proof {
            use_type_invariant(&*self);
        }
        if self.games.contains_key(game_id) {
            self.insert_game(*game_id, game);
            Ok(())
        } else {
            Err(String::from_str("Game not found"))
        }
    }
}

/// A client's request to mark a cell.
#[derive(Debug, Clone, Copy)]
pub struct MoveRequest {
    /// The raw index of the cell to mark.
    pub space: u8,
}

/// What a client is told of a game.
#[derive(Debug)]
pub struct GameStateResponse {
    /// The nine cells in cell order: a player's label, or nothing for a blank cell.
    pub board: [Option<String>; 9],
    /// The board as a text grid.
    pub grid: String,
    /// The label of the player to move.
    pub turn: String,
    /// The identifier of the game.
    pub game_id: u128,
}

/// A response as a mathematical value.
#[verifier::ext_equal]
pub struct ResponseView {
    pub board: Seq<Option<Seq<char>>>,
    pub grid: Seq<char>,
    pub turn: Seq<char>,
    pub game_id: u128,
}

impl View for GameStateResponse {
    type V = ResponseView;

    open spec fn view(&self) -> ResponseView {
        ResponseView {
            board: Seq::new(9, |i: int| label_view(self.board@[i])),
            grid: self.grid@,
            turn: self.turn@,
            game_id: self.game_id,
        }
    }
}

/// The label under which the player to move is reported.
pub open spec fn turn_label(turn: Mark) -> Seq<char> {
    match turn {
        Mark::X => "X"@,
        Mark::O => "O"@,
        Mark::Blank => "Unknown"@,
    }
}

/// What a client is told of the game `state` that is kept under `game_id`.
pub open spec fn response_for(game_id: u128, state: GameState) -> ResponseView {
    ResponseView {
        board: Seq::new(9, |i: int| cell_label(state.board[i])),
        grid: grid_text(state.board),
        turn: turn_label(state.turn),
        game_id,
    }
}

/// The text of a result that carries a response or an error string.
pub open spec fn reply_view(res: Result<GameStateResponse, String>) -> Result<
    ResponseView,
    Seq<char>,
> {
    match res {
        Ok(response) => Ok(response@),
        Err(e) => Err(e@),
    }
}

/// Describes `game`, kept under `game_id`, to a client.
pub fn game_state(game_id: u128, game: &Game) -> (response: GameStateResponse)
    ensures
        response@ == response_for(game_id, game@),
{
    let board = game.board();
    let response = GameStateResponse {
        board: board.to_display_array(),
        grid: board.to_string(),
        turn: match game.turn() {
            Mark::X => String::from_str("X"),
            Mark::O => String::from_str("O"),
            _ => String::from_str("Unknown"),
        },
        game_id,
    };
    assert(response@.board =~= response_for(game_id, game@).board);
    response
}

/// Starts a game: a new game in its initial state goes into the registry
/// under a newly drawn identifier, and the client is told of it.
pub fn start_game(game_store: &mut GameStore) -> (response: GameStateResponse)
    ensures
        final(game_store).wf(),
        final(game_store)@ == old(game_store)@.insert(response.game_id, GameState::initial()),
        response@ == response_for(response.game_id, GameState::initial()),
{
    let game = Game::new();
    let game_id = game_store.add_game(game);
    game_state(game_id, &game)
}

/// Makes the move that `request` asks for on the game under `game_id` and
/// tells the client of the game as it then stands.
///
/// The move is refused, and the registry left as it was, for an unknown
/// identifier, for a cell index off the board, and for a game that has nine
/// moves on record; the error text says which.
pub fn make_move(game_store: &mut GameStore, game_id: u128, request: MoveRequest) -> (res: Result<
    GameStateResponse,
    String,
>)
    ensures
        final(game_store).wf(),
        final(game_store)@ == after_move(old(game_store)@, game_id, request.space),
        reply_view(res) == match move_outcome(old(game_store)@, game_id, request.space) {
            Ok(()) => Ok(response_for(game_id, old(game_store)@[game_id].step(request.space))),
            Err(e) => Err(e),
        },
{
    match game_store.make_move(&game_id, request.space) {
        Ok(()) => {},
        Err(e) => {
            return Err(e);
        },
    }
    let game = match game_store.get_game(&game_id) {
        Some(game) => game,
        None => {
            return Err(String::from_str("Game not found"));
        },
    };
    match game_store.update_game(&game_id, game) {
        Ok(()) => {},
        Err(e) => {
            return Err(e);
        },
    }
    assert(game_store@ =~= after_move(old(game_store)@, game_id, request.space));
    Ok(game_state(game_id, &game))
}

/// Tells the client of the game under `game_id`, or refuses with
/// `"Game not found"` if the identifier is unknown.
pub fn get_game_state(game_store: &GameStore, game_id: u128) -> (res: Result<
    GameStateResponse,
    String,
>)
    ensures
        reply_view(res) == if game_store@.contains_key(game_id) {
            Ok::<ResponseView, Seq<char>>(response_for(game_id, game_store@[game_id]))
        } else {
            Err::<ResponseView, Seq<char>>(not_found_text())
        },
{
    match game_store.get_game(&game_id) {
        Some(game) => Ok(game_state(game_id, &game)),
        None => Err(String::from_str("Game not found")),
    }
}

/// The identifiers of all games in the registry, each once, in no particular order.
pub fn get_all_game_ids(game_store: &GameStore) -> (game_ids: Vec<u128>)
    ensures
        game_ids@.to_set() == game_store@.dom(),
        game_ids@.no_duplicates(),
        game_ids@.len() == game_store@.dom().len(),
{
    let mut game_ids: Vec<u128> = Vec::new();
    for game_id in keys: game_store.games.keys()
        invariant
            game_ids@ == keys.seq().take(keys.index()).unref(),
            keys.seq().unref().to_set() == game_store.games@.dom(),
            keys.seq().no_duplicates(),
            keys.seq().len() == game_store.games@.dom().len(),
            keys.index() == keys.seq().len() ==> game_ids@ == keys.seq().unref(),
            keys.seq().unref().no_duplicates(),
    {
        game_ids.push(*game_id);
    }
    proof {
        assert(game_store@.dom() =~= game_store.games@.dom());
    }
    game_ids
}

/// A move on an unknown identifier is refused as not found and changes nothing.
pub proof fn lemma_unknown_game_untouched(games: Games, game_id: u128, space: u8)
    requires
        !games.contains_key(game_id),
    ensures
        move_outcome(games, game_id, space) == Err::<(), Seq<char>>(not_found_text()),
        after_move(games, game_id, space) == games,
{
}

/// The text of a refusal tells its cause: an unknown identifier and the
/// errors of a game are all reported with different texts.
pub proof fn lemma_refusals_distinguishable(e: Error)
    ensures
        e.message() != not_found_text(),
{
    reveal_strlit("Game not found");
    reveal_strlit("invalid space");
    reveal_strlit("invalid move");
    reveal_strlit("game history full");
    assert("Game not found"@.len() == 14);
    assert("invalid space"@.len() == 13);
    assert("invalid move"@.len() == 12);
    assert("game history full"@.len() == 17);
}

/// An attempted move neither adds nor removes a game, and touches no game but its own.
pub proof fn lemma_move_is_local(games: Games, game_id: u128, space: u8, other: u128)
    ensures
        after_move(games, game_id, space).dom() == games.dom(),
        other != game_id && games.contains_key(other) ==> after_move(games, game_id, space)[other]
            == games[other],
{
    assert(after_move(games, game_id, space).dom() =~= games.dom());
}

/// Moves on two different games do not interfere: each is answered as if
/// the other had not been made, and the order of the two does not matter.
pub proof fn lemma_games_independent(
    games: Games,
    first_id: u128,
    first: u8,
    second_id: u128,
    second: u8,
)
    requires
        first_id != second_id,
    ensures
        move_outcome(after_move(games, first_id, first), second_id, second) == move_outcome(
            games,
            second_id,
            second,
        ),
        after_move(after_move(games, first_id, first), second_id, second) == after_move(
            after_move(games, second_id, second),
            first_id,
            first,
        ),
{
    assert(after_move(after_move(games, first_id, first), second_id, second) =~= after_move(
        after_move(games, second_id, second),
        first_id,
        first,
    ));
}

/// Two moves on one game, each applied as one step on the registry, are
/// both accepted and both on record when the game has room for two,
/// whichever of them comes first: no update is lost.
pub proof fn lemma_no_lost_update(games: Games, game_id: u128, first: u8, second: u8)
    requires
        games.contains_key(game_id),
        games[game_id].wf(),
        games[game_id].history.len() + 2 <= 9,
        first <= 8,
        second <= 8,
    ensures
        move_outcome(games, game_id, first) is Ok,
        move_outcome(after_move(games, game_id, first), game_id, second) is Ok,
        after_move(after_move(games, game_id, first), game_id, second)[game_id].history
            == games[game_id].history.push(first as int).push(second as int),
        move_outcome(games, game_id, second) is Ok,
        move_outcome(after_move(games, game_id, second), game_id, first) is Ok,
        after_move(after_move(games, game_id, second), game_id, first)[game_id].history
            == games[game_id].history.push(second as int).push(first as int),
{
    games[game_id].lemma_two_moves_both_recorded(first, second);
    games[game_id].lemma_two_moves_both_recorded(second, first);
}

} // verus!
