use std::sync::{Arc, Mutex};
use tic_tac_toe::api::{
    get_all_game_ids, get_game_state, make_move, start_game, GameStore, MoveRequest,
};
use tic_tac_toe::game::Game;
use tic_tac_toe::mark::Mark;

const BLANK_GRID: &str = "   |   |   \n---+---+---\n   |   |   \n---+---+---\n   |   |   \n";

fn unknown_id(store: &GameStore) -> u128 {
    let mut id = 7u128;
    while store.get_game(&id).is_some() {
        id += 1;
    }
    id
}

#[test]
fn new_store_has_no_games() {
    let store = GameStore::new();
    assert!(get_all_game_ids(&store).is_empty());
    assert!(store.get_game(&0).is_none());
}

#[test]
fn added_game_is_found_under_its_id() {
    let mut store = GameStore::new();
    let mut game = Game::new();
    game.mark(2).unwrap();
    let id = store.add_game(game);
    assert_eq!(store.get_game(&id), Some(game));
    assert_eq!(get_all_game_ids(&store), vec![id]);
}

#[test]
fn added_games_get_different_ids() {
    let mut store = GameStore::new();
    let mut ids = Vec::new();
    for _ in 0..50 {
        ids.push(store.add_game(Game::new()));
    }
    let mut listed = get_all_game_ids(&store);
    assert_eq!(listed.len(), 50);
    listed.sort();
    ids.sort();
    ids.dedup();
    assert_eq!(listed, ids);
}

#[test]
fn insert_game_replaces_the_game_under_an_id() {
    let mut store = GameStore::new();
    store.insert_game(11, Game::new());
    let mut game = Game::new();
    game.mark(0).unwrap();
    store.insert_game(11, game);
    assert_eq!(store.get_game(&11), Some(game));
    assert_eq!(get_all_game_ids(&store), vec![11]);
}

#[test]
fn get_game_on_unknown_id_finds_nothing() {
    let mut store = GameStore::new();
    store.add_game(Game::new());
    let id = unknown_id(&store);
    assert_eq!(store.get_game(&id), None);
    assert_eq!(get_game_state(&store, id).unwrap_err(), "Game not found");
}

#[test]
fn move_on_unknown_id_is_not_found_and_changes_nothing() {
    let mut store = GameStore::new();
    let known = store.add_game(Game::new());
    let id = unknown_id(&store);
    assert_eq!(store.make_move(&id, 4), Err(String::from("Game not found")));
    assert_eq!(
        make_move(&mut store, id, MoveRequest { space: 4 }).unwrap_err(),
        "Game not found"
    );
    assert_eq!(get_all_game_ids(&store), vec![known]);
    assert_eq!(store.get_game(&known), Some(Game::new()));
}

#[test]
fn update_on_unknown_id_is_not_found_and_stores_nothing() {
    let mut store = GameStore::new();
    assert_eq!(store.update_game(&3, Game::new()), Err(String::from("Game not found")));
    assert!(get_all_game_ids(&store).is_empty());
}

#[test]
fn update_replaces_a_known_game() {
    let mut store = GameStore::new();
    let id = store.add_game(Game::new());
    let mut game = Game::new();
    game.mark(7).unwrap();
    assert_eq!(store.update_game(&id, game), Ok(()));
    assert_eq!(store.get_game(&id), Some(game));
}

#[test]
fn store_move_is_applied_to_the_stored_game() {
    let mut store = GameStore::new();
    let id = store.add_game(Game::new());
    assert_eq!(store.make_move(&id, 4), Ok(()));
    let mut expected = Game::new();
    expected.mark(4).unwrap();
    assert_eq!(store.get_game(&id), Some(expected));
}

#[test]
fn store_move_reports_the_games_errors_as_text() {
    let mut store = GameStore::new();
    let id = store.add_game(Game::new());
    assert_eq!(store.make_move(&id, 9), Err(String::from("invalid space")));
    assert_eq!(store.get_game(&id), Some(Game::new()));
    for raw in 0..9u8 {
        assert_eq!(store.make_move(&id, raw), Ok(()));
    }
    let full = store.get_game(&id);
    assert_eq!(store.make_move(&id, 0), Err(String::from("game history full")));
    assert_eq!(store.make_move(&id, 9), Err(String::from("invalid space")));
    assert_eq!(store.get_game(&id), full);
}

#[test]
fn start_game_reports_the_initial_state() {
    let mut store = GameStore::new();
    let response = start_game(&mut store);
    assert!(response.board.iter().all(|cell| cell.is_none()));
    assert_eq!(response.grid, BLANK_GRID);
    assert_eq!(response.turn, "X");
    assert_eq!(store.get_game(&response.game_id), Some(Game::new()));
    assert_eq!(get_all_game_ids(&store), vec![response.game_id]);
}

#[test]
fn end_to_end_centre_twice() {
    let mut store = GameStore::new();
    let id = start_game(&mut store).game_id;

    let first = make_move(&mut store, id, MoveRequest { space: 4 }).unwrap();
    assert_eq!(first.game_id, id);
    assert_eq!(first.board[4], Some(String::from("X")));
    assert_eq!(first.turn, "O");
    assert_eq!(first.grid, "   |   |   \n---+---+---\n   | X |   \n---+---+---\n   |   |   \n");
    assert_eq!(store.get_game(&id).unwrap().history().len(), 1);

    let second = make_move(&mut store, id, MoveRequest { space: 4 }).unwrap();
    assert_eq!(second.board[4], Some(String::from("O")));
    assert_eq!(second.turn, "X");
    assert_eq!(second.grid, "   |   |   \n---+---+---\n   | O |   \n---+---+---\n   |   |   \n");
    let game = store.get_game(&id).unwrap();
    assert_eq!(game.history().len(), 2);
    assert_eq!(game.turn(), Mark::X);
    for i in [0usize, 1, 2, 3, 5, 6, 7, 8] {
        assert_eq!(second.board[i], None);
    }
}

#[test]
fn move_request_errors_are_told_apart() {
    let mut store = GameStore::new();
    let id = start_game(&mut store).game_id;
    let invalid = make_move(&mut store, id, MoveRequest { space: 9 }).unwrap_err();
    assert_eq!(invalid, "invalid space");
    for raw in 0..9u8 {
        make_move(&mut store, id, MoveRequest { space: raw }).unwrap();
    }
    let full = make_move(&mut store, id, MoveRequest { space: 0 }).unwrap_err();
    assert_eq!(full, "game history full");
    let other = unknown_id(&store);
    let missing = make_move(&mut store, other, MoveRequest { space: 0 }).unwrap_err();
    assert_eq!(missing, "Game not found");
    assert_ne!(invalid, full);
    assert_ne!(invalid, missing);
    assert_ne!(full, missing);
}

#[test]
fn game_state_matches_the_stored_game() {
    let mut store = GameStore::new();
    let id = start_game(&mut store).game_id;
    make_move(&mut store, id, MoveRequest { space: 0 }).unwrap();
    make_move(&mut store, id, MoveRequest { space: 8 }).unwrap();
    let state = get_game_state(&store, id).unwrap();
    assert_eq!(state.game_id, id);
    assert_eq!(state.turn, "X");
    assert_eq!(state.board[0], Some(String::from("X")));
    assert_eq!(state.board[8], Some(String::from("O")));
    assert_eq!(state.grid, " X |   |   \n---+---+---\n   |   |   \n---+---+---\n   |   | O \n");
}

#[test]
fn games_are_independent() {
    let mut store = GameStore::new();
    let a = start_game(&mut store).game_id;
    let b = start_game(&mut store).game_id;
    make_move(&mut store, a, MoveRequest { space: 1 }).unwrap();
    assert_eq!(store.get_game(&b), Some(Game::new()));
    let reply = make_move(&mut store, b, MoveRequest { space: 2 }).unwrap();
    assert_eq!(reply.turn, "O");
    assert_eq!(store.get_game(&a).unwrap().history().len(), 1);
    let mut ids = get_all_game_ids(&store);
    ids.sort();
    let mut expected = vec![a, b];
    expected.sort();
    assert_eq!(ids, expected);
}

#[test]
fn two_moves_in_either_order_are_both_recorded() {
    for (first, second) in [(0u8, 8u8), (8u8, 0u8)] {
        let mut store = GameStore::new();
        let id = start_game(&mut store).game_id;
        assert_eq!(store.make_move(&id, first), Ok(()));
        assert_eq!(store.make_move(&id, second), Ok(()));
        let game = store.get_game(&id).unwrap();
        assert_eq!(game.history().len(), 2);
        let cells = game.board().to_display_array();
        assert!(cells[0].is_some() && cells[8].is_some());
        assert_eq!(game.turn(), Mark::X);
    }
}

#[test]
fn concurrent_moves_on_one_game_are_both_applied() {
    let runtime = tokio::runtime::Builder::new_multi_thread()
        .worker_threads(2)
        .build()
        .unwrap();
    for _ in 0..50 {
        let store = Arc::new(Mutex::new(GameStore::new()));
        let id = start_game(&mut store.lock().unwrap()).game_id;
        let tasks: Vec<_> = [2u8, 6u8]
            .into_iter()
            .map(|space| {
                let store = Arc::clone(&store);
                runtime.spawn(async move {
                    make_move(&mut store.lock().unwrap(), id, MoveRequest { space }).map(|_| ())
                })
            })
            .collect();
        for task in tasks {
            assert_eq!(runtime.block_on(task).unwrap(), Ok(()));
        }
        let game = store.lock().unwrap().get_game(&id).unwrap();
        assert_eq!(game.history().len(), 2);
        let cells = game.board().to_display_array();
        assert!(cells[2].is_some() && cells[6].is_some());
        assert_ne!(cells[2], cells[6]);
        assert_eq!(game.turn(), Mark::X);
    }
}
