use tic_tac_toe::board::{Board, Space};
use tic_tac_toe::error::Error;
use tic_tac_toe::history::History;
use tic_tac_toe::mark::Mark;

#[test]
fn blank_board_display() {
    let board_display = Board::new().to_string();
    let expected_display = "   |   |   \n---+---+---\n   |   |   \n---+---+---\n   |   |   \n";
    assert_eq!(board_display, expected_display);
}

#[test]
fn random_boards_not_equal() {
    assert_ne!(Board::random(), Board::random());
}

#[test]
fn random_boards_vary_in_every_mark() {
    let mut seen = [false; 3];
    for _ in 0..200 {
        let board = Board::random();
        for i in 0..9u8 {
            match board.get(Space::try_from(i).unwrap()).unwrap() {
                Mark::X => seen[0] = true,
                Mark::O => seen[1] = true,
                Mark::Blank => seen[2] = true,
            }
        }
    }
    assert_eq!(seen, [true, true, true]);
}

#[test]
fn space_accepts_zero_to_eight() {
    for raw in 0..=8u8 {
        let space = Space::try_from(raw).unwrap();
        assert_eq!(space.value(), raw);
    }
}

#[test]
fn space_rejects_nine_and_above() {
    for raw in 9..=255u8 {
        assert_eq!(Space::try_from(raw), Err(Error::InvalidSpace));
    }
}

#[test]
fn default_space_is_top_left() {
    assert_eq!(Space::default().value(), 0);
}

#[test]
fn new_board_is_blank() {
    let board = Board::new();
    for raw in 0..9u8 {
        assert_eq!(board.get(Space::try_from(raw).unwrap()), Ok(Mark::Blank));
    }
}

#[test]
fn mark_sets_one_cell_only() {
    let mut board = Board::new();
    assert_eq!(board.mark(Space::try_from(5).unwrap(), Mark::O), Ok(()));
    for raw in 0..9u8 {
        let expected = if raw == 5 { Mark::O } else { Mark::Blank };
        assert_eq!(board.get(Space::try_from(raw).unwrap()), Ok(expected));
    }
}

#[test]
fn mark_overwrites_an_occupied_cell() {
    let mut board = Board::new();
    let centre = Space::try_from(4).unwrap();
    board.mark(centre, Mark::X).unwrap();
    board.mark(centre, Mark::O).unwrap();
    assert_eq!(board.get(centre), Ok(Mark::O));
    board.mark(centre, Mark::Blank).unwrap();
    assert_eq!(board, Board::new());
}

#[test]
fn display_array_of_blank_board_is_empty() {
    let cells = Board::new().to_display_array();
    assert_eq!(cells.len(), 9);
    assert!(cells.iter().all(|cell| cell.is_none()));
}

#[test]
fn display_array_labels_played_cells() {
    let mut board = Board::new();
    board.mark(Space::try_from(0).unwrap(), Mark::X).unwrap();
    board.mark(Space::try_from(8).unwrap(), Mark::O).unwrap();
    let cells = board.to_display_array();
    let x = Some(String::from("X"));
    let o = Some(String::from("O"));
    assert_eq!(cells, [x, None, None, None, None, None, None, None, o]);
}

#[test]
fn display_of_a_played_board() {
    let mut board = Board::new();
    board.mark(Space::try_from(0).unwrap(), Mark::O).unwrap();
    board.mark(Space::try_from(4).unwrap(), Mark::X).unwrap();
    board.mark(Space::try_from(5).unwrap(), Mark::O).unwrap();
    board.mark(Space::try_from(6).unwrap(), Mark::X).unwrap();
    board.mark(Space::try_from(8).unwrap(), Mark::X).unwrap();
    let expected = " O |   |   \n---+---+---\n   | X | O \n---+---+---\n X |   | X \n";
    assert_eq!(board.to_string(), expected);
}

#[test]
fn error_texts() {
    assert_eq!(Error::InvalidSpace.to_string(), "invalid space");
    assert_eq!(Error::InvalidMove.to_string(), "invalid move");
    assert_eq!(Error::HistoryFull.to_string(), "game history full");
}

#[test]
fn new_history_is_empty() {
    assert_eq!(History::new().len(), 0);
}

#[test]
fn history_takes_nine_moves_and_no_more() {
    let mut history = History::new();
    for n in 0..9u8 {
        assert_eq!(history.add(Space::try_from(n % 3).unwrap()), Ok(()));
        assert_eq!(history.len(), usize::from(n) + 1);
    }
    let full = history;
    assert_eq!(history.add(Space::try_from(0).unwrap()), Err(Error::HistoryFull));
    assert_eq!(history.len(), 9);
    assert_eq!(history, full);
}

#[test]
fn histories_differ_by_the_cells_played() {
    let mut a = History::new();
    let mut b = History::new();
    a.add(Space::try_from(1).unwrap()).unwrap();
    b.add(Space::try_from(2).unwrap()).unwrap();
    assert_ne!(a, b);
    assert_ne!(a, History::new());
}

#[test]
fn board_from_draws_maps_each_draw_to_its_cell() {
    let board = Board::from_draws(&[0, 1, 2, 2, 1, 0, 0, 0, 7]);
    let expected = [
        Mark::X,
        Mark::O,
        Mark::Blank,
        Mark::Blank,
        Mark::O,
        Mark::X,
        Mark::X,
        Mark::X,
        Mark::Blank,
    ];
    for raw in 0..9u8 {
        let space = Space::try_from(raw).unwrap();
        assert_eq!(board.get(space), Ok(expected[usize::from(raw)]));
    }
    assert_eq!(board.to_string(), " X | O |   \n---+---+---\n   | O | X \n---+---+---\n X | X |   \n");
}
