use tictactoe::game::{MatchState, MoveError, MoveOutcome};

fn started() -> MatchState {
    let mut state = MatchState::new();
    assert!(state.start());
    state
}

fn marks(state: &MatchState) -> usize {
    state.board().iter().filter(|&&cell| cell != b' ').count()
}

#[test]
fn new_match_is_empty_and_waits() {
    let state = MatchState::new();
    assert_eq!(state.board(), &vec![b' '; 9]);
    assert_eq!(state.current_player(), 0);
    assert!(!state.is_running());
    assert_eq!(state.moves(), 0);
}

#[test]
fn start_runs_a_new_match_once() {
    let mut state = MatchState::new();
    assert!(state.start());
    assert!(state.is_running());
    assert!(!state.start());
    assert!(state.is_running());
    assert_eq!(state.moves(), 0);
}

#[test]
fn move_before_start_is_not_running() {
    let mut state = MatchState::new();
    assert_eq!(state.apply_move(0, 4), Err(MoveError::NotRunning));
    assert_eq!(state.board(), &vec![b' '; 9]);
    assert_eq!(state.moves(), 0);
}

#[test]
fn move_out_of_turn_is_rejected() {
    let mut state = started();
    assert_eq!(state.apply_move(1, 4), Err(MoveError::NotYourTurn));
    assert_eq!(state.board(), &vec![b' '; 9]);
    assert_eq!(state.current_player(), 0);
    assert_eq!(state.moves(), 0);
}

#[test]
fn move_off_the_board_is_rejected() {
    let mut state = started();
    assert_eq!(state.apply_move(0, 9), Err(MoveError::OutOfRange));
    assert_eq!(state.apply_move(0, usize::MAX), Err(MoveError::OutOfRange));
    assert_eq!(state.moves(), 0);
    assert_eq!(state.current_player(), 0);
}

#[test]
fn first_move_places_an_x_and_passes_the_turn() {
    let mut state = started();
    assert_eq!(state.apply_move(0, 4), Ok(MoveOutcome::Continues));
    assert_eq!(state.board(), &b"    X    ".to_vec());
    assert_eq!(state.current_player(), 1);
    assert_eq!(state.moves(), 1);
    assert!(state.is_running());
    assert_eq!(state.apply_move(1, 0), Ok(MoveOutcome::Continues));
    assert_eq!(state.board(), &b"O   X    ".to_vec());
    assert_eq!(state.snapshot(), b"O   X    ".to_vec());
}

#[test]
fn occupied_cell_changes_nothing() {
    let mut state = started();
    assert_eq!(state.apply_move(0, 4), Ok(MoveOutcome::Continues));
    let board = state.snapshot();
    assert_eq!(state.apply_move(1, 4), Err(MoveError::Occupied));
    assert_eq!(state.apply_move(1, 4), Err(MoveError::Occupied));
    assert_eq!(state.snapshot(), board);
    assert_eq!(state.moves(), 1);
    assert_eq!(state.current_player(), 1);
    assert!(state.is_running());
}

#[test]
fn move_counter_equals_marks_after_every_submission() {
    let mut state = started();
    let submissions = [(0, 0), (0, 1), (1, 0), (1, 9), (1, 3), (0, 3), (0, 1), (1, 4), (0, 2), (1, 5)];
    assert_eq!(state.moves(), marks(&state));
    for (player, cell) in submissions {
        let _ = state.apply_move(player, cell);
        assert_eq!(state.moves(), marks(&state));
    }
    assert_eq!(state.moves(), 5);
}

#[test]
fn player_to_move_is_the_parity_of_the_moves() {
    let mut state = started();
    let cells = [0, 1, 2, 4, 3, 5, 7, 6, 8];
    for (n, cell) in cells.into_iter().enumerate() {
        assert_eq!(state.current_player(), n % 2);
        assert!(state.apply_move(n % 2, cell).is_ok());
        assert_eq!(state.moves(), n + 1);
        assert_eq!(state.current_player(), (n + 1) % 2);
    }
}

#[test]
fn completing_a_line_wins_and_stops_the_match() {
    let mut state = started();
    assert_eq!(state.apply_move(0, 0), Ok(MoveOutcome::Continues));
    assert_eq!(state.apply_move(1, 3), Ok(MoveOutcome::Continues));
    assert_eq!(state.apply_move(0, 1), Ok(MoveOutcome::Continues));
    assert_eq!(state.apply_move(1, 4), Ok(MoveOutcome::Continues));
    assert_eq!(state.apply_move(0, 2), Ok(MoveOutcome::Won));
    assert!(!state.is_running());
    assert_eq!(state.board(), &b"XXXOO    ".to_vec());
    assert_eq!(state.moves(), 5);
}

#[test]
fn ninth_move_without_a_line_draws() {
    let mut state = started();
    let cells = [0, 1, 2, 4, 3, 5, 7, 6];
    for (n, cell) in cells.into_iter().enumerate() {
        assert_eq!(state.apply_move(n % 2, cell), Ok(MoveOutcome::Continues));
    }
    assert_eq!(state.apply_move(0, 8), Ok(MoveOutcome::Drawn));
    assert_eq!(state.board(), &b"XOXXOOOXX".to_vec());
    assert_eq!(state.moves(), 9);
    assert!(!state.is_running());
}

#[test]
fn ninth_move_that_completes_a_line_wins() {
    let mut state = started();
    let cells = [0, 1, 2, 4, 3, 5, 7, 8];
    for (n, cell) in cells.into_iter().enumerate() {
        assert_eq!(state.apply_move(n % 2, cell), Ok(MoveOutcome::Continues));
    }
    assert_eq!(state.apply_move(0, 6), Ok(MoveOutcome::Won));
    assert_eq!(state.moves(), 9);
}

#[test]
fn finished_match_takes_no_move_and_no_start() {
    let mut state = started();
    for (player, cell) in [(0, 0), (1, 3), (0, 1), (1, 4), (0, 2)] {
        assert!(state.apply_move(player, cell).is_ok());
    }
    let board = state.snapshot();
    assert!(!state.start());
    assert!(!state.is_running());
    assert_eq!(state.apply_move(1, 5), Err(MoveError::NotRunning));
    assert_eq!(state.apply_move(0, 5), Err(MoveError::NotRunning));
    assert_eq!(state.snapshot(), board);
    assert_eq!(state.moves(), 5);
}
