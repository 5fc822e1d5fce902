use tictactoe::board::{check_draw, check_win, CELLS, EMPTY, MARK_O, MARK_X, WIN_PATTERNS};

fn board_of(text: &str) -> Vec<u8> {
    text.bytes().collect()
}

/// Rows, columns and diagonals written out cell by cell, without the table.
fn some_line_is_held(board: &[u8]) -> bool {
    let held = |a: usize, b: usize, c: usize| {
        board[a] != b' ' && board[a] == board[b] && board[b] == board[c]
    };
    let mut any = false;
    for r in 0..3 {
        any = any || held(3 * r, 3 * r + 1, 3 * r + 2);
    }
    for c in 0..3 {
        any = any || held(c, c + 3, c + 6);
    }
    any || held(0, 4, 8) || held(2, 4, 6)
}

#[test]
fn constants_are_the_ascii_marks() {
    assert_eq!(EMPTY, b' ');
    assert_eq!(MARK_X, b'X');
    assert_eq!(MARK_O, b'O');
    assert_eq!(CELLS, 9);
    assert_eq!(WIN_PATTERNS.len(), 8);
}

#[test]
fn empty_board_is_no_win() {
    let board = vec![b' '; 9];
    assert!(!check_win(&board));
}

#[test]
fn every_line_of_the_table_wins_for_either_mark() {
    for pattern in WIN_PATTERNS {
        for mark in [b'X', b'O'] {
            let mut board = vec![b' '; 9];
            for cell in pattern {
                board[cell] = mark;
            }
            assert!(check_win(&board), "{:?} with {}", pattern, mark as char);
        }
    }
}

#[test]
fn each_row_column_and_diagonal_wins() {
    assert!(check_win(&board_of("XXX      ")));
    assert!(check_win(&board_of("   OOO   ")));
    assert!(check_win(&board_of("      XXX")));
    assert!(check_win(&board_of("O  O  O  ")));
    assert!(check_win(&board_of(" X  X  X ")));
    assert!(check_win(&board_of("  O  O  O")));
    assert!(check_win(&board_of("X   X   X")));
    assert!(check_win(&board_of("  O O O  ")));
}

#[test]
fn a_line_of_mixed_marks_does_not_win() {
    assert!(!check_win(&board_of("XXO      ")));
    assert!(!check_win(&board_of("XOX      ")));
    assert!(!check_win(&board_of("X   O   X")));
    assert!(!check_win(&board_of("XX       ")));
}

#[test]
fn three_equal_marks_off_a_line_do_not_win() {
    assert!(!check_win(&board_of("XX  X    ")));
    assert!(!check_win(&board_of(" XX X    ")));
    assert!(!check_win(&board_of("  XX     ")));
}

#[test]
fn full_board_without_a_line_is_no_win() {
    assert!(!check_win(&board_of("XOXXOOOXX")));
}

#[test]
fn check_win_agrees_with_the_lines_on_all_boards() {
    let marks = [b' ', b'X', b'O'];
    let mut seen = 0;
    for code in 0..19683u32 {
        let mut board = [b' '; 9];
        let mut rest = code;
        for cell in board.iter_mut() {
            *cell = marks[(rest % 3) as usize];
            rest /= 3;
        }
        assert_eq!(check_win(&board), some_line_is_held(&board), "{:?}", board);
        seen += 1;
    }
    assert_eq!(seen, 19683);
}

#[test]
fn draw_needs_nine_moves_and_no_line() {
    let full = board_of("XOXXOOOXX");
    assert!(check_draw(&full, 9));
    assert!(!check_draw(&full, 8));
    let won = board_of("XXXOOXOXO");
    assert!(!check_draw(&won, 9));
    assert!(!check_draw(&vec![b' '; 9], 0));
}
