//! The board and the evaluation of its eight lines.

use vstd::prelude::*;

verus! {

/// The byte of a cell that nobody has marked: an ASCII space.
pub const EMPTY: u8 = 0x20;

/// The mark of player 0: an ASCII `X`.
pub const MARK_X: u8 = 0x58;

/// The mark of player 1: an ASCII `O`.
pub const MARK_O: u8 = 0x4f;

/// How many cells a board has.
pub const CELLS: usize = 9;

/// The eight lines of three cells: rows, columns, diagonals.
pub const WIN_PATTERNS: [[usize; 3]; 8] = [
    [0, 1, 2],
    [3, 4, 5],
    [6, 7, 8],
    [0, 3, 6],
    [1, 4, 7],
    [2, 5, 8],
    [0, 4, 8],
    [2, 4, 6],
];

/// The three cells `a`, `b`, `c` carry one and the same mark.
pub open spec fn line_held(board: Seq<u8>, a: int, b: int, c: int) -> bool {
    board[a] != EMPTY && board[b] == board[a] && board[c] == board[a]
}

/// Row `r` (0 is the top row) is held by one mark.
pub open spec fn row_held(board: Seq<u8>, r: int) -> bool {
    line_held(board, 3 * r, 3 * r + 1, 3 * r + 2)
}

/// Column `c` (0 is the left column) is held by one mark.
pub open spec fn column_held(board: Seq<u8>, c: int) -> bool {
    line_held(board, c, c + 3, c + 6)
}

/// Some row, column or diagonal is fully filled with one mark.
pub open spec fn is_win(board: Seq<u8>) -> bool {
    ||| exists|r: int| 0 <= r < 3 && #[trigger] row_held(board, r)
    ||| exists|c: int| 0 <= c < 3 && #[trigger] column_held(board, c)
    ||| line_held(board, 0, 4, 8)
    ||| line_held(board, 2, 4, 6)
}

/// Entry `p` of the table of lines is held by one mark.
pub open spec fn pattern_held(board: Seq<u8>, p: int) -> bool {
    line_held(
        board,
        WIN_PATTERNS[p][0] as int,
        WIN_PATTERNS[p][1] as int,
        WIN_PATTERNS[p][2] as int,
    )
}

/// The table of lines lists exactly the rows, the columns and the two diagonals.
pub proof fn lemma_patterns_are_the_lines(board: Seq<u8>)
    ensures
        is_win(board) <==> exists|p: int| 0 <= p < 8 && #[trigger] pattern_held(board, p),
{
    if is_win(board) {
        if exists|r: int| 0 <= r < 3 && #[trigger] row_held(board, r) {
            let r = choose|r: int| 0 <= r < 3 && #[trigger] row_held(board, r);
            assert(pattern_held(board, r));
        } else if exists|c: int| 0 <= c < 3 && #[trigger] column_held(board, c) {
            let c = choose|c: int| 0 <= c < 3 && #[trigger] column_held(board, c);
            assert(pattern_held(board, c + 3));
        } else if line_held(board, 0, 4, 8) {
            assert(pattern_held(board, 6));
        } else {
            assert(pattern_held(board, 7));
        }
    }
    if exists|p: int| 0 <= p < 8 && #[trigger] pattern_held(board, p) {
        let p = choose|p: int| 0 <= p < 8 && #[trigger] pattern_held(board, p);
        if p < 3 {
            assert(row_held(board, p));
        } else if p < 6 {
            assert(column_held(board, p - 3));
        }
    }
}

/// Whether some line of the board is held by one mark.
pub fn check_win(board: &[u8]) -> (won: bool)
    requires
        board@.len() == CELLS,
    ensures
        won == is_win(board@),
{
    let mut p: usize = 0;
    while p < 8
        invariant
            p <= 8,
            board@.len() == CELLS,
            forall|q: int| 0 <= q < p ==> !#[trigger] pattern_held(board@, q),
        decreases 8 - p,
    {
        let pat = WIN_PATTERNS[p];
        let mut win = true;
        let mut k: usize = 0;
        while k < 3
            invariant_except_break
                k <= 3,
                win,
                forall|j: int|
                    0 <= j < k ==> board@[#[trigger] pat[j] as int] != EMPTY && board@[pat[j] as int]
                        == board@[pat[0] as int],
            invariant
                p < 8,
                board@.len() == CELLS,
                pat == WIN_PATTERNS[p as int],
            ensures
                win == pattern_held(board@, p as int),
            decreases 3 - k,
        {
            let x = pat[k];
            if board[x] == EMPTY {
                win = false;
                break ;
            }
            if board[x] != board[pat[0]] {
                win = false;
                break ;
            }
            k += 1;
        }
        if win {
            proof {
                lemma_patterns_are_the_lines(board@);
            }
            return true;
        }
        p += 1;
    }
    proof {
        lemma_patterns_are_the_lines(board@);
    }
    false
}

/// Whether the match is drawn: all nine moves were made and no line is held.
pub open spec fn is_draw(board: Seq<u8>, moves: nat) -> bool {
    moves == CELLS && !is_win(board)
}

/// Whether the match is drawn: all nine moves were made and no line is held.
pub fn check_draw(board: &[u8], moves: usize) -> (drawn: bool)
    requires
        board@.len() == CELLS,
    ensures
        drawn == is_draw(board@, moves as nat),
{
    moves == CELLS && !check_win(board)
}

/// The number of cells that carry a mark.
pub open spec fn filled_cells(board: Seq<u8>) -> nat
    decreases board.len(),
{
    if board.len() == 0 {
        0
    } else {
        filled_cells(board.drop_last()) + if board.last() != EMPTY {
            1nat
        } else {
            0nat
        }
    }
}

/// A board cannot hold more marks than it has cells.
pub proof fn lemma_filled_cells_bound(board: Seq<u8>)
    ensures
        filled_cells(board) <= board.len(),
    decreases board.len(),
{
    if board.len() > 0 {
        lemma_filled_cells_bound(board.drop_last());
    }
}

/// A board of empty cells holds no mark.
pub proof fn lemma_filled_cells_of_empty_board(board: Seq<u8>)
    requires
        forall|i: int| 0 <= i < board.len() ==> board[i] == EMPTY,
    ensures
        filled_cells(board) == 0,
    decreases board.len(),
{
    if board.len() > 0 {
        lemma_filled_cells_of_empty_board(board.drop_last());
    }
}

/// Marking an empty cell adds one to the number of marks.
pub proof fn lemma_filled_cells_after_mark(board: Seq<u8>, cell: int, mark: u8)
    requires
        0 <= cell < board.len(),
        board[cell] == EMPTY,
        mark != EMPTY,
    ensures
        filled_cells(board.update(cell, mark)) == filled_cells(board) + 1,
    decreases board.len(),
{
    let marked = board.update(cell, mark);
    if cell == board.len() - 1 {
        assert(marked.drop_last() =~= board.drop_last());
    } else {
        assert(marked.drop_last() =~= board.drop_last().update(cell, mark));
        lemma_filled_cells_after_mark(board.drop_last(), cell, mark);
    }
}

/// A board that holds no mark has only empty cells.
pub proof fn lemma_unmarked_board_is_empty(board: Seq<u8>)
    requires
        filled_cells(board) == 0,
    ensures
        forall|i: int| 0 <= i < board.len() ==> board[i] == EMPTY,
    decreases board.len(),
{
    if board.len() > 0 {
        lemma_unmarked_board_is_empty(board.drop_last());
        assert forall|i: int| 0 <= i < board.len() implies board[i] == EMPTY by {
            if i < board.len() - 1 {
                assert(board.drop_last()[i] == board[i]);
            }
        }
    }
}

/// On a board without a held line, every line that a new mark completes
/// carries that mark.
pub proof fn lemma_completed_line_carries_the_mark(board: Seq<u8>, cell: int, mark: u8)
    requires
        board.len() == CELLS,
        !is_win(board),
        0 <= cell < CELLS,
    ensures
        forall|p: int|
            0 <= p < 8 && #[trigger] pattern_held(board.update(cell, mark), p) ==> board.update(
                cell,
                mark,
            )[WIN_PATTERNS[p][0] as int] == mark,
{
    let marked = board.update(cell, mark);
    lemma_patterns_are_the_lines(board);
    assert forall|p: int| 0 <= p < 8 && #[trigger] pattern_held(marked, p) implies marked[WIN_PATTERNS[p][0] as int]
        == mark by {
        let a = WIN_PATTERNS[p][0] as int;
        let b = WIN_PATTERNS[p][1] as int;
        let c = WIN_PATTERNS[p][2] as int;
        if a != cell && b != cell && c != cell {
            assert(pattern_held(board, p));
        }
    }
}

} // verus!
