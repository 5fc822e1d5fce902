//! The state of one match and the rule by which a move changes it.

use vstd::prelude::*;
use vstd::slice::slice_to_vec;
use crate::board::{
    check_win, filled_cells, is_win, lemma_completed_line_carries_the_mark,
    lemma_filled_cells_after_mark, lemma_filled_cells_bound, lemma_filled_cells_of_empty_board,
    lemma_patterns_are_the_lines, lemma_unmarked_board_is_empty, pattern_held, CELLS, EMPTY,
    MARK_O, MARK_X, WIN_PATTERNS,
};

verus! {

/// What a submitted move led to.
#[derive(Clone, Copy, Debug, PartialEq, Eq, Structural)]
pub enum MoveOutcome {
    /// The mark was placed and the match goes on with the other player.
    Continues,
    /// The mark completed a line: the mover has won.
    Won,
    /// The mark filled the last cell and no line is held.
    Drawn,
}

/// Why a submitted move was not applied.
#[derive(Clone, Copy, Debug, PartialEq, Eq, Structural)]
pub enum MoveError {
    /// The match has not started, or it is over.
    NotRunning,
    /// It is the other player's turn.
    NotYourTurn,
    /// The index names no cell of the board.
    OutOfRange,
    /// The cell already carries a mark.
    Occupied,
}

/// The mark that `player` places.
pub open spec fn mark_of(player: nat) -> u8 {
    if player == 0 {
        MARK_X
    } else {
        MARK_O
    }
}

/// A match state as mathematics: what `MatchState` stands for.
pub struct MatchView {
    /// The nine cells, row by row.
    pub board: Seq<u8>,
    /// The player to move: 0 or 1.
    pub current_player: nat,
    /// Whether the match has started and is not over.
    pub running: bool,
    /// How many moves have been applied.
    pub moves: nat,
}

impl MatchView {
    /// The match before it starts: an empty board, player 0 to move.
    pub open spec fn initial() -> MatchView {
        MatchView {
            board: Seq::new(CELLS as nat, |i: int| EMPTY),
            current_player: 0,
            running: false,
            moves: 0,
        }
    }

    /// A line is held or the board is full.
    pub open spec fn terminal(self) -> bool {
        is_win(self.board) || self.moves == CELLS
    }

    /// The player who made the last move, once a move was made.
    pub open spec fn last_mover(self) -> nat {
        (1 - self.current_player) as nat
    }

    /// The player who holds a line, if a line is held.
    pub open spec fn winner(self) -> Option<nat> {
        if is_win(self.board) {
            Some(self.last_mover())
        } else {
            None
        }
    }

    /// What holds of every match state at every moment: the board has nine
    /// cells, each empty or marked by a player; the move counter is the
    /// number of marks; the players alternate, player 0 first; the match
    /// runs only while it is undecided, and once it has stopped after a
    /// move it is decided; a held line carries the mark of the last mover.
    pub open spec fn wf(self) -> bool {
        &&& self.board.len() == CELLS
        &&& forall|i: int|
            0 <= i < CELLS ==> self.board[i] == EMPTY || self.board[i] == MARK_X || self.board[i]
                == MARK_O
        &&& self.moves == filled_cells(self.board)
        &&& self.current_player == self.moves % 2
        &&& self.running ==> !self.terminal()
        &&& !self.running ==> self.moves == 0 || self.terminal()
        &&& forall|p: int|
            0 <= p < 8 && #[trigger] pattern_held(self.board, p) ==> self.board[WIN_PATTERNS[p][0] as int]
                == mark_of(self.last_mover())
    }

    /// The match was never started.
    pub open spec fn fresh(self) -> bool {
        !self.running && self.moves == 0
    }

    /// The state after the start signal: a fresh match runs, any other is
    /// left as it is.
    pub open spec fn started(self) -> MatchView {
        if self.fresh() {
            MatchView { running: true, ..self }
        } else {
            self
        }
    }

    /// Whether a move of `player` to `cell` is applied.
    pub open spec fn accepts(self, player: nat, cell: int) -> bool {
        &&& self.running
        &&& player == self.current_player
        &&& 0 <= cell < CELLS
        &&& self.board[cell] == EMPTY
    }

    /// The state after the player to move has marked `cell`.
    pub open spec fn place(self, cell: int) -> MatchView {
        let board = self.board.update(cell, mark_of(self.current_player));
        let moves = self.moves + 1;
        MatchView {
            board,
            current_player: (1 - self.current_player) as nat,
            running: !(is_win(board) || moves == CELLS),
            moves: moves as nat,
        }
    }

    /// The state after `player` has submitted a move to `cell`: the move is
    /// applied if it is accepted, and changes nothing if it is not.
    pub open spec fn submit(self, player: nat, cell: int) -> MatchView {
        if self.accepts(player, cell) {
            self.place(cell)
        } else {
            self
        }
    }

    /// What the submitter of a move is told.
    pub open spec fn verdict(self, player: nat, cell: int) -> Result<MoveOutcome, MoveError> {
        if !self.running {
            Err(MoveError::NotRunning)
        } else if player != self.current_player {
            Err(MoveError::NotYourTurn)
        } else if !(0 <= cell < CELLS) {
            Err(MoveError::OutOfRange)
        } else if self.board[cell] != EMPTY {
            Err(MoveError::Occupied)
        } else if is_win(self.place(cell).board) {
            Ok(MoveOutcome::Won)
        } else if self.moves + 1 == CELLS {
            Ok(MoveOutcome::Drawn)
        } else {
            Ok(MoveOutcome::Continues)
        }
    }

    /// The state after the submissions of `moves`, each a player and a
    /// cell, were made one after the other.
    pub open spec fn play(self, moves: Seq<(nat, int)>) -> MatchView
        decreases moves.len(),
    {
        if moves.len() == 0 {
            self
        } else {
            self.play(moves.drop_last()).submit(moves.last().0, moves.last().1)
        }
    }
}

/// The single source of truth of one match: the board, whose turn it is,
/// whether the match runs, and how many moves were made.
pub struct MatchState {
    current_player: usize,
    board: Vec<u8>,
    running: bool,
    moves: usize,
}

impl View for MatchState {
    type V = MatchView;

    closed spec fn view(&self) -> MatchView {
        MatchView {
            board: self.board@,
            current_player: self.current_player as nat,
            running: self.running,
            moves: self.moves as nat,
        }
    }
}

impl MatchState {
    /// What holds of every match state at every moment.
    pub open spec fn wf(&self) -> bool {
        self@.wf()
    }

    /// A match that has not started: an empty board, player 0 to move.
    pub fn new() -> (state: MatchState)
        ensures
            state.wf(),
            state@ == MatchView::initial(),
    {
        let mut board: Vec<u8> = Vec::new();
        let mut i: usize = 0;
        while i < CELLS
            invariant
                i <= CELLS,
                board@.len() == i,
                forall|j: int| 0 <= j < i ==> board@[j] == EMPTY,
            decreases CELLS - i,
        {
            board.push(EMPTY);
            i += 1;
        }
        proof {
            lemma_filled_cells_of_empty_board(board@);
            assert(board@ =~= MatchView::initial().board);
        }
        MatchState { current_player: 0, board, running: false, moves: 0 }
    }

    /// Starts the match if it was never started, and says whether it did.
    /// A match that runs or is over is left as it is.
    pub fn start(&mut self) -> (started: bool)
        requires
            old(self).wf(),
        ensures
            final(self).wf(),
            final(self)@ == old(self)@.started(),
            started == old(self)@.fresh(),
    {
        if !self.running && self.moves == 0 {
            proof {
                lemma_unmarked_board_is_empty(self.board@);
                lemma_no_win_without_marks(self.board@);
            }
            self.running = true;
            true
        } else {
            false
        }
    }

    /// Submits a move of `player` to `cell`. The move is applied if the
    /// match runs, it is `player`'s turn, and `cell` is an empty cell of
    /// the board; otherwise the state stays as it was.
    pub fn apply_move(&mut self, player: usize, cell: usize) -> (result: Result<
        MoveOutcome,
        MoveError,
    >)
        requires
            old(self).wf(),
        ensures
            final(self).wf(),
            final(self)@ == old(self)@.submit(player as nat, cell as int),
            result == old(self)@.verdict(player as nat, cell as int),
    {
        if !self.running {
            return Err(MoveError::NotRunning);
        }
        if player != self.current_player {
            return Err(MoveError::NotYourTurn);
        }
        if cell >= CELLS {
            return Err(MoveError::OutOfRange);
        }
        if self.board[cell] != EMPTY {
            return Err(MoveError::Occupied);
        }
        let mark = if player == 0 {
            MARK_X
        } else {
            MARK_O
        };
        proof {
            lemma_submit_keeps_wf(self@, player as nat, cell as int);
            lemma_filled_cells_bound(self@.place(cell as int).board);
        }
        self.board.set(cell, mark);
        self.current_player = 1 - player;
        self.moves = self.moves + 1;
        if check_win(self.board.as_slice()) {
            self.running = false;
            Ok(MoveOutcome::Won)
        } else if self.moves == CELLS {
            self.running = false;
            Ok(MoveOutcome::Drawn)
        } else {
            Ok(MoveOutcome::Continues)
        }
    }

    /// The player to move: 0 or 1.
    pub fn current_player(&self) -> (player: usize)
        ensures
            player == self@.current_player,
    {
        self.current_player
    }

    /// Whether the match has started and is not over.
    pub fn is_running(&self) -> (running: bool)
        ensures
            running == self@.running,
    {
        self.running
    }

    /// How many moves have been applied.
    pub fn moves(&self) -> (moves: usize)
        ensures
            moves == self@.moves,
    {
        self.moves
    }

    /// The nine cells of the board, row by row.
    pub fn board(&self) -> (cells: &Vec<u8>)
        ensures
            cells@ == self@.board,
    {
        &self.board
    }

    /// A copy of the board as it is now.
    pub fn snapshot(&self) -> (cells: Vec<u8>)
        ensures
            cells@ == self@.board,
    {
        slice_to_vec(self.board.as_slice())
    }
}

/// A board without marks has no held line.
pub proof fn lemma_no_win_without_marks(board: Seq<u8>)
    requires
        board.len() == CELLS,
        forall|i: int| 0 <= i < board.len() ==> board[i] == EMPTY,
    ensures
        !is_win(board),
{
}

/// A submission, applied or not, leaves a valid state valid.
pub proof fn lemma_submit_keeps_wf(state: MatchView, player: nat, cell: int)
    requires
        state.wf(),
    ensures
        state.submit(player, cell).wf(),
{
    if state.accepts(player, cell) {
        let mark = mark_of(state.current_player);
        lemma_filled_cells_after_mark(state.board, cell, mark);
        lemma_patterns_are_the_lines(state.board);
        lemma_completed_line_carries_the_mark(state.board, cell, mark);
    }
}

/// Every sequence of submissions leaves a valid state valid.
pub proof fn lemma_play_keeps_wf(start: MatchView, moves: Seq<(nat, int)>)
    requires
        start.wf(),
    ensures
        start.play(moves).wf(),
    decreases moves.len(),
{
    if moves.len() > 0 {
        lemma_play_keeps_wf(start, moves.drop_last());
        lemma_submit_keeps_wf(start.play(moves.drop_last()), moves.last().0, moves.last().1);
    }
}

/// At every point of every sequence of submissions the move counter equals
/// the number of cells that carry a mark.
pub proof fn lemma_moves_count_marks(start: MatchView, moves: Seq<(nat, int)>)
    requires
        start.wf(),
    ensures
        forall|k: int|
            0 <= k <= moves.len() ==> (#[trigger] start.play(moves.take(k))).moves == filled_cells(
                start.play(moves.take(k)).board,
            ),
{
    assert forall|k: int| 0 <= k <= moves.len() implies (#[trigger] start.play(
        moves.take(k),
    )).moves == filled_cells(start.play(moves.take(k)).board) by {
        lemma_play_keeps_wf(start, moves.take(k));
    }
}

/// Turns alternate: when none of the `n` submissions of a match is
/// rejected, all `n` are counted and the player to move is `n mod 2`, so
/// player 0 moves first.
pub proof fn lemma_turns_alternate(moves: Seq<(nat, int)>)
    requires
        forall|k: int|
            0 <= k < moves.len() ==> (#[trigger] MatchView::initial().started().play(
                moves.take(k),
            )).accepts(moves[k].0, moves[k].1),
    ensures
        MatchView::initial().started().play(moves).moves == moves.len(),
        MatchView::initial().started().play(moves).current_player == moves.len() % 2,
    decreases moves.len(),
{
    let start = MatchView::initial().started();
    if moves.len() > 0 {
        let front = moves.drop_last();
        assert forall|k: int| 0 <= k < front.len() implies (#[trigger] start.play(
            front.take(k),
        )).accepts(front[k].0, front[k].1) by {
            assert(front.take(k) =~= moves.take(k));
            assert(start.play(moves.take(k)).accepts(moves[k].0, moves[k].1));
        }
        lemma_turns_alternate(front);
        let last = moves.len() - 1;
        assert(moves.take(last) =~= front);
        assert(start.play(moves.take(last)).accepts(moves[last].0, moves[last].1));
    }
}

/// A move to a cell that carries a mark is rejected and changes nothing:
/// not the board, not the move counter, not the player to move.
pub proof fn lemma_occupied_cell_changes_nothing(state: MatchView, player: nat, cell: int)
    requires
        0 <= cell < CELLS,
        state.board[cell] != EMPTY,
    ensures
        state.submit(player, cell) == state,
        state.verdict(player, cell) is Err,
{
}

/// A submission never takes a move back, and none is counted beyond the
/// ninth.
pub proof fn lemma_moves_never_decrease(state: MatchView, player: nat, cell: int)
    requires
        state.wf(),
    ensures
        state.moves <= state.submit(player, cell).moves <= CELLS,
{
    lemma_submit_keeps_wf(state, player, cell);
    lemma_filled_cells_bound(state.submit(player, cell).board);
}

/// A match that is over stays over: neither the start signal nor any
/// sequence of submissions changes it, so it never runs again.
pub proof fn lemma_finished_match_is_final(state: MatchView, moves: Seq<(nat, int)>)
    requires
        !state.running,
        state.moves > 0,
    ensures
        state.started() == state,
        state.play(moves) == state,
    decreases moves.len(),
{
    if moves.len() > 0 {
        lemma_finished_match_is_final(state, moves.drop_last());
    }
}

} // verus!
