//! The player's side: what a client shows for each message of the
//! coordinator, and which typed line it accepts as a move.

use vstd::prelude::*;
use vstd::string::StringExecFns;
use crate::board::CELLS;
use crate::message::{ClientMessage, GameEnd, ServerMessage, ServerMessageView};

verus! {

/// What `str::trim` returns for a string: the string without its leading
/// and trailing white space.
pub uninterp spec fn trimmed(line: Seq<char>) -> Seq<char>;

/// What `str::parse::<usize>` returns for a string: the number that the
/// string spells, as decimal digits after an optional `+`, or nothing if
/// it spells none that a `usize` holds.
pub uninterp spec fn parsed_index(text: Seq<char>) -> Option<usize>;

/// Calls `str::trim`. The result is named, not described: it is the same
/// for the same line.
#[verifier::external_body]
fn trim(line: &str) -> (text: &str)
    ensures
        text@ == trimmed(line@),
{
    line.trim()
}

/// Calls `str::parse::<usize>`. The result is named, not described: it is
/// the same for the same text, and `None` stands for every error.
#[verifier::external_body]
fn parse_index(text: &str) -> (index: Option<usize>)
    ensures
        index == parsed_index(text@),
{
    match text.parse::<usize>() {
        Ok(index) => Some(index),
        Err(_) => None,
    }
}

/// Calls `String::push`, which appends one character to the string.
#[verifier::external_body]
fn push_char(text: &mut String, c: char)
    ensures
        final(text)@ == old(text)@.push(c),
{
    text.push(c);
}

/// The move that a parsed line stands for: a number is a move if it names
/// one of the nine cells.
pub open spec fn choice(parsed: Option<usize>) -> Option<ClientMessage> {
    match parsed {
        Some(index) => if index < CELLS {
            Some(ClientMessage::Input(index))
        } else {
            None
        },
        None => None,
    }
}

/// The move that a parsed line stands for, if it stands for one.
pub fn choice_from_parsed(parsed: Option<usize>) -> (message: Option<ClientMessage>)
    ensures
        message == choice(parsed),
{
    match parsed {
        Some(index) => if index < CELLS {
            Some(ClientMessage::Input(index))
        } else {
            None
        },
        None => None,
    }
}

/// The move that a typed line stands for, if it stands for one: the line
/// is trimmed and read as a number, which must name a cell.
pub fn choice_from_line(line: &str) -> (message: Option<ClientMessage>)
    ensures
        message == choice(parsed_index(trimmed(line@))),
{
    choice_from_parsed(parse_index(trim(line)))
}

/// The line that separates the rows of a drawn board.
pub open spec fn rule() -> Seq<char> {
    "+---+---+---+\n"@
}

/// The cells of one row as they are drawn: each between two spaces and
/// closed by a bar.
pub open spec fn rendered_cells(cells: Seq<u8>) -> Seq<char>
    decreases cells.len(),
{
    if cells.len() == 0 {
        Seq::empty()
    } else {
        rendered_cells(cells.drop_last()) + " "@.push(cells.last() as char) + " |"@
    }
}

/// The rows of a board as they are drawn: three cells to a row, the last
/// row shorter if the cells run out, each row followed by a rule.
pub open spec fn rendered_rows(board: Seq<u8>) -> Seq<char>
    decreases board.len(),
{
    if board.len() == 0 {
        Seq::empty()
    } else {
        let width = if board.len() < 3 {
            board.len() as int
        } else {
            3
        };
        "|"@ + rendered_cells(board.take(width)) + "\n"@ + rule() + rendered_rows(
            board.skip(width),
        )
    }
}

/// A board as it is drawn: a rule, then the rows.
pub open spec fn rendered_board(board: Seq<u8>) -> Seq<char> {
    rule() + rendered_rows(board)
}

/// Draws the board as text, each cell shown as the character of its byte.
pub fn render_board(board: &[u8]) -> (text: String)
    ensures
        text@ == rendered_board(board@),
{
    let mut text = String::from_str("+---+---+---+\n");
    let mut start: usize = 0;
    assert(board@.skip(0) =~= board@);
    while start < board.len()
        invariant
            start <= board.len(),
            text@ + rendered_rows(board@.skip(start as int)) == rendered_board(board@),
        decreases board.len() - start,
    {
        let rest = board.len() - start;
        let width: usize = if rest < 3 {
            rest
        } else {
            3
        };
        let ghost done = text@;
        let ghost row = board@.skip(start as int).take(width as int);
        text.append("|");
        let mut k: usize = 0;
        assert(row.take(0) =~= Seq::<u8>::empty());
        while k < width
            invariant
                k <= width,
                start + width <= board.len(),
                row == board@.skip(start as int).take(width as int),
                text@ == done + "|"@ + rendered_cells(row.take(k as int)),
            decreases width - k,
        {
            let cell = board[start + k];
            text.append(" ");
            push_char(&mut text, cell as char);
            text.append(" |");
            proof {
                let upto = row.take(k as int + 1);
                assert(upto.drop_last() =~= row.take(k as int));
                assert(upto.last() == cell);
                assert(text@ =~= done + "|"@ + rendered_cells(upto));
            }
            k += 1;
        }
        text.append("\n");
        text.append("+---+---+---+\n");
        proof {
            let here = board@.skip(start as int);
            assert(row.take(width as int) =~= row);
            assert(here.skip(width as int) =~= board@.skip(start + width));
            assert(text@ + rendered_rows(board@.skip(start + width)) =~= done + rendered_rows(
                here,
            ));
        }
        start += width;
    }
    text
}

/// What a client does next.
#[derive(Debug, PartialEq, Eq)]
pub enum ClientAction {
    /// Ask the player for a cell, and send the move.
    Prompt,
    /// Show the drawn board.
    Show(String),
    /// Show how the match ended, and leave.
    Finish(String),
}

/// A `ClientAction` with its text as a sequence of characters.
pub enum ClientActionView {
    Prompt,
    Show(Seq<char>),
    Finish(Seq<char>),
}

impl View for ClientAction {
    type V = ClientActionView;

    open spec fn view(&self) -> ClientActionView {
        match *self {
            ClientAction::Prompt => ClientActionView::Prompt,
            ClientAction::Show(text) => ClientActionView::Show(text@),
            ClientAction::Finish(text) => ClientActionView::Finish(text@),
        }
    }
}

/// What a client does for a message of the coordinator.
pub open spec fn reaction(message: ServerMessageView) -> ClientActionView {
    match message {
        ServerMessageView::Input => ClientActionView::Prompt,
        ServerMessageView::Board(cells) => ClientActionView::Show(rendered_board(cells)),
        ServerMessageView::End(end) => ClientActionView::Finish(end.text()),
    }
}

/// Decides what the client does for a message of the coordinator.
pub fn react(message: &ServerMessage) -> (action: ClientAction)
    ensures
        action@ == reaction(message@),
{
    match message {
        ServerMessage::Input => ClientAction::Prompt,
        ServerMessage::Board(cells) => ClientAction::Show(render_board(cells.as_slice())),
        ServerMessage::End(end) => ClientAction::Finish(end.to_string()),
    }
}

} // verus!
