//! The messages that the coordinator and a player exchange.

use vstd::prelude::*;
use vstd::string::StringExecFns;

verus! {

/// How a match ended, as told to one player.
#[derive(Clone, Copy, Debug, PartialEq, Eq, Structural)]
pub enum GameEnd {
    Win,
    Lose,
    Draw,
}

/// What the coordinator sends to a player.
#[derive(Debug, PartialEq, Eq)]
pub enum ServerMessage {
    /// The player is asked for a move.
    Input,
    /// The nine cells of the board, row by row.
    Board(Vec<u8>),
    /// The match is over.
    End(GameEnd),
}

/// What a player sends to the coordinator.
#[derive(Clone, Copy, Debug, PartialEq, Eq, Structural)]
pub enum ClientMessage {
    /// A move: the index of the cell to mark.
    Input(usize),
}

/// A `ServerMessage` with the board as a sequence.
pub enum ServerMessageView {
    Input,
    Board(Seq<u8>),
    End(GameEnd),
}

impl View for ServerMessage {
    type V = ServerMessageView;

    open spec fn view(&self) -> ServerMessageView {
        match *self {
            ServerMessage::Input => ServerMessageView::Input,
            ServerMessage::Board(cells) => ServerMessageView::Board(cells@),
            ServerMessage::End(end) => ServerMessageView::End(end),
        }
    }
}

impl GameEnd {
    /// The sentence that tells a player how the match ended.
    pub open spec fn text(self) -> Seq<char> {
        match self {
            GameEnd::Win => "You win!"@,
            GameEnd::Lose => "You lose!"@,
            GameEnd::Draw => "Draw!"@,
        }
    }

    /// The sentence that tells a player how the match ended.
    pub fn to_string(&self) -> (sentence: String)
        ensures
            sentence@ == self.text(),
    {
        match self {
            GameEnd::Win => String::from_str("You win!"),
            GameEnd::Lose => String::from_str("You lose!"),
            GameEnd::Draw => String::from_str("Draw!"),
        }
    }
}

} // verus!
