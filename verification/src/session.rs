//! The session of one player: what the coordinator does for that player
//! when a message, a change signal or a fault arrives.
//!
//! A session never waits. Its caller waits for what the phase asks for,
//! holds the match state exclusively while `Session::step` runs, and
//! carries out the returned actions once the state is released.

use vstd::prelude::*;
use crate::board::{check_draw, check_win, is_win, lemma_filled_cells_of_empty_board, CELLS};
use crate::game::{lemma_submit_keeps_wf, MatchState, MatchView, MoveOutcome};
use crate::message::{ClientMessage, GameEnd, ServerMessage, ServerMessageView};

verus! {

/// Where a session stands, and so what its caller waits for next.
#[derive(Clone, Copy, Debug, PartialEq, Eq, Structural)]
pub enum Phase {
    /// The match has not started: the caller polls with `Tick`.
    WaitingForStart,
    /// The player was asked for a move: the caller waits for a message.
    Active,
    /// The other player is to move: the caller waits for a change signal.
    Passive,
    /// The session is over.
    Terminated,
}

/// Why a message channel stopped delivering.
#[derive(Clone, Copy, Debug, PartialEq, Eq, Structural)]
pub enum ChannelError {
    /// The peer is gone or a write failed.
    TransportClosed,
    /// A frame arrived that is no message.
    DecodeError,
}

/// What happened while the caller waited.
#[derive(Clone, Copy, Debug, PartialEq, Eq, Structural)]
pub enum SessionEvent {
    /// Time to look at the match state again.
    Tick,
    /// The player sent a message.
    Message(ClientMessage),
    /// The match state was changed.
    Changed,
    /// The message channel failed.
    ChannelFailed(ChannelError),
}

/// What the caller is to do after a step, in the order given.
#[derive(Debug, PartialEq, Eq)]
pub enum SessionAction {
    /// Send the message to this session's player.
    Send(ServerMessage),
    /// Wake every session that waits for a change.
    SignalChange,
}

/// A `SessionAction` with its message as mathematics.
pub enum SessionActionView {
    Send(ServerMessageView),
    SignalChange,
}

impl View for SessionAction {
    type V = SessionActionView;

    open spec fn view(&self) -> SessionActionView {
        match *self {
            SessionAction::Send(message) => SessionActionView::Send(message@),
            SessionAction::SignalChange => SessionActionView::SignalChange,
        }
    }
}

/// The actions of a step as mathematics, in their order.
pub open spec fn action_views(actions: Seq<SessionAction>) -> Seq<SessionActionView> {
    actions.map_values(|action: SessionAction| action@)
}

/// The request for a move.
pub open spec fn ask() -> SessionActionView {
    SessionActionView::Send(ServerMessageView::Input)
}

/// The board as it is sent to a player.
pub open spec fn show(board: Seq<u8>) -> SessionActionView {
    SessionActionView::Send(ServerMessageView::Board(board))
}

/// The end of the match as it is told to a player.
pub open spec fn tell(end: GameEnd) -> SessionActionView {
    SessionActionView::Send(ServerMessageView::End(end))
}

/// What one step leads to: the session's next phase, the match state after
/// it, and the actions for the caller.
pub struct Step {
    pub phase: Phase,
    pub state: MatchView,
    pub actions: Seq<SessionActionView>,
}

/// A session as mathematics: the player it serves and its phase.
pub struct SessionView {
    pub player: nat,
    pub phase: Phase,
}

impl SessionView {
    /// The step that changes nothing and asks for nothing.
    pub open spec fn idle(self, state: MatchView) -> Step {
        Step { phase: self.phase, state, actions: Seq::empty() }
    }

    /// The session looks at the match state to find its role: it waits
    /// while the match does not run, asks its player for a move when it is
    /// that player's turn, and otherwise waits for the other player.
    /// `sent` holds what the step has asked for so far.
    pub open spec fn resume(self, state: MatchView, sent: Seq<SessionActionView>) -> Step {
        if !state.running {
            Step { phase: Phase::WaitingForStart, state, actions: sent }
        } else if state.current_player == self.player {
            Step { phase: Phase::Active, state, actions: sent.push(ask()) }
        } else {
            Step { phase: Phase::Passive, state, actions: sent }
        }
    }

    /// The player who was asked for a move has sent `cell`. An accepted
    /// move is applied and signalled; if it ends the match the mover is
    /// told so and the session is over. A rejected move changes nothing
    /// and signals nothing: the session looks for its role again, which
    /// asks the same player once more.
    pub open spec fn on_move(self, state: MatchView, cell: int) -> Step {
        if state.accepts(self.player, cell) {
            let next = state.place(cell);
            if is_win(next.board) {
                Step {
                    phase: Phase::Terminated,
                    state: next,
                    actions: seq![tell(GameEnd::Win), SessionActionView::SignalChange],
                }
            } else if next.moves == CELLS {
                Step {
                    phase: Phase::Terminated,
                    state: next,
                    actions: seq![tell(GameEnd::Draw), SessionActionView::SignalChange],
                }
            } else {
                Step {
                    phase: Phase::Passive,
                    state: next,
                    actions: seq![SessionActionView::SignalChange],
                }
            }
        } else {
            self.resume(state, Seq::empty())
        }
    }

    /// The waiting session was woken: it sends the board as it is now,
    /// then tells its player of a lost or drawn match and is over, or
    /// looks for its role again.
    pub open spec fn on_change(self, state: MatchView) -> Step {
        if is_win(state.board) {
            Step {
                phase: Phase::Terminated,
                state,
                actions: seq![show(state.board), tell(GameEnd::Lose)],
            }
        } else if state.moves == CELLS {
            Step {
                phase: Phase::Terminated,
                state,
                actions: seq![show(state.board), tell(GameEnd::Draw)],
            }
        } else {
            self.resume(state, seq![show(state.board)])
        }
    }

    /// What `event` leads to. A session that is over ignores everything; a
    /// failed channel ends the session without touching the match; each
    /// other event counts only in the phase that waits for it.
    pub open spec fn step(self, state: MatchView, event: SessionEvent) -> Step {
        match (self.phase, event) {
            (Phase::Terminated, _) => self.idle(state),
            (_, SessionEvent::ChannelFailed(_)) => Step {
                phase: Phase::Terminated,
                state,
                actions: Seq::empty(),
            },
            (Phase::WaitingForStart, SessionEvent::Tick) => self.resume(state, Seq::empty()),
            (Phase::Active, SessionEvent::Message(ClientMessage::Input(cell))) => self.on_move(
                state,
                cell as int,
            ),
            (Phase::Passive, SessionEvent::Changed) => self.on_change(state),
            _ => self.idle(state),
        }
    }
}

/// The coordinator's side of one player's connection.
pub struct Session {
    player: usize,
    phase: Phase,
}

impl View for Session {
    type V = SessionView;

    closed spec fn view(&self) -> SessionView {
        SessionView { player: self.player as nat, phase: self.phase }
    }
}

impl Session {
    /// The session serves player 0 or player 1.
    pub open spec fn wf(&self) -> bool {
        self@.player < 2
    }

    /// The session of `player`, created when the connection is accepted.
    pub fn new(player: usize) -> (session: Session)
        requires
            player < 2,
        ensures
            session.wf(),
            session@ == (SessionView { player: player as nat, phase: Phase::WaitingForStart }),
    {
        Session { player, phase: Phase::WaitingForStart }
    }

    /// The player that the session serves.
    pub fn player(&self) -> (player: usize)
        ensures
            player == self@.player,
    {
        self.player
    }

    /// Where the session stands.
    pub fn phase(&self) -> (phase: Phase)
        ensures
            phase == self@.phase,
    {
        self.phase
    }

    /// Takes one event and says what to do. `state` is the shared match
    /// state, held exclusively for the length of the call.
    pub fn step(&mut self, state: &mut MatchState, event: SessionEvent) -> (actions: Vec<
        SessionAction,
    >)
        requires
            old(self).wf(),
            old(state).wf(),
        ensures
            final(self).wf(),
            final(state).wf(),
            final(self)@.player == old(self)@.player,
            (Step {
                phase: final(self)@.phase,
                state: final(state)@,
                actions: action_views(actions@),
            }) == old(self)@.step(old(state)@, event),
            actions@.len() == old(self)@.step(old(state)@, event).actions.len(),
    {
        let mut actions: Vec<SessionAction> = Vec::new();
        assert(action_views(actions@) =~= Seq::empty());
        match (self.phase, event) {
            (Phase::Terminated, _) => {},
            (_, SessionEvent::ChannelFailed(_)) => {
                self.phase = Phase::Terminated;
            },
            (Phase::WaitingForStart, SessionEvent::Tick) => {
                self.resume(state, &mut actions);
            },
            (Phase::Active, SessionEvent::Message(ClientMessage::Input(cell))) => {
                match state.apply_move(self.player, cell) {
                    Ok(MoveOutcome::Won) => {
                        actions.push(SessionAction::Send(ServerMessage::End(GameEnd::Win)));
                        actions.push(SessionAction::SignalChange);
                        self.phase = Phase::Terminated;
                    },
                    Ok(MoveOutcome::Drawn) => {
                        actions.push(SessionAction::Send(ServerMessage::End(GameEnd::Draw)));
                        actions.push(SessionAction::SignalChange);
                        self.phase = Phase::Terminated;
                    },
                    Ok(MoveOutcome::Continues) => {
                        actions.push(SessionAction::SignalChange);
                        self.phase = Phase::Passive;
                    },
                    Err(_) => {
                        self.resume(state, &mut actions);
                    },
                }
            },
            (Phase::Passive, SessionEvent::Changed) => {
                actions.push(SessionAction::Send(ServerMessage::Board(state.snapshot())));
                if check_win(state.board().as_slice()) {
                    actions.push(SessionAction::Send(ServerMessage::End(GameEnd::Lose)));
                    self.phase = Phase::Terminated;
                } else if check_draw(state.board().as_slice(), state.moves()) {
                    actions.push(SessionAction::Send(ServerMessage::End(GameEnd::Draw)));
                    self.phase = Phase::Terminated;
                } else {
                    self.resume(state, &mut actions);
                }
            },
            _ => {},
        }
        assert(action_views(actions@) =~= old(self)@.step(old(state)@, event).actions);
        actions
    }

    /// Looks at the match state to find the session's role, and asks the
    /// player for a move when it is that player's turn.
    fn resume(&mut self, state: &MatchState, actions: &mut Vec<SessionAction>)
        requires
            old(self).wf(),
        ensures
            final(self).wf(),
            final(self)@.player == old(self)@.player,
            (Step {
                phase: final(self)@.phase,
                state: state@,
                actions: action_views(final(actions)@),
            }) == old(self)@.resume(state@, action_views(old(actions)@)),
    {
        if !state.is_running() {
            self.phase = Phase::WaitingForStart;
        } else if state.current_player() == self.player {
            actions.push(SessionAction::Send(ServerMessage::Input));
            self.phase = Phase::Active;
            assert(action_views(actions@) =~= action_views(old(actions)@).push(ask()));
        } else {
            self.phase = Phase::Passive;
        }
    }
}

/// A session and the match agree: a session that has asked its player for
/// a move holds the turn of a running match, and a session that is not
/// over while a line is held is the session of the player who did not
/// make the last move.
pub open spec fn in_step(session: SessionView, state: MatchView) -> bool {
    &&& session.player < 2
    &&& session.phase == Phase::Active ==> state.running && state.current_player
        == session.player
    &&& session.phase != Phase::Terminated && is_win(state.board) ==> state.current_player
        == session.player
}

/// The sessions of both players agree with the match when they are
/// created, and still do when the match is started.
pub proof fn lemma_new_sessions_are_in_step(player: nat)
    requires
        player < 2,
    ensures
        in_step(SessionView { player, phase: Phase::WaitingForStart }, MatchView::initial()),
        in_step(
            SessionView { player, phase: Phase::WaitingForStart },
            MatchView::initial().started(),
        ),
        MatchView::initial().started().wf(),
{
    let board = MatchView::initial().board;
    lemma_filled_cells_of_empty_board(board);
}

/// The session after a step: the same player in the step's phase.
pub open spec fn after(session: SessionView, step: Step) -> SessionView {
    SessionView { player: session.player, phase: step.phase }
}

/// Whether the actions tell the player how the match ended.
pub open spec fn tells_end(actions: Seq<SessionActionView>) -> bool {
    exists|i: int|
        0 <= i < actions.len() && (#[trigger] actions[i]) matches SessionActionView::Send(
            ServerMessageView::End(_),
        )
}

/// A step leaves a valid match state valid.
pub proof fn lemma_step_keeps_match_valid(
    session: SessionView,
    state: MatchView,
    event: SessionEvent,
)
    requires
        state.wf(),
    ensures
        session.step(state, event).state.wf(),
{
    if let SessionEvent::Message(ClientMessage::Input(cell)) = event {
        lemma_submit_keeps_wf(state, session.player, cell as int);
    }
}

/// Only a move of the asked player changes the match: whatever the event,
/// the match state after a step is the state before it, unless the session
/// had asked for a move and the event is a move that the match accepts
/// from that session's player. A step that changes nothing signals no
/// change.
pub proof fn lemma_only_an_accepted_move_changes_the_match(
    session: SessionView,
    state: MatchView,
    event: SessionEvent,
)
    ensures
        ({
            let step = session.step(state, event);
            let moved = session.phase == Phase::Active && (event matches SessionEvent::Message(
                ClientMessage::Input(cell),
            ) && state.accepts(session.player, cell as int));
            &&& !moved ==> step.state == state
            &&& !moved ==> !step.actions.contains(SessionActionView::SignalChange)
            &&& moved ==> step.state == state.place(
                event->Message_0->Input_0 as int,
            )
            &&& moved ==> step.actions.contains(SessionActionView::SignalChange)
        }),
{
    let step = session.step(state, event);
    match (session.phase, event) {
        (Phase::Active, SessionEvent::Message(ClientMessage::Input(cell))) => {
            if state.accepts(session.player, cell as int) {
                let next = state.place(cell as int);
                if is_win(next.board) || next.moves == CELLS {
                    assert(step.actions[1] == SessionActionView::SignalChange);
                } else {
                    assert(step.actions[0] == SessionActionView::SignalChange);
                }
            }
        },
        _ => {},
    }
}

/// The turn is held by one session at a time. When the sessions of the two
/// players agree with the match, they still do after either of them has
/// taken a step, whatever the event: so never have both asked for a move,
/// and the session that has asked is the one whose player is to move.
pub proof fn lemma_sessions_stay_in_step(
    stepping: SessionView,
    other: SessionView,
    state: MatchView,
    event: SessionEvent,
)
    requires
        state.wf(),
        stepping.player != other.player,
        in_step(stepping, state),
        in_step(other, state),
    ensures
        in_step(after(stepping, stepping.step(state, event)), stepping.step(state, event).state),
        in_step(other, stepping.step(state, event).state),
        !(stepping.phase == Phase::Active && other.phase == Phase::Active),
{
    lemma_step_keeps_match_valid(stepping, state, event);
}

/// The end of the match is told once. A step tells its player the end
/// exactly when the session ends over a decided match, and a session that
/// is over stays over and asks for nothing more.
pub proof fn lemma_end_is_told_once(session: SessionView, state: MatchView, event: SessionEvent)
    ensures
        tells_end(session.step(state, event).actions) <==> session.phase != Phase::Terminated
            && session.step(state, event).phase == Phase::Terminated && !(event is ChannelFailed),
        session.phase == Phase::Terminated ==> session.step(state, event) == session.idle(state),
{
    let step = session.step(state, event);
    if session.phase != Phase::Terminated && step.phase == Phase::Terminated && !(event is ChannelFailed) {
        match (session.phase, event) {
            (Phase::Active, SessionEvent::Message(ClientMessage::Input(cell))) => {
                assert(step.actions[0] matches SessionActionView::Send(ServerMessageView::End(_)));
            },
            (Phase::Passive, SessionEvent::Changed) => {
                assert(step.actions[1] matches SessionActionView::Send(ServerMessageView::End(_)));
            },
            _ => {},
        }
    }
}

/// Each player is told the outcome that is theirs. The mover whose move
/// ends the match is told of a win exactly if that move completed a line,
/// and is then the winner; the session woken over the state that the move
/// left is told of a loss in that case, and is not the winner; if the move
/// filled the board without a line, both are told of a draw.
pub proof fn lemma_outcomes_agree(
    mover: SessionView,
    waiting: SessionView,
    state: MatchView,
    cell: int,
)
    requires
        state.wf(),
        mover.player != waiting.player,
        mover.phase == Phase::Active,
        waiting.phase == Phase::Passive,
        in_step(mover, state),
        in_step(waiting, state),
        state.accepts(mover.player, cell),
        state.place(cell).terminal(),
    ensures
        ({
            let next = state.place(cell);
            let told = mover.on_move(state, cell);
            let seen = waiting.on_change(next);
            &&& told.state == next
            &&& told.phase == Phase::Terminated
            &&& seen.phase == Phase::Terminated
            &&& seen.state == next
            &&& is_win(next.board) ==> {
                &&& next.winner() == Some(mover.player)
                &&& told.actions == seq![tell(GameEnd::Win), SessionActionView::SignalChange]
                &&& seen.actions == seq![show(next.board), tell(GameEnd::Lose)]
            }
            &&& !is_win(next.board) ==> {
                &&& next.winner() is None
                &&& told.actions == seq![tell(GameEnd::Draw), SessionActionView::SignalChange]
                &&& seen.actions == seq![show(next.board), tell(GameEnd::Draw)]
            }
        }),
{
}

/// A move that does not end the match hands the turn over: the mover
/// waits, and the other session, woken by the signal, sends the new board
/// and asks its player for a move.
pub proof fn lemma_move_hands_the_turn_over(
    mover: SessionView,
    waiting: SessionView,
    state: MatchView,
    cell: int,
)
    requires
        state.wf(),
        mover.player < 2,
        waiting.player < 2,
        mover.player != waiting.player,
        state.accepts(mover.player, cell),
        !state.place(cell).terminal(),
    ensures
        ({
            let next = state.place(cell);
            let told = mover.on_move(state, cell);
            let seen = waiting.on_change(next);
            &&& told == (Step {
                phase: Phase::Passive,
                state: next,
                actions: seq![SessionActionView::SignalChange],
            })
            &&& seen == (Step {
                phase: Phase::Active,
                state: next,
                actions: seq![show(next.board), ask()],
            })
        }),
{
    let next = state.place(cell);
    assert(waiting.on_change(next).actions =~= seq![show(next.board), ask()]);
}

} // verus!
