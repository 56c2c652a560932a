//! The game session: the state machine behind the front-end protocol.
//!
//! The session tracks the current position and answers each inbound
//! command with the lines to send back and the one thing it cannot do
//! itself: ask the shell to run a move decision, or to shut down.  An
//! unrecognized inbound command is ignored, never fatal.

use vstd::prelude::*;

use crate::board::{
    apply_move, board_after, board_from_fen, board_legal_moves, chess_move_of, fen_board,
    fen_has_both_kings, fen_names_both_kings, fen_placement_wf, fen_placement_within_board,
    legal_moves, make_move, move_eq, move_text, move_uci_text, MoveCoords,
};
use crate::protocol::{CommandView, ReceivedCommand, SentCommand};
use crate::stockfish::Stockfish;

verus! {

/// Where the session stands in its turn cycle.
#[derive(Debug, Copy, Clone, PartialEq, Eq, Structural)]
pub enum SessionState {
    /// No position has been asked about yet, or the last reply went out.
    Idle,
    /// A position is established on the board.
    PositionSet,
    /// A move has been requested and not yet answered.
    AwaitingDecision,
    /// The front end asked to shut down.
    Terminated,
}

/// What the shell must do after one inbound command.
#[derive(Debug, Copy, Clone, PartialEq, Eq, Structural)]
pub enum SessionAction {
    /// Nothing beyond sending the replies.
    Continue,
    /// Run the active policy on the current position and hand the chosen
    /// move back through [`Game::apply_decision`].
    Decide,
    /// Shut everything down.
    Terminate,
}

/// The session's answer to one inbound command.
#[derive(Debug)]
pub struct SessionReply {
    pub outputs: Vec<SentCommand>,
    pub action: SessionAction,
}

/// The position reached from `b` by the given moves, replayed in order,
/// each checked for legality on the position it is played from; nothing
/// if any move is illegal there.
pub open spec fn replay_legal(b: chess::Board, moves: Seq<MoveCoords>) -> Option<chess::Board>
    decreases moves.len(),
{
    if moves.len() == 0 {
        Some(b)
    } else if board_legal_moves(b).contains(chess_move_of(moves[0])) {
        replay_legal(board_after(b, chess_move_of(moves[0])), moves.drop_first())
    } else {
        None
    }
}

/// The board a position directive establishes, before its moves are
/// replayed on it: the remembered start position, or the named record if
/// it names a king for each side, keeps its placement on the board, and
/// denotes a position.
pub open spec fn position_base(initial: chess::Board, startpos: bool, fen: Option<Seq<u8>>) -> Option<
    chess::Board,
> {
    if startpos {
        Some(initial)
    } else {
        match fen {
            Some(f) => if fen_names_both_kings(f) && fen_placement_wf(f) {
                fen_board(f)
            } else {
                None
            },
            None => None,
        }
    }
}

/// The session: the current position, the start position it returns to,
/// what it calls itself, and where it stands in the turn cycle.
#[derive(Debug)]
pub struct Game {
    /// The position the game currently stands at.
    pub board: chess::Board,
    /// The protocol driver's configuration for the external engine.
    pub stockfish: Stockfish,
    /// Where the session stands.
    pub state: SessionState,
    /// The start position a reset returns to.
    pub initial: chess::Board,
    /// The name announced on an identification request.
    pub name: Vec<u8>,
    /// The author announced on an identification request.
    pub author: Vec<u8>,
}

impl Game {
    /// The start position the session returns to on a reset.
    pub open spec fn spec_initial(self) -> chess::Board {
        self.initial
    }

    /// What the session announces as its name.
    pub open spec fn spec_name(self) -> Seq<u8> {
        self.name@
    }

    /// What the session announces as its author.
    pub open spec fn spec_author(self) -> Seq<u8> {
        self.author@
    }

    /// The parts of the session that no inbound command may change.
    pub open spec fn same_identity(self, other: Game) -> bool {
        &&& self.spec_initial() == other.spec_initial()
        &&& self.spec_name() == other.spec_name()
        &&& self.spec_author() == other.spec_author()
        &&& self.stockfish == other.stockfish
    }

    /// A fresh session on the given start position, idle until the front
    /// end speaks.
    pub fn new(initial: chess::Board, stockfish: Stockfish, name: Vec<u8>, author: Vec<u8>) -> (r:
        Game)
        ensures
            r.board == initial,
            r.spec_initial() == initial,
            r.stockfish == stockfish,
            r.state == SessionState::Idle,
            r.spec_name() == name@,
            r.spec_author() == author@,
    {
        Game { board: initial, stockfish, state: SessionState::Idle, initial, name, author }
    }

    /// Puts the board back on the start position.
    pub fn reset(&mut self)
        ensures
            final(self).board == old(self).spec_initial(),
            final(self).state == SessionState::PositionSet,
            final(self).same_identity(*old(self)),
    {
        self.board = self.initial;
        self.state = SessionState::PositionSet;
    }

    /// The legal moves of the current position.
    pub fn moves(&self) -> (r: Vec<chess::ChessMove>)
        ensures
            r@ == board_legal_moves(self.board),
    {
        legal_moves(&self.board)
    }

    /// Answers one inbound command: a terminated session ignores
    /// everything; otherwise an identification request is answered with
    /// who we are, a liveness check with readiness, a new game or a
    /// position directive moves the board — a directive whose record
    /// denotes no position, or whose move list turns illegal at any
    /// point of the replay, is ignored whole — a search request asks the
    /// shell for a decision, and a quit terminates.  Everything else is
    /// ignored.
    pub fn handle(&mut self, cmd: &ReceivedCommand) -> (r: SessionReply)
        ensures
            final(self).same_identity(*old(self)),
            old(self).state == SessionState::Terminated ==> *final(self) == *old(self)
                && r.outputs@.len() == 0 && r.action == SessionAction::Continue,
            old(self).state != SessionState::Terminated ==> match cmd@ {
                CommandView::Uci => {
                    &&& final(self).board == old(self).board
                    &&& final(self).state == old(self).state
                    &&& r.outputs@.len() == 3
                    &&& r.outputs@[0] == SentCommand::UciOk
                    &&& (r.outputs@[1] matches SentCommand::IdName(n) && n@ == old(self).spec_name())
                    &&& (r.outputs@[2] matches SentCommand::IdAuthor(a) && a@ == old(self).spec_author())
                    &&& r.action == SessionAction::Continue
                },
                CommandView::IsReady => {
                    &&& final(self).board == old(self).board
                    &&& final(self).state == old(self).state
                    &&& r.outputs@ =~= seq![SentCommand::ReadyOk]
                    &&& r.action == SessionAction::Continue
                },
                CommandView::UciNewGame => {
                    &&& final(self).board == old(self).spec_initial()
                    &&& final(self).state == SessionState::PositionSet
                    &&& r.outputs@.len() == 0
                    &&& r.action == SessionAction::Continue
                },
                CommandView::Position { startpos, fen, moves } => {
                    &&& match position_base(old(self).spec_initial(), startpos, fen) {
                        Some(base) => match replay_legal(base, moves) {
                            Some(reached) => final(self).board == reached && final(self).state
                                == SessionState::PositionSet,
                            None => final(self).board == old(self).board && final(self).state
                                == old(self).state,
                        },
                        None => final(self).board == old(self).board && final(self).state == old(self).state,
                    }
                    &&& r.outputs@.len() == 0
                    &&& r.action == SessionAction::Continue
                },
                CommandView::Go { nodes } => {
                    &&& final(self).board == old(self).board
                    &&& final(self).state == SessionState::AwaitingDecision
                    &&& r.outputs@.len() == 0
                    &&& r.action == SessionAction::Decide
                },
                CommandView::Quit => {
                    &&& final(self).board == old(self).board
                    &&& final(self).state == SessionState::Terminated
                    &&& r.outputs@.len() == 0
                    &&& r.action == SessionAction::Terminate
                },
                _ => {
                    &&& *final(self) == *old(self)
                    &&& r.outputs@.len() == 0
                    &&& r.action == SessionAction::Continue
                },
            },
    {
        if matches!(self.state, SessionState::Terminated) {
            return SessionReply { outputs: Vec::new(), action: SessionAction::Continue };
        }
        match cmd {
            ReceivedCommand::Uci => {
                let mut outputs: Vec<SentCommand> = Vec::new();
                outputs.push(SentCommand::UciOk);
                outputs.push(SentCommand::IdName(clone_bytes(&self.name)));
                outputs.push(SentCommand::IdAuthor(clone_bytes(&self.author)));
                SessionReply { outputs, action: SessionAction::Continue }
            },
            ReceivedCommand::IsReady => {
                let mut outputs: Vec<SentCommand> = Vec::new();
                outputs.push(SentCommand::ReadyOk);
                proof {
                    assert(outputs@ =~= seq![SentCommand::ReadyOk]);
                }
                SessionReply { outputs, action: SessionAction::Continue }
            },
            ReceivedCommand::UciNewGame => {
                self.reset();
                SessionReply { outputs: Vec::new(), action: SessionAction::Continue }
            },
            ReceivedCommand::Position { startpos, fen, moves } => {
                let base: Option<chess::Board> = if *startpos {
                    Some(self.initial)
                } else {
                    match fen {
                        Some(f) => if fen_has_both_kings(f) && fen_placement_within_board(f) {
                            board_from_fen(f)
                        } else {
                            None
                        },
                        None => None,
                    }
                };
                match base {
                    Some(b) => match replay_moves(&b, moves) {
                        Some(reached) => {
                            self.board = reached;
                            self.state = SessionState::PositionSet;
                        },
                        None => {},
                    },
                    None => {},
                }
                SessionReply { outputs: Vec::new(), action: SessionAction::Continue }
            },
            ReceivedCommand::Go { .. } => {
                self.state = SessionState::AwaitingDecision;
                SessionReply { outputs: Vec::new(), action: SessionAction::Decide }
            },
            ReceivedCommand::Quit => {
                self.state = SessionState::Terminated;
                SessionReply { outputs: Vec::new(), action: SessionAction::Terminate }
            },
            _ => SessionReply { outputs: Vec::new(), action: SessionAction::Continue },
        }
    }

    /// Plays the chosen move on the board and gives back the reply line
    /// that announces it; the session then idles until the next
    /// directive.  The move must be legal in the current position, which
    /// every policy's contract provides.
    pub fn apply_decision(&mut self, chosen: &chess::ChessMove) -> (r: SentCommand)
        requires
            board_legal_moves(old(self).board).contains(*chosen),
        ensures
            final(self).board == board_after(old(self).board, *chosen),
            final(self).state == SessionState::Idle,
            final(self).same_identity(*old(self)),
            r matches SentCommand::BestMove(t) && t@ == move_text(*chosen),
    {
        self.board = apply_move(&self.board, chosen);
        self.state = SessionState::Idle;
        SentCommand::BestMove(move_uci_text(chosen))
    }
}

/// Replays the moves on the base position, each checked for legality on
/// the position it is played from; nothing as soon as one is illegal.
fn replay_moves(base: &chess::Board, moves: &Vec<MoveCoords>) -> (r: Option<chess::Board>)
    ensures
        r == replay_legal(*base, moves@),
{
    let mut cur = *base;
    let ghost mseq = moves@;
    proof {
        assert(mseq.skip(0) =~= mseq);
    }
    for i in 0..moves.len()
        invariant
            mseq == moves@,
            replay_legal(*base, mseq) == replay_legal(cur, mseq.skip(i as int)),
    {
        proof {
            assert(mseq.skip(i as int)[0] == mseq[i as int]);
            assert(mseq.skip(i as int).drop_first() =~= mseq.skip(i + 1));
        }
        let m = make_move(&moves[i]);
        let legal_here = legal_moves(&cur);
        if !contains_move(&legal_here, &m) {
            proof {
                assert(!board_legal_moves(cur).contains(chess_move_of(mseq[i as int])));
                assert(replay_legal(cur, mseq.skip(i as int)) is None);
            }
            return None;
        }
        cur = apply_move(&cur, &m);
    }
    proof {
        assert(mseq.skip(moves@.len() as int) =~= Seq::<MoveCoords>::empty());
    }
    Some(cur)
}

/// Whether the move stands among the given ones.
fn contains_move(moves: &Vec<chess::ChessMove>, m: &chess::ChessMove) -> (r: bool)
    ensures
        r == moves@.contains(*m),
{
    for i in 0..moves.len()
        invariant
            forall|j: int| 0 <= j < i ==> moves@[j] != *m,
    {
        if move_eq(&moves[i], m) {
            proof {
                assert(moves@[i as int] == *m);
            }
            return true;
        }
    }
    false
}

/// Copies a run of bytes.
fn clone_bytes(v: &Vec<u8>) -> (r: Vec<u8>)
    ensures
        r@ == v@,
{
    let mut r: Vec<u8> = Vec::new();
    for i in 0..v.len()
        invariant
            r@ == v@.subrange(0, i as int),
    {
        proof {
            assert(v@.subrange(0, i + 1) =~= v@.subrange(0, i as int).push(v@[i as int]));
        }
        r.push(v[i]);
    }
    proof {
        assert(v@.subrange(0, v@.len() as int) =~= v@);
    }
    r
}

} // verus!
