//! The per-move evaluation pipeline.
//!
//! For every legal move of a position the pipeline produces a score.  A
//! move that ends the game on the spot is scored immediately: delivering
//! checkmate is a mate in zero, reaching stalemate a draw in zero.  Every
//! other move leads to an ongoing position whose verdict must come from
//! the external engine; the engine judges it from the opponent's seat, so
//! the reported score is negated before it is attached to the move.
//!
//! The shell that owns the engine subprocess collects those verdicts; the
//! functions here say exactly what the evaluation set looks like once they
//! are in hand.

use vstd::prelude::*;

use crate::board::{
    apply_move, board_after, board_legal_moves, board_status, legal_moves, status, GameStatus,
};
use crate::protocol::{CommandView, ReceivedCommand, SentCommand, parse_received, spec_parse};
use crate::score::{reorders, Score, ScoredMove};

verus! {

/// The fixed part of one candidate move's evaluation: either the game
/// ended on the spot and the score is already known, or the resulting
/// position must be put to the external engine.
#[derive(Debug, Copy, Clone, PartialEq, Eq)]
pub enum MoveOutcome {
    /// The move finishes the game; its score is settled locally.
    Finished(Score),
    /// The move leads to this ongoing position, whose verdict the
    /// external engine must supply.
    NeedsEngine(chess::Board),
}

/// One legal move together with what is known of it before the external
/// engine has spoken.
#[derive(Debug, Copy, Clone, PartialEq, Eq)]
pub struct PendingEval {
    pub chess_move: chess::ChessMove,
    pub outcome: MoveOutcome,
}

/// A misbehaviour of the external engine, or of the shell feeding its
/// verdicts back in.
#[derive(Debug, Copy, Clone, PartialEq, Eq, Structural)]
pub enum EngineFault {
    /// The engine announced its best move without ever reporting a score.
    MissingScore,
    /// The number of verdicts handed back does not match the number of
    /// ongoing positions that were to be judged.
    WrongVerdictCount,
    /// The engine asked to shut down in the middle of an evaluation.
    EngineQuit,
    /// The engine stopped talking without ever announcing a best move.
    NoBestMove,
}

impl PendingEval {
    /// What the classification of one legal move must look like: the move
    /// itself, and an outcome matching the status of the position it
    /// reaches.
    pub open spec fn classifies(self, b: chess::Board, m: chess::ChessMove) -> bool {
        &&& self.chess_move == m
        &&& match board_status(board_after(b, m)) {
            GameStatus::Checkmate => self.outcome == MoveOutcome::Finished(Score::OurMate(0)),
            GameStatus::Stalemate => self.outcome == MoveOutcome::Finished(Score::Stalemate(0)),
            GameStatus::Ongoing => self.outcome == MoveOutcome::NeedsEngine(board_after(b, m)),
        }
    }
}

/// How many of the classified moves still await an engine verdict.
pub open spec fn needs_engine_count(s: Seq<PendingEval>) -> nat
    decreases s.len(),
{
    if s.len() == 0 {
        0
    } else {
        (match s[0].outcome {
            MoveOutcome::NeedsEngine(_) => 1 as nat,
            MoveOutcome::Finished(_) => 0 as nat,
        }) + needs_engine_count(s.drop_first())
    }
}

/// Splitting a run of classified moves splits its count of open verdicts.
pub proof fn lemma_needs_count_add(a: Seq<PendingEval>, b: Seq<PendingEval>)
    ensures
        needs_engine_count(a + b) == needs_engine_count(a) + needs_engine_count(b),
    decreases a.len(),
{
    if a.len() == 0 {
        assert(a + b =~= b);
    } else {
        assert((a + b).drop_first() =~= a.drop_first() + b);
        lemma_needs_count_add(a.drop_first(), b);
    }
}

/// The evaluation set once the engine's verdicts are in: each move keeps
/// its place; a settled score stands as it is, and the verdict for the
/// k-th ongoing position is negated — the engine judged it from the
/// opponent's seat — and attached to the move that reached it.
pub open spec fn combined_scores(pending: Seq<PendingEval>, verdicts: Seq<Score>) -> Seq<
    ScoredMove,
> {
    Seq::new(
        pending.len(),
        |i: int|
            ScoredMove {
                chess_move: pending[i].chess_move,
                score: match pending[i].outcome {
                    MoveOutcome::Finished(s) => s,
                    MoveOutcome::NeedsEngine(_) => verdicts[needs_engine_count(
                        pending.subrange(0, i),
                    ) as int].negated(),
                },
            },
    )
}

/// Enumerates the legal moves of `board` and classifies each by the
/// status of the position it reaches: game-ending moves are scored on the
/// spot, the rest are marked as needing the external engine's verdict.
pub fn classify_legal_moves(board: &chess::Board) -> (r: Vec<PendingEval>)
    ensures
        r@.len() == board_legal_moves(*board).len(),
        forall|i: int|
            0 <= i < r@.len() ==> (#[trigger] r@[i]).classifies(
                *board,
                board_legal_moves(*board)[i],
            ),
{
    let moves = legal_moves(board);
    let mut r: Vec<PendingEval> = Vec::new();
    for i in 0..moves.len()
        invariant
            moves@ == board_legal_moves(*board),
            r@.len() == i,
            forall|j: int|
                0 <= j < i ==> (#[trigger] r@[j]).classifies(*board, board_legal_moves(*board)[j]),
    {
        let chess_move = moves[i];
        let next = apply_move(board, &chess_move);
        let outcome = match status(&next) {
            GameStatus::Ongoing => MoveOutcome::NeedsEngine(next),
            GameStatus::Checkmate => MoveOutcome::Finished(Score::OurMate(0)),
            GameStatus::Stalemate => MoveOutcome::Finished(Score::Stalemate(0)),
        };
        r.push(PendingEval { chess_move, outcome });
    }
    r
}

/// Attaches the engine's verdicts to the classified moves, negating each
/// verdict into the mover's perspective.  Fails exactly when the number
/// of verdicts differs from the number of ongoing positions.
pub fn evaluate_possible_moves_unsorted(pending: &Vec<PendingEval>, verdicts: &Vec<Score>) -> (r:
    Result<Vec<ScoredMove>, EngineFault>)
    ensures
        r is Ok <==> verdicts@.len() == needs_engine_count(pending@),
        r matches Ok(out) ==> out@ == combined_scores(pending@, verdicts@),
        r is Err ==> r == Result::<Vec<ScoredMove>, EngineFault>::Err(
            EngineFault::WrongVerdictCount,
        ),
{
    proof {
        assert(pending@.subrange(0, pending@.len() as int) =~= pending@);
    }
    let mut out: Vec<ScoredMove> = Vec::new();
    let mut used: usize = 0;
    for i in 0..pending.len()
        invariant
            out@.len() == i,
            used <= verdicts@.len(),
            used == needs_engine_count(pending@.subrange(0, i as int)),
            forall|j: int| 0 <= j < i ==> out@[j] == combined_scores(pending@, verdicts@)[j],
    {
        proof {
            assert(pending@.subrange(0, i as int) + pending@.subrange(i as int, i + 1)
                =~= pending@.subrange(0, i + 1));
            lemma_needs_count_add(
                pending@.subrange(0, i as int),
                pending@.subrange(i as int, i + 1),
            );
            assert(pending@.subrange(i as int, i + 1).drop_first() =~= Seq::<
                PendingEval,
            >::empty());
            assert(pending@.subrange(i as int, i + 1)[0] == pending@[i as int]);
            assert(needs_engine_count(pending@.subrange(i as int, i + 1))
                == match pending@[i as int].outcome {
                MoveOutcome::NeedsEngine(_) => 1 as nat,
                MoveOutcome::Finished(_) => 0 as nat,
            }) by {
                reveal_with_fuel(needs_engine_count, 2);
            }
        }
        let score = match &pending[i].outcome {
            MoveOutcome::Finished(s) => *s,
            MoveOutcome::NeedsEngine(_) => {
                if used >= verdicts.len() {
                    proof {
                        let rest = pending@.subrange(i as int, pending@.len() as int);
                        assert(pending@.subrange(0, i as int) + rest =~= pending@);
                        lemma_needs_count_add(pending@.subrange(0, i as int), rest);
                        assert(rest[0] == pending@[i as int]);
                        assert(needs_engine_count(rest) >= 1);
                    }
                    return Err(EngineFault::WrongVerdictCount);
                }
                let v = verdicts[used].neg();
                used = used + 1;
                v
            },
        };
        out.push(ScoredMove { chess_move: pending[i].chess_move, score });
    }
    if used != verdicts.len() {
        return Err(EngineFault::WrongVerdictCount);
    }
    proof {
        assert(out@ =~= combined_scores(pending@, verdicts@));
    }
    Ok(out)
}

/// An evaluation set in ascending score order, worst move first.
pub open spec fn scored_sorted(s: Seq<ScoredMove>) -> bool {
    forall|i: int, j: int| 0 <= i < j < s.len() ==> s[i].score.le(s[j].score)
}

/// `r` rearranges `s` without touching it otherwise, and moves of equal
/// score keep their original relative order.
pub open spec fn stable_reordering(p: Seq<int>, r: Seq<ScoredMove>, s: Seq<ScoredMove>) -> bool {
    &&& reorders(p, r, s)
    &&& forall|i: int, j: int|
        0 <= i < j < r.len() && r[i].score == r[j].score ==> p[i] < p[j]
}

/// Sorts an evaluation set ascending by score; ties keep the order in
/// which the moves were enumerated.
pub fn sort_scored_moves(moves: &Vec<ScoredMove>) -> (r: Vec<ScoredMove>)
    ensures
        scored_sorted(r@),
        exists|p: Seq<int>| stable_reordering(p, r@, moves@),
{
    let mut keys: Vec<Score> = Vec::new();
    for i in 0..moves.len()
        invariant
            keys@.len() == i,
            forall|j: int| 0 <= j < i ==> keys@[j] == moves@[j].score,
    {
        keys.push(moves[i].score);
    }
    let order = crate::score::sorted_order_for(&keys);
    let mut r: Vec<ScoredMove> = Vec::new();
    let ghost p = order@.map_values(|u: usize| u as int);
    for k in 0..order.len()
        invariant
            keys@.len() == moves@.len(),
            forall|j: int| 0 <= j < keys@.len() ==> keys@[j] == moves@[j].score,
            order@.len() == moves@.len(),
            forall|i: int| 0 <= i < order@.len() ==> #[trigger] order@[i] < moves@.len(),
            r@.len() == k,
            forall|i: int| 0 <= i < k ==> r@[i] == moves@[order@[i] as int],
    {
        r.push(moves[order[k]]);
    }
    proof {
        assert(stable_reordering(p, r@, moves@)) by {
            assert forall|j: int| 0 <= j < moves@.len() implies #[trigger] p.contains(j) by {
                assert(crate::score::index_appears(order@, j));
                let w = choose|w: int| 0 <= w < order@.len() && order@[w] as int == j;
                assert(p[w] == j);
            }
            assert forall|i: int, j: int|
                0 <= i < p.len() && 0 <= j < p.len() && i != j implies p[i] != p[j] by {
                assert(order@[i] != order@[j]);
            }
            assert forall|i: int, j: int|
                0 <= i < j < r@.len() && r@[i].score == r@[j].score implies p[i] < p[j] by {
                assert(keys@[order@[i] as int] == keys@[order@[j] as int]);
            }
        }
        assert(scored_sorted(r@)) by {
            assert forall|i: int, j: int| 0 <= i < j < r@.len() implies r@[i].score.le(
                r@[j].score,
            ) by {
                assert(keys@[order@[i] as int].le(keys@[order@[j] as int]));
            }
        }
    }
    r
}

/// A reordering never makes two entries share a move: if the moves were
/// pairwise distinct before, they are after.
pub proof fn lemma_reordering_keeps_distinct(p: Seq<int>, r: Seq<ScoredMove>, s: Seq<ScoredMove>)
    requires
        reorders(p, r, s),
        forall|i: int, j: int|
            0 <= i < j < s.len() ==> (#[trigger] s[i]).chess_move != (#[trigger] s[j]).chess_move,
    ensures
        forall|i: int, j: int|
            0 <= i < j < r.len() ==> (#[trigger] r[i]).chess_move != (#[trigger] r[j]).chess_move,
{
    assert forall|i: int, j: int|
        0 <= i < j < r.len() implies (#[trigger] r[i]).chess_move != (
    #[trigger] r[j]).chess_move by {
        assert(r[i] == s[p[i]]);
        assert(r[j] == s[p[j]]);
        assert(p[i] != p[j]);
        if p[i] < p[j] {
            assert(s[p[i]].chess_move != s[p[j]].chess_move);
        } else {
            assert(s[p[j]].chess_move != s[p[i]].chess_move);
        }
    }
}

/// The full evaluation pipeline in one statement: the sorted evaluation
/// set of a position holds exactly one entry per legal move, and each
/// entry's score matches what actually happens on the board — a settled
/// mate or draw keeps its immediate score, and an ongoing position
/// carries the engine's verdict on it, negated into the mover's
/// perspective.
pub proof fn lemma_evaluation_matches_position(
    b: chess::Board,
    pending: Seq<PendingEval>,
    verdicts: Seq<Score>,
    sorted: Seq<ScoredMove>,
    p: Seq<int>,
)
    requires
        pending.len() == board_legal_moves(b).len(),
        forall|i: int|
            0 <= i < pending.len() ==> (#[trigger] pending[i]).classifies(
                b,
                board_legal_moves(b)[i],
            ),
        stable_reordering(p, sorted, combined_scores(pending, verdicts)),
    ensures
        sorted.len() == board_legal_moves(b).len(),
        forall|i: int|
            0 <= i < sorted.len() ==> match board_status(
                board_after(b, (#[trigger] sorted[i]).chess_move),
            ) {
                GameStatus::Checkmate => sorted[i].score == Score::OurMate(0),
                GameStatus::Stalemate => sorted[i].score == Score::Stalemate(0),
                GameStatus::Ongoing => sorted[i].score == verdicts[needs_engine_count(
                    pending.subrange(0, p[i]),
                ) as int].negated(),
            },
{
    let combined = combined_scores(pending, verdicts);
    assert forall|i: int| 0 <= i < sorted.len() implies match board_status(
        board_after(b, (#[trigger] sorted[i]).chess_move),
    ) {
        GameStatus::Checkmate => sorted[i].score == Score::OurMate(0),
        GameStatus::Stalemate => sorted[i].score == Score::Stalemate(0),
        GameStatus::Ongoing => sorted[i].score == verdicts[needs_engine_count(
            pending.subrange(0, p[i]),
        ) as int].negated(),
    } by {
        let j = p[i];
        assert(sorted[i] == combined[j]);
        assert(pending[j].classifies(b, board_legal_moves(b)[j]));
        assert(combined[j].chess_move == pending[j].chess_move);
    }
}

/// Evaluates every legal move of a position, given the engine's verdicts
/// for the ongoing ones: the combined evaluation set, sorted ascending by
/// score with ties in enumeration order.  Fails exactly when the verdict
/// count does not match.
pub fn evaluate_possible_moves(pending: &Vec<PendingEval>, verdicts: &Vec<Score>) -> (r: Result<
    Vec<ScoredMove>,
    EngineFault,
>)
    ensures
        r is Ok <==> verdicts@.len() == needs_engine_count(pending@),
        r matches Ok(out) ==> scored_sorted(out@) && exists|p: Seq<int>|
            stable_reordering(p, out@, combined_scores(pending@, verdicts@)),
        r is Err ==> r == Result::<Vec<ScoredMove>, EngineFault>::Err(
            EngineFault::WrongVerdictCount,
        ),
{
    let unsorted = match evaluate_possible_moves_unsorted(pending, verdicts) {
        Ok(v) => v,
        Err(fault) => {
            return Err(fault);
        },
    };
    Ok(sort_scored_moves(&unsorted))
}

/// The protocol driver's configuration: how hard the external engine is
/// told to search.  The pipes themselves live outside the library; the
/// driver says which lines to send and what each answer means.
#[derive(Debug, Copy, Clone)]
pub struct Stockfish {
    nodes_to_search: Option<u64>,
}

/// What is known in the middle of one evaluation exchange: the last
/// score the engine has reported, which alone is authoritative.
#[derive(Debug, Copy, Clone)]
pub struct EvalState {
    pub last_score: Option<Score>,
}

/// What one answer line asks of the shell running the exchange.
#[derive(Debug, Copy, Clone, PartialEq, Eq)]
pub enum EvalAction {
    /// Nothing yet; keep reading.
    Running,
    /// A progress report: pass the line through to the front end, and
    /// keep reading.
    Forward,
    /// The exchange is over; this is the evaluation.
    Finished(ScoredMove),
    /// The engine announced a best move without ever reporting a score.
    MissingScore,
    /// The engine asked to shut down.
    Closed,
}

/// What one answer line does to the exchange: a score report overwrites
/// the score on record and is passed through; a best move closes the
/// exchange with the score on record, or fails without one; a quit ends
/// everything; anything else is ignored.
pub open spec fn spec_eval_step(last: Option<Score>, cmd: CommandView) -> (Option<Score>, EvalAction) {
    match cmd {
        CommandView::Info { cp, mate, raw } => (
            if cp is Some {
                Some(Score::Centipawns(cp.unwrap()))
            } else if mate is Some {
                Some(Score::spec_from_mate(mate.unwrap()))
            } else {
                last
            },
            EvalAction::Forward,
        ),
        CommandView::BestMove { chess_move } => match last {
            Some(s) => (
                last,
                EvalAction::Finished(
                    ScoredMove { chess_move: crate::board::chess_move_of(chess_move), score: s },
                ),
            ),
            None => (last, EvalAction::MissingScore),
        },
        CommandView::Quit => (last, EvalAction::Closed),
        _ => (last, EvalAction::Running),
    }
}

/// The verdict of a whole recorded exchange: the lines are stepped
/// through in order until one closes the evaluation; a transcript that
/// never does is itself a fault.
pub open spec fn spec_evaluate(last: Option<Score>, lines: Seq<Seq<u8>>) -> Result<
    ScoredMove,
    EngineFault,
>
    decreases lines.len(),
{
    if lines.len() == 0 {
        Err(EngineFault::NoBestMove)
    } else {
        let step = spec_eval_step(last, spec_parse(lines[0]));
        match step.1 {
            EvalAction::Finished(sm) => Ok(sm),
            EvalAction::MissingScore => Err(EngineFault::MissingScore),
            EvalAction::Closed => Err(EngineFault::EngineQuit),
            _ => spec_evaluate(step.0, lines.drop_first()),
        }
    }
}

impl EvalState {
    /// A fresh exchange: no score on record yet.
    pub fn new() -> (r: EvalState)
        ensures
            r.last_score is None,
    {
        EvalState { last_score: None }
    }
}

impl Stockfish {
    /// A driver that bounds each search by the given node budget, or
    /// not at all.
    pub fn new(nodes_to_search: Option<u64>) -> (r: Stockfish)
        ensures
            r.spec_nodes() == nodes_to_search,
    {
        Stockfish { nodes_to_search }
    }

    /// The configured node budget.
    pub closed spec fn spec_nodes(self) -> Option<u64> {
        self.nodes_to_search
    }

    /// The two lines that ask the engine for a verdict on a position:
    /// put it on the board by its Forsyth-Edwards record, then search
    /// under the configured budget.
    pub fn evaluation_requests(&self, board: &chess::Board) -> (r: Vec<SentCommand>)
        ensures
            r@.len() == 2,
            r@[0] matches SentCommand::Position { fen } && fen@ == crate::board::fen_text(*board),
            r@[1] == (SentCommand::Go { nodes: self.spec_nodes() }),
    {
        let fen = crate::board::board_fen(board);
        let mut r: Vec<SentCommand> = Vec::new();
        r.push(SentCommand::Position { fen });
        r.push(SentCommand::Go { nodes: self.nodes_to_search });
        r
    }

    /// Steps one answer line of the exchange.
    pub fn eval_step(&self, st: &EvalState, cmd: &ReceivedCommand) -> (r: (EvalState, EvalAction))
        ensures
            (r.0.last_score, r.1) == spec_eval_step(st.last_score, cmd@),
    {
        match cmd {
            ReceivedCommand::Info { cp, mate, .. } => {
                let next = if let Some(v) = cp {
                    Some(Score::Centipawns(*v))
                } else if let Some(m) = mate {
                    Some(Score::from_mate(*m))
                } else {
                    st.last_score
                };
                (EvalState { last_score: next }, EvalAction::Forward)
            },
            ReceivedCommand::BestMove { chess_move } => match st.last_score {
                Some(score) => {
                    let made = crate::board::make_move(chess_move);
                    (
                        EvalState { last_score: st.last_score },
                        EvalAction::Finished(ScoredMove { chess_move: made, score }),
                    )
                },
                None => (EvalState { last_score: st.last_score }, EvalAction::MissingScore),
            },
            ReceivedCommand::Quit => (EvalState { last_score: st.last_score }, EvalAction::Closed),
            _ => (EvalState { last_score: st.last_score }, EvalAction::Running),
        }
    }

    /// Evaluates a position from the recorded answer lines of one
    /// exchange: the last score reported before the best-move line is
    /// the verdict, paired with the move the engine named.
    pub fn evaluate_position(&self, lines: &Vec<Vec<u8>>) -> (r: Result<ScoredMove, EngineFault>)
        ensures
            r == spec_evaluate(None, crate::protocol::views_of(lines@)),
    {
        let ghost v = crate::protocol::views_of(lines@);
        let mut st = EvalState::new();
        proof {
            assert(v.skip(0) =~= v);
        }
        for i in 0..lines.len()
            invariant
                v == crate::protocol::views_of(lines@),
                spec_evaluate(None, v) == spec_evaluate(st.last_score, v.skip(i as int)),
        {
            proof {
                assert(v[i as int] == lines@[i as int]@);
                assert(v.skip(i as int)[0] == v[i as int]);
                assert(v.skip(i as int).drop_first() =~= v.skip(i + 1));
            }
            let cmd = parse_received(lines[i].as_slice());
            let (next, action) = self.eval_step(&st, &cmd);
            match action {
                EvalAction::Finished(sm) => {
                    return Ok(sm);
                },
                EvalAction::MissingScore => {
                    return Err(EngineFault::MissingScore);
                },
                EvalAction::Closed => {
                    return Err(EngineFault::EngineQuit);
                },
                _ => {},
            }
            st = next;
        }
        proof {
            assert(v.skip(lines@.len() as int) =~= Seq::<Seq<u8>>::empty());
        }
        Err(EngineFault::NoBestMove)
    }
}

} // verus!
