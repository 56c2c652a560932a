//! The decision policies: pure selection functions that turn an evaluated
//! set of candidate moves — or the bare move list — into the single move
//! to play.
//!
//! Every policy that reads scores takes the evaluation set produced by the
//! pipeline, sorted ascending, worst move first.  Invoking a policy on an
//! empty set is a caller-contract violation: the session must not ask for
//! a move once the game is finished.

use vstd::prelude::*;

use crate::board::{
    apply_move, board_after, board_checkers, board_enemy_pieces, board_legal_moves,
    board_mover_pieces, board_status, checkers_count, enemy_piece_count, legal_moves,
    mover_piece_count, status, GameStatus,
};
use crate::score::{Score, ScoredMove};
use crate::stockfish::{
    combined_scores, lemma_reordering_keeps_distinct, scored_sorted, stable_reordering,
    PendingEval,
};
use crate::text::{eq_ignore_case, name_matches};
use vstd::string::StringSliceAdditionalSpecFns;

verus! {

/// The selectable decision policies.
#[derive(Debug, Copy, Clone, PartialEq, Eq, Structural)]
pub enum EngineKind {
    Random,
    Pacifist,
    Stockfish,
    Mediocrefish,
    Drawfish,
    Worstfish,
    Scoville,
}

/// The policy a given name selects, compared without regard to ASCII
/// case: each policy answers to a handful of aliases.
pub open spec fn spec_kind_of(s: Seq<u8>) -> Option<EngineKind> {
    if name_matches(s, "rand".spec_bytes()) || name_matches(s, "random".spec_bytes()) {
        Some(EngineKind::Random)
    } else if name_matches(s, "pacifist".spec_bytes()) || name_matches(s, "pacifism".spec_bytes())
        || name_matches(s, "hippie".spec_bytes()) {
        Some(EngineKind::Pacifist)
    } else if name_matches(s, "boring".spec_bytes()) || name_matches(s, "dummy".spec_bytes())
        || name_matches(s, "passthrough".spec_bytes()) || name_matches(
        s,
        "stockfish".spec_bytes(),
    ) {
        Some(EngineKind::Stockfish)
    } else if name_matches(s, "meh".spec_bytes()) || name_matches(s, "mediocre".spec_bytes())
        || name_matches(s, "mediocrefish".spec_bytes()) {
        Some(EngineKind::Mediocrefish)
    } else if name_matches(s, "draw".spec_bytes()) || name_matches(s, "drawfish".spec_bytes())
        || name_matches(s, "stale".spec_bytes()) || name_matches(s, "stalemate".spec_bytes()) {
        Some(EngineKind::Drawfish)
    } else if name_matches(s, "worst".spec_bytes()) || name_matches(s, "worstfish".spec_bytes()) {
        Some(EngineKind::Worstfish)
    } else if name_matches(s, "scoville".spec_bytes()) || name_matches(s, "mix".spec_bytes()) {
        Some(EngineKind::Scoville)
    } else {
        None
    }
}

impl EngineKind {
    /// Resolves a policy name, ignoring ASCII case; an unrecognized name
    /// comes back unchanged as the error.
    pub fn try_from<'a>(name: &'a str) -> (r: Result<EngineKind, &'a str>)
        ensures
            spec_kind_of(name.spec_bytes()) matches Some(k) ==> r == Ok::<EngineKind, &'a str>(k),
            spec_kind_of(name.spec_bytes()) is None ==> r == Err::<EngineKind, &'a str>(name),
    {
        let b = name.as_bytes();
        if eq_ignore_case(b, "rand".as_bytes()) || eq_ignore_case(b, "random".as_bytes()) {
            Ok(EngineKind::Random)
        } else if eq_ignore_case(b, "pacifist".as_bytes()) || eq_ignore_case(
            b,
            "pacifism".as_bytes(),
        ) || eq_ignore_case(b, "hippie".as_bytes()) {
            Ok(EngineKind::Pacifist)
        } else if eq_ignore_case(b, "boring".as_bytes()) || eq_ignore_case(b, "dummy".as_bytes())
            || eq_ignore_case(b, "passthrough".as_bytes()) || eq_ignore_case(
            b,
            "stockfish".as_bytes(),
        ) {
            Ok(EngineKind::Stockfish)
        } else if eq_ignore_case(b, "meh".as_bytes()) || eq_ignore_case(b, "mediocre".as_bytes())
            || eq_ignore_case(b, "mediocrefish".as_bytes()) {
            Ok(EngineKind::Mediocrefish)
        } else if eq_ignore_case(b, "draw".as_bytes()) || eq_ignore_case(b, "drawfish".as_bytes())
            || eq_ignore_case(b, "stale".as_bytes()) || eq_ignore_case(
            b,
            "stalemate".as_bytes(),
        ) {
            Ok(EngineKind::Drawfish)
        } else if eq_ignore_case(b, "worst".as_bytes()) || eq_ignore_case(
            b,
            "worstfish".as_bytes(),
        ) {
            Ok(EngineKind::Worstfish)
        } else if eq_ignore_case(b, "scoville".as_bytes()) || eq_ignore_case(
            b,
            "mix".as_bytes(),
        ) {
            Ok(EngineKind::Scoville)
        } else {
            Err(name)
        }
    }

    /// Every selectable policy, in a fixed order.
    pub fn variants() -> (r: Vec<EngineKind>)
        ensures
            r@ == seq![
                EngineKind::Random,
                EngineKind::Pacifist,
                EngineKind::Stockfish,
                EngineKind::Mediocrefish,
                EngineKind::Drawfish,
                EngineKind::Worstfish,
                EngineKind::Scoville,
            ],
    {
        let mut r: Vec<EngineKind> = Vec::new();
        r.push(EngineKind::Random);
        r.push(EngineKind::Pacifist);
        r.push(EngineKind::Stockfish);
        r.push(EngineKind::Mediocrefish);
        r.push(EngineKind::Drawfish);
        r.push(EngineKind::Worstfish);
        r.push(EngineKind::Scoville);
        proof {
            assert(r@ =~= seq![
                EngineKind::Random,
                EngineKind::Pacifist,
                EngineKind::Stockfish,
                EngineKind::Mediocrefish,
                EngineKind::Drawfish,
                EngineKind::Worstfish,
                EngineKind::Scoville,
            ]);
        }
        r
    }
}

/// Plays the external engine's preferred line: the top-ranked move.
#[derive(Debug)]
pub struct StockfishEngine;

/// Plays the move the external engine likes least.
#[derive(Debug)]
pub struct WorstfishEngine;

/// Plays the middle move of the raw evaluation sequence.
#[derive(Debug)]
pub struct MediocrefishEngine;

/// Steers for a stalemate: remaps every score so that draws shine and
/// wins of any kind repel.
#[derive(Debug)]
pub struct DrawfishEngine;

/// Avoids violence: checkmate worst, capture next, check after that.
#[derive(Debug)]
pub struct PacifistEngine;

/// Picks a legal move uniformly at random, ignoring all scores.
#[derive(Debug)]
pub struct RandomEngine;

/// Blends the best move with a random one: a dial between the external
/// engine's full strength and pure chance.
#[derive(Debug)]
pub struct ScovilleEngine {
    percent: u8,
}

/// Relies on `rand::Rng::gen_range` over `rand::thread_rng`: some index
/// below the bound; nothing more is promised of a random draw.
#[verifier::external_body]
fn random_below(n: usize) -> (r: usize)
    requires
        n > 0,
    ensures
        r < n,
{
    rand::Rng::gen_range(&mut rand::thread_rng(), 0..n)
}

impl StockfishEngine {
    /// The top-ranked move: the last of the ascending evaluation set,
    /// which no other move out-scores.
    pub fn choose_move(&self, moves: &Vec<ScoredMove>) -> (r: chess::ChessMove)
        requires
            moves@.len() > 0,
            scored_sorted(moves@),
        ensures
            r == moves@.last().chess_move,
            forall|i: int| 0 <= i < moves@.len() ==> (#[trigger] moves@[i]).score.le(
                moves@.last().score,
            ),
    {
        proof {
            assert forall|i: int| 0 <= i < moves@.len() implies (#[trigger] moves@[i]).score.le(
                moves@.last().score,
            ) by {
                if i < moves@.len() - 1 {
                    assert(moves@[i].score.le(moves@[moves@.len() - 1].score));
                }
            }
        }
        moves[moves.len() - 1].chess_move
    }
}

impl WorstfishEngine {
    /// The bottom-ranked move: the first of the ascending evaluation set,
    /// which out-scores no other move.
    pub fn choose_move(&self, moves: &Vec<ScoredMove>) -> (r: chess::ChessMove)
        requires
            moves@.len() > 0,
            scored_sorted(moves@),
        ensures
            r == moves@[0].chess_move,
            forall|i: int| 0 <= i < moves@.len() ==> moves@[0].score.le(
                (#[trigger] moves@[i]).score,
            ),
    {
        proof {
            assert forall|i: int| 0 <= i < moves@.len() implies moves@[0].score.le(
                (#[trigger] moves@[i]).score,
            ) by {
                if i > 0 {
                    assert(moves@[0].score.le(moves@[i].score));
                }
            }
        }
        moves[0].chess_move
    }
}

impl MediocrefishEngine {
    /// The structurally middle move: the entry at half the length of the
    /// raw, unsorted evaluation sequence.
    pub fn choose_move(&self, moves: &Vec<ScoredMove>) -> (r: chess::ChessMove)
        requires
            moves@.len() > 0,
        ensures
            r == moves@[moves@.len() as int / 2].chess_move,
    {
        moves[moves.len() / 2].chess_move
    }
}

/// The pivot of the stalemate-seeker's remapping.
pub const BIG_VALUE: i32 = 1_000_000_000;

/// How attractive a score looks to the stalemate-seeker: big gains map
/// small and small gains map large, losses stay as they are, a stalemate
/// towers over everything — the sooner the better — and a checkmate for
/// either side repels outright.
pub open spec fn drawfish_value(s: Score) -> int {
    match s {
        Score::Centipawns(v) => if v > 0 {
            BIG_VALUE as int / v as int
        } else {
            v as int
        },
        Score::Stalemate(moves) => BIG_VALUE - moves,
        Score::OurMate(_) => -BIG_VALUE,
        Score::TheirMate(_) => -BIG_VALUE,
    }
}

impl DrawfishEngine {
    /// The move whose remapped score is greatest, ties broken toward the
    /// last of the evaluation set.
    pub fn choose_move(&self, moves: &Vec<ScoredMove>) -> (r: chess::ChessMove)
        requires
            moves@.len() > 0,
        ensures
            exists|k: int|
                0 <= k < moves@.len() && r == moves@[k].chess_move && (forall|i: int|
                    0 <= i < moves@.len() ==> drawfish_value((#[trigger] moves@[i]).score)
                        <= drawfish_value(moves@[k].score)) && (forall|i: int|
                    k < i < moves@.len() ==> drawfish_value((#[trigger] moves@[i]).score)
                        < drawfish_value(moves@[k].score)),
    {
        let mut values: Vec<i32> = Vec::new();
        for i in 0..moves.len()
            invariant
                values@.len() == i,
                forall|j: int| 0 <= j < i ==> values@[j] as int == drawfish_value(
                    (#[trigger] moves@[j]).score,
                ),
        {
            let v = match moves[i].score {
                Score::Centipawns(v) => if v > 0 {
                    BIG_VALUE / v
                } else {
                    v
                },
                Score::Stalemate(m) => BIG_VALUE - (m as i32),
                Score::OurMate(_) => 0 - BIG_VALUE,
                Score::TheirMate(_) => 0 - BIG_VALUE,
            };
            values.push(v);
        }
        let k = last_argmax(&values);
        moves[k].chess_move
    }
}

/// How peaceful a move is, judged from the position before it and the one
/// after it: ending the game by checkmate is worst, taking a piece next,
/// giving check after that; a quiet move is neutral and a stalemate is the
/// most peaceful outcome of all.  The mover's opponent is the side not to
/// move before the move and the side to move after it; a capture shows as
/// a drop in that side's piece count.
pub open spec fn pacifist_move_value(b: chess::Board, m: chess::ChessMove) -> int {
    match board_status(board_after(b, m)) {
        GameStatus::Checkmate => -10,
        GameStatus::Stalemate => 10,
        GameStatus::Ongoing => spec_score_move(
            board_enemy_pieces(b),
            board_mover_pieces(board_after(b, m)),
            board_checkers(board_after(b, m)),
        ),
    }
}

/// The quiet-move scale: a capture counts -5, a check -1, anything else 0.
pub open spec fn spec_score_move(pieces_before: u32, pieces_after: u32, checkers: u32) -> int {
    if pieces_after < pieces_before {
        -5
    } else if checkers > 0 {
        -1
    } else {
        0
    }
}

/// Scores one speculative quiet move by the pacifist's local rule.
fn score_move(pieces_before: u32, pieces_after: u32, checkers: u32) -> (r: i32)
    ensures
        r as int == spec_score_move(pieces_before, pieces_after, checkers),
{
    if pieces_after < pieces_before {
        -5
    } else if checkers > 0 {
        -1
    } else {
        0
    }
}

impl PacifistEngine {
    /// The least violent legal move, ties broken toward the last
    /// enumerated.  Ignores the external engine's scores entirely.
    pub fn choose_move(&self, board: &chess::Board) -> (r: chess::ChessMove)
        requires
            board_legal_moves(*board).len() > 0,
        ensures
            exists|k: int|
                0 <= k < board_legal_moves(*board).len() && r == board_legal_moves(*board)[k] && (
                forall|i: int|
                    0 <= i < board_legal_moves(*board).len() ==> pacifist_move_value(
                        *board,
                        #[trigger] board_legal_moves(*board)[i],
                    ) <= pacifist_move_value(*board, board_legal_moves(*board)[k])) && (forall|
                    i: int
                |
                    k < i < board_legal_moves(*board).len() ==> pacifist_move_value(
                        *board,
                        #[trigger] board_legal_moves(*board)[i],
                    ) < pacifist_move_value(*board, board_legal_moves(*board)[k])),
    {
        let moves = legal_moves(board);
        let before = enemy_piece_count(board);
        let mut values: Vec<i32> = Vec::new();
        for i in 0..moves.len()
            invariant
                moves@ == board_legal_moves(*board),
                before == board_enemy_pieces(*board),
                values@.len() == i,
                forall|j: int| 0 <= j < i ==> values@[j] as int == pacifist_move_value(
                    *board,
                    #[trigger] moves@[j],
                ),
        {
            let next = apply_move(board, &moves[i]);
            let v = match status(&next) {
                GameStatus::Checkmate => -10,
                GameStatus::Stalemate => 10,
                GameStatus::Ongoing => score_move(
                    before,
                    mover_piece_count(&next),
                    checkers_count(&next),
                ),
            };
            values.push(v);
        }
        let k = last_argmax(&values);
        moves[k]
    }
}

impl RandomEngine {
    /// Some legal move, chosen uniformly at random; every score is
    /// ignored, and nothing beyond membership is promised.
    pub fn choose_move(&self, moves: &Vec<chess::ChessMove>) -> (r: chess::ChessMove)
        requires
            moves@.len() > 0,
        ensures
            exists|i: int| 0 <= i < moves@.len() && r == moves@[i],
    {
        let i = random_below(moves.len());
        let r = moves[i];
        proof {
            assert(r == moves@[i as int]);
        }
        r
    }
}

/// Whether one blended turn defers to the best move: exactly when the
/// uniform draw from below one hundred falls under the configured
/// percentage.
pub open spec fn scoville_picks_best(percent: u8, draw: usize) -> bool {
    (draw as int) < percent as int
}

/// Decides one blended turn from the dial and the uniform draw.
pub fn scoville_uses_best(percent: u8, draw: usize) -> (r: bool)
    ensures
        r == scoville_picks_best(percent, draw),
{
    draw < percent as usize
}

impl ScovilleEngine {
    /// Requires a whole-number percentage on the dial, zero to one
    /// hundred.
    pub fn new(percent: u8) -> (r: ScovilleEngine)
        requires
            percent <= 100,
        ensures
            r.spec_percent() == percent,
    {
        ScovilleEngine { percent }
    }

    /// The configured position of the dial.
    pub closed spec fn spec_percent(self) -> u8 {
        self.percent
    }

    /// With probability given by the dial, the best move of the
    /// evaluation set; otherwise a uniformly random member.  At one
    /// hundred percent the best move is certain; at zero it is never
    /// taken by preference, and every answer is a member of the set.
    pub fn choose_move(&self, moves: &Vec<ScoredMove>) -> (r: chess::ChessMove)
        requires
            moves@.len() > 0,
            scored_sorted(moves@),
        ensures
            exists|i: int| 0 <= i < moves@.len() && r == moves@[i].chess_move,
            self.spec_percent() == 100 ==> r == moves@.last().chess_move,
    {
        let draw = random_below(100);
        if scoville_uses_best(self.percent, draw) {
            let r = StockfishEngine.choose_move(moves);
            proof {
                assert(r == moves@[moves@.len() - 1].chess_move);
            }
            r
        } else {
            let i = random_below(moves.len());
            let r = moves[i].chess_move;
            proof {
                assert(r == moves@[i as int].chess_move);
            }
            r
        }
    }
}

/// At a zero dial the blend never defers to the best move; at a full dial
/// it always does.
pub proof fn lemma_scoville_extremes(draw: usize)
    requires
        draw < 100,
    ensures
        !scoville_picks_best(0, draw),
        scoville_picks_best(100, draw),
{
}

/// The index of the last greatest value: nothing exceeds it, and nothing
/// after it reaches it.
fn last_argmax(values: &Vec<i32>) -> (k: usize)
    requires
        values@.len() > 0,
    ensures
        k < values@.len(),
        forall|i: int| 0 <= i < values@.len() ==> (#[trigger] values@[i]) <= values@[k as int],
        forall|i: int| k < i < values@.len() ==> (#[trigger] values@[i]) < values@[k as int],
{
    let mut k: usize = 0;
    for i in 1..values.len()
        invariant
            k < i <= values@.len(),
            forall|j: int| 0 <= j < i ==> (#[trigger] values@[j]) <= values@[k as int],
            forall|j: int| k < j < i ==> (#[trigger] values@[j]) < values@[k as int],
    {
        if values[i] >= values[k] {
            k = i;
        }
    }
    k
}

impl StockfishEngine {
    /// The policy this engine embodies.
    pub fn kind(&self) -> (r: EngineKind)
        ensures
            r == EngineKind::Stockfish,
    {
        EngineKind::Stockfish
    }

    /// The engine's display name.
    pub fn name(&self) -> &'static str {
        "Stockfish (regular)"
    }

    /// One line on what the engine does.
    pub fn description(&self) -> &'static str {
        "Boring engine. Simply returns whatever Stockfish thinks is the best move."
    }
}

impl WorstfishEngine {
    /// The policy this engine embodies.
    pub fn kind(&self) -> (r: EngineKind)
        ensures
            r == EngineKind::Worstfish,
    {
        EngineKind::Worstfish
    }

    /// The engine's display name.
    pub fn name(&self) -> &'static str {
        "Worstfish"
    }

    /// One line on what the engine does.
    pub fn description(&self) -> &'static str {
        "Chooses the move Stockfish dislikes the most."
    }
}

impl MediocrefishEngine {
    /// The policy this engine embodies.
    pub fn kind(&self) -> (r: EngineKind)
        ensures
            r == EngineKind::Mediocrefish,
    {
        EngineKind::Mediocrefish
    }

    /// The engine's display name.
    pub fn name(&self) -> &'static str {
        "Mediocrefish"
    }

    /// One line on what the engine does.
    pub fn description(&self) -> &'static str {
        "Chooses the median of moves as ordered by score"
    }
}

impl DrawfishEngine {
    /// The policy this engine embodies.
    pub fn kind(&self) -> (r: EngineKind)
        ensures
            r == EngineKind::Drawfish,
    {
        EngineKind::Drawfish
    }

    /// The engine's display name.
    pub fn name(&self) -> &'static str {
        "Drawfish"
    }

    /// One line on what the engine does.
    pub fn description(&self) -> &'static str {
        "Attempts to force a stalemate"
    }
}

impl PacifistEngine {
    /// The policy this engine embodies.
    pub fn kind(&self) -> (r: EngineKind)
        ensures
            r == EngineKind::Pacifist,
    {
        EngineKind::Pacifist
    }

    /// The engine's display name.
    pub fn name(&self) -> &'static str {
        "Pacifist"
    }

    /// One line on what the engine does.
    pub fn description(&self) -> &'static str {
        "Simple algorithm that avoids checkmate, check, and capture."
    }
}

impl RandomEngine {
    /// The policy this engine embodies.
    pub fn kind(&self) -> (r: EngineKind)
        ensures
            r == EngineKind::Random,
    {
        EngineKind::Random
    }

    /// The engine's display name.
    pub fn name(&self) -> &'static str {
        "Random"
    }

    /// One line on what the engine does.
    pub fn description(&self) -> &'static str {
        "Chooses a random valid move"
    }
}

impl ScovilleEngine {
    /// The policy this engine embodies.
    pub fn kind(&self) -> (r: EngineKind)
        ensures
            r == EngineKind::Scoville,
    {
        EngineKind::Scoville
    }

    /// The engine's display name.
    pub fn name(&self) -> &'static str {
        "Scoville"
    }

    /// One line on what the engine does.
    pub fn description(&self) -> &'static str {
        "Plays Stockfish X% of the time, with remaining turns diluted with random moves"
    }
}

/// Whenever an evaluation set of pairwise distinct moves holds at least
/// two distinct score values, the bottom-ranked and top-ranked entries of
/// its sorted arrangement are different moves with different scores.
pub proof fn lemma_best_worst_differ(moves: Seq<ScoredMove>)
    requires
        moves.len() > 0,
        scored_sorted(moves),
        forall|i: int, j: int|
            0 <= i < j < moves.len() ==> (#[trigger] moves[i]).chess_move != (
            #[trigger] moves[j]).chess_move,
        exists|i: int, j: int|
            0 <= i < moves.len() && 0 <= j < moves.len() && (#[trigger] moves[i]).score != (
            #[trigger] moves[j]).score,
    ensures
        moves[0].score != moves.last().score,
        moves[0].chess_move != moves.last().chess_move,
{
    let (i, j): (int, int) = choose|i: int, j: int|
        0 <= i < moves.len() && 0 <= j < moves.len() && (#[trigger] moves[i]).score != (
        #[trigger] moves[j]).score;
    let last = moves.len() - 1;
    if moves[0].score == moves[last].score {
        assert forall|k: int| 0 <= k < moves.len() implies (#[trigger] moves[k]).score
            == moves[0].score by {
            if k > 0 && moves[k].score != moves[0].score {
                assert(moves[0].score.le(moves[k].score));
                assert(moves[k].score.le(moves[last].score));
                crate::score::lemma_score_order_trichotomy(moves[0].score, moves[k].score);
                assert(false);
            }
        }
        assert(moves[i].score == moves[0].score);
        assert(moves[j].score == moves[0].score);
        assert(false);
    }
}

/// The seventh property carried to the pipeline: from any position whose
/// legal moves each carry a verdict, the sorted evaluation set answers
/// the bottom-ranked and top-ranked policies with different legal moves
/// whenever it holds more than one distinct score value.
pub proof fn lemma_policies_diverge(
    b: chess::Board,
    pending: Seq<PendingEval>,
    verdicts: Seq<Score>,
    sorted: Seq<ScoredMove>,
    p: Seq<int>,
)
    requires
        pending.len() == board_legal_moves(b).len(),
        forall|i: int|
            0 <= i < pending.len() ==> (#[trigger] pending[i]).classifies(
                b,
                board_legal_moves(b)[i],
            ),
        board_legal_moves(b).no_duplicates(),
        sorted.len() > 0,
        scored_sorted(sorted),
        stable_reordering(p, sorted, combined_scores(pending, verdicts)),
        exists|i: int, j: int|
            0 <= i < sorted.len() && 0 <= j < sorted.len() && (#[trigger] sorted[i]).score != (
            #[trigger] sorted[j]).score,
    ensures
        sorted[0].score != sorted.last().score,
        sorted[0].chess_move != sorted.last().chess_move,
{
    let combined = combined_scores(pending, verdicts);
    assert forall|i: int, j: int|
        0 <= i < j < combined.len() implies (#[trigger] combined[i]).chess_move != (
    #[trigger] combined[j]).chess_move by {
        assert(pending[i].classifies(b, board_legal_moves(b)[i]));
        assert(pending[j].classifies(b, board_legal_moves(b)[j]));
        assert(combined[i].chess_move == board_legal_moves(b)[i]);
        assert(combined[j].chess_move == board_legal_moves(b)[j]);
    }
    lemma_reordering_keeps_distinct(p, sorted, combined);
    lemma_best_worst_differ(sorted);
}

} // verus!
