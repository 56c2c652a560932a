//! The evaluation pipeline: classification, verdict combination, sorting,
//! and the driver's reading of a recorded exchange.

use chess::{Board, BoardStatus, ChessMove, MoveGen, Square};
use mallard_chess::protocol::parse_received;
use mallard_chess::score::{Score, ScoredMove};
use mallard_chess::stockfish::{
    classify_legal_moves, evaluate_possible_moves, evaluate_possible_moves_unsorted, sort_scored_moves,
    EngineFault, EvalAction, EvalState, MoveOutcome, Stockfish,
};
use std::str::FromStr;

#[test]
fn classification_counts_legal_moves() {
    let board = Board::default();
    let pending = classify_legal_moves(&board);
    assert_eq!(pending.len(), MoveGen::new_legal(&board).len());
    assert_eq!(pending.len(), 20);
    for p in &pending {
        assert!(matches!(p.outcome, MoveOutcome::NeedsEngine(_)));
    }
}

#[test]
fn classification_matches_status() {
    // White mates on the back rank with the rook; every other rook move
    // leaves the game running.
    let board = Board::from_str("6k1/5ppp/8/8/8/8/8/4R2K w - - 0 1").expect("valid position");
    let pending = classify_legal_moves(&board);
    assert_eq!(pending.len(), MoveGen::new_legal(&board).len());
    let mate = ChessMove::new(Square::E1, Square::E8, None);
    let mut saw_mate = false;
    for p in &pending {
        let after = board.make_move_new(p.chess_move);
        match after.status() {
            BoardStatus::Checkmate => {
                assert_eq!(p.outcome, MoveOutcome::Finished(Score::OurMate(0)));
            }
            BoardStatus::Stalemate => {
                assert_eq!(p.outcome, MoveOutcome::Finished(Score::Stalemate(0)));
            }
            BoardStatus::Ongoing => {
                assert!(matches!(p.outcome, MoveOutcome::NeedsEngine(_)));
            }
        }
        if p.chess_move == mate {
            saw_mate = true;
            assert_eq!(p.outcome, MoveOutcome::Finished(Score::OurMate(0)));
        }
    }
    assert!(saw_mate, "the mating rook lift must be among the legal moves");
}

#[test]
fn stalemating_move_scores_as_immediate_draw() {
    // White queen c7, kings a8 and a1: sliding the queen to b6 stalemates
    // the lone black king.
    let board = Board::from_str("k7/2Q5/8/8/8/8/8/K7 w - - 0 1").expect("valid position");
    let pending = classify_legal_moves(&board);
    let stalemating = ChessMove::new(Square::C7, Square::B6, None);
    let entry = pending
        .iter()
        .find(|p| p.chess_move == stalemating)
        .expect("queen to b6 is legal");
    assert_eq!(entry.outcome, MoveOutcome::Finished(Score::Stalemate(0)));
}

#[test]
fn combination_negates_engine_verdicts() {
    let board = Board::default();
    let pending = classify_legal_moves(&board);
    let verdicts: Vec<Score> = (0..20).map(|i| Score::Centipawns(10 * i - 50)).collect();
    let combined = evaluate_possible_moves_unsorted(&pending, &verdicts).expect("counts match");
    assert_eq!(combined.len(), 20);
    for (i, sm) in combined.iter().enumerate() {
        assert_eq!(sm.chess_move, pending[i].chess_move);
        assert_eq!(sm.score, verdicts[i].neg());
    }
}

#[test]
fn wrong_verdict_count_is_refused() {
    let board = Board::default();
    let pending = classify_legal_moves(&board);
    let too_few = vec![Score::Centipawns(1); 3];
    assert_eq!(
        evaluate_possible_moves_unsorted(&pending, &too_few),
        Err(EngineFault::WrongVerdictCount)
    );
    let too_many = vec![Score::Centipawns(1); 21];
    assert_eq!(
        evaluate_possible_moves(&pending, &too_many),
        Err(EngineFault::WrongVerdictCount)
    );
}

#[test]
fn evaluation_set_is_sorted_worst_first() {
    let board = Board::default();
    let pending = classify_legal_moves(&board);
    let verdicts: Vec<Score> = (0..20).map(|i| Score::Centipawns(((i * 7) % 20) - 10)).collect();
    let sorted = evaluate_possible_moves(&pending, &verdicts).expect("counts match");
    assert_eq!(sorted.len(), 20);
    for w in sorted.windows(2) {
        assert!(!w[1].score.lt_than(&w[0].score), "scores must ascend");
    }
}

#[test]
fn sorting_keeps_enumeration_order_on_ties() {
    let squares = [
        (Square::A2, Square::A3),
        (Square::B2, Square::B3),
        (Square::C2, Square::C3),
        (Square::D2, Square::D3),
        (Square::E2, Square::E3),
    ];
    let scores = [
        Score::Centipawns(5),
        Score::Centipawns(1),
        Score::Centipawns(5),
        Score::Centipawns(1),
        Score::Centipawns(5),
    ];
    let moves: Vec<ScoredMove> = squares
        .iter()
        .zip(scores.iter())
        .map(|((from, to), score)| ScoredMove {
            chess_move: ChessMove::new(*from, *to, None),
            score: *score,
        })
        .collect();
    let sorted = sort_scored_moves(&moves);
    let expected: Vec<ChessMove> = vec![
        ChessMove::new(Square::B2, Square::B3, None),
        ChessMove::new(Square::D2, Square::D3, None),
        ChessMove::new(Square::A2, Square::A3, None),
        ChessMove::new(Square::C2, Square::C3, None),
        ChessMove::new(Square::E2, Square::E3, None),
    ];
    let actual: Vec<ChessMove> = sorted.iter().map(|sm| sm.chess_move).collect();
    assert_eq!(actual, expected, "ties must keep their enumeration order");
}

#[test]
fn exchange_steps_overwrite_the_score() {
    let driver = Stockfish::new(None);
    let state = EvalState::new();
    let (state, action) = driver.eval_step(&state, &parse_received(b"info score cp 10\n"));
    assert_eq!(action, EvalAction::Forward);
    assert_eq!(state.last_score, Some(Score::Centipawns(10)));
    let (state, action) = driver.eval_step(&state, &parse_received(b"info depth 9\n"));
    assert_eq!(action, EvalAction::Forward);
    assert_eq!(state.last_score, Some(Score::Centipawns(10)));
    let (state, action) = driver.eval_step(&state, &parse_received(b"info score mate -1\n"));
    assert_eq!(action, EvalAction::Forward);
    assert_eq!(state.last_score, Some(Score::TheirMate(1)));
    let (state, action) = driver.eval_step(&state, &parse_received(b"unrelated chatter\n"));
    assert_eq!(action, EvalAction::Running);
    let (_, action) = driver.eval_step(&state, &parse_received(b"bestmove h2h4\n"));
    assert_eq!(
        action,
        EvalAction::Finished(ScoredMove {
            chess_move: ChessMove::new(Square::H2, Square::H4, None),
            score: Score::TheirMate(1),
        })
    );
}

#[test]
fn transcript_takes_last_score_before_bestmove() {
    let driver = Stockfish::new(None);
    let lines: Vec<Vec<u8>> = vec![
        b"info depth 1 score cp 13 nodes 20".to_vec(),
        b"info depth 2 score cp -8".to_vec(),
        b"info depth 3 score cp 21".to_vec(),
        b"bestmove e2e4".to_vec(),
    ];
    let sm = driver.evaluate_position(&lines).expect("a score was reported");
    assert_eq!(sm.chess_move, ChessMove::new(Square::E2, Square::E4, None));
    assert_eq!(sm.score, Score::Centipawns(21));
}

#[test]
fn transcript_reads_mate_distances() {
    let driver = Stockfish::new(Some(1000));
    let lines: Vec<Vec<u8>> = vec![
        b"info score mate 2".to_vec(),
        b"bestmove e7e8q".to_vec(),
    ];
    let sm = driver.evaluate_position(&lines).expect("a score was reported");
    assert_eq!(sm.score, Score::OurMate(2));
    assert_eq!(
        sm.chess_move,
        ChessMove::new(Square::E7, Square::E8, Some(chess::Piece::Queen))
    );
}

#[test]
fn transcript_faults() {
    let driver = Stockfish::new(None);
    let no_score: Vec<Vec<u8>> = vec![b"bestmove e2e4".to_vec()];
    assert_eq!(driver.evaluate_position(&no_score), Err(EngineFault::MissingScore));
    let silence: Vec<Vec<u8>> = vec![b"info depth 1".to_vec()];
    assert_eq!(driver.evaluate_position(&silence), Err(EngineFault::NoBestMove));
    let quits: Vec<Vec<u8>> = vec![b"quit".to_vec()];
    assert_eq!(driver.evaluate_position(&quits), Err(EngineFault::EngineQuit));
}

#[test]
fn evaluation_requests_name_the_position_and_budget() {
    let driver = Stockfish::new(Some(4096));
    let board = Board::default();
    let requests = driver.evaluation_requests(&board);
    assert_eq!(requests.len(), 2);
    assert_eq!(
        mallard_chess::protocol::serialize(&requests[0]),
        format!("position fen {}\n", board).into_bytes()
    );
    assert_eq!(
        mallard_chess::protocol::serialize(&requests[1]),
        b"go nodes 4096\n".to_vec()
    );
}
