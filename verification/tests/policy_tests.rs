//! The decision policies and the session around them.

use chess::{Board, ChessMove, MoveGen, Square};
use mallard_chess::config::{parse_node_budget, ConfigError, Configuration};
use mallard_chess::engine::{
    scoville_uses_best, DrawfishEngine, EngineKind, MediocrefishEngine, PacifistEngine,
    RandomEngine, ScovilleEngine, StockfishEngine, WorstfishEngine,
};
use mallard_chess::game::{Game, SessionAction, SessionState};
use mallard_chess::mode::GameMode;
use mallard_chess::protocol::{parse_received, SentCommand};
use mallard_chess::score::{Score, ScoredMove};
use mallard_chess::stockfish::{classify_legal_moves, evaluate_possible_moves, Stockfish};
use rand::Rng;
use std::str::FromStr;

fn scored(board: &Board, verdicts: &[Score]) -> Vec<ScoredMove> {
    let pending = classify_legal_moves(board);
    evaluate_possible_moves(&pending, &verdicts.to_vec()).expect("verdict count matches")
}

#[test]
fn best_and_worst_pick_the_extremes() {
    let board = Board::default();
    let verdicts: Vec<Score> = (0..20).map(|i| Score::Centipawns(100 - 9 * i)).collect();
    let sorted = scored(&board, &verdicts);
    let best = StockfishEngine.choose_move(&sorted);
    let worst = WorstfishEngine.choose_move(&sorted);
    assert_eq!(best, sorted.last().unwrap().chess_move);
    assert_eq!(worst, sorted[0].chess_move);
    for sm in &sorted {
        assert!(!sorted[0].score.lt_than(&sm.score) || sm.chess_move != worst);
        assert!(sm.score.le_than(&sorted.last().unwrap().score));
    }
}

#[test]
fn best_and_worst_differ_when_scores_differ() {
    // From the starting position, with at least two distinct verdicts,
    // the top-ranked and bottom-ranked moves cannot coincide.
    let board = Board::default();
    let verdicts: Vec<Score> = (0..20).map(|i| Score::Centipawns(i % 2)).collect();
    let sorted = scored(&board, &verdicts);
    let best = StockfishEngine.choose_move(&sorted);
    let worst = WorstfishEngine.choose_move(&sorted);
    assert_ne!(best, worst);
}

#[test]
fn mediocrefish_takes_the_middle_entry() {
    let board = Board::default();
    let verdicts: Vec<Score> = (0..20).map(|i| Score::Centipawns(i)).collect();
    let pending = classify_legal_moves(&board);
    let unsorted =
        mallard_chess::stockfish::evaluate_possible_moves_unsorted(&pending, &verdicts).unwrap();
    let chosen = MediocrefishEngine.choose_move(&unsorted);
    assert_eq!(chosen, unsorted[unsorted.len() / 2].chess_move);
}

#[test]
fn drawfish_prefers_the_stalemate() {
    let board = Board::from_str("k7/2Q5/8/8/8/8/8/K7 w - - 0 1").expect("valid position");
    let pending = classify_legal_moves(&board);
    let engine_count = pending
        .iter()
        .filter(|p| matches!(p.outcome, mallard_chess::stockfish::MoveOutcome::NeedsEngine(_)))
        .count();
    let verdicts: Vec<Score> = (0..engine_count).map(|_| Score::Centipawns(-400)).collect();
    let sorted = evaluate_possible_moves(&pending, &verdicts).unwrap();
    let chosen = DrawfishEngine.choose_move(&sorted);
    let entry = pending
        .iter()
        .find(|p| p.chess_move == chosen)
        .expect("the chosen move is legal");
    assert_eq!(entry.outcome, mallard_chess::stockfish::MoveOutcome::Finished(Score::Stalemate(0)));
}

#[test]
fn drawfish_dislikes_big_gains() {
    // A huge gain remaps to a tiny value; a modest gain stays attractive.
    let moves: Vec<ScoredMove> = vec![
        ScoredMove {
            chess_move: ChessMove::new(Square::A2, Square::A3, None),
            score: Score::Centipawns(900),
        },
        ScoredMove {
            chess_move: ChessMove::new(Square::B2, Square::B3, None),
            score: Score::Centipawns(3),
        },
    ];
    let chosen = DrawfishEngine.choose_move(&moves);
    assert_eq!(chosen, ChessMove::new(Square::B2, Square::B3, None));
}

#[test]
fn pacifist_declines_the_mate() {
    let board = Board::from_str("6k1/5ppp/8/8/8/8/8/4R2K w - - 0 1").expect("valid position");
    let chosen = PacifistEngine.choose_move(&board);
    assert_ne!(chosen, ChessMove::new(Square::E1, Square::E8, None));
    assert!(MoveGen::new_legal(&board).any(|m| m == chosen));
}

#[test]
fn pacifist_declines_the_capture() {
    // The white pawn on e4 may take on d5; every alternative is quiet.
    let board = Board::from_str("7k/8/8/3p4/4P3/8/8/7K w - - 0 1").expect("valid position");
    let chosen = PacifistEngine.choose_move(&board);
    assert_ne!(chosen, ChessMove::new(Square::E4, Square::D5, None));
    let after = board.make_move_new(chosen);
    let black_before = board.color_combined(chess::Color::Black).popcnt();
    let black_after = after.color_combined(chess::Color::Black).popcnt();
    assert_eq!(black_before, black_after, "a pacifist move must not capture");
}

#[test]
fn random_stays_within_the_legal_moves() {
    let board = Board::default();
    let legal: Vec<ChessMove> = MoveGen::new_legal(&board).collect();
    for _ in 0..100 {
        let chosen = RandomEngine.choose_move(&legal);
        assert!(legal.contains(&chosen));
    }
}

#[test]
fn scoville_dial_extremes() {
    let mut rng = rand::thread_rng();
    for _ in 0..10000 {
        let draw: usize = rng.gen_range(0..100);
        assert!(!scoville_uses_best(0, draw), "a zero dial must never defer to best");
        assert!(scoville_uses_best(100, draw), "a full dial must always defer to best");
    }
}

#[test]
fn scoville_dial_frequency() {
    let mut rng = rand::thread_rng();
    let trials = 100000;
    let mut hits = 0usize;
    for _ in 0..trials {
        let draw: usize = rng.gen_range(0..100);
        if scoville_uses_best(30, draw) {
            hits += 1;
        }
    }
    let frequency = hits as f64 / trials as f64;
    assert!(
        (frequency - 0.30).abs() < 0.02,
        "empirical best-rate {} strays too far from the dial",
        frequency
    );
}

#[test]
fn scoville_at_full_dial_plays_best() {
    let board = Board::default();
    let verdicts: Vec<Score> = (0..20).map(|i| Score::Centipawns(3 * i - 20)).collect();
    let sorted = scored(&board, &verdicts);
    let engine = ScovilleEngine::new(100);
    for _ in 0..200 {
        assert_eq!(engine.choose_move(&sorted), sorted.last().unwrap().chess_move);
    }
}

#[test]
fn scoville_always_plays_a_member() {
    let board = Board::default();
    let verdicts: Vec<Score> = (0..20).map(|i| Score::Centipawns(i)).collect();
    let sorted = scored(&board, &verdicts);
    let engine = ScovilleEngine::new(0);
    for _ in 0..200 {
        let chosen = engine.choose_move(&sorted);
        assert!(sorted.iter().any(|sm| sm.chess_move == chosen));
    }
}

#[test]
fn engine_names_resolve() {
    assert_eq!(EngineKind::try_from("WORST"), Ok(EngineKind::Worstfish));
    assert_eq!(EngineKind::try_from("stockfish"), Ok(EngineKind::Stockfish));
    assert_eq!(EngineKind::try_from("Hippie"), Ok(EngineKind::Pacifist));
    assert_eq!(EngineKind::try_from("MIX"), Ok(EngineKind::Scoville));
    assert_eq!(EngineKind::try_from("stale"), Ok(EngineKind::Drawfish));
    assert_eq!(EngineKind::try_from("meh"), Ok(EngineKind::Mediocrefish));
    assert_eq!(EngineKind::try_from("rand"), Ok(EngineKind::Random));
    assert_eq!(EngineKind::try_from("grandmaster"), Err("grandmaster"));
    assert_eq!(EngineKind::variants().len(), 7);
}

#[test]
fn game_mode_names_resolve() {
    assert_eq!(GameMode::try_from("boring"), Ok(GameMode::Stockfish));
    assert_eq!(GameMode::try_from("Stockfish"), Ok(GameMode::Stockfish));
    assert_eq!(GameMode::try_from("WorstFish"), Ok(GameMode::Worstfish));
    assert_eq!(GameMode::try_from("chaotic"), Err("chaotic"));
}

#[test]
fn node_budget_arguments() {
    assert_eq!(parse_node_budget("unlimited"), Ok(None));
    assert_eq!(parse_node_budget("-"), Ok(None));
    assert_eq!(parse_node_budget("123456"), Ok(Some(123456)));
    assert_eq!(parse_node_budget("+500"), Ok(Some(500)));
    assert_eq!(parse_node_budget("+"), Err(ConfigError::InvalidNodeBudget));
    assert_eq!(parse_node_budget("++5"), Err(ConfigError::InvalidNodeBudget));
    assert_eq!(parse_node_budget("a lot"), Err(ConfigError::InvalidNodeBudget));
    assert_eq!(parse_node_budget(""), Err(ConfigError::InvalidNodeBudget));
}

#[test]
fn session_walkthrough() {
    let config = Configuration {
        engine_kind: EngineKind::Worstfish,
        stockfish_nodes: Some(100000),
        scoville_percent: 50,
    };
    let mut game = Game::new(
        Board::default(),
        Stockfish::new(config.stockfish_nodes),
        b"mallard-chess (Worstfish)".to_vec(),
        b"nobody in particular".to_vec(),
    );
    assert_eq!(game.state, SessionState::Idle);

    let reply = game.handle(&parse_received(b"uci\n"));
    assert_eq!(reply.action, SessionAction::Continue);
    assert_eq!(reply.outputs.len(), 3);
    assert_eq!(reply.outputs[0], SentCommand::UciOk);
    assert_eq!(
        reply.outputs[1],
        SentCommand::IdName(b"mallard-chess (Worstfish)".to_vec())
    );

    let reply = game.handle(&parse_received(b"isready\n"));
    assert_eq!(reply.outputs, vec![SentCommand::ReadyOk]);

    let reply = game.handle(&parse_received(b"position startpos moves e2e4 e7e5\n"));
    assert_eq!(reply.action, SessionAction::Continue);
    assert_eq!(game.state, SessionState::PositionSet);
    let expected = Board::default()
        .make_move_new(ChessMove::new(Square::E2, Square::E4, None))
        .make_move_new(ChessMove::new(Square::E7, Square::E5, None));
    assert_eq!(game.board, expected);

    let reply = game.handle(&parse_received(b"go nodes 5\n"));
    assert_eq!(reply.action, SessionAction::Decide);
    assert_eq!(game.state, SessionState::AwaitingDecision);

    let chosen = ChessMove::new(Square::G1, Square::F3, None);
    let line = game.apply_decision(&chosen);
    assert_eq!(line, SentCommand::BestMove(b"g1f3".to_vec()));
    assert_eq!(game.board, expected.make_move_new(chosen));
    assert_eq!(game.state, SessionState::Idle);

    let reply = game.handle(&parse_received(b"ucinewgame\n"));
    assert_eq!(reply.action, SessionAction::Continue);
    assert_eq!(game.board, Board::default());

    let reply = game.handle(&parse_received(b"quit\n"));
    assert_eq!(reply.action, SessionAction::Terminate);
    assert_eq!(game.state, SessionState::Terminated);

    let reply = game.handle(&parse_received(b"go\n"));
    assert_eq!(reply.action, SessionAction::Continue);
    assert_eq!(game.state, SessionState::Terminated);
}

#[test]
fn malformed_position_is_ignored() {
    let mut game = Game::new(
        Board::default(),
        Stockfish::new(None),
        b"mallard-chess".to_vec(),
        b"nobody".to_vec(),
    );
    let before = game.board;
    let reply = game.handle(&parse_received(b"position fen not a real record at all\n"));
    assert_eq!(reply.action, SessionAction::Continue);
    assert_eq!(game.board, before);
}

#[test]
fn illegal_replay_is_ignored() {
    let mut game = Game::new(
        Board::default(),
        Stockfish::new(None),
        b"mallard-chess".to_vec(),
        b"nobody".to_vec(),
    );
    let before = game.board;
    // No piece stands on a3, so the directive replays an illegal move
    // and must be ignored whole.
    let reply = game.handle(&parse_received(b"position startpos moves a3a4\n"));
    assert_eq!(reply.action, SessionAction::Continue);
    assert_eq!(game.board, before);
    assert_eq!(game.state, SessionState::Idle);
    // A move that turns illegal mid-replay leaves the board untouched
    // too, even though its prefix was playable.
    let reply = game.handle(&parse_received(b"position startpos moves e2e4 e2e4\n"));
    assert_eq!(reply.action, SessionAction::Continue);
    assert_eq!(game.board, before);
}

#[test]
fn kingless_record_is_ignored() {
    let mut game = Game::new(
        Board::default(),
        Stockfish::new(None),
        b"mallard-chess".to_vec(),
        b"nobody".to_vec(),
    );
    let before = game.board;
    // The castling letters after the first space must not pass for kings
    // on the board.
    let reply = game.handle(&parse_received(b"position fen 8/8/8/8/8/8/8/8 w KQkq - 0 1\n"));
    assert_eq!(reply.action, SessionAction::Continue);
    assert_eq!(game.board, before);
}

#[test]
fn wrapping_placement_is_ignored() {
    let mut game = Game::new(
        Board::default(),
        Stockfish::new(None),
        b"mallard-chess".to_vec(),
        b"nobody".to_vec(),
    );
    let before = game.board;
    // Nine pieces on the first rank would wrap the parser's cursor back
    // onto a8 and erase the king it already placed there.
    let reply =
        game.handle(&parse_received(b"position fen KQQQQQQQQ/8/8/8/8/8/8/4k3 w - - 0 1\n"));
    assert_eq!(reply.action, SessionAction::Continue);
    assert_eq!(game.board, before);
    // A digit overshooting the rank wraps the same way.
    let reply =
        game.handle(&parse_received(b"position fen K8Q/8/8/8/8/8/8/4k3 w - - 0 1\n"));
    assert_eq!(reply.action, SessionAction::Continue);
    assert_eq!(game.board, before);
    // So does a ninth rank segment.
    let reply =
        game.handle(&parse_received(b"position fen K7/8/8/8/8/8/8/4k3/8 w - - 0 1\n"));
    assert_eq!(reply.action, SessionAction::Continue);
    assert_eq!(game.board, before);
}

#[test]
fn named_record_is_established() {
    let mut game = Game::new(
        Board::default(),
        Stockfish::new(None),
        b"mallard-chess".to_vec(),
        b"nobody".to_vec(),
    );
    let line = b"position fen rnbqkbnr/pppppppp/8/8/8/8/PPPPPPPP/RNBQKBNR w KQkq - 0 1 moves e2e4\n";
    let reply = game.handle(&parse_received(line));
    assert_eq!(reply.action, SessionAction::Continue);
    assert_eq!(game.state, SessionState::PositionSet);
    let expected = Board::default().make_move_new(ChessMove::new(Square::E2, Square::E4, None));
    assert_eq!(game.board, expected);
}

#[test]
fn engines_report_their_kind() {
    assert_eq!(StockfishEngine.kind(), EngineKind::Stockfish);
    assert_eq!(WorstfishEngine.kind(), EngineKind::Worstfish);
    assert_eq!(MediocrefishEngine.kind(), EngineKind::Mediocrefish);
    assert_eq!(DrawfishEngine.kind(), EngineKind::Drawfish);
    assert_eq!(PacifistEngine.kind(), EngineKind::Pacifist);
    assert_eq!(RandomEngine.kind(), EngineKind::Random);
    assert_eq!(ScovilleEngine::new(10).kind(), EngineKind::Scoville);
    assert_eq!(WorstfishEngine.name(), "Worstfish");
    assert!(!PacifistEngine.description().is_empty());
}
