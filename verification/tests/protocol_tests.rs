//! The wire protocol: parsing inbound lines and writing outbound ones.

use mallard_chess::board::{MoveCoords, PromoPiece};
use mallard_chess::protocol::{parse_received, serialize, ReceivedCommand, SentCommand};

fn mv(from_file: u8, from_rank: u8, to_file: u8, to_rank: u8) -> MoveCoords {
    MoveCoords { from_file, from_rank, to_file, to_rank, promotion: None }
}

#[test]
fn parse_bare_words() {
    assert_eq!(parse_received(b"uci\n"), ReceivedCommand::Uci);
    assert_eq!(parse_received(b"ucinewgame\n"), ReceivedCommand::UciNewGame);
    assert_eq!(parse_received(b"isready\n"), ReceivedCommand::IsReady);
    assert_eq!(parse_received(b"readyok\n"), ReceivedCommand::ReadyOk);
    assert_eq!(parse_received(b"quit\n"), ReceivedCommand::Quit);
    assert_eq!(parse_received(b"  uci  \r\n"), ReceivedCommand::Uci);
}

#[test]
fn parse_noise_is_unknown() {
    assert_eq!(parse_received(b"\n"), ReceivedCommand::Unknown);
    assert_eq!(parse_received(b"hello world\n"), ReceivedCommand::Unknown);
    assert_eq!(parse_received(b"uci extra\n"), ReceivedCommand::Unknown);
    assert_eq!(parse_received(b"bestmove\n"), ReceivedCommand::Unknown);
    assert_eq!(parse_received(b"bestmove e9e4\n"), ReceivedCommand::Unknown);
}

#[test]
fn parse_position_startpos() {
    assert_eq!(
        parse_received(b"position startpos\n"),
        ReceivedCommand::Position { startpos: true, fen: None, moves: vec![] }
    );
    assert_eq!(
        parse_received(b"position startpos moves e2e4 e7e5\n"),
        ReceivedCommand::Position {
            startpos: true,
            fen: None,
            moves: vec![mv(4, 1, 4, 3), mv(4, 6, 4, 4)],
        }
    );
    assert_eq!(
        parse_received(b"position startpos moves e2e9\n"),
        ReceivedCommand::Unknown
    );
}

#[test]
fn parse_position_fen() {
    let line = b"position fen rnbqkbnr/pppppppp/8/8/8/8/PPPPPPPP/RNBQKBNR w KQkq - 0 1 moves a2a3\n";
    assert_eq!(
        parse_received(line),
        ReceivedCommand::Position {
            startpos: false,
            fen: Some(b"rnbqkbnr/pppppppp/8/8/8/8/PPPPPPPP/RNBQKBNR w KQkq - 0 1".to_vec()),
            moves: vec![mv(0, 1, 0, 2)],
        }
    );
    assert_eq!(parse_received(b"position fen moves e2e4\n"), ReceivedCommand::Unknown);
}

#[test]
fn parse_go() {
    assert_eq!(parse_received(b"go\n"), ReceivedCommand::Go { nodes: None });
    assert_eq!(
        parse_received(b"go nodes 123456\n"),
        ReceivedCommand::Go { nodes: Some(123456) }
    );
    assert_eq!(
        parse_received(b"go depth 3 nodes 77 movetime 1\n"),
        ReceivedCommand::Go { nodes: Some(77) }
    );
    // A named budget must be readable; naming one and garbling it is a
    // malformed line, not an unbounded search.
    assert_eq!(parse_received(b"go nodes many\n"), ReceivedCommand::Unknown);
    assert_eq!(parse_received(b"go nodes\n"), ReceivedCommand::Unknown);
    assert_eq!(parse_received(b"go infinite\n"), ReceivedCommand::Go { nodes: None });
}

#[test]
fn parse_info_scores() {
    assert_eq!(
        parse_received(b"info depth 2 score cp -35 nodes 100\n"),
        ReceivedCommand::Info {
            cp: Some(-35),
            mate: None,
            raw: b"info depth 2 score cp -35 nodes 100".to_vec(),
        }
    );
    assert_eq!(
        parse_received(b"info score mate -3\n"),
        ReceivedCommand::Info { cp: None, mate: Some(-3), raw: b"info score mate -3".to_vec() }
    );
    assert_eq!(
        parse_received(b"info currmove e2e4\n"),
        ReceivedCommand::Info { cp: None, mate: None, raw: b"info currmove e2e4".to_vec() }
    );
}

#[test]
fn parse_bestmove() {
    assert_eq!(
        parse_received(b"bestmove e2e4\n"),
        ReceivedCommand::BestMove { chess_move: mv(4, 1, 4, 3) }
    );
    assert_eq!(
        parse_received(b"bestmove e7e8q ponder a7a6\n"),
        ReceivedCommand::BestMove {
            chess_move: MoveCoords {
                from_file: 4,
                from_rank: 6,
                to_file: 4,
                to_rank: 7,
                promotion: Some(PromoPiece::Queen),
            },
        }
    );
}

#[test]
fn serialize_lines() {
    assert_eq!(serialize(&SentCommand::UciOk), b"uciok\n".to_vec());
    assert_eq!(serialize(&SentCommand::ReadyOk), b"readyok\n".to_vec());
    assert_eq!(serialize(&SentCommand::Quit), b"quit\n".to_vec());
    assert_eq!(
        serialize(&SentCommand::IdName(b"mallard-chess".to_vec())),
        b"id name mallard-chess\n".to_vec()
    );
    assert_eq!(
        serialize(&SentCommand::IdAuthor(b"nobody".to_vec())),
        b"id author nobody\n".to_vec()
    );
    assert_eq!(serialize(&SentCommand::Go { nodes: None }), b"go\n".to_vec());
    assert_eq!(
        serialize(&SentCommand::Go { nodes: Some(98765) }),
        b"go nodes 98765\n".to_vec()
    );
    assert_eq!(
        serialize(&SentCommand::BestMove(b"e7e8q".to_vec())),
        b"bestmove e7e8q\n".to_vec()
    );
    assert_eq!(
        serialize(&SentCommand::Position { fen: b"8/8/8/8/8/8/8/K6k w - - 0 1".to_vec() }),
        b"position fen 8/8/8/8/8/8/8/K6k w - - 0 1\n".to_vec()
    );
    assert_eq!(
        serialize(&SentCommand::Info(b"info score cp 4".to_vec())),
        b"info score cp 4\n".to_vec()
    );
}

#[test]
fn serialized_commands_parse_back() {
    assert_eq!(
        parse_received(&serialize(&SentCommand::Go { nodes: Some(42) })),
        ReceivedCommand::Go { nodes: Some(42) }
    );
    assert_eq!(
        parse_received(&serialize(&SentCommand::BestMove(b"a7a8r".to_vec()))),
        ReceivedCommand::BestMove {
            chess_move: MoveCoords {
                from_file: 0,
                from_rank: 6,
                to_file: 0,
                to_rank: 7,
                promotion: Some(PromoPiece::Rook),
            },
        }
    );
    assert_eq!(parse_received(&serialize(&SentCommand::Quit)), ReceivedCommand::Quit);
}
