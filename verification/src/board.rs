//! The library's view of the chess rules.
//!
//! All positional knowledge — which moves are legal, what a move does to a
//! position, whether a game is over — comes from the `chess` crate.  Its
//! `Board` and `ChessMove` values are carried through the library opaquely;
//! what the crate computes about them is given names here, and each call
//! into the crate sits behind one small trusted function whose contract
//! speaks over those names.

use vstd::prelude::*;

verus! {

#[verifier::external_type_specification]
#[verifier::external_body]
pub struct ExBoard(chess::Board);

#[verifier::external_type_specification]
#[verifier::external_body]
pub struct ExChessMove(chess::ChessMove);

/// How a position stands: still being played, or finished one of the two
/// ways a game of chess can end on the board.
#[derive(Debug, Copy, Clone, PartialEq, Eq, Structural)]
pub enum GameStatus {
    Ongoing,
    Checkmate,
    Stalemate,
}

/// A move as plain coordinates: origin and destination as file and rank
/// indices, plus the piece a pawn turns into, if any.  This is what the
/// wire protocol speaks of; the chess crate's own move value is built from
/// it on demand.
#[derive(Debug, Copy, Clone, PartialEq, Eq, Structural)]
pub struct MoveCoords {
    pub from_file: u8,
    pub from_rank: u8,
    pub to_file: u8,
    pub to_rank: u8,
    pub promotion: Option<PromoPiece>,
}

/// The pieces a pawn may be promoted to.
#[derive(Debug, Copy, Clone, PartialEq, Eq, Structural)]
pub enum PromoPiece {
    Knight,
    Bishop,
    Rook,
    Queen,
}

impl MoveCoords {
    /// Coordinates that actually denote squares of the board.
    pub open spec fn wf(self) -> bool {
        self.from_file < 8 && self.from_rank < 8 && self.to_file < 8 && self.to_rank < 8
    }
}

/// The legal moves of a position, in the order the move generator yields
/// them.
pub uninterp spec fn board_legal_moves(b: chess::Board) -> Seq<chess::ChessMove>;

/// The position reached from `b` by playing `m`.
pub uninterp spec fn board_after(b: chess::Board, m: chess::ChessMove) -> chess::Board;

/// Whether `b` is still being played, or finished, and how.
pub uninterp spec fn board_status(b: chess::Board) -> GameStatus;

/// How many pieces the side not to move has on the board.
pub uninterp spec fn board_enemy_pieces(b: chess::Board) -> u32;

/// How many pieces the side to move has on the board.
pub uninterp spec fn board_mover_pieces(b: chess::Board) -> u32;

/// How many enemy pieces give check to the side to move.
pub uninterp spec fn board_checkers(b: chess::Board) -> u32;

/// The move in coordinate notation, as its text is written on the wire.
pub uninterp spec fn move_text(m: chess::ChessMove) -> Seq<u8>;

/// The chess crate's move value for the given coordinates.
pub uninterp spec fn chess_move_of(c: MoveCoords) -> chess::ChessMove;

/// The position a Forsyth-Edwards record denotes, if it denotes one.
pub uninterp spec fn fen_board(s: Seq<u8>) -> Option<chess::Board>;

/// The Forsyth-Edwards record of a position.
pub uninterp spec fn fen_text(b: chess::Board) -> Seq<u8>;

/// Relies on `chess::MoveGen::new_legal`: it yields every legal move of
/// the position exactly once.  A position still has legal moves exactly
/// when its status is ongoing, which `chess::Board::status` decides by
/// counting them.
#[verifier::external_body]
pub fn legal_moves(b: &chess::Board) -> (r: Vec<chess::ChessMove>)
    ensures
        r@ == board_legal_moves(*b),
        r@.no_duplicates(),
        board_status(*b) == GameStatus::Ongoing <==> r@.len() > 0,
{
    chess::MoveGen::new_legal(b).collect()
}

/// Relies on `chess::Board::status`: a position with no legal moves is
/// checkmate when the king stands in check and stalemate otherwise; any
/// other position is ongoing.
#[verifier::external_body]
pub fn status(b: &chess::Board) -> (r: GameStatus)
    ensures
        r == board_status(*b),
        r == GameStatus::Ongoing <==> board_legal_moves(*b).len() > 0,
{
    match b.status() {
        chess::BoardStatus::Ongoing => GameStatus::Ongoing,
        chess::BoardStatus::Checkmate => GameStatus::Checkmate,
        chess::BoardStatus::Stalemate => GameStatus::Stalemate,
    }
}

/// Relies on `chess::Board::make_move_new`: applies a legal move to a
/// copy of the position.  The crate's code assumes legality — an empty
/// source square panics, and capturing a king walks an unchecked table
/// lookup — so only moves the generator yielded for this position are
/// admitted.
#[verifier::external_body]
pub fn apply_move(b: &chess::Board, m: &chess::ChessMove) -> (r: chess::Board)
    requires
        board_legal_moves(*b).contains(*m),
    ensures
        r == board_after(*b, *m),
{
    b.make_move_new(*m)
}

/// Relies on the derived `PartialEq` of `chess::ChessMove`: whether the
/// two move values are equal, field for field.
#[verifier::external_body]
pub fn move_eq(a: &chess::ChessMove, b: &chess::ChessMove) -> (r: bool)
    ensures
        r == (a == b),
{
    a == b
}

/// Relies on `chess::Board::color_combined`, `chess::Board::side_to_move`
/// and `chess::BitBoard::popcnt`: counts the pieces of the side that is
/// not to move, read off that side's piece bitboard.
#[verifier::external_body]
pub fn enemy_piece_count(b: &chess::Board) -> (r: u32)
    ensures
        r == board_enemy_pieces(*b),
{
    b.color_combined(!b.side_to_move()).popcnt()
}

/// Relies on `chess::Board::color_combined`, `chess::Board::side_to_move`
/// and `chess::BitBoard::popcnt`: counts the pieces of the side to move,
/// read off that side's piece bitboard.
#[verifier::external_body]
pub fn mover_piece_count(b: &chess::Board) -> (r: u32)
    ensures
        r == board_mover_pieces(*b),
{
    b.color_combined(b.side_to_move()).popcnt()
}

/// Relies on `chess::Board::checkers` and `chess::BitBoard::popcnt`: the
/// number of opposing pieces currently giving check.
#[verifier::external_body]
pub fn checkers_count(b: &chess::Board) -> (r: u32)
    ensures
        r == board_checkers(*b),
{
    b.checkers().popcnt()
}

/// Relies on the `Display` of `chess::ChessMove`: writes the origin and
/// destination squares and the promotion piece, in coordinate notation,
/// determined by the move alone.
#[verifier::external_body]
pub fn move_uci_text(m: &chess::ChessMove) -> (r: Vec<u8>)
    ensures
        r@ == move_text(*m),
{
    format!("{}", m).into_bytes()
}

/// Relies on `chess::ChessMove::new`, `chess::Square::make_square` and the
/// rank and file constructors: builds the move value denoted by the
/// coordinates, determined by them alone.
#[verifier::external_body]
pub fn make_move(c: &MoveCoords) -> (r: chess::ChessMove)
    ensures
        r == chess_move_of(*c),
{
    let sq = |rank: u8, file: u8| {
        chess::Square::make_square(
            chess::Rank::from_index(rank as usize),
            chess::File::from_index(file as usize),
        )
    };
    let promotion = match c.promotion {
        None => None,
        Some(PromoPiece::Knight) => Some(chess::Piece::Knight),
        Some(PromoPiece::Bishop) => Some(chess::Piece::Bishop),
        Some(PromoPiece::Rook) => Some(chess::Piece::Rook),
        Some(PromoPiece::Queen) => Some(chess::Piece::Queen),
    };
    chess::ChessMove::new(sq(c.from_rank, c.from_file), sq(c.to_rank, c.to_file), promotion)
}

/// No space stands before position `i` of the run.
pub open spec fn no_space_before(s: Seq<u8>, i: int) -> bool {
    forall|j: int| 0 <= j < i ==> s[j] != 32
}

/// The piece-placement field of the record — everything before the first
/// space — mentions the given king letter.
pub open spec fn king_in_placement(s: Seq<u8>, king: u8) -> bool {
    exists|i: int| 0 <= i < s.len() && #[trigger] s[i] == king && no_space_before(s, i)
}

/// The record puts a king on the board for each side.  The letters of
/// the castling field come after the first space and do not count.
pub open spec fn fen_names_both_kings(s: Seq<u8>) -> bool {
    king_in_placement(s, 75) && king_in_placement(s, 107)
}

/// Walks the placement field from position `i` with `slashes` rank
/// separators already seen and `advance` files already taken on the
/// current rank: no rank may be left downward more than seven times, and
/// no rank may advance past its eighth file — a digit takes that many
/// files, any other byte takes one.  Under this, the record's parser
/// writes every square at most once.
pub open spec fn placement_steps_ok(s: Seq<u8>, i: int, slashes: int, advance: int) -> bool
    decreases s.len() - i,
{
    if i >= s.len() || s[i] == 32 {
        true
    } else if s[i] == 47 {
        slashes < 7 && placement_steps_ok(s, i + 1, slashes + 1, 0)
    } else {
        (advance + placement_step(s[i]) <= 8) && placement_steps_ok(
            s,
            i + 1,
            slashes,
            advance + placement_step(s[i]),
        )
    }
}

/// How many files one placement byte takes.
pub open spec fn placement_step(c: u8) -> int {
    if 48 <= c && c <= 57 {
        c - 48
    } else {
        1
    }
}

/// The whole placement field keeps its cursor on the board.
pub open spec fn fen_placement_wf(s: Seq<u8>) -> bool {
    placement_steps_ok(s, 0, 0, 0)
}

/// Checks that the record's placement field never revisits a square,
/// which is what [`board_from_fen`] demands beside the two kings.
pub fn fen_placement_within_board(fen: &Vec<u8>) -> (r: bool)
    ensures
        r == fen_placement_wf(fen@),
{
    let mut i: usize = 0;
    let mut slashes: u32 = 0;
    let mut advance: u32 = 0;
    while i < fen.len() && fen[i] != 32
        invariant
            i <= fen@.len(),
            advance <= 8,
            fen_placement_wf(fen@) == placement_steps_ok(
                fen@,
                i as int,
                slashes as int,
                advance as int,
            ),
        decreases fen@.len() - i,
    {
        let c = fen[i];
        if c == 47 {
            if slashes >= 7 {
                return false;
            }
            slashes = slashes + 1;
            advance = 0;
        } else {
            let step: u32 = if 48 <= c && c <= 57 {
                (c - 48) as u32
            } else {
                1
            };
            if advance + step > 8 {
                return false;
            }
            advance = advance + step;
        }
        i = i + 1;
    }
    true
}

/// Checks that a record names a king for each side in its placement
/// field, which is what [`board_from_fen`] demands.
pub fn fen_has_both_kings(fen: &Vec<u8>) -> (r: bool)
    ensures
        r == fen_names_both_kings(fen@),
{
    let mut saw_white = false;
    let mut saw_black = false;
    let mut i: usize = 0;
    while i < fen.len() && fen[i] != 32
        invariant
            i <= fen@.len(),
            no_space_before(fen@, i as int),
            saw_white == exists|j: int| 0 <= j < i && #[trigger] fen@[j] == 75,
            saw_black == exists|j: int| 0 <= j < i && #[trigger] fen@[j] == 107,
        decreases fen@.len() - i,
    {
        if fen[i] == 75 {
            saw_white = true;
        }
        if fen[i] == 107 {
            saw_black = true;
        }
        proof {
            if fen@[i as int] == 75 {
                assert(exists|j: int| 0 <= j < i + 1 && #[trigger] fen@[j] == 75);
            }
            if fen@[i as int] == 107 {
                assert(exists|j: int| 0 <= j < i + 1 && #[trigger] fen@[j] == 107);
            }
        }
        i = i + 1;
    }
    proof {
        lemma_king_scan_stops(fen@, i as int, 75, saw_white);
        lemma_king_scan_stops(fen@, i as int, 107, saw_black);
    }
    saw_white && saw_black
}

/// At the first space (or the end) of the record, having seen the king
/// letter in the scanned prefix is the same as the letter standing in
/// the placement field.
proof fn lemma_king_scan_stops(s: Seq<u8>, stop: int, king: u8, saw: bool)
    requires
        0 <= stop <= s.len(),
        no_space_before(s, stop),
        stop == s.len() || s[stop] == 32,
        king != 32,
        saw == exists|j: int| 0 <= j < stop && #[trigger] s[j] == king,
    ensures
        saw == king_in_placement(s, king),
{
    if saw {
        let j = choose|j: int| 0 <= j < stop && #[trigger] s[j] == king;
        assert(no_space_before(s, j));
        assert(king_in_placement(s, king));
    } else {
        if king_in_placement(s, king) {
            let j = choose|j: int|
                0 <= j < s.len() && #[trigger] s[j] == king && no_space_before(s, j);
            if j >= stop {
                assert(stop < s.len());
                assert(s[stop] == 32);
                assert(j != stop);
                assert(s[stop] != 32);
            }
            assert(false);
        }
    }
}

/// Relies on `chess::Board::from_str`: parses a Forsyth-Edwards record,
/// refusing text that does not denote a position.  The record must name
/// a king for each side and its placement cursor must stay on the board:
/// the crate's parser wraps an overlong rank or an eighth rank separator
/// back onto squares it already wrote, which could erase a king, and it
/// computes the mover's king square before it validates the position —
/// an empty king bitboard walks an unchecked table index.
#[verifier::external_body]
pub fn board_from_fen(fen: &Vec<u8>) -> (r: Option<chess::Board>)
    requires
        fen_names_both_kings(fen@),
        fen_placement_wf(fen@),
    ensures
        r == fen_board(fen@),
{
    let text = match core::str::from_utf8(fen) {
        Ok(t) => t,
        Err(_) => return None,
    };
    match <chess::Board as core::str::FromStr>::from_str(text) {
        Ok(b) => Some(b),
        Err(_) => None,
    }
}

/// Relies on the `Display` of `chess::Board`: writes the position's
/// Forsyth-Edwards record, determined by the position alone.
#[verifier::external_body]
pub fn board_fen(b: &chess::Board) -> (r: Vec<u8>)
    ensures
        r@ == fen_text(*b),
{
    format!("{}", b).into_bytes()
}

} // verus!
