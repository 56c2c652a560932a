//! The line protocol spoken on both sides of the harness: with the
//! embedding front end over the standard streams, and with the external
//! engine over its pipes.
//!
//! A line is a run of bytes ending in a newline.  Inbound lines are split
//! on ASCII whitespace and read against the small command grammar below;
//! a line that fits no rule is an unknown command, which every consumer
//! ignores rather than fails on.  Outbound commands are written exactly,
//! one line each.

use vstd::prelude::*;

use crate::board::{MoveCoords, PromoPiece};
use crate::text::{all_digits, dec_value, signed_rep};
use vstd::string::StringSliceAdditionalSpecFns;

verus! {

/// A command read from a peer: the front end's directives, and the
/// external engine's answers, share one inbound alphabet.
#[derive(Debug, Clone, PartialEq, Eq)]
pub enum ReceivedCommand {
    /// `uci`: the front end asks who we are.
    Uci,
    /// `ucinewgame`: forget the game, return to the start position.
    UciNewGame,
    /// `isready`: the front end checks we are alive.
    IsReady,
    /// `readyok`: the engine finished its housekeeping.
    ReadyOk,
    /// `position ...`: establish a position, optionally replaying moves.
    Position { startpos: bool, fen: Option<Vec<u8>>, moves: Vec<MoveCoords> },
    /// `go ...`: start searching, perhaps bounded by a node budget.
    Go { nodes: Option<u64> },
    /// `info ... score ...`: a progress report; the score, when present,
    /// is in centipawns or as a mate distance.  The full line is kept for
    /// passing through.
    Info { cp: Option<i32>, mate: Option<i8>, raw: Vec<u8> },
    /// `bestmove <move>`: the engine's verdict.
    BestMove { chess_move: MoveCoords },
    /// `quit`: shut down.
    Quit,
    /// Anything else; ignored, never fatal.
    Unknown,
}

/// The mathematical shape of a received command, with sequences in place
/// of vectors.
pub enum CommandView {
    Uci,
    UciNewGame,
    IsReady,
    ReadyOk,
    Position { startpos: bool, fen: Option<Seq<u8>>, moves: Seq<MoveCoords> },
    Go { nodes: Option<u64> },
    Info { cp: Option<i32>, mate: Option<i8>, raw: Seq<u8> },
    BestMove { chess_move: MoveCoords },
    Quit,
    Unknown,
}

impl View for ReceivedCommand {
    type V = CommandView;

    open spec fn view(&self) -> CommandView {
        match self {
            ReceivedCommand::Uci => CommandView::Uci,
            ReceivedCommand::UciNewGame => CommandView::UciNewGame,
            ReceivedCommand::IsReady => CommandView::IsReady,
            ReceivedCommand::ReadyOk => CommandView::ReadyOk,
            ReceivedCommand::Position { startpos, fen, moves } => CommandView::Position {
                startpos: *startpos,
                fen: match fen {
                    Some(f) => Some(f@),
                    None => None,
                },
                moves: moves@,
            },
            ReceivedCommand::Go { nodes } => CommandView::Go { nodes: *nodes },
            ReceivedCommand::Info { cp, mate, raw } => CommandView::Info {
                cp: *cp,
                mate: *mate,
                raw: raw@,
            },
            ReceivedCommand::BestMove { chess_move } => CommandView::BestMove {
                chess_move: *chess_move,
            },
            ReceivedCommand::Quit => CommandView::Quit,
            ReceivedCommand::Unknown => CommandView::Unknown,
        }
    }
}

/// A command written to a peer.
#[derive(Debug, Clone, PartialEq, Eq)]
pub enum SentCommand {
    /// `uciok`: we speak the protocol.
    UciOk,
    /// `readyok`: we are alive.
    ReadyOk,
    /// `id name <name>`: who we are.
    IdName(Vec<u8>),
    /// `id author <author>`: who wrote us.
    IdAuthor(Vec<u8>),
    /// `position fen <record>`: put the engine on this position.
    Position { fen: Vec<u8> },
    /// `go`, optionally `go nodes <budget>`: start searching.
    Go { nodes: Option<u64> },
    /// `bestmove <move>`: the move we play, in coordinate text.
    BestMove(Vec<u8>),
    /// A progress line passed through unmodified for observability.
    Info(Vec<u8>),
    /// `quit`: ask the peer to shut down.
    Quit,
}

/// The exact line a command is written as, newline included.
pub open spec fn spec_serialize(c: SentCommand) -> Seq<u8> {
    match c {
        SentCommand::UciOk => "uciok".spec_bytes() + seq![10u8],
        SentCommand::ReadyOk => "readyok".spec_bytes() + seq![10u8],
        SentCommand::IdName(name) => "id name ".spec_bytes() + name@ + seq![10u8],
        SentCommand::IdAuthor(author) => "id author ".spec_bytes() + author@ + seq![10u8],
        SentCommand::Position { fen } => "position fen ".spec_bytes() + fen@ + seq![10u8],
        SentCommand::Go { nodes } => match nodes {
            None => "go".spec_bytes() + seq![10u8],
            Some(n) => "go nodes ".spec_bytes() + crate::text::u64_digits(n as nat) + seq![10u8],
        },
        SentCommand::BestMove(text) => "bestmove ".spec_bytes() + text@ + seq![10u8],
        SentCommand::Info(raw) => raw@ + seq![10u8],
        SentCommand::Quit => "quit".spec_bytes() + seq![10u8],
    }
}

/// A byte that separates words on a protocol line.
pub open spec fn is_space(c: u8) -> bool {
    c == 32 || c == 9 || c == 13 || c == 10
}

/// How far the word starting at the head of the run reaches.
pub open spec fn token_len(s: Seq<u8>) -> nat
    decreases s.len(),
{
    if s.len() == 0 || is_space(s[0]) {
        0
    } else {
        1 + token_len(s.drop_first())
    }
}

/// A word never reaches past the end of the run.
pub proof fn lemma_token_len_le(s: Seq<u8>)
    ensures
        token_len(s) <= s.len(),
    decreases s.len(),
{
    if s.len() > 0 && !is_space(s[0]) {
        lemma_token_len_le(s.drop_first());
    }
}

/// A run whose first `n` bytes are non-space, followed by a space or the
/// end, has a head word of exactly `n` bytes.
pub proof fn lemma_token_len_exact(s: Seq<u8>, n: int)
    requires
        0 <= n <= s.len(),
        forall|k: int| 0 <= k < n ==> !is_space(#[trigger] s[k]),
        n == s.len() || is_space(s[n]),
    ensures
        token_len(s) == n,
    decreases n,
{
    if n == 0 {
    } else {
        assert(!is_space(s[0]));
        lemma_token_len_exact(s.drop_first(), n - 1);
    }
}

/// The words of a line, in order, split on ASCII whitespace.
pub open spec fn spec_tokens(s: Seq<u8>) -> Seq<Seq<u8>>
    decreases s.len(),
    via spec_tokens_decreases
{
    if s.len() == 0 {
        Seq::empty()
    } else if is_space(s[0]) {
        spec_tokens(s.drop_first())
    } else {
        seq![s.take(token_len(s) as int)] + spec_tokens(s.skip(token_len(s) as int))
    }
}

#[via_fn]
proof fn spec_tokens_decreases(s: Seq<u8>) {
    if s.len() > 0 && !is_space(s[0]) {
        lemma_token_len_le(s);
    }
}

/// The byte runs a vector of words stands for.
pub open spec fn views_of(ts: Seq<Vec<u8>>) -> Seq<Seq<u8>> {
    ts.map_values(|v: Vec<u8>| v@)
}

/// Splits a line into its words.
pub fn tokenize(line: &[u8]) -> (r: Vec<Vec<u8>>)
    ensures
        views_of(r@) == spec_tokens(line@),
{
    let mut r: Vec<Vec<u8>> = Vec::new();
    let mut i: usize = 0;
    proof {
        assert(line@.skip(0) =~= line@);
        assert(views_of(r@) =~= Seq::<Seq<u8>>::empty());
        assert(views_of(r@) + spec_tokens(line@) =~= spec_tokens(line@));
    }
    while i < line.len()
        invariant
            i <= line@.len(),
            views_of(r@) + spec_tokens(line@.skip(i as int)) == spec_tokens(line@),
        decreases line@.len() - i,
    {
        let c = line[i];
        if c == 32 || c == 9 || c == 13 || c == 10 {
            proof {
                assert(line@.skip(i as int).drop_first() =~= line@.skip(i + 1));
            }
            i = i + 1;
        } else {
            let mut j = i + 1;
            while j < line.len() && !(line[j] == 32 || line[j] == 9 || line[j] == 13 || line[j]
                == 10)
                invariant
                    i < j <= line@.len(),
                    forall|k: int| i <= k < j ==> !is_space(#[trigger] line@[k]),
                decreases line@.len() - j,
            {
                j = j + 1;
            }
            let mut tok: Vec<u8> = Vec::new();
            let mut k = i;
            while k < j
                invariant
                    i <= k <= j <= line@.len(),
                    tok@ == line@.subrange(i as int, k as int),
                decreases j - k,
            {
                proof {
                    assert(line@.subrange(i as int, k + 1) =~= line@.subrange(
                        i as int,
                        k as int,
                    ).push(line@[k as int]));
                }
                tok.push(line[k]);
                k = k + 1;
            }
            proof {
                let rest = line@.skip(i as int);
                assert forall|m: int| 0 <= m < j - i implies !is_space(#[trigger] rest[m]) by {
                    assert(rest[m] == line@[i + m]);
                }
                if (j as int) < line@.len() {
                    assert(is_space(rest[j - i]));
                }
                lemma_token_len_exact(rest, j - i);
                assert(rest.take(j - i) =~= line@.subrange(i as int, j as int));
                assert(rest.skip(j - i) =~= line@.skip(j as int));
                let ghost old_views = views_of(r@);
                assert(views_of(r@.push(tok)) =~= old_views.push(tok@));
                assert(old_views.push(tok@) + spec_tokens(line@.skip(j as int)) =~= old_views + (
                seq![tok@] + spec_tokens(line@.skip(j as int))));
                assert(spec_tokens(rest) == seq![rest.take(token_len(rest) as int)]
                    + spec_tokens(rest.skip(token_len(rest) as int)));
            }
            r.push(tok);
            i = j;
        }
    }
    proof {
        assert(line@.skip(i as int) =~= Seq::<u8>::empty());
        assert(views_of(r@) + spec_tokens(line@.skip(i as int)) =~= views_of(r@));
    }
    r
}

/// The promotion piece a trailing letter of a move word denotes.
pub open spec fn spec_promo_of(c: u8) -> Option<PromoPiece> {
    if c == 113 {
        Some(PromoPiece::Queen)
    } else if c == 114 {
        Some(PromoPiece::Rook)
    } else if c == 110 {
        Some(PromoPiece::Knight)
    } else if c == 98 {
        Some(PromoPiece::Bishop)
    } else {
        None
    }
}

/// The move a word denotes in coordinate notation: file letter and rank
/// digit of the origin, the same for the destination, and an optional
/// promotion letter.
pub open spec fn spec_move_of(s: Seq<u8>) -> Option<MoveCoords> {
    if (s.len() == 4 || s.len() == 5) && (97 <= s[0] && s[0] <= 104) && (49 <= s[1] && s[1] <= 56)
        && (97 <= s[2] && s[2] <= 104) && (49 <= s[3] && s[3] <= 56) && (s.len() == 4
        || spec_promo_of(s[4]) is Some) {
        Some(
            MoveCoords {
                from_file: (s[0] - 97) as u8,
                from_rank: (s[1] - 49) as u8,
                to_file: (s[2] - 97) as u8,
                to_rank: (s[3] - 49) as u8,
                promotion: if s.len() == 5 {
                    spec_promo_of(s[4])
                } else {
                    None
                },
            },
        )
    } else {
        None
    }
}

/// Reads a move word; a well-formed word yields in-range coordinates.
pub fn parse_move_token(s: &[u8]) -> (r: Option<MoveCoords>)
    ensures
        r == spec_move_of(s@),
        r matches Some(c) ==> c.wf(),
{
    if s.len() != 4 && s.len() != 5 {
        return None;
    }
    let f0 = s[0];
    let r0 = s[1];
    let f1 = s[2];
    let r1 = s[3];
    if !(97 <= f0 && f0 <= 104 && 49 <= r0 && r0 <= 56 && 97 <= f1 && f1 <= 104 && 49 <= r1 && r1
        <= 56) {
        return None;
    }
    let promotion = if s.len() == 5 {
        let p = s[4];
        if p == 113 {
            Some(PromoPiece::Queen)
        } else if p == 114 {
            Some(PromoPiece::Rook)
        } else if p == 110 {
            Some(PromoPiece::Knight)
        } else if p == 98 {
            Some(PromoPiece::Bishop)
        } else {
            return None;
        }
    } else {
        None
    };
    Some(
        MoveCoords {
            from_file: f0 - 97,
            from_rank: r0 - 49,
            to_file: f1 - 97,
            to_rank: r1 - 49,
            promotion,
        },
    )
}

/// The first position at or after `from` whose word is `word`; the
/// length of the run when the word never occurs.
pub open spec fn find_from(t: Seq<Seq<u8>>, from: int, word: Seq<u8>) -> int
    decreases t.len() - from,
{
    if !(0 <= from < t.len()) {
        t.len() as int
    } else if t[from] == word {
        from
    } else {
        find_from(t, from + 1, word)
    }
}

/// Looks a word up among the words of a line, from a given position on.
fn find_token(t: &Vec<Vec<u8>>, from: usize, word: &[u8]) -> (r: usize)
    requires
        from <= t@.len(),
    ensures
        r == find_from(views_of(t@), from as int, word@),
        from <= r <= t@.len(),
{
    let ghost v = views_of(t@);
    let mut i = from;
    while i < t.len()
        invariant
            from <= i <= t@.len(),
            v == views_of(t@),
            find_from(v, from as int, word@) == find_from(v, i as int, word@),
        decreases t@.len() - i,
    {
        if crate::text::bytes_equal(t[i].as_slice(), word) {
            proof {
                assert(v[i as int] == t@[i as int]@);
                assert(find_from(v, i as int, word@) == i);
            }
            return i;
        }
        proof {
            assert(v[i as int] == t@[i as int]@);
            assert(find_from(v, i as int, word@) == find_from(v, i + 1, word@));
        }
        i = i + 1;
    }
    proof {
        assert(find_from(v, i as int, word@) == v.len());
    }
    i
}

/// The moves listed from position `from` to the end of the line, each
/// word read in coordinate notation; nothing if any word is malformed.
pub open spec fn spec_moves_of(t: Seq<Seq<u8>>, from: int) -> Option<Seq<MoveCoords>>
    decreases t.len() - from,
{
    if from >= t.len() {
        Some(Seq::empty())
    } else {
        match spec_move_of(t[from]) {
            None => None,
            Some(c) => match spec_moves_of(t, from + 1) {
                None => None,
                Some(rest) => Some(seq![c] + rest),
            },
        }
    }
}

/// `r` with `a` put in front, if there is anything to put it in front of.
pub open spec fn opt_prepend(a: Seq<MoveCoords>, r: Option<Seq<MoveCoords>>) -> Option<
    Seq<MoveCoords>,
> {
    match r {
        None => None,
        Some(x) => Some(a + x),
    }
}

/// Reads the move words from position `from` to the end of the line.
fn collect_moves(t: &Vec<Vec<u8>>, from: usize) -> (r: Option<Vec<MoveCoords>>)
    requires
        from <= t@.len(),
    ensures
        match spec_moves_of(views_of(t@), from as int) {
            Some(ms) => r matches Some(out) && out@ == ms,
            None => r is None,
        },
        r matches Some(out) ==> forall|i: int| 0 <= i < out@.len() ==> (
        #[trigger] out@[i]).wf(),
{
    let ghost v = views_of(t@);
    let mut acc: Vec<MoveCoords> = Vec::new();
    let mut i = from;
    proof {
        assert(opt_prepend(acc@, spec_moves_of(v, from as int)) == spec_moves_of(
            v,
            from as int,
        )) by {
            match spec_moves_of(v, from as int) {
                None => {},
                Some(x) => {
                    assert(acc@ + x =~= x);
                },
            }
        }
    }
    while i < t.len()
        invariant
            from <= i <= t@.len(),
            v == views_of(t@),
            spec_moves_of(v, from as int) == opt_prepend(acc@, spec_moves_of(v, i as int)),
            forall|k: int| 0 <= k < acc@.len() ==> (#[trigger] acc@[k]).wf(),
        decreases t@.len() - i,
    {
        proof {
            assert(v[i as int] == t@[i as int]@);
        }
        match parse_move_token(t[i].as_slice()) {
            None => {
                proof {
                    assert(spec_moves_of(v, i as int) is None);
                }
                return None;
            },
            Some(c) => {
                proof {
                    let ghost rest = spec_moves_of(v, i + 1);
                    match rest {
                        None => {},
                        Some(x) => {
                            assert(acc@ + (seq![c] + x) =~= acc@.push(c) + x);
                        },
                    }
                }
                acc.push(c);
            },
        }
        i = i + 1;
    }
    proof {
        assert(spec_moves_of(v, i as int) == Some(Seq::<MoveCoords>::empty()));
        assert(acc@ + Seq::<MoveCoords>::empty() =~= acc@);
    }
    Some(acc)
}

/// The words from `from` up to `to`, joined by single spaces.
pub open spec fn join_tokens(t: Seq<Seq<u8>>, from: int, to: int) -> Seq<u8>
    decreases to - from,
{
    if to <= from {
        Seq::empty()
    } else if from + 1 == to {
        t[from]
    } else {
        t[from] + seq![32u8] + join_tokens(t, from + 1, to)
    }
}

/// Joining splits at any interior position.
proof fn lemma_join_split(t: Seq<Seq<u8>>, a: int, b: int, c: int)
    requires
        a < b < c,
    ensures
        join_tokens(t, a, c) == join_tokens(t, a, b) + seq![32u8] + join_tokens(t, b, c),
    decreases b - a,
{
    if a + 1 == b {
    } else {
        lemma_join_split(t, a + 1, b, c);
        assert(t[a] + seq![32u8] + (join_tokens(t, a + 1, b) + seq![32u8] + join_tokens(t, b, c))
            =~= (t[a] + seq![32u8] + join_tokens(t, a + 1, b)) + seq![32u8] + join_tokens(
            t,
            b,
            c,
        ));
    }
}

/// Joins the words from `from` up to `to` with single spaces.
fn join_token_range(t: &Vec<Vec<u8>>, from: usize, to: usize) -> (r: Vec<u8>)
    requires
        from < to <= t@.len(),
    ensures
        r@ == join_tokens(views_of(t@), from as int, to as int),
{
    let ghost v = views_of(t@);
    let mut out: Vec<u8> = Vec::new();
    let mut i = from;
    while i < to
        invariant
            from <= i <= to <= t@.len(),
            v == views_of(t@),
            i == from ==> out@.len() == 0,
            i > from ==> out@ == join_tokens(v, from as int, i as int),
        decreases to - i,
    {
        proof {
            assert(v[i as int] == t@[i as int]@);
        }
        if i > from {
            out.push(32);
        }
        push_bytes(&mut out, t[i].as_slice());
        proof {
            if i == from {
                assert(out@ =~= v[i as int]);
            } else {
                lemma_join_split(v, from as int, i as int, i + 1);
                assert(out@ =~= join_tokens(v, from as int, i as int) + seq![32u8] + v[i as int]);
                assert(join_tokens(v, from as int, i as int) + seq![32u8] + join_tokens(
                    v,
                    i as int,
                    i + 1,
                ) =~= join_tokens(v, from as int, i as int) + seq![32u8] + v[i as int]);
            }
        }
        i = i + 1;
    }
    out
}

/// The line with its trailing newline bytes removed.
pub open spec fn trim_line(s: Seq<u8>) -> Seq<u8>
    decreases s.len(),
{
    if s.len() > 0 && (s.last() == 10 || s.last() == 13) {
        trim_line(s.drop_last())
    } else {
        s
    }
}

/// Copies the line without its trailing newline bytes.
fn trim_line_exec(line: &[u8]) -> (r: Vec<u8>)
    ensures
        r@ == trim_line(line@),
{
    let mut e = line.len();
    proof {
        assert(line@.take(e as int) =~= line@);
    }
    while e > 0 && (line[e - 1] == 10 || line[e - 1] == 13)
        invariant
            e <= line@.len(),
            trim_line(line@) == trim_line(line@.take(e as int)),
        decreases e,
    {
        proof {
            assert(line@.take(e as int).drop_last() =~= line@.take(e - 1));
        }
        e = e - 1;
    }
    let mut out: Vec<u8> = Vec::new();
    let mut k: usize = 0;
    while k < e
        invariant
            k <= e <= line@.len(),
            out@ == line@.take(e as int).subrange(0, k as int),
        decreases e - k,
    {
        proof {
            assert(line@.take(e as int).subrange(0, k + 1) =~= line@.take(e as int).subrange(
                0,
                k as int,
            ).push(line@[k as int]));
        }
        out.push(line[k]);
        k = k + 1;
    }
    proof {
        assert(line@.take(e as int).subrange(0, e as int) =~= line@.take(e as int));
        assert(trim_line(line@.take(e as int)) == line@.take(e as int));
    }
    out
}

/// What a `position` line establishes: the start position or a named
/// one, plus the moves to replay; malformed forms are unknown.
pub open spec fn spec_parse_position(t: Seq<Seq<u8>>) -> CommandView {
    if t.len() >= 2 && t[1] == "startpos".spec_bytes() {
        if t.len() == 2 {
            CommandView::Position { startpos: true, fen: None, moves: Seq::empty() }
        } else if t[2] == "moves".spec_bytes() {
            match spec_moves_of(t, 3) {
                Some(ms) => CommandView::Position { startpos: true, fen: None, moves: ms },
                None => CommandView::Unknown,
            }
        } else {
            CommandView::Unknown
        }
    } else if t.len() >= 3 && t[1] == "fen".spec_bytes() {
        let stop = find_from(t, 2, "moves".spec_bytes());
        if stop == 2 {
            CommandView::Unknown
        } else if stop >= t.len() {
            CommandView::Position {
                startpos: false,
                fen: Some(join_tokens(t, 2, t.len() as int)),
                moves: Seq::empty(),
            }
        } else {
            match spec_moves_of(t, stop + 1) {
                Some(ms) => CommandView::Position {
                    startpos: false,
                    fen: Some(join_tokens(t, 2, stop)),
                    moves: ms,
                },
                None => CommandView::Unknown,
            }
        }
    } else {
        CommandView::Unknown
    }
}

/// What a `go` line asks: an absent `nodes` clause means an unbounded
/// search; a named budget must be a readable number, else the whole line
/// is malformed and ignored.
pub open spec fn spec_parse_go(t: Seq<Seq<u8>>) -> CommandView {
    let i = find_from(t, 1, "nodes".spec_bytes());
    if i >= t.len() {
        CommandView::Go { nodes: None }
    } else if i + 1 < t.len() && crate::text::spec_u64_of(t[i + 1]) is Some {
        CommandView::Go { nodes: crate::text::spec_u64_of(t[i + 1]) }
    } else {
        CommandView::Unknown
    }
}

/// The centipawn score an `info` line reports, when it reports one.
pub open spec fn spec_info_cp(t: Seq<Seq<u8>>) -> Option<i32> {
    let i = find_from(t, 1, "score".spec_bytes());
    if i + 2 < t.len() && t[i + 1] == "cp".spec_bytes() {
        crate::text::spec_i32_of(t[i + 2])
    } else {
        None
    }
}

/// The mate distance an `info` line reports, when it reports one.
pub open spec fn spec_info_mate(t: Seq<Seq<u8>>) -> Option<i8> {
    let i = find_from(t, 1, "score".spec_bytes());
    if i + 2 < t.len() && t[i + 1] == "mate".spec_bytes() {
        crate::text::spec_i8_of(t[i + 2])
    } else {
        None
    }
}

/// What a line means, given its words and its trimmed text.
pub open spec fn spec_parse_tokens(t: Seq<Seq<u8>>, raw: Seq<u8>) -> CommandView {
    if t.len() == 0 {
        CommandView::Unknown
    } else if t[0] == "uci".spec_bytes() {
        if t.len() == 1 {
            CommandView::Uci
        } else {
            CommandView::Unknown
        }
    } else if t[0] == "ucinewgame".spec_bytes() {
        if t.len() == 1 {
            CommandView::UciNewGame
        } else {
            CommandView::Unknown
        }
    } else if t[0] == "isready".spec_bytes() {
        if t.len() == 1 {
            CommandView::IsReady
        } else {
            CommandView::Unknown
        }
    } else if t[0] == "readyok".spec_bytes() {
        if t.len() == 1 {
            CommandView::ReadyOk
        } else {
            CommandView::Unknown
        }
    } else if t[0] == "quit".spec_bytes() {
        if t.len() == 1 {
            CommandView::Quit
        } else {
            CommandView::Unknown
        }
    } else if t[0] == "position".spec_bytes() {
        spec_parse_position(t)
    } else if t[0] == "go".spec_bytes() {
        spec_parse_go(t)
    } else if t[0] == "info".spec_bytes() {
        CommandView::Info { cp: spec_info_cp(t), mate: spec_info_mate(t), raw }
    } else if t[0] == "bestmove".spec_bytes() {
        if t.len() >= 2 && spec_move_of(t[1]) is Some {
            CommandView::BestMove { chess_move: spec_move_of(t[1]).unwrap() }
        } else {
            CommandView::Unknown
        }
    } else {
        CommandView::Unknown
    }
}

/// What a protocol line means.
pub open spec fn spec_parse(line: Seq<u8>) -> CommandView {
    spec_parse_tokens(spec_tokens(line), trim_line(line))
}

/// Reads one protocol line into a command; a line that fits no rule of
/// the grammar is the unknown command.
pub fn parse_received(line: &[u8]) -> (r: ReceivedCommand)
    ensures
        r@ == spec_parse(line@),
{
    let tokens = tokenize(line);
    let ghost v = views_of(tokens@);
    if tokens.len() == 0 {
        return ReceivedCommand::Unknown;
    }
    proof {
        assert(v[0] == tokens@[0]@);
        assert forall|k: int| 0 <= k < v.len() implies v[k] == tokens@[k]@ by {}
    }
    let head = tokens[0].as_slice();
    if crate::text::bytes_equal(head, "uci".as_bytes()) {
        if tokens.len() == 1 {
            ReceivedCommand::Uci
        } else {
            ReceivedCommand::Unknown
        }
    } else if crate::text::bytes_equal(head, "ucinewgame".as_bytes()) {
        if tokens.len() == 1 {
            ReceivedCommand::UciNewGame
        } else {
            ReceivedCommand::Unknown
        }
    } else if crate::text::bytes_equal(head, "isready".as_bytes()) {
        if tokens.len() == 1 {
            ReceivedCommand::IsReady
        } else {
            ReceivedCommand::Unknown
        }
    } else if crate::text::bytes_equal(head, "readyok".as_bytes()) {
        if tokens.len() == 1 {
            ReceivedCommand::ReadyOk
        } else {
            ReceivedCommand::Unknown
        }
    } else if crate::text::bytes_equal(head, "quit".as_bytes()) {
        if tokens.len() == 1 {
            ReceivedCommand::Quit
        } else {
            ReceivedCommand::Unknown
        }
    } else if crate::text::bytes_equal(head, "position".as_bytes()) {
        parse_position(&tokens)
    } else if crate::text::bytes_equal(head, "go".as_bytes()) {
        let i = find_token(&tokens, 1, "nodes".as_bytes());
        if i >= tokens.len() {
            ReceivedCommand::Go { nodes: None }
        } else if tokens.len() - i > 1 {
            match crate::text::parse_u64(tokens[i + 1].as_slice()) {
                Some(budget) => ReceivedCommand::Go { nodes: Some(budget) },
                None => ReceivedCommand::Unknown,
            }
        } else {
            ReceivedCommand::Unknown
        }
    } else if crate::text::bytes_equal(head, "info".as_bytes()) {
        let i = find_token(&tokens, 1, "score".as_bytes());
        let mut cp: Option<i32> = None;
        let mut mate: Option<i8> = None;
        if tokens.len() - i > 2 {
            if crate::text::bytes_equal(tokens[i + 1].as_slice(), "cp".as_bytes()) {
                cp = crate::text::parse_i32(tokens[i + 2].as_slice());
            }
            if crate::text::bytes_equal(tokens[i + 1].as_slice(), "mate".as_bytes()) {
                mate = crate::text::parse_i8(tokens[i + 2].as_slice());
            }
        }
        let raw = trim_line_exec(line);
        ReceivedCommand::Info { cp, mate, raw }
    } else if crate::text::bytes_equal(head, "bestmove".as_bytes()) {
        if tokens.len() >= 2 {
            match parse_move_token(tokens[1].as_slice()) {
                Some(chess_move) => ReceivedCommand::BestMove { chess_move },
                None => ReceivedCommand::Unknown,
            }
        } else {
            ReceivedCommand::Unknown
        }
    } else {
        ReceivedCommand::Unknown
    }
}

/// Reads the tail of a `position` line.
fn parse_position(tokens: &Vec<Vec<u8>>) -> (r: ReceivedCommand)
    requires
        tokens@.len() >= 1,
    ensures
        r@ == spec_parse_position(views_of(tokens@)),
{
    let ghost v = views_of(tokens@);
    proof {
        assert forall|k: int| 0 <= k < v.len() implies v[k] == tokens@[k]@ by {}
    }
    if tokens.len() >= 2 && crate::text::bytes_equal(tokens[1].as_slice(), "startpos".as_bytes()) {
        if tokens.len() == 2 {
            ReceivedCommand::Position { startpos: true, fen: None, moves: Vec::new() }
        } else if crate::text::bytes_equal(tokens[2].as_slice(), "moves".as_bytes()) {
            match collect_moves(tokens, 3) {
                Some(moves) => ReceivedCommand::Position { startpos: true, fen: None, moves },
                None => ReceivedCommand::Unknown,
            }
        } else {
            ReceivedCommand::Unknown
        }
    } else if tokens.len() >= 3 && crate::text::bytes_equal(
        tokens[1].as_slice(),
        "fen".as_bytes(),
    ) {
        let stop = find_token(tokens, 2, "moves".as_bytes());
        if stop == 2 {
            ReceivedCommand::Unknown
        } else if stop >= tokens.len() {
            let fen = join_token_range(tokens, 2, tokens.len());
            ReceivedCommand::Position { startpos: false, fen: Some(fen), moves: Vec::new() }
        } else {
            let fen = join_token_range(tokens, 2, stop);
            match collect_moves(tokens, stop + 1) {
                Some(moves) => ReceivedCommand::Position {
                    startpos: false,
                    fen: Some(fen),
                    moves,
                },
                None => ReceivedCommand::Unknown,
            }
        }
    } else {
        ReceivedCommand::Unknown
    }
}

/// Appends a run of bytes.
fn push_bytes(out: &mut Vec<u8>, s: &[u8])
    ensures
        final(out)@ == old(out)@ + s@,
{
    for i in 0..s.len()
        invariant
            out@ == old(out)@ + s@.subrange(0, i as int),
    {
        proof {
            assert(old(out)@ + s@.subrange(0, i + 1) =~= (old(out)@ + s@.subrange(
                0,
                i as int,
            )).push(s@[i as int]));
        }
        out.push(s[i]);
    }
    proof {
        assert(old(out)@ + s@.subrange(0, s@.len() as int) =~= old(out)@ + s@);
    }
}

/// Writes a command as its protocol line, newline-terminated.
pub fn serialize(c: &SentCommand) -> (r: Vec<u8>)
    ensures
        r@ == spec_serialize(*c),
        r@.len() > 0,
        r@.last() == 10u8,
{
    let mut out: Vec<u8> = Vec::new();
    match c {
        SentCommand::UciOk => {
            push_bytes(&mut out, "uciok".as_bytes());
        },
        SentCommand::ReadyOk => {
            push_bytes(&mut out, "readyok".as_bytes());
        },
        SentCommand::IdName(name) => {
            push_bytes(&mut out, "id name ".as_bytes());
            push_bytes(&mut out, name.as_slice());
        },
        SentCommand::IdAuthor(author) => {
            push_bytes(&mut out, "id author ".as_bytes());
            push_bytes(&mut out, author.as_slice());
        },
        SentCommand::Position { fen } => {
            push_bytes(&mut out, "position fen ".as_bytes());
            push_bytes(&mut out, fen.as_slice());
        },
        SentCommand::Go { nodes } => {
            match nodes {
                None => {
                    push_bytes(&mut out, "go".as_bytes());
                },
                Some(n) => {
                    push_bytes(&mut out, "go nodes ".as_bytes());
                    let digits = crate::text::format_u64(*n);
                    push_bytes(&mut out, digits.as_slice());
                },
            }
        },
        SentCommand::BestMove(text) => {
            push_bytes(&mut out, "bestmove ".as_bytes());
            push_bytes(&mut out, text.as_slice());
        },
        SentCommand::Info(raw) => {
            push_bytes(&mut out, raw.as_slice());
        },
        SentCommand::Quit => {
            push_bytes(&mut out, "quit".as_bytes());
        },
    }
    out.push(10);
    proof {
        assert(out@ =~= spec_serialize(*c));
        assert(out@.last() == 10u8);
    }
    out
}

#[verifier::external_type_specification]
#[verifier::external_body]
pub struct ExStdin(std::io::Stdin);

#[verifier::external_type_specification]
#[verifier::external_body]
pub struct ExStdout(std::io::Stdout);

/// The two standard streams, spoken to one protocol line at a time:
/// reading parses, writing serializes, and the trusted part is kept to
/// the bare byte transfer.
#[derive(Debug)]
pub struct Communicator {
    input: std::io::Stdin,
    output: std::io::Stdout,
}

/// Relies on `std::io::stdin`: the handle to standard input.
#[verifier::external_body]
fn stdin_handle() -> std::io::Stdin {
    std::io::stdin()
}

/// Relies on `std::io::stdout`: the handle to standard output.
#[verifier::external_body]
fn stdout_handle() -> std::io::Stdout {
    std::io::stdout()
}

impl Communicator {
    /// A communicator over the process's standard streams.
    pub fn new() -> Communicator {
        Communicator { input: stdin_handle(), output: stdout_handle() }
    }

    /// Relies on `std::io::Stdin::read_line` through a lock: one line of
    /// standard input, newline included; nothing at end of input or on a
    /// read failure.  What the line holds depends on the peer, so nothing
    /// is promised of it.
    #[verifier::external_body]
    fn read_raw(&mut self) -> Option<Vec<u8>> {
        let mut buffer = String::new();
        let mut guard = self.input.lock();
        match std::io::BufRead::read_line(&mut guard, &mut buffer) {
            Ok(0) => None,
            Ok(_) => Some(buffer.into_bytes()),
            Err(_) => None,
        }
    }

    /// Relies on `std::io::Stdout::write_all` through a lock, and on
    /// `flush`: sends the line and reports whether both steps took it.
    #[verifier::external_body]
    fn write_raw(&mut self, line: &Vec<u8>) -> bool
        requires
            line@.len() > 0,
            line@.last() == 10u8,
    {
        let mut guard = std::io::Write::by_ref(&mut self.output);
        if std::io::Write::write_all(&mut guard, line.as_slice()).is_err() {
            return false;
        }
        std::io::Write::flush(&mut guard).is_ok()
    }

    /// Reads one line from the peer and parses it; nothing at end of
    /// input or on a read failure.
    pub fn read(&mut self) -> (r: Option<ReceivedCommand>)
        ensures
            r matches Some(c) ==> exists|line: Seq<u8>| c@ == spec_parse(line),
    {
        match self.read_raw() {
            None => None,
            Some(line) => {
                let c = parse_received(line.as_slice());
                proof {
                    assert(c@ == spec_parse(line@));
                }
                Some(c)
            },
        }
    }

    /// Serializes one command and writes it as a line to the peer;
    /// reports whether the write took it.
    pub fn write(&mut self, command: &SentCommand) -> (r: bool) {
        let line = serialize(command);
        self.write_raw(&line)
    }
}

} // verus!
