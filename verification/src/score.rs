//! The score model: the semantic value of an evaluated outcome and its
//! strict total order.
//!
//! Every verdict the external engine reports is reshaped into a [`Score`],
//! always expressed from the evaluating side's perspective.  The order
//! defined here is the single source of truth that every decision policy
//! sorts against.

use vstd::prelude::*;

verus! {

/// A candidate move paired with the score of the position it leads to.
#[derive(Debug, Copy, Clone, PartialEq, Eq)]
pub struct ScoredMove {
    pub chess_move: chess::ChessMove,
    pub score: Score,
}

/// The value of an evaluated outcome, from the evaluating side's view.
#[derive(Debug, Copy, Clone, PartialEq, Eq, Structural)]
pub enum Score {
    /// Material advantage in centipawns; negative means the evaluating
    /// side is losing.
    Centipawns(i32),
    /// Moves until the opponent is checkmated.
    OurMate(u8),
    /// Moves until the evaluating side is checkmated.
    TheirMate(u8),
    /// Moves until a drawn game.
    Stalemate(u8),
}

impl Score {
    /// Rank of the variant in the total order, lowest first: losing to a
    /// mate is worst, forcing one is best, and material sits between a
    /// draw and a win.
    pub open spec fn category(self) -> int {
        match self {
            Score::TheirMate(_) => 0,
            Score::Stalemate(_) => 1,
            Score::Centipawns(_) => 2,
            Score::OurMate(_) => 3,
        }
    }

    /// The strict total order on scores.  Between variants the category
    /// decides; within a variant the comparison is numeric, inverted for
    /// `OurMate`, where a mate in fewer moves is the better outcome.
    pub open spec fn lt(self, other: Score) -> bool {
        if self.category() != other.category() {
            self.category() < other.category()
        } else {
            match (self, other) {
                (Score::Centipawns(x), Score::Centipawns(y)) => x < y,
                (Score::OurMate(x), Score::OurMate(y)) => y < x,
                (Score::TheirMate(x), Score::TheirMate(y)) => x < y,
                (Score::Stalemate(x), Score::Stalemate(y)) => x < y,
                _ => false,
            }
        }
    }

    /// Non-strict companion of [`Score::lt`].
    pub open spec fn le(self, other: Score) -> bool {
        self.lt(other) || self == other
    }

    /// The score as seen from the opposite player: gains become losses,
    /// our mates become theirs and vice versa, and a draw stays a draw.
    ///
    /// A centipawn value at the very bottom of the machine range has no
    /// representable opposite and is left in place, so that negation stays
    /// an involution on every score.
    pub open spec fn negated(self) -> Score {
        match self {
            Score::Centipawns(v) => if v == i32::MIN {
                Score::Centipawns(v)
            } else {
                Score::Centipawns((0 - v) as i32)
            },
            Score::OurMate(moves) => Score::TheirMate(moves),
            Score::TheirMate(moves) => Score::OurMate(moves),
            Score::Stalemate(moves) => Score::Stalemate(moves),
        }
    }

    /// What [`Score::from_mate`] yields: the sign of the reported mate
    /// distance says whose mate it is, and a distance of zero means the
    /// evaluating side is mated on the spot.
    pub open spec fn spec_from_mate(value: i8) -> Score {
        if value > 0 {
            Score::OurMate(value as u8)
        } else if value < 0 {
            Score::TheirMate((0 - value) as u8)
        } else {
            Score::TheirMate(0)
        }
    }

    /// Builds a score out of a mate distance reported by the external
    /// engine: positive for a mate delivered by the evaluating side,
    /// negative for one suffered, zero for being mated this turn.
    pub fn from_mate(value: i8) -> (r: Score)
        ensures
            r == Score::spec_from_mate(value),
    {
        if value > 0 {
            Score::OurMate(value as u8)
        } else if value < 0 {
            let magnitude: i16 = 0 - (value as i16);
            Score::TheirMate(magnitude as u8)
        } else {
            Score::TheirMate(0)
        }
    }

    /// Reinterprets the score from the opposite player's perspective.
    pub fn neg(self) -> (r: Score)
        ensures
            r == self.negated(),
    {
        match self {
            Score::Centipawns(v) => if v == i32::MIN {
                Score::Centipawns(v)
            } else {
                Score::Centipawns(0 - v)
            },
            Score::OurMate(moves) => Score::TheirMate(moves),
            Score::TheirMate(moves) => Score::OurMate(moves),
            Score::Stalemate(moves) => Score::Stalemate(moves),
        }
    }

    /// Compares two scores; the greater one is the more advantageous for
    /// the evaluating side.
    pub fn cmp(&self, other: &Score) -> (r: core::cmp::Ordering)
        ensures
            r == core::cmp::Ordering::Less <==> Score::lt(*self, *other),
            r == core::cmp::Ordering::Equal <==> *self == *other,
            r == core::cmp::Ordering::Greater <==> Score::lt(*other, *self),
    {
        proof {
            lemma_score_order_trichotomy(*self, *other);
        }
        match (self, other) {
            (Score::Centipawns(x), Score::Centipawns(y)) => cmp_i32(*x, *y),
            (Score::OurMate(x), Score::OurMate(y)) => cmp_u8(*y, *x),
            (Score::TheirMate(x), Score::TheirMate(y)) => cmp_u8(*x, *y),
            (Score::Stalemate(x), Score::Stalemate(y)) => cmp_u8(*x, *y),
            _ => {
                if self.category_index() < other.category_index() {
                    core::cmp::Ordering::Less
                } else {
                    core::cmp::Ordering::Greater
                }
            },
        }
    }

    /// True when `self` is no better than `other`.
    pub fn le_than(&self, other: &Score) -> (r: bool)
        ensures
            r == Score::le(*self, *other),
    {
        match self.cmp(other) {
            core::cmp::Ordering::Greater => false,
            _ => true,
        }
    }

    /// True when `self` is strictly worse than `other`.
    pub fn lt_than(&self, other: &Score) -> (r: bool)
        ensures
            r == Score::lt(*self, *other),
    {
        match self.cmp(other) {
            core::cmp::Ordering::Less => true,
            _ => false,
        }
    }

    /// Executable twin of [`Score::category`].
    fn category_index(&self) -> (r: u8)
        ensures
            r as int == self.category(),
    {
        match self {
            Score::TheirMate(_) => 0,
            Score::Stalemate(_) => 1,
            Score::Centipawns(_) => 2,
            Score::OurMate(_) => 3,
        }
    }
}

impl PartialOrd for Score {
    /// Compares through [`Score::cmp`]: the order is total, so two
    /// scores are always comparable.
    fn partial_cmp(&self, other: &Score) -> (r: Option<core::cmp::Ordering>) {
        proof {
            lemma_score_order_trichotomy(*self, *other);
        }
        Some(self.cmp(other))
    }
}

impl vstd::std_specs::cmp::PartialOrdSpecImpl for Score {
    open spec fn obeys_partial_cmp_spec() -> bool {
        true
    }

    open spec fn partial_cmp_spec(&self, other: &Score) -> Option<core::cmp::Ordering> {
        if Score::lt(*self, *other) {
            Some(core::cmp::Ordering::Less)
        } else if *self == *other {
            Some(core::cmp::Ordering::Equal)
        } else {
            Some(core::cmp::Ordering::Greater)
        }
    }
}

/// Three-way comparison on machine integers.
fn cmp_i32(x: i32, y: i32) -> (r: core::cmp::Ordering)
    ensures
        r == core::cmp::Ordering::Less <==> x < y,
        r == core::cmp::Ordering::Equal <==> x == y,
        r == core::cmp::Ordering::Greater <==> x > y,
{
    if x < y {
        core::cmp::Ordering::Less
    } else if x == y {
        core::cmp::Ordering::Equal
    } else {
        core::cmp::Ordering::Greater
    }
}

/// Three-way comparison on mate distances.
fn cmp_u8(x: u8, y: u8) -> (r: core::cmp::Ordering)
    ensures
        r == core::cmp::Ordering::Less <==> x < y,
        r == core::cmp::Ordering::Equal <==> x == y,
        r == core::cmp::Ordering::Greater <==> x > y,
{
    if x < y {
        core::cmp::Ordering::Less
    } else if x == y {
        core::cmp::Ordering::Equal
    } else {
        core::cmp::Ordering::Greater
    }
}

/// The comparison is a strict total order: for every pair exactly one of
/// "less", "equal", "greater" holds.
pub proof fn lemma_score_order_trichotomy(a: Score, b: Score)
    ensures
        a.lt(b) || a == b || b.lt(a),
        a.lt(b) ==> a != b && !b.lt(a),
        a == b ==> !a.lt(b) && !b.lt(a),
{
}

/// The strict order is transitive.
pub proof fn lemma_score_order_transitive(a: Score, b: Score, c: Score)
    requires
        a.lt(b),
        b.lt(c),
    ensures
        a.lt(c),
{
}

/// Negation is an involution on every score; it swaps the two mate
/// variants at an equal distance, leaves a stalemate in place, and flips
/// the sign of every representable centipawn value.
pub proof fn lemma_negate_involution(s: Score)
    ensures
        s.negated().negated() == s,
        forall|moves: u8| Score::OurMate(moves).negated() == Score::TheirMate(moves),
        forall|moves: u8| Score::TheirMate(moves).negated() == Score::OurMate(moves),
        forall|moves: u8| Score::Stalemate(moves).negated() == Score::Stalemate(moves),
        forall|v: i32|
            v != i32::MIN ==> Score::Centipawns(v).negated() == Score::Centipawns((0 - v) as i32),
{
}

/// An ascending run of scores: every earlier entry is no better than every
/// later one.
pub open spec fn scores_sorted(s: Seq<Score>) -> bool {
    forall|i: int, j: int| 0 <= i < j < s.len() ==> s[i].le(s[j])
}

/// `p` lists each index of `s` exactly once, and `r` is `s` read through
/// `p`: the characterization of a reordering.
pub open spec fn reorders<A>(p: Seq<int>, r: Seq<A>, s: Seq<A>) -> bool {
    &&& p.len() == s.len()
    &&& r.len() == s.len()
    &&& (forall|i: int| 0 <= i < p.len() ==> 0 <= #[trigger] p[i] < s.len())
    &&& (forall|j: int| 0 <= j < s.len() ==> #[trigger] p.contains(j))
    &&& p.no_duplicates()
    &&& (forall|i: int| 0 <= i < p.len() ==> r[i] == s[#[trigger] p[i]])
}

/// Sorts scores ascending, worst first.  The result is some reordering of
/// the input: nothing is lost, duplicated or invented.
pub fn sort_scores(scores: &Vec<Score>) -> (r: Vec<Score>)
    ensures
        scores_sorted(r@),
        exists|p: Seq<int>| reorders(p, r@, scores@),
{
    let order = sorted_order_for(scores);
    let mut r: Vec<Score> = Vec::new();
    let ghost p = order@.map_values(|u: usize| u as int);
    for k in 0..order.len()
        invariant
            order@.len() == scores@.len(),
            forall|i: int| 0 <= i < order@.len() ==> #[trigger] order@[i] < scores@.len(),
            r@.len() == k,
            forall|i: int| 0 <= i < k ==> r@[i] == scores@[order@[i] as int],
    {
        r.push(scores[order[k]]);
    }
    proof {
        assert(reorders(p, r@, scores@)) by {
            assert forall|j: int| 0 <= j < scores@.len() implies #[trigger] p.contains(j) by {
                assert(index_appears(order@, j));
                let w = choose|w: int| 0 <= w < order@.len() && order@[w] as int == j;
                assert(p[w] == j);
            }
            assert forall|i: int, j: int|
                0 <= i < p.len() && 0 <= j < p.len() && i != j implies p[i] != p[j] by {
                assert(order@[i] != order@[j]);
            }
        }
        assert(scores_sorted(r@)) by {
            assert forall|i: int, j: int| 0 <= i < j < r@.len() implies r@[i].le(r@[j]) by {
                assert(r@[i] == scores@[order@[i] as int]);
                assert(r@[j] == scores@[order@[j] as int]);
            }
        }
    }
    r
}

/// Some position of `order` holds the index `j`.
pub open spec fn index_appears(order: Seq<usize>, j: int) -> bool {
    exists|i: int| 0 <= i < order.len() && order[i] as int == j
}

/// The order in which to read `items` so that their scores come out
/// ascending and ties keep their original relative order.
///
/// Returns each index below `items.len()` exactly once; reading the
/// scores along the returned order yields an ascending, stable
/// arrangement.
pub fn sorted_order_for(items: &Vec<Score>) -> (order: Vec<usize>)
    ensures
        order@.len() == items@.len(),
        forall|i: int| 0 <= i < order@.len() ==> #[trigger] order@[i] < items@.len(),
        forall|i: int, j: int|
            0 <= i < order@.len() && 0 <= j < order@.len() && i != j ==> order@[i] != order@[j],
        forall|j: int| 0 <= j < items@.len() ==> #[trigger] index_appears(order@, j),
        forall|i: int, j: int|
            0 <= i < j < order@.len() ==> items@[#[trigger] order@[i] as int].le(
                items@[#[trigger] order@[j] as int],
            ),
        forall|i: int, j: int|
            0 <= i < j < order@.len() && items@[#[trigger] order@[i] as int] == items@[
                #[trigger] order@[j] as int] ==> order@[i] < order@[j],
{
    let mut order: Vec<usize> = Vec::new();
    let n = items.len();
    for k in 0..n
        invariant
            n == items@.len(),
            order@.len() == k,
            forall|i: int| 0 <= i < order@.len() ==> #[trigger] order@[i] < k,
            forall|i: int, j: int|
                0 <= i < order@.len() && 0 <= j < order@.len() && i != j ==> order@[i]
                    != order@[j],
            forall|j: int| 0 <= j < k ==> #[trigger] index_appears(order@, j),
            forall|i: int, j: int|
                0 <= i < j < order@.len() ==> items@[#[trigger] order@[i] as int].le(
                    items@[#[trigger] order@[j] as int],
                ),
            forall|i: int, j: int|
                0 <= i < j < order@.len() && items@[#[trigger] order@[i] as int] == items@[
                    #[trigger] order@[j] as int] ==> order@[i] < order@[j],
    {
        let mut pos = order.len();
        while pos > 0 && items[k].lt_than(&items[order[pos - 1]])
            invariant
                n == items@.len(),
                k < n,
                order@.len() == k,
                pos <= k,
                forall|i: int| 0 <= i < order@.len() ==> #[trigger] order@[i] < k,
                forall|j: int| pos <= j < order@.len() ==> items@[k as int].lt(
                    items@[#[trigger] order@[j] as int],
                ),
            decreases pos,
        {
            pos = pos - 1;
        }
        proof {
            if pos > 0 {
                lemma_score_order_trichotomy(
                    items@[k as int],
                    items@[order@[pos - 1] as int],
                );
                assert(items@[order@[pos - 1] as int].le(items@[k as int]));
            }
        }
        let ghost old_order = order@;
        order.insert(pos, k);
        proof {
            old_order.insert_ensures(pos as int, k);
            assert forall|i: int, j: int|
                0 <= i < j < order@.len() implies items@[#[trigger] order@[i] as int].le(
                items@[#[trigger] order@[j] as int],
            ) by {
                lemma_sorted_after_insert(old_order, order@, items@, pos as int, k, i, j);
            }
            assert forall|i: int, j: int|
                0 <= i < j < order@.len() && items@[#[trigger] order@[i] as int] == items@[
                    #[trigger] order@[j] as int] implies order@[i] < order@[j] by {
                lemma_stable_after_insert(old_order, order@, items@, pos as int, k, i, j);
            }
            assert forall|j: int| 0 <= j < k + 1 implies #[trigger] index_appears(order@, j) by {
                if j == k {
                    assert(order@[pos as int] as int == j);
                } else {
                    assert(index_appears(old_order, j));
                    let w = choose|w: int| 0 <= w < old_order.len() && old_order[w] as int == j;
                    if w < pos {
                        assert(order@[w] as int == j);
                    } else {
                        assert(order@[w + 1] as int == j);
                    }
                }
            }
        }
    }
    order
}

/// After inserting index `k` at `pos` into an order that was ascending and
/// whose suffix from `pos` on was strictly above the key of `k`, the order
/// is ascending again.
proof fn lemma_sorted_after_insert(
    old_order: Seq<usize>,
    new_order: Seq<usize>,
    items: Seq<Score>,
    pos: int,
    k: usize,
    i: int,
    j: int,
)
    requires
        0 <= pos <= old_order.len(),
        new_order == old_order.insert(pos, k),
        forall|a: int| 0 <= a < old_order.len() ==> (#[trigger] old_order[a] as int) < items.len(),
        (k as int) < items.len(),
        forall|a: int, b: int|
            0 <= a < b < old_order.len() ==> items[#[trigger] old_order[a] as int].le(
                items[#[trigger] old_order[b] as int],
            ),
        forall|a: int| pos <= a < old_order.len() ==> items[k as int].lt(
            items[#[trigger] old_order[a] as int],
        ),
        pos > 0 ==> items[old_order[pos - 1] as int].le(items[k as int]),
        0 <= i < j < new_order.len(),
    ensures
        items[new_order[i] as int].le(items[new_order[j] as int]),
{
    old_order.insert_ensures(pos, k);
    lemma_score_order_trichotomy(items[k as int], items[k as int]);
    if i < pos && j < pos {
        assert(new_order[i] == old_order[i]);
        assert(new_order[j] == old_order[j]);
    } else if i < pos && j == pos {
        if i < pos - 1 {
            lemma_le_transitive(
                items[old_order[i] as int],
                items[old_order[pos - 1] as int],
                items[k as int],
            );
        }
    } else if i < pos && j > pos {
        assert(new_order[j] == old_order[j - 1]);
        assert(items[old_order[i] as int].le(items[old_order[j - 1] as int]));
    } else if i == pos {
        assert(new_order[j] == old_order[j - 1]);
        assert(items[k as int].lt(items[old_order[j - 1] as int]));
    } else {
        assert(new_order[i] == old_order[i - 1]);
        assert(new_order[j] == old_order[j - 1]);
    }
}

/// Stability is kept across the insertion: among equal keys the original
/// positions still come out in order.
proof fn lemma_stable_after_insert(
    old_order: Seq<usize>,
    new_order: Seq<usize>,
    items: Seq<Score>,
    pos: int,
    k: usize,
    i: int,
    j: int,
)
    requires
        0 <= pos <= old_order.len(),
        new_order == old_order.insert(pos, k),
        (k as int) < items.len(),
        forall|a: int| 0 <= a < old_order.len() ==> (#[trigger] old_order[a] as int) < k as int,
        forall|a: int, b: int|
            0 <= a < b < old_order.len() && items[#[trigger] old_order[a] as int] == items[
                #[trigger] old_order[b] as int] ==> old_order[a] < old_order[b],
        forall|a: int| pos <= a < old_order.len() ==> items[k as int].lt(
            items[#[trigger] old_order[a] as int],
        ),
        0 <= i < j < new_order.len(),
        items[new_order[i] as int] == items[new_order[j] as int],
    ensures
        new_order[i] < new_order[j],
{
    old_order.insert_ensures(pos, k);
    if i < pos && j < pos {
        assert(new_order[i] == old_order[i]);
        assert(new_order[j] == old_order[j]);
    } else if i < pos && j == pos {
        assert(new_order[i] == old_order[i]);
    } else if i < pos && j > pos {
        assert(new_order[i] == old_order[i]);
        assert(new_order[j] == old_order[j - 1]);
    } else if i == pos {
        assert(new_order[j] == old_order[j - 1]);
        lemma_score_order_trichotomy(items[k as int], items[old_order[j - 1] as int]);
        assert(false);
    } else {
        assert(new_order[i] == old_order[i - 1]);
        assert(new_order[j] == old_order[j - 1]);
    }
}

/// The non-strict order is transitive.
pub proof fn lemma_le_transitive(a: Score, b: Score, c: Score)
    requires
        a.le(b),
        b.le(c),
    ensures
        a.le(c),
{
    if a.lt(b) && b.lt(c) {
        lemma_score_order_transitive(a, b, c);
    }
}

} // verus!
