//! The score model: ordering, negation, and mate-distance construction.

use mallard_chess::score::{sort_scores, Score};
use std::cmp::Ordering;

#[test]
fn sorting() {
    // Actual
    let scores = vec![
        Score::Stalemate(5),
        Score::OurMate(0),
        Score::Stalemate(2),
        Score::Centipawns(500),
        Score::Stalemate(0),
        Score::Centipawns(-100),
        Score::Centipawns(50),
        Score::OurMate(5),
        Score::Centipawns(-30),
        Score::OurMate(2),
        Score::TheirMate(2),
        Score::Centipawns(200),
        Score::TheirMate(0),
        Score::TheirMate(5),
    ];
    let scores = sort_scores(&scores);

    // Expected
    let sorted = vec![
        Score::TheirMate(0),
        Score::TheirMate(2),
        Score::TheirMate(5),
        Score::Stalemate(0),
        Score::Stalemate(2),
        Score::Stalemate(5),
        Score::Centipawns(-100),
        Score::Centipawns(-30),
        Score::Centipawns(50),
        Score::Centipawns(200),
        Score::Centipawns(500),
        Score::OurMate(5),
        Score::OurMate(2),
        Score::OurMate(0),
    ];

    assert_eq!(scores, sorted, "Sorted score list did not match expected");
}

/// The fixed corpus in strictly ascending order; every pair compares one
/// way exactly.
#[test]
fn order_corpus() {
    let corpus = vec![
        Score::TheirMate(0),
        Score::TheirMate(2),
        Score::TheirMate(5),
        Score::Stalemate(0),
        Score::Stalemate(2),
        Score::Stalemate(5),
        Score::Centipawns(-100),
        Score::Centipawns(-30),
        Score::Centipawns(50),
        Score::Centipawns(200),
        Score::Centipawns(500),
        Score::OurMate(5),
        Score::OurMate(2),
        Score::OurMate(0),
    ];
    for i in 0..corpus.len() {
        for j in 0..corpus.len() {
            let expected = if i < j {
                Ordering::Less
            } else if i == j {
                Ordering::Equal
            } else {
                Ordering::Greater
            };
            assert_eq!(
                corpus[i].cmp(&corpus[j]),
                expected,
                "comparing {:?} and {:?}",
                corpus[i],
                corpus[j]
            );
        }
    }
}

#[test]
fn negation_involution() {
    let samples = vec![
        Score::Centipawns(0),
        Score::Centipawns(35),
        Score::Centipawns(-1200),
        Score::Centipawns(i32::MAX),
        Score::OurMate(0),
        Score::OurMate(7),
        Score::TheirMate(3),
        Score::Stalemate(0),
        Score::Stalemate(9),
    ];
    for s in samples {
        assert_eq!(s.neg().neg(), s, "negating twice must give back {:?}", s);
    }
}

#[test]
fn negation_shape() {
    assert_eq!(Score::OurMate(4).neg(), Score::TheirMate(4));
    assert_eq!(Score::TheirMate(4).neg(), Score::OurMate(4));
    assert_eq!(Score::Stalemate(6).neg(), Score::Stalemate(6));
    assert_eq!(Score::Centipawns(250).neg(), Score::Centipawns(-250));
    assert_eq!(Score::Centipawns(-75).neg(), Score::Centipawns(75));
}

#[test]
fn from_mate_signs() {
    assert_eq!(Score::from_mate(3), Score::OurMate(3));
    assert_eq!(Score::from_mate(-2), Score::TheirMate(2));
    assert_eq!(Score::from_mate(0), Score::TheirMate(0));
    assert_eq!(Score::from_mate(i8::MIN), Score::TheirMate(128));
}

#[test]
fn comparison_helpers() {
    assert!(Score::TheirMate(0).lt_than(&Score::OurMate(0)));
    assert!(Score::Centipawns(10).le_than(&Score::Centipawns(10)));
    assert!(!Score::OurMate(0).le_than(&Score::Centipawns(500)));
    assert!(Score::Stalemate(3) < Score::Centipawns(-1000));
    assert!(Score::OurMate(1) > Score::OurMate(2));
    assert_eq!(
        Score::Centipawns(7).partial_cmp(&Score::Centipawns(7)),
        Some(Ordering::Equal)
    );
}
