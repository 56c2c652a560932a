//! The coarse play mode a front end may ask for by name.

use vstd::prelude::*;

use crate::text::{eq_ignore_case, name_matches};
use vstd::string::StringSliceAdditionalSpecFns;

verus! {

/// Play to win, or play to lose.
#[derive(Debug, Copy, Clone, PartialEq, Eq, Structural)]
pub enum GameMode {
    Stockfish,
    Worstfish,
}

/// The mode a given name selects, compared without regard to ASCII case.
pub open spec fn spec_mode_of(s: Seq<u8>) -> Option<GameMode> {
    if name_matches(s, "boring".spec_bytes()) || name_matches(s, "stockfish".spec_bytes()) {
        Some(GameMode::Stockfish)
    } else if name_matches(s, "worstfish".spec_bytes()) {
        Some(GameMode::Worstfish)
    } else {
        None
    }
}

impl GameMode {
    /// Resolves a mode name, ignoring ASCII case; an unrecognized name
    /// comes back unchanged as the error.
    pub fn try_from<'a>(name: &'a str) -> (r: Result<GameMode, &'a str>)
        ensures
            spec_mode_of(name.spec_bytes()) matches Some(m) ==> r == Ok::<GameMode, &'a str>(m),
            spec_mode_of(name.spec_bytes()) is None ==> r == Err::<GameMode, &'a str>(name),
    {
        let b = name.as_bytes();
        if eq_ignore_case(b, "boring".as_bytes()) || eq_ignore_case(b, "stockfish".as_bytes()) {
            Ok(GameMode::Stockfish)
        } else if eq_ignore_case(b, "worstfish".as_bytes()) {
            Ok(GameMode::Worstfish)
        } else {
            Err(name)
        }
    }
}

} // verus!
