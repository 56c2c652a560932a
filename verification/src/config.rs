//! The configuration surface: which policy plays, how hard the external
//! engine may search, and the dial of the probabilistic blend.
//!
//! Reading the command line and opening a log file happen outside the
//! library; what is parsed and validated here is the part with rules.

use vstd::prelude::*;

use crate::engine::EngineKind;
use crate::text::{bytes_equal, spec_u64_of};
use vstd::string::StringSliceAdditionalSpecFns;

verus! {

/// A configuration argument that does not parse.
#[derive(Debug, Copy, Clone, PartialEq, Eq, Structural)]
pub enum ConfigError {
    /// The node budget is neither unlimited nor a decimal number.
    InvalidNodeBudget,
}

/// The validated configuration: the active policy, the optional node
/// budget for the external engine, and the blend percentage.
#[derive(Debug, Copy, Clone)]
pub struct Configuration {
    pub engine_kind: EngineKind,
    pub stockfish_nodes: Option<u64>,
    pub scoville_percent: u8,
}

/// What the node-budget argument denotes: the words for "no bound" give
/// an absent budget, a decimal number that fits — with one optional
/// leading plus sign — gives that bound, and anything else is refused.
pub open spec fn spec_node_budget(s: Seq<u8>) -> Result<Option<u64>, ConfigError> {
    if s == "-".spec_bytes() || s == "unlimited".spec_bytes() {
        Ok(None)
    } else {
        let digits = if s.len() > 0 && s[0] == 43 {
            s.drop_first()
        } else {
            s
        };
        match spec_u64_of(digits) {
            Some(v) => Ok(Some(v)),
            None => Err(ConfigError::InvalidNodeBudget),
        }
    }
}

/// Reads the node-budget argument.
pub fn parse_node_budget(value: &str) -> (r: Result<Option<u64>, ConfigError>)
    ensures
        r == spec_node_budget(value.spec_bytes()),
{
    let b = value.as_bytes();
    if bytes_equal(b, "-".as_bytes()) || bytes_equal(b, "unlimited".as_bytes()) {
        Ok(None)
    } else {
        let digits = if b.len() > 0 && b[0] == 43 {
            crate::text::split_first(b)
        } else {
            b
        };
        match crate::text::parse_u64(digits) {
            Some(v) => Ok(Some(v)),
            None => Err(ConfigError::InvalidNodeBudget),
        }
    }
}

} // verus!
