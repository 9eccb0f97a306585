//! Semantic-analysis core for association lists of a VHDL front end.
//!
//! The library resolves the formal side of an association list (a port map,
//! generic map, or subprogram call) against a declared interface, checks that
//! every required formal is connected, and then drives target-directed type
//! checking of each supplied actual, emitting source-located diagnostics
//! without aborting the surrounding pass.

pub mod assoc;
pub mod covered;
pub mod diag;
pub mod interface;
pub mod laws;
pub mod lookup;
pub mod names;
pub mod pos;
pub mod refs;
pub mod resolve;
pub mod scope;
pub mod tokens;
pub mod types;
