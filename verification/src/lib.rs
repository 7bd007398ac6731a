//! Core engine of a code-review tool: it turns raw unified-diff text into a
//! structured, line-and-hunk representation, annotates every line with
//! syntax-highlight spans supplied by the caller, overlays word-level change
//! markers on paired deleted/added lines, and memoizes finished records in a
//! bounded least-recently-used cache.
#![verifier::loop_isolation(false)]

use vstd::prelude::*;

pub mod assemble;
pub mod cache;
pub mod fingerprint;
pub mod highlight;
pub mod editor;
pub mod language;
pub mod model;
pub mod parse;
pub mod session;
pub mod span;
pub mod watcher;
pub mod worddiff;
pub mod synthetic;
pub mod text;

verus! {

/// Saturating cast from a wide counter to the `u32` fields of the data model.
pub open spec fn spec_sat_u32(n: int) -> u32 {
    if n > u32::MAX { u32::MAX } else if n < 0 { 0u32 } else { n as u32 }
}

/// Clamp a wide running counter into a `u32` field.
pub fn sat_u32(n: u128) -> (r: u32)
    ensures
        r == spec_sat_u32(n as int),
{
    if n > u32::MAX as u128 {
        u32::MAX
    } else {
        n as u32
    }
}

} // verus!
