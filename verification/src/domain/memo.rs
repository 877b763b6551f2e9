//! Parsed memo values shared by command and workflow implementations.
use vstd::prelude::*;

verus! {

/// One parsed memo line anchored to the session timeline when available.
#[derive(Debug, Clone, PartialEq, Eq)]
pub struct MemoLine {
    pub at_ms: Option<u64>,
    pub text: String,
    pub tags: Vec<String>,
}

} // verus!
