//! How much of each kind of work is done at the same time.
use vstd::prelude::*;

verus! {

pub const MAX_CONCURRENT_EXTRACT: usize = 1;

pub const MAX_CONCURRENT_ASR_SESSIONS: usize = 1;

pub const MAX_CONCURRENT_LLM: usize = 2;

pub const MAX_CONCURRENT_EXPORT: usize = 2;

} // verus!
