//! The library engine's answers, as plain values. The engine itself
//! (content-addressed storage, hashing, series persistence) is an external
//! collaborator driven by the caller; the pipelines here decide what to ask
//! it and what each answer means, so its answers are modelled as data.

use vstd::prelude::*;

verus! {

/// What the engine answered to one registration request: a fresh
/// identifier, a report that byte-identical content is already stored
/// (carrying the stored content hash), or any other failure.
#[derive(Debug, Clone, PartialEq, Eq)]
pub enum AddResponse {
    Added { id: u64 },
    AlreadyExists { hash: String },
    Failed { cause: String },
}

/// What the engine answered to a query that returns identifiers: the
/// matching identifiers in the engine's native order, or a failure.
#[derive(Debug, Clone, PartialEq, Eq)]
pub enum IdListResponse {
    Ids { ids: Vec<u64> },
    QueryFailed { cause: String },
}

} // verus!
