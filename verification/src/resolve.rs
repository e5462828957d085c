//! The media resolver: a single free-form query string resolves through a
//! fixed, short-circuiting priority chain — identifier parse, then content
//! hash, then filename — stopping at the first method that yields at least
//! one record. An identifier match always wins over a hash or filename
//! match even when the string would also fit those.

use vstd::prelude::*;
use crate::engine::IdListResponse;
use crate::text::{trim, parse_u64, spec_trim, spec_parse_u64};

verus! {

/// Which method of the chain produced a resolution.
#[derive(Debug, Clone, Copy, PartialEq, Eq, Structural)]
pub enum ResolveMethod {
    Identifier,
    Hash,
    Filename,
}

/// The outcome of a query: the matched identifiers in order, tagged with
/// the method that produced them, or no method at all when nothing
/// matched.
#[derive(Debug, Clone, PartialEq, Eq)]
pub struct QueryResolution {
    pub method: Option<ResolveMethod>,
    pub ids: Vec<u64>,
}

/// The shape a finished resolution always has: an identifier or hash
/// match is exactly one record; no method means no records.
pub open spec fn spec_resolution_wf(r: QueryResolution) -> bool {
    &&& r.method == Some(ResolveMethod::Identifier) ==> r.ids@.len() == 1
    &&& r.method == Some(ResolveMethod::Hash) ==> r.ids@.len() == 1
    &&& r.method == Some(ResolveMethod::Filename) ==> r.ids@.len() > 0
    &&& r.method is None ==> r.ids@.len() == 0
}

/// Where the chain stands: about to try the parsed identifier, about to
/// try the hash lookup, about to try the filename lookup, or finished.
#[derive(Debug, Clone, PartialEq, Eq)]
pub enum ResolveStage {
    AtId { id: u64 },
    AtHash,
    AtFilename,
    Finished { resolution: QueryResolution },
}

/// The next engine call the resolver asks its driver to make.
#[derive(Debug, Clone, PartialEq, Eq)]
pub enum ResolveAction {
    FetchById { id: u64 },
    QueryByHash { hash: String },
    QueryByFilename { name: String },
}

/// A resolution session for one query string. `trimmed` is the query with
/// surrounding whitespace removed; every lookup uses it. `hash_size` is
/// the engine's content-hash byte length: the hash stage applies only to a
/// trimmed query of exactly twice that many characters (hex encoding).
pub struct ResolveSession {
    pub trimmed: String,
    pub hash_size: usize,
    pub stage: ResolveStage,
}

impl ResolveSession {
    /// The session's invariant: the stage always agrees with the trimmed
    /// query — the identifier stage holds its parsed value, the hash stage
    /// is only reached with a hash-length query, and a finished resolution
    /// has its method's shape.
    pub open spec fn wf(&self) -> bool {
        &&& self.stage matches ResolveStage::AtId { id } ==> spec_parse_u64(self.trimmed@)
            == Some(id)
        &&& self.stage is AtHash ==> self.trimmed@.len() == 2 * (self.hash_size as int)
        &&& self.stage matches ResolveStage::Finished { resolution } ==> spec_resolution_wf(
            resolution,
        )
    }

    /// Starts the chain for a query: a query that parses as an identifier
    /// starts at the identifier stage; otherwise a query of exactly twice
    /// the hash byte length starts at the hash stage; anything else goes
    /// straight to the filename stage.
    pub fn new(query: &str, hash_size: usize) -> (s: Self)
        ensures
            s.wf(),
            s.trimmed@ == spec_trim(query@),
            s.hash_size == hash_size,
            match spec_parse_u64(spec_trim(query@)) {
                Some(id) => s.stage == (ResolveStage::AtId { id }),
                None => {
                    if spec_trim(query@).len() == 2 * (hash_size as int) {
                        s.stage is AtHash
                    } else {
                        s.stage is AtFilename
                    }
                },
            },
    {
        let trimmed = trim(query);
        let stage = match parse_u64(trimmed.as_str()) {
            Some(id) => ResolveStage::AtId { id },
            None => {
                let t_len = trimmed.as_str().unicode_len();
                if t_len % 2 == 0 && t_len / 2 == hash_size {
                    ResolveStage::AtHash
                } else {
                    ResolveStage::AtFilename
                }
            },
        };
        ResolveSession { trimmed, hash_size, stage }
    }

    /// The next engine call to make, or nothing once the chain finished.
    pub fn next_action(&self) -> (a: Option<ResolveAction>)
        ensures
            match self.stage {
                ResolveStage::AtId { id } => a == Some(ResolveAction::FetchById { id }),
                ResolveStage::AtHash => a matches Some(ResolveAction::QueryByHash { ref hash })
                    && hash@ == self.trimmed@,
                ResolveStage::AtFilename => a matches Some(
                    ResolveAction::QueryByFilename { ref name },
                ) && name@ == self.trimmed@,
                ResolveStage::Finished { .. } => a is None,
            },
    {
        match &self.stage {
            ResolveStage::AtId { id } => Some(ResolveAction::FetchById { id: *id }),
            ResolveStage::AtHash => Some(ResolveAction::QueryByHash { hash: self.trimmed.clone() }),
            ResolveStage::AtFilename => Some(
                ResolveAction::QueryByFilename { name: self.trimmed.clone() },
            ),
            ResolveStage::Finished { .. } => None,
        }
    }

    /// Settles the identifier attempt: a record behind the parsed
    /// identifier wins the chain outright with exactly that record;
    /// otherwise the chain falls to the hash stage when it applies, else
    /// to the filename stage.
    pub fn on_media_lookup(&mut self, found: bool)
        requires
            old(self).wf(),
            old(self).stage is AtId,
        ensures
            final(self).wf(),
            final(self).trimmed == old(self).trimmed,
            final(self).hash_size == old(self).hash_size,
            found ==> (final(self).stage matches ResolveStage::Finished { resolution }
                && resolution.method == Some(ResolveMethod::Identifier) && resolution.ids@
                == seq![old(self).stage->AtId_id]),
            !found ==> final(self).stage == {
                if old(self).trimmed@.len() == 2 * (old(self).hash_size as int) {
                    ResolveStage::AtHash
                } else {
                    ResolveStage::AtFilename
                }
            },
    {
        if found {
            let id = match &self.stage {
                ResolveStage::AtId { id } => *id,
                _ => 0,
            };
            let mut ids: Vec<u64> = Vec::new();
            ids.push(id);
            self.stage = ResolveStage::Finished {
                resolution: QueryResolution { method: Some(ResolveMethod::Identifier), ids },
            };
        } else {
            let t_len = self.trimmed.as_str().unicode_len();
            if t_len % 2 == 0 && t_len / 2 == self.hash_size {
                self.stage = ResolveStage::AtHash;
            } else {
                self.stage = ResolveStage::AtFilename;
            }
        }
    }

    /// Settles the hash attempt: at least one identifier with the queried
    /// hash wins the chain with the first of them; an empty answer or a
    /// failed query falls to the filename stage.
    pub fn on_hash_query(&mut self, r: IdListResponse)
        requires
            old(self).wf(),
            old(self).stage is AtHash,
        ensures
            final(self).wf(),
            final(self).trimmed == old(self).trimmed,
            final(self).hash_size == old(self).hash_size,
            match r {
                IdListResponse::Ids { ref ids } => {
                    if ids@.len() > 0 {
                        final(self).stage matches ResolveStage::Finished { resolution }
                            && resolution.method == Some(ResolveMethod::Hash) && resolution.ids@
                            == seq![ids@[0]]
                    } else {
                        final(self).stage is AtFilename
                    }
                },
                IdListResponse::QueryFailed { .. } => final(self).stage is AtFilename,
            },
    {
        match r {
            IdListResponse::Ids { ids } => {
                if ids.len() > 0 {
                    let first = ids[0];
                    let mut one: Vec<u64> = Vec::new();
                    one.push(first);
                    self.stage = ResolveStage::Finished {
                        resolution: QueryResolution { method: Some(ResolveMethod::Hash), ids: one },
                    };
                } else {
                    self.stage = ResolveStage::AtFilename;
                }
            },
            IdListResponse::QueryFailed { .. } => {
                self.stage = ResolveStage::AtFilename;
            },
        }
    }

    /// Settles the filename attempt, which always finishes the chain: all
    /// matches are returned in the engine's order and tagged as filename
    /// matches; no match, or a failed query, finishes with nothing.
    pub fn on_filename_query(&mut self, r: IdListResponse)
        requires
            old(self).wf(),
            old(self).stage is AtFilename,
        ensures
            final(self).wf(),
            final(self).trimmed == old(self).trimmed,
            final(self).hash_size == old(self).hash_size,
            match r {
                IdListResponse::Ids { ref ids } => {
                    if ids@.len() > 0 {
                        final(self).stage matches ResolveStage::Finished { resolution }
                            && resolution.method == Some(ResolveMethod::Filename)
                            && resolution.ids@ == ids@
                    } else {
                        final(self).stage matches ResolveStage::Finished { resolution }
                            && resolution.method is None && resolution.ids@.len() == 0
                    }
                },
                IdListResponse::QueryFailed { .. } => final(self).stage matches
                    ResolveStage::Finished { resolution } && resolution.method is None
                    && resolution.ids@.len() == 0,
            },
    {
        match r {
            IdListResponse::Ids { ids } => {
                if ids.len() > 0 {
                    self.stage = ResolveStage::Finished {
                        resolution: QueryResolution { method: Some(ResolveMethod::Filename), ids },
                    };
                } else {
                    self.stage = ResolveStage::Finished {
                        resolution: QueryResolution { method: None, ids },
                    };
                }
            },
            IdListResponse::QueryFailed { .. } => {
                let none: Vec<u64> = Vec::new();
                self.stage = ResolveStage::Finished {
                    resolution: QueryResolution { method: None, ids: none },
                };
            },
        }
    }

    /// The finished resolution, if the chain has finished.
    pub fn into_resolution(self) -> (r: Option<QueryResolution>)
        ensures
            match self.stage {
                ResolveStage::Finished { resolution } => r == Some(resolution),
                _ => r is None,
            },
    {
        match self.stage {
            ResolveStage::Finished { resolution } => Some(resolution),
            _ => None,
        }
    }
}

} // verus!
