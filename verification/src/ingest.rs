//! The ingestion pipeline: one outcome per input file, in input order.
//! The pipeline is a session that tells its driver what to ask the engine
//! next and reconciles each answer: a fresh identifier becomes
//! `Registered`, already-stored content is recovered through a hash query
//! into `Duplicate`, anything else becomes `Failed` — and a failure never
//! stops the rest of the batch.

use vstd::prelude::*;
use crate::engine::{AddResponse, IdListResponse};
use crate::media::MediaType;

verus! {

/// Per-file result of ingestion: a fresh identifier, the identifier of
/// already-stored identical content, or a failure that names the file and
/// its cause.
#[derive(Debug, Clone, PartialEq, Eq)]
pub enum IngestionOutcome {
    Registered { id: u64 },
    Duplicate { id: u64 },
    Failed { file: String, cause: String },
}

/// The next thing the ingestion session asks its driver to do: register
/// the next file with the engine, recover the identifier of content the
/// engine reported as already stored, or nothing — the batch is complete.
#[derive(Debug)]
pub enum IngestAction {
    AddFile { file: String, kind: Option<MediaType>, title: Option<String>, comment: Option<String> },
    QueryHash { hash: String },
    Done,
}

/// The cause recorded when the engine reported already-stored content but
/// the recovery query returned no identifier.
pub open spec fn spec_missing_duplicate_cause() -> Seq<char> {
    "no media found for the reported content hash"@
}

/// An ingestion session over a fixed batch of files. Outcomes accumulate
/// one per file, in input order; `pending_hash` carries the stored content
/// hash while a duplicate is being recovered.
pub struct IngestSession {
    pub files: Vec<String>,
    pub kind: Option<MediaType>,
    pub title: Option<String>,
    pub comment: Option<String>,
    pub outcomes: Vec<IngestionOutcome>,
    pub pending_hash: Option<String>,
}

impl IngestSession {
    /// The session's invariant: never more outcomes than files, a pending
    /// recovery only while a file is still being processed, and every
    /// failure names the file it stands for.
    pub open spec fn wf(&self) -> bool {
        &&& self.outcomes@.len() <= self.files@.len()
        &&& self.pending_hash is Some ==> self.outcomes@.len() < self.files@.len()
        &&& forall|i: int|
            0 <= i < self.outcomes@.len() ==> ((#[trigger] self.outcomes@[i]) matches
            IngestionOutcome::Failed { file, .. } ==> file@ == self.files@[i]@)
    }

    /// Starts a session. A title or comment is applied only to a batch of
    /// exactly one file; for any other batch size both are forced absent,
    /// because one note cannot be distributed over several registrations.
    pub fn new(
        files: Vec<String>,
        kind: Option<MediaType>,
        title: Option<String>,
        comment: Option<String>,
    ) -> (s: Self)
        ensures
            s.wf(),
            s.files == files,
            s.kind == kind,
            s.outcomes@.len() == 0,
            s.pending_hash is None,
            files@.len() == 1 ==> s.title == title && s.comment == comment,
            files@.len() != 1 ==> s.title is None && s.comment is None,
    {
        let single = files.len() == 1;
        IngestSession {
            files,
            kind,
            title: if single {
                title
            } else {
                None
            },
            comment: if single {
                comment
            } else {
                None
            },
            outcomes: Vec::new(),
            pending_hash: None,
        }
    }

    /// What the driver should do next: finish a pending duplicate
    /// recovery, register the next unprocessed file, or stop — every file
    /// has its outcome.
    pub fn next_action(&self) -> (a: IngestAction)
        requires
            self.wf(),
        ensures
            match a {
                IngestAction::QueryHash { hash } => self.pending_hash matches Some(h) && hash@
                    == h@,
                IngestAction::AddFile { file, kind, title, comment } => {
                    &&& self.pending_hash is None
                    &&& self.outcomes@.len() < self.files@.len()
                    &&& file@ == self.files@[self.outcomes@.len() as int]@
                    &&& kind == self.kind
                    &&& title == self.title
                    &&& comment == self.comment
                },
                IngestAction::Done => self.pending_hash is None && self.outcomes@.len()
                    == self.files@.len(),
            },
    {
        match &self.pending_hash {
            Some(h) => IngestAction::QueryHash { hash: h.clone() },
            None => {
                if self.outcomes.len() < self.files.len() {
                    IngestAction::AddFile {
                        file: self.files[self.outcomes.len()].clone(),
                        kind: self.kind,
                        title: clone_opt_string(&self.title),
                        comment: clone_opt_string(&self.comment),
                    }
                } else {
                    IngestAction::Done
                }
            },
        }
    }

    /// Reconciles the engine's answer to a registration request: a fresh
    /// identifier settles the file as `Registered`; already-stored content
    /// opens a recovery for its hash; any other failure settles the file
    /// as `Failed` with its cause — and the batch goes on.
    pub fn on_add_response(&mut self, r: AddResponse)
        requires
            old(self).wf(),
            old(self).pending_hash is None,
            old(self).outcomes@.len() < old(self).files@.len(),
        ensures
            final(self).wf(),
            final(self).files == old(self).files,
            final(self).kind == old(self).kind,
            final(self).title == old(self).title,
            final(self).comment == old(self).comment,
            match r {
                AddResponse::Added { id } => final(self).outcomes@ == old(self).outcomes@.push(
                    (IngestionOutcome::Registered { id }),
                ) && final(self).pending_hash is None,
                AddResponse::AlreadyExists { hash } => final(self).outcomes == old(self).outcomes
                    && (final(self).pending_hash matches Some(h) && h@ == hash@),
                AddResponse::Failed { cause } => final(self).outcomes@ == old(self).outcomes@.push(
                    (IngestionOutcome::Failed {
                        file: old(self).files@[old(self).outcomes@.len() as int],
                        cause,
                    }),
                ) && final(self).pending_hash is None,
            },
    {
        match r {
            AddResponse::Added { id } => {
                self.outcomes.push(IngestionOutcome::Registered { id });
            },
            AddResponse::AlreadyExists { hash } => {
                self.pending_hash = Some(hash);
            },
            AddResponse::Failed { cause } => {
                let file = self.files[self.outcomes.len()].clone();
                self.outcomes.push(IngestionOutcome::Failed { file, cause });
            },
        }
    }

    /// Settles a pending duplicate recovery: a non-empty identifier list
    /// recovers the first identifier as `Duplicate`; an empty list or a
    /// failed query settles the file as `Failed`.
    pub fn on_recovery_response(&mut self, r: IdListResponse)
        requires
            old(self).wf(),
            old(self).pending_hash is Some,
        ensures
            final(self).wf(),
            final(self).files == old(self).files,
            final(self).kind == old(self).kind,
            final(self).title == old(self).title,
            final(self).comment == old(self).comment,
            final(self).pending_hash is None,
            match r {
                IdListResponse::Ids { ids } => {
                    if ids@.len() > 0 {
                        final(self).outcomes@ == old(self).outcomes@.push(
                            (IngestionOutcome::Duplicate { id: ids@[0] }),
                        )
                    } else {
                        &&& final(self).outcomes@.len() == old(self).outcomes@.len() + 1
                        &&& final(self).outcomes@.take(old(self).outcomes@.len() as int) == old(
                            self,
                        ).outcomes@
                        &&& final(self).outcomes@.last() matches IngestionOutcome::Failed {
                            file,
                            cause,
                        } && file == old(self).files@[old(self).outcomes@.len() as int] && cause@
                            == spec_missing_duplicate_cause()
                    }
                },
                IdListResponse::QueryFailed { cause } => final(self).outcomes@ == old(
                    self,
                ).outcomes@.push(
                    (IngestionOutcome::Failed {
                        file: old(self).files@[old(self).outcomes@.len() as int],
                        cause,
                    }),
                ),
            },
    {
        self.pending_hash = None;
        match r {
            IdListResponse::Ids { ids } => {
                if ids.len() > 0 {
                    let id = ids[0];
                    self.outcomes.push(IngestionOutcome::Duplicate { id });
                } else {
                    let ghost prior = self.outcomes@;
                    let file = self.files[self.outcomes.len()].clone();
                    let cause = missing_duplicate_cause();
                    self.outcomes.push(IngestionOutcome::Failed { file, cause });
                    proof {
                        assert(self.outcomes@.take(prior.len() as int) =~= prior);
                    }
                }
            },
            IdListResponse::QueryFailed { cause } => {
                let file = self.files[self.outcomes.len()].clone();
                self.outcomes.push(IngestionOutcome::Failed { file, cause });
            },
        }
    }

    /// Whether every file of the batch has its outcome.
    pub fn is_done(&self) -> (b: bool)
        ensures
            b <==> (self.pending_hash is None && self.outcomes@.len() == self.files@.len()),
    {
        self.pending_hash.is_none() && self.outcomes.len() == self.files.len()
    }

    /// The outcomes settled so far, one per processed file, in input order.
    pub fn outcomes(&self) -> (r: &Vec<IngestionOutcome>)
        ensures
            r == &self.outcomes,
    {
        &self.outcomes
    }

    /// Ends the session, handing the batch's outcomes over.
    pub fn into_outcomes(self) -> (r: Vec<IngestionOutcome>)
        ensures
            r == self.outcomes,
    {
        self.outcomes
    }
}

/// The engine's complete answer for one file: the registration response,
/// and the recovery answer exactly when the engine reported already-stored
/// content.
#[derive(Debug, Clone, PartialEq, Eq)]
pub struct FileResponse {
    pub add: AddResponse,
    pub recovery: Option<IdListResponse>,
}

/// What outcome one file's engine answers settle: a fresh identifier is
/// `Registered`; already-stored content whose recovery returned at least
/// one identifier is `Duplicate` of the first; an empty recovery, a
/// failed recovery query, or any other registration failure is `Failed`
/// for that file.
pub open spec fn spec_outcome_matches(file: String, r: FileResponse, o: IngestionOutcome) -> bool {
    match r.add {
        AddResponse::Added { id } => o == (IngestionOutcome::Registered { id }),
        AddResponse::Failed { cause } => o == (IngestionOutcome::Failed { file, cause }),
        AddResponse::AlreadyExists { .. } => match r.recovery {
            Some(IdListResponse::Ids { ids }) => {
                if ids@.len() > 0 {
                    o == (IngestionOutcome::Duplicate { id: ids@[0] })
                } else {
                    (o matches IngestionOutcome::Failed { file: f, cause } && f == file && cause@
                        == spec_missing_duplicate_cause())
                }
            },
            Some(IdListResponse::QueryFailed { cause }) => o == (IngestionOutcome::Failed {
                file,
                cause,
            }),
            None => false,
        },
    }
}

/// The whole-batch form of the session's step contracts: a batch of N
/// files, run against one engine answer per file, yields exactly N
/// outcomes, one per file in input order, each settled by that file's
/// answers — in particular, a file whose content the engine reports as
/// already stored comes out `Duplicate` of the recovered identifier, and
/// every freshly added file comes out `Registered` with its assigned
/// identifier, wherever in the batch each stands.
pub fn ingest_batch(
    files: Vec<String>,
    kind: Option<MediaType>,
    title: Option<String>,
    comment: Option<String>,
    responses: Vec<FileResponse>,
) -> (r: Vec<IngestionOutcome>)
    requires
        responses@.len() == files@.len(),
        forall|i: int|
            0 <= i < responses@.len() ==> ((#[trigger] responses@[i]).recovery is Some
                <==> responses@[i].add is AlreadyExists),
    ensures
        r@.len() == files@.len(),
        forall|i: int|
            0 <= i < r@.len() ==> spec_outcome_matches(files@[i], responses@[i], #[trigger] r@[i]),
{
    let ghost gfiles = files@;
    let ghost gresponses = responses@;
    let total = responses.len();
    let mut session = IngestSession::new(files, kind, title, comment);
    let mut remaining = responses;
    let mut i: usize = 0;
    while remaining.len() > 0
        invariant
            session.wf(),
            session.files@ == gfiles,
            gresponses.len() == gfiles.len(),
            forall|k: int|
                0 <= k < gresponses.len() ==> ((#[trigger] gresponses[k]).recovery is Some
                    <==> gresponses[k].add is AlreadyExists),
            session.pending_hash is None,
            total == gresponses.len(),
            i + remaining@.len() == total,
            remaining@ == gresponses.skip(i as int),
            session.outcomes@.len() == i,
            forall|j: int|
                0 <= j < i ==> spec_outcome_matches(
                    gfiles[j],
                    gresponses[j],
                    #[trigger] session.outcomes@[j],
                ),
        decreases remaining@.len(),
    {
        let resp = remaining.remove(0);
        proof {
            assert(resp == gresponses[i as int]);
            assert(remaining@ =~= gresponses.skip(i + 1));
        }
        let ghost prev = session.outcomes@;
        let FileResponse { add, recovery } = resp;
        let ghost grecovery = recovery;
        session.on_add_response(add);
        match recovery {
            Some(rec) => {
                let ghost grec = rec;
                session.on_recovery_response(rec);
                proof {
                    if grec matches IdListResponse::Ids { ids } && ids@.len() == 0 {
                        assert(session.outcomes@.take(i as int) == prev);
                        assert forall|j: int| 0 <= j < i implies #[trigger] session.outcomes@[j]
                            == prev[j] by {
                            assert(session.outcomes@.take(i as int)[j] == session.outcomes@[j]);
                        }
                    }
                }
            },
            None => {},
        }
        proof {
            assert(session.outcomes@.len() == i + 1);
            assert(spec_outcome_matches(
                gfiles[i as int],
                gresponses[i as int],
                session.outcomes@[i as int],
            ));
            assert forall|j: int| 0 <= j < i + 1 implies spec_outcome_matches(
                gfiles[j],
                gresponses[j],
                #[trigger] session.outcomes@[j],
            ) by {
                if j < i {
                    assert(session.outcomes@[j] == prev[j]);
                    assert(spec_outcome_matches(gfiles[j], gresponses[j], prev[j]));
                }
            }
        }
        i += 1;
    }
    session.into_outcomes()
}

/// The cause used when a reported duplicate cannot be recovered, as a
/// value equal to `spec_missing_duplicate_cause`.
fn missing_duplicate_cause() -> (r: String)
    ensures
        r@ == spec_missing_duplicate_cause(),
{
    "no media found for the reported content hash".to_owned()
}

fn clone_opt_string(o: &Option<String>) -> (r: Option<String>)
    ensures
        r == *o,
{
    match o {
        Some(s) => Some(s.clone()),
        None => None,
    }
}

} // verus!
