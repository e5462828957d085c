//! The series binder: deciding which series a batch is bound to, refusing
//! a sorted bind when any file failed (a partial ordered series would have
//! silently wrong positions), and planning the exact sequence of
//! `add_to_series` calls for the rest.

use vstd::prelude::*;
use crate::ingest::IngestionOutcome;

verus! {

/// The user's series intent for one invocation: none, an existing series
/// by identifier, or a new series by name (with or without leave to prompt
/// for another name when the name is taken).
#[derive(Debug, Clone, PartialEq, Eq)]
pub enum SeriesIntent {
    NoSeries,
    Existing { uuid: String },
    NewByName { name: String, allow_prompt: bool },
}

/// How to obtain the target series: use the given identifier, create a
/// series under the given name, ask the user for a fresh name first, or
/// bind nothing at all.
#[derive(Debug, Clone, PartialEq, Eq)]
pub enum SeriesStep {
    UseExisting { uuid: String },
    CreateNamed { name: String },
    PromptForName,
    NoBinding,
}

/// Resolves the series intent one step, given whether the requested new
/// name is already taken in the engine: an existing identifier is used as
/// is; a new name is created directly unless it is taken and prompting is
/// allowed, in which case a fresh name must be asked for first.
pub fn series_resolution_step(intent: &SeriesIntent, name_taken: bool) -> (s: SeriesStep)
    ensures
        match *intent {
            SeriesIntent::NoSeries => s is NoBinding,
            SeriesIntent::Existing { ref uuid } => s matches SeriesStep::UseExisting {
                uuid: ref u,
            } && u@ == uuid@,
            SeriesIntent::NewByName { ref name, allow_prompt } => {
                if name_taken && allow_prompt {
                    s is PromptForName
                } else {
                    s matches SeriesStep::CreateNamed { name: ref n } && n@ == name@
                }
            },
        },
{
    match intent {
        SeriesIntent::NoSeries => SeriesStep::NoBinding,
        SeriesIntent::Existing { uuid } => SeriesStep::UseExisting { uuid: uuid.clone() },
        SeriesIntent::NewByName { name, allow_prompt } => {
            if name_taken && *allow_prompt {
                SeriesStep::PromptForName
            } else {
                SeriesStep::CreateNamed { name: name.clone() }
            }
        },
    }
}

/// The identifier an outcome contributes to a series bind, if any.
pub open spec fn spec_outcome_id(o: IngestionOutcome) -> Option<u64> {
    match o {
        IngestionOutcome::Registered { id } => Some(id),
        IngestionOutcome::Duplicate { id } => Some(id),
        IngestionOutcome::Failed { .. } => None,
    }
}

/// Whether any outcome in the batch is a failure.
pub open spec fn spec_any_failed(s: Seq<IngestionOutcome>) -> bool {
    exists|i: int| 0 <= i < s.len() && (#[trigger] s[i]) is Failed
}

/// The identifiers of the non-failed outcomes, in the batch's order.
pub open spec fn spec_kept_ids(s: Seq<IngestionOutcome>) -> Seq<u64>
    decreases s.len(),
{
    if s.len() == 0 {
        Seq::empty()
    } else {
        (match spec_outcome_id(s[0]) {
            Some(id) => seq![id],
            None => Seq::empty(),
        }) + spec_kept_ids(s.skip(1))
    }
}

/// The number of non-failed outcomes in the batch.
pub open spec fn spec_count_non_failed(s: Seq<IngestionOutcome>) -> int
    decreases s.len(),
{
    if s.len() == 0 {
        0int
    } else {
        (if s[0] is Failed {
            0int
        } else {
            1int
        }) + spec_count_non_failed(s.skip(1))
    }
}

/// The identifiers bound to a series are exactly as many as the batch's
/// non-failed outcomes: one bind call per non-failed outcome.
pub proof fn lemma_kept_ids_count(s: Seq<IngestionOutcome>)
    ensures
        spec_kept_ids(s).len() == spec_count_non_failed(s),
    decreases s.len(),
{
    if s.len() > 0 {
        lemma_kept_ids_count(s.skip(1));
    }
}

proof fn lemma_kept_ids_push(s: Seq<IngestionOutcome>, x: IngestionOutcome)
    ensures
        spec_kept_ids(s.push(x)) == spec_kept_ids(s) + (match spec_outcome_id(x) {
            Some(id) => seq![id],
            None => Seq::empty(),
        }),
    decreases s.len(),
{
    let tail = (match spec_outcome_id(x) {
        Some(id) => seq![id],
        None => Seq::<u64>::empty(),
    });
    if s.len() == 0 {
        assert(s.push(x).skip(1) =~= s);
        assert(s.push(x)[0] == x);
        assert(spec_kept_ids(s.push(x)) =~= spec_kept_ids(s) + tail);
    } else {
        lemma_kept_ids_push(s.skip(1), x);
        assert(s.push(x).skip(1) =~= s.skip(1).push(x));
        assert(s.push(x)[0] == s[0]);
        assert(spec_kept_ids(s.push(x)) =~= spec_kept_ids(s) + tail);
    }
}

/// Whether a sorted bind must be refused: true exactly when the bind was
/// requested sorted and some outcome in the batch failed.
pub fn sorted_bind_blocked(outcomes: &Vec<IngestionOutcome>, sorted: bool) -> (b: bool)
    ensures
        b <==> (sorted && spec_any_failed(outcomes@)),
{
    if !sorted {
        return false;
    }
    let mut i: usize = 0;
    while i < outcomes.len()
        invariant
            sorted,
            i <= outcomes@.len(),
            forall|j: int| 0 <= j < i ==> !((#[trigger] outcomes@[j]) is Failed),
        decreases outcomes@.len() - i,
    {
        match &outcomes[i] {
            IngestionOutcome::Failed { .. } => {
                assert((outcomes@[i as int]) is Failed);
                return true;
            },
            _ => {},
        }
        i += 1;
    }
    false
}

/// The identifiers of the non-failed outcomes, in the batch's order.
pub fn bound_ids(outcomes: &Vec<IngestionOutcome>) -> (ids: Vec<u64>)
    ensures
        ids@ == spec_kept_ids(outcomes@),
{
    let mut ids: Vec<u64> = Vec::new();
    let mut i: usize = 0;
    while i < outcomes.len()
        invariant
            i <= outcomes@.len(),
            ids@ =~= spec_kept_ids(outcomes@.take(i as int)),
        decreases outcomes@.len() - i,
    {
        proof {
            assert(outcomes@.take(i as int).push(outcomes@[i as int]) =~= outcomes@.take(i + 1));
            lemma_kept_ids_push(outcomes@.take(i as int), outcomes@[i as int]);
        }
        match &outcomes[i] {
            IngestionOutcome::Registered { id } => {
                ids.push(*id);
            },
            IngestionOutcome::Duplicate { id } => {
                ids.push(*id);
            },
            IngestionOutcome::Failed { .. } => {},
        }
        i += 1;
    }
    proof {
        assert(outcomes@.take(outcomes@.len() as int) =~= outcomes@);
    }
    ids
}

/// One planned `add_to_series` call: the identifier to bind, the explicit
/// sort position (present exactly when the bind is sorted), and whether
/// the engine's default ordering applies.
#[derive(Debug, Clone, Copy, PartialEq, Eq, Structural)]
pub struct BindCall {
    pub id: u64,
    pub position: Option<usize>,
    pub use_default_order: bool,
}

/// The series binder's verdict on a batch: skip the bind entirely, or
/// perform exactly these calls in this order.
#[derive(Debug, Clone, PartialEq, Eq)]
pub enum BindPlan {
    Skipped,
    Calls { calls: Vec<BindCall> },
}

/// Plans the series bind for a batch of outcomes. A sorted bind with any
/// failed outcome is skipped outright — zero calls are planned, so the
/// engine is not touched. Otherwise one call per non-failed outcome is
/// planned, in the batch's order; a sorted bind gives each call its
/// position in that order, an unsorted one leaves ordering to the engine.
pub fn plan_binding(outcomes: &Vec<IngestionOutcome>, sorted: bool) -> (p: BindPlan)
    ensures
        p is Skipped <==> (sorted && spec_any_failed(outcomes@)),
        p matches BindPlan::Calls { ref calls } ==> {
            &&& calls@.len() == spec_kept_ids(outcomes@).len()
            &&& forall|i: int|
                0 <= i < calls@.len() ==> (#[trigger] calls@[i]) == (BindCall {
                    id: spec_kept_ids(outcomes@)[i],
                    position: if sorted {
                        Some(i as usize)
                    } else {
                        None
                    },
                    use_default_order: !sorted,
                })
        },
{
    if sorted_bind_blocked(outcomes, sorted) {
        return BindPlan::Skipped;
    }
    let ids = bound_ids(outcomes);
    let mut calls: Vec<BindCall> = Vec::new();
    let mut i: usize = 0;
    while i < ids.len()
        invariant
            ids@ == spec_kept_ids(outcomes@),
            i <= ids@.len(),
            calls@.len() == i,
            forall|j: int|
                0 <= j < i ==> (#[trigger] calls@[j]) == (BindCall {
                    id: spec_kept_ids(outcomes@)[j],
                    position: if sorted {
                        Some(j as usize)
                    } else {
                        None
                    },
                    use_default_order: !sorted,
                }),
        decreases ids@.len() - i,
    {
        calls.push(
            BindCall {
                id: ids[i],
                position: if sorted {
                    Some(i)
                } else {
                    None
                },
                use_default_order: !sorted,
            },
        );
        i += 1;
    }
    BindPlan::Calls { calls }
}

} // verus!
