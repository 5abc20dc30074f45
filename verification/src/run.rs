//! Running a request against the mapping store.
//!
//! A run takes a request from where it stands to its end: the store is asked
//! what the request needs, the answer is taken up, and so on. The ids that are
//! drawn on the way are given to the run as a sequence, so that what is said
//! of a run holds of whatever is drawn.

use crate::data::can_count;
use crate::error::{Failure, ServiceError};
use crate::handler::{draws, next_step, request_of, PendingView, Step, StepView};
use crate::store::{MappingStore, Tables};
use vstd::prelude::*;

verus! {

/// How many answers of the store a request still needs at most, not counting
/// those that only lead to another candidate id.
pub open spec fn rank(step: StepView) -> nat {
    match step {
        StepView::Finish(_) => 0,
        StepView::Ask(PendingView::Deduplicating { .. }) => 4,
        StepView::Ask(PendingView::Allocating { .. }) => 3,
        StepView::Ask(PendingView::InsertingUrls { .. }) => 2,
        StepView::Ask(PendingView::InsertingStats { .. }) => 1,
        StepView::Ask(PendingView::Resolving { .. }) => 3,
        StepView::Ask(PendingView::ReadingStats { .. }) => 2,
        StepView::Ask(PendingView::UpdatingStats { .. }) => 1,
    }
}

/// Runs a request against the store: the store as the run leaves it, and the
/// result of the request. Each id that is drawn is the next of `candidates`;
/// the run ends without a result where one is called for and none is left.
pub open spec fn run(step: StepView, store: Tables, candidates: Seq<Seq<char>>) -> (
    Tables,
    Option<Result<Seq<char>, Failure>>,
)
    decreases candidates.len(), rank(step),
{
    match step {
        StepView::Finish(result) => (store, Some(result)),
        StepView::Ask(pending) => {
            let (after, reply) = store.answer(request_of(pending));
            if draws(pending, reply) {
                if candidates.len() == 0 {
                    (after, None)
                } else {
                    run(next_step(pending, reply, candidates[0]), after, candidates.drop_first())
                }
            } else {
                run(next_step(pending, reply, Seq::empty()), after, candidates)
            }
        },
    }
}

/// The texts of ids, as contracts see them.
pub open spec fn ids_view(ids: Seq<String>) -> Seq<Seq<char>> {
    ids.map_values(|id: String| id@)
}

/// The end of a run, as contracts see it.
pub open spec fn outcome_view(outcome: Option<Result<String, ServiceError>>) -> Option<
    Result<Seq<char>, Failure>,
> {
    match outcome {
        Some(Ok(text)) => Some(Ok(text@)),
        Some(Err(error)) => Some(Err(error@)),
        None => None,
    }
}

/// Whether the store can serve the request as far as counting goes: where
/// the request is a redirect whose visit is yet to be counted, the count of
/// its id leaves room for one more. Nothing is asked of any other row, nor
/// for a shortening.
pub open spec fn countable(step: StepView, store: Tables) -> bool {
    match step {
        StepView::Ask(PendingView::Resolving { id }) => can_count(Ok(store.stats_by_id(id))),
        StepView::Ask(PendingView::ReadingStats { id, .. }) => can_count(
            Ok(store.stats_by_id(id)),
        ),
        _ => true,
    }
}

impl MappingStore {
    /// Serves a request to its end against this store. The ids that the
    /// request draws are taken from `candidates`, in order; where one is
    /// called for and none is left, there is no result.
    pub fn serve(&mut self, step: Step, candidates: &Vec<String>) -> (outcome: Option<
        Result<String, ServiceError>,
    >)
        requires
            countable(step@, old(self)@),
        ensures
            (final(self)@, outcome_view(outcome)) == run(step@, old(self)@, ids_view(candidates@)),
    {
        let ghost all = ids_view(candidates@);
        let mut current = step;
        let mut used: usize = 0;
        assert(all.skip(0) =~= all);
        loop
            invariant
                used <= candidates.len(),
                all == ids_view(candidates@),
                run(current@, self@, all.skip(used as int)) == run(step@, old(self)@, all),
                countable(current@, self@),
            decreases candidates.len() - used, rank(current@),
        {
            let ghost rest = all.skip(used as int);
            match current {
                Step::Finish(result) => {
                    return Some(result);
                },
                Step::Ask(pending) => {
                    let reply = self.answer(pending.request());
                    if pending.draws(&reply) {
                        if used == candidates.len() {
                            return None;
                        }
                        assert(rest[0] == candidates[used as int]@);
                        assert(rest.drop_first() =~= all.skip(used + 1));
                        current = pending.resume_with(reply, candidates[used].clone());
                        used = used + 1;
                    } else {
                        current = pending.resume_with(reply, String::new());
                    }
                },
            }
        }
    }
}

} // verus!
