use crate::counts::DailyCounts;
use crate::errors::AppError;
use crate::paging::{fresh_listing, walk, Page};
use vstd::prelude::*;

verus! {

/// How the listing and fetching of a run ended.
#[derive(Debug, Clone)]
pub enum ListingOutcome {
    /// Every page was listed and every fetch settled.
    Completed,
    /// The deadline of this many seconds passed first; the work in flight was abandoned.
    TimedOut(u64),
    /// The listing failed for good.
    Failed(AppError),
}

/// The result of a run: a timeout or a failed listing is an error, whatever
/// was counted; a completed listing that listed nothing is the "nothing
/// matched" outcome; otherwise the counts.
pub open spec fn conclusion(outcome: ListingOutcome, saw_items: bool, counts: DailyCounts) -> Result<
    DailyCounts,
    AppError,
> {
    match outcome {
        ListingOutcome::TimedOut(secs) => Err(AppError::Timeout(secs)),
        ListingOutcome::Failed(e) => Err(e),
        ListingOutcome::Completed => if saw_items {
            Ok(counts)
        } else {
            Err(AppError::NoSpamMessages)
        },
    }
}

/// Concludes a run from how its listing ended, whether any item was listed,
/// and the counts that the aggregator reached.
pub fn conclude(outcome: ListingOutcome, saw_items: bool, counts: DailyCounts) -> (r: Result<
    DailyCounts,
    AppError,
>)
    ensures
        r == conclusion(outcome, saw_items, counts),
{
    match outcome {
        ListingOutcome::TimedOut(secs) => Err(AppError::Timeout(secs)),
        ListingOutcome::Failed(e) => Err(e),
        ListingOutcome::Completed => if saw_items {
            Ok(counts)
        } else {
            Err(AppError::NoSpamMessages)
        },
    }
}

/// A first page with no items ends the listing at once, and the run then
/// concludes with "nothing matched", not with empty counts.
pub proof fn lemma_empty_first_page_means_no_matches(page: Page, counts: DailyCounts)
    requires
        page.items@.len() == 0,
    ensures
        walk(fresh_listing(), seq![page]).finished,
        conclusion(
            ListingOutcome::Completed,
            walk(fresh_listing(), seq![page]).saw_items,
            counts,
        ) == Err::<DailyCounts, AppError>(AppError::NoSpamMessages),
{
    let pages = seq![page];
    assert(pages.drop_last() =~= Seq::<Page>::empty());
    assert(walk(fresh_listing(), pages.drop_last()) == fresh_listing());
    assert(pages.last() == page);
}

/// A run whose deadline passed yields the timeout error and no counts,
/// whatever had been counted until then.
pub proof fn lemma_timeout_discards_counts(secs: u64, saw_items: bool, counts: DailyCounts)
    ensures
        conclusion(ListingOutcome::TimedOut(secs), saw_items, counts) == Err::<DailyCounts, AppError>(
            AppError::Timeout(secs),
        ),
{
}

} // verus!
