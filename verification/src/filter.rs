use vstd::prelude::*;

verus! {

/// Whether a presence transition between two optional channels calls for a
/// reconciliation pass: every transition does, except one whose two channels
/// are both known and are the same channel.
pub open spec fn review_needed(previous: Option<u64>, current: Option<u64>) -> bool {
    !(previous is Some && current is Some && previous == current)
}

/// Decides whether a presence change is worth reconciling.
pub fn should_review(previous: Option<u64>, current: Option<u64>) -> (review: bool)
    ensures
        review == review_needed(previous, current),
{
    match (previous, current) {
        (Some(before), Some(after)) => before != after,
        _ => true,
    }
}

/// Staying in one and the same known channel never calls for a review.
pub proof fn same_channel_needs_no_review(channel: u64)
    ensures
        !review_needed(Some(channel), Some(channel)),
{
}

/// With no previous channel known, every transition is reviewed.
pub proof fn unknown_previous_needs_review(current: Option<u64>)
    ensures
        review_needed(None, current),
{
}

/// A transition whose two ends differ is always reviewed.
pub proof fn different_channels_need_review(previous: Option<u64>, current: Option<u64>)
    requires
        previous != current,
    ensures
        review_needed(previous, current),
{
}

} // verus!
