//! One synchronisation pass over a room, from what the platform reports to
//! what the platform is asked to do.
use crate::access::{
    member_entries, member_entry, member_overwrites, request_for, Overwrite, OverwriteKind,
    PermissionRequest,
};
use crate::convergence::{apply_action, apply_all, reconcile_is_idempotent, settled, without_user};
use crate::reconcile::{reconcile, reconciled, Action};
use vstd::prelude::*;

verus! {

/// The requests that carry a list of actions out, one for one.
pub open spec fn requests_for(actions: Seq<Action>) -> Seq<PermissionRequest> {
    Seq::new(actions.len(), |i: int| request_for(actions[i]))
}

/// The actions that a pass over a room plans: the diff between the members
/// in the voice channel and how the text channel's overwrites read.
pub open spec fn planned(members_in_vc: Seq<u64>, overwrites: Seq<Overwrite>) -> Seq<Action> {
    reconciled(members_in_vc, member_entries(overwrites))
}

/// Plans the synchronisation of a room: from the members in its voice
/// channel and the permission overwrites of its text channel, the actions
/// that take access from members who left and give it to members who are
/// there without it.
pub fn sync_room(members_in_vc: &Vec<u64>, overwrites: &Vec<Overwrite>) -> (actions: Vec<Action>)
    ensures
        actions@ == planned(members_in_vc@, overwrites@),
{
    let entries = member_overwrites(overwrites);
    reconcile(members_in_vc, &entries)
}

/// The overwrites with the one of `target` taken out.
pub open spec fn without_target(overwrites: Seq<Overwrite>, target: OverwriteKind) -> Seq<
    Overwrite,
> {
    overwrites.filter(|overwrite: Overwrite| overwrite.kind != target)
}

/// The overwrites of a channel after a request was fulfilled. Creating an
/// overwrite replaces the one that its target had; where the new overwrite
/// stands among the others is modelled as last.
pub open spec fn fulfil(overwrites: Seq<Overwrite>, request: PermissionRequest) -> Seq<Overwrite> {
    match request {
        PermissionRequest::Create(overwrite) => without_target(overwrites, overwrite.kind).push(
            overwrite,
        ),
        PermissionRequest::Delete(target) => without_target(overwrites, target),
    }
}

/// The overwrites of a channel after the requests were fulfilled, first to
/// last.
pub open spec fn fulfil_all(overwrites: Seq<Overwrite>, requests: Seq<PermissionRequest>) -> Seq<
    Overwrite,
>
    decreases requests.len(),
{
    if requests.len() == 0 {
        overwrites
    } else {
        fulfil(fulfil_all(overwrites, requests.drop_last()), requests.last())
    }
}

/// How a channel reads once it holds one more overwrite.
proof fn lemma_entries_after_push(overwrites: Seq<Overwrite>, added: Overwrite)
    ensures
        member_entries(overwrites.push(added)) == match member_entry(added) {
            Some(entry) => member_entries(overwrites).push(entry),
            None => member_entries(overwrites),
        },
{
    let grown = overwrites.push(added);
    assert(grown.drop_last() == overwrites);
    assert(grown.last() == added);
    match member_entry(added) {
        Some(entry) => {
            assert(member_entries(overwrites) + seq![entry] == member_entries(overwrites).push(
                entry,
            ));
        },
        None => {},
    }
}

/// Taking a member's overwrite out of a channel takes that member's entries
/// out of how the channel reads.
proof fn lemma_entries_without_member(overwrites: Seq<Overwrite>, user: u64)
    ensures
        member_entries(without_target(overwrites, OverwriteKind::Member(user))) == without_user(
            member_entries(overwrites),
            user,
        ),
    decreases overwrites.len(),
{
    reveal(Seq::filter);
    if overwrites.len() > 0 {
        let target = OverwriteKind::Member(user);
        let earlier = overwrites.drop_last();
        let last = overwrites.last();
        lemma_entries_without_member(earlier, user);
        assert(earlier.push(last) == overwrites);
        lemma_entries_after_push(earlier, last);
        if last.kind != target {
            assert(without_target(overwrites, target) == without_target(earlier, target).push(
                last,
            ));
            lemma_entries_after_push(without_target(earlier, target), last);
        }
        match member_entry(last) {
            Some(entry) => {
                let read = member_entries(earlier).push(entry);
                assert(read.drop_last() == member_entries(earlier));
                assert(read.last() == entry);
            },
            None => {},
        }
    }
}

/// Fulfilling the request of an action changes how the channel reads just as
/// the action says.
pub proof fn lemma_request_carries_action(overwrites: Seq<Overwrite>, action: Action)
    ensures
        member_entries(fulfil(overwrites, request_for(action))) == apply_action(
            member_entries(overwrites),
            action,
        ),
{
    let user = action.subject();
    lemma_entries_without_member(overwrites, user);
    if action is Grant {
        let made = Overwrite { allow: 0xC00, deny: 0, kind: OverwriteKind::Member(user) };
        assert(0xC00u64 & 0x400 == 0x400) by (bit_vector);
        lemma_entries_after_push(without_target(overwrites, OverwriteKind::Member(user)), made);
    }
}

/// Fulfilling the requests of a run of actions changes how the channel
/// reads just as the actions say.
pub proof fn lemma_requests_carry_actions(overwrites: Seq<Overwrite>, actions: Seq<Action>)
    ensures
        member_entries(fulfil_all(overwrites, requests_for(actions))) == apply_all(
            member_entries(overwrites),
            actions,
        ),
    decreases actions.len(),
{
    let requests = requests_for(actions);
    if actions.len() > 0 {
        let earlier = actions.drop_last();
        lemma_requests_carry_actions(overwrites, earlier);
        assert(requests.drop_last() == requests_for(earlier));
        assert(requests.last() == request_for(actions.last()));
        lemma_request_carries_action(fulfil_all(overwrites, requests_for(earlier)), actions.last());
    }
}

/// Once the requests of a pass are fulfilled, a second pass over the same
/// members plans nothing.
pub proof fn sync_settles(members_in_vc: Seq<u64>, overwrites: Seq<Overwrite>)
    ensures
        planned(
            members_in_vc,
            fulfil_all(overwrites, requests_for(planned(members_in_vc, overwrites))),
        ) == Seq::<Action>::empty(),
{
    let entries = member_entries(overwrites);
    lemma_requests_carry_actions(overwrites, reconciled(members_in_vc, entries));
    reconcile_is_idempotent(members_in_vc, entries);
    assert(member_entries(
        fulfil_all(overwrites, requests_for(planned(members_in_vc, overwrites))),
    ) == settled(members_in_vc, entries));
}

} // verus!
