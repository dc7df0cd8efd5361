//! What the reconciler's actions do to a channel's overwrites, and why a
//! pass converges: after its actions took effect the overwrites match
//! presence, and a second pass finds nothing left to do.
use crate::reconcile::{
    explicitly_allowed, grants, holds_overwrite, lemma_allowed_holds, lemma_standing_after_push,
    owed_grant, owed_revoke, reconciled, reconciled_is_exact, revocations, AccessOverwrite,
    Action,
};
use vstd::prelude::*;
use vstd::seq_lib::lemma_seq_contains_after_push;

verus! {

/// The overwrites with every entry of `user` taken out.
pub open spec fn without_user(overwrites: Seq<AccessOverwrite>, user: u64) -> Seq<AccessOverwrite> {
    overwrites.filter(|entry: AccessOverwrite| entry.user_id != user)
}

/// The overwrites after one action took effect.
pub open spec fn apply_action(overwrites: Seq<AccessOverwrite>, action: Action) -> Seq<
    AccessOverwrite,
> {
    match action {
        Action::Revoke(user) => without_user(overwrites, user),
        Action::Grant(user) => without_user(overwrites, user).push(
            AccessOverwrite { user_id: user, allowed: true },
        ),
    }
}

/// The overwrites after the actions took effect, first to last.
pub open spec fn apply_all(overwrites: Seq<AccessOverwrite>, actions: Seq<Action>) -> Seq<
    AccessOverwrite,
>
    decreases actions.len(),
{
    if actions.len() == 0 {
        overwrites
    } else {
        apply_action(apply_all(overwrites, actions.drop_last()), actions.last())
    }
}

/// The overwrites as they stand once a pass over them took effect.
pub open spec fn settled(present: Seq<u64>, overwrites: Seq<AccessOverwrite>) -> Seq<
    AccessOverwrite,
> {
    apply_all(overwrites, reconciled(present, overwrites))
}

/// `action` stands at exactly one position of `actions`.
pub open spec fn occurs_once(actions: Seq<Action>, action: Action) -> bool {
    exists|i: int|
        0 <= i < actions.len() && #[trigger] actions[i] == action && forall|j: int|
            0 <= j < actions.len() && #[trigger] actions[j] == action ==> j == i
}

/// Taking a user's entries out leaves that user without an entry and every
/// other user's standing as it was.
proof fn lemma_without_user(overwrites: Seq<AccessOverwrite>, user: u64, other: u64)
    ensures
        !holds_overwrite(without_user(overwrites, user), user),
        other != user ==> holds_overwrite(without_user(overwrites, user), other)
            == holds_overwrite(overwrites, other),
        other != user ==> explicitly_allowed(without_user(overwrites, user), other)
            == explicitly_allowed(overwrites, other),
    decreases overwrites.len(),
{
    reveal(Seq::filter);
    if overwrites.len() > 0 {
        let earlier = overwrites.drop_last();
        let last = overwrites.last();
        lemma_without_user(earlier, user, other);
        assert(earlier.push(last) == overwrites);
        lemma_standing_after_push(earlier, last, other);
        if last.user_id != user {
            assert(without_user(overwrites, user) == without_user(earlier, user).push(last));
            lemma_standing_after_push(without_user(earlier, user), last, user);
            lemma_standing_after_push(without_user(earlier, user), last, other);
        }
    }
}

/// What one action does to the standing of a user: a grant leaves its
/// subject explicitly allowed, a revoke leaves its subject without an entry,
/// and every other user's standing is as it was.
proof fn lemma_apply_action(overwrites: Seq<AccessOverwrite>, action: Action, user: u64)
    ensures
        action == Action::Grant(user) ==> explicitly_allowed(
            apply_action(overwrites, action),
            user,
        ),
        action == Action::Revoke(user) ==> !holds_overwrite(
            apply_action(overwrites, action),
            user,
        ),
        action.subject() != user ==> holds_overwrite(apply_action(overwrites, action), user)
            == holds_overwrite(overwrites, user),
        action.subject() != user ==> explicitly_allowed(apply_action(overwrites, action), user)
            == explicitly_allowed(overwrites, user),
{
    let subject = action.subject();
    lemma_without_user(overwrites, subject, user);
    if action is Grant {
        let added = AccessOverwrite { user_id: subject, allowed: true };
        lemma_standing_after_push(without_user(overwrites, subject), added, user);
    }
}

/// The standing of a user after a run of actions in which the user is not
/// the subject of both a grant and a revoke.
proof fn lemma_apply_all(overwrites: Seq<AccessOverwrite>, actions: Seq<Action>, user: u64)
    ensures
        actions.contains(Action::Grant(user)) && !actions.contains(Action::Revoke(user))
            ==> explicitly_allowed(apply_all(overwrites, actions), user),
        actions.contains(Action::Revoke(user)) && !actions.contains(Action::Grant(user))
            ==> !holds_overwrite(apply_all(overwrites, actions), user),
        !actions.contains(Action::Grant(user)) && !actions.contains(Action::Revoke(user)) ==> {
            &&& holds_overwrite(apply_all(overwrites, actions), user) == holds_overwrite(
                overwrites,
                user,
            )
            &&& explicitly_allowed(apply_all(overwrites, actions), user) == explicitly_allowed(
                overwrites,
                user,
            )
        },
    decreases actions.len(),
{
    if actions.len() > 0 {
        let earlier = actions.drop_last();
        let last = actions.last();
        lemma_apply_all(overwrites, earlier, user);
        lemma_apply_action(apply_all(overwrites, earlier), last, user);
        assert(earlier.push(last) == actions);
        lemma_seq_contains_after_push(earlier, last, Action::Grant(user));
        lemma_seq_contains_after_push(earlier, last, Action::Revoke(user));
    }
}

/// Once a pass took effect, every present user is explicitly allowed and no
/// absent user holds an entry.
pub proof fn settled_matches_presence(
    present: Seq<u64>,
    overwrites: Seq<AccessOverwrite>,
    user: u64,
)
    ensures
        present.contains(user) ==> explicitly_allowed(settled(present, overwrites), user),
        !present.contains(user) ==> !holds_overwrite(settled(present, overwrites), user),
{
    let actions = reconciled(present, overwrites);
    reconciled_is_exact(present, overwrites);
    lemma_apply_all(overwrites, actions, user);
    assert(actions.contains(Action::Revoke(user)) <==> owed_revoke(present, overwrites, user));
    assert(actions.contains(Action::Grant(user)) <==> owed_grant(present, overwrites, user));
    if explicitly_allowed(overwrites, user) {
        lemma_allowed_holds(overwrites, user);
    }
}

/// A second pass, made after the actions of the first took effect, finds
/// nothing left to do.
pub proof fn reconcile_is_idempotent(present: Seq<u64>, overwrites: Seq<AccessOverwrite>)
    ensures
        reconciled(present, settled(present, overwrites)) == Seq::<Action>::empty(),
{
    let after = settled(present, overwrites);
    let again = reconciled(present, after);
    reconciled_is_exact(present, after);
    if again.len() > 0 {
        let first = again[0];
        let user = first.subject();
        assert(again.contains(first));
        settled_matches_presence(present, overwrites, user);
        if explicitly_allowed(after, user) {
            lemma_allowed_holds(after, user);
        }
        match first {
            Action::Grant(_) => {
                assert(again.contains(Action::Grant(user)));
            },
            Action::Revoke(_) => {
                assert(again.contains(Action::Revoke(user)));
            },
        }
    }
    assert(again =~= Seq::<Action>::empty());
}

/// Every present user holds an explicit allow once the actions took effect.
pub proof fn present_users_end_allowed(
    present: Seq<u64>,
    overwrites: Seq<AccessOverwrite>,
    user: u64,
)
    requires
        present.contains(user),
    ensures
        explicitly_allowed(settled(present, overwrites), user),
{
    settled_matches_presence(present, overwrites, user);
}

/// A user that is present and already explicitly allowed is the subject of
/// no action.
pub proof fn allowed_present_user_untouched(
    present: Seq<u64>,
    overwrites: Seq<AccessOverwrite>,
    user: u64,
)
    requires
        present.contains(user),
        explicitly_allowed(overwrites, user),
    ensures
        forall|i: int|
            0 <= i < reconciled(present, overwrites).len() ==> (#[trigger] reconciled(
                present,
                overwrites,
            )[i]).subject() != user,
{
    let actions = reconciled(present, overwrites);
    reconciled_is_exact(present, overwrites);
    assert(actions.contains(Action::Revoke(user)) <==> owed_revoke(present, overwrites, user));
    assert(actions.contains(Action::Grant(user)) <==> owed_grant(present, overwrites, user));
    assert forall|i: int| 0 <= i < actions.len() implies (#[trigger] actions[i]).subject()
        != user by {
        assert(actions.contains(actions[i]));
        assert(actions[i] == Action::Grant(actions[i].subject()) || actions[i] == Action::Revoke(
            actions[i].subject(),
        ));
    }
}

/// An absent user that holds any explicit entry is revoked, exactly once, and
/// is granted nothing.
pub proof fn absent_holder_revoked_once(
    present: Seq<u64>,
    overwrites: Seq<AccessOverwrite>,
    user: u64,
)
    requires
        !present.contains(user),
        holds_overwrite(overwrites, user),
    ensures
        occurs_once(reconciled(present, overwrites), Action::Revoke(user)),
        !reconciled(present, overwrites).contains(Action::Grant(user)),
{
    let actions = reconciled(present, overwrites);
    reconciled_is_exact(present, overwrites);
    assert(actions.contains(Action::Revoke(user)) <==> owed_revoke(present, overwrites, user));
    assert(actions.contains(Action::Grant(user)) <==> owed_grant(present, overwrites, user));
    let i = choose|i: int| 0 <= i < actions.len() && actions[i] == Action::Revoke(user);
    assert(0 <= i < actions.len() && actions[i] == Action::Revoke(user) && forall|j: int|
        0 <= j < actions.len() && #[trigger] actions[j] == Action::Revoke(user) ==> j == i);
}

/// No user is the subject of both a revoke and a grant of one pass.
pub proof fn no_user_revoked_and_granted(
    present: Seq<u64>,
    overwrites: Seq<AccessOverwrite>,
    user: u64,
)
    ensures
        !(reconciled(present, overwrites).contains(Action::Revoke(user)) && reconciled(
            present,
            overwrites,
        ).contains(Action::Grant(user))),
{
    let actions = reconciled(present, overwrites);
    reconciled_is_exact(present, overwrites);
    assert(actions.contains(Action::Revoke(user)) <==> owed_revoke(present, overwrites, user));
    assert(actions.contains(Action::Grant(user)) <==> owed_grant(present, overwrites, user));
}

/// With nobody present, a pass grants nothing and revokes every holder of
/// an entry.
pub proof fn empty_presence_only_revokes(overwrites: Seq<AccessOverwrite>, user: u64)
    ensures
        reconciled(Seq::<u64>::empty(), overwrites) == revocations(
            Seq::<u64>::empty(),
            overwrites,
        ),
        !reconciled(Seq::<u64>::empty(), overwrites).contains(Action::Grant(user)),
        reconciled(Seq::<u64>::empty(), overwrites).contains(Action::Revoke(user))
            <==> holds_overwrite(overwrites, user),
{
    let nobody = Seq::<u64>::empty();
    reconciled_is_exact(nobody, overwrites);
    assert(reconciled(nobody, overwrites).contains(Action::Revoke(user)) <==> owed_revoke(
        nobody,
        overwrites,
        user,
    ));
    assert(reconciled(nobody, overwrites).contains(Action::Grant(user)) <==> owed_grant(
        nobody,
        overwrites,
        user,
    ));
    assert(reconciled(nobody, overwrites) =~= revocations(nobody, overwrites));
}

/// Without any overwrite, a pass revokes nothing and grants everyone
/// present.
pub proof fn no_overwrites_only_grants(present: Seq<u64>, user: u64)
    ensures
        reconciled(present, Seq::<AccessOverwrite>::empty()) == grants(
            present,
            Seq::<AccessOverwrite>::empty(),
        ),
        !reconciled(present, Seq::<AccessOverwrite>::empty()).contains(Action::Revoke(user)),
        reconciled(present, Seq::<AccessOverwrite>::empty()).contains(Action::Grant(user))
            <==> present.contains(user),
{
    let nothing = Seq::<AccessOverwrite>::empty();
    reconciled_is_exact(present, nothing);
    assert(reconciled(present, nothing).contains(Action::Revoke(user)) <==> owed_revoke(
        present,
        nothing,
        user,
    ));
    assert(reconciled(present, nothing).contains(Action::Grant(user)) <==> owed_grant(
        present,
        nothing,
        user,
    ));
    assert(reconciled(present, nothing) =~= grants(present, nothing));
}

/// Applies one action to a list of overwrites.
pub fn apply_one(overwrites: &Vec<AccessOverwrite>, action: Action) -> (after: Vec<AccessOverwrite>)
    ensures
        after@ == apply_action(overwrites@, action),
{
    let user = action.user_id();
    let ghost keep = |entry: AccessOverwrite| entry.user_id != user;
    let mut after: Vec<AccessOverwrite> = Vec::new();
    let mut i: usize = 0;
    while i < overwrites.len()
        invariant
            i <= overwrites.len(),
            keep == |entry: AccessOverwrite| entry.user_id != user,
            after@ == overwrites@.take(i as int).filter(keep),
        decreases overwrites.len() - i,
    {
        proof {
            reveal(Seq::filter);
            let next = overwrites@.take(i + 1);
            assert(next.drop_last() == overwrites@.take(i as int));
            assert(next.last() == overwrites[i as int]);
        }
        if overwrites[i].user_id != user {
            after.push(overwrites[i]);
        }
        i += 1;
    }
    proof {
        assert(overwrites@.take(i as int) == overwrites@);
        reveal(Seq::filter);
    }
    match action {
        Action::Grant(_) => {
            after.push(AccessOverwrite { user_id: user, allowed: true });
        },
        Action::Revoke(_) => {},
    }
    after
}

/// Applies the actions, first to last, to a list of overwrites: the state
/// that the text channel is in once every action succeeded.
pub fn apply_actions(overwrites: &Vec<AccessOverwrite>, actions: &Vec<Action>) -> (after: Vec<
    AccessOverwrite,
>)
    ensures
        after@ == apply_all(overwrites@, actions@),
{
    let mut after: Vec<AccessOverwrite> = overwrites.clone();
    let mut i: usize = 0;
    while i < actions.len()
        invariant
            i <= actions.len(),
            after@ == apply_all(overwrites@, actions@.take(i as int)),
        decreases actions.len() - i,
    {
        proof {
            let next = actions@.take(i + 1);
            assert(next.drop_last() == actions@.take(i as int));
            assert(next.last() == actions[i as int]);
        }
        after = apply_one(&after, actions[i]);
        i += 1;
    }
    proof {
        assert(actions@.take(i as int) == actions@);
    }
    after
}

} // verus!
