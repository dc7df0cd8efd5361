//! The reconciler: from who is present in a voice channel and which explicit
//! per-user overwrites the linked text channel carries, the grant and revoke
//! actions that bring the two into agreement.
use vstd::prelude::*;
use vstd::seq_lib::{lemma_no_dup_in_concat, lemma_seq_contains_after_push};

verus! {

/// One explicit per-user permission entry of a text channel.
#[derive(Clone, Copy, Debug, PartialEq, Eq, Structural)]
pub struct AccessOverwrite {
    pub user_id: u64,
    pub allowed: bool,
}

/// One change to the explicit overwrites of a text channel.
///
/// `Grant(u)` sets the entry of `u` to an explicit allow, replacing whatever
/// entry `u` had. `Revoke(u)` removes every explicit entry of `u`.
#[derive(Clone, Copy, Debug, PartialEq, Eq, Structural)]
pub enum Action {
    Grant(u64),
    Revoke(u64),
}

impl Action {
    /// The user that the action is about.
    pub open spec fn subject(self) -> u64 {
        match self {
            Action::Grant(user) => user,
            Action::Revoke(user) => user,
        }
    }

    /// The user that the action is about.
    pub fn user_id(&self) -> (user: u64)
        ensures
            user == self.subject(),
    {
        match self {
            Action::Grant(user) => *user,
            Action::Revoke(user) => *user,
        }
    }
}

/// `user` has some explicit entry, allow or deny.
pub open spec fn holds_overwrite(overwrites: Seq<AccessOverwrite>, user: u64) -> bool {
    exists|i: int| 0 <= i < overwrites.len() && (#[trigger] overwrites[i]).user_id == user
}

/// `user` has an explicit allow entry.
pub open spec fn explicitly_allowed(overwrites: Seq<AccessOverwrite>, user: u64) -> bool {
    exists|i: int|
        0 <= i < overwrites.len() && (#[trigger] overwrites[i]).user_id == user
            && overwrites[i].allowed
}

/// `user` is owed a revoke: an explicit entry lingers though the user is absent.
pub open spec fn owed_revoke(
    present: Seq<u64>,
    overwrites: Seq<AccessOverwrite>,
    user: u64,
) -> bool {
    holds_overwrite(overwrites, user) && !present.contains(user)
}

/// `user` is owed a grant: present, but without an explicit allow entry.
pub open spec fn owed_grant(
    present: Seq<u64>,
    overwrites: Seq<AccessOverwrite>,
    user: u64,
) -> bool {
    present.contains(user) && !explicitly_allowed(overwrites, user)
}

/// The revokes, one per absent holder of an entry, in the order in which the
/// holders first occur among the overwrites.
pub open spec fn revocations(present: Seq<u64>, overwrites: Seq<AccessOverwrite>) -> Seq<Action>
    decreases overwrites.len(),
{
    if overwrites.len() == 0 {
        Seq::empty()
    } else {
        let earlier = overwrites.drop_last();
        let user = overwrites.last().user_id;
        if !present.contains(user) && !holds_overwrite(earlier, user) {
            revocations(present, earlier).push(Action::Revoke(user))
        } else {
            revocations(present, earlier)
        }
    }
}

/// The grants, one per present user without an explicit allow entry, in the
/// order in which the users first occur among those present.
pub open spec fn grants(present: Seq<u64>, overwrites: Seq<AccessOverwrite>) -> Seq<Action>
    decreases present.len(),
{
    if present.len() == 0 {
        Seq::empty()
    } else {
        let earlier = present.drop_last();
        let user = present.last();
        if !explicitly_allowed(overwrites, user) && !earlier.contains(user) {
            grants(earlier, overwrites).push(Action::Grant(user))
        } else {
            grants(earlier, overwrites)
        }
    }
}

/// The full diff: every revoke, then every grant.
pub open spec fn reconciled(present: Seq<u64>, overwrites: Seq<AccessOverwrite>) -> Seq<Action> {
    revocations(present, overwrites) + grants(present, overwrites)
}

/// An explicit allow is an entry.
pub proof fn lemma_allowed_holds(overwrites: Seq<AccessOverwrite>, user: u64)
    requires
        explicitly_allowed(overwrites, user),
    ensures
        holds_overwrite(overwrites, user),
{
    let i = choose|i: int|
        0 <= i < overwrites.len() && (#[trigger] overwrites[i]).user_id == user
            && overwrites[i].allowed;
    assert(overwrites[i].user_id == user);
}

/// How the standing of a user depends on the entries: it is that of the
/// entries before the last, unless the last entry is the user's.
pub proof fn lemma_standing_after_push(
    overwrites: Seq<AccessOverwrite>,
    added: AccessOverwrite,
    user: u64,
)
    ensures
        holds_overwrite(overwrites.push(added), user) <==> holds_overwrite(overwrites, user)
            || added.user_id == user,
        explicitly_allowed(overwrites.push(added), user) <==> explicitly_allowed(overwrites, user)
            || (added.user_id == user && added.allowed),
{
    let grown = overwrites.push(added);
    assert(grown[overwrites.len() as int] == added);
    if holds_overwrite(grown, user) {
        let i = choose|i: int| 0 <= i < grown.len() && (#[trigger] grown[i]).user_id == user;
        if i < overwrites.len() {
            assert(overwrites[i] == grown[i]);
        }
    }
    if holds_overwrite(overwrites, user) {
        let i = choose|i: int|
            0 <= i < overwrites.len() && (#[trigger] overwrites[i]).user_id == user;
        assert(grown[i] == overwrites[i]);
    }
    if explicitly_allowed(grown, user) {
        let i = choose|i: int|
            0 <= i < grown.len() && (#[trigger] grown[i]).user_id == user && grown[i].allowed;
        if i < overwrites.len() {
            assert(overwrites[i] == grown[i]);
        }
    }
    if explicitly_allowed(overwrites, user) {
        let i = choose|i: int|
            0 <= i < overwrites.len() && (#[trigger] overwrites[i]).user_id == user
                && overwrites[i].allowed;
        assert(grown[i] == overwrites[i]);
    }
}

/// A sequence without repetition stays so when it grows by a new element.
proof fn lemma_no_duplicates_after_push<T>(s: Seq<T>, added: T)
    requires
        s.no_duplicates(),
        !s.contains(added),
    ensures
        s.push(added).no_duplicates(),
{
    let grown = s.push(added);
    assert forall|i: int, j: int|
        0 <= i < grown.len() && 0 <= j < grown.len() && i != j implies grown[i] != grown[j] by {
        if i < s.len() {
            assert(s.contains(grown[i]));
        }
        if j < s.len() {
            assert(s.contains(grown[j]));
        }
    }
}

/// The revokes are exactly those owed, each once.
proof fn lemma_revocations(present: Seq<u64>, overwrites: Seq<AccessOverwrite>)
    ensures
        revocations(present, overwrites).no_duplicates(),
        forall|action: Action| #[trigger]
            revocations(present, overwrites).contains(action) <==> action is Revoke && owed_revoke(
                present,
                overwrites,
                action.subject(),
            ),
    decreases overwrites.len(),
{
    let out = revocations(present, overwrites);
    if overwrites.len() > 0 {
        let earlier = overwrites.drop_last();
        let last = overwrites.last();
        let before = revocations(present, earlier);
        let added = Action::Revoke(last.user_id);
        lemma_revocations(present, earlier);
        assert(earlier.push(last) == overwrites);
        assert(before.contains(added) <==> owed_revoke(present, earlier, last.user_id));
        if out != before {
            lemma_no_duplicates_after_push(before, added);
        }
        assert forall|action: Action| #[trigger]
            out.contains(action) <==> action is Revoke && owed_revoke(
                present,
                overwrites,
                action.subject(),
            ) by {
            lemma_standing_after_push(earlier, last, action.subject());
            lemma_seq_contains_after_push(before, added, action);
            assert(before.contains(action) <==> action is Revoke && owed_revoke(
                present,
                earlier,
                action.subject(),
            ));
        }
    }
}

/// The grants are exactly those owed, each once.
proof fn lemma_grants(present: Seq<u64>, overwrites: Seq<AccessOverwrite>)
    ensures
        grants(present, overwrites).no_duplicates(),
        forall|action: Action| #[trigger]
            grants(present, overwrites).contains(action) <==> action is Grant && owed_grant(
                present,
                overwrites,
                action.subject(),
            ),
    decreases present.len(),
{
    let out = grants(present, overwrites);
    if present.len() > 0 {
        let earlier = present.drop_last();
        let last = present.last();
        let before = grants(earlier, overwrites);
        let added = Action::Grant(last);
        lemma_grants(earlier, overwrites);
        assert(earlier.push(last) == present);
        assert(before.contains(added) <==> owed_grant(earlier, overwrites, last));
        if out != before {
            lemma_no_duplicates_after_push(before, added);
        }
        assert forall|action: Action| #[trigger]
            out.contains(action) <==> action is Grant && owed_grant(
                present,
                overwrites,
                action.subject(),
            ) by {
            lemma_seq_contains_after_push(earlier, last, action.subject());
            lemma_seq_contains_after_push(before, added, action);
            assert(before.contains(action) <==> action is Grant && owed_grant(
                earlier,
                overwrites,
                action.subject(),
            ));
        }
    }
}

/// The diff holds exactly the owed actions, each once: `Revoke(u)` is in it
/// if and only if `u` is absent and holds an entry, and `Grant(u)` if and
/// only if `u` is present and lacks an explicit allow.
pub proof fn reconciled_is_exact(present: Seq<u64>, overwrites: Seq<AccessOverwrite>)
    ensures
        reconciled(present, overwrites).no_duplicates(),
        forall|user: u64| #[trigger]
            reconciled(present, overwrites).contains(Action::Revoke(user)) <==> owed_revoke(
                present,
                overwrites,
                user,
            ),
        forall|user: u64| #[trigger]
            reconciled(present, overwrites).contains(Action::Grant(user)) <==> owed_grant(
                present,
                overwrites,
                user,
            ),
{
    let revokes = revocations(present, overwrites);
    let additions = grants(present, overwrites);
    let all = reconciled(present, overwrites);
    lemma_revocations(present, overwrites);
    lemma_grants(present, overwrites);
    assert forall|i: int, j: int|
        0 <= i < revokes.len() && 0 <= j < additions.len() implies revokes[i] != additions[j] by {
        assert(revokes.contains(revokes[i]));
        assert(additions.contains(additions[j]));
    }
    lemma_no_dup_in_concat(revokes, additions);
    assert forall|action: Action| #[trigger]
        all.contains(action) <==> revokes.contains(action) || additions.contains(action) by {
        if all.contains(action) {
            let i = choose|i: int| 0 <= i < all.len() && all[i] == action;
            if i < revokes.len() {
                assert(revokes[i] == action);
            } else {
                assert(additions[i - revokes.len()] == action);
            }
        }
        if revokes.contains(action) {
            let i = choose|i: int| 0 <= i < revokes.len() && revokes[i] == action;
            assert(all[i] == action);
        }
        if additions.contains(action) {
            let i = choose|i: int| 0 <= i < additions.len() && additions[i] == action;
            assert(all[revokes.len() + i] == action);
        }
    }
    assert forall|user: u64| #[trigger]
        all.contains(Action::Revoke(user)) <==> owed_revoke(present, overwrites, user) by {
        assert(Action::Revoke(user).subject() == user);
    }
    assert forall|user: u64| #[trigger]
        all.contains(Action::Grant(user)) <==> owed_grant(present, overwrites, user) by {
        assert(Action::Grant(user).subject() == user);
    }
}

/// Looks `user` up among `members`: whether it occurs, and the index of its
/// first occurrence (0 when it does not occur).
pub fn in_vc(user: u64, members: &Vec<u64>) -> (found: (bool, usize))
    ensures
        found.0 == members@.contains(user),
        found.0 ==> found.1 < members.len() && members[found.1 as int] == user
            && !members@.take(found.1 as int).contains(user),
        !found.0 ==> found.1 == 0,
{
    let mut i: usize = 0;
    while i < members.len()
        invariant
            i <= members.len(),
            forall|j: int| 0 <= j < i ==> members[j] != user,
        decreases members.len() - i,
    {
        if members[i] == user {
            return (true, i);
        }
        i += 1;
    }
    (false, 0)
}

/// Whether `user` has any entry among the first `upto` overwrites.
fn holds_before(overwrites: &Vec<AccessOverwrite>, upto: usize, user: u64) -> (held: bool)
    requires
        upto <= overwrites.len(),
    ensures
        held == holds_overwrite(overwrites@.take(upto as int), user),
{
    let ghost seen = overwrites@.take(upto as int);
    let mut i: usize = 0;
    while i < upto
        invariant
            i <= upto <= overwrites.len(),
            seen == overwrites@.take(upto as int),
            forall|j: int| 0 <= j < i ==> (#[trigger] seen[j]).user_id != user,
        decreases upto - i,
    {
        assert(seen[i as int] == overwrites[i as int]);
        if overwrites[i].user_id == user {
            return true;
        }
        i += 1;
    }
    false
}

/// Whether `user` has an explicit allow entry.
pub fn has_explicit_allow(overwrites: &Vec<AccessOverwrite>, user: u64) -> (allowed: bool)
    ensures
        allowed == explicitly_allowed(overwrites@, user),
{
    let mut i: usize = 0;
    while i < overwrites.len()
        invariant
            i <= overwrites.len(),
            forall|j: int| 0 <= j < i ==> !(overwrites[j].user_id == user && overwrites[j].allowed),
        decreases overwrites.len() - i,
    {
        if overwrites[i].user_id == user && overwrites[i].allowed {
            return true;
        }
        i += 1;
    }
    false
}

/// Computes the actions that make the explicit overwrites match presence:
/// a revoke for every absent user that holds an entry, then a grant for every
/// present user that lacks an explicit allow. No action is issued twice, and
/// users that are present and already allowed get none.
pub fn reconcile(present: &Vec<u64>, overwrites: &Vec<AccessOverwrite>) -> (actions: Vec<Action>)
    ensures
        actions@ == reconciled(present@, overwrites@),
        actions@.no_duplicates(),
        forall|user: u64| #[trigger]
            actions@.contains(Action::Revoke(user)) <==> owed_revoke(present@, overwrites@, user),
        forall|user: u64| #[trigger]
            actions@.contains(Action::Grant(user)) <==> owed_grant(present@, overwrites@, user),
{
    proof {
        reconciled_is_exact(present@, overwrites@);
    }
    let mut actions: Vec<Action> = Vec::new();
    let mut i: usize = 0;
    while i < overwrites.len()
        invariant
            i <= overwrites.len(),
            actions@ == revocations(present@, overwrites@.take(i as int)),
        decreases overwrites.len() - i,
    {
        let user = overwrites[i].user_id;
        let (is_in_vc, _) = in_vc(user, present);
        let seen = holds_before(overwrites, i, user);
        proof {
            let next = overwrites@.take(i + 1);
            assert(next.drop_last() == overwrites@.take(i as int));
            assert(next.last() == overwrites[i as int]);
        }
        if !is_in_vc && !seen {
            actions.push(Action::Revoke(user));
        }
        i += 1;
    }
    proof {
        assert(overwrites@.take(i as int) == overwrites@);
    }
    let ghost revokes = actions@;
    let mut k: usize = 0;
    while k < present.len()
        invariant
            k <= present.len(),
            actions@ == revokes + grants(present@.take(k as int), overwrites@),
        decreases present.len() - k,
    {
        let user = present[k];
        let allowed = has_explicit_allow(overwrites, user);
        let seen = listed_before(present, k, user);
        proof {
            let next = present@.take(k + 1);
            assert(next.drop_last() == present@.take(k as int));
            assert(next.last() == present[k as int]);
        }
        if !allowed && !seen {
            actions.push(Action::Grant(user));
        }
        k += 1;
    }
    proof {
        assert(present@.take(k as int) == present@);
    }
    actions
}

/// Whether `user` occurs among the first `upto` members.
fn listed_before(members: &Vec<u64>, upto: usize, user: u64) -> (listed: bool)
    requires
        upto <= members.len(),
    ensures
        listed == members@.take(upto as int).contains(user),
{
    let mut i: usize = 0;
    while i < upto
        invariant
            i <= upto <= members.len(),
            forall|j: int| 0 <= j < i ==> members[j] != user,
        decreases upto - i,
    {
        if members[i] == user {
            assert(members@.take(upto as int)[i as int] == user);
            return true;
        }
        i += 1;
    }
    assert forall|j: int| 0 <= j < upto implies members@.take(upto as int)[j] != user by {
        assert(members@.take(upto as int)[j] == members[j]);
    }
    false
}

} // verus!
