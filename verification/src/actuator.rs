//! Book-keeping for carrying a batch of actions out: every action is taken
//! up in turn, whether or not the ones before it succeeded.
use crate::reconcile::Action;
use vstd::prelude::*;

verus! {

/// How one action went: the action, and the reported reason where it failed.
#[derive(Debug)]
pub struct Outcome {
    pub action: Action,
    pub failure: Option<String>,
}

/// The outcomes of a batch, in the order in which the actions were taken up.
#[derive(Debug)]
pub struct AppliedResult {
    pub outcomes: Vec<Outcome>,
}

impl AppliedResult {
    /// The outcomes so far are those of the first actions of the batch, one
    /// each and in order.
    pub open spec fn tracks(&self, actions: Seq<Action>) -> bool {
        &&& self.outcomes.len() <= actions.len()
        &&& forall|i: int|
            0 <= i < self.outcomes.len() ==> (#[trigger] self.outcomes[i]).action == actions[i]
    }

    /// Every action of the batch has its outcome.
    pub open spec fn complete(&self, actions: Seq<Action>) -> bool {
        self.tracks(actions) && self.outcomes.len() == actions.len()
    }

    /// No outcome yet.
    pub fn new() -> (result: AppliedResult)
        ensures
            result.outcomes@ == Seq::<Outcome>::empty(),
    {
        AppliedResult { outcomes: Vec::new() }
    }

    /// The action to take up next: the first of the batch without an
    /// outcome, whatever the earlier outcomes were; `None` once every
    /// action has one.
    pub fn next_action(&self, actions: &Vec<Action>) -> (next: Option<Action>)
        ensures
            next == if self.outcomes.len() < actions.len() {
                Some(actions[self.outcomes.len() as int])
            } else {
                None
            },
    {
        let done = self.outcomes.len();
        if done < actions.len() {
            Some(actions[done])
        } else {
            None
        }
    }

    /// Files the outcome of an action: success, or the reported reason of
    /// its failure.
    pub fn record(&mut self, action: Action, outcome: Result<(), String>)
        ensures
            final(self).outcomes@ == old(self).outcomes@.push(
                Outcome {
                    action,
                    failure: match outcome {
                        Ok(()) => None,
                        Err(reason) => Some(reason),
                    },
                },
            ),
            forall|actions: Seq<Action>|
                old(self).tracks(actions) && old(self).outcomes.len() < actions.len()
                    && actions[old(self).outcomes.len() as int] == action
                    ==> #[trigger] final(self).tracks(actions),
    {
        let failure = match outcome {
            Ok(()) => None,
            Err(reason) => Some(reason),
        };
        self.outcomes.push(Outcome { action, failure });
    }

    /// How many of the actions failed.
    pub fn failed(&self) -> (count: usize)
        ensures
            count == failures(self.outcomes@),
    {
        let mut count: usize = 0;
        let mut i: usize = 0;
        while i < self.outcomes.len()
            invariant
                i <= self.outcomes.len(),
                count == failures(self.outcomes@.take(i as int)),
                count <= i,
            decreases self.outcomes.len() - i,
        {
            proof {
                let next = self.outcomes@.take(i + 1);
                assert(next.drop_last() == self.outcomes@.take(i as int));
                assert(next.last() == self.outcomes[i as int]);
            }
            if self.outcomes[i].failure.is_some() {
                count += 1;
            }
            i += 1;
        }
        proof {
            assert(self.outcomes@.take(i as int) == self.outcomes@);
        }
        count
    }
}

/// The number of outcomes that report a failure.
pub open spec fn failures(outcomes: Seq<Outcome>) -> nat
    decreases outcomes.len(),
{
    if outcomes.len() == 0 {
        0
    } else if outcomes.last().failure is Some {
        failures(outcomes.drop_last()) + 1
    } else {
        failures(outcomes.drop_last())
    }
}

} // verus!
