//! A scripted inner source: it reports a fixed sequence of outcomes, one per
//! advancement, and reports `Done` once the sequence is used up. It ignores
//! the wake handle. It is the reference instance of `Source` against which
//! the adapter's behaviour over whole runs is stated and tested.

use vstd::prelude::*;

use crate::adapter::Advance;
use crate::adapter::Source;
use crate::adapter::Step;
use crate::model::scripted_outcome;
use crate::model::step_script;

verus! {

/// An item source driven by a script: each advancement reports and consumes
/// the first remaining entry, and reports `Done` when none remains.
pub struct ScriptedSource<T, P> {
    entries: Vec<Advance<T, P>>,
}

impl<T, P> View for ScriptedSource<T, P> {
    type V = Seq<Advance<T, P>>;

    /// The outcomes this source has not yet reported, in order.
    closed spec fn view(&self) -> Seq<Advance<T, P>> {
        self.entries@
    }
}

impl<T, P> ScriptedSource<T, P> {
    /// A source that will report the given outcomes, one per advancement.
    pub fn new(entries: Vec<Advance<T, P>>) -> (r: ScriptedSource<T, P>)
        ensures
            r@ == entries@,
    {
        ScriptedSource { entries }
    }
}

impl<T, P, W> Source<T, P, W> for ScriptedSource<T, P> {
    /// A scripted source is deterministic: the outcome is `scripted_outcome`
    /// of the remaining script, and one entry is consumed if any remains.
    open spec fn can_step(&self, post: Self, outcome: Advance<T, P>) -> bool {
        outcome == scripted_outcome(self@) && post@ == step_script(false, self@)
    }

    fn advance(&mut self, wake: &mut W) -> (outcome: Advance<T, P>)
        ensures
            <ScriptedSource<T, P> as Source<T, P, W>>::can_step(old(self), *final(self), outcome),
    {
        if self.entries.len() == 0 {
            Advance::Normal(Step::Done)
        } else {
            let outcome = self.entries.remove(0);
            proof {
                assert(self.entries@ =~= old(self).entries@.drop_first());
            }
            outcome
        }
    }
}

} // verus!
