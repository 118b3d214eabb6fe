//! The catch adapter: it owns an inner item source and exposes the same
//! advancement capability, but wraps each successful item in `Ok` and turns an
//! abnormal termination of the inner source into one terminal `Err` item.

use vstd::prelude::*;

verus! {

/// One outcome of advancing a source: the source is not ready yet, the
/// sequence is exhausted, or the next item is available.
#[derive(Debug, PartialEq, Eq)]
pub enum Step<T> {
    Pending,
    Done,
    Item(T),
}

/// How one advancement of an inner source ended: it returned a `Step`
/// normally, or it terminated abnormally, leaving behind an opaque payload.
///
/// Abnormal termination is represented as a returned value rather than as a
/// stack unwind, so that an adapter can simply match on it.
#[derive(Debug, PartialEq, Eq)]
pub enum Advance<T, P> {
    Normal(Step<T>),
    Aborted(P),
}

/// An asynchronous item source under cooperative polling: each call to
/// `advance` hands the wake handle through and reports how the attempt ended.
///
/// `can_step` is the implementor's transition relation: it says which
/// outcomes one advancement may report and how the source may change. An
/// implementor that leaves it at its default promises nothing of its
/// advancements.
pub trait Source<T, P, W>: Sized {
    open spec fn can_step(&self, post: Self, outcome: Advance<T, P>) -> bool {
        true
    }

    fn advance(&mut self, wake: &mut W) -> (outcome: Advance<T, P>)
        ensures
            old(self).can_step(*final(self), outcome),
    ;
}

/// What the adapter returns for a given outcome of the inner source:
/// `Pending` and `Done` pass through, a normal item is wrapped in `Ok`, and
/// an abnormal termination becomes an `Err` item carrying the payload.
pub open spec fn catch_output<T, P>(outcome: Advance<T, P>) -> Step<Result<T, P>> {
    match outcome {
        Advance::Normal(Step::Pending) => Step::Pending,
        Advance::Normal(Step::Done) => Step::Done,
        Advance::Normal(Step::Item(v)) => Step::Item(Ok(v)),
        Advance::Aborted(p) => Step::Item(Err(p)),
    }
}

/// Whether an output of the adapter is the error item that reports a caught
/// abnormal termination.
pub open spec fn is_failure_item<T, P>(out: Step<Result<T, P>>) -> bool {
    out matches Step::Item(r) && r is Err
}

/// The catch adapter. It holds the inner source and a closed flag; the flag
/// starts false and is set, once and permanently, at the moment an abnormal
/// termination of the inner source is caught.
pub struct CatchUnwind<S> {
    source: S,
    caught_unwind: bool,
}

impl<S> CatchUnwind<S> {
    /// The closed flag: true exactly after an abnormal termination was caught.
    pub closed spec fn caught(&self) -> bool {
        self.caught_unwind
    }

    /// The inner source as the adapter currently holds it.
    pub closed spec fn inner(&self) -> S {
        self.source
    }

    /// Wraps an inner source; the closed flag starts false.
    pub fn new(source: S) -> (r: CatchUnwind<S>)
        ensures
            !r.caught(),
            r.inner() == source,
    {
        CatchUnwind { source, caught_unwind: false }
    }

    /// Reports the closed flag.
    pub fn is_closed(&self) -> (r: bool)
        ensures
            r == self.caught(),
    {
        self.caught_unwind
    }
}

/// How one call to `CatchUnwind::poll_next` relates the adapter's state
/// before the call, its state after it, and the returned output.
///
/// Once closed, the adapter returns `Done` without touching the inner source.
/// Otherwise the inner source was advanced exactly once: the output is
/// `catch_output` of that advancement's outcome, and the adapter is closed
/// afterwards exactly if the outcome was an abnormal termination.
pub open spec fn poll_transition<T, P, W, S: Source<T, P, W>>(
    pre: CatchUnwind<S>,
    post: CatchUnwind<S>,
    out: Step<Result<T, P>>,
) -> bool {
    if pre.caught() {
        post == pre && out == Step::<Result<T, P>>::Done
    } else {
        exists|outcome: Advance<T, P>|
            #[trigger] pre.inner().can_step(post.inner(), outcome)
            && out == catch_output(outcome)
            && post.caught() == (outcome is Aborted)
    }
}

impl<S> CatchUnwind<S> {
    /// Advances the adapter one step.
    ///
    /// If the closed flag is set, this returns `Done` immediately and the
    /// inner source is not touched. Otherwise the inner source is advanced
    /// once, with the wake handle forwarded unchanged: `Pending` and `Done`
    /// pass through, an item comes back wrapped in `Ok`, and an abnormal
    /// termination sets the closed flag and comes back as one `Err` item.
    pub fn poll_next<T, P, W>(&mut self, wake: &mut W) -> (out: Step<Result<T, P>>) where
        S: Source<T, P, W>,
        ensures
            poll_transition::<T, P, W, S>(*old(self), *final(self), out),
            old(self).caught() ==> out == Step::<Result<T, P>>::Done
                && *final(self) == *old(self),
            final(self).caught() == (old(self).caught() || is_failure_item(out)),
    {
        if self.caught_unwind {
            Step::Done
        } else {
            let outcome = self.source.advance(wake);
            let ghost witness = outcome;
            let out = match outcome {
                Advance::Normal(Step::Pending) => Step::Pending,
                Advance::Normal(Step::Done) => Step::Done,
                Advance::Normal(Step::Item(v)) => Step::Item(Ok(v)),
                Advance::Aborted(p) => {
                    self.caught_unwind = true;
                    Step::Item(Err(p))
                },
            };
            proof {
                assert(old(self).inner().can_step(self.inner(), witness));
                assert(out == catch_output(witness));
            }
            out
        }
    }
}

} // verus!
