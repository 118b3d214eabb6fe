//! A mathematical model of a run of the catch adapter over a scripted inner
//! source: one whose successive advancements report a fixed sequence of
//! outcomes, and report `Done` once the sequence is used up.
//!
//! The state of such a run is a pair of the adapter's closed flag and the
//! outcomes the source has not yet reported. `step_output`, `step_caught` and
//! `step_script` give the output and the next state of one advancement;
//! `run_outputs`, `run_caught` and `run_script` iterate them.

use vstd::prelude::*;

use crate::adapter::Advance;
use crate::adapter::Step;
use crate::adapter::catch_output;

verus! {

/// The outcome a scripted source reports next: the first entry of the
/// remaining script, or `Done` once the script is used up.
pub open spec fn scripted_outcome<T, P>(script: Seq<Advance<T, P>>) -> Advance<T, P> {
    if script.len() == 0 {
        Advance::Normal(Step::Done)
    } else {
        script[0]
    }
}

/// The adapter's output on one advancement: `Done` once closed, otherwise
/// `catch_output` of what the scripted source reports.
pub open spec fn step_output<T, P>(caught: bool, script: Seq<Advance<T, P>>) -> Step<
    Result<T, P>,
> {
    if caught {
        Step::Done
    } else {
        catch_output(scripted_outcome(script))
    }
}

/// The closed flag after one advancement: it stays set once set, and becomes
/// set exactly when the source's outcome is an abnormal termination.
pub open spec fn step_caught<T, P>(caught: bool, script: Seq<Advance<T, P>>) -> bool {
    caught || scripted_outcome(script) is Aborted
}

/// The remaining script after one advancement: unchanged once the adapter is
/// closed (the source is not advanced), otherwise one entry is consumed.
pub open spec fn step_script<T, P>(caught: bool, script: Seq<Advance<T, P>>) -> Seq<
    Advance<T, P>,
> {
    if caught || script.len() == 0 {
        script
    } else {
        script.drop_first()
    }
}

/// The outputs of the first `n` advancements of an adapter that starts with
/// the given closed flag and remaining script.
pub open spec fn run_outputs<T, P>(caught: bool, script: Seq<Advance<T, P>>, n: nat) -> Seq<
    Step<Result<T, P>>,
>
    decreases n,
{
    if n == 0 {
        Seq::empty()
    } else {
        seq![step_output(caught, script)] + run_outputs(
            step_caught(caught, script),
            step_script(caught, script),
            (n - 1) as nat,
        )
    }
}

/// The adapter's closed flag after `n` advancements.
pub open spec fn run_caught<T, P>(caught: bool, script: Seq<Advance<T, P>>, n: nat) -> bool
    decreases n,
{
    if n == 0 {
        caught
    } else {
        run_caught(step_caught(caught, script), step_script(caught, script), (n - 1) as nat)
    }
}

/// The remaining script after `n` advancements.
pub open spec fn run_script<T, P>(caught: bool, script: Seq<Advance<T, P>>, n: nat) -> Seq<
    Advance<T, P>,
>
    decreases n,
{
    if n == 0 {
        script
    } else {
        run_script(step_caught(caught, script), step_script(caught, script), (n - 1) as nat)
    }
}

} // verus!
