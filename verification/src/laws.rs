//! Laws of the catch adapter, stated over the run model of `crate::model`
//! and proved. `lemma_poll_next_steps_model` ties the model to the executable
//! adapter: each call to `poll_next` over a scripted source performs exactly
//! one model step, so these laws describe whole runs of the adapter.

use vstd::prelude::*;

use crate::adapter::Advance;
use crate::adapter::CatchUnwind;
use crate::adapter::Source;
use crate::adapter::Step;
use crate::adapter::catch_output;
use crate::adapter::poll_transition;
use crate::model::run_caught;
use crate::model::run_outputs;
use crate::model::run_script;
use crate::model::scripted_outcome;
use crate::model::step_caught;
use crate::model::step_output;
use crate::model::step_script;
use crate::scripted::ScriptedSource;

verus! {

/// One call to `CatchUnwind::poll_next` on an adapter over a scripted source
/// performs exactly one step of the run model: the output is `step_output` of
/// the state before the call, and the state after it is given by
/// `step_caught` and `step_script`.
pub proof fn lemma_poll_next_steps_model<T, P, W>(
    pre: CatchUnwind<ScriptedSource<T, P>>,
    post: CatchUnwind<ScriptedSource<T, P>>,
    out: Step<Result<T, P>>,
)
    requires
        poll_transition::<T, P, W, ScriptedSource<T, P>>(pre, post, out),
    ensures
        out == step_output(pre.caught(), pre.inner()@),
        post.caught() == step_caught(pre.caught(), pre.inner()@),
        post.inner()@ == step_script(pre.caught(), pre.inner()@),
{
    if !pre.caught() {
        let outcome = choose|outcome: Advance<T, P>|
            #[trigger] <ScriptedSource<T, P> as Source<T, P, W>>::can_step(
                &pre.inner(),
                post.inner(),
                outcome,
            ) && out == catch_output(outcome) && post.caught() == (outcome is Aborted);
        assert(outcome == scripted_outcome(pre.inner()@));
    }
}

/// A run of `n` advancements produces exactly `n` outputs.
pub proof fn lemma_run_len<T, P>(caught: bool, script: Seq<Advance<T, P>>, n: nat)
    ensures
        run_outputs(caught, script, n).len() == n,
    decreases n,
{
    if n > 0 {
        lemma_run_len(step_caught(caught, script), step_script(caught, script), (n - 1) as nat);
    }
}

/// A run of `n + 1` advancements is the run of `n` advancements followed by
/// one step from the state those `n` advancements reach.
pub proof fn lemma_run_extend<T, P>(caught: bool, script: Seq<Advance<T, P>>, n: nat)
    ensures
        run_outputs(caught, script, n + 1) == run_outputs(caught, script, n).push(
            step_output(run_caught(caught, script, n), run_script(caught, script, n)),
        ),
        run_caught(caught, script, n + 1) == step_caught(
            run_caught(caught, script, n),
            run_script(caught, script, n),
        ),
        run_script(caught, script, n + 1) == step_script(
            run_caught(caught, script, n),
            run_script(caught, script, n),
        ),
    decreases n,
{
    reveal_with_fuel(run_outputs, 2);
    reveal_with_fuel(run_caught, 2);
    reveal_with_fuel(run_script, 2);
    let c1 = step_caught(caught, script);
    let s1 = step_script(caught, script);
    if n == 0 {
        assert(run_outputs(caught, script, 1) =~= run_outputs(caught, script, 0).push(
            step_output(caught, script),
        ));
    } else {
        lemma_run_extend(c1, s1, (n - 1) as nat);
        assert(run_outputs(caught, script, n + 1) =~= run_outputs(caught, script, n).push(
            step_output(run_caught(caught, script, n), run_script(caught, script, n)),
        ));
    }
}

/// Output number `j` of a run is one step's output from the state reached
/// after `j` advancements.
pub proof fn lemma_output_at<T, P>(caught: bool, script: Seq<Advance<T, P>>, n: nat, j: nat)
    requires
        j < n,
    ensures
        run_outputs(caught, script, n)[j as int] == step_output(
            run_caught(caught, script, j),
            run_script(caught, script, j),
        ),
    decreases n,
{
    lemma_run_len(caught, script, (n - 1) as nat);
    lemma_run_extend(caught, script, (n - 1) as nat);
    if j < n - 1 {
        lemma_output_at(caught, script, (n - 1) as nat, j);
    }
}

/// Once the adapter is closed it stays closed, and the remaining script never
/// changes: the inner source is not advanced again.
pub proof fn lemma_caught_stays<T, P>(caught: bool, script: Seq<Advance<T, P>>, m: nat, n: nat)
    requires
        m <= n,
        run_caught(caught, script, m),
    ensures
        run_caught(caught, script, n),
        run_script(caught, script, n) == run_script(caught, script, m),
    decreases n - m,
{
    if m < n {
        lemma_caught_stays(caught, script, m, (n - 1) as nat);
        lemma_run_extend(caught, script, (n - 1) as nat);
    }
}

/// As long as no abnormal termination has been consumed, the adapter stays
/// open and the remaining script is the original one less the consumed
/// prefix.
pub proof fn lemma_state_while_clean<T, P>(script: Seq<Advance<T, P>>, j: nat)
    requires
        forall|i: int| 0 <= i < j && i < script.len() ==> !((#[trigger] script[i]) is Aborted),
    ensures
        !run_caught(false, script, j),
        j <= script.len() ==> run_script(false, script, j) == script.skip(j as int),
        j > script.len() ==> run_script(false, script, j) == Seq::<Advance<T, P>>::empty(),
    decreases j,
{
    if j == 0 {
        assert(script.skip(0) =~= script);
    } else if script.len() == 0 {
        lemma_state_while_clean(script, (j - 1) as nat);
        assert(script =~= Seq::<Advance<T, P>>::empty());
    } else {
        let rest = script.drop_first();
        assert forall|i: int| 0 <= i < j - 1 && i < rest.len() implies !((#[trigger] rest[i])
            is Aborted) by {
            assert(rest[i] == script[i + 1]);
        }
        lemma_state_while_clean(rest, (j - 1) as nat);
        if j <= script.len() {
            assert(rest.skip(j - 1) =~= script.skip(j as int));
        }
    }
}

/// Law: over a source that immediately reports `Done`, the adapter returns
/// `Done` on its first advancement and on every later one, and is never
/// closed.
pub proof fn lemma_empty_source<T, P>(script: Seq<Advance<T, P>>, n: nat)
    requires
        script.len() == 0,
    ensures
        run_outputs(false, script, n).len() == n,
        forall|j: int|
            0 <= j < n ==> (#[trigger] run_outputs(false, script, n)[j]) == Step::<
                Result<T, P>,
            >::Done,
        !run_caught(false, script, n),
    decreases n,
{
    lemma_run_len(false, script, n);
    lemma_state_while_clean(script, n);
    assert forall|j: int| 0 <= j < n implies (#[trigger] run_outputs(false, script, n)[j])
        == Step::<Result<T, P>>::Done by {
        lemma_output_at(false, script, n, j as nat);
        lemma_state_while_clean(script, j as nat);
    }
}

/// Law: over a script with no abnormal termination, the adapter forwards
/// every outcome unchanged and in order — each item wrapped in `Ok` — then
/// returns `Done` once the script is used up, and is never closed.
pub proof fn lemma_clean_sequence<T, P>(script: Seq<Advance<T, P>>, n: nat)
    requires
        forall|i: int| 0 <= i < script.len() ==> !((#[trigger] script[i]) is Aborted),
    ensures
        run_outputs(false, script, n).len() == n,
        forall|j: int|
            0 <= j < n && j < script.len() ==> (#[trigger] run_outputs(false, script, n)[j])
                == catch_output(script[j]),
        forall|j: int|
            script.len() <= j < n ==> (#[trigger] run_outputs(false, script, n)[j]) == Step::<
                Result<T, P>,
            >::Done,
        !run_caught(false, script, n),
{
    lemma_run_len(false, script, n);
    lemma_state_while_clean(script, n);
    assert forall|j: int| 0 <= j < n && j < script.len() implies (#[trigger] run_outputs(
        false,
        script,
        n,
    )[j]) == catch_output(script[j]) by {
        lemma_output_at(false, script, n, j as nat);
        lemma_state_while_clean(script, j as nat);
        assert(script.skip(j)[0] == script[j]);
    }
    assert forall|j: int| script.len() <= j < n implies (#[trigger] run_outputs(
        false,
        script,
        n,
    )[j]) == Step::<Result<T, P>>::Done by {
        lemma_output_at(false, script, n, j as nat);
        lemma_state_while_clean(script, j as nat);
        if j == script.len() {
            assert(script.skip(j).len() == 0);
        }
    }
}

/// Law: if the script reports `k` normal outcomes and then terminates
/// abnormally, the adapter forwards the `k` outcomes unchanged and in order,
/// reports the caught payload as exactly one `Err` item on advancement
/// `k + 1`, and from then on is closed and returns `Done` on every
/// advancement, whatever the script holds beyond the termination.
pub proof fn lemma_failure_closes<T, P>(script: Seq<Advance<T, P>>, k: nat, n: nat)
    requires
        k < script.len(),
        script[k as int] is Aborted,
        forall|i: int| 0 <= i < k ==> !((#[trigger] script[i]) is Aborted),
    ensures
        run_outputs(false, script, n).len() == n,
        forall|j: int|
            0 <= j < n && j <= k ==> (#[trigger] run_outputs(false, script, n)[j])
                == catch_output(script[j]),
        forall|j: int|
            k < j < n ==> (#[trigger] run_outputs(false, script, n)[j]) == Step::<
                Result<T, P>,
            >::Done,
        run_caught(false, script, n) == (n > k),
{
    lemma_run_len(false, script, n);
    assert forall|j: int| 0 <= j < n && j <= k implies (#[trigger] run_outputs(
        false,
        script,
        n,
    )[j]) == catch_output(script[j]) by {
        lemma_output_at(false, script, n, j as nat);
        lemma_state_while_clean(script, j as nat);
        assert(script.skip(j)[0] == script[j]);
    }
    lemma_state_while_clean(script, k);
    lemma_run_extend(false, script, k);
    assert(run_caught(false, script, k + 1));
    assert forall|j: int| k < j < n implies (#[trigger] run_outputs(false, script, n)[j])
        == Step::<Result<T, P>>::Done by {
        lemma_output_at(false, script, n, j as nat);
        lemma_caught_stays(false, script, k + 1, j as nat);
    }
    if n <= k {
        lemma_state_while_clean(script, n);
    } else {
        lemma_caught_stays(false, script, k + 1, n);
    }
}

/// Law: an adapter that is not closed forwards a `Pending` outcome of its
/// source unchanged, and the closed flag is unaffected.
pub proof fn lemma_pending_transparent<T, P>(script: Seq<Advance<T, P>>, k: nat, n: nat)
    requires
        k < n,
        !run_caught(false, script, k),
        scripted_outcome(run_script(false, script, k)) == Advance::<T, P>::Normal(Step::Pending),
    ensures
        run_outputs(false, script, n).len() == n,
        run_outputs(false, script, n)[k as int] == Step::<Result<T, P>>::Pending,
        !run_caught(false, script, k + 1),
{
    lemma_run_len(false, script, n);
    lemma_output_at(false, script, n, k);
    lemma_run_extend(false, script, k);
}

/// Law: once closed, the adapter returns `Done` on every advancement, stays
/// closed, and the remaining script never changes — the inner source is not
/// advanced again.
pub proof fn lemma_closed_stays_done<T, P>(script: Seq<Advance<T, P>>, n: nat)
    ensures
        run_outputs(true, script, n).len() == n,
        forall|j: int|
            0 <= j < n ==> (#[trigger] run_outputs(true, script, n)[j]) == Step::<
                Result<T, P>,
            >::Done,
        run_caught(true, script, n),
        run_script(true, script, n) == script,
{
    lemma_run_len(true, script, n);
    lemma_caught_stays(true, script, 0, n);
    assert forall|j: int| 0 <= j < n implies (#[trigger] run_outputs(true, script, n)[j])
        == Step::<Result<T, P>>::Done by {
        lemma_output_at(true, script, n, j as nat);
        lemma_caught_stays(true, script, 0, j as nat);
    }
}

} // verus!
