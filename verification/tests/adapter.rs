use catch_unwind_stream::Advance;
use catch_unwind_stream::CatchUnwind;
use catch_unwind_stream::ScriptedSource;
use catch_unwind_stream::Step;

fn adapter_over(
    entries: Vec<Advance<u32, String>>,
) -> CatchUnwind<ScriptedSource<u32, String>> {
    CatchUnwind::new(ScriptedSource::new(entries))
}

#[test]
fn empty_source_is_done_at_once() {
    let mut adapter = adapter_over(vec![]);
    let mut wake: u8 = 0;
    assert_eq!(adapter.poll_next(&mut wake), Step::Done);
    assert!(!adapter.is_closed());
    assert_eq!(adapter.poll_next(&mut wake), Step::Done);
    assert!(!adapter.is_closed());
}

#[test]
fn clean_sequence_is_forwarded_in_order() {
    let mut adapter = adapter_over(vec![
        Advance::Normal(Step::Item(10)),
        Advance::Normal(Step::Item(20)),
        Advance::Normal(Step::Item(30)),
        Advance::Normal(Step::Done),
    ]);
    let mut wake: u8 = 0;
    assert_eq!(adapter.poll_next(&mut wake), Step::Item(Ok(10)));
    assert_eq!(adapter.poll_next(&mut wake), Step::Item(Ok(20)));
    assert_eq!(adapter.poll_next(&mut wake), Step::Item(Ok(30)));
    assert_eq!(adapter.poll_next(&mut wake), Step::Done);
    assert!(!adapter.is_closed());
}

#[test]
fn failure_after_items_yields_one_err_then_done() {
    let mut adapter = adapter_over(vec![
        Advance::Normal(Step::Item(1)),
        Advance::Normal(Step::Item(2)),
        Advance::Aborted("gone".to_string()),
        Advance::Normal(Step::Item(9)),
    ]);
    let mut wake: u8 = 0;
    assert_eq!(adapter.poll_next(&mut wake), Step::Item(Ok(1)));
    assert!(!adapter.is_closed());
    assert_eq!(adapter.poll_next(&mut wake), Step::Item(Ok(2)));
    assert!(!adapter.is_closed());
    assert_eq!(
        adapter.poll_next(&mut wake),
        Step::Item(Err("gone".to_string()))
    );
    assert!(adapter.is_closed());
    assert_eq!(adapter.poll_next(&mut wake), Step::Done);
    assert_eq!(adapter.poll_next(&mut wake), Step::Done);
    assert_eq!(adapter.poll_next(&mut wake), Step::Done);
    assert!(adapter.is_closed());
}

#[test]
fn failure_on_first_advancement() {
    let mut adapter = adapter_over(vec![Advance::Aborted("at once".to_string())]);
    let mut wake: u8 = 0;
    assert_eq!(
        adapter.poll_next(&mut wake),
        Step::Item(Err("at once".to_string()))
    );
    assert!(adapter.is_closed());
    assert_eq!(adapter.poll_next(&mut wake), Step::Done);
}

#[test]
fn pending_is_forwarded_and_flag_unaffected() {
    let mut adapter = adapter_over(vec![
        Advance::Normal(Step::Pending),
        Advance::Normal(Step::Item(5)),
        Advance::Normal(Step::Pending),
        Advance::Normal(Step::Done),
    ]);
    let mut wake: u8 = 0;
    assert_eq!(adapter.poll_next(&mut wake), Step::Pending);
    assert!(!adapter.is_closed());
    assert_eq!(adapter.poll_next(&mut wake), Step::Item(Ok(5)));
    assert_eq!(adapter.poll_next(&mut wake), Step::Pending);
    assert!(!adapter.is_closed());
    assert_eq!(adapter.poll_next(&mut wake), Step::Done);
    assert!(!adapter.is_closed());
}

#[test]
fn boom_scenario() {
    let mut adapter = adapter_over(vec![
        Advance::Normal(Step::Item(1)),
        Advance::Normal(Step::Item(2)),
        Advance::Aborted("boom".to_string()),
        Advance::Normal(Step::Item(4)),
    ]);
    let mut wake: u8 = 0;
    let mut seen: Vec<Step<Result<u32, String>>> = Vec::new();
    for _ in 0..5 {
        seen.push(adapter.poll_next(&mut wake));
    }
    assert_eq!(
        seen,
        vec![
            Step::Item(Ok(1)),
            Step::Item(Ok(2)),
            Step::Item(Err("boom".to_string())),
            Step::Done,
            Step::Done,
        ]
    );
}

#[test]
fn exhausted_script_keeps_reporting_done() {
    let mut adapter = adapter_over(vec![Advance::Normal(Step::Item(3))]);
    let mut wake: u8 = 0;
    assert_eq!(adapter.poll_next(&mut wake), Step::Item(Ok(3)));
    assert_eq!(adapter.poll_next(&mut wake), Step::Done);
    assert_eq!(adapter.poll_next(&mut wake), Step::Done);
    assert!(!adapter.is_closed());
}

#[test]
fn done_in_mid_script_is_forwarded_unwrapped() {
    let mut adapter = adapter_over(vec![
        Advance::Normal(Step::Item(7)),
        Advance::Normal(Step::Done),
    ]);
    let mut wake: u8 = 0;
    assert_eq!(adapter.poll_next(&mut wake), Step::Item(Ok(7)));
    assert_eq!(adapter.poll_next(&mut wake), Step::Done);
    assert!(!adapter.is_closed());
}
