use qvalidator::pipeline::{
    correct_errors, correct_interface_errors, correct_quantum_errors, run_pipeline, run_stages,
    ErrorCorrectionPipeline, PipelineState,
};
use qvalidator::types::{Error, Stage};
use std::cell::Cell;

fn tagging(tag: u8, calls: &Cell<u32>) -> impl Fn(&Vec<u8>) -> Option<Vec<u8>> + '_ {
    move |bytes: &Vec<u8>| {
        calls.set(calls.get() + 1);
        let mut out = bytes.clone();
        out.push(tag);
        Some(out)
    }
}

fn rejecting(calls: &Cell<u32>) -> impl Fn(&Vec<u8>) -> Option<Vec<u8>> + '_ {
    move |_bytes: &Vec<u8>| {
        calls.set(calls.get() + 1);
        None
    }
}

#[test]
fn builtin_stages_pass_the_payload_through() {
    let payload = vec![1u8, 2, 3, 250];
    assert_eq!(correct_errors(&payload), payload);
    assert_eq!(correct_interface_errors(&payload), payload);
    assert_eq!(correct_quantum_errors(&payload), payload);
    assert_eq!(correct_errors(&[]), Vec::<u8>::new());
}

#[test]
fn builtin_stages_are_idempotent() {
    let payload = vec![7u8; 40];
    let once = correct_errors(&payload);
    assert_eq!(correct_errors(&once), once);
    let once = correct_interface_errors(&payload);
    assert_eq!(correct_interface_errors(&once), once);
    let once = correct_quantum_errors(&payload);
    assert_eq!(correct_quantum_errors(&once), once);
}

#[test]
fn builtin_pipeline_returns_the_payload() {
    let payload = vec![9u8, 8, 7];
    assert_eq!(run_pipeline(&payload), Ok(payload));
    assert_eq!(run_pipeline(&Vec::new()), Ok(Vec::new()));
}

#[test]
fn stages_run_in_order_each_on_the_output_of_the_last() {
    let (c, b, q) = (Cell::new(0), Cell::new(0), Cell::new(0));
    let payload = vec![0u8];
    let result = run_stages(&payload, tagging(1, &c), tagging(2, &b), tagging(3, &q));
    assert_eq!(result, Ok(vec![0, 1, 2, 3]));
    assert_eq!((c.get(), b.get(), q.get()), (1, 1, 1));
}

#[test]
fn bridge_failure_stops_before_the_quantum_stage() {
    let (c, b, q) = (Cell::new(0), Cell::new(0), Cell::new(0));
    let payload = vec![4u8, 5, 6];
    let result = run_stages(&payload, tagging(1, &c), rejecting(&b), tagging(3, &q));
    assert_eq!(result, Err(Error::CorrectionFailed(Stage::Bridge)));
    assert_eq!(q.get(), 0);
    assert_eq!((c.get(), b.get()), (1, 1));
    assert_eq!(payload, vec![4u8, 5, 6]);
}

#[test]
fn classical_failure_stops_before_the_bridge_stage() {
    let (c, b, q) = (Cell::new(0), Cell::new(0), Cell::new(0));
    let result = run_stages(&vec![1u8], rejecting(&c), tagging(2, &b), tagging(3, &q));
    assert_eq!(result, Err(Error::CorrectionFailed(Stage::Classical)));
    assert_eq!((c.get(), b.get(), q.get()), (1, 0, 0));
}

#[test]
fn quantum_failure_is_named() {
    let (c, b, q) = (Cell::new(0), Cell::new(0), Cell::new(0));
    let result = run_stages(&vec![1u8], tagging(1, &c), tagging(2, &b), rejecting(&q));
    assert_eq!(result, Err(Error::CorrectionFailed(Stage::Quantum)));
    assert_eq!((c.get(), b.get(), q.get()), (1, 1, 1));
}

#[test]
fn run_asks_for_the_stages_one_by_one() {
    let mut run = ErrorCorrectionPipeline::new(vec![10u8]);
    assert_eq!(run.pending(), Some(Stage::Classical));
    assert_eq!(run.state(), PipelineState::Awaiting(Stage::Classical));
    assert_eq!(run.input(), &vec![10u8]);
    run.advance(Some(vec![11]));
    assert_eq!(run.pending(), Some(Stage::Bridge));
    assert_eq!(run.input(), &vec![11u8]);
    run.advance(Some(vec![12]));
    assert_eq!(run.pending(), Some(Stage::Quantum));
    assert_eq!(run.input(), &vec![12u8]);
    run.advance(Some(vec![13]));
    assert_eq!(run.pending(), None);
    assert_eq!(run.state(), PipelineState::Corrected);
    assert_eq!(run.payload(), &vec![10u8]);
    assert_eq!(run.finish(), Some(Ok(vec![13])));
}

#[test]
fn unfinished_run_has_no_result() {
    let mut run = ErrorCorrectionPipeline::new(vec![10u8]);
    run.advance(Some(vec![11]));
    assert_eq!(run.finish(), None);
}

#[test]
fn rejected_run_keeps_the_payload_and_ignores_later_reports() {
    let mut run = ErrorCorrectionPipeline::new(vec![10u8, 20]);
    run.advance(Some(vec![99]));
    run.advance(None);
    assert_eq!(run.pending(), None);
    assert_eq!(run.state(), PipelineState::Failed(Stage::Bridge));
    assert_eq!(run.input(), &vec![10u8, 20]);
    assert_eq!(run.payload(), &vec![10u8, 20]);
    run.advance(Some(vec![1, 2, 3]));
    assert_eq!(run.state(), PipelineState::Failed(Stage::Bridge));
    assert_eq!(run.input(), &vec![10u8, 20]);
    assert_eq!(run.finish(), Some(Err(Error::CorrectionFailed(Stage::Bridge))));
}

#[test]
fn corrected_run_ignores_later_reports() {
    let mut run = ErrorCorrectionPipeline::new(vec![1u8]);
    run.advance(Some(vec![2]));
    run.advance(Some(vec![3]));
    run.advance(Some(vec![4]));
    run.advance(None);
    run.advance(Some(vec![5]));
    assert_eq!(run.finish(), Some(Ok(vec![4])));
}
