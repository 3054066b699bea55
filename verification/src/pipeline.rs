//! The error-correction gate: three stages, run strictly in order, any of
//! which may reject the payload.
//!
//! The codes themselves are supplied from outside. The pipeline only decides
//! which stage runs next, what it is given, and what comes out at the end.

use vstd::prelude::*;
use crate::types::Stage;
use crate::types::Error;
use crate::hashing::copy_bytes;

verus! {

/// Where a run of the pipeline stands.
#[derive(Clone, Copy, PartialEq, Eq, Debug, Structural)]
pub enum PipelineState {
    /// The named stage is to run next.
    Awaiting(Stage),
    /// All three stages accepted the payload.
    Corrected,
    /// The named stage rejected the payload; no later stage was run.
    Failed(Stage),
}

/// One run of the three correction stages over a payload.
pub struct ErrorCorrectionPipeline {
    payload: Vec<u8>,
    current: Vec<u8>,
    state: PipelineState,
}

/// Mathematical content of an [`ErrorCorrectionPipeline`].
pub ghost struct PipelineView {
    /// The payload as it was handed in.
    pub payload: Seq<u8>,
    /// Output of the last stage that accepted, the payload before any did.
    pub current: Seq<u8>,
    /// Progress of the run.
    pub state: PipelineState,
}

/// The stage that follows `stage`, if any.
pub open spec fn stage_after(stage: Stage) -> Option<Stage> {
    match stage {
        Stage::Classical => Some(Stage::Bridge),
        Stage::Bridge => Some(Stage::Quantum),
        Stage::Quantum => None,
    }
}

/// A fresh run over `payload`.
pub open spec fn started(payload: Seq<u8>) -> PipelineView {
    PipelineView { payload, current: payload, state: PipelineState::Awaiting(Stage::Classical) }
}

/// The run after its pending stage has reported `outcome`: its output, or
/// `None` for a rejection. A finished run does not change.
pub open spec fn advanced(run: PipelineView, outcome: Option<Seq<u8>>) -> PipelineView {
    match run.state {
        PipelineState::Awaiting(stage) => match outcome {
            Some(bytes) => PipelineView {
                payload: run.payload,
                current: bytes,
                state: match stage_after(stage) {
                    Some(next) => PipelineState::Awaiting(next),
                    None => PipelineState::Corrected,
                },
            },
            None => PipelineView {
                payload: run.payload,
                current: run.payload,
                state: PipelineState::Failed(stage),
            },
        },
        _ => run,
    }
}

/// The stage a run waits for, `None` once it has finished.
pub open spec fn pending_stage(run: PipelineView) -> Option<Stage> {
    match run.state {
        PipelineState::Awaiting(stage) => Some(stage),
        _ => None,
    }
}

/// What a run yields: the corrected payload, the stage that failed, or
/// nothing while a stage is still pending.
pub open spec fn run_result(run: PipelineView) -> Option<Result<Seq<u8>, Error>> {
    match run.state {
        PipelineState::Awaiting(_) => None,
        PipelineState::Corrected => Some(Ok(run.current)),
        PipelineState::Failed(stage) => Some(Err(Error::CorrectionFailed(stage))),
    }
}

/// The view of an optional stage output.
pub open spec fn outcome_view(outcome: Option<Vec<u8>>) -> Option<Seq<u8>> {
    match outcome {
        Some(bytes) => Some(bytes@),
        None => None,
    }
}

/// The view of a pipeline result.
pub open spec fn result_view(result: Result<Vec<u8>, Error>) -> Result<Seq<u8>, Error> {
    match result {
        Ok(bytes) => Ok(bytes@),
        Err(e) => Err(e),
    }
}

impl View for ErrorCorrectionPipeline {
    type V = PipelineView;

    closed spec fn view(&self) -> PipelineView {
        PipelineView { payload: self.payload@, current: self.current@, state: self.state }
    }
}

impl ErrorCorrectionPipeline {
    /// Starts a run over `payload`.
    pub fn new(payload: Vec<u8>) -> (run: Self)
        ensures
            run@ == started(payload@),
    {
        let current = copy_bytes(&payload);
        ErrorCorrectionPipeline {
            payload,
            current,
            state: PipelineState::Awaiting(Stage::Classical),
        }
    }

    /// The stage to run next, `None` once the run has finished.
    pub fn pending(&self) -> (stage: Option<Stage>)
        ensures
            stage == pending_stage(self@),
    {
        match self.state {
            PipelineState::Awaiting(stage) => Some(stage),
            _ => None,
        }
    }

    /// The bytes to hand to the pending stage.
    pub fn input(&self) -> (bytes: &Vec<u8>)
        ensures
            bytes@ == self@.current,
    {
        &self.current
    }

    /// The payload as it was handed in.
    pub fn payload(&self) -> (bytes: &Vec<u8>)
        ensures
            bytes@ == self@.payload,
    {
        &self.payload
    }

    /// Progress of the run.
    pub fn state(&self) -> (state: PipelineState)
        ensures
            state == self@.state,
    {
        self.state
    }

    /// Records what the pending stage reported.
    pub fn advance(&mut self, outcome: Option<Vec<u8>>)
        ensures
            final(self)@ == advanced(old(self)@, outcome_view(outcome)),
    {
        match self.state {
            PipelineState::Awaiting(stage) => match outcome {
                Some(bytes) => {
                    self.current = bytes;
                    self.state = match stage {
                        Stage::Classical => PipelineState::Awaiting(Stage::Bridge),
                        Stage::Bridge => PipelineState::Awaiting(Stage::Quantum),
                        Stage::Quantum => PipelineState::Corrected,
                    };
                },
                None => {
                    self.current = copy_bytes(&self.payload);
                    self.state = PipelineState::Failed(stage);
                },
            },
            _ => {},
        }
    }

    /// Ends the run: the corrected payload, or the stage that failed.
    /// `None` while a stage is still pending.
    pub fn finish(self) -> (result: Option<Result<Vec<u8>, Error>>)
        ensures
            match result {
                Some(r) => run_result(self@) == Some(result_view(r)),
                None => run_result(self@) is None,
            },
    {
        match self.state {
            PipelineState::Awaiting(_) => None,
            PipelineState::Corrected => Some(Ok(self.current)),
            PipelineState::Failed(stage) => Some(Err(Error::CorrectionFailed(stage))),
        }
    }
}

/// Classical error correction. The classical code of this crate treats
/// every byte string as a codeword: the payload passes through unchanged.
pub fn correct_errors(data: &[u8]) -> (corrected: Vec<u8>)
    ensures
        corrected@ == data@,
{
    slice_bytes(data)
}

/// Correction of the bridge protocol. The bridge code of this crate treats
/// every byte string as a codeword: the payload passes through unchanged.
pub fn correct_interface_errors(data: &[u8]) -> (corrected: Vec<u8>)
    ensures
        corrected@ == data@,
{
    slice_bytes(data)
}

/// Quantum error correction. The quantum code of this crate treats every
/// byte string as a codeword: the payload passes through unchanged.
pub fn correct_quantum_errors(data: &[u8]) -> (corrected: Vec<u8>)
    ensures
        corrected@ == data@,
{
    slice_bytes(data)
}

fn slice_bytes(data: &[u8]) -> (copy: Vec<u8>)
    ensures
        copy@ == data@,
{
    let mut copy: Vec<u8> = Vec::new();
    let mut i: usize = 0;
    while i < data.len()
        invariant
            i <= data.len(),
            copy@ == data@.subrange(0, i as int),
        decreases data.len() - i,
    {
        copy.push(data[i]);
        i += 1;
    }
    assert(data@.subrange(0, data.len() as int) == data@);
    copy
}

/// Runs the three codes of this crate over `payload`.
pub fn run_pipeline(payload: &Vec<u8>) -> (result: Result<Vec<u8>, Error>)
    ensures
        result_view(result) == Ok::<Seq<u8>, Error>(payload@),
{
    let classical = |bytes: &Vec<u8>| -> (out: Option<Vec<u8>>)
        ensures
            out matches Some(v) && v@ == bytes@,
        { Some(correct_errors(bytes.as_slice())) };
    let bridge = |bytes: &Vec<u8>| -> (out: Option<Vec<u8>>)
        ensures
            out matches Some(v) && v@ == bytes@,
        { Some(correct_interface_errors(bytes.as_slice())) };
    let quantum = |bytes: &Vec<u8>| -> (out: Option<Vec<u8>>)
        ensures
            out matches Some(v) && v@ == bytes@,
        { Some(correct_quantum_errors(bytes.as_slice())) };
    run_stages(payload, classical, bridge, quantum)
}

/// Fail-fast: when the pending stage rejects, the run is over. No stage is
/// pending any more, the run holds the payload as it was handed in, its
/// result names the stage that rejected, and nothing reported afterwards
/// changes it.
pub proof fn lemma_fail_fast(run: PipelineView, stage: Stage, later: Option<Seq<u8>>)
    requires
        run.state == PipelineState::Awaiting(stage),
    ensures
        pending_stage(advanced(run, None)) is None,
        advanced(run, None).payload == run.payload,
        advanced(run, None).current == run.payload,
        run_result(advanced(run, None)) == Some(
            Err::<Seq<u8>, Error>(Error::CorrectionFailed(stage)),
        ),
        advanced(advanced(run, None), later) == advanced(run, None),
{
}

/// The stages run in order: a fresh run waits for the classical stage, and
/// a stage that accepts hands over to the one after it, the last to the
/// corrected state.
pub proof fn lemma_stage_order(run: PipelineView, stage: Stage, output: Seq<u8>)
    requires
        run.state == PipelineState::Awaiting(stage),
    ensures
        pending_stage(started(run.payload)) == Some(Stage::Classical),
        pending_stage(advanced(run, Some(output))) == stage_after(stage),
        advanced(run, Some(output)).current == output,
        stage is Quantum ==> run_result(advanced(run, Some(output))) == Some(
            Ok::<Seq<u8>, Error>(output),
        ),
{
}

/// Runs three stages over `payload`, in order, stopping at the first that
/// rejects. A stage reports its output, or `None` to reject.
pub fn run_stages<C, B, Q>(payload: &Vec<u8>, classical: C, bridge: B, quantum: Q) -> (result:
    Result<Vec<u8>, Error>) where
    C: Fn(&Vec<u8>) -> Option<Vec<u8>>,
    B: Fn(&Vec<u8>) -> Option<Vec<u8>>,
    Q: Fn(&Vec<u8>) -> Option<Vec<u8>>,

    requires
        forall|bytes: &Vec<u8>| classical.requires((bytes,)),
        forall|bytes: &Vec<u8>| bridge.requires((bytes,)),
        forall|bytes: &Vec<u8>| quantum.requires((bytes,)),
    ensures
        match result {
            Ok(out) => exists|a: Vec<u8>, b: Vec<u8>|
                classical.ensures((payload,), Some(a)) && bridge.ensures((&a,), Some(b))
                    && quantum.ensures((&b,), Some(out)),
            Err(e) => {
                ||| e == Error::CorrectionFailed(Stage::Classical) && classical.ensures(
                    (payload,),
                    None,
                )
                ||| e == Error::CorrectionFailed(Stage::Bridge) && exists|a: Vec<u8>|
                    classical.ensures((payload,), Some(a)) && bridge.ensures((&a,), None)
                ||| e == Error::CorrectionFailed(Stage::Quantum) && exists|a: Vec<u8>, b: Vec<u8>|
                    classical.ensures((payload,), Some(a)) && bridge.ensures((&a,), Some(b))
                        && quantum.ensures((&b,), None)
            },
        },
{
    match classical(payload) {
        None => Err(Error::CorrectionFailed(Stage::Classical)),
        Some(a) => match bridge(&a) {
            None => Err(Error::CorrectionFailed(Stage::Bridge)),
            Some(b) => match quantum(&b) {
                None => Err(Error::CorrectionFailed(Stage::Quantum)),
                Some(out) => Ok(out),
            },
        },
    }
}

} // verus!
