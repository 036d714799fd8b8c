//! Inference: how the input is written to the streams of a model and the output
//! is read from them.

use vstd::prelude::*;
use vstd::slice::slice_subrange;

use crate::hailo::backend::HailoBackend;
use crate::hailo::models::is_loaded;
use crate::hailo::models::model_of;
use crate::hailo::models::LoadedModel;
use crate::hailo::models::LoadedModelView;
use crate::hailo::status::check_status;
use crate::hailo::status::HailoError;
use crate::hailo::status::HailoErrorView;
use crate::hailo::status::StatusReport;
use crate::hailo::status::StatusView;

verus! {

/// Where the chunk `i` of `n` begins in a buffer of `len` bytes. The chunks are
/// of the same size.
pub open spec fn chunk_begin(i: int, n: int, len: int) -> int {
    i * (len / n)
}

/// Where the chunk `i` of `n` ends: where the next one begins, or at the end of
/// the buffer for the last one, which takes what is left over.
pub open spec fn chunk_end(i: int, n: int, len: int) -> int {
    if i + 1 == n {
        len
    } else {
        chunk_begin(i + 1, n, len)
    }
}

/// A device call of an inference.
pub enum InferCall<'a> {
    /// Write a chunk of the input to an input stream.
    Write { vstream: usize, chunk: &'a [u8] },
    /// Read a chunk of the output, of the given size, from an output stream.
    Read { vstream: usize, size: usize },
}

/// The value of an [`InferCall`].
#[verifier::ext_equal]
pub enum InferCallView {
    Write { vstream: usize, chunk: Seq<u8> },
    Read { vstream: usize, size: nat },
}

impl<'a> View for InferCall<'a> {
    type V = InferCallView;

    open spec fn view(&self) -> InferCallView {
        match self {
            InferCall::Write { vstream, chunk } => InferCallView::Write {
                vstream: *vstream,
                chunk: chunk@,
            },
            InferCall::Read { vstream, size } => InferCallView::Read {
                vstream: *vstream,
                size: *size as nat,
            },
        }
    }
}

/// What a device call of an inference returned. The data counts only if the
/// status is success.
pub enum InferReply {
    Written { report: StatusReport },
    Read { report: StatusReport, data: Vec<u8> },
}

/// The value of an [`InferReply`].
pub enum InferReplyView {
    Written { report: StatusView },
    Read { report: StatusView, data: Seq<u8> },
}

impl View for InferReply {
    type V = InferReplyView;

    open spec fn view(&self) -> InferReplyView {
        match self {
            InferReply::Written { report } => InferReplyView::Written { report: report@ },
            InferReply::Read { report, data } => InferReplyView::Read {
                report: report@,
                data: data@,
            },
        }
    }
}

/// Whether a reply is one that a call can get: of the kind of the call, with as
/// much data as was asked for.
pub open spec fn infer_answers(call: InferCallView, reply: InferReplyView) -> bool {
    match (call, reply) {
        (InferCallView::Write { .. }, InferReplyView::Written { .. }) => true,
        (InferCallView::Read { size, .. }, InferReplyView::Read { data, .. }) => data.len()
            == size,
        _ => false,
    }
}

/// How far an inference has come.
#[verifier::ext_equal]
pub struct InferenceView {
    /// The model that runs.
    pub model: LoadedModelView,
    /// The input.
    pub input: Seq<u8>,
    /// The size of the output.
    pub out_size: nat,
    /// How many input streams were written to.
    pub written: nat,
    /// How many output streams were read from.
    pub read: nat,
    /// What was read.
    pub output: Seq<u8>,
}

impl InferenceView {
    /// Reads come after all writes, and what was read fills the output up to
    /// where the next chunk begins.
    pub open spec fn consistent(self) -> bool {
        &&& self.written <= self.model.input_vstreams.len()
        &&& self.read <= self.model.output_vstreams.len()
        &&& self.read > 0 ==> self.written == self.model.input_vstreams.len()
        &&& self.output.len() == if self.read == 0 {
            0
        } else {
            chunk_end(
                self.read - 1,
                self.model.output_vstreams.len() as int,
                self.out_size as int,
            )
        }
    }

    /// Every stream was served.
    pub open spec fn complete(self) -> bool {
        self.written == self.model.input_vstreams.len() && self.read
            == self.model.output_vstreams.len()
    }

    /// The call that the inference waits for: the next chunk is written, or once
    /// all are written the next chunk is read.
    pub open spec fn call(self) -> InferCallView {
        let inputs = self.model.input_vstreams;
        let outputs = self.model.output_vstreams;
        if self.written < inputs.len() {
            let n = inputs.len() as int;
            let len = self.input.len() as int;
            InferCallView::Write {
                vstream: inputs[self.written as int],
                chunk: self.input.subrange(
                    chunk_begin(self.written as int, n, len),
                    chunk_end(self.written as int, n, len),
                ),
            }
        } else {
            let n = outputs.len() as int;
            let len = self.out_size as int;
            InferCallView::Read {
                vstream: outputs[self.read as int],
                size: (chunk_end(self.read as int, n, len) - chunk_begin(self.read as int, n, len))
                    as nat,
            }
        }
    }
}

/// How an inference ends: with the output, or with an error.
pub type InferOutcomeView = Result<Seq<u8>, HailoErrorView>;

/// What follows a reply: a further call, or the end of the inference.
#[verifier::ext_equal]
pub enum InferNext {
    Continue(InferenceView),
    Finished(InferOutcomeView),
}

/// A buffer of zeros.
pub open spec fn zeros(len: nat) -> Seq<u8> {
    Seq::new(len, |i: int| 0u8)
}

/// Goes on unless every stream was served. The output is what was read, or
/// zeros if the model has no output stream.
pub open spec fn infer_settle(state: InferenceView) -> InferNext {
    if !state.complete() {
        InferNext::Continue(state)
    } else if state.model.output_vstreams.len() == 0 {
        InferNext::Finished(Ok(zeros(state.out_size)))
    } else {
        InferNext::Finished(Ok(state.output))
    }
}

/// What follows when an inference gets the reply `reply`. The first call that
/// fails ends the inference with its error.
pub open spec fn infer_next(state: InferenceView, reply: InferReplyView) -> InferNext {
    match reply {
        InferReplyView::Written { report } => if report.ok() {
            infer_settle(InferenceView { written: state.written + 1, ..state })
        } else {
            InferNext::Finished(Err(report.error("hailo_input_vstream_write"@)))
        },
        InferReplyView::Read { report, data } => if report.ok() {
            infer_settle(
                InferenceView { read: state.read + 1, output: state.output + data, ..state },
            )
        } else {
            InferNext::Finished(Err(report.error("hailo_output_vstream_read"@)))
        },
    }
}

/// An inference of a model on an input, before its first call. The output has
/// the expected size, or that of the model's output frame if none is expected.
pub open spec fn infer_start(
    model: LoadedModelView,
    input: Seq<u8>,
    expected_output_size: nat,
) -> InferenceView {
    InferenceView {
        model,
        input,
        out_size: if expected_output_size > 0 {
            expected_output_size
        } else {
            model.output_frame_size
        },
        written: 0,
        read: 0,
        output: Seq::empty(),
    }
}

/// An inference in progress.
pub struct Inference<'a> {
    model: &'a LoadedModel,
    input_data: &'a [u8],
    out_size: usize,
    written: usize,
    read: usize,
    output: Vec<u8>,
}

impl<'a> View for Inference<'a> {
    type V = InferenceView;

    closed spec fn view(&self) -> InferenceView {
        InferenceView {
            model: self.model@,
            input: self.input_data@,
            out_size: self.out_size as nat,
            written: self.written as nat,
            read: self.read as nat,
            output: self.output@,
        }
    }
}

/// What follows a reply: a further call, or the end of the inference.
pub enum InferStep<'a> {
    Continue(Inference<'a>),
    Finished(Result<Vec<u8>, HailoError>),
}

impl<'a> InferStep<'a> {
    /// The value of the step.
    pub open spec fn next(self) -> InferNext {
        match self {
            InferStep::Continue(inference) => InferNext::Continue(inference@),
            InferStep::Finished(Ok(output)) => InferNext::Finished(Ok(output@)),
            InferStep::Finished(Err(error)) => InferNext::Finished(Err(error@)),
        }
    }
}

/// A chunk lies within the buffer.
pub proof fn lemma_chunk_in_bounds(i: int, n: int, len: int)
    requires
        0 <= i < n,
        0 <= len,
    ensures
        0 <= chunk_begin(i, n, len) <= chunk_end(i, n, len) <= len,
        chunk_begin(0, n, len) == 0,
{
    let size = len / n;
    assert(0 <= i * size && (i + 1) * size <= n * size && i * size <= (i + 1) * size && n * size
        <= len) by (nonlinear_arith)
        requires
            0 <= i < n,
            0 <= len,
            size == len / n,
    ;
    assert(i * size <= len);
    assert(0 * size == 0);
}

/// Finds the chunk `i` of `n` in a buffer of `len` bytes.
fn chunk_range(i: usize, n: usize, len: usize) -> (range: (usize, usize))
    requires
        i < n,
    ensures
        range.0 == chunk_begin(i as int, n as int, len as int),
        range.1 == chunk_end(i as int, n as int, len as int),
{
    let chunk_size: usize = len / n;
    proof {
        lemma_chunk_in_bounds(i as int, n as int, len as int);
    }
    let begin: usize = i * chunk_size;
    let end: usize = if i + 1 == n {
        len
    } else {
        assert(begin + chunk_size == (i + 1) * chunk_size) by (nonlinear_arith)
            requires
                begin == i * chunk_size,
        ;
        begin + chunk_size
    };
    (begin, end)
}

impl HailoBackend {
    /// Starts an inference. Fails if no model of the name is loaded. The output
    /// has the expected size, or that of the model's output frame if zero is
    /// expected.
    pub fn run_inference_sync<'a>(
        &'a self,
        model_name: &str,
        input_data: &'a [u8],
        expected_output_size: usize,
    ) -> (step: InferStep<'a>)
        requires
            self@.wf(),
        ensures
            step.next() == (if is_loaded(self@.models, model_name@) {
                infer_settle(
                    infer_start(
                        model_of(self@.models, model_name@),
                        input_data@,
                        expected_output_size as nat,
                    ),
                )
            } else {
                InferNext::Finished(
                    Err(HailoErrorView::NotLoaded { model_name: model_name@ }),
                )
            }),
            step matches InferStep::Continue(next) ==> next@.consistent() && !next@.complete(),
    {
        match self.model(model_name) {
            None => InferStep::Finished(
                Err(HailoError::NotLoaded { model_name: model_name.to_owned() }),
            ),
            Some(model) => {
                let out_size: usize = if expected_output_size > 0 {
                    expected_output_size
                } else {
                    model.output_frame_size
                };
                let start = Inference {
                    model,
                    input_data,
                    out_size,
                    written: 0,
                    read: 0,
                    output: Vec::new(),
                };
                assert(start@ =~= infer_start(
                    model_of(self@.models, model_name@),
                    input_data@,
                    expected_output_size as nat,
                ));
                start.settle()
            },
        }
    }
}

impl<'a> Inference<'a> {
    /// The device call to make next.
    pub fn call(&self) -> (call: InferCall<'_>)
        requires
            self@.consistent(),
            !self@.complete(),
        ensures
            call@ == self@.call(),
    {
        let inputs: usize = self.model.input_vstreams.len();
        if self.written < inputs {
            proof {
                lemma_chunk_in_bounds(
                    self.written as int,
                    inputs as int,
                    self.input_data@.len() as int,
                );
            }
            let (begin, end): (usize, usize) = chunk_range(
                self.written,
                inputs,
                self.input_data.len(),
            );
            InferCall::Write {
                vstream: self.model.input_vstreams[self.written],
                chunk: slice_subrange(self.input_data, begin, end),
            }
        } else {
            let outputs: usize = self.model.output_vstreams.len();
            proof {
                lemma_chunk_in_bounds(self.read as int, outputs as int, self.out_size as int);
            }
            let (begin, end): (usize, usize) = chunk_range(self.read, outputs, self.out_size);
            InferCall::Read { vstream: self.model.output_vstreams[self.read], size: end - begin }
        }
    }

    /// Tests whether a reply is one that the call to make next can get.
    pub fn accepts(&self, reply: &InferReply) -> (accepted: bool)
        requires
            self@.consistent(),
            !self@.complete(),
        ensures
            accepted == infer_answers(self@.call(), reply@),
    {
        match (self.call(), reply) {
            (InferCall::Write { .. }, InferReply::Written { .. }) => true,
            (InferCall::Read { size, .. }, InferReply::Read { data, .. }) => data.len() == size,
            _ => false,
        }
    }

    /// Goes on unless every stream was served.
    fn settle(self) -> (step: InferStep<'a>)
        ensures
            step.next() == infer_settle(self@),
            step matches InferStep::Continue(next) ==> next@ == self@ && !next@.complete(),
    {
        if self.written == self.model.input_vstreams.len() && self.read
            == self.model.output_vstreams.len() {
            if self.model.output_vstreams.len() == 0 {
                let output: Vec<u8> = vec![0u8; self.out_size];
                assert(output@ =~= zeros(self.out_size as nat));
                InferStep::Finished(Ok(output))
            } else {
                InferStep::Finished(Ok(self.output))
            }
        } else {
            InferStep::Continue(self)
        }
    }

    /// Takes the reply to the call that was to be made next.
    pub fn advance(self, reply: InferReply) -> (step: InferStep<'a>)
        requires
            self@.consistent(),
            !self@.complete(),
            infer_answers(self@.call(), reply@),
        ensures
            step.next() == infer_next(self@, reply@),
            step matches InferStep::Continue(next) ==> next@.consistent() && !next@.complete(),
            step matches InferStep::Finished(Ok(output)) ==> output@.len() == self@.out_size,
    {
        let inputs: usize = self.model.input_vstreams.len();
        let outputs: usize = self.model.output_vstreams.len();
        assert(self.written < inputs || self.read < outputs);
        let mut next = self;
        match reply {
            InferReply::Written { report } => {
                match check_status(
                    report.status,
                    "hailo_input_vstream_write",
                    report.message.as_str(),
                ) {
                    Ok(()) => {
                        next.written = next.written + 1;
                        assert(next@ =~= (InferenceView { written: self@.written + 1, ..self@ }));
                        assert(next@.consistent());
                        next.settle()
                    },
                    Err(error) => InferStep::Finished(Err(error)),
                }
            },
            InferReply::Read { report, data } => {
                match check_status(
                    report.status,
                    "hailo_output_vstream_read",
                    report.message.as_str(),
                ) {
                    Ok(()) => {
                        let mut data = data;
                        let ghost read = data@;
                        proof {
                            lemma_chunk_in_bounds(
                                self.read as int,
                                outputs as int,
                                self.out_size as int,
                            );
                            let begin = chunk_begin(
                                self.read as int,
                                outputs as int,
                                self.out_size as int,
                            );
                            assert(self.output@.len() == begin);
                        }
                        next.read = next.read + 1;
                        next.output.append(&mut data);
                        assert(next@ =~= (InferenceView {
                            read: self@.read + 1,
                            output: self@.output + read,
                            ..self@
                        }));
                        assert(next@.consistent());
                        next.settle()
                    },
                    Err(error) => InferStep::Finished(Err(error)),
                }
            },
        }
    }
}

/// The latency that is reported for an elapsed time: its low thirty-two bits.
pub fn latency_ms(elapsed_ms: u128) -> (latency: u32)
    ensures
        latency == elapsed_ms % 0x1_0000_0000,
{
    assert(elapsed_ms as u32 == elapsed_ms % 0x1_0000_0000) by (bit_vector);
    #[verifier::truncate]
    (elapsed_ms as u32)
}

} // verus!
