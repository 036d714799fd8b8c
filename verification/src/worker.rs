//! The worker: what it answers to requests.

use vstd::prelude::*;

use crate::hailo::backend::model_names;
use crate::hailo::backend::BackendView;
use crate::hailo::backend::HailoBackend;
use crate::hailo::status::HailoError;
use crate::hailo::status::HailoErrorView;
use crate::messages::GetStatusResponse;
use crate::messages::GetStatusResponseView;
use crate::messages::LoadModelResponse;
use crate::messages::LoadModelResponseView;
use crate::messages::RunInferenceResponse;
use crate::messages::RunInferenceResponseView;
use crate::messages::UnloadModelResponse;
use crate::messages::UnloadModelResponseView;
use crate::text::decimal;
use crate::text::push_decimal;

verus! {

/// The port that a worker listens on unless another is asked for.
pub const DEFAULT_PORT: u16 = 50051;

/// Why a request failed.
pub enum WorkerError {
    /// The device operation failed.
    Device(HailoError),
    /// The task that ran the device operation panicked; the text says how.
    Panicked(String),
}

/// The value of a [`WorkerError`].
pub enum WorkerErrorView {
    Device(HailoErrorView),
    Panicked(Seq<char>),
}

impl View for WorkerError {
    type V = WorkerErrorView;

    open spec fn view(&self) -> WorkerErrorView {
        match self {
            WorkerError::Device(error) => WorkerErrorView::Device(error@),
            WorkerError::Panicked(text) => WorkerErrorView::Panicked(text@),
        }
    }
}

impl WorkerErrorView {
    /// The text that is reported for an error.
    pub open spec fn text(self) -> Seq<char> {
        match self {
            WorkerErrorView::Device(error) => error.text(),
            WorkerErrorView::Panicked(text) => "spawn_blocking panicked: "@ + text,
        }
    }
}

impl WorkerError {
    /// The text that is reported for this error.
    pub fn message(&self) -> (text: String)
        ensures
            text@ == self@.text(),
    {
        match self {
            WorkerError::Device(error) => error.message(),
            WorkerError::Panicked(how) => {
                let mut text = String::new();
                text.append("spawn_blocking panicked: ");
                text.append(how.as_str());
                assert(text@ =~= self@.text());
                text
            },
        }
    }
}

/// Whether a character is a digit of lower-case hexadecimal.
pub open spec fn is_hex_digit(c: char) -> bool {
    '0' <= c <= '9' || 'a' <= c <= 'f'
}

/// Whether a text is a random UUID: thirty-two hexadecimal digits in groups of
/// eight, four, four, four and twelve, with the version and the variant that
/// mark it as random.
pub open spec fn is_random_uuid(text: Seq<char>) -> bool {
    &&& text.len() == 36
    &&& forall|i: int|
        0 <= i < 36 ==> if i == 8 || i == 13 || i == 18 || i == 23 {
            (#[trigger] text[i]) == '-'
        } else {
            is_hex_digit(text[i])
        }
    &&& text[14] == '4'
    &&& text[19] == '8' || text[19] == '9' || text[19] == 'a' || text[19] == 'b'
}

/// Makes a random UUID through `uuid::Uuid::new_v4` and renders it in lower
/// case with hyphens. Which one it is depends on chance and is left open.
#[verifier::external_body]
fn new_uuid() -> (text: String)
    ensures
        is_random_uuid(text@),
{
    uuid::Uuid::new_v4().to_string()
}

/// The identity of a worker: the instance name it was given, or else a new UUID.
pub fn worker_identity(instance_name: Option<String>) -> (worker_id: String)
    ensures
        match instance_name {
            Some(name) => worker_id@ == name@,
            None => is_random_uuid(worker_id@),
        },
{
    match instance_name {
        Some(name) => name,
        None => new_uuid(),
    }
}

/// The address that a worker listens on: every interface, at the port.
pub open spec fn listen_address(port: u16) -> Seq<char> {
    "0.0.0.0:"@ + decimal(port as nat)
}

/// Renders the address that a worker listens on.
pub fn listen_addr(port: u16) -> (addr: String)
    ensures
        addr@ == listen_address(port),
{
    let mut addr = String::new();
    addr.append("0.0.0.0:");
    push_decimal(&mut addr, port as u64);
    assert(addr@ =~= listen_address(port));
    addr
}

/// A worker: its identity, its device, and how many inferences it has run.
pub struct WorkerState {
    pub worker_id: String,
    pub hostname: String,
    pub backend: HailoBackend,
    pub total_inferences: u64,
}

/// The value of a [`WorkerState`].
#[verifier::ext_equal]
pub struct WorkerStateView {
    pub worker_id: Seq<char>,
    pub hostname: Seq<char>,
    pub backend: BackendView,
    pub total_inferences: u64,
}

impl View for WorkerState {
    type V = WorkerStateView;

    open spec fn view(&self) -> WorkerStateView {
        WorkerStateView {
            worker_id: self.worker_id@,
            hostname: self.hostname@,
            backend: self.backend@,
            total_inferences: self.total_inferences,
        }
    }
}

/// The answer to a load with this outcome.
pub open spec fn load_response(outcome: Result<(u32, u32), WorkerErrorView>) -> LoadModelResponseView {
    match outcome {
        Ok((input_count, output_count)) => LoadModelResponseView {
            success: true,
            error_msg: Seq::empty(),
            input_count,
            output_count,
        },
        Err(error) => LoadModelResponseView {
            success: false,
            error_msg: error.text(),
            input_count: 0,
            output_count: 0,
        },
    }
}

/// The answer to an unload with this outcome.
pub open spec fn unload_response(outcome: Result<(), WorkerErrorView>) -> UnloadModelResponseView {
    match outcome {
        Ok(()) => UnloadModelResponseView { success: true, error_msg: Seq::empty() },
        Err(error) => UnloadModelResponseView { success: false, error_msg: error.text() },
    }
}

/// The answer to an inference with this outcome: the output and its latency.
pub open spec fn inference_response(
    outcome: Result<(Seq<u8>, u32), WorkerErrorView>,
) -> RunInferenceResponseView {
    match outcome {
        Ok((output_data, latency_ms)) => RunInferenceResponseView {
            success: true,
            error_msg: Seq::empty(),
            output_data,
            latency_ms,
        },
        Err(error) => RunInferenceResponseView {
            success: false,
            error_msg: error.text(),
            output_data: Seq::empty(),
            latency_ms: 0,
        },
    }
}

/// The value of an outcome.
pub open spec fn load_outcome_view(outcome: Result<(u32, u32), WorkerError>) -> Result<
    (u32, u32),
    WorkerErrorView,
> {
    match outcome {
        Ok(counts) => Ok(counts),
        Err(error) => Err(error@),
    }
}

/// The value of an outcome.
pub open spec fn unload_outcome_view(outcome: Result<(), WorkerError>) -> Result<
    (),
    WorkerErrorView,
> {
    match outcome {
        Ok(()) => Ok(()),
        Err(error) => Err(error@),
    }
}

/// The value of an outcome.
pub open spec fn inference_outcome_view(outcome: Result<(Vec<u8>, u32), WorkerError>) -> Result<
    (Seq<u8>, u32),
    WorkerErrorView,
> {
    match outcome {
        Ok((output, latency_ms)) => Ok((output@, latency_ms)),
        Err(error) => Err(error@),
    }
}

/// The number of inferences after one more, in sixty-four bits.
pub open spec fn count_inference(total: u64) -> u64 {
    if total == u64::MAX {
        0
    } else {
        (total + 1) as u64
    }
}

/// The worker after an inference with this outcome: one that succeeded counts.
pub open spec fn after_inference(
    state: WorkerStateView,
    outcome: Result<(Seq<u8>, u32), WorkerErrorView>,
) -> WorkerStateView {
    if outcome is Ok {
        WorkerStateView { total_inferences: count_inference(state.total_inferences), ..state }
    } else {
        state
    }
}

impl WorkerState {
    /// A worker that has run no inference.
    pub fn new(worker_id: String, hostname: String, backend: HailoBackend) -> (state: Self)
        ensures
            state@ == (WorkerStateView {
                worker_id: worker_id@,
                hostname: hostname@,
                backend: backend@,
                total_inferences: 0,
            }),
    {
        WorkerState { worker_id, hostname, backend, total_inferences: 0 }
    }

    /// Answers a request to load a model, once the load has ended.
    pub fn load_model(outcome: Result<(u32, u32), WorkerError>) -> (response: LoadModelResponse)
        ensures
            response@ == load_response(load_outcome_view(outcome)),
    {
        match outcome {
            Ok((input_count, output_count)) => LoadModelResponse {
                success: true,
                error_msg: String::new(),
                input_count,
                output_count,
            },
            Err(error) => LoadModelResponse {
                success: false,
                error_msg: error.message(),
                input_count: 0,
                output_count: 0,
            },
        }
    }

    /// Answers a request to unload a model, once the unload has ended.
    pub fn unload_model(outcome: Result<(), WorkerError>) -> (response: UnloadModelResponse)
        ensures
            response@ == unload_response(unload_outcome_view(outcome)),
    {
        match outcome {
            Ok(()) => UnloadModelResponse { success: true, error_msg: String::new() },
            Err(error) => UnloadModelResponse { success: false, error_msg: error.message() },
        }
    }

    /// Answers a request to run an inference, once it has ended, and counts it if
    /// it succeeded.
    pub fn run_inference(&mut self, outcome: Result<(Vec<u8>, u32), WorkerError>) -> (response:
        RunInferenceResponse)
        ensures
            response@ == inference_response(inference_outcome_view(outcome)),
            final(self)@ == after_inference(old(self)@, inference_outcome_view(outcome)),
    {
        match outcome {
            Ok((output_data, latency_ms)) => {
                self.total_inferences = self.total_inferences.wrapping_add(1);
                RunInferenceResponse {
                    success: true,
                    error_msg: String::new(),
                    output_data,
                    latency_ms,
                }
            },
            Err(error) => RunInferenceResponse {
                success: false,
                error_msg: error.message(),
                output_data: Vec::new(),
                latency_ms: 0,
            },
        }
    }

    /// Answers a request for the status of the worker.
    pub fn get_status(&self) -> (response: GetStatusResponse)
        ensures
            response@ == (GetStatusResponseView {
                worker_id: self@.worker_id,
                hostname: self@.hostname,
                loaded_models: model_names(self@.backend.models),
                total_inferences: self@.total_inferences,
                hardware_active: true,
            }),
    {
        GetStatusResponse {
            worker_id: self.worker_id.clone(),
            hostname: self.hostname.clone(),
            loaded_models: self.backend.loaded_models(),
            total_inferences: self.total_inferences,
            hardware_active: true,
        }
    }
}

/// The worker after a sequence of inferences with these outcomes.
pub open spec fn after_inferences(
    state: WorkerStateView,
    outcomes: Seq<Result<(Seq<u8>, u32), WorkerErrorView>>,
) -> WorkerStateView
    decreases outcomes.len(),
{
    if outcomes.len() == 0 {
        state
    } else {
        after_inference(after_inferences(state, outcomes.drop_last()), outcomes.last())
    }
}

/// How many of these outcomes are successes.
pub open spec fn successes(outcomes: Seq<Result<(Seq<u8>, u32), WorkerErrorView>>) -> nat
    decreases outcomes.len(),
{
    if outcomes.len() == 0 {
        0
    } else {
        successes(outcomes.drop_last()) + if outcomes.last() is Ok {
            1nat
        } else {
            0nat
        }
    }
}

/// A worker counts the inferences that succeeded, in sixty-four bits, and
/// inferences change nothing else of it.
pub proof fn total_counts_the_successes(
    state: WorkerStateView,
    outcomes: Seq<Result<(Seq<u8>, u32), WorkerErrorView>>,
)
    ensures
        after_inferences(state, outcomes) == (WorkerStateView {
            total_inferences: ((state.total_inferences + successes(outcomes))
                % 0x1_0000_0000_0000_0000) as u64,
            ..state
        }),
    decreases outcomes.len(),
{
    if outcomes.len() > 0 {
        total_counts_the_successes(state, outcomes.drop_last());
    }
}

} // verus!
