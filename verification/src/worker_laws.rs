//! Laws of the worker: an answer tells how its request ended.

use vstd::prelude::*;

use crate::messages::string_views;
use crate::messages::GetStatusResponse;
use crate::messages::LoadModelResponse;
use crate::messages::RunInferenceResponse;
use crate::messages::UnloadModelResponse;
use crate::text::decimal;
use crate::text_laws::decimal_reads_back;
use crate::text_laws::reads_as;
use crate::worker::after_inference;
use crate::worker::inference_outcome_view;
use crate::worker::inference_response;
use crate::worker::listen_address;
use crate::worker::load_outcome_view;
use crate::worker::load_response;
use crate::worker::unload_outcome_view;
use crate::worker::unload_response;
use crate::worker::WorkerError;
use crate::worker::WorkerErrorView;
use crate::worker::WorkerState;
use crate::worker::WorkerStateView;

verus! {

/// A request is answered with success exactly if it ended well. The answer to a
/// load carries the numbers of streams, or zeros and the text of the error.
pub proof fn load_answer_tells_the_outcome(outcome: Result<(u32, u32), WorkerErrorView>)
    ensures
        load_response(outcome).success <==> outcome is Ok,
        match outcome {
            Ok((inputs, outputs)) => {
                &&& load_response(outcome).input_count == inputs
                &&& load_response(outcome).output_count == outputs
                &&& load_response(outcome).error_msg.len() == 0
            },
            Err(error) => {
                &&& load_response(outcome).input_count == 0
                &&& load_response(outcome).output_count == 0
                &&& load_response(outcome).error_msg == error.text()
            },
        },
{
}

/// The answer to an unload tells whether it ended well, and the text of the
/// error if not.
pub proof fn unload_answer_tells_the_outcome(outcome: Result<(), WorkerErrorView>)
    ensures
        unload_response(outcome).success <==> outcome is Ok,
        outcome is Ok ==> unload_response(outcome).error_msg.len() == 0,
        outcome matches Err(error) ==> unload_response(outcome).error_msg == error.text(),
{
}

/// The answer to an inference carries the whole output and the latency, or
/// neither and the text of the error.
pub proof fn inference_answer_tells_the_outcome(outcome: Result<(Seq<u8>, u32), WorkerErrorView>)
    ensures
        inference_response(outcome).success <==> outcome is Ok,
        match outcome {
            Ok((output, latency_ms)) => {
                &&& inference_response(outcome).output_data == output
                &&& inference_response(outcome).latency_ms == latency_ms
                &&& inference_response(outcome).error_msg.len() == 0
            },
            Err(error) => {
                &&& inference_response(outcome).output_data.len() == 0
                &&& inference_response(outcome).latency_ms == 0
                &&& inference_response(outcome).error_msg == error.text()
            },
        },
{
}

/// An inference that succeeded adds one to the total, which starts again at zero
/// behind its largest value. One that failed adds nothing. Nothing else changes.
pub proof fn only_a_success_counts(
    state: WorkerStateView,
    outcome: Result<(Seq<u8>, u32), WorkerErrorView>,
)
    ensures
        ({
            let after = after_inference(state, outcome);
            &&& after.worker_id == state.worker_id
            &&& after.hostname == state.hostname
            &&& after.backend == state.backend
            &&& outcome is Err ==> after.total_inferences == state.total_inferences
            &&& outcome is Ok && state.total_inferences < u64::MAX ==> after.total_inferences
                == state.total_inferences + 1
            &&& outcome is Ok && state.total_inferences == u64::MAX ==> after.total_inferences == 0
        }),
{
}

/// The text of an error of the device is its own, and that of a panic says how
/// it came.
pub proof fn worker_error_text_tells_the_cause(error: WorkerErrorView)
    ensures
        error.text() == match error {
            WorkerErrorView::Device(cause) => cause.text(),
            WorkerErrorView::Panicked(how) => "spawn_blocking panicked: "@ + how,
        },
{
}

/// A worker listens on every interface, at the port that was asked for.
pub proof fn worker_listens_at_its_port(port: u16)
    ensures
        exists|digits: Seq<char>| #[trigger]
            reads_as(digits, port as int) && listen_address(port) == "0.0.0.0:"@ + digits,
{
    decimal_reads_back(port as nat);
    assert(reads_as(decimal(port as nat), port as int));
}

/// The values of outcomes and errors are their parts.
pub proof fn outcomes_are_their_parts(
    error: WorkerError,
    load: Result<(u32, u32), WorkerError>,
    unload: Result<(), WorkerError>,
    inference: Result<(Vec<u8>, u32), WorkerError>,
)
    ensures
        match error {
            WorkerError::Device(cause) => error@ == WorkerErrorView::Device(cause@),
            WorkerError::Panicked(text) => error@ == WorkerErrorView::Panicked(text@),
        },
        match load {
            Ok(counts) => load_outcome_view(load) == Ok::<(u32, u32), WorkerErrorView>(counts),
            Err(cause) => load_outcome_view(load) == Err::<(u32, u32), WorkerErrorView>(cause@),
        },
        match unload {
            Ok(()) => unload_outcome_view(unload) == Ok::<(), WorkerErrorView>(()),
            Err(cause) => unload_outcome_view(unload) == Err::<(), WorkerErrorView>(cause@),
        },
        match inference {
            Ok((output, latency_ms)) => inference_outcome_view(inference) == Ok::<
                (Seq<u8>, u32),
                WorkerErrorView,
            >((output@, latency_ms)),
            Err(cause) => inference_outcome_view(inference) == Err::<
                (Seq<u8>, u32),
                WorkerErrorView,
            >(cause@),
        },
{
}

/// The values of answers are their parts.
pub proof fn answers_are_their_parts(
    load: LoadModelResponse,
    unload: UnloadModelResponse,
    inference: RunInferenceResponse,
    status: GetStatusResponse,
)
    ensures
        load@.success == load.success,
        load@.error_msg == load.error_msg@,
        load@.input_count == load.input_count,
        load@.output_count == load.output_count,
        unload@.success == unload.success,
        unload@.error_msg == unload.error_msg@,
        inference@.success == inference.success,
        inference@.error_msg == inference.error_msg@,
        inference@.output_data == inference.output_data@,
        inference@.latency_ms == inference.latency_ms,
        status@.worker_id == status.worker_id@,
        status@.hostname == status.hostname@,
        status@.loaded_models == string_views(status.loaded_models@),
        status@.total_inferences == status.total_inferences,
        status@.hardware_active == status.hardware_active,
{
}

/// The values of a list of strings are those of its items, in order.
pub proof fn strings_are_their_items(strings: Seq<String>)
    ensures
        string_views(strings).len() == strings.len(),
        forall|i: int| 0 <= i < strings.len() ==> #[trigger] string_views(strings)[i]
            == strings[i]@,
{
}

/// The value of a worker is its parts.
pub proof fn worker_is_its_parts(state: WorkerState)
    ensures
        state@.worker_id == state.worker_id@,
        state@.hostname == state.hostname@,
        state@.backend == state.backend@,
        state@.total_inferences == state.total_inferences,
{
}

} // verus!
