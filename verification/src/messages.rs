//! The messages that master and worker exchange.

use vstd::prelude::*;

verus! {

/// The answer to a request to load a model.
pub struct LoadModelResponse {
    pub success: bool,
    pub error_msg: String,
    pub input_count: u32,
    pub output_count: u32,
}

/// The value of a [`LoadModelResponse`].
#[verifier::ext_equal]
pub struct LoadModelResponseView {
    pub success: bool,
    pub error_msg: Seq<char>,
    pub input_count: u32,
    pub output_count: u32,
}

impl View for LoadModelResponse {
    type V = LoadModelResponseView;

    open spec fn view(&self) -> LoadModelResponseView {
        LoadModelResponseView {
            success: self.success,
            error_msg: self.error_msg@,
            input_count: self.input_count,
            output_count: self.output_count,
        }
    }
}

/// The answer to a request to unload a model.
pub struct UnloadModelResponse {
    pub success: bool,
    pub error_msg: String,
}

/// The value of an [`UnloadModelResponse`].
#[verifier::ext_equal]
pub struct UnloadModelResponseView {
    pub success: bool,
    pub error_msg: Seq<char>,
}

impl View for UnloadModelResponse {
    type V = UnloadModelResponseView;

    open spec fn view(&self) -> UnloadModelResponseView {
        UnloadModelResponseView { success: self.success, error_msg: self.error_msg@ }
    }
}

/// The answer to a request to run an inference.
pub struct RunInferenceResponse {
    pub success: bool,
    pub error_msg: String,
    pub output_data: Vec<u8>,
    pub latency_ms: u32,
}

/// The value of a [`RunInferenceResponse`].
#[verifier::ext_equal]
pub struct RunInferenceResponseView {
    pub success: bool,
    pub error_msg: Seq<char>,
    pub output_data: Seq<u8>,
    pub latency_ms: u32,
}

impl View for RunInferenceResponse {
    type V = RunInferenceResponseView;

    open spec fn view(&self) -> RunInferenceResponseView {
        RunInferenceResponseView {
            success: self.success,
            error_msg: self.error_msg@,
            output_data: self.output_data@,
            latency_ms: self.latency_ms,
        }
    }
}

/// The answer to a request for the status of a worker.
pub struct GetStatusResponse {
    pub worker_id: String,
    pub hostname: String,
    pub loaded_models: Vec<String>,
    pub total_inferences: u64,
    pub hardware_active: bool,
}

/// The value of a [`GetStatusResponse`].
#[verifier::ext_equal]
pub struct GetStatusResponseView {
    pub worker_id: Seq<char>,
    pub hostname: Seq<char>,
    pub loaded_models: Seq<Seq<char>>,
    pub total_inferences: u64,
    pub hardware_active: bool,
}

/// The values of a list of strings.
pub open spec fn string_views(strings: Seq<String>) -> Seq<Seq<char>> {
    strings.map_values(|s: String| s@)
}

impl View for GetStatusResponse {
    type V = GetStatusResponseView;

    open spec fn view(&self) -> GetStatusResponseView {
        GetStatusResponseView {
            worker_id: self.worker_id@,
            hostname: self.hostname@,
            loaded_models: string_views(self.loaded_models@),
            total_inferences: self.total_inferences,
            hardware_active: self.hardware_active,
        }
    }
}

} // verus!
