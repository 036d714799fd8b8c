//! The Hailo device: statuses, vstreams, loaded models and the operations on
//! them.
//!
//! One [`HailoBackend`](backend::HailoBackend) stands for a single vdevice.
//! Each loaded model occupies one configured network group with its vstreams.
//! Device objects are named by the address of their handle; the caller makes
//! the device calls and feeds back what they returned.

pub mod status;
pub mod vstream;
pub mod models;
pub mod backend;
pub mod open;
pub mod load;
pub mod infer;
pub mod laws;
pub mod load_laws;
pub mod vstream_laws;
pub mod call_laws;
pub mod value_laws;
pub mod infer_laws;
pub mod history_laws;
