//! Distributed inference on HailoRT accelerators.
//!
//! A *worker* owns one Hailo device and serves the models loaded on it; a
//! *master* discovers workers on the local network and sends them commands.
//! This library holds the decisions of both: which device calls are made and
//! in which order, what is released when a call fails, how tensors are split
//! over the streams of a model, which workers a command addresses, and what is
//! reported. Every function is verified against its contract. The device, the
//! network and the clock stay with the caller: an operation that needs them
//! hands out the call to make and takes the reply.

pub mod discovery;
pub mod hailo;
pub mod master;
pub mod messages;
pub mod text;
pub mod text_laws;
pub mod worker;
pub mod worker_laws;
