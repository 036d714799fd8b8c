//! Opening the vdevice.

use vstd::prelude::*;

use crate::hailo::backend::HailoBackend;
use crate::hailo::status::check_status;
use crate::hailo::status::HailoError;
use crate::hailo::status::HailoErrorView;
use crate::hailo::status::StatusReport;
use crate::hailo::status::StatusView;

verus! {

/// A device call of opening. Each one is also the state that waits for its
/// reply.
#[derive(Clone, Copy, Debug, PartialEq, Eq, Structural)]
pub enum OpenCall {
    /// Initialise the parameters of a vdevice with their defaults.
    InitVDeviceParams,
    /// Create a vdevice with those parameters.
    CreateVDevice,
}

/// What a device call of opening returned. The handle counts only if the status
/// is success.
pub enum OpenReply {
    VDeviceParams { report: StatusReport },
    VDevice { report: StatusReport, vdevice: usize },
}

/// The value of an [`OpenReply`].
pub enum OpenReplyView {
    VDeviceParams { report: StatusView },
    VDevice { report: StatusView, vdevice: usize },
}

impl View for OpenReply {
    type V = OpenReplyView;

    open spec fn view(&self) -> OpenReplyView {
        match self {
            OpenReply::VDeviceParams { report } => OpenReplyView::VDeviceParams {
                report: report@,
            },
            OpenReply::VDevice { report, vdevice } => OpenReplyView::VDevice {
                report: report@,
                vdevice: *vdevice,
            },
        }
    }
}

/// Whether a reply is one that a call can get.
pub open spec fn open_answers(call: OpenCall, reply: OpenReplyView) -> bool {
    match call {
        OpenCall::InitVDeviceParams => reply is VDeviceParams,
        OpenCall::CreateVDevice => reply is VDevice,
    }
}

/// What follows a reply: a further call, an open vdevice, or an error.
pub enum OpenNext {
    Continue(OpenCall),
    Opened(usize),
    Failed(HailoErrorView),
}

/// What follows when the call `call` gets the reply `reply`: the parameters are
/// initialised, then the vdevice is created; the first call that fails ends it.
pub open spec fn open_next(call: OpenCall, reply: OpenReplyView) -> OpenNext {
    match reply {
        OpenReplyView::VDeviceParams { report } => if report.ok() {
            OpenNext::Continue(OpenCall::CreateVDevice)
        } else {
            OpenNext::Failed(report.error("hailo_init_vdevice_params"@))
        },
        OpenReplyView::VDevice { report, vdevice } => if report.ok() {
            OpenNext::Opened(vdevice)
        } else {
            OpenNext::Failed(report.error("hailo_create_vdevice"@))
        },
    }
}

/// A vdevice that is being opened.
pub struct Opening {
    call: OpenCall,
}

impl View for Opening {
    type V = OpenCall;

    closed spec fn view(&self) -> OpenCall {
        self.call
    }
}

/// What follows a reply: a further call, a backend, or an error.
pub enum OpenStep {
    Continue(Opening),
    Opened(HailoBackend),
    Failed(HailoError),
}

impl OpenStep {
    /// The value of the step.
    pub open spec fn next(self) -> OpenNext {
        match self {
            OpenStep::Continue(opening) => OpenNext::Continue(opening@),
            OpenStep::Opened(backend) => OpenNext::Opened(backend@.vdevice),
            OpenStep::Failed(error) => OpenNext::Failed(error@),
        }
    }
}

impl HailoBackend {
    /// Starts to open a vdevice with default parameters. Ends with a backend, or
    /// with an error if no device is present.
    pub fn try_new() -> (opening: Opening)
        ensures
            opening@ == OpenCall::InitVDeviceParams,
    {
        Opening { call: OpenCall::InitVDeviceParams }
    }
}

impl Opening {
    /// The device call to make next.
    pub fn call(&self) -> (call: OpenCall)
        ensures
            call == self@,
    {
        self.call
    }

    /// Tests whether a reply is one that the call to make next can get.
    pub fn accepts(&self, reply: &OpenReply) -> (accepted: bool)
        ensures
            accepted == open_answers(self@, reply@),
    {
        match (self.call, reply) {
            (OpenCall::InitVDeviceParams, OpenReply::VDeviceParams { .. }) => true,
            (OpenCall::CreateVDevice, OpenReply::VDevice { .. }) => true,
            _ => false,
        }
    }

    /// Takes the reply to the call that was to be made next.
    pub fn advance(self, reply: OpenReply) -> (step: OpenStep)
        requires
            open_answers(self@, reply@),
        ensures
            step.next() == open_next(self@, reply@),
            step matches OpenStep::Opened(backend) ==> backend@.models.len() == 0
                && backend@.wf(),
    {
        match reply {
            OpenReply::VDeviceParams { report } => {
                match check_status(
                    report.status,
                    "hailo_init_vdevice_params",
                    report.message.as_str(),
                ) {
                    Ok(()) => OpenStep::Continue(Opening { call: OpenCall::CreateVDevice }),
                    Err(error) => OpenStep::Failed(error),
                }
            },
            OpenReply::VDevice { report, vdevice } => {
                match check_status(
                    report.status,
                    "hailo_create_vdevice",
                    report.message.as_str(),
                ) {
                    Ok(()) => OpenStep::Opened(HailoBackend::on_vdevice(vdevice)),
                    Err(error) => OpenStep::Failed(error),
                }
            },
        }
    }
}

} // verus!
