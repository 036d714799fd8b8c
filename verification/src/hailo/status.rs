//! Status codes of device calls and the errors of device operations.

use vstd::prelude::*;

use crate::text::push_signed_decimal;
use crate::text::signed_decimal;

verus! {

/// The status of a call that succeeded.
pub const HAILO_SUCCESS: i32 = 0;

/// What a device call returned: its status code, and the message that the
/// device library has for that code.
pub struct StatusReport {
    pub status: i32,
    pub message: String,
}

/// The value of a [`StatusReport`].
pub struct StatusView {
    pub status: i32,
    pub message: Seq<char>,
}

impl View for StatusReport {
    type V = StatusView;

    open spec fn view(&self) -> StatusView {
        StatusView { status: self.status, message: self.message@ }
    }
}

impl StatusView {
    /// Whether the call succeeded.
    pub open spec fn ok(self) -> bool {
        self.status == HAILO_SUCCESS
    }

    /// The error that a failed call of the device function `context` gives.
    pub open spec fn error(self, context: Seq<char>) -> HailoErrorView {
        HailoErrorView::CallFailed { context, status: self.status, message: self.message }
    }
}

/// Why a device operation failed.
pub enum HailoError {
    /// A device call returned a status other than success.
    CallFailed { context: String, status: i32, message: String },
    /// The operation names a model that is not loaded.
    NotLoaded { model_name: String },
    /// The model file configures no network group.
    NoNetworkGroups { model_name: String },
}

/// The value of a [`HailoError`].
pub enum HailoErrorView {
    CallFailed { context: Seq<char>, status: i32, message: Seq<char> },
    NotLoaded { model_name: Seq<char> },
    NoNetworkGroups { model_name: Seq<char> },
}

impl View for HailoError {
    type V = HailoErrorView;

    open spec fn view(&self) -> HailoErrorView {
        match self {
            HailoError::CallFailed { context, status, message } => HailoErrorView::CallFailed {
                context: context@,
                status: *status,
                message: message@,
            },
            HailoError::NotLoaded { model_name } => HailoErrorView::NotLoaded {
                model_name: model_name@,
            },
            HailoError::NoNetworkGroups { model_name } => HailoErrorView::NoNetworkGroups {
                model_name: model_name@,
            },
        }
    }
}

impl HailoErrorView {
    /// The text that is reported for an error.
    pub open spec fn text(self) -> Seq<char> {
        match self {
            HailoErrorView::CallFailed { context, status, message } => context
                + " failed (status "@ + signed_decimal(status as int) + "): "@ + message,
            HailoErrorView::NotLoaded { model_name } => "model '"@ + model_name + "' not loaded"@,
            HailoErrorView::NoNetworkGroups { model_name } => "HEF '"@ + model_name
                + "' contains no network groups"@,
        }
    }
}

impl HailoError {
    /// The text that is reported for this error.
    pub fn message(&self) -> (text: String)
        ensures
            text@ == self@.text(),
    {
        let mut text = String::new();
        match self {
            HailoError::CallFailed { context, status, message } => {
                text.append(context.as_str());
                text.append(" failed (status ");
                push_signed_decimal(&mut text, *status);
                text.append("): ");
                text.append(message.as_str());
            },
            HailoError::NotLoaded { model_name } => {
                text.append("model '");
                text.append(model_name.as_str());
                text.append("' not loaded");
            },
            HailoError::NoNetworkGroups { model_name } => {
                text.append("HEF '");
                text.append(model_name.as_str());
                text.append("' contains no network groups");
            },
        }
        assert(text@ =~= self@.text());
        text
    }
}

/// Converts a status into a `Result`: success is `Ok`, every other status is an
/// error that carries the name of the call, the code and the message.
pub fn check_status(status: i32, context: &str, message: &str) -> (result: Result<(), HailoError>)
    ensures
        result is Ok <==> status == HAILO_SUCCESS,
        result matches Err(error) ==> error@ == (HailoErrorView::CallFailed {
            context: context@,
            status,
            message: message@,
        }),
{
    if status == HAILO_SUCCESS {
        return Ok(());
    }
    Err(HailoError::CallFailed {
        context: context.to_owned(),
        status,
        message: message.to_owned(),
    })
}

} // verus!
