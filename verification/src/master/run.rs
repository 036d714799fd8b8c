//! A command in progress: the calls it makes to workers, and what follows from
//! each answer.
//!
//! A [`CommandRun`] goes through its targets one after the other. It names the
//! call to make next; the caller makes it and hands the reply back, until the
//! command is finished.

use vstd::pervasive::unreached;
use vstd::prelude::*;

use crate::discovery::endpoint::endpoint_views;
use crate::discovery::endpoint::grpc_addr;
use crate::discovery::endpoint::grpc_address;
use crate::discovery::endpoint::EndpointView;
use crate::discovery::endpoint::WorkerEndpoint;
use crate::master::report::inferred_report;
use crate::master::report::inferred_text;
use crate::master::report::loaded_report;
use crate::master::report::loaded_text;
use crate::master::report::status_report;
use crate::master::report::status_text;
use crate::master::report::unloaded_report;
use crate::master::report::unloaded_text;
use crate::messages::GetStatusResponse;
use crate::messages::GetStatusResponseView;
use crate::messages::LoadModelResponse;
use crate::messages::LoadModelResponseView;
use crate::messages::RunInferenceResponse;
use crate::messages::RunInferenceResponseView;
use crate::messages::UnloadModelResponse;
use crate::messages::UnloadModelResponseView;

verus! {

/// What a command asks of each of its targets.
pub enum Order {
    Status,
    LoadModel { hef_data: Vec<u8>, model_name: String },
    UnloadModel { model_name: String },
    Infer { model_name: String, input_data: Vec<u8>, expected_output_size: u32 },
}

/// The value of an [`Order`].
#[verifier::ext_equal]
pub enum OrderView {
    Status,
    LoadModel { hef_data: Seq<u8>, model_name: Seq<char> },
    UnloadModel { model_name: Seq<char> },
    Infer { model_name: Seq<char>, input_data: Seq<u8>, expected_output_size: u32 },
}

impl View for Order {
    type V = OrderView;

    open spec fn view(&self) -> OrderView {
        match self {
            Order::Status => OrderView::Status,
            Order::LoadModel { hef_data, model_name } => OrderView::LoadModel {
                hef_data: hef_data@,
                model_name: model_name@,
            },
            Order::UnloadModel { model_name } => OrderView::UnloadModel {
                model_name: model_name@,
            },
            Order::Infer { model_name, input_data, expected_output_size } => OrderView::Infer {
                model_name: model_name@,
                input_data: input_data@,
                expected_output_size: *expected_output_size,
            },
        }
    }
}

/// A call of a command: a connection to a worker, or a request over it.
pub enum CommandCall<'a> {
    /// Connect to the worker at this address.
    Connect { addr: String },
    /// Send the order over the connection.
    Request(&'a Order),
}

/// The value of a [`CommandCall`].
#[verifier::ext_equal]
pub enum CommandCallView {
    Connect { addr: Seq<char> },
    Request(OrderView),
}

impl<'a> View for CommandCall<'a> {
    type V = CommandCallView;

    open spec fn view(&self) -> CommandCallView {
        match self {
            CommandCall::Connect { addr } => CommandCallView::Connect { addr: addr@ },
            CommandCall::Request(order) => CommandCallView::Request(order@),
        }
    }
}

/// What a call of a command gave. Errors of the transport are kept as text.
pub enum CommandReply {
    Connected,
    ConnectFailed { error: String },
    RequestFailed { error: String },
    Status(GetStatusResponse),
    Loaded(LoadModelResponse),
    Unloaded(UnloadModelResponse),
    Inferred(RunInferenceResponse),
}

/// The value of a [`CommandReply`].
pub enum CommandReplyView {
    Connected,
    ConnectFailed { error: Seq<char> },
    RequestFailed { error: Seq<char> },
    Status(GetStatusResponseView),
    Loaded(LoadModelResponseView),
    Unloaded(UnloadModelResponseView),
    Inferred(RunInferenceResponseView),
}

impl View for CommandReply {
    type V = CommandReplyView;

    open spec fn view(&self) -> CommandReplyView {
        match self {
            CommandReply::Connected => CommandReplyView::Connected,
            CommandReply::ConnectFailed { error } => CommandReplyView::ConnectFailed {
                error: error@,
            },
            CommandReply::RequestFailed { error } => CommandReplyView::RequestFailed {
                error: error@,
            },
            CommandReply::Status(response) => CommandReplyView::Status(response@),
            CommandReply::Loaded(response) => CommandReplyView::Loaded(response@),
            CommandReply::Unloaded(response) => CommandReplyView::Unloaded(response@),
            CommandReply::Inferred(response) => CommandReplyView::Inferred(response@),
        }
    }
}

/// Whether a reply is one that a call can get: of the kind of the call.
pub open spec fn command_answers(call: CommandCallView, reply: CommandReplyView) -> bool {
    match call {
        CommandCallView::Connect { .. } => reply is Connected || reply is ConnectFailed,
        CommandCallView::Request(order) => reply is RequestFailed || match order {
            OrderView::Status => reply is Status,
            OrderView::LoadModel { .. } => reply is Loaded,
            OrderView::UnloadModel { .. } => reply is Unloaded,
            OrderView::Infer { .. } => reply is Inferred,
        },
    }
}

/// Why a command failed.
pub enum CommandError {
    /// No worker was selected.
    NoMatchingWorkers,
    /// The connection to a worker, or a request over it, failed.
    Transport { error: String },
    /// The worker could not run the inference.
    InferenceFailed { error_msg: String },
}

/// The value of a [`CommandError`].
#[verifier::ext_equal]
pub enum CommandErrorView {
    NoMatchingWorkers,
    Transport { error: Seq<char> },
    InferenceFailed { error_msg: Seq<char> },
}

impl View for CommandError {
    type V = CommandErrorView;

    open spec fn view(&self) -> CommandErrorView {
        match self {
            CommandError::NoMatchingWorkers => CommandErrorView::NoMatchingWorkers,
            CommandError::Transport { error } => CommandErrorView::Transport { error: error@ },
            CommandError::InferenceFailed { error_msg } => CommandErrorView::InferenceFailed {
                error_msg: error_msg@,
            },
        }
    }
}

impl CommandErrorView {
    /// The text that is reported for an error.
    pub open spec fn text(self) -> Seq<char> {
        match self {
            CommandErrorView::NoMatchingWorkers => "No matching workers found"@,
            CommandErrorView::Transport { error } => error,
            CommandErrorView::InferenceFailed { error_msg } => "Inference failed: "@ + error_msg,
        }
    }
}

impl CommandError {
    /// The text that is reported for this error.
    pub fn message(&self) -> (text: String)
        ensures
            text@ == self@.text(),
    {
        match self {
            CommandError::NoMatchingWorkers => "No matching workers found".to_owned(),
            CommandError::Transport { error } => error.clone(),
            CommandError::InferenceFailed { error_msg } => {
                let mut text = String::new();
                text.append("Inference failed: ");
                text.append(error_msg.as_str());
                assert(text@ =~= self@.text());
                text
            },
        }
    }
}

/// What a step of a command tells the user.
pub enum Report {
    Nothing,
    /// A text to print, as a line.
    Print(String),
    /// A warning about a worker, and about a model if it could not be loaded or
    /// unloaded.
    Warn { worker: String, model: Option<String>, message: String, error: String },
}

/// The value of a [`Report`].
#[verifier::ext_equal]
pub enum ReportView {
    Nothing,
    Print(Seq<char>),
    Warn {
        worker: Seq<char>,
        model: Option<Seq<char>>,
        message: Seq<char>,
        error: Seq<char>,
    },
}

impl View for Report {
    type V = ReportView;

    open spec fn view(&self) -> ReportView {
        match self {
            Report::Nothing => ReportView::Nothing,
            Report::Print(text) => ReportView::Print(text@),
            Report::Warn { worker, model, message, error } => ReportView::Warn {
                worker: worker@,
                model: match model {
                    Some(name) => Some(name@),
                    None => None,
                },
                message: message@,
                error: error@,
            },
        }
    }
}

/// The value of the outcome of a command.
pub type CommandOutcomeView = Result<(), CommandErrorView>;

/// The value of an outcome.
pub open spec fn command_outcome_view(outcome: Result<(), CommandError>) -> CommandOutcomeView {
    match outcome {
        Ok(()) => Ok(()),
        Err(error) => Err(error@),
    }
}

/// How far a command has come.
#[verifier::ext_equal]
pub struct RunView {
    pub order: OrderView,
    /// The workers it addresses.
    pub targets: Seq<EndpointView>,
    /// Which of them it is at.
    pub current: nat,
    /// Whether there is a connection to it.
    pub connected: bool,
}

impl RunView {
    /// The command is at one of its targets.
    pub open spec fn wf(self) -> bool {
        self.current < self.targets.len()
    }

    /// The full instance name of the worker that the command is at.
    pub open spec fn worker(self) -> Seq<char> {
        self.targets[self.current as int].instance_name
    }

    /// The call that the command waits for.
    pub open spec fn call(self) -> CommandCallView {
        if self.connected {
            CommandCallView::Request(self.order)
        } else {
            CommandCallView::Connect { addr: grpc_address(self.targets[self.current as int]) }
        }
    }
}

/// What follows a reply: a further call, or the end of the command.
#[verifier::ext_equal]
pub enum RunNextView {
    Continue(RunView),
    Finished(CommandOutcomeView),
}

/// What a step of a command tells the user, and what follows.
#[verifier::ext_equal]
pub struct RunStepView {
    pub report: ReportView,
    pub next: RunNextView,
}

/// The command turns to its next target, or ends well behind the last.
pub open spec fn next_target(run: RunView) -> RunNextView {
    if run.current + 1 < run.targets.len() {
        RunNextView::Continue(RunView { current: run.current + 1, connected: false, ..run })
    } else {
        RunNextView::Finished(Ok(()))
    }
}

/// A warning about the worker that the command is at.
pub open spec fn warning(run: RunView, message: Seq<char>, error: Seq<char>) -> ReportView {
    ReportView::Warn { worker: run.worker(), model: None, message, error }
}

/// A warning about a model on the worker that the command is at.
pub open spec fn model_warning(
    run: RunView,
    model_name: Seq<char>,
    message: Seq<char>,
    error: Seq<char>,
) -> ReportView {
    ReportView::Warn { worker: run.worker(), model: Some(model_name), message, error }
}

/// The command ends with an error of the transport.
pub open spec fn transport_failure(error: Seq<char>) -> RunStepView {
    RunStepView {
        report: ReportView::Nothing,
        next: RunNextView::Finished(Err(CommandErrorView::Transport { error })),
    }
}

/// What follows when a command gets the reply `reply`.
///
/// A worker that cannot be connected to is passed over with a warning, unless an
/// inference was asked of it. A request that fails ends the command, unless only
/// the status was asked for. A worker that answers that it failed gets a
/// warning that names the model; if an inference was asked of it, the command
/// ends.
pub open spec fn run_next(run: RunView, reply: CommandReplyView) -> RunStepView {
    match reply {
        CommandReplyView::Connected => RunStepView {
            report: ReportView::Nothing,
            next: RunNextView::Continue(RunView { connected: true, ..run }),
        },
        CommandReplyView::ConnectFailed { error } => if run.order is Infer {
            transport_failure(error)
        } else {
            RunStepView { report: warning(run, "Connect failed"@, error), next: next_target(run) }
        },
        CommandReplyView::RequestFailed { error } => if run.order is Status {
            RunStepView {
                report: warning(run, "GetStatus RPC failed"@, error),
                next: next_target(run),
            }
        } else {
            transport_failure(error)
        },
        CommandReplyView::Status(response) => RunStepView {
            report: ReportView::Print(status_report(response)),
            next: next_target(run),
        },
        CommandReplyView::Loaded(response) => RunStepView {
            report: if response.success {
                ReportView::Print(
                    loaded_report(run.worker(), run.order->LoadModel_model_name, response),
                )
            } else {
                model_warning(
                    run,
                    run.order->LoadModel_model_name,
                    "LoadModel failed"@,
                    response.error_msg,
                )
            },
            next: next_target(run),
        },
        CommandReplyView::Unloaded(response) => RunStepView {
            report: if response.success {
                ReportView::Print(
                    unloaded_report(run.worker(), run.order->UnloadModel_model_name),
                )
            } else {
                model_warning(
                    run,
                    run.order->UnloadModel_model_name,
                    "UnloadModel failed"@,
                    response.error_msg,
                )
            },
            next: next_target(run),
        },
        CommandReplyView::Inferred(response) => if response.success {
            RunStepView {
                report: ReportView::Print(inferred_report(run.worker(), response)),
                next: next_target(run),
            }
        } else {
            RunStepView {
                report: ReportView::Nothing,
                next: RunNextView::Finished(
                    Err(CommandErrorView::InferenceFailed { error_msg: response.error_msg }),
                ),
            }
        },
    }
}

/// A command in progress.
pub struct CommandRun {
    order: Order,
    targets: Vec<WorkerEndpoint>,
    current: usize,
    connected: bool,
}

impl View for CommandRun {
    type V = RunView;

    closed spec fn view(&self) -> RunView {
        RunView {
            order: self.order@,
            targets: endpoint_views(self.targets@),
            current: self.current as nat,
            connected: self.connected,
        }
    }
}

/// What follows a reply: a further call, or the end of the command.
pub enum RunNext {
    Continue(CommandRun),
    Finished(Result<(), CommandError>),
}

impl View for RunNext {
    type V = RunNextView;

    open spec fn view(&self) -> RunNextView {
        match self {
            RunNext::Continue(run) => RunNextView::Continue(run@),
            RunNext::Finished(outcome) => RunNextView::Finished(command_outcome_view(*outcome)),
        }
    }
}

/// What a step of a command tells the user, and what follows.
pub struct RunStep {
    pub report: Report,
    pub next: RunNext,
}

impl View for RunStep {
    type V = RunStepView;

    open spec fn view(&self) -> RunStepView {
        RunStepView { report: self.report@, next: self.next@ }
    }
}

impl RunStepView {
    /// A command that goes on is at one of its targets.
    pub open spec fn wf(self) -> bool {
        self.next matches RunNextView::Continue(run) ==> run.wf()
    }
}

impl CommandRun {
    /// A command before its first call.
    pub(crate) fn start(order: Order, targets: Vec<WorkerEndpoint>) -> (run: Self)
        ensures
            run@ == (RunView {
                order: order@,
                targets: endpoint_views(targets@),
                current: 0,
                connected: false,
            }),
    {
        CommandRun { order, targets, current: 0, connected: false }
    }

    /// The call to make next.
    pub fn call(&self) -> (call: CommandCall<'_>)
        requires
            self@.wf(),
        ensures
            call@ == self@.call(),
    {
        if self.connected {
            CommandCall::Request(&self.order)
        } else {
            CommandCall::Connect { addr: grpc_addr(&self.targets[self.current]) }
        }
    }

    /// Tests whether a reply is one that the call to make next can get.
    pub fn accepts(&self, reply: &CommandReply) -> (accepted: bool)
        ensures
            accepted == command_answers(self@.call(), reply@),
    {
        match reply {
            CommandReply::Connected => !self.connected,
            CommandReply::ConnectFailed { .. } => !self.connected,
            CommandReply::RequestFailed { .. } => self.connected,
            CommandReply::Status(_) => self.connected && matches!(self.order, Order::Status),
            CommandReply::Loaded(_) => self.connected
                && matches!(self.order, Order::LoadModel { .. }),
            CommandReply::Unloaded(_) => self.connected
                && matches!(self.order, Order::UnloadModel { .. }),
            CommandReply::Inferred(_) => self.connected
                && matches!(self.order, Order::Infer { .. }),
        }
    }

    /// A warning about the worker that the command is at.
    fn warn(&self, message: &str, error: String) -> (report: Report)
        requires
            self@.wf(),
        ensures
            report@ == warning(self@, message@, error@),
    {
        Report::Warn {
            worker: self.targets[self.current].instance_name.clone(),
            model: None,
            message: message.to_owned(),
            error,
        }
    }

    /// A warning about a model on the worker that the command is at.
    fn warn_of_model(&self, model_name: &str, message: &str, error: String) -> (report: Report)
        requires
            self@.wf(),
        ensures
            report@ == model_warning(self@, model_name@, message@, error@),
    {
        Report::Warn {
            worker: self.targets[self.current].instance_name.clone(),
            model: Some(model_name.to_owned()),
            message: message.to_owned(),
            error,
        }
    }

    /// Turns to the next target, or ends behind the last.
    fn pass_on(self, report: Report) -> (step: RunStep)
        requires
            self@.wf(),
        ensures
            step@ == (RunStepView { report: report@, next: next_target(self@) }),
            step@.wf(),
    {
        let last: usize = self.targets.len() - 1;
        let mut run = self;
        if run.current < last {
            run.current = run.current + 1;
            run.connected = false;
            RunStep { report, next: RunNext::Continue(run) }
        } else {
            RunStep { report, next: RunNext::Finished(Ok(())) }
        }
    }

    /// Takes the reply to the call that was to be made next.
    pub fn advance(self, reply: CommandReply) -> (step: RunStep)
        requires
            self@.wf(),
            command_answers(self@.call(), reply@),
        ensures
            step@ == run_next(self@, reply@),
            step@.wf(),
    {
        match reply {
            CommandReply::Connected => {
                let mut run = self;
                run.connected = true;
                RunStep { report: Report::Nothing, next: RunNext::Continue(run) }
            },
            CommandReply::ConnectFailed { error } => {
                if matches!(self.order, Order::Infer { .. }) {
                    fail(CommandError::Transport { error })
                } else {
                    let report = self.warn("Connect failed", error);
                    self.pass_on(report)
                }
            },
            CommandReply::RequestFailed { error } => {
                if matches!(self.order, Order::Status) {
                    let report = self.warn("GetStatus RPC failed", error);
                    self.pass_on(report)
                } else {
                    fail(CommandError::Transport { error })
                }
            },
            CommandReply::Status(response) => {
                let report = Report::Print(status_text(&response));
                self.pass_on(report)
            },
            CommandReply::Loaded(response) => {
                let model_name = match &self.order {
                    Order::LoadModel { model_name, .. } => model_name.as_str(),
                    _ => unreached(),
                };
                let report = if response.success {
                    let worker = self.targets[self.current].instance_name.as_str();
                    Report::Print(loaded_text(worker, model_name, &response))
                } else {
                    self.warn_of_model(model_name, "LoadModel failed", response.error_msg)
                };
                self.pass_on(report)
            },
            CommandReply::Unloaded(response) => {
                let model_name = match &self.order {
                    Order::UnloadModel { model_name } => model_name.as_str(),
                    _ => unreached(),
                };
                let report = if response.success {
                    let worker = self.targets[self.current].instance_name.as_str();
                    Report::Print(unloaded_text(worker, model_name))
                } else {
                    self.warn_of_model(model_name, "UnloadModel failed", response.error_msg)
                };
                self.pass_on(report)
            },
            CommandReply::Inferred(response) => {
                if response.success {
                    let worker = self.targets[self.current].instance_name.as_str();
                    let report = Report::Print(inferred_text(worker, &response));
                    self.pass_on(report)
                } else {
                    fail(CommandError::InferenceFailed { error_msg: response.error_msg })
                }
            },
        }
    }
}

/// The command ends with an error.
pub(crate) fn fail(error: CommandError) -> (step: RunStep)
    ensures
        step@ == (RunStepView {
            report: ReportView::Nothing,
            next: RunNextView::Finished(Err(error@)),
        }),
{
    RunStep { report: Report::Nothing, next: RunNext::Finished(Err(error)) }
}

} // verus!
