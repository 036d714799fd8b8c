//! Loading a model: the device calls it takes, and what is given back when one
//! of them fails.
//!
//! A [`Loading`] is a load in progress. It names the device call to make next;
//! the caller makes it and hands the reply back, until the load is finished.

use vstd::pervasive::unreached;
use vstd::prelude::*;

use crate::hailo::backend::HailoBackend;
use crate::hailo::models::input_vstream_releases;
use crate::hailo::models::input_vstreams;
use crate::hailo::models::model_under;
use crate::hailo::models::release_model;
use crate::hailo::models::releases_of;
use crate::hailo::models::LoadedModel;
use crate::hailo::models::LoadedModelView;
use crate::hailo::models::Resource;
use crate::hailo::status::check_status;
use crate::hailo::status::HailoError;
use crate::hailo::status::HailoErrorView;
use crate::hailo::status::StatusReport;
use crate::hailo::status::StatusView;
use crate::hailo::status::HAILO_SUCCESS;
use crate::hailo::vstream::build_vstream_params;
use crate::hailo::vstream::frame_sizes_fit;
use crate::hailo::vstream::info_views;
use crate::hailo::vstream::params_views;
use crate::hailo::vstream::plannable;
use crate::hailo::vstream::stream_plan;
use crate::hailo::vstream::NamedParams;
use crate::hailo::vstream::NamedParamsView;
use crate::hailo::vstream::StreamPlan;
use crate::hailo::vstream::StreamPlanView;
use crate::hailo::vstream::VStreamInfo;
use crate::hailo::vstream::VStreamInfoView;

verus! {

/// A device call of a load.
pub enum LoadCall<'a> {
    /// Parse a model file.
    CreateHefBuffer { hef_data: &'a [u8] },
    /// List the streams of a parsed model file.
    GetVStreamInfos { hef: usize },
    /// Initialise the configuration for a vdevice and a model file.
    InitConfigureParams { vdevice: usize, hef: usize },
    /// Configure the vdevice with that configuration.
    ConfigureVDevice { vdevice: usize, hef: usize },
    /// Create the input streams of a network group.
    CreateInputVStreams { group: usize, params: &'a Vec<NamedParams> },
    /// Create the output streams of a network group.
    CreateOutputVStreams { group: usize, params: &'a Vec<NamedParams> },
    /// Give an object back to the device. The status is not looked at.
    Release(Resource),
}

/// The value of a [`LoadCall`].
pub enum LoadCallView {
    CreateHefBuffer { hef_data: Seq<u8> },
    GetVStreamInfos { hef: usize },
    InitConfigureParams { vdevice: usize, hef: usize },
    ConfigureVDevice { vdevice: usize, hef: usize },
    CreateInputVStreams { group: usize, params: Seq<NamedParamsView> },
    CreateOutputVStreams { group: usize, params: Seq<NamedParamsView> },
    Release(Resource),
}

impl<'a> View for LoadCall<'a> {
    type V = LoadCallView;

    open spec fn view(&self) -> LoadCallView {
        match self {
            LoadCall::CreateHefBuffer { hef_data } => LoadCallView::CreateHefBuffer {
                hef_data: hef_data@,
            },
            LoadCall::GetVStreamInfos { hef } => LoadCallView::GetVStreamInfos { hef: *hef },
            LoadCall::InitConfigureParams { vdevice, hef } => LoadCallView::InitConfigureParams {
                vdevice: *vdevice,
                hef: *hef,
            },
            LoadCall::ConfigureVDevice { vdevice, hef } => LoadCallView::ConfigureVDevice {
                vdevice: *vdevice,
                hef: *hef,
            },
            LoadCall::CreateInputVStreams { group, params } => LoadCallView::CreateInputVStreams {
                group: *group,
                params: params_views(params@),
            },
            LoadCall::CreateOutputVStreams { group, params } => LoadCallView::CreateOutputVStreams {
                group: *group,
                params: params_views(params@),
            },
            LoadCall::Release(resource) => LoadCallView::Release(*resource),
        }
    }
}

/// What a device call of a load returned. The handles count only if the status
/// is success.
pub enum LoadReply {
    Hef { report: StatusReport, hef: usize },
    VStreamInfos { report: StatusReport, infos: Vec<VStreamInfo> },
    ConfigureParams { report: StatusReport },
    NetworkGroups { report: StatusReport, groups: Vec<usize> },
    InputVStreams { report: StatusReport, vstreams: Vec<usize> },
    OutputVStreams { report: StatusReport, vstreams: Vec<usize> },
    Released,
}

/// The value of a [`LoadReply`].
pub enum LoadReplyView {
    Hef { report: StatusView, hef: usize },
    VStreamInfos { report: StatusView, infos: Seq<VStreamInfoView> },
    ConfigureParams { report: StatusView },
    NetworkGroups { report: StatusView, groups: Seq<usize> },
    InputVStreams { report: StatusView, vstreams: Seq<usize> },
    OutputVStreams { report: StatusView, vstreams: Seq<usize> },
    Released,
}

impl View for LoadReply {
    type V = LoadReplyView;

    open spec fn view(&self) -> LoadReplyView {
        match self {
            LoadReply::Hef { report, hef } => LoadReplyView::Hef { report: report@, hef: *hef },
            LoadReply::VStreamInfos { report, infos } => LoadReplyView::VStreamInfos {
                report: report@,
                infos: info_views(infos@),
            },
            LoadReply::ConfigureParams { report } => LoadReplyView::ConfigureParams {
                report: report@,
            },
            LoadReply::NetworkGroups { report, groups } => LoadReplyView::NetworkGroups {
                report: report@,
                groups: groups@,
            },
            LoadReply::InputVStreams { report, vstreams } => LoadReplyView::InputVStreams {
                report: report@,
                vstreams: vstreams@,
            },
            LoadReply::OutputVStreams { report, vstreams } => LoadReplyView::OutputVStreams {
                report: report@,
                vstreams: vstreams@,
            },
            LoadReply::Released => LoadReplyView::Released,
        }
    }
}

/// How a load ends: with the numbers of input and output streams, or an error.
pub type LoadOutcome = Result<(u32, u32), HailoError>;

/// The value of a [`LoadOutcome`].
pub type LoadOutcomeView = Result<(nat, nat), HailoErrorView>;

/// The value of an outcome.
pub open spec fn outcome_view(outcome: LoadOutcome) -> LoadOutcomeView {
    match outcome {
        Ok((inputs, outputs)) => Ok((inputs as nat, outputs as nat)),
        Err(error) => Err(error@),
    }
}

/// How far a load has come. Each state waits for the reply to one call.
enum LoadState {
    Hef,
    VStreamInfos { hef: usize },
    ConfigureParams { hef: usize, plan: StreamPlan },
    NetworkGroups { hef: usize, plan: StreamPlan },
    SpareGroups { hef: usize, plan: StreamPlan, group: usize, spares: Vec<usize> },
    InputVStreams { hef: usize, plan: StreamPlan, group: usize },
    OutputVStreams { hef: usize, plan: StreamPlan, group: usize, inputs: Vec<usize> },
    Releases { pending: Vec<Resource>, outcome: LoadOutcome },
}

/// How far a load has come. Each state waits for the reply to one call.
pub enum LoadStateView {
    /// The model file is being parsed.
    Hef,
    /// The streams of the model file are being listed.
    VStreamInfos { hef: usize },
    /// The configuration is being initialised.
    ConfigureParams { hef: usize, plan: StreamPlanView },
    /// The vdevice is being configured.
    NetworkGroups { hef: usize, plan: StreamPlanView },
    /// The network groups behind the first are being released; the first of
    /// `spares` is in flight.
    SpareGroups { hef: usize, plan: StreamPlanView, group: usize, spares: Seq<usize> },
    /// The input streams are being created.
    InputVStreams { hef: usize, plan: StreamPlanView, group: usize },
    /// The output streams are being created.
    OutputVStreams { hef: usize, plan: StreamPlanView, group: usize, inputs: Seq<usize> },
    /// The outcome is known, and the objects that are not kept are being
    /// released; the first of `pending` is in flight.
    Releases { pending: Seq<Resource>, outcome: LoadOutcomeView },
}

impl LoadState {
    spec fn view(&self) -> LoadStateView {
        match self {
            LoadState::Hef => LoadStateView::Hef,
            LoadState::VStreamInfos { hef } => LoadStateView::VStreamInfos { hef: *hef },
            LoadState::ConfigureParams { hef, plan } => LoadStateView::ConfigureParams {
                hef: *hef,
                plan: plan@,
            },
            LoadState::NetworkGroups { hef, plan } => LoadStateView::NetworkGroups {
                hef: *hef,
                plan: plan@,
            },
            LoadState::SpareGroups { hef, plan, group, spares } => LoadStateView::SpareGroups {
                hef: *hef,
                plan: plan@,
                group: *group,
                spares: spares@,
            },
            LoadState::InputVStreams { hef, plan, group } => LoadStateView::InputVStreams {
                hef: *hef,
                plan: plan@,
                group: *group,
            },
            LoadState::OutputVStreams { hef, plan, group, inputs } => {
                LoadStateView::OutputVStreams {
                    hef: *hef,
                    plan: plan@,
                    group: *group,
                    inputs: inputs@,
                }
            },
            LoadState::Releases { pending, outcome } => LoadStateView::Releases {
                pending: pending@,
                outcome: outcome_view(*outcome),
            },
        }
    }
}

impl LoadStateView {
    /// A state that releases something has something to release.
    pub open spec fn wf(self) -> bool {
        match self {
            LoadStateView::SpareGroups { spares, .. } => spares.len() > 0,
            LoadStateView::Releases { pending, .. } => pending.len() > 0,
            _ => true,
        }
    }

    /// Whether a reply is one that the call of the state can get: of the kind of
    /// the call, with one stream for each parameter, and with infos that can be
    /// planned for.
    pub open spec fn accepts(self, reply: LoadReplyView) -> bool {
        match (self, reply) {
            (LoadStateView::Hef, LoadReplyView::Hef { .. }) => true,
            (LoadStateView::VStreamInfos { .. }, LoadReplyView::VStreamInfos { report, infos }) => {
                report.ok() ==> plannable(infos)
            },
            (LoadStateView::ConfigureParams { .. }, LoadReplyView::ConfigureParams { .. }) => true,
            (LoadStateView::NetworkGroups { .. }, LoadReplyView::NetworkGroups { .. }) => true,
            (LoadStateView::SpareGroups { .. }, LoadReplyView::Released) => true,
            (
                LoadStateView::InputVStreams { plan, .. },
                LoadReplyView::InputVStreams { vstreams, .. },
            ) => vstreams.len() == plan.input_params.len(),
            (
                LoadStateView::OutputVStreams { plan, .. },
                LoadReplyView::OutputVStreams { vstreams, .. },
            ) => vstreams.len() == plan.output_params.len(),
            (LoadStateView::Releases { .. }, LoadReplyView::Released) => true,
            _ => false,
        }
    }

    /// The call that the state waits for.
    pub open spec fn call(self, vdevice: usize, hef_data: Seq<u8>) -> LoadCallView {
        match self {
            LoadStateView::Hef => LoadCallView::CreateHefBuffer { hef_data },
            LoadStateView::VStreamInfos { hef } => LoadCallView::GetVStreamInfos { hef },
            LoadStateView::ConfigureParams { hef, .. } => LoadCallView::InitConfigureParams {
                vdevice,
                hef,
            },
            LoadStateView::NetworkGroups { hef, .. } => LoadCallView::ConfigureVDevice {
                vdevice,
                hef,
            },
            LoadStateView::SpareGroups { spares, .. } => LoadCallView::Release(
                Resource::NetworkGroup(spares[0]),
            ),
            LoadStateView::InputVStreams { plan, group, .. } => {
                LoadCallView::CreateInputVStreams { group, params: plan.input_params }
            },
            LoadStateView::OutputVStreams { plan, group, .. } => {
                LoadCallView::CreateOutputVStreams { group, params: plan.output_params }
            },
            LoadStateView::Releases { pending, .. } => LoadCallView::Release(pending[0]),
        }
    }
}

/// What follows a reply: a further call, or the end of the load.
pub enum LoadNext {
    Continue(LoadStateView),
    Finished(LoadOutcomeView),
}

/// The load is over with an error once `pending` is released.
pub open spec fn failing(pending: Seq<Resource>, error: HailoErrorView) -> LoadNext {
    LoadNext::Continue(LoadStateView::Releases { pending, outcome: Err(error) })
}

/// What follows when the state `state` of a load gets the reply `reply`, and
/// `replaced` is the model that has the name at that time.
///
/// A failed call ends the load with its error once everything acquired so far
/// is released: the input streams, the network group, the model file. Of
/// several network groups the first is used and the others are released. A load
/// that succeeds releases the model it replaces, if any, and the model file.
pub open spec fn load_next(
    model_name: Seq<char>,
    state: LoadStateView,
    reply: LoadReplyView,
    replaced: Option<LoadedModelView>,
) -> LoadNext {
    match (state, reply) {
        (LoadStateView::Hef, LoadReplyView::Hef { report, hef }) => {
            if report.ok() {
                LoadNext::Continue(LoadStateView::VStreamInfos { hef })
            } else {
                LoadNext::Finished(Err(report.error("hailo_create_hef_buffer"@)))
            }
        },
        (LoadStateView::VStreamInfos { hef }, LoadReplyView::VStreamInfos { report, infos }) => {
            if report.ok() {
                LoadNext::Continue(
                    LoadStateView::ConfigureParams { hef, plan: stream_plan(infos) },
                )
            } else {
                failing(seq![Resource::Hef(hef)], report.error("hailo_hef_get_vstream_infos"@))
            }
        },
        (
            LoadStateView::ConfigureParams { hef, plan },
            LoadReplyView::ConfigureParams { report },
        ) => {
            if report.ok() {
                LoadNext::Continue(LoadStateView::NetworkGroups { hef, plan })
            } else {
                failing(
                    seq![Resource::Hef(hef)],
                    report.error("hailo_init_configure_params_by_vdevice"@),
                )
            }
        },
        (
            LoadStateView::NetworkGroups { hef, plan },
            LoadReplyView::NetworkGroups { report, groups },
        ) => {
            if !report.ok() {
                failing(seq![Resource::Hef(hef)], report.error("hailo_configure_vdevice"@))
            } else if groups.len() == 0 {
                failing(
                    seq![Resource::Hef(hef)],
                    HailoErrorView::NoNetworkGroups { model_name },
                )
            } else if groups.len() == 1 {
                LoadNext::Continue(LoadStateView::InputVStreams { hef, plan, group: groups[0] })
            } else {
                LoadNext::Continue(
                    LoadStateView::SpareGroups {
                        hef,
                        plan,
                        group: groups[0],
                        spares: groups.drop_first(),
                    },
                )
            }
        },
        (LoadStateView::SpareGroups { hef, plan, group, spares }, LoadReplyView::Released) => {
            if spares.len() > 1 {
                LoadNext::Continue(
                    LoadStateView::SpareGroups { hef, plan, group, spares: spares.drop_first() },
                )
            } else {
                LoadNext::Continue(LoadStateView::InputVStreams { hef, plan, group })
            }
        },
        (
            LoadStateView::InputVStreams { hef, plan, group },
            LoadReplyView::InputVStreams { report, vstreams },
        ) => {
            if report.ok() {
                LoadNext::Continue(
                    LoadStateView::OutputVStreams { hef, plan, group, inputs: vstreams },
                )
            } else {
                failing(
                    seq![Resource::NetworkGroup(group), Resource::Hef(hef)],
                    report.error("hailo_create_input_vstreams"@),
                )
            }
        },
        (
            LoadStateView::OutputVStreams { hef, plan, group, inputs },
            LoadReplyView::OutputVStreams { report, vstreams },
        ) => {
            if report.ok() {
                LoadNext::Continue(
                    LoadStateView::Releases {
                        pending: releases_of(replaced) + seq![Resource::Hef(hef)],
                        outcome: Ok((plan.input_count, plan.output_count)),
                    },
                )
            } else {
                failing(
                    input_vstreams(inputs) + seq![
                        Resource::NetworkGroup(group),
                        Resource::Hef(hef),
                    ],
                    report.error("hailo_create_output_vstreams"@),
                )
            }
        },
        (LoadStateView::Releases { pending, outcome }, LoadReplyView::Released) => {
            if pending.len() > 1 {
                LoadNext::Continue(
                    LoadStateView::Releases { pending: pending.drop_first(), outcome },
                )
            } else {
                LoadNext::Finished(outcome)
            }
        },
        _ => arbitrary(),
    }
}

/// The model that a reply makes ready, if it is the last that the load needs.
pub open spec fn load_stores(state: LoadStateView, reply: LoadReplyView) -> Option<LoadedModelView> {
    match (state, reply) {
        (
            LoadStateView::OutputVStreams { plan, group, inputs, .. },
            LoadReplyView::OutputVStreams { report, vstreams },
        ) => if report.ok() {
            Some(
                LoadedModelView {
                    network_group: group,
                    input_vstreams: inputs,
                    output_vstreams: vstreams,
                    output_frame_size: plan.output_frame_size,
                },
            )
        } else {
            None
        },
        _ => None,
    }
}

/// What is being loaded, and where.
struct LoadTask<'a> {
    vdevice: usize,
    hef_data: &'a [u8],
    model_name: String,
}

/// A load in progress.
pub struct Loading<'a> {
    task: LoadTask<'a>,
    state: LoadState,
}

/// The value of a [`Loading`].
pub struct LoadingView {
    pub vdevice: usize,
    pub hef_data: Seq<u8>,
    pub model_name: Seq<char>,
    pub state: LoadStateView,
}

impl<'a> View for Loading<'a> {
    type V = LoadingView;

    closed spec fn view(&self) -> LoadingView {
        LoadingView {
            vdevice: self.task.vdevice,
            hef_data: self.task.hef_data@,
            model_name: self.task.model_name@,
            state: self.state.view(),
        }
    }
}

impl LoadingView {
    /// The call that the load waits for.
    pub open spec fn call(self) -> LoadCallView {
        self.state.call(self.vdevice, self.hef_data)
    }
}

/// What follows a reply: a further call, or the end of the load.
pub enum LoadStep<'a> {
    Continue(Loading<'a>),
    Finished(LoadOutcome),
}

impl HailoBackend {
    /// Starts to load a model file under a name. Once its calls are made, the
    /// model is ready for inference; the outcome is the numbers of its input and
    /// output streams. A model that had the name is released once the new one is
    /// ready, and stays as it is if the load fails.
    pub fn load_model<'a>(&self, model_name: &str, hef_data: &'a [u8]) -> (loading: Loading<'a>)
        ensures
            loading@ == (LoadingView {
                vdevice: self@.vdevice,
                hef_data: hef_data@,
                model_name: model_name@,
                state: LoadStateView::Hef,
            }),
    {
        let task = LoadTask {
            vdevice: self.vdevice(),
            hef_data,
            model_name: model_name.to_owned(),
        };
        Loading { task, state: LoadState::Hef }
    }
}

impl<'a> Loading<'a> {
    /// The device call to make next.
    pub fn call(&self) -> (call: LoadCall<'_>)
        requires
            self@.state.wf(),
        ensures
            call@ == self@.call(),
    {
        match &self.state {
            LoadState::Hef => LoadCall::CreateHefBuffer { hef_data: self.task.hef_data },
            LoadState::VStreamInfos { hef } => LoadCall::GetVStreamInfos { hef: *hef },
            LoadState::ConfigureParams { hef, .. } => LoadCall::InitConfigureParams {
                vdevice: self.task.vdevice,
                hef: *hef,
            },
            LoadState::NetworkGroups { hef, .. } => LoadCall::ConfigureVDevice {
                vdevice: self.task.vdevice,
                hef: *hef,
            },
            LoadState::SpareGroups { spares, .. } => LoadCall::Release(
                Resource::NetworkGroup(spares[0]),
            ),
            LoadState::InputVStreams { plan, group, .. } => LoadCall::CreateInputVStreams {
                group: *group,
                params: &plan.input_params,
            },
            LoadState::OutputVStreams { plan, group, .. } => LoadCall::CreateOutputVStreams {
                group: *group,
                params: &plan.output_params,
            },
            LoadState::Releases { pending, .. } => LoadCall::Release(pending[0]),
        }
    }

    /// Tests whether a reply is one that the call to make next can get.
    pub fn accepts(&self, reply: &LoadReply) -> (accepted: bool)
        ensures
            accepted == self@.state.accepts(reply@),
    {
        match (&self.state, reply) {
            (LoadState::Hef, LoadReply::Hef { .. }) => true,
            (LoadState::VStreamInfos { .. }, LoadReply::VStreamInfos { report, infos }) => {
                report.status != HAILO_SUCCESS || frame_sizes_fit(infos)
            },
            (LoadState::ConfigureParams { .. }, LoadReply::ConfigureParams { .. }) => true,
            (LoadState::NetworkGroups { .. }, LoadReply::NetworkGroups { .. }) => true,
            (
                LoadState::InputVStreams { plan, .. },
                LoadReply::InputVStreams { vstreams, .. },
            ) => vstreams.len() == plan.input_params.len(),
            (
                LoadState::OutputVStreams { plan, .. },
                LoadReply::OutputVStreams { vstreams, .. },
            ) => vstreams.len() == plan.output_params.len(),
            (LoadState::SpareGroups { .. }, LoadReply::Released) => true,
            (LoadState::Releases { .. }, LoadReply::Released) => true,
            _ => false,
        }
    }

    /// Takes the reply to the call that was to be made next. When it is the last
    /// reply that the load needs, the model is stored in the backend. A model that
    /// had the name is replaced, and what it holds is released before the model
    /// file is.
    pub fn advance(self, backend: &mut HailoBackend, reply: LoadReply) -> (step: LoadStep<'a>)
        requires
            self@.state.wf(),
            self@.state.accepts(reply@),
            old(backend)@.wf(),
        ensures
            step.next() == load_next(
                self@.model_name,
                self@.state,
                reply@,
                model_under(old(backend)@.models, self@.model_name),
            ),
            step matches LoadStep::Continue(next) ==> {
                &&& next@.vdevice == self@.vdevice
                &&& next@.hef_data == self@.hef_data
                &&& next@.model_name == self@.model_name
                &&& next@.state.wf()
            },
            final(backend)@ == (match load_stores(self@.state, reply@) {
                Some(model) => old(backend)@.load(self@.model_name, model),
                None => old(backend)@,
            }),
            final(backend)@.wf(),
    {
        let Loading { task, state } = self;
        match state {
            LoadState::Hef => match reply {
                LoadReply::Hef { report, hef } => {
                    match check_status(
                        report.status,
                        "hailo_create_hef_buffer",
                        report.message.as_str(),
                    ) {
                        Ok(()) => proceed(task, LoadState::VStreamInfos { hef }),
                        Err(error) => LoadStep::Finished(Err(error)),
                    }
                },
                _ => unreached(),
            },
            LoadState::VStreamInfos { hef } => match reply {
                LoadReply::VStreamInfos { report, infos } => {
                    match check_status(
                        report.status,
                        "hailo_hef_get_vstream_infos",
                        report.message.as_str(),
                    ) {
                        Ok(()) => {
                            let plan = build_vstream_params(&infos);
                            proceed(task, LoadState::ConfigureParams { hef, plan })
                        },
                        Err(error) => fail(task, only(Resource::Hef(hef)), error),
                    }
                },
                _ => unreached(),
            },
            LoadState::ConfigureParams { hef, plan } => match reply {
                LoadReply::ConfigureParams { report } => {
                    match check_status(
                        report.status,
                        "hailo_init_configure_params_by_vdevice",
                        report.message.as_str(),
                    ) {
                        Ok(()) => proceed(task, LoadState::NetworkGroups { hef, plan }),
                        Err(error) => fail(task, only(Resource::Hef(hef)), error),
                    }
                },
                _ => unreached(),
            },
            LoadState::NetworkGroups { hef, plan } => match reply {
                LoadReply::NetworkGroups { report, groups } => {
                    if let Err(error) = check_status(
                        report.status,
                        "hailo_configure_vdevice",
                        report.message.as_str(),
                    ) {
                        return fail(task, only(Resource::Hef(hef)), error);
                    }
                    let mut spares = groups;
                    if spares.len() == 0 {
                        let model_name = task.model_name.clone();
                        let error = HailoError::NoNetworkGroups { model_name };
                        return fail(task, only(Resource::Hef(hef)), error);
                    }
                    let ghost groups = spares@;
                    let group: usize = spares.remove(0);
                    assert(spares@ =~= groups.drop_first());
                    if spares.len() == 0 {
                        proceed(task, LoadState::InputVStreams { hef, plan, group })
                    } else {
                        proceed(task, LoadState::SpareGroups { hef, plan, group, spares })
                    }
                },
                _ => unreached(),
            },
            LoadState::SpareGroups { hef, plan, group, spares } => {
                let mut rest = spares;
                rest.remove(0);
                assert(rest@ =~= spares@.drop_first());
                if rest.len() > 0 {
                    proceed(task, LoadState::SpareGroups { hef, plan, group, spares: rest })
                } else {
                    proceed(task, LoadState::InputVStreams { hef, plan, group })
                }
            },
            LoadState::InputVStreams { hef, plan, group } => match reply {
                LoadReply::InputVStreams { report, vstreams } => {
                    match check_status(
                        report.status,
                        "hailo_create_input_vstreams",
                        report.message.as_str(),
                    ) {
                        Ok(()) => {
                            let inputs = vstreams;
                            proceed(task, LoadState::OutputVStreams { hef, plan, group, inputs })
                        },
                        Err(error) => {
                            let mut pending = only(Resource::NetworkGroup(group));
                            pending.push(Resource::Hef(hef));
                            assert(pending@ =~= seq![
                                Resource::NetworkGroup(group),
                                Resource::Hef(hef),
                            ]);
                            fail(task, pending, error)
                        },
                    }
                },
                _ => unreached(),
            },
            LoadState::OutputVStreams { hef, plan, group, inputs } => match reply {
                LoadReply::OutputVStreams { report, vstreams } => {
                    match check_status(
                        report.status,
                        "hailo_create_output_vstreams",
                        report.message.as_str(),
                    ) {
                        Ok(()) => {
                            let model = LoadedModel {
                                network_group: group,
                                input_vstreams: inputs,
                                output_vstreams: vstreams,
                                output_frame_size: plan.output_frame_size,
                            };
                            let replaced = backend.insert_model(task.model_name.as_str(), model);
                            let ghost old_model = model_under(
                                old(backend)@.models,
                                task.model_name@,
                            );
                            let mut pending = match replaced {
                                Some(old_model) => release_model(old_model),
                                None => Vec::new(),
                            };
                            assert(pending@ =~= releases_of(old_model));
                            pending.push(Resource::Hef(hef));
                            assert(pending@ =~= releases_of(old_model) + seq![Resource::Hef(hef)]);
                            let outcome = Ok((plan.input_count, plan.output_count));
                            proceed(task, LoadState::Releases { pending, outcome })
                        },
                        Err(error) => {
                            let mut pending = input_vstream_releases(&inputs);
                            pending.push(Resource::NetworkGroup(group));
                            pending.push(Resource::Hef(hef));
                            assert(pending@ =~= input_vstreams(inputs@) + seq![
                                Resource::NetworkGroup(group),
                                Resource::Hef(hef),
                            ]);
                            fail(task, pending, error)
                        },
                    }
                },
                _ => unreached(),
            },
            LoadState::Releases { pending, outcome } => {
                let mut rest = pending;
                rest.remove(0);
                assert(rest@ =~= pending@.drop_first());
                if rest.len() > 0 {
                    proceed(task, LoadState::Releases { pending: rest, outcome })
                } else {
                    LoadStep::Finished(outcome)
                }
            },
        }
    }
}

impl<'a> LoadStep<'a> {
    /// The value of the step.
    pub open spec fn next(self) -> LoadNext {
        match self {
            LoadStep::Continue(loading) => LoadNext::Continue(loading@.state),
            LoadStep::Finished(outcome) => LoadNext::Finished(outcome_view(outcome)),
        }
    }
}

/// A list of one resource.
fn only(resource: Resource) -> (list: Vec<Resource>)
    ensures
        list@ == seq![resource],
{
    let list = vec![resource];
    assert(list@ =~= seq![resource]);
    list
}

/// The load goes on in `state`.
fn proceed<'a>(task: LoadTask<'a>, state: LoadState) -> (step: LoadStep<'a>)
    ensures
        step matches LoadStep::Continue(next) && next@ == (LoadingView {
            vdevice: task.vdevice,
            hef_data: task.hef_data@,
            model_name: task.model_name@,
            state: state.view(),
        }),
{
    LoadStep::Continue(Loading { task, state })
}

/// The load ends with an error once `pending` is released.
fn fail<'a>(task: LoadTask<'a>, pending: Vec<Resource>, error: HailoError) -> (step: LoadStep<'a>)
    ensures
        step matches LoadStep::Continue(next) && next@ == (LoadingView {
            vdevice: task.vdevice,
            hef_data: task.hef_data@,
            model_name: task.model_name@,
            state: LoadStateView::Releases { pending: pending@, outcome: Err(error@) },
        }),
{
    proceed(task, LoadState::Releases { pending, outcome: Err(error) })
}

} // verus!
