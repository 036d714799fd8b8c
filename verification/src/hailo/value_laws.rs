//! Laws of the values that device operations take and give: statuses, errors,
//! models and what they hold, and how the device is opened and closed.

use vstd::prelude::*;

use crate::hailo::backend::model_names;
use crate::hailo::backend::BackendView;
use crate::hailo::laws::position_is_where_the_name_stands;
use crate::hailo::load::outcome_view;
use crate::hailo::load::LoadCall;
use crate::hailo::load::LoadCallView;
use crate::hailo::load::LoadNext;
use crate::hailo::load::LoadOutcome;
use crate::hailo::load::LoadReply;
use crate::hailo::load::LoadReplyView;
use crate::hailo::load::LoadStateView;
use crate::hailo::load::LoadStep;
use crate::hailo::models::all_releases;
use crate::hailo::models::is_loaded;
use crate::hailo::models::model_of;
use crate::hailo::models::with_model;
use crate::hailo::models::without_model;
use crate::hailo::models::LoadedModel;
use crate::hailo::models::LoadedModelView;
use crate::hailo::models::ModelEntryView;
use crate::hailo::models::Resource;
use crate::hailo::open::open_answers;
use crate::hailo::open::open_next;
use crate::hailo::open::OpenCall;
use crate::hailo::open::OpenNext;
use crate::hailo::open::OpenReply;
use crate::hailo::open::OpenReplyView;
use crate::hailo::open::OpenStep;
use crate::hailo::status::HailoError;
use crate::hailo::status::HailoErrorView;
use crate::hailo::status::StatusReport;
use crate::hailo::status::StatusView;
use crate::hailo::vstream::info_views;
use crate::hailo::vstream::params_views;
use crate::hailo::vstream::stream_plan;
use crate::text::signed_decimal;
use crate::text_laws::reads_as;
use crate::text_laws::signed_decimal_reads_back;

verus! {

/// A status is success exactly if it is zero, and a failed call gives an error
/// that carries the name of the call, the status and the message.
pub proof fn failure_is_any_other_status(report: StatusView, context: Seq<char>)
    ensures
        report.ok() <==> report.status == 0,
        report.error(context) == (HailoErrorView::CallFailed {
            context,
            status: report.status,
            message: report.message,
        }),
{
}

/// Whether a text is the numeral of a number, behind a minus sign if the number
/// is negative.
pub open spec fn reads_as_signed(text: Seq<char>, n: int) -> bool {
    if n < 0 {
        text.len() > 0 && text[0] == '-' && reads_as(text.skip(1), -n)
    } else {
        reads_as(text, n)
    }
}

/// The text of an error names the call, its status and its message, or the model
/// and what is the matter with it.
pub proof fn error_text_names_its_cause(error: HailoErrorView)
    ensures
        match error {
            HailoErrorView::CallFailed { context, status, message } => exists|digits: Seq<char>|
                #[trigger] reads_as_signed(digits, status as int) && error.text() == context
                    + " failed (status "@ + digits + "): "@ + message,
            HailoErrorView::NotLoaded { model_name } => error.text() == "model '"@ + model_name
                + "' not loaded"@,
            HailoErrorView::NoNetworkGroups { model_name } => error.text() == "HEF '"@ + model_name
                + "' contains no network groups"@,
        },
{
    if let HailoErrorView::CallFailed { context, status, message } = error {
        signed_decimal_reads_back(status as int);
        assert(reads_as_signed(signed_decimal(status as int), status as int));
    }
}

/// Opening initialises the parameters and then creates the vdevice, whose handle
/// it gives. The first call that fails ends it.
pub proof fn opening_takes_two_calls(params: StatusView, created: StatusView, vdevice: usize)
    ensures
        open_answers(OpenCall::InitVDeviceParams, OpenReplyView::VDeviceParams { report: params }),
        open_answers(OpenCall::CreateVDevice, OpenReplyView::VDevice { report: created, vdevice }),
        !open_answers(
            OpenCall::CreateVDevice,
            OpenReplyView::VDeviceParams { report: params },
        ),
        !open_answers(
            OpenCall::InitVDeviceParams,
            OpenReplyView::VDevice { report: created, vdevice },
        ),
        open_next(OpenCall::InitVDeviceParams, OpenReplyView::VDeviceParams { report: params })
            == if params.status == 0 {
            OpenNext::Continue(OpenCall::CreateVDevice)
        } else {
            OpenNext::Failed(
                HailoErrorView::CallFailed {
                    context: "hailo_init_vdevice_params"@,
                    status: params.status,
                    message: params.message,
                },
            )
        },
        open_next(OpenCall::CreateVDevice, OpenReplyView::VDevice { report: created, vdevice })
            == if created.status == 0 {
            OpenNext::Opened(vdevice)
        } else {
            OpenNext::Failed(
                HailoErrorView::CallFailed {
                    context: "hailo_create_vdevice"@,
                    status: created.status,
                    message: created.message,
                },
            )
        },
{
}

/// What a load takes for an answer: the reply of the kind of its call, with one
/// stream for each that was asked for, and with streams that can be planned for.
pub proof fn what_answers_a_load(state: LoadStateView, reply: LoadReplyView)
    ensures
        state.accepts(reply) <==> match state {
            LoadStateView::Hef => reply is Hef,
            LoadStateView::VStreamInfos { .. } => reply matches LoadReplyView::VStreamInfos {
                report,
                infos,
            } && (report.status == 0 ==> infos.len() <= 40 && stream_plan(infos).output_frame_size
                <= usize::MAX),
            LoadStateView::ConfigureParams { .. } => reply is ConfigureParams,
            LoadStateView::NetworkGroups { .. } => reply is NetworkGroups,
            LoadStateView::SpareGroups { .. } => reply is Released,
            LoadStateView::InputVStreams { plan, .. } => reply matches LoadReplyView::InputVStreams {
                vstreams,
                ..
            } && vstreams.len() == plan.input_params.len(),
            LoadStateView::OutputVStreams { plan, .. } => {
                reply matches LoadReplyView::OutputVStreams { vstreams, .. } && vstreams.len()
                    == plan.output_params.len()
            },
            LoadStateView::Releases { .. } => reply is Released,
        },
{
}

/// A model is loaded exactly if its name is among the names of the models, and
/// what is found under a name is the model that has it.
pub proof fn models_are_found_by_name(backend: BackendView, name: Seq<char>)
    requires
        backend.wf(),
    ensures
        is_loaded(backend.models, name) <==> model_names(backend.models).contains(name),
        forall|i: int|
            0 <= i < backend.models.len() && (#[trigger] backend.models[i]).name == name
                ==> model_of(backend.models, name) == backend.models[i].model,
{
    let names = model_names(backend.models);
    if names.contains(name) {
        let i = choose|i: int| 0 <= i < names.len() && names[i] == name;
        assert(backend.models[i].name == name);
    }
    if is_loaded(backend.models, name) {
        let i = choose|i: int|
            0 <= i < backend.models.len() && (#[trigger] backend.models[i]).name == name;
        assert(names[i] == name);
    }
    assert forall|i: int|
        0 <= i < backend.models.len() && (
        #[trigger] backend.models[i]).name == name implies model_of(backend.models, name)
        == backend.models[i].model by {
        position_is_where_the_name_stands(backend.models, name, i);
    }
}

/// The names of the models come in the order of the models.
pub proof fn names_follow_the_models(models: Seq<ModelEntryView>)
    ensures
        model_names(models).len() == models.len(),
        forall|i: int|
            0 <= i < models.len() ==> #[trigger] model_names(models)[i] == models[i].name,
{
}

/// A backend is well-formed exactly if no two of its models have the same name.
pub proof fn wf_means_distinct_names(backend: BackendView)
    ensures
        backend.wf() <==> forall|i: int, j: int|
            0 <= i < backend.models.len() && 0 <= j < backend.models.len() && i != j ==> (
            #[trigger] backend.models[i]).name != (#[trigger] backend.models[j]).name,
{
    if backend.wf() {
        assert forall|i: int, j: int|
            0 <= i < backend.models.len() && 0 <= j < backend.models.len() && i != j implies (
        #[trigger] backend.models[i]).name != (#[trigger] backend.models[j]).name by {
            if j < i {
                assert(backend.models[j].name != backend.models[i].name);
            }
        }
    }
}

/// Loading under a fresh name puts the model behind the others, and loading
/// under a taken name puts it in the place of the one that had the name. The
/// vdevice stays.
pub proof fn loading_puts_the_model_in_place(
    backend: BackendView,
    name: Seq<char>,
    model: LoadedModelView,
    i: int,
)
    requires
        backend.wf(),
    ensures
        backend.load(name, model).vdevice == backend.vdevice,
        !model_names(backend.models).contains(name) ==> backend.load(name, model).models
            == backend.models.push(ModelEntryView { name, model }),
        0 <= i < backend.models.len() && backend.models[i].name == name ==> backend.load(
            name,
            model,
        ).models == backend.models.update(i, ModelEntryView { name, model }),
{
    models_are_found_by_name(backend, name);
    if 0 <= i < backend.models.len() && backend.models[i].name == name {
        position_is_where_the_name_stands(backend.models, name, i);
    }
    assert(backend.load(name, model).models == with_model(backend.models, name, model));
}

/// Unloading takes the model of the name out and leaves the others in order. The
/// vdevice stays.
pub proof fn unloading_takes_the_model_out(backend: BackendView, name: Seq<char>, i: int)
    requires
        backend.wf(),
        0 <= i < backend.models.len(),
        backend.models[i].name == name,
    ensures
        backend.unload(name).vdevice == backend.vdevice,
        backend.unload(name).models == backend.models.take(i) + backend.models.skip(i + 1),
{
    position_is_where_the_name_stands(backend.models, name, i);
    assert(without_model(backend.models, name) =~= backend.models.take(i) + backend.models.skip(
        i + 1,
    ));
}

/// A model gives back its input streams, then its output streams, each in order,
/// and its network group last.
pub proof fn streams_come_before_their_group(model: LoadedModelView)
    ensures
        ({
            let n = model.input_vstreams.len() as int;
            let m = model.output_vstreams.len() as int;
            let releases = model.releases();
            &&& releases.len() == n + m + 1
            &&& forall|i: int|
                0 <= i < n ==> #[trigger] releases[i] == Resource::InputVStream(
                    model.input_vstreams[i],
                )
            &&& forall|i: int|
                n <= i < n + m ==> #[trigger] releases[i] == Resource::OutputVStream(
                    model.output_vstreams[i - n],
                )
            &&& releases[n + m] == Resource::NetworkGroup(model.network_group)
        }),
{
}

/// Models give back what they hold one after the other: a model that was loaded
/// later comes behind.
pub proof fn later_models_come_behind(models: Seq<ModelEntryView>, entry: ModelEntryView)
    ensures
        all_releases(Seq::empty()) == Seq::<Resource>::empty(),
        all_releases(models.push(entry)) == all_releases(models) + entry.model.releases(),
{
    assert(models.push(entry).drop_last() =~= models);
}

/// Closing gives back what the models hold, in order, and then the vdevice if it
/// has a handle.
pub proof fn closing_ends_with_the_vdevice(backend: BackendView)
    ensures
        backend.vdevice == 0 ==> backend.releases() == all_releases(backend.models),
        backend.vdevice != 0 ==> backend.releases() == all_releases(backend.models) + seq![
            Resource::VDevice(backend.vdevice),
        ],
{
    assert(all_releases(backend.models).push(Resource::VDevice(backend.vdevice))
        =~= all_releases(backend.models) + seq![Resource::VDevice(backend.vdevice)]);
}

/// The values of reports, errors and models are their parts.
pub proof fn reports_errors_and_models_are_their_parts(
    report: StatusReport,
    error: HailoError,
    model: LoadedModel,
)
    ensures
        report@.status == report.status,
        report@.message == report.message@,
        match error {
            HailoError::CallFailed { context, status, message } => error@ == (
            HailoErrorView::CallFailed { context: context@, status, message: message@ }),
            HailoError::NotLoaded { model_name } => error@ == (HailoErrorView::NotLoaded {
                model_name: model_name@,
            }),
            HailoError::NoNetworkGroups { model_name } => error@ == (
            HailoErrorView::NoNetworkGroups { model_name: model_name@ }),
        },
        model@.network_group == model.network_group,
        model@.input_vstreams == model.input_vstreams@,
        model@.output_vstreams == model.output_vstreams@,
        model@.output_frame_size == model.output_frame_size,
{
}

/// The values of what opening gets and gives are their parts.
pub proof fn opening_is_its_parts(reply: OpenReply, step: OpenStep)
    ensures
        match reply {
            OpenReply::VDeviceParams { report } => reply@ == (OpenReplyView::VDeviceParams {
                report: report@,
            }),
            OpenReply::VDevice { report, vdevice } => reply@ == (OpenReplyView::VDevice {
                report: report@,
                vdevice,
            }),
        },
        match step {
            OpenStep::Continue(opening) => step.next() == OpenNext::Continue(opening@),
            OpenStep::Opened(backend) => step.next() == OpenNext::Opened(backend@.vdevice),
            OpenStep::Failed(error) => step.next() == OpenNext::Failed(error@),
        },
{
}

/// The values of the calls, replies and steps of a load are their parts.
pub proof fn load_is_its_parts(
    call: LoadCall<'_>,
    reply: LoadReply,
    step: LoadStep<'_>,
    outcome: LoadOutcome,
)
    ensures
        match call {
            LoadCall::CreateHefBuffer { hef_data } => call@ == (LoadCallView::CreateHefBuffer {
                hef_data: hef_data@,
            }),
            LoadCall::GetVStreamInfos { hef } => call@ == (LoadCallView::GetVStreamInfos { hef }),
            LoadCall::InitConfigureParams { vdevice, hef } => call@ == (
            LoadCallView::InitConfigureParams { vdevice, hef }),
            LoadCall::ConfigureVDevice { vdevice, hef } => call@ == (
            LoadCallView::ConfigureVDevice { vdevice, hef }),
            LoadCall::CreateInputVStreams { group, params } => call@ == (
            LoadCallView::CreateInputVStreams { group, params: params_views(params@) }),
            LoadCall::CreateOutputVStreams { group, params } => call@ == (
            LoadCallView::CreateOutputVStreams { group, params: params_views(params@) }),
            LoadCall::Release(resource) => call@ == LoadCallView::Release(resource),
        },
        match reply {
            LoadReply::Hef { report, hef } => reply@ == (LoadReplyView::Hef {
                report: report@,
                hef,
            }),
            LoadReply::VStreamInfos { report, infos } => reply@ == (LoadReplyView::VStreamInfos {
                report: report@,
                infos: info_views(infos@),
            }),
            LoadReply::ConfigureParams { report } => reply@ == (LoadReplyView::ConfigureParams {
                report: report@,
            }),
            LoadReply::NetworkGroups { report, groups } => reply@ == (
            LoadReplyView::NetworkGroups { report: report@, groups: groups@ }),
            LoadReply::InputVStreams { report, vstreams } => reply@ == (
            LoadReplyView::InputVStreams { report: report@, vstreams: vstreams@ }),
            LoadReply::OutputVStreams { report, vstreams } => reply@ == (
            LoadReplyView::OutputVStreams { report: report@, vstreams: vstreams@ }),
            LoadReply::Released => reply@ is Released,
        },
        match step {
            LoadStep::Continue(loading) => step.next() == LoadNext::Continue(loading@.state),
            LoadStep::Finished(result) => step.next() == LoadNext::Finished(outcome_view(result)),
        },
        match outcome {
            Ok((inputs, outputs)) => outcome_view(outcome) == Ok::<(nat, nat), HailoErrorView>(
                (inputs as nat, outputs as nat),
            ),
            Err(error) => outcome_view(outcome) == Err::<(nat, nat), HailoErrorView>(error@),
        },
{
}

} // verus!
