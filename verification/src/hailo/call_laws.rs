//! Laws of the calls that a load makes: which ones, in which order, with which
//! handles, and what comes of them.

use vstd::prelude::*;

use crate::hailo::laws::position_is_where_the_name_stands;
use crate::hailo::load::LoadCallView;
use crate::hailo::load::LoadNext;
use crate::hailo::load::LoadReplyView;
use crate::hailo::load::LoadStateView;
use crate::hailo::load::LoadingView;
use crate::hailo::load_laws::models_next;
use crate::hailo::load_laws::step_next;
use crate::hailo::models::input_vstreams;
use crate::hailo::models::is_loaded;
use crate::hailo::models::model_under;
use crate::hailo::models::names_distinct;
use crate::hailo::models::releases_of;
use crate::hailo::models::LoadedModelView;
use crate::hailo::models::ModelEntryView;
use crate::hailo::models::Resource;
use crate::hailo::status::HailoErrorView;
use crate::hailo::status::StatusView;
use crate::hailo::vstream::plannable;
use crate::hailo::vstream::stream_plan;
use crate::hailo::vstream::VStreamInfoView;

verus! {

/// What is loaded, under which name, and on which vdevice.
pub struct LoadJob {
    pub vdevice: usize,
    pub hef_data: Seq<u8>,
    pub model_name: Seq<char>,
}

/// A load as it goes: whether every reply answered its call, the calls it made,
/// where it stands, and the models.
pub struct LoadTrace {
    pub accepted: bool,
    pub calls: Seq<LoadCallView>,
    pub end: LoadNext,
    pub models: Seq<ModelEntryView>,
}

/// How a load goes in a state when it gets these replies.
pub open spec fn load_trace(
    job: LoadJob,
    models: Seq<ModelEntryView>,
    state: LoadStateView,
    replies: Seq<LoadReplyView>,
) -> LoadTrace
    decreases replies.len(),
{
    if replies.len() == 0 {
        LoadTrace { accepted: true, calls: Seq::empty(), end: LoadNext::Continue(state), models }
    } else {
        let rest = replies.drop_first();
        let accepted = state.accepts(replies[0]);
        let call = state.call(job.vdevice, job.hef_data);
        let after = models_next(models, job.model_name, state, replies[0]);
        match step_next(models, job.model_name, state, replies[0]) {
            LoadNext::Continue(next) => {
                let later = load_trace(job, after, next, rest);
                LoadTrace {
                    accepted: accepted && later.accepted,
                    calls: seq![call] + later.calls,
                    ..later
                }
            },
            LoadNext::Finished(outcome) => LoadTrace {
                accepted: accepted && rest.len() == 0,
                calls: seq![call],
                end: LoadNext::Finished(outcome),
                models: after,
            },
        }
    }
}

/// One trace behind another.
pub open spec fn joined(first: LoadTrace, second: LoadTrace) -> LoadTrace {
    LoadTrace {
        accepted: first.accepted && second.accepted,
        calls: first.calls + second.calls,
        ..second
    }
}

proof fn lemma_joined(
    job: LoadJob,
    models: Seq<ModelEntryView>,
    state: LoadStateView,
    first: Seq<LoadReplyView>,
    second: Seq<LoadReplyView>,
)
    requires
        load_trace(job, models, state, first).end is Continue,
    ensures
        load_trace(job, models, state, first + second) == joined(
            load_trace(job, models, state, first),
            load_trace(
                job,
                load_trace(job, models, state, first).models,
                load_trace(job, models, state, first).end->Continue_0,
                second,
            ),
        ),
    decreases first.len(),
{
    if first.len() == 0 {
        assert(first + second =~= second);
        let later = load_trace(job, models, state, second);
        assert(Seq::<LoadCallView>::empty() + later.calls =~= later.calls);
    } else {
        assert((first + second).drop_first() =~= first.drop_first() + second);
        let after = models_next(models, job.model_name, state, first[0]);
        match step_next(models, job.model_name, state, first[0]) {
            LoadNext::Continue(next) => {
                lemma_joined(job, after, next, first.drop_first(), second);
                let a = load_trace(job, after, next, first.drop_first());
                let b = load_trace(job, a.models, a.end->Continue_0, second);
                let call = state.call(job.vdevice, job.hef_data);
                assert(seq![call] + (a.calls + b.calls) =~= seq![call] + a.calls + b.calls);
            },
            LoadNext::Finished(_) => {},
        }
    }
}

/// A load gets one reply.
proof fn lemma_one(
    job: LoadJob,
    models: Seq<ModelEntryView>,
    state: LoadStateView,
    reply: LoadReplyView,
)
    ensures
        load_trace(job, models, state, seq![reply]) == (LoadTrace {
            accepted: state.accepts(reply),
            calls: seq![state.call(job.vdevice, job.hef_data)],
            end: step_next(models, job.model_name, state, reply),
            models: models_next(models, job.model_name, state, reply),
        }),
{
    let replies = seq![reply];
    let after = models_next(models, job.model_name, state, reply);
    let call = state.call(job.vdevice, job.hef_data);
    assert(replies.drop_first() =~= Seq::empty());
    assert(seq![call] + Seq::<LoadCallView>::empty() =~= seq![call]);
    match step_next(models, job.model_name, state, reply) {
        LoadNext::Continue(next) => {
            assert(load_trace(job, after, next, replies.drop_first()).calls =~= Seq::empty());
        },
        LoadNext::Finished(_) => {},
    }
}

/// The device has released so many objects.
pub open spec fn released(count: nat) -> Seq<LoadReplyView> {
    Seq::new(count, |i: int| LoadReplyView::Released)
}

/// The calls that release these objects, in order.
pub open spec fn release_calls(objects: Seq<Resource>) -> Seq<LoadCallView> {
    Seq::new(objects.len(), |i: int| LoadCallView::Release(objects[i]))
}

/// The network groups behind the first, as objects to release.
pub open spec fn spare_groups(groups: Seq<usize>) -> Seq<Resource> {
    Seq::new((groups.len() - 1) as nat, |i: int| Resource::NetworkGroup(groups[i + 1]))
}

proof fn lemma_spares(
    job: LoadJob,
    models: Seq<ModelEntryView>,
    state: LoadStateView,
)
    requires
        state is SpareGroups,
        state->spares.len() > 0,
    ensures
        ({
            let spares = state->spares;
            let trace = load_trace(job, models, state, released(spares.len()));
            &&& trace.accepted
            &&& trace.calls == Seq::new(
                spares.len(),
                |i: int| LoadCallView::Release(Resource::NetworkGroup(spares[i])),
            )
            &&& trace.end == LoadNext::Continue(
                LoadStateView::InputVStreams {
                    hef: state->SpareGroups_hef,
                    plan: state->SpareGroups_plan,
                    group: state->SpareGroups_group,
                },
            )
            &&& trace.models == models
        }),
    decreases state->spares.len(),
{
    let spares = state->spares;
    let replies = released(spares.len());
    let trace = load_trace(job, models, state, replies);
    let goal = Seq::new(
        spares.len(),
        |i: int| LoadCallView::Release(Resource::NetworkGroup(spares[i])),
    );
    assert(replies.drop_first() =~= released((spares.len() - 1) as nat));
    match step_next(models, job.model_name, state, replies[0]) {
        LoadNext::Continue(next) => {
            if spares.len() > 1 {
                lemma_spares(job, models, next);
                assert(trace.calls =~= goal);
            } else {
                assert(trace.calls =~= goal);
            }
        },
        LoadNext::Finished(_) => {},
    }
}

proof fn lemma_releases(job: LoadJob, models: Seq<ModelEntryView>, state: LoadStateView)
    requires
        state is Releases,
        state->pending.len() > 0,
    ensures
        ({
            let pending = state->pending;
            let trace = load_trace(job, models, state, released(pending.len()));
            &&& trace.accepted
            &&& trace.calls == release_calls(pending)
            &&& trace.end == LoadNext::Finished(state->outcome)
            &&& trace.models == models
        }),
    decreases state->pending.len(),
{
    let pending = state->pending;
    let replies = released(pending.len());
    let trace = load_trace(job, models, state, replies);
    assert(replies.drop_first() =~= released((pending.len() - 1) as nat));
    match step_next(models, job.model_name, state, replies[0]) {
        LoadNext::Continue(next) => {
            lemma_releases(job, models, next);
            assert(trace.calls =~= release_calls(pending));
        },
        LoadNext::Finished(_) => {
            assert(trace.calls =~= release_calls(pending));
        },
    }
}

/// The device parsed the model file.
pub open spec fn parsed(ok: StatusView, hef: usize) -> Seq<LoadReplyView> {
    seq![LoadReplyView::Hef { report: ok, hef }]
}

/// The device listed the streams of the model file.
pub open spec fn listed(
    ok: StatusView,
    hef: usize,
    infos: Seq<VStreamInfoView>,
) -> Seq<LoadReplyView> {
    parsed(ok, hef) + seq![LoadReplyView::VStreamInfos { report: ok, infos }]
}

/// The device initialised the configuration.
pub open spec fn initialised(
    ok: StatusView,
    hef: usize,
    infos: Seq<VStreamInfoView>,
) -> Seq<LoadReplyView> {
    listed(ok, hef, infos) + seq![LoadReplyView::ConfigureParams { report: ok }]
}

/// The device configured these network groups, and released all but the first.
pub open spec fn configured(
    ok: StatusView,
    hef: usize,
    infos: Seq<VStreamInfoView>,
    groups: Seq<usize>,
) -> Seq<LoadReplyView> {
    initialised(ok, hef, infos) + (seq![LoadReplyView::NetworkGroups { report: ok, groups }]
        + released((groups.len() - 1) as nat))
}

/// The device created the input streams.
pub open spec fn with_inputs(
    ok: StatusView,
    hef: usize,
    infos: Seq<VStreamInfoView>,
    groups: Seq<usize>,
    inputs: Seq<usize>,
) -> Seq<LoadReplyView> {
    configured(ok, hef, infos, groups) + seq![
        LoadReplyView::InputVStreams { report: ok, vstreams: inputs },
    ]
}

/// The calls up to the configuration of the vdevice: the model file is parsed,
/// its streams are listed, and the configuration is initialised for both.
pub open spec fn calls_to_configure(job: LoadJob, hef: usize) -> Seq<LoadCallView> {
    seq![
        LoadCallView::CreateHefBuffer { hef_data: job.hef_data },
        LoadCallView::GetVStreamInfos { hef },
        LoadCallView::InitConfigureParams { vdevice: job.vdevice, hef },
        LoadCallView::ConfigureVDevice { vdevice: job.vdevice, hef },
    ]
}

proof fn lemma_parsed(job: LoadJob, models: Seq<ModelEntryView>, ok: StatusView, hef: usize)
    requires
        ok.status == 0,
    ensures
        load_trace(job, models, LoadStateView::Hef, parsed(ok, hef)) == (LoadTrace {
            accepted: true,
            calls: seq![LoadCallView::CreateHefBuffer { hef_data: job.hef_data }],
            end: LoadNext::Continue(LoadStateView::VStreamInfos { hef }),
            models,
        }),
{
    lemma_one(job, models, LoadStateView::Hef, LoadReplyView::Hef { report: ok, hef });
}

proof fn lemma_listed(
    job: LoadJob,
    models: Seq<ModelEntryView>,
    ok: StatusView,
    hef: usize,
    infos: Seq<VStreamInfoView>,
)
    requires
        ok.status == 0,
        plannable(infos),
    ensures
        load_trace(job, models, LoadStateView::Hef, listed(ok, hef, infos)) == (LoadTrace {
            accepted: true,
            calls: calls_to_configure(job, hef).take(2),
            end: LoadNext::Continue(
                LoadStateView::ConfigureParams { hef, plan: stream_plan(infos) },
            ),
            models,
        }),
{
    let reply = LoadReplyView::VStreamInfos { report: ok, infos };
    let state = LoadStateView::VStreamInfos { hef };
    lemma_parsed(job, models, ok, hef);
    lemma_one(job, models, state, reply);
    lemma_joined(job, models, LoadStateView::Hef, parsed(ok, hef), seq![reply]);
    assert(load_trace(job, models, LoadStateView::Hef, listed(ok, hef, infos)).calls
        =~= calls_to_configure(job, hef).take(2));
}

proof fn lemma_initialised(
    job: LoadJob,
    models: Seq<ModelEntryView>,
    ok: StatusView,
    hef: usize,
    infos: Seq<VStreamInfoView>,
)
    requires
        ok.status == 0,
        plannable(infos),
    ensures
        load_trace(job, models, LoadStateView::Hef, initialised(ok, hef, infos)) == (LoadTrace {
            accepted: true,
            calls: calls_to_configure(job, hef).take(3),
            end: LoadNext::Continue(
                LoadStateView::NetworkGroups { hef, plan: stream_plan(infos) },
            ),
            models,
        }),
{
    let reply = LoadReplyView::ConfigureParams { report: ok };
    let state = LoadStateView::ConfigureParams { hef, plan: stream_plan(infos) };
    lemma_listed(job, models, ok, hef, infos);
    lemma_one(job, models, state, reply);
    lemma_joined(job, models, LoadStateView::Hef, listed(ok, hef, infos), seq![reply]);
    assert(load_trace(job, models, LoadStateView::Hef, initialised(ok, hef, infos)).calls
        =~= calls_to_configure(job, hef).take(3));
}

proof fn lemma_configured(
    job: LoadJob,
    models: Seq<ModelEntryView>,
    ok: StatusView,
    hef: usize,
    infos: Seq<VStreamInfoView>,
    groups: Seq<usize>,
)
    requires
        ok.status == 0,
        plannable(infos),
        groups.len() > 0,
    ensures
        load_trace(job, models, LoadStateView::Hef, configured(ok, hef, infos, groups)) == (
        LoadTrace {
            accepted: true,
            calls: calls_to_configure(job, hef) + release_calls(spare_groups(groups)),
            end: LoadNext::Continue(
                LoadStateView::InputVStreams { hef, plan: stream_plan(infos), group: groups[0] },
            ),
            models,
        }),
{
    let reply = LoadReplyView::NetworkGroups { report: ok, groups };
    let plan = stream_plan(infos);
    let state = LoadStateView::NetworkGroups { hef, plan };
    let spares = released((groups.len() - 1) as nat);
    lemma_initialised(job, models, ok, hef, infos);
    lemma_one(job, models, state, reply);
    lemma_joined(job, models, state, seq![reply], spares);
    lemma_joined(
        job,
        models,
        LoadStateView::Hef,
        initialised(ok, hef, infos),
        seq![reply] + spares,
    );
    if groups.len() > 1 {
        lemma_spares(
            job,
            models,
            LoadStateView::SpareGroups {
                hef,
                plan,
                group: groups[0],
                spares: groups.drop_first(),
            },
        );
    } else {
        assert(spares =~= Seq::empty());
    }
    assert(load_trace(
        job,
        models,
        LoadStateView::Hef,
        configured(ok, hef, infos, groups),
    ).calls =~= calls_to_configure(job, hef) + release_calls(spare_groups(groups)));
}

proof fn lemma_with_inputs(
    job: LoadJob,
    models: Seq<ModelEntryView>,
    ok: StatusView,
    hef: usize,
    infos: Seq<VStreamInfoView>,
    groups: Seq<usize>,
    inputs: Seq<usize>,
)
    requires
        ok.status == 0,
        plannable(infos),
        groups.len() > 0,
        inputs.len() == stream_plan(infos).input_params.len(),
    ensures
        load_trace(job, models, LoadStateView::Hef, with_inputs(ok, hef, infos, groups, inputs))
            == (LoadTrace {
            accepted: true,
            calls: calls_to_configure(job, hef) + release_calls(spare_groups(groups)) + seq![
                LoadCallView::CreateInputVStreams {
                    group: groups[0],
                    params: stream_plan(infos).input_params,
                },
            ],
            end: LoadNext::Continue(
                LoadStateView::OutputVStreams {
                    hef,
                    plan: stream_plan(infos),
                    group: groups[0],
                    inputs,
                },
            ),
            models,
        }),
{
    let reply = LoadReplyView::InputVStreams { report: ok, vstreams: inputs };
    let plan = stream_plan(infos);
    let state = LoadStateView::InputVStreams { hef, plan, group: groups[0] };
    lemma_configured(job, models, ok, hef, infos, groups);
    lemma_one(job, models, state, reply);
    lemma_joined(
        job,
        models,
        LoadStateView::Hef,
        configured(ok, hef, infos, groups),
        seq![reply],
    );
}

proof fn lemma_ending(
    job: LoadJob,
    models: Seq<ModelEntryView>,
    before: Seq<LoadReplyView>,
    reply: LoadReplyView,
    count: nat,
)
    requires
        ({
            let first = load_trace(job, models, LoadStateView::Hef, before);
            &&& first.end is Continue
            &&& step_next(
                first.models,
                job.model_name,
                first.end->Continue_0,
                reply,
            ) matches LoadNext::Continue(next) && next is Releases && next->pending.len() == count
                && count > 0
        }),
    ensures
        ({
            let first = load_trace(job, models, LoadStateView::Hef, before);
            let state = first.end->Continue_0;
            let next = step_next(first.models, job.model_name, state, reply)->Continue_0;
            load_trace(
                job,
                models,
                LoadStateView::Hef,
                before + (seq![reply] + released(count)),
            ) == (LoadTrace {
                accepted: first.accepted && state.accepts(reply),
                calls: first.calls + (seq![state.call(job.vdevice, job.hef_data)] + release_calls(
                    next->pending,
                )),
                end: LoadNext::Finished(next->outcome),
                models: models_next(first.models, job.model_name, state, reply),
            })
        }),
{
    let first = load_trace(job, models, LoadStateView::Hef, before);
    let state = first.end->Continue_0;
    let next = step_next(first.models, job.model_name, state, reply)->Continue_0;
    let after = models_next(first.models, job.model_name, state, reply);
    lemma_one(job, first.models, state, reply);
    lemma_joined(job, first.models, state, seq![reply], released(count));
    lemma_joined(job, models, LoadStateView::Hef, before, seq![reply] + released(count));
    lemma_releases(job, after, next);
}

/// A call of the device that failed with a status, and its message.
pub open spec fn call_failed(context: Seq<char>, bad: StatusView) -> LoadNext {
    LoadNext::Finished(
        Err(
            HailoErrorView::CallFailed { context, status: bad.status, message: bad.message },
        ),
    )
}

/// A model file that cannot be parsed ends the load at once.
pub proof fn load_ends_if_parsing_fails(
    job: LoadJob,
    models: Seq<ModelEntryView>,
    bad: StatusView,
    hef: usize,
)
    requires
        bad.status != 0,
    ensures
        load_trace(
            job,
            models,
            LoadStateView::Hef,
            seq![LoadReplyView::Hef { report: bad, hef }],
        ) == (LoadTrace {
            accepted: true,
            calls: calls_to_configure(job, hef).take(1),
            end: call_failed("hailo_create_hef_buffer"@, bad),
            models,
        }),
{
    lemma_one(job, models, LoadStateView::Hef, LoadReplyView::Hef { report: bad, hef });
    assert(calls_to_configure(job, hef).take(1) =~= seq![
        LoadCallView::CreateHefBuffer { hef_data: job.hef_data },
    ]);
}

/// If the streams cannot be listed, the model file is released.
pub proof fn load_ends_if_listing_fails(
    job: LoadJob,
    models: Seq<ModelEntryView>,
    ok: StatusView,
    bad: StatusView,
    hef: usize,
    infos: Seq<VStreamInfoView>,
)
    requires
        ok.status == 0,
        bad.status != 0,
    ensures
        load_trace(
            job,
            models,
            LoadStateView::Hef,
            parsed(ok, hef) + (seq![LoadReplyView::VStreamInfos { report: bad, infos }] + released(
                1,
            )),
        ) == (LoadTrace {
            accepted: true,
            calls: calls_to_configure(job, hef).take(2) + seq![
                LoadCallView::Release(Resource::Hef(hef)),
            ],
            end: call_failed("hailo_hef_get_vstream_infos"@, bad),
            models,
        }),
{
    let reply = LoadReplyView::VStreamInfos { report: bad, infos };
    lemma_parsed(job, models, ok, hef);
    lemma_ending(job, models, parsed(ok, hef), reply, 1);
    assert(load_trace(
        job,
        models,
        LoadStateView::Hef,
        parsed(ok, hef) + (seq![reply] + released(1)),
    ).calls =~= calls_to_configure(job, hef).take(2) + seq![
        LoadCallView::Release(Resource::Hef(hef)),
    ]);
}

/// If the configuration cannot be initialised, the model file is released.
pub proof fn load_ends_if_initialising_fails(
    job: LoadJob,
    models: Seq<ModelEntryView>,
    ok: StatusView,
    bad: StatusView,
    hef: usize,
    infos: Seq<VStreamInfoView>,
)
    requires
        ok.status == 0,
        bad.status != 0,
        plannable(infos),
    ensures
        load_trace(
            job,
            models,
            LoadStateView::Hef,
            listed(ok, hef, infos) + (seq![LoadReplyView::ConfigureParams { report: bad }]
                + released(1)),
        ) == (LoadTrace {
            accepted: true,
            calls: calls_to_configure(job, hef).take(3) + seq![
                LoadCallView::Release(Resource::Hef(hef)),
            ],
            end: call_failed("hailo_init_configure_params_by_vdevice"@, bad),
            models,
        }),
{
    let reply = LoadReplyView::ConfigureParams { report: bad };
    lemma_listed(job, models, ok, hef, infos);
    lemma_ending(job, models, listed(ok, hef, infos), reply, 1);
    assert(load_trace(
        job,
        models,
        LoadStateView::Hef,
        listed(ok, hef, infos) + (seq![reply] + released(1)),
    ).calls =~= calls_to_configure(job, hef).take(3) + seq![
        LoadCallView::Release(Resource::Hef(hef)),
    ]);
}

/// If the vdevice cannot be configured, or no network group comes of it, the
/// model file is released.
pub proof fn load_ends_without_a_network_group(
    job: LoadJob,
    models: Seq<ModelEntryView>,
    ok: StatusView,
    report: StatusView,
    hef: usize,
    infos: Seq<VStreamInfoView>,
    groups: Seq<usize>,
)
    requires
        ok.status == 0,
        plannable(infos),
        report.status != 0 || groups.len() == 0,
    ensures
        load_trace(
            job,
            models,
            LoadStateView::Hef,
            initialised(ok, hef, infos) + (seq![LoadReplyView::NetworkGroups { report, groups }]
                + released(1)),
        ) == (LoadTrace {
            accepted: true,
            calls: calls_to_configure(job, hef) + seq![LoadCallView::Release(Resource::Hef(hef))],
            end: if report.status != 0 {
                call_failed("hailo_configure_vdevice"@, report)
            } else {
                LoadNext::Finished(
                    Err(HailoErrorView::NoNetworkGroups { model_name: job.model_name }),
                )
            },
            models,
        }),
{
    let reply = LoadReplyView::NetworkGroups { report, groups };
    lemma_initialised(job, models, ok, hef, infos);
    lemma_ending(job, models, initialised(ok, hef, infos), reply, 1);
    assert(load_trace(
        job,
        models,
        LoadStateView::Hef,
        initialised(ok, hef, infos) + (seq![reply] + released(1)),
    ).calls =~= calls_to_configure(job, hef) + seq![LoadCallView::Release(Resource::Hef(hef))]);
}

/// If the input streams cannot be created, the network group is released and
/// then the model file.
pub proof fn load_ends_if_inputs_fail(
    job: LoadJob,
    models: Seq<ModelEntryView>,
    ok: StatusView,
    bad: StatusView,
    hef: usize,
    infos: Seq<VStreamInfoView>,
    groups: Seq<usize>,
    inputs: Seq<usize>,
)
    requires
        ok.status == 0,
        bad.status != 0,
        plannable(infos),
        groups.len() > 0,
        inputs.len() == stream_plan(infos).input_params.len(),
    ensures
        load_trace(
            job,
            models,
            LoadStateView::Hef,
            configured(ok, hef, infos, groups) + (seq![
                LoadReplyView::InputVStreams { report: bad, vstreams: inputs },
            ] + released(2)),
        ) == (LoadTrace {
            accepted: true,
            calls: calls_to_configure(job, hef) + release_calls(spare_groups(groups)) + seq![
                LoadCallView::CreateInputVStreams {
                    group: groups[0],
                    params: stream_plan(infos).input_params,
                },
                LoadCallView::Release(Resource::NetworkGroup(groups[0])),
                LoadCallView::Release(Resource::Hef(hef)),
            ],
            end: call_failed("hailo_create_input_vstreams"@, bad),
            models,
        }),
{
    let reply = LoadReplyView::InputVStreams { report: bad, vstreams: inputs };
    lemma_configured(job, models, ok, hef, infos, groups);
    lemma_ending(job, models, configured(ok, hef, infos, groups), reply, 2);
    assert(load_trace(
        job,
        models,
        LoadStateView::Hef,
        configured(ok, hef, infos, groups) + (seq![reply] + released(2)),
    ).calls =~= calls_to_configure(job, hef) + release_calls(spare_groups(groups)) + seq![
        LoadCallView::CreateInputVStreams {
            group: groups[0],
            params: stream_plan(infos).input_params,
        },
        LoadCallView::Release(Resource::NetworkGroup(groups[0])),
        LoadCallView::Release(Resource::Hef(hef)),
    ]);
}

/// If the output streams cannot be created, the input streams are released in
/// order, then the network group, then the model file.
pub proof fn load_ends_if_outputs_fail(
    job: LoadJob,
    models: Seq<ModelEntryView>,
    ok: StatusView,
    bad: StatusView,
    hef: usize,
    infos: Seq<VStreamInfoView>,
    groups: Seq<usize>,
    inputs: Seq<usize>,
    outputs: Seq<usize>,
)
    requires
        ok.status == 0,
        bad.status != 0,
        plannable(infos),
        groups.len() > 0,
        inputs.len() == stream_plan(infos).input_params.len(),
        outputs.len() == stream_plan(infos).output_params.len(),
    ensures
        load_trace(
            job,
            models,
            LoadStateView::Hef,
            with_inputs(ok, hef, infos, groups, inputs) + (seq![
                LoadReplyView::OutputVStreams { report: bad, vstreams: outputs },
            ] + released(inputs.len() + 2)),
        ) == (LoadTrace {
            accepted: true,
            calls: calls_to_configure(job, hef) + release_calls(spare_groups(groups)) + seq![
                LoadCallView::CreateInputVStreams {
                    group: groups[0],
                    params: stream_plan(infos).input_params,
                },
                LoadCallView::CreateOutputVStreams {
                    group: groups[0],
                    params: stream_plan(infos).output_params,
                },
            ] + Seq::new(
                inputs.len(),
                |i: int| LoadCallView::Release(Resource::InputVStream(inputs[i])),
            ) + seq![
                LoadCallView::Release(Resource::NetworkGroup(groups[0])),
                LoadCallView::Release(Resource::Hef(hef)),
            ],
            end: call_failed("hailo_create_output_vstreams"@, bad),
            models,
        }),
{
    let reply = LoadReplyView::OutputVStreams { report: bad, vstreams: outputs };
    let before = with_inputs(ok, hef, infos, groups, inputs);
    let plan = stream_plan(infos);
    lemma_with_inputs(job, models, ok, hef, infos, groups, inputs);
    let pending = input_vstreams(inputs) + seq![
        Resource::NetworkGroup(groups[0]),
        Resource::Hef(hef),
    ];
    lemma_ending(job, models, before, reply, inputs.len() + 2);
    let base = calls_to_configure(job, hef) + release_calls(spare_groups(groups));
    let create_in = LoadCallView::CreateInputVStreams {
        group: groups[0],
        params: plan.input_params,
    };
    let create_out = LoadCallView::CreateOutputVStreams {
        group: groups[0],
        params: plan.output_params,
    };
    let streams = Seq::new(
        inputs.len(),
        |i: int| LoadCallView::Release(Resource::InputVStream(inputs[i])),
    );
    let tail = seq![
        LoadCallView::Release(Resource::NetworkGroup(groups[0])),
        LoadCallView::Release(Resource::Hef(hef)),
    ];
    assert(release_calls(pending) =~= streams + tail);
    assert((base + seq![create_in]) + (seq![create_out] + release_calls(pending)) =~= base + seq![
        create_in,
        create_out,
    ] + streams + tail);
}

/// The calls that release a model: its input streams, its output streams, and
/// then its network group.
pub open spec fn model_release_calls(model: LoadedModelView) -> Seq<LoadCallView> {
    Seq::new(
        model.input_vstreams.len(),
        |i: int| LoadCallView::Release(Resource::InputVStream(model.input_vstreams[i])),
    ) + Seq::new(
        model.output_vstreams.len(),
        |i: int| LoadCallView::Release(Resource::OutputVStream(model.output_vstreams[i])),
    ) + seq![LoadCallView::Release(Resource::NetworkGroup(model.network_group))]
}

/// The calls of a load up to the creation of the streams of the first network
/// group.
pub open spec fn calls_to_create(
    job: LoadJob,
    hef: usize,
    infos: Seq<VStreamInfoView>,
    groups: Seq<usize>,
) -> Seq<LoadCallView> {
    calls_to_configure(job, hef) + release_calls(spare_groups(groups)) + seq![
        LoadCallView::CreateInputVStreams {
            group: groups[0],
            params: stream_plan(infos).input_params,
        },
        LoadCallView::CreateOutputVStreams {
            group: groups[0],
            params: stream_plan(infos).output_params,
        },
    ]
}

proof fn lemma_created(
    job: LoadJob,
    models: Seq<ModelEntryView>,
    ok: StatusView,
    hef: usize,
    infos: Seq<VStreamInfoView>,
    groups: Seq<usize>,
    inputs: Seq<usize>,
    outputs: Seq<usize>,
)
    requires
        ok.status == 0,
        plannable(infos),
        groups.len() > 0,
        inputs.len() == stream_plan(infos).input_params.len(),
        outputs.len() == stream_plan(infos).output_params.len(),
    ensures
        ({
            let before = with_inputs(ok, hef, infos, groups, inputs);
            let reply = LoadReplyView::OutputVStreams { report: ok, vstreams: outputs };
            let old_objects = releases_of(model_under(models, job.model_name));
            let trace = load_trace(
                job,
                models,
                LoadStateView::Hef,
                before + (seq![reply] + released(old_objects.len() + 1)),
            );
            &&& trace.accepted
            &&& trace.calls == calls_to_create(job, hef, infos, groups) + release_calls(old_objects)
                + seq![LoadCallView::Release(Resource::Hef(hef))]
            &&& trace.end == LoadNext::Finished(
                Ok((stream_plan(infos).input_count, stream_plan(infos).output_count)),
            )
            &&& trace.models == models_next(
                models,
                job.model_name,
                LoadStateView::OutputVStreams {
                    hef,
                    plan: stream_plan(infos),
                    group: groups[0],
                    inputs,
                },
                reply,
            )
        }),
{
    let before = with_inputs(ok, hef, infos, groups, inputs);
    let reply = LoadReplyView::OutputVStreams { report: ok, vstreams: outputs };
    let old_objects = releases_of(model_under(models, job.model_name));
    let plan = stream_plan(infos);
    lemma_with_inputs(job, models, ok, hef, infos, groups, inputs);
    lemma_ending(job, models, before, reply, old_objects.len() + 1);
    let base = calls_to_configure(job, hef) + release_calls(spare_groups(groups));
    let create_in = LoadCallView::CreateInputVStreams {
        group: groups[0],
        params: plan.input_params,
    };
    let create_out = LoadCallView::CreateOutputVStreams {
        group: groups[0],
        params: plan.output_params,
    };
    let last = seq![LoadCallView::Release(Resource::Hef(hef))];
    let pending = old_objects + seq![Resource::Hef(hef)];
    assert(release_calls(pending) =~= release_calls(old_objects) + last);
    assert((base + seq![create_in]) + (seq![create_out] + release_calls(pending)) =~= base + seq![
        create_in,
        create_out,
    ] + release_calls(old_objects) + last);
}

/// A load under a fresh name whose calls succeed: the first network group is
/// used and the others are released, the streams of the model file are created
/// on it, and the model file is released. The model is stored behind the others,
/// with these handles, and the numbers of its streams are the outcome.
pub proof fn fresh_load_succeeds(
    job: LoadJob,
    models: Seq<ModelEntryView>,
    ok: StatusView,
    hef: usize,
    infos: Seq<VStreamInfoView>,
    groups: Seq<usize>,
    inputs: Seq<usize>,
    outputs: Seq<usize>,
)
    requires
        ok.status == 0,
        plannable(infos),
        groups.len() > 0,
        inputs.len() == stream_plan(infos).input_params.len(),
        outputs.len() == stream_plan(infos).output_params.len(),
        forall|i: int|
            0 <= i < models.len() ==> (#[trigger] models[i]).name != job.model_name,
    ensures
        load_trace(
            job,
            models,
            LoadStateView::Hef,
            with_inputs(ok, hef, infos, groups, inputs) + (seq![
                LoadReplyView::OutputVStreams { report: ok, vstreams: outputs },
            ] + released(1)),
        ) == (LoadTrace {
            accepted: true,
            calls: calls_to_create(job, hef, infos, groups) + seq![
                LoadCallView::Release(Resource::Hef(hef)),
            ],
            end: LoadNext::Finished(Ok((inputs.len(), outputs.len()))),
            models: models.push(
                ModelEntryView {
                    name: job.model_name,
                    model: LoadedModelView {
                        network_group: groups[0],
                        input_vstreams: inputs,
                        output_vstreams: outputs,
                        output_frame_size: stream_plan(infos).output_frame_size,
                    },
                },
            ),
        }),
{
    assert(!is_loaded(models, job.model_name));
    lemma_created(job, models, ok, hef, infos, groups, inputs, outputs);
    let calls = calls_to_create(job, hef, infos, groups);
    assert(calls + release_calls(Seq::empty()) =~= calls);
    assert(released(0 + 1) =~= released(1));
}

/// A load under a taken name whose calls succeed: the same, but the model that
/// had the name is released before the model file, its streams and then its
/// network group, and the new model takes its place.
pub proof fn repeated_load_succeeds(
    job: LoadJob,
    models: Seq<ModelEntryView>,
    taken: int,
    ok: StatusView,
    hef: usize,
    infos: Seq<VStreamInfoView>,
    groups: Seq<usize>,
    inputs: Seq<usize>,
    outputs: Seq<usize>,
)
    requires
        ok.status == 0,
        plannable(infos),
        groups.len() > 0,
        inputs.len() == stream_plan(infos).input_params.len(),
        outputs.len() == stream_plan(infos).output_params.len(),
        names_distinct(models),
        0 <= taken < models.len(),
        models[taken].name == job.model_name,
    ensures
        load_trace(
            job,
            models,
            LoadStateView::Hef,
            with_inputs(ok, hef, infos, groups, inputs) + (seq![
                LoadReplyView::OutputVStreams { report: ok, vstreams: outputs },
            ] + released(model_release_calls(models[taken].model).len() + 1)),
        ) == (LoadTrace {
            accepted: true,
            calls: calls_to_create(job, hef, infos, groups) + model_release_calls(
                models[taken].model,
            ) + seq![LoadCallView::Release(Resource::Hef(hef))],
            end: LoadNext::Finished(Ok((inputs.len(), outputs.len()))),
            models: models.update(
                taken,
                ModelEntryView {
                    name: job.model_name,
                    model: LoadedModelView {
                        network_group: groups[0],
                        input_vstreams: inputs,
                        output_vstreams: outputs,
                        output_frame_size: stream_plan(infos).output_frame_size,
                    },
                },
            ),
        }),
{
    position_is_where_the_name_stands(models, job.model_name, taken);
    lemma_created(job, models, ok, hef, infos, groups, inputs, outputs);
    let old_model = models[taken].model;
    assert(release_calls(old_model.releases()) =~= model_release_calls(old_model));
}

/// A load makes the call of its state, on its own vdevice and with the whole of
/// its model file.
pub proof fn a_load_makes_the_call_of_its_state(loading: LoadingView)
    ensures
        loading.call() == loading.state.call(loading.vdevice, loading.hef_data),
{
}

} // verus!
