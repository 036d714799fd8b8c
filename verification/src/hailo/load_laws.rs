//! Laws of loading: whatever the device replies, nothing that a load acquired
//! or replaced is lost, and nothing is given back twice.

use vstd::multiset::Multiset;
use vstd::prelude::*;
use vstd::seq_lib::lemma_multiset_commutative;

use crate::hailo::laws::load_adds_what_the_model_holds;
use crate::hailo::laws::load_exchanges_what_the_models_hold;
use crate::hailo::load::load_next;
use crate::hailo::load::load_stores;
use crate::hailo::load::LoadCallView;
use crate::hailo::load::LoadNext;
use crate::hailo::load::LoadReplyView;
use crate::hailo::load::LoadStateView;
use crate::hailo::models::input_vstreams;
use crate::hailo::models::is_loaded;
use crate::hailo::models::model_under;
use crate::hailo::models::models_held;
use crate::hailo::models::network_groups;
use crate::hailo::models::output_vstreams;
use crate::hailo::models::releases_of;
use crate::hailo::models::with_model;
use crate::hailo::models::LoadedModelView;
use crate::hailo::models::ModelEntryView;
use crate::hailo::models::Resource;
use crate::hailo::vstream::StreamPlanView;

verus! {

/// What a load in this state has acquired and not yet given back.
pub open spec fn held(state: LoadStateView) -> Seq<Resource> {
    match state {
        LoadStateView::Hef => Seq::empty(),
        LoadStateView::VStreamInfos { hef } => seq![Resource::Hef(hef)],
        LoadStateView::ConfigureParams { hef, .. } => seq![Resource::Hef(hef)],
        LoadStateView::NetworkGroups { hef, .. } => seq![Resource::Hef(hef)],
        LoadStateView::SpareGroups { hef, group, spares, .. } => network_groups(spares) + seq![
            Resource::NetworkGroup(group),
            Resource::Hef(hef),
        ],
        LoadStateView::InputVStreams { hef, group, .. } => seq![
            Resource::NetworkGroup(group),
            Resource::Hef(hef),
        ],
        LoadStateView::OutputVStreams { hef, group, inputs, .. } => input_vstreams(inputs) + seq![
            Resource::NetworkGroup(group),
            Resource::Hef(hef),
        ],
        LoadStateView::Releases { pending, .. } => pending,
    }
}

/// What is still to be given back after a step of a load.
pub open spec fn held_next(next: LoadNext) -> Seq<Resource> {
    match next {
        LoadNext::Continue(state) => held(state),
        LoadNext::Finished(_) => Seq::empty(),
    }
}

/// What a reply hands to the load: the handles of a call that succeeded.
pub open spec fn gained(reply: LoadReplyView) -> Seq<Resource> {
    match reply {
        LoadReplyView::Hef { report, hef } if report.ok() => seq![Resource::Hef(hef)],
        LoadReplyView::NetworkGroups { report, groups } if report.ok() => network_groups(groups),
        LoadReplyView::InputVStreams { report, vstreams } if report.ok() => input_vstreams(
            vstreams,
        ),
        LoadReplyView::OutputVStreams { report, vstreams } if report.ok() => output_vstreams(
            vstreams,
        ),
        _ => Seq::empty(),
    }
}

/// What the call of a state gives back to the device.
pub open spec fn freed(state: LoadStateView) -> Seq<Resource> {
    match state {
        LoadStateView::SpareGroups { spares, .. } => seq![Resource::NetworkGroup(spares[0])],
        LoadStateView::Releases { pending, .. } => seq![pending[0]],
        _ => Seq::empty(),
    }
}

/// Something is given back to the device exactly by the calls that release it.
pub proof fn release_calls_give_back(state: LoadStateView, vdevice: usize, hef_data: Seq<u8>)
    ensures
        freed(state) == match state.call(vdevice, hef_data) {
            LoadCallView::Release(resource) => seq![resource],
            _ => Seq::empty(),
        },
{
}

/// The models after a step of a load under a name.
pub open spec fn models_next(
    models: Seq<ModelEntryView>,
    model_name: Seq<char>,
    state: LoadStateView,
    reply: LoadReplyView,
) -> Seq<ModelEntryView> {
    match load_stores(state, reply) {
        Some(model) => with_model(models, model_name, model),
        None => models,
    }
}

/// What follows a step of a load under a name, with these models loaded.
pub open spec fn step_next(
    models: Seq<ModelEntryView>,
    model_name: Seq<char>,
    state: LoadStateView,
    reply: LoadReplyView,
) -> LoadNext {
    load_next(model_name, state, reply, model_under(models, model_name))
}

/// A sequence as a multiset is its first item and the rest.
proof fn lemma_first(s: Seq<Resource>)
    requires
        s.len() > 0,
    ensures
        s.to_multiset() =~= seq![s[0]].to_multiset().add(s.drop_first().to_multiset()),
{
    lemma_multiset_commutative(seq![s[0]], s.drop_first());
    assert(seq![s[0]] + s.drop_first() =~= s);
}

/// Storing a model under a name puts what it holds in place of what the model
/// that it replaces holds, if there is one.
proof fn lemma_store(models: Seq<ModelEntryView>, name: Seq<char>, model: LoadedModelView)
    ensures
        models_held(with_model(models, name, model)).add(
            releases_of(model_under(models, name)).to_multiset(),
        ) =~= models_held(models).add(model.held()),
{
    if is_loaded(models, name) {
        load_exchanges_what_the_models_hold(models, name, model);
    } else {
        load_adds_what_the_model_holds(models, name, model);
        Seq::<Resource>::empty().to_multiset_ensures();
        assert(Seq::<Resource>::empty().to_multiset() =~= Multiset::empty());
    }
}

/// In each step of a load, what the loaded models and the load held and what the
/// reply hands to the load is what the models and the load hold now and what was
/// given back.
pub proof fn load_step_balances(
    models: Seq<ModelEntryView>,
    model_name: Seq<char>,
    state: LoadStateView,
    reply: LoadReplyView,
)
    requires
        state.wf(),
        state.accepts(reply),
    ensures
        models_held(models).add(held(state).to_multiset()).add(gained(reply).to_multiset())
            == models_held(models_next(models, model_name, state, reply)).add(
            held_next(step_next(models, model_name, state, reply)).to_multiset(),
        ).add(freed(state).to_multiset()),
{
    let next = step_next(models, model_name, state, reply);
    let nothing = Seq::<Resource>::empty();
    assert(nothing.to_multiset() =~= Multiset::empty()) by {
        nothing.to_multiset_ensures();
    }
    match (state, reply) {
        (
            LoadStateView::NetworkGroups { hef, plan },
            LoadReplyView::NetworkGroups { report, groups },
        ) => {
            if report.ok() && groups.len() > 0 {
                let spares = groups.drop_first();
                let pair = seq![Resource::NetworkGroup(groups[0]), Resource::Hef(hef)];
                lemma_first(network_groups(groups));
                assert(network_groups(groups).drop_first() =~= network_groups(spares));
                lemma_first(pair);
                assert(pair.drop_first() =~= seq![Resource::Hef(hef)]);
                lemma_multiset_commutative(network_groups(spares), pair);
                if groups.len() == 1 {
                    assert(network_groups(spares) =~= nothing);
                }
            } else if report.ok() {
                assert(network_groups(groups) =~= nothing);
            }
        },
        (LoadStateView::SpareGroups { hef, plan, group, spares }, LoadReplyView::Released) => {
            let pair = seq![Resource::NetworkGroup(group), Resource::Hef(hef)];
            let rest = spares.drop_first();
            lemma_first(network_groups(spares));
            assert(network_groups(spares).drop_first() =~= network_groups(rest));
            lemma_multiset_commutative(network_groups(spares), pair);
            lemma_multiset_commutative(network_groups(rest), pair);
            if spares.len() == 1 {
                assert(network_groups(rest) =~= nothing);
            }
        },
        (
            LoadStateView::InputVStreams { hef, plan, group },
            LoadReplyView::InputVStreams { report, vstreams },
        ) => {
            let pair = seq![Resource::NetworkGroup(group), Resource::Hef(hef)];
            lemma_multiset_commutative(input_vstreams(vstreams), pair);
        },
        (
            LoadStateView::OutputVStreams { hef, plan, group, inputs },
            LoadReplyView::OutputVStreams { report, vstreams },
        ) => {
            if report.ok() {
                let pair = seq![Resource::NetworkGroup(group), Resource::Hef(hef)];
                let group_only = seq![Resource::NetworkGroup(group)];
                let streams = input_vstreams(inputs) + output_vstreams(vstreams);
                lemma_multiset_commutative(input_vstreams(inputs), pair);
                lemma_first(pair);
                assert(pair.drop_first() =~= seq![Resource::Hef(hef)]);
                lemma_multiset_commutative(input_vstreams(inputs), output_vstreams(vstreams));
                lemma_multiset_commutative(streams, group_only);
                let model = LoadedModelView {
                    network_group: group,
                    input_vstreams: inputs,
                    output_vstreams: vstreams,
                    output_frame_size: plan.output_frame_size,
                };
                let replaced = releases_of(model_under(models, model_name));
                lemma_store(models, model_name, model);
                lemma_multiset_commutative(replaced, seq![Resource::Hef(hef)]);
                let before = models_held(models);
                let after = models_held(with_model(models, model_name, model));
                assert(after.add(replaced.to_multiset()) =~= before.add(model.held()));
                assert(model.releases() =~= streams + group_only);
                assert(before.add(held(state).to_multiset()).add(gained(reply).to_multiset())
                    =~= before.add(model.held()).add(seq![Resource::Hef(hef)].to_multiset()));
                assert(after.add((replaced + seq![Resource::Hef(hef)]).to_multiset()) =~= after.add(
                    replaced.to_multiset(),
                ).add(seq![Resource::Hef(hef)].to_multiset()));
            }
        },
        (LoadStateView::Releases { pending, outcome }, LoadReplyView::Released) => {
            lemma_first(pending);
            if pending.len() == 1 {
                assert(pending.drop_first() =~= nothing);
            }
        },
        _ => {},
    }
}

/// Where a load is after a sequence of replies.
pub open spec fn load_run(
    models: Seq<ModelEntryView>,
    model_name: Seq<char>,
    state: LoadStateView,
    replies: Seq<LoadReplyView>,
) -> LoadNext
    decreases replies.len(),
{
    if replies.len() == 0 {
        LoadNext::Continue(state)
    } else {
        match step_next(models, model_name, state, replies[0]) {
            LoadNext::Continue(next) => load_run(
                models_next(models, model_name, state, replies[0]),
                model_name,
                next,
                replies.drop_first(),
            ),
            LoadNext::Finished(outcome) => LoadNext::Finished(outcome),
        }
    }
}

/// Whether each reply answers the call that the load waits for, and none comes
/// after the end.
pub open spec fn load_replies(
    models: Seq<ModelEntryView>,
    model_name: Seq<char>,
    state: LoadStateView,
    replies: Seq<LoadReplyView>,
) -> bool
    decreases replies.len(),
{
    replies.len() > 0 ==> {
        &&& state.accepts(replies[0])
        &&& match step_next(models, model_name, state, replies[0]) {
            LoadNext::Continue(next) => load_replies(
                models_next(models, model_name, state, replies[0]),
                model_name,
                next,
                replies.drop_first(),
            ),
            LoadNext::Finished(_) => replies.len() == 1,
        }
    }
}

/// The models after a sequence of replies to a load.
pub open spec fn run_models(
    models: Seq<ModelEntryView>,
    model_name: Seq<char>,
    state: LoadStateView,
    replies: Seq<LoadReplyView>,
) -> Seq<ModelEntryView>
    decreases replies.len(),
{
    if replies.len() == 0 {
        models
    } else {
        let after = models_next(models, model_name, state, replies[0]);
        match step_next(models, model_name, state, replies[0]) {
            LoadNext::Continue(next) => run_models(after, model_name, next, replies.drop_first()),
            LoadNext::Finished(_) => after,
        }
    }
}

/// Everything that a sequence of replies hands to the load.
pub open spec fn run_gained(replies: Seq<LoadReplyView>) -> Multiset<Resource>
    decreases replies.len(),
{
    if replies.len() == 0 {
        Multiset::empty()
    } else {
        gained(replies[0]).to_multiset().add(run_gained(replies.drop_first()))
    }
}

/// Everything that the load gives back during a sequence of replies.
pub open spec fn run_freed(
    models: Seq<ModelEntryView>,
    model_name: Seq<char>,
    state: LoadStateView,
    replies: Seq<LoadReplyView>,
) -> Multiset<Resource>
    decreases replies.len(),
{
    if replies.len() == 0 {
        Multiset::empty()
    } else {
        freed(state).to_multiset().add(
            match step_next(models, model_name, state, replies[0]) {
                LoadNext::Continue(next) => run_freed(
                    models_next(models, model_name, state, replies[0]),
                    model_name,
                    next,
                    replies.drop_first(),
                ),
                LoadNext::Finished(_) => Multiset::empty(),
            },
        )
    }
}

/// Once the outcome of a load is known it does not change, and neither do the
/// models.
pub proof fn load_outcome_is_final(
    models: Seq<ModelEntryView>,
    model_name: Seq<char>,
    state: LoadStateView,
    replies: Seq<LoadReplyView>,
)
    requires
        state is Releases,
        state.wf(),
        load_replies(models, model_name, state, replies),
    ensures
        run_models(models, model_name, state, replies) == models,
        match load_run(models, model_name, state, replies) {
            LoadNext::Continue(end) => end is Releases && end->outcome == state->outcome,
            LoadNext::Finished(outcome) => outcome == state->outcome,
        },
    decreases replies.len(),
{
    if replies.len() > 0 {
        match step_next(models, model_name, state, replies[0]) {
            LoadNext::Continue(next) => {
                load_outcome_is_final(models, model_name, next, replies.drop_first());
            },
            LoadNext::Finished(_) => {},
        }
    }
}

/// Over any sequence of replies, what the loaded models and the load held and
/// what the replies hand to the load is what the models and the load hold at the
/// end and what was given back: nothing is lost and nothing is given back twice.
pub proof fn load_run_balances(
    models: Seq<ModelEntryView>,
    model_name: Seq<char>,
    state: LoadStateView,
    replies: Seq<LoadReplyView>,
)
    requires
        state.wf(),
        load_replies(models, model_name, state, replies),
    ensures
        models_held(models).add(held(state).to_multiset()).add(run_gained(replies)) == models_held(
            run_models(models, model_name, state, replies),
        ).add(held_next(load_run(models, model_name, state, replies)).to_multiset()).add(
            run_freed(models, model_name, state, replies),
        ),
    decreases replies.len(),
{
    if replies.len() > 0 {
        let rest = replies.drop_first();
        load_step_balances(models, model_name, state, replies[0]);
        let then = models_next(models, model_name, state, replies[0]);
        let before = models_held(models).add(held(state).to_multiset());
        let gained_now = gained(replies[0]).to_multiset();
        let freed_now = freed(state).to_multiset();
        let gained_later = run_gained(rest);
        assert(before.add(run_gained(replies)) =~= before.add(gained_now).add(gained_later));
        match step_next(models, model_name, state, replies[0]) {
            LoadNext::Continue(next) => {
                load_run_balances(then, model_name, next, rest);
                let between = models_held(then).add(held(next).to_multiset());
                let after = models_held(run_models(then, model_name, next, rest)).add(
                    held_next(load_run(then, model_name, next, rest)).to_multiset(),
                );
                let freed_later = run_freed(then, model_name, next, rest);
                assert(between.add(freed_now).add(gained_later) =~= between.add(gained_later).add(
                    freed_now,
                ));
                assert(after.add(freed_later).add(freed_now) =~= after.add(
                    freed_now.add(freed_later),
                ));
            },
            LoadNext::Finished(_) => {
                assert(gained_later =~= Multiset::empty());
                assert(before.add(gained_now).add(gained_later) =~= before.add(gained_now));
                assert(freed_now.add(Multiset::empty()) =~= freed_now);
            },
        }
    }
}

/// The numbers of streams that a state carries agree with its streams.
pub open spec fn counts_agree(state: LoadStateView) -> bool {
    let plan_agrees = |plan: StreamPlanView|
        plan.input_count == plan.input_params.len() && plan.output_count
            == plan.output_params.len();
    match state {
        LoadStateView::ConfigureParams { plan, .. } => plan_agrees(plan),
        LoadStateView::NetworkGroups { plan, .. } => plan_agrees(plan),
        LoadStateView::SpareGroups { plan, .. } => plan_agrees(plan),
        LoadStateView::InputVStreams { plan, .. } => plan_agrees(plan),
        LoadStateView::OutputVStreams { plan, inputs, .. } => plan_agrees(plan) && inputs.len()
            == plan.input_params.len(),
        _ => true,
    }
}

/// Whether these are the models with one more stored under a name, with these
/// numbers of streams.
pub open spec fn stores_one(
    before: Seq<ModelEntryView>,
    after: Seq<ModelEntryView>,
    model_name: Seq<char>,
    inputs: nat,
    outputs: nat,
) -> bool {
    exists|model: LoadedModelView|
        after == #[trigger] with_model(before, model_name, model) && model.input_vstreams.len()
            == inputs && model.output_vstreams.len() == outputs
}

/// Whether the outcome of a finished load agrees with the models: one more is
/// stored, with the reported numbers of streams, or an error changed nothing.
pub open spec fn outcome_agrees(
    next: LoadNext,
    before: Seq<ModelEntryView>,
    after: Seq<ModelEntryView>,
    model_name: Seq<char>,
) -> bool {
    match next {
        LoadNext::Finished(Ok((inputs, outputs))) => stores_one(
            before,
            after,
            model_name,
            inputs,
            outputs,
        ),
        LoadNext::Finished(Err(_)) => after == before,
        LoadNext::Continue(_) => true,
    }
}

proof fn lemma_outcome_agrees(
    models: Seq<ModelEntryView>,
    model_name: Seq<char>,
    state: LoadStateView,
    replies: Seq<LoadReplyView>,
)
    requires
        state.wf(),
        counts_agree(state),
        !(state is Releases),
        load_replies(models, model_name, state, replies),
    ensures
        outcome_agrees(
            load_run(models, model_name, state, replies),
            models,
            run_models(models, model_name, state, replies),
            model_name,
        ),
    decreases replies.len(),
{
    if replies.len() > 0 {
        let rest = replies.drop_first();
        let then = models_next(models, model_name, state, replies[0]);
        match step_next(models, model_name, state, replies[0]) {
            LoadNext::Continue(next) => {
                if next is Releases {
                    load_outcome_is_final(then, model_name, next, rest);
                } else {
                    lemma_outcome_agrees(then, model_name, next, rest);
                }
            },
            LoadNext::Finished(_) => {},
        }
    }
}

/// A load that fails leaves every model as it was, and has given back exactly
/// what it acquired. A load that succeeds stores one model under its name, with
/// the numbers of streams that it reports.
pub proof fn load_is_all_or_nothing(
    models: Seq<ModelEntryView>,
    model_name: Seq<char>,
    replies: Seq<LoadReplyView>,
)
    requires
        load_replies(models, model_name, LoadStateView::Hef, replies),
    ensures
        match load_run(models, model_name, LoadStateView::Hef, replies) {
            LoadNext::Finished(Err(_)) => {
                &&& run_models(models, model_name, LoadStateView::Hef, replies) == models
                &&& run_gained(replies) == run_freed(
                    models,
                    model_name,
                    LoadStateView::Hef,
                    replies,
                )
            },
            LoadNext::Finished(Ok((inputs, outputs))) => stores_one(
                models,
                run_models(models, model_name, LoadStateView::Hef, replies),
                model_name,
                inputs,
                outputs,
            ),
            LoadNext::Continue(_) => true,
        },
{
    lemma_outcome_agrees(models, model_name, LoadStateView::Hef, replies);
    if load_run(models, model_name, LoadStateView::Hef, replies) matches LoadNext::Finished(Err(_)) {
        finished_load_balances(models, model_name, replies);
        let kept = models_held(models);
        let gained_all = run_gained(replies);
        let freed_all = run_freed(models, model_name, LoadStateView::Hef, replies);
        assert forall|r: Resource| gained_all.count(r) == freed_all.count(r) by {
            assert(kept.add(freed_all).count(r) == kept.add(gained_all).count(r));
        }
        assert(gained_all =~= freed_all);
    }
}

/// Once a load is finished, whichever way, what the models hold and what was
/// given back is what the models held before and what was acquired. So a model
/// that was replaced has been given back, whole and once.
pub proof fn finished_load_balances(
    models: Seq<ModelEntryView>,
    model_name: Seq<char>,
    replies: Seq<LoadReplyView>,
)
    requires
        load_replies(models, model_name, LoadStateView::Hef, replies),
        load_run(models, model_name, LoadStateView::Hef, replies) is Finished,
    ensures
        models_held(run_models(models, model_name, LoadStateView::Hef, replies)).add(
            run_freed(models, model_name, LoadStateView::Hef, replies),
        ) == models_held(models).add(run_gained(replies)),
{
    let nothing = Seq::<Resource>::empty();
    assert(nothing.to_multiset() =~= Multiset::empty()) by {
        nothing.to_multiset_ensures();
    }
    load_run_balances(models, model_name, LoadStateView::Hef, replies);
    let before = models_held(models);
    let after = models_held(run_models(models, model_name, LoadStateView::Hef, replies));
    assert(before.add(nothing.to_multiset()) =~= before);
    assert(after.add(nothing.to_multiset()) =~= after);
}

/// How many kinds of calls lie before the end of a load in this state.
pub open spec fn stage(state: LoadStateView) -> nat {
    match state {
        LoadStateView::Hef => 7,
        LoadStateView::VStreamInfos { .. } => 6,
        LoadStateView::ConfigureParams { .. } => 5,
        LoadStateView::NetworkGroups { .. } => 4,
        LoadStateView::SpareGroups { .. } => 3,
        LoadStateView::InputVStreams { .. } => 2,
        LoadStateView::OutputVStreams { .. } => 1,
        LoadStateView::Releases { .. } => 0,
    }
}

/// A load ends whatever the device replies: each step ends it, or reaches a
/// later stage, or leaves less to release in the same stage.
pub proof fn load_step_progresses(
    models: Seq<ModelEntryView>,
    model_name: Seq<char>,
    state: LoadStateView,
    reply: LoadReplyView,
)
    requires
        state.wf(),
        state.accepts(reply),
    ensures
        step_next(models, model_name, state, reply) matches LoadNext::Continue(next) ==> {
            &&& next.wf()
            &&& stage(next) < stage(state) || (stage(next) == stage(state) && held(next).len()
                < held(state).len())
        },
{
}

} // verus!
