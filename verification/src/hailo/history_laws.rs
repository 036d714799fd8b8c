//! Laws of a backend over its whole life: at any time the objects of the device
//! that are in use are those of the loaded models, with one network group each.

use vstd::multiset::Multiset;
use vstd::prelude::*;
use vstd::seq_lib::lemma_multiset_commutative;

use crate::hailo::laws::load_keeps_names_distinct;
use crate::hailo::laws::unload_keeps_names_distinct;
use crate::hailo::laws::unload_releases_what_the_model_holds;
use crate::hailo::load::LoadNext;
use crate::hailo::load::LoadReplyView;
use crate::hailo::load::LoadStateView;
use crate::hailo::load_laws::finished_load_balances;
use crate::hailo::load_laws::load_is_all_or_nothing;
use crate::hailo::load_laws::load_replies;
use crate::hailo::load_laws::load_run;
use crate::hailo::load_laws::run_freed;
use crate::hailo::load_laws::run_gained;
use crate::hailo::load_laws::run_models;
use crate::hailo::models::all_releases;
use crate::hailo::models::input_vstreams;
use crate::hailo::models::is_loaded;
use crate::hailo::models::model_under;
use crate::hailo::models::models_held;
use crate::hailo::models::names_distinct;
use crate::hailo::models::output_vstreams;
use crate::hailo::models::releases_of;
use crate::hailo::models::with_model;
use crate::hailo::models::without_model;
use crate::hailo::models::LoadedModelView;
use crate::hailo::models::ModelEntryView;
use crate::hailo::models::Resource;

verus! {

/// An operation on a backend: a load with all the replies it got, or an unload.
pub enum Operation {
    Load { model_name: Seq<char>, replies: Seq<LoadReplyView> },
    Unload { model_name: Seq<char> },
}

/// Whether an operation can happen with these models loaded: the replies to a
/// load fit its calls and bring it to its end.
pub open spec fn can_happen(models: Seq<ModelEntryView>, operation: Operation) -> bool {
    match operation {
        Operation::Load { model_name, replies } => {
            &&& load_replies(models, model_name, LoadStateView::Hef, replies)
            &&& load_run(models, model_name, LoadStateView::Hef, replies) is Finished
        },
        Operation::Unload { .. } => true,
    }
}

/// The models after an operation. To unload a model that is not loaded changes
/// nothing.
pub open spec fn models_after(
    models: Seq<ModelEntryView>,
    operation: Operation,
) -> Seq<ModelEntryView> {
    match operation {
        Operation::Load { model_name, replies } => run_models(
            models,
            model_name,
            LoadStateView::Hef,
            replies,
        ),
        Operation::Unload { model_name } => if is_loaded(models, model_name) {
            without_model(models, model_name)
        } else {
            models
        },
    }
}

/// What an operation acquires from the device.
pub open spec fn acquired_by(operation: Operation) -> Multiset<Resource> {
    match operation {
        Operation::Load { replies, .. } => run_gained(replies),
        Operation::Unload { .. } => Multiset::empty(),
    }
}

/// What an operation gives back to the device.
pub open spec fn given_back_by(
    models: Seq<ModelEntryView>,
    operation: Operation,
) -> Multiset<Resource> {
    match operation {
        Operation::Load { model_name, replies } => run_freed(
            models,
            model_name,
            LoadStateView::Hef,
            replies,
        ),
        Operation::Unload { model_name } => releases_of(
            model_under(models, model_name),
        ).to_multiset(),
    }
}

/// The models of a backend after a sequence of operations since it was opened.
pub open spec fn models_of_history(operations: Seq<Operation>) -> Seq<ModelEntryView>
    decreases operations.len(),
{
    if operations.len() == 0 {
        Seq::empty()
    } else {
        models_after(models_of_history(operations.drop_last()), operations.last())
    }
}

/// Whether each operation can happen when its turn comes.
pub open spec fn is_history(operations: Seq<Operation>) -> bool
    decreases operations.len(),
{
    operations.len() > 0 ==> is_history(operations.drop_last()) && can_happen(
        models_of_history(operations.drop_last()),
        operations.last(),
    )
}

/// Everything that a sequence of operations acquires from the device.
pub open spec fn acquired(operations: Seq<Operation>) -> Multiset<Resource>
    decreases operations.len(),
{
    if operations.len() == 0 {
        Multiset::empty()
    } else {
        acquired(operations.drop_last()).add(acquired_by(operations.last()))
    }
}

/// Everything that a sequence of operations gives back to the device.
pub open spec fn given_back(operations: Seq<Operation>) -> Multiset<Resource>
    decreases operations.len(),
{
    if operations.len() == 0 {
        Multiset::empty()
    } else {
        given_back(operations.drop_last()).add(
            given_back_by(models_of_history(operations.drop_last()), operations.last()),
        )
    }
}

/// An operation keeps the names of the models distinct.
pub proof fn operation_keeps_names_distinct(models: Seq<ModelEntryView>, operation: Operation)
    requires
        names_distinct(models),
        can_happen(models, operation),
    ensures
        names_distinct(models_after(models, operation)),
{
    match operation {
        Operation::Load { model_name, replies } => {
            load_is_all_or_nothing(models, model_name, replies);
            if load_run(models, model_name, LoadStateView::Hef, replies) matches LoadNext::Finished(
                Ok(_),
            ) {
                let model = choose|model: LoadedModelView|
                    models_after(models, operation) == #[trigger] with_model(
                        models,
                        model_name,
                        model,
                    );
                load_keeps_names_distinct(models, model_name, model);
            }
        },
        Operation::Unload { model_name } => {
            if is_loaded(models, model_name) {
                unload_keeps_names_distinct(models, model_name);
            }
        },
    }
}

/// Over an operation, what the models held and what it acquires is what the
/// models hold after it and what it gives back.
pub proof fn operation_balances(models: Seq<ModelEntryView>, operation: Operation)
    requires
        can_happen(models, operation),
    ensures
        models_held(models).add(acquired_by(operation)) == models_held(
            models_after(models, operation),
        ).add(given_back_by(models, operation)),
{
    match operation {
        Operation::Load { model_name, replies } => {
            finished_load_balances(models, model_name, replies);
        },
        Operation::Unload { model_name } => {
            let held = models_held(models);
            assert(held.add(Multiset::empty()) =~= held);
            if is_loaded(models, model_name) {
                unload_releases_what_the_model_holds(models, model_name);
            } else {
                Seq::<Resource>::empty().to_multiset_ensures();
                assert(Seq::<Resource>::empty().to_multiset() =~= Multiset::empty());
            }
        },
    }
}

/// After any loads and unloads, failed ones and loads under a taken name among
/// them, what was acquired is what was given back and what the loaded models
/// hold: an object of the device is in use exactly if a loaded model holds it.
pub proof fn loaded_models_hold_what_is_in_use(operations: Seq<Operation>)
    requires
        is_history(operations),
    ensures
        names_distinct(models_of_history(operations)),
        acquired(operations) == given_back(operations).add(
            models_held(models_of_history(operations)),
        ),
    decreases operations.len(),
{
    if operations.len() == 0 {
        Seq::<Resource>::empty().to_multiset_ensures();
        assert(models_held(Seq::<ModelEntryView>::empty()) =~= Multiset::empty());
        assert(acquired(operations) =~= given_back(operations).add(
            models_held(models_of_history(operations)),
        ));
    } else {
        let front = operations.drop_last();
        let last = operations.last();
        let models = models_of_history(front);
        loaded_models_hold_what_is_in_use(front);
        operation_keeps_names_distinct(models, last);
        operation_balances(models, last);
        let held = models_held(models);
        let held_after = models_held(models_of_history(operations));
        let back = given_back(front);
        let back_now = given_back_by(models, last);
        assert(acquired(operations) =~= back.add(held.add(acquired_by(last))));
        assert(back.add(held_after.add(back_now)) =~= back.add(back_now).add(held_after));
    }
}

/// How many network groups there are among these objects.
pub open spec fn group_count(objects: Multiset<Resource>) -> nat {
    objects.filter(|r: Resource| r is NetworkGroup).len()
}

proof fn lemma_group_count_add(a: Multiset<Resource>, b: Multiset<Resource>)
    ensures
        group_count(a.add(b)) == group_count(a) + group_count(b),
{
    let is_group = |r: Resource| r is NetworkGroup;
    assert(a.add(b).filter(is_group) =~= a.filter(is_group).add(b.filter(is_group)));
}

proof fn lemma_no_group(objects: Seq<Resource>)
    requires
        forall|i: int| 0 <= i < objects.len() ==> !((#[trigger] objects[i]) is NetworkGroup),
    ensures
        group_count(objects.to_multiset()) == 0,
{
    let is_group = |r: Resource| r is NetworkGroup;
    objects.to_multiset_ensures();
    assert(objects.to_multiset().filter(is_group) =~= Multiset::empty());
}

/// A model occupies one network group.
proof fn lemma_one_group(model: LoadedModelView)
    ensures
        group_count(model.held()) == 1,
{
    let is_group = |r: Resource| r is NetworkGroup;
    let inputs = input_vstreams(model.input_vstreams);
    let outputs = output_vstreams(model.output_vstreams);
    let group = Resource::NetworkGroup(model.network_group);
    lemma_multiset_commutative(inputs, outputs);
    lemma_multiset_commutative(inputs + outputs, seq![group]);
    lemma_no_group(inputs);
    lemma_no_group(outputs);
    lemma_group_count_add(inputs.to_multiset(), outputs.to_multiset());
    lemma_group_count_add((inputs + outputs).to_multiset(), seq![group].to_multiset());
    Seq::<Resource>::empty().to_multiset_ensures();
    assert(Seq::<Resource>::empty().push(group) =~= seq![group]);
    assert(seq![group].to_multiset() =~= Multiset::singleton(group));
    assert(Multiset::singleton(group).filter(is_group) =~= Multiset::singleton(group));
}

/// The loaded models occupy one network group each.
pub proof fn each_model_occupies_one_group(models: Seq<ModelEntryView>)
    ensures
        group_count(models_held(models)) == models.len(),
    decreases models.len(),
{
    if models.len() == 0 {
        lemma_no_group(Seq::empty());
    } else {
        let front = models.drop_last();
        let last = models.last().model;
        each_model_occupies_one_group(front);
        lemma_one_group(last);
        lemma_multiset_commutative(all_releases(front), last.releases());
        lemma_group_count_add(models_held(front), last.held());
    }
}

/// After any loads and unloads, the network groups that are configured and not
/// yet given back are as many as the loaded models.
pub proof fn configured_groups_are_those_of_the_models(operations: Seq<Operation>)
    requires
        is_history(operations),
    ensures
        group_count(acquired(operations)) - group_count(given_back(operations))
            == models_of_history(operations).len(),
{
    let models = models_of_history(operations);
    loaded_models_hold_what_is_in_use(operations);
    each_model_occupies_one_group(models);
    lemma_group_count_add(given_back(operations), models_held(models));
}

} // verus!
