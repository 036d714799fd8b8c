//! Laws of the backend as a whole: what every operation keeps, and what one
//! operation undoes of another.

use vstd::prelude::*;
use vstd::seq_lib::lemma_multiset_commutative;

use crate::hailo::backend::BackendView;
use crate::hailo::models::all_releases;
use crate::hailo::models::is_loaded;
use crate::hailo::models::model_of;
use crate::hailo::models::models_held;
use crate::hailo::models::names_distinct;
use crate::hailo::models::position_of;
use crate::hailo::models::with_model;
use crate::hailo::models::without_model;
use crate::hailo::models::LoadedModelView;
use crate::hailo::models::ModelEntryView;
use crate::hailo::models::Resource;

verus! {

/// A model is found where its name stands.
pub proof fn position_is_where_the_name_stands(models: Seq<ModelEntryView>, name: Seq<char>, i: int)
    requires
        names_distinct(models),
        0 <= i < models.len(),
        models[i].name == name,
    ensures
        is_loaded(models, name),
        position_of(models, name) == i,
        model_of(models, name) == models[i].model,
{
    let p = position_of(models, name);
    assert(0 <= p < models.len() && models[p].name == name);
}

/// Loading a model keeps the names of the models distinct.
pub proof fn load_keeps_names_distinct(
    models: Seq<ModelEntryView>,
    name: Seq<char>,
    model: LoadedModelView,
)
    requires
        names_distinct(models),
    ensures
        names_distinct(with_model(models, name, model)),
{
    if is_loaded(models, name) {
        let p = position_of(models, name);
        assert(models[p].name == name);
        assert forall|i: int, j: int| 0 <= i < j < models.len() implies (#[trigger] with_model(
            models,
            name,
            model,
        )[i]).name != (#[trigger] with_model(models, name, model)[j]).name by {
            assert(models[i].name != models[j].name);
        }
    }
}

/// Unloading a model keeps the names of the models distinct.
pub proof fn unload_keeps_names_distinct(models: Seq<ModelEntryView>, name: Seq<char>)
    requires
        names_distinct(models),
        is_loaded(models, name),
    ensures
        names_distinct(without_model(models, name)),
{
    let p = position_of(models, name);
    assert(0 <= p < models.len());
    let rest = without_model(models, name);
    assert forall|i: int, j: int| 0 <= i < j < rest.len() implies (#[trigger] rest[i]).name != (
    #[trigger] rest[j]).name by {
        let i0 = if i < p { i } else { i + 1 };
        let j0 = if j < p { j } else { j + 1 };
        assert(models[i0].name != models[j0].name);
    }
}

/// A model that was loaded is found under its name, and no other model changes.
pub proof fn load_stores_the_model(
    models: Seq<ModelEntryView>,
    name: Seq<char>,
    model: LoadedModelView,
    other: Seq<char>,
)
    requires
        names_distinct(models),
    ensures
        is_loaded(with_model(models, name, model), name),
        model_of(with_model(models, name, model), name) == model,
        other != name ==> is_loaded(with_model(models, name, model), other) == is_loaded(
            models,
            other,
        ),
        other != name && is_loaded(models, other) ==> model_of(
            with_model(models, name, model),
            other,
        ) == model_of(models, other),
{
    let after = with_model(models, name, model);
    load_keeps_names_distinct(models, name, model);
    let p = if is_loaded(models, name) { position_of(models, name) } else { models.len() as int };
    assert(after[p].name == name);
    position_is_where_the_name_stands(after, name, p);
    if other != name {
        if is_loaded(models, other) {
            let q = position_of(models, other);
            assert(models[q].name == other);
            assert(after[q] == models[q]);
            position_is_where_the_name_stands(after, other, q);
        }
        if is_loaded(after, other) {
            let q = position_of(after, other);
            assert(after[q].name == other);
            assert(models[q].name == other);
        }
    }
}

/// A model that was unloaded is no longer found, and no other model changes.
pub proof fn unload_removes_the_model(
    models: Seq<ModelEntryView>,
    name: Seq<char>,
    other: Seq<char>,
)
    requires
        names_distinct(models),
        is_loaded(models, name),
    ensures
        !is_loaded(without_model(models, name), name),
        other != name ==> is_loaded(without_model(models, name), other) == is_loaded(
            models,
            other,
        ),
        other != name && is_loaded(models, other) ==> model_of(without_model(models, name), other)
            == model_of(models, other),
{
    let after = without_model(models, name);
    let p = position_of(models, name);
    assert(0 <= p < models.len() && models[p].name == name);
    unload_keeps_names_distinct(models, name);
    assert forall|i: int| 0 <= i < after.len() implies (#[trigger] after[i]).name != name by {
        let i0 = if i < p { i } else { i + 1 };
        assert(after[i] == models[i0]);
        if i0 < p {
            assert(models[i0].name != models[p].name);
        } else {
            assert(models[p].name != models[i0].name);
        }
    }
    if other != name {
        if is_loaded(models, other) {
            let q = position_of(models, other);
            assert(models[q].name == other);
            let q1 = if q < p { q } else { q - 1 };
            assert(after[q1] == models[q]);
            position_is_where_the_name_stands(after, other, q1);
        }
        if is_loaded(after, other) {
            let q = position_of(after, other);
            assert(after[q].name == other);
            let q0 = if q < p { q } else { q + 1 };
            assert(models[q0].name == other);
        }
    }
}

/// Unloading a model that was loaded under a fresh name undoes the load: the
/// models are the same as before, and what is released is what the model holds.
pub proof fn unload_undoes_load(
    models: Seq<ModelEntryView>,
    name: Seq<char>,
    model: LoadedModelView,
)
    requires
        names_distinct(models),
        !is_loaded(models, name),
    ensures
        without_model(with_model(models, name, model), name) == models,
        model_of(with_model(models, name, model), name).releases() == model.releases(),
{
    let after = with_model(models, name, model);
    load_keeps_names_distinct(models, name, model);
    assert(after[models.len() as int].name == name);
    position_is_where_the_name_stands(after, name, models.len() as int);
    assert(without_model(after, name) =~= models);
}

/// Removing the model at a position removes what it holds.
proof fn lemma_held_without(models: Seq<ModelEntryView>, i: int)
    requires
        0 <= i < models.len(),
    ensures
        models_held(models) == models_held(models.remove(i)).add(models[i].model.held()),
    decreases models.len(),
{
    let front = models.drop_last();
    let last = models.last().model;
    lemma_multiset_commutative(all_releases(front), last.releases());
    if i == models.len() - 1 {
        assert(models.remove(i) =~= front);
    } else {
        lemma_held_without(front, i);
        assert(models.remove(i).drop_last() =~= front.remove(i));
        lemma_multiset_commutative(all_releases(front.remove(i)), last.releases());
        let rest = models_held(front.remove(i));
        let mine = models[i].model.held();
        assert(rest.add(mine).add(last.held()) =~= rest.add(last.held()).add(mine));
    }
}

/// Putting another model at a position exchanges what the two hold.
proof fn lemma_held_update(models: Seq<ModelEntryView>, i: int, entry: ModelEntryView)
    requires
        0 <= i < models.len(),
    ensures
        models_held(models.update(i, entry)).add(models[i].model.held()) == models_held(models).add(
            entry.model.held(),
        ),
{
    lemma_held_without(models, i);
    lemma_held_without(models.update(i, entry), i);
    assert(models.update(i, entry).remove(i) =~= models.remove(i));
    let rest = models_held(models.remove(i));
    let old_held = models[i].model.held();
    let new_held = entry.model.held();
    assert(rest.add(new_held).add(old_held) =~= rest.add(old_held).add(new_held));
}

/// Loading under a fresh name adds exactly the objects of the model to what the
/// backend holds.
pub proof fn load_adds_what_the_model_holds(
    models: Seq<ModelEntryView>,
    name: Seq<char>,
    model: LoadedModelView,
)
    requires
        !is_loaded(models, name),
    ensures
        models_held(with_model(models, name, model)) == models_held(models).add(model.held()),
{
    assert(with_model(models, name, model).drop_last() =~= models);
    lemma_multiset_commutative(all_releases(models), model.releases());
}

/// Loading under a name that is taken exchanges what the two models hold: the
/// backend holds the objects of the new model in place of those of the old one,
/// which the load releases.
pub proof fn load_exchanges_what_the_models_hold(
    models: Seq<ModelEntryView>,
    name: Seq<char>,
    model: LoadedModelView,
)
    requires
        is_loaded(models, name),
    ensures
        models_held(with_model(models, name, model)).add(model_of(models, name).held())
            == models_held(models).add(model.held()),
{
    let p = position_of(models, name);
    assert(0 <= p < models.len());
    lemma_held_update(models, p, ModelEntryView { name, model });
}

/// Unloading takes exactly the objects of the model, which are those released,
/// out of what the backend holds.
pub proof fn unload_releases_what_the_model_holds(models: Seq<ModelEntryView>, name: Seq<char>)
    requires
        is_loaded(models, name),
    ensures
        models_held(models) == models_held(without_model(models, name)).add(
            model_of(models, name).releases().to_multiset(),
        ),
{
    let p = position_of(models, name);
    assert(0 <= p < models.len());
    lemma_held_without(models, p);
}

/// Closing the backend releases exactly the objects that its models hold and,
/// last of all, its vdevice unless the handle is null.
pub proof fn close_releases_everything(backend: BackendView)
    ensures
        backend.vdevice == 0 ==> backend.releases().to_multiset() == models_held(backend.models),
        backend.vdevice != 0 ==> {
            &&& backend.releases().to_multiset() == models_held(backend.models).insert(
                Resource::VDevice(backend.vdevice),
            )
            &&& backend.releases().last() == Resource::VDevice(backend.vdevice)
        },
{
    all_releases(backend.models).to_multiset_ensures();
}

} // verus!
