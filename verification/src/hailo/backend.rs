//! The backend: one vdevice and the models loaded on it.

use vstd::prelude::*;

use crate::hailo::models::all_releases;
use crate::hailo::models::is_loaded;
use crate::hailo::models::model_of;
use crate::hailo::models::names_distinct;
use crate::hailo::models::position_of;
use crate::hailo::models::push_releases;
use crate::hailo::models::release_model;
use crate::hailo::models::with_model;
use crate::hailo::models::without_model;
use crate::hailo::models::LoadedModel;
use crate::hailo::models::LoadedModelView;
use crate::hailo::models::ModelEntryView;
use crate::hailo::models::Resource;
use crate::hailo::status::HailoError;
use crate::hailo::status::HailoErrorView;
use crate::messages::string_views;

verus! {

struct ModelEntry {
    name: String,
    model: LoadedModel,
}

/// A vdevice and its loaded models, in the order in which they were loaded.
pub struct HailoBackend {
    vdevice: usize,
    models: Vec<ModelEntry>,
}

/// The value of a [`HailoBackend`].
#[verifier::ext_equal]
pub struct BackendView {
    pub vdevice: usize,
    pub models: Seq<ModelEntryView>,
}

impl View for HailoBackend {
    type V = BackendView;

    closed spec fn view(&self) -> BackendView {
        BackendView {
            vdevice: self.vdevice,
            models: self.models@.map_values(
                |e: ModelEntry| ModelEntryView { name: e.name@, model: e.model@ },
            ),
        }
    }
}

impl BackendView {
    /// No two models have the same name.
    pub open spec fn wf(self) -> bool {
        names_distinct(self.models)
    }

    /// The backend after a model is loaded under a name.
    pub open spec fn load(self, name: Seq<char>, model: LoadedModelView) -> BackendView {
        BackendView { models: with_model(self.models, name, model), ..self }
    }

    /// The backend after the model of a name is unloaded.
    pub open spec fn unload(self, name: Seq<char>) -> BackendView {
        BackendView { models: without_model(self.models, name), ..self }
    }

    /// What the backend gives back when it is closed: what the models hold, in
    /// the order in which they were loaded, then the vdevice unless its handle
    /// is null.
    pub open spec fn releases(self) -> Seq<Resource> {
        if self.vdevice != 0 {
            all_releases(self.models).push(Resource::VDevice(self.vdevice))
        } else {
            all_releases(self.models)
        }
    }
}

/// The names of the models, in the order in which they were loaded.
pub open spec fn model_names(models: Seq<ModelEntryView>) -> Seq<Seq<char>> {
    models.map_values(|e: ModelEntryView| e.name)
}

impl HailoBackend {
    /// A backend on an open vdevice, with no model loaded.
    pub(crate) fn on_vdevice(vdevice: usize) -> (backend: Self)
        ensures
            backend@.vdevice == vdevice,
            backend@.models.len() == 0,
            backend@.wf(),
    {
        HailoBackend { vdevice, models: Vec::new() }
    }

    /// The handle of the vdevice.
    pub fn vdevice(&self) -> (vdevice: usize)
        ensures
            vdevice == self@.vdevice,
    {
        self.vdevice
    }

    fn find(&self, model_name: &str) -> (position: Option<usize>)
        requires
            self@.wf(),
        ensures
            position is Some <==> is_loaded(self@.models, model_name@),
            position matches Some(i) ==> i < self.models@.len() && i == position_of(
                self@.models,
                model_name@,
            ),
    {
        let key = model_name.to_owned();
        let mut i: usize = 0;
        while i < self.models.len()
            invariant
                i <= self.models@.len(),
                self@.wf(),
                key@ == model_name@,
                forall|j: int| 0 <= j < i ==> (#[trigger] self@.models[j]).name != model_name@,
            decreases self.models.len() - i,
        {
            assert(self@.models[i as int].name == self.models@[i as int].name@);
            if self.models[i].name == key {
                assert(is_loaded(self@.models, model_name@));
                assert(position_of(self@.models, model_name@) == i) by {
                    let p = position_of(self@.models, model_name@);
                    assert(self@.models[p].name == model_name@);
                }
                return Some(i);
            }
            i += 1;
        }
        None
    }

    /// The model of a name, if it is loaded.
    pub fn model(&self, model_name: &str) -> (model: Option<&LoadedModel>)
        requires
            self@.wf(),
        ensures
            model is Some <==> is_loaded(self@.models, model_name@),
            model matches Some(m) ==> m@ == model_of(self@.models, model_name@),
    {
        match self.find(model_name) {
            Some(i) => Some(&self.models[i].model),
            None => None,
        }
    }

    /// Stores a model under a name. A model that had the name is handed back, to
    /// be released.
    pub(crate) fn insert_model(&mut self, model_name: &str, model: LoadedModel) -> (replaced: Option<
        LoadedModel,
    >)
        requires
            old(self)@.wf(),
        ensures
            final(self)@.wf(),
            final(self)@ == old(self)@.load(model_name@, model@),
            replaced is Some <==> is_loaded(old(self)@.models, model_name@),
            replaced matches Some(m) ==> m@ == model_of(old(self)@.models, model_name@),
    {
        let entry = ModelEntry { name: model_name.to_owned(), model };
        match self.find(model_name) {
            Some(i) => {
                let replaced = self.models.remove(i);
                self.models.insert(i, entry);
                proof {
                    let target = with_model(old(self)@.models, model_name@, model@);
                    assert(self@.models =~= target);
                    crate::hailo::laws::load_keeps_names_distinct(
                        old(self)@.models,
                        model_name@,
                        model@,
                    );
                }
                Some(replaced.model)
            },
            None => {
                self.models.push(entry);
                proof {
                    assert(self@.models =~= with_model(old(self)@.models, model_name@, model@));
                    crate::hailo::laws::load_keeps_names_distinct(
                        old(self)@.models,
                        model_name@,
                        model@,
                    );
                }
                None
            },
        }
    }

    /// Unloads a model: it is no longer listed, and what it holds is handed out
    /// to be released, in order. Fails if no model of the name is loaded.
    pub fn unload_model(&mut self, model_name: &str) -> (result: Result<Vec<Resource>, HailoError>)
        requires
            old(self)@.wf(),
        ensures
            final(self)@.wf(),
            result is Ok <==> is_loaded(old(self)@.models, model_name@),
            result matches Ok(releases) ==> {
                &&& releases@ == model_of(old(self)@.models, model_name@).releases()
                &&& final(self)@ == old(self)@.unload(model_name@)
            },
            result matches Err(error) ==> {
                &&& error@ == (HailoErrorView::NotLoaded { model_name: model_name@ })
                &&& final(self)@ == old(self)@
            },
    {
        match self.find(model_name) {
            Some(i) => {
                let entry = self.models.remove(i);
                proof {
                    assert(self@.models =~= without_model(old(self)@.models, model_name@));
                    crate::hailo::laws::unload_keeps_names_distinct(
                        old(self)@.models,
                        model_name@,
                    );
                }
                Ok(release_model(entry.model))
            },
            None => Err(HailoError::NotLoaded { model_name: model_name.to_owned() }),
        }
    }

    /// The names of the loaded models, in the order in which they were loaded.
    pub fn loaded_models(&self) -> (names: Vec<String>)
        ensures
            string_views(names@) == model_names(self@.models),
    {
        let mut names: Vec<String> = Vec::new();
        let mut i: usize = 0;
        while i < self.models.len()
            invariant
                i <= self.models@.len(),
                string_views(names@) == model_names(self@.models.take(i as int)),
            decreases self.models.len() - i,
        {
            let ghost listed = names@;
            names.push(self.models[i].name.clone());
            proof {
                let entry = self@.models[i as int];
                assert(string_views(names@) =~= string_views(listed).push(entry.name));
                assert(model_names(self@.models.take(i + 1)) =~= model_names(
                    self@.models.take(i as int),
                ).push(entry.name));
            }
            i += 1;
        }
        assert(self@.models.take(i as int) =~= self@.models);
        names
    }

    /// Closes the backend: lists everything that it still holds, in the order in
    /// which it is to be released. Models come in the order in which they were
    /// loaded, and the vdevice comes last.
    pub fn close(self) -> (releases: Vec<Resource>)
        ensures
            releases@ == self@.releases(),
    {
        let mut releases: Vec<Resource> = Vec::new();
        let mut i: usize = 0;
        assert(self@.models.take(0) =~= Seq::<ModelEntryView>::empty());
        while i < self.models.len()
            invariant
                i <= self.models@.len(),
                releases@ == all_releases(self@.models.take(i as int)),
            decreases self.models.len() - i,
        {
            push_releases(&mut releases, &self.models[i].model);
            assert(self@.models.take(i + 1).drop_last() =~= self@.models.take(i as int));
            i += 1;
        }
        assert(self@.models.take(i as int) =~= self@.models);
        if self.vdevice != 0 {
            releases.push(Resource::VDevice(self.vdevice));
        }
        releases
    }
}

} // verus!
