//! Loaded models and the objects of the device that they hold.

use vstd::multiset::Multiset;
use vstd::prelude::*;

verus! {

/// An object of the device, named by the address of its handle. Each one is
/// given back to the device by the release call of its kind.
#[derive(Clone, Copy, Debug, PartialEq, Eq, Structural)]
pub enum Resource {
    VDevice(usize),
    Hef(usize),
    NetworkGroup(usize),
    InputVStream(usize),
    OutputVStream(usize),
}

/// A model that is ready for inference: its network group, its streams, and
/// the expected size of its output in bytes across all output streams.
pub struct LoadedModel {
    pub network_group: usize,
    pub input_vstreams: Vec<usize>,
    pub output_vstreams: Vec<usize>,
    pub output_frame_size: usize,
}

/// The value of a [`LoadedModel`].
#[verifier::ext_equal]
pub struct LoadedModelView {
    pub network_group: usize,
    pub input_vstreams: Seq<usize>,
    pub output_vstreams: Seq<usize>,
    pub output_frame_size: nat,
}

impl View for LoadedModel {
    type V = LoadedModelView;

    open spec fn view(&self) -> LoadedModelView {
        LoadedModelView {
            network_group: self.network_group,
            input_vstreams: self.input_vstreams@,
            output_vstreams: self.output_vstreams@,
            output_frame_size: self.output_frame_size as nat,
        }
    }
}

/// Network groups as resources.
pub open spec fn network_groups(handles: Seq<usize>) -> Seq<Resource> {
    handles.map_values(|h: usize| Resource::NetworkGroup(h))
}

/// Input streams as resources.
pub open spec fn input_vstreams(handles: Seq<usize>) -> Seq<Resource> {
    handles.map_values(|h: usize| Resource::InputVStream(h))
}

/// Output streams as resources.
pub open spec fn output_vstreams(handles: Seq<usize>) -> Seq<Resource> {
    handles.map_values(|h: usize| Resource::OutputVStream(h))
}

impl LoadedModelView {
    /// What the model holds, in the order in which it is given back: the input
    /// streams, the output streams, then the network group.
    pub open spec fn releases(self) -> Seq<Resource> {
        input_vstreams(self.input_vstreams) + output_vstreams(self.output_vstreams) + seq![
            Resource::NetworkGroup(self.network_group),
        ]
    }

    /// The objects of the device that the model holds.
    pub open spec fn held(self) -> Multiset<Resource> {
        self.releases().to_multiset()
    }
}

/// A model under the name it was loaded with.
#[verifier::ext_equal]
pub struct ModelEntryView {
    pub name: Seq<char>,
    pub model: LoadedModelView,
}

/// Whether a model of this name is loaded.
pub open spec fn is_loaded(models: Seq<ModelEntryView>, name: Seq<char>) -> bool {
    exists|i: int| 0 <= i < models.len() && (#[trigger] models[i]).name == name
}

/// The position of the model of this name.
pub open spec fn position_of(models: Seq<ModelEntryView>, name: Seq<char>) -> int
    recommends
        is_loaded(models, name),
{
    choose|i: int| 0 <= i < models.len() && (#[trigger] models[i]).name == name
}

/// The model of this name.
pub open spec fn model_of(models: Seq<ModelEntryView>, name: Seq<char>) -> LoadedModelView
    recommends
        is_loaded(models, name),
{
    models[position_of(models, name)].model
}

/// The model that has this name, if one is loaded.
pub open spec fn model_under(models: Seq<ModelEntryView>, name: Seq<char>) -> Option<
    LoadedModelView,
> {
    if is_loaded(models, name) {
        Some(model_of(models, name))
    } else {
        None
    }
}

/// What there is to give back of a model, if there is one.
pub open spec fn releases_of(model: Option<LoadedModelView>) -> Seq<Resource> {
    match model {
        Some(m) => m.releases(),
        None => Seq::empty(),
    }
}

/// No two models have the same name.
pub open spec fn names_distinct(models: Seq<ModelEntryView>) -> bool {
    forall|i: int, j: int|
        0 <= i < j < models.len() ==> (#[trigger] models[i]).name != (#[trigger] models[j]).name
}

/// The models after one is loaded: in place of the model that had its name, or
/// else behind all others.
pub open spec fn with_model(
    models: Seq<ModelEntryView>,
    name: Seq<char>,
    model: LoadedModelView,
) -> Seq<ModelEntryView> {
    if is_loaded(models, name) {
        models.update(position_of(models, name), ModelEntryView { name, model })
    } else {
        models.push(ModelEntryView { name, model })
    }
}

/// The models after the one of this name is unloaded.
pub open spec fn without_model(models: Seq<ModelEntryView>, name: Seq<char>) -> Seq<ModelEntryView>
    recommends
        is_loaded(models, name),
{
    models.remove(position_of(models, name))
}

/// What all models hold, in the order in which it is given back: model after
/// model, in the order in which they were loaded.
pub open spec fn all_releases(models: Seq<ModelEntryView>) -> Seq<Resource>
    decreases models.len(),
{
    if models.len() == 0 {
        Seq::empty()
    } else {
        all_releases(models.drop_last()) + models.last().model.releases()
    }
}

/// The objects of the device that the models hold together.
pub open spec fn models_held(models: Seq<ModelEntryView>) -> Multiset<Resource> {
    all_releases(models).to_multiset()
}

/// Appends every handle of a list, as a resource of its kind.
fn push_input_vstreams(out: &mut Vec<Resource>, handles: &Vec<usize>)
    ensures
        final(out)@ == old(out)@ + input_vstreams(handles@),
{
    let mut i: usize = 0;
    while i < handles.len()
        invariant
            i <= handles@.len(),
            out@ == old(out)@ + input_vstreams(handles@.take(i as int)),
        decreases handles.len() - i,
    {
        out.push(Resource::InputVStream(handles[i]));
        assert(handles@.take(i + 1) =~= handles@.take(i as int).push(handles@[i as int]));
        assert(out@ =~= old(out)@ + input_vstreams(handles@.take(i + 1)));
        i += 1;
    }
    assert(handles@.take(i as int) =~= handles@);
}

/// Appends every handle of a list, as a resource of its kind.
fn push_output_vstreams(out: &mut Vec<Resource>, handles: &Vec<usize>)
    ensures
        final(out)@ == old(out)@ + output_vstreams(handles@),
{
    let mut i: usize = 0;
    while i < handles.len()
        invariant
            i <= handles@.len(),
            out@ == old(out)@ + output_vstreams(handles@.take(i as int)),
        decreases handles.len() - i,
    {
        out.push(Resource::OutputVStream(handles[i]));
        assert(handles@.take(i + 1) =~= handles@.take(i as int).push(handles@[i as int]));
        assert(out@ =~= old(out)@ + output_vstreams(handles@.take(i + 1)));
        i += 1;
    }
    assert(handles@.take(i as int) =~= handles@);
}

/// What a list of input streams is given back as.
pub(crate) fn input_vstream_releases(handles: &Vec<usize>) -> (releases: Vec<Resource>)
    ensures
        releases@ == input_vstreams(handles@),
{
    let mut releases: Vec<Resource> = Vec::new();
    push_input_vstreams(&mut releases, handles);
    assert(releases@ =~= input_vstreams(handles@));
    releases
}

/// Appends what a model holds, in the order in which it is given back.
pub(crate) fn push_releases(out: &mut Vec<Resource>, model: &LoadedModel)
    ensures
        final(out)@ == old(out)@ + model@.releases(),
{
    push_input_vstreams(out, &model.input_vstreams);
    push_output_vstreams(out, &model.output_vstreams);
    out.push(Resource::NetworkGroup(model.network_group));
    assert(out@ =~= old(out)@ + model@.releases());
}

/// Lists what to release for a model, in the correct order: the streams before
/// the network group they belong to.
pub fn release_model(model: LoadedModel) -> (releases: Vec<Resource>)
    ensures
        releases@ == model@.releases(),
{
    let mut releases: Vec<Resource> = Vec::new();
    push_releases(&mut releases, &model);
    assert(releases@ =~= model@.releases());
    releases
}

} // verus!
