//! What the master reports of the answers of workers.

use vstd::prelude::*;

use crate::messages::string_views;
use crate::messages::GetStatusResponse;
use crate::messages::GetStatusResponseView;
use crate::messages::LoadModelResponse;
use crate::messages::LoadModelResponseView;
use crate::messages::RunInferenceResponse;
use crate::messages::RunInferenceResponseView;
use crate::text::bool_text;
use crate::text::decimal;
use crate::text::hex_bytes;
use crate::text::hex_preview;
use crate::text::push_bool;
use crate::text::push_decimal;

verus! {

/// How many bytes of an output are shown.
pub const PREVIEW_BYTES: usize = 32;

/// The form in which std's `Debug` shows a text: in quotes, with escapes.
pub uninterp spec fn debug_form(text: Seq<char>) -> Seq<char>;

/// Shows a text in the form of std's `Debug` for `str`.
#[verifier::external_body]
fn debug_text(text: &str) -> (form: String)
    ensures
        form@ == debug_form(text@),
{
    format!("{:?}", text)
}

/// Texts with a comma and a space between neighbours.
pub open spec fn comma_separated(items: Seq<Seq<char>>) -> Seq<char>
    decreases items.len(),
{
    if items.len() == 0 {
        Seq::empty()
    } else if items.len() == 1 {
        items[0]
    } else {
        comma_separated(items.drop_last()) + ", "@ + items.last()
    }
}

/// A list of texts in brackets.
pub open spec fn bracketed(items: Seq<Seq<char>>) -> Seq<char> {
    "["@ + comma_separated(items) + "]"@
}

/// The `Debug` forms of a list of texts.
pub open spec fn debug_forms(items: Seq<Seq<char>>) -> Seq<Seq<char>> {
    items.map_values(|item: Seq<char>| debug_form(item))
}

/// The report of a status, with a text for the loaded models.
pub open spec fn status_lines(status: GetStatusResponseView, models: Seq<char>) -> Seq<char> {
    "Worker: "@ + status.worker_id + "\n  Hostname:          "@ + status.hostname
        + "\n  Loaded models:     "@ + models + "\n  Total inferences:  "@ + decimal(
        status.total_inferences as nat,
    ) + "\n  Hardware active:   "@ + bool_text(status.hardware_active) + "\n"@
}

/// The report of a status.
pub open spec fn status_report(status: GetStatusResponseView) -> Seq<char> {
    status_lines(status, bracketed(debug_forms(status.loaded_models)))
}

/// The report of a model that was loaded.
pub open spec fn loaded_report(
    worker: Seq<char>,
    model_name: Seq<char>,
    response: LoadModelResponseView,
) -> Seq<char> {
    "Worker "@ + worker + ": model '"@ + model_name + "' loaded (inputs="@ + decimal(
        response.input_count as nat,
    ) + ", outputs="@ + decimal(response.output_count as nat) + ")"@
}

/// The report of a model that was unloaded.
pub open spec fn unloaded_report(worker: Seq<char>, model_name: Seq<char>) -> Seq<char> {
    "Worker "@ + worker + ": model '"@ + model_name + "' unloaded"@
}

/// The bytes of an output that are shown: the first ones.
pub open spec fn preview(output: Seq<u8>) -> Seq<u8> {
    if output.len() < PREVIEW_BYTES {
        output
    } else {
        output.take(PREVIEW_BYTES as int)
    }
}

/// The report of an inference that succeeded: a line with the size of the output
/// and the latency, and a line with its first bytes.
pub open spec fn inferred_report(worker: Seq<char>, response: RunInferenceResponseView) -> Seq<
    char,
> {
    "Worker "@ + worker + ": inference OK — "@ + decimal(response.output_data.len())
        + " output bytes, "@ + decimal(response.latency_ms as nat) + "ms latency\n"@
        + "Output preview: "@ + hex_bytes(preview(response.output_data))
}

/// Renders a list of texts in brackets.
pub fn bracketed_text(items: &Vec<String>) -> (text: String)
    ensures
        text@ == bracketed(string_views(items@)),
{
    let ghost views = string_views(items@);
    let mut text = String::new();
    text.append("[");
    let mut i: usize = 0;
    assert(text@ =~= "["@ + comma_separated(views.take(0)));
    while i < items.len()
        invariant
            i <= items@.len(),
            views == string_views(items@),
            text@ == "["@ + comma_separated(views.take(i as int)),
        decreases items.len() - i,
    {
        let ghost after = views.take(i + 1);
        assert(after.drop_last() =~= views.take(i as int));
        assert(after.last() == items@[i as int]@);
        if i > 0 {
            text.append(", ");
        }
        text.append(items[i].as_str());
        assert(text@ =~= "["@ + comma_separated(after));
        i += 1;
    }
    assert(views.take(i as int) =~= views);
    text.append("]");
    assert(text@ =~= bracketed(views));
    text
}

/// Shows each text of a list in the form of std's `Debug`.
fn debug_texts(items: &Vec<String>) -> (forms: Vec<String>)
    ensures
        string_views(forms@) == debug_forms(string_views(items@)),
{
    let mut forms: Vec<String> = Vec::new();
    let mut i: usize = 0;
    while i < items.len()
        invariant
            i <= items@.len(),
            forms@.len() == i,
            forall|k: int| 0 <= k < i ==> (#[trigger] forms@[k])@ == debug_form(items@[k]@),
        decreases items.len() - i,
    {
        forms.push(debug_text(items[i].as_str()));
        i += 1;
    }
    assert(string_views(forms@) =~= debug_forms(string_views(items@)));
    forms
}

/// Renders the report of a status, with a text for the loaded models.
pub fn status_lines_text(status: &GetStatusResponse, models: &str) -> (text: String)
    ensures
        text@ == status_lines(status@, models@),
{
    let mut text = String::new();
    text.append("Worker: ");
    text.append(status.worker_id.as_str());
    text.append("\n  Hostname:          ");
    text.append(status.hostname.as_str());
    text.append("\n  Loaded models:     ");
    text.append(models);
    text.append("\n  Total inferences:  ");
    push_decimal(&mut text, status.total_inferences);
    text.append("\n  Hardware active:   ");
    push_bool(&mut text, status.hardware_active);
    text.append("\n");
    assert(text@ =~= status_lines(status@, models@));
    text
}

/// Renders the report of a status.
pub fn status_text(status: &GetStatusResponse) -> (text: String)
    ensures
        text@ == status_report(status@),
{
    let forms = debug_texts(&status.loaded_models);
    let models = bracketed_text(&forms);
    status_lines_text(status, models.as_str())
}

/// Renders the report of a model that was loaded.
pub fn loaded_text(worker: &str, model_name: &str, response: &LoadModelResponse) -> (text: String)
    ensures
        text@ == loaded_report(worker@, model_name@, response@),
{
    let mut text = String::new();
    text.append("Worker ");
    text.append(worker);
    text.append(": model '");
    text.append(model_name);
    text.append("' loaded (inputs=");
    push_decimal(&mut text, response.input_count as u64);
    text.append(", outputs=");
    push_decimal(&mut text, response.output_count as u64);
    text.append(")");
    assert(text@ =~= loaded_report(worker@, model_name@, response@));
    text
}

/// Renders the report of a model that was unloaded.
pub fn unloaded_text(worker: &str, model_name: &str) -> (text: String)
    ensures
        text@ == unloaded_report(worker@, model_name@),
{
    let mut text = String::new();
    text.append("Worker ");
    text.append(worker);
    text.append(": model '");
    text.append(model_name);
    text.append("' unloaded");
    assert(text@ =~= unloaded_report(worker@, model_name@));
    text
}

/// Renders the report of an inference that succeeded.
pub fn inferred_text(worker: &str, response: &RunInferenceResponse) -> (text: String)
    ensures
        text@ == inferred_report(worker@, response@),
{
    let mut text = String::new();
    text.append("Worker ");
    text.append(worker);
    text.append(": inference OK — ");
    push_decimal(&mut text, response.output_data.len() as u64);
    text.append(" output bytes, ");
    push_decimal(&mut text, response.latency_ms as u64);
    text.append("ms latency\n");
    text.append("Output preview: ");
    let shown = hex_preview(&response.output_data, PREVIEW_BYTES);
    text.append(shown.as_str());
    proof {
        let output = response.output_data@;
        if output.len() < PREVIEW_BYTES {
            assert(output.take(output.len() as int) =~= output);
        }
        assert(text@ =~= inferred_report(worker@, response@));
    }
    text
}

} // verus!
