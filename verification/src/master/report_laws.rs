//! Laws of what the master reports: every number, name and byte of an answer can
//! be read off the report.

use vstd::prelude::*;

use crate::master::report::bracketed;
use crate::master::report::comma_separated;
use crate::master::report::debug_form;
use crate::master::report::debug_forms;
use crate::master::report::inferred_report;
use crate::master::report::loaded_report;
use crate::master::report::preview;
use crate::master::report::status_lines;
use crate::master::report::status_report;
use crate::master::report::unloaded_report;
use crate::messages::GetStatusResponseView;
use crate::messages::LoadModelResponseView;
use crate::messages::RunInferenceResponseView;
use crate::text::decimal;
use crate::text::hex_bytes;
use crate::text_laws::bool_is_its_word;
use crate::text_laws::decimal_reads_back;
use crate::text_laws::hex_bytes_read_back;
use crate::text_laws::reads_as;
use crate::text_laws::shows_bytes;

verus! {

/// Whether `shown` are the bytes at the start of an output: all of them, or the
/// first thirty-two.
pub open spec fn starts_output(shown: Seq<u8>, output: Seq<u8>) -> bool {
    &&& output.len() <= 32 ==> shown.len() == output.len()
    &&& output.len() > 32 ==> shown.len() == 32
    &&& forall|i: int| 0 <= i < shown.len() ==> #[trigger] shown[i] == output[i]
}

/// Whether a text reports an inference: the worker, how many bytes came out, how
/// long it took, and the bytes at the start of the output.
pub open spec fn reports_inference(
    text: Seq<char>,
    worker: Seq<char>,
    output: Seq<u8>,
    latency_ms: int,
) -> bool {
    exists|size: Seq<char>, latency: Seq<char>, shown: Seq<u8>, hex: Seq<char>|
        #![trigger reads_as(size, output.len() as int), reads_as(latency, latency_ms), shows_bytes(hex, shown)]
        {
            &&& reads_as(size, output.len() as int)
            &&& reads_as(latency, latency_ms)
            &&& starts_output(shown, output)
            &&& shows_bytes(hex, shown)
            &&& text == "Worker "@ + worker + ": inference OK — "@ + size + " output bytes, "@
                + latency + "ms latency\n"@ + "Output preview: "@ + hex
        }
}

/// The report of an inference tells the worker, the number of bytes of the
/// output, the latency, and the first bytes of the output, at most thirty-two.
pub proof fn inference_report_shows_the_start_of_the_output(
    worker: Seq<char>,
    response: RunInferenceResponseView,
)
    ensures
        reports_inference(
            inferred_report(worker, response),
            worker,
            response.output_data,
            response.latency_ms as int,
        ),
{
    let output = response.output_data;
    let size = decimal(output.len());
    let latency = decimal(response.latency_ms as nat);
    let shown = preview(output);
    let hex = hex_bytes(shown);
    decimal_reads_back(output.len());
    decimal_reads_back(response.latency_ms as nat);
    hex_bytes_read_back(shown);
    assert(starts_output(shown, output));
    assert(reads_as(size, output.len() as int) && reads_as(latency, response.latency_ms as int)
        && shows_bytes(hex, shown));
}

/// Whether a text reports a model that was loaded on a worker, with its numbers
/// of streams.
pub open spec fn reports_load(
    text: Seq<char>,
    worker: Seq<char>,
    model_name: Seq<char>,
    inputs: int,
    outputs: int,
) -> bool {
    exists|a: Seq<char>, b: Seq<char>|
        #![trigger reads_as(a, inputs), reads_as(b, outputs)]
        reads_as(a, inputs) && reads_as(b, outputs) && text == "Worker "@ + worker + ": model '"@
            + model_name + "' loaded (inputs="@ + a + ", outputs="@ + b + ")"@
}

/// The report of a model that was loaded tells the worker, the model and its
/// numbers of streams.
pub proof fn load_report_tells_the_streams(
    worker: Seq<char>,
    model_name: Seq<char>,
    response: LoadModelResponseView,
)
    ensures
        reports_load(
            loaded_report(worker, model_name, response),
            worker,
            model_name,
            response.input_count as int,
            response.output_count as int,
        ),
{
    decimal_reads_back(response.input_count as nat);
    decimal_reads_back(response.output_count as nat);
    let a = decimal(response.input_count as nat);
    let b = decimal(response.output_count as nat);
    assert(reads_as(a, response.input_count as int) && reads_as(b, response.output_count as int));
}

/// The report of a model that was unloaded tells the worker and the model.
pub proof fn unload_report_tells_the_model(worker: Seq<char>, model_name: Seq<char>)
    ensures
        unloaded_report(worker, model_name) == "Worker "@ + worker + ": model '"@ + model_name
            + "' unloaded"@,
{
}

/// Whether a text reports the status of a worker, with a text for its models.
pub open spec fn reports_status(
    text: Seq<char>,
    status: GetStatusResponseView,
    models: Seq<char>,
) -> bool {
    exists|total: Seq<char>| #[trigger]
        reads_as(total, status.total_inferences as int) && text == "Worker: "@ + status.worker_id
            + "\n  Hostname:          "@ + status.hostname + "\n  Loaded models:     "@ + models
            + "\n  Total inferences:  "@ + total + "\n  Hardware active:   "@ + (
        if status.hardware_active {
            seq!['t', 'r', 'u', 'e']
        } else {
            seq!['f', 'a', 'l', 's', 'e']
        }) + "\n"@
}

/// The report of a status tells everything that the worker answered.
pub proof fn status_report_tells_everything(status: GetStatusResponseView, models: Seq<char>)
    ensures
        reports_status(status_lines(status, models), status, models),
        status_report(status) == status_lines(
            status,
            seq!['['] + comma_separated(debug_forms(status.loaded_models)) + seq![']'],
        ),
{
    decimal_reads_back(status.total_inferences as nat);
    bool_is_its_word(status.hardware_active);
    let total = decimal(status.total_inferences as nat);
    assert(reads_as(total, status.total_inferences as int));
    brackets_enclose_the_list(debug_forms(status.loaded_models));
}

/// A list is written between brackets.
pub proof fn brackets_enclose_the_list(items: Seq<Seq<char>>)
    ensures
        bracketed(items) == seq!['['] + comma_separated(items) + seq![']'],
{
    reveal_strlit("[");
    reveal_strlit("]");
    assert("["@ =~= seq!['[']);
    assert("]"@ =~= seq![']']);
}

/// A list is written item by item: the first alone, and each further one behind
/// a comma and a space.
pub proof fn each_item_comes_behind_a_comma(items: Seq<Seq<char>>, item: Seq<char>)
    ensures
        comma_separated(Seq::empty()) == Seq::<char>::empty(),
        items.len() == 0 ==> comma_separated(items.push(item)) == item,
        items.len() > 0 ==> comma_separated(items.push(item)) == comma_separated(items) + seq![
            ',',
            ' ',
        ] + item,
{
    reveal_strlit(", ");
    assert(", "@ =~= seq![',', ' ']);
    assert(items.push(item).drop_last() =~= items);
}

/// The loaded models are shown each in its own form, in order.
pub proof fn each_model_is_shown(items: Seq<Seq<char>>)
    ensures
        debug_forms(items).len() == items.len(),
        forall|i: int|
            0 <= i < items.len() ==> #[trigger] debug_forms(items)[i] == debug_form(items[i]),
{
}

} // verus!
