//! Laws of inference: the chunks of a buffer are the whole buffer, and an
//! inference serves every stream once.

use vstd::prelude::*;

use crate::hailo::infer::chunk_begin;
use crate::hailo::infer::chunk_end;
use crate::hailo::infer::infer_answers;
use crate::hailo::infer::infer_next;
use crate::hailo::infer::infer_settle;
use crate::hailo::infer::infer_start;
use crate::hailo::infer::lemma_chunk_in_bounds;
use crate::hailo::infer::zeros;
use crate::hailo::infer::InferCall;
use crate::hailo::infer::InferCallView;
use crate::hailo::infer::InferNext;
use crate::hailo::infer::InferReply;
use crate::hailo::infer::InferReplyView;
use crate::hailo::infer::InferStep;
use crate::hailo::infer::InferenceView;
use crate::hailo::models::LoadedModelView;
use crate::hailo::status::HailoErrorView;
use crate::hailo::status::StatusView;

verus! {

/// A chunk lies within the buffer; the first begins where the buffer does, each
/// ends where the next begins, and the last ends where the buffer does. All but
/// the last have the same size.
pub proof fn chunks_partition_the_buffer(i: int, n: int, len: int)
    requires
        0 <= i < n,
        0 <= len,
    ensures
        0 <= chunk_begin(i, n, len) <= chunk_end(i, n, len) <= len,
        i == 0 ==> chunk_begin(i, n, len) == 0,
        i + 1 < n ==> chunk_end(i, n, len) == chunk_begin(i + 1, n, len),
        i + 1 < n ==> chunk_end(i, n, len) - chunk_begin(i, n, len) == len / n,
        i + 1 == n ==> chunk_end(i, n, len) == len,
{
    lemma_chunk_in_bounds(i, n, len);
    let size = len / n;
    assert((i + 1) * size - i * size == size) by (nonlinear_arith);
}

/// The first `k` of `n` chunks of a buffer, one behind the other.
pub open spec fn first_chunks(buffer: Seq<u8>, n: int, k: int) -> Seq<u8>
    decreases k,
{
    if k <= 0 {
        Seq::empty()
    } else {
        first_chunks(buffer, n, k - 1) + buffer.subrange(
            chunk_begin(k - 1, n, buffer.len() as int),
            chunk_end(k - 1, n, buffer.len() as int),
        )
    }
}

proof fn lemma_first_chunks(buffer: Seq<u8>, n: int, k: int)
    requires
        0 < k <= n,
    ensures
        first_chunks(buffer, n, k) == buffer.take(chunk_end(k - 1, n, buffer.len() as int)),
        0 <= chunk_end(k - 1, n, buffer.len() as int) <= buffer.len(),
    decreases k,
{
    let len = buffer.len() as int;
    chunks_partition_the_buffer(k - 1, n, len);
    if k > 1 {
        lemma_first_chunks(buffer, n, k - 1);
        chunks_partition_the_buffer(k - 2, n, len);
    } else {
        assert(first_chunks(buffer, n, 0) =~= Seq::empty());
    }
    assert(first_chunks(buffer, n, k) =~= buffer.take(chunk_end(k - 1, n, len)));
}

/// The chunks that are written to the input streams are the input, whole and in
/// order.
pub proof fn chunks_make_up_the_buffer(buffer: Seq<u8>, n: int)
    requires
        0 < n,
    ensures
        first_chunks(buffer, n, n) == buffer,
{
    lemma_first_chunks(buffer, n, n);
    chunks_partition_the_buffer(n - 1, n, buffer.len() as int);
    assert(buffer.take(buffer.len() as int) =~= buffer);
}

/// The status that a reply carries.
pub open spec fn report_of(reply: InferReplyView) -> StatusView {
    match reply {
        InferReplyView::Written { report } => report,
        InferReplyView::Read { report, .. } => report,
    }
}

/// The name of the device function that a reply comes from.
pub open spec fn context_of(reply: InferReplyView) -> Seq<char> {
    match reply {
        InferReplyView::Written { .. } => "hailo_input_vstream_write"@,
        InferReplyView::Read { .. } => "hailo_output_vstream_read"@,
    }
}

/// The data of the reads among a sequence of replies, one behind the other.
pub open spec fn data_read(replies: Seq<InferReplyView>) -> Seq<u8>
    decreases replies.len(),
{
    if replies.len() == 0 {
        Seq::empty()
    } else {
        let first = match replies[0] {
            InferReplyView::Read { data, .. } => data,
            InferReplyView::Written { .. } => Seq::empty(),
        };
        first + data_read(replies.drop_first())
    }
}

/// The streams that an inference serves during a sequence of replies.
pub open spec fn streams_served(state: InferenceView, replies: Seq<InferReplyView>) -> Seq<usize>
    decreases replies.len(),
{
    if replies.len() == 0 {
        Seq::empty()
    } else {
        let first = match state.call() {
            InferCallView::Write { vstream, .. } => vstream,
            InferCallView::Read { vstream, .. } => vstream,
        };
        match infer_next(state, replies[0]) {
            InferNext::Continue(next) => seq![first] + streams_served(next, replies.drop_first()),
            InferNext::Finished(_) => seq![first],
        }
    }
}

/// The data that an inference writes during a sequence of replies, one chunk
/// behind the other.
pub open spec fn data_written(state: InferenceView, replies: Seq<InferReplyView>) -> Seq<u8>
    decreases replies.len(),
{
    if replies.len() == 0 {
        Seq::empty()
    } else {
        let first = match state.call() {
            InferCallView::Write { chunk, .. } => chunk,
            InferCallView::Read { .. } => Seq::empty(),
        };
        match infer_next(state, replies[0]) {
            InferNext::Continue(next) => first + data_written(next, replies.drop_first()),
            InferNext::Finished(_) => first,
        }
    }
}

/// Where an inference is after a sequence of replies.
pub open spec fn infer_run(state: InferenceView, replies: Seq<InferReplyView>) -> InferNext
    decreases replies.len(),
{
    if replies.len() == 0 {
        InferNext::Continue(state)
    } else {
        match infer_next(state, replies[0]) {
            InferNext::Continue(next) => infer_run(next, replies.drop_first()),
            InferNext::Finished(outcome) => InferNext::Finished(outcome),
        }
    }
}

/// Whether each reply answers the call that the inference waits for, and none
/// comes after the end.
pub open spec fn infer_replies(state: InferenceView, replies: Seq<InferReplyView>) -> bool
    decreases replies.len(),
{
    replies.len() > 0 ==> {
        &&& infer_answers(state.call(), replies[0])
        &&& match infer_next(state, replies[0]) {
            InferNext::Continue(next) => infer_replies(next, replies.drop_first()),
            InferNext::Finished(_) => replies.len() == 1,
        }
    }
}

/// How many streams are still to be served.
pub open spec fn streams_left(state: InferenceView) -> int {
    state.model.input_vstreams.len() - state.written + state.model.output_vstreams.len()
        - state.read
}

/// A step keeps an inference consistent, and serves one stream.
proof fn lemma_infer_step(state: InferenceView, reply: InferReplyView)
    requires
        state.consistent(),
        !state.complete(),
        infer_answers(state.call(), reply),
    ensures
        infer_next(state, reply) matches InferNext::Continue(next) ==> {
            &&& next.consistent()
            &&& !next.complete()
            &&& next.model == state.model
            &&& next.out_size == state.out_size
            &&& next.output == state.output + data_read(seq![reply])
            &&& streams_left(next) == streams_left(state) - 1
            &&& report_of(reply).ok()
        },
        infer_next(state, reply) matches InferNext::Finished(Ok(output)) ==> {
            &&& output.len() == state.out_size
            &&& output == if state.model.output_vstreams.len() == 0 {
                zeros(state.out_size)
            } else {
                state.output + data_read(seq![reply])
            }
            &&& streams_left(state) == 1
            &&& report_of(reply).ok()
        },
        infer_next(state, reply) matches InferNext::Finished(Err(error)) ==> {
            &&& !report_of(reply).ok()
            &&& error == report_of(reply).error(context_of(reply))
        },
{
    let outputs = state.model.output_vstreams.len() as int;
    let out_size = state.out_size as int;
    assert(data_read(seq![reply].drop_first()) =~= Seq::empty());
    match reply {
        InferReplyView::Written { .. } => {
            assert(state.output + data_read(seq![reply]) =~= state.output);
        },
        InferReplyView::Read { data, .. } => {
            assert(data_read(seq![reply]) =~= data);
            chunks_partition_the_buffer(state.read as int, outputs, out_size);
            if state.read > 0 {
                chunks_partition_the_buffer(state.read - 1, outputs, out_size);
            }
        },
    }
}

proof fn lemma_infer_run(state: InferenceView, replies: Seq<InferReplyView>)
    requires
        state.consistent(),
        !state.complete(),
        infer_replies(state, replies),
    ensures
        infer_run(state, replies) matches InferNext::Finished(Ok(output)) ==> {
            &&& output.len() == state.out_size
            &&& output == if state.model.output_vstreams.len() == 0 {
                zeros(state.out_size)
            } else {
                state.output + data_read(replies)
            }
            &&& replies.len() == streams_left(state)
            &&& forall|i: int| 0 <= i < replies.len() ==> report_of(#[trigger] replies[i]).ok()
        },
        infer_run(state, replies) matches InferNext::Finished(Err(error)) ==> {
            &&& replies.len() > 0
            &&& forall|i: int|
                0 <= i < replies.len() - 1 ==> report_of(#[trigger] replies[i]).ok()
            &&& !report_of(replies.last()).ok()
            &&& error == report_of(replies.last()).error(context_of(replies.last()))
        },
    decreases replies.len(),
{
    if replies.len() > 0 {
        let first = replies[0];
        let rest = replies.drop_first();
        lemma_infer_step(state, first);
        assert(data_read(seq![first].drop_first()) =~= Seq::empty());
        assert(data_read(replies) =~= data_read(seq![first]) + data_read(rest));
        match infer_next(state, first) {
            InferNext::Continue(next) => {
                lemma_infer_run(next, rest);
                assert(state.output + data_read(replies) =~= next.output + data_read(rest));
                assert forall|i: int|
                    0 < i < replies.len() && report_of(rest[i - 1]).ok() implies report_of(
                    #[trigger] replies[i],
                ).ok() by {
                    assert(rest[i - 1] == replies[i]);
                }
            },
            InferNext::Finished(_) => {
                assert(data_read(rest) =~= Seq::empty());
                assert(data_read(replies) =~= data_read(seq![first]));
            },
        }
    }
}

/// What is left of the input to write.
spec fn input_left(state: InferenceView) -> Seq<u8> {
    let inputs = state.model.input_vstreams.len() as int;
    let len = state.input.len() as int;
    if state.written < inputs {
        state.input.skip(chunk_begin(state.written as int, inputs, len))
    } else {
        Seq::empty()
    }
}

/// The streams that are still to be served, in order.
spec fn streams_ahead(state: InferenceView) -> Seq<usize> {
    state.model.input_vstreams.skip(state.written as int) + state.model.output_vstreams.skip(
        state.read as int,
    )
}

proof fn lemma_streams_served(state: InferenceView, replies: Seq<InferReplyView>)
    requires
        state.consistent(),
        !state.complete(),
        infer_replies(state, replies),
    ensures
        streams_served(state, replies).is_prefix_of(streams_ahead(state)),
        infer_run(state, replies) matches InferNext::Finished(Ok(_)) ==> streams_served(
            state,
            replies,
        ) == streams_ahead(state),
    decreases replies.len(),
{
    let inputs = state.model.input_vstreams;
    let outputs = state.model.output_vstreams;
    if replies.len() > 0 {
        let first = replies[0];
        let rest = replies.drop_first();
        lemma_infer_step(state, first);
        let served = if state.written < inputs.len() {
            inputs[state.written as int]
        } else {
            outputs[state.read as int]
        };
        let ahead = if state.written < inputs.len() {
            inputs.skip(state.written as int + 1) + outputs.skip(state.read as int)
        } else {
            inputs.skip(state.written as int) + outputs.skip(state.read as int + 1)
        };
        assert(streams_ahead(state) =~= seq![served] + ahead);
        match infer_next(state, first) {
            InferNext::Continue(next) => {
                lemma_streams_served(next, rest);
                assert(streams_ahead(next) == ahead);
                assert(streams_served(state, replies) =~= seq![served] + streams_served(next, rest));
            },
            InferNext::Finished(outcome) => {
                assert(streams_served(state, replies) =~= seq![served]);
                if outcome is Ok {
                    assert(ahead =~= Seq::empty());
                }
            },
        }
    }
}

/// An inference serves the streams of the model in order, first those that take
/// input and then those that give output, each of them at most once. One that
/// succeeds has served all of them.
pub proof fn inference_serves_streams_in_order(
    model: LoadedModelView,
    input: Seq<u8>,
    expected_output_size: nat,
    replies: Seq<InferReplyView>,
)
    requires
        !infer_start(model, input, expected_output_size).complete(),
        infer_replies(infer_start(model, input, expected_output_size), replies),
    ensures
        streams_served(infer_start(model, input, expected_output_size), replies).is_prefix_of(
            model.input_vstreams + model.output_vstreams,
        ),
        infer_run(
            infer_start(model, input, expected_output_size),
            replies,
        ) matches InferNext::Finished(Ok(_)) ==> streams_served(
            infer_start(model, input, expected_output_size),
            replies,
        ) == model.input_vstreams + model.output_vstreams,
{
    lemma_streams_served(infer_start(model, input, expected_output_size), replies);
    assert(model.input_vstreams.skip(0) =~= model.input_vstreams);
    assert(model.output_vstreams.skip(0) =~= model.output_vstreams);
}

proof fn lemma_data_written(state: InferenceView, replies: Seq<InferReplyView>)
    requires
        state.consistent(),
        !state.complete(),
        infer_replies(state, replies),
    ensures
        data_written(state, replies).is_prefix_of(input_left(state)),
        replies.len() >= state.model.input_vstreams.len() - state.written ==> data_written(
            state,
            replies,
        ) == input_left(state),
    decreases replies.len(),
{
    let inputs = state.model.input_vstreams.len() as int;
    let len = state.input.len() as int;
    if state.written < inputs {
        chunks_partition_the_buffer(state.written as int, inputs, len);
    }
    if replies.len() > 0 {
        let first = replies[0];
        let rest = replies.drop_first();
        lemma_infer_step(state, first);
        let chunk = if state.written < inputs {
            state.input.subrange(
                chunk_begin(state.written as int, inputs, len),
                chunk_end(state.written as int, inputs, len),
            )
        } else {
            Seq::empty()
        };
        match infer_next(state, first) {
            InferNext::Continue(next) => {
                lemma_data_written(next, rest);
                assert(input_left(state) =~= chunk + input_left(next));
                assert(data_written(state, replies) =~= chunk + data_written(next, rest));
            },
            InferNext::Finished(_) => {
                assert(data_written(state, replies) =~= chunk);
                if state.written + 1 >= inputs {
                    assert(input_left(state) =~= chunk);
                }
            },
        }
    }
}

/// What an inference writes is the input, from its start on. Once every input
/// stream of a model was written to, it is the whole input, whatever becomes of
/// the reads.
pub proof fn inference_writes_the_whole_input(
    model: LoadedModelView,
    input: Seq<u8>,
    expected_output_size: nat,
    replies: Seq<InferReplyView>,
)
    requires
        model.input_vstreams.len() > 0,
        infer_replies(infer_start(model, input, expected_output_size), replies),
    ensures
        data_written(infer_start(model, input, expected_output_size), replies).is_prefix_of(input),
        replies.len() >= model.input_vstreams.len() ==> data_written(
            infer_start(model, input, expected_output_size),
            replies,
        ) == input,
{
    let inputs = model.input_vstreams.len() as int;
    lemma_data_written(infer_start(model, input, expected_output_size), replies);
    chunks_partition_the_buffer(0, inputs, input.len() as int);
    assert(input.skip(0) =~= input);
}

/// An inference ends whatever the device replies: each step leaves one stream
/// fewer to serve.
pub proof fn inference_step_progresses(state: InferenceView, reply: InferReplyView)
    requires
        state.consistent(),
        !state.complete(),
        infer_answers(state.call(), reply),
    ensures
        streams_left(state) > 0,
        infer_next(state, reply) matches InferNext::Continue(next) ==> {
            &&& next.consistent()
            &&& !next.complete()
            &&& streams_left(next) < streams_left(state)
        },
{
    lemma_infer_step(state, reply);
}

/// An inference that succeeds serves every stream of the model once, without
/// one failed call, and gives an output of the size that was settled at its
/// start: the data that was read, in the order of the streams, or zeros if the
/// model has no output stream. One that fails gives the error of its last call,
/// which is the only one that failed.
pub proof fn inference_serves_every_stream(
    model: LoadedModelView,
    input: Seq<u8>,
    expected_output_size: nat,
    replies: Seq<InferReplyView>,
)
    requires
        !infer_start(model, input, expected_output_size).complete(),
        infer_replies(infer_start(model, input, expected_output_size), replies),
    ensures
        match infer_run(infer_start(model, input, expected_output_size), replies) {
            InferNext::Finished(Ok(output)) => {
                &&& output.len() == infer_start(model, input, expected_output_size).out_size
                &&& output == if model.output_vstreams.len() == 0 {
                    zeros(infer_start(model, input, expected_output_size).out_size)
                } else {
                    data_read(replies)
                }
                &&& replies.len() == model.input_vstreams.len() + model.output_vstreams.len()
                &&& forall|i: int|
                    0 <= i < replies.len() ==> report_of(#[trigger] replies[i]).ok()
            },
            InferNext::Finished(Err(error)) => {
                &&& replies.len() > 0
                &&& forall|i: int|
                    0 <= i < replies.len() - 1 ==> report_of(#[trigger] replies[i]).ok()
                &&& !report_of(replies.last()).ok()
                &&& error == report_of(replies.last()).error(context_of(replies.last()))
            },
            InferNext::Continue(_) => true,
        },
{
    let start = infer_start(model, input, expected_output_size);
    lemma_infer_run(start, replies);
    assert(start.output + data_read(replies) =~= data_read(replies));
}

/// How an inference stands after a sequence of replies, from the moment it is
/// asked for.
pub open spec fn inference_after(
    model: LoadedModelView,
    input: Seq<u8>,
    expected_output_size: nat,
    replies: Seq<InferReplyView>,
) -> InferNext {
    match infer_settle(infer_start(model, input, expected_output_size)) {
        InferNext::Continue(state) => infer_run(state, replies),
        InferNext::Finished(outcome) => InferNext::Finished(outcome),
    }
}

/// Whether the replies to an inference answer its calls, and none comes after
/// the end.
pub open spec fn inference_gets(
    model: LoadedModelView,
    input: Seq<u8>,
    expected_output_size: nat,
    replies: Seq<InferReplyView>,
) -> bool {
    match infer_settle(infer_start(model, input, expected_output_size)) {
        InferNext::Continue(state) => infer_replies(state, replies),
        InferNext::Finished(_) => replies.len() == 0,
    }
}

proof fn lemma_infer_unfinished(state: InferenceView, replies: Seq<InferReplyView>)
    requires
        state.consistent(),
        !state.complete(),
        infer_replies(state, replies),
        infer_run(state, replies) is Continue,
    ensures
        replies.len() < streams_left(state),
        forall|i: int| 0 <= i < replies.len() ==> report_of(#[trigger] replies[i]).ok(),
    decreases replies.len(),
{
    if replies.len() > 0 {
        let rest = replies.drop_first();
        lemma_infer_step(state, replies[0]);
        match infer_next(state, replies[0]) {
            InferNext::Continue(next) => {
                lemma_infer_unfinished(next, rest);
                assert forall|i: int| 0 <= i < replies.len() implies report_of(
                    #[trigger] replies[i],
                ).ok() by {
                    if i > 0 {
                        assert(rest[i - 1] == replies[i]);
                    }
                }
            },
            InferNext::Finished(_) => {},
        }
    }
}

/// The output of an inference that succeeds has the size that was asked for; if
/// zero was asked for, it has the size of the model's output frame.
pub proof fn output_has_the_size_asked_for(
    model: LoadedModelView,
    input: Seq<u8>,
    expected_output_size: nat,
    replies: Seq<InferReplyView>,
)
    requires
        inference_gets(model, input, expected_output_size, replies),
    ensures
        inference_after(model, input, expected_output_size, replies) matches InferNext::Finished(
            Ok(output),
        ) ==> {
            &&& expected_output_size > 0 ==> output.len() == expected_output_size
            &&& expected_output_size == 0 ==> output.len() == model.output_frame_size
        },
{
    let start = infer_start(model, input, expected_output_size);
    if !start.complete() {
        inference_serves_every_stream(model, input, expected_output_size, replies);
    }
}

/// An inference ends exactly when each stream of the model was served once or a
/// call failed. It fails exactly if a call failed, and then with what that call
/// reported. Otherwise its output is what was read, in order, or zeros if the
/// model has no output stream.
pub proof fn inference_ends_as_its_calls_do(
    model: LoadedModelView,
    input: Seq<u8>,
    expected_output_size: nat,
    replies: Seq<InferReplyView>,
)
    requires
        inference_gets(model, input, expected_output_size, replies),
    ensures
        ({
            let streams = model.input_vstreams.len() + model.output_vstreams.len();
            match inference_after(model, input, expected_output_size, replies) {
                InferNext::Finished(Ok(output)) => {
                    &&& replies.len() == streams
                    &&& forall|i: int|
                        0 <= i < replies.len() ==> report_of(#[trigger] replies[i]).status == 0
                    &&& model.output_vstreams.len() > 0 ==> output == data_read(replies)
                    &&& model.output_vstreams.len() == 0 ==> forall|i: int|
                        0 <= i < output.len() ==> #[trigger] output[i] == 0
                },
                InferNext::Finished(Err(error)) => {
                    &&& replies.len() > 0
                    &&& replies.last() matches InferReplyView::Written { report } ==> {
                        &&& report.status != 0
                        &&& error == (HailoErrorView::CallFailed {
                            context: "hailo_input_vstream_write"@,
                            status: report.status,
                            message: report.message,
                        })
                    }
                    &&& replies.last() matches InferReplyView::Read { report, .. } ==> {
                        &&& report.status != 0
                        &&& error == (HailoErrorView::CallFailed {
                            context: "hailo_output_vstream_read"@,
                            status: report.status,
                            message: report.message,
                        })
                    }
                },
                InferNext::Continue(_) => {
                    &&& replies.len() < streams
                    &&& forall|i: int|
                        0 <= i < replies.len() ==> report_of(#[trigger] replies[i]).status == 0
                },
            }
        }),
{
    let start = infer_start(model, input, expected_output_size);
    assert(start.consistent());
    if !start.complete() {
        inference_serves_every_stream(model, input, expected_output_size, replies);
        if infer_run(start, replies) is Continue {
            lemma_infer_unfinished(start, replies);
        }
    }
}

/// The call number `k` of an inference serves the stream number `k` of the model.
/// Each input stream gets an equal share of the input and the last one the rest;
/// each output stream is asked for an equal share of the output and the last one
/// for the rest.
pub proof fn each_call_serves_its_share(state: InferenceView)
    requires
        state.consistent(),
        !state.complete(),
    ensures
        ({
            let inputs = state.model.input_vstreams;
            let outputs = state.model.output_vstreams;
            let n = inputs.len() as int;
            let m = outputs.len() as int;
            match state.call() {
                InferCallView::Write { vstream, chunk } => {
                    let share = state.input.len() as int / n;
                    let begin = state.written * share;
                    &&& state.written < n
                    &&& vstream == inputs[state.written as int]
                    &&& state.written + 1 < n ==> chunk.len() == share
                    &&& state.written + 1 == n ==> chunk.len() == state.input.len() - begin
                    &&& forall|k: int|
                        0 <= k < chunk.len() ==> #[trigger] chunk[k] == state.input[begin + k]
                },
                InferCallView::Read { vstream, size } => {
                    let share = state.out_size as int / m;
                    &&& state.written == n
                    &&& state.read < m
                    &&& vstream == outputs[state.read as int]
                    &&& state.read + 1 < m ==> size == share
                    &&& state.read + 1 == m ==> size == state.out_size - state.read * share
                },
            }
        }),
{
    if state.written < state.model.input_vstreams.len() {
        chunks_partition_the_buffer(
            state.written as int,
            state.model.input_vstreams.len() as int,
            state.input.len() as int,
        );
    } else {
        chunks_partition_the_buffer(
            state.read as int,
            state.model.output_vstreams.len() as int,
            state.out_size as int,
        );
    }
}

/// Every report of a write answers a write, and every report of a read with as
/// many bytes as were asked for answers a read.
pub proof fn what_answers_a_call(state: InferenceView, reply: InferReplyView)
    ensures
        infer_answers(state.call(), reply) <==> match state.call() {
            InferCallView::Write { .. } => reply is Written,
            InferCallView::Read { size, .. } => reply is Read && reply->data.len() == size,
        },
{
}

/// The values of calls, replies and steps are their parts.
pub proof fn calls_and_replies_are_their_parts(
    call: InferCall<'_>,
    reply: InferReply,
    step: InferStep<'_>,
)
    ensures
        match call {
            InferCall::Write { vstream, chunk } => call@ == (InferCallView::Write {
                vstream,
                chunk: chunk@,
            }),
            InferCall::Read { vstream, size } => call@ == (InferCallView::Read {
                vstream,
                size: size as nat,
            }),
        },
        match reply {
            InferReply::Written { report } => reply@ == (InferReplyView::Written {
                report: report@,
            }),
            InferReply::Read { report, data } => reply@ == (InferReplyView::Read {
                report: report@,
                data: data@,
            }),
        },
        match step {
            InferStep::Continue(inference) => step.next() == InferNext::Continue(inference@),
            InferStep::Finished(Ok(output)) => step.next() == InferNext::Finished(Ok(output@)),
            InferStep::Finished(Err(error)) => step.next() == InferNext::Finished(Err(error@)),
        },
{
}

} // verus!
