//! Laws of streams: how large a frame is, and which streams a model gets.

use vstd::prelude::*;

use crate::hailo::vstream::frame_size;
use crate::hailo::vstream::info_views;
use crate::hailo::vstream::output_frame_size;
use crate::hailo::vstream::params_of;
use crate::hailo::vstream::params_views;
use crate::hailo::vstream::plannable;
use crate::hailo::vstream::stream_plan;
use crate::hailo::vstream::NamedParams;
use crate::hailo::vstream::NamedParamsView;
use crate::hailo::vstream::StreamPlan;
use crate::hailo::vstream::VStreamInfo;
use crate::hailo::vstream::VStreamInfoView;
use crate::hailo::vstream::VStreamParams;

verus! {

/// Whether a stream carries detections: its element order is one of the five
/// that HailoRT has for them.
pub open spec fn carries_detections(info: VStreamInfoView) -> bool {
    info.format.order == 9 || 20 <= info.format.order <= 23
}

/// Whether `size` is the size in bytes of an element of a type: HailoRT numbers
/// sixteen bits as two and floats as three, and every other type takes a byte.
pub open spec fn is_element_size(format_type: i32, size: int) -> bool {
    &&& format_type == 3 ==> size == 4
    &&& format_type == 2 ==> size == 2
    &&& format_type != 2 && format_type != 3 ==> size == 1
}

/// A frame that is a tensor has the bytes of an element for each height, width
/// and feature.
pub proof fn tensor_frame_is_its_volume(info: VStreamInfoView, size: int)
    requires
        !carries_detections(info),
        is_element_size(info.format.format_type, size),
    ensures
        frame_size(info) == info.shape.height * info.shape.width * info.shape.features * size,
{
}

/// The size of a tensor is proportional to each of its dimensions: a tensor of
/// `k` times the height, width or features has `k` times the size.
pub proof fn tensor_frame_is_proportional(a: VStreamInfoView, b: VStreamInfoView, k: nat)
    requires
        !carries_detections(a),
        a.format == b.format,
        ({
            ||| b.shape.height == k * a.shape.height && b.shape.width == a.shape.width
                && b.shape.features == a.shape.features
            ||| b.shape.height == a.shape.height && b.shape.width == k * a.shape.width
                && b.shape.features == a.shape.features
            ||| b.shape.height == a.shape.height && b.shape.width == a.shape.width
                && b.shape.features == k * a.shape.features
        }),
    ensures
        frame_size(b) == k * frame_size(a),
{
    let size: int = if a.format.format_type == 3 {
        4
    } else if a.format.format_type == 2 {
        2
    } else {
        1
    };
    tensor_frame_is_its_volume(a, size);
    tensor_frame_is_its_volume(b, size);
    let (h, w, f) = (a.shape.height as int, a.shape.width as int, a.shape.features as int);
    let m = k as int;
    assert((m * h) * w * f * size == m * (h * w * f * size)) by (nonlinear_arith);
    assert(h * (m * w) * f * size == m * (h * w * f * size)) by (nonlinear_arith);
    assert(h * w * (m * f) * size == m * (h * w * f * size)) by (nonlinear_arith);
}

/// A frame of detections has seven elements for each of the most detections of
/// each class.
pub proof fn detection_frame_has_seven_elements_each(info: VStreamInfoView, size: int)
    requires
        carries_detections(info),
        is_element_size(info.format.format_type, size),
    ensures
        frame_size(info) == info.nms_shape.number_of_classes * info.nms_shape.max_bboxes_per_class
            * 7 * size,
{
}

/// Whether parameters leave the choice of format to the device library, with a
/// timeout of ten seconds, room for two frames, and no statistics.
pub open spec fn are_defaults(params: VStreamParams) -> bool {
    &&& params.user_buffer_format.format_type == 0
    &&& params.user_buffer_format.order == 0
    &&& params.user_buffer_format.flags == 0
    &&& params.timeout_ms == 10_000
    &&& params.queue_size == 2
    &&& params.vstream_stats_flags == 0
    &&& params.pipeline_elements_stats_flags == 0
}

/// A model file without streams needs none.
pub proof fn no_stream_needs_nothing()
    ensures
        stream_plan(Seq::empty()).input_params.len() == 0,
        stream_plan(Seq::empty()).output_params.len() == 0,
        stream_plan(Seq::empty()).output_frame_size == 0,
        stream_plan(Seq::empty()).input_count == 0,
        stream_plan(Seq::empty()).output_count == 0,
{
    reveal(Seq::filter);
    assert(params_of(Seq::empty(), 0) =~= Seq::empty());
    assert(params_of(Seq::empty(), 1) =~= Seq::empty());
}

proof fn lemma_params_of_push(infos: Seq<VStreamInfoView>, info: VStreamInfoView, direction: i32)
    ensures
        info.direction != direction ==> params_of(infos.push(info), direction) == params_of(
            infos,
            direction,
        ),
        info.direction == direction ==> {
            let after = params_of(infos.push(info), direction);
            &&& after.len() == params_of(infos, direction).len() + 1
            &&& after.drop_last() == params_of(infos, direction)
            &&& after.last().name == info.name
            &&& are_defaults(after.last().params)
        },
{
    reveal(Seq::filter);
    let pred = |i: VStreamInfoView| i.direction == direction;
    let after = infos.push(info);
    assert(after.drop_last() =~= infos);
    assert(after.filter(pred) == if pred(info) {
        infos.filter(pred).push(info)
    } else {
        infos.filter(pred)
    });
    if info.direction == direction {
        assert(params_of(after, direction).drop_last() =~= params_of(infos, direction));
    } else {
        assert(params_of(after, direction) =~= params_of(infos, direction));
    }
}

/// One stream more in a model file: one that goes to the device adds an input
/// stream of its name behind the others, one that comes from the device adds an
/// output stream and the size of its frame, and any other adds nothing.
pub proof fn each_stream_adds_to_the_plan(infos: Seq<VStreamInfoView>, info: VStreamInfoView)
    ensures
        ({
            let before = stream_plan(infos);
            let after = stream_plan(infos.push(info));
            &&& if info.direction == 0 {
                &&& after.input_params.len() == before.input_params.len() + 1
                &&& after.input_params.drop_last() == before.input_params
                &&& after.input_params.last().name == info.name
                &&& are_defaults(after.input_params.last().params)
            } else {
                after.input_params == before.input_params
            }
            &&& if info.direction == 1 {
                &&& after.output_params.len() == before.output_params.len() + 1
                &&& after.output_params.drop_last() == before.output_params
                &&& after.output_params.last().name == info.name
                &&& are_defaults(after.output_params.last().params)
                &&& after.output_frame_size == before.output_frame_size + frame_size(info)
            } else {
                &&& after.output_params == before.output_params
                &&& after.output_frame_size == before.output_frame_size
            }
            &&& after.input_count == after.input_params.len()
            &&& after.output_count == after.output_params.len()
        }),
{
    lemma_params_of_push(infos, info, 0);
    lemma_params_of_push(infos, info, 1);
    assert(infos.push(info).drop_last() =~= infos);
}

/// A model file can be planned for exactly if it has at most forty streams and
/// its output frame fits in memory.
pub proof fn what_can_be_planned_for(infos: Seq<VStreamInfoView>)
    ensures
        plannable(infos) <==> infos.len() <= 40 && stream_plan(infos).output_frame_size
            <= usize::MAX,
        stream_plan(infos).output_frame_size == output_frame_size(infos),
{
}

/// The value of a stream info is its parts.
pub proof fn info_is_its_parts(info: VStreamInfo)
    ensures
        info@.name == info.name@,
        info@.direction == info.direction,
        info@.format == info.format,
        info@.shape == info.shape,
        info@.nms_shape == info.nms_shape,
{
}

/// The values of a list of stream infos are those of its items, in order.
pub proof fn infos_are_their_items(infos: Seq<VStreamInfo>)
    ensures
        info_views(infos).len() == infos.len(),
        forall|i: int| 0 <= i < infos.len() ==> #[trigger] info_views(infos)[i] == infos[i]@,
{
}

/// The values of a list of stream parameters are those of its items, in order.
pub proof fn params_are_their_items(params: Seq<NamedParams>)
    ensures
        params_views(params).len() == params.len(),
        forall|i: int|
            0 <= i < params.len() ==> #[trigger] params_views(params)[i] == (NamedParamsView {
                name: params[i].name@,
                params: params[i].params,
            }),
{
}

/// The value of a plan is its parts.
pub proof fn plan_is_its_parts(plan: StreamPlan)
    ensures
        plan@.input_params == params_views(plan.input_params@),
        plan@.output_params == params_views(plan.output_params@),
        plan@.output_frame_size == plan.output_frame_size,
        plan@.input_count == plan.input_count,
        plan@.output_count == plan.output_count,
{
}

} // verus!
