//! Virtual streams: what a model file says of them, the parameters they are
//! created with, and the size of the frames they carry.

use vstd::prelude::*;

verus! {

/// Direction of a stream that carries data from the host to the device.
pub const HAILO_H2D_STREAM: i32 = 0;

/// Direction of a stream that carries data from the device to the host.
pub const HAILO_D2H_STREAM: i32 = 1;

/// Element type chosen by the device library.
pub const HAILO_FORMAT_TYPE_AUTO: i32 = 0;

/// Sixteen-bit unsigned elements.
pub const HAILO_FORMAT_TYPE_UINT16: i32 = 2;

/// Thirty-two-bit floating point elements.
pub const HAILO_FORMAT_TYPE_FLOAT32: i32 = 3;

/// Element order chosen by the device library.
pub const HAILO_FORMAT_ORDER_AUTO: i32 = 0;

/// Detections of non-maximum suppression.
pub const HAILO_FORMAT_ORDER_HAILO_NMS: i32 = 9;

/// Detections, each with a byte mask.
pub const HAILO_FORMAT_ORDER_HAILO_NMS_WITH_BYTE_MASK: i32 = 20;

/// Detections computed on the chip.
pub const HAILO_FORMAT_ORDER_HAILO_NMS_ON_CHIP: i32 = 21;

/// Detections grouped by class.
pub const HAILO_FORMAT_ORDER_HAILO_NMS_BY_CLASS: i32 = 22;

/// Detections ordered by score.
pub const HAILO_FORMAT_ORDER_HAILO_NMS_BY_SCORE: i32 = 23;

/// No format flags.
pub const HAILO_FORMAT_FLAGS_NONE: i32 = 0;

/// Timeout of a stream, in milliseconds, unless another is asked for.
pub const HAILO_DEFAULT_VSTREAM_TIMEOUT_MS: u32 = 10_000;

/// Queue size of a stream unless another is asked for.
pub const HAILO_DEFAULT_VSTREAM_QUEUE_SIZE: u32 = 2;

/// No stream statistics.
pub const HAILO_VSTREAM_STATS_NONE: i32 = 0;

/// No pipeline statistics.
pub const HAILO_PIPELINE_ELEM_STATS_NONE: i32 = 0;

/// The most streams that a model file can report.
pub const HAILO_MAX_STREAMS_COUNT: usize = 40;

/// The format of the elements of a stream.
#[derive(Clone, Copy, Debug, PartialEq, Eq, Structural)]
pub struct Format {
    pub format_type: i32,
    pub order: i32,
    pub flags: i32,
}

/// The shape of a frame that is a three-dimensional tensor.
#[derive(Clone, Copy, Debug, PartialEq, Eq, Structural)]
pub struct ImageShape {
    pub height: u32,
    pub width: u32,
    pub features: u32,
}

/// The shape of a frame that holds detections.
#[derive(Clone, Copy, Debug, PartialEq, Eq, Structural)]
pub struct NmsShape {
    pub number_of_classes: u32,
    pub max_bboxes_per_class: u32,
}

/// What a model file says of one stream. The device library reports one shape;
/// both readings of it are kept, and the element order tells which one holds.
pub struct VStreamInfo {
    pub name: Vec<u8>,
    pub direction: i32,
    pub format: Format,
    pub shape: ImageShape,
    pub nms_shape: NmsShape,
}

/// The value of a [`VStreamInfo`].
pub struct VStreamInfoView {
    pub name: Seq<u8>,
    pub direction: i32,
    pub format: Format,
    pub shape: ImageShape,
    pub nms_shape: NmsShape,
}

impl View for VStreamInfo {
    type V = VStreamInfoView;

    open spec fn view(&self) -> VStreamInfoView {
        VStreamInfoView {
            name: self.name@,
            direction: self.direction,
            format: self.format,
            shape: self.shape,
            nms_shape: self.nms_shape,
        }
    }
}

/// The parameters that a stream is created with.
#[derive(Clone, Copy, Debug, PartialEq, Eq, Structural)]
pub struct VStreamParams {
    pub user_buffer_format: Format,
    pub timeout_ms: u32,
    pub queue_size: u32,
    pub vstream_stats_flags: i32,
    pub pipeline_elements_stats_flags: i32,
}

/// The parameters of the stream of a given name.
pub struct NamedParams {
    pub name: Vec<u8>,
    pub params: VStreamParams,
}

/// The value of a [`NamedParams`].
pub struct NamedParamsView {
    pub name: Seq<u8>,
    pub params: VStreamParams,
}

impl View for NamedParams {
    type V = NamedParamsView;

    open spec fn view(&self) -> NamedParamsView {
        NamedParamsView { name: self.name@, params: self.params }
    }
}

/// The values of a list of stream infos.
pub open spec fn info_views(infos: Seq<VStreamInfo>) -> Seq<VStreamInfoView> {
    infos.map_values(|info: VStreamInfo| info@)
}

/// The values of a list of stream parameters.
pub open spec fn params_views(params: Seq<NamedParams>) -> Seq<NamedParamsView> {
    params.map_values(|p: NamedParams| p@)
}

/// Automatic format, default timeout and queue size, no statistics.
pub open spec fn default_params() -> VStreamParams {
    VStreamParams {
        user_buffer_format: Format {
            format_type: HAILO_FORMAT_TYPE_AUTO,
            order: HAILO_FORMAT_ORDER_AUTO,
            flags: HAILO_FORMAT_FLAGS_NONE,
        },
        timeout_ms: HAILO_DEFAULT_VSTREAM_TIMEOUT_MS,
        queue_size: HAILO_DEFAULT_VSTREAM_QUEUE_SIZE,
        vstream_stats_flags: HAILO_VSTREAM_STATS_NONE,
        pipeline_elements_stats_flags: HAILO_PIPELINE_ELEM_STATS_NONE,
    }
}

/// Bytes that one element takes: four for a float, two for sixteen bits, else
/// one.
pub open spec fn bytes_per_element(format_type: i32) -> nat {
    if format_type == HAILO_FORMAT_TYPE_FLOAT32 {
        4
    } else if format_type == HAILO_FORMAT_TYPE_UINT16 {
        2
    } else {
        1
    }
}

/// Whether frames of this element order hold detections.
pub open spec fn is_nms_order(order: i32) -> bool {
    ||| order == HAILO_FORMAT_ORDER_HAILO_NMS
    ||| order == HAILO_FORMAT_ORDER_HAILO_NMS_WITH_BYTE_MASK
    ||| order == HAILO_FORMAT_ORDER_HAILO_NMS_ON_CHIP
    ||| order == HAILO_FORMAT_ORDER_HAILO_NMS_BY_CLASS
    ||| order == HAILO_FORMAT_ORDER_HAILO_NMS_BY_SCORE
}

/// The size of a frame in bytes: seven elements for each detection that fits,
/// or the volume of the tensor.
pub open spec fn frame_size(info: VStreamInfoView) -> nat {
    let bpe = bytes_per_element(info.format.format_type);
    if is_nms_order(info.format.order) {
        info.nms_shape.number_of_classes as nat * info.nms_shape.max_bboxes_per_class as nat * 7
            * bpe
    } else {
        info.shape.height as nat * info.shape.width as nat * info.shape.features as nat * bpe
    }
}

/// The size of one frame of every stream that leaves the device.
pub open spec fn output_frame_size(infos: Seq<VStreamInfoView>) -> nat
    decreases infos.len(),
{
    if infos.len() == 0 {
        0
    } else {
        output_frame_size(infos.drop_last()) + (if infos.last().direction == HAILO_D2H_STREAM {
            frame_size(infos.last())
        } else {
            0
        })
    }
}

/// The parameters for the streams of one direction, in the order in which the
/// model file lists them.
pub open spec fn params_of(infos: Seq<VStreamInfoView>, direction: i32) -> Seq<NamedParamsView> {
    infos.filter(|info: VStreamInfoView| info.direction == direction).map_values(
        |info: VStreamInfoView| NamedParamsView { name: info.name, params: default_params() },
    )
}

/// The streams that a model needs.
pub struct StreamPlan {
    pub input_params: Vec<NamedParams>,
    pub output_params: Vec<NamedParams>,
    pub output_frame_size: usize,
    pub input_count: u32,
    pub output_count: u32,
}

/// The value of a [`StreamPlan`].
pub struct StreamPlanView {
    pub input_params: Seq<NamedParamsView>,
    pub output_params: Seq<NamedParamsView>,
    pub output_frame_size: nat,
    pub input_count: nat,
    pub output_count: nat,
}

impl View for StreamPlan {
    type V = StreamPlanView;

    open spec fn view(&self) -> StreamPlanView {
        StreamPlanView {
            input_params: params_views(self.input_params@),
            output_params: params_views(self.output_params@),
            output_frame_size: self.output_frame_size as nat,
            input_count: self.input_count as nat,
            output_count: self.output_count as nat,
        }
    }
}

/// The streams that a model file with these infos needs.
pub open spec fn stream_plan(infos: Seq<VStreamInfoView>) -> StreamPlanView {
    StreamPlanView {
        input_params: params_of(infos, HAILO_H2D_STREAM),
        output_params: params_of(infos, HAILO_D2H_STREAM),
        output_frame_size: output_frame_size(infos),
        input_count: params_of(infos, HAILO_H2D_STREAM).len(),
        output_count: params_of(infos, HAILO_D2H_STREAM).len(),
    }
}

/// Whether a list of infos can be planned for: no more streams than the device
/// library can report, and an output frame whose size a `usize` can hold.
pub open spec fn plannable(infos: Seq<VStreamInfoView>) -> bool {
    &&& infos.len() <= HAILO_MAX_STREAMS_COUNT
    &&& output_frame_size(infos) <= usize::MAX
}

/// Constructs default stream parameters: automatic format, the default timeout
/// and queue size, no statistics.
pub fn default_vstream_params() -> (params: VStreamParams)
    ensures
        params == default_params(),
{
    VStreamParams {
        user_buffer_format: Format {
            format_type: HAILO_FORMAT_TYPE_AUTO,
            order: HAILO_FORMAT_ORDER_AUTO,
            flags: HAILO_FORMAT_FLAGS_NONE,
        },
        timeout_ms: HAILO_DEFAULT_VSTREAM_TIMEOUT_MS,
        queue_size: HAILO_DEFAULT_VSTREAM_QUEUE_SIZE,
        vstream_stats_flags: HAILO_VSTREAM_STATS_NONE,
        pipeline_elements_stats_flags: HAILO_PIPELINE_ELEM_STATS_NONE,
    }
}

/// The size of a frame, in a type that holds the size of every frame.
fn wide_frame_size(info: &VStreamInfo) -> (size: u128)
    ensures
        size == frame_size(info@),
        size <= 0x4_0000_0000_0000_0000_0000_0000,
{
    let bpe: u128 = if info.format.format_type == HAILO_FORMAT_TYPE_FLOAT32 {
        4
    } else if info.format.format_type == HAILO_FORMAT_TYPE_UINT16 {
        2
    } else {
        1
    };
    let order: i32 = info.format.order;
    let is_nms = order == HAILO_FORMAT_ORDER_HAILO_NMS
        || order == HAILO_FORMAT_ORDER_HAILO_NMS_WITH_BYTE_MASK
        || order == HAILO_FORMAT_ORDER_HAILO_NMS_ON_CHIP
        || order == HAILO_FORMAT_ORDER_HAILO_NMS_BY_CLASS
        || order == HAILO_FORMAT_ORDER_HAILO_NMS_BY_SCORE;
    let (x, y, z): (u32, u32, u32) = if is_nms {
        (info.nms_shape.number_of_classes, info.nms_shape.max_bboxes_per_class, 7)
    } else {
        (info.shape.height, info.shape.width, info.shape.features)
    };
    let (x, y, z): (u128, u128, u128) = (x as u128, y as u128, z as u128);
    assert(x * y <= 0x1_0000_0000_0000_0000) by (nonlinear_arith)
        requires
            0 <= x < 0x1_0000_0000,
            0 <= y < 0x1_0000_0000,
    ;
    let area: u128 = x * y;
    assert(area * z <= 0x1_0000_0000_0000_0000_0000_0000) by (nonlinear_arith)
        requires
            0 <= area <= 0x1_0000_0000_0000_0000,
            0 <= z < 0x1_0000_0000,
    ;
    let volume: u128 = area * z;
    assert(volume * bpe <= 0x4_0000_0000_0000_0000_0000_0000) by (nonlinear_arith)
        requires
            0 <= volume <= 0x1_0000_0000_0000_0000_0000_0000,
            0 <= bpe <= 4,
    ;
    volume * bpe
}

/// Estimates the output frame size in bytes from a stream info.
///
/// For detections the size is approximate: classes times detections of each
/// class times seven elements. For tensors it is exact. A caller of an inference
/// may ask for another size.
pub fn frame_size_of(info: &VStreamInfo) -> (size: usize)
    requires
        frame_size(info@) <= usize::MAX,
    ensures
        size == frame_size(info@),
{
    wide_frame_size(info) as usize
}

/// Appending an info appends its parameters, if it has the direction.
proof fn lemma_params_of_push(infos: Seq<VStreamInfoView>, direction: i32)
    requires
        infos.len() > 0,
    ensures
        params_of(infos, direction) == if infos.last().direction == direction {
            params_of(infos.drop_last(), direction).push(
                NamedParamsView { name: infos.last().name, params: default_params() },
            )
        } else {
            params_of(infos.drop_last(), direction)
        },
        params_of(infos, direction).len() <= infos.len(),
    decreases infos.len(),
{
    reveal(Seq::filter);
    let pred = |info: VStreamInfoView| info.direction == direction;
    let rest = infos.drop_last();
    assert(infos.filter(pred) == if pred(infos.last()) {
        rest.filter(pred).push(infos.last())
    } else {
        rest.filter(pred)
    });
    if rest.len() > 0 {
        lemma_params_of_push(rest, direction);
    }
    assert(params_of(infos, direction) =~= if infos.last().direction == direction {
        params_of(rest, direction).push(
            NamedParamsView { name: infos.last().name, params: default_params() },
        )
    } else {
        params_of(rest, direction)
    });
}

/// A longer list of infos needs no smaller output frame.
proof fn lemma_output_frame_size_grows(infos: Seq<VStreamInfoView>, count: int)
    requires
        0 <= count <= infos.len(),
    ensures
        output_frame_size(infos.take(count)) <= output_frame_size(infos),
    decreases infos.len() - count,
{
    if count < infos.len() {
        lemma_output_frame_size_grows(infos, count + 1);
        assert(infos.take(count + 1).drop_last() =~= infos.take(count));
    } else {
        assert(infos.take(count) =~= infos);
    }
}

/// Tests whether a list of infos can be planned for.
pub fn frame_sizes_fit(infos: &Vec<VStreamInfo>) -> (fit: bool)
    ensures
        fit == plannable(info_views(infos@)),
{
    if infos.len() > HAILO_MAX_STREAMS_COUNT {
        return false;
    }
    let ghost views = info_views(infos@);
    let mut total: u128 = 0;
    let mut i: usize = 0;
    while i < infos.len()
        invariant
            i <= infos@.len() <= HAILO_MAX_STREAMS_COUNT,
            views == info_views(infos@),
            total == output_frame_size(views.take(i as int)),
            total <= i * 0x4_0000_0000_0000_0000_0000_0000,
        decreases infos.len() - i,
    {
        assert(views.take(i + 1).drop_last() =~= views.take(i as int));
        assert(views.take(i + 1).last() == infos[i as int]@);
        if infos[i].direction == HAILO_D2H_STREAM {
            total = total + wide_frame_size(&infos[i]);
        }
        i += 1;
    }
    assert(views.take(i as int) =~= views);
    total <= usize::MAX as u128
}

/// Builds the parameters of the input and output streams of a model, and the
/// total size of its output frame.
pub fn build_vstream_params(infos: &Vec<VStreamInfo>) -> (plan: StreamPlan)
    requires
        plannable(info_views(infos@)),
    ensures
        plan@ == stream_plan(info_views(infos@)),
{
    let ghost views = info_views(infos@);
    let mut input_params: Vec<NamedParams> = Vec::new();
    let mut output_params: Vec<NamedParams> = Vec::new();
    let mut output_frame_size: usize = 0;
    let mut i: usize = 0;
    assert(params_views(input_params@) =~= params_of(views.take(0), HAILO_H2D_STREAM)) by {
        reveal(Seq::filter);
    }
    assert(params_views(output_params@) =~= params_of(views.take(0), HAILO_D2H_STREAM)) by {
        reveal(Seq::filter);
    }
    while i < infos.len()
        invariant
            i <= infos@.len(),
            views == info_views(infos@),
            plannable(views),
            params_views(input_params@) == params_of(views.take(i as int), HAILO_H2D_STREAM),
            params_views(output_params@) == params_of(views.take(i as int), HAILO_D2H_STREAM),
            output_frame_size == self::output_frame_size(views.take(i as int)),
            input_params@.len() <= i,
            output_params@.len() <= i,
        decreases infos.len() - i,
    {
        let ghost taken = views.take(i + 1);
        proof {
            assert(taken.drop_last() =~= views.take(i as int));
            assert(taken.last() == infos[i as int]@);
            lemma_params_of_push(taken, HAILO_H2D_STREAM);
            lemma_params_of_push(taken, HAILO_D2H_STREAM);
            lemma_output_frame_size_grows(views, i + 1);
        }
        let info = &infos[i];
        if info.direction == HAILO_H2D_STREAM {
            input_params.push(
                NamedParams { name: info.name.clone(), params: default_vstream_params() },
            );
        } else if info.direction == HAILO_D2H_STREAM {
            output_params.push(
                NamedParams { name: info.name.clone(), params: default_vstream_params() },
            );
            output_frame_size = output_frame_size + frame_size_of(info);
        }
        assert(params_views(input_params@) =~= params_of(taken, HAILO_H2D_STREAM));
        assert(params_views(output_params@) =~= params_of(taken, HAILO_D2H_STREAM));
        i += 1;
    }
    assert(views.take(i as int) =~= views);
    let input_count: u32 = input_params.len() as u32;
    let output_count: u32 = output_params.len() as u32;
    StreamPlan { input_params, output_params, output_frame_size, input_count, output_count }
}

} // verus!
