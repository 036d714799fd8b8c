use hailort_networked::hailo::vstream::build_vstream_params;
use hailort_networked::hailo::vstream::default_vstream_params;
use hailort_networked::hailo::vstream::frame_size_of;
use hailort_networked::hailo::vstream::frame_sizes_fit;
use hailort_networked::hailo::vstream::Format;
use hailort_networked::hailo::vstream::ImageShape;
use hailort_networked::hailo::vstream::NmsShape;
use hailort_networked::hailo::vstream::VStreamInfo;
use hailort_networked::hailo::vstream::HAILO_D2H_STREAM;
use hailort_networked::hailo::vstream::HAILO_FORMAT_ORDER_HAILO_NMS;
use hailort_networked::hailo::vstream::HAILO_FORMAT_ORDER_HAILO_NMS_BY_CLASS;
use hailort_networked::hailo::vstream::HAILO_FORMAT_ORDER_HAILO_NMS_BY_SCORE;
use hailort_networked::hailo::vstream::HAILO_FORMAT_ORDER_HAILO_NMS_ON_CHIP;
use hailort_networked::hailo::vstream::HAILO_FORMAT_ORDER_HAILO_NMS_WITH_BYTE_MASK;
use hailort_networked::hailo::vstream::HAILO_FORMAT_TYPE_FLOAT32;
use hailort_networked::hailo::vstream::HAILO_FORMAT_TYPE_UINT16;
use hailort_networked::hailo::vstream::HAILO_H2D_STREAM;

fn info(name: &str, direction: i32, format_type: i32, order: i32) -> VStreamInfo {
    VStreamInfo {
        name: name.as_bytes().to_vec(),
        direction,
        format: Format { format_type, order, flags: 0 },
        shape: ImageShape { height: 10, width: 20, features: 3 },
        nms_shape: NmsShape { number_of_classes: 80, max_bboxes_per_class: 100 },
    }
}

#[test]
fn tensor_frames_are_exact() {
    assert_eq!(frame_size_of(&info("o", HAILO_D2H_STREAM, 0, 1)), 600);
    assert_eq!(frame_size_of(&info("o", HAILO_D2H_STREAM, 1, 1)), 600);
    assert_eq!(frame_size_of(&info("o", HAILO_D2H_STREAM, HAILO_FORMAT_TYPE_UINT16, 1)), 1200);
    assert_eq!(frame_size_of(&info("o", HAILO_D2H_STREAM, HAILO_FORMAT_TYPE_FLOAT32, 1)), 2400);
}

#[test]
fn detection_frames_hold_seven_elements_each() {
    let orders = [
        HAILO_FORMAT_ORDER_HAILO_NMS,
        HAILO_FORMAT_ORDER_HAILO_NMS_WITH_BYTE_MASK,
        HAILO_FORMAT_ORDER_HAILO_NMS_ON_CHIP,
        HAILO_FORMAT_ORDER_HAILO_NMS_BY_CLASS,
        HAILO_FORMAT_ORDER_HAILO_NMS_BY_SCORE,
    ];
    for order in orders {
        let size = frame_size_of(&info("o", HAILO_D2H_STREAM, HAILO_FORMAT_TYPE_UINT16, order));
        assert_eq!(size, 80 * 100 * 7 * 2);
    }
}

#[test]
fn plan_splits_by_direction_in_order() {
    let infos = vec![
        info("out_a", HAILO_D2H_STREAM, 0, 1),
        info("in_a", HAILO_H2D_STREAM, 0, 1),
        info("other", 7, 0, 1),
        info("out_b", HAILO_D2H_STREAM, HAILO_FORMAT_TYPE_UINT16, 1),
        info("in_b", HAILO_H2D_STREAM, 0, 1),
    ];
    assert!(frame_sizes_fit(&infos));
    let plan = build_vstream_params(&infos);
    assert_eq!((plan.input_count, plan.output_count), (2, 2));
    assert_eq!(plan.output_frame_size, 600 + 1200);
    assert_eq!(plan.input_params[0].name, b"in_a");
    assert_eq!(plan.input_params[1].name, b"in_b");
    assert_eq!(plan.output_params[0].name, b"out_a");
    assert_eq!(plan.output_params[1].name, b"out_b");
    assert_eq!(plan.output_params[1].params, default_vstream_params());
}

#[test]
fn default_params_are_automatic() {
    let params = default_vstream_params();
    assert_eq!(params.user_buffer_format, Format { format_type: 0, order: 0, flags: 0 });
    assert_eq!(params.timeout_ms, 10_000);
    assert_eq!(params.queue_size, 2);
    assert_eq!(params.vstream_stats_flags, 0);
    assert_eq!(params.pipeline_elements_stats_flags, 0);
}

#[test]
fn oversized_plans_are_told_apart() {
    let mut huge = info("o", HAILO_D2H_STREAM, HAILO_FORMAT_TYPE_FLOAT32, 1);
    huge.shape = ImageShape { height: u32::MAX, width: u32::MAX, features: u32::MAX };
    assert!(!frame_sizes_fit(&vec![huge]));
    let mut huge_input = info("i", HAILO_H2D_STREAM, HAILO_FORMAT_TYPE_FLOAT32, 1);
    huge_input.shape = ImageShape { height: u32::MAX, width: u32::MAX, features: u32::MAX };
    assert!(frame_sizes_fit(&vec![huge_input]));
    let many: Vec<VStreamInfo> = (0..41).map(|_| info("o", HAILO_D2H_STREAM, 0, 1)).collect();
    assert!(!frame_sizes_fit(&many));
}
