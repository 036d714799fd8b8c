use hailort_networked::hailo::status::check_status;
use hailort_networked::hailo::status::HailoError;
use hailort_networked::hailo::status::HAILO_SUCCESS;

#[test]
fn success_is_ok() {
    assert!(check_status(HAILO_SUCCESS, "hailo_create_vdevice", "").is_ok());
}

#[test]
fn failure_carries_context_code_and_message() {
    let error = check_status(4, "hailo_input_vstream_write", "timeout").err().unwrap();
    assert_eq!(error.message(), "hailo_input_vstream_write failed (status 4): timeout");
}

#[test]
fn negative_status_is_a_failure() {
    let error = check_status(-17, "hailo_create_vdevice", "odd").err().unwrap();
    assert_eq!(error.message(), "hailo_create_vdevice failed (status -17): odd");
    let error = check_status(i32::MIN, "c", "m").err().unwrap();
    assert_eq!(error.message(), "c failed (status -2147483648): m");
}

#[test]
fn model_errors_name_the_model() {
    let error = HailoError::NotLoaded { model_name: "yolo".to_string() };
    assert_eq!(error.message(), "model 'yolo' not loaded");
    let error = HailoError::NoNetworkGroups { model_name: "yolo".to_string() };
    assert_eq!(error.message(), "HEF 'yolo' contains no network groups");
}
