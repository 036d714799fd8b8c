use hailort_networked::hailo::backend::HailoBackend;
use hailort_networked::hailo::open::OpenReply;
use hailort_networked::hailo::open::OpenStep;
use hailort_networked::hailo::status::HailoError;
use hailort_networked::hailo::status::StatusReport;
use hailort_networked::worker::listen_addr;
use hailort_networked::worker::worker_identity;
use hailort_networked::worker::WorkerError;
use hailort_networked::worker::WorkerState;
use hailort_networked::worker::DEFAULT_PORT;

fn backend() -> HailoBackend {
    let ok = || StatusReport { status: 0, message: String::new() };
    let opening = match HailoBackend::try_new().advance(OpenReply::VDeviceParams { report: ok() }) {
        OpenStep::Continue(next) => next,
        _ => panic!("expected a further call"),
    };
    match opening.advance(OpenReply::VDevice { report: ok(), vdevice: 1 }) {
        OpenStep::Opened(backend) => backend,
        _ => panic!("expected a backend"),
    }
}

fn state() -> WorkerState {
    WorkerState::new("w1".to_string(), "pi5".to_string(), backend())
}

fn not_loaded() -> WorkerError {
    WorkerError::Device(HailoError::NotLoaded { model_name: "m".to_string() })
}

#[test]
fn identity_is_the_given_name() {
    assert_eq!(worker_identity(Some("worker-1".to_string())), "worker-1");
    assert_eq!(worker_identity(Some(String::new())), "");
}

#[test]
fn identity_without_a_name_is_a_new_uuid() {
    let first = worker_identity(None);
    let parts: Vec<usize> = first.split('-').map(|part| part.len()).collect();
    assert_eq!(parts, vec![8, 4, 4, 4, 12]);
    assert!(first.chars().all(|c| c == '-' || c.is_ascii_digit() || ('a'..='f').contains(&c)));
    assert_eq!(first.chars().nth(14), Some('4'));
    assert!("89ab".contains(first.chars().nth(19).unwrap()));
    assert_ne!(first, worker_identity(None));
}

#[test]
fn worker_listens_on_every_interface() {
    assert_eq!(listen_addr(DEFAULT_PORT), "0.0.0.0:50051");
    assert_eq!(listen_addr(0), "0.0.0.0:0");
    assert_eq!(listen_addr(u16::MAX), "0.0.0.0:65535");
}

#[test]
fn load_answers() {
    let answer = WorkerState::load_model(Ok((1, 3)));
    assert!(answer.success);
    assert_eq!(answer.error_msg, "");
    assert_eq!((answer.input_count, answer.output_count), (1, 3));
    let error = HailoError::CallFailed {
        context: "hailo_configure_vdevice".to_string(),
        status: 8,
        message: "internal failure".to_string(),
    };
    let answer = WorkerState::load_model(Err(WorkerError::Device(error)));
    assert!(!answer.success);
    assert_eq!(answer.error_msg, "hailo_configure_vdevice failed (status 8): internal failure");
    assert_eq!((answer.input_count, answer.output_count), (0, 0));
}

#[test]
fn unload_answers() {
    let answer = WorkerState::unload_model(Ok(()));
    assert!(answer.success && answer.error_msg.is_empty());
    let answer = WorkerState::unload_model(Err(not_loaded()));
    assert!(!answer.success);
    assert_eq!(answer.error_msg, "model 'm' not loaded");
}

#[test]
fn panics_are_answered_too() {
    let answer = WorkerState::unload_model(Err(WorkerError::Panicked("task 7".to_string())));
    assert!(!answer.success);
    assert_eq!(answer.error_msg, "spawn_blocking panicked: task 7");
}

#[test]
fn only_successful_inferences_count() {
    let mut state = state();
    let answer = state.run_inference(Ok((vec![1, 2], 5)));
    assert!(answer.success && answer.error_msg.is_empty());
    assert_eq!((answer.output_data, answer.latency_ms), (vec![1, 2], 5));
    let answer = state.run_inference(Err(not_loaded()));
    assert!(!answer.success);
    assert_eq!(answer.error_msg, "model 'm' not loaded");
    assert_eq!((answer.output_data, answer.latency_ms), (vec![], 0));
    state.run_inference(Ok((vec![], 0)));
    let status = state.get_status();
    assert_eq!(status.worker_id, "w1");
    assert_eq!(status.hostname, "pi5");
    assert!(status.loaded_models.is_empty());
    assert_eq!(status.total_inferences, 2);
    assert!(status.hardware_active);
}

#[test]
fn the_count_wraps() {
    let mut state = state();
    state.total_inferences = u64::MAX;
    state.run_inference(Ok((vec![], 0)));
    assert_eq!(state.get_status().total_inferences, 0);
}
