use hailort_networked::hailo::backend::HailoBackend;
use hailort_networked::hailo::infer::latency_ms;
use hailort_networked::hailo::infer::InferCall;
use hailort_networked::hailo::infer::InferReply;
use hailort_networked::hailo::infer::InferStep;
use hailort_networked::hailo::load::LoadCall;
use hailort_networked::hailo::load::LoadReply;
use hailort_networked::hailo::load::LoadStep;
use hailort_networked::hailo::models::release_model;
use hailort_networked::hailo::models::LoadedModel;
use hailort_networked::hailo::models::Resource;
use hailort_networked::hailo::open::OpenCall;
use hailort_networked::hailo::open::OpenReply;
use hailort_networked::hailo::open::OpenStep;
use hailort_networked::hailo::status::HailoError;
use hailort_networked::hailo::status::StatusReport;
use hailort_networked::hailo::vstream::Format;
use hailort_networked::hailo::vstream::ImageShape;
use hailort_networked::hailo::vstream::NmsShape;
use hailort_networked::hailo::vstream::VStreamInfo;

fn ok() -> StatusReport {
    StatusReport { status: 0, message: String::new() }
}

fn bad(status: i32, message: &str) -> StatusReport {
    StatusReport { status, message: message.to_string() }
}

fn open() -> HailoBackend {
    let opening = HailoBackend::try_new();
    assert_eq!(opening.call(), OpenCall::InitVDeviceParams);
    let reply = OpenReply::VDeviceParams { report: ok() };
    assert!(opening.accepts(&reply));
    let opening = match opening.advance(reply) {
        OpenStep::Continue(next) => next,
        _ => panic!("expected a further call"),
    };
    assert_eq!(opening.call(), OpenCall::CreateVDevice);
    match opening.advance(OpenReply::VDevice { report: ok(), vdevice: 900 }) {
        OpenStep::Opened(backend) => backend,
        _ => panic!("expected a backend"),
    }
}

fn stream(name: &str, direction: i32) -> VStreamInfo {
    VStreamInfo {
        name: name.as_bytes().to_vec(),
        direction,
        format: Format { format_type: 1, order: 1, flags: 0 },
        shape: ImageShape { height: 1, width: 5, features: 1 },
        nms_shape: NmsShape { number_of_classes: 0, max_bboxes_per_class: 0 },
    }
}

/// A device that fails at the call of a given name, and keeps track of what it
/// handed out and got back.
struct Device {
    fail_at: &'static str,
    groups: usize,
    inputs: usize,
    outputs: usize,
    base: usize,
    held: Vec<Resource>,
    released: Vec<Resource>,
}

impl Device {
    fn new(fail_at: &'static str, groups: usize, inputs: usize, outputs: usize, base: usize) -> Self {
        Device { fail_at, groups, inputs, outputs, base, held: vec![], released: vec![] }
    }

    fn report(&self, name: &str) -> StatusReport {
        if self.fail_at == name { bad(8, "internal failure") } else { ok() }
    }

    fn answer(&mut self, call: &LoadCall<'_>) -> LoadReply {
        match call {
            LoadCall::CreateHefBuffer { hef_data } => {
                assert_eq!(*hef_data, b"HEF!");
                let report = self.report("hef");
                if report.status == 0 {
                    self.held.push(Resource::Hef(self.base));
                }
                LoadReply::Hef { report, hef: self.base }
            }
            LoadCall::GetVStreamInfos { hef } => {
                assert_eq!(*hef, self.base);
                let mut infos = vec![];
                for i in 0..self.inputs {
                    infos.push(stream(&format!("in{}", i), 0));
                }
                for i in 0..self.outputs {
                    infos.push(stream(&format!("out{}", i), 1));
                }
                LoadReply::VStreamInfos { report: self.report("infos"), infos }
            }
            LoadCall::InitConfigureParams { vdevice, hef } => {
                assert_eq!((*vdevice, *hef), (900, self.base));
                LoadReply::ConfigureParams { report: self.report("params") }
            }
            LoadCall::ConfigureVDevice { vdevice, hef } => {
                assert_eq!((*vdevice, *hef), (900, self.base));
                let report = self.report("configure");
                let groups: Vec<usize> = (0..self.groups).map(|i| self.base + 10 + i).collect();
                if report.status == 0 {
                    self.held.extend(groups.iter().map(|g| Resource::NetworkGroup(*g)));
                }
                LoadReply::NetworkGroups { report, groups }
            }
            LoadCall::CreateInputVStreams { group, params } => {
                assert_eq!(*group, self.base + 10);
                assert_eq!(params.len(), self.inputs);
                let report = self.report("inputs");
                let vstreams: Vec<usize> = (0..self.inputs).map(|i| self.base + 30 + i).collect();
                if report.status == 0 {
                    self.held.extend(vstreams.iter().map(|v| Resource::InputVStream(*v)));
                }
                LoadReply::InputVStreams { report, vstreams }
            }
            LoadCall::CreateOutputVStreams { group, params } => {
                assert_eq!(*group, self.base + 10);
                assert_eq!(params.len(), self.outputs);
                let report = self.report("outputs");
                let vstreams: Vec<usize> = (0..self.outputs).map(|i| self.base + 60 + i).collect();
                if report.status == 0 {
                    self.held.extend(vstreams.iter().map(|v| Resource::OutputVStream(*v)));
                }
                LoadReply::OutputVStreams { report, vstreams }
            }
            LoadCall::Release(resource) => {
                let at = self.held.iter().position(|r| r == resource).expect("held");
                self.held.remove(at);
                self.released.push(*resource);
                LoadReply::Released
            }
        }
    }

    fn load(&mut self, backend: &mut HailoBackend, name: &str) -> Result<(u32, u32), HailoError> {
        let mut loading = backend.load_model(name, b"HEF!");
        loop {
            let reply = self.answer(&loading.call());
            assert!(loading.accepts(&reply));
            match loading.advance(backend, reply) {
                LoadStep::Continue(next) => loading = next,
                LoadStep::Finished(outcome) => return outcome,
            }
        }
    }
}

#[test]
fn opening_stops_at_the_first_failure() {
    let opening = HailoBackend::try_new();
    assert!(!opening.accepts(&OpenReply::VDevice { report: ok(), vdevice: 1 }));
    match opening.advance(OpenReply::VDeviceParams { report: bad(2, "invalid") }) {
        OpenStep::Failed(error) => {
            assert_eq!(error.message(), "hailo_init_vdevice_params failed (status 2): invalid")
        }
        _ => panic!("expected a failure"),
    }
    let opening = match HailoBackend::try_new().advance(OpenReply::VDeviceParams { report: ok() }) {
        OpenStep::Continue(next) => next,
        _ => panic!("expected a further call"),
    };
    match opening.advance(OpenReply::VDevice { report: bad(20, "no device"), vdevice: 0 }) {
        OpenStep::Failed(error) => {
            assert_eq!(error.message(), "hailo_create_vdevice failed (status 20): no device")
        }
        _ => panic!("expected a failure"),
    }
}

#[test]
fn load_succeeds_and_releases_the_model_file() {
    let mut backend = open();
    let mut device = Device::new("", 1, 2, 1, 1000);
    assert_eq!(device.load(&mut backend, "m").ok(), Some((2, 1)));
    assert_eq!(device.released, vec![Resource::Hef(1000)]);
    assert_eq!(backend.loaded_models(), vec!["m".to_string()]);
    let model = backend.model("m").unwrap();
    assert_eq!(model.network_group, 1010);
    assert_eq!(model.input_vstreams, vec![1030, 1031]);
    assert_eq!(model.output_vstreams, vec![1060]);
    assert_eq!(model.output_frame_size, 5);
}

#[test]
fn load_uses_the_first_of_several_network_groups() {
    let mut backend = open();
    let mut device = Device::new("", 3, 1, 1, 1000);
    assert!(device.load(&mut backend, "m").is_ok());
    assert_eq!(
        device.released,
        vec![Resource::NetworkGroup(1011), Resource::NetworkGroup(1012), Resource::Hef(1000)]
    );
    assert_eq!(backend.model("m").unwrap().network_group, 1010);
}

#[test]
fn failed_loads_give_back_what_they_acquired() {
    let cases: [(&'static str, &str, Vec<Resource>); 6] = [
        ("hef", "hailo_create_hef_buffer", vec![]),
        ("infos", "hailo_hef_get_vstream_infos", vec![Resource::Hef(1000)]),
        ("params", "hailo_init_configure_params_by_vdevice", vec![Resource::Hef(1000)]),
        ("configure", "hailo_configure_vdevice", vec![Resource::Hef(1000)]),
        (
            "inputs",
            "hailo_create_input_vstreams",
            vec![Resource::NetworkGroup(1010), Resource::Hef(1000)],
        ),
        (
            "outputs",
            "hailo_create_output_vstreams",
            vec![
                Resource::InputVStream(1030),
                Resource::InputVStream(1031),
                Resource::NetworkGroup(1010),
                Resource::Hef(1000),
            ],
        ),
    ];
    for (fail_at, function, released) in cases {
        let mut backend = open();
        let mut device = Device::new(fail_at, 1, 2, 2, 1000);
        let error = device.load(&mut backend, "m").err().unwrap();
        assert_eq!(error.message(), format!("{} failed (status 8): internal failure", function));
        assert_eq!(device.released, released);
        assert!(device.held.is_empty());
        assert!(backend.loaded_models().is_empty());
    }
}

#[test]
fn a_model_file_without_network_groups_is_refused() {
    let mut backend = open();
    let mut device = Device::new("", 0, 1, 1, 1000);
    let error = device.load(&mut backend, "m").err().unwrap();
    assert_eq!(error.message(), "HEF 'm' contains no network groups");
    assert_eq!(device.released, vec![Resource::Hef(1000)]);
}

#[test]
fn replies_of_another_kind_are_not_accepted() {
    let backend = open();
    let loading = backend.load_model("m", b"");
    assert!(!loading.accepts(&LoadReply::Released));
    assert!(!loading.accepts(&LoadReply::ConfigureParams { report: ok() }));
    assert!(loading.accepts(&LoadReply::Hef { report: bad(26, ""), hef: 0 }));
}

#[test]
fn unload_undoes_a_load() {
    let mut backend = open();
    let mut first = Device::new("", 1, 1, 1, 1000);
    first.load(&mut backend, "a").ok().unwrap();
    let mut second = Device::new("", 1, 2, 1, 2000);
    second.load(&mut backend, "b").ok().unwrap();
    assert_eq!(backend.loaded_models(), vec!["a".to_string(), "b".to_string()]);
    let releases = backend.unload_model("b").ok().unwrap();
    assert_eq!(
        releases,
        vec![
            Resource::InputVStream(2030),
            Resource::InputVStream(2031),
            Resource::OutputVStream(2060),
            Resource::NetworkGroup(2010),
        ]
    );
    let mut held = second.held.clone();
    for release in &releases {
        let at = held.iter().position(|r| r == release).expect("held");
        held.remove(at);
    }
    assert!(held.is_empty());
    assert_eq!(backend.loaded_models(), vec!["a".to_string()]);
    assert!(backend.model("b").is_none());
    let error = backend.unload_model("b").err().unwrap();
    assert_eq!(error.message(), "model 'b' not loaded");
    assert_eq!(backend.loaded_models(), vec!["a".to_string()]);
}

#[test]
fn a_load_releases_the_model_it_replaces() {
    let mut backend = open();
    let mut device = Device::new("", 1, 2, 1, 1000);
    device.load(&mut backend, "m").ok().unwrap();
    device.base = 2000;
    device.inputs = 1;
    device.outputs = 2;
    assert_eq!(device.load(&mut backend, "m").ok(), Some((1, 2)));
    assert_eq!(
        device.released,
        vec![
            Resource::Hef(1000),
            Resource::InputVStream(1030),
            Resource::InputVStream(1031),
            Resource::OutputVStream(1060),
            Resource::NetworkGroup(1010),
            Resource::Hef(2000),
        ]
    );
    assert_eq!(backend.loaded_models(), vec!["m".to_string()]);
    assert_eq!(backend.model("m").unwrap().network_group, 2010);
    assert_eq!(
        device.held,
        vec![
            Resource::NetworkGroup(2010),
            Resource::InputVStream(2030),
            Resource::OutputVStream(2060),
            Resource::OutputVStream(2061),
        ]
    );
}

#[test]
fn a_failed_load_leaves_the_model_of_its_name() {
    for fail_at in ["hef", "infos", "params", "configure", "inputs", "outputs"] {
        let mut backend = open();
        let mut device = Device::new("", 1, 1, 1, 1000);
        device.load(&mut backend, "m").ok().unwrap();
        let held = device.held.clone();
        device.base = 2000;
        device.fail_at = fail_at;
        assert!(device.load(&mut backend, "m").is_err());
        assert_eq!(device.held, held);
        assert_eq!(backend.loaded_models(), vec!["m".to_string()]);
        assert_eq!(backend.model("m").unwrap().network_group, 1010);
    }
}

#[test]
fn configured_groups_are_as_many_as_loaded_models() {
    let mut backend = open();
    let mut device = Device::new("", 2, 1, 2, 1000);
    let steps = [("a", true), ("b", true), ("a", true), ("b", false), ("a", true), ("b", true)];
    for (name, load) in steps {
        if load {
            device.load(&mut backend, name).ok().unwrap();
            device.base += 1000;
        } else {
            for resource in backend.unload_model(name).ok().unwrap() {
                device.answer(&LoadCall::Release(resource));
            }
        }
        let groups = device.held.iter().filter(|r| matches!(r, Resource::NetworkGroup(_))).count();
        assert_eq!(groups, backend.loaded_models().len());
        assert_eq!(device.held.len(), 4 * groups);
    }
    for resource in backend.close() {
        if resource != Resource::VDevice(900) {
            device.answer(&LoadCall::Release(resource));
        }
    }
    assert!(device.held.is_empty());
}

#[test]
fn closing_releases_models_in_order_and_the_vdevice_last() {
    let mut backend = open();
    Device::new("", 1, 1, 0, 1000).load(&mut backend, "a").ok().unwrap();
    Device::new("", 1, 0, 1, 2000).load(&mut backend, "b").ok().unwrap();
    assert_eq!(
        backend.close(),
        vec![
            Resource::InputVStream(1030),
            Resource::NetworkGroup(1010),
            Resource::OutputVStream(2060),
            Resource::NetworkGroup(2010),
            Resource::VDevice(900),
        ]
    );
}

#[test]
fn a_null_vdevice_is_not_released() {
    let opening = match HailoBackend::try_new().advance(OpenReply::VDeviceParams { report: ok() }) {
        OpenStep::Continue(next) => next,
        _ => panic!("expected a further call"),
    };
    match opening.advance(OpenReply::VDevice { report: ok(), vdevice: 0 }) {
        OpenStep::Opened(backend) => assert_eq!(backend.close(), vec![]),
        _ => panic!("expected a backend"),
    }
}

#[test]
fn streams_are_released_before_their_group() {
    let model = LoadedModel {
        network_group: 1,
        input_vstreams: vec![2],
        output_vstreams: vec![3, 4],
        output_frame_size: 0,
    };
    assert_eq!(
        release_model(model),
        vec![
            Resource::InputVStream(2),
            Resource::OutputVStream(3),
            Resource::OutputVStream(4),
            Resource::NetworkGroup(1),
        ]
    );
}

fn infer(
    backend: &HailoBackend,
    input: &[u8],
    expected: usize,
    fail_at: Option<usize>,
) -> (Vec<(usize, Vec<u8>)>, Vec<(usize, usize)>, Result<Vec<u8>, HailoError>) {
    let mut writes = vec![];
    let mut reads = vec![];
    let mut step = backend.run_inference_sync("m", input, expected);
    let mut calls = 0;
    loop {
        let inference = match step {
            InferStep::Continue(next) => next,
            InferStep::Finished(outcome) => return (writes, reads, outcome),
        };
        let report = if fail_at == Some(calls) { bad(4, "timeout") } else { ok() };
        calls += 1;
        let reply = match inference.call() {
            InferCall::Write { vstream, chunk } => {
                writes.push((vstream, chunk.to_vec()));
                InferReply::Written { report }
            }
            InferCall::Read { vstream, size } => {
                reads.push((vstream, size));
                InferReply::Read { report, data: vec![vstream as u8; size] }
            }
        };
        assert!(inference.accepts(&reply));
        step = inference.advance(reply);
    }
}

#[test]
fn input_is_split_evenly_and_the_last_chunk_takes_the_rest() {
    let mut backend = open();
    Device::new("", 1, 3, 2, 100).load(&mut backend, "m").ok().unwrap();
    let input: Vec<u8> = (0..10).collect();
    let (writes, reads, outcome) = infer(&backend, &input, 7, None);
    assert_eq!(
        writes,
        vec![(130, vec![0, 1, 2]), (131, vec![3, 4, 5]), (132, vec![6, 7, 8, 9])]
    );
    let whole: Vec<u8> = writes.into_iter().flat_map(|(_, chunk)| chunk).collect();
    assert_eq!(whole, input);
    assert_eq!(reads, vec![(160, 3), (161, 4)]);
    assert_eq!(outcome.ok().unwrap(), vec![160, 160, 160, 161, 161, 161, 161]);
}

#[test]
fn output_has_the_size_of_the_frame_unless_another_is_expected() {
    let mut backend = open();
    Device::new("", 1, 1, 2, 100).load(&mut backend, "m").ok().unwrap();
    let (_, reads, outcome) = infer(&backend, b"x", 0, None);
    assert_eq!(reads, vec![(160, 5), (161, 5)]);
    assert_eq!(outcome.ok().unwrap().len(), 10);
    let (_, _, outcome) = infer(&backend, b"x", 3, None);
    assert_eq!(outcome.ok().unwrap(), vec![160, 161, 161]);
}

#[test]
fn short_input_leaves_chunks_empty() {
    let mut backend = open();
    Device::new("", 1, 3, 1, 100).load(&mut backend, "m").ok().unwrap();
    let (writes, _, _) = infer(&backend, b"ab", 1, None);
    assert_eq!(writes, vec![(130, vec![]), (131, vec![]), (132, b"ab".to_vec())]);
}

#[test]
fn a_model_without_output_streams_gives_zeros() {
    let mut backend = open();
    Device::new("", 1, 1, 0, 100).load(&mut backend, "m").ok().unwrap();
    let (writes, reads, outcome) = infer(&backend, b"x", 4, None);
    assert_eq!((writes.len(), reads.len()), (1, 0));
    assert_eq!(outcome.ok().unwrap(), vec![0, 0, 0, 0]);
}

#[test]
fn a_model_without_streams_makes_no_call() {
    let mut backend = open();
    Device::new("", 1, 0, 0, 100).load(&mut backend, "m").ok().unwrap();
    let (writes, reads, outcome) = infer(&backend, b"x", 2, None);
    assert_eq!((writes.len(), reads.len()), (0, 0));
    assert_eq!(outcome.ok().unwrap(), vec![0, 0]);
}

#[test]
fn the_first_failed_call_ends_an_inference() {
    let mut backend = open();
    Device::new("", 1, 2, 2, 100).load(&mut backend, "m").ok().unwrap();
    let (writes, reads, outcome) = infer(&backend, b"abcd", 4, Some(1));
    assert_eq!((writes.len(), reads.len()), (2, 0));
    assert_eq!(
        outcome.err().unwrap().message(),
        "hailo_input_vstream_write failed (status 4): timeout"
    );
    let (writes, reads, outcome) = infer(&backend, b"abcd", 4, Some(3));
    assert_eq!((writes.len(), reads.len()), (2, 2));
    assert_eq!(
        outcome.err().unwrap().message(),
        "hailo_output_vstream_read failed (status 4): timeout"
    );
}

#[test]
fn inference_needs_a_loaded_model() {
    let backend = open();
    let (_, _, outcome) = infer(&backend, b"", 0, None);
    assert_eq!(outcome.err().unwrap().message(), "model 'm' not loaded");
}

#[test]
fn latency_keeps_thirty_two_bits() {
    assert_eq!(latency_ms(0), 0);
    assert_eq!(latency_ms(1234), 1234);
    assert_eq!(latency_ms(u32::MAX as u128), u32::MAX);
    assert_eq!(latency_ms(u32::MAX as u128 + 6), 5);
}
