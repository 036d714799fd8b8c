use hailort_networked::discovery::endpoint::DiscoveryEvent;
use hailort_networked::discovery::endpoint::WorkerEndpoint;
use hailort_networked::master::commands::cmd_infer;
use hailort_networked::master::commands::cmd_load_model;
use hailort_networked::master::commands::cmd_status;
use hailort_networked::master::commands::cmd_unload_model;
use hailort_networked::master::commands::start_infer;
use hailort_networked::master::commands::start_load_model;
use hailort_networked::master::commands::start_status;
use hailort_networked::master::commands::start_unload_model;
use hailort_networked::master::commands::DEFAULT_DISCOVERY_WAIT_MS;
use hailort_networked::master::commands::DISCOVERY_BUFFER;
use hailort_networked::master::pool::WorkerPool;
use hailort_networked::master::report::bracketed_text;
use hailort_networked::master::report::inferred_text;
use hailort_networked::master::report::status_lines_text;
use hailort_networked::master::report::status_text;
use hailort_networked::master::run::CommandCall;
use hailort_networked::master::run::CommandError;
use hailort_networked::master::run::CommandReply;
use hailort_networked::master::run::Order;
use hailort_networked::master::run::Report;
use hailort_networked::master::run::RunNext;
use hailort_networked::master::run::RunStep;
use hailort_networked::master::select::first_target;
use hailort_networked::master::select::matches_filter;
use hailort_networked::master::select::select_targets;
use hailort_networked::messages::GetStatusResponse;
use hailort_networked::messages::LoadModelResponse;
use hailort_networked::messages::RunInferenceResponse;
use hailort_networked::messages::UnloadModelResponse;

fn endpoint(name: &str, last: u8) -> WorkerEndpoint {
    WorkerEndpoint {
        instance_name: name.to_string(),
        host: "pi.local.".to_string(),
        ip: [10, 0, 0, last],
        port: 50051,
    }
}

fn names(endpoints: &[WorkerEndpoint]) -> Vec<String> {
    let mut names: Vec<String> = endpoints.iter().map(|e| e.instance_name.clone()).collect();
    names.sort();
    names
}

fn status() -> GetStatusResponse {
    GetStatusResponse {
        worker_id: "w1".to_string(),
        hostname: "pi5".to_string(),
        loaded_models: vec!["yolo".to_string(), "a \"b\"\n".to_string()],
        total_inferences: 12,
        hardware_active: true,
    }
}

/// Runs a command: each reply is made from the call. Gives the calls, the
/// reports and the outcome.
fn drive(
    first: RunStep,
    answer: impl Fn(&str, Option<&Order>) -> CommandReply,
) -> (Vec<String>, Vec<String>, Result<(), String>) {
    let mut calls = vec![];
    let mut reports = vec![];
    let mut at = String::new();
    let mut step = first;
    loop {
        match step.report {
            Report::Nothing => {}
            Report::Print(text) => reports.push(text),
            Report::Warn { worker, model, message, error } => {
                let about = model.map(|name| format!(" ({})", name)).unwrap_or_default();
                reports.push(format!("! {}{} {}: {}", worker, about, message, error))
            }
        }
        let run = match step.next {
            RunNext::Continue(run) => run,
            RunNext::Finished(outcome) => {
                return (calls, reports, outcome.map_err(|e| e.message()));
            }
        };
        let reply = match run.call() {
            CommandCall::Connect { addr } => {
                at = addr.clone();
                calls.push(format!("connect {}", addr));
                answer(&at, None)
            }
            CommandCall::Request(order) => {
                calls.push(format!("request {}", at));
                answer(&at, Some(order))
            }
        };
        assert!(run.accepts(&reply));
        step = run.advance(reply);
    }
}

#[test]
fn pool_follows_discovery() {
    let mut pool = WorkerPool::new();
    assert!(pool.endpoints().is_empty());
    pool.apply(DiscoveryEvent::Appeared(endpoint("a", 1)));
    pool.apply(DiscoveryEvent::Appeared(endpoint("b", 2)));
    pool.apply(DiscoveryEvent::Appeared(endpoint("a", 3)));
    let listing = pool.endpoints();
    assert_eq!(names(&listing), vec!["a".to_string(), "b".to_string()]);
    let a = listing.iter().find(|e| e.instance_name == "a").unwrap();
    assert_eq!((a.ip, a.port, a.host.as_str()), ([10, 0, 0, 3], 50051, "pi.local."));
    pool.apply(DiscoveryEvent::Disappeared("c".to_string()));
    assert_eq!(pool.endpoints().len(), 2);
    pool.apply(DiscoveryEvent::Disappeared("a".to_string()));
    assert_eq!(names(&pool.endpoints()), vec!["b".to_string()]);
    pool.apply(DiscoveryEvent::Disappeared("b".to_string()));
    assert!(pool.endpoints().is_empty());
}

#[test]
fn filter_is_a_part_of_the_instance_name() {
    let worker = endpoint("worker-1._hailort._tcp.local.", 1);
    assert!(matches_filter(&worker, None));
    assert!(matches_filter(&worker, Some("")));
    assert!(matches_filter(&worker, Some("worker-1")));
    assert!(matches_filter(&worker, Some("worker-1._hailort._tcp.local.")));
    assert!(!matches_filter(&worker, Some("worker-2")));
    assert!(!matches_filter(&worker, Some("Worker-1")));
}

#[test]
fn selection_keeps_the_order() {
    let listing = vec![endpoint("ab", 1), endpoint("b", 2), endpoint("ac", 3)];
    let chosen: Vec<String> =
        select_targets(&listing, Some("a")).into_iter().map(|e| e.instance_name).collect();
    assert_eq!(chosen, vec!["ab".to_string(), "ac".to_string()]);
    assert_eq!(select_targets(&listing, None).len(), 3);
    assert!(select_targets(&listing, Some("x")).is_empty());
    assert_eq!(first_target(&listing, Some("c")).unwrap().instance_name, "ac");
    assert_eq!(first_target(&listing, None).unwrap().instance_name, "ab");
    assert!(first_target(&listing, Some("x")).is_none());
}

#[test]
fn status_report_shows_models_in_debug_form() {
    assert_eq!(
        status_text(&status()),
        "Worker: w1\n  Hostname:          pi5\n  Loaded models:     [\"yolo\", \"a \\\"b\\\"\\n\"]\n  \
         Total inferences:  12\n  Hardware active:   true\n"
    );
    let listed = format!("{:?}", status().loaded_models);
    assert_eq!(status_text(&status()), status_lines_text(&status(), &listed));
}

#[test]
fn lists_are_bracketed() {
    assert_eq!(bracketed_text(&vec![]), "[]");
    assert_eq!(bracketed_text(&vec!["a".to_string()]), "[a]");
    assert_eq!(bracketed_text(&vec!["a".to_string(), "b".to_string()]), "[a, b]");
}

#[test]
fn inference_report_previews_thirty_two_bytes() {
    let mut response = RunInferenceResponse {
        success: true,
        error_msg: String::new(),
        output_data: vec![0, 255, 16],
        latency_ms: 9,
    };
    assert_eq!(
        inferred_text("w", &response),
        "Worker w: inference OK — 3 output bytes, 9ms latency\nOutput preview: 00 ff 10"
    );
    response.output_data = vec![0xab; 40];
    let shown = vec!["ab"; 32].join(" ");
    assert_eq!(
        inferred_text("w", &response),
        format!("Worker w: inference OK — 40 output bytes, 9ms latency\nOutput preview: {}", shown)
    );
}

#[test]
fn status_of_an_empty_pool_is_told() {
    let (calls, reports, outcome) = drive(cmd_status(&WorkerPool::new()), |_, _| panic!("no call"));
    assert!(calls.is_empty());
    assert_eq!(reports, vec!["No workers discovered.".to_string()]);
    assert_eq!(outcome, Ok(()));
}

#[test]
fn status_passes_over_failures() {
    let listing = vec![endpoint("a", 1), endpoint("b", 2), endpoint("c", 3)];
    let (calls, reports, outcome) = drive(start_status(listing), |addr, order| match order {
        None if addr == "http://10.0.0.1:50051" => {
            CommandReply::ConnectFailed { error: "refused".to_string() }
        }
        None => CommandReply::Connected,
        Some(_) if addr == "http://10.0.0.2:50051" => {
            CommandReply::RequestFailed { error: "lost".to_string() }
        }
        Some(order) => {
            assert!(matches!(order, Order::Status));
            CommandReply::Status(status())
        }
    });
    assert_eq!(
        calls,
        vec![
            "connect http://10.0.0.1:50051".to_string(),
            "connect http://10.0.0.2:50051".to_string(),
            "request http://10.0.0.2:50051".to_string(),
            "connect http://10.0.0.3:50051".to_string(),
            "request http://10.0.0.3:50051".to_string(),
        ]
    );
    assert_eq!(
        reports,
        vec![
            "! a Connect failed: refused".to_string(),
            "! b GetStatus RPC failed: lost".to_string(),
            status_text(&status()),
        ]
    );
    assert_eq!(outcome, Ok(()));
}

#[test]
fn load_goes_to_every_selected_worker() {
    let listing = vec![endpoint("a1", 1), endpoint("b", 2), endpoint("a2", 3), endpoint("a3", 4)];
    let step = start_load_model(&listing, vec![1, 2], "yolo", Some("a"));
    let (calls, reports, outcome) = drive(step, |addr, order| match order {
        None if addr == "http://10.0.0.4:50051" => {
            CommandReply::ConnectFailed { error: "refused".to_string() }
        }
        None => CommandReply::Connected,
        Some(order) => {
            match order {
                Order::LoadModel { hef_data, model_name } => {
                    assert_eq!((hef_data, model_name.as_str()), (&vec![1, 2], "yolo"));
                }
                _ => panic!("expected a load"),
            }
            let success = addr == "http://10.0.0.1:50051";
            CommandReply::Loaded(LoadModelResponse {
                success,
                error_msg: if success { String::new() } else { "no device".to_string() },
                input_count: 1,
                output_count: 3,
            })
        }
    });
    assert_eq!(calls.len(), 5);
    assert_eq!(
        reports,
        vec![
            "Worker a1: model 'yolo' loaded (inputs=1, outputs=3)".to_string(),
            "! a2 (yolo) LoadModel failed: no device".to_string(),
            "! a3 Connect failed: refused".to_string(),
        ]
    );
    assert_eq!(outcome, Ok(()));
}

#[test]
fn a_failed_request_ends_a_load() {
    let listing = vec![endpoint("a", 1), endpoint("b", 2)];
    let step = start_load_model(&listing, vec![], "m", None);
    let (calls, reports, outcome) = drive(step, |_, order| match order {
        None => CommandReply::Connected,
        Some(_) => CommandReply::RequestFailed { error: "broken pipe".to_string() },
    });
    assert_eq!(calls.len(), 2);
    assert!(reports.is_empty());
    assert_eq!(outcome, Err("broken pipe".to_string()));
}

#[test]
fn unload_reports_each_worker() {
    let listing = vec![endpoint("a", 1), endpoint("b", 2)];
    let (_, reports, outcome) = drive(start_unload_model(&listing, "m", None), |addr, order| {
        match order {
            None => CommandReply::Connected,
            Some(_) => CommandReply::Unloaded(UnloadModelResponse {
                success: addr == "http://10.0.0.1:50051",
                error_msg: "model 'm' not loaded".to_string(),
            }),
        }
    });
    assert_eq!(
        reports,
        vec![
            "Worker a: model 'm' unloaded".to_string(),
            "! b (m) UnloadModel failed: model 'm' not loaded".to_string(),
        ]
    );
    assert_eq!(outcome, Ok(()));
}

#[test]
fn inference_runs_on_the_first_selected_worker() {
    let listing = vec![endpoint("a", 1), endpoint("b1", 2), endpoint("b2", 3)];
    let step = start_infer(&listing, "m", vec![7], Some("b"), 5);
    let (calls, reports, outcome) = drive(step, |_, order| match order {
        None => CommandReply::Connected,
        Some(order) => {
            match order {
                Order::Infer { model_name, input_data, expected_output_size } => {
                    assert_eq!(model_name, "m");
                    assert_eq!((input_data, *expected_output_size), (&vec![7], 5));
                }
                _ => panic!("expected an inference"),
            }
            CommandReply::Inferred(RunInferenceResponse {
                success: true,
                error_msg: String::new(),
                output_data: vec![1],
                latency_ms: 2,
            })
        }
    });
    assert_eq!(
        calls,
        vec![
            "connect http://10.0.0.2:50051".to_string(),
            "request http://10.0.0.2:50051".to_string(),
        ]
    );
    assert_eq!(
        reports,
        vec!["Worker b1: inference OK — 1 output bytes, 2ms latency\nOutput preview: 01".to_string()]
    );
    assert_eq!(outcome, Ok(()));
}

#[test]
fn inference_ends_with_the_first_error() {
    let listing = vec![endpoint("a", 1)];
    let step = start_infer(&listing, "m", vec![], None, 0);
    let (_, reports, outcome) =
        drive(step, |_, _| CommandReply::ConnectFailed { error: "refused".to_string() });
    assert!(reports.is_empty());
    assert_eq!(outcome, Err("refused".to_string()));

    let step = start_infer(&listing, "m", vec![], None, 0);
    let (_, reports, outcome) = drive(step, |_, order| match order {
        None => CommandReply::Connected,
        Some(_) => CommandReply::Inferred(RunInferenceResponse {
            success: false,
            error_msg: "model 'm' not loaded".to_string(),
            output_data: vec![],
            latency_ms: 0,
        }),
    });
    assert!(reports.is_empty());
    assert_eq!(outcome, Err("Inference failed: model 'm' not loaded".to_string()));
}

#[test]
fn commands_need_a_matching_worker() {
    let mut pool = WorkerPool::new();
    pool.apply(DiscoveryEvent::Appeared(endpoint("a", 1)));
    let none = Err("No matching workers found".to_string());
    let steps = vec![
        cmd_load_model(&pool, vec![], "m", Some("x")),
        cmd_unload_model(&pool, "m", Some("x")),
        cmd_infer(&pool, "m", vec![], Some("x"), 0),
        cmd_load_model(&WorkerPool::new(), vec![], "m", None),
        cmd_unload_model(&WorkerPool::new(), "m", None),
        cmd_infer(&WorkerPool::new(), "m", vec![], None, 0),
    ];
    for step in steps {
        let (calls, reports, outcome) = drive(step, |_, _| panic!("no call"));
        assert!(calls.is_empty() && reports.is_empty());
        assert_eq!(outcome, none);
    }
}

#[test]
fn commands_visit_every_worker_of_the_pool() {
    let mut pool = WorkerPool::new();
    for last in 1..=20 {
        pool.apply(DiscoveryEvent::Appeared(endpoint(&format!("w{}", last), last)));
    }
    let (calls, _, outcome) = drive(cmd_status(&pool), |_, order| match order {
        None => CommandReply::Connected,
        Some(_) => CommandReply::Status(status()),
    });
    assert_eq!(outcome, Ok(()));
    let mut visited: Vec<String> =
        calls.into_iter().filter(|call| call.starts_with("connect")).collect();
    visited.sort();
    visited.dedup();
    assert_eq!(visited.len(), 20);
    let (calls, _, _) = drive(cmd_infer(&pool, "m", vec![], Some("w7"), 0), |_, _| {
        CommandReply::ConnectFailed { error: String::new() }
    });
    assert_eq!(calls, vec!["connect http://10.0.0.7:50051".to_string()]);
}

#[test]
fn replies_must_fit_the_call() {
    let step = start_status(vec![endpoint("a", 1)]);
    let run = match step.next {
        RunNext::Continue(run) => run,
        RunNext::Finished(_) => panic!("expected a call"),
    };
    assert!(run.accepts(&CommandReply::Connected));
    assert!(!run.accepts(&CommandReply::Status(status())));
    assert!(!run.accepts(&CommandReply::RequestFailed { error: String::new() }));
    let run = match run.advance(CommandReply::Connected).next {
        RunNext::Continue(run) => run,
        RunNext::Finished(_) => panic!("expected a call"),
    };
    assert!(run.accepts(&CommandReply::Status(status())));
    assert!(!run.accepts(&CommandReply::Connected));
    let unloaded = UnloadModelResponse { success: true, error_msg: String::new() };
    assert!(!run.accepts(&CommandReply::Unloaded(unloaded)));
}

#[test]
fn command_errors_have_texts() {
    assert_eq!(CommandError::NoMatchingWorkers.message(), "No matching workers found");
    assert_eq!(CommandError::Transport { error: "t".to_string() }.message(), "t");
    assert_eq!(
        CommandError::InferenceFailed { error_msg: "e".to_string() }.message(),
        "Inference failed: e"
    );
}

#[test]
fn defaults_of_the_master() {
    assert_eq!(DEFAULT_DISCOVERY_WAIT_MS, 3000);
    assert_eq!(DISCOVERY_BUFFER, 64);
}
