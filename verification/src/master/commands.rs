//! The commands of the master: how each one starts.
//!
//! The functions that start from a list of workers say exactly what follows.
//! Those that start from the pool list its workers first, in whatever order the
//! pool is walked.

use vstd::prelude::*;

use crate::discovery::endpoint::endpoint_views;
use crate::discovery::endpoint::EndpointView;
use crate::discovery::endpoint::WorkerEndpoint;
use crate::master::pool::lists_pool;
use crate::master::pool::WorkerPool;
use crate::master::run::fail;
use crate::master::run::CommandError;
use crate::master::run::CommandErrorView;
use crate::master::run::CommandRun;
use crate::master::run::Order;
use crate::master::run::OrderView;
use crate::master::run::Report;
use crate::master::run::ReportView;
use crate::master::run::RunNext;
use crate::master::run::RunNextView;
use crate::master::run::RunStep;
use crate::master::run::RunStepView;
use crate::master::run::RunView;
use crate::master::select::filter_view;
use crate::master::select::first_selected;
use crate::master::select::first_target;
use crate::master::select::select_targets;
use crate::master::select::selected;

verus! {

/// How long discovery is given before a command runs, in milliseconds, unless
/// another time is asked for.
pub const DEFAULT_DISCOVERY_WAIT_MS: u64 = 3000;

/// How many changes among the workers can wait to be taken note of.
pub const DISCOVERY_BUFFER: usize = 64;

/// An order to these targets starts at the first of them. Without any it fails.
pub open spec fn order_start(order: OrderView, targets: Seq<EndpointView>) -> RunStepView {
    RunStepView {
        report: ReportView::Nothing,
        next: if targets.len() == 0 {
            RunNextView::Finished(Err(CommandErrorView::NoMatchingWorkers))
        } else {
            RunNextView::Continue(RunView { order, targets, current: 0, connected: false })
        },
    }
}

/// Asking these workers for their status starts at the first of them. Without
/// any it says so, and ends well.
pub open spec fn status_start(listing: Seq<EndpointView>) -> RunStepView {
    if listing.len() == 0 {
        RunStepView {
            report: ReportView::Print("No workers discovered."@),
            next: RunNextView::Finished(Ok(())),
        }
    } else {
        order_start(OrderView::Status, listing)
    }
}

/// Loading a model on those of these workers that the filter lets pass.
pub open spec fn load_start(
    listing: Seq<EndpointView>,
    hef_data: Seq<u8>,
    name: Seq<char>,
    filter: Option<Seq<char>>,
) -> RunStepView {
    order_start(OrderView::LoadModel { hef_data, model_name: name }, selected(listing, filter))
}

/// Unloading a model from those of these workers that the filter lets pass.
pub open spec fn unload_start(
    listing: Seq<EndpointView>,
    name: Seq<char>,
    filter: Option<Seq<char>>,
) -> RunStepView {
    order_start(OrderView::UnloadModel { model_name: name }, selected(listing, filter))
}

/// Running an inference on the first of these workers that the filter lets pass.
pub open spec fn infer_command_start(
    listing: Seq<EndpointView>,
    model: Seq<char>,
    input_data: Seq<u8>,
    filter: Option<Seq<char>>,
    expected_output_size: u32,
) -> RunStepView {
    order_start(
        OrderView::Infer { model_name: model, input_data, expected_output_size },
        match first_selected(listing, filter) {
            Some(endpoint) => seq![endpoint],
            None => Seq::empty(),
        },
    )
}

/// Starts an order to these targets.
fn start_order(order: Order, targets: Vec<WorkerEndpoint>) -> (step: RunStep)
    ensures
        step@ == order_start(order@, endpoint_views(targets@)),
        step@.wf(),
{
    if targets.is_empty() {
        return fail(CommandError::NoMatchingWorkers);
    }
    RunStep { report: Report::Nothing, next: RunNext::Continue(CommandRun::start(order, targets)) }
}

/// Starts to ask these workers for their status.
pub fn start_status(endpoints: Vec<WorkerEndpoint>) -> (step: RunStep)
    ensures
        step@ == status_start(endpoint_views(endpoints@)),
        step@.wf(),
{
    if endpoints.is_empty() {
        return RunStep {
            report: Report::Print("No workers discovered.".to_owned()),
            next: RunNext::Finished(Ok(())),
        };
    }
    start_order(Order::Status, endpoints)
}

/// Starts to load a model on those of these workers that the filter lets pass.
pub fn start_load_model(
    endpoints: &Vec<WorkerEndpoint>,
    hef_data: Vec<u8>,
    name: &str,
    worker_filter: Option<&str>,
) -> (step: RunStep)
    ensures
        step@ == load_start(
            endpoint_views(endpoints@),
            hef_data@,
            name@,
            filter_view(worker_filter),
        ),
        step@.wf(),
{
    let targets = select_targets(endpoints, worker_filter);
    start_order(Order::LoadModel { hef_data, model_name: name.to_owned() }, targets)
}

/// Starts to unload a model from those of these workers that the filter lets
/// pass.
pub fn start_unload_model(
    endpoints: &Vec<WorkerEndpoint>,
    name: &str,
    worker_filter: Option<&str>,
) -> (step: RunStep)
    ensures
        step@ == unload_start(endpoint_views(endpoints@), name@, filter_view(worker_filter)),
        step@.wf(),
{
    let targets = select_targets(endpoints, worker_filter);
    start_order(Order::UnloadModel { model_name: name.to_owned() }, targets)
}

/// Starts to run an inference on the first of these workers that the filter lets
/// pass.
pub fn start_infer(
    endpoints: &Vec<WorkerEndpoint>,
    model: &str,
    input_data: Vec<u8>,
    worker_filter: Option<&str>,
    expected_output_size: u32,
) -> (step: RunStep)
    ensures
        step@ == infer_command_start(
            endpoint_views(endpoints@),
            model@,
            input_data@,
            filter_view(worker_filter),
            expected_output_size,
        ),
        step@.wf(),
{
    let order = Order::Infer {
        model_name: model.to_owned(),
        input_data,
        expected_output_size,
    };
    let mut targets: Vec<WorkerEndpoint> = Vec::new();
    match first_target(endpoints, worker_filter) {
        Some(endpoint) => {
            let ghost only = endpoint@;
            targets.push(endpoint);
            assert(endpoint_views(targets@) =~= seq![only]);
        },
        None => {
            assert(endpoint_views(targets@) =~= Seq::empty());
        },
    }
    start_order(order, targets)
}

/// Starts to ask every worker of the pool for its status.
pub fn cmd_status(pool: &WorkerPool) -> (step: RunStep)
    ensures
        exists|listing: Seq<EndpointView>| #[trigger]
            lists_pool(listing, pool@) && step@ == status_start(listing),
        step@.wf(),
{
    start_status(pool.endpoints())
}

/// Starts to load a model on the workers of the pool that the filter lets pass.
pub fn cmd_load_model(
    pool: &WorkerPool,
    hef_data: Vec<u8>,
    name: &str,
    worker_filter: Option<&str>,
) -> (step: RunStep)
    ensures
        exists|listing: Seq<EndpointView>| #[trigger]
            lists_pool(listing, pool@) && step@ == load_start(
                listing,
                hef_data@,
                name@,
                filter_view(worker_filter),
            ),
        step@.wf(),
{
    let endpoints = pool.endpoints();
    start_load_model(&endpoints, hef_data, name, worker_filter)
}

/// Starts to unload a model from the workers of the pool that the filter lets
/// pass.
pub fn cmd_unload_model(pool: &WorkerPool, name: &str, worker_filter: Option<&str>) -> (step:
    RunStep)
    ensures
        exists|listing: Seq<EndpointView>| #[trigger]
            lists_pool(listing, pool@) && step@ == unload_start(
                listing,
                name@,
                filter_view(worker_filter),
            ),
        step@.wf(),
{
    let endpoints = pool.endpoints();
    start_unload_model(&endpoints, name, worker_filter)
}

/// Starts to run an inference on one worker of the pool that the filter lets
/// pass.
pub fn cmd_infer(
    pool: &WorkerPool,
    model: &str,
    input_data: Vec<u8>,
    worker_filter: Option<&str>,
    expected_output_size: u32,
) -> (step: RunStep)
    ensures
        exists|listing: Seq<EndpointView>| #[trigger]
            lists_pool(listing, pool@) && step@ == infer_command_start(
                listing,
                model@,
                input_data@,
                filter_view(worker_filter),
                expected_output_size,
            ),
        step@.wf(),
{
    let endpoints = pool.endpoints();
    start_infer(&endpoints, model, input_data, worker_filter, expected_output_size)
}

} // verus!
