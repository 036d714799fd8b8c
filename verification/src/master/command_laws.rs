//! Laws of commands: whom a command addresses, what it asks, and what follows
//! from each answer.

use vstd::prelude::*;

use crate::discovery::endpoint::EndpointView;
use crate::discovery::laws::is_url_of;
use crate::discovery::laws::worker_is_reached_where_it_was_found;
use crate::master::commands::infer_command_start;
use crate::master::commands::load_start;
use crate::master::commands::status_start;
use crate::master::commands::unload_start;
use crate::master::pool::lists_pool;
use crate::master::report_laws::inference_report_shows_the_start_of_the_output;
use crate::master::report_laws::load_report_tells_the_streams;
use crate::master::report_laws::reports_inference;
use crate::master::report_laws::reports_load;
use crate::master::report::status_report;
use crate::master::run::command_answers;
use crate::master::run::command_outcome_view;
use crate::master::run::run_next;
use crate::master::run::CommandCall;
use crate::master::run::CommandCallView;
use crate::master::run::CommandError;
use crate::master::run::CommandErrorView;
use crate::master::run::CommandReply;
use crate::master::run::CommandReplyView;
use crate::master::run::Order;
use crate::master::run::OrderView;
use crate::master::run::Report;
use crate::master::run::ReportView;
use crate::master::run::RunNext;
use crate::master::run::RunNextView;
use crate::master::run::RunStep;
use crate::master::run::RunStepView;
use crate::master::run::RunView;
use crate::master::select::filter_view;
use crate::master::select::first_selected;
use crate::master::select::lemma_selected_push;
use crate::master::select::passes;
use crate::master::select::selected;
use crate::text_laws::holds_part;
use crate::text_laws::substring_is_a_part;

verus! {

/// Whether a command with this filter is meant for a worker: the filter is a
/// part of its instance name, or there is none.
pub open spec fn is_meant(worker: EndpointView, filter: Option<Seq<char>>) -> bool {
    filter matches Some(part) ==> holds_part(worker.instance_name, part)
}

/// Whether these positions of a list are those of the workers that a command is
/// meant for: rising, each meant, and none left out.
pub open spec fn are_positions(
    positions: Seq<int>,
    listing: Seq<EndpointView>,
    filter: Option<Seq<char>>,
) -> bool {
    &&& forall|k: int|
        0 <= k < positions.len() ==> 0 <= #[trigger] positions[k] < listing.len() && is_meant(
            listing[positions[k]],
            filter,
        )
    &&& forall|k: int, l: int|
        0 <= k < l < positions.len() ==> #[trigger] positions[k] < #[trigger] positions[l]
    &&& forall|i: int|
        0 <= i < listing.len() && is_meant(#[trigger] listing[i], filter) ==> positions.contains(i)
}

/// Whether the targets are exactly the workers of the list that a command is
/// meant for, in the order of the list.
pub open spec fn are_targets(
    targets: Seq<EndpointView>,
    listing: Seq<EndpointView>,
    filter: Option<Seq<char>>,
) -> bool {
    exists|positions: Seq<int>| #[trigger]
        are_positions(positions, listing, filter) && targets.len() == positions.len() && forall|
            k: int,
        |
            0 <= k < targets.len() ==> #[trigger] targets[k] == listing[positions[k]]
}

/// A filter lets exactly the workers pass that a command with it is meant for.
pub proof fn filter_is_a_part_of_the_name(worker: EndpointView, filter: Option<Seq<char>>)
    ensures
        passes(worker, filter) <==> is_meant(worker, filter),
{
    if let Some(part) = filter {
        substring_is_a_part(worker.instance_name, part);
    }
}

/// A selection is exactly the workers that a command is meant for, in the order
/// of the list.
pub proof fn selection_is_whom_it_is_meant_for(
    listing: Seq<EndpointView>,
    filter: Option<Seq<char>>,
)
    ensures
        are_targets(selected(listing, filter), listing, filter),
    decreases listing.len(),
{
    let targets = selected(listing, filter);
    if listing.len() == 0 {
        reveal(Seq::filter);
        assert(targets =~= Seq::empty());
        assert(are_positions(Seq::<int>::empty(), listing, filter));
    } else {
        let front = listing.drop_last();
        let last = listing.last();
        let end = listing.len() - 1;
        selection_is_whom_it_is_meant_for(front, filter);
        filter_is_a_part_of_the_name(last, filter);
        lemma_selected_push(front, last, filter);
        assert(front.push(last) =~= listing);
        let before = selected(front, filter);
        let old_positions = choose|positions: Seq<int>| #[trigger]
            are_positions(positions, front, filter) && before.len() == positions.len() && forall|
                k: int,
            |
                0 <= k < before.len() ==> #[trigger] before[k] == front[positions[k]];
        let positions = if passes(last, filter) {
            old_positions.push(end)
        } else {
            old_positions
        };
        assert forall|k: int| 0 <= k < positions.len() implies 0 <= #[trigger] positions[k]
            < listing.len() && is_meant(listing[positions[k]], filter) by {
            if k < old_positions.len() {
                assert(positions[k] == old_positions[k]);
                assert(front[old_positions[k]] == listing[old_positions[k]]);
            }
        }
        assert forall|k: int, l: int| 0 <= k < l < positions.len() implies #[trigger] positions[k]
            < #[trigger] positions[l] by {
            assert(positions[k] == old_positions[k]);
            if l < old_positions.len() {
                assert(positions[l] == old_positions[l]);
            }
        }
        assert forall|i: int|
            0 <= i < listing.len() && is_meant(
                #[trigger] listing[i],
                filter,
            ) implies positions.contains(i) by {
            if i < end {
                assert(front[i] == listing[i]);
                assert(old_positions.contains(i));
                let k = choose|k: int| 0 <= k < old_positions.len() && old_positions[k] == i;
                assert(positions[k] == i);
            } else {
                assert(positions[old_positions.len() as int] == end);
            }
        }
        assert(are_positions(positions, listing, filter));
        assert forall|k: int| 0 <= k < targets.len() implies #[trigger] targets[k]
            == listing[positions[k]] by {
            if k < before.len() {
                assert(targets[k] == before[k]);
                assert(positions[k] == old_positions[k]);
                assert(old_positions[k] < front.len());
            }
        }
    }
}

/// A list with no worker that a command is meant for has no targets, and one
/// with such a worker has.
proof fn lemma_some_target(
    targets: Seq<EndpointView>,
    listing: Seq<EndpointView>,
    filter: Option<Seq<char>>,
)
    requires
        are_targets(targets, listing, filter),
    ensures
        targets.len() > 0 <==> exists|i: int|
            0 <= i < listing.len() && is_meant(#[trigger] listing[i], filter),
{
    let positions = choose|positions: Seq<int>| #[trigger]
        are_positions(positions, listing, filter) && targets.len() == positions.len() && forall|
            k: int,
        |
            0 <= k < targets.len() ==> #[trigger] targets[k] == listing[positions[k]];
    if targets.len() > 0 {
        assert(0 <= positions[0] < listing.len() && is_meant(listing[positions[0]], filter));
    }
    if exists|i: int| 0 <= i < listing.len() && is_meant(#[trigger] listing[i], filter) {
        let i = choose|i: int| 0 <= i < listing.len() && is_meant(#[trigger] listing[i], filter);
        assert(positions.contains(i));
    }
}

/// Whether a step sets a command out to ask an order of these targets, the first
/// of them to begin with, and says nothing yet.
pub open spec fn sets_out(
    step: RunStepView,
    order: OrderView,
    targets: Seq<EndpointView>,
) -> bool {
    &&& step.report is Nothing
    &&& step.next matches RunNextView::Continue(run) && run.order == order && run.targets
        == targets && run.current == 0 && !run.connected
}

/// Whether a step refuses a command for want of a worker, and says nothing.
pub open spec fn refuses(step: RunStepView) -> bool {
    &&& step.report is Nothing
    &&& step.next == RunNextView::Finished(Err(CommandErrorView::NoMatchingWorkers))
}

/// Unloading a model asks exactly the workers that it is meant for, in order, to
/// unload the model of the name, and is refused exactly if there is none.
pub proof fn unload_asks_whom_it_is_meant_for(
    listing: Seq<EndpointView>,
    name: Seq<char>,
    filter: Option<Seq<char>>,
)
    ensures
        if exists|i: int| 0 <= i < listing.len() && is_meant(#[trigger] listing[i], filter) {
            exists|targets: Seq<EndpointView>| #[trigger]
                are_targets(targets, listing, filter) && sets_out(
                    unload_start(listing, name, filter),
                    OrderView::UnloadModel { model_name: name },
                    targets,
                )
        } else {
            refuses(unload_start(listing, name, filter))
        },
{
    selection_is_whom_it_is_meant_for(listing, filter);
    lemma_some_target(selected(listing, filter), listing, filter);
}

/// Loading a model asks exactly the workers that it is meant for, in order, to
/// load the model file under the name, and is refused exactly if there is none.
pub proof fn load_asks_whom_it_is_meant_for(
    listing: Seq<EndpointView>,
    hef_data: Seq<u8>,
    name: Seq<char>,
    filter: Option<Seq<char>>,
)
    ensures
        if exists|i: int| 0 <= i < listing.len() && is_meant(#[trigger] listing[i], filter) {
            exists|targets: Seq<EndpointView>| #[trigger]
                are_targets(targets, listing, filter) && sets_out(
                    load_start(listing, hef_data, name, filter),
                    OrderView::LoadModel { hef_data, model_name: name },
                    targets,
                )
        } else {
            refuses(load_start(listing, hef_data, name, filter))
        },
{
    selection_is_whom_it_is_meant_for(listing, filter);
    lemma_some_target(selected(listing, filter), listing, filter);
}

/// Whether a position of a list is that of the first worker that a command is
/// meant for.
pub open spec fn is_first_meant(
    i: int,
    listing: Seq<EndpointView>,
    filter: Option<Seq<char>>,
) -> bool {
    &&& 0 <= i < listing.len()
    &&& is_meant(listing[i], filter)
    &&& forall|j: int| 0 <= j < i ==> !is_meant(#[trigger] listing[j], filter)
}

proof fn lemma_first_selected(listing: Seq<EndpointView>, filter: Option<Seq<char>>)
    ensures
        match first_selected(listing, filter) {
            Some(worker) => exists|i: int| #[trigger]
                is_first_meant(i, listing, filter) && listing[i] == worker,
            None => forall|i: int|
                0 <= i < listing.len() ==> !is_meant(#[trigger] listing[i], filter),
        },
{
    let targets = selected(listing, filter);
    selection_is_whom_it_is_meant_for(listing, filter);
    lemma_some_target(targets, listing, filter);
    if targets.len() > 0 {
        let positions = choose|positions: Seq<int>| #[trigger]
            are_positions(positions, listing, filter) && targets.len() == positions.len()
                && forall|k: int|
                0 <= k < targets.len() ==> #[trigger] targets[k] == listing[positions[k]];
        let i = positions[0];
        assert forall|j: int| 0 <= j < i implies !is_meant(#[trigger] listing[j], filter) by {
            if is_meant(listing[j], filter) {
                assert(positions.contains(j));
                let k = choose|k: int| 0 <= k < positions.len() && positions[k] == j;
                if k > 0 {
                    assert(positions[0] < positions[k]);
                }
            }
        }
        assert(targets[0] == listing[positions[0]]);
        assert(is_first_meant(i, listing, filter));
    }
}

/// An inference is asked of the first worker that it is meant for and of no
/// other, with the model, the whole input and the size that was asked for, and is
/// refused exactly if there is no such worker.
pub proof fn inference_is_asked_of_the_first(
    listing: Seq<EndpointView>,
    model: Seq<char>,
    input_data: Seq<u8>,
    filter: Option<Seq<char>>,
    expected_output_size: u32,
)
    ensures
        ({
            let step = infer_command_start(
                listing,
                model,
                input_data,
                filter,
                expected_output_size,
            );
            if exists|i: int| 0 <= i < listing.len() && is_meant(#[trigger] listing[i], filter) {
                exists|i: int| #[trigger]
                    is_first_meant(i, listing, filter) && sets_out(
                        step,
                        OrderView::Infer { model_name: model, input_data, expected_output_size },
                        seq![listing[i]],
                    )
            } else {
                refuses(step)
            }
        }),
{
    lemma_first_selected(listing, filter);
}

/// The status is asked of every worker, in order. Without any, that is said, and
/// it is no failure.
pub proof fn status_is_asked_of_everyone(listing: Seq<EndpointView>)
    ensures
        listing.len() > 0 ==> sets_out(status_start(listing), OrderView::Status, listing),
        listing.len() == 0 ==> status_start(listing) == (RunStepView {
            report: ReportView::Print("No workers discovered."@),
            next: RunNextView::Finished(Ok(())),
        }),
{
}

/// The call of a command: a connection to the worker it is at, where that was
/// found, and then its order.
pub proof fn a_command_connects_and_then_asks(run: RunView)
    ensures
        run.connected ==> run.call() == CommandCallView::Request(run.order),
        !run.connected ==> (run.call() matches CommandCallView::Connect { addr } && is_url_of(
            addr,
            run.targets[run.current as int].ip,
            run.targets[run.current as int].port as int,
        )),
        run.wf() <==> run.current < run.targets.len(),
{
    worker_is_reached_where_it_was_found(run.targets[run.current as int]);
}

/// What a command takes for an answer: to a connection whether it came about,
/// and to an order its failure or the answer to an order of the kind.
pub proof fn what_answers_a_command(run: RunView, reply: CommandReplyView)
    ensures
        command_answers(run.call(), reply) <==> match reply {
            CommandReplyView::Connected => !run.connected,
            CommandReplyView::ConnectFailed { .. } => !run.connected,
            CommandReplyView::RequestFailed { .. } => run.connected,
            CommandReplyView::Status(_) => run.connected && run.order is Status,
            CommandReplyView::Loaded(_) => run.connected && run.order is LoadModel,
            CommandReplyView::Unloaded(_) => run.connected && run.order is UnloadModel,
            CommandReplyView::Inferred(_) => run.connected && run.order is Infer,
        },
{
}

/// Whether a command is done with the worker it is at: it turns to the next one,
/// with the same order, or ends well behind the last.
pub open spec fn is_done_with_worker(run: RunView, next: RunNextView) -> bool {
    match next {
        RunNextView::Continue(then) => {
            &&& then.order == run.order
            &&& then.targets == run.targets
            &&& then.current == run.current + 1
            &&& then.current < run.targets.len()
            &&& !then.connected
        },
        RunNextView::Finished(outcome) => outcome is Ok && run.current + 1 >= run.targets.len(),
    }
}

/// Whether a step warns about the worker that a command is at, and the command is
/// done with it.
pub open spec fn warns(
    run: RunView,
    step: RunStepView,
    model: Option<Seq<char>>,
    message: Seq<char>,
    error: Seq<char>,
) -> bool {
    &&& step.report == (ReportView::Warn {
        worker: run.targets[run.current as int].instance_name,
        model,
        message,
        error,
    })
    &&& is_done_with_worker(run, step.next)
}

/// Whether a step ends a command with an error, and says nothing else.
pub open spec fn fails(step: RunStepView, error: CommandErrorView) -> bool {
    step.report is Nothing && step.next == RunNextView::Finished(Err(error))
}

/// Once connected, the order is sent to the same worker.
pub proof fn a_connection_is_used(run: RunView)
    ensures
        ({
            let step = run_next(run, CommandReplyView::Connected);
            &&& step.report is Nothing
            &&& step.next matches RunNextView::Continue(then) && then.order == run.order
                && then.targets == run.targets && then.current == run.current && then.connected
        }),
{
}

/// A connection that fails ends an inference. Any other command warns about the
/// worker and passes it over.
pub proof fn what_follows_a_failed_connection(run: RunView, error: Seq<char>)
    ensures
        ({
            let step = run_next(run, CommandReplyView::ConnectFailed { error });
            if run.order is Infer {
                fails(step, CommandErrorView::Transport { error })
            } else {
                warns(run, step, None, "Connect failed"@, error)
            }
        }),
{
}

/// A request that fails ends a command. Only if the status was asked for, it
/// warns about the worker and passes it over.
pub proof fn what_follows_a_failed_request(run: RunView, error: Seq<char>)
    ensures
        ({
            let step = run_next(run, CommandReplyView::RequestFailed { error });
            if run.order is Status {
                warns(run, step, None, "GetStatus RPC failed"@, error)
            } else {
                fails(step, CommandErrorView::Transport { error })
            }
        }),
{
}

/// What follows the answer of a worker: a success is reported and a failure
/// warned of, with the model, and the command is done with the worker. A failure
/// of an inference ends the command instead.
pub proof fn what_follows_an_answer(run: RunView, reply: CommandReplyView)
    requires
        command_answers(run.call(), reply),
    ensures
        ({
            let step = run_next(run, reply);
            let worker = run.targets[run.current as int].instance_name;
            match reply {
                CommandReplyView::Status(status) => {
                    &&& step.report == ReportView::Print(status_report(status))
                    &&& is_done_with_worker(run, step.next)
                },
                CommandReplyView::Loaded(response) => {
                    let model_name = run.order->LoadModel_model_name;
                    if response.success {
                        &&& step.report matches ReportView::Print(text) && reports_load(
                            text,
                            worker,
                            model_name,
                            response.input_count as int,
                            response.output_count as int,
                        )
                        &&& is_done_with_worker(run, step.next)
                    } else {
                        warns(
                            run,
                            step,
                            Some(model_name),
                            "LoadModel failed"@,
                            response.error_msg,
                        )
                    }
                },
                CommandReplyView::Unloaded(response) => {
                    let model_name = run.order->UnloadModel_model_name;
                    if response.success {
                        &&& step.report == ReportView::Print(
                            "Worker "@ + worker + ": model '"@ + model_name + "' unloaded"@,
                        )
                        &&& is_done_with_worker(run, step.next)
                    } else {
                        warns(
                            run,
                            step,
                            Some(model_name),
                            "UnloadModel failed"@,
                            response.error_msg,
                        )
                    }
                },
                CommandReplyView::Inferred(response) => {
                    if response.success {
                        &&& step.report matches ReportView::Print(text) && reports_inference(
                            text,
                            worker,
                            response.output_data,
                            response.latency_ms as int,
                        )
                        &&& is_done_with_worker(run, step.next)
                    } else {
                        fails(
                            step,
                            CommandErrorView::InferenceFailed { error_msg: response.error_msg },
                        )
                    }
                },
                _ => true,
            }
        }),
{
    let worker = run.targets[run.current as int].instance_name;
    match reply {
        CommandReplyView::Loaded(response) => {
            load_report_tells_the_streams(worker, run.order->LoadModel_model_name, response);
        },
        CommandReplyView::Inferred(response) => {
            inference_report_shows_the_start_of_the_output(worker, response);
        },
        _ => {},
    }
}

/// The text of an error of a command: what is missing, what the transport said,
/// or what the worker said.
pub proof fn command_error_text_tells_the_cause(error: CommandErrorView)
    ensures
        error.text() == match error {
            CommandErrorView::NoMatchingWorkers => "No matching workers found"@,
            CommandErrorView::Transport { error } => error,
            CommandErrorView::InferenceFailed { error_msg } => "Inference failed: "@ + error_msg,
        },
{
}

/// A list of the workers of a pool holds exactly these workers, each of them once.
pub proof fn a_listing_is_the_pool(
    listing: Seq<EndpointView>,
    pool: Map<Seq<char>, EndpointView>,
    name: Seq<char>,
)
    requires
        lists_pool(listing, pool),
    ensures
        pool.dom().contains(name) ==> listing.contains(pool[name]) && pool[name].instance_name
            == name,
        forall|i: int|
            0 <= i < listing.len() ==> pool.dom().contains(
                (#[trigger] listing[i]).instance_name,
            ) && pool[listing[i].instance_name] == listing[i],
        forall|i: int, j: int|
            0 <= i < listing.len() && 0 <= j < listing.len() && (
            #[trigger] listing[i]).instance_name == (#[trigger] listing[j]).instance_name ==> i
                == j,
{
    if pool.dom().contains(name) {
        let i = choose|i: int|
            0 <= i < listing.len() && (#[trigger] listing[i]).instance_name == name;
        assert(pool[listing[i].instance_name] == listing[i]);
    }
    assert forall|i: int, j: int|
        0 <= i < listing.len() && 0 <= j < listing.len() && (#[trigger] listing[i]).instance_name
            == (#[trigger] listing[j]).instance_name implies i == j by {
        if i < j {
            assert(listing[i].instance_name != listing[j].instance_name);
        } else if j < i {
            assert(listing[j].instance_name != listing[i].instance_name);
        }
    }
}

/// The values of orders, calls and replies are their parts.
pub proof fn orders_and_replies_are_their_parts(
    order: Order,
    call: CommandCall<'_>,
    reply: CommandReply,
    filter: Option<&str>,
)
    ensures
        match order {
            Order::Status => order@ is Status,
            Order::LoadModel { hef_data, model_name } => order@ == (OrderView::LoadModel {
                hef_data: hef_data@,
                model_name: model_name@,
            }),
            Order::UnloadModel { model_name } => order@ == (OrderView::UnloadModel {
                model_name: model_name@,
            }),
            Order::Infer { model_name, input_data, expected_output_size } => order@ == (
            OrderView::Infer {
                model_name: model_name@,
                input_data: input_data@,
                expected_output_size,
            }),
        },
        match call {
            CommandCall::Connect { addr } => call@ == (CommandCallView::Connect { addr: addr@ }),
            CommandCall::Request(asked) => call@ == CommandCallView::Request(asked@),
        },
        match reply {
            CommandReply::Connected => reply@ is Connected,
            CommandReply::ConnectFailed { error } => reply@ == (CommandReplyView::ConnectFailed {
                error: error@,
            }),
            CommandReply::RequestFailed { error } => reply@ == (CommandReplyView::RequestFailed {
                error: error@,
            }),
            CommandReply::Status(response) => reply@ == CommandReplyView::Status(response@),
            CommandReply::Loaded(response) => reply@ == CommandReplyView::Loaded(response@),
            CommandReply::Unloaded(response) => reply@ == CommandReplyView::Unloaded(response@),
            CommandReply::Inferred(response) => reply@ == CommandReplyView::Inferred(response@),
        },
        match filter {
            Some(text) => filter_view(filter) == Some(text@),
            None => filter_view(filter) is None,
        },
{
}

/// The values of errors, reports and steps are their parts.
pub proof fn reports_and_steps_are_their_parts(error: CommandError, report: Report, step: RunStep)
    ensures
        match error {
            CommandError::NoMatchingWorkers => error@ is NoMatchingWorkers,
            CommandError::Transport { error: cause } => error@ == (CommandErrorView::Transport {
                error: cause@,
            }),
            CommandError::InferenceFailed { error_msg } => error@ == (
            CommandErrorView::InferenceFailed { error_msg: error_msg@ }),
        },
        match report {
            Report::Nothing => report@ is Nothing,
            Report::Print(text) => report@ == ReportView::Print(text@),
            Report::Warn { worker, model, message, error: cause } => {
                &&& report@ is Warn
                &&& report@->worker == worker@
                &&& report@->message == message@
                &&& report@->error == cause@
                &&& match model {
                    Some(name) => report@->model == Some(name@),
                    None => report@->model is None,
                }
            },
        },
        step@.report == step.report@,
        match step.next {
            RunNext::Continue(run) => step@.next == RunNextView::Continue(run@),
            RunNext::Finished(outcome) => step@.next == RunNextView::Finished(
                command_outcome_view(outcome),
            ),
        },
        step.next matches RunNext::Finished(Ok(())) ==> step@.next == RunNextView::Finished(Ok(())),
        step.next matches RunNext::Finished(Err(cause)) ==> step@.next == RunNextView::Finished(
            Err(cause@),
        ),
{
}

} // verus!
