//! Laws of the master: the pool follows what discovery tells, a filter selects
//! exactly what it names, and a command goes through its targets in order.

use vstd::prelude::*;

use crate::discovery::browse::browse_next;
use crate::discovery::browse::first_v4;
use crate::discovery::browse::BrowseActionView;
use crate::discovery::browse::BrowseInputView;
use crate::discovery::endpoint::grpc_address;
use crate::discovery::endpoint::DiscoveryEventView;
use crate::discovery::endpoint::EndpointView;
use crate::discovery::host::HostAddressView;
use crate::discovery::register::worker_announcement;
use crate::discovery::register::worker_fullname;
use crate::master::pool::lists_pool;
use crate::master::pool::pool_next;
use crate::master::run::command_answers;
use crate::master::run::run_next;
use crate::master::run::CommandCallView;
use crate::master::run::CommandReplyView;
use crate::master::run::OrderView;
use crate::master::run::ReportView;
use crate::master::run::RunNextView;
use crate::master::run::RunView;
use crate::master::select::lemma_selected_push;
use crate::master::select::passes;
use crate::master::select::selected;
use crate::text::occurs_at;

verus! {

/// A pool after a sequence of events.
pub open spec fn pool_after(
    pool: Map<Seq<char>, EndpointView>,
    events: Seq<DiscoveryEventView>,
) -> Map<Seq<char>, EndpointView>
    decreases events.len(),
{
    if events.len() == 0 {
        pool
    } else {
        pool_next(pool_after(pool, events.drop_last()), events.last())
    }
}

/// The name of the worker that an event is about.
pub open spec fn subject(event: DiscoveryEventView) -> Seq<char> {
    match event {
        DiscoveryEventView::Appeared(endpoint) => endpoint.instance_name,
        DiscoveryEventView::Disappeared(name) => name,
    }
}

/// The last event about the worker of a name.
pub open spec fn last_about(events: Seq<DiscoveryEventView>, name: Seq<char>) -> Option<
    DiscoveryEventView,
>
    decreases events.len(),
{
    if events.len() == 0 {
        None
    } else if subject(events.last()) == name {
        Some(events.last())
    } else {
        last_about(events.drop_last(), name)
    }
}

/// The last event about a worker decides whether the pool holds it: if the
/// worker appeared, the pool holds of it what that event told, and if it
/// disappeared, the pool does not hold it. Without an event about it, the pool
/// holds of it what it held before.
pub proof fn pool_follows_the_last_event(
    pool: Map<Seq<char>, EndpointView>,
    events: Seq<DiscoveryEventView>,
    name: Seq<char>,
)
    ensures
        match last_about(events, name) {
            Some(DiscoveryEventView::Appeared(endpoint)) => {
                &&& pool_after(pool, events).dom().contains(name)
                &&& pool_after(pool, events)[name] == endpoint
                &&& endpoint.instance_name == name
            },
            Some(DiscoveryEventView::Disappeared(_)) => {
                !pool_after(pool, events).dom().contains(name)
            },
            None => {
                &&& pool_after(pool, events).dom().contains(name) <==> pool.dom().contains(name)
                &&& pool.dom().contains(name) ==> pool_after(pool, events)[name] == pool[name]
            },
        },
    decreases events.len(),
{
    if events.len() > 0 {
        pool_follows_the_last_event(pool, events.drop_last(), name);
    }
}

/// Whether each worker of a pool is filed under its instance name.
pub open spec fn keyed_by_name(pool: Map<Seq<char>, EndpointView>) -> bool {
    forall|name: Seq<char>| #[trigger]
        pool.dom().contains(name) ==> pool[name].instance_name == name
}

/// Events keep each worker of a pool filed under its instance name.
pub proof fn pool_stays_keyed_by_name(
    pool: Map<Seq<char>, EndpointView>,
    events: Seq<DiscoveryEventView>,
)
    requires
        keyed_by_name(pool),
    ensures
        keyed_by_name(pool_after(pool, events)),
    decreases events.len(),
{
    if events.len() > 0 {
        pool_stays_keyed_by_name(pool, events.drop_last());
    }
}

/// A list of the workers of a pool is empty exactly if the pool is.
pub proof fn empty_pool_has_empty_listing(
    listing: Seq<EndpointView>,
    pool: Map<Seq<char>, EndpointView>,
)
    requires
        lists_pool(listing, pool),
    ensures
        listing.len() == 0 <==> pool == Map::<Seq<char>, EndpointView>::empty(),
{
    if listing.len() == 0 {
        assert forall|name: Seq<char>| !pool.dom().contains(name) by {
            if pool.dom().contains(name) {
                let i = choose|i: int|
                    0 <= i < listing.len() && (#[trigger] listing[i]).instance_name == name;
                assert(false);
            }
        }
        assert(pool =~= Map::empty());
    } else {
        assert(pool.dom().contains(listing[0].instance_name));
    }
}

/// A selection holds exactly the workers of the list that the filter lets pass.
pub proof fn selection_is_exact(
    listing: Seq<EndpointView>,
    filter: Option<Seq<char>>,
    endpoint: EndpointView,
)
    ensures
        selected(listing, filter).contains(endpoint) <==> listing.contains(endpoint) && passes(
            endpoint,
            filter,
        ),
    decreases listing.len(),
{
    if listing.len() == 0 {
        reveal(Seq::filter);
        assert(selected(listing, filter) =~= Seq::empty());
    } else {
        let front = listing.drop_last();
        let last = listing.last();
        selection_is_exact(front, filter, endpoint);
        lemma_selected_push(front, last, filter);
        assert(front.push(last) =~= listing);
        let before = selected(front, filter);
        let after = selected(listing, filter);
        if before.contains(endpoint) {
            let i = choose|i: int| 0 <= i < before.len() && before[i] == endpoint;
            assert(after[i] == endpoint);
        }
        if after.contains(endpoint) && !before.contains(endpoint) {
            let i = choose|i: int| 0 <= i < after.len() && after[i] == endpoint;
            if i < before.len() {
                assert(before[i] == endpoint);
            }
            assert(endpoint == last);
            assert(listing[listing.len() - 1] == endpoint);
        }
        if front.contains(endpoint) {
            let i = choose|i: int| 0 <= i < front.len() && front[i] == endpoint;
            assert(listing[i] == endpoint);
        }
        if listing.contains(endpoint) && !front.contains(endpoint) {
            let i = choose|i: int| 0 <= i < listing.len() && listing[i] == endpoint;
            if i < front.len() {
                assert(front[i] == endpoint);
            }
            assert(endpoint == last);
            if passes(endpoint, filter) {
                assert(after[before.len() as int] == endpoint);
            }
        }
    }
}

/// Without a filter, or with an empty one, a command addresses every worker.
pub proof fn no_filter_selects_every_worker(listing: Seq<EndpointView>)
    ensures
        selected(listing, None) == listing,
        selected(listing, Some(Seq::empty())) == listing,
    decreases listing.len(),
{
    if listing.len() == 0 {
        reveal(Seq::filter);
        assert(selected(listing, None) =~= listing);
        assert(selected(listing, Some(Seq::empty())) =~= listing);
    } else {
        let front = listing.drop_last();
        let last = listing.last();
        no_filter_selects_every_worker(front);
        lemma_selected_push(front, last, None);
        lemma_selected_push(front, last, Some(Seq::empty()));
        assert(front.push(last) =~= listing);
        assert(occurs_at(last.instance_name, Seq::empty(), 0)) by {
            assert(last.instance_name.subrange(0, 0) =~= Seq::empty());
        }
    }
}

/// The full name under which a worker registers contains its instance name, so
/// the instance name selects it.
pub proof fn instance_name_selects_its_worker(instance_name: Seq<char>, endpoint: EndpointView)
    requires
        endpoint.instance_name == worker_fullname(instance_name),
    ensures
        passes(endpoint, Some(instance_name)),
{
    let full = worker_fullname(instance_name);
    assert(full.subrange(0, instance_name.len() as int) =~= instance_name);
    assert(occurs_at(full, instance_name, 0));
}

/// A worker that is resolved as it announced itself appears under its full name,
/// at the address and port it announced, and its instance name selects it.
pub proof fn announced_worker_is_found(
    instance_name: Seq<char>,
    host: Seq<char>,
    ip: [u8; 4],
    port: u16,
)
    ensures
        ({
            let service = worker_announcement(instance_name, host, ip, port);
            let endpoint = EndpointView {
                instance_name: service.fullname,
                host: service.hostname,
                ip,
                port,
            };
            &&& browse_next(
                BrowseInputView::Resolved {
                    fullname: service.fullname,
                    host: service.hostname,
                    addresses: seq![HostAddressView::V4(service.ip)],
                    port: service.port,
                },
            ) == BrowseActionView::Send(DiscoveryEventView::Appeared(endpoint))
            &&& passes(endpoint, Some(instance_name))
        }),
{
    let service = worker_announcement(instance_name, host, ip, port);
    let endpoint = EndpointView {
        instance_name: service.fullname,
        host: service.hostname,
        ip,
        port,
    };
    instance_name_selects_its_worker(instance_name, endpoint);
    assert(first_v4(seq![HostAddressView::V4(ip)]) == Some(ip));
}

/// Where a command is after a sequence of replies.
pub open spec fn command_run(run: RunView, replies: Seq<CommandReplyView>) -> RunNextView
    decreases replies.len(),
{
    if replies.len() == 0 {
        RunNextView::Continue(run)
    } else {
        match run_next(run, replies[0]).next {
            RunNextView::Continue(next) => command_run(next, replies.drop_first()),
            RunNextView::Finished(outcome) => RunNextView::Finished(outcome),
        }
    }
}

/// Whether each reply answers the call that the command waits for, and none
/// comes after the end.
pub open spec fn command_replies(run: RunView, replies: Seq<CommandReplyView>) -> bool
    decreases replies.len(),
{
    replies.len() > 0 ==> {
        &&& command_answers(run.call(), replies[0])
        &&& match run_next(run, replies[0]).next {
            RunNextView::Continue(next) => command_replies(next, replies.drop_first()),
            RunNextView::Finished(_) => replies.len() == 1,
        }
    }
}

/// The addresses that a command connects to during a sequence of replies.
pub open spec fn addresses_called(run: RunView, replies: Seq<CommandReplyView>) -> Seq<Seq<char>>
    decreases replies.len(),
{
    if replies.len() == 0 {
        Seq::empty()
    } else {
        let first = match run.call() {
            CommandCallView::Connect { addr } => seq![addr],
            CommandCallView::Request(_) => Seq::empty(),
        };
        match run_next(run, replies[0]).next {
            RunNextView::Continue(next) => first + addresses_called(next, replies.drop_first()),
            RunNextView::Finished(_) => first,
        }
    }
}

/// What a command tells the user during a sequence of replies.
pub open spec fn told(run: RunView, replies: Seq<CommandReplyView>) -> Seq<ReportView>
    decreases replies.len(),
{
    if replies.len() == 0 {
        Seq::empty()
    } else {
        let step = run_next(run, replies[0]);
        let first = if step.report is Nothing {
            Seq::empty()
        } else {
            seq![step.report]
        };
        match step.next {
            RunNextView::Continue(next) => first + told(next, replies.drop_first()),
            RunNextView::Finished(_) => first,
        }
    }
}

/// The addresses of the targets, in order.
pub open spec fn target_addresses(run: RunView) -> Seq<Seq<char>> {
    run.targets.map_values(|e: EndpointView| grpc_address(e))
}

/// Which target is connected to next.
pub open spec fn next_connection(run: RunView) -> int {
    if run.connected {
        run.current as int + 1
    } else {
        run.current as int
    }
}

proof fn lemma_command_run(run: RunView, replies: Seq<CommandReplyView>)
    requires
        run.wf(),
        command_replies(run, replies),
    ensures
        addresses_called(run, replies).is_prefix_of(target_addresses(run).skip(next_connection(run))),
        command_run(run, replies) == RunNextView::Finished(Ok(())) ==> {
            &&& addresses_called(run, replies) == target_addresses(run).skip(next_connection(run))
            &&& told(run, replies).len() == run.targets.len() - run.current
        },
        run.order is Status && command_run(run, replies) is Finished ==> command_run(run, replies)
            == RunNextView::Finished(Ok(())),
    decreases replies.len(),
{
    let all = target_addresses(run);
    if replies.len() > 0 {
        let rest = replies.drop_first();
        let addr = grpc_address(run.targets[run.current as int]);
        assert(all[run.current as int] == addr);
        match run_next(run, replies[0]).next {
            RunNextView::Continue(next) => {
                lemma_command_run(next, rest);
                if !run.connected {
                    assert(all.skip(run.current as int) =~= seq![addr] + all.skip(
                        run.current as int + 1,
                    ));
                    assert(all.skip(next_connection(next)) =~= all.skip(run.current as int + 1));
                } else {
                    assert(Seq::<Seq<char>>::empty() + addresses_called(next, rest)
                        =~= addresses_called(next, rest));
                }
            },
            RunNextView::Finished(outcome) => {
                if !run.connected {
                    assert(addresses_called(run, replies) =~= seq![addr]);
                    assert(all.skip(run.current as int)[0] == addr);
                    if outcome is Ok {
                        assert(all.skip(run.current as int) =~= seq![addr]);
                    }
                } else if outcome is Ok {
                    assert(all.skip(run.current as int + 1) =~= Seq::empty());
                }
            },
        }
    }
}

/// A command connects to its targets in order, each at most once. If it ends
/// well it has connected to each of them, and told the user one thing about
/// each.
pub proof fn command_visits_targets_in_order(
    order: OrderView,
    targets: Seq<EndpointView>,
    replies: Seq<CommandReplyView>,
)
    requires
        targets.len() > 0,
        command_replies(
            (RunView { order, targets, current: 0, connected: false }),
            replies,
        ),
    ensures
        ({
            let start = RunView { order, targets, current: 0, connected: false };
            let addresses = targets.map_values(|e: EndpointView| grpc_address(e));
            &&& addresses_called(start, replies).is_prefix_of(addresses)
            &&& command_run(start, replies) == RunNextView::Finished(Ok(())) ==> {
                &&& addresses_called(start, replies) == addresses
                &&& told(start, replies).len() == targets.len()
            }
        }),
{
    let start = RunView { order, targets, current: 0, connected: false };
    lemma_command_run(start, replies);
    assert(target_addresses(start).skip(0) =~= target_addresses(start));
}

/// Asking for the status never fails, whatever the workers answer.
pub proof fn status_never_fails(run: RunView, replies: Seq<CommandReplyView>)
    requires
        run.wf(),
        run.order is Status,
        command_replies(run, replies),
    ensures
        command_run(run, replies) matches RunNextView::Finished(outcome) ==> outcome is Ok,
{
    lemma_command_run(run, replies);
}

/// How many calls a command can still make.
pub open spec fn calls_left(run: RunView) -> int {
    2 * (run.targets.len() - run.current) - if run.connected { 1int } else { 0int }
}

/// A command ends whatever the workers answer: each step leaves fewer calls to
/// make.
pub proof fn command_step_progresses(run: RunView, reply: CommandReplyView)
    requires
        run.wf(),
        command_answers(run.call(), reply),
    ensures
        calls_left(run) > 0,
        run_next(run, reply).next matches RunNextView::Continue(next) ==> {
            &&& next.wf()
            &&& calls_left(next) < calls_left(run)
        },
{
}

} // verus!
