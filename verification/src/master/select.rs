//! Which workers a command addresses.

use vstd::prelude::*;

use crate::discovery::endpoint::endpoint_views;
use crate::discovery::endpoint::EndpointView;
use crate::discovery::endpoint::WorkerEndpoint;
use crate::text::contains_text;
use crate::text::is_substring;

verus! {

/// The value of a filter.
pub open spec fn filter_view(filter: Option<&str>) -> Option<Seq<char>> {
    match filter {
        Some(text) => Some(text@),
        None => None,
    }
}

/// Whether a filter lets a worker pass: its instance name contains the filter.
/// Without a filter every worker passes.
pub open spec fn passes(endpoint: EndpointView, filter: Option<Seq<char>>) -> bool {
    match filter {
        Some(text) => is_substring(endpoint.instance_name, text),
        None => true,
    }
}

/// The workers of a list that a filter lets pass, in the order of the list.
pub open spec fn selected(
    listing: Seq<EndpointView>,
    filter: Option<Seq<char>>,
) -> Seq<EndpointView> {
    listing.filter(|e: EndpointView| passes(e, filter))
}

/// The first worker of a list that a filter lets pass.
pub open spec fn first_selected(
    listing: Seq<EndpointView>,
    filter: Option<Seq<char>>,
) -> Option<EndpointView> {
    if selected(listing, filter).len() > 0 {
        Some(selected(listing, filter)[0])
    } else {
        None
    }
}

/// Tests whether a filter lets a worker pass.
pub fn matches_filter(endpoint: &WorkerEndpoint, filter: Option<&str>) -> (pass: bool)
    ensures
        pass == passes(endpoint@, filter_view(filter)),
{
    match filter {
        Some(text) => contains_text(endpoint.instance_name.as_str(), text),
        None => true,
    }
}

/// Appending a worker appends it to the selection, if the filter lets it pass.
pub proof fn lemma_selected_push(
    listing: Seq<EndpointView>,
    endpoint: EndpointView,
    filter: Option<Seq<char>>,
)
    ensures
        selected(listing.push(endpoint), filter) == if passes(endpoint, filter) {
            selected(listing, filter).push(endpoint)
        } else {
            selected(listing, filter)
        },
{
    reveal(Seq::filter);
    assert(listing.push(endpoint).drop_last() =~= listing);
}

/// Selects the workers that a filter lets pass, in the order of the list.
pub fn select_targets(endpoints: &Vec<WorkerEndpoint>, filter: Option<&str>) -> (targets: Vec<
    WorkerEndpoint,
>)
    ensures
        endpoint_views(targets@) == selected(endpoint_views(endpoints@), filter_view(filter)),
{
    let ghost views = endpoint_views(endpoints@);
    let mut targets: Vec<WorkerEndpoint> = Vec::new();
    let mut i: usize = 0;
    assert(endpoint_views(targets@) =~= selected(views.take(0), filter_view(filter))) by {
        reveal(Seq::filter);
    }
    while i < endpoints.len()
        invariant
            i <= endpoints@.len(),
            views == endpoint_views(endpoints@),
            endpoint_views(targets@) == selected(views.take(i as int), filter_view(filter)),
        decreases endpoints.len() - i,
    {
        proof {
            lemma_selected_push(views.take(i as int), views[i as int], filter_view(filter));
            assert(views.take(i + 1) =~= views.take(i as int).push(views[i as int]));
        }
        if matches_filter(&endpoints[i], filter) {
            let ghost before = targets@;
            targets.push(endpoints[i].clone());
            assert(endpoint_views(targets@) =~= endpoint_views(before).push(views[i as int]));
        }
        i += 1;
    }
    assert(views.take(i as int) =~= views);
    targets
}

/// Finds the first worker that a filter lets pass.
pub fn first_target(endpoints: &Vec<WorkerEndpoint>, filter: Option<&str>) -> (target: Option<
    WorkerEndpoint,
>)
    ensures
        match target {
            Some(endpoint) => first_selected(endpoint_views(endpoints@), filter_view(filter))
                == Some(endpoint@),
            None => first_selected(endpoint_views(endpoints@), filter_view(filter)) is None,
        },
{
    let ghost views = endpoint_views(endpoints@);
    let mut i: usize = 0;
    assert(selected(views.take(0), filter_view(filter)) =~= Seq::empty()) by {
        reveal(Seq::filter);
    }
    while i < endpoints.len()
        invariant
            i <= endpoints@.len(),
            views == endpoint_views(endpoints@),
            selected(views.take(i as int), filter_view(filter)).len() == 0,
        decreases endpoints.len() - i,
    {
        proof {
            lemma_selected_push(views.take(i as int), views[i as int], filter_view(filter));
            assert(views.take(i + 1) =~= views.take(i as int).push(views[i as int]));
        }
        if matches_filter(&endpoints[i], filter) {
            proof {
                lemma_selected_keeps_first(views, i + 1, filter_view(filter));
            }
            return Some(endpoints[i].clone());
        }
        i += 1;
    }
    assert(views.take(i as int) =~= views);
    None
}

/// The first selected worker of a list is that of any longer list.
proof fn lemma_selected_keeps_first(
    listing: Seq<EndpointView>,
    count: int,
    filter: Option<Seq<char>>,
)
    requires
        0 <= count <= listing.len(),
        selected(listing.take(count), filter).len() > 0,
    ensures
        selected(listing, filter).len() > 0,
        selected(listing, filter)[0] == selected(listing.take(count), filter)[0],
    decreases listing.len() - count,
{
    if count < listing.len() {
        lemma_selected_push(listing.take(count), listing[count], filter);
        assert(listing.take(count + 1) =~= listing.take(count).push(listing[count]));
        lemma_selected_keeps_first(listing, count + 1, filter);
    } else {
        assert(listing.take(count) =~= listing);
    }
}

} // verus!
