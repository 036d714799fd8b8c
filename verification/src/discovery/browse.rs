//! Browsing: what follows from each thing that happens while looking for
//! workers.

use vstd::prelude::*;

use crate::discovery::endpoint::DiscoveryEvent;
use crate::discovery::endpoint::DiscoveryEventView;
use crate::discovery::endpoint::EndpointView;
use crate::discovery::endpoint::WorkerEndpoint;
use crate::discovery::host::HostAddress;
use crate::discovery::host::HostAddressView;

verus! {

/// Something that happens while browsing.
pub enum BrowseInput {
    /// A service was resolved. Its addresses come in the order in which the
    /// resolver walks them.
    Resolved { fullname: String, host: String, addresses: Vec<HostAddress>, port: u16 },
    /// The service of this full name was removed.
    Removed { fullname: String },
    /// The resolver reported anything else.
    Other,
    /// The resolver will report no more.
    Closed,
    /// The event that was to be sent was taken.
    Sent,
    /// Nobody takes events any more.
    SendFailed,
}

/// The value of a [`BrowseInput`].
pub enum BrowseInputView {
    Resolved {
        fullname: Seq<char>,
        host: Seq<char>,
        addresses: Seq<HostAddressView>,
        port: u16,
    },
    Removed { fullname: Seq<char> },
    Other,
    Closed,
    Sent,
    SendFailed,
}

impl View for BrowseInput {
    type V = BrowseInputView;

    open spec fn view(&self) -> BrowseInputView {
        match self {
            BrowseInput::Resolved { fullname, host, addresses, port } => {
                BrowseInputView::Resolved {
                    fullname: fullname@,
                    host: host@,
                    addresses: address_views(addresses@),
                    port: *port,
                }
            },
            BrowseInput::Removed { fullname } => BrowseInputView::Removed { fullname: fullname@ },
            BrowseInput::Other => BrowseInputView::Other,
            BrowseInput::Closed => BrowseInputView::Closed,
            BrowseInput::Sent => BrowseInputView::Sent,
            BrowseInput::SendFailed => BrowseInputView::SendFailed,
        }
    }
}

/// What to do next while browsing.
pub enum BrowseAction {
    /// Wait for the next report of the resolver.
    Receive,
    /// Send an event, then tell whether it was taken.
    Send(DiscoveryEvent),
    /// End.
    Stop,
}

/// The value of a [`BrowseAction`].
#[verifier::ext_equal]
pub enum BrowseActionView {
    Receive,
    Send(DiscoveryEventView),
    Stop,
}

impl View for BrowseAction {
    type V = BrowseActionView;

    open spec fn view(&self) -> BrowseActionView {
        match self {
            BrowseAction::Receive => BrowseActionView::Receive,
            BrowseAction::Send(event) => BrowseActionView::Send(event@),
            BrowseAction::Stop => BrowseActionView::Stop,
        }
    }
}

/// The values of a list of addresses.
pub open spec fn address_views(addresses: Seq<HostAddress>) -> Seq<HostAddressView> {
    addresses.map_values(|a: HostAddress| a@)
}

/// The first IPv4 address of a list.
pub open spec fn first_v4(addresses: Seq<HostAddressView>) -> Option<[u8; 4]>
    decreases addresses.len(),
{
    if addresses.len() == 0 {
        None
    } else {
        match addresses[0] {
            HostAddressView::V4(octets) => Some(octets),
            HostAddressView::V6(_) => first_v4(addresses.drop_first()),
        }
    }
}

/// What to do when this happens. A service that was resolved is a worker that
/// appeared, at its first IPv4 address; without one it is skipped. A service
/// that was removed is a worker that disappeared. Browsing ends when the
/// resolver closes or nobody takes the events.
pub open spec fn browse_next(input: BrowseInputView) -> BrowseActionView {
    match input {
        BrowseInputView::Resolved { fullname, host, addresses, port } => {
            match first_v4(addresses) {
                Some(ip) => BrowseActionView::Send(
                    DiscoveryEventView::Appeared(
                        EndpointView { instance_name: fullname, host, ip, port },
                    ),
                ),
                None => BrowseActionView::Receive,
            }
        },
        BrowseInputView::Removed { fullname } => BrowseActionView::Send(
            DiscoveryEventView::Disappeared(fullname),
        ),
        BrowseInputView::Other => BrowseActionView::Receive,
        BrowseInputView::Closed => BrowseActionView::Stop,
        BrowseInputView::Sent => BrowseActionView::Receive,
        BrowseInputView::SendFailed => BrowseActionView::Stop,
    }
}

/// Finds the first IPv4 address of a list.
pub fn first_ipv4(addresses: &Vec<HostAddress>) -> (ip: Option<[u8; 4]>)
    ensures
        ip == first_v4(address_views(addresses@)),
{
    let ghost views = address_views(addresses@);
    let mut i: usize = 0;
    assert(views.skip(0) =~= views);
    while i < addresses.len()
        invariant
            i <= addresses@.len(),
            views == address_views(addresses@),
            first_v4(views) == first_v4(views.skip(i as int)),
        decreases addresses.len() - i,
    {
        assert(views.skip(i as int)[0] == addresses@[i as int]@);
        assert(views.skip(i as int).drop_first() =~= views.skip(i + 1));
        if let HostAddress::V4(octets) = &addresses[i] {
            return Some(*octets);
        }
        i += 1;
    }
    None
}

/// Decides what to do when something happens while browsing for workers. The
/// first action is to receive.
pub fn browse_workers(input: BrowseInput) -> (action: BrowseAction)
    ensures
        action@ == browse_next(input@),
{
    match input {
        BrowseInput::Resolved { fullname, host, addresses, port } => {
            match first_ipv4(&addresses) {
                Some(ip) => BrowseAction::Send(
                    DiscoveryEvent::Appeared(
                        WorkerEndpoint { instance_name: fullname, host, ip, port },
                    ),
                ),
                None => BrowseAction::Receive,
            }
        },
        BrowseInput::Removed { fullname } => BrowseAction::Send(
            DiscoveryEvent::Disappeared(fullname),
        ),
        BrowseInput::Other => BrowseAction::Receive,
        BrowseInput::Closed => BrowseAction::Stop,
        BrowseInput::Sent => BrowseAction::Receive,
        BrowseInput::SendFailed => BrowseAction::Stop,
    }
}

} // verus!
