//! Laws of discovery: what is announced of a worker, what is found of it, and
//! where it is reached.

use vstd::prelude::*;

use crate::discovery::browse::address_views;
use crate::discovery::browse::browse_next;
use crate::discovery::browse::first_v4;
use crate::discovery::browse::BrowseAction;
use crate::discovery::browse::BrowseActionView;
use crate::discovery::browse::BrowseInput;
use crate::discovery::browse::BrowseInputView;
use crate::discovery::endpoint::endpoint_views;
use crate::discovery::endpoint::grpc_address;
use crate::discovery::endpoint::DiscoveryEvent;
use crate::discovery::endpoint::DiscoveryEventView;
use crate::discovery::endpoint::EndpointView;
use crate::discovery::endpoint::WorkerEndpoint;
use crate::discovery::host::fallback_hostname;
use crate::discovery::host::HostAddress;
use crate::discovery::host::HostAddressView;
use crate::discovery::register::worker_announcement;
use crate::discovery::register::worker_fullname;
use crate::text::decimal;
use crate::text::dotted;
use crate::text_laws::decimal_reads_back;
use crate::text_laws::dotted_reads_back;
use crate::text_laws::last_part_is_unique;
use crate::text_laws::numerals_hold_digits_alone;
use crate::text_laws::reads_as;
use crate::text_laws::shown_ip_is_unique;
use crate::text_laws::shows_ip;

verus! {

/// Whether a text is the URL of a port on a machine: the address and the port
/// can be read off it.
pub open spec fn is_url_of(text: Seq<char>, ip: [u8; 4], port: int) -> bool {
    exists|host: Seq<char>, digits: Seq<char>|
        #![trigger shows_ip(host, ip), reads_as(digits, port)]
        shows_ip(host, ip) && reads_as(digits, port) && text == "http://"@ + host + seq![':']
            + digits
}

/// A worker is reached at the address and the port it was found at.
pub proof fn worker_is_reached_where_it_was_found(endpoint: EndpointView)
    ensures
        is_url_of(grpc_address(endpoint), endpoint.ip, endpoint.port as int),
{
    reveal_strlit(":");
    dotted_reads_back(endpoint.ip);
    decimal_reads_back(endpoint.port as nat);
    let host = dotted(endpoint.ip);
    let digits = decimal(endpoint.port as nat);
    assert(shows_ip(host, endpoint.ip) && reads_as(digits, endpoint.port as int));
    assert(grpc_address(endpoint) =~= "http://"@ + host + seq![':'] + digits);
}

/// Workers at different ports, or at different addresses, are reached at
/// different URLs.
pub proof fn different_places_have_different_urls(a: EndpointView, b: EndpointView)
    requires
        grpc_address(a) == grpc_address(b),
    ensures
        a.ip == b.ip,
        a.port == b.port,
{
    worker_is_reached_where_it_was_found(a);
    worker_is_reached_where_it_was_found(b);
    let text = grpc_address(a);
    let (host_a, port_a) = choose|host: Seq<char>, digits: Seq<char>|
        #![trigger shows_ip(host, a.ip), reads_as(digits, a.port as int)]
        shows_ip(host, a.ip) && reads_as(digits, a.port as int) && text == "http://"@ + host
            + seq![':'] + digits;
    let (host_b, port_b) = choose|host: Seq<char>, digits: Seq<char>|
        #![trigger shows_ip(host, b.ip), reads_as(digits, b.port as int)]
        shows_ip(host, b.ip) && reads_as(digits, b.port as int) && text == "http://"@ + host
            + seq![':'] + digits;
    numerals_hold_digits_alone(port_a, a.port as int);
    numerals_hold_digits_alone(port_b, b.port as int);
    last_part_is_unique("http://"@ + host_a, port_a, "http://"@ + host_b, port_b, ':');
    let scheme = "http://"@.len() as int;
    assert(host_a =~= ("http://"@ + host_a).skip(scheme));
    assert(host_b =~= ("http://"@ + host_b).skip(scheme));
    shown_ip_is_unique(host_a, a.ip, b.ip);
}

/// The first IPv4 address of a list is one of the list, with none before it;
/// there is none exactly if the list has no IPv4 address.
pub proof fn first_v4_is_the_first(addresses: Seq<HostAddressView>)
    ensures
        match first_v4(addresses) {
            Some(ip) => exists|i: int|
                0 <= i < addresses.len() && #[trigger] addresses[i] == HostAddressView::V4(ip)
                    && forall|j: int| 0 <= j < i ==> (#[trigger] addresses[j]) is V6,
            None => forall|j: int| 0 <= j < addresses.len() ==> (#[trigger] addresses[j]) is V6,
        },
    decreases addresses.len(),
{
    if addresses.len() > 0 {
        let rest = addresses.drop_first();
        first_v4_is_the_first(rest);
        assert forall|j: int| 0 < j < addresses.len() implies #[trigger] addresses[j] == rest[j
            - 1] by {}
        if addresses[0] is V6 {
            match first_v4(rest) {
                Some(ip) => {
                    let i = choose|i: int|
                        0 <= i < rest.len() && #[trigger] rest[i] == HostAddressView::V4(ip)
                            && forall|j: int| 0 <= j < i ==> (#[trigger] rest[j]) is V6;
                    assert(addresses[i + 1] == HostAddressView::V4(ip));
                    assert forall|j: int| 0 <= j < i + 1 implies (#[trigger] addresses[j]) is V6 by {
                        if j > 0 {
                            assert(rest[j - 1] is V6);
                        }
                    }
                },
                None => {
                    assert forall|j: int| 0 <= j < addresses.len() implies (
                    #[trigger] addresses[j]) is V6 by {
                        if j > 0 {
                            assert(rest[j - 1] is V6);
                        }
                    }
                },
            }
        } else {
            assert(addresses[0] == HostAddressView::V4(addresses[0]->V4_0));
        }
    }
}

/// A service that is resolved is told as a worker under the name, host and port
/// of the service, at an IPv4 address of its own with none before it. One without
/// an IPv4 address is passed over.
pub proof fn resolved_service_is_told(
    fullname: Seq<char>,
    host: Seq<char>,
    addresses: Seq<HostAddressView>,
    port: u16,
)
    ensures
        match browse_next(BrowseInputView::Resolved { fullname, host, addresses, port }) {
            BrowseActionView::Send(DiscoveryEventView::Appeared(endpoint)) => {
                &&& endpoint.instance_name == fullname
                &&& endpoint.host == host
                &&& endpoint.port == port
                &&& exists|i: int|
                    0 <= i < addresses.len() && #[trigger] addresses[i] == HostAddressView::V4(
                        endpoint.ip,
                    ) && forall|j: int| 0 <= j < i ==> (#[trigger] addresses[j]) is V6
            },
            BrowseActionView::Receive => forall|j: int|
                0 <= j < addresses.len() ==> (#[trigger] addresses[j]) is V6,
            _ => false,
        },
{
    first_v4_is_the_first(addresses);
}

/// A service that is removed is told under its name. Nothing else is told, and
/// browsing ends exactly when the resolver closes or nobody listens.
pub proof fn everything_else_is_not_told(input: BrowseInputView)
    requires
        !(input is Resolved),
    ensures
        match browse_next(input) {
            BrowseActionView::Send(DiscoveryEventView::Disappeared(name)) => input
                == (BrowseInputView::Removed { fullname: name }),
            BrowseActionView::Send(_) => false,
            BrowseActionView::Stop => input is Closed || input is SendFailed,
            BrowseActionView::Receive => input is Other || input is Sent,
        },
{
}

/// What a worker announces of itself: its instance name in front of the service
/// type, its address and port, and two properties. Its host name is what was
/// given, unless that ends in a doubled domain.
pub proof fn worker_announces_itself(
    instance_name: Seq<char>,
    host: Seq<char>,
    ip: [u8; 4],
    port: u16,
)
    ensures
        ({
            let service = worker_announcement(instance_name, host, ip, port);
            &&& service.service_type == "_hailort._tcp.local."@
            &&& service.fullname == instance_name + "."@ + "_hailort._tcp.local."@
            &&& service.ip == ip
            &&& service.port == port
            &&& service.properties.dom() == set!["version"@, "instance"@]
            &&& service.properties["version"@] == "1"@
            &&& service.properties["instance"@] == instance_name
            &&& (forall|stem: Seq<char>| host != #[trigger] (stem + ".local.local."@))
                ==> service.hostname == host
            &&& forall|stem: Seq<char>|
                host == #[trigger] (stem + ".local.local."@) ==> service.hostname == stem
                    + ".local."@
        }),
{
    reveal_strlit("version");
    reveal_strlit("instance");
    reveal_strlit(".local.local.");
    reveal_strlit(".local.");
    reveal_strlit("local.");
    assert("version"@ != "instance"@) by {
        assert("version"@.len() != "instance"@.len());
    }
    let service = worker_announcement(instance_name, host, ip, port);
    assert(service.properties.dom() =~= set!["version"@, "instance"@]);
    let doubled = ".local.local."@;
    if host.len() >= doubled.len() && host.skip(host.len() - doubled.len()) == doubled {
        let stem = host.take(host.len() - doubled.len());
        assert(host =~= stem + doubled);
    }
    assert forall|stem: Seq<char>| host == #[trigger] (stem + doubled) implies service.hostname
        == stem + ".local."@ by {
        assert(host.skip(host.len() - doubled.len()) =~= doubled);
        assert(service.hostname =~= stem + ".local."@);
    }
}

/// Workers of different instance names have different full names.
pub proof fn full_names_differ(a: Seq<char>, b: Seq<char>)
    requires
        worker_fullname(a) == worker_fullname(b),
    ensures
        a == b,
{
    let tail = ("."@ + "_hailort._tcp.local."@).len() as int;
    assert(a =~= worker_fullname(a).take(worker_fullname(a).len() - tail));
    assert(b =~= worker_fullname(b).take(worker_fullname(b).len() - tail));
}

/// A machine that does not tell its name is called by the name of the loopback.
pub proof fn fallback_is_localhost()
    ensures
        fallback_hostname() == "localhost"@,
{
}

/// The value of an endpoint is its parts.
pub proof fn endpoint_is_its_parts(endpoint: WorkerEndpoint)
    ensures
        endpoint@.instance_name == endpoint.instance_name@,
        endpoint@.host == endpoint.host@,
        endpoint@.ip == endpoint.ip,
        endpoint@.port == endpoint.port,
{
}

/// The values of a list of endpoints are those of its items, in order.
pub proof fn endpoints_are_their_items(endpoints: Seq<WorkerEndpoint>)
    ensures
        endpoint_views(endpoints).len() == endpoints.len(),
        forall|i: int|
            0 <= i < endpoints.len() ==> #[trigger] endpoint_views(endpoints)[i] == endpoints[i]@,
{
}

/// The value of an event is its parts.
pub proof fn event_is_its_parts(event: DiscoveryEvent)
    ensures
        match event {
            DiscoveryEvent::Appeared(endpoint) => event@ == DiscoveryEventView::Appeared(endpoint@),
            DiscoveryEvent::Disappeared(name) => event@ == DiscoveryEventView::Disappeared(name@),
        },
{
}

/// The value of an address is its parts.
pub proof fn address_is_its_parts(address: HostAddress)
    ensures
        match address {
            HostAddress::V4(octets) => address@ == HostAddressView::V4(octets),
            HostAddress::V6(text) => address@ == HostAddressView::V6(text@),
        },
{
}

/// The value of what happens while browsing is its parts.
pub proof fn browse_input_is_its_parts(input: BrowseInput)
    ensures
        match input {
            BrowseInput::Resolved { fullname, host, addresses, port } => {
                &&& input@ is Resolved
                &&& input@->Resolved_fullname == fullname@
                &&& input@->host == host@
                &&& input@->port == port
                &&& input@->addresses.len() == addresses@.len()
                &&& forall|i: int|
                    0 <= i < addresses@.len() ==> #[trigger] input@->addresses[i]
                        == addresses@[i]@
            },
            BrowseInput::Removed { fullname } => input@ == (BrowseInputView::Removed {
                fullname: fullname@,
            }),
            BrowseInput::Other => input@ is Other,
            BrowseInput::Closed => input@ is Closed,
            BrowseInput::Sent => input@ is Sent,
            BrowseInput::SendFailed => input@ is SendFailed,
        },
{
    if input is Resolved {
        assert(address_views(input->addresses@).len() == input->addresses@.len());
    }
}

/// The value of what to do while browsing is its parts.
pub proof fn browse_action_is_its_parts(action: BrowseAction)
    ensures
        match action {
            BrowseAction::Receive => action@ is Receive,
            BrowseAction::Send(event) => action@ == BrowseActionView::Send(event@),
            BrowseAction::Stop => action@ is Stop,
        },
{
}

} // verus!
