//! What is known of a worker on the network.

use vstd::prelude::*;

use crate::text::decimal;
use crate::text::dotted;
use crate::text::push_decimal;
use crate::text::push_dotted;

verus! {

/// The service type under which workers announce themselves.
pub const SERVICE_TYPE: &'static str = "_hailort._tcp.local.";

/// A worker: its full instance name, its host name, and where it listens.
#[derive(Debug)]
pub struct WorkerEndpoint {
    pub instance_name: String,
    pub host: String,
    pub ip: [u8; 4],
    pub port: u16,
}

/// The value of a [`WorkerEndpoint`].
#[verifier::ext_equal]
pub struct EndpointView {
    pub instance_name: Seq<char>,
    pub host: Seq<char>,
    pub ip: [u8; 4],
    pub port: u16,
}

impl View for WorkerEndpoint {
    type V = EndpointView;

    open spec fn view(&self) -> EndpointView {
        EndpointView {
            instance_name: self.instance_name@,
            host: self.host@,
            ip: self.ip,
            port: self.port,
        }
    }
}

impl Clone for WorkerEndpoint {
    fn clone(&self) -> (copy: Self)
        ensures
            copy@ == self@,
    {
        WorkerEndpoint {
            instance_name: self.instance_name.clone(),
            host: self.host.clone(),
            ip: self.ip,
            port: self.port,
        }
    }
}

/// A change among the workers of the network.
#[derive(Debug)]
pub enum DiscoveryEvent {
    /// A worker is there.
    Appeared(WorkerEndpoint),
    /// The worker of this full instance name is gone.
    Disappeared(String),
}

/// The value of a [`DiscoveryEvent`].
#[verifier::ext_equal]
pub enum DiscoveryEventView {
    Appeared(EndpointView),
    Disappeared(Seq<char>),
}

impl View for DiscoveryEvent {
    type V = DiscoveryEventView;

    open spec fn view(&self) -> DiscoveryEventView {
        match self {
            DiscoveryEvent::Appeared(endpoint) => DiscoveryEventView::Appeared(endpoint@),
            DiscoveryEvent::Disappeared(name) => DiscoveryEventView::Disappeared(name@),
        }
    }
}

/// The values of a list of endpoints.
pub open spec fn endpoint_views(endpoints: Seq<WorkerEndpoint>) -> Seq<EndpointView> {
    endpoints.map_values(|e: WorkerEndpoint| e@)
}

/// The address at which a worker takes requests.
pub open spec fn grpc_address(endpoint: EndpointView) -> Seq<char> {
    "http://"@ + dotted(endpoint.ip) + ":"@ + decimal(endpoint.port as nat)
}

/// Renders the address at which a worker takes requests.
pub fn grpc_addr(ep: &WorkerEndpoint) -> (addr: String)
    ensures
        addr@ == grpc_address(ep@),
{
    let mut addr = String::new();
    addr.append("http://");
    push_dotted(&mut addr, ep.ip);
    addr.append(":");
    push_decimal(&mut addr, ep.port as u64);
    assert(addr@ =~= grpc_address(ep@));
    addr
}

} // verus!
