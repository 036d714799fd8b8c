use hailort_networked::discovery::browse::browse_workers;
use hailort_networked::discovery::browse::first_ipv4;
use hailort_networked::discovery::browse::BrowseAction;
use hailort_networked::discovery::browse::BrowseInput;
use hailort_networked::discovery::endpoint::grpc_addr;
use hailort_networked::discovery::endpoint::DiscoveryEvent;
use hailort_networked::discovery::endpoint::WorkerEndpoint;
use hailort_networked::discovery::endpoint::SERVICE_TYPE;
use hailort_networked::discovery::host::hostname_or_fallback;
use hailort_networked::discovery::host::local_hostname;
use hailort_networked::discovery::host::local_ip;
use hailort_networked::discovery::host::HostAddress;
use hailort_networked::discovery::register::register_worker;

#[test]
fn address_is_a_url() {
    let endpoint = WorkerEndpoint {
        instance_name: "w".to_string(),
        host: "pi.local.".to_string(),
        ip: [192, 168, 1, 7],
        port: 50051,
    };
    assert_eq!(grpc_addr(&endpoint), "http://192.168.1.7:50051");
    assert_eq!(grpc_addr(&endpoint.clone()), grpc_addr(&endpoint));
}

#[test]
fn local_address_must_be_ipv4() {
    assert_eq!(local_ip(HostAddress::V4([10, 0, 0, 3])), Ok([10, 0, 0, 3]));
    assert_eq!(
        local_ip(HostAddress::V6("fe80::1".to_string())),
        Err("local address is not IPv4: fe80::1".to_string())
    );
}

#[test]
fn hostname_falls_back_to_localhost() {
    assert_eq!(hostname_or_fallback(Some("pi5".to_string())), "pi5");
    assert_eq!(hostname_or_fallback(Some(String::new())), "");
    assert_eq!(hostname_or_fallback(None), "localhost");
}

#[test]
fn hostname_is_that_of_the_system() {
    let name = local_hostname();
    assert!(!name.contains('\0'));
    let told = hostname::get().ok().and_then(|name| name.into_string().ok());
    assert_eq!(name, told.unwrap_or("localhost".to_string()));
}

#[test]
fn registration_announces_the_worker() {
    assert_eq!(SERVICE_TYPE, "_hailort._tcp.local.");
    let service = register_worker("worker-1", "pi5", [192, 168, 1, 7], 50051);
    assert_eq!(service.get_type(), "_hailort._tcp.local.");
    assert_eq!(service.get_fullname(), "worker-1._hailort._tcp.local.");
    assert_eq!(service.get_hostname(), "pi5");
    assert_eq!(service.get_port(), 50051);
    let addresses: Vec<String> = service.get_addresses().iter().map(|a| a.to_string()).collect();
    assert_eq!(addresses, vec!["192.168.1.7".to_string()]);
    assert_eq!(service.get_properties().len(), 2);
    assert_eq!(service.get_property_val_str("version"), Some("1"));
    assert_eq!(service.get_property_val_str("instance"), Some("worker-1"));
}

#[test]
fn registration_drops_a_doubled_domain() {
    let service = register_worker("w", "pi5.local.local.", [127, 0, 0, 1], 1);
    assert_eq!(service.get_hostname(), "pi5.local.");
    let service = register_worker("w", "pi5.local.", [127, 0, 0, 1], 1);
    assert_eq!(service.get_hostname(), "pi5.local.");
}

#[test]
fn first_ipv4_address_counts() {
    let six = || HostAddress::V6("fe80::1".to_string());
    assert_eq!(first_ipv4(&vec![]), None);
    assert_eq!(first_ipv4(&vec![six(), six()]), None);
    let mixed = vec![six(), HostAddress::V4([1, 2, 3, 4]), HostAddress::V4([5, 6, 7, 8])];
    assert_eq!(first_ipv4(&mixed), Some([1, 2, 3, 4]));
}

#[test]
fn resolved_service_appears_at_its_ipv4_address() {
    let input = BrowseInput::Resolved {
        fullname: "worker-1._hailort._tcp.local.".to_string(),
        host: "pi5.local.".to_string(),
        addresses: vec![HostAddress::V6("::1".to_string()), HostAddress::V4([10, 0, 0, 9])],
        port: 50052,
    };
    match browse_workers(input) {
        BrowseAction::Send(DiscoveryEvent::Appeared(endpoint)) => {
            assert_eq!(endpoint.instance_name, "worker-1._hailort._tcp.local.");
            assert_eq!(endpoint.host, "pi5.local.");
            assert_eq!(endpoint.ip, [10, 0, 0, 9]);
            assert_eq!(endpoint.port, 50052);
        }
        _ => panic!("expected an appearance"),
    }
}

#[test]
fn service_without_ipv4_address_is_skipped() {
    let input = BrowseInput::Resolved {
        fullname: "w".to_string(),
        host: "h".to_string(),
        addresses: vec![HostAddress::V6("::1".to_string())],
        port: 1,
    };
    assert!(matches!(browse_workers(input), BrowseAction::Receive));
}

#[test]
fn removed_service_disappears() {
    match browse_workers(BrowseInput::Removed { fullname: "w".to_string() }) {
        BrowseAction::Send(DiscoveryEvent::Disappeared(name)) => assert_eq!(name, "w"),
        _ => panic!("expected a disappearance"),
    }
}

#[test]
fn browsing_ends_when_either_side_closes() {
    assert!(matches!(browse_workers(BrowseInput::Other), BrowseAction::Receive));
    assert!(matches!(browse_workers(BrowseInput::Sent), BrowseAction::Receive));
    assert!(matches!(browse_workers(BrowseInput::Closed), BrowseAction::Stop));
    assert!(matches!(browse_workers(BrowseInput::SendFailed), BrowseAction::Stop));
}
