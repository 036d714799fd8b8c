//! Registration: the service that a worker announces.

use mdns_sd::ServiceInfo;
use vstd::pervasive::unreached;
use vstd::prelude::*;

use crate::discovery::endpoint::SERVICE_TYPE;
use crate::text::is_substring;
use crate::text::occurs_at;

verus! {

/// The service description of `mdns-sd`.
#[verifier::external_type_specification]
#[verifier::external_body]
pub struct ExServiceInfo(ServiceInfo);

/// The error of `mdns-sd`.
#[verifier::external_type_specification]
#[verifier::external_body]
pub struct ExMdnsError(mdns_sd::Error);

/// What a service announces.
#[verifier::ext_equal]
pub struct Announcement {
    /// The service type with its domain.
    pub service_type: Seq<char>,
    /// The full name of the instance.
    pub fullname: Seq<char>,
    /// The name of the host.
    pub hostname: Seq<char>,
    /// Its one address.
    pub ip: [u8; 4],
    /// Its port.
    pub port: u16,
    /// Its properties.
    pub properties: Map<Seq<char>, Seq<char>>,
}

/// What a service description holds, as its getters `get_type`, `get_fullname`,
/// `get_hostname`, `get_addresses`, `get_port` and `get_properties` tell it.
pub uninterp spec fn announced(info: ServiceInfo) -> Announcement;

/// Whether a property may have this key: ASCII characters other than `=`.
pub open spec fn valid_key(key: Seq<char>) -> bool {
    forall|i: int| 0 <= i < key.len() ==> (#[trigger] key[i]) as u32 <= 127 && key[i] != '='
}

/// A list of properties as a map. Of two with the same key the later counts.
pub open spec fn property_map(properties: Seq<(String, String)>) -> Map<Seq<char>, Seq<char>>
    decreases properties.len(),
{
    if properties.len() == 0 {
        Map::empty()
    } else {
        property_map(properties.drop_last()).insert(properties.last().0@, properties.last().1@)
    }
}

/// A host name without a doubled `local.` at its end.
pub open spec fn normalized_hostname(host: Seq<char>) -> Seq<char> {
    let doubled = ".local.local."@;
    if host.len() >= doubled.len() && host.skip(host.len() - doubled.len()) == doubled {
        host.take(host.len() - "local."@.len())
    } else {
        host
    }
}

/// Describes a service, through `mdns_sd::ServiceInfo::new`. The full name is
/// the instance name, a dot and the service type, which names no subtype. A
/// doubled `local.` at the end of the host name is dropped. The description has
/// the one address and the properties that were given. The call fails exactly
/// when a property has a key with a character that is not ASCII or is `=`.
#[verifier::external_body]
fn new_service_info(
    service_type: &str,
    instance_name: &str,
    host: &str,
    ip: [u8; 4],
    port: u16,
    properties: Vec<(String, String)>,
) -> (result: Result<ServiceInfo, mdns_sd::Error>)
    requires
        !is_substring(service_type@, "._sub."@),
    ensures
        result is Ok <==> forall|i: int|
            0 <= i < properties@.len() ==> valid_key((#[trigger] properties@[i]).0@),
        result matches Ok(info) ==> announced(info) == (Announcement {
            service_type: service_type@,
            fullname: instance_name@ + "."@ + service_type@,
            hostname: normalized_hostname(host@),
            ip,
            port,
            properties: property_map(properties@),
        }),
{
    let address = format!("{}.{}.{}.{}", ip[0], ip[1], ip[2], ip[3]);
    let table: std::collections::HashMap<String, String> = properties.into_iter().collect();
    ServiceInfo::new(service_type, instance_name, host, address.as_str(), port, Some(table))
}

/// The full name of the worker of this instance name.
pub open spec fn worker_fullname(instance_name: Seq<char>) -> Seq<char> {
    instance_name + "."@ + SERVICE_TYPE@
}

/// The properties of the worker of this instance name: the version of the
/// protocol, and the instance name.
pub open spec fn worker_properties(instance_name: Seq<char>) -> Map<Seq<char>, Seq<char>> {
    Map::empty().insert("version"@, "1"@).insert("instance"@, instance_name)
}

/// What the worker of this instance name announces.
pub open spec fn worker_announcement(
    instance_name: Seq<char>,
    host: Seq<char>,
    ip: [u8; 4],
    port: u16,
) -> Announcement {
    Announcement {
        service_type: SERVICE_TYPE@,
        fullname: worker_fullname(instance_name),
        hostname: normalized_hostname(host),
        ip,
        port,
        properties: worker_properties(instance_name),
    }
}

/// The service type of workers names no subtype.
proof fn lemma_no_subtype()
    ensures
        !is_substring(SERVICE_TYPE@, "._sub."@),
{
    reveal_strlit("_hailort._tcp.local.");
    reveal_strlit("._sub.");
    let text = SERVICE_TYPE@;
    let needle = "._sub."@;
    assert forall|at: int| !occurs_at(text, needle, at) by {
        if 0 <= at && at + needle.len() <= text.len() {
            let part = text.subrange(at, at + needle.len() as int);
            assert(part[0] == text[at]);
            assert(part[1] == text[at + 1]);
            assert(part[2] == text[at + 2]);
            if part == needle {
                assert(text[at + 2] == 's');
                assert(false);
            }
        }
    }
}

/// The service under which a worker registers itself: its instance name under
/// the service type of workers, its host and address, and its properties.
pub fn register_worker(instance_name: &str, host: &str, ip: [u8; 4], grpc_port: u16) -> (service:
    ServiceInfo)
    ensures
        announced(service) == worker_announcement(instance_name@, host@, ip, grpc_port),
{
    let mut properties: Vec<(String, String)> = Vec::new();
    properties.push(("version".to_owned(), "1".to_owned()));
    properties.push(("instance".to_owned(), instance_name.to_owned()));
    proof {
        lemma_no_subtype();
        reveal_strlit("version");
        reveal_strlit("instance");
        let all = properties@;
        assert(all.drop_last().drop_last() =~= Seq::empty());
        assert(property_map(all.drop_last().drop_last()) == Map::<Seq<char>, Seq<char>>::empty());
        assert(property_map(all.drop_last()) == property_map(all.drop_last().drop_last()).insert(
            "version"@,
            "1"@,
        ));
        assert(property_map(all) =~= worker_properties(instance_name@));
        assert(valid_key(all[0].0@));
        assert(valid_key(all[1].0@));
    }
    match new_service_info(SERVICE_TYPE, instance_name, host, ip, grpc_port, properties) {
        Ok(service) => service,
        Err(_) => unreached(),
    }
}

} // verus!
