//! The pool of workers that discovery has found.

use dashmap::DashMap;
use vstd::prelude::*;

use crate::discovery::endpoint::endpoint_views;
use crate::discovery::endpoint::DiscoveryEvent;
use crate::discovery::endpoint::DiscoveryEventView;
use crate::discovery::endpoint::EndpointView;
use crate::discovery::endpoint::WorkerEndpoint;

verus! {

/// The concurrent map of `dashmap`.
#[verifier::external_type_specification]
#[verifier::external_body]
#[verifier::reject_recursive_types(K)]
#[verifier::reject_recursive_types(V)]
#[verifier::reject_recursive_types(S)]
pub struct ExDashMap<K, V, S>(DashMap<K, V, S>);

/// What a map of endpoints holds: the host, address and port under each instance
/// name.
pub uninterp spec fn table_contents(
    table: DashMap<String, (String, [u8; 4], u16)>,
) -> Map<Seq<char>, (Seq<char>, [u8; 4], u16)>;

/// Makes a map through `DashMap::new`. It holds nothing.
#[verifier::external_body]
fn new_table() -> (table: DashMap<String, (String, [u8; 4], u16)>)
    ensures
        table_contents(table).dom() == Set::<Seq<char>>::empty(),
{
    DashMap::new()
}

/// Puts a value under a key through `DashMap::insert`. What was under the key is
/// replaced, and every other key keeps its value.
#[verifier::external_body]
fn insert_into_table(
    table: &mut DashMap<String, (String, [u8; 4], u16)>,
    key: String,
    value: (String, [u8; 4], u16),
)
    ensures
        table_contents(*final(table)) == table_contents(*old(table)).insert(
            key@,
            (value.0@, value.1, value.2),
        ),
{
    table.insert(key, value);
}

/// Removes a key through `DashMap::remove`. Every other key keeps its value, and
/// a key that is not there is no error.
#[verifier::external_body]
fn remove_from_table(table: &mut DashMap<String, (String, [u8; 4], u16)>, key: &String)
    ensures
        table_contents(*final(table)) == table_contents(*old(table)).remove(key@),
{
    table.remove(key);
}

/// Walks a map through `DashMap::iter`, copying out each key with its value.
/// Each key comes once. The order is left open.
#[verifier::external_body]
fn walk_table(table: &DashMap<String, (String, [u8; 4], u16)>) -> (entries: Vec<
    (String, (String, [u8; 4], u16)),
>)
    ensures
        forall|i: int|
            0 <= i < entries@.len() ==> {
                let entry = #[trigger] entries@[i];
                &&& table_contents(*table).dom().contains(entry.0@)
                &&& table_contents(*table)[entry.0@] == (entry.1.0@, entry.1.1, entry.1.2)
            },
        forall|i: int, j: int|
            0 <= i < j < entries@.len() ==> (#[trigger] entries@[i]).0@ != (
            #[trigger] entries@[j]).0@,
        forall|key: Seq<char>|
            #[trigger] table_contents(*table).dom().contains(key) ==> exists|i: int|
                0 <= i < entries@.len() && (#[trigger] entries@[i]).0@ == key,
{
    table.iter().map(|entry| (entry.key().clone(), entry.value().clone())).collect()
}

/// The workers that were found, each under its full instance name.
pub struct WorkerPool {
    table: DashMap<String, (String, [u8; 4], u16)>,
}

impl View for WorkerPool {
    type V = Map<Seq<char>, EndpointView>;

    closed spec fn view(&self) -> Map<Seq<char>, EndpointView> {
        let contents = table_contents(self.table);
        Map::new(
            |name: Seq<char>| contents.dom().contains(name),
            |name: Seq<char>| EndpointView {
                instance_name: name,
                host: contents[name].0,
                ip: contents[name].1,
                port: contents[name].2,
            },
        )
    }
}

/// The pool after a change among the workers: one that appears is filed under
/// its name, in place of what was there, and one that disappears is dropped.
pub open spec fn pool_next(
    pool: Map<Seq<char>, EndpointView>,
    event: DiscoveryEventView,
) -> Map<Seq<char>, EndpointView> {
    match event {
        DiscoveryEventView::Appeared(endpoint) => pool.insert(endpoint.instance_name, endpoint),
        DiscoveryEventView::Disappeared(name) => pool.remove(name),
    }
}

/// Whether a list holds every worker of the pool once, and nothing else.
pub open spec fn lists_pool(
    listing: Seq<EndpointView>,
    pool: Map<Seq<char>, EndpointView>,
) -> bool {
    &&& forall|i: int|
        0 <= i < listing.len() ==> {
            let endpoint = #[trigger] listing[i];
            &&& pool.dom().contains(endpoint.instance_name)
            &&& pool[endpoint.instance_name] == endpoint
        }
    &&& forall|i: int, j: int|
        0 <= i < j < listing.len() ==> (#[trigger] listing[i]).instance_name != (
        #[trigger] listing[j]).instance_name
    &&& forall|name: Seq<char>| #[trigger]
        pool.dom().contains(name) ==> exists|i: int|
            0 <= i < listing.len() && (#[trigger] listing[i]).instance_name == name
}

impl WorkerPool {
    /// A pool with no worker.
    pub fn new() -> (pool: Self)
        ensures
            pool@ == Map::<Seq<char>, EndpointView>::empty(),
    {
        let pool = WorkerPool { table: new_table() };
        assert(pool@ =~= Map::empty());
        pool
    }

    /// Takes note of a change among the workers.
    pub fn apply(&mut self, event: DiscoveryEvent)
        ensures
            final(self)@ == pool_next(old(self)@, event@),
    {
        match event {
            DiscoveryEvent::Appeared(ep) => {
                let WorkerEndpoint { instance_name, host, ip, port } = ep;
                insert_into_table(&mut self.table, instance_name, (host, ip, port));
            },
            DiscoveryEvent::Disappeared(name) => {
                remove_from_table(&mut self.table, &name);
            },
        }
        assert(self@ =~= pool_next(old(self)@, event@));
    }

    /// Lists the workers. The order is that of the walk.
    pub fn endpoints(&self) -> (endpoints: Vec<WorkerEndpoint>)
        ensures
            lists_pool(endpoint_views(endpoints@), self@),
    {
        let entries = walk_table(&self.table);
        let ghost all = entries@;
        let mut endpoints: Vec<WorkerEndpoint> = Vec::new();
        let mut i: usize = 0;
        while i < entries.len()
            invariant
                i <= entries@.len(),
                endpoints@.len() == i,
                entries@ == all,
                forall|k: int|
                    0 <= k < i ==> (#[trigger] endpoints@[k])@ == (EndpointView {
                        instance_name: all[k].0@,
                        host: all[k].1.0@,
                        ip: all[k].1.1,
                        port: all[k].1.2,
                    }),
            decreases entries.len() - i,
        {
            let entry = &entries[i];
            endpoints.push(
                WorkerEndpoint {
                    instance_name: entry.0.clone(),
                    host: entry.1.0.clone(),
                    ip: entry.1.1,
                    port: entry.1.2,
                },
            );
            i += 1;
        }
        proof {
            let views = endpoint_views(endpoints@);
            assert forall|k: int| 0 <= k < views.len() implies {
                let endpoint = #[trigger] views[k];
                &&& self@.dom().contains(endpoint.instance_name)
                &&& self@[endpoint.instance_name] == endpoint
            } by {
                assert(views[k] == endpoints@[k]@);
                assert(table_contents(self.table).dom().contains(all[k].0@));
            }
            assert forall|k: int, l: int| 0 <= k < l < views.len() implies (
            #[trigger] views[k]).instance_name != (#[trigger] views[l]).instance_name by {
                assert(views[k] == endpoints@[k]@);
                assert(views[l] == endpoints@[l]@);
                assert(all[k].0@ != all[l].0@);
            }
            assert forall|name: Seq<char>| #[trigger] self@.dom().contains(name) implies exists|
                k: int,
            |
                0 <= k < views.len() && (#[trigger] views[k]).instance_name == name by {
                assert(table_contents(self.table).dom().contains(name));
                let k = choose|k: int| 0 <= k < all.len() && (#[trigger] all[k]).0@ == name;
                assert(views[k] == endpoints@[k]@);
            }
        }
        endpoints
    }
}

} // verus!
