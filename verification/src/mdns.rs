//! What a browse of the local network for services yields, and the cache
//! that follows services as they come and go. The browsing itself is left
//! to the caller.

use crate::text::{clone_pairs, clone_texts, contains_text, has_text, same_text};
use vstd::prelude::*;
use vstd::string::StringExecFns;

verus! {

/// A service found on the network.
#[derive(Debug, PartialEq)]
pub struct MdnsService {
    /// The type, such as `_http._tcp.local.`.
    pub service_type: String,
    /// The name of the instance.
    pub instance_name: String,
    pub hostname: String,
    pub addresses: Vec<String>,
    pub port: u16,
    /// The attributes of the TXT record.
    pub txt_records: Vec<(String, String)>,
    pub subtypes: Vec<String>,
    pub priority: Option<u16>,
    pub weight: Option<u16>,
}

/// The mathematical value of an [`MdnsService`].
pub ghost struct MdnsServiceView {
    pub service_type: Seq<char>,
    pub instance_name: Seq<char>,
    pub hostname: Seq<char>,
    pub addresses: Seq<Seq<char>>,
    pub port: u16,
    pub txt_records: Seq<(Seq<char>, Seq<char>)>,
    pub subtypes: Seq<Seq<char>>,
    pub priority: Option<u16>,
    pub weight: Option<u16>,
}

impl View for MdnsService {
    type V = MdnsServiceView;

    open spec fn view(&self) -> MdnsServiceView {
        MdnsServiceView {
            service_type: self.service_type@,
            instance_name: self.instance_name@,
            hostname: self.hostname@,
            addresses: self.addresses.deep_view(),
            port: self.port,
            txt_records: self.txt_records.deep_view(),
            subtypes: self.subtypes.deep_view(),
            priority: self.priority,
            weight: self.weight,
        }
    }
}

impl DeepView for MdnsService {
    type V = MdnsServiceView;

    open spec fn deep_view(&self) -> MdnsServiceView {
        self@
    }
}

impl Clone for MdnsService {
    fn clone(&self) -> (copy: MdnsService)
        ensures
            copy@ == self@,
    {
        MdnsService {
            service_type: self.service_type.clone(),
            instance_name: self.instance_name.clone(),
            hostname: self.hostname.clone(),
            addresses: clone_texts(&self.addresses),
            port: self.port,
            txt_records: clone_pairs(&self.txt_records),
            subtypes: clone_texts(&self.subtypes),
            priority: self.priority,
            weight: self.weight,
        }
    }
}

/// The key under which the cache holds a service: its type, a colon and its
/// instance name.
pub open spec fn cache_key(service_type: Seq<char>, instance_name: Seq<char>) -> Seq<char> {
    service_type + ":"@ + instance_name
}

/// The key of `service`.
pub open spec fn key_of(service: MdnsServiceView) -> Seq<char> {
    cache_key(service.service_type, service.instance_name)
}

/// The position of the first of `services` held under `key`, or their
/// number where there is none.
pub open spec fn service_index(services: Seq<MdnsServiceView>, key: Seq<char>) -> int
    decreases services.len(),
{
    if services.len() == 0 {
        0
    } else if key_of(services.first()) == key {
        0
    } else {
        1 + service_index(services.drop_first(), key)
    }
}

/// Whether no two of `services` share a key.
pub open spec fn distinct_services(services: Seq<MdnsServiceView>) -> bool {
    forall|i: int, j: int|
        0 <= i < j < services.len() ==> key_of(#[trigger] services[i]) != key_of(
            #[trigger] services[j],
        )
}

/// `services` after `service` is added: it takes the place of the one that
/// shares its key, and comes last where there is none.
pub open spec fn with_service(services: Seq<MdnsServiceView>, service: MdnsServiceView) -> Seq<
    MdnsServiceView,
> {
    let i = service_index(services, key_of(service));
    if 0 <= i < services.len() {
        services.update(i, service)
    } else {
        services.push(service)
    }
}

/// `services` without the one held under `key`.
pub open spec fn without_service(services: Seq<MdnsServiceView>, key: Seq<char>) -> Seq<
    MdnsServiceView,
> {
    let i = service_index(services, key);
    if 0 <= i < services.len() {
        services.remove(i)
    } else {
        services
    }
}

/// The service that `services` hold under `key`.
pub open spec fn service_at(services: Seq<MdnsServiceView>, key: Seq<char>) -> Option<
    MdnsServiceView,
> {
    let i = service_index(services, key);
    if 0 <= i < services.len() {
        Some(services[i])
    } else {
        None
    }
}

/// Where a key is found: within the services or at their end, at a service
/// held under that key, and behind services that are all held under others.
pub proof fn lemma_service_index_bounds(services: Seq<MdnsServiceView>, key: Seq<char>)
    ensures
        0 <= service_index(services, key) <= services.len(),
        service_index(services, key) < services.len() ==> key_of(
            services[service_index(services, key)],
        ) == key,
        forall|j: int|
            0 <= j < service_index(services, key) ==> key_of(#[trigger] services[j]) != key,
    decreases services.len(),
{
    if services.len() > 0 && key_of(services.first()) != key {
        let rest = services.drop_first();
        lemma_service_index_bounds(rest, key);
        assert forall|j: int| 0 <= j < service_index(services, key) implies key_of(
            #[trigger] services[j],
        ) != key by {
            if j > 0 {
                assert(services[j] == rest[j - 1]);
            }
        }
    }
}

/// The first service held under `key` is where a search from the front
/// stops.
pub proof fn lemma_service_index_at(services: Seq<MdnsServiceView>, key: Seq<char>, k: int)
    requires
        0 <= k <= services.len(),
        forall|j: int| 0 <= j < k ==> key_of(#[trigger] services[j]) != key,
        k < services.len() ==> key_of(services[k]) == key,
    ensures
        service_index(services, key) == k,
    decreases services.len(),
{
    if services.len() > 0 && k > 0 {
        let rest = services.drop_first();
        assert forall|j: int| 0 <= j < k - 1 implies key_of(#[trigger] rest[j]) != key by {}
        lemma_service_index_at(rest, key, k - 1);
    }
}

/// Adding a service keeps every key unique.
pub proof fn lemma_add_keeps_distinct(services: Seq<MdnsServiceView>, service: MdnsServiceView)
    requires
        distinct_services(services),
    ensures
        distinct_services(with_service(services, service)),
{
    lemma_service_index_bounds(services, key_of(service));
    let next = with_service(services, service);
    assert forall|i: int, j: int| 0 <= i < j < next.len() implies key_of(#[trigger] next[i])
        != key_of(#[trigger] next[j]) by {}
}

/// A service is held under its key once it is added, and adding it leaves
/// what is held under every other key as it was.
pub proof fn lemma_service_after_add(
    services: Seq<MdnsServiceView>,
    service: MdnsServiceView,
    other: Seq<char>,
)
    ensures
        service_at(with_service(services, service), key_of(service)) == Some(service),
        other != key_of(service) ==> service_at(with_service(services, service), other)
            == service_at(services, other),
{
    let key = key_of(service);
    lemma_service_index_bounds(services, key);
    lemma_service_index_bounds(services, other);
    let next = with_service(services, service);
    let k = service_index(services, key);
    assert forall|j: int| 0 <= j < k implies key_of(#[trigger] next[j]) != key by {}
    lemma_service_index_at(next, key, k);
    if other != key {
        let o = service_index(services, other);
        assert forall|j: int| 0 <= j < o implies key_of(#[trigger] next[j]) != other by {}
        if o < services.len() || k < services.len() {
            lemma_service_index_at(next, other, o);
        } else {
            lemma_service_index_at(next, other, next.len() as int);
        }
    }
}

/// Removing a service keeps every key unique, and nothing is held under the
/// removed key afterwards.
pub proof fn lemma_remove_keeps_distinct(services: Seq<MdnsServiceView>, key: Seq<char>)
    requires
        distinct_services(services),
    ensures
        distinct_services(without_service(services, key)),
        service_at(without_service(services, key), key) is None,
{
    lemma_service_index_bounds(services, key);
    let next = without_service(services, key);
    assert forall|i: int, j: int| 0 <= i < j < next.len() implies key_of(#[trigger] next[i])
        != key_of(#[trigger] next[j]) by {}
    assert forall|j: int| 0 <= j < next.len() implies key_of(#[trigger] next[j]) != key by {}
    lemma_service_index_at(next, key, next.len() as int);
}

/// Builds the key of a service.
fn make_key(service_type: &str, instance_name: &str) -> (key: String)
    ensures
        key@ == cache_key(service_type@, instance_name@),
{
    let mut key = service_type.to_owned();
    key.append(":");
    key.append(instance_name);
    key
}

/// The services seen so far, each under its key.
#[derive(Debug, PartialEq)]
pub struct ServiceCache {
    keys: Vec<String>,
    services: Vec<MdnsService>,
}

impl View for ServiceCache {
    type V = Seq<MdnsServiceView>;

    closed spec fn view(&self) -> Seq<MdnsServiceView> {
        self.services.deep_view()
    }
}

impl Clone for ServiceCache {
    fn clone(&self) -> (copy: ServiceCache)
        ensures
            copy@ == self@,
    {
        proof {
            use_type_invariant(self);
        }
        let keys = clone_texts(&self.keys);
        let services = self.get_all();
        assert(keys.len() == keys.deep_view().len());
        assert(services.len() == services.deep_view().len());
        ServiceCache { keys, services }
    }
}

impl ServiceCache {
    /// Every cache holds one key for each service, the key is that of the
    /// service, and no two services share one.
    #[verifier::type_invariant]
    spec fn well_formed(&self) -> bool {
        &&& self.keys.len() == self.services.len()
        &&& forall|i: int|
            0 <= i < self.services.len() ==> (#[trigger] self.keys.deep_view()[i]) == key_of(
                self.services.deep_view()[i],
            )
        &&& distinct_services(self.services.deep_view())
    }

    /// The cache without services.
    pub fn new() -> (cache: ServiceCache)
        ensures
            cache@ == Seq::<MdnsServiceView>::empty(),
    {
        let keys: Vec<String> = Vec::new();
        let services: Vec<MdnsService> = Vec::new();
        ServiceCache { keys, services }
    }

    /// The position of the service held under `key`, or the number of
    /// services.
    fn position(&self, key: &str) -> (i: usize)
        ensures
            i == service_index(self@, key@),
            i <= self.services.len(),
    {
        proof {
            use_type_invariant(self);
        }
        let ghost all = self.services.deep_view();
        let mut i: usize = 0;
        while i < self.keys.len()
            invariant
                0 <= i <= self.keys.len(),
                self.keys.len() == self.services.len(),
                all == self.services.deep_view(),
                forall|k: int|
                    0 <= k < self.services.len() ==> (#[trigger] self.keys.deep_view()[k])
                        == key_of(all[k]),
                forall|j: int| 0 <= j < i ==> key_of(#[trigger] all[j]) != key@,
            decreases self.keys.len() - i,
        {
            assert(self.keys.deep_view()[i as int] == self.keys@[i as int]@);
            if same_text(self.keys[i].as_str(), key) {
                proof {
                    lemma_service_index_at(all, key@, i as int);
                }
                return i;
            }
            i += 1;
        }
        proof {
            lemma_service_index_at(all, key@, i as int);
        }
        i
    }

    /// Adds `service`. A service of the same type and instance name is
    /// replaced.
    pub fn add(&mut self, service: MdnsService)
        ensures
            final(self)@ == with_service(old(self)@, service@),
            distinct_services(final(self)@),
    {
        let key = make_key(service.service_type.as_str(), service.instance_name.as_str());
        let i = self.position(key.as_str());
        let ghost before = self.services.deep_view();
        let ghost before_keys = self.keys.deep_view();
        proof {
            use_type_invariant(&*self);
            lemma_add_keeps_distinct(before, service@);
        }
        let mut taken = ServiceCache::new();
        core::mem::swap(self, &mut taken);
        let ServiceCache { mut keys, mut services } = taken;
        if i < services.len() {
            keys[i] = key;
            services[i] = service;
        } else {
            keys.push(key);
            services.push(service);
        }
        proof {
            assert(services.deep_view() =~= with_service(before, service@));
            assert forall|k: int| 0 <= k < services.len() implies (#[trigger] keys.deep_view()[k])
                == key_of(services.deep_view()[k]) by {
                if k != i {
                    assert(keys.deep_view()[k] == before_keys[k]);
                }
            }
        }
        *self = ServiceCache { keys, services };
    }

    /// Removes the service of `service_type` called `instance_name`, if the
    /// cache holds it.
    pub fn remove(&mut self, service_type: &str, instance_name: &str)
        ensures
            final(self)@ == without_service(old(self)@, cache_key(service_type@, instance_name@)),
            distinct_services(final(self)@),
    {
        let key = make_key(service_type, instance_name);
        let i = self.position(key.as_str());
        let ghost before = self.services.deep_view();
        let ghost before_keys = self.keys.deep_view();
        proof {
            use_type_invariant(&*self);
            lemma_remove_keeps_distinct(before, key@);
        }
        if i < self.services.len() {
            let mut taken = ServiceCache::new();
            core::mem::swap(self, &mut taken);
            let ServiceCache { mut keys, mut services } = taken;
            keys.remove(i);
            services.remove(i);
            proof {
                assert(services.deep_view() =~= before.remove(i as int));
                assert(keys.deep_view() =~= before_keys.remove(i as int));
                assert forall|k: int| 0 <= k < services.len() implies (
                #[trigger] keys.deep_view()[k]) == key_of(services.deep_view()[k]) by {}
            }
            *self = ServiceCache { keys, services };
        }
    }

    /// Copies of all services.
    pub fn get_all(&self) -> (services: Vec<MdnsService>)
        ensures
            services.deep_view() == self@,
            distinct_services(self@),
    {
        proof {
            use_type_invariant(self);
        }
        let mut services: Vec<MdnsService> = Vec::new();
        let mut i: usize = 0;
        while i < self.services.len()
            invariant
                0 <= i <= self.services.len(),
                services.deep_view() == self.services.deep_view().subrange(0, i as int),
            decreases self.services.len() - i,
        {
            let ghost before = services.deep_view();
            services.push(self.services[i].clone());
            assert(services.deep_view() =~= before.push(self.services.deep_view()[i as int]));
            i += 1;
        }
        services
    }

    /// The service of `service_type` called `instance_name`.
    pub fn get(&self, service_type: &str, instance_name: &str) -> (service: Option<&MdnsService>)
        ensures
            service.deep_view() == service_at(self@, cache_key(service_type@, instance_name@)),
    {
        let key = make_key(service_type, instance_name);
        let i = self.position(key.as_str());
        if i < self.services.len() {
            Some(&self.services[i])
        } else {
            None
        }
    }

    /// The number of services.
    pub fn len(&self) -> (n: usize)
        ensures
            n == self@.len(),
    {
        self.services.len()
    }

    /// Whether the cache holds no service.
    pub fn is_empty(&self) -> (b: bool)
        ensures
            b == (self@.len() == 0),
    {
        self.services.len() == 0
    }
}

/// How long a search for one instance lasts unless told otherwise, in
/// milliseconds.
pub const DEFAULT_RESOLVE_TIMEOUT_MS: u64 = 5000;

/// How long one wait for an event of the browse may take, in milliseconds.
pub const BROWSE_POLL_MS: u64 = 100;

/// The type under which the service types of a network are browsed.
pub const SERVICE_TYPE_ENUMERATION: &'static str = "_services._dns-sd._udp.local.";

/// The number of service types that a sweep of the network covers.
pub const COMMON_SERVICE_COUNT: u64 = 12;

/// What a browse reports.
#[derive(Debug, Clone, PartialEq)]
pub enum BrowseEvent {
    /// A service was found and resolved.
    Resolved(MdnsService),
    /// A service went away.
    Removed { service_type: String, instance_name: String },
    /// Anything else.
    Other,
}

/// The service types that a sweep of the network covers, in their order.
pub fn common_service_types() -> (types: Vec<&'static str>)
    ensures
        types@.len() == COMMON_SERVICE_COUNT,
        types@ == seq![
            "_http._tcp.local.",
            "_https._tcp.local.",
            "_ssh._tcp.local.",
            "_ftp._tcp.local.",
            "_smb._tcp.local.",
            "_afpovertcp._tcp.local.",
            "_printer._tcp.local.",
            "_scanner._tcp.local.",
            "_airplay._tcp.local.",
            "_raop._tcp.local.",
            "_homekit._tcp.local.",
            "_hap._tcp.local.",
        ],
{
    let mut types: Vec<&'static str> = Vec::new();
    types.push("_http._tcp.local.");
    types.push("_https._tcp.local.");
    types.push("_ssh._tcp.local.");
    types.push("_ftp._tcp.local.");
    types.push("_smb._tcp.local.");
    types.push("_afpovertcp._tcp.local.");
    types.push("_printer._tcp.local.");
    types.push("_scanner._tcp.local.");
    types.push("_airplay._tcp.local.");
    types.push("_raop._tcp.local.");
    types.push("_homekit._tcp.local.");
    types.push("_hap._tcp.local.");
    types
}

/// The share of `timeout_ms` that a sweep gives to each service type: the
/// whole divided evenly among them.
pub fn per_service_timeout(timeout_ms: u64) -> (share: u64)
    ensures
        share == timeout_ms / COMMON_SERVICE_COUNT,
{
    timeout_ms / COMMON_SERVICE_COUNT
}

/// The services after `event`: a resolved service comes last, and any other
/// event changes nothing.
pub open spec fn browsed(services: Seq<MdnsServiceView>, event: BrowseEvent) -> Seq<
    MdnsServiceView,
> {
    match event {
        BrowseEvent::Resolved(service) => services.push(service@),
        _ => services,
    }
}

/// Takes one event of a browse into the list of services found.
pub fn collect(services: &mut Vec<MdnsService>, event: &BrowseEvent)
    ensures
        final(services).deep_view() == browsed(old(services).deep_view(), *event),
{
    match event {
        BrowseEvent::Resolved(service) => {
            services.push(service.clone());
        },
        _ => {},
    }
}

/// The service that `event` resolves for a search by `instance_name`: the
/// resolved service whose name holds `instance_name` in it.
pub open spec fn resolution(event: BrowseEvent, instance_name: Seq<char>) -> Option<
    MdnsServiceView,
> {
    match event {
        BrowseEvent::Resolved(service) => if contains_text(service@.instance_name, instance_name) {
            Some(service@)
        } else {
            None
        },
        _ => None,
    }
}

/// Decides whether `event` ends a search for the instance called
/// `instance_name`, and hands out the service if it does.
pub fn resolve(event: &BrowseEvent, instance_name: &str) -> (service: Option<MdnsService>)
    ensures
        service.deep_view() == resolution(*event, instance_name@),
{
    match event {
        BrowseEvent::Resolved(service) => {
            if has_text(service.instance_name.as_str(), instance_name) {
                Some(service.clone())
            } else {
                None
            }
        },
        _ => None,
    }
}

/// The service types after the attributes `records` are read: the value of
/// every attribute without a name is a service type, and comes last where
/// it is new.
pub open spec fn noted(types: Seq<Seq<char>>, records: Seq<(Seq<char>, Seq<char>)>) -> Seq<
    Seq<char>,
>
    decreases records.len(),
{
    if records.len() == 0 {
        types
    } else {
        let before = noted(types, records.drop_last());
        let record = records.last();
        if record.0.len() == 0 && !before.contains(record.1) {
            before.push(record.1)
        } else {
            before
        }
    }
}

/// The service types after `event`.
pub open spec fn enumerated(types: Seq<Seq<char>>, event: BrowseEvent) -> Seq<Seq<char>> {
    match event {
        BrowseEvent::Resolved(service) => noted(types, service@.txt_records),
        _ => types,
    }
}

/// Decides whether `types` holds `value`.
fn holds(types: &Vec<String>, value: &str) -> (b: bool)
    ensures
        b == types.deep_view().contains(value@),
{
    let mut i: usize = 0;
    while i < types.len()
        invariant
            0 <= i <= types.len(),
            forall|j: int| 0 <= j < i ==> types.deep_view()[j] != value@,
        decreases types.len() - i,
    {
        assert(types.deep_view()[i as int] == types@[i as int]@);
        if same_text(types[i].as_str(), value) {
            return true;
        }
        i += 1;
    }
    false
}

/// Takes one event of a browse for service types into the list of types
/// seen.
pub fn note_service_types(types: &mut Vec<String>, event: &BrowseEvent)
    ensures
        final(types).deep_view() == enumerated(old(types).deep_view(), *event),
{
    match event {
        BrowseEvent::Resolved(service) => {
            let ghost start = types.deep_view();
            let ghost records = service.txt_records.deep_view();
            let mut i: usize = 0;
            while i < service.txt_records.len()
                invariant
                    0 <= i <= service.txt_records.len(),
                    records == service.txt_records.deep_view(),
                    types.deep_view() == noted(start, records.subrange(0, i as int)),
                decreases service.txt_records.len() - i,
            {
                proof {
                    let next = records.subrange(0, i + 1);
                    assert(next.drop_last() =~= records.subrange(0, i as int));
                }
                let record = &service.txt_records[i];
                if record.0.as_str().is_empty() && !holds(types, record.1.as_str()) {
                    types.push(record.1.clone());
                }
                i += 1;
            }
            assert(records.subrange(0, records.len() as int) =~= records);
        },
        _ => {},
    }
}

/// The cache after `event`: a resolved service is added, a removed one
/// leaves, and any other event changes nothing.
pub open spec fn cached(services: Seq<MdnsServiceView>, event: BrowseEvent) -> Seq<
    MdnsServiceView,
> {
    match event {
        BrowseEvent::Resolved(service) => with_service(services, service@),
        BrowseEvent::Removed { service_type, instance_name } => without_service(
            services,
            cache_key(service_type@, instance_name@),
        ),
        BrowseEvent::Other => services,
    }
}

impl ServiceCache {
    /// Takes one event of a browse into the cache.
    pub fn apply(&mut self, event: &BrowseEvent)
        ensures
            final(self)@ == cached(old(self)@, *event),
    {
        match event {
            BrowseEvent::Resolved(service) => {
                self.add(service.clone());
            },
            BrowseEvent::Removed { service_type, instance_name } => {
                self.remove(service_type.as_str(), instance_name.as_str());
            },
            BrowseEvent::Other => {},
        }
    }
}

} // verus!
