//! Registry of external resource hubs, and resolution of resource names
//! to the hub that provides them.

use vstd::prelude::*;
use crate::ir::ResourceHubDescriptor;
use crate::strmap::{StrMap, key_lt, map_of, sorted_keys};
use crate::text::{join3, str_eq};

verus! {

/// Error text for a hub registered twice.
pub open spec fn duplicate_hub_error(id: Seq<char>) -> Seq<char> {
    "HUB-001: resource hub '"@ + id + "' is already registered"@
}

/// Error text for a lookup of an unregistered hub.
pub open spec fn unknown_hub_error(id: Seq<char>) -> Seq<char> {
    "HUB-002: unknown hub_id '"@ + id + "'"@
}

/// Error text for a resource that no hub provides.
pub open spec fn unresolved_error(name: Seq<char>) -> Seq<char> {
    "HUB-003: no hub provides resource '"@ + name + "'"@
}

/// Whether hub `h` lists `name` among what it provides.
pub open spec fn provides(h: ResourceHubDescriptor, name: Seq<char>) -> bool {
    exists|j: int| 0 <= j < h.provides@.len() && #[trigger] h.provides@[j]@ == name
}

/// Whether `hub` lists `name` among what it provides.
pub fn hub_provides(hub: &ResourceHubDescriptor, name: &str) -> (b: bool)
    ensures
        b == provides(*hub, name@),
{
    let mut j: usize = 0;
    while j < hub.provides.len()
        invariant
            j <= hub.provides@.len(),
            forall|q: int| 0 <= q < j ==> #[trigger] hub.provides@[q]@ != name@,
        decreases hub.provides@.len() - j,
    {
        if str_eq(hub.provides[j].as_str(), name) {
            return true;
        }
        j = j + 1;
    }
    false
}

/// Where a resource was found: the providing hub, its locator and its kind.
#[derive(Debug, Clone, PartialEq)]
pub struct ResolvedResource {
    pub hub_id: String,
    pub locator: String,
    pub resource_kind: String,
}

/// Whether `r` describes hub `h`.
pub open spec fn resolves_to(r: ResolvedResource, h: ResourceHubDescriptor) -> bool {
    &&& r.hub_id@ == h.hub_id@
    &&& r.locator@ == h.locator@
    &&& r.resource_kind@ == h.resource_kind@
}

/// In-memory registry of external resource hubs, keyed by `hub_id` and kept in
/// key order.
pub struct ResourceHubRegistry {
    hubs: StrMap<ResourceHubDescriptor>,
}

impl View for ResourceHubRegistry {
    type V = Map<Seq<char>, ResourceHubDescriptor>;

    /// Each registered hub id to its descriptor.
    open spec fn view(&self) -> Map<Seq<char>, ResourceHubDescriptor> {
        map_of(self.hubs_spec())
    }
}

impl ResourceHubRegistry {
    /// The registered entries, in increasing key order.
    pub closed spec fn hubs_spec(self) -> Seq<(String, ResourceHubDescriptor)> {
        self.hubs.entries_spec()
    }

    /// The registered descriptors, in increasing key order.
    pub open spec fn descriptors(self) -> Seq<ResourceHubDescriptor> {
        self.hubs_spec().map_values(|e: (String, ResourceHubDescriptor)| e.1)
    }

    /// Keys are strictly increasing, so each hub id occurs once, and each
    /// descriptor is filed under its own `hub_id`.
    pub open spec fn wf(self) -> bool {
        &&& sorted_keys(self.hubs_spec())
        &&& forall|i: int| 0 <= i < self.hubs_spec().len()
            ==> (#[trigger] self.hubs_spec()[i]).0@ == self.hubs_spec()[i].1.hub_id@
    }

    /// An empty registry.
    pub fn new() -> (r: Self)
        ensures
            r.wf(),
            r@ == Map::<Seq<char>, ResourceHubDescriptor>::empty(),
            r.hubs_spec().len() == 0,
    {
        ResourceHubRegistry { hubs: StrMap::new() }
    }

    /// Registers `descriptor` under its `hub_id`, unless that id is taken.
    pub fn register_hub(&mut self, descriptor: ResourceHubDescriptor) -> (r: Result<(), String>)
        requires
            old(self).wf(),
        ensures
            final(self).wf(),
            r is Ok <==> !old(self)@.contains_key(descriptor.hub_id@),
            r is Ok ==> final(self)@ == old(self)@.insert(descriptor.hub_id@, descriptor),
            r matches Err(e) ==> e@ == duplicate_hub_error(descriptor.hub_id@)
                && final(self).hubs_spec() == old(self).hubs_spec(),
    {
        if self.hubs.find(descriptor.hub_id.as_str()).is_some() {
            return Err(join3("HUB-001: resource hub '", descriptor.hub_id.as_str(), "' is already registered"));
        }
        let key = descriptor.hub_id.clone();
        let ghost entry = (key, descriptor);
        let ghost before = self.hubs_spec();
        let _ = self.hubs.insert_new(key, descriptor);
        proof {
            let p = choose|p: int| 0 <= p <= before.len() && self.hubs_spec() == before.insert(p, entry);
            assert forall|i: int| 0 <= i < self.hubs_spec().len()
                implies (#[trigger] self.hubs_spec()[i]).0@ == self.hubs_spec()[i].1.hub_id@ by {
                if i > p {
                    assert(self.hubs_spec()[i] == before[i - 1]);
                }
            }
        }
        Ok(())
    }

    /// The hub registered under `hub_id`.
    pub fn lookup(&self, hub_id: &str) -> (r: Result<&ResourceHubDescriptor, String>)
        requires
            self.wf(),
        ensures
            r is Ok <==> self@.contains_key(hub_id@),
            r matches Ok(m) ==> *m == self@[hub_id@],
            r matches Err(e) ==> e@ == unknown_hub_error(hub_id@),
    {
        match self.hubs.get(hub_id) {
            Some(m) => Ok(m),
            None => Err(join3("HUB-002: unknown hub_id '", hub_id, "'")),
        }
    }

    /// All registered hubs, in increasing `hub_id` order.
    pub fn list_hubs(&self) -> (r: Vec<&ResourceHubDescriptor>)
        ensures
            r@.map_values(|m: &ResourceHubDescriptor| *m) == self.descriptors(),
    {
        let mut out: Vec<&ResourceHubDescriptor> = Vec::new();
        let n = self.hubs.len();
        let mut i: usize = 0;
        while i < n
            invariant
                n == self.hubs_spec().len(),
                i <= n,
                out@.map_values(|m: &ResourceHubDescriptor| *m) == self.descriptors().subrange(0, i as int),
            decreases n - i,
        {
            let e = self.hubs.entry(i);
            let ghost prev = out@;
            out.push(&e.1);
            proof {
                assert(out@.map_values(|m: &ResourceHubDescriptor| *m) =~= prev.map_values(
                    |m: &ResourceHubDescriptor| *m,
                ).push(self.descriptors()[i as int]));
                assert(self.descriptors().subrange(0, i + 1) =~= self.descriptors().subrange(0, i as int).push(self.descriptors()[i as int]));
            }
            i = i + 1;
        }
        proof {
            assert(self.descriptors().subrange(0, n as int) =~= self.descriptors());
        }
        out
    }

    /// The registered hubs whose `resource_kind` is `resource_kind`, in
    /// increasing `hub_id` order.
    pub fn list_by_kind(&self, resource_kind: &str) -> (r: Vec<&ResourceHubDescriptor>)
        ensures
            r@.map_values(|m: &ResourceHubDescriptor| *m) == self.descriptors().filter(
                |m: ResourceHubDescriptor| m.resource_kind@ == resource_kind@,
            ),
    {
        let mut out: Vec<&ResourceHubDescriptor> = Vec::new();
        let n = self.hubs.len();
        let mut i: usize = 0;
        while i < n
            invariant
                n == self.hubs_spec().len(),
                i <= n,
                out@.map_values(|m: &ResourceHubDescriptor| *m) == self.descriptors().subrange(0, i as int).filter(
                    |m: ResourceHubDescriptor| m.resource_kind@ == resource_kind@,
                ),
            decreases n - i,
        {
            proof {
                reveal_with_fuel(Seq::filter, 1);
                assert(self.descriptors().subrange(0, i + 1).drop_last() =~= self.descriptors().subrange(0, i as int));
            }
            let e = self.hubs.entry(i);
            let ghost prev = out@;
            if str_eq(e.1.resource_kind.as_str(), resource_kind) {
                out.push(&e.1);
                assert(out@.map_values(|m: &ResourceHubDescriptor| *m) =~= prev.map_values(
                    |m: &ResourceHubDescriptor| *m,
                ).push(self.descriptors()[i as int]));
            }
            i = i + 1;
        }
        proof {
            assert(self.descriptors().subrange(0, n as int) =~= self.descriptors());
        }
        out
    }

    /// The first hub, in increasing `hub_id` order, that provides
    /// `resource_name`.
    pub fn resolve_resource(&self, resource_name: &str) -> (r: Result<ResolvedResource, String>)
        ensures
            r is Ok <==> exists|i: int| 0 <= i < self.descriptors().len() && provides(#[trigger] self.descriptors()[i], resource_name@),
            r matches Ok(res) ==> exists|i: int| 0 <= i < self.descriptors().len()
                && provides(#[trigger] self.descriptors()[i], resource_name@)
                && resolves_to(res, self.descriptors()[i])
                && forall|j: int| 0 <= j < i ==> !provides(#[trigger] self.descriptors()[j], resource_name@),
            r matches Err(e) ==> e@ == unresolved_error(resource_name@),
    {
        let n = self.hubs.len();
        let mut i: usize = 0;
        while i < n
            invariant
                n == self.hubs_spec().len(),
                i <= n,
                forall|j: int| 0 <= j < i ==> !provides(#[trigger] self.descriptors()[j], resource_name@),
            decreases n - i,
        {
            let e = self.hubs.entry(i);
            proof {
                assert(self.descriptors()[i as int] == e.1);
            }
            if hub_provides(&e.1, resource_name) {
                return Ok(ResolvedResource {
                    hub_id: e.1.hub_id.clone(),
                    locator: e.1.locator.clone(),
                    resource_kind: e.1.resource_kind.clone(),
                });
            }
            i = i + 1;
        }
        Err(join3("HUB-003: no hub provides resource '", resource_name, "'"))
    }
}

/// In a well-formed registry, the hub a resolution picks (the first, in key
/// order, that provides the name) has the smallest `hub_id` of all hubs that
/// provide it.
pub proof fn law_resolved_hub_has_smallest_id(reg: ResourceHubRegistry, name: Seq<char>, res: ResolvedResource)
    requires
        reg.wf(),
        exists|i: int| 0 <= i < reg.descriptors().len()
            && provides(#[trigger] reg.descriptors()[i], name)
            && resolves_to(res, reg.descriptors()[i])
            && forall|j: int| 0 <= j < i ==> !provides(#[trigger] reg.descriptors()[j], name),
    ensures
        forall|k: int| 0 <= k < reg.descriptors().len() && provides(#[trigger] reg.descriptors()[k], name)
            ==> res.hub_id@ == reg.descriptors()[k].hub_id@ || key_lt(res.hub_id@, reg.descriptors()[k].hub_id@),
{
    let d = reg.descriptors();
    let e = reg.hubs_spec();
    let i = choose|i: int| 0 <= i < d.len()
        && provides(#[trigger] d[i], name)
        && resolves_to(res, d[i])
        && forall|j: int| 0 <= j < i ==> !provides(#[trigger] d[j], name);
    assert forall|k: int| 0 <= k < d.len() && provides(#[trigger] d[k], name)
        implies res.hub_id@ == d[k].hub_id@ || key_lt(res.hub_id@, d[k].hub_id@) by {
        if k > i {
            assert(key_lt(e[i].0@, e[k].0@));
            assert(e[i].0@ == e[i].1.hub_id@);
            assert(e[k].0@ == e[k].1.hub_id@);
        } else if k < i {
            assert(!provides(d[k], name));
        }
    }
}

/// Hit and miss counts and size of a resolver cache.
#[derive(Debug, Clone, PartialEq, Eq, Structural)]
pub struct CacheStats {
    pub hits: u64,
    pub misses: u64,
    pub entries: usize,
}

/// A copy of `r`, field by field.
pub fn copy_resolved(r: &ResolvedResource) -> (c: ResolvedResource)
    ensures
        c == *r,
{
    ResolvedResource { hub_id: r.hub_id.clone(), locator: r.locator.clone(), resource_kind: r.resource_kind.clone() }
}

/// Bounded cache of resolved resources with first-in, first-out eviction.
///
/// A resolver asks `lookup` first; on a miss it calls `record_miss`, asks
/// its hub registry, and hands what it found to `store`.
pub struct ResolverCache {
    entries: Vec<(String, ResolvedResource)>,
    capacity: usize,
    hits: u64,
    misses: u64,
}

/// Whether `name` is among the cached names.
pub open spec fn cached_index(entries: Seq<(String, ResolvedResource)>, name: Seq<char>) -> Option<int> {
    if exists|k: int| 0 <= k < entries.len() && #[trigger] entries[k].0@ == name {
        Some(choose|k: int| 0 <= k < entries.len() && #[trigger] entries[k].0@ == name)
    } else {
        None
    }
}

impl ResolverCache {
    /// Cached names and what they resolved to, oldest first.
    pub closed spec fn entries_spec(self) -> Seq<(String, ResolvedResource)> {
        self.entries@
    }

    /// The most entries the cache holds.
    pub closed spec fn capacity_spec(self) -> usize {
        self.capacity
    }

    /// Lookups answered from the cache.
    pub closed spec fn hits_spec(self) -> u64 {
        self.hits
    }

    /// Lookups that had to go to the registry.
    pub closed spec fn misses_spec(self) -> u64 {
        self.misses
    }

    /// Each name is cached at most once, and the cache never exceeds its
    /// capacity, which is at least one.
    pub open spec fn wf(self) -> bool {
        &&& self.capacity_spec() >= 1
        &&& self.entries_spec().len() <= self.capacity_spec()
        &&& forall|a: int, b: int| 0 <= a < b < self.entries_spec().len()
            ==> #[trigger] self.entries_spec()[a].0@ != #[trigger] self.entries_spec()[b].0@
    }

    /// An empty cache holding at most `capacity` entries (at least one).
    pub fn new(capacity: usize) -> (c: Self)
        ensures
            c.wf(),
            c.entries_spec().len() == 0,
            c.capacity_spec() == if capacity >= 1 { capacity } else { 1 },
            c.hits_spec() == 0,
            c.misses_spec() == 0,
    {
        let cap = if capacity >= 1 { capacity } else { 1 };
        ResolverCache { entries: Vec::new(), capacity: cap, hits: 0, misses: 0 }
    }

    /// The cached resolution of `name`, counting a hit when there is one.
    pub fn lookup(&mut self, name: &str) -> (r: Option<ResolvedResource>)
        requires
            old(self).wf(),
            old(self).hits_spec() < u64::MAX,
        ensures
            final(self).wf(),
            final(self).entries_spec() == old(self).entries_spec(),
            final(self).capacity_spec() == old(self).capacity_spec(),
            final(self).misses_spec() == old(self).misses_spec(),
            cached_index(old(self).entries_spec(), name@) matches Some(k) ==> r == Some(old(self).entries_spec()[k].1)
                && final(self).hits_spec() == old(self).hits_spec() + 1,
            cached_index(old(self).entries_spec(), name@) is None ==> r is None
                && final(self).hits_spec() == old(self).hits_spec(),
    {
        match self.position(name) {
            Some(k) => {
                let found = copy_resolved(&self.entries[k].1);
                self.hits = self.hits + 1;
                Some(found)
            },
            None => None,
        }
    }

    /// Where `name` is cached.
    fn position(&self, name: &str) -> (r: Option<usize>)
        requires
            self.wf(),
        ensures
            r == (match cached_index(self.entries_spec(), name@) { Some(k) => Some(k as usize), None => None::<usize> }),
            r matches Some(k) ==> k < self.entries_spec().len(),
    {
        let mut k: usize = 0;
        while k < self.entries.len()
            invariant
                self.wf(),
                k <= self.entries@.len(),
                forall|q: int| 0 <= q < k ==> #[trigger] self.entries@[q].0@ != name@,
            decreases self.entries@.len() - k,
        {
            if str_eq(self.entries[k].0.as_str(), name) {
                proof {
                    let c = choose|q: int| 0 <= q < self.entries@.len() && #[trigger] self.entries@[q].0@ == name@;
                    assert(c == k as int) by {
                        if c > k {
                            assert(self.entries_spec()[k as int].0@ != self.entries_spec()[c].0@);
                        }
                    }
                }
                return Some(k);
            }
            k = k + 1;
        }
        None
    }

    /// Counts a lookup that had to go to the registry.
    pub fn record_miss(&mut self)
        requires
            old(self).misses_spec() < u64::MAX,
        ensures
            final(self).entries_spec() == old(self).entries_spec(),
            final(self).capacity_spec() == old(self).capacity_spec(),
            final(self).hits_spec() == old(self).hits_spec(),
            final(self).misses_spec() == old(self).misses_spec() + 1,
    {
        self.misses = self.misses + 1;
    }

    /// Caches the resolution of a name not cached yet; when the cache is
    /// full, the oldest entry leaves first.
    pub fn store(&mut self, name: &str, resolved: ResolvedResource)
        requires
            old(self).wf(),
            cached_index(old(self).entries_spec(), name@) is None,
        ensures
            final(self).wf(),
            final(self).capacity_spec() == old(self).capacity_spec(),
            final(self).hits_spec() == old(self).hits_spec(),
            final(self).misses_spec() == old(self).misses_spec(),
            old(self).entries_spec().len() >= old(self).capacity_spec() ==> final(self).entries_spec()
                == old(self).entries_spec().drop_first().push((final(self).entries_spec().last().0, resolved)),
            old(self).entries_spec().len() < old(self).capacity_spec() ==> final(self).entries_spec()
                == old(self).entries_spec().push((final(self).entries_spec().last().0, resolved)),
            final(self).entries_spec().last().0@ == name@,
    {
        if self.entries.len() >= self.capacity {
            let _ = self.entries.remove(0);
        }
        let ghost mid = self.entries@;
        self.entries.push((String::from_str(name), resolved));
        proof {
            assert forall|a: int, b: int| 0 <= a < b < self.entries@.len()
                implies #[trigger] self.entries@[a].0@ != #[trigger] self.entries@[b].0@ by {
                if b == self.entries@.len() - 1 {
                    if self.entries@[a].0@ == name@ {
                        assert(old(self).entries@.contains(self.entries@[a]));
                        let q = choose|q: int| 0 <= q < old(self).entries@.len() && old(self).entries@[q] == self.entries@[a];
                        assert(old(self).entries@[q].0@ == name@);
                    }
                }
            }
        }
    }

    /// Hit and miss counts and the number of cached entries.
    pub fn stats(&self) -> (s: CacheStats)
        ensures
            s.hits == self.hits_spec(),
            s.misses == self.misses_spec(),
            s.entries == self.entries_spec().len(),
    {
        CacheStats { hits: self.hits, misses: self.misses, entries: self.entries.len() }
    }

    /// Empties the cache; the counts stay.
    pub fn clear(&mut self)
        requires
            old(self).wf(),
        ensures
            final(self).wf(),
            final(self).entries_spec().len() == 0,
            final(self).capacity_spec() == old(self).capacity_spec(),
            final(self).hits_spec() == old(self).hits_spec(),
            final(self).misses_spec() == old(self).misses_spec(),
    {
        self.entries.clear();
    }
}


/// After `register_hub` accepts a descriptor, `lookup` of its id finds
/// exactly that descriptor, and a lookup of any other id finds what it found
/// before. `r` is what `register_hub` returned and `found` what the later
/// `lookup(id)` returned; the requirements are their contracts.
pub proof fn law_register_hub_then_lookup(
    before: ResourceHubRegistry,
    after: ResourceHubRegistry,
    d: ResourceHubDescriptor,
    r: Result<(), String>,
    id: Seq<char>,
    found: Result<&ResourceHubDescriptor, String>,
)
    requires
        r is Ok <==> !before@.contains_key(d.hub_id@),
        r is Ok ==> after@ == before@.insert(d.hub_id@, d),
        r is Ok,
        found is Ok <==> after@.contains_key(id),
        found matches Ok(x) ==> *x == after@[id],
    ensures
        id == d.hub_id@ ==> (found matches Ok(x) && *x == d),
        id != d.hub_id@ ==> ((found is Ok <==> before@.contains_key(id))
            && (found matches Ok(x) ==> *x == before@[id])),
{
}

/// The name just stored is the newest entry, so a lookup right after
/// finds it.
pub proof fn law_store_then_lookup(entries: Seq<(String, ResolvedResource)>, name: Seq<char>)
    requires
        entries.len() > 0,
        entries.last().0@ == name,
    ensures
        cached_index(entries, name) is Some,
{
    assert(entries[entries.len() - 1].0@ == name);
}

} // verus!
