use vstd::prelude::*;
use dashmap::DashMap;
use crate::platform::{Platform, PlatformView};

verus! {

#[verifier::external_type_specification]
#[verifier::external_body]
#[verifier::reject_recursive_types(K)]
#[verifier::reject_recursive_types(V)]
#[verifier::reject_recursive_types(S)]
pub struct ExDashMap<K, V, S>(DashMap<K, V, S>);

/// What a concurrent map of tenant contexts holds, by tenant identifier.
pub uninterp spec fn tenant_map(m: DashMap<String, Platform>) -> Map<Seq<char>, PlatformView>;

/// Relies on DashMap::new: a new map is empty.
#[verifier::external_body]
fn map_new() -> (r: DashMap<String, Platform>)
    ensures
        tenant_map(r).is_empty(),
{
    DashMap::new()
}

/// Relies on DashMap::insert: the key maps to the value afterwards, and the
/// value it mapped to before, if any, is returned.
#[verifier::external_body]
fn map_insert(m: &mut DashMap<String, Platform>, key: String, value: Platform) -> (r: Option<Platform>)
    ensures
        tenant_map(*final(m)) == tenant_map(*old(m)).insert(key@, value@),
        r is Some <==> tenant_map(*old(m)).contains_key(key@),
        r matches Some(p) ==> p@ == tenant_map(*old(m))[key@],
{
    m.insert(key, value)
}

/// Relies on DashMap::remove: the key maps to nothing afterwards, and the
/// entry it had, if any, is returned; only its value is kept.
#[verifier::external_body]
fn map_remove(m: &mut DashMap<String, Platform>, key: &str) -> (r: Option<Platform>)
    ensures
        tenant_map(*final(m)) == tenant_map(*old(m)).remove(key@),
        r is Some <==> tenant_map(*old(m)).contains_key(key@),
        r matches Some(p) ==> p@ == tenant_map(*old(m))[key@],
{
    m.remove(key).map(|entry| entry.1)
}

/// Relies on DashMap::get: the value the key maps to, if any; a copy of it
/// is returned.
#[verifier::external_body]
fn map_get(m: &DashMap<String, Platform>, key: &str) -> (r: Option<Platform>)
    ensures
        r is Some <==> tenant_map(*m).contains_key(key@),
        r matches Some(p) ==> p@ == tenant_map(*m)[key@],
{
    m.get(key).map(|entry| entry.value().duplicate())
}

/// Relies on DashMap::iter: each entry is visited once, in an order the map
/// chooses; the keys are copied out.
#[verifier::external_body]
fn map_keys(m: &DashMap<String, Platform>) -> (r: Vec<String>)
    ensures
        r@.map_values(|k: String| k@).to_set() == tenant_map(*m).dom(),
        r@.map_values(|k: String| k@).no_duplicates(),
{
    m.iter().map(|entry| entry.key().clone()).collect()
}

/// The registry of subscribed tenants: each tenant identifier maps to that
/// tenant's context. Readers and writers of different tenants do not wait on
/// one another.
pub struct Registry {
    platforms: DashMap<String, Platform>,
}

impl View for Registry {
    type V = Map<Seq<char>, PlatformView>;

    closed spec fn view(&self) -> Map<Seq<char>, PlatformView> {
        tenant_map(self.platforms)
    }
}

/// Every context is filed under its own tenant identifier and has its API
/// client bound to its own values.
pub open spec fn registry_wf(m: Map<Seq<char>, PlatformView>) -> bool {
    forall|t: Seq<char>| #[trigger] m.contains_key(t) ==> m[t].tenant == t && m[t].wf()
}

impl Registry {
    pub open spec fn wf(&self) -> bool {
        registry_wf(self@)
    }

    /// An empty registry.
    pub fn new() -> (r: Registry)
        ensures
            r@.is_empty(),
            r.wf(),
    {
        Registry { platforms: map_new() }
    }

    /// A copy of the context registered for `tenant`, if any.
    pub fn get(&self, tenant: &str) -> (r: Option<Platform>)
        ensures
            r is Some <==> self@.contains_key(tenant@),
            r matches Some(p) ==> p@ == self@[tenant@],
    {
        map_get(&self.platforms, tenant)
    }

    /// Registers `platform` under its tenant identifier, replacing and
    /// returning the context registered there before, if any.
    pub fn insert_or_replace(&mut self, platform: Platform) -> (r: Option<Platform>)
        requires
            old(self).wf(),
            platform@.wf(),
        ensures
            final(self)@ == old(self)@.insert(platform.tenant@, platform@),
            final(self).wf(),
            r is Some <==> old(self)@.contains_key(platform.tenant@),
            r matches Some(p) ==> p@ == old(self)@[platform.tenant@],
    {
        let key = platform.tenant.clone();
        map_insert(&mut self.platforms, key, platform)
    }

    /// Unregisters `tenant`, returning the context it had, if any.
    pub fn remove(&mut self, tenant: &str) -> (r: Option<Platform>)
        requires
            old(self).wf(),
        ensures
            final(self)@ == old(self)@.remove(tenant@),
            final(self).wf(),
            r is Some <==> old(self)@.contains_key(tenant@),
            r matches Some(p) ==> p@ == old(self)@[tenant@],
    {
        map_remove(&mut self.platforms, tenant)
    }

    /// The registered tenant identifiers, each once, in no particular order.
    pub fn snapshot(&self) -> (r: Vec<String>)
        ensures
            r@.map_values(|k: String| k@).to_set() == self@.dom(),
            r@.map_values(|k: String| k@).no_duplicates(),
    {
        map_keys(&self.platforms)
    }
}

} // verus!
