use vstd::prelude::*;
use crate::inventory::{copy_string, qualified_user};
use crate::platform::{platform_of, Platform, PlatformView};
use crate::registry::{registry_wf, Registry};

verus! {

/// One subscriber record of the platform's subscription list.
pub struct User {
    pub name: String,
    pub password: String,
    pub tenant: String,
}

impl User {
    pub fn new(name: String, password: String, tenant: String) -> (r: User)
        ensures
            r.name@ == name@,
            r.password@ == password@,
            r.tenant@ == tenant@,
    {
        User { name, password, tenant }
    }
}

/// The platform's subscription list, in the order the platform gave it.
pub struct Users {
    pub users: Vec<User>,
}

/// Whether a tenant's subscription began or ended.
#[derive(PartialEq, Eq, Structural, Clone, Copy, Debug)]
pub enum EventKind {
    Added,
    Removed,
}

/// A change of a tenant's subscription, with the tenant's context.
pub struct SubscriptionEvent {
    pub kind: EventKind,
    pub platform: Platform,
}

/// The context made for a subscriber record.
pub open spec fn user_platform(u: User, base_url: Seq<char>) -> PlatformView {
    platform_of(u.tenant@, u.name@, u.password@, base_url)
}

/// The tenants of a subscription list.
pub open spec fn fetched_tenants(us: Seq<User>) -> Set<Seq<char>>
    decreases us.len(),
{
    if us.len() == 0 {
        Set::empty()
    } else {
        fetched_tenants(us.drop_last()).insert(us.last().tenant@)
    }
}

/// The map after each record of `us`, in order, is registered in `m`.
pub open spec fn apply_users(m: Map<Seq<char>, PlatformView>, us: Seq<User>, base_url: Seq<char>) -> Map<
    Seq<char>,
    PlatformView,
>
    decreases us.len(),
{
    if us.len() == 0 {
        m
    } else {
        apply_users(m, us.drop_last(), base_url).insert(us.last().tenant@, user_platform(us.last(), base_url))
    }
}

/// The registry after a reconciliation pass: the fetched tenants, each with
/// the context of its last record, and nothing else.
pub open spec fn reconciled_map(m: Map<Seq<char>, PlatformView>, us: Seq<User>, base_url: Seq<char>) -> Map<
    Seq<char>,
    PlatformView,
> {
    apply_users(m, us, base_url).restrict(fetched_tenants(us))
}

/// The contexts of new subscriptions, in list order: one for the first record
/// of each tenant that is not in `known`.
pub open spec fn added_platforms(known: Set<Seq<char>>, us: Seq<User>, base_url: Seq<char>) -> Seq<PlatformView>
    decreases us.len(),
{
    if us.len() == 0 {
        Seq::empty()
    } else {
        let prev = added_platforms(known, us.drop_last(), base_url);
        let u = us.last();
        if known.contains(u.tenant@) || fetched_tenants(us.drop_last()).contains(u.tenant@) {
            prev
        } else {
            prev.push(user_platform(u, base_url))
        }
    }
}

/// The events of a reconciliation pass from `before` with list `us`: first an
/// add event for each new subscription in list order, then one remove event,
/// with the context it had, for each registered tenant that is not listed.
pub open spec fn pass_events(
    before: Map<Seq<char>, PlatformView>,
    us: Seq<User>,
    base_url: Seq<char>,
    events: Seq<SubscriptionEvent>,
) -> bool {
    let adds = added_platforms(before.dom(), us, base_url);
    let f = fetched_tenants(us);
    &&& adds.len() <= events.len()
    &&& forall|k: int|
        0 <= k < adds.len() ==> (#[trigger] events[k]).kind == EventKind::Added && events[k].platform@
            == adds[k]
    &&& forall|k: int|
        adds.len() <= k < events.len() ==> {
            let t = (#[trigger] events[k]).platform.tenant@;
            &&& events[k].kind == EventKind::Removed
            &&& before.contains_key(t)
            &&& !f.contains(t)
            &&& events[k].platform@ == before[t]
        }
    &&& forall|t: Seq<char>|
        before.contains_key(t) && !f.contains(t) ==> exists|k: int|
            adds.len() <= k < events.len() && (#[trigger] events[k]).platform.tenant@ == t
    &&& forall|a: int, b: int|
        adds.len() <= a < b < events.len() ==> (#[trigger] events[a]).platform.tenant@
            != (#[trigger] events[b]).platform.tenant@
}

pub proof fn lemma_apply_users(m: Map<Seq<char>, PlatformView>, us: Seq<User>, base_url: Seq<char>)
    ensures
        apply_users(m, us, base_url).dom() == m.dom() + fetched_tenants(us),
        forall|t: Seq<char>|
            !fetched_tenants(us).contains(t) ==> #[trigger] apply_users(m, us, base_url).index(t) == m.index(t),
    decreases us.len(),
{
    if us.len() > 0 {
        lemma_apply_users(m, us.drop_last(), base_url);
        assert(apply_users(m, us, base_url).dom() =~= m.dom() + fetched_tenants(us));
    }
}

/// On the fetched tenants, the map after registering `us` does not depend on
/// what it held before.
pub proof fn lemma_apply_users_on_fetched(
    m1: Map<Seq<char>, PlatformView>,
    m2: Map<Seq<char>, PlatformView>,
    us: Seq<User>,
    base_url: Seq<char>,
)
    ensures
        forall|t: Seq<char>|
            fetched_tenants(us).contains(t) ==> #[trigger] apply_users(m1, us, base_url).index(t)
                == apply_users(m2, us, base_url).index(t),
    decreases us.len(),
{
    if us.len() > 0 {
        lemma_apply_users_on_fetched(m1, m2, us.drop_last(), base_url);
        assert forall|t: Seq<char>| fetched_tenants(us).contains(t) implies #[trigger] apply_users(
            m1,
            us,
            base_url,
        ).index(t) == apply_users(m2, us, base_url).index(t) by {
            if t != us.last().tenant@ {
                assert(fetched_tenants(us.drop_last()).contains(t));
                assert(apply_users(m1, us.drop_last(), base_url).index(t) == apply_users(
                    m2,
                    us.drop_last(),
                    base_url,
                ).index(t));
            }
        }
    }
}

/// The new subscriptions are exactly the fetched tenants that were not known,
/// each once, each with the context of a record of its tenant.
pub proof fn lemma_added_platforms(known: Set<Seq<char>>, us: Seq<User>, base_url: Seq<char>)
    ensures
        forall|k: int|
            0 <= k < added_platforms(known, us, base_url).len() ==> {
                let p = #[trigger] added_platforms(known, us, base_url)[k];
                &&& fetched_tenants(us).contains(p.tenant)
                &&& !known.contains(p.tenant)
            },
        forall|t: Seq<char>|
            fetched_tenants(us).contains(t) && !known.contains(t) ==> exists|k: int|
                0 <= k < added_platforms(known, us, base_url).len() && (#[trigger] added_platforms(
                    known,
                    us,
                    base_url,
                )[k]).tenant == t,
        forall|a: int, b: int|
            0 <= a < b < added_platforms(known, us, base_url).len() ==> (#[trigger] added_platforms(
                known,
                us,
                base_url,
            )[a]).tenant != (#[trigger] added_platforms(known, us, base_url)[b]).tenant,
    decreases us.len(),
{
    if us.len() > 0 {
        let prev = added_platforms(known, us.drop_last(), base_url);
        lemma_added_platforms(known, us.drop_last(), base_url);
        let u = us.last();
        let cur = added_platforms(known, us, base_url);
        let skipped = known.contains(u.tenant@) || fetched_tenants(us.drop_last()).contains(u.tenant@);
        if skipped {
            assert(cur == prev);
        } else {
            assert(cur == prev.push(user_platform(u, base_url)));
        }
        assert forall|t: Seq<char>|
            fetched_tenants(us).contains(t) && !known.contains(t) implies exists|k: int|
                0 <= k < cur.len() && (#[trigger] cur[k]).tenant == t by {
            if !skipped && t == u.tenant@ {
                assert(cur[prev.len() as int].tenant == t);
            } else {
                assert(fetched_tenants(us.drop_last()).contains(t));
                let k = choose|k: int| 0 <= k < prev.len() && (#[trigger] prev[k]).tenant == t;
                assert(cur[k].tenant == t);
            }
        }
    }
}


/// The tenant identifiers among the first `j` of `keys`.
pub open spec fn prefix_keys(keys: Seq<Seq<char>>, j: int) -> Set<Seq<char>> {
    Set::new(|t: Seq<char>| exists|k: int| 0 <= k < j && keys[k] == t)
}

/// Whether `tenant` has a record in `users`.
fn is_listed(users: &Vec<User>, tenant: &String) -> (r: bool)
    ensures
        r == fetched_tenants(users@).contains(tenant@),
{
    let mut i: usize = 0;
    let mut found = false;
    while i < users.len()
        invariant
            0 <= i <= users.len(),
            found == fetched_tenants(users@.take(i as int)).contains(tenant@),
        decreases users.len() - i,
    {
        assert(users@.take(i + 1).drop_last() =~= users@.take(i as int));
        if users[i].tenant == *tenant {
            found = true;
        }
        i += 1;
    }
    assert(users@.take(i as int) =~= users@);
    found
}

/// One reconciliation pass: registers a fresh context for each record of
/// `users`, in order, and unregisters each registered tenant that has none.
/// Returns an add event for each new subscription, in list order, then a
/// remove event for each ended one; a tenant that stays subscribed has its
/// context replaced without an event.
pub fn reconcile(registry: &mut Registry, users: &Vec<User>, base_url: &String) -> (events: Vec<SubscriptionEvent>)
    requires
        old(registry).wf(),
    ensures
        final(registry).wf(),
        final(registry)@ == reconciled_map(old(registry)@, users@, base_url@),
        final(registry)@.dom() == fetched_tenants(users@),
        pass_events(old(registry)@, users@, base_url@, events@),
{
    let ghost before = registry@;
    let ghost us = users@;
    let ghost base = base_url@;
    let snapshot = registry.snapshot();
    let ghost keys = snapshot@.map_values(|k: String| k@);
    let mut events: Vec<SubscriptionEvent> = Vec::new();
    let mut i: usize = 0;
    while i < users.len()
        invariant
            0 <= i <= users.len(),
            us == users@,
            base == base_url@,
            registry.wf(),
            registry@ == apply_users(before, us.take(i as int), base),
            events@.len() == added_platforms(before.dom(), us.take(i as int), base).len(),
            forall|k: int|
                0 <= k < events@.len() ==> (#[trigger] events@[k]).kind == EventKind::Added
                    && events@[k].platform@ == added_platforms(before.dom(), us.take(i as int), base)[k],
        decreases users.len() - i,
    {
        let ghost pre = us.take(i as int);
        assert(us.take(i + 1).drop_last() =~= pre);
        assert(us.take(i + 1).last() == users@[i as int]);
        proof {
            lemma_apply_users(before, pre, base);
        }
        let u = &users[i];
        let platform = Platform::new(&u.tenant, &u.name, &u.password, base_url);
        let copy = platform.duplicate();
        let ghost step = us.take(i + 1);
        assert(apply_users(before, step, base) == apply_users(before, pre, base).insert(
            u.tenant@,
            user_platform(*u, base),
        ));
        let ghost prev_adds = added_platforms(before.dom(), pre, base);
        let ghost was_known = before.dom().contains(u.tenant@) || fetched_tenants(pre).contains(u.tenant@);
        assert(added_platforms(before.dom(), step, base) == (if was_known {
            prev_adds
        } else {
            prev_adds.push(user_platform(*u, base))
        }));
        match registry.insert_or_replace(platform) {
            Some(_) => {},
            None => {
                events.push(SubscriptionEvent { kind: EventKind::Added, platform: copy });
            },
        }
        i += 1;
    }
    assert(us.take(i as int) =~= us);
    let ghost mid = registry@;
    let ghost f = fetched_tenants(us);
    let ghost adds = added_platforms(before.dom(), us, base);
    proof {
        lemma_apply_users(before, us, base);
    }
    let mut j: usize = 0;
    while j < snapshot.len()
        invariant
            0 <= j <= snapshot.len(),
            us == users@,
            base == base_url@,
            f == fetched_tenants(us),
            adds == added_platforms(before.dom(), us, base),
            keys == snapshot@.map_values(|k: String| k@),
            keys.to_set() == before.dom(),
            keys.no_duplicates(),
            mid == apply_users(before, us, base),
            mid.dom() == before.dom() + f,
            forall|t: Seq<char>| !f.contains(t) ==> #[trigger] mid.index(t) == before.index(t),
            registry_wf(before),
            registry.wf(),
            registry@ == mid.remove_keys(prefix_keys(keys, j as int).difference(f)),
            adds.len() <= events@.len(),
            forall|k: int|
                0 <= k < adds.len() ==> (#[trigger] events@[k]).kind == EventKind::Added
                    && events@[k].platform@ == adds[k],
            forall|k: int|
                adds.len() <= k < events@.len() ==> {
                    let t = (#[trigger] events@[k]).platform.tenant@;
                    &&& events@[k].kind == EventKind::Removed
                    &&& prefix_keys(keys, j as int).contains(t)
                    &&& before.contains_key(t)
                    &&& !f.contains(t)
                    &&& events@[k].platform@ == before[t]
                },
            forall|t: Seq<char>|
                prefix_keys(keys, j as int).contains(t) && !f.contains(t) ==> exists|k: int|
                    adds.len() <= k < events@.len() && (#[trigger] events@[k]).platform.tenant@ == t,
            forall|a: int, b: int|
                adds.len() <= a < b < events@.len() ==> (#[trigger] events@[a]).platform.tenant@
                    != (#[trigger] events@[b]).platform.tenant@,
        decreases snapshot.len() - j,
    {
        let key = &snapshot[j];
        assert(keys[j as int] == key@);
        assert(keys.contains(key@));
        assert(before.contains_key(key@));
        assert(!prefix_keys(keys, j as int).contains(key@));
        assert forall|t: Seq<char>|
            prefix_keys(keys, j + 1).contains(t) <==> prefix_keys(keys, j as int).contains(t) || t
                == key@ by {
            if t == key@ {
                assert(keys[j as int] == t);
            }
            if prefix_keys(keys, j + 1).contains(t) && t != key@ {
                let k = choose|k: int| 0 <= k < j + 1 && keys[k] == t;
                assert(k < j);
            }
            if prefix_keys(keys, j as int).contains(t) {
                let k = choose|k: int| 0 <= k < j && keys[k] == t;
                assert(0 <= k < j + 1 && keys[k] == t);
            }
        }
        assert(prefix_keys(keys, j + 1) =~= prefix_keys(keys, j as int).insert(key@));
        let listed = is_listed(users, key);
        if listed {
            assert(prefix_keys(keys, j + 1).difference(f) =~= prefix_keys(keys, j as int).difference(f));
        } else {
            assert(prefix_keys(keys, j + 1).difference(f) =~= prefix_keys(keys, j as int).difference(
                f,
            ).insert(key@));
        }
        if !listed {
            let removed = registry.remove(key.as_str());
            assert(registry@ =~= mid.remove_keys(prefix_keys(keys, j + 1).difference(f)));
            match removed {
                Some(platform) => {
                    let ghost n = events@.len();
                    let ghost old_events = events@;
                    events.push(SubscriptionEvent { kind: EventKind::Removed, platform });
                    assert forall|t: Seq<char>|
                        prefix_keys(keys, j + 1).contains(t) && !f.contains(t) implies exists|k: int|
                            adds.len() <= k < events@.len() && (#[trigger] events@[k]).platform.tenant@
                                == t by {
                        if t == key@ {
                            assert(events@[n as int].platform.tenant@ == t);
                        } else {
                            assert(prefix_keys(keys, j as int).contains(t));
                            let k = choose|k: int|
                                adds.len() <= k < n && (#[trigger] old_events[k]).platform.tenant@ == t;
                            assert(events@[k] == old_events[k]);
                        }
                    }
                },
                None => {},
            }
        } else {
            assert(registry@ =~= mid.remove_keys(prefix_keys(keys, j + 1).difference(f)));
        }
        j += 1;
    }
    assert(prefix_keys(keys, j as int) =~= before.dom());
    assert(registry@ =~= reconciled_map(before, us, base));
    proof {
        lemma_convergence(before, us, base);
    }
    events
}

/// `events` holds exactly one event about `t`, and it is of kind `kind`.
pub open spec fn only_event_for(events: Seq<SubscriptionEvent>, t: Seq<char>, kind: EventKind) -> bool {
    exists|k: int|
        0 <= k < events.len() && (#[trigger] events[k]).platform.tenant@ == t && events[k].kind == kind
            && forall|k2: int|
            0 <= k2 < events.len() && k2 != k ==> (#[trigger] events[k2]).platform.tenant@ != t
}

/// `events` holds no event about `t`.
pub open spec fn no_event_for(events: Seq<SubscriptionEvent>, t: Seq<char>) -> bool {
    forall|k: int| 0 <= k < events.len() ==> (#[trigger] events[k]).platform.tenant@ != t
}

/// After a reconciliation pass the registered tenants are exactly the
/// fetched ones, whatever was registered before.
pub proof fn lemma_convergence(before: Map<Seq<char>, PlatformView>, us: Seq<User>, base_url: Seq<char>)
    ensures
        reconciled_map(before, us, base_url).dom() == fetched_tenants(us),
{
    lemma_apply_users(before, us, base_url);
    assert(reconciled_map(before, us, base_url).dom() =~= fetched_tenants(us));
}

proof fn lemma_added_event_tenants(
    before: Map<Seq<char>, PlatformView>,
    us: Seq<User>,
    base_url: Seq<char>,
    events: Seq<SubscriptionEvent>,
)
    requires
        pass_events(before, us, base_url, events),
    ensures
        forall|k: int|
            0 <= k < added_platforms(before.dom(), us, base_url).len() ==> {
                let t = (#[trigger] events[k]).platform.tenant@;
                fetched_tenants(us).contains(t) && !before.contains_key(t)
            },
{
    let adds = added_platforms(before.dom(), us, base_url);
    lemma_added_platforms(before.dom(), us, base_url);
    assert forall|k: int| 0 <= k < adds.len() implies {
        let t = (#[trigger] events[k]).platform.tenant@;
        fetched_tenants(us).contains(t) && !before.contains_key(t)
    } by {
        assert(events[k].platform@ == adds[k]);
        assert(fetched_tenants(us).contains(adds[k].tenant));
    }
}

proof fn lemma_new_tenant_event(
    before: Map<Seq<char>, PlatformView>,
    us: Seq<User>,
    base_url: Seq<char>,
    events: Seq<SubscriptionEvent>,
    t: Seq<char>,
)
    requires
        pass_events(before, us, base_url, events),
        fetched_tenants(us).contains(t),
        !before.contains_key(t),
    ensures
        only_event_for(events, t, EventKind::Added),
{
    let adds = added_platforms(before.dom(), us, base_url);
    lemma_added_platforms(before.dom(), us, base_url);
    let k = choose|k: int| 0 <= k < adds.len() && (#[trigger] adds[k]).tenant == t;
    assert(events[k].platform@ == adds[k]);
    assert forall|k2: int| 0 <= k2 < events.len() && k2 != k implies (#[trigger] events[k2]).platform.tenant@
        != t by {
        if k2 < adds.len() {
            assert(events[k2].platform@ == adds[k2]);
            if k2 < k {
                assert(adds[k2].tenant != adds[k].tenant);
            } else {
                assert(adds[k].tenant != adds[k2].tenant);
            }
        }
    }
}

proof fn lemma_ended_tenant_event(
    before: Map<Seq<char>, PlatformView>,
    us: Seq<User>,
    base_url: Seq<char>,
    events: Seq<SubscriptionEvent>,
    t: Seq<char>,
)
    requires
        pass_events(before, us, base_url, events),
        before.contains_key(t),
        !fetched_tenants(us).contains(t),
    ensures
        only_event_for(events, t, EventKind::Removed),
{
    let adds = added_platforms(before.dom(), us, base_url);
    lemma_added_platforms(before.dom(), us, base_url);
    let k = choose|k: int| adds.len() <= k < events.len() && (#[trigger] events[k]).platform.tenant@ == t;
    assert forall|k2: int| 0 <= k2 < events.len() && k2 != k implies (#[trigger] events[k2]).platform.tenant@
        != t by {
        if k2 < adds.len() {
            assert(events[k2].platform@ == adds[k2]);
            assert(!before.dom().contains(adds[k2].tenant));
        } else {
            if k2 < k {
                assert(events[k2].platform.tenant@ != events[k].platform.tenant@);
            } else {
                assert(events[k].platform.tenant@ != events[k2].platform.tenant@);
            }
        }
    }
}

proof fn lemma_kept_tenant_event(
    before: Map<Seq<char>, PlatformView>,
    us: Seq<User>,
    base_url: Seq<char>,
    events: Seq<SubscriptionEvent>,
    t: Seq<char>,
)
    requires
        pass_events(before, us, base_url, events),
        before.contains_key(t),
        fetched_tenants(us).contains(t),
    ensures
        no_event_for(events, t),
{
    let adds = added_platforms(before.dom(), us, base_url);
    lemma_added_event_tenants(before, us, base_url, events);
    assert forall|k: int| 0 <= k < events.len() implies (#[trigger] events[k]).platform.tenant@ != t by {
        if k >= adds.len() {
            assert(!fetched_tenants(us).contains(events[k].platform.tenant@));
        }
    }
}

/// In a reconciliation pass, each newly fetched tenant gets exactly one add
/// event, each registered tenant that is no longer fetched exactly one remove
/// event, and a tenant that is both registered and fetched gets none.
pub proof fn lemma_event_correctness(
    before: Map<Seq<char>, PlatformView>,
    us: Seq<User>,
    base_url: Seq<char>,
    events: Seq<SubscriptionEvent>,
)
    requires
        pass_events(before, us, base_url, events),
    ensures
        forall|t: Seq<char>|
            fetched_tenants(us).contains(t) && !before.contains_key(t) ==> #[trigger] only_event_for(
                events,
                t,
                EventKind::Added,
            ),
        forall|t: Seq<char>|
            before.contains_key(t) && !fetched_tenants(us).contains(t) ==> #[trigger] only_event_for(
                events,
                t,
                EventKind::Removed,
            ),
        forall|t: Seq<char>|
            before.contains_key(t) && fetched_tenants(us).contains(t) ==> #[trigger] no_event_for(events, t),
{
    assert forall|t: Seq<char>|
        fetched_tenants(us).contains(t) && !before.contains_key(t) implies #[trigger] only_event_for(
        events,
        t,
        EventKind::Added,
    ) by {
        lemma_new_tenant_event(before, us, base_url, events, t);
    }
    assert forall|t: Seq<char>|
        before.contains_key(t) && !fetched_tenants(us).contains(t) implies #[trigger] only_event_for(
        events,
        t,
        EventKind::Removed,
    ) by {
        lemma_ended_tenant_event(before, us, base_url, events, t);
    }
    assert forall|t: Seq<char>|
        before.contains_key(t) && fetched_tenants(us).contains(t) implies #[trigger] no_event_for(events, t) by {
        lemma_kept_tenant_event(before, us, base_url, events, t);
    }
}

/// A second reconciliation pass with the same subscription list leaves the
/// registry as the first left it, and emits no event.
pub proof fn lemma_reconcile_idempotent(
    before: Map<Seq<char>, PlatformView>,
    us: Seq<User>,
    base_url: Seq<char>,
    events: Seq<SubscriptionEvent>,
)
    requires
        pass_events(reconciled_map(before, us, base_url), us, base_url, events),
    ensures
        reconciled_map(reconciled_map(before, us, base_url), us, base_url) == reconciled_map(
            before,
            us,
            base_url,
        ),
        events.len() == 0,
{
    let after = reconciled_map(before, us, base_url);
    let f = fetched_tenants(us);
    lemma_convergence(before, us, base_url);
    lemma_convergence(after, us, base_url);
    lemma_apply_users_on_fetched(after, before, us, base_url);
    assert(reconciled_map(after, us, base_url) =~= after);
    let adds = added_platforms(after.dom(), us, base_url);
    lemma_added_platforms(after.dom(), us, base_url);
    if adds.len() > 0 {
        assert(f.contains(adds[0].tenant));
    }
    if events.len() > 0 {
        assert(!f.contains(events[0].platform.tenant@));
    }
}

/// Why the subscription list could not be had.
pub enum FetchError {
    /// The request did not complete.
    Transport(String),
    /// The platform answered with a status other than success.
    Status(u16),
    /// The answer was not a subscription list.
    Malformed(String),
}

/// Success only for a status of the 2xx class.
pub fn check_status(status: u16) -> (r: Result<(), FetchError>)
    ensures
        r is Ok <==> 200 <= status < 300,
        r matches Err(e) ==> e == FetchError::Status(status),
{
    if 200 <= status && status < 300 {
        Ok(())
    } else {
        Err(FetchError::Status(status))
    }
}

/// The address of the subscription list of the current application.
pub open spec fn subscriptions_url_of(base_url: Seq<char>) -> Seq<char> {
    base_url + "/application/currentApplication/subscriptions"@
}

/// The subscription service: the registry of subscribed tenants, the
/// listeners of subscription changes, the bootstrap credentials that the
/// subscription list is fetched with, and whether a fetch is under way.
pub struct MicroserviceSubscription<L> {
    pub platforms: Registry,
    pub subscription_listeners: Vec<L>,
    pub unsubscription_listeners: Vec<L>,
    pub c8y_bootstrap_tenant: String,
    pub c8y_bootstrap_user: String,
    pub c8y_bootstrap_password: String,
    pub c8y_baseurl: String,
    pub tick_in_flight: bool,
}

impl<L: Copy> MicroserviceSubscription<L> {
    pub open spec fn bootstrap_tenant(&self) -> Seq<char> {
        self.c8y_bootstrap_tenant@
    }

    pub open spec fn bootstrap_user(&self) -> Seq<char> {
        self.c8y_bootstrap_user@
    }

    pub open spec fn bootstrap_password(&self) -> Seq<char> {
        self.c8y_bootstrap_password@
    }

    pub open spec fn base_url(&self) -> Seq<char> {
        self.c8y_baseurl@
    }

    pub open spec fn in_flight(&self) -> bool {
        self.tick_in_flight
    }

    pub open spec fn wf(&self) -> bool {
        self.platforms.wf()
    }

    /// The settings of `other` that no tick changes.
    pub open spec fn same_settings(&self, other: &Self) -> bool {
        &&& self.subscription_listeners@ == other.subscription_listeners@
        &&& self.unsubscription_listeners@ == other.unsubscription_listeners@
        &&& self.bootstrap_tenant() == other.bootstrap_tenant()
        &&& self.bootstrap_user() == other.bootstrap_user()
        &&& self.bootstrap_password() == other.bootstrap_password()
        &&& self.base_url() == other.base_url()
    }

    /// A service with no tenant, no listener and no tick under way.
    pub fn new(bootstrap_tenant: String, bootstrap_user: String, bootstrap_password: String, baseurl: String) -> (r: Self)
        ensures
            r.wf(),
            r.platforms@.is_empty(),
            r.subscription_listeners@.len() == 0,
            r.unsubscription_listeners@.len() == 0,
            r.bootstrap_tenant() == bootstrap_tenant@,
            r.bootstrap_user() == bootstrap_user@,
            r.bootstrap_password() == bootstrap_password@,
            r.base_url() == baseurl@,
            !r.in_flight(),
    {
        MicroserviceSubscription {
            platforms: Registry::new(),
            subscription_listeners: Vec::new(),
            unsubscription_listeners: Vec::new(),
            c8y_bootstrap_tenant: bootstrap_tenant,
            c8y_bootstrap_user: bootstrap_user,
            c8y_bootstrap_password: bootstrap_password,
            c8y_baseurl: baseurl,
            tick_in_flight: false,
        }
    }

    /// Appends a listener of new subscriptions.
    pub fn add_subscription_listener(&mut self, f: L)
        ensures
            final(self).subscription_listeners@ == old(self).subscription_listeners@.push(f),
            final(self).unsubscription_listeners@ == old(self).unsubscription_listeners@,
            final(self).platforms@ == old(self).platforms@,
            final(self).wf() == old(self).wf(),
    {
        self.subscription_listeners.push(f);
    }

    /// Appends a listener of ended subscriptions.
    pub fn add_unsubscription_listener(&mut self, f: L)
        ensures
            final(self).unsubscription_listeners@ == old(self).unsubscription_listeners@.push(f),
            final(self).subscription_listeners@ == old(self).subscription_listeners@,
            final(self).platforms@ == old(self).platforms@,
            final(self).wf() == old(self).wf(),
    {
        self.unsubscription_listeners.push(f);
    }

    /// The deliveries of a new-subscription event: each listener of new
    /// subscriptions, in order, with its own copy of the context.
    pub fn send_new_subcription_event(&self, platform: &Platform) -> (r: Vec<(L, Platform)>)
        ensures
            r@.len() == self.subscription_listeners@.len(),
            forall|i: int|
                0 <= i < r@.len() ==> (#[trigger] r@[i]).0 == self.subscription_listeners@[i] && r@[i].1@
                    == platform@,
    {
        deliveries(&self.subscription_listeners, platform)
    }

    /// The deliveries of an ended-subscription event: each listener of ended
    /// subscriptions, in order, with its own copy of the context.
    pub fn send_new_unsubcription_event(&self, platform: &Platform) -> (r: Vec<(L, Platform)>)
        ensures
            r@.len() == self.unsubscription_listeners@.len(),
            forall|i: int|
                0 <= i < r@.len() ==> (#[trigger] r@[i]).0 == self.unsubscription_listeners@[i] && r@[i].1@
                    == platform@,
    {
        deliveries(&self.unsubscription_listeners, platform)
    }

    /// The address the subscription list is fetched from.
    pub fn subscriptions_url(&self) -> (r: String)
        ensures
            r@ == subscriptions_url_of(self.base_url()),
    {
        copy_string(&self.c8y_baseurl).concat("/application/currentApplication/subscriptions")
    }

    /// The user name the subscription list is fetched with.
    pub fn bootstrap_auth_user(&self) -> (r: String)
        ensures
            r@ == qualified_user(self.bootstrap_tenant(), self.bootstrap_user()),
    {
        proof {
            reveal_strlit("/");
        }
        copy_string(&self.c8y_bootstrap_tenant).concat("/").concat(self.c8y_bootstrap_user.as_str())
    }

    /// The password the subscription list is fetched with.
    pub fn bootstrap_auth_password(&self) -> (r: String)
        ensures
            r@ == self.bootstrap_password(),
    {
        copy_string(&self.c8y_bootstrap_password)
    }

    /// Starts a tick unless one is under way: returns whether the caller may
    /// fetch the subscription list. A tick that would overlap is skipped.
    pub fn begin_tick(&mut self) -> (r: bool)
        ensures
            r == !old(self).in_flight(),
            final(self).in_flight(),
            final(self).platforms@ == old(self).platforms@,
            final(self).wf() == old(self).wf(),
            final(self).same_settings(old(self)),
    {
        if self.tick_in_flight {
            false
        } else {
            self.tick_in_flight = true;
            true
        }
    }

    /// Ends the tick with what the fetch gave. On a failed fetch nothing
    /// changes and no event is emitted; otherwise the registry is reconciled
    /// with the fetched list and the pass's events are returned.
    pub fn finish_tick(&mut self, fetched: Result<Users, FetchError>) -> (events: Vec<SubscriptionEvent>)
        requires
            old(self).wf(),
        ensures
            final(self).wf(),
            !final(self).in_flight(),
            final(self).same_settings(old(self)),
            fetched is Err ==> final(self).platforms@ == old(self).platforms@ && events@.len() == 0,
            fetched matches Ok(list) ==> {
                &&& final(self).platforms@ == reconciled_map(old(self).platforms@, list.users@, old(self).base_url())
                &&& pass_events(old(self).platforms@, list.users@, old(self).base_url(), events@)
            },
    {
        self.tick_in_flight = false;
        match fetched {
            Ok(list) => reconcile(&mut self.platforms, &list.users, &self.c8y_baseurl),
            Err(_) => Vec::new(),
        }
    }
}

/// Each listener, in order, with its own copy of `platform`.
fn deliveries<L: Copy>(listeners: &Vec<L>, platform: &Platform) -> (r: Vec<(L, Platform)>)
    ensures
        r@.len() == listeners@.len(),
        forall|i: int| 0 <= i < r@.len() ==> (#[trigger] r@[i]).0 == listeners@[i] && r@[i].1@ == platform@,
{
    let mut r: Vec<(L, Platform)> = Vec::new();
    let mut i: usize = 0;
    while i < listeners.len()
        invariant
            0 <= i <= listeners.len(),
            r@.len() == i,
            forall|k: int| 0 <= k < i ==> (#[trigger] r@[k]).0 == listeners@[k] && r@[k].1@ == platform@,
        decreases listeners.len() - i,
    {
        let listener: L = listeners[i];
        r.push((listener, platform.duplicate()));
        i += 1;
    }
    r
}

} // verus!
