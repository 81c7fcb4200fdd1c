use c8y_ms_sdk::microservice_subscription::{
    check_status, reconcile, EventKind, FetchError, MicroserviceSubscription, SubscriptionEvent, User, Users,
};
use c8y_ms_sdk::platform::Platform;
use c8y_ms_sdk::registry::Registry;

const BASE: &str = "https://platform.example.com";

fn user(tenant: &str, name: &str, password: &str) -> User {
    User::new(name.to_string(), password.to_string(), tenant.to_string())
}

fn platform(tenant: &str, name: &str, password: &str) -> Platform {
    Platform::new(&tenant.to_string(), &name.to_string(), &password.to_string(), &BASE.to_string())
}

fn sorted_keys(registry: &Registry) -> Vec<String> {
    let mut keys = registry.snapshot();
    keys.sort();
    keys
}

fn summary(events: &[SubscriptionEvent]) -> Vec<(EventKind, String)> {
    events.iter().map(|e| (e.kind, e.platform.tenant.clone())).collect()
}

fn service() -> MicroserviceSubscription<u32> {
    MicroserviceSubscription::new(
        "management".to_string(),
        "servicebootstrap_app".to_string(),
        "SECRET-REDACTED".to_string(),
        BASE.to_string(),
    )
}

#[test]
fn first_pass_adds_every_tenant_in_list_order() {
    let mut registry = Registry::new();
    let users = vec![user("t2", "u2", "pass2"), user("t1", "u1", "pass1")];
    let events = reconcile(&mut registry, &users, &BASE.to_string());
    assert_eq!(sorted_keys(&registry), vec!["t1".to_string(), "t2".to_string()]);
    assert_eq!(
        summary(&events),
        vec![(EventKind::Added, "t2".to_string()), (EventKind::Added, "t1".to_string())]
    );
    let p = registry.get("t1").unwrap();
    assert_eq!(p.username, "u1");
    assert_eq!(p.password, "pass1");
    assert_eq!(p.base_url, BASE);
    assert_eq!(p.inventory_api.tenant, "t1");
    assert_eq!(p.inventory_api.username, "u1");
    assert_eq!(p.inventory_api.password, "pass1");
    assert_eq!(p.inventory_api.base_url, BASE);
}

#[test]
fn pass_converges_to_fetched_set_and_reports_transitions() {
    let mut registry = Registry::new();
    registry.insert_or_replace(platform("a", "ua", "pa"));
    registry.insert_or_replace(platform("b", "ub", "old"));
    let users = vec![user("b", "ub", "new"), user("c", "uc", "pc")];
    let events = reconcile(&mut registry, &users, &BASE.to_string());
    assert_eq!(sorted_keys(&registry), vec!["b".to_string(), "c".to_string()]);
    assert_eq!(
        summary(&events),
        vec![(EventKind::Added, "c".to_string()), (EventKind::Removed, "a".to_string())]
    );
    assert_eq!(events[1].platform.password, "pa");
    assert_eq!(registry.get("b").unwrap().password, "new");
}

#[test]
fn empty_list_removes_everything() {
    let mut registry = Registry::new();
    registry.insert_or_replace(platform("a", "ua", "pa"));
    registry.insert_or_replace(platform("b", "ub", "pb"));
    let events = reconcile(&mut registry, &Vec::new(), &BASE.to_string());
    assert!(registry.snapshot().is_empty());
    let mut removed: Vec<String> = events
        .iter()
        .map(|e| {
            assert_eq!(e.kind, EventKind::Removed);
            e.platform.tenant.clone()
        })
        .collect();
    removed.sort();
    assert_eq!(removed, vec!["a".to_string(), "b".to_string()]);
}

#[test]
fn second_pass_with_same_list_is_silent() {
    let mut registry = Registry::new();
    registry.insert_or_replace(platform("x", "ux", "px"));
    let users = vec![user("t1", "u1", "pass1"), user("t2", "u2", "pass2")];
    let first = reconcile(&mut registry, &users, &BASE.to_string());
    assert_eq!(first.len(), 3);
    let keys = sorted_keys(&registry);
    let second = reconcile(&mut registry, &users, &BASE.to_string());
    assert!(second.is_empty());
    assert_eq!(sorted_keys(&registry), keys);
    assert_eq!(registry.get("t2").unwrap().password, "pass2");
}

#[test]
fn repeated_tenant_is_added_once_and_last_record_wins() {
    let mut registry = Registry::new();
    let users = vec![user("t", "first", "pass1"), user("t", "second", "pass2")];
    let events = reconcile(&mut registry, &users, &BASE.to_string());
    assert_eq!(summary(&events), vec![(EventKind::Added, "t".to_string())]);
    assert_eq!(events[0].platform.username, "first");
    assert_eq!(registry.get("t").unwrap().username, "second");
}

#[test]
fn failed_fetch_changes_nothing() {
    let mut svc = service();
    assert!(svc.begin_tick());
    let events = svc.finish_tick(Ok(Users { users: vec![user("t1", "u1", "pass1")] }));
    assert_eq!(events.len(), 1);
    let before = sorted_keys(&svc.platforms);
    assert!(svc.begin_tick());
    let events = svc.finish_tick(Err(FetchError::Status(500)));
    assert!(events.is_empty());
    assert_eq!(sorted_keys(&svc.platforms), before);
    assert_eq!(svc.platforms.get("t1").unwrap().password, "pass1");
    assert!(svc.begin_tick());
    let events = svc.finish_tick(Err(FetchError::Malformed("expected value".to_string())));
    assert!(events.is_empty());
    assert_eq!(sorted_keys(&svc.platforms), before);
}

#[test]
fn overlapping_tick_is_skipped() {
    let mut svc = service();
    assert!(svc.begin_tick());
    assert!(!svc.begin_tick());
    svc.finish_tick(Err(FetchError::Transport("connection refused".to_string())));
    assert!(svc.begin_tick());
}

#[test]
fn status_classes() {
    assert!(check_status(200).is_ok());
    assert!(check_status(204).is_ok());
    assert!(check_status(299).is_ok());
    assert!(matches!(check_status(300), Err(FetchError::Status(300))));
    assert!(matches!(check_status(500), Err(FetchError::Status(500))));
    assert!(matches!(check_status(199), Err(FetchError::Status(199))));
}

#[test]
fn listeners_receive_their_own_copies_in_order() {
    let mut svc = service();
    svc.add_subscription_listener(1);
    svc.add_subscription_listener(2);
    svc.add_unsubscription_listener(7);
    let p = platform("t", "u", "p");
    let adds = svc.send_new_subcription_event(&p);
    assert_eq!(adds.iter().map(|d| d.0).collect::<Vec<u32>>(), vec![1, 2]);
    assert!(adds.iter().all(|d| d.1.tenant == "t" && d.1.username == "u"));
    let removes = svc.send_new_unsubcription_event(&p);
    assert_eq!(removes.len(), 1);
    assert_eq!(removes[0].0, 7);
    assert_eq!(removes[0].1.password, "p");
}

#[test]
fn bootstrap_request_values() {
    let svc = service();
    assert_eq!(
        svc.subscriptions_url(),
        "https://platform.example.com/application/currentApplication/subscriptions"
    );
    assert_eq!(svc.bootstrap_auth_user(), "management/servicebootstrap_app");
    assert_eq!(svc.bootstrap_auth_password(), "SECRET-REDACTED");
}

#[test]
fn registry_operations() {
    let mut registry = Registry::new();
    assert!(registry.get("t").is_none());
    assert!(registry.insert_or_replace(platform("t", "u", "pass1")).is_none());
    let previous = registry.insert_or_replace(platform("t", "u", "pass2")).unwrap();
    assert_eq!(previous.password, "pass1");
    assert_eq!(registry.get("t").unwrap().password, "pass2");
    assert_eq!(registry.snapshot(), vec!["t".to_string()]);
    assert_eq!(registry.remove("t").unwrap().password, "pass2");
    assert!(registry.remove("t").is_none());
    assert!(registry.snapshot().is_empty());
}
