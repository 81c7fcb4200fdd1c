use c8y_ms_sdk::inventory::Inventory;
use c8y_ms_sdk::platform::{
    basic_auth_header, find_char, get_current_platform, resolve_decoded, str_equal, HeaderProcessingError,
    Platform, ResolutionError,
};
use c8y_ms_sdk::registry::Registry;

const BASE: &str = "https://platform.example.com";

fn registry_with(tenants: &[&str]) -> Registry {
    let mut registry = Registry::new();
    for t in tenants {
        registry.insert_or_replace(Platform::new(
            &t.to_string(),
            &format!("user-{}", t),
            &"pw".to_string(),
            &BASE.to_string(),
        ));
    }
    registry
}

fn kind(r: Result<Platform, HeaderProcessingError>) -> ResolutionError {
    match r {
        Ok(p) => panic!("resolved to {}", p.tenant),
        Err(e) => e.kind,
    }
}

#[test]
fn basic_header_round_trip() {
    let mut registry = registry_with(&["acme", "other"]);
    let header = basic_auth_header("acme/alice", "secret");
    assert_eq!(header, "Basic YWNtZS9hbGljZTpzZWNyZXQ=");
    let p = get_current_platform(Some(header.as_str()), &registry).ok().unwrap();
    assert_eq!(p.tenant, "acme");
    assert_eq!(p.username, "user-acme");
    registry.remove("acme");
    let e = get_current_platform(Some(header.as_str()), &registry).err().unwrap();
    assert_eq!(e.kind, ResolutionError::UnknownTenant);
    assert_eq!(e.message, "No subscription for tenant acme");
}

#[test]
fn header_encoding_is_standard_base64() {
    assert_eq!(basic_auth_header("t1/u", "p"), "Basic dDEvdTpw");
}

#[test]
fn malformed_headers() {
    let registry = registry_with(&["acme"]);
    let e = get_current_platform(None, &registry).err().unwrap();
    assert_eq!(e.kind, ResolutionError::MissingHeader);
    assert_eq!(e.message, "Authorization header is missing");
    assert_eq!(kind(get_current_platform(Some("Bearer xyz"), &registry)), ResolutionError::UnsupportedScheme);
    assert_eq!(kind(get_current_platform(Some(""), &registry)), ResolutionError::UnsupportedScheme);
    assert_eq!(kind(get_current_platform(Some("basic dDEvdTpw"), &registry)), ResolutionError::UnsupportedScheme);
    let e = get_current_platform(Some("Basic !!!not-base64"), &registry).err().unwrap();
    assert_eq!(e.kind, ResolutionError::BadEncoding);
    assert!(e.detailed_message.is_some());
    assert_eq!(kind(get_current_platform(Some("Basic"), &registry)), ResolutionError::BadEncoding);
    assert_eq!(kind(get_current_platform(Some("Basic /w=="), &registry)), ResolutionError::BadEncoding);
    let e = get_current_platform(Some("Basic bm9jcmVkcw=="), &registry).err().unwrap();
    assert_eq!(e.kind, ResolutionError::MissingTenantPrefix);
    assert_eq!(e.message, "Missing tenant prefix in credentials");
    assert_eq!(kind(get_current_platform(Some("Basic dDEvdTpw"), &registry)), ResolutionError::UnknownTenant);
}

#[test]
fn decoded_credentials() {
    let registry = registry_with(&["acme"]);
    let p = resolve_decoded(b"acme/x:y".to_vec(), &registry).ok().unwrap();
    assert_eq!(p.tenant, "acme");
    let p = resolve_decoded(b"acme/".to_vec(), &registry).ok().unwrap();
    assert_eq!(p.tenant, "acme");
    assert_eq!(kind(resolve_decoded(b"acme".to_vec(), &registry)), ResolutionError::MissingTenantPrefix);
    assert_eq!(kind(resolve_decoded(b"/acme".to_vec(), &registry)), ResolutionError::UnknownTenant);
    assert_eq!(kind(resolve_decoded(vec![0xff, 0x2f], &registry)), ResolutionError::BadEncoding);
}

#[test]
fn error_body_format() {
    let e = get_current_platform(None, &registry_with(&[])).err().unwrap();
    assert_eq!(e.error_body(), "{\"message\": \"Authorization header is missing\", \"detailedMessage\": \"\"}");
    let e = HeaderProcessingError {
        kind: ResolutionError::BadEncoding,
        message: "m".to_string(),
        detailed_message: Some("d".to_string()),
    };
    assert_eq!(e.error_body(), "{\"message\": \"m\", \"detailedMessage\": \"d\"}");
}

#[test]
fn text_helpers() {
    assert_eq!(find_char("ab/c/d", '/'), Some(2));
    assert_eq!(find_char("abc", '/'), None);
    assert_eq!(find_char("", ' '), None);
    assert!(str_equal("Basic", "Basic"));
    assert!(!str_equal("Basic", "Basi"));
    assert!(!str_equal("Basic", "basic"));
}

#[test]
fn inventory_addresses() {
    let inv = Inventory::new(
        &BASE.to_string(),
        &"t1".to_string(),
        &"alice".to_string(),
        &"pw".to_string(),
    );
    assert_eq!(inv.auth_user(), "t1/alice");
    assert_eq!(inv.managed_objects_url(), "https://platform.example.com/inventory/managedObjects");
    assert_eq!(inv.managed_object_url("42"), "https://platform.example.com/inventory/managedObjects/42");
    let copy = inv.duplicate();
    assert_eq!(copy.password, "pw");
}
