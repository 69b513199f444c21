use webhook_relay::endpoint::{copy_endpoints, Endpoint};

#[test]
fn new_endpoint_holds_its_parts() {
    let e = Endpoint::new("id-1", "https://a.example/hook", "A", true);
    assert_eq!(e.id, "id-1");
    assert_eq!(e.url, "https://a.example/hook");
    assert_eq!(e.name, "A");
    assert!(e.is_active);
}

#[test]
fn endpoints_are_equal_when_all_parts_are() {
    let e = Endpoint::new("i", "u", "n", true);
    assert_eq!(e, Endpoint::new("i", "u", "n", true));
    assert_ne!(e, Endpoint::new("j", "u", "n", true));
    assert_ne!(e, Endpoint::new("i", "v", "n", true));
    assert_ne!(e, Endpoint::new("i", "u", "m", true));
    assert_ne!(e, Endpoint::new("i", "u", "n", false));
}

#[test]
fn cloned_endpoint_is_equal() {
    let e = Endpoint::new("i", "u", "n", false);
    assert_eq!(e.clone(), e);
}

#[test]
fn copy_endpoints_keeps_order_and_content() {
    let list = vec![Endpoint::new("1", "u1", "n1", true), Endpoint::new("2", "u2", "n2", false)];
    assert_eq!(copy_endpoints(&list), list);
    assert!(copy_endpoints(&Vec::new()).is_empty());
}
