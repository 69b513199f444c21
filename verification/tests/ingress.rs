use webhook_relay::dispatch::{dispatch, DispatchPlan};
use webhook_relay::endpoint::Endpoint;
use webhook_relay::ingress::{
    handle_specific_webhook, receive_webhook, static_destination, static_endpoint, Acknowledgement,
};
use webhook_relay::registry::{NotFound, Registry};

fn payload() -> serde_json::Value {
    serde_json::from_str("{\"x\":1}").unwrap()
}

fn raw(name: &str, value: Option<&str>) -> (String, Option<String>) {
    (name.to_string(), value.map(|v| v.to_string()))
}

fn pair(name: &str, value: &str) -> (String, String) {
    (name.to_string(), value.to_string())
}

#[test]
fn acknowledgement_words() {
    assert_eq!(Acknowledgement::Accepted.status(), "accepted");
    assert_eq!(Acknowledgement::Accepted.message(), "Webhook received and processing started");
    assert_eq!(Acknowledgement::NoActiveEndpoints.status(), "no_active_endpoints");
    assert_eq!(Acknowledgement::NoActiveEndpoints.message(), "No active endpoints configured");
}

#[test]
fn static_destination_knows_four_services() {
    assert_eq!(
        static_destination("fincra"),
        Some("https://staging.webhook.api.mavapay.co/webhook/fincra")
    );
    assert_eq!(
        static_destination("splice"),
        Some("https://staging.webhook.api.mavapay.co/webhook/splice")
    );
    assert_eq!(
        static_destination("useorange"),
        Some("https://staging.webhook.api.mavapay.co/webhook/useorange")
    );
    assert_eq!(
        static_destination("galoy"),
        Some("https://staging.webhook.api.mavapay.co/webhook/galoy")
    );
}

#[test]
fn static_destination_knows_no_other_service() {
    assert_eq!(static_destination(""), None);
    assert_eq!(static_destination("Fincra"), None);
    assert_eq!(static_destination("fincra "), None);
    assert_eq!(static_destination("stripe"), None);
}

#[test]
fn static_endpoint_is_named_after_its_service() {
    assert_eq!(
        static_endpoint("galoy"),
        Some(Endpoint::new(
            "galoy",
            "https://staging.webhook.api.mavapay.co/webhook/galoy",
            "Static galoy endpoint",
            true
        ))
    );
    assert_eq!(static_endpoint("unknown"), None);
}

#[test]
fn receive_with_empty_registry_reports_no_active_endpoints() {
    let r = receive_webhook(payload(), &vec![raw("a", Some("b"))], &Registry::new());
    assert_eq!(r.acknowledgement, Acknowledgement::NoActiveEndpoints);
    assert!(r.job.is_none());
}

#[test]
fn receive_with_only_inactive_endpoints_reports_no_active_endpoints() {
    let registry = Registry::from_endpoints(vec![
        Endpoint::new("1", "https://a.example/", "A", false),
        Endpoint::new("2", "https://b.example/", "B", false),
    ])
    .unwrap();
    let r = receive_webhook(payload(), &Vec::new(), &registry);
    assert_eq!(r.acknowledgement, Acknowledgement::NoActiveEndpoints);
    assert!(r.job.is_none());
}

#[test]
fn receive_hands_the_event_to_the_active_endpoints() {
    let registry = Registry::from_endpoints(vec![
        Endpoint::new("1", "https://a.example/", "A", true),
        Endpoint::new("2", "https://b.example/", "B", false),
        Endpoint::new("3", "https://c.example/", "C", true),
    ])
    .unwrap();
    let r = receive_webhook(
        payload(),
        &vec![raw("host", Some("relay.example")), raw("x-bin", None), raw("x-id", Some("7"))],
        &registry,
    );
    assert_eq!(r.acknowledgement, Acknowledgement::Accepted);
    let job = r.job.unwrap();
    assert_eq!(job.event.payload, payload());
    assert_eq!(job.event.headers.to_pairs(), vec![pair("host", "relay.example"), pair("x-id", "7")]);
    assert_eq!(
        job.targets,
        vec![
            Endpoint::new("1", "https://a.example/", "A", true),
            Endpoint::new("3", "https://c.example/", "C", true),
        ]
    );
}

#[test]
fn registered_endpoint_receives_the_posted_body() {
    let mut registry = Registry::new();
    let list = registry.register_endpoint("https://a.example/hook", "A", true).unwrap();
    assert_eq!(list.len(), 1);
    assert!(!list[0].id.is_empty());

    let r = receive_webhook(payload(), &vec![raw("host", Some("relay.example"))], &registry);
    assert_eq!(r.acknowledgement.status(), "accepted");
    let job = r.job.unwrap();
    let deliveries = match dispatch(&job.event, &job.targets) {
        DispatchPlan::Deliveries(d) => d,
        DispatchPlan::NoActiveTargets => panic!("deliveries expected"),
    };
    assert_eq!(deliveries.len(), 1);
    assert_eq!(deliveries[0].target, "A");
    let req = deliveries[0].request.as_ref().unwrap();
    assert_eq!(req.url, "https://a.example/hook");
    assert_eq!(req.body, payload());
    assert_eq!(serde_json::to_string(&req.body).unwrap(), "{\"x\":1}");
    assert_eq!(req.headers, vec![pair("Host", "a.example")]);
}

#[test]
fn specific_webhook_for_unknown_service_is_not_found() {
    assert!(matches!(handle_specific_webhook("stripe", payload(), &Vec::new()), Err(NotFound)));
    assert!(matches!(handle_specific_webhook("", payload(), &Vec::new()), Err(NotFound)));
}

#[test]
fn specific_webhook_goes_to_the_one_target_of_its_service() {
    let r = handle_specific_webhook("splice", payload(), &vec![raw("x-id", Some("9"))]).unwrap();
    assert_eq!(r.acknowledgement, Acknowledgement::Accepted);
    let job = r.job.unwrap();
    assert_eq!(job.event.payload, payload());
    assert_eq!(job.event.headers.to_pairs(), vec![pair("x-id", "9")]);
    assert_eq!(
        job.targets,
        vec![Endpoint::new(
            "splice",
            "https://staging.webhook.api.mavapay.co/webhook/splice",
            "Static splice endpoint",
            true
        )]
    );
    let deliveries = match dispatch(&job.event, &job.targets) {
        DispatchPlan::Deliveries(d) => d,
        DispatchPlan::NoActiveTargets => panic!("deliveries expected"),
    };
    let req = deliveries[0].request.as_ref().unwrap();
    assert_eq!(
        req.headers,
        vec![pair("Host", "staging.webhook.api.mavapay.co"), pair("x-id", "9")]
    );
}
