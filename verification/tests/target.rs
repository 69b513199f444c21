use webhook_relay::target::{
    authority_of, fault_of, host_header_of, location_of, target_fault, Authority, Location,
};

#[test]
fn authority_of_plain_https_url() {
    let a = authority_of("https://a.example/hook").unwrap();
    assert_eq!(a.host.as_deref(), Some("a.example"));
    assert_eq!(a.port, None);
}

#[test]
fn authority_of_url_with_port() {
    let a = authority_of("http://localhost:8080/hook").unwrap();
    assert_eq!(a.host.as_deref(), Some("localhost"));
    assert_eq!(a.port, Some(8080));
}

#[test]
fn authority_of_drops_default_port() {
    let a = authority_of("https://example.com:443/").unwrap();
    assert_eq!(a.host.as_deref(), Some("example.com"));
    assert_eq!(a.port, None);
}

#[test]
fn authority_of_lowercases_host() {
    let a = authority_of("https://Example.COM/x").unwrap();
    assert_eq!(a.host.as_deref(), Some("example.com"));
}

#[test]
fn authority_of_ipv6_host_keeps_brackets() {
    let a = authority_of("http://[::1]:9000/").unwrap();
    assert_eq!(a.host.as_deref(), Some("[::1]"));
    assert_eq!(a.port, Some(9000));
}

#[test]
fn authority_of_url_without_host() {
    let a = authority_of("mailto:someone@example.com").unwrap();
    assert_eq!(a.host, None);
    assert_eq!(a.port, None);
    let b = authority_of("data:text/plain,Stuff").unwrap();
    assert_eq!(b.host, None);
}

#[test]
fn authority_of_rejects_what_is_no_url() {
    let e = authority_of("not a url").unwrap_err();
    assert_eq!(e, "relative URL without a base");
    assert!(authority_of("").is_err());
    assert!(authority_of("/just/a/path").is_err());
}

#[test]
fn authority_of_reports_the_parsers_complaint() {
    assert_eq!(authority_of("https://").unwrap_err(), "empty host");
    assert_eq!(authority_of("https://example.com:99999/").unwrap_err(), "invalid port number");
}

#[test]
fn host_header_without_port_is_the_host() {
    let a = Authority { host: Some("a.example".to_string()), port: None };
    assert_eq!(host_header_of(&a), Some("a.example".to_string()));
}

#[test]
fn host_header_with_port_joins_with_colon() {
    let a = Authority { host: Some("localhost".to_string()), port: Some(8080) };
    assert_eq!(host_header_of(&a), Some("localhost:8080".to_string()));
    let b = Authority { host: Some("h".to_string()), port: Some(0) };
    assert_eq!(host_header_of(&b), Some("h:0".to_string()));
    let c = Authority { host: Some("h".to_string()), port: Some(65535) };
    assert_eq!(host_header_of(&c), Some("h:65535".to_string()));
}

#[test]
fn host_header_without_host_is_none() {
    let a = Authority { host: None, port: Some(80) };
    assert_eq!(host_header_of(&a), None);
    let b = Authority { host: None, port: None };
    assert_eq!(host_header_of(&b), None);
}

fn location(scheme: &str, host: Option<&str>, port: Option<u16>) -> Location {
    Location {
        scheme: scheme.to_string(),
        authority: Authority { host: host.map(|h| h.to_string()), port },
    }
}

#[test]
fn location_of_reads_scheme_host_and_port() {
    let l = location_of("http://localhost:8080/hook").unwrap();
    assert_eq!(l.scheme, "http");
    assert_eq!(l.authority.host.as_deref(), Some("localhost"));
    assert_eq!(l.authority.port, Some(8080));
    let l = location_of("mailto:someone@example.com").unwrap();
    assert_eq!(l.scheme, "mailto");
    assert_eq!(l.authority.host, None);
    assert_eq!(l.authority.port, None);
}

#[test]
fn location_of_gives_the_scheme_in_lower_case() {
    let l = location_of("HTTPS://A.Example/Hook").unwrap();
    assert_eq!(l.scheme, "https");
    assert_eq!(l.authority.host.as_deref(), Some("a.example"));
}

#[test]
fn location_of_rejects_what_is_no_url() {
    assert_eq!(location_of("not a url").unwrap_err(), "relative URL without a base");
}

#[test]
fn fault_of_accepts_http_and_https_with_a_host() {
    assert_eq!(fault_of(&location("http", Some("a.example"), None)), None);
    assert_eq!(fault_of(&location("https", Some("a.example"), Some(8443))), None);
}

#[test]
fn fault_of_refuses_other_schemes() {
    let text = Some("URL scheme must be http or https".to_string());
    assert_eq!(fault_of(&location("ftp", Some("a.example"), None)), text);
    assert_eq!(fault_of(&location("mailto", None, None)), text);
    assert_eq!(fault_of(&location("", Some("a.example"), None)), text);
    assert_eq!(fault_of(&location("httpx", Some("a.example"), None)), text);
    assert_eq!(fault_of(&location("HTTP", Some("a.example"), None)), text);
}

#[test]
fn fault_of_refuses_a_missing_host() {
    let text = Some("URL has no host".to_string());
    assert_eq!(fault_of(&location("http", None, None)), text);
    assert_eq!(fault_of(&location("https", None, Some(443))), text);
}

#[test]
fn target_fault_is_none_for_http_urls_with_a_host() {
    assert_eq!(target_fault("https://a.example/hook"), None);
    assert_eq!(target_fault("http://localhost:8080/hook"), None);
    assert_eq!(target_fault("HTTP://[::1]/"), None);
}

#[test]
fn target_fault_says_what_is_wrong() {
    assert_eq!(target_fault("not a url"), Some("relative URL without a base".to_string()));
    assert_eq!(target_fault("https://"), Some("empty host".to_string()));
    assert_eq!(
        target_fault("mailto:a@example.com"),
        Some("URL scheme must be http or https".to_string())
    );
    assert_eq!(
        target_fault("ftp://files.example/x"),
        Some("URL scheme must be http or https".to_string())
    );
    assert_eq!(
        target_fault("data:text/plain,Stuff"),
        Some("URL scheme must be http or https".to_string())
    );
}
