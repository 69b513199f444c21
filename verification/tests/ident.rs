use webhook_relay::endpoint::Endpoint;
use webhook_relay::ident::{is_taken, settle_id};

fn with_ids(ids: &[&str]) -> Vec<Endpoint> {
    ids.iter().map(|id| Endpoint::new(id, "https://a.example/", "n", true)).collect()
}

#[test]
fn is_taken_finds_an_identifier() {
    let taken = with_ids(&["a", "b"]);
    assert!(is_taken(&"a".to_string(), &taken));
    assert!(is_taken(&"b".to_string(), &taken));
    assert!(!is_taken(&"c".to_string(), &taken));
    assert!(!is_taken(&"a".to_string(), &Vec::new()));
}

#[test]
fn settle_id_keeps_a_free_candidate() {
    let taken = with_ids(&["a", "b"]);
    assert_eq!(settle_id("c".to_string(), &taken), "c");
    assert_eq!(settle_id("c".to_string(), &Vec::new()), "c");
}

#[test]
fn settle_id_lengthens_a_taken_candidate() {
    let taken = with_ids(&["a", "b"]);
    assert_eq!(settle_id("a".to_string(), &taken), "a-");
}

#[test]
fn settle_id_lengthens_until_free() {
    let taken = with_ids(&["a", "a-", "a--", "b"]);
    assert_eq!(settle_id("a".to_string(), &taken), "a---");
    assert_eq!(settle_id("a-".to_string(), &taken), "a---");
    assert_eq!(settle_id("b".to_string(), &taken), "b-");
}
