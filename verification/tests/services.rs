use webhook_rebind::services::{DiscoveredService, ServiceMap};

fn entry(name: &str, public_url: &str) -> DiscoveredService {
    DiscoveredService { name: name.to_string(), public_url: public_url.to_string() }
}

#[test]
fn new_map_is_empty() {
    let services = ServiceMap::new();
    assert_eq!(services.len(), 0);
    assert_eq!(services.get("gpt4o"), None);
}

#[test]
fn new_names_go_to_the_end() {
    let mut services = ServiceMap::new();
    services.insert("b".to_string(), "https://b".to_string());
    services.insert("a".to_string(), "https://a".to_string());
    services.insert("c".to_string(), "https://c".to_string());
    assert_eq!(services.len(), 3);
    assert_eq!(services.service(0), &entry("b", "https://b"));
    assert_eq!(services.service(1), &entry("a", "https://a"));
    assert_eq!(services.service(2), &entry("c", "https://c"));
}

#[test]
fn known_name_is_rebound_in_place() {
    let mut services = ServiceMap::new();
    services.insert("b".to_string(), "https://b".to_string());
    services.insert("a".to_string(), "https://a".to_string());
    services.insert("b".to_string(), "https://b2".to_string());
    assert_eq!(services.len(), 2);
    assert_eq!(services.service(0), &entry("b", "https://b2"));
    assert_eq!(services.service(1), &entry("a", "https://a"));
    assert_eq!(services.get("b"), Some("https://b2"));
    assert_eq!(services.get("a"), Some("https://a"));
    assert_eq!(services.get("c"), None);
}

#[test]
fn names_are_told_apart_to_the_character() {
    let mut services = ServiceMap::new();
    services.insert("bot".to_string(), "1".to_string());
    services.insert("Bot".to_string(), "2".to_string());
    services.insert("bot ".to_string(), "3".to_string());
    services.insert("".to_string(), "4".to_string());
    assert_eq!(services.len(), 4);
    assert_eq!(services.get("bot"), Some("1"));
    assert_eq!(services.get("Bot"), Some("2"));
    assert_eq!(services.get("bot "), Some("3"));
    assert_eq!(services.get(""), Some("4"));
}
