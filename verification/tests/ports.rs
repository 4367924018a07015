use webhook_rebind::config::default_table;
use webhook_rebind::ports::{extract_port, DuplicatePort, PortTable, ServiceIdentity};

fn row(port: &str, name: &str) -> ServiceIdentity {
    ServiceIdentity { name: name.to_string(), port: port.to_string() }
}

#[test]
fn port_is_what_follows_the_last_colon() {
    assert_eq!(extract_port("127.0.0.1:9977"), "9977");
    assert_eq!(extract_port("http://localhost:9988"), "9988");
    assert_eq!(extract_port("[::1]:9966"), "9966");
}

#[test]
fn address_without_colon_is_its_own_port() {
    assert_eq!(extract_port("9977"), "9977");
    assert_eq!(extract_port("localhost"), "localhost");
    assert_eq!(extract_port(""), "");
}

#[test]
fn address_that_ends_in_colon_has_empty_port() {
    assert_eq!(extract_port("localhost:"), "");
    assert_eq!(extract_port(":"), "");
}

#[test]
fn port_extraction_counts_characters_not_bytes() {
    assert_eq!(extract_port("h\u{f6}st:80"), "80");
    assert_eq!(extract_port("host:\u{1f4a5}x"), "\u{1f4a5}x");
}

#[test]
fn table_resolves_by_exact_match() {
    let table = PortTable::new(vec![row("9977", "gpt4o"), row("9988", "mixtral")]).unwrap();
    assert_eq!(table.resolve("9977"), Some("gpt4o"));
    assert_eq!(table.resolve("9988"), Some("mixtral"));
    assert_eq!(table.resolve("1234"), None);
    assert_eq!(table.resolve("997"), None);
    assert_eq!(table.resolve("99770"), None);
    assert_eq!(table.resolve(" 9977"), None);
    assert_eq!(table.resolve(""), None);
}

#[test]
fn table_keeps_rows_in_order() {
    let table = PortTable::new(vec![row("1", "a"), row("2", "b")]).unwrap();
    assert_eq!(table.len(), 2);
    assert_eq!(table.row(0), &row("1", "a"));
    assert_eq!(table.row(1), &row("2", "b"));
}

#[test]
fn empty_table_resolves_nothing() {
    let table = PortTable::new(Vec::new()).unwrap();
    assert_eq!(table.len(), 0);
    assert_eq!(table.resolve("9977"), None);
}

#[test]
fn table_refuses_a_repeated_port() {
    let made = PortTable::new(vec![row("9977", "a"), row("9988", "b"), row("9977", "c")]);
    assert_eq!(made.err(), Some(DuplicatePort { first: 0, second: 2 }));
}

#[test]
fn table_names_the_earliest_clash() {
    let made = PortTable::new(
        vec![row("1", "a"), row("2", "b"), row("2", "c"), row("1", "d"), row("2", "e")],
    );
    assert_eq!(made.err(), Some(DuplicatePort { first: 1, second: 2 }));
}

#[test]
fn table_allows_one_name_on_two_ports() {
    let table = PortTable::new(vec![row("1", "a"), row("2", "a")]).unwrap();
    assert_eq!(table.resolve("1"), Some("a"));
    assert_eq!(table.resolve("2"), Some("a"));
}

#[test]
fn compiled_in_table_maps_the_three_bots() {
    let table = default_table();
    assert_eq!(table.len(), 3);
    assert_eq!(table.resolve("9977"), Some("gpt4o"));
    assert_eq!(table.resolve("9988"), Some("mixtral"));
    assert_eq!(table.resolve("9966"), Some("deepseek"));
    assert_eq!(table.resolve("4040"), None);
}
