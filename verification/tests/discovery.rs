use webhook_rebind::config::{default_sources, default_table};
use webhook_rebind::discovery::{
    absorb_reply, discover, is_success, read_listing, record_tunnels, tunnel_of, tunnels_in,
    DiscoveryError, RawTunnel, SourceReply, TunnelSource,
};
use webhook_rebind::json::Json;
use webhook_rebind::ports::{PortTable, ServiceIdentity};
use webhook_rebind::services::{DiscoveredService, ServiceMap};

fn text(value: &str) -> Json {
    Json::Text(value.to_string())
}

fn object(members: Vec<(&str, Json)>) -> Json {
    Json::Object(members.into_iter().map(|(key, value)| (key.to_string(), value)).collect())
}

fn tunnel_item(public_url: &str, addr: &str) -> Json {
    object(vec![("public_url", text(public_url)), ("config", object(vec![("addr", text(addr))]))])
}

fn tunnel(public_url: &str, addr: &str) -> RawTunnel {
    RawTunnel { public_url: public_url.to_string(), local_address: addr.to_string() }
}

fn ok(body: &str) -> SourceReply {
    SourceReply::Response { status: 200, body: body.as_bytes().to_vec() }
}

fn one_tunnel_body(public_url: &str, addr: &str) -> String {
    format!(
        "{{\"tunnels\":[{{\"public_url\":\"{}\",\"config\":{{\"addr\":\"{}\"}}}}]}}",
        public_url, addr
    )
}

#[test]
fn element_with_both_fields_is_a_tunnel() {
    let item = tunnel_item("https://abc.example", "127.0.0.1:9977");
    assert_eq!(tunnel_of(&item), Some(tunnel("https://abc.example", "127.0.0.1:9977")));
}

#[test]
fn element_without_public_url_is_no_tunnel() {
    let item = object(vec![("config", object(vec![("addr", text("127.0.0.1:9977"))]))]);
    assert_eq!(tunnel_of(&item), None);
}

#[test]
fn element_without_config_or_addr_is_no_tunnel() {
    assert_eq!(tunnel_of(&object(vec![("public_url", text("https://a"))])), None);
    let no_addr = object(vec![("public_url", text("https://a")), ("config", object(vec![]))]);
    assert_eq!(tunnel_of(&no_addr), None);
    let flat = object(vec![("public_url", text("https://a")), ("addr", text("h:1"))]);
    assert_eq!(tunnel_of(&flat), None);
}

#[test]
fn element_whose_fields_are_no_texts_is_no_tunnel() {
    let number_url = object(
        vec![
            ("public_url", Json::Number("1".to_string())),
            ("config", object(vec![("addr", text("h:1"))])),
        ],
    );
    assert_eq!(tunnel_of(&number_url), None);
    let null_addr = object(
        vec![("public_url", text("https://a")), ("config", object(vec![("addr", Json::Null)]))],
    );
    assert_eq!(tunnel_of(&null_addr), None);
    assert_eq!(tunnel_of(&Json::Null), None);
    assert_eq!(tunnel_of(&Json::List(vec![])), None);
}

#[test]
fn document_lists_its_tunnels_in_order_and_passes_over_the_rest() {
    let document = object(
        vec![
            ("uri", text("/api/tunnels")),
            (
                "tunnels",
                Json::List(
                    vec![
                        tunnel_item("https://a", "h:1"),
                        object(vec![("public_url", text("https://broken"))]),
                        Json::Bool(true),
                        tunnel_item("https://b", "h:2"),
                    ],
                ),
            ),
        ],
    );
    assert_eq!(
        tunnels_in(&document),
        Some(vec![tunnel("https://a", "h:1"), tunnel("https://b", "h:2")])
    );
}

#[test]
fn document_without_tunnel_array_lists_nothing() {
    assert_eq!(tunnels_in(&object(vec![])), None);
    assert_eq!(tunnels_in(&object(vec![("tunnels", text("none"))])), None);
    assert_eq!(tunnels_in(&object(vec![("tunnels", object(vec![]))])), None);
    assert_eq!(tunnels_in(&Json::List(vec![])), None);
    assert_eq!(tunnels_in(&object(vec![("tunnels", Json::List(vec![]))])), Some(vec![]));
}

#[test]
fn body_is_read_as_json() {
    let body = one_tunnel_body("https://abc.example", "127.0.0.1:9977");
    assert_eq!(
        read_listing(body.as_bytes()),
        Ok(vec![tunnel("https://abc.example", "127.0.0.1:9977")])
    );
}

#[test]
fn body_with_escapes_and_extra_members_is_read() {
    let body = "{\"tunnels\":[{\"name\":\"x\",\"proto\":\"https\",\"metrics\":{\"n\":1.5},\
        \"public_url\":\"https:\\/\\/a.example\",\"config\":{\"inspect\":true,\
        \"addr\":\"http:\\u002f\\u002flocalhost:9988\"}}],\"uri\":\"/api/tunnels\"}";
    assert_eq!(
        read_listing(body.as_bytes()),
        Ok(vec![tunnel("https://a.example", "http://localhost:9988")])
    );
}

#[test]
fn body_that_is_no_json_is_refused() {
    assert_eq!(read_listing(b"<html>"), Err(DiscoveryError::NotJson));
    assert_eq!(read_listing(b""), Err(DiscoveryError::NotJson));
    assert_eq!(read_listing(b"{\"tunnels\":["), Err(DiscoveryError::NotJson));
    assert_eq!(read_listing(&[0xff, 0xfe]), Err(DiscoveryError::NotJson));
}

#[test]
fn body_without_tunnel_list_is_refused() {
    assert_eq!(read_listing(b"{}"), Err(DiscoveryError::NoTunnelList));
    assert_eq!(read_listing(b"[]"), Err(DiscoveryError::NoTunnelList));
    assert_eq!(read_listing(b"{\"tunnels\":null}"), Err(DiscoveryError::NoTunnelList));
    assert_eq!(read_listing(b"42"), Err(DiscoveryError::NoTunnelList));
}

#[test]
fn repeated_member_of_a_body_counts_once_with_its_last_value() {
    let body = b"{\"tunnels\":5,\"tunnels\":[]}";
    assert_eq!(read_listing(body), Ok(vec![]));
}

#[test]
fn success_is_two_hundred_to_two_ninety_nine() {
    assert!(!is_success(0));
    assert!(!is_success(199));
    assert!(is_success(200));
    assert!(is_success(204));
    assert!(is_success(299));
    assert!(!is_success(300));
    assert!(!is_success(404));
    assert!(!is_success(u16::MAX));
}

#[test]
fn tunnel_on_mapped_port_is_recorded() {
    let table = default_table();
    let mut services = ServiceMap::new();
    record_tunnels(&table, &mut services, &vec![tunnel("https://abc.example", "127.0.0.1:9977")]);
    assert_eq!(services.len(), 1);
    assert_eq!(services.get("gpt4o"), Some("https://abc.example"));
}

#[test]
fn tunnel_on_unmapped_port_is_dropped() {
    let table = default_table();
    let mut services = ServiceMap::new();
    record_tunnels(&table, &mut services, &vec![tunnel("https://abc.example", "127.0.0.1:1234")]);
    assert_eq!(services.len(), 0);
    assert_eq!(services.get("gpt4o"), None);
}

#[test]
fn service_is_found_exactly_when_its_port_is_in_the_table() {
    let table = default_table();
    for port in ["9977", "9988", "9966", "997", "99777", "9977 ", "", "4040", "gpt4o"] {
        let mut services = ServiceMap::new();
        let address = format!("127.0.0.1:{}", port);
        record_tunnels(&table, &mut services, &vec![tunnel("https://x", &address)]);
        let known = table.resolve(port);
        assert_eq!(services.len(), if known.is_some() { 1 } else { 0 });
        if let Some(name) = known {
            assert_eq!(services.get(name), Some("https://x"));
        }
    }
}

#[test]
fn later_tunnel_of_one_source_overwrites_earlier() {
    let table = default_table();
    let mut services = ServiceMap::new();
    record_tunnels(
        &table,
        &mut services,
        &vec![
            tunnel("https://first", "h:9977"),
            tunnel("https://other", "h:9988"),
            tunnel("https://second", "h:9977"),
        ],
    );
    assert_eq!(services.len(), 2);
    assert_eq!(services.get("gpt4o"), Some("https://second"));
    assert_eq!(services.get("mixtral"), Some("https://other"));
    assert_eq!(
        services.service(0),
        &DiscoveredService { name: "gpt4o".to_string(), public_url: "https://second".to_string() }
    );
    assert_eq!(services.service(1).name, "mixtral");
}

#[test]
fn reply_of_success_is_absorbed() {
    let table = default_table();
    let mut services = ServiceMap::new();
    let reply = ok(&one_tunnel_body("https://abc.example", "127.0.0.1:9977"));
    assert_eq!(absorb_reply(&table, &mut services, &reply), Ok(()));
    assert_eq!(services.get("gpt4o"), Some("https://abc.example"));
}

#[test]
fn reply_of_refusal_changes_nothing() {
    let table = default_table();
    let mut services = ServiceMap::new();
    services.insert("gpt4o".to_string(), "https://kept".to_string());
    let body = one_tunnel_body("https://abc.example", "127.0.0.1:9977").into_bytes();
    let reply = SourceReply::Response { status: 503, body };
    assert_eq!(
        absorb_reply(&table, &mut services, &reply),
        Err(DiscoveryError::Refused { status: 503 })
    );
    assert_eq!(services.len(), 1);
    assert_eq!(services.get("gpt4o"), Some("https://kept"));
}

#[test]
fn each_discovery_error_has_its_reply() {
    let table = default_table();
    let mut services = ServiceMap::new();
    let unreachable = SourceReply::Unreachable { detail: "connection refused".to_string() };
    assert_eq!(
        absorb_reply(&table, &mut services, &unreachable),
        Err(DiscoveryError::Unreachable { detail: "connection refused".to_string() })
    );
    assert_eq!(absorb_reply(&table, &mut services, &ok("nope")), Err(DiscoveryError::NotJson));
    assert_eq!(
        absorb_reply(&table, &mut services, &ok("{\"a\":1}")),
        Err(DiscoveryError::NoTunnelList)
    );
    let redirect = SourceReply::Response { status: 301, body: Vec::new() };
    assert_eq!(
        absorb_reply(&table, &mut services, &redirect),
        Err(DiscoveryError::Refused { status: 301 })
    );
    assert_eq!(services.len(), 0);
}

#[test]
fn failing_source_does_not_hinder_the_others() {
    let table = default_table();
    let good_a = ok(&one_tunnel_body("https://a", "h:9977"));
    let good_b = ok(&one_tunnel_body("https://b", "h:9988"));
    let failures = vec![
        SourceReply::Unreachable { detail: "timeout".to_string() },
        SourceReply::Response { status: 500, body: b"oops".to_vec() },
        ok("not json"),
        ok("{}"),
    ];
    for failure in failures {
        for at in 0..3 {
            let mut replies = vec![good_a.clone(), good_b.clone()];
            replies.insert(at, failure.clone());
            let services = discover(&table, &replies);
            assert_eq!(services.len(), 2);
            assert_eq!(services.get("gpt4o"), Some("https://a"));
            assert_eq!(services.get("mixtral"), Some("https://b"));
            assert_eq!(services.service(0).name, "gpt4o");
            assert_eq!(services.service(1).name, "mixtral");
        }
    }
}

#[test]
fn later_source_overwrites_earlier() {
    let table = default_table();
    let first = ok(&one_tunnel_body("https://A", "127.0.0.1:9977"));
    let second = ok(&one_tunnel_body("https://B", "127.0.0.1:9977"));
    let services = discover(&table, &vec![first.clone(), second.clone()]);
    assert_eq!(services.len(), 1);
    assert_eq!(services.get("gpt4o"), Some("https://B"));
    let services = discover(&table, &vec![second, first]);
    assert_eq!(services.len(), 1);
    assert_eq!(services.get("gpt4o"), Some("https://A"));
}

#[test]
fn no_reply_discovers_nothing() {
    let services = discover(&default_table(), &Vec::new());
    assert_eq!(services.len(), 0);
}

#[test]
fn two_ports_of_one_service_share_its_entry() {
    let table = PortTable::new(
        vec![
            ServiceIdentity { name: "bot".to_string(), port: "1".to_string() },
            ServiceIdentity { name: "bot".to_string(), port: "2".to_string() },
        ],
    ).unwrap();
    let mut services = ServiceMap::new();
    record_tunnels(&table, &mut services, &vec![tunnel("https://a", "h:1"), tunnel("https://b", "h:2")]);
    assert_eq!(services.len(), 1);
    assert_eq!(services.get("bot"), Some("https://b"));
}

#[test]
fn compiled_in_sources_are_main_then_alt() {
    assert_eq!(
        default_sources(),
        vec![
            TunnelSource {
                label: "main".to_string(),
                base_url: "http://localhost:4040/api/tunnels".to_string(),
            },
            TunnelSource {
                label: "alt".to_string(),
                base_url: "http://localhost:4041/api/tunnels".to_string(),
            },
        ]
    );
}
