use pdydns::config::{AppConfig, PowerDnsConfig, RecordTarget};
use pdydns::powerdns::{prepare_record_update, record_zone_url, update_outcome, update_request, UpdateError};

fn config(api_url: &str, server_id: &str) -> AppConfig {
    AppConfig {
        powerdns: PowerDnsConfig {
            api_url: api_url.to_string(),
            api_key: "secret".to_string(),
            server_id: server_id.to_string(),
        },
        records: vec![],
        interval_seconds: 300,
        default_ttl: 120,
        public_ip_url: "https://api4.ipify.org?format=json".to_string(),
    }
}

fn record(zone: &str, name: &str, ttl: Option<u32>) -> RecordTarget {
    RecordTarget { zone: zone.to_string(), name: name.to_string(), ttl }
}

#[test]
fn zone_url_is_built_from_parts() {
    let c = config("http://127.0.0.1:8081//", "localhost");
    assert_eq!(
        record_zone_url(&c, &record("example.com", "home", None)),
        "http://127.0.0.1:8081/api/v1/servers/localhost/zones/example.com."
    );
}

#[test]
fn zone_url_encodes_server_and_zone() {
    let c = config("https://dns", "my server/1");
    assert_eq!(
        record_zone_url(&c, &record("exämple.com", "home", None)),
        "https://dns/api/v1/servers/my%20server%2F1/zones/ex%C3%A4mple.com."
    );
}

#[test]
fn update_request_replaces_a_record() {
    let c = config("http://x", "localhost");
    let req = update_request(&c, &record("example.com", "home", None), "192.0.2.1");
    assert_eq!(req.rrsets.len(), 1);
    let change = &req.rrsets[0];
    assert_eq!(change.name, "home.example.com.");
    assert_eq!(change.record_type, "A");
    assert_eq!(change.ttl, 120);
    assert_eq!(change.changetype, "REPLACE");
    assert_eq!(change.records.len(), 1);
    assert_eq!(change.records[0].content, "192.0.2.1");
    assert!(!change.records[0].disabled);
    let req = update_request(&c, &record("example.com", "www.example.org.", Some(60)), "192.0.2.1");
    assert_eq!(req.rrsets[0].ttl, 60);
    assert_eq!(req.rrsets[0].name, "www.example.org.");
}

#[test]
fn prepared_update_carries_url_key_and_body() {
    let c = config("http://pdns:8081/", "srv");
    let u = prepare_record_update(&c, &record("zone.test", "h", None), "203.0.113.9");
    assert_eq!(u.url, "http://pdns:8081/api/v1/servers/srv/zones/zone.test.");
    assert_eq!(u.api_key, "secret");
    assert_eq!(u.payload.rrsets[0].records[0].content, "203.0.113.9");
}

#[test]
fn update_outcome_by_status() {
    let r = record("example.com", "home", None);
    assert!(update_outcome(&r, 204, String::new()).is_ok());
    assert!(update_outcome(&r, 200, String::new()).is_ok());
    assert!(update_outcome(&r, 299, String::new()).is_ok());
    match update_outcome(&r, 422, "bad".to_string()) {
        Err(UpdateError::Rejected { name, status, body }) => {
            assert_eq!(name, "home.example.com.");
            assert_eq!(status, 422);
            assert_eq!(body, "bad");
        }
        Ok(()) => panic!("accepted a failed update"),
    }
    assert!(update_outcome(&r, 301, String::new()).is_err());
    assert!(update_outcome(&r, 199, String::new()).is_err());
}
