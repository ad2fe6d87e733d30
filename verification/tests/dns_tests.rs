//! The authoritative DNS view: answer shaping, health fallback, keys and
//! dynamic updates.
use formation::dns::{
    adopt_upstream_answers, domain_key, lookup_with_fallback, reorder_by_proximity, DnsStore,
    DnsUpdate, DnsUpdateData, FormDnsRecord, LookupError, RecordType, SockAddr, UpstreamAnswer,
};
use formation::peers::IpAddress;

fn v4(a: u8, b: u8, c: u8, d: u8) -> IpAddress {
    IpAddress::V4 { a, b, c, d }
}

fn record_app_example() -> FormDnsRecord {
    FormDnsRecord {
        domain: "app.example".to_string(),
        record_type: RecordType::A,
        formnet_ip: vec![SockAddr { ip: v4(10, 0, 0, 5), port: 80 }],
        public_ip: vec![SockAddr { ip: v4(203, 0, 113, 7), port: 80 }],
        cname_target: None,
        ssl_cert: false,
        ttl: 3600,
        verification_status: None,
        verification_timestamp: None,
    }
}

fn store_with_app_example() -> DnsStore {
    let mut store = DnsStore::new();
    store.insert(b"app.example".to_vec(), record_app_example());
    store
}

#[test]
fn formnet_source_sees_overlay_first_then_public() {
    let store = store_with_app_example();
    let answer = store
        .lookup_local("app.example", RecordType::A, Some(v4(10, 0, 0, 77)), None)
        .unwrap();
    assert_eq!(answer.addresses, vec![v4(10, 0, 0, 5), v4(203, 0, 113, 7)]);
    assert_eq!(answer.ttl, 300);
}

#[test]
fn public_source_sees_only_public_addresses() {
    let store = store_with_app_example();
    let answer = store
        .lookup_local("app.example", RecordType::A, Some(v4(198, 51, 100, 9)), None)
        .unwrap();
    assert_eq!(answer.addresses, vec![v4(203, 0, 113, 7)]);
}

#[test]
fn health_filter_keeps_available_addresses_and_lowers_ttl() {
    let store = store_with_app_example();
    let healthy = vec![v4(203, 0, 113, 7)];
    let answer = store
        .lookup_local(
            "app.example",
            RecordType::A,
            Some(v4(10, 0, 0, 77)),
            Some(&healthy),
        )
        .unwrap();
    assert_eq!(answer.addresses, vec![v4(203, 0, 113, 7)]);
    assert_eq!(answer.ttl, 60);
}

#[test]
fn health_filter_never_empties_the_answer() {
    let store = store_with_app_example();
    // nothing is marked available: the unfiltered answer is served
    let healthy: Vec<IpAddress> = vec![];
    let answer = store
        .lookup_local(
            "app.example",
            RecordType::A,
            Some(v4(10, 0, 0, 77)),
            Some(&healthy),
        )
        .unwrap();
    assert_eq!(answer.addresses, vec![v4(10, 0, 0, 5), v4(203, 0, 113, 7)]);
}

#[test]
fn query_names_are_trimmed_and_lowercased() {
    let store = store_with_app_example();
    assert!(store
        .lookup_local("App.Example.", RecordType::A, Some(v4(10, 0, 0, 1)), None)
        .is_some());
    assert!(store
        .lookup_local("other.example", RecordType::A, Some(v4(10, 0, 0, 1)), None)
        .is_none());
    assert_eq!(domain_key("App.Example.."), b"app.example".to_vec());
}

#[test]
fn cname_answers_use_the_target_verbatim() {
    let mut store = DnsStore::new();
    let mut rec = record_app_example();
    rec.record_type = RecordType::Cname;
    rec.cname_target = Some("target.example".to_string());
    store.insert(b"alias.example".to_vec(), rec);
    let answer = store
        .lookup_local("alias.example", RecordType::Cname, None, None)
        .unwrap();
    assert_eq!(answer.cname_target.as_deref(), Some("target.example"));
    assert!(answer.addresses.is_empty());
}

#[test]
fn dynamic_update_with_zero_ttl_deletes() {
    let mut store = store_with_app_example();
    let changed = store.apply_update(&vec![DnsUpdate {
        domain: "app.example".to_string(),
        ttl: 0,
        data: DnsUpdateData::A(v4(1, 2, 3, 4)),
    }]);
    assert!(changed);
    assert!(store.get(b"app.example").is_none());
}

#[test]
fn deleting_an_absent_name_changes_nothing() {
    let mut store = store_with_app_example();
    let changed = store.apply_update(&vec![DnsUpdate {
        domain: "ghost.example".to_string(),
        ttl: 0,
        data: DnsUpdateData::A(v4(1, 2, 3, 4)),
    }]);
    assert!(!changed);
    assert!(store.get(b"ghost.example").is_none());
    assert!(store.get(b"app.example").is_some());
}

#[test]
fn dynamic_update_appends_into_the_right_bucket() {
    let mut store = store_with_app_example();
    // a formnet address joins the overlay bucket; the public bucket stays
    let changed = store.apply_update(&vec![DnsUpdate {
        domain: "App.Example".to_string(),
        ttl: 120,
        data: DnsUpdateData::A(v4(10, 0, 0, 9)),
    }]);
    assert!(changed);
    let rec = store.get(b"app.example").unwrap();
    assert_eq!(
        rec.formnet_ip,
        vec![
            SockAddr { ip: v4(10, 0, 0, 5), port: 80 },
            SockAddr { ip: v4(10, 0, 0, 9), port: 80 }
        ]
    );
    assert_eq!(
        rec.public_ip,
        vec![SockAddr { ip: v4(203, 0, 113, 7), port: 80 }]
    );
    assert_eq!(rec.ttl, 120);
    // a public address joins the public bucket; the overlay bucket stays
    let changed = store.apply_update(&vec![DnsUpdate {
        domain: "app.example".to_string(),
        ttl: 90,
        data: DnsUpdateData::A(v4(198, 51, 100, 2)),
    }]);
    assert!(changed);
    let rec = store.get(b"app.example").unwrap();
    assert_eq!(rec.formnet_ip.len(), 2);
    assert_eq!(rec.public_ip.len(), 2);
    assert_eq!(rec.public_ip[1], SockAddr { ip: v4(198, 51, 100, 2), port: 80 });
}

#[test]
fn dynamic_update_creates_missing_records() {
    let mut store = DnsStore::new();
    let changed = store.apply_update(&vec![DnsUpdate {
        domain: "new.example".to_string(),
        ttl: 60,
        data: DnsUpdateData::A(v4(198, 51, 100, 1)),
    }]);
    assert!(changed);
    let rec = store.get(b"new.example").unwrap();
    assert!(rec.formnet_ip.is_empty());
    assert_eq!(
        rec.public_ip,
        vec![SockAddr { ip: v4(198, 51, 100, 1), port: 80 }]
    );
    assert_eq!(rec.ttl, 3600);
}

#[test]
fn dynamic_cname_update_replaces_the_target() {
    let mut store = store_with_app_example();
    let changed = store.apply_update(&vec![DnsUpdate {
        domain: "app.example".to_string(),
        ttl: 300,
        data: DnsUpdateData::Cname("cdn.example".to_string()),
    }]);
    assert!(changed);
    let rec = store.get(b"app.example").unwrap();
    assert_eq!(rec.cname_target.as_deref(), Some("cdn.example"));
    assert_eq!(rec.record_type, RecordType::Cname);
}

#[test]
fn upstream_adoption_filters_by_type_and_reports_misses() {
    let empty: Vec<UpstreamAnswer> = vec![];
    assert!(matches!(
        adopt_upstream_answers("x.example", RecordType::A, &empty),
        Err(LookupError::NxDomain)
    ));
    let answers = vec![
        UpstreamAnswer {
            record_type: RecordType::A,
            address: Some(v4(9, 9, 9, 9)),
            cname_target: None,
        },
        UpstreamAnswer {
            record_type: RecordType::Aaaa,
            address: Some(IpAddress::V6 { hi: 1, lo: 2 }),
            cname_target: None,
        },
    ];
    let rr = adopt_upstream_answers("x.example", RecordType::A, &answers).unwrap();
    assert_eq!(rr.addresses, vec![v4(9, 9, 9, 9)]);
    assert_eq!(rr.ttl, 300);
}

#[test]
fn local_answers_win_over_upstream() {
    let local = store_with_app_example()
        .lookup_local("app.example", RecordType::A, Some(v4(10, 0, 0, 1)), None);
    let r = lookup_with_fallback(local, Err(LookupError::ServFail)).ok().unwrap();
    assert!(!r.is_empty());
    // a local miss adopts the forwarder's verdict
    assert!(matches!(
        lookup_with_fallback(None, Err(LookupError::NxDomain)),
        Err(LookupError::NxDomain)
    ));
}

#[test]
fn proximity_reorder_preserves_ports_and_falls_back() {
    let ips = vec![
        SockAddr { ip: v4(10, 0, 0, 5), port: 8080 },
        SockAddr { ip: v4(203, 0, 113, 7), port: 443 },
    ];
    // the computed order puts the public address first
    let sorted = vec![v4(203, 0, 113, 7), v4(10, 0, 0, 5)];
    let reordered = reorder_by_proximity(ips.clone(), &sorted);
    assert_eq!(
        reordered,
        vec![
            SockAddr { ip: v4(203, 0, 113, 7), port: 443 },
            SockAddr { ip: v4(10, 0, 0, 5), port: 8080 }
        ]
    );
    // an order that does not cover the answer leaves it unchanged
    let partial = vec![v4(203, 0, 113, 7)];
    assert_eq!(reorder_by_proximity(ips.clone(), &partial), ips);
}
