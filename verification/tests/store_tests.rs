//! The client peer store: pinning, disabling, and the name rule.
use formation::peers::{
    Contents, DataStore, DatabasePeer, Endpoint, IpAddress, Peer, PeerContents, Cidr,
    CidrContents, CidrBlock, ServerError, StoreError,
};

fn base_peer() -> Peer<i64> {
    Peer {
        id: 0,
        contents: PeerContents {
            name: "blah".to_string(),
            ip: IpAddress::V4 { a: 10, b: 0, c: 0, d: 1 },
            cidr_id: 1,
            public_key: "abc".to_string(),
            endpoint: None,
            is_admin: false,
            is_disabled: false,
            is_redeemed: true,
            persistent_keepalive_interval: None,
            invite_expires: None,
            candidates: vec![],
        },
    }
}

fn base_cidr() -> Cidr<i64> {
    Cidr {
        id: 1,
        contents: CidrContents {
            name: "cidr".to_string(),
            cidr: CidrBlock { net: IpAddress::V4 { a: 10, b: 0, c: 0, d: 0 }, prefix_len: 24 },
            parent: None,
        },
    }
}

fn setup_basic_store() -> DataStore<i64> {
    let mut store: DataStore<i64> = DataStore::new_empty();
    assert_eq!(0, store.peers().len());
    assert_eq!(0, store.cidrs().len());
    store.update_peers(&vec![base_peer()]).unwrap();
    store.set_cidrs(vec![base_cidr()]);
    store
}

fn assert_peer_eq(a: &Peer<i64>, b: &Peer<i64>) {
    assert_eq!(a.id, b.id);
    assert_eq!(a.contents.name, b.contents.name);
    assert_eq!(a.contents.ip, b.contents.ip);
    assert_eq!(a.contents.cidr_id, b.contents.cidr_id);
    assert_eq!(a.contents.public_key, b.contents.public_key);
    assert_eq!(a.contents.is_admin, b.contents.is_admin);
    assert_eq!(a.contents.is_disabled, b.contents.is_disabled);
    assert_eq!(a.contents.is_redeemed, b.contents.is_redeemed);
    assert_eq!(a.contents.invite_expires, b.contents.invite_expires);
}

#[test]
fn test_sanity() {
    let store = setup_basic_store();
    assert_eq!(store.peers().len(), 1);
    assert_peer_eq(&store.peers()[0], &base_peer());
    assert_eq!(store.cidrs().len(), 1);
    assert_eq!(store.cidrs()[0].id, 1);
    assert_eq!(store.cidrs()[0].contents.name, "cidr");
}

#[test]
fn test_pinning() {
    let mut store = setup_basic_store();

    // Should work, since peer is unmodified.
    store.update_peers(&vec![base_peer()]).unwrap();

    let mut modified = base_peer();
    modified.contents.public_key = "foo".to_string();

    // Should NOT work: same IP, different public key.
    assert!(store.update_peers(&vec![modified]).is_err());
}

#[test]
fn test_peer_persistence() {
    let mut store = setup_basic_store();

    // An empty server list disables the stored peer, never deletes it.
    store.update_peers(&vec![]).unwrap();
    let mut expected = base_peer();
    expected.contents.is_disabled = true;
    assert_eq!(store.peers().len(), 1);
    assert_peer_eq(&store.peers()[0], &expected);
}

#[test]
fn pinning_violation_leaves_store_unchanged() {
    let mut store = setup_basic_store();
    let mut modified = base_peer();
    modified.contents.public_key = "foo".to_string();
    let r = store.update_peers(&vec![modified]);
    assert!(matches!(r, Err(StoreError::PinningViolation)));
    // the stored binding is intact
    assert_eq!(store.peers().len(), 1);
    assert_eq!(store.peers()[0].contents.public_key, "abc");
    assert_eq!(
        store.peers()[0].contents.ip,
        IpAddress::V4 { a: 10, b: 0, c: 0, d: 1 }
    );
}

#[test]
fn update_appends_new_ips() {
    let mut store = setup_basic_store();
    let mut second = base_peer();
    second.id = 1;
    second.contents.name = "second".to_string();
    second.contents.ip = IpAddress::V4 { a: 10, b: 0, c: 0, d: 2 };
    second.contents.public_key = "def".to_string();
    store.update_peers(&vec![base_peer(), second]).unwrap();
    assert_eq!(store.peers().len(), 2);
    assert_eq!(store.peers()[1].contents.public_key, "def");
}

#[test]
fn peer_names_follow_hostname_rule() {
    // uppercase is rejected, lowercase accepted, 64 bytes too long
    assert!(!DatabasePeer::is_valid_name("A-1"));
    assert!(DatabasePeer::is_valid_name("a-1"));
    let too_long: String = std::iter::repeat('a').take(64).collect();
    assert_eq!(too_long.len(), 64);
    assert!(!DatabasePeer::is_valid_name(&too_long));
    let just_fits: String = std::iter::repeat('a').take(63).collect();
    assert!(DatabasePeer::is_valid_name(&just_fits));
    assert!(!DatabasePeer::is_valid_name(""));
    assert!(!DatabasePeer::is_valid_name("-a"));
    assert!(!DatabasePeer::is_valid_name("a-"));
    assert!(!DatabasePeer::is_valid_name("a--b"));
    assert!(DatabasePeer::is_valid_name("node-7"));
}

#[test]
fn cidr_containment_and_assignability() {
    let block = CidrBlock { net: IpAddress::V4 { a: 10, b: 0, c: 0, d: 0 }, prefix_len: 24 };
    assert!(block.contains(&IpAddress::V4 { a: 10, b: 0, c: 0, d: 1 }));
    assert!(!block.contains(&IpAddress::V4 { a: 10, b: 0, c: 1, d: 1 }));
    // network and broadcast addresses cannot be assigned
    assert!(!block.is_assignable(&IpAddress::V4 { a: 10, b: 0, c: 0, d: 0 }));
    assert!(!block.is_assignable(&IpAddress::V4 { a: 10, b: 0, c: 0, d: 255 }));
    assert!(block.is_assignable(&IpAddress::V4 { a: 10, b: 0, c: 0, d: 7 }));
}

#[test]
fn validate_create_enforces_all_rules() {
    let block = CidrBlock { net: IpAddress::V4 { a: 10, b: 0, c: 0, d: 0 }, prefix_len: 24 };
    let mut contents = PeerContents {
        name: "good-name".to_string(),
        ip: IpAddress::V4 { a: 10, b: 0, c: 0, d: 5 },
        cidr_id: "cidr-1".to_string(),
        public_key: "k".to_string(),
        endpoint: None,
        is_admin: false,
        is_disabled: false,
        is_redeemed: false,
        persistent_keepalive_interval: None,
        invite_expires: None,
        candidates: vec![],
    };
    assert!(DatabasePeer::validate_create(&contents, &block).is_ok());
    contents.name = "Bad".to_string();
    assert_eq!(
        DatabasePeer::validate_create(&contents, &block),
        Err(ServerError::InvalidQuery)
    );
    contents.name = "good-name".to_string();
    contents.ip = IpAddress::V4 { a: 11, b: 0, c: 0, d: 5 };
    assert_eq!(
        DatabasePeer::validate_create(&contents, &block),
        Err(ServerError::InvalidQuery)
    );
}

#[test]
fn update_policy_keeps_the_security_fields() {
    let existing = PeerContents {
        name: "old-name".to_string(),
        ip: IpAddress::V4 { a: 10, b: 0, c: 0, d: 5 },
        cidr_id: "cidr-1".to_string(),
        public_key: "locked-key".to_string(),
        endpoint: None,
        is_admin: false,
        is_disabled: false,
        is_redeemed: true,
        persistent_keepalive_interval: Some(25),
        invite_expires: Some(99),
        candidates: vec![],
    };
    let update = PeerContents {
        name: "new-name".to_string(),
        ip: IpAddress::V4 { a: 66, b: 6, c: 6, d: 6 },
        cidr_id: "evil".to_string(),
        public_key: "evil-key".to_string(),
        endpoint: Some(Endpoint { host: "h".to_string(), port: 1 }),
        is_admin: true,
        is_disabled: true,
        is_redeemed: false,
        persistent_keepalive_interval: None,
        invite_expires: None,
        candidates: vec![],
    };
    let merged = DatabasePeer::merge_update_contents(&existing, &update);
    // allowed fields come from the update
    assert_eq!(merged.name, "new-name");
    assert!(merged.is_admin);
    assert!(merged.is_disabled);
    // the security boundary: ip, key, cidr, redemption, expiry stay
    assert_eq!(merged.ip, IpAddress::V4 { a: 10, b: 0, c: 0, d: 5 });
    assert_eq!(merged.public_key, "locked-key");
    assert_eq!(merged.cidr_id, "cidr-1");
    assert!(merged.is_redeemed);
    assert_eq!(merged.invite_expires, Some(99));
}

#[test]
fn redeem_rules() {
    // already redeemed: Gone
    assert_eq!(
        DatabasePeer::redeem_check(true, None, 100),
        Err(ServerError::Gone)
    );
    // expired: Unauthorized
    assert_eq!(
        DatabasePeer::redeem_check(false, Some(50), 100),
        Err(ServerError::Unauthorized)
    );
    // still open
    assert!(DatabasePeer::redeem_check(false, Some(150), 100).is_ok());
    assert!(DatabasePeer::redeem_check(false, None, 100).is_ok());
    let redeemed = DatabasePeer::apply_redeem(
        &PeerContents {
            name: "n".to_string(),
            ip: IpAddress::V4 { a: 10, b: 0, c: 0, d: 5 },
            cidr_id: "c".to_string(),
            public_key: "old".to_string(),
            endpoint: None,
            is_admin: false,
            is_disabled: false,
            is_redeemed: false,
            persistent_keepalive_interval: None,
            invite_expires: Some(1),
            candidates: vec![],
        },
        "bound-key",
    );
    assert!(redeemed.is_redeemed);
    assert_eq!(redeemed.public_key, "bound-key");
}

#[test]
fn store_contents_shape() {
    let store: DataStore<i64> = DataStore::new_empty();
    match &store.contents {
        Contents::V1 { peers, cidrs } => {
            assert!(peers.is_empty());
            assert!(cidrs.is_empty());
        }
    }
}

#[test]
fn update_policy_is_gated_by_the_name_rule() {
    let existing = PeerContents {
        name: "old-name".to_string(),
        ip: IpAddress::V4 { a: 10, b: 0, c: 0, d: 5 },
        cidr_id: "cidr-1".to_string(),
        public_key: "locked-key".to_string(),
        endpoint: None,
        is_admin: false,
        is_disabled: false,
        is_redeemed: true,
        persistent_keepalive_interval: None,
        invite_expires: None,
        candidates: vec![],
    };
    let mut update = PeerContents {
        name: "Bad Name".to_string(),
        ip: IpAddress::V4 { a: 66, b: 6, c: 6, d: 6 },
        cidr_id: "evil".to_string(),
        public_key: "evil-key".to_string(),
        endpoint: None,
        is_admin: true,
        is_disabled: false,
        is_redeemed: false,
        persistent_keepalive_interval: None,
        invite_expires: None,
        candidates: vec![],
    };
    assert!(matches!(
        DatabasePeer::update_contents(&existing, &update),
        Err(ServerError::InvalidQuery)
    ));
    update.name = "new-name".to_string();
    let merged = DatabasePeer::update_contents(&existing, &update).ok().unwrap();
    assert_eq!(merged.name, "new-name");
    assert_eq!(merged.public_key, "locked-key");
}
