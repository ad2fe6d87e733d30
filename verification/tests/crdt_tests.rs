//! The replicated state: convergence of the registers, and the control
//! surface over the maps.
use formation::crdt::{LwwReg, MapOp, RegEntry, StateMap};
use formation::netstate::{
    plan_admin_endpoint_change, DataStore, DnsOpOutcome, DnsRequest, PeerRequest, Response,
    Success,
};
use formation::dns::{FormDnsRecord, RecordType};
use formation::peers::{Endpoint, IpAddress, PeerContents};

fn entry(clock: u64, actor: u64, value: u8) -> RegEntry<u8> {
    RegEntry { clock, actor, value }
}

#[test]
fn register_converges_for_any_order_and_duplicates() {
    let specs: [(u64, u64, u8); 3] = [(1, 1, 10), (2, 1, 20), (2, 2, 30)];
    let orders: Vec<Vec<usize>> = vec![
        vec![0, 1, 2],
        vec![2, 1, 0],
        vec![1, 2, 0],
        vec![2, 0, 1, 1, 0, 2], // with duplicates
    ];
    let mut winners = Vec::new();
    for order in orders {
        let mut reg: LwwReg<u8> = LwwReg::new();
        for &i in &order {
            let (c, a, v) = specs[i];
            reg.apply(entry(c, a, v));
        }
        let e = reg.entry.unwrap();
        winners.push((e.clock, e.actor, e.value));
    }
    for w in &winners {
        assert_eq!(*w, (2, 2, 30));
    }
}

fn mop(key: &str, clock: u64, actor: u64, value: u8) -> MapOp<u8> {
    MapOp { key: key.to_string(), op: entry(clock, actor, value) }
}

#[test]
fn map_converges_per_key() {
    let mut m1: StateMap<u8> = StateMap::new();
    m1.apply_ops(vec![mop("a", 1, 1, 1), mop("b", 1, 2, 3), mop("a", 2, 1, 2)]);
    let mut m2: StateMap<u8> = StateMap::new();
    m2.apply_ops(vec![
        mop("a", 2, 1, 2),
        mop("a", 1, 1, 1),
        mop("b", 1, 2, 3),
        mop("a", 1, 1, 1),
    ]);
    for key in ["a", "b"] {
        let e1 = m1.get_entry(key).unwrap();
        let e2 = m2.get_entry(key).unwrap();
        assert_eq!((e1.clock, e1.actor, e1.value), (e2.clock, e2.actor, e2.value));
    }
    assert_eq!(m1.get_entry("a").unwrap().value, 2);
}

fn peer_contents(name: &str, last_octet: u8, key: &str) -> PeerContents<String> {
    PeerContents {
        name: name.to_string(),
        ip: IpAddress::V4 { a: 10, b: 0, c: 0, d: last_octet },
        cidr_id: "formnet-1".to_string(),
        public_key: key.to_string(),
        endpoint: Some(Endpoint { host: "host.example".to_string(), port: 51820 }),
        is_admin: true,
        is_disabled: false,
        is_redeemed: true,
        persistent_keepalive_interval: None,
        invite_expires: None,
        candidates: vec![],
    }
}

#[test]
fn join_accepts_and_offers_a_broadcast() {
    let mut store = DataStore::new("node-1".to_string(), "pk-1".to_string());
    let (resp, broadcast) = store.create_user(PeerRequest::Join(peer_contents("peer-a", 1, "k1")));
    match resp {
        Response::Success(Success::Value(p)) => {
            assert_eq!(p.id, "peer-a");
            assert_eq!(p.contents.public_key, "k1");
        }
        _ => panic!("join was not accepted"),
    }
    assert!(matches!(broadcast, Some(PeerRequest::Op(_))));
    match store.get_user("peer-a") {
        Response::Success(Success::Value(p)) => assert_eq!(p.contents.public_key, "k1"),
        _ => panic!("peer not stored"),
    }
}

#[test]
fn replicas_replaying_each_other_converge() {
    let mut a = DataStore::new("node-a".to_string(), "pk-a".to_string());
    let mut b = DataStore::new("node-b".to_string(), "pk-b".to_string());
    let (_, bc) = a.create_user(PeerRequest::Join(peer_contents("peer-a", 1, "k1")));
    let op = match bc {
        Some(PeerRequest::Op(op)) => op,
        _ => panic!("no broadcast op"),
    };
    // b applies the same op twice: idempotent
    let r1 = b.apply_peer_op_write(MapOp {
        key: op.key.clone(),
        op: RegEntry {
            clock: op.op.clock,
            actor: op.op.actor,
            value: op.op.value.as_ref().map(formation::peers::clone_peer_string),
        },
    });
    assert!(matches!(r1, Response::Success(Success::Value(_))));
    let r2 = b.apply_peer_op_write(op);
    assert!(matches!(r2, Response::Success(Success::Value(_))));
    match (a.get_user("peer-a"), b.get_user("peer-a")) {
        (
            Response::Success(Success::Value(pa)),
            Response::Success(Success::Value(pb)),
        ) => {
            assert_eq!(pa.contents.public_key, pb.contents.public_key);
            assert_eq!(pa.contents.ip, pb.contents.ip);
        }
        _ => panic!("replicas disagree"),
    }
}

#[test]
fn stale_operations_are_rejected() {
    let mut store = DataStore::new("node-1".to_string(), "pk-1".to_string());
    let (_, bc) = store.create_user(PeerRequest::Join(peer_contents("peer-a", 1, "k1")));
    let first_op = match bc {
        Some(PeerRequest::Op(op)) => op,
        _ => panic!("no broadcast op"),
    };
    // a later local update advances the clock (flipping an allowed field)
    let mut demoted = peer_contents("peer-a", 1, "k1");
    demoted.is_admin = false;
    let (resp, _) = store.update_user(PeerRequest::Update(demoted));
    assert!(matches!(resp, Response::Success(Success::Value(_))));
    // replaying the first op is absorbed, and reported as not the winner
    let r = store.apply_peer_op_write(first_op);
    assert!(matches!(r, Response::Failure { .. }));
    match store.get_user("peer-a") {
        Response::Success(Success::Value(p)) => assert!(!p.contents.is_admin),
        _ => panic!("peer lost"),
    }
}

#[test]
fn update_cannot_change_the_pinned_fields() {
    let mut store = DataStore::new("node-1".to_string(), "pk-1".to_string());
    store.create_user(PeerRequest::Join(peer_contents("peer-a", 1, "k1")));
    // the request tries to move the peer to a new key, address and CIDR
    let mut hostile = peer_contents("peer-a", 99, "evil-key");
    hostile.cidr_id = "evil-cidr".to_string();
    hostile.is_admin = false;
    let (resp, _) = store.update_user(PeerRequest::Update(hostile));
    assert!(matches!(resp, Response::Success(Success::Value(_))));
    match store.get_user("peer-a") {
        Response::Success(Success::Value(p)) => {
            // the security boundary held: only the allowed field moved
            assert_eq!(p.contents.public_key, "k1");
            assert_eq!(p.contents.ip, IpAddress::V4 { a: 10, b: 0, c: 0, d: 1 });
            assert_eq!(p.contents.cidr_id, "formnet-1");
            assert!(!p.contents.is_admin);
        }
        _ => panic!("peer lost"),
    }
}

#[test]
fn redeeming_binds_the_key_once() {
    let mut store = DataStore::new("node-1".to_string(), "pk-1".to_string());
    let mut invited = peer_contents("invitee", 4, "placeholder");
    invited.is_redeemed = false;
    invited.invite_expires = Some(1_000);
    store.create_user(PeerRequest::Join(invited));

    // an unknown name fails and changes nothing
    let mut ghost_req = peer_contents("ghost", 5, "gk");
    ghost_req.is_redeemed = false;
    let (resp, bc) = store.redeem_invite(PeerRequest::Update(ghost_req), 500);
    assert!(matches!(resp, Response::Failure { .. }));
    assert!(bc.is_none());

    // an expired invite is refused
    let (resp, _) =
        store.redeem_invite(PeerRequest::Update(peer_contents("invitee", 4, "bound-key")), 2_000);
    assert!(matches!(resp, Response::Failure { .. }));

    // in time, the key binds and the peer becomes redeemed
    let (resp, bc) =
        store.redeem_invite(PeerRequest::Update(peer_contents("invitee", 4, "bound-key")), 500);
    assert!(matches!(resp, Response::Success(Success::Value(_))));
    assert!(bc.is_some());
    match store.get_user("invitee") {
        Response::Success(Success::Value(p)) => {
            assert!(p.contents.is_redeemed);
            assert_eq!(p.contents.public_key, "bound-key");
        }
        _ => panic!("peer lost"),
    }

    // a second redemption is gone
    let (resp, _) =
        store.redeem_invite(PeerRequest::Update(peer_contents("invitee", 4, "other-key")), 500);
    assert!(matches!(resp, Response::Failure { .. }));
    match store.get_user("invitee") {
        Response::Success(Success::Value(p)) => assert_eq!(p.contents.public_key, "bound-key"),
        _ => panic!("peer lost"),
    }
}

#[test]
fn endpoint_moves_of_active_admins_trigger_a_dns_update() {
    let old_ip = IpAddress::V4 { a: 203, b: 0, c: 113, d: 1 };
    let new_ip = IpAddress::V4 { a: 203, b: 0, c: 113, d: 2 };
    assert_eq!(
        plan_admin_endpoint_change(true, false, Some(old_ip), Some(new_ip)),
        Some((old_ip, new_ip))
    );
    // unchanged address, missing addresses, non-admins and disabled admins
    // fire nothing
    assert_eq!(plan_admin_endpoint_change(true, false, Some(old_ip), Some(old_ip)), None);
    assert_eq!(plan_admin_endpoint_change(true, false, None, Some(new_ip)), None);
    assert_eq!(plan_admin_endpoint_change(false, false, Some(old_ip), Some(new_ip)), None);
    assert_eq!(plan_admin_endpoint_change(true, true, Some(old_ip), Some(new_ip)), None);
}

#[test]
fn two_stores_converge_under_reordered_replay() {
    // the same set of accepted operations, in different orders with
    // duplicates, leaves two replicas with the same live peers
    let mut origin = DataStore::new("node-0".to_string(), "pk-0".to_string());
    let mut ops = Vec::new();
    for (name, octet, key) in [("p-one", 1, "k1"), ("p-two", 2, "k2"), ("p-three", 3, "k3")] {
        let (_, bc) = origin.create_user(PeerRequest::Join(peer_contents(name, octet, key)));
        match bc {
            Some(PeerRequest::Op(op)) => ops.push(op),
            _ => panic!("no broadcast op"),
        }
    }
    let reorderings: Vec<Vec<usize>> = vec![vec![0, 1, 2], vec![2, 0, 1, 1, 0], vec![1, 2, 0, 2]];
    let clone_op = |i: usize| {
        let op = &ops[i];
        MapOp {
            key: op.key.clone(),
            op: RegEntry {
                clock: op.op.clock,
                actor: op.op.actor,
                value: op.op.value.as_ref().map(formation::peers::clone_peer_string),
            },
        }
    };
    let mut stores = Vec::new();
    for (which, order) in reorderings.iter().enumerate() {
        let mut replica = DataStore::new("node-r".to_string(), "pk-r".to_string());
        if which == 0 {
            // one replica replays the batch in one go
            replica.replay_peer_ops(order.iter().map(|&i| clone_op(i)).collect());
        } else {
            for &i in order {
                replica.apply_peer_op_write(clone_op(i));
            }
        }
        stores.push(replica);
    }
    for name in ["p-one", "p-two", "p-three"] {
        let mut keys = Vec::new();
        for store in &stores {
            match store.get_user(name) {
                Response::Success(Success::Value(p)) => keys.push(p.contents.public_key),
                _ => panic!("{name} missing in a replica"),
            }
        }
        assert!(keys.windows(2).all(|w| w[0] == w[1]));
    }
}

#[test]
fn delete_tombstones_the_peer() {
    let mut store = DataStore::new("node-1".to_string(), "pk-1".to_string());
    store.create_user(PeerRequest::Join(peer_contents("peer-a", 1, "k1")));
    let (resp, broadcast) = store.delete_user(PeerRequest::Delete("peer-a".to_string()));
    assert!(matches!(resp, Response::Success(Success::Empty)));
    assert!(broadcast.is_some());
    assert!(matches!(store.get_user("peer-a"), Response::Failure { .. }));
    // disabled peers are retained; deleted ones are tombstones, and the
    // list of live users is empty again
    assert!(store.get_all_users().is_empty());
}

#[test]
fn active_admins_are_admin_and_not_disabled() {
    let mut store = DataStore::new("node-1".to_string(), "pk-1".to_string());
    store.create_user(PeerRequest::Join(peer_contents("admin-on", 1, "k1")));
    let mut off = peer_contents("admin-off", 2, "k2");
    off.is_disabled = true;
    store.create_user(PeerRequest::Join(off));
    let mut plain = peer_contents("plain", 3, "k3");
    plain.is_admin = false;
    store.create_user(PeerRequest::Join(plain));
    let admins = store.get_all_active_admin();
    assert_eq!(admins.len(), 1);
    assert_eq!(admins[0].0, "admin-on");
}

#[test]
fn expired_invites_are_selected_for_deletion() {
    let mut store = DataStore::new("node-1".to_string(), "pk-1".to_string());
    let mut expired = peer_contents("old-invite", 1, "k1");
    expired.is_redeemed = false;
    expired.invite_expires = Some(100);
    store.create_user(PeerRequest::Join(expired));
    let mut fresh = peer_contents("fresh-invite", 2, "k2");
    fresh.is_redeemed = false;
    fresh.invite_expires = Some(10_000);
    store.create_user(PeerRequest::Join(fresh));
    let (removed, broadcasts) = store.delete_expired(5_000);
    assert_eq!(removed.len(), 1);
    assert_eq!(removed[0].0, "old-invite");
    assert_eq!(broadcasts.len(), 1);
    assert!(matches!(store.get_user("old-invite"), Response::Failure { .. }));
    assert!(matches!(
        store.get_user("fresh-invite"),
        Response::Success(_)
    ));
}

#[test]
fn dns_create_forwards_to_the_edge_service() {
    let mut store = DataStore::new("node-1".to_string(), "pk-1".to_string());
    let record = FormDnsRecord {
        domain: "app.example".to_string(),
        record_type: RecordType::A,
        formnet_ip: vec![formation::dns::SockAddr {
            ip: IpAddress::V4 { a: 10, b: 0, c: 0, d: 5 },
            port: 80,
        }],
        public_ip: vec![],
        cname_target: None,
        ssl_cert: false,
        ttl: 3600,
        verification_status: None,
        verification_timestamp: None,
    };
    match store.create_dns(DnsRequest::Create(record)) {
        DnsOpOutcome::Forward { record, request } => {
            assert_eq!(record.domain, "app.example");
            match request {
                formation::netstate::DomainRequest::Create { domain, ip_addr, .. } => {
                    assert_eq!(domain, "app.example");
                    assert_eq!(ip_addr.len(), 1);
                }
                _ => panic!("expected a create request"),
            }
        }
        DnsOpOutcome::Rejected(_) => panic!("create was rejected"),
    }
    assert!(matches!(
        store.get_dns_record("app.example"),
        Response::Success(_)
    ));
}

#[test]
fn vanity_plans_are_refused_for_assigned_domains() {
    let mut store = DataStore::new("node-1".to_string(), "pk-1".to_string());
    let record = FormDnsRecord {
        domain: "taken.example".to_string(),
        record_type: RecordType::A,
        formnet_ip: vec![],
        public_ip: vec![],
        cname_target: None,
        ssl_cert: false,
        ttl: 3600,
        verification_status: None,
        verification_timestamp: None,
    };
    store.create_dns(DnsRequest::Create(record));
    assert!(store
        .plan_request_vanity("taken.example".to_string(), "bid")
        .is_err());
    let plan = match store.plan_request_vanity("free.example".to_string(), "bid") {
        Ok(p) => p,
        Err(_) => panic!("free domain was refused"),
    };
    assert_eq!(plan.dns_record.domain, "free.example");
    assert_eq!(plan.dns_record.record_type, RecordType::A);
    assert!(plan.dns_record.public_ip.is_empty());
    assert_eq!(plan.dns_record.ttl, 3600);
}
