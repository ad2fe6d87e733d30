//! Peers and their pinning store.  A peer binds an overlay IP to a WireGuard
//! public key; once a store has seen a peer at an IP, no later update may
//! change the key at that IP (the server cannot impersonate a peer).  Peer
//! names follow hostname(7); a peer lives inside a CIDR that must contain
//! its IP.
use vstd::prelude::*;
use vstd::string::StringSliceAdditionalSpecFns;
use crate::strutil::{str_eq, copy_string};

verus! {

/// An IP address of the overlay or the public internet.
#[derive(Clone, Copy, Debug, PartialEq, Eq, Structural)]
pub enum IpAddress {
    V4 { a: u8, b: u8, c: u8, d: u8 },
    V6 { hi: u64, lo: u64 },
}

impl IpAddress {
    /// A formnet address: the first octet of a v4 address is 10.
    pub open spec fn spec_is_formnet(self) -> bool {
        match self {
            IpAddress::V4 { a, .. } => a == 10,
            IpAddress::V6 { .. } => false,
        }
    }

    /// Whether this address lies in the 10.0.0.0/8 overlay.
    pub fn is_formnet(&self) -> (r: bool)
        ensures
            r == self.spec_is_formnet(),
    {
        match self {
            IpAddress::V4 { a, .. } => *a == 10,
            IpAddress::V6 { .. } => false,
        }
    }

    /// The v4 address as one 32-bit integer.
    pub open spec fn spec_v4_value(self) -> u32
        recommends
            self is V4,
    {
        match self {
            IpAddress::V4 { a, b, c, d } => ((a as u32) * 0x1000000 + (b as u32) * 0x10000 + (
            c as u32) * 0x100 + (d as u32)) as u32,
            IpAddress::V6 { .. } => 0,
        }
    }
}

/// A peer endpoint: a host (name or address text) and a port.
#[derive(Clone, Debug)]
pub struct Endpoint {
    pub host: String,
    pub port: u16,
}

/// The ghost image of an endpoint.
pub ghost struct EndpointView {
    pub host: Seq<char>,
    pub port: u16,
}

impl Endpoint {
    pub open spec fn view(self) -> EndpointView {
        EndpointView { host: self.host@, port: self.port }
    }
}

pub open spec fn endpoints_view(es: Seq<Endpoint>) -> Seq<EndpointView> {
    es.map(|i: int, e: Endpoint| e.view())
}

pub open spec fn opt_endpoint_view(e: Option<Endpoint>) -> Option<EndpointView> {
    match e {
        Some(e) => Some(e.view()),
        None => None,
    }
}

/// The mutable attributes of a peer.
pub struct PeerContents<T> {
    pub name: String,
    pub ip: IpAddress,
    pub cidr_id: T,
    pub public_key: String,
    pub endpoint: Option<Endpoint>,
    pub persistent_keepalive_interval: Option<u16>,
    pub is_admin: bool,
    pub is_disabled: bool,
    pub is_redeemed: bool,
    pub invite_expires: Option<u64>,
    pub candidates: Vec<Endpoint>,
}

/// A peer: its identifier and its attributes.
pub struct Peer<T> {
    pub id: T,
    pub contents: PeerContents<T>,
}

/// The ghost image of a peer's attributes.
pub ghost struct PeerContentsView<T> {
    pub name: Seq<char>,
    pub ip: IpAddress,
    pub cidr_id: T,
    pub public_key: Seq<char>,
    pub endpoint: Option<EndpointView>,
    pub persistent_keepalive_interval: Option<u16>,
    pub is_admin: bool,
    pub is_disabled: bool,
    pub is_redeemed: bool,
    pub invite_expires: Option<u64>,
    pub candidates: Seq<EndpointView>,
}

/// The ghost image of a peer.
pub ghost struct PeerView<T> {
    pub id: T,
    pub contents: PeerContentsView<T>,
}

pub open spec fn contents_view<T>(c: PeerContents<T>) -> PeerContentsView<T> {
    PeerContentsView {
        name: c.name@,
        ip: c.ip,
        cidr_id: c.cidr_id,
        public_key: c.public_key@,
        endpoint: opt_endpoint_view(c.endpoint),
        persistent_keepalive_interval: c.persistent_keepalive_interval,
        is_admin: c.is_admin,
        is_disabled: c.is_disabled,
        is_redeemed: c.is_redeemed,
        invite_expires: c.invite_expires,
        candidates: endpoints_view(c.candidates@),
    }
}

pub open spec fn peer_view<T>(p: Peer<T>) -> PeerView<T> {
    PeerView { id: p.id, contents: contents_view(p.contents) }
}

pub open spec fn peers_view<T>(ps: Seq<Peer<T>>) -> Seq<PeerView<T>> {
    ps.map(|i: int, p: Peer<T>| peer_view(p))
}

/// The ghost image of a peer's attributes with string identifiers.
pub open spec fn contents_string_view(c: PeerContents<String>) -> PeerContentsView<Seq<char>> {
    PeerContentsView {
        name: c.name@,
        ip: c.ip,
        cidr_id: c.cidr_id@,
        public_key: c.public_key@,
        endpoint: opt_endpoint_view(c.endpoint),
        persistent_keepalive_interval: c.persistent_keepalive_interval,
        is_admin: c.is_admin,
        is_disabled: c.is_disabled,
        is_redeemed: c.is_redeemed,
        invite_expires: c.invite_expires,
        candidates: endpoints_view(c.candidates@),
    }
}

/// The ghost image of a peer with string identifiers.
pub open spec fn peer_string_view(p: Peer<String>) -> PeerView<Seq<char>> {
    PeerView { id: p.id@, contents: contents_string_view(p.contents) }
}

/// A copy of a peer's attributes with string identifiers.
pub fn clone_contents_string(c: &PeerContents<String>) -> (r: PeerContents<String>)
    ensures
        contents_string_view(r) == contents_string_view(*c),
{
    PeerContents {
        name: copy_string(&c.name),
        ip: c.ip,
        cidr_id: copy_string(&c.cidr_id),
        public_key: copy_string(&c.public_key),
        endpoint: clone_opt_endpoint(&c.endpoint),
        persistent_keepalive_interval: c.persistent_keepalive_interval,
        is_admin: c.is_admin,
        is_disabled: c.is_disabled,
        is_redeemed: c.is_redeemed,
        invite_expires: c.invite_expires,
        candidates: clone_endpoints(&c.candidates),
    }
}

/// A copy of a peer with string identifiers.
pub fn clone_peer_string(p: &Peer<String>) -> (r: Peer<String>)
    ensures
        peer_string_view(r) == peer_string_view(*p),
{
    Peer { id: copy_string(&p.id), contents: clone_contents_string(&p.contents) }
}

/// The name rule of hostname(7), as the store enforces it: fewer than 64
/// bytes matching `^([a-z0-9]-?)*[a-z0-9]$` — lowercase letters, digits and
/// single hyphens, neither first nor last.
pub open spec fn spec_name_byte_ok(b: u8) -> bool {
    (97 <= b && b <= 122) || (48 <= b && b <= 57) || b == 45
}

pub open spec fn spec_valid_peer_name(bytes: Seq<u8>) -> bool {
    &&& 1 <= bytes.len() < 64
    &&& forall|i: int| 0 <= i < bytes.len() ==> spec_name_byte_ok(#[trigger] bytes[i])
    &&& bytes[0] != 45
    &&& bytes[bytes.len() - 1] != 45
    &&& forall|i: int| 0 <= i < bytes.len() - 1 ==> !(bytes[i] == 45 && #[trigger] bytes[i + 1] == 45)
}

/// A failure of the control surface.
#[derive(Clone, Copy, Debug, PartialEq, Eq, Structural)]
pub enum ServerError {
    /// Malformed or rejected input.
    InvalidQuery,
    /// The entity does not exist.
    NotFound,
    /// The invite was already redeemed.
    Gone,
    /// The invite expired before redemption.
    Unauthorized,
}

/// A contiguous address block; peers live inside one.
#[derive(Clone, Copy, Debug, PartialEq, Eq, Structural)]
pub struct CidrBlock {
    pub net: IpAddress,
    pub prefix_len: u8,
}

/// The mutable attributes of a CIDR.
pub struct CidrContents<T> {
    pub name: String,
    pub cidr: CidrBlock,
    pub parent: Option<T>,
}

/// A CIDR: its identifier and attributes; `parent` links the tree.
pub struct Cidr<T> {
    pub id: T,
    pub contents: CidrContents<T>,
}

/// The network mask of a v4 prefix length, as a 32-bit integer.
pub open spec fn spec_v4_mask(prefix_len: u8) -> u32
    recommends
        prefix_len <= 32,
{
    if prefix_len == 0 {
        0
    } else {
        (0xffffffffu32 << ((32 - prefix_len) as u32)) as u32
    }
}

impl CidrBlock {
    /// The block contains an address when the masked bits agree.  A v6
    /// block never contains a v4 address and the other way round; v6
    /// containment is not modelled beyond exact equality of the address.
    pub open spec fn spec_contains(self, ip: IpAddress) -> bool {
        match (self.net, ip) {
            (IpAddress::V4 { .. }, IpAddress::V4 { .. }) => self.prefix_len <= 32 && (
            ip.spec_v4_value() & spec_v4_mask(self.prefix_len)) == (self.net.spec_v4_value()
                & spec_v4_mask(self.prefix_len)),
            (IpAddress::V6 { .. }, IpAddress::V6 { .. }) => self.net == ip,
            _ => false,
        }
    }

    /// An address a peer may be assigned: contained, and — in blocks wider
    /// than /31 — neither the network nor the broadcast address.
    pub open spec fn spec_is_assignable(self, ip: IpAddress) -> bool {
        &&& self.spec_contains(ip)
        &&& match (self.net, ip) {
            (IpAddress::V4 { .. }, IpAddress::V4 { .. }) => self.prefix_len >= 31 || (
            ip.spec_v4_value() != (self.net.spec_v4_value() & spec_v4_mask(self.prefix_len))
                && ip.spec_v4_value() != ((self.net.spec_v4_value() & spec_v4_mask(
                self.prefix_len,
            )) | (!spec_v4_mask(self.prefix_len)) as u32) as u32),
            _ => true,
        }
    }

    /// Containment test.
    pub fn contains(&self, ip: &IpAddress) -> (r: bool)
        requires
            self.prefix_len <= 32,
        ensures
            r == self.spec_contains(*ip),
    {
        match (&self.net, ip) {
            (IpAddress::V4 { .. }, IpAddress::V4 { .. }) => {
                let mask = v4_mask(self.prefix_len);
                (v4_value(ip) & mask) == (v4_value(&self.net) & mask)
            },
            (IpAddress::V6 { .. }, IpAddress::V6 { .. }) => self.net == *ip,
            _ => false,
        }
    }

    /// Assignability test.
    pub fn is_assignable(&self, ip: &IpAddress) -> (r: bool)
        requires
            self.prefix_len <= 32,
        ensures
            r == self.spec_is_assignable(*ip),
    {
        if !self.contains(ip) {
            return false;
        }
        match (&self.net, ip) {
            (IpAddress::V4 { .. }, IpAddress::V4 { .. }) => {
                if self.prefix_len >= 31 {
                    true
                } else {
                    let mask = v4_mask(self.prefix_len);
                    let network = v4_value(&self.net) & mask;
                    let broadcast = network | !mask;
                    let v = v4_value(ip);
                    v != network && v != broadcast
                }
            },
            _ => true,
        }
    }
}

/// The v4 address value as an integer.
pub fn v4_value(ip: &IpAddress) -> (r: u32)
    ensures
        r == ip.spec_v4_value(),
{
    match ip {
        IpAddress::V4 { a, b, c, d } => {
            (*a as u32) * 0x1000000 + (*b as u32) * 0x10000 + (*c as u32) * 0x100 + (*d as u32)
        },
        IpAddress::V6 { .. } => 0,
    }
}

/// The v4 mask of a prefix length.
pub fn v4_mask(prefix_len: u8) -> (r: u32)
    requires
        prefix_len <= 32,
    ensures
        r == spec_v4_mask(prefix_len),
{
    if prefix_len == 0 {
        0
    } else {
        0xffffffffu32 << ((32 - prefix_len) as u32)
    }
}

/// A copy of an endpoint.
pub fn clone_endpoint(e: &Endpoint) -> (r: Endpoint)
    ensures
        r.view() == e.view(),
{
    Endpoint { host: copy_string(&e.host), port: e.port }
}

/// A copy of an endpoint list.
pub fn clone_endpoints(es: &Vec<Endpoint>) -> (r: Vec<Endpoint>)
    ensures
        endpoints_view(r@) == endpoints_view(es@),
{
    let mut out: Vec<Endpoint> = Vec::new();
    let mut i: usize = 0;
    while i < es.len()
        invariant
            i <= es@.len(),
            out@.len() == i,
            forall|k: int| 0 <= k < i ==> (#[trigger] out@[k]).view() == es@[k].view(),
        decreases es@.len() - i,
    {
        out.push(clone_endpoint(&es[i]));
        i = i + 1;
    }
    proof {
        assert(endpoints_view(out@) =~= endpoints_view(es@));
    }
    out
}

/// A copy of an optional endpoint.
pub fn clone_opt_endpoint(e: &Option<Endpoint>) -> (r: Option<Endpoint>)
    ensures
        opt_endpoint_view(r) == opt_endpoint_view(*e),
{
    match e {
        Some(e) => Some(clone_endpoint(e)),
        None => None,
    }
}

/// A copy of a peer's attributes, for identifier types that copy.
pub fn clone_contents<T: Copy>(c: &PeerContents<T>) -> (r: PeerContents<T>)
    ensures
        contents_view(r) == contents_view(*c),
{
    PeerContents {
        name: copy_string(&c.name),
        ip: c.ip,
        cidr_id: c.cidr_id,
        public_key: copy_string(&c.public_key),
        endpoint: clone_opt_endpoint(&c.endpoint),
        persistent_keepalive_interval: c.persistent_keepalive_interval,
        is_admin: c.is_admin,
        is_disabled: c.is_disabled,
        is_redeemed: c.is_redeemed,
        invite_expires: c.invite_expires,
        candidates: clone_endpoints(&c.candidates),
    }
}

/// A copy of a peer, for identifier types that copy.
pub fn clone_peer<T: Copy>(p: &Peer<T>) -> (r: Peer<T>)
    ensures
        peer_view(r) == peer_view(*p),
{
    Peer { id: p.id, contents: clone_contents(&p.contents) }
}

/// A pin could not be honoured: an update tried to change the public key of
/// an existing IP.
#[derive(Clone, Copy, Debug, PartialEq, Eq, Structural)]
pub enum StoreError {
    PinningViolation,
}

/// The peer store's persisted shape, versioned.
pub enum Contents<T> {
    V1 { peers: Vec<Peer<T>>, cidrs: Vec<Cidr<T>> },
}

/// The client-side peer store.  It only ever adds or amends peers — and
/// pins each (ip, public key) binding: see `update_peers`.
pub struct DataStore<T> {
    pub contents: Contents<T>,
}

impl<T> DataStore<T> {
    pub open spec fn spec_peers(self) -> Seq<Peer<T>> {
        match self.contents {
            Contents::V1 { peers, .. } => peers@,
        }
    }

    pub open spec fn spec_cidrs(self) -> Seq<Cidr<T>> {
        match self.contents {
            Contents::V1 { cidrs, .. } => cidrs@,
        }
    }
}

/// The first position holding a peer with this IP, or -1.
pub open spec fn spec_ip_index<T>(peers: Seq<PeerView<T>>, ip: IpAddress) -> int
    decreases peers.len(),
{
    if peers.len() == 0 {
        -1
    } else if peers[0].contents.ip == ip {
        0
    } else {
        let rest = spec_ip_index(peers.drop_first(), ip);
        if rest < 0 {
            -1
        } else {
            rest + 1
        }
    }
}

/// Phase one of `update_peers`: each incoming peer amends the first stored
/// peer with its IP — refused outright when the keys differ — or is
/// appended.
pub open spec fn spec_merge_peers<T>(
    peers: Seq<PeerView<T>>,
    cur: Seq<PeerView<T>>,
) -> Option<Seq<PeerView<T>>>
    decreases cur.len(),
{
    if cur.len() == 0 {
        Some(peers)
    } else {
        let p = cur[0];
        let i = spec_ip_index(peers, p.contents.ip);
        if i >= 0 {
            if peers[i].contents.public_key != p.contents.public_key {
                None
            } else {
                spec_merge_peers(peers.update(i, p), cur.drop_first())
            }
        } else {
            spec_merge_peers(peers.push(p), cur.drop_first())
        }
    }
}

pub open spec fn spec_key_present<T>(cur: Seq<PeerView<T>>, key: Seq<char>) -> bool {
    exists|j: int| 0 <= j < cur.len() && (#[trigger] cur[j]).contents.public_key == key
}

pub open spec fn spec_disabled_peer<T>(p: PeerView<T>) -> PeerView<T> {
    PeerView {
        id: p.id,
        contents: PeerContentsView {
            name: p.contents.name,
            ip: p.contents.ip,
            cidr_id: p.contents.cidr_id,
            public_key: p.contents.public_key,
            endpoint: p.contents.endpoint,
            persistent_keepalive_interval: p.contents.persistent_keepalive_interval,
            is_admin: p.contents.is_admin,
            is_disabled: true,
            is_redeemed: p.contents.is_redeemed,
            invite_expires: p.contents.invite_expires,
            candidates: p.contents.candidates,
        },
    }
}

/// Phase two of `update_peers`: a stored peer whose key is absent from the
/// incoming list is disabled, never deleted.
pub open spec fn spec_disable_missing<T>(
    peers: Seq<PeerView<T>>,
    cur: Seq<PeerView<T>>,
) -> Seq<PeerView<T>> {
    Seq::new(
        peers.len(),
        |i: int|
            if spec_key_present(cur, peers[i].contents.public_key) {
                peers[i]
            } else {
                spec_disabled_peer(peers[i])
            },
    )
}

/// Both phases.
pub open spec fn spec_update_peers<T>(
    peers: Seq<PeerView<T>>,
    cur: Seq<PeerView<T>>,
) -> Option<Seq<PeerView<T>>> {
    match spec_merge_peers(peers, cur) {
        None => None,
        Some(m) => Some(spec_disable_missing(m, cur)),
    }
}

/// Peer pinning: every peer the store already held keeps its IP and its
/// public key, at its position; peers are only appended after them.
pub open spec fn spec_pins_preserved<T>(pre: Seq<PeerView<T>>, post: Seq<PeerView<T>>) -> bool {
    &&& post.len() >= pre.len()
    &&& forall|i: int|
        0 <= i < pre.len() ==> (#[trigger] post[i]).contents.ip == pre[i].contents.ip
            && post[i].contents.public_key == pre[i].contents.public_key
}

/// Pin preservation composes: across any sequence of accepted updates, a
/// peer once stored with an IP and key keeps that binding.
pub proof fn lemma_pins_transitive<T>(
    a: Seq<PeerView<T>>,
    b: Seq<PeerView<T>>,
    c: Seq<PeerView<T>>,
)
    requires
        spec_pins_preserved(a, b),
        spec_pins_preserved(b, c),
    ensures
        spec_pins_preserved(a, c),
{
}

proof fn lemma_ip_index_of_match<T>(peers: Seq<PeerView<T>>, ip: IpAddress, i: int)
    requires
        0 <= i < peers.len(),
        peers[i].contents.ip == ip,
        forall|k: int| 0 <= k < i ==> (#[trigger] peers[k]).contents.ip != ip,
    ensures
        spec_ip_index(peers, ip) == i,
    decreases i,
{
    if i == 0 {
    } else {
        assert(peers.drop_first()[i - 1] == peers[i]);
        assert(forall|k: int| 0 <= k < i - 1 ==> peers.drop_first()[k] == #[trigger] peers[k + 1]);
        lemma_ip_index_of_match(peers.drop_first(), ip, i - 1);
    }
}

proof fn lemma_ip_index_of_none<T>(peers: Seq<PeerView<T>>, ip: IpAddress)
    requires
        forall|k: int| 0 <= k < peers.len() ==> (#[trigger] peers[k]).contents.ip != ip,
    ensures
        spec_ip_index(peers, ip) == -1,
    decreases peers.len(),
{
    if peers.len() > 0 {
        assert(forall|k: int|
            0 <= k < peers.len() - 1 ==> peers.drop_first()[k] == #[trigger] peers[k + 1]);
        lemma_ip_index_of_none(peers.drop_first(), ip);
    }
}

impl<T: Copy> DataStore<T> {
    /// A store that has seen nothing yet: what opening a fresh or
    /// unreadable file yields.
    pub fn new_empty() -> (r: DataStore<T>)
        ensures
            r.spec_peers().len() == 0,
            r.spec_cidrs().len() == 0,
    {
        DataStore { contents: Contents::V1 { peers: Vec::new(), cidrs: Vec::new() } }
    }

    /// The stored peers.
    pub fn peers(&self) -> (r: &Vec<Peer<T>>)
        ensures
            r@ == self.spec_peers(),
    {
        match &self.contents {
            Contents::V1 { peers, .. } => peers,
        }
    }

    /// The stored CIDRs.
    pub fn cidrs(&self) -> (r: &Vec<Cidr<T>>)
        ensures
            r@ == self.spec_cidrs(),
    {
        match &self.contents {
            Contents::V1 { cidrs, .. } => cidrs,
        }
    }

    /// Replaces the CIDR list; peers are untouched.
    pub fn set_cidrs(&mut self, new_cidrs: Vec<Cidr<T>>)
        ensures
            final (self).spec_cidrs() == new_cidrs@,
            final (self).spec_peers() == old(self).spec_peers(),
    {
        match &mut self.contents {
            Contents::V1 { cidrs, .. } => {
                *cidrs = new_cidrs;
            },
        }
    }

    /// Merges a peer list from the server, pinning (IP, public key): an
    /// incoming peer amends the first stored peer with its IP only when the
    /// keys agree, is appended when the IP is new, and every stored peer
    /// whose key the server no longer lists is disabled.  A key change for
    /// a stored IP is refused, and in every outcome each stored peer keeps
    /// its IP and key.
    pub fn update_peers(&mut self, current_peers: &Vec<Peer<T>>) -> (r: Result<(), StoreError>)
        ensures
            r is Ok <==> spec_merge_peers(
                peers_view(old(self).spec_peers()),
                peers_view(current_peers@),
            ) is Some,
            r is Ok ==> Some(peers_view(final (self).spec_peers())) == spec_update_peers(
                peers_view(old(self).spec_peers()),
                peers_view(current_peers@),
            ),
            r is Err ==> final (self).spec_peers() == old(self).spec_peers(),
            spec_pins_preserved(
                peers_view(old(self).spec_peers()),
                peers_view(final (self).spec_peers()),
            ),
            final (self).spec_cidrs() == old(self).spec_cidrs(),
    {
        match &mut self.contents {
            Contents::V1 { peers, .. } => update_peers_vec(peers, current_peers),
        }
    }
}

/// The first position holding a peer with this IP, if any.
fn find_peer_by_ip<T>(peers: &Vec<Peer<T>>, ip: &IpAddress) -> (r: Option<usize>)
    ensures
        r matches Some(i) ==> spec_ip_index(peers_view(peers@), *ip) == i as int && (i as int)
            < peers@.len() && peers_view(peers@)[i as int].contents.ip == *ip,
        r is None ==> spec_ip_index(peers_view(peers@), *ip) == -1,
{
    let ghost views = peers_view(peers@);
    let mut i: usize = 0;
    while i < peers.len()
        invariant
            i <= peers@.len(),
            views == peers_view(peers@),
            forall|k: int| 0 <= k < i ==> (#[trigger] views[k]).contents.ip != *ip,
        decreases peers@.len() - i,
    {
        proof {
            assert(views[i as int] == peer_view(peers@[i as int]));
        }
        if peers[i].contents.ip == *ip {
            proof {
                lemma_ip_index_of_match(views, *ip, i as int);
            }
            return Some(i);
        }
        i = i + 1;
    }
    proof {
        lemma_ip_index_of_none(views, *ip);
    }
    None
}

/// Whether some peer of the list carries this public key.
fn peer_key_present<T>(peers: &Vec<Peer<T>>, key: &str) -> (r: bool)
    ensures
        r == spec_key_present(peers_view(peers@), key@),
{
    let ghost views = peers_view(peers@);
    let mut i: usize = 0;
    while i < peers.len()
        invariant
            i <= peers@.len(),
            views == peers_view(peers@),
            forall|k: int| 0 <= k < i ==> (#[trigger] views[k]).contents.public_key != key@,
        decreases peers@.len() - i,
    {
        proof {
            assert(views[i as int] == peer_view(peers@[i as int]));
        }
        if str_eq(peers[i].contents.public_key.as_str(), key) {
            proof {
                assert(views[i as int].contents.public_key == key@);
            }
            return true;
        }
        i = i + 1;
    }
    false
}

/// An elementwise copy of a peer list.
fn clone_peers<T: Copy>(peers: &Vec<Peer<T>>) -> (r: Vec<Peer<T>>)
    ensures
        peers_view(r@) == peers_view(peers@),
{
    let mut out: Vec<Peer<T>> = Vec::new();
    let mut i: usize = 0;
    while i < peers.len()
        invariant
            i <= peers@.len(),
            out@.len() == i,
            forall|k: int|
                0 <= k < i ==> peer_view(#[trigger] out@[k]) == peer_view(peers@[k]),
        decreases peers@.len() - i,
    {
        out.push(clone_peer(&peers[i]));
        i = i + 1;
    }
    proof {
        assert(peers_view(out@) =~= peers_view(peers@));
    }
    out
}

/// The body of `DataStore::update_peers`, over the bare peer list.
fn update_peers_vec<T: Copy>(peers: &mut Vec<Peer<T>>, current_peers: &Vec<Peer<T>>) -> (r:
    Result<(), StoreError>)
    ensures
        r is Ok <==> spec_merge_peers(peers_view(old(peers)@), peers_view(current_peers@)) is Some,
        r is Ok ==> Some(peers_view(final (peers)@)) == spec_update_peers(
            peers_view(old(peers)@),
            peers_view(current_peers@),
        ),
        r is Err ==> *final (peers) == *old(peers),
        spec_pins_preserved(peers_view(old(peers)@), peers_view(final (peers)@)),
{
    // the merge runs on a copy; a refused update leaves the store untouched
    let mut work = clone_peers(peers);
    let ghost orig = peers_view(work@);
    let ghost cur_views = peers_view(current_peers@);
    proof {
        assert(cur_views.skip(0) =~= cur_views);
    }
    let mut j: usize = 0;
    while j < current_peers.len()
        invariant
            j <= cur_views.len(),
            cur_views == peers_view(current_peers@),
            orig == peers_view(old(peers)@),
            spec_pins_preserved(orig, peers_view(work@)),
            spec_merge_peers(peers_view(work@), cur_views.skip(j as int)) == spec_merge_peers(
                orig,
                cur_views,
            ),
        decreases cur_views.len() - j,
    {
        let ghost pre_views = peers_view(work@);
        let new_peer = &current_peers[j];
        proof {
            assert(cur_views[j as int] == peer_view(current_peers@[j as int]));
            assert(cur_views.skip(j as int)[0] == cur_views[j as int]);
            assert(cur_views.skip(j as int).drop_first() =~= cur_views.skip(j as int + 1));
        }
        match find_peer_by_ip(&work, &new_peer.contents.ip) {
            Some(i) => {
                proof {
                    assert(pre_views[i as int] == peer_view(work@[i as int]));
                }
                if !str_eq(
                    work[i].contents.public_key.as_str(),
                    new_peer.contents.public_key.as_str(),
                ) {
                    proof {
                        assert(pre_views[i as int].contents.public_key
                            != cur_views[j as int].contents.public_key);
                        assert(spec_merge_peers(pre_views, cur_views.skip(j as int)) is None);
                    }
                    return Err(StoreError::PinningViolation);
                }
                let replacement = clone_peer(new_peer);
                work.set(i, replacement);
                proof {
                    assert(peers_view(work@) =~= pre_views.update(
                        i as int,
                        cur_views[j as int],
                    ));
                    assert(spec_pins_preserved(orig, peers_view(work@)));
                }
            },
            None => {
                work.push(clone_peer(new_peer));
                proof {
                    assert(peers_view(work@) =~= pre_views.push(cur_views[j as int]));
                    assert(spec_pins_preserved(orig, peers_view(work@)));
                }
            },
        }
        j = j + 1;
    }
    proof {
        assert(cur_views.skip(cur_views.len() as int) =~= Seq::<PeerView<T>>::empty());
        assert(spec_merge_peers(orig, cur_views) == Some(peers_view(work@)));
    }
    // disable stored work whose key is gone from the server's list
    let ghost merged = peers_view(work@);
    let n = work.len();
    let mut i: usize = 0;
    while i < n
        invariant
            i <= n,
            n == work@.len(),
            merged.len() == n,
            cur_views == peers_view(current_peers@),
            orig == peers_view(old(peers)@),
            spec_pins_preserved(orig, merged),
            spec_merge_peers(orig, cur_views) == Some(merged),
            forall|k: int| i <= k < n ==> #[trigger] peers_view(work@)[k] == merged[k],
            forall|k: int|
                0 <= k < i ==> #[trigger] peers_view(work@)[k] == spec_disable_missing(
                    merged,
                    cur_views,
                )[k],
        decreases n - i,
    {
        let ghost snap = peers_view(work@);
        proof {
            assert(snap[i as int] == peer_view(work@[i as int]));
            assert(snap[i as int] == merged[i as int]);
        }
        let present = peer_key_present(current_peers, work[i].contents.public_key.as_str());
        if present {
            proof {
                assert(peers_view(work@)[i as int] == spec_disable_missing(
                    merged,
                    cur_views,
                )[i as int]);
            }
        } else {
            let mut p = clone_peer(&work[i]);
            p.contents.is_disabled = true;
            proof {
                assert(peer_view(p) == spec_disabled_peer(snap[i as int]));
            }
            work.set(i, p);
            proof {
                assert(forall|k: int|
                    0 <= k < n && k != i ==> #[trigger] peers_view(work@)[k] == snap[k]);
                assert(peers_view(work@)[i as int] == spec_disabled_peer(merged[i as int]));
            }
        }
        i = i + 1;
    }
    proof {
        assert(peers_view(work@) =~= spec_disable_missing(merged, cur_views));
        assert(spec_pins_preserved(orig, peers_view(work@)));
    }
    *peers = work;
    Ok(())
}

/// A database-facing peer: the peer as the control surface handles it.
pub struct DatabasePeer<T> {
    pub inner: Peer<T>,
}

impl DatabasePeer<String> {
    /// The hostname(7) name rule: under 64 bytes, matching
    /// `^([a-z0-9]-?)*[a-z0-9]$`.
    pub fn is_valid_name(name: &str) -> (r: bool)
        ensures
            r == spec_valid_peer_name(name.spec_bytes()),
    {
        let b = name.as_bytes();
        let n = b.len();
        if n == 0 || n >= 64 {
            return false;
        }
        if b[0] == 45 || b[n - 1] == 45 {
            return false;
        }
        let mut i: usize = 0;
        while i < n
            invariant
                i <= n,
                n == b@.len(),
                b@ == name.spec_bytes(),
                1 <= n < 64,
                forall|k: int| 0 <= k < i ==> spec_name_byte_ok(#[trigger] b@[k]),
                forall|k: int| 0 <= k < i - 1 ==> !(b@[k] == 45 && #[trigger] b@[k + 1] == 45),
            decreases n - i,
        {
            let c = b[i];
            let ok = (97 <= c && c <= 122) || (48 <= c && c <= 57) || c == 45;
            if !ok {
                proof {
                    assert(!spec_name_byte_ok(name.spec_bytes()[i as int]));
                }
                return false;
            }
            if i > 0 && c == 45 && b[i - 1] == 45 {
                proof {
                    let k = i - 1;
                    assert(name.spec_bytes()[k as int] == 45 && name.spec_bytes()[k as int + 1]
                        == 45);
                }
                return false;
            }
            i = i + 1;
        }
        true
    }

    /// Validation at peer creation (§ of the control surface): the name is
    /// well formed, and the parent CIDR both contains the proposed IP and
    /// can assign it.
    pub fn validate_create(contents: &PeerContents<String>, cidr: &CidrBlock) -> (r: Result<
        (),
        ServerError,
    >)
        requires
            cidr.prefix_len <= 32,
        ensures
            r is Ok <==> spec_valid_peer_name(vstd::utf8::encode_utf8(contents.name@))
                && cidr.spec_contains(
                contents.ip,
            ) && cidr.spec_is_assignable(contents.ip),
            r matches Err(e) ==> e == ServerError::InvalidQuery,
    {
        if !Self::is_valid_name(contents.name.as_str()) {
            return Err(ServerError::InvalidQuery);
        }
        if !cidr.contains(&contents.ip) {
            return Err(ServerError::InvalidQuery);
        }
        if !cidr.is_assignable(&contents.ip) {
            return Err(ServerError::InvalidQuery);
        }
        Ok(())
    }

    /// The update policy: only name, endpoint, admin flag, disabled flag
    /// and candidates may change; IP, public key, parent CIDR, redemption
    /// state and invite expiry are kept from the stored peer (the security
    /// boundary of `/user/update`).
    pub fn merge_update_contents(
        existing: &PeerContents<String>,
        update: &PeerContents<String>,
    ) -> (r: PeerContents<String>)
        ensures
            r.name@ == update.name@,
            opt_endpoint_view(r.endpoint) == opt_endpoint_view(update.endpoint),
            r.is_admin == update.is_admin,
            r.is_disabled == update.is_disabled,
            endpoints_view(r.candidates@) == endpoints_view(update.candidates@),
            r.ip == existing.ip,
            r.cidr_id@ == existing.cidr_id@,
            r.public_key@ == existing.public_key@,
            r.is_redeemed == existing.is_redeemed,
            r.invite_expires == existing.invite_expires,
            r.persistent_keepalive_interval == existing.persistent_keepalive_interval,
    {
        PeerContents {
            name: copy_string(&update.name),
            endpoint: clone_opt_endpoint(&update.endpoint),
            is_admin: update.is_admin,
            is_disabled: update.is_disabled,
            candidates: clone_endpoints(&update.candidates),
            ip: existing.ip,
            cidr_id: copy_string(&existing.cidr_id),
            public_key: copy_string(&existing.public_key),
            is_redeemed: existing.is_redeemed,
            invite_expires: existing.invite_expires,
            persistent_keepalive_interval: existing.persistent_keepalive_interval,
        }
    }

    /// The whole `/user/update` policy in one step: the new name must be
    /// well formed — `InvalidQuery` otherwise — and only the permitted
    /// fields are taken from the request, the rest keeping the stored
    /// values.
    pub fn update_contents(
        existing: &PeerContents<String>,
        update: &PeerContents<String>,
    ) -> (r: Result<PeerContents<String>, ServerError>)
        ensures
            r is Ok <==> spec_valid_peer_name(vstd::utf8::encode_utf8(update.name@)),
            r matches Err(e) ==> e == ServerError::InvalidQuery,
            r matches Ok(c) ==> c.name@ == update.name@ && opt_endpoint_view(c.endpoint)
                == opt_endpoint_view(update.endpoint) && c.is_admin == update.is_admin
                && c.is_disabled == update.is_disabled && endpoints_view(c.candidates@)
                == endpoints_view(update.candidates@) && c.ip == existing.ip && c.cidr_id@
                == existing.cidr_id@ && c.public_key@ == existing.public_key@ && c.is_redeemed
                == existing.is_redeemed && c.invite_expires == existing.invite_expires
                && c.persistent_keepalive_interval == existing.persistent_keepalive_interval,
    {
        if !Self::is_valid_name(update.name.as_str()) {
            return Err(ServerError::InvalidQuery);
        }
        Ok(Self::merge_update_contents(existing, update))
    }

    /// Whether an invite may still be redeemed now: `Gone` once redeemed,
    /// `Unauthorized` once expired.
    pub fn redeem_check(is_redeemed: bool, invite_expires: Option<u64>, now: u64) -> (r: Result<
        (),
        ServerError,
    >)
        ensures
            r is Ok <==> !is_redeemed && !(invite_expires matches Some(t) && t < now),
            is_redeemed ==> r == Err::<(), ServerError>(ServerError::Gone),
            !is_redeemed && (invite_expires matches Some(t) && t < now) ==> r == Err::<
                (),
                ServerError,
            >(ServerError::Unauthorized),
    {
        if is_redeemed {
            return Err(ServerError::Gone);
        }
        match invite_expires {
            Some(t) => {
                if t < now {
                    Err(ServerError::Unauthorized)
                } else {
                    Ok(())
                }
            },
            None => Ok(()),
        }
    }

    /// Redemption: the public key binds and the peer becomes redeemed, in
    /// one step.
    pub fn apply_redeem(contents: &PeerContents<String>, pubkey: &str) -> (r: PeerContents<
        String,
    >)
        ensures
            r.public_key@ == pubkey@,
            r.is_redeemed,
            r.name@ == contents.name@,
            r.ip == contents.ip,
            r.cidr_id@ == contents.cidr_id@,
            opt_endpoint_view(r.endpoint) == opt_endpoint_view(contents.endpoint),
            r.is_admin == contents.is_admin,
            r.is_disabled == contents.is_disabled,
            r.invite_expires == contents.invite_expires,
            endpoints_view(r.candidates@) == endpoints_view(contents.candidates@),
            r.persistent_keepalive_interval == contents.persistent_keepalive_interval,
    {
        PeerContents {
            public_key: pubkey.to_owned(),
            is_redeemed: true,
            name: copy_string(&contents.name),
            ip: contents.ip,
            cidr_id: copy_string(&contents.cidr_id),
            endpoint: clone_opt_endpoint(&contents.endpoint),
            is_admin: contents.is_admin,
            is_disabled: contents.is_disabled,
            invite_expires: contents.invite_expires,
            candidates: clone_endpoints(&contents.candidates),
            persistent_keepalive_interval: contents.persistent_keepalive_interval,
        }
    }

    /// Frames a `state`-topic queue request: subtopic 0 carries peer
    /// requests.
    pub fn build_peer_queue_request(payload: &[u8]) -> (r: crate::queue::QueueWriteRequest)
        ensures
            r.topic@ == crate::codec::spec_hex_of(
                crate::codec::sha3_256_of("state".spec_bytes()),
            ),
            r.content@ == seq![0u8] + payload@,
    {
        crate::queue::build_queue_write("state", 0, payload)
    }
}

} // verus!
