//! The replicated network state: peers, CIDRs, associations and DNS zones,
//! each a keyed collection of last-writer-wins registers (see `crdt`),
//! mutated only through operations that carry causal context, and the
//! handlers of the control surface over them.
use vstd::prelude::*;
use vstd::string::StringExecFns;
use crate::crdt::{StateMap, MapOp, RegEntry, spec_map_reg, spec_apply_entry, map_well_formed};
use crate::dns::{FormDnsRecord, dns_record_view, clone_dns_record, DnsRecordView};
use crate::peers::{
    Peer, PeerContents, PeerContentsView, CidrBlock, peer_string_view, contents_string_view,
    clone_peer_string, PeerView, IpAddress,
};
use crate::strutil::{str_eq, copy_string};
use crate::codec::{sha3_256, sha3_256_of};

verus! {

/// The payload of a successful answer.  (The single-value and empty
/// variants carry these names because this crate cannot reuse the words of
/// the option type for them.)
#[derive(Clone, Debug)]
pub enum Success<T> {
    Value(T),
    List(Vec<T>),
    Empty,
}

/// The answer of a state operation.
#[derive(Clone, Debug)]
pub enum Response<T> {
    Success(Success<T>),
    Failure { reason: Option<String> },
}

/// A CIDR's attributes.
pub struct CidrContents<T> {
    pub name: String,
    pub cidr: CidrBlock,
    pub parent: Option<T>,
}

/// A CIDR of the network: an identifier and its attributes.
pub struct Cidr<T> {
    pub id: T,
    pub contents: CidrContents<T>,
}

/// The ghost image of a CIDR with string identifiers.
pub ghost struct CidrView {
    pub id: Seq<char>,
    pub name: Seq<char>,
    pub cidr: CidrBlock,
    pub parent: Option<Seq<char>>,
}

pub open spec fn cidr_view(c: Cidr<String>) -> CidrView {
    CidrView {
        id: c.id@,
        name: c.contents.name@,
        cidr: c.contents.cidr,
        parent: match c.contents.parent {
            Some(p) => Some(p@),
            None => None,
        },
    }
}

/// A copy of a CIDR.
pub fn clone_cidr(c: &Cidr<String>) -> (r: Cidr<String>)
    ensures
        cidr_view(r) == cidr_view(*c),
{
    Cidr {
        id: copy_string(&c.id),
        contents: CidrContents {
            name: copy_string(&c.contents.name),
            cidr: c.contents.cidr,
            parent: match &c.contents.parent {
                Some(p) => Some(copy_string(p)),
                None => None,
            },
        },
    }
}

/// A visibility grant between two CIDR subtrees.
pub struct Association {
    pub cidr_id_1: String,
    pub cidr_id_2: String,
}

/// The ghost image of an association.
pub ghost struct AssociationView {
    pub cidr_id_1: Seq<char>,
    pub cidr_id_2: Seq<char>,
}

pub open spec fn association_view(a: Association) -> AssociationView {
    AssociationView { cidr_id_1: a.cidr_id_1@, cidr_id_2: a.cidr_id_2@ }
}

/// A copy of an association.
pub fn clone_association(a: &Association) -> (r: Association)
    ensures
        association_view(r) == association_view(*a),
{
    Association { cidr_id_1: copy_string(&a.cidr_id_1), cidr_id_2: copy_string(&a.cidr_id_2) }
}

/// The DNS zones of the network state.
pub struct DnsState {
    pub zones: StateMap<Option<FormDnsRecord>>,
}

/// The replicated network state of one node.
pub struct NetworkState {
    pub node_id: String,
    pub pk: String,
    pub actor: u64,
    pub peers: StateMap<Option<Peer<String>>>,
    pub cidrs: StateMap<Option<Cidr<String>>>,
    pub associations: StateMap<Option<Association>>,
    pub dns_state: DnsState,
}

/// All four maps keep each key at most once.
pub open spec fn network_state_well_formed(s: NetworkState) -> bool {
    &&& map_well_formed(s.peers)
    &&& map_well_formed(s.cidrs)
    &&& map_well_formed(s.associations)
    &&& map_well_formed(s.dns_state.zones)
}

/// A 64-bit value read big-endian from the first eight bytes.
pub open spec fn spec_u64_from_bytes(b: Seq<u8>) -> u64
    recommends
        b.len() >= 8,
{
    (((b[0] as u64) << 56) | ((b[1] as u64) << 48) | ((b[2] as u64) << 40) | ((b[3] as u64)
        << 32) | ((b[4] as u64) << 24) | ((b[5] as u64) << 16) | ((b[6] as u64) << 8) | (
    b[7] as u64)) as u64
}

/// The actor identity a node derives from its public key: the first eight
/// bytes of the key's SHA3-256 digest.
pub open spec fn spec_actor_of(pk: Seq<char>) -> u64 {
    spec_u64_from_bytes(sha3_256_of(vstd::utf8::encode_utf8(pk)))
}

fn u64_from_bytes(b: &[u8]) -> (r: u64)
    requires
        b@.len() >= 8,
    ensures
        r == spec_u64_from_bytes(b@),
{
    ((b[0] as u64) << 56) | ((b[1] as u64) << 48) | ((b[2] as u64) << 40) | ((b[3] as u64)
        << 32) | ((b[4] as u64) << 24) | ((b[5] as u64) << 16) | ((b[6] as u64) << 8) | (
    b[7] as u64)
}

/// The clock of the next local write against a register: one past the
/// current entry's clock (the causal context), saturating.
pub open spec fn spec_next_clock<V>(cur: Option<RegEntry<V>>) -> u64 {
    match cur {
        None => 1u64,
        Some(e) => if e.clock == u64::MAX {
            u64::MAX
        } else {
            (e.clock + 1) as u64
        },
    }
}

/// Builds a local update operation against a map: the next clock for the
/// key, this node's actor, and the value.
pub fn make_update_op<V>(map: &StateMap<Option<V>>, key: String, actor: u64, value: V) -> (op:
    MapOp<Option<V>>)
    ensures
        op.key@ == key@,
        op.op.actor == actor,
        op.op.value == Some(value),
        op.op.clock == spec_next_clock(spec_map_reg(*map, key@)),
{
    let clock = match map.get_entry(key.as_str()) {
        Some(e) => if e.clock == u64::MAX {
            u64::MAX
        } else {
            e.clock + 1
        },
        None => 1,
    };
    MapOp { key, op: RegEntry { clock, actor, value: Some(value) } }
}

/// Builds a local removal: a tombstone write under the next clock.
pub fn make_remove_op<V>(map: &StateMap<Option<V>>, key: String, actor: u64) -> (op: MapOp<
    Option<V>,
>)
    ensures
        op.key@ == key@,
        op.op.actor == actor,
        op.op.value is None,
        op.op.clock == spec_next_clock(spec_map_reg(*map, key@)),
{
    let clock = match map.get_entry(key.as_str()) {
        Some(e) => if e.clock == u64::MAX {
            u64::MAX
        } else {
            e.clock + 1
        },
        None => 1,
    };
    MapOp { key, op: RegEntry { clock, actor, value: None } }
}

/// Whether an operation is the register's current winner at its key.
pub open spec fn spec_op_accepted<V>(
    map: StateMap<Option<V>>,
    key: Seq<char>,
    op: MapOp<Option<V>>,
) -> bool {
    match spec_map_reg(map, key) {
        Some(e) => e.clock == op.op.clock && e.actor == op.op.actor,
        None => false,
    }
}

/// Decides acceptance of an applied operation.
pub fn op_accepted<V>(map: &StateMap<Option<V>>, key: &str, op: &MapOp<Option<V>>) -> (r: bool)
    ensures
        r == spec_op_accepted(*map, key@, *op),
{
    match map.get_entry(key) {
        Some(e) => e.clock == op.op.clock && e.actor == op.op.actor,
        None => false,
    }
}

impl NetworkState {
    /// A fresh state for a node: empty maps, the actor derived from the
    /// node's public key.
    pub fn new(node_id: String, pk: String) -> (r: NetworkState)
        ensures
            r.node_id@ == node_id@,
            r.pk@ == pk@,
            r.actor == spec_actor_of(pk@),
            network_state_well_formed(r),
            r.peers.entries@.len() == 0,
            r.cidrs.entries@.len() == 0,
            r.associations.entries@.len() == 0,
            r.dns_state.zones.entries@.len() == 0,
    {
        let digest = sha3_256(pk.as_str().as_bytes());
        let actor = u64_from_bytes(digest.as_slice());
        NetworkState {
            node_id,
            pk,
            actor,
            peers: StateMap::new(),
            cidrs: StateMap::new(),
            associations: StateMap::new(),
            dns_state: DnsState { zones: StateMap::new() },
        }
    }

    /// A local peer upsert: keyed by the peer's name, which also becomes
    /// its identifier.
    pub fn update_peer_local(&self, contents: PeerContents<String>) -> (op: MapOp<
        Option<Peer<String>>,
    >)
        ensures
            op.key@ == contents.name@,
            op.op.actor == self.actor,
            op.op.clock == spec_next_clock(spec_map_reg(self.peers, contents.name@)),
            op.op.value matches Some(p) && p.id@ == contents.name@ && contents_string_view(
                p.contents,
            ) == contents_string_view(contents),
    {
        let key = copy_string(&contents.name);
        let id = copy_string(&contents.name);
        make_update_op(&self.peers, key, self.actor, Peer { id, contents })
    }

    /// A local peer removal: a tombstone under the peer's key.
    pub fn remove_peer_local(&self, id: String) -> (op: MapOp<Option<Peer<String>>>)
        ensures
            op.key@ == id@,
            op.op.actor == self.actor,
            op.op.value is None,
            op.op.clock == spec_next_clock(spec_map_reg(self.peers, id@)),
    {
        make_remove_op(&self.peers, id, self.actor)
    }

    /// Applies a peer operation (idempotent, commutative: see `crdt`).
    pub fn peer_op(&mut self, op: MapOp<Option<Peer<String>>>)
        requires
            map_well_formed(old(self).peers),
        ensures
            map_well_formed(final (self).peers),
            spec_map_reg(final (self).peers, op.key@) == spec_apply_entry(
                spec_map_reg(old(self).peers, op.key@),
                op.op,
            ),
            forall|h: Seq<char>|
                h != op.key@ ==> #[trigger] spec_map_reg(final (self).peers, h) == spec_map_reg(
                    old(self).peers,
                    h,
                ),
            final (self).cidrs == old(self).cidrs,
            final (self).associations == old(self).associations,
            final (self).dns_state == old(self).dns_state,
            final (self).node_id == old(self).node_id,
            final (self).actor == old(self).actor,
    {
        self.peers.apply(op)
    }

    /// Whether a peer operation won its register, and the value there.
    pub fn peer_op_success(&self, key: &str, op: &MapOp<Option<Peer<String>>>) -> (r: (
        bool,
        Option<Peer<String>>,
    ))
        ensures
            r.0 == spec_op_accepted(self.peers, key@, *op),
            r.0 ==> match spec_map_reg(self.peers, key@) {
                Some(e) => match e.value {
                    Some(p) => r.1 matches Some(q) && peer_string_view(q) == peer_string_view(p),
                    None => r.1 is None,
                },
                None => false,
            },
    {
        let accepted = op_accepted(&self.peers, key, op);
        if accepted {
            match self.peers.get_entry(key) {
                Some(e) => {
                    match &e.value {
                        Some(p) => (true, Some(clone_peer_string(p))),
                        None => (true, None),
                    }
                },
                None => (false, None),
            }
        } else {
            (false, None)
        }
    }

    /// A local CIDR upsert, keyed by the CIDR's name.
    pub fn update_cidr_local(&self, contents: CidrContents<String>) -> (op: MapOp<
        Option<Cidr<String>>,
    >)
        ensures
            op.key@ == contents.name@,
            op.op.actor == self.actor,
            op.op.clock == spec_next_clock(spec_map_reg(self.cidrs, contents.name@)),
            op.op.value matches Some(c) && c.id@ == contents.name@ && c.contents.name@
                == contents.name@ && c.contents.cidr == contents.cidr,
    {
        let key = copy_string(&contents.name);
        let id = copy_string(&contents.name);
        make_update_op(&self.cidrs, key, self.actor, Cidr { id, contents })
    }

    /// A local CIDR removal.
    pub fn remove_cidr_local(&self, id: String) -> (op: MapOp<Option<Cidr<String>>>)
        ensures
            op.key@ == id@,
            op.op.actor == self.actor,
            op.op.value is None,
            op.op.clock == spec_next_clock(spec_map_reg(self.cidrs, id@)),
    {
        make_remove_op(&self.cidrs, id, self.actor)
    }

    /// Applies a CIDR operation.
    pub fn cidr_op(&mut self, op: MapOp<Option<Cidr<String>>>)
        requires
            map_well_formed(old(self).cidrs),
        ensures
            map_well_formed(final (self).cidrs),
            spec_map_reg(final (self).cidrs, op.key@) == spec_apply_entry(
                spec_map_reg(old(self).cidrs, op.key@),
                op.op,
            ),
            forall|h: Seq<char>|
                h != op.key@ ==> #[trigger] spec_map_reg(final (self).cidrs, h) == spec_map_reg(
                    old(self).cidrs,
                    h,
                ),
            final (self).peers == old(self).peers,
            final (self).associations == old(self).associations,
            final (self).dns_state == old(self).dns_state,
    {
        self.cidrs.apply(op)
    }

    /// Whether a CIDR operation won its register, and the value there.
    pub fn cidr_op_success(&self, key: &str, op: &MapOp<Option<Cidr<String>>>) -> (r: (
        bool,
        Option<Cidr<String>>,
    ))
        ensures
            r.0 == spec_op_accepted(self.cidrs, key@, *op),
            r.0 ==> match spec_map_reg(self.cidrs, key@) {
                Some(e) => match e.value {
                    Some(c) => r.1 matches Some(q) && cidr_view(q) == cidr_view(c),
                    None => r.1 is None,
                },
                None => false,
            },
    {
        let accepted = op_accepted(&self.cidrs, key, op);
        if accepted {
            match self.cidrs.get_entry(key) {
                Some(e) => {
                    match &e.value {
                        Some(c) => (true, Some(clone_cidr(c))),
                        None => (true, None),
                    }
                },
                None => (false, None),
            }
        } else {
            (false, None)
        }
    }

    /// A local association upsert, keyed by the joined CIDR ids.
    pub fn update_association_local(&self, contents: Association) -> (op: MapOp<
        Option<Association>,
    >)
        ensures
            op.key@ == contents.cidr_id_1@ + ":"@ + contents.cidr_id_2@,
            op.op.actor == self.actor,
            op.op.clock == spec_next_clock(
                spec_map_reg(
                    self.associations,
                    contents.cidr_id_1@ + ":"@ + contents.cidr_id_2@,
                ),
            ),
            op.op.value matches Some(a) && association_view(a) == association_view(contents),
    {
        let mut key = copy_string(&contents.cidr_id_1);
        key.append(":");
        key.append(contents.cidr_id_2.as_str());
        make_update_op(&self.associations, key, self.actor, contents)
    }

    /// A local association removal.
    pub fn remove_association_local(&self, id: String) -> (op: MapOp<Option<Association>>)
        ensures
            op.key@ == id@,
            op.op.actor == self.actor,
            op.op.value is None,
            op.op.clock == spec_next_clock(spec_map_reg(self.associations, id@)),
    {
        make_remove_op(&self.associations, id, self.actor)
    }

    /// Applies an association operation.
    pub fn associations_op(&mut self, op: MapOp<Option<Association>>)
        requires
            map_well_formed(old(self).associations),
        ensures
            map_well_formed(final (self).associations),
            spec_map_reg(final (self).associations, op.key@) == spec_apply_entry(
                spec_map_reg(old(self).associations, op.key@),
                op.op,
            ),
            forall|h: Seq<char>|
                h != op.key@ ==> #[trigger] spec_map_reg(final (self).associations, h)
                    == spec_map_reg(old(self).associations, h),
            final (self).peers == old(self).peers,
            final (self).cidrs == old(self).cidrs,
            final (self).dns_state == old(self).dns_state,
    {
        self.associations.apply(op)
    }

    /// Whether an association operation won its register, and the value.
    pub fn associations_op_success(&self, key: &str, op: &MapOp<Option<Association>>) -> (r: (
        bool,
        Option<Association>,
    ))
        ensures
            r.0 == spec_op_accepted(self.associations, key@, *op),
            r.0 ==> match spec_map_reg(self.associations, key@) {
                Some(e) => match e.value {
                    Some(a) => r.1 matches Some(q) && association_view(q) == association_view(a),
                    None => r.1 is None,
                },
                None => false,
            },
    {
        let accepted = op_accepted(&self.associations, key, op);
        if accepted {
            match self.associations.get_entry(key) {
                Some(e) => {
                    match &e.value {
                        Some(a) => (true, Some(clone_association(a))),
                        None => (true, None),
                    }
                },
                None => (false, None),
            }
        } else {
            (false, None)
        }
    }

    /// A local DNS record upsert, keyed by the record's domain.
    pub fn update_dns_local(&self, record: FormDnsRecord) -> (op: MapOp<Option<FormDnsRecord>>)
        ensures
            op.key@ == record.domain@,
            op.op.actor == self.actor,
            op.op.clock == spec_next_clock(spec_map_reg(self.dns_state.zones, record.domain@)),
            op.op.value matches Some(r) && dns_record_view(r) == dns_record_view(record),
    {
        let key = copy_string(&record.domain);
        make_update_op(&self.dns_state.zones, key, self.actor, record)
    }

    /// A local DNS record removal.
    pub fn remove_dns_local(&self, domain: String) -> (op: MapOp<Option<FormDnsRecord>>)
        ensures
            op.key@ == domain@,
            op.op.actor == self.actor,
            op.op.value is None,
            op.op.clock == spec_next_clock(spec_map_reg(self.dns_state.zones, domain@)),
    {
        make_remove_op(&self.dns_state.zones, domain, self.actor)
    }

    /// Applies a DNS operation.
    pub fn dns_op(&mut self, op: MapOp<Option<FormDnsRecord>>)
        requires
            map_well_formed(old(self).dns_state.zones),
        ensures
            map_well_formed(final (self).dns_state.zones),
            spec_map_reg(final (self).dns_state.zones, op.key@) == spec_apply_entry(
                spec_map_reg(old(self).dns_state.zones, op.key@),
                op.op,
            ),
            forall|h: Seq<char>|
                h != op.key@ ==> #[trigger] spec_map_reg(final (self).dns_state.zones, h)
                    == spec_map_reg(old(self).dns_state.zones, h),
            final (self).peers == old(self).peers,
            final (self).cidrs == old(self).cidrs,
            final (self).associations == old(self).associations,
    {
        let zones = &mut self.dns_state.zones;
        zones.apply(op)
    }

    /// Whether a DNS operation won its register, and the value there.
    pub fn dns_op_success(&self, key: &str, op: &MapOp<Option<FormDnsRecord>>) -> (r: (
        bool,
        Option<FormDnsRecord>,
    ))
        ensures
            r.0 == spec_op_accepted(self.dns_state.zones, key@, *op),
            r.0 ==> match spec_map_reg(self.dns_state.zones, key@) {
                Some(e) => match e.value {
                    Some(rec) => r.1 matches Some(q) && dns_record_view(q) == dns_record_view(
                        rec,
                    ),
                    None => r.1 is None,
                },
                None => false,
            },
    {
        let accepted = op_accepted(&self.dns_state.zones, key, op);
        if accepted {
            match self.dns_state.zones.get_entry(key) {
                Some(e) => {
                    match &e.value {
                        Some(rec) => (true, Some(clone_dns_record(rec))),
                        None => (true, None),
                    }
                },
                None => (false, None),
            }
        } else {
            (false, None)
        }
    }

    /// The live peer carrying an IP, if one does.
    pub fn get_peer_by_ip(&self, ip: IpAddress) -> (r: Option<Peer<String>>)
        ensures
            r matches Some(p) ==> exists|i: int|
                0 <= i < self.peers.entries@.len() && ((
                #[trigger] self.peers.entries@[i]).1.entry matches Some(e) && (e.value matches Some(
                    q,
                ) && q.contents.ip == ip && peer_string_view(p) == peer_string_view(q))),
            r is None ==> forall|i: int|
                0 <= i < self.peers.entries@.len() ==> !((
                #[trigger] self.peers.entries@[i]).1.entry matches Some(e) && e.value matches Some(
                    q,
                ) && q.contents.ip == ip),
    {
        let mut i: usize = 0;
        while i < self.peers.entries.len()
            invariant
                i <= self.peers.entries@.len(),
                forall|k: int|
                    0 <= k < i ==> !((#[trigger] self.peers.entries@[k]).1.entry matches Some(e)
                        && e.value matches Some(q) && q.contents.ip == ip),
            decreases self.peers.entries@.len() - i,
        {
            match &self.peers.entries[i].1.entry {
                Some(e) => {
                    match &e.value {
                        Some(p) => {
                            if p.contents.ip == ip {
                                return Some(clone_peer_string(p));
                            }
                        },
                        None => {},
                    }
                },
                None => {},
            }
            i = i + 1;
        }
        None
    }
}

/// Convergence of the replicated state, at the network-state level: two
/// replicas that receive the same set of (key, operation) pairs for one of
/// the four maps — in any order, with any duplicates — hold the same
/// register at every key.  The coherence premise is what the operations'
/// causal context and signatures guarantee: no two distinct operations
/// share a clock and actor.
pub proof fn lemma_state_map_convergence<V>(
    init: Option<RegEntry<Option<V>>>,
    ops1: Seq<(Seq<char>, RegEntry<Option<V>>)>,
    ops2: Seq<(Seq<char>, RegEntry<Option<V>>)>,
    key: Seq<char>,
)
    requires
        ops1.to_set() == ops2.to_set(),
        crate::crdt::entries_coherent(
            crate::crdt::reg_candidates(init, crate::crdt::ops_for_key(ops1, key).to_set()),
        ),
    ensures
        crate::crdt::spec_apply_entry_ops(init, crate::crdt::ops_for_key(ops1, key))
            == crate::crdt::spec_apply_entry_ops(init, crate::crdt::ops_for_key(ops2, key)),
{
    crate::crdt::lemma_map_convergence(init, ops1, ops2, key);
}

/// The resources an instance runs with.
#[derive(Clone, Debug)]
pub struct InstanceResources {
    pub vcpus: u8,
    pub memory_mb: u32,
    pub bandwidth_mbps: u32,
    pub gpu: Option<String>,
}

/// The engine-visible lifecycle of an instance.
#[derive(Clone, Copy, Debug, PartialEq, Eq, Structural)]
pub enum InstanceStatus {
    Building,
    Built,
    Running,
    Failed,
}

/// What happens to an instance, as the engine sees it.
#[derive(Clone, Copy, Debug, PartialEq, Eq, Structural)]
pub enum InstanceEvent {
    Created,
    BuildSucceeded,
    BuildFailed,
    VmmStarted,
    VmmStopped,
}

/// The engine-visible lifecycle: an absent instance is created Building,
/// a build ends in Built or Failed, the hypervisor moves Built to Running,
/// and a stop or reboot returns a Running instance to Built.  Anything
/// else leaves the state alone.
pub fn next_instance_status(current: Option<InstanceStatus>, event: InstanceEvent) -> (r: Option<
    InstanceStatus,
>)
    ensures
        r == (match (current, event) {
            (None, InstanceEvent::Created) => Some(InstanceStatus::Building),
            (Some(InstanceStatus::Building), InstanceEvent::BuildSucceeded) => Some(
                InstanceStatus::Built,
            ),
            (Some(InstanceStatus::Building), InstanceEvent::BuildFailed) => Some(
                InstanceStatus::Failed,
            ),
            (Some(InstanceStatus::Built), InstanceEvent::VmmStarted) => Some(
                InstanceStatus::Running,
            ),
            (Some(InstanceStatus::Running), InstanceEvent::VmmStopped) => Some(
                InstanceStatus::Built,
            ),
            _ => current,
        }),
{
    match (current, event) {
        (None, InstanceEvent::Created) => Some(InstanceStatus::Building),
        (Some(InstanceStatus::Building), InstanceEvent::BuildSucceeded) => Some(
            InstanceStatus::Built,
        ),
        (Some(InstanceStatus::Building), InstanceEvent::BuildFailed) => Some(
            InstanceStatus::Failed,
        ),
        (Some(InstanceStatus::Built), InstanceEvent::VmmStarted) => Some(InstanceStatus::Running),
        (Some(InstanceStatus::Running), InstanceEvent::VmmStopped) => Some(InstanceStatus::Built),
        _ => current,
    }
}

/// One instance of a built workload.
pub struct Instance {
    pub instance_id: String,
    pub node_id: String,
    pub build_id: String,
    pub instance_owner: String,
    pub updated_at: i64,
    pub status: InstanceStatus,
    pub formfile: String,
    pub resources: InstanceResources,
    pub dns_record: Option<FormDnsRecord>,
    pub formnet_ip: Option<IpAddress>,
}

/// The ghost image of an instance.
pub ghost struct InstanceView {
    pub instance_id: Seq<char>,
    pub node_id: Seq<char>,
    pub build_id: Seq<char>,
    pub instance_owner: Seq<char>,
    pub updated_at: i64,
    pub status: InstanceStatus,
    pub formfile: Seq<char>,
    pub vcpus: u8,
    pub memory_mb: u32,
    pub bandwidth_mbps: u32,
    pub dns_record: Option<DnsRecordView>,
    pub formnet_ip: Option<IpAddress>,
}

pub open spec fn instance_view(i: Instance) -> InstanceView {
    InstanceView {
        instance_id: i.instance_id@,
        node_id: i.node_id@,
        build_id: i.build_id@,
        instance_owner: i.instance_owner@,
        updated_at: i.updated_at,
        status: i.status,
        formfile: i.formfile@,
        vcpus: i.resources.vcpus,
        memory_mb: i.resources.memory_mb,
        bandwidth_mbps: i.resources.bandwidth_mbps,
        dns_record: match i.dns_record {
            Some(r) => Some(dns_record_view(r)),
            None => None,
        },
        formnet_ip: i.formnet_ip,
    }
}

/// A copy of an instance.
pub fn clone_instance(i: &Instance) -> (r: Instance)
    ensures
        instance_view(r) == instance_view(*i),
{
    Instance {
        instance_id: copy_string(&i.instance_id),
        node_id: copy_string(&i.node_id),
        build_id: copy_string(&i.build_id),
        instance_owner: copy_string(&i.instance_owner),
        updated_at: i.updated_at,
        status: i.status,
        formfile: copy_string(&i.formfile),
        resources: InstanceResources {
            vcpus: i.resources.vcpus,
            memory_mb: i.resources.memory_mb,
            bandwidth_mbps: i.resources.bandwidth_mbps,
            gpu: match &i.resources.gpu {
                Some(g) => Some(copy_string(g)),
                None => None,
            },
        },
        dns_record: match &i.dns_record {
            Some(r) => Some(clone_dns_record(r)),
            None => None,
        },
        formnet_ip: i.formnet_ip,
    }
}

/// Where a node can be reached.
pub enum HostSpec {
    Domain(String),
    Ipv4(IpAddress),
}

pub open spec fn host_view(h: HostSpec) -> Option<Seq<char>> {
    match h {
        HostSpec::Domain(d) => Some(d@),
        HostSpec::Ipv4(_) => None,
    }
}

/// A copy of a host.
pub fn clone_host(h: &HostSpec) -> (r: HostSpec)
    ensures
        host_full_view(r) == host_full_view(*h),
        r is Domain <==> h is Domain,
{
    match h {
        HostSpec::Domain(d) => HostSpec::Domain(copy_string(d)),
        HostSpec::Ipv4(ip) => HostSpec::Ipv4(*ip),
    }
}

/// One node of the fleet.
pub struct Node {
    pub id: String,
    pub host: HostSpec,
}

/// A request against the peer map.
pub enum PeerRequest {
    Op(MapOp<Option<Peer<String>>>),
    Join(PeerContents<String>),
    Update(PeerContents<String>),
    Delete(String),
}

/// A request against the CIDR map.
pub enum CidrRequest {
    Op(MapOp<Option<Cidr<String>>>),
    Create(CidrContents<String>),
    Update(CidrContents<String>),
    Delete(String),
}

/// A request against the association map.
pub enum AssocRequest {
    Op(MapOp<Option<Association>>),
    Create(Association),
    Delete(String),
}

/// A request against the DNS zone map.
pub enum DnsRequest {
    Op(MapOp<Option<FormDnsRecord>>),
    Create(FormDnsRecord),
    Update(FormDnsRecord),
    Delete(String),
}

/// The node's authoritative copy of all replicated state.
pub struct DataStore {
    pub network_state: NetworkState,
    pub instance_state: StateMap<Option<Instance>>,
    pub node_state: StateMap<Option<Node>>,
}

/// The live peers of a map, in entry order, with their keys.
pub open spec fn spec_live_peers(
    entries: Seq<(String, crate::crdt::LwwReg<Option<Peer<String>>>)>,
) -> Seq<(Seq<char>, PeerView<Seq<char>>)>
    decreases entries.len(),
{
    if entries.len() == 0 {
        Seq::empty()
    } else {
        let rest = spec_live_peers(entries.drop_first());
        match entries[0].1.entry {
            Some(e) => match e.value {
                Some(p) => seq![(entries[0].0@, peer_string_view(p))] + rest,
                None => rest,
            },
            None => rest,
        }
    }
}

/// The live peers that are active admins: admin and not disabled.
pub open spec fn spec_active_admins(
    entries: Seq<(String, crate::crdt::LwwReg<Option<Peer<String>>>)>,
) -> Seq<(Seq<char>, PeerView<Seq<char>>)>
    decreases entries.len(),
{
    if entries.len() == 0 {
        Seq::empty()
    } else {
        let rest = spec_active_admins(entries.drop_first());
        match entries[0].1.entry {
            Some(e) => match e.value {
                Some(p) => if p.contents.is_admin && !p.contents.is_disabled {
                    seq![(entries[0].0@, peer_string_view(p))] + rest
                } else {
                    rest
                },
                None => rest,
            },
            None => rest,
        }
    }
}

pub open spec fn peer_pairs_view(ps: Seq<(String, Peer<String>)>) -> Seq<(
    Seq<char>,
    PeerView<Seq<char>>,
)> {
    ps.map(|i: int, p: (String, Peer<String>)| (p.0@, peer_string_view(p.1)))
}

/// The pairs of a peer list that lie in one CIDR, in order.
pub open spec fn spec_peers_in_cidr(
    pairs: Seq<(Seq<char>, PeerView<Seq<char>>)>,
    cidr: Seq<char>,
) -> Seq<(Seq<char>, PeerView<Seq<char>>)>
    decreases pairs.len(),
{
    if pairs.len() == 0 {
        Seq::empty()
    } else {
        let rest = spec_peers_in_cidr(pairs.drop_first(), cidr);
        if pairs[0].1.contents.cidr_id == cidr {
            seq![pairs[0]] + rest
        } else {
            rest
        }
    }
}

/// The pairs of a peer list whose unredeemed invite expired by `now`.
pub open spec fn spec_expired_pairs(
    pairs: Seq<(Seq<char>, PeerView<Seq<char>>)>,
    now: u64,
) -> Seq<(Seq<char>, PeerView<Seq<char>>)>
    decreases pairs.len(),
{
    if pairs.len() == 0 {
        Seq::empty()
    } else {
        let rest = spec_expired_pairs(pairs.drop_first(), now);
        let c = pairs[0].1.contents;
        if (c.invite_expires matches Some(t) && t < now) && !c.is_redeemed {
            seq![pairs[0]] + rest
        } else {
            rest
        }
    }
}

/// The images of an instance list.
pub open spec fn instances_view(s: Seq<Instance>) -> Seq<InstanceView> {
    s.map(|i: int, inst: Instance| instance_view(inst))
}

/// The live instances of one build, in entry order.
pub open spec fn spec_live_instances_with_build(
    entries: Seq<(String, crate::crdt::LwwReg<Option<Instance>>)>,
    bid: Seq<char>,
) -> Seq<InstanceView>
    decreases entries.len(),
{
    if entries.len() == 0 {
        Seq::empty()
    } else {
        let rest = spec_live_instances_with_build(entries.drop_first(), bid);
        match entries[0].1.entry {
            Some(e) => match e.value {
                Some(inst) => if inst.build_id@ == bid {
                    seq![instance_view(inst)] + rest
                } else {
                    rest
                },
                None => rest,
            },
            None => rest,
        }
    }
}

/// The overlay addresses of a list of instances, as port-80 sockets.
pub open spec fn spec_formnet_sockets(instances: Seq<InstanceView>) -> Seq<crate::dns::SockAddr>
    decreases instances.len(),
{
    if instances.len() == 0 {
        Seq::empty()
    } else {
        let rest = spec_formnet_sockets(instances.drop_first());
        match instances[0].formnet_ip {
            Some(ip) => seq![crate::dns::SockAddr { ip, port: 80u16 }] + rest,
            None => rest,
        }
    }
}

/// The ghost image of a host.
pub ghost struct HostV {
    pub domain: Option<Seq<char>>,
    pub ipv4: Option<IpAddress>,
}

pub open spec fn host_full_view(h: HostSpec) -> HostV {
    match h {
        HostSpec::Domain(d) => HostV { domain: Some(d@), ipv4: None },
        HostSpec::Ipv4(ip) => HostV { domain: None, ipv4: Some(ip) },
    }
}

pub open spec fn hosts_view(s: Seq<HostSpec>) -> Seq<HostV> {
    s.map(|i: int, h: HostSpec| host_full_view(h))
}

/// Whether any of the instances runs on the node with this id.
pub open spec fn spec_runs_node(instances: Seq<InstanceView>, id: Seq<char>) -> bool {
    exists|j: int| 0 <= j < instances.len() && (#[trigger] instances[j]).node_id == id
}

/// The hosts of the live nodes that run any of the instances, in entry
/// order.
pub open spec fn spec_hosts_for(
    entries: Seq<(String, crate::crdt::LwwReg<Option<Node>>)>,
    instances: Seq<InstanceView>,
) -> Seq<HostV>
    decreases entries.len(),
{
    if entries.len() == 0 {
        Seq::empty()
    } else {
        let rest = spec_hosts_for(entries.drop_first(), instances);
        match entries[0].1.entry {
            Some(e) => match e.value {
                Some(n) => if spec_runs_node(instances, n.id@) {
                    seq![host_full_view(n.host)] + rest
                } else {
                    rest
                },
                None => rest,
            },
            None => rest,
        }
    }
}

impl DataStore {
    /// A fresh store for a node.
    pub fn new(node_id: String, pk: String) -> (r: DataStore)
        ensures
            r.network_state.node_id@ == node_id@,
            r.network_state.pk@ == pk@,
            network_state_well_formed(r.network_state),
            map_well_formed(r.instance_state),
            map_well_formed(r.node_state),
    {
        DataStore {
            network_state: NetworkState::new(node_id, pk),
            instance_state: StateMap::new(),
            node_state: StateMap::new(),
        }
    }

    /// A store primed with an already-replicated network state (a joiner's
    /// catch-up).
    pub fn new_from_state(node_id: String, pk: String, network_state: NetworkState) -> (r:
        DataStore)
        ensures
            r.network_state == network_state,
            map_well_formed(r.instance_state),
            map_well_formed(r.node_state),
    {
        let mut local = Self::new(node_id, pk);
        local.network_state = network_state;
        local
    }

    /// Every live peer, with its key.
    pub fn get_all_users(&self) -> (r: Vec<(String, Peer<String>)>)
        ensures
            peer_pairs_view(r@) == spec_live_peers(self.network_state.peers.entries@),
    {
        let entries = &self.network_state.peers.entries;
        let mut out: Vec<(String, Peer<String>)> = Vec::new();
        proof {
            assert(entries@.skip(0) =~= entries@);
        }
        let mut i: usize = 0;
        while i < entries.len()
            invariant
                i <= entries@.len(),
                spec_live_peers(entries@) == peer_pairs_view(out@) + spec_live_peers(
                    entries@.skip(i as int),
                ),
            decreases entries@.len() - i,
        {
            let ghost pre = peer_pairs_view(out@);
            proof {
                assert(entries@.skip(i as int)[0] == entries@[i as int]);
                assert(entries@.skip(i as int).drop_first() =~= entries@.skip(i as int + 1));
            }
            match &entries[i].1.entry {
                Some(e) => {
                    match &e.value {
                        Some(p) => {
                            out.push((copy_string(&entries[i].0), clone_peer_string(p)));
                            proof {
                                assert(pre + spec_live_peers(entries@.skip(i as int))
                                    =~= peer_pairs_view(out@) + spec_live_peers(
                                    entries@.skip(i as int + 1),
                                ));
                            }
                        },
                        None => {},
                    }
                },
                None => {},
            }
            i = i + 1;
        }
        proof {
            assert(entries@.skip(entries@.len() as int) =~= Seq::<
                (String, crate::crdt::LwwReg<Option<Peer<String>>>),
            >::empty());
            assert(peer_pairs_view(out@) =~= peer_pairs_view(out@) + spec_live_peers(
                entries@.skip(entries@.len() as int),
            ));
        }
        out
    }

    /// The active admin peers — admin and not disabled — that broadcast
    /// fan-out targets.
    pub fn get_all_active_admin(&self) -> (r: Vec<(String, Peer<String>)>)
        ensures
            peer_pairs_view(r@) == spec_active_admins(self.network_state.peers.entries@),
    {
        let entries = &self.network_state.peers.entries;
        let mut out: Vec<(String, Peer<String>)> = Vec::new();
        proof {
            assert(entries@.skip(0) =~= entries@);
        }
        let mut i: usize = 0;
        while i < entries.len()
            invariant
                i <= entries@.len(),
                spec_active_admins(entries@) == peer_pairs_view(out@) + spec_active_admins(
                    entries@.skip(i as int),
                ),
            decreases entries@.len() - i,
        {
            let ghost pre = peer_pairs_view(out@);
            proof {
                assert(entries@.skip(i as int)[0] == entries@[i as int]);
                assert(entries@.skip(i as int).drop_first() =~= entries@.skip(i as int + 1));
            }
            match &entries[i].1.entry {
                Some(e) => {
                    match &e.value {
                        Some(p) => {
                            if p.contents.is_admin && !p.contents.is_disabled {
                                out.push((copy_string(&entries[i].0), clone_peer_string(p)));
                                proof {
                                    assert(pre + spec_active_admins(entries@.skip(i as int))
                                        =~= peer_pairs_view(out@) + spec_active_admins(
                                        entries@.skip(i as int + 1),
                                    ));
                                }
                            }
                        },
                        None => {},
                    }
                },
                None => {},
            }
            i = i + 1;
        }
        proof {
            assert(entries@.skip(entries@.len() as int) =~= Seq::<
                (String, crate::crdt::LwwReg<Option<Peer<String>>>),
            >::empty());
            assert(peer_pairs_view(out@) =~= peer_pairs_view(out@) + spec_active_admins(
                entries@.skip(entries@.len() as int),
            ));
        }
        out
    }

    /// The live peers whose unredeemed invite has expired by `now` —
    /// exactly those, in entry order: what `delete_expired` tombstones.
    pub fn expired_peers(&self, now: u64) -> (r: Vec<(String, Peer<String>)>)
        ensures
            peer_pairs_view(r@) == spec_expired_pairs(
                spec_live_peers(self.network_state.peers.entries@),
                now,
            ),
    {
        let all = self.get_all_users();
        let ghost pairs = peer_pairs_view(all@);
        let mut out: Vec<(String, Peer<String>)> = Vec::new();
        proof {
            assert(pairs.skip(0) =~= pairs);
        }
        let mut i: usize = 0;
        while i < all.len()
            invariant
                i <= all@.len(),
                pairs == peer_pairs_view(all@),
                spec_expired_pairs(pairs, now) == peer_pairs_view(out@) + spec_expired_pairs(
                    pairs.skip(i as int),
                    now,
                ),
            decreases all@.len() - i,
        {
            let ghost pre = peer_pairs_view(out@);
            proof {
                assert(pairs.skip(i as int)[0] == pairs[i as int]);
                assert(pairs[i as int] == (all@[i as int].0@, peer_string_view(all@[i as int].1)));
                assert(pairs.skip(i as int).drop_first() =~= pairs.skip(i as int + 1));
            }
            let expired = match all[i].1.contents.invite_expires {
                Some(t) => t < now && !all[i].1.contents.is_redeemed,
                None => false,
            };
            if expired {
                out.push((copy_string(&all[i].0), clone_peer_string(&all[i].1)));
                proof {
                    assert(pre + spec_expired_pairs(pairs.skip(i as int), now)
                        =~= peer_pairs_view(out@) + spec_expired_pairs(
                        pairs.skip(i as int + 1),
                        now,
                    ));
                }
            }
            i = i + 1;
        }
        proof {
            assert(pairs.skip(pairs.len() as int) =~= Seq::<
                (Seq<char>, PeerView<Seq<char>>),
            >::empty());
            assert(peer_pairs_view(out@) =~= peer_pairs_view(out@) + spec_expired_pairs(
                pairs.skip(pairs.len() as int),
                now,
            ));
        }
        out
    }
}

/// The ghost image of a peer-map operation.
pub open spec fn peer_op_view(op: MapOp<Option<Peer<String>>>) -> (
    Seq<char>,
    u64,
    u64,
    Option<PeerView<Seq<char>>>,
) {
    (
        op.key@,
        op.op.clock,
        op.op.actor,
        match op.op.value {
            Some(p) => Some(peer_string_view(p)),
            None => None,
        },
    )
}

/// A copy of a peer-map operation.
pub fn clone_peer_op(op: &MapOp<Option<Peer<String>>>) -> (r: MapOp<Option<Peer<String>>>)
    ensures
        peer_op_view(r) == peer_op_view(*op),
{
    MapOp {
        key: copy_string(&op.key),
        op: RegEntry {
            clock: op.op.clock,
            actor: op.op.actor,
            value: match &op.op.value {
                Some(p) => Some(clone_peer_string(p)),
                None => None,
            },
        },
    }
}

/// The state after a peer operation was applied, other maps untouched.
pub open spec fn peer_map_updated(
    pre: NetworkState,
    post: NetworkState,
    op: MapOp<Option<Peer<String>>>,
) -> bool {
    &&& spec_map_reg(post.peers, op.key@) == spec_apply_entry(
        spec_map_reg(pre.peers, op.key@),
        op.op,
    )
    &&& forall|h: Seq<char>|
        h != op.key@ ==> #[trigger] spec_map_reg(post.peers, h) == spec_map_reg(pre.peers, h)
    &&& post.cidrs == pre.cidrs
    &&& post.associations == pre.associations
    &&& post.dns_state == pre.dns_state
    &&& post.node_id == pre.node_id
    &&& post.actor == pre.actor
}

/// What a write handler answers: the winning value on acceptance — the
/// empty success for an accepted tombstone — and a failure otherwise.
pub open spec fn spec_peer_write_response(
    s: NetworkState,
    op: MapOp<Option<Peer<String>>>,
    resp: Response<Peer<String>>,
) -> bool {
    if spec_op_accepted(s.peers, op.key@, op) {
        match spec_map_reg(s.peers, op.key@) {
            Some(e) => match e.value {
                Some(p) => resp matches Response::Success(Success::Value(q))
                    && peer_string_view(q) == peer_string_view(p),
                None => resp matches Response::Success(Success::Empty),
            },
            None => false,
        }
    } else {
        resp is Failure
    }
}

impl DataStore {
    /// Applies a peer update operation received from another replica: a
    /// tombstone is refused here (removal has its own handler), anything
    /// else is merged and acceptance answered.
    pub fn apply_peer_op_write(&mut self, map_op: MapOp<Option<Peer<String>>>) -> (resp: Response<
        Peer<String>,
    >)
        requires
            network_state_well_formed(old(self).network_state),
        ensures
            network_state_well_formed(final (self).network_state),
            final (self).instance_state == old(self).instance_state,
            final (self).node_state == old(self).node_state,
            map_op.op.value is None ==> final (self).network_state == old(self).network_state
                && resp is Failure,
            map_op.op.value is Some ==> peer_map_updated(
                old(self).network_state,
                final (self).network_state,
                map_op,
            ) && spec_peer_write_response(final (self).network_state, map_op, resp),
    {
        match &map_op.op.value {
            None => Response::Failure {
                reason: Some("Invalid Op type for this peer request".to_owned()),
            },
            Some(_) => {
                let key = copy_string(&map_op.key);
                let probe = MapOp {
                    key: copy_string(&map_op.key),
                    op: RegEntry {
                        clock: map_op.op.clock,
                        actor: map_op.op.actor,
                        value: None,
                    },
                };
                let ghost op_snap = map_op;
                self.network_state.peer_op(map_op);
                let (ok, v) = self.network_state.peer_op_success(key.as_str(), &probe);
                if ok {
                    match v {
                        Some(p) => Response::Success(Success::Value(p)),
                        None => Response::Success(Success::Empty),
                    }
                } else {
                    Response::Failure { reason: Some("update was rejected".to_owned()) }
                }
            },
        }
    }
}

/// The live peer stored under a name, if the register holds one.
pub open spec fn spec_live_peer_at(s: NetworkState, name: Seq<char>) -> Option<
    PeerView<Seq<char>>,
> {
    match spec_map_reg(s.peers, name) {
        Some(e) => match e.value {
            Some(p) => Some(peer_string_view(p)),
            None => None,
        },
        None => None,
    }
}

/// What an update may install (the security boundary of `/user/update`):
/// over a stored live peer, only name, endpoint, admin flag, disabled flag
/// and candidates come from the request — IP, public key, parent CIDR,
/// redemption state and invite expiry are silently kept; an unknown name
/// is created from the request wholesale.
pub open spec fn spec_update_target(
    stored: Option<PeerView<Seq<char>>>,
    update: PeerContentsView<Seq<char>>,
) -> PeerContentsView<Seq<char>> {
    match stored {
        Some(pv) => PeerContentsView {
            name: update.name,
            endpoint: update.endpoint,
            is_admin: update.is_admin,
            is_disabled: update.is_disabled,
            candidates: update.candidates,
            ip: pv.contents.ip,
            cidr_id: pv.contents.cidr_id,
            public_key: pv.contents.public_key,
            is_redeemed: pv.contents.is_redeemed,
            invite_expires: pv.contents.invite_expires,
            persistent_keepalive_interval: pv.contents.persistent_keepalive_interval,
        },
        None => update,
    }
}

impl DataStore {
    /// Applies a direct peer write (join, update, disable or redeem): the
    /// local operation is built, merged, and handed back for broadcast when
    /// it won.
    pub fn apply_peer_direct(&mut self, contents: PeerContents<String>) -> (r: (
        Response<Peer<String>>,
        Option<PeerRequest>,
    ))
        requires
            network_state_well_formed(old(self).network_state),
        ensures
            network_state_well_formed(final (self).network_state),
            final (self).instance_state == old(self).instance_state,
            final (self).node_state == old(self).node_state,
            exists|op: MapOp<Option<Peer<String>>>|
                {
                    &&& op.key@ == contents.name@
                    &&& op.op.actor == old(self).network_state.actor
                    &&& op.op.clock == spec_next_clock(
                        spec_map_reg(old(self).network_state.peers, contents.name@),
                    )
                    &&& (op.op.value matches Some(p) && contents_string_view(p.contents)
                        == contents_string_view(contents))
                    &&& #[trigger] peer_map_updated(
                        old(self).network_state,
                        final (self).network_state,
                        op,
                    )
                    &&& spec_peer_write_response(final (self).network_state, op, r.0)
                    &&& (r.1 is Some <==> spec_op_accepted(
                        final (self).network_state.peers,
                        op.key@,
                        op,
                    ))
                },
    {
        let map_op = self.network_state.update_peer_local(contents);
        let key = copy_string(&map_op.key);
        let broadcast_op = clone_peer_op(&map_op);
        let probe = MapOp {
            key: copy_string(&map_op.key),
            op: RegEntry { clock: map_op.op.clock, actor: map_op.op.actor, value: None },
        };
        let ghost op_snap = map_op;
        self.network_state.peer_op(map_op);
        let (ok, v) = self.network_state.peer_op_success(key.as_str(), &probe);
        if ok {
            let resp = match v {
                Some(p) => Response::Success(Success::Value(p)),
                None => Response::Success(Success::Empty),
            };
            proof {
                assert(peer_map_updated(
                    old(self).network_state,
                    self.network_state,
                    op_snap,
                ));
            }
            (resp, Some(PeerRequest::Op(broadcast_op)))
        } else {
            proof {
                assert(peer_map_updated(
                    old(self).network_state,
                    self.network_state,
                    op_snap,
                ));
            }
            (
                Response::Failure { reason: Some("update was rejected".to_owned()) },
                None,
            )
        }
    }

    /// Applies a direct `/user/update` (or disable): the request is merged
    /// against the stored live peer first, so IP, public key, parent CIDR,
    /// redemption state and invite expiry cannot be changed from outside —
    /// they are silently kept (the security boundary); an unknown name is
    /// created from the request.  The merged operation is applied and
    /// handed back for broadcast when it won.
    pub fn apply_peer_update(&mut self, contents: PeerContents<String>) -> (r: (
        Response<Peer<String>>,
        Option<PeerRequest>,
    ))
        requires
            network_state_well_formed(old(self).network_state),
        ensures
            network_state_well_formed(final (self).network_state),
            final (self).instance_state == old(self).instance_state,
            final (self).node_state == old(self).node_state,
            exists|op: MapOp<Option<Peer<String>>>|
                {
                    &&& op.key@ == contents.name@
                    &&& op.op.actor == old(self).network_state.actor
                    &&& op.op.clock == spec_next_clock(
                        spec_map_reg(old(self).network_state.peers, contents.name@),
                    )
                    &&& (op.op.value matches Some(p) && contents_string_view(p.contents)
                        == spec_update_target(
                        spec_live_peer_at(old(self).network_state, contents.name@),
                        contents_string_view(contents),
                    ))
                    &&& #[trigger] peer_map_updated(
                        old(self).network_state,
                        final (self).network_state,
                        op,
                    )
                    &&& spec_peer_write_response(final (self).network_state, op, r.0)
                    &&& (r.1 is Some <==> spec_op_accepted(
                        final (self).network_state.peers,
                        op.key@,
                        op,
                    ))
                },
    {
        let merged = match self.network_state.peers.get_entry(contents.name.as_str()) {
            Some(e) => {
                match &e.value {
                    Some(p) => crate::peers::DatabasePeer::merge_update_contents(
                        &p.contents,
                        &contents,
                    ),
                    None => contents,
                }
            },
            None => contents,
        };
        let map_op = self.network_state.update_peer_local(merged);
        let key = copy_string(&map_op.key);
        let broadcast_op = clone_peer_op(&map_op);
        let probe = MapOp {
            key: copy_string(&map_op.key),
            op: RegEntry { clock: map_op.op.clock, actor: map_op.op.actor, value: None },
        };
        let ghost op_snap = map_op;
        self.network_state.peer_op(map_op);
        let (ok, v) = self.network_state.peer_op_success(key.as_str(), &probe);
        if ok {
            let resp = match v {
                Some(p) => Response::Success(Success::Value(p)),
                None => Response::Success(Success::Empty),
            };
            proof {
                assert(peer_map_updated(
                    old(self).network_state,
                    self.network_state,
                    op_snap,
                ));
            }
            (resp, Some(PeerRequest::Op(broadcast_op)))
        } else {
            proof {
                assert(peer_map_updated(
                    old(self).network_state,
                    self.network_state,
                    op_snap,
                ));
            }
            (
                Response::Failure { reason: Some("update was rejected".to_owned()) },
                None,
            )
        }
    }

    /// `POST /user/create`: a replica's operation is merged; a join builds
    /// and merges a local operation and is broadcast when accepted.
    pub fn create_user(&mut self, user: PeerRequest) -> (r: (
        Response<Peer<String>>,
        Option<PeerRequest>,
    ))
        requires
            network_state_well_formed(old(self).network_state),
        ensures
            network_state_well_formed(final (self).network_state),
            final (self).instance_state == old(self).instance_state,
            final (self).node_state == old(self).node_state,
            match user {
                PeerRequest::Op(op) => r.1 is None && (op.op.value is None ==> final (self).network_state
                    == old(self).network_state && r.0 is Failure) && (op.op.value is Some
                    ==> peer_map_updated(old(self).network_state, final (self).network_state, op)
                    && spec_peer_write_response(final (self).network_state, op, r.0)),
                PeerRequest::Join(contents) => exists|op: MapOp<Option<Peer<String>>>|
                    {
                        &&& op.key@ == contents.name@
                        &&& op.op.actor == old(self).network_state.actor
                        &&& op.op.clock == spec_next_clock(
                            spec_map_reg(old(self).network_state.peers, contents.name@),
                        )
                        &&& (op.op.value matches Some(p) && contents_string_view(p.contents)
                            == contents_string_view(contents))
                        &&& #[trigger] peer_map_updated(
                            old(self).network_state,
                            final (self).network_state,
                            op,
                        )
                        &&& spec_peer_write_response(final (self).network_state, op, r.0)
                        &&& (r.1 is Some <==> spec_op_accepted(
                            final (self).network_state.peers,
                            op.key@,
                            op,
                        ))
                    },
                _ => final (self).network_state == old(self).network_state && r.0 is Failure,
            },
    {
        match user {
            PeerRequest::Op(map_op) => (self.apply_peer_op_write(map_op), None),
            PeerRequest::Join(contents) => self.apply_peer_direct(contents),
            _ => (
                Response::Failure { reason: Some("Invalid request for create user".to_owned()) },
                None,
            ),
        }
    }

    /// `POST /user/update`: like `create_user`, for the update variant.
    pub fn update_user(&mut self, user: PeerRequest) -> (r: (
        Response<Peer<String>>,
        Option<PeerRequest>,
    ))
        requires
            network_state_well_formed(old(self).network_state),
        ensures
            network_state_well_formed(final (self).network_state),
            final (self).instance_state == old(self).instance_state,
            final (self).node_state == old(self).node_state,
            match user {
                PeerRequest::Op(op) => r.1 is None && (op.op.value is None ==> final (self).network_state
                    == old(self).network_state && r.0 is Failure) && (op.op.value is Some
                    ==> peer_map_updated(old(self).network_state, final (self).network_state, op)
                    && spec_peer_write_response(final (self).network_state, op, r.0)),
                PeerRequest::Update(contents) => exists|op: MapOp<Option<Peer<String>>>|
                    {
                        &&& op.key@ == contents.name@
                        &&& op.op.actor == old(self).network_state.actor
                        &&& op.op.clock == spec_next_clock(
                            spec_map_reg(old(self).network_state.peers, contents.name@),
                        )
                        &&& (op.op.value matches Some(p) && contents_string_view(p.contents)
                            == spec_update_target(
                            spec_live_peer_at(old(self).network_state, contents.name@),
                            contents_string_view(contents),
                        ))
                        &&& #[trigger] peer_map_updated(
                            old(self).network_state,
                            final (self).network_state,
                            op,
                        )
                        &&& spec_peer_write_response(final (self).network_state, op, r.0)
                        &&& (r.1 is Some <==> spec_op_accepted(
                            final (self).network_state.peers,
                            op.key@,
                            op,
                        ))
                    },
                _ => final (self).network_state == old(self).network_state && r.0 is Failure,
            },
    {
        match user {
            PeerRequest::Op(map_op) => (self.apply_peer_op_write(map_op), None),
            PeerRequest::Update(contents) => self.apply_peer_update(contents),
            _ => (
                Response::Failure { reason: Some("Invalid request for update user".to_owned()) },
                None,
            ),
        }
    }

    /// `POST /user/disable`: the caller hands contents with the disabled
    /// flag set; the merge is the same update path.
    pub fn disable_user(&mut self, user: PeerRequest) -> (r: (
        Response<Peer<String>>,
        Option<PeerRequest>,
    ))
        requires
            network_state_well_formed(old(self).network_state),
        ensures
            network_state_well_formed(final (self).network_state),
            final (self).instance_state == old(self).instance_state,
            final (self).node_state == old(self).node_state,
            match user {
                PeerRequest::Op(op) => r.1 is None && (op.op.value is None ==> final (self).network_state
                    == old(self).network_state && r.0 is Failure) && (op.op.value is Some
                    ==> peer_map_updated(old(self).network_state, final (self).network_state, op)
                    && spec_peer_write_response(final (self).network_state, op, r.0)),
                PeerRequest::Update(contents) => exists|op: MapOp<Option<Peer<String>>>|
                    {
                        &&& op.key@ == contents.name@
                        &&& op.op.actor == old(self).network_state.actor
                        &&& op.op.clock == spec_next_clock(
                            spec_map_reg(old(self).network_state.peers, contents.name@),
                        )
                        &&& (op.op.value matches Some(p) && contents_string_view(p.contents)
                            == spec_update_target(
                            spec_live_peer_at(old(self).network_state, contents.name@),
                            contents_string_view(contents),
                        ))
                        &&& #[trigger] peer_map_updated(
                            old(self).network_state,
                            final (self).network_state,
                            op,
                        )
                        &&& spec_peer_write_response(final (self).network_state, op, r.0)
                        &&& (r.1 is Some <==> spec_op_accepted(
                            final (self).network_state.peers,
                            op.key@,
                            op,
                        ))
                    },
                _ => final (self).network_state == old(self).network_state && r.0 is Failure,
            },
    {
        self.update_user(user)
    }

    /// `POST /user/redeem`: binds the public key and marks the peer
    /// redeemed in one step, against the stored live peer: an unknown name
    /// fails, an already-redeemed invite is gone, and an invite expired
    /// before `now` is unauthorized — each without touching the state.
    pub fn redeem_invite(&mut self, user: PeerRequest, now: u64) -> (r: (
        Response<Peer<String>>,
        Option<PeerRequest>,
    ))
        requires
            network_state_well_formed(old(self).network_state),
        ensures
            network_state_well_formed(final (self).network_state),
            final (self).instance_state == old(self).instance_state,
            final (self).node_state == old(self).node_state,
            match user {
                PeerRequest::Op(op) => r.1 is None && (op.op.value is None ==> final (self).network_state
                    == old(self).network_state && r.0 is Failure) && (op.op.value is Some
                    ==> peer_map_updated(old(self).network_state, final (self).network_state, op)
                    && spec_peer_write_response(final (self).network_state, op, r.0)),
                PeerRequest::Update(contents) => {
                    match spec_live_peer_at(old(self).network_state, contents.name@) {
                        None => final (self).network_state == old(self).network_state && r.0
                            is Failure && r.1 is None,
                        Some(pv) => if pv.contents.is_redeemed || (pv.contents.invite_expires
                            matches Some(t) && t < now) {
                            final (self).network_state == old(self).network_state && r.0
                                is Failure && r.1 is None
                        } else {
                            exists|op: MapOp<Option<Peer<String>>>|
                                {
                                    &&& op.key@ == pv.contents.name
                                    &&& op.op.actor == old(self).network_state.actor
                                    &&& op.op.clock == spec_next_clock(
                                        spec_map_reg(
                                            old(self).network_state.peers,
                                            pv.contents.name,
                                        ),
                                    )
                                    &&& (op.op.value matches Some(p) && contents_string_view(
                                        p.contents,
                                    ) == (PeerContentsView {
                                        public_key: contents.public_key@,
                                        is_redeemed: true,
                                        ..pv.contents
                                    }))
                                    &&& #[trigger] peer_map_updated(
                                        old(self).network_state,
                                        final (self).network_state,
                                        op,
                                    )
                                    &&& spec_peer_write_response(
                                        final (self).network_state,
                                        op,
                                        r.0,
                                    )
                                    &&& (r.1 is Some <==> spec_op_accepted(
                                        final (self).network_state.peers,
                                        op.key@,
                                        op,
                                    ))
                                }
                        },
                    }
                },
                _ => final (self).network_state == old(self).network_state && r.0 is Failure,
            },
    {
        match user {
            PeerRequest::Op(map_op) => (self.apply_peer_op_write(map_op), None),
            PeerRequest::Update(contents) => {
                let stored = match self.network_state.peers.get_entry(contents.name.as_str()) {
                    Some(e) => {
                        match &e.value {
                            Some(p) => Some(crate::peers::clone_contents_string(&p.contents)),
                            None => None,
                        }
                    },
                    None => None,
                };
                match stored {
                    None => (
                        Response::Failure {
                            reason: Some("Peer to redeem does not exist".to_owned()),
                        },
                        None,
                    ),
                    Some(existing) => {
                        match crate::peers::DatabasePeer::redeem_check(
                            existing.is_redeemed,
                            existing.invite_expires,
                            now,
                        ) {
                            Err(_) => (
                                Response::Failure {
                                    reason: Some(
                                        "Invite was already redeemed or has expired".to_owned(),
                                    ),
                                },
                                None,
                            ),
                            Ok(_) => {
                                let redeemed = crate::peers::DatabasePeer::apply_redeem(
                                    &existing,
                                    contents.public_key.as_str(),
                                );
                                // the stored peer is keyed by its name, which
                                // redemption keeps
                                let map_op = self.network_state.update_peer_local(redeemed);
                                let key = copy_string(&map_op.key);
                                let broadcast_op = clone_peer_op(&map_op);
                                let probe = MapOp {
                                    key: copy_string(&map_op.key),
                                    op: RegEntry {
                                        clock: map_op.op.clock,
                                        actor: map_op.op.actor,
                                        value: None,
                                    },
                                };
                                let ghost op_snap = map_op;
                                self.network_state.peer_op(map_op);
                                let (ok, v) = self.network_state.peer_op_success(
                                    key.as_str(),
                                    &probe,
                                );
                                if ok {
                                    let resp = match v {
                                        Some(p) => Response::Success(Success::Value(p)),
                                        None => Response::Success(Success::Empty),
                                    };
                                    proof {
                                        assert(peer_map_updated(
                                            old(self).network_state,
                                            self.network_state,
                                            op_snap,
                                        ));
                                    }
                                    (resp, Some(PeerRequest::Op(broadcast_op)))
                                } else {
                                    proof {
                                        assert(peer_map_updated(
                                            old(self).network_state,
                                            self.network_state,
                                            op_snap,
                                        ));
                                    }
                                    (
                                        Response::Failure {
                                            reason: Some("update was rejected".to_owned()),
                                        },
                                        None,
                                    )
                                }
                            },
                        }
                    },
                }
            },
            _ => (
                Response::Failure {
                    reason: Some("Invalid request for redeem invite".to_owned()),
                },
                None,
            ),
        }
    }

    /// Replays a batch of peer operations from other replicas, in order:
    /// the register at every key ends as the fold of the batch's
    /// operations for that key.  Together with the convergence law
    /// (`lemma_state_map_convergence`), two replicas with equal peer
    /// registers that replay batches carrying the same set of (key,
    /// operation) pairs — in any order, with any duplicates — end with
    /// equal registers at every key.
    pub fn replay_peer_ops(&mut self, ops: Vec<MapOp<Option<Peer<String>>>>)
        requires
            network_state_well_formed(old(self).network_state),
        ensures
            network_state_well_formed(final (self).network_state),
            final (self).instance_state == old(self).instance_state,
            final (self).node_state == old(self).node_state,
            final (self).network_state.cidrs == old(self).network_state.cidrs,
            final (self).network_state.associations == old(self).network_state.associations,
            final (self).network_state.dns_state == old(self).network_state.dns_state,
            forall|h: Seq<char>|
                #[trigger] spec_map_reg(final (self).network_state.peers, h)
                    == crate::crdt::spec_apply_entry_ops(
                    spec_map_reg(old(self).network_state.peers, h),
                    crate::crdt::ops_for_key(crate::crdt::map_ops_view(ops@), h),
                ),
    {
        let peers = &mut self.network_state.peers;
        peers.apply_ops(ops)
    }

    /// `POST /user/delete`: a tombstone; the peer stays in the register as
    /// a removed value.
    pub fn delete_user(&mut self, user: PeerRequest) -> (r: (
        Response<Peer<String>>,
        Option<PeerRequest>,
    ))
        requires
            network_state_well_formed(old(self).network_state),
        ensures
            network_state_well_formed(final (self).network_state),
            final (self).instance_state == old(self).instance_state,
            final (self).node_state == old(self).node_state,
            match user {
                PeerRequest::Op(op) => r.1 is None && (op.op.value is Some ==> final (self).network_state
                    == old(self).network_state && r.0 is Failure) && (op.op.value is None
                    ==> peer_map_updated(old(self).network_state, final (self).network_state, op)
                    && r.0 matches Response::Success(Success::Empty)),
                PeerRequest::Delete(id) => {
                    let clock = spec_next_clock(
                        spec_map_reg(old(self).network_state.peers, id@),
                    );
                    let actor = old(self).network_state.actor;
                    let tomb = RegEntry::<Option<Peer<String>>> { clock, actor, value: None };
                    &&& spec_map_reg(final (self).network_state.peers, id@) == spec_apply_entry(
                        spec_map_reg(old(self).network_state.peers, id@),
                        tomb,
                    )
                    &&& forall|h: Seq<char>|
                        h != id@ ==> #[trigger] spec_map_reg(final (self).network_state.peers, h)
                            == spec_map_reg(old(self).network_state.peers, h)
                    &&& final (self).network_state.cidrs == old(self).network_state.cidrs
                    &&& final (self).network_state.associations == old(
                        self,
                    ).network_state.associations
                    &&& final (self).network_state.dns_state == old(self).network_state.dns_state
                    &&& r.0 matches Response::Success(Success::Empty)
                    &&& (r.1 matches Some(PeerRequest::Op(b)) && b.key@ == id@ && b.op.value
                        is None && b.op.clock == clock && b.op.actor == actor)
                },
                _ => final (self).network_state == old(self).network_state && r.0 is Failure,
            },
    {
        match user {
            PeerRequest::Op(map_op) => {
                match &map_op.op.value {
                    Some(_) => (
                        Response::Failure {
                            reason: Some("Invalid Op type for delete User".to_owned()),
                        },
                        None,
                    ),
                    None => {
                        self.network_state.peer_op(map_op);
                        (Response::Success(Success::Empty), None)
                    },
                }
            },
            PeerRequest::Delete(id) => {
                let map_op = self.network_state.remove_peer_local(id);
                let broadcast_op = clone_peer_op(&map_op);
                self.network_state.peer_op(map_op);
                (
                    Response::Success(Success::Empty),
                    Some(PeerRequest::Op(broadcast_op)),
                )
            },
            _ => (
                Response::Failure { reason: Some("Invalid request for delete user".to_owned()) },
                None,
            ),
        }
    }

    /// `POST /user/delete_expired`: tombstones exactly the live peers whose
    /// unredeemed invite expired before `now`, and hands back the removed
    /// peers with the delete operations to broadcast, one per removal.
    /// Each removed key's register ends on the tombstone (or stays at a
    /// saturated clock, where a local write can no longer win).
    pub fn delete_expired(&mut self, now: u64) -> (r: (
        Vec<(String, Peer<String>)>,
        Vec<PeerRequest>,
    ))
        requires
            network_state_well_formed(old(self).network_state),
        ensures
            network_state_well_formed(final (self).network_state),
            final (self).instance_state == old(self).instance_state,
            final (self).node_state == old(self).node_state,
            peer_pairs_view(r.0@) == spec_expired_pairs(
                spec_live_peers(old(self).network_state.peers.entries@),
                now,
            ),
            r.1@.len() == r.0@.len(),
            forall|k: int|
                0 <= k < r.1@.len() ==> ((#[trigger] r.1@[k]) matches PeerRequest::Op(op)
                    && op.op.value is None && op.key@ == r.0@[k].0@),
            forall|k: int|
                0 <= k < r.0@.len() ==> (spec_map_reg(
                    final (self).network_state.peers,
                    (#[trigger] r.0@[k]).0@,
                ) matches Some(e) && (e.value is None || e.clock == u64::MAX)),
    {
        let removed = self.expired_peers(now);
        let mut broadcasts: Vec<PeerRequest> = Vec::new();
        let mut i: usize = 0;
        while i < removed.len()
            invariant
                i <= removed@.len(),
                broadcasts@.len() == i,
                network_state_well_formed(self.network_state),
                self.instance_state == old(self).instance_state,
                self.node_state == old(self).node_state,
                forall|k: int|
                    0 <= k < i ==> ((#[trigger] broadcasts@[k]) matches PeerRequest::Op(op)
                        && op.op.value is None && op.key@ == removed@[k].0@),
                forall|k: int|
                    0 <= k < i ==> (spec_map_reg(
                        self.network_state.peers,
                        (#[trigger] removed@[k]).0@,
                    ) matches Some(e) && (e.value is None || e.clock == u64::MAX)),
            decreases removed@.len() - i,
        {
            let id = copy_string(&removed[i].0);
            let op = self.network_state.remove_peer_local(id);
            let broadcast_op = clone_peer_op(&op);
            self.network_state.peer_op(op);
            broadcasts.push(PeerRequest::Op(broadcast_op));
            i = i + 1;
        }
        (removed, broadcasts)
    }
}

/// What a CIDR write handler answers, mirroring the peer rule.
pub open spec fn spec_cidr_write_response(
    s: NetworkState,
    op: MapOp<Option<Cidr<String>>>,
    resp: Response<Cidr<String>>,
) -> bool {
    if spec_op_accepted(s.cidrs, op.key@, op) {
        match spec_map_reg(s.cidrs, op.key@) {
            Some(e) => match e.value {
                Some(c) => resp matches Response::Success(Success::Value(q)) && cidr_view(q)
                    == cidr_view(c),
                None => resp matches Response::Success(Success::Empty),
            },
            None => false,
        }
    } else {
        resp is Failure
    }
}

/// What an association write handler answers, mirroring the peer rule.
pub open spec fn spec_assoc_write_response(
    s: NetworkState,
    op: MapOp<Option<Association>>,
    resp: Response<Association>,
) -> bool {
    if spec_op_accepted(s.associations, op.key@, op) {
        match spec_map_reg(s.associations, op.key@) {
            Some(e) => match e.value {
                Some(a) => resp matches Response::Success(Success::Value(q))
                    && association_view(q) == association_view(a),
                None => resp matches Response::Success(Success::Empty),
            },
            None => false,
        }
    } else {
        resp is Failure
    }
}

impl DataStore {
    /// Applies a CIDR update operation received from another replica.
    pub fn apply_cidr_op_write(&mut self, map_op: MapOp<Option<Cidr<String>>>) -> (resp: Response<
        Cidr<String>,
    >)
        requires
            network_state_well_formed(old(self).network_state),
        ensures
            network_state_well_formed(final (self).network_state),
            final (self).instance_state == old(self).instance_state,
            final (self).node_state == old(self).node_state,
            map_op.op.value is None ==> final (self).network_state == old(self).network_state
                && resp is Failure,
            map_op.op.value is Some ==> spec_map_reg(final (self).network_state.cidrs, map_op.key@)
                == spec_apply_entry(
                spec_map_reg(old(self).network_state.cidrs, map_op.key@),
                map_op.op,
            ) && spec_cidr_write_response(final (self).network_state, map_op, resp),
    {
        match &map_op.op.value {
            None => Response::Failure {
                reason: Some("Invalid Op type for this CIDR request".to_owned()),
            },
            Some(_) => {
                let key = copy_string(&map_op.key);
                let probe = MapOp {
                    key: copy_string(&map_op.key),
                    op: RegEntry {
                        clock: map_op.op.clock,
                        actor: map_op.op.actor,
                        value: None,
                    },
                };
                self.network_state.cidr_op(map_op);
                let (ok, v) = self.network_state.cidr_op_success(key.as_str(), &probe);
                if ok {
                    match v {
                        Some(c) => Response::Success(Success::Value(c)),
                        None => Response::Success(Success::Empty),
                    }
                } else {
                    Response::Failure { reason: Some("update was rejected".to_owned()) }
                }
            },
        }
    }

    /// Applies a direct CIDR create or update, handing back the operation
    /// for broadcast when it won.
    pub fn apply_cidr_direct(&mut self, contents: CidrContents<String>) -> (r: (
        Response<Cidr<String>>,
        Option<CidrRequest>,
    ))
        requires
            network_state_well_formed(old(self).network_state),
        ensures
            network_state_well_formed(final (self).network_state),
            final (self).instance_state == old(self).instance_state,
            final (self).node_state == old(self).node_state,
            exists|op: MapOp<Option<Cidr<String>>>|
                {
                    &&& op.key@ == contents.name@
                    &&& op.op.actor == old(self).network_state.actor
                    &&& op.op.clock == spec_next_clock(
                        spec_map_reg(old(self).network_state.cidrs, contents.name@),
                    )
                    &&& (op.op.value matches Some(c) && c.id@ == contents.name@
                        && cidr_view(c).name == contents.name@ && cidr_view(c).cidr
                        == contents.cidr)
                    &&& #[trigger] spec_map_reg(final (self).network_state.cidrs, op.key@)
                        == spec_apply_entry(
                        spec_map_reg(old(self).network_state.cidrs, op.key@),
                        op.op,
                    )
                    &&& (forall|h: Seq<char>|
                        h != op.key@ ==> #[trigger] spec_map_reg(
                            final (self).network_state.cidrs,
                            h,
                        ) == spec_map_reg(old(self).network_state.cidrs, h))
                    &&& final (self).network_state.peers == old(self).network_state.peers
                    &&& final (self).network_state.associations == old(
                        self,
                    ).network_state.associations
                    &&& final (self).network_state.dns_state == old(self).network_state.dns_state
                    &&& spec_cidr_write_response(final (self).network_state, op, r.0)
                    &&& (r.1 is Some <==> spec_op_accepted(
                        final (self).network_state.cidrs,
                        op.key@,
                        op,
                    ))
                },
    {
        let map_op = self.network_state.update_cidr_local(contents);
        let key = copy_string(&map_op.key);
        let broadcast_op = MapOp {
            key: copy_string(&map_op.key),
            op: RegEntry {
                clock: map_op.op.clock,
                actor: map_op.op.actor,
                value: match &map_op.op.value {
                    Some(c) => Some(clone_cidr(c)),
                    None => None,
                },
            },
        };
        let probe = MapOp {
            key: copy_string(&map_op.key),
            op: RegEntry { clock: map_op.op.clock, actor: map_op.op.actor, value: None },
        };
        self.network_state.cidr_op(map_op);
        let (ok, v) = self.network_state.cidr_op_success(key.as_str(), &probe);
        if ok {
            let resp = match v {
                Some(c) => Response::Success(Success::Value(c)),
                None => Response::Success(Success::Empty),
            };
            (resp, Some(CidrRequest::Op(broadcast_op)))
        } else {
            (
                Response::Failure { reason: Some("update was rejected".to_owned()) },
                None,
            )
        }
    }

    /// `POST /cidr/create`.
    pub fn create_cidr(&mut self, request: CidrRequest) -> (r: (
        Response<Cidr<String>>,
        Option<CidrRequest>,
    ))
        requires
            network_state_well_formed(old(self).network_state),
        ensures
            network_state_well_formed(final (self).network_state),
            final (self).instance_state == old(self).instance_state,
            final (self).node_state == old(self).node_state,
            match request {
                CidrRequest::Op(op) => r.1 is None && (op.op.value is None ==> final (self).network_state
                    == old(self).network_state && r.0 is Failure) && (op.op.value is Some
                    ==> spec_map_reg(final (self).network_state.cidrs, op.key@)
                    == spec_apply_entry(
                    spec_map_reg(old(self).network_state.cidrs, op.key@),
                    op.op,
                ) && spec_cidr_write_response(final (self).network_state, op, r.0)),
                CidrRequest::Create(contents) => exists|op: MapOp<Option<Cidr<String>>>|
                {
                    &&& op.key@ == contents.name@
                    &&& op.op.actor == old(self).network_state.actor
                    &&& op.op.clock == spec_next_clock(
                        spec_map_reg(old(self).network_state.cidrs, contents.name@),
                    )
                    &&& (op.op.value matches Some(c) && c.id@ == contents.name@
                        && cidr_view(c).name == contents.name@ && cidr_view(c).cidr
                        == contents.cidr)
                    &&& #[trigger] spec_map_reg(final (self).network_state.cidrs, op.key@)
                        == spec_apply_entry(
                        spec_map_reg(old(self).network_state.cidrs, op.key@),
                        op.op,
                    )
                    &&& (forall|h: Seq<char>|
                        h != op.key@ ==> #[trigger] spec_map_reg(
                            final (self).network_state.cidrs,
                            h,
                        ) == spec_map_reg(old(self).network_state.cidrs, h))
                    &&& final (self).network_state.peers == old(self).network_state.peers
                    &&& final (self).network_state.associations == old(
                        self,
                    ).network_state.associations
                    &&& final (self).network_state.dns_state == old(self).network_state.dns_state
                    &&& spec_cidr_write_response(final (self).network_state, op, r.0)
                    &&& (r.1 is Some <==> spec_op_accepted(
                        final (self).network_state.cidrs,
                        op.key@,
                        op,
                    ))
                },
                _ => final (self).network_state == old(self).network_state && r.0 is Failure,
            },
    {
        match request {
            CidrRequest::Op(map_op) => (self.apply_cidr_op_write(map_op), None),
            CidrRequest::Create(contents) => self.apply_cidr_direct(contents),
            _ => (
                Response::Failure { reason: Some("Invalid request for create cidr".to_owned()) },
                None,
            ),
        }
    }

    /// `POST /cidr/update`.
    pub fn update_cidr(&mut self, request: CidrRequest) -> (r: (
        Response<Cidr<String>>,
        Option<CidrRequest>,
    ))
        requires
            network_state_well_formed(old(self).network_state),
        ensures
            network_state_well_formed(final (self).network_state),
            final (self).instance_state == old(self).instance_state,
            final (self).node_state == old(self).node_state,
            match request {
                CidrRequest::Op(op) => r.1 is None && (op.op.value is None ==> final (self).network_state
                    == old(self).network_state && r.0 is Failure) && (op.op.value is Some
                    ==> spec_map_reg(final (self).network_state.cidrs, op.key@)
                    == spec_apply_entry(
                    spec_map_reg(old(self).network_state.cidrs, op.key@),
                    op.op,
                ) && spec_cidr_write_response(final (self).network_state, op, r.0)),
                CidrRequest::Update(contents) => exists|op: MapOp<Option<Cidr<String>>>|
                {
                    &&& op.key@ == contents.name@
                    &&& op.op.actor == old(self).network_state.actor
                    &&& op.op.clock == spec_next_clock(
                        spec_map_reg(old(self).network_state.cidrs, contents.name@),
                    )
                    &&& (op.op.value matches Some(c) && c.id@ == contents.name@
                        && cidr_view(c).name == contents.name@ && cidr_view(c).cidr
                        == contents.cidr)
                    &&& #[trigger] spec_map_reg(final (self).network_state.cidrs, op.key@)
                        == spec_apply_entry(
                        spec_map_reg(old(self).network_state.cidrs, op.key@),
                        op.op,
                    )
                    &&& (forall|h: Seq<char>|
                        h != op.key@ ==> #[trigger] spec_map_reg(
                            final (self).network_state.cidrs,
                            h,
                        ) == spec_map_reg(old(self).network_state.cidrs, h))
                    &&& final (self).network_state.peers == old(self).network_state.peers
                    &&& final (self).network_state.associations == old(
                        self,
                    ).network_state.associations
                    &&& final (self).network_state.dns_state == old(self).network_state.dns_state
                    &&& spec_cidr_write_response(final (self).network_state, op, r.0)
                    &&& (r.1 is Some <==> spec_op_accepted(
                        final (self).network_state.cidrs,
                        op.key@,
                        op,
                    ))
                },
                _ => final (self).network_state == old(self).network_state && r.0 is Failure,
            },
    {
        match request {
            CidrRequest::Op(map_op) => (self.apply_cidr_op_write(map_op), None),
            CidrRequest::Update(contents) => self.apply_cidr_direct(contents),
            _ => (
                Response::Failure { reason: Some("Invalid request for update cidr".to_owned()) },
                None,
            ),
        }
    }

    /// `POST /cidr/delete`.
    pub fn delete_cidr(&mut self, request: CidrRequest) -> (r: (
        Response<Cidr<String>>,
        Option<CidrRequest>,
    ))
        requires
            network_state_well_formed(old(self).network_state),
        ensures
            network_state_well_formed(final (self).network_state),
            final (self).instance_state == old(self).instance_state,
            final (self).node_state == old(self).node_state,
            match request {
                CidrRequest::Op(op) => r.1 is None && (op.op.value is Some ==> final (self).network_state
                    == old(self).network_state && r.0 is Failure) && (op.op.value is None
                    ==> spec_map_reg(final (self).network_state.cidrs, op.key@)
                    == spec_apply_entry(
                    spec_map_reg(old(self).network_state.cidrs, op.key@),
                    op.op,
                ) && r.0 matches Response::Success(Success::Empty)),
                CidrRequest::Delete(id) => {
                    let clock = spec_next_clock(
                        spec_map_reg(old(self).network_state.cidrs, id@),
                    );
                    let actor = old(self).network_state.actor;
                    let tomb = RegEntry::<Option<Cidr<String>>> { clock, actor, value: None };
                    &&& spec_map_reg(final (self).network_state.cidrs, id@) == spec_apply_entry(
                        spec_map_reg(old(self).network_state.cidrs, id@),
                        tomb,
                    )
                    &&& (forall|h: Seq<char>|
                        h != id@ ==> #[trigger] spec_map_reg(
                            final (self).network_state.cidrs,
                            h,
                        ) == spec_map_reg(old(self).network_state.cidrs, h))
                    &&& r.0 matches Response::Success(Success::Empty)
                    &&& (r.1 matches Some(CidrRequest::Op(b)) && b.key@ == id@ && b.op.value
                        is None && b.op.clock == clock && b.op.actor == actor)
                },
                _ => final (self).network_state == old(self).network_state && r.0 is Failure,
            },
    {
        match request {
            CidrRequest::Op(map_op) => {
                match &map_op.op.value {
                    Some(_) => (
                        Response::Failure {
                            reason: Some("Invalid Op type for delete cidr".to_owned()),
                        },
                        None,
                    ),
                    None => {
                        self.network_state.cidr_op(map_op);
                        (Response::Success(Success::Empty), None)
                    },
                }
            },
            CidrRequest::Delete(id) => {
                let map_op = self.network_state.remove_cidr_local(id);
                let broadcast_op = MapOp {
                    key: copy_string(&map_op.key),
                    op: RegEntry {
                        clock: map_op.op.clock,
                        actor: map_op.op.actor,
                        value: None,
                    },
                };
                self.network_state.cidr_op(map_op);
                (
                    Response::Success(Success::Empty),
                    Some(CidrRequest::Op(broadcast_op)),
                )
            },
            _ => (
                Response::Failure { reason: Some("Invalid request for remove cidr".to_owned()) },
                None,
            ),
        }
    }

    /// `GET /cidr/:id/get`.
    pub fn get_cidr(&self, id: &str) -> (r: Response<Cidr<String>>)
        ensures
            match spec_map_reg(self.network_state.cidrs, id@) {
                Some(e) => match e.value {
                    Some(c) => r matches Response::Success(Success::Value(q)) && cidr_view(q)
                        == cidr_view(c),
                    None => r is Failure,
                },
                None => r is Failure,
            },
    {
        match self.network_state.cidrs.get_entry(id) {
            Some(e) => {
                match &e.value {
                    Some(c) => Response::Success(Success::Value(clone_cidr(c))),
                    None => Response::Failure {
                        reason: Some("Entry exists, but value is None".to_owned()),
                    },
                }
            },
            None => Response::Failure {
                reason: Some("Entry does not exist in the CrdtMap".to_owned()),
            },
        }
    }

    /// `GET /user/:id/get`.
    pub fn get_user(&self, id: &str) -> (r: Response<Peer<String>>)
        ensures
            match spec_map_reg(self.network_state.peers, id@) {
                Some(e) => match e.value {
                    Some(p) => r matches Response::Success(Success::Value(q))
                        && peer_string_view(q) == peer_string_view(p),
                    None => r is Failure,
                },
                None => r is Failure,
            },
    {
        match self.network_state.peers.get_entry(id) {
            Some(e) => {
                match &e.value {
                    Some(p) => Response::Success(Success::Value(clone_peer_string(p))),
                    None => Response::Failure {
                        reason: Some("Entry exists, but value is None".to_owned()),
                    },
                }
            },
            None => Response::Failure {
                reason: Some("Entry does not exist in the CrdtMap".to_owned()),
            },
        }
    }

    /// `POST /assoc/create`.
    pub fn create_assoc(&mut self, request: AssocRequest) -> (r: (
        Response<Association>,
        Option<AssocRequest>,
    ))
        requires
            network_state_well_formed(old(self).network_state),
        ensures
            network_state_well_formed(final (self).network_state),
            final (self).instance_state == old(self).instance_state,
            final (self).node_state == old(self).node_state,
            match request {
                AssocRequest::Op(op) => r.1 is None && (op.op.value is None ==> final (self).network_state
                    == old(self).network_state && r.0 is Failure) && (op.op.value is Some
                    ==> spec_map_reg(final (self).network_state.associations, op.key@)
                    == spec_apply_entry(
                    spec_map_reg(old(self).network_state.associations, op.key@),
                    op.op,
                ) && spec_assoc_write_response(final (self).network_state, op, r.0)),
                AssocRequest::Create(contents) => {
                    let key = contents.cidr_id_1@ + ":"@ + contents.cidr_id_2@;
                    let clock = spec_next_clock(
                        spec_map_reg(old(self).network_state.associations, key),
                    );
                    exists|op: MapOp<Option<Association>>|
                        {
                            &&& op.key@ == key
                            &&& op.op.actor == old(self).network_state.actor
                            &&& op.op.clock == clock
                            &&& (op.op.value matches Some(a) && association_view(a)
                                == association_view(contents))
                            &&& #[trigger] spec_map_reg(
                                final (self).network_state.associations,
                                op.key@,
                            ) == spec_apply_entry(
                                spec_map_reg(old(self).network_state.associations, op.key@),
                                op.op,
                            )
                            &&& (forall|h: Seq<char>|
                                h != op.key@ ==> #[trigger] spec_map_reg(
                                    final (self).network_state.associations,
                                    h,
                                ) == spec_map_reg(old(self).network_state.associations, h))
                            &&& spec_assoc_write_response(final (self).network_state, op, r.0)
                            &&& (r.1 is Some <==> spec_op_accepted(
                                final (self).network_state.associations,
                                op.key@,
                                op,
                            ))
                        }
                },
                _ => final (self).network_state == old(self).network_state && r.0 is Failure,
            },
    {
        match request {
            AssocRequest::Op(map_op) => {
                match &map_op.op.value {
                    None => (
                        Response::Failure {
                            reason: Some("Invalid Op type for Create Association".to_owned()),
                        },
                        None,
                    ),
                    Some(_) => {
                        let key = copy_string(&map_op.key);
                        let probe = MapOp {
                            key: copy_string(&map_op.key),
                            op: RegEntry {
                                clock: map_op.op.clock,
                                actor: map_op.op.actor,
                                value: None,
                            },
                        };
                        self.network_state.associations_op(map_op);
                        let (ok, v) = self.network_state.associations_op_success(
                            key.as_str(),
                            &probe,
                        );
                        if ok {
                            let resp = match v {
                                Some(a) => Response::Success(Success::Value(a)),
                                None => Response::Success(Success::Empty),
                            };
                            (resp, None)
                        } else {
                            (
                                Response::Failure {
                                    reason: Some("update was rejected".to_owned()),
                                },
                                None,
                            )
                        }
                    },
                }
            },
            AssocRequest::Create(contents) => {
                let map_op = self.network_state.update_association_local(contents);
                let key = copy_string(&map_op.key);
                let broadcast_op = MapOp {
                    key: copy_string(&map_op.key),
                    op: RegEntry {
                        clock: map_op.op.clock,
                        actor: map_op.op.actor,
                        value: match &map_op.op.value {
                            Some(a) => Some(clone_association(a)),
                            None => None,
                        },
                    },
                };
                let probe = MapOp {
                    key: copy_string(&map_op.key),
                    op: RegEntry {
                        clock: map_op.op.clock,
                        actor: map_op.op.actor,
                        value: None,
                    },
                };
                self.network_state.associations_op(map_op);
                let (ok, v) = self.network_state.associations_op_success(key.as_str(), &probe);
                if ok {
                    let resp = match v {
                        Some(a) => Response::Success(Success::Value(a)),
                        None => Response::Success(Success::Empty),
                    };
                    (resp, Some(AssocRequest::Op(broadcast_op)))
                } else {
                    (
                        Response::Failure { reason: Some("update was rejected".to_owned()) },
                        None,
                    )
                }
            },
            _ => (
                Response::Failure {
                    reason: Some("Invalid request for create Association".to_owned()),
                },
                None,
            ),
        }
    }

    /// `POST /assoc/delete`.
    pub fn delete_assoc(&mut self, request: AssocRequest) -> (r: (
        Response<Association>,
        Option<AssocRequest>,
    ))
        requires
            network_state_well_formed(old(self).network_state),
        ensures
            network_state_well_formed(final (self).network_state),
            final (self).instance_state == old(self).instance_state,
            final (self).node_state == old(self).node_state,
            match request {
                AssocRequest::Op(op) => r.1 is None && (op.op.value is Some ==> final (self).network_state
                    == old(self).network_state && r.0 is Failure) && (op.op.value is None
                    ==> spec_map_reg(final (self).network_state.associations, op.key@)
                    == spec_apply_entry(
                    spec_map_reg(old(self).network_state.associations, op.key@),
                    op.op,
                ) && r.0 matches Response::Success(Success::Empty)),
                AssocRequest::Delete(id) => {
                    let clock = spec_next_clock(
                        spec_map_reg(old(self).network_state.associations, id@),
                    );
                    let actor = old(self).network_state.actor;
                    let tomb = RegEntry::<Option<Association>> { clock, actor, value: None };
                    &&& spec_map_reg(final (self).network_state.associations, id@)
                        == spec_apply_entry(
                        spec_map_reg(old(self).network_state.associations, id@),
                        tomb,
                    )
                    &&& (forall|h: Seq<char>|
                        h != id@ ==> #[trigger] spec_map_reg(
                            final (self).network_state.associations,
                            h,
                        ) == spec_map_reg(old(self).network_state.associations, h))
                    &&& r.0 matches Response::Success(Success::Empty)
                    &&& (r.1 matches Some(AssocRequest::Op(b)) && b.key@ == id@ && b.op.value
                        is None && b.op.clock == clock && b.op.actor == actor)
                },
                _ => final (self).network_state == old(self).network_state && r.0 is Failure,
            },
    {
        match request {
            AssocRequest::Op(map_op) => {
                match &map_op.op.value {
                    Some(_) => (
                        Response::Failure {
                            reason: Some("Invalid Op type for delete association".to_owned()),
                        },
                        None,
                    ),
                    None => {
                        self.network_state.associations_op(map_op);
                        (Response::Success(Success::Empty), None)
                    },
                }
            },
            AssocRequest::Delete(id) => {
                let map_op = self.network_state.remove_association_local(id);
                let broadcast_op = MapOp {
                    key: copy_string(&map_op.key),
                    op: RegEntry {
                        clock: map_op.op.clock,
                        actor: map_op.op.actor,
                        value: None,
                    },
                };
                self.network_state.associations_op(map_op);
                (
                    Response::Success(Success::Empty),
                    Some(AssocRequest::Op(broadcast_op)),
                )
            },
            _ => (
                Response::Failure {
                    reason: Some("Invalid request for remove association".to_owned()),
                },
                None,
            ),
        }
    }
}

/// A request against the edge DNS service.
pub enum DomainRequest {
    Create {
        domain: String,
        record_type: crate::dns::RecordType,
        ip_addr: Vec<crate::dns::SockAddr>,
        cname_target: Option<String>,
        ssl_cert: bool,
    },
    Update {
        replace: bool,
        record_type: crate::dns::RecordType,
        ip_addr: Vec<crate::dns::SockAddr>,
        cname_target: Option<String>,
        ssl_cert: bool,
    },
}

/// Concatenation of two socket-address lists.
pub fn concat_sock_addrs(
    a: &Vec<crate::dns::SockAddr>,
    b: &Vec<crate::dns::SockAddr>,
) -> (r: Vec<crate::dns::SockAddr>)
    ensures
        r@ == a@ + b@,
{
    let mut out = crate::dns::copy_sock_addrs(a);
    let mut i: usize = 0;
    while i < b.len()
        invariant
            i <= b@.len(),
            out@ == a@ + b@.take(i as int),
        decreases b@.len() - i,
    {
        out.push(b[i]);
        i = i + 1;
        proof {
            assert(out@ =~= a@ + b@.take(i as int));
        }
    }
    proof {
        assert(out@ =~= a@ + b@);
    }
    out
}

/// The addresses an A-record request carries: the overlay addresses first
/// when there are any, then the public ones; otherwise the public ones.
pub fn build_create_a_record_request(v: &FormDnsRecord) -> (r: (
    DomainRequest,
    Option<Response<FormDnsRecord>>,
))
    ensures
        r.1 is None,
        r.0 matches DomainRequest::Create { domain, record_type, ip_addr, cname_target, ssl_cert }
            && domain@ == v.domain@ && record_type == v.record_type && cname_target is None
            && ssl_cert == v.ssl_cert && ip_addr@ == (if v.formnet_ip@.len() > 0 {
            v.formnet_ip@ + v.public_ip@
        } else {
            v.public_ip@
        }),
{
    if v.formnet_ip.len() > 0 {
        let ips = concat_sock_addrs(&v.formnet_ip, &v.public_ip);
        (
            DomainRequest::Create {
                domain: copy_string(&v.domain),
                record_type: v.record_type,
                ip_addr: ips,
                cname_target: None,
                ssl_cert: v.ssl_cert,
            },
            None,
        )
    } else {
        (
            DomainRequest::Create {
                domain: copy_string(&v.domain),
                record_type: v.record_type,
                ip_addr: crate::dns::copy_sock_addrs(&v.public_ip),
                cname_target: None,
                ssl_cert: v.ssl_cert,
            },
            None,
        )
    }
}

/// The update form of the A-record request: a replacement when the record
/// has overlay addresses, a create with the public ones otherwise.
pub fn build_update_a_record_request(v: &FormDnsRecord) -> (r: (
    DomainRequest,
    Option<Response<FormDnsRecord>>,
))
    ensures
        r.1 is None,
        v.formnet_ip@.len() > 0 ==> (r.0 matches DomainRequest::Update {
            replace,
            record_type,
            ip_addr,
            cname_target,
            ssl_cert,
        } && replace && record_type == v.record_type && ip_addr@ == v.formnet_ip@ + v.public_ip@
            && cname_target is None && ssl_cert == v.ssl_cert),
        v.formnet_ip@.len() == 0 ==> (r.0 matches DomainRequest::Create {
            domain,
            record_type,
            ip_addr,
            cname_target,
            ssl_cert,
        } && domain@ == v.domain@ && record_type == v.record_type && ip_addr@ == v.public_ip@
            && cname_target is None && ssl_cert == v.ssl_cert),
{
    if v.formnet_ip.len() > 0 {
        let ips = concat_sock_addrs(&v.formnet_ip, &v.public_ip);
        (
            DomainRequest::Update {
                replace: true,
                record_type: v.record_type,
                ip_addr: ips,
                cname_target: None,
                ssl_cert: v.ssl_cert,
            },
            None,
        )
    } else {
        (
            DomainRequest::Create {
                domain: copy_string(&v.domain),
                record_type: v.record_type,
                ip_addr: crate::dns::copy_sock_addrs(&v.public_ip),
                cname_target: None,
                ssl_cert: v.ssl_cert,
            },
            None,
        )
    }
}

/// The AAAA create request: public addresses only; a record without one is
/// refused.
pub fn build_create_aaaa_record_request(v: &FormDnsRecord) -> (r: (
    DomainRequest,
    Option<Response<FormDnsRecord>>,
))
    ensures
        r.0 matches DomainRequest::Create { domain, record_type, ip_addr, cname_target, ssl_cert }
            && domain@ == v.domain@ && record_type == v.record_type && ip_addr@ == v.public_ip@
            && cname_target is None && ssl_cert == v.ssl_cert,
        r.1 is Some <==> v.public_ip@.len() == 0,
        r.1 matches Some(resp) ==> resp is Failure,
{
    let request = DomainRequest::Create {
        domain: copy_string(&v.domain),
        record_type: v.record_type,
        ip_addr: crate::dns::copy_sock_addrs(&v.public_ip),
        cname_target: None,
        ssl_cert: v.ssl_cert,
    };
    if v.public_ip.len() > 0 {
        (request, None)
    } else {
        (
            request,
            Some(
                Response::Failure {
                    reason: Some(
                        "AAAA Record Updates require a public IP V6 address".to_owned(),
                    ),
                },
            ),
        )
    }
}

/// The AAAA update request: a replacement with the public addresses.
pub fn build_update_aaaa_record_request(v: &FormDnsRecord) -> (r: (
    DomainRequest,
    Option<Response<FormDnsRecord>>,
))
    ensures
        r.1 is None,
        r.0 matches DomainRequest::Update { replace, record_type, ip_addr, cname_target, ssl_cert }
            && replace && record_type == v.record_type && ip_addr@ == v.public_ip@ && cname_target
            is None && ssl_cert == v.ssl_cert,
{
    (
        DomainRequest::Update {
            replace: true,
            record_type: v.record_type,
            ip_addr: crate::dns::copy_sock_addrs(&v.public_ip),
            cname_target: None,
            ssl_cert: v.ssl_cert,
        },
        None,
    )
}

/// The CNAME create request: every address and the target, verbatim.
pub fn build_create_cname_record_request(v: &FormDnsRecord) -> (r: (
    DomainRequest,
    Option<Response<FormDnsRecord>>,
))
    ensures
        r.1 is None,
        r.0 matches DomainRequest::Create { domain, record_type, ip_addr, cname_target, ssl_cert }
            && domain@ == v.domain@ && record_type == v.record_type && ip_addr@ == v.formnet_ip@
            + v.public_ip@ && crate::dns::opt_string_view(cname_target)
            == crate::dns::opt_string_view(v.cname_target) && ssl_cert == v.ssl_cert,
{
    (
        DomainRequest::Create {
            domain: copy_string(&v.domain),
            record_type: v.record_type,
            ip_addr: concat_sock_addrs(&v.formnet_ip, &v.public_ip),
            cname_target: match &v.cname_target {
                Some(t) => Some(copy_string(t)),
                None => None,
            },
            ssl_cert: v.ssl_cert,
        },
        None,
    )
}

/// The CNAME update request: a replacement with every address and the
/// target.
pub fn build_update_cname_record_request(v: &FormDnsRecord) -> (r: (
    DomainRequest,
    Option<Response<FormDnsRecord>>,
))
    ensures
        r.1 is None,
        r.0 matches DomainRequest::Update { replace, record_type, ip_addr, cname_target, ssl_cert }
            && replace && record_type == v.record_type && ip_addr@ == v.formnet_ip@ + v.public_ip@
            && crate::dns::opt_string_view(cname_target) == crate::dns::opt_string_view(
            v.cname_target,
        ) && ssl_cert == v.ssl_cert,
{
    (
        DomainRequest::Update {
            replace: true,
            record_type: v.record_type,
            ip_addr: concat_sock_addrs(&v.formnet_ip, &v.public_ip),
            cname_target: match &v.cname_target {
                Some(t) => Some(copy_string(t)),
                None => None,
            },
            ssl_cert: v.ssl_cert,
        },
        None,
    )
}

/// A record the edge service accepts a create for.
pub open spec fn netstate_spec_forwardable_record(v: FormDnsRecord) -> bool {
    v.record_type == crate::dns::RecordType::A || v.record_type == crate::dns::RecordType::Cname
        || (v.record_type == crate::dns::RecordType::Aaaa && v.public_ip@.len() > 0)
}

/// Dispatches a create by record type; anything but A, AAAA and CNAME is
/// refused, and an AAAA record without a public address is refused too.
pub fn build_create_request(v: &FormDnsRecord) -> (r: (
    DomainRequest,
    Option<Response<FormDnsRecord>>,
))
    ensures
        v.record_type == crate::dns::RecordType::Null ==> (r.1 matches Some(resp) && resp
            is Failure),
        r.1 is None <==> netstate_spec_forwardable_record(*v),
        r.1 matches Some(resp) ==> resp is Failure,
        v.record_type == crate::dns::RecordType::A ==> (r.0 matches DomainRequest::Create {
            domain,
            record_type,
            ip_addr,
            cname_target,
            ssl_cert,
        } && domain@ == v.domain@ && record_type == v.record_type && cname_target is None
            && ssl_cert == v.ssl_cert && ip_addr@ == (if v.formnet_ip@.len() > 0 {
            v.formnet_ip@ + v.public_ip@
        } else {
            v.public_ip@
        })),
        v.record_type == crate::dns::RecordType::Aaaa ==> (r.0 matches DomainRequest::Create {
            domain,
            record_type,
            ip_addr,
            cname_target,
            ssl_cert,
        } && domain@ == v.domain@ && record_type == v.record_type && ip_addr@ == v.public_ip@
            && cname_target is None && ssl_cert == v.ssl_cert),
        v.record_type == crate::dns::RecordType::Cname ==> (r.0 matches DomainRequest::Create {
            domain,
            record_type,
            ip_addr,
            cname_target,
            ssl_cert,
        } && domain@ == v.domain@ && record_type == v.record_type && ip_addr@ == v.formnet_ip@
            + v.public_ip@ && crate::dns::opt_string_view(cname_target)
            == crate::dns::opt_string_view(v.cname_target) && ssl_cert == v.ssl_cert),
{
    match v.record_type {
        crate::dns::RecordType::A => build_create_a_record_request(v),
        crate::dns::RecordType::Aaaa => build_create_aaaa_record_request(v),
        crate::dns::RecordType::Cname => build_create_cname_record_request(v),
        crate::dns::RecordType::Null => (
            DomainRequest::Create {
                domain: copy_string(&v.domain),
                record_type: crate::dns::RecordType::Null,
                ip_addr: Vec::new(),
                cname_target: None,
                ssl_cert: v.ssl_cert,
            },
            Some(
                Response::Failure {
                    reason: Some(
                        "Only A, AAAA and CNAME records are supported".to_owned(),
                    ),
                },
            ),
        ),
    }
}

/// Dispatches an update by record type; anything but A, AAAA and CNAME is
/// refused.
pub fn build_update_request(v: &FormDnsRecord) -> (r: (
    DomainRequest,
    Option<Response<FormDnsRecord>>,
))
    ensures
        v.record_type == crate::dns::RecordType::Null ==> (r.1 matches Some(resp) && resp
            is Failure),
{
    match v.record_type {
        crate::dns::RecordType::A => build_update_a_record_request(v),
        crate::dns::RecordType::Aaaa => build_update_aaaa_record_request(v),
        crate::dns::RecordType::Cname => build_update_cname_record_request(v),
        crate::dns::RecordType::Null => (
            DomainRequest::Update {
                replace: false,
                record_type: crate::dns::RecordType::Null,
                ip_addr: Vec::new(),
                cname_target: None,
                ssl_cert: v.ssl_cert,
            },
            Some(
                Response::Failure {
                    reason: Some(
                        "Only A, AAAA and CNAME records are supported".to_owned(),
                    ),
                },
            ),
        ),
    }
}

/// Builds the edge request for an operation kind ("create" or "update"); a
/// missing record or an unknown kind is refused.
pub fn build_dns_request(v: Option<&FormDnsRecord>, op_type: &str) -> (r: (
    DomainRequest,
    Option<Response<FormDnsRecord>>,
))
    ensures
        v is None ==> (r.1 matches Some(resp) && resp is Failure),
        op_type@ != "create"@ && op_type@ != "update"@ ==> (r.1 matches Some(resp) && resp
            is Failure),
{
    if str_eq(op_type, "create") {
        match v {
            None => (
                DomainRequest::Create {
                    domain: String::new(),
                    record_type: crate::dns::RecordType::Null,
                    ip_addr: Vec::new(),
                    cname_target: None,
                    ssl_cert: false,
                },
                Some(
                    Response::Failure {
                        reason: Some("Create request requires a record".to_owned()),
                    },
                ),
            ),
            Some(rec) => build_create_request(rec),
        }
    } else if str_eq(op_type, "update") {
        match v {
            None => (
                DomainRequest::Update {
                    replace: false,
                    record_type: crate::dns::RecordType::Null,
                    ip_addr: Vec::new(),
                    cname_target: None,
                    ssl_cert: false,
                },
                Some(
                    Response::Failure {
                        reason: Some("Update request requires a record".to_owned()),
                    },
                ),
            ),
            Some(rec) => build_update_request(rec),
        }
    } else {
        (
            DomainRequest::Update {
                replace: false,
                record_type: crate::dns::RecordType::Null,
                ip_addr: Vec::new(),
                cname_target: None,
                ssl_cert: false,
            },
            Some(
                Response::Failure {
                    reason: Some("Update request requires a record".to_owned()),
                },
            ),
        )
    }
}

/// A record the edge service can be asked to create: A and CNAME always,
/// AAAA only with a public address; the null type never.
pub open spec fn spec_forwardable(v: DnsRecordView) -> bool {
    v.record_type == crate::dns::RecordType::A || v.record_type == crate::dns::RecordType::Cname
        || (v.record_type == crate::dns::RecordType::Aaaa && v.public_ip.len() > 0)
}

/// How a DNS write ends: refused outright, or accepted with the request the
/// edge DNS service must receive before the caller answers success.
pub enum DnsOpOutcome {
    Rejected(Response<FormDnsRecord>),
    Forward { record: FormDnsRecord, request: DomainRequest },
}

impl DataStore {
    /// The shared body of the DNS create and update handlers: merge the
    /// operation, and on acceptance build the edge request (the update
    /// handler, like the original one, builds the create form).
    fn apply_dns_write(&mut self, map_op: MapOp<Option<FormDnsRecord>>) -> (r: DnsOpOutcome)
        requires
            network_state_well_formed(old(self).network_state),
        ensures
            network_state_well_formed(final (self).network_state),
            final (self).instance_state == old(self).instance_state,
            final (self).node_state == old(self).node_state,
            spec_map_reg(final (self).network_state.dns_state.zones, map_op.key@)
                == spec_apply_entry(
                spec_map_reg(old(self).network_state.dns_state.zones, map_op.key@),
                map_op.op,
            ),
            forall|h: Seq<char>|
                h != map_op.key@ ==> #[trigger] spec_map_reg(
                    final (self).network_state.dns_state.zones,
                    h,
                ) == spec_map_reg(old(self).network_state.dns_state.zones, h),
            final (self).network_state.peers == old(self).network_state.peers,
            final (self).network_state.cidrs == old(self).network_state.cidrs,
            final (self).network_state.associations == old(self).network_state.associations,
            r is Forward <==> spec_op_accepted(
                final (self).network_state.dns_state.zones,
                map_op.key@,
                map_op,
            ) && (spec_map_reg(final (self).network_state.dns_state.zones, map_op.key@) matches
                Some(e) && (e.value matches Some(rec) && spec_forwardable(dns_record_view(rec)))),
            r matches DnsOpOutcome::Forward { record, request } ==> {
                let v = dns_record_view(record);
                &&& (spec_map_reg(final (self).network_state.dns_state.zones, map_op.key@)
                    matches Some(e) && (e.value matches Some(rec) && dns_record_view(rec) == v))
                &&& (v.record_type == crate::dns::RecordType::A ==> (request matches
                    DomainRequest::Create { domain, record_type, ip_addr, cname_target, ssl_cert }
                    && domain@ == v.domain && record_type == v.record_type && cname_target is None
                    && ssl_cert == v.ssl_cert && ip_addr@ == (if v.formnet_ip.len() > 0 {
                    v.formnet_ip + v.public_ip
                } else {
                    v.public_ip
                })))
                &&& (v.record_type == crate::dns::RecordType::Aaaa ==> v.public_ip.len() > 0 && (
                request matches DomainRequest::Create {
                    domain,
                    record_type,
                    ip_addr,
                    cname_target,
                    ssl_cert,
                } && domain@ == v.domain && record_type == v.record_type && ip_addr@ == v.public_ip
                    && cname_target is None && ssl_cert == v.ssl_cert))
                &&& (v.record_type == crate::dns::RecordType::Cname ==> (request matches
                    DomainRequest::Create { domain, record_type, ip_addr, cname_target, ssl_cert }
                    && domain@ == v.domain && record_type == v.record_type && ip_addr@
                    == v.formnet_ip + v.public_ip && crate::dns::opt_string_view(cname_target) == v.cname_target && ssl_cert == v.ssl_cert))
                &&& v.record_type != crate::dns::RecordType::Null
            },
            r matches DnsOpOutcome::Rejected(resp) ==> resp is Failure,
    {
        let key = copy_string(&map_op.key);
        let probe = MapOp {
            key: copy_string(&map_op.key),
            op: RegEntry { clock: map_op.op.clock, actor: map_op.op.actor, value: None },
        };
        self.network_state.dns_op(map_op);
        let (ok, v) = self.network_state.dns_op_success(key.as_str(), &probe);
        if !ok {
            return DnsOpOutcome::Rejected(
                Response::Failure { reason: Some("update was rejected".to_owned()) },
            );
        }
        match v {
            Some(record) => {
                let (request, failure) = build_create_request(&record);
                match failure {
                    Some(resp) => DnsOpOutcome::Rejected(resp),
                    None => DnsOpOutcome::Forward { record, request },
                }
            },
            None => DnsOpOutcome::Rejected(
                Response::Failure { reason: Some("update was rejected".to_owned()) },
            ),
        }
    }

    /// `POST /dns/create`.
    pub fn create_dns(&mut self, request: DnsRequest) -> (r: DnsOpOutcome)
        requires
            network_state_well_formed(old(self).network_state),
        ensures
            network_state_well_formed(final (self).network_state),
            final (self).instance_state == old(self).instance_state,
            final (self).node_state == old(self).node_state,
            match request {
                DnsRequest::Op(op) => (op.op.value is None ==> final (self).network_state == old(
                    self,
                ).network_state && (r matches DnsOpOutcome::Rejected(resp) && resp is Failure)) && (
                op.op.value is Some ==> spec_map_reg(
                    final (self).network_state.dns_state.zones,
                    op.key@,
                ) == spec_apply_entry(
                    spec_map_reg(old(self).network_state.dns_state.zones, op.key@),
                    op.op,
                ) && (r is Forward <==> spec_op_accepted(
                    final (self).network_state.dns_state.zones,
                    op.key@,
                    op,
                ) && (spec_map_reg(final (self).network_state.dns_state.zones, op.key@) matches
                    Some(e) && (e.value matches Some(rec) && spec_forwardable(
                    dns_record_view(rec),
                ))))),
                DnsRequest::Create(record) => exists|op: MapOp<Option<FormDnsRecord>>|
                    {
                        &&& op.key@ == record.domain@
                        &&& op.op.actor == old(self).network_state.actor
                        &&& op.op.clock == spec_next_clock(
                            spec_map_reg(
                                old(self).network_state.dns_state.zones,
                                record.domain@,
                            ),
                        )
                        &&& (op.op.value matches Some(rec) && dns_record_view(rec)
                            == dns_record_view(record))
                        &&& #[trigger] spec_map_reg(
                            final (self).network_state.dns_state.zones,
                            op.key@,
                        ) == spec_apply_entry(
                            spec_map_reg(old(self).network_state.dns_state.zones, op.key@),
                            op.op,
                        )
                        &&& (forall|h: Seq<char>|
                            h != op.key@ ==> #[trigger] spec_map_reg(
                                final (self).network_state.dns_state.zones,
                                h,
                            ) == spec_map_reg(old(self).network_state.dns_state.zones, h))
                        &&& (r is Forward <==> spec_op_accepted(
                            final (self).network_state.dns_state.zones,
                            op.key@,
                            op,
                        ) && (spec_map_reg(
                            final (self).network_state.dns_state.zones,
                            op.key@,
                        ) matches Some(e) && (e.value matches Some(rec2) && spec_forwardable(
                            dns_record_view(rec2),
                        ))))
                    },
                _ => final (self).network_state == old(self).network_state && (r matches
                    DnsOpOutcome::Rejected(resp) && resp is Failure),
            },
    {
        match request {
            DnsRequest::Op(map_op) => {
                match &map_op.op.value {
                    None => DnsOpOutcome::Rejected(
                        Response::Failure {
                            reason: Some("Invalid Op type for Create DNS Record".to_owned()),
                        },
                    ),
                    Some(_) => self.apply_dns_write(map_op),
                }
            },
            DnsRequest::Create(record) => {
                let map_op = self.network_state.update_dns_local(record);
                self.apply_dns_write(map_op)
            },
            _ => DnsOpOutcome::Rejected(
                Response::Failure { reason: Some("Invalid request for create DNS".to_owned()) },
            ),
        }
    }

    /// `POST /dns/update`.
    pub fn update_dns(&mut self, request: DnsRequest) -> (r: DnsOpOutcome)
        requires
            network_state_well_formed(old(self).network_state),
        ensures
            network_state_well_formed(final (self).network_state),
            final (self).instance_state == old(self).instance_state,
            final (self).node_state == old(self).node_state,
            match request {
                DnsRequest::Op(op) => (op.op.value is None ==> final (self).network_state == old(
                    self,
                ).network_state && (r matches DnsOpOutcome::Rejected(resp) && resp is Failure)) && (
                op.op.value is Some ==> spec_map_reg(
                    final (self).network_state.dns_state.zones,
                    op.key@,
                ) == spec_apply_entry(
                    spec_map_reg(old(self).network_state.dns_state.zones, op.key@),
                    op.op,
                ) && (r is Forward <==> spec_op_accepted(
                    final (self).network_state.dns_state.zones,
                    op.key@,
                    op,
                ) && (spec_map_reg(final (self).network_state.dns_state.zones, op.key@) matches
                    Some(e) && (e.value matches Some(rec) && spec_forwardable(
                    dns_record_view(rec),
                ))))),
                DnsRequest::Update(record) => exists|op: MapOp<Option<FormDnsRecord>>|
                    {
                        &&& op.key@ == record.domain@
                        &&& op.op.actor == old(self).network_state.actor
                        &&& op.op.clock == spec_next_clock(
                            spec_map_reg(
                                old(self).network_state.dns_state.zones,
                                record.domain@,
                            ),
                        )
                        &&& (op.op.value matches Some(rec) && dns_record_view(rec)
                            == dns_record_view(record))
                        &&& #[trigger] spec_map_reg(
                            final (self).network_state.dns_state.zones,
                            op.key@,
                        ) == spec_apply_entry(
                            spec_map_reg(old(self).network_state.dns_state.zones, op.key@),
                            op.op,
                        )
                        &&& (forall|h: Seq<char>|
                            h != op.key@ ==> #[trigger] spec_map_reg(
                                final (self).network_state.dns_state.zones,
                                h,
                            ) == spec_map_reg(old(self).network_state.dns_state.zones, h))
                        &&& (r is Forward <==> spec_op_accepted(
                            final (self).network_state.dns_state.zones,
                            op.key@,
                            op,
                        ) && (spec_map_reg(
                            final (self).network_state.dns_state.zones,
                            op.key@,
                        ) matches Some(e) && (e.value matches Some(rec2) && spec_forwardable(
                            dns_record_view(rec2),
                        ))))
                    },
                _ => final (self).network_state == old(self).network_state && (r matches
                    DnsOpOutcome::Rejected(resp) && resp is Failure),
            },
    {
        match request {
            DnsRequest::Op(map_op) => {
                match &map_op.op.value {
                    None => DnsOpOutcome::Rejected(
                        Response::Failure {
                            reason: Some("Invalid Op type for Update DNS".to_owned()),
                        },
                    ),
                    Some(_) => self.apply_dns_write(map_op),
                }
            },
            DnsRequest::Update(record) => {
                let map_op = self.network_state.update_dns_local(record);
                self.apply_dns_write(map_op)
            },
            _ => DnsOpOutcome::Rejected(
                Response::Failure { reason: Some("Invalid request for update dns".to_owned()) },
            ),
        }
    }

    /// `POST /dns/:domain/delete`: a tombstone; the caller then asks the
    /// edge service to drop the name, and broadcasts direct deletions.
    pub fn delete_dns(&mut self, request: DnsRequest) -> (r: (
        Option<Response<FormDnsRecord>>,
        Option<DnsRequest>,
    ))
        requires
            network_state_well_formed(old(self).network_state),
        ensures
            network_state_well_formed(final (self).network_state),
            final (self).instance_state == old(self).instance_state,
            final (self).node_state == old(self).node_state,
            r.0 matches Some(resp) ==> resp is Failure && r.1 is None,
            match request {
                DnsRequest::Op(op) => r.1 is None && (op.op.value is Some ==> final (self).network_state
                    == old(self).network_state && r.0 is Some) && (op.op.value is None
                    ==> spec_map_reg(final (self).network_state.dns_state.zones, op.key@)
                    == spec_apply_entry(
                    spec_map_reg(old(self).network_state.dns_state.zones, op.key@),
                    op.op,
                ) && r.0 is None),
                DnsRequest::Delete(domain) => {
                    let clock = spec_next_clock(
                        spec_map_reg(old(self).network_state.dns_state.zones, domain@),
                    );
                    let actor = old(self).network_state.actor;
                    let tomb = RegEntry::<Option<FormDnsRecord>> { clock, actor, value: None };
                    &&& spec_map_reg(final (self).network_state.dns_state.zones, domain@)
                        == spec_apply_entry(
                        spec_map_reg(old(self).network_state.dns_state.zones, domain@),
                        tomb,
                    )
                    &&& (forall|h: Seq<char>|
                        h != domain@ ==> #[trigger] spec_map_reg(
                            final (self).network_state.dns_state.zones,
                            h,
                        ) == spec_map_reg(old(self).network_state.dns_state.zones, h))
                    &&& r.0 is None
                    &&& (r.1 matches Some(DnsRequest::Op(b)) && b.key@ == domain@ && b.op.value
                        is None && b.op.clock == clock && b.op.actor == actor)
                },
                _ => final (self).network_state == old(self).network_state && r.0 is Some,
            },
    {
        match request {
            DnsRequest::Op(map_op) => {
                match &map_op.op.value {
                    Some(_) => (
                        Some(
                            Response::Failure {
                                reason: Some("Invalid Op type for delete dns".to_owned()),
                            },
                        ),
                        None,
                    ),
                    None => {
                        self.network_state.dns_op(map_op);
                        (None, None)
                    },
                }
            },
            DnsRequest::Delete(domain) => {
                let map_op = self.network_state.remove_dns_local(domain);
                let broadcast_op = MapOp {
                    key: copy_string(&map_op.key),
                    op: RegEntry {
                        clock: map_op.op.clock,
                        actor: map_op.op.actor,
                        value: None,
                    },
                };
                self.network_state.dns_op(map_op);
                (None, Some(DnsRequest::Op(broadcast_op)))
            },
            _ => (
                Some(
                    Response::Failure {
                        reason: Some("Invalid request for delete dns".to_owned()),
                    },
                ),
                None,
            ),
        }
    }

    /// `GET /dns/:domain/get`.
    pub fn get_dns_record(&self, domain: &str) -> (r: Response<FormDnsRecord>)
        ensures
            match spec_map_reg(self.network_state.dns_state.zones, domain@) {
                Some(e) => match e.value {
                    Some(rec) => r matches Response::Success(Success::Value(q))
                        && dns_record_view(q) == dns_record_view(rec),
                    None => r is Failure,
                },
                None => r is Failure,
            },
    {
        match self.network_state.dns_state.zones.get_entry(domain) {
            Some(e) => {
                match &e.value {
                    Some(rec) => Response::Success(Success::Value(clone_dns_record(rec))),
                    None => Response::Failure {
                        reason: Some("Record exists, but value is None".to_owned()),
                    },
                }
            },
            None => Response::Failure {
                reason: Some("Record does not exist for domain".to_owned()),
            },
        }
    }

    /// All live DNS records — exactly those, in entry order.
    pub fn list_dns_records(&self) -> (r: Vec<FormDnsRecord>)
        ensures
            dns_records_view(r@) == spec_live_dns_views(
                self.network_state.dns_state.zones.entries@,
            ),
    {
        let entries = &self.network_state.dns_state.zones.entries;
        let mut out: Vec<FormDnsRecord> = Vec::new();
        proof {
            assert(entries@.skip(0) =~= entries@);
        }
        let mut i: usize = 0;
        while i < entries.len()
            invariant
                i <= entries@.len(),
                entries@ == self.network_state.dns_state.zones.entries@,
                spec_live_dns_views(entries@) == dns_records_view(out@) + spec_live_dns_views(
                    entries@.skip(i as int),
                ),
            decreases entries@.len() - i,
        {
            let ghost pre = dns_records_view(out@);
            proof {
                assert(entries@.skip(i as int)[0] == entries@[i as int]);
                assert(entries@.skip(i as int).drop_first() =~= entries@.skip(i as int + 1));
            }
            match &entries[i].1.entry {
                Some(e) => {
                    match &e.value {
                        Some(rec) => {
                            out.push(clone_dns_record(rec));
                            proof {
                                assert(pre + spec_live_dns_views(entries@.skip(i as int))
                                    =~= dns_records_view(out@) + spec_live_dns_views(
                                    entries@.skip(i as int + 1),
                                ));
                            }
                        },
                        None => {},
                    }
                },
                None => {},
            }
            i = i + 1;
        }
        proof {
            assert(entries@.skip(entries@.len() as int) =~= Seq::<
                (String, crate::crdt::LwwReg<Option<FormDnsRecord>>),
            >::empty());
            assert(dns_records_view(out@) =~= dns_records_view(out@) + spec_live_dns_views(
                entries@.skip(entries@.len() as int),
            ));
        }
        out
    }

    /// The live DNS records that carry a public address of this node —
    /// exactly those, in order.
    pub fn get_dns_records_by_node_ip(&self, node_ip: IpAddress) -> (r: Vec<FormDnsRecord>)
        ensures
            dns_records_view(r@) == spec_dns_with_public_ip(
                spec_live_dns_views(self.network_state.dns_state.zones.entries@),
                node_ip,
            ),
    {
        let all = self.list_dns_records();
        let ghost views = dns_records_view(all@);
        let mut out: Vec<FormDnsRecord> = Vec::new();
        proof {
            assert(views.skip(0) =~= views);
        }
        let mut i: usize = 0;
        while i < all.len()
            invariant
                i <= all@.len(),
                views == dns_records_view(all@),
                spec_dns_with_public_ip(views, node_ip) == dns_records_view(out@)
                    + spec_dns_with_public_ip(views.skip(i as int), node_ip),
            decreases all@.len() - i,
        {
            let ghost pre = dns_records_view(out@);
            proof {
                assert(views.skip(i as int)[0] == views[i as int]);
                assert(views[i as int] == dns_record_view(all@[i as int]));
                assert(views.skip(i as int).drop_first() =~= views.skip(i as int + 1));
            }
            let rec = &all[i];
            let mut found = false;
            let mut j: usize = 0;
            while j < rec.public_ip.len()
                invariant
                    j <= rec.public_ip@.len(),
                    !found ==> forall|jj: int|
                        0 <= jj < j ==> (#[trigger] rec.public_ip@[jj]).ip != node_ip,
                    found ==> exists|jj: int|
                        0 <= jj < rec.public_ip@.len() && (#[trigger] rec.public_ip@[jj]).ip
                            == node_ip,
                decreases rec.public_ip@.len() - j,
            {
                if rec.public_ip[j].ip == node_ip {
                    found = true;
                }
                j = j + 1;
            }
            proof {
                assert(found == spec_record_has_public_ip(views[i as int], node_ip));
            }
            if found {
                out.push(clone_dns_record(rec));
                proof {
                    assert(pre + spec_dns_with_public_ip(views.skip(i as int), node_ip)
                        =~= dns_records_view(out@) + spec_dns_with_public_ip(
                        views.skip(i as int + 1),
                        node_ip,
                    ));
                }
            }
            i = i + 1;
        }
        proof {
            assert(views.skip(views.len() as int) =~= Seq::<DnsRecordView>::empty());
            assert(dns_records_view(out@) =~= dns_records_view(out@) + spec_dns_with_public_ip(
                views.skip(views.len() as int),
                node_ip,
            ));
        }
        out
    }

    /// The endpoint-change rule for an admin node's A record: nothing to do
    /// when the address did not change; an error when no live record names
    /// the old address among its public sockets; otherwise exactly those
    /// records, for the caller to update.
    pub fn update_dns_ip_addr(&self, node_ip: IpAddress, new_ip: IpAddress) -> (r: Result<
        Vec<FormDnsRecord>,
        (),
    >)
        ensures
            node_ip == new_ip ==> (r matches Ok(v) && v@.len() == 0),
            node_ip != new_ip ==> (r is Err <==> spec_dns_with_public_ip(
                spec_live_dns_views(self.network_state.dns_state.zones.entries@),
                node_ip,
            ).len() == 0),
            node_ip != new_ip ==> (r matches Ok(v) ==> dns_records_view(v@)
                == spec_dns_with_public_ip(
                spec_live_dns_views(self.network_state.dns_state.zones.entries@),
                node_ip,
            )),
    {
        if node_ip == new_ip {
            return Ok(Vec::new());
        }
        let records = self.get_dns_records_by_node_ip(node_ip);
        if records.len() == 0 {
            return Err(());
        }
        Ok(records)
    }
}

/// The images of a record list.
pub open spec fn dns_records_view(s: Seq<FormDnsRecord>) -> Seq<DnsRecordView> {
    s.map(|i: int, r: FormDnsRecord| dns_record_view(r))
}

/// The live DNS records, in entry order.
pub open spec fn spec_live_dns_views(
    entries: Seq<(String, crate::crdt::LwwReg<Option<FormDnsRecord>>)>,
) -> Seq<DnsRecordView>
    decreases entries.len(),
{
    if entries.len() == 0 {
        Seq::empty()
    } else {
        let rest = spec_live_dns_views(entries.drop_first());
        match entries[0].1.entry {
            Some(e) => match e.value {
                Some(rec) => seq![dns_record_view(rec)] + rest,
                None => rest,
            },
            None => rest,
        }
    }
}

/// Whether a record names this address among its public sockets.
pub open spec fn spec_record_has_public_ip(r: DnsRecordView, ip: IpAddress) -> bool {
    exists|j: int| 0 <= j < r.public_ip.len() && (#[trigger] r.public_ip[j]).ip == ip
}

/// The records of a list that name this public address, in order.
pub open spec fn spec_dns_with_public_ip(
    records: Seq<DnsRecordView>,
    ip: IpAddress,
) -> Seq<DnsRecordView>
    decreases records.len(),
{
    if records.len() == 0 {
        Seq::empty()
    } else {
        let rest = spec_dns_with_public_ip(records.drop_first(), ip);
        if spec_record_has_public_ip(records[0], ip) {
            seq![records[0]] + rest
        } else {
            rest
        }
    }
}

/// The images of a CIDR pair list.
pub open spec fn cidr_pairs_view(s: Seq<(String, Cidr<String>)>) -> Seq<(Seq<char>, CidrView)> {
    s.map(|i: int, c: (String, Cidr<String>)| (c.0@, cidr_view(c.1)))
}

/// The live CIDRs, in entry order, with their keys.
pub open spec fn spec_live_cidr_pairs(
    entries: Seq<(String, crate::crdt::LwwReg<Option<Cidr<String>>>)>,
) -> Seq<(Seq<char>, CidrView)>
    decreases entries.len(),
{
    if entries.len() == 0 {
        Seq::empty()
    } else {
        let rest = spec_live_cidr_pairs(entries.drop_first());
        match entries[0].1.entry {
            Some(e) => match e.value {
                Some(c) => seq![(entries[0].0@, cidr_view(c))] + rest,
                None => rest,
            },
            None => rest,
        }
    }
}

/// The images of an association pair list.
pub open spec fn assoc_pairs_view(s: Seq<(String, Association)>) -> Seq<(
    Seq<char>,
    AssociationView,
)> {
    s.map(|i: int, a: (String, Association)| (a.0@, association_view(a.1)))
}

/// The live associations, in entry order, with their keys.
pub open spec fn spec_live_assoc_pairs(
    entries: Seq<(String, crate::crdt::LwwReg<Option<Association>>)>,
) -> Seq<(Seq<char>, AssociationView)>
    decreases entries.len(),
{
    if entries.len() == 0 {
        Seq::empty()
    } else {
        let rest = spec_live_assoc_pairs(entries.drop_first());
        match entries[0].1.entry {
            Some(e) => match e.value {
                Some(a) => seq![(entries[0].0@, association_view(a))] + rest,
                None => rest,
            },
            None => rest,
        }
    }
}

/// The live value at a key of the CIDR map, if any.
pub open spec fn spec_live_cidr_at(
    cidrs: StateMap<Option<Cidr<String>>>,
    id: Seq<char>,
) -> Option<CidrView> {
    match spec_map_reg(cidrs, id) {
        Some(e) => match e.value {
            Some(c) => Some(cidr_view(c)),
            None => None,
        },
        None => None,
    }
}

/// The pairs of live CIDRs joined by the associations that name one CIDR,
/// in association order.
pub open spec fn spec_relationship_pairs(
    assocs: Seq<(Seq<char>, AssociationView)>,
    cidrs: StateMap<Option<Cidr<String>>>,
    cidr_id: Seq<char>,
) -> Seq<(CidrView, CidrView)>
    decreases assocs.len(),
{
    if assocs.len() == 0 {
        Seq::empty()
    } else {
        let rest = spec_relationship_pairs(assocs.drop_first(), cidrs, cidr_id);
        let a = assocs[0].1;
        if (a.cidr_id_1 == cidr_id || a.cidr_id_2 == cidr_id) && spec_live_cidr_at(
            cidrs,
            a.cidr_id_1,
        ) is Some && spec_live_cidr_at(cidrs, a.cidr_id_2) is Some {
            seq![
                (
                    spec_live_cidr_at(cidrs, a.cidr_id_1)->0,
                    spec_live_cidr_at(cidrs, a.cidr_id_2)->0,
                ),
            ] + rest
        } else {
            rest
        }
    }
}

/// The first domain-named host of a list, if any.
pub open spec fn spec_first_domain_host(hosts: Seq<HostV>) -> Option<Seq<char>>
    decreases hosts.len(),
{
    if hosts.len() == 0 {
        None
    } else {
        match hosts[0].domain {
            Some(d) => Some(d),
            None => spec_first_domain_host(hosts.drop_first()),
        }
    }
}

/// The v4-addressed hosts of a list, as port-80 sockets, in order.
pub open spec fn spec_v4_host_sockets(hosts: Seq<HostV>) -> Seq<crate::dns::SockAddr>
    decreases hosts.len(),
{
    if hosts.len() == 0 {
        Seq::empty()
    } else {
        let rest = spec_v4_host_sockets(hosts.drop_first());
        match hosts[0].ipv4 {
            Some(ip) => seq![crate::dns::SockAddr { ip, port: 80u16 }] + rest,
            None => rest,
        }
    }
}

/// The images of a CIDR relationship list.
pub open spec fn rel_pairs_view(s: Seq<(Cidr<String>, Cidr<String>)>) -> Seq<(
    CidrView,
    CidrView,
)> {
    s.map(|i: int, p: (Cidr<String>, Cidr<String>)| (cidr_view(p.0), cidr_view(p.1)))
}

/// The images of a peer list.
pub open spec fn peers_list_view(s: Seq<Peer<String>>) -> Seq<PeerView<Seq<char>>> {
    s.map(|i: int, p: Peer<String>| peer_string_view(p))
}

/// The peers of a keyed pair list, keys dropped.
pub open spec fn pairs_snd(s: Seq<(Seq<char>, PeerView<Seq<char>>)>) -> Seq<PeerView<Seq<char>>> {
    s.map(|i: int, p: (Seq<char>, PeerView<Seq<char>>)| p.1)
}

/// What serving a domain for a build needs: the record to create, the
/// instances to restamp with it, and the hosts of the nodes that run them.
pub struct VanityPlan {
    pub dns_record: FormDnsRecord,
    pub instance_updates: Vec<Instance>,
    pub node_hosts: Vec<HostSpec>,
}

impl DataStore {
    /// The live instances of a build — exactly those, in entry order.
    pub fn instances_with_build(&self, build_id: &str) -> (r: Vec<Instance>)
        ensures
            instances_view(r@) == spec_live_instances_with_build(
                self.instance_state.entries@,
                build_id@,
            ),
    {
        let entries = &self.instance_state.entries;
        let mut out: Vec<Instance> = Vec::new();
        proof {
            assert(entries@.skip(0) =~= entries@);
        }
        let mut i: usize = 0;
        while i < entries.len()
            invariant
                i <= entries@.len(),
                entries@ == self.instance_state.entries@,
                spec_live_instances_with_build(entries@, build_id@) == instances_view(out@)
                    + spec_live_instances_with_build(entries@.skip(i as int), build_id@),
            decreases entries@.len() - i,
        {
            let ghost pre = instances_view(out@);
            proof {
                assert(entries@.skip(i as int)[0] == entries@[i as int]);
                assert(entries@.skip(i as int).drop_first() =~= entries@.skip(i as int + 1));
            }
            match &entries[i].1.entry {
                Some(e) => {
                    match &e.value {
                        Some(inst) => {
                            if str_eq(inst.build_id.as_str(), build_id) {
                                out.push(clone_instance(inst));
                                proof {
                                    assert(pre + spec_live_instances_with_build(
                                        entries@.skip(i as int),
                                        build_id@,
                                    ) =~= instances_view(out@) + spec_live_instances_with_build(
                                        entries@.skip(i as int + 1),
                                        build_id@,
                                    ));
                                }
                            }
                        },
                        None => {},
                    }
                },
                None => {},
            }
            i = i + 1;
        }
        proof {
            assert(entries@.skip(entries@.len() as int) =~= Seq::<
                (String, crate::crdt::LwwReg<Option<Instance>>),
            >::empty());
            assert(instances_view(out@) =~= instances_view(out@)
                + spec_live_instances_with_build(
                entries@.skip(entries@.len() as int),
                build_id@,
            ));
        }
        out
    }

    /// The hosts of the live nodes that run any of these instances —
    /// exactly those, in entry order.
    pub fn hosts_of_nodes_running(&self, instances: &Vec<Instance>) -> (r: Vec<HostSpec>)
        ensures
            hosts_view(r@) == spec_hosts_for(
                self.node_state.entries@,
                instances_view(instances@),
            ),
    {
        let entries = &self.node_state.entries;
        let ghost iviews = instances_view(instances@);
        let mut out: Vec<HostSpec> = Vec::new();
        proof {
            assert(entries@.skip(0) =~= entries@);
        }
        let mut i: usize = 0;
        while i < entries.len()
            invariant
                i <= entries@.len(),
                entries@ == self.node_state.entries@,
                iviews == instances_view(instances@),
                spec_hosts_for(entries@, iviews) == hosts_view(out@) + spec_hosts_for(
                    entries@.skip(i as int),
                    iviews,
                ),
            decreases entries@.len() - i,
        {
            let ghost pre = hosts_view(out@);
            proof {
                assert(entries@.skip(i as int)[0] == entries@[i as int]);
                assert(entries@.skip(i as int).drop_first() =~= entries@.skip(i as int + 1));
            }
            match &entries[i].1.entry {
                Some(e) => {
                    match &e.value {
                        Some(node) => {
                            let mut hosts_it = false;
                            let mut j: usize = 0;
                            while j < instances.len()
                                invariant
                                    j <= instances@.len(),
                                    iviews == instances_view(instances@),
                                    !hosts_it ==> forall|k: int|
                                        0 <= k < j ==> (#[trigger] iviews[k]).node_id
                                            != node.id@,
                                    hosts_it ==> spec_runs_node(iviews, node.id@),
                                decreases instances@.len() - j,
                            {
                                proof {
                                    assert(iviews[j as int] == instance_view(
                                        instances@[j as int],
                                    ));
                                }
                                if str_eq(
                                    instances[j].node_id.as_str(),
                                    node.id.as_str(),
                                ) {
                                    hosts_it = true;
                                }
                                j = j + 1;
                            }
                            proof {
                                assert(hosts_it == spec_runs_node(iviews, node.id@));
                            }
                            if hosts_it {
                                out.push(clone_host(&node.host));
                                proof {
                                    assert(pre + spec_hosts_for(entries@.skip(i as int), iviews)
                                        =~= hosts_view(out@) + spec_hosts_for(
                                        entries@.skip(i as int + 1),
                                        iviews,
                                    ));
                                }
                            }
                        },
                        None => {},
                    }
                },
                None => {},
            }
            i = i + 1;
        }
        proof {
            assert(entries@.skip(entries@.len() as int) =~= Seq::<
                (String, crate::crdt::LwwReg<Option<Node>>),
            >::empty());
            assert(hosts_view(out@) =~= hosts_view(out@) + spec_hosts_for(
                entries@.skip(entries@.len() as int),
                iviews,
            ));
        }
        out
    }

    /// The overlay addresses of these instances, as port-80 sockets —
    /// exactly one per instance with an overlay address, in order.
    pub fn formnet_sockets_of(&self, instances: &Vec<Instance>) -> (r: Vec<crate::dns::SockAddr>)
        ensures
            r@ == spec_formnet_sockets(instances_view(instances@)),
    {
        let ghost views = instances_view(instances@);
        let mut out: Vec<crate::dns::SockAddr> = Vec::new();
        proof {
            assert(views.skip(0) =~= views);
        }
        let mut i: usize = 0;
        while i < instances.len()
            invariant
                i <= instances@.len(),
                views == instances_view(instances@),
                spec_formnet_sockets(views) == out@ + spec_formnet_sockets(
                    views.skip(i as int),
                ),
            decreases instances@.len() - i,
        {
            let ghost pre = out@;
            proof {
                assert(views.skip(i as int)[0] == views[i as int]);
                assert(views[i as int] == instance_view(instances@[i as int]));
                assert(views.skip(i as int).drop_first() =~= views.skip(i as int + 1));
            }
            match &instances[i].formnet_ip {
                Some(ip) => {
                    out.push(crate::dns::SockAddr { ip: *ip, port: 80 });
                    proof {
                        assert(pre + spec_formnet_sockets(views.skip(i as int)) =~= out@
                            + spec_formnet_sockets(views.skip(i as int + 1)));
                    }
                },
                None => {},
            }
            i = i + 1;
        }
        proof {
            assert(views.skip(views.len() as int) =~= Seq::<InstanceView>::empty());
            assert(out@ =~= out@ + spec_formnet_sockets(views.skip(views.len() as int)));
        }
        out
    }

    /// Plans an overlay-only ("vanity") domain for a build: refused when
    /// the domain is already assigned; otherwise an A record over exactly
    /// the matching instances' overlay addresses, those instances restamped
    /// with it, and exactly the hosts of the nodes running them.
    pub fn plan_request_vanity(&self, domain: String, build_id: &str) -> (r: Result<
        VanityPlan,
        Response<HostSpec>,
    >)
        ensures
            r is Err <==> crate::crdt::spec_key_index(
                self.network_state.dns_state.zones.entries@,
                domain@,
            ) >= 0,
            r matches Err(resp) ==> resp is Failure,
            r matches Ok(plan) ==> {
                let live = spec_live_instances_with_build(
                    self.instance_state.entries@,
                    build_id@,
                );
                let rv = dns_record_view(plan.dns_record);
                &&& rv.domain == domain@
                &&& rv.record_type == crate::dns::RecordType::A
                &&& rv.formnet_ip == spec_formnet_sockets(live)
                &&& rv.public_ip.len() == 0
                &&& rv.cname_target is None
                &&& rv.ssl_cert == false
                &&& rv.ttl == 3600
                &&& hosts_view(plan.node_hosts@) == spec_hosts_for(
                    self.node_state.entries@,
                    live,
                )
                &&& instances_view(plan.instance_updates@).len() == live.len()
                &&& forall|k: int|
                    0 <= k < live.len() ==> instances_view(plan.instance_updates@)[k] == (
                    InstanceView { dns_record: Some(rv), ..#[trigger] live[k] })
            },
    {
        match self.network_state.dns_state.zones.find_key(domain.as_str()) {
            Some(_) => {
                return Err(
                    Response::Failure {
                        reason: Some(
                            "Domain name requested is already assigned".to_owned(),
                        ),
                    },
                );
            },
            None => {},
        }
        let instances = self.instances_with_build(build_id);
        let ghost live = instances_view(instances@);
        let node_hosts = self.hosts_of_nodes_running(&instances);
        let formnet_ip = self.formnet_sockets_of(&instances);
        let dns_record = FormDnsRecord {
            domain,
            record_type: crate::dns::RecordType::A,
            formnet_ip,
            public_ip: Vec::new(),
            cname_target: None,
            ssl_cert: false,
            ttl: 3600,
            verification_status: None,
            verification_timestamp: None,
        };
        let ghost rv = dns_record_view(dns_record);
        let mut instance_updates: Vec<Instance> = Vec::new();
        let mut i: usize = 0;
        while i < instances.len()
            invariant
                i <= instances@.len(),
                live == instances_view(instances@),
                rv == dns_record_view(dns_record),
                instance_updates@.len() == i,
                forall|k: int|
                    0 <= k < i ==> instances_view(instance_updates@)[k] == (InstanceView {
                        dns_record: Some(rv),
                        ..#[trigger] live[k]
                    }),
            decreases instances@.len() - i,
        {
            let mut inst = clone_instance(&instances[i]);
            inst.dns_record = Some(clone_dns_record(&dns_record));
            proof {
                assert(live[i as int] == instance_view(instances@[i as int]));
                assert(instance_view(inst) == (InstanceView {
                    dns_record: Some(rv),
                    ..live[i as int]
                }));
            }
            instance_updates.push(inst);
            i = i + 1;
        }
        Ok(VanityPlan { dns_record, instance_updates, node_hosts })
    }

    /// Plans a public domain for a build: like the vanity plan, with the
    /// first domain-named host as canonical name and exactly the
    /// v4-addressed hosts as the public addresses.
    pub fn plan_request_public(&self, domain: String, build_id: &str) -> (r: Result<
        VanityPlan,
        Response<HostSpec>,
    >)
        ensures
            r is Err <==> crate::crdt::spec_key_index(
                self.network_state.dns_state.zones.entries@,
                domain@,
            ) >= 0,
            r matches Err(resp) ==> resp is Failure,
            r matches Ok(plan) ==> {
                let live = spec_live_instances_with_build(
                    self.instance_state.entries@,
                    build_id@,
                );
                let hosts = spec_hosts_for(self.node_state.entries@, live);
                let rv = dns_record_view(plan.dns_record);
                &&& rv.domain == domain@
                &&& rv.record_type == crate::dns::RecordType::A
                &&& rv.formnet_ip == spec_formnet_sockets(live)
                &&& rv.public_ip == spec_v4_host_sockets(hosts)
                &&& rv.cname_target == spec_first_domain_host(hosts)
                &&& rv.ssl_cert == false
                &&& rv.ttl == 3600
                &&& hosts_view(plan.node_hosts@) == hosts
                &&& instances_view(plan.instance_updates@).len() == live.len()
                &&& forall|k: int|
                    0 <= k < live.len() ==> instances_view(plan.instance_updates@)[k] == (
                    InstanceView { dns_record: Some(rv), ..#[trigger] live[k] })
            },
    {
        match self.network_state.dns_state.zones.find_key(domain.as_str()) {
            Some(_) => {
                return Err(
                    Response::Failure {
                        reason: Some(
                            "Domain name requested is already assigned".to_owned(),
                        ),
                    },
                );
            },
            None => {},
        }
        let instances = self.instances_with_build(build_id);
        let ghost live = instances_view(instances@);
        let node_hosts = self.hosts_of_nodes_running(&instances);
        let ghost hosts = hosts_view(node_hosts@);
        let formnet_ip = self.formnet_sockets_of(&instances);
        // the first domain-named host becomes the canonical name; the
        // v4-addressed hosts become the public addresses
        let mut cname_target: Option<String> = None;
        let mut public_ip: Vec<crate::dns::SockAddr> = Vec::new();
        proof {
            assert(hosts.skip(0) =~= hosts);
        }
        let mut i: usize = 0;
        while i < node_hosts.len()
            invariant
                i <= node_hosts@.len(),
                hosts == hosts_view(node_hosts@),
                spec_v4_host_sockets(hosts) == public_ip@ + spec_v4_host_sockets(
                    hosts.skip(i as int),
                ),
                match cname_target {
                    Some(c) => spec_first_domain_host(hosts) == Some(c@),
                    None => spec_first_domain_host(hosts) == spec_first_domain_host(
                        hosts.skip(i as int),
                    ),
                },
            decreases node_hosts@.len() - i,
        {
            let ghost pre = public_ip@;
            proof {
                assert(hosts.skip(i as int)[0] == hosts[i as int]);
                assert(hosts[i as int] == host_full_view(node_hosts@[i as int]));
                assert(hosts.skip(i as int).drop_first() =~= hosts.skip(i as int + 1));
            }
            match &node_hosts[i] {
                HostSpec::Domain(d) => {
                    if cname_target.is_none() {
                        cname_target = Some(copy_string(d));
                    }
                },
                HostSpec::Ipv4(ip) => {
                    public_ip.push(crate::dns::SockAddr { ip: *ip, port: 80 });
                    proof {
                        assert(pre + spec_v4_host_sockets(hosts.skip(i as int)) =~= public_ip@
                            + spec_v4_host_sockets(hosts.skip(i as int + 1)));
                    }
                },
            }
            i = i + 1;
        }
        proof {
            assert(hosts.skip(hosts.len() as int) =~= Seq::<HostV>::empty());
            assert(public_ip@ =~= public_ip@ + spec_v4_host_sockets(
                hosts.skip(hosts.len() as int),
            ));
        }
        let dns_record = FormDnsRecord {
            domain,
            record_type: crate::dns::RecordType::A,
            formnet_ip,
            public_ip,
            cname_target,
            ssl_cert: false,
            ttl: 3600,
            verification_status: None,
            verification_timestamp: None,
        };
        let ghost rv = dns_record_view(dns_record);
        let mut instance_updates: Vec<Instance> = Vec::new();
        let mut j: usize = 0;
        while j < instances.len()
            invariant
                j <= instances@.len(),
                live == instances_view(instances@),
                rv == dns_record_view(dns_record),
                instance_updates@.len() == j,
                forall|k: int|
                    0 <= k < j ==> instances_view(instance_updates@)[k] == (InstanceView {
                        dns_record: Some(rv),
                        ..#[trigger] live[k]
                    }),
            decreases instances@.len() - j,
        {
            let mut inst = clone_instance(&instances[j]);
            inst.dns_record = Some(clone_dns_record(&dns_record));
            proof {
                assert(live[j as int] == instance_view(instances@[j as int]));
                assert(instance_view(inst) == (InstanceView {
                    dns_record: Some(rv),
                    ..live[j as int]
                }));
            }
            instance_updates.push(inst);
            j = j + 1;
        }
        Ok(VanityPlan { dns_record, instance_updates, node_hosts })
    }

    /// The live peers of one CIDR — exactly those, in entry order: what
    /// `/user/:cidr/list` answers and what `get_all_allowed` reduces to for
    /// a known peer.
    pub fn list_by_cidr(&self, cidr: &str) -> (r: Vec<(String, Peer<String>)>)
        ensures
            peer_pairs_view(r@) == spec_peers_in_cidr(
                spec_live_peers(self.network_state.peers.entries@),
                cidr@,
            ),
    {
        let all = self.get_all_users();
        let ghost pairs = peer_pairs_view(all@);
        let mut out: Vec<(String, Peer<String>)> = Vec::new();
        proof {
            assert(pairs.skip(0) =~= pairs);
        }
        let mut i: usize = 0;
        while i < all.len()
            invariant
                i <= all@.len(),
                pairs == peer_pairs_view(all@),
                spec_peers_in_cidr(pairs, cidr@) == peer_pairs_view(out@) + spec_peers_in_cidr(
                    pairs.skip(i as int),
                    cidr@,
                ),
            decreases all@.len() - i,
        {
            let ghost pre = peer_pairs_view(out@);
            proof {
                assert(pairs.skip(i as int)[0] == pairs[i as int]);
                assert(pairs[i as int] == (all@[i as int].0@, peer_string_view(all@[i as int].1)));
                assert(pairs.skip(i as int).drop_first() =~= pairs.skip(i as int + 1));
            }
            if str_eq(all[i].1.contents.cidr_id.as_str(), cidr) {
                out.push((copy_string(&all[i].0), clone_peer_string(&all[i].1)));
                proof {
                    assert(pre + spec_peers_in_cidr(pairs.skip(i as int), cidr@)
                        =~= peer_pairs_view(out@) + spec_peers_in_cidr(
                        pairs.skip(i as int + 1),
                        cidr@,
                    ));
                }
            }
            i = i + 1;
        }
        proof {
            assert(pairs.skip(pairs.len() as int) =~= Seq::<
                (Seq<char>, PeerView<Seq<char>>),
            >::empty());
            assert(peer_pairs_view(out@) =~= peer_pairs_view(out@) + spec_peers_in_cidr(
                pairs.skip(pairs.len() as int),
                cidr@,
            ));
        }
        out
    }

    /// `GET /user/:id/get_all_allowed`: exactly the live peers sharing the
    /// peer's CIDR, or a failure when the peer is unknown or removed.
    pub fn get_all_allowed(&self, id: &str) -> (r: Response<Peer<String>>)
        ensures
            match spec_map_reg(self.network_state.peers, id@) {
                Some(e) => match e.value {
                    Some(p) => r matches Response::Success(Success::List(l))
                        && peers_list_view(l@) == pairs_snd(
                        spec_peers_in_cidr(
                            spec_live_peers(self.network_state.peers.entries@),
                            p.contents.cidr_id@,
                        ),
                    ),
                    None => r is Failure,
                },
                None => r is Failure,
            },
    {
        match self.network_state.peers.get_entry(id) {
            Some(e) => {
                match &e.value {
                    Some(p) => {
                        let peers = self.list_by_cidr(p.contents.cidr_id.as_str());
                        let ghost pairs = peer_pairs_view(peers@);
                        let mut list: Vec<Peer<String>> = Vec::new();
                        let mut i: usize = 0;
                        while i < peers.len()
                            invariant
                                i <= peers@.len(),
                                pairs == peer_pairs_view(peers@),
                                peers_list_view(list@).len() == i,
                                forall|k: int|
                                    0 <= k < i ==> peers_list_view(list@)[k] == pairs_snd(
                                        pairs,
                                    )[k],
                            decreases peers@.len() - i,
                        {
                            proof {
                                assert(pairs[i as int] == (
                                    peers@[i as int].0@,
                                    peer_string_view(peers@[i as int].1),
                                ));
                            }
                            list.push(clone_peer_string(&peers[i].1));
                            i = i + 1;
                        }
                        proof {
                            assert(peers_list_view(list@) =~= pairs_snd(pairs));
                        }
                        Response::Success(Success::List(list))
                    },
                    None => Response::Failure {
                        reason: Some(
                            "Peer for which allowed peers was requested does not exist".to_owned(),
                        ),
                    },
                }
            },
            None => Response::Failure {
                reason: Some(
                    "Peer for which allowed peers was requested does not exist".to_owned(),
                ),
            },
        }
    }

    /// All live CIDRs — exactly those, in entry order, with their keys.
    pub fn get_all_cidrs(&self) -> (r: Vec<(String, Cidr<String>)>)
        ensures
            cidr_pairs_view(r@) == spec_live_cidr_pairs(self.network_state.cidrs.entries@),
    {
        let entries = &self.network_state.cidrs.entries;
        let mut out: Vec<(String, Cidr<String>)> = Vec::new();
        proof {
            assert(entries@.skip(0) =~= entries@);
        }
        let mut i: usize = 0;
        while i < entries.len()
            invariant
                i <= entries@.len(),
                entries@ == self.network_state.cidrs.entries@,
                spec_live_cidr_pairs(entries@) == cidr_pairs_view(out@) + spec_live_cidr_pairs(
                    entries@.skip(i as int),
                ),
            decreases entries@.len() - i,
        {
            let ghost pre = cidr_pairs_view(out@);
            proof {
                assert(entries@.skip(i as int)[0] == entries@[i as int]);
                assert(entries@.skip(i as int).drop_first() =~= entries@.skip(i as int + 1));
            }
            match &entries[i].1.entry {
                Some(e) => {
                    match &e.value {
                        Some(c) => {
                            out.push((copy_string(&entries[i].0), clone_cidr(c)));
                            proof {
                                assert(pre + spec_live_cidr_pairs(entries@.skip(i as int))
                                    =~= cidr_pairs_view(out@) + spec_live_cidr_pairs(
                                    entries@.skip(i as int + 1),
                                ));
                            }
                        },
                        None => {},
                    }
                },
                None => {},
            }
            i = i + 1;
        }
        proof {
            assert(entries@.skip(entries@.len() as int) =~= Seq::<
                (String, crate::crdt::LwwReg<Option<Cidr<String>>>),
            >::empty());
            assert(cidr_pairs_view(out@) =~= cidr_pairs_view(out@) + spec_live_cidr_pairs(
                entries@.skip(entries@.len() as int),
            ));
        }
        out
    }

    /// All live associations — exactly those, in entry order, with their
    /// keys.
    pub fn get_all_assocs(&self) -> (r: Vec<(String, Association)>)
        ensures
            assoc_pairs_view(r@) == spec_live_assoc_pairs(
                self.network_state.associations.entries@,
            ),
    {
        let entries = &self.network_state.associations.entries;
        let mut out: Vec<(String, Association)> = Vec::new();
        proof {
            assert(entries@.skip(0) =~= entries@);
        }
        let mut i: usize = 0;
        while i < entries.len()
            invariant
                i <= entries@.len(),
                entries@ == self.network_state.associations.entries@,
                spec_live_assoc_pairs(entries@) == assoc_pairs_view(out@)
                    + spec_live_assoc_pairs(entries@.skip(i as int)),
            decreases entries@.len() - i,
        {
            let ghost pre = assoc_pairs_view(out@);
            proof {
                assert(entries@.skip(i as int)[0] == entries@[i as int]);
                assert(entries@.skip(i as int).drop_first() =~= entries@.skip(i as int + 1));
            }
            match &entries[i].1.entry {
                Some(e) => {
                    match &e.value {
                        Some(a) => {
                            out.push((copy_string(&entries[i].0), clone_association(a)));
                            proof {
                                assert(pre + spec_live_assoc_pairs(entries@.skip(i as int))
                                    =~= assoc_pairs_view(out@) + spec_live_assoc_pairs(
                                    entries@.skip(i as int + 1),
                                ));
                            }
                        },
                        None => {},
                    }
                },
                None => {},
            }
            i = i + 1;
        }
        proof {
            assert(entries@.skip(entries@.len() as int) =~= Seq::<
                (String, crate::crdt::LwwReg<Option<Association>>),
            >::empty());
            assert(assoc_pairs_view(out@) =~= assoc_pairs_view(out@) + spec_live_assoc_pairs(
                entries@.skip(entries@.len() as int),
            ));
        }
        out
    }

    /// `GET /assoc/:cidr_id/relationships`: exactly the pairs of live CIDRs
    /// joined by an association that names this CIDR on either side, in
    /// association order.
    pub fn get_relationships(&self, cidr_id: &str) -> (r: Vec<(Cidr<String>, Cidr<String>)>)
        ensures
            rel_pairs_view(r@) == spec_relationship_pairs(
                spec_live_assoc_pairs(self.network_state.associations.entries@),
                self.network_state.cidrs,
                cidr_id@,
            ),
    {
        let assocs = self.get_all_assocs();
        let ghost pairs = assoc_pairs_view(assocs@);
        let mut out: Vec<(Cidr<String>, Cidr<String>)> = Vec::new();
        proof {
            assert(pairs.skip(0) =~= pairs);
        }
        let mut i: usize = 0;
        while i < assocs.len()
            invariant
                i <= assocs@.len(),
                pairs == assoc_pairs_view(assocs@),
                spec_relationship_pairs(pairs, self.network_state.cidrs, cidr_id@)
                    == rel_pairs_view(out@) + spec_relationship_pairs(
                    pairs.skip(i as int),
                    self.network_state.cidrs,
                    cidr_id@,
                ),
            decreases assocs@.len() - i,
        {
            let ghost pre = rel_pairs_view(out@);
            proof {
                assert(pairs.skip(i as int)[0] == pairs[i as int]);
                assert(pairs[i as int] == (
                    assocs@[i as int].0@,
                    association_view(assocs@[i as int].1),
                ));
                assert(pairs.skip(i as int).drop_first() =~= pairs.skip(i as int + 1));
            }
            let a = &assocs[i].1;
            if str_eq(a.cidr_id_1.as_str(), cidr_id) || str_eq(a.cidr_id_2.as_str(), cidr_id) {
                let c1 = self.network_state.cidrs.get_entry(a.cidr_id_1.as_str());
                let c2 = self.network_state.cidrs.get_entry(a.cidr_id_2.as_str());
                match (c1, c2) {
                    (Some(e1), Some(e2)) => {
                        match (&e1.value, &e2.value) {
                            (Some(x), Some(y)) => {
                                out.push((clone_cidr(x), clone_cidr(y)));
                                proof {
                                    assert(spec_live_cidr_at(
                                        self.network_state.cidrs,
                                        a.cidr_id_1@,
                                    ) == Some(cidr_view(*x)));
                                    assert(spec_live_cidr_at(
                                        self.network_state.cidrs,
                                        a.cidr_id_2@,
                                    ) == Some(cidr_view(*y)));
                                    assert(pre + spec_relationship_pairs(
                                        pairs.skip(i as int),
                                        self.network_state.cidrs,
                                        cidr_id@,
                                    ) =~= rel_pairs_view(out@) + spec_relationship_pairs(
                                        pairs.skip(i as int + 1),
                                        self.network_state.cidrs,
                                        cidr_id@,
                                    ));
                                }
                            },
                            _ => {},
                        }
                    },
                    _ => {},
                }
            }
            i = i + 1;
        }
        proof {
            assert(pairs.skip(pairs.len() as int) =~= Seq::<
                (Seq<char>, AssociationView),
            >::empty());
            assert(rel_pairs_view(out@) =~= rel_pairs_view(out@) + spec_relationship_pairs(
                pairs.skip(pairs.len() as int),
                self.network_state.cidrs,
                cidr_id@,
            ));
        }
        out
    }

}

/// The follow-up of an accepted peer update (the peer mesh rule): when an
/// active admin's endpoint moved to a new address, the node's A record at
/// the previous address must be brought to the new one (see
/// `update_dns_ip_addr`); in every other case nothing fires.  The
/// endpoints' resolution to addresses is the driver's, as it asks the
/// resolver.
pub fn plan_admin_endpoint_change(
    is_admin: bool,
    is_disabled: bool,
    previous_ip: Option<IpAddress>,
    new_ip: Option<IpAddress>,
) -> (r: Option<(IpAddress, IpAddress)>)
    ensures
        r is Some <==> is_admin && !is_disabled && (previous_ip matches Some(p) && (new_ip
            matches Some(n) && p != n)),
        r matches Some(pair) ==> previous_ip == Some(pair.0) && new_ip == Some(pair.1),
{
    if !is_admin || is_disabled {
        return None;
    }
    match (previous_ip, new_ip) {
        (Some(p), Some(n)) => {
            if p != n {
                Some((p, n))
            } else {
                None
            }
        },
        _ => None,
    }
}

/// The four replicated maps, as a joiner receives them.
pub struct MergeableNetworkState {
    pub peers: StateMap<Option<Peer<String>>>,
    pub cidrs: StateMap<Option<Cidr<String>>>,
    pub assocs: StateMap<Option<Association>>,
    pub dns: StateMap<Option<FormDnsRecord>>,
}

impl MergeableNetworkState {
    /// The mergeable image of a network state.
    pub fn from_state(value: NetworkState) -> (r: MergeableNetworkState)
        ensures
            r.peers == value.peers,
            r.cidrs == value.cidrs,
            r.assocs == value.associations,
            r.dns == value.dns_state.zones,
    {
        MergeableNetworkState {
            peers: value.peers,
            cidrs: value.cidrs,
            assocs: value.associations,
            dns: value.dns_state.zones,
        }
    }
}

} // verus!
