//! The authoritative DNS view: records keyed by normalized domain, answer
//! shaping by client origin (formnet sources see overlay addresses first),
//! health-aware filtering that never empties an answer, and the dynamic
//! update rules.
use vstd::prelude::*;
use vstd::string::StringSliceAdditionalSpecFns;
use crate::peers::IpAddress;
use crate::strutil::copy_string;

verus! {

/// The record types the zone serves.
#[derive(Clone, Copy, Debug, PartialEq, Eq, Structural)]
pub enum RecordType {
    A,
    Aaaa,
    Cname,
    Null,
}

/// Whether a record's ownership has been verified.
#[derive(Clone, Copy, Debug, PartialEq, Eq, Structural)]
pub enum VerificationStatus {
    Verified,
    Failed,
    NotVerified,
}

/// A socket address: an IP and a port.
#[derive(Clone, Copy, Debug, PartialEq, Eq, Structural)]
pub struct SockAddr {
    pub ip: IpAddress,
    pub port: u16,
}

/// One zone record.
pub struct FormDnsRecord {
    pub domain: String,
    pub record_type: RecordType,
    pub formnet_ip: Vec<SockAddr>,
    pub public_ip: Vec<SockAddr>,
    pub cname_target: Option<String>,
    pub ssl_cert: bool,
    pub ttl: u32,
    pub verification_status: Option<VerificationStatus>,
    pub verification_timestamp: Option<u64>,
}

/// The ghost image of a record.
pub ghost struct DnsRecordView {
    pub domain: Seq<char>,
    pub record_type: RecordType,
    pub formnet_ip: Seq<SockAddr>,
    pub public_ip: Seq<SockAddr>,
    pub cname_target: Option<Seq<char>>,
    pub ssl_cert: bool,
    pub ttl: u32,
    pub verification_status: Option<VerificationStatus>,
    pub verification_timestamp: Option<u64>,
}

pub open spec fn opt_string_view(s: Option<String>) -> Option<Seq<char>> {
    match s {
        Some(s) => Some(s@),
        None => None,
    }
}

pub open spec fn dns_record_view(r: FormDnsRecord) -> DnsRecordView {
    DnsRecordView {
        domain: r.domain@,
        record_type: r.record_type,
        formnet_ip: r.formnet_ip@,
        public_ip: r.public_ip@,
        cname_target: opt_string_view(r.cname_target),
        ssl_cert: r.ssl_cert,
        ttl: r.ttl,
        verification_status: r.verification_status,
        verification_timestamp: r.verification_timestamp,
    }
}

/// A copy of a record.
pub fn clone_dns_record(r: &FormDnsRecord) -> (out: FormDnsRecord)
    ensures
        dns_record_view(out) == dns_record_view(*r),
{
    FormDnsRecord {
        domain: copy_string(&r.domain),
        record_type: r.record_type,
        formnet_ip: copy_sock_addrs(&r.formnet_ip),
        public_ip: copy_sock_addrs(&r.public_ip),
        cname_target: match &r.cname_target {
            Some(t) => Some(copy_string(t)),
            None => None,
        },
        ssl_cert: r.ssl_cert,
        ttl: r.ttl,
        verification_status: r.verification_status,
        verification_timestamp: r.verification_timestamp,
    }
}

/// A copy of a socket-address list.
pub fn copy_sock_addrs(v: &Vec<SockAddr>) -> (r: Vec<SockAddr>)
    ensures
        r@ == v@,
{
    let mut out: Vec<SockAddr> = Vec::new();
    let mut i: usize = 0;
    while i < v.len()
        invariant
            i <= v@.len(),
            out@ == v@.take(i as int),
        decreases v@.len() - i,
    {
        out.push(v[i]);
        i = i + 1;
        proof {
            assert(out@ =~= v@.take(i as int));
        }
    }
    proof {
        assert(out@ =~= v@);
    }
    out
}

/// ASCII lowercase of a byte.
pub open spec fn spec_lower_byte(b: u8) -> u8 {
    if 65 <= b && b <= 90 {
        (b + 32) as u8
    } else {
        b
    }
}

/// ASCII lowercase of a byte string.
pub open spec fn spec_lower_bytes(s: Seq<u8>) -> Seq<u8> {
    Seq::new(s.len(), |i: int| spec_lower_byte(s[i]))
}

/// The byte string with its trailing dots removed.
pub open spec fn spec_trim_dots(s: Seq<u8>) -> Seq<u8>
    decreases s.len(),
{
    if s.len() > 0 && s[s.len() - 1] == 46 {
        spec_trim_dots(s.drop_last())
    } else {
        s
    }
}

/// The lookup key of a query name: trailing dots stripped, then lowercased.
pub open spec fn spec_domain_key(s: Seq<u8>) -> Seq<u8> {
    spec_lower_bytes(spec_trim_dots(s))
}

proof fn lemma_trim_dots_take(s: Seq<u8>, end: int)
    requires
        0 <= end <= s.len(),
        forall|k: int| end <= k < s.len() ==> s[k] == 46,
        end > 0 ==> s[end - 1] != 46,
    ensures
        spec_trim_dots(s) == s.take(end),
    decreases s.len(),
{
    if s.len() > 0 && s[s.len() - 1] == 46 {
        assert(end < s.len());
        lemma_trim_dots_take(s.drop_last(), end);
        assert(s.drop_last().take(end) =~= s.take(end));
    } else {
        assert(end == s.len());
        assert(s.take(end) =~= s);
    }
}

/// The normalized key of a domain name.
pub fn domain_key(name: &str) -> (r: Vec<u8>)
    ensures
        r@ == spec_domain_key(name.spec_bytes()),
{
    let b = name.as_bytes();
    let mut end: usize = b.len();
    while end > 0 && b[end - 1] == 46
        invariant
            end <= b@.len(),
            b@ == name.spec_bytes(),
            forall|k: int| end <= k < b@.len() ==> b@[k] == 46,
        decreases end,
    {
        end = end - 1;
    }
    proof {
        lemma_trim_dots_take(b@, end as int);
    }
    let mut out: Vec<u8> = Vec::new();
    let mut i: usize = 0;
    while i < end
        invariant
            i <= end <= b@.len(),
            b@ == name.spec_bytes(),
            out@.len() == i,
            forall|k: int| 0 <= k < i ==> out@[k] == spec_lower_byte(b@[k]),
        decreases end - i,
    {
        let c = b[i];
        if 65 <= c && c <= 90 {
            out.push(c + 32);
        } else {
            out.push(c);
        }
        i = i + 1;
    }
    proof {
        assert(out@ =~= spec_lower_bytes(b@.take(end as int)));
    }
    out
}

/// The zone store: records keyed by their normalized domain, each key once.
pub struct DnsStore {
    pub records: Vec<(Vec<u8>, FormDnsRecord)>,
}

pub open spec fn spec_dns_index(records: Seq<(Vec<u8>, FormDnsRecord)>, key: Seq<u8>) -> int
    decreases records.len(),
{
    if records.len() == 0 {
        -1
    } else if records[0].0@ == key {
        0
    } else {
        let rest = spec_dns_index(records.drop_first(), key);
        if rest < 0 {
            -1
        } else {
            rest + 1
        }
    }
}

/// The record stored at a key, if any.
pub open spec fn spec_dns_get(s: DnsStore, key: Seq<u8>) -> Option<DnsRecordView> {
    let i = spec_dns_index(s.records@, key);
    if i < 0 {
        None
    } else {
        Some(dns_record_view(s.records@[i].1))
    }
}

pub open spec fn dns_store_well_formed(s: DnsStore) -> bool {
    forall|i: int, j: int|
        0 <= i < j < s.records@.len() ==> (#[trigger] s.records@[i].0)@ != (
        #[trigger] s.records@[j].0)@
}

proof fn lemma_dns_index_bounds(records: Seq<(Vec<u8>, FormDnsRecord)>, key: Seq<u8>)
    ensures
        -1 <= spec_dns_index(records, key) < records.len(),
        spec_dns_index(records, key) >= 0 ==> records[spec_dns_index(records, key)].0@ == key,
    decreases records.len(),
{
    if records.len() > 0 && records[0].0@ != key {
        lemma_dns_index_bounds(records.drop_first(), key);
    }
}

proof fn lemma_dns_index_of_match(records: Seq<(Vec<u8>, FormDnsRecord)>, key: Seq<u8>, i: int)
    requires
        0 <= i < records.len(),
        records[i].0@ == key,
        forall|k: int| 0 <= k < i ==> (#[trigger] records[k].0)@ != key,
    ensures
        spec_dns_index(records, key) == i,
    decreases i,
{
    if i == 0 {
    } else {
        assert(records.drop_first()[i - 1] == records[i]);
        assert(forall|k: int|
            0 <= k < i - 1 ==> (#[trigger] records.drop_first()[k].0)@ == records[k + 1].0@);
        lemma_dns_index_of_match(records.drop_first(), key, i - 1);
    }
}

proof fn lemma_dns_index_of_none(records: Seq<(Vec<u8>, FormDnsRecord)>, key: Seq<u8>)
    requires
        forall|k: int| 0 <= k < records.len() ==> (#[trigger] records[k].0)@ != key,
    ensures
        spec_dns_index(records, key) == -1,
    decreases records.len(),
{
    if records.len() > 0 {
        assert(forall|k: int|
            0 <= k < records.len() - 1 ==> (#[trigger] records.drop_first()[k].0)@ == records[k
                + 1].0@);
        lemma_dns_index_of_none(records.drop_first(), key);
    }
}

proof fn lemma_dns_index_stable(
    pre: Seq<(Vec<u8>, FormDnsRecord)>,
    post: Seq<(Vec<u8>, FormDnsRecord)>,
    key: Seq<u8>,
)
    requires
        pre.len() == post.len(),
        forall|k: int| 0 <= k < pre.len() ==> (#[trigger] post[k].0)@ == pre[k].0@,
    ensures
        spec_dns_index(post, key) == spec_dns_index(pre, key),
    decreases pre.len(),
{
    if pre.len() > 0 {
        assert(forall|k: int|
            0 <= k < pre.len() - 1 ==> (#[trigger] post.drop_first()[k].0)@ == post[k + 1].0@ && (
            #[trigger] pre.drop_first()[k].0)@ == pre[k + 1].0@);
        lemma_dns_index_stable(pre.drop_first(), post.drop_first(), key);
    }
}

proof fn lemma_dns_index_push_other(
    pre: Seq<(Vec<u8>, FormDnsRecord)>,
    t: (Vec<u8>, FormDnsRecord),
    key: Seq<u8>,
)
    requires
        t.0@ != key,
    ensures
        spec_dns_index(pre.push(t), key) == spec_dns_index(pre, key),
    decreases pre.len(),
{
    if pre.len() == 0 {
        assert(pre.push(t)[0] == t);
        assert(pre.push(t).drop_first() =~= Seq::<(Vec<u8>, FormDnsRecord)>::empty());
        assert(spec_dns_index(Seq::<(Vec<u8>, FormDnsRecord)>::empty(), key) == -1);
        assert(spec_dns_index(pre.push(t), key) == -1);
    } else {
        assert(pre.push(t)[0] == pre[0]);
        assert(pre.push(t).drop_first() =~= pre.drop_first().push(t));
        lemma_dns_index_push_other(pre.drop_first(), t, key);
        assert(spec_dns_index(pre.push(t).drop_first(), key) == spec_dns_index(
            pre.drop_first(),
            key,
        ));
    }
}

proof fn lemma_dns_index_remove(pre: Seq<(Vec<u8>, FormDnsRecord)>, i: int, key: Seq<u8>)
    requires
        0 <= i < pre.len(),
        forall|a: int, b: int|
            0 <= a < b < pre.len() ==> (#[trigger] pre[a].0)@ != (#[trigger] pre[b].0)@,
        key != pre[i].0@,
    ensures
        spec_dns_index(pre.remove(i), key) >= 0 <==> spec_dns_index(pre, key) >= 0,
        spec_dns_index(pre.remove(i), key) >= 0 ==> pre.remove(i)[spec_dns_index(
            pre.remove(i),
            key,
        )].1 == pre[spec_dns_index(pre, key)].1,
{
    lemma_dns_index_bounds(pre, key);
    let j = spec_dns_index(pre, key);
    if j >= 0 {
        // the element persists in the removed sequence
        let jj = if j < i {
            j
        } else {
            j - 1
        };
        assert(pre.remove(i)[jj] == pre[j]);
        assert forall|k: int| 0 <= k < jj implies (#[trigger] pre.remove(i)[k].0)@ != key by {
            let orig = if k < i {
                k
            } else {
                k + 1
            };
            assert(pre.remove(i)[k] == pre[orig]);
            if orig < j {
                lemma_dns_index_first(pre, key, orig);
            }
        }
        lemma_dns_index_of_match(pre.remove(i), key, jj);
    } else {
        assert forall|k: int| 0 <= k < pre.remove(i).len() implies (#[trigger] pre.remove(
            i,
        )[k].0)@ != key by {
            let orig = if k < i {
                k
            } else {
                k + 1
            };
            assert(pre.remove(i)[k] == pre[orig]);
            lemma_dns_index_first(pre, key, orig);
        }
        lemma_dns_index_of_none(pre.remove(i), key);
    }
}

proof fn lemma_dns_index_first(records: Seq<(Vec<u8>, FormDnsRecord)>, key: Seq<u8>, k: int)
    requires
        0 <= k < records.len(),
        spec_dns_index(records, key) < 0 || k != spec_dns_index(records, key),
        spec_dns_index(records, key) < 0 || !(0 <= spec_dns_index(records, key) < records.len())
            || true,
        forall|a: int, b: int|
            0 <= a < b < records.len() ==> (#[trigger] records[a].0)@ != (
            #[trigger] records[b].0)@,
    ensures
        records[k].0@ == key ==> spec_dns_index(records, key) == k,
    decreases records.len(),
{
    if records[k].0@ == key {
        assert forall|kk: int| 0 <= kk < k implies (#[trigger] records[kk].0)@ != key by {}
        lemma_dns_index_of_match(records, key, k);
    }
}

impl DnsStore {
    /// An empty zone.
    pub fn new() -> (r: DnsStore)
        ensures
            dns_store_well_formed(r),
            r.records@.len() == 0,
    {
        DnsStore { records: Vec::new() }
    }

    /// The position of a key.
    fn find(&self, key: &[u8]) -> (r: Option<usize>)
        ensures
            r matches Some(i) ==> (i as int) < self.records@.len() && self.records@[i as int].0@
                == key@ && spec_dns_index(self.records@, key@) == i as int,
            r is None ==> spec_dns_index(self.records@, key@) == -1 && forall|k: int|
                0 <= k < self.records@.len() ==> (#[trigger] self.records@[k].0)@ != key@,
    {
        let mut i: usize = 0;
        while i < self.records.len()
            invariant
                i <= self.records@.len(),
                forall|k: int| 0 <= k < i ==> (#[trigger] self.records@[k].0)@ != key@,
            decreases self.records@.len() - i,
        {
            if crate::queue::bytes_eq(self.records[i].0.as_slice(), key) {
                proof {
                    lemma_dns_index_of_match(self.records@, key@, i as int);
                }
                return Some(i);
            }
            i = i + 1;
        }
        proof {
            lemma_dns_index_of_none(self.records@, key@);
        }
        None
    }

    /// The record at a key, copied out.
    pub fn get(&self, key: &[u8]) -> (r: Option<FormDnsRecord>)
        ensures
            match r {
                Some(rec) => spec_dns_get(*self, key@) == Some(dns_record_view(rec)),
                None => spec_dns_get(*self, key@) is None,
            },
    {
        match self.find(key) {
            Some(i) => Some(clone_dns_record(&self.records[i].1)),
            None => None,
        }
    }

    /// Stores a record at a key, replacing what was there.
    pub fn insert(&mut self, key: Vec<u8>, record: FormDnsRecord)
        requires
            dns_store_well_formed(*old(self)),
        ensures
            dns_store_well_formed(*final(self)),
            spec_dns_get(*final(self), key@) == Some(dns_record_view(record)),
            forall|h: Seq<u8>|
                h != key@ ==> #[trigger] spec_dns_get(*final(self), h) == spec_dns_get(
                    *old(self),
                    h,
                ),
    {
        let ghost pre = *self;
        let ghost rec_view = dns_record_view(record);
        match self.find(key.as_slice()) {
            Some(i) => {
                self.records.set(i, (key, record));
                proof {
                    assert(self.records@.len() == pre.records@.len());
                    assert(forall|k: int|
                        0 <= k < self.records@.len() && k != i ==> self.records@[k]
                            == pre.records@[k]);
                    assert(forall|k: int|
                        0 <= k < self.records@.len() ==> (#[trigger] self.records@[k].0)@
                            == pre.records@[k].0@);
                    assert(dns_store_well_formed(*self));
                    assert forall|h: Seq<u8>| true implies #[trigger] spec_dns_index(
                        self.records@,
                        h,
                    ) == spec_dns_index(pre.records@, h) by {
                        lemma_dns_index_stable(pre.records@, self.records@, h);
                    }
                    assert forall|h: Seq<u8>| h != self.records@[i as int].0@
                        implies #[trigger] spec_dns_get(*self, h) == spec_dns_get(pre, h) by {
                        lemma_dns_index_bounds(pre.records@, h);
                    }
                }
            },
            None => {
                let ghost new_key = key@;
                self.records.push((key, record));
                proof {
                    let n = pre.records@.len() as int;
                    assert(self.records@ =~= pre.records@.push(self.records@[n]));
                    assert(self.records@[n].0@ == new_key);
                    assert(forall|k: int| 0 <= k < n ==> self.records@[k] == pre.records@[k]);
                    assert(forall|k: int|
                        0 <= k < n ==> (#[trigger] self.records@[k].0)@ != new_key);
                    assert(dns_store_well_formed(*self));
                    lemma_dns_index_of_match(self.records@, new_key, n);
                    assert forall|h: Seq<u8>| h != new_key implies #[trigger] spec_dns_get(
                        *self,
                        h,
                    ) == spec_dns_get(pre, h) by {
                        lemma_dns_index_push_other(pre.records@, self.records@[n], h);
                        lemma_dns_index_bounds(pre.records@, h);
                    }
                }
            },
        }
    }

    /// Removes the record at a key, handing it back if it was there.
    pub fn remove(&mut self, key: &[u8]) -> (r: Option<FormDnsRecord>)
        requires
            dns_store_well_formed(*old(self)),
        ensures
            dns_store_well_formed(*final(self)),
            r is Some <==> spec_dns_get(*old(self), key@) is Some,
            r matches Some(rec) ==> spec_dns_get(*old(self), key@) == Some(dns_record_view(rec)),
            spec_dns_get(*final(self), key@) is None,
            forall|h: Seq<u8>|
                h != key@ ==> #[trigger] spec_dns_get(*final(self), h) == spec_dns_get(
                    *old(self),
                    h,
                ),
    {
        let ghost pre = *self;
        match self.find(key) {
            Some(i) => {
                let (_, rec) = self.records.remove(i);
                proof {
                    assert(self.records@ =~= pre.records@.remove(i as int));
                    assert forall|a: int, b: int|
                        0 <= a < b < self.records@.len() implies (#[trigger] self.records@[a].0)@
                        != (#[trigger] self.records@[b].0)@ by {
                        let oa = if a < i {
                            a
                        } else {
                            a + 1
                        };
                        let ob = if b < i {
                            b
                        } else {
                            b + 1
                        };
                        assert(self.records@[a] == pre.records@[oa]);
                        assert(self.records@[b] == pre.records@[ob]);
                    }
                    assert forall|k: int| 0 <= k < self.records@.len()
                        implies (#[trigger] self.records@[k].0)@ != key@ by {
                        let orig = if k < i {
                            k
                        } else {
                            k + 1
                        };
                        assert(self.records@[k] == pre.records@[orig]);
                        lemma_dns_index_first(pre.records@, key@, orig);
                    }
                    lemma_dns_index_of_none(self.records@, key@);
                    assert forall|h: Seq<u8>| h != key@ implies #[trigger] spec_dns_get(
                        *self,
                        h,
                    ) == spec_dns_get(pre, h) by {
                        lemma_dns_index_remove(pre.records@, i as int, h);
                        lemma_dns_index_bounds(pre.records@, h);
                        lemma_dns_index_bounds(self.records@, h);
                        if spec_dns_index(pre.records@, h) >= 0 {
                        }
                    }
                }
                Some(rec)
            },
            None => None,
        }
    }
}

/// The candidate addresses of a query (§ answer shaping): a formnet client
/// sees the overlay addresses first, then the public ones (or the public
/// ones alone when the record has no overlay address); anyone else sees
/// only the public ones.
pub open spec fn spec_candidate_ips(rec: DnsRecordView, is_formnet: bool) -> Seq<SockAddr> {
    if is_formnet {
        if rec.formnet_ip.len() > 0 {
            rec.formnet_ip + rec.public_ip
        } else {
            rec.public_ip
        }
    } else {
        rec.public_ip
    }
}

/// The candidates that the health repository marks available, in order.
pub open spec fn spec_filter_healthy(ips: Seq<SockAddr>, healthy: Seq<IpAddress>) -> Seq<
    SockAddr,
>
    decreases ips.len(),
{
    if ips.len() == 0 {
        Seq::empty()
    } else {
        let rest = spec_filter_healthy(ips.drop_first(), healthy);
        if healthy.contains(ips[0].ip) {
            seq![ips[0]] + rest
        } else {
            rest
        }
    }
}

/// The served addresses: health filtering applies when a repository is
/// wired, but never empties a non-empty answer.
pub open spec fn spec_selected_ips(
    rec: DnsRecordView,
    is_formnet: bool,
    healthy: Option<Seq<IpAddress>>,
) -> Seq<SockAddr> {
    let base = spec_candidate_ips(rec, is_formnet);
    match healthy {
        None => base,
        Some(h) => {
            let f = spec_filter_healthy(base, h);
            if f.len() == 0 && base.len() > 0 {
                base
            } else {
                f
            }
        },
    }
}

/// Formnet answer preference: a 10/8 client's candidates are exactly the
/// overlay addresses followed by the public ones (when any overlay address
/// exists), and any other client's candidates hold no overlay-only entry —
/// they are exactly the public list.
pub proof fn lemma_formnet_preference(rec: DnsRecordView)
    ensures
        rec.formnet_ip.len() > 0 ==> spec_candidate_ips(rec, true) == rec.formnet_ip
            + rec.public_ip,
        rec.formnet_ip.len() == 0 ==> spec_candidate_ips(rec, true) == rec.public_ip,
        spec_candidate_ips(rec, false) == rec.public_ip,
{
}

/// Health-aware availability: when filtering would remove every address,
/// the served answer equals the unfiltered answer.
pub proof fn lemma_health_fallback(rec: DnsRecordView, is_formnet: bool, healthy: Seq<IpAddress>)
    requires
        spec_filter_healthy(spec_candidate_ips(rec, is_formnet), healthy).len() == 0,
    ensures
        spec_selected_ips(rec, is_formnet, Some(healthy)) == spec_candidate_ips(rec, is_formnet),
{
    let base = spec_candidate_ips(rec, is_formnet);
    if base.len() == 0 {
        assert(spec_filter_healthy(base, healthy) =~= base);
    }
}

/// Whether a list of healthy addresses contains one.
fn healthy_contains(healthy: &Vec<IpAddress>, ip: &IpAddress) -> (r: bool)
    ensures
        r == healthy@.contains(*ip),
{
    let mut i: usize = 0;
    while i < healthy.len()
        invariant
            i <= healthy@.len(),
            forall|k: int| 0 <= k < i ==> healthy@[k] != *ip,
        decreases healthy@.len() - i,
    {
        if healthy[i] == *ip {
            return true;
        }
        i = i + 1;
    }
    false
}

/// The candidate addresses of a record for a client.
pub fn candidate_ips(record: &FormDnsRecord, is_formnet: bool) -> (r: Vec<SockAddr>)
    ensures
        r@ == spec_candidate_ips(dns_record_view(*record), is_formnet),
{
    if is_formnet {
        if record.formnet_ip.len() > 0 {
            let mut out = copy_sock_addrs(&record.formnet_ip);
            let pubs = copy_sock_addrs(&record.public_ip);
            let mut i: usize = 0;
            while i < pubs.len()
                invariant
                    i <= pubs@.len(),
                    pubs@ == record.public_ip@,
                    out@ == record.formnet_ip@ + pubs@.take(i as int),
                decreases pubs@.len() - i,
            {
                out.push(pubs[i]);
                i = i + 1;
                proof {
                    assert(out@ =~= record.formnet_ip@ + pubs@.take(i as int));
                }
            }
            proof {
                assert(out@ =~= record.formnet_ip@ + record.public_ip@);
            }
            out
        } else {
            copy_sock_addrs(&record.public_ip)
        }
    } else {
        copy_sock_addrs(&record.public_ip)
    }
}

/// The served addresses of a record for a client, with health filtering
/// and its availability fallback.
pub fn select_answer_ips(
    record: &FormDnsRecord,
    src: Option<IpAddress>,
    healthy: Option<&Vec<IpAddress>>,
) -> (r: Vec<SockAddr>)
    ensures
        r@ == spec_selected_ips(
            dns_record_view(*record),
            spec_src_is_formnet(src),
            match healthy {
                Some(h) => Some(h@),
                None => None,
            },
        ),
{
    let is_formnet = match &src {
        Some(ip) => ip.is_formnet(),
        None => false,
    };
    let base = candidate_ips(record, is_formnet);
    match healthy {
        None => base,
        Some(h) => {
            let mut kept: Vec<SockAddr> = Vec::new();
            proof {
                assert(base@.skip(0) =~= base@);
            }
            let mut i: usize = 0;
            while i < base.len()
                invariant
                    i <= base@.len(),
                    spec_filter_healthy(base@, h@) == kept@ + spec_filter_healthy(
                        base@.skip(i as int),
                        h@,
                    ),
                decreases base@.len() - i,
            {
                let sa = base[i];
                let ghost pre_kept = kept@;
                proof {
                    assert(base@.skip(i as int)[0] == base@[i as int]);
                    assert(base@.skip(i as int).drop_first() =~= base@.skip(i as int + 1));
                }
                if healthy_contains(h, &sa.ip) {
                    kept.push(sa);
                    proof {
                        assert(pre_kept + spec_filter_healthy(base@.skip(i as int), h@) =~= kept@
                            + spec_filter_healthy(base@.skip(i as int + 1), h@));
                    }
                }
                i = i + 1;
            }
            proof {
                assert(base@.skip(base@.len() as int) =~= Seq::<SockAddr>::empty());
                assert(kept@ =~= kept@ + spec_filter_healthy(
                    base@.skip(base@.len() as int),
                    h@,
                ));
            }
            if kept.len() == 0 && base.len() > 0 {
                base
            } else {
                kept
            }
        },
    }
}

/// Whether the querying source lies in the formnet overlay.
pub open spec fn spec_src_is_formnet(src: Option<IpAddress>) -> bool {
    match src {
        Some(ip) => ip.spec_is_formnet(),
        None => false,
    }
}

/// An answer record set: the query name, type and TTL, with the answer
/// addresses (A/AAAA) or the canonical name (CNAME).
pub struct RecordSet {
    pub name: String,
    pub record_type: RecordType,
    pub ttl: u32,
    pub addresses: Vec<IpAddress>,
    pub cname_target: Option<String>,
}

/// The ghost image of an answer record set.
pub ghost struct RecordSetView {
    pub name: Seq<char>,
    pub record_type: RecordType,
    pub ttl: u32,
    pub addresses: Seq<IpAddress>,
    pub cname_target: Option<Seq<char>>,
}

pub open spec fn record_set_view(r: RecordSet) -> RecordSetView {
    RecordSetView {
        name: r.name@,
        record_type: r.record_type,
        ttl: r.ttl,
        addresses: r.addresses@,
        cname_target: opt_string_view(r.cname_target),
    }
}

/// The v4 addresses among a list of socket addresses, in order.
pub open spec fn spec_v4_addrs(ips: Seq<SockAddr>) -> Seq<IpAddress>
    decreases ips.len(),
{
    if ips.len() == 0 {
        Seq::empty()
    } else {
        let rest = spec_v4_addrs(ips.drop_first());
        if ips[0].ip is V4 {
            seq![ips[0].ip] + rest
        } else {
            rest
        }
    }
}

/// The v6 addresses among a list of socket addresses, in order.
pub open spec fn spec_v6_addrs(ips: Seq<SockAddr>) -> Seq<IpAddress>
    decreases ips.len(),
{
    if ips.len() == 0 {
        Seq::empty()
    } else {
        let rest = spec_v6_addrs(ips.drop_first());
        if ips[0].ip is V6 {
            seq![ips[0].ip] + rest
        } else {
            rest
        }
    }
}

/// What a local lookup answers (§ the authoritative view): the record under
/// the normalized key shaped for the client, with TTL 60 under health
/// filtering and 300 otherwise; nothing on a miss, an empty answer, or a
/// CNAME query against a record without a target.
pub open spec fn spec_lookup_local(
    store: DnsStore,
    name_bytes: Seq<u8>,
    rtype: RecordType,
    src: Option<IpAddress>,
    healthy: Option<Seq<IpAddress>>,
) -> Option<RecordSetView> {
    let key = spec_domain_key(name_bytes);
    match spec_dns_get(store, key) {
        None => None,
        Some(rec) => if !vstd::utf8::valid_utf8(key) {
            None
        } else {
            let name = vstd::utf8::decode_utf8(key);
            let ips = spec_selected_ips(rec, spec_src_is_formnet(src), healthy);
            let ttl: u32 = if healthy is Some {
                60
            } else {
                300
            };
            match rtype {
                RecordType::A => {
                    let v4 = spec_v4_addrs(ips);
                    if v4.len() > 0 {
                        Some(
                            RecordSetView {
                                name,
                                record_type: RecordType::A,
                                ttl,
                                addresses: v4,
                                cname_target: None,
                            },
                        )
                    } else {
                        None
                    }
                },
                RecordType::Aaaa => {
                    let v6 = spec_v6_addrs(ips);
                    if v6.len() > 0 {
                        Some(
                            RecordSetView {
                                name,
                                record_type: RecordType::Aaaa,
                                ttl,
                                addresses: v6,
                                cname_target: None,
                            },
                        )
                    } else {
                        None
                    }
                },
                RecordType::Cname => match rec.cname_target {
                    None => None,
                    Some(t) => Some(
                        RecordSetView {
                            name,
                            record_type: RecordType::Cname,
                            ttl,
                            addresses: Seq::empty(),
                            cname_target: Some(t),
                        },
                    ),
                },
                RecordType::Null => None,
            }
        },
    }
}

/// The v4 addresses of a list.
fn v4_addrs(ips: &Vec<SockAddr>) -> (r: Vec<IpAddress>)
    ensures
        r@ == spec_v4_addrs(ips@),
{
    let mut out: Vec<IpAddress> = Vec::new();
    proof {
        assert(ips@.skip(0) =~= ips@);
    }
    let mut i: usize = 0;
    while i < ips.len()
        invariant
            i <= ips@.len(),
            spec_v4_addrs(ips@) == out@ + spec_v4_addrs(ips@.skip(i as int)),
        decreases ips@.len() - i,
    {
        let ghost pre = out@;
        proof {
            assert(ips@.skip(i as int)[0] == ips@[i as int]);
            assert(ips@.skip(i as int).drop_first() =~= ips@.skip(i as int + 1));
        }
        match &ips[i].ip {
            IpAddress::V4 { .. } => {
                out.push(ips[i].ip);
                proof {
                    assert(pre + spec_v4_addrs(ips@.skip(i as int)) =~= out@ + spec_v4_addrs(
                        ips@.skip(i as int + 1),
                    ));
                }
            },
            IpAddress::V6 { .. } => {},
        }
        i = i + 1;
    }
    proof {
        assert(ips@.skip(ips@.len() as int) =~= Seq::<SockAddr>::empty());
        assert(out@ =~= out@ + spec_v4_addrs(ips@.skip(ips@.len() as int)));
    }
    out
}

/// The v6 addresses of a list.
fn v6_addrs(ips: &Vec<SockAddr>) -> (r: Vec<IpAddress>)
    ensures
        r@ == spec_v6_addrs(ips@),
{
    let mut out: Vec<IpAddress> = Vec::new();
    proof {
        assert(ips@.skip(0) =~= ips@);
    }
    let mut i: usize = 0;
    while i < ips.len()
        invariant
            i <= ips@.len(),
            spec_v6_addrs(ips@) == out@ + spec_v6_addrs(ips@.skip(i as int)),
        decreases ips@.len() - i,
    {
        let ghost pre = out@;
        proof {
            assert(ips@.skip(i as int)[0] == ips@[i as int]);
            assert(ips@.skip(i as int).drop_first() =~= ips@.skip(i as int + 1));
        }
        match &ips[i].ip {
            IpAddress::V6 { .. } => {
                out.push(ips[i].ip);
                proof {
                    assert(pre + spec_v6_addrs(ips@.skip(i as int)) =~= out@ + spec_v6_addrs(
                        ips@.skip(i as int + 1),
                    ));
                }
            },
            IpAddress::V4 { .. } => {},
        }
        i = i + 1;
    }
    proof {
        assert(ips@.skip(ips@.len() as int) =~= Seq::<SockAddr>::empty());
        assert(out@ =~= out@ + spec_v6_addrs(ips@.skip(ips@.len() as int)));
    }
    out
}

impl DnsStore {
    /// Answers a query from the local zone: exactly `spec_lookup_local`.
    /// The driver that holds the geography database applies proximity
    /// ordering afterwards with `reorder_by_proximity`.
    pub fn lookup_local(
        &self,
        name: &str,
        rtype: RecordType,
        src: Option<IpAddress>,
        healthy: Option<&Vec<IpAddress>>,
    ) -> (r: Option<RecordSet>)
        ensures
            match r {
                Some(rs) => spec_lookup_local(
                    *self,
                    name.spec_bytes(),
                    rtype,
                    src,
                    match healthy {
                        Some(h) => Some(h@),
                        None => None,
                    },
                ) == Some(record_set_view(rs)),
                None => spec_lookup_local(
                    *self,
                    name.spec_bytes(),
                    rtype,
                    src,
                    match healthy {
                        Some(h) => Some(h@),
                        None => None,
                    },
                ) is None,
            },
    {
        let key = domain_key(name);
        let record = match self.get(key.as_slice()) {
            Some(r) => r,
            None => {
                return None;
            },
        };
        let rr_name = match crate::codec::string_from_utf8(key) {
            Some(s) => s,
            None => {
                return None;
            },
        };
        let ips = select_answer_ips(&record, src, healthy);
        let ttl: u32 = if healthy.is_some() {
            60
        } else {
            300
        };
        match rtype {
            RecordType::A => {
                let v4 = v4_addrs(&ips);
                if v4.len() > 0 {
                    Some(
                        RecordSet {
                            name: rr_name,
                            record_type: RecordType::A,
                            ttl,
                            addresses: v4,
                            cname_target: None,
                        },
                    )
                } else {
                    None
                }
            },
            RecordType::Aaaa => {
                let v6 = v6_addrs(&ips);
                if v6.len() > 0 {
                    Some(
                        RecordSet {
                            name: rr_name,
                            record_type: RecordType::Aaaa,
                            ttl,
                            addresses: v6,
                            cname_target: None,
                        },
                    )
                } else {
                    None
                }
            },
            RecordType::Cname => {
                match record.cname_target {
                    None => None,
                    Some(t) => Some(
                        RecordSet {
                            name: rr_name,
                            record_type: RecordType::Cname,
                            ttl,
                            addresses: Vec::new(),
                            cname_target: Some(t),
                        },
                    ),
                }
            },
            RecordType::Null => None,
        }
    }
}

/// The last socket address of a list that carries this IP, if any (when
/// one IP appears twice, the later port mapping wins, as the rebuilt
/// address map keeps the later entry).
pub open spec fn spec_last_addr_with_ip(ips: Seq<SockAddr>, ip: IpAddress) -> Option<SockAddr>
    decreases ips.len(),
{
    if ips.len() == 0 {
        None
    } else if ips.last().ip == ip {
        Some(ips.last())
    } else {
        spec_last_addr_with_ip(ips.drop_last(), ip)
    }
}

/// The answer addresses rebuilt in a proximity order: for each IP of the
/// computed order, the socket address that carries it, ports preserved.
pub open spec fn spec_reorder_by_proximity(
    ips: Seq<SockAddr>,
    sorted: Seq<IpAddress>,
) -> Seq<SockAddr>
    decreases sorted.len(),
{
    if sorted.len() == 0 {
        Seq::empty()
    } else {
        let rest = spec_reorder_by_proximity(ips, sorted.drop_first());
        match spec_last_addr_with_ip(ips, sorted[0]) {
            Some(sa) => seq![sa] + rest,
            None => rest,
        }
    }
}

/// The last socket address carrying an IP.
fn find_last_with_ip(ips: &Vec<SockAddr>, ip: &IpAddress) -> (r: Option<SockAddr>)
    ensures
        r == spec_last_addr_with_ip(ips@, *ip),
{
    let mut k: usize = ips.len();
    proof {
        assert(ips@.take(ips@.len() as int) =~= ips@);
    }
    while k > 0
        invariant
            k <= ips@.len(),
            spec_last_addr_with_ip(ips@, *ip) == spec_last_addr_with_ip(
                ips@.take(k as int),
                *ip,
            ),
        decreases k,
    {
        k = k - 1;
        proof {
            assert(ips@.take(k as int + 1).last() == ips@[k as int]);
            assert(ips@.take(k as int + 1).drop_last() =~= ips@.take(k as int));
        }
        if ips[k].ip == *ip {
            return Some(ips[k]);
        }
    }
    proof {
        assert(ips@.take(0) =~= Seq::<SockAddr>::empty());
    }
    None
}

/// Reorders an answer by a proximity order computed outside (the geography
/// lookup depends on a database on disk, so the driver computes the order
/// and this function applies it): when the computed order covers exactly
/// the answer's IPs, the addresses are rebuilt in that order with their
/// ports preserved; a partial or oversized order leaves the answer as it
/// was.
pub fn reorder_by_proximity(ips: Vec<SockAddr>, sorted_ips: &Vec<IpAddress>) -> (r: Vec<SockAddr>)
    ensures
        sorted_ips@.len() == ips@.len() ==> r@ == spec_reorder_by_proximity(ips@, sorted_ips@),
        sorted_ips@.len() != ips@.len() ==> r@ == ips@,
{
    if sorted_ips.len() != ips.len() {
        return ips;
    }
    let mut out: Vec<SockAddr> = Vec::new();
    proof {
        assert(sorted_ips@.skip(0) =~= sorted_ips@);
    }
    let mut i: usize = 0;
    while i < sorted_ips.len()
        invariant
            i <= sorted_ips@.len(),
            spec_reorder_by_proximity(ips@, sorted_ips@) == out@ + spec_reorder_by_proximity(
                ips@,
                sorted_ips@.skip(i as int),
            ),
        decreases sorted_ips@.len() - i,
    {
        let ghost pre = out@;
        proof {
            assert(sorted_ips@.skip(i as int)[0] == sorted_ips@[i as int]);
            assert(sorted_ips@.skip(i as int).drop_first() =~= sorted_ips@.skip(i as int + 1));
        }
        match find_last_with_ip(&ips, &sorted_ips[i]) {
            Some(sa) => {
                out.push(sa);
                proof {
                    assert(pre + spec_reorder_by_proximity(ips@, sorted_ips@.skip(i as int))
                        =~= out@ + spec_reorder_by_proximity(
                        ips@,
                        sorted_ips@.skip(i as int + 1),
                    ));
                }
            },
            None => {},
        }
        i = i + 1;
    }
    proof {
        assert(sorted_ips@.skip(sorted_ips@.len() as int) =~= Seq::<IpAddress>::empty());
        assert(out@ =~= out@ + spec_reorder_by_proximity(
            ips@,
            sorted_ips@.skip(sorted_ips@.len() as int),
        ));
    }
    out
}

/// One record of a dynamic update message, already decoded.
pub enum DnsUpdateData {
    A(IpAddress),
    Aaaa(IpAddress),
    Cname(String),
    Other,
}

/// One dynamic update: the record name, its TTL and its data.  A TTL of
/// zero asks for deletion.
pub struct DnsUpdate {
    pub domain: String,
    pub ttl: u32,
    pub data: DnsUpdateData,
}

/// The ghost image of an update: the lowercased key, whether it is UTF-8,
/// the decoded name, and the data split by type.
pub ghost struct DnsUpdateView {
    pub key: Seq<u8>,
    pub valid: bool,
    pub domain: Seq<char>,
    pub rtype: RecordType,
    pub ttl: u32,
    pub ip: Option<IpAddress>,
    pub cname: Option<Seq<char>>,
}

pub open spec fn dns_update_view(u: DnsUpdate) -> DnsUpdateView {
    let key = spec_lower_bytes(vstd::utf8::encode_utf8(u.domain@));
    let base = DnsUpdateView {
        key,
        valid: vstd::utf8::valid_utf8(key),
        domain: vstd::utf8::decode_utf8(key),
        rtype: RecordType::Null,
        ttl: u.ttl,
        ip: None,
        cname: None,
    };
    match u.data {
        DnsUpdateData::A(ip) => DnsUpdateView { rtype: RecordType::A, ip: Some(ip), ..base },
        DnsUpdateData::Aaaa(ip) => DnsUpdateView {
            rtype: RecordType::Aaaa,
            ip: Some(ip),
            ..base
        },
        DnsUpdateData::Cname(t) => DnsUpdateView {
            rtype: RecordType::Cname,
            cname: Some(t@),
            ..base
        },
        DnsUpdateData::Other => base,
    }
}

/// The zone as a mathematical map from key to record.
pub open spec fn dns_map(s: DnsStore) -> Map<Seq<u8>, DnsRecordView> {
    Map::new(
        |k: Seq<u8>| spec_dns_get(s, k) is Some,
        |k: Seq<u8>| spec_dns_get(s, k)->0,
    )
}

/// A record freshly created by an update, before any merge.
pub open spec fn spec_fresh_record(
    domain: Seq<char>,
    rtype: RecordType,
    formnet_ip: Seq<SockAddr>,
    public_ip: Seq<SockAddr>,
    cname_target: Option<Seq<char>>,
) -> DnsRecordView {
    DnsRecordView {
        domain,
        record_type: rtype,
        formnet_ip,
        public_ip,
        cname_target,
        ssl_cert: false,
        ttl: 3600,
        verification_status: Some(VerificationStatus::NotVerified),
        verification_timestamp: None,
    }
}

/// What one dynamic update does to the zone map, and whether it changed
/// anything.  TTL 0 deletes the matching record and is a no-op when the
/// name is absent; TTL > 0 upserts, appending an A address into the bucket
/// its first octet selects, an AAAA address into the public bucket — the
/// other bucket stays — and replacing a CNAME target verbatim.
pub open spec fn spec_apply_dns_update(
    m: Map<Seq<u8>, DnsRecordView>,
    u: DnsUpdateView,
) -> (Map<Seq<u8>, DnsRecordView>, bool) {
    if !u.valid {
        (m, false)
    } else {
        match u.rtype {
            RecordType::A => {
                let ip = u.ip->0;
                let sa = SockAddr { ip, port: 80 };
                let fresh = spec_fresh_record(
                    u.domain,
                    RecordType::A,
                    if ip.spec_is_formnet() {
                        seq![sa]
                    } else {
                        Seq::empty()
                    },
                    if !ip.spec_is_formnet() {
                        seq![sa]
                    } else {
                        Seq::empty()
                    },
                    None,
                );
                if u.ttl == 0 {
                    if m.dom().contains(u.key) {
                        (m.remove(u.key), true)
                    } else {
                        (m, false)
                    }
                } else {
                    if m.dom().contains(u.key) {
                        let old = m[u.key];
                        let merged = DnsRecordView {
                            record_type: RecordType::A,
                            formnet_ip: if ip.spec_is_formnet() {
                                old.formnet_ip.push(sa)
                            } else {
                                old.formnet_ip
                            },
                            public_ip: if !ip.spec_is_formnet() {
                                old.public_ip.push(sa)
                            } else {
                                old.public_ip
                            },
                            ttl: u.ttl,
                            ..old
                        };
                        (m.insert(u.key, merged), true)
                    } else {
                        (m.insert(u.key, fresh), true)
                    }
                }
            },
            RecordType::Aaaa => {
                let ip = u.ip->0;
                let sa = SockAddr { ip, port: 80 };
                let fresh = spec_fresh_record(
                    u.domain,
                    RecordType::Aaaa,
                    Seq::empty(),
                    seq![sa],
                    None,
                );
                if u.ttl == 0 {
                    if m.dom().contains(u.key) {
                        (m.remove(u.key), true)
                    } else {
                        (m, false)
                    }
                } else {
                    if m.dom().contains(u.key) {
                        let old = m[u.key];
                        let merged = DnsRecordView {
                            record_type: RecordType::Aaaa,
                            formnet_ip: old.formnet_ip,
                            public_ip: old.public_ip.push(sa),
                            ttl: u.ttl,
                            ..old
                        };
                        (m.insert(u.key, merged), true)
                    } else {
                        (m.insert(u.key, fresh), true)
                    }
                }
            },
            RecordType::Cname => {
                let target = u.cname->0;
                let fresh = spec_fresh_record(
                    u.domain,
                    RecordType::Cname,
                    Seq::empty(),
                    Seq::empty(),
                    Some(target),
                );
                if u.ttl == 0 {
                    if m.dom().contains(u.key) {
                        (m.remove(u.key), true)
                    } else {
                        (m, false)
                    }
                } else {
                    if m.dom().contains(u.key) {
                        let old = m[u.key];
                        let merged = DnsRecordView {
                            record_type: RecordType::Cname,
                            cname_target: Some(target),
                            ttl: u.ttl,
                            ..old
                        };
                        (m.insert(u.key, merged), true)
                    } else {
                        (m.insert(u.key, fresh), true)
                    }
                }
            },
            RecordType::Null => (m, false),
        }
    }
}

/// A whole update message, folded in order.
pub open spec fn spec_apply_dns_updates(
    m: Map<Seq<u8>, DnsRecordView>,
    us: Seq<DnsUpdateView>,
) -> (Map<Seq<u8>, DnsRecordView>, bool)
    decreases us.len(),
{
    if us.len() == 0 {
        (m, false)
    } else {
        let step = spec_apply_dns_update(m, us[0]);
        let rest = spec_apply_dns_updates(step.0, us.drop_first());
        (rest.0, step.1 || rest.1)
    }
}

pub open spec fn dns_updates_view(us: Seq<DnsUpdate>) -> Seq<DnsUpdateView> {
    us.map(|i: int, u: DnsUpdate| dns_update_view(u))
}

proof fn lemma_dns_map_insert(pre: DnsStore, post: DnsStore, key: Seq<u8>, v: DnsRecordView)
    requires
        spec_dns_get(post, key) == Some(v),
        forall|h: Seq<u8>|
            h != key ==> #[trigger] spec_dns_get(post, h) == spec_dns_get(pre, h),
    ensures
        dns_map(post) == dns_map(pre).insert(key, v),
{
    assert(dns_map(post) =~= dns_map(pre).insert(key, v));
}

proof fn lemma_dns_map_remove(pre: DnsStore, post: DnsStore, key: Seq<u8>)
    requires
        spec_dns_get(post, key) is None,
        forall|h: Seq<u8>|
            h != key ==> #[trigger] spec_dns_get(post, h) == spec_dns_get(pre, h),
    ensures
        dns_map(post) == dns_map(pre).remove(key),
{
    assert(dns_map(post) =~= dns_map(pre).remove(key));
}

/// The ASCII-lowercased bytes of a name, with no trimming.
fn lower_bytes_of(name: &str) -> (r: Vec<u8>)
    ensures
        r@ == spec_lower_bytes(name.spec_bytes()),
{
    let b = name.as_bytes();
    let mut out: Vec<u8> = Vec::new();
    let mut i: usize = 0;
    while i < b.len()
        invariant
            i <= b@.len(),
            b@ == name.spec_bytes(),
            out@.len() == i,
            forall|k: int| 0 <= k < i ==> out@[k] == spec_lower_byte(b@[k]),
        decreases b@.len() - i,
    {
        let c = b[i];
        if 65 <= c && c <= 90 {
            out.push(c + 32);
        } else {
            out.push(c);
        }
        i = i + 1;
    }
    proof {
        assert(out@ =~= spec_lower_bytes(name.spec_bytes()));
    }
    out
}

/// A copy of a socket-address list with one more entry.
fn push_sock_addr(v: &Vec<SockAddr>, sa: SockAddr) -> (r: Vec<SockAddr>)
    ensures
        r@ == v@.push(sa),
{
    let mut out = copy_sock_addrs(v);
    out.push(sa);
    out
}

impl DnsStore {
    /// Applies one dynamic update; exactly `spec_apply_dns_update` on the
    /// zone map.
    pub fn apply_one_update(&mut self, u: &DnsUpdate) -> (changed: bool)
        requires
            dns_store_well_formed(*old(self)),
        ensures
            dns_store_well_formed(*final(self)),
            dns_map(*final(self)) == spec_apply_dns_update(
                dns_map(*old(self)),
                dns_update_view(*u),
            ).0,
            changed == spec_apply_dns_update(dns_map(*old(self)), dns_update_view(*u)).1,
    {
        let ghost pre = *self;
        let ghost uv = dns_update_view(*u);
        let key = lower_bytes_of(u.domain.as_str());
        let domain = match crate::codec::string_from_utf8(crate::queue::copy_bytes(&key)) {
            Some(s) => s,
            None => {
                return false;
            },
        };
        proof {
            assert(key@ == uv.key);
            assert(uv.valid);
            assert(domain@ == uv.domain);
            assert(spec_dns_get(pre, uv.key) is Some <==> dns_map(pre).dom().contains(uv.key));
        }
        match &u.data {
            DnsUpdateData::A(ip) => {
                let sa = SockAddr { ip: *ip, port: 80 };
                if u.ttl == 0 {
                    match self.remove(key.as_slice()) {
                        Some(_) => {
                            proof {
                                lemma_dns_map_remove(pre, *self, uv.key);
                            }
                            true
                        },
                        None => false,
                    }
                } else {
                    match self.get(key.as_slice()) {
                        Some(old_rec) => {
                            let merged = FormDnsRecord {
                                record_type: RecordType::A,
                                formnet_ip: if ip.is_formnet() {
                                    push_sock_addr(&old_rec.formnet_ip, sa)
                                } else {
                                    copy_sock_addrs(&old_rec.formnet_ip)
                                },
                                public_ip: if !ip.is_formnet() {
                                    push_sock_addr(&old_rec.public_ip, sa)
                                } else {
                                    copy_sock_addrs(&old_rec.public_ip)
                                },
                                ttl: u.ttl,
                                domain: old_rec.domain,
                                cname_target: old_rec.cname_target,
                                ssl_cert: old_rec.ssl_cert,
                                verification_status: old_rec.verification_status,
                                verification_timestamp: old_rec.verification_timestamp,
                            };
                            let ghost mv = dns_record_view(merged);
                            self.insert(key, merged);
                            proof {
                                lemma_dns_map_insert(pre, *self, uv.key, mv);
                                assert(dns_map(*self) =~= spec_apply_dns_update(
                                    dns_map(pre),
                                    uv,
                                ).0);
                            }
                            true
                        },
                        None => {
                            let fresh = FormDnsRecord {
                                domain,
                                record_type: RecordType::A,
                                formnet_ip: if ip.is_formnet() {
                                    let mut v: Vec<SockAddr> = Vec::new();
                                    v.push(sa);
                                    v
                                } else {
                                    Vec::new()
                                },
                                public_ip: if !ip.is_formnet() {
                                    let mut v: Vec<SockAddr> = Vec::new();
                                    v.push(sa);
                                    v
                                } else {
                                    Vec::new()
                                },
                                cname_target: None,
                                ssl_cert: false,
                                ttl: 3600,
                                verification_status: Some(VerificationStatus::NotVerified),
                                verification_timestamp: None,
                            };
                            let ghost fv = dns_record_view(fresh);
                            self.insert(key, fresh);
                            proof {
                                lemma_dns_map_insert(pre, *self, uv.key, fv);
                                assert(dns_map(*self) =~= spec_apply_dns_update(
                                    dns_map(pre),
                                    uv,
                                ).0);
                            }
                            true
                        },
                    }
                }
            },
            DnsUpdateData::Aaaa(ip) => {
                let sa = SockAddr { ip: *ip, port: 80 };
                if u.ttl == 0 {
                    match self.remove(key.as_slice()) {
                        Some(_) => {
                            proof {
                                lemma_dns_map_remove(pre, *self, uv.key);
                            }
                            true
                        },
                        None => false,
                    }
                } else {
                    match self.get(key.as_slice()) {
                        Some(old_rec) => {
                            let merged = FormDnsRecord {
                                record_type: RecordType::Aaaa,
                                formnet_ip: old_rec.formnet_ip,
                                public_ip: push_sock_addr(&old_rec.public_ip, sa),
                                ttl: u.ttl,
                                domain: old_rec.domain,
                                cname_target: old_rec.cname_target,
                                ssl_cert: old_rec.ssl_cert,
                                verification_status: old_rec.verification_status,
                                verification_timestamp: old_rec.verification_timestamp,
                            };
                            let ghost mv = dns_record_view(merged);
                            self.insert(key, merged);
                            proof {
                                lemma_dns_map_insert(pre, *self, uv.key, mv);
                                assert(dns_map(*self) =~= spec_apply_dns_update(
                                    dns_map(pre),
                                    uv,
                                ).0);
                            }
                            true
                        },
                        None => {
                            let mut pubs: Vec<SockAddr> = Vec::new();
                            pubs.push(sa);
                            let fresh = FormDnsRecord {
                                domain,
                                record_type: RecordType::Aaaa,
                                formnet_ip: Vec::new(),
                                public_ip: pubs,
                                cname_target: None,
                                ssl_cert: false,
                                ttl: 3600,
                                verification_status: Some(VerificationStatus::NotVerified),
                                verification_timestamp: None,
                            };
                            let ghost fv = dns_record_view(fresh);
                            self.insert(key, fresh);
                            proof {
                                lemma_dns_map_insert(pre, *self, uv.key, fv);
                                assert(dns_map(*self) =~= spec_apply_dns_update(
                                    dns_map(pre),
                                    uv,
                                ).0);
                            }
                            true
                        },
                    }
                }
            },
            DnsUpdateData::Cname(target) => {
                if u.ttl == 0 {
                    match self.remove(key.as_slice()) {
                        Some(_) => {
                            proof {
                                lemma_dns_map_remove(pre, *self, uv.key);
                            }
                            true
                        },
                        None => false,
                    }
                } else {
                    match self.get(key.as_slice()) {
                        Some(old_rec) => {
                            let merged = FormDnsRecord {
                                record_type: RecordType::Cname,
                                cname_target: Some(copy_string(target)),
                                ttl: u.ttl,
                                domain: old_rec.domain,
                                formnet_ip: old_rec.formnet_ip,
                                public_ip: old_rec.public_ip,
                                ssl_cert: old_rec.ssl_cert,
                                verification_status: old_rec.verification_status,
                                verification_timestamp: old_rec.verification_timestamp,
                            };
                            let ghost mv = dns_record_view(merged);
                            self.insert(key, merged);
                            proof {
                                lemma_dns_map_insert(pre, *self, uv.key, mv);
                                assert(dns_map(*self) =~= spec_apply_dns_update(
                                    dns_map(pre),
                                    uv,
                                ).0);
                            }
                            true
                        },
                        None => {
                            let fresh = FormDnsRecord {
                                domain,
                                record_type: RecordType::Cname,
                                formnet_ip: Vec::new(),
                                public_ip: Vec::new(),
                                cname_target: Some(copy_string(target)),
                                ssl_cert: false,
                                ttl: 3600,
                                verification_status: Some(VerificationStatus::NotVerified),
                                verification_timestamp: None,
                            };
                            let ghost fv = dns_record_view(fresh);
                            self.insert(key, fresh);
                            proof {
                                lemma_dns_map_insert(pre, *self, uv.key, fv);
                                assert(dns_map(*self) =~= spec_apply_dns_update(
                                    dns_map(pre),
                                    uv,
                                ).0);
                            }
                            true
                        },
                    }
                }
            },
            DnsUpdateData::Other => false,
        }
    }

    /// Applies a whole update message in order; the zone map ends as the
    /// fold of the updates, and `changed` says whether any update changed
    /// it.
    pub fn apply_update(&mut self, updates: &Vec<DnsUpdate>) -> (changed: bool)
        requires
            dns_store_well_formed(*old(self)),
        ensures
            dns_store_well_formed(*final(self)),
            dns_map(*final(self)) == spec_apply_dns_updates(
                dns_map(*old(self)),
                dns_updates_view(updates@),
            ).0,
            changed == spec_apply_dns_updates(
                dns_map(*old(self)),
                dns_updates_view(updates@),
            ).1,
    {
        let ghost all = dns_updates_view(updates@);
        let ghost orig = dns_map(*self);
        let mut changed = false;
        proof {
            assert(all.skip(0) =~= all);
        }
        let mut j: usize = 0;
        while j < updates.len()
            invariant
                j <= all.len(),
                all == dns_updates_view(updates@),
                dns_store_well_formed(*self),
                spec_apply_dns_updates(dns_map(*self), all.skip(j as int)).0
                    == spec_apply_dns_updates(orig, all).0,
                (changed || spec_apply_dns_updates(dns_map(*self), all.skip(j as int)).1)
                    == spec_apply_dns_updates(orig, all).1,
            decreases all.len() - j,
        {
            let ghost state_pre = *self;
            let c = self.apply_one_update(&updates[j]);
            proof {
                assert(all[j as int] == dns_update_view(updates@[j as int]));
                assert(all.skip(j as int)[0] == all[j as int]);
                assert(all.skip(j as int).drop_first() =~= all.skip(j as int + 1));
            }
            changed = changed || c;
            j = j + 1;
        }
        proof {
            assert(all.skip(all.len() as int) =~= Seq::<DnsUpdateView>::empty());
        }
        changed
    }
}

/// What zone an authority serves.
#[derive(Clone, Copy, Debug, PartialEq, Eq, Structural)]
pub enum ZoneType {
    Primary,
    Secondary,
}

/// Why a lookup failed.
#[derive(Clone, Copy, Debug, PartialEq, Eq, Structural)]
pub enum LookupError {
    /// The query name could not be used.
    FormErr,
    /// The upstream query failed.
    ServFail,
    /// Nothing answers the name.
    NxDomain,
}

/// An answer and the additional records that may ride along.
pub struct SimpleLookup {
    pub records: RecordSet,
    pub additionals: Option<RecordSet>,
}

impl RecordSet {
    /// An answer with neither addresses nor a canonical name is empty.
    pub open spec fn spec_is_empty(self) -> bool {
        self.addresses@.len() == 0 && self.cname_target is None
    }
}

impl SimpleLookup {
    /// An answer alone.
    pub fn from_record_set(rrset: RecordSet) -> (r: SimpleLookup)
        ensures
            r.records == rrset,
            r.additionals is None,
    {
        SimpleLookup { records: rrset, additionals: None }
    }

    /// An answer with additionals.
    pub fn with_additionals(rrset: RecordSet, additionals: RecordSet) -> (r: SimpleLookup)
        ensures
            r.records == rrset,
            r.additionals == Some(additionals),
    {
        SimpleLookup { records: rrset, additionals: Some(additionals) }
    }

    /// Whether the answer is empty.
    pub fn is_empty(&self) -> (r: bool)
        ensures
            r == self.records.spec_is_empty(),
    {
        self.records.addresses.len() == 0 && self.records.cname_target.is_none()
    }

    /// Takes the additionals out, as their own lookup.
    pub fn take_additionals(&mut self) -> (r: Option<SimpleLookup>)
        ensures
            final (self).records == old(self).records,
            final (self).additionals is None,
            match r {
                Some(l) => old(self).additionals == Some(l.records) && l.additionals is None,
                None => old(self).additionals is None,
            },
    {
        match self.additionals.take() {
            Some(adds) => Some(SimpleLookup { records: adds, additionals: None }),
            None => None,
        }
    }
}

/// One answer a forwarder returned.
pub struct UpstreamAnswer {
    pub record_type: RecordType,
    pub address: Option<IpAddress>,
    pub cname_target: Option<String>,
}

/// The addresses of the upstream answers of the queried type, in order.
pub open spec fn spec_upstream_addrs(answers: Seq<UpstreamAnswer>, rtype: RecordType) -> Seq<
    IpAddress,
>
    decreases answers.len(),
{
    if answers.len() == 0 {
        Seq::empty()
    } else {
        let rest = spec_upstream_addrs(answers.drop_first(), rtype);
        if answers[0].record_type == rtype && answers[0].address is Some {
            seq![answers[0].address->0] + rest
        } else {
            rest
        }
    }
}

/// The first canonical name among the upstream answers of the queried type.
pub open spec fn spec_upstream_cname(answers: Seq<UpstreamAnswer>, rtype: RecordType) -> Option<
    Seq<char>,
>
    decreases answers.len(),
{
    if answers.len() == 0 {
        None
    } else if answers[0].record_type == rtype && answers[0].cname_target is Some {
        Some(answers[0].cname_target->0@)
    } else {
        spec_upstream_cname(answers.drop_first(), rtype)
    }
}

/// Adopts a forwarder's answers: only those of the queried type count, the
/// answer TTL is 300, and an empty answer — before or after filtering — is
/// `NxDomain`.
pub fn adopt_upstream_answers(
    name: &str,
    rtype: RecordType,
    answers: &Vec<UpstreamAnswer>,
) -> (r: Result<RecordSet, LookupError>)
    ensures
        r is Ok <==> answers@.len() > 0 && (spec_upstream_addrs(answers@, rtype).len() > 0
            || spec_upstream_cname(answers@, rtype) is Some),
        r matches Err(e) ==> e is NxDomain,
        r matches Ok(rs) ==> record_set_view(rs) == (RecordSetView {
            name: name@,
            record_type: rtype,
            ttl: 300u32,
            addresses: spec_upstream_addrs(answers@, rtype),
            cname_target: spec_upstream_cname(answers@, rtype),
        }) && !rs.spec_is_empty(),
{
    if answers.len() == 0 {
        return Err(LookupError::NxDomain);
    }
    let mut addrs: Vec<IpAddress> = Vec::new();
    let mut cname: Option<String> = None;
    proof {
        assert(answers@.skip(0) =~= answers@);
    }
    let mut i: usize = 0;
    while i < answers.len()
        invariant
            i <= answers@.len(),
            spec_upstream_addrs(answers@, rtype) == addrs@ + spec_upstream_addrs(
                answers@.skip(i as int),
                rtype,
            ),
            spec_upstream_cname(answers@, rtype) == (match cname {
                Some(c) => Some(c@),
                None => spec_upstream_cname(answers@.skip(i as int), rtype),
            }),
        decreases answers@.len() - i,
    {
        let ghost pre_addrs = addrs@;
        proof {
            assert(answers@.skip(i as int)[0] == answers@[i as int]);
            assert(answers@.skip(i as int).drop_first() =~= answers@.skip(i as int + 1));
        }
        let a = &answers[i];
        if a.record_type == rtype {
            match &a.address {
                Some(ip) => {
                    addrs.push(*ip);
                    proof {
                        assert(pre_addrs + spec_upstream_addrs(answers@.skip(i as int), rtype)
                            =~= addrs@ + spec_upstream_addrs(answers@.skip(i as int + 1), rtype));
                    }
                },
                None => {},
            }
            if cname.is_none() {
                match &a.cname_target {
                    Some(t) => {
                        cname = Some(copy_string(t));
                    },
                    None => {},
                }
            }
        }
        i = i + 1;
    }
    proof {
        assert(answers@.skip(answers@.len() as int) =~= Seq::<UpstreamAnswer>::empty());
        assert(addrs@ =~= addrs@ + spec_upstream_addrs(
            answers@.skip(answers@.len() as int),
            rtype,
        ));
    }
    if addrs.len() == 0 && cname.is_none() {
        return Err(LookupError::NxDomain);
    }
    Ok(
        RecordSet {
            name: name.to_owned(),
            record_type: rtype,
            ttl: 300,
            addresses: addrs,
            cname_target: cname,
        },
    )
}

/// The serving decision of `lookup` and `search`: the local answer wins;
/// only a local miss consults the forwarder, whose verdict is adopted.
pub fn lookup_with_fallback(
    local: Option<RecordSet>,
    upstream: Result<RecordSet, LookupError>,
) -> (r: Result<SimpleLookup, LookupError>)
    ensures
        local matches Some(rr) ==> (r matches Ok(l) && l.records == rr && l.additionals is None),
        local is None ==> (match upstream {
            Ok(rr) => r matches Ok(l) && l.records == rr && l.additionals is None,
            Err(e) => r == Err::<SimpleLookup, LookupError>(e),
        }),
{
    match local {
        Some(rrset) => Ok(SimpleLookup::from_record_set(rrset)),
        None => match upstream {
            Ok(rr) => Ok(SimpleLookup::from_record_set(rr)),
            Err(e) => Err(e),
        },
    }
}

/// The authoritative view over the zone store.
pub struct FormAuthority {
    pub origin: String,
    pub zone_type: ZoneType,
    pub store: DnsStore,
}

impl FormAuthority {
    /// A primary authority over a zone.
    pub fn new(origin: String, store: DnsStore) -> (r: FormAuthority)
        ensures
            r.origin@ == origin@,
            r.zone_type == ZoneType::Primary,
            r.store == store,
    {
        FormAuthority { origin, zone_type: ZoneType::Primary, store }
    }

    /// The zone type served.
    pub fn zone_type(&self) -> (r: ZoneType)
        ensures
            r == self.zone_type,
    {
        self.zone_type
    }

    /// Zone transfers are never allowed.
    pub fn is_axfr_allowed(&self) -> (r: bool)
        ensures
            r == false,
    {
        false
    }

    /// The zone origin.
    pub fn origin(&self) -> (r: &String)
        ensures
            r@ == self.origin@,
    {
        &self.origin
    }

    /// Applies a dynamic update message to the zone (see
    /// `DnsStore::apply_update`); `Ok(changed)` always.
    pub fn apply_update(&mut self, updates: &Vec<DnsUpdate>) -> (r: Result<bool, LookupError>)
        requires
            dns_store_well_formed(old(self).store),
        ensures
            dns_store_well_formed(final (self).store),
            final (self).origin == old(self).origin,
            final (self).zone_type == old(self).zone_type,
            r matches Ok(changed) && dns_map(final (self).store) == spec_apply_dns_updates(
                dns_map(old(self).store),
                dns_updates_view(updates@),
            ).0 && changed == spec_apply_dns_updates(
                dns_map(old(self).store),
                dns_updates_view(updates@),
            ).1,
    {
        let changed = self.store.apply_update(updates);
        Ok(changed)
    }
}

} // verus!
