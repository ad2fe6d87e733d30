//! The SNI reverse proxy's routing: a table from domain to backend
//! addresses, a uniformly random backend choice, and the Host-header
//! extraction of plain HTTP requests.  The TLS path finds its hostname in
//! `sni`.
use vstd::prelude::*;
use vstd::string::StringSliceAdditionalSpecFns;
use crate::dns::SockAddr;
use crate::strutil::str_eq;

verus! {

/// Why the proxy could not serve.
#[derive(Debug)]
pub enum ProxyError {
    /// No backend is known or reachable for the domain.
    NoBackend(String),
    /// The request could not be understood.
    InvalidRequest(String),
}

/// The backends of one domain.
pub struct Backend {
    pub addresses: Vec<SockAddr>,
}

impl Backend {
    /// A backend over these addresses.
    pub fn new(addresses: Vec<SockAddr>) -> (r: Backend)
        ensures
            r.addresses == addresses,
    {
        Backend { addresses }
    }

    /// The addresses traffic may be sent to.
    pub fn addresses(&self) -> (r: &Vec<SockAddr>)
        ensures
            r == &self.addresses,
    {
        &self.addresses
    }
}

/// The proxy's tuning.
#[derive(Clone, Copy, Debug, PartialEq, Eq, Structural)]
pub struct ProxyConfig {
    /// How many bytes one read may fill.
    pub buffer_size: usize,
    /// How long a backend connect may take, in milliseconds.
    pub connection_timeout_ms: u64,
}

/// The index of a domain among the routes, or -1.
pub open spec fn spec_route_index(routes: Seq<(String, Backend)>, domain: Seq<char>) -> int
    decreases routes.len(),
{
    if routes.len() == 0 {
        -1
    } else if routes[0].0@ == domain {
        0
    } else {
        let rest = spec_route_index(routes.drop_first(), domain);
        if rest < 0 {
            -1
        } else {
            rest + 1
        }
    }
}

/// The routing table and tuning of the proxy.
pub struct ReverseProxy {
    pub routes: Vec<(String, Backend)>,
    pub config: ProxyConfig,
}

pub open spec fn routes_well_formed(routes: Seq<(String, Backend)>) -> bool {
    forall|i: int, j: int|
        0 <= i < j < routes.len() ==> (#[trigger] routes[i].0)@ != (#[trigger] routes[j].0)@
}

proof fn lemma_route_index_of_match(routes: Seq<(String, Backend)>, domain: Seq<char>, i: int)
    requires
        0 <= i < routes.len(),
        routes[i].0@ == domain,
        forall|k: int| 0 <= k < i ==> (#[trigger] routes[k].0)@ != domain,
    ensures
        spec_route_index(routes, domain) == i,
    decreases i,
{
    if i == 0 {
    } else {
        assert(routes.drop_first()[i - 1] == routes[i]);
        assert(forall|k: int|
            0 <= k < i - 1 ==> (#[trigger] routes.drop_first()[k].0)@ == routes[k + 1].0@);
        lemma_route_index_of_match(routes.drop_first(), domain, i - 1);
    }
}

proof fn lemma_route_index_of_none(routes: Seq<(String, Backend)>, domain: Seq<char>)
    requires
        forall|k: int| 0 <= k < routes.len() ==> (#[trigger] routes[k].0)@ != domain,
    ensures
        spec_route_index(routes, domain) == -1,
    decreases routes.len(),
{
    if routes.len() > 0 {
        assert(forall|k: int|
            0 <= k < routes.len() - 1 ==> (#[trigger] routes.drop_first()[k].0)@ == routes[k
                + 1].0@);
        lemma_route_index_of_none(routes.drop_first(), domain);
    }
}

impl ReverseProxy {
    /// A proxy with no routes yet.
    pub fn new(config: ProxyConfig) -> (r: ReverseProxy)
        ensures
            r.routes@.len() == 0,
            r.config == config,
            routes_well_formed(r.routes@),
    {
        ReverseProxy { routes: Vec::new(), config }
    }

    /// The proxy's tuning.
    pub fn config(&self) -> (r: ProxyConfig)
        ensures
            r == self.config,
    {
        self.config
    }

    /// The position of a domain's route.
    fn find_route(&self, domain: &str) -> (r: Option<usize>)
        ensures
            r matches Some(i) ==> (i as int) < self.routes@.len() && self.routes@[i as int].0@
                == domain@ && spec_route_index(self.routes@, domain@) == i as int,
            r is None ==> spec_route_index(self.routes@, domain@) == -1 && forall|k: int|
                0 <= k < self.routes@.len() ==> (#[trigger] self.routes@[k].0)@ != domain@,
    {
        let mut i: usize = 0;
        while i < self.routes.len()
            invariant
                i <= self.routes@.len(),
                forall|k: int| 0 <= k < i ==> (#[trigger] self.routes@[k].0)@ != domain@,
            decreases self.routes@.len() - i,
        {
            if str_eq(self.routes[i].0.as_str(), domain) {
                proof {
                    lemma_route_index_of_match(self.routes@, domain@, i as int);
                }
                return Some(i);
            }
            i = i + 1;
        }
        proof {
            lemma_route_index_of_none(self.routes@, domain@);
        }
        None
    }

    /// Installs or replaces the backend of a domain (the exclusive-writer
    /// operation of the table).
    pub fn add_route(&mut self, domain: String, backend: Backend)
        requires
            routes_well_formed(old(self).routes@),
        ensures
            routes_well_formed(final (self).routes@),
            final (self).config == old(self).config,
            spec_route_index(final (self).routes@, domain@) >= 0,
            final (self).routes@[spec_route_index(final (self).routes@, domain@)].1.addresses@
                == backend.addresses@,
    {
        match self.find_route(domain.as_str()) {
            Some(i) => {
                let ghost pre = self.routes@;
                self.routes.set(i, (domain, backend));
                proof {
                    assert(forall|k: int|
                        0 <= k < self.routes@.len() ==> (#[trigger] self.routes@[k].0)@ == pre[
                        k].0@);
                    assert(routes_well_formed(self.routes@));
                    lemma_route_index_of_match(
                        self.routes@,
                        self.routes@[i as int].0@,
                        i as int,
                    );
                }
            },
            None => {
                let ghost pre = self.routes@;
                let ghost dv = domain@;
                self.routes.push((domain, backend));
                proof {
                    let n = pre.len() as int;
                    assert(self.routes@ =~= pre.push(self.routes@[n]));
                    assert(forall|k: int| 0 <= k < n ==> self.routes@[k] == pre[k]);
                    assert(forall|k: int|
                        0 <= k < n ==> (#[trigger] self.routes@[k].0)@ != dv);
                    assert(routes_well_formed(self.routes@));
                    lemma_route_index_of_match(self.routes@, dv, n);
                }
            },
        }
    }

    /// Removes the backend of a domain, handing it back if it was routed.
    pub fn remove_route(&mut self, domain: &str) -> (r: Option<Backend>)
        requires
            routes_well_formed(old(self).routes@),
        ensures
            routes_well_formed(final (self).routes@),
            final (self).config == old(self).config,
            r is Some <==> spec_route_index(old(self).routes@, domain@) >= 0,
            spec_route_index(final (self).routes@, domain@) == -1,
    {
        match self.find_route(domain) {
            Some(i) => {
                let ghost pre = self.routes@;
                let (_, backend) = self.routes.remove(i);
                proof {
                    assert(self.routes@ =~= pre.remove(i as int));
                    assert forall|a: int, b: int|
                        0 <= a < b < self.routes@.len() implies (#[trigger] self.routes@[a].0)@
                        != (#[trigger] self.routes@[b].0)@ by {
                        let oa = if a < i {
                            a
                        } else {
                            a + 1
                        };
                        let ob = if b < i {
                            b
                        } else {
                            b + 1
                        };
                        assert(self.routes@[a] == pre[oa]);
                        assert(self.routes@[b] == pre[ob]);
                    }
                    assert forall|k: int| 0 <= k < self.routes@.len()
                        implies (#[trigger] self.routes@[k].0)@ != domain@ by {
                        let orig = if k < i {
                            k
                        } else {
                            k + 1
                        };
                        assert(self.routes@[k] == pre[orig]);
                        if pre[orig].0@ == domain@ {
                            lemma_route_index_of_match(pre, domain@, orig);
                        }
                    }
                    lemma_route_index_of_none(self.routes@, domain@);
                }
                Some(backend)
            },
            None => None,
        }
    }

    /// The backend of a domain, copied out.
    pub fn get_route(&self, domain: &str) -> (r: Option<Backend>)
        ensures
            r is Some <==> spec_route_index(self.routes@, domain@) >= 0,
            r matches Some(b) ==> b.addresses@ == self.routes@[spec_route_index(
                self.routes@,
                domain@,
            )].1.addresses@,
    {
        match self.find_route(domain) {
            Some(i) => Some(
                Backend { addresses: crate::dns::copy_sock_addrs(&self.routes[i].1.addresses) },
            ),
            None => None,
        }
    }

    /// Chooses a backend address for a domain, uniformly at random; no
    /// route or an empty backend is `NoBackend`.
    pub fn select_backend(&self, domain: &str) -> (r: Result<SockAddr, ProxyError>)
        ensures
            r is Ok <==> spec_route_index(self.routes@, domain@) >= 0 && self.routes@[
                spec_route_index(self.routes@, domain@)].1.addresses@.len() > 0,
            r matches Ok(addr) ==> self.routes@[spec_route_index(
                self.routes@,
                domain@,
            )].1.addresses@.contains(addr),
            r matches Err(e) ==> e is NoBackend,
    {
        match self.find_route(domain) {
            Some(i) => {
                let addrs = &self.routes[i].1.addresses;
                if addrs.len() == 0 {
                    return Err(ProxyError::NoBackend(domain.to_owned()));
                }
                let k = crate::codec::random_index(addrs.len());
                let addr = addrs[k];
                proof {
                    assert(self.routes@[i as int].1.addresses@.contains(addr));
                }
                Ok(addr)
            },
            None => Err(ProxyError::NoBackend(domain.to_owned())),
        }
    }
}

/// The end of the line starting at `start`: the first newline at or after
/// it, or the end of the text.
pub open spec fn spec_line_end(b: Seq<u8>, start: int) -> int
    decreases b.len() - start,
{
    if start >= b.len() {
        b.len() as int
    } else if b[start] == 10 {
        start
    } else {
        spec_line_end(b, start + 1)
    }
}

/// ASCII whitespace, as `trim` strips it from header values.
pub open spec fn spec_is_ascii_space(c: u8) -> bool {
    c == 32 || c == 9 || c == 13 || c == 10
}

/// The value with leading and trailing ASCII whitespace removed.
pub open spec fn spec_trim_spaces(s: Seq<u8>) -> Seq<u8>
    decreases s.len(),
{
    if s.len() > 0 && spec_is_ascii_space(s[0]) {
        spec_trim_spaces(s.drop_first())
    } else if s.len() > 0 && spec_is_ascii_space(s[s.len() - 1]) {
        spec_trim_spaces(s.drop_last())
    } else {
        s
    }
}

proof fn lemma_line_end_bounds(b: Seq<u8>, start: int)
    requires
        0 <= start,
    ensures
        start <= b.len() ==> start <= spec_line_end(b, start),
        spec_line_end(b, start) <= b.len(),
    decreases b.len() - start,
{
    if start >= b.len() {
    } else if b[start] == 10 {
    } else {
        lemma_line_end_bounds(b, start + 1);
    }
}

/// The first `Host: ` header value of a request, scanning line by line
/// from `start`; trimmed of surrounding whitespace.
pub open spec fn spec_find_host(b: Seq<u8>, start: int) -> Option<Seq<u8>>
    recommends
        0 <= start,
    decreases b.len() - start,
    when 0 <= start
    via spec_find_host_decreases
{
    if start >= b.len() {
        None
    } else {
        let end = spec_line_end(b, start);
        let line = b.subrange(start, end);
        if line.len() >= 6 && line.take(6) == "Host: ".spec_bytes() {
            Some(spec_trim_spaces(line.skip(6)))
        } else if end + 1 > b.len() {
            None
        } else {
            spec_find_host(b, end + 1)
        }
    }
}

#[via_fn]
proof fn spec_find_host_decreases(b: Seq<u8>, start: int) {
    lemma_line_end_bounds(b, start);
}

/// The end of the line starting at `start`.
fn find_line_end(b: &[u8], start: usize) -> (r: usize)
    requires
        start <= b@.len(),
    ensures
        start <= r <= b@.len(),
        r == spec_line_end(b@, start as int),
{
    let mut i: usize = start;
    while i < b.len()
        invariant
            start <= i <= b@.len(),
            spec_line_end(b@, start as int) == spec_line_end(b@, i as int),
            forall|k: int| start <= k < i ==> b@[k] != 10,
        decreases b@.len() - i,
    {
        if b[i] == 10 {
            return i;
        }
        i = i + 1;
    }
    i
}

/// Trims ASCII whitespace from both ends.
fn trim_spaces(v: Vec<u8>) -> (r: Vec<u8>)
    ensures
        r@ == spec_trim_spaces(v@),
{
    let mut lo: usize = 0;
    let mut hi: usize = v.len();
    proof {
        assert(v@.subrange(0, v@.len() as int) =~= v@);
    }
    while lo < hi && (v[lo] == 32 || v[lo] == 9 || v[lo] == 13 || v[lo] == 10)
        invariant
            lo <= hi <= v@.len(),
            spec_trim_spaces(v@) == spec_trim_spaces(v@.subrange(lo as int, hi as int)),
            forall|k: int| 0 <= k < lo ==> spec_is_ascii_space(b_at(v@, k)),
        decreases hi - lo,
    {
        proof {
            let cur = v@.subrange(lo as int, hi as int);
            assert(cur[0] == v@[lo as int]);
            assert(cur.drop_first() =~= v@.subrange(lo as int + 1, hi as int));
        }
        lo = lo + 1;
    }
    while lo < hi && (v[hi - 1] == 32 || v[hi - 1] == 9 || v[hi - 1] == 13 || v[hi - 1] == 10)
        invariant
            lo <= hi <= v@.len(),
            spec_trim_spaces(v@) == spec_trim_spaces(v@.subrange(lo as int, hi as int)),
            lo < hi ==> !spec_is_ascii_space(v@[lo as int]),
        decreases hi - lo,
    {
        proof {
            let cur = v@.subrange(lo as int, hi as int);
            assert(cur[cur.len() - 1] == v@[hi as int - 1]);
            assert(cur.drop_last() =~= v@.subrange(lo as int, hi as int - 1));
        }
        hi = hi - 1;
    }
    proof {
        let cur = v@.subrange(lo as int, hi as int);
        assert(spec_trim_spaces(cur) == cur);
    }
    crate::sni::copy_byte_range(v.as_slice(), lo, hi)
}

/// An index helper for triggers.
pub open spec fn b_at(b: Seq<u8>, k: int) -> u8 {
    b[k]
}

/// Extracts the domain of a plain HTTP request: the trimmed value of its
/// first `Host: ` header, or `InvalidRequest` when no line carries one.
pub fn extract_domain(request: &str) -> (r: Result<String, ProxyError>)
    ensures
        match spec_find_host(request.spec_bytes(), 0) {
            Some(h) => if vstd::utf8::valid_utf8(h) {
                r matches Ok(s) && s@ == vstd::utf8::decode_utf8(h)
            } else {
                r matches Err(e) && e is InvalidRequest
            },
            None => r matches Err(e) && e is InvalidRequest,
        },
{
    let b = request.as_bytes();
    let mut start: usize = 0;
    let ghost target = spec_find_host(request.spec_bytes(), 0);
    while start < b.len()
        invariant
            start <= b@.len() + 1,
            b@ == request.spec_bytes(),
            spec_find_host(b@, start as int) == target,
            target == spec_find_host(request.spec_bytes(), 0),
        decreases b@.len() - start,
    {
        let end = find_line_end(b, start);
        let prefix_ok = end - start >= 6 && b[start] == 72 && b[start + 1] == 111 && b[start
            + 2] == 115 && b[start + 3] == 116 && b[start + 4] == 58 && b[start + 5] == 32;
        proof {
            let line = b@.subrange(start as int, end as int);
            reveal_strlit("Host: ");
            vstd::string::is_ascii_spec_bytes("Host: ");
            assert("Host: ".spec_bytes().len() == 6);
            assert("Host: ".spec_bytes()[0] == 72 && "Host: ".spec_bytes()[1] == 111
                && "Host: ".spec_bytes()[2] == 115 && "Host: ".spec_bytes()[3] == 116
                && "Host: ".spec_bytes()[4] == 58 && "Host: ".spec_bytes()[5] == 32);
            if line.len() >= 6 {
                if prefix_ok {
                    assert(line.take(6) =~= "Host: ".spec_bytes());
                } else {
                    assert(line.take(6) != "Host: ".spec_bytes()) by {
                        if line.take(6) == "Host: ".spec_bytes() {
                            assert(line[0] == 72 && line[1] == 111 && line[2] == 115 && line[3]
                                == 116 && line[4] == 58 && line[5] == 32);
                            assert(false);
                        }
                    }
                }
            }
        }
        if prefix_ok {
            let value = crate::sni::copy_byte_range(b, start + 6, end);
            let trimmed = trim_spaces(value);
            proof {
                let line = b@.subrange(start as int, end as int);
                assert(line.skip(6) =~= b@.subrange(start as int + 6, end as int));
                assert(target == Some(spec_trim_spaces(line.skip(6))));
            }
            return match crate::codec::string_from_utf8(trimmed) {
                Some(s) => Ok(s),
                None => Err(
                    ProxyError::InvalidRequest("Host header is not text".to_owned()),
                ),
            };
        }
        proof {
            let line = b@.subrange(start as int, end as int);
            if line.len() >= 6 {
                assert(line.take(6) != "Host: ".spec_bytes());
            }
            assert(spec_find_host(b@, start as int) == (if end as int + 1 > b@.len() {
                None::<Seq<u8>>
            } else {
                spec_find_host(b@, end as int + 1)
            }));
        }
        if end >= b.len() {
            proof {
                assert(target is None);
            }
            return Err(ProxyError::InvalidRequest("No Host header found".to_owned()));
        }
        start = end + 1;
    }
    proof {
        assert(target is None);
    }
    Err(ProxyError::InvalidRequest("No Host header found".to_owned()))
}

} // verus!
