//! Deterministic identifiers: the build id of a signed workload request and
//! the instance id a node derives from it.
use vstd::prelude::*;
use vstd::string::StringSliceAdditionalSpecFns;
use crate::codec::{
    spec_hex_of, spec_hex_valid, spec_hex_decode, sha3_256_of, sha3_256, hex_encode, hex_decode,
};

verus! {

/// Why an identifier could not be derived.
#[derive(Clone, Copy, Debug, PartialEq, Eq, Structural)]
pub enum IdError {
    /// An input was not a hex string.
    InvalidHex,
    /// A decoded identifier was shorter than the 20 bytes the derivation reads.
    TooShort,
}

/// The build id: lowercase hex of SHA3-256(owner address ‖ name bytes).
pub open spec fn spec_build_id(address: Seq<u8>, name: Seq<u8>) -> Seq<char> {
    spec_hex_of(sha3_256_of(address + name))
}

/// Pointwise XOR of two byte strings of equal length.
pub open spec fn spec_xor_bytes(a: Seq<u8>, b: Seq<u8>) -> Seq<u8>
    recommends
        a.len() == b.len(),
{
    Seq::new(a.len(), |i: int| a[i] ^ b[i])
}

/// The instance id: hex of the XOR of the first 20 bytes of the decoded
/// build id with the first 20 bytes of the decoded node id.
pub open spec fn spec_instance_id(node_id: Seq<char>, build_id: Seq<char>) -> Seq<char> {
    spec_hex_of(
        spec_xor_bytes(
            spec_hex_decode(build_id).take(20),
            spec_hex_decode(node_id).take(20),
        ),
    )
}

/// Concatenation of two byte slices.
pub fn concat_bytes(a: &[u8], b: &[u8]) -> (r: Vec<u8>)
    ensures
        r@ == a@ + b@,
{
    let mut out: Vec<u8> = Vec::new();
    let mut i: usize = 0;
    while i < a.len()
        invariant
            i <= a.len(),
            out@ == a@.take(i as int),
        decreases a.len() - i,
    {
        out.push(a[i]);
        i = i + 1;
        proof {
            assert(out@ =~= a@.take(i as int));
        }
    }
    let mut j: usize = 0;
    while j < b.len()
        invariant
            j <= b.len(),
            out@ == a@ + b@.take(j as int),
        decreases b.len() - j,
    {
        out.push(b[j]);
        j = j + 1;
        proof {
            assert(out@ =~= a@ + b@.take(j as int));
        }
    }
    proof {
        assert(out@ =~= a@ + b@);
    }
    out
}

/// Derives the build id of a workload: SHA3-256 over the signer's address
/// followed by the workload name, hex-encoded.
pub fn derive_build_id(address: &[u8], name: &str) -> (r: String)
    ensures
        r@ == spec_build_id(address@, name.spec_bytes()),
        r@.len() == 64,
        spec_hex_valid(r@),
        spec_hex_decode(r@) == sha3_256_of(address@ + name.spec_bytes()),
{
    let joined = concat_bytes(address, name.as_bytes());
    let digest = sha3_256(joined.as_slice());
    proof {
        crate::codec::lemma_hex_roundtrip(digest@);
    }
    hex_encode(digest.as_slice())
}

/// Pointwise XOR of two byte slices of equal length.
pub fn xor_bytes(a: &[u8], b: &[u8]) -> (r: Vec<u8>)
    requires
        a@.len() == b@.len(),
    ensures
        r@ == spec_xor_bytes(a@, b@),
{
    let mut out: Vec<u8> = Vec::new();
    let mut i: usize = 0;
    while i < a.len()
        invariant
            i <= a.len(),
            a@.len() == b@.len(),
            out@.len() == i,
            forall|k: int| 0 <= k < i ==> out@[k] == (a@[k] ^ b@[k]),
        decreases a.len() - i,
    {
        out.push(a[i] ^ b[i]);
        i = i + 1;
    }
    proof {
        assert(out@ =~= spec_xor_bytes(a@, b@));
    }
    out
}

/// Derives the instance id of a build on a node: the XOR of the first 20
/// bytes of the decoded build id with the first 20 bytes of the decoded node
/// id, hex-encoded.  Rejects inputs that are not hex or decode to fewer than
/// 20 bytes.
pub fn build_instance_id(node_id: String, build_id: String) -> (r: Result<String, IdError>)
    ensures
        r is Ok <==> spec_hex_valid(node_id@) && spec_hex_valid(build_id@) && spec_hex_decode(
            node_id@,
        ).len() >= 20 && spec_hex_decode(build_id@).len() >= 20,
        r matches Ok(s) ==> s@ == spec_instance_id(node_id@, build_id@),
        r matches Err(e) ==> (e == IdError::InvalidHex <==> !(spec_hex_valid(node_id@)
            && spec_hex_valid(build_id@))),
{
    let node_bytes = match hex_decode(node_id.as_str()) {
        Some(b) => b,
        None => {
            return Err(IdError::InvalidHex);
        },
    };
    let build_bytes = match hex_decode(build_id.as_str()) {
        Some(b) => b,
        None => {
            return Err(IdError::InvalidHex);
        },
    };
    if node_bytes.len() < 20 || build_bytes.len() < 20 {
        return Err(IdError::TooShort);
    }
    let xored = xor_bytes(&build_bytes.as_slice()[0..20], &node_bytes.as_slice()[0..20]);
    proof {
        assert(build_bytes@.subrange(0, 20) =~= spec_hex_decode(build_id@).take(20));
        assert(node_bytes@.subrange(0, 20) =~= spec_hex_decode(node_id@).take(20));
    }
    Ok(hex_encode(xored.as_slice()))
}

/// The build id is a function of owner address and name alone: two
/// derivations from equal inputs are equal.
pub proof fn lemma_build_id_deterministic(
    address: Seq<u8>,
    name: Seq<u8>,
    r1: Seq<char>,
    r2: Seq<char>,
)
    requires
        r1 == spec_build_id(address, name),
        r2 == spec_build_id(address, name),
    ensures
        r1 == r2,
{
}

/// XOR recovers its operands: from the XOR prefix and either input prefix,
/// the other input prefix comes back.
pub proof fn lemma_xor_recovers(a: Seq<u8>, b: Seq<u8>)
    requires
        a.len() == b.len(),
    ensures
        spec_xor_bytes(spec_xor_bytes(a, b), b) == a,
        spec_xor_bytes(spec_xor_bytes(a, b), a) == b,
{
    assert(forall|x: u8, y: u8| ((x ^ y) ^ y) == x) by (bit_vector);
    assert(forall|x: u8, y: u8| ((x ^ y) ^ x) == y) by (bit_vector);
    assert(spec_xor_bytes(spec_xor_bytes(a, b), b) =~= a);
    assert(spec_xor_bytes(spec_xor_bytes(a, b), a) =~= b);
}

/// The symmetry of the instance id: the 20-byte prefixes of build id and
/// node id are each recoverable from the instance id bytes and the other
/// prefix.
pub proof fn lemma_instance_id_symmetric(build20: Seq<u8>, node20: Seq<u8>)
    requires
        build20.len() == 20,
        node20.len() == 20,
    ensures
        spec_xor_bytes(spec_xor_bytes(build20, node20), node20) == build20,
        spec_xor_bytes(spec_xor_bytes(build20, node20), build20) == node20,
{
    lemma_xor_recovers(build20, node20);
}

} // verus!
