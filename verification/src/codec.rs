//! Byte-level encodings shared by the whole crate: hex, SHA3-256 digests,
//! base64, UTF-8 conversion and the recoverable-signature address derivation.
use vstd::prelude::*;

verus! {

/// The lowercase hex digit for a nibble.
pub open spec fn spec_hex_digit(n: u8) -> char
    recommends
        n < 16,
{
    if n < 10 {
        ((n + 48) as u8) as char
    } else {
        ((n + 87) as u8) as char
    }
}

/// Lowercase hex encoding: two digits for each byte, in order.
pub open spec fn spec_hex_of(bytes: Seq<u8>) -> Seq<char>
    decreases bytes.len(),
{
    if bytes.len() == 0 {
        Seq::empty()
    } else {
        seq![spec_hex_digit(bytes[0] / 16), spec_hex_digit(bytes[0] % 16)] + spec_hex_of(
            bytes.drop_first(),
        )
    }
}

pub open spec fn spec_is_hex_char(c: char) -> bool {
    (48 <= c as u32 && c as u32 <= 57) || (97 <= c as u32 && c as u32 <= 102) || (65 <= c as u32
        && c as u32 <= 70)
}

/// The value of one hex digit, upper or lower case.
pub open spec fn spec_hex_char_val(c: char) -> u8
    recommends
        spec_is_hex_char(c),
{
    if 48 <= c as u32 && c as u32 <= 57 {
        (c as u32 - 48) as u8
    } else if 97 <= c as u32 && c as u32 <= 102 {
        (c as u32 - 87) as u8
    } else {
        (c as u32 - 55) as u8
    }
}

/// A string decodes as hex when its length is even and every character is a
/// hex digit of either case.
pub open spec fn spec_hex_valid(s: Seq<char>) -> bool {
    s.len() % 2 == 0 && forall|i: int| 0 <= i < s.len() ==> spec_is_hex_char(#[trigger] s[i])
}

/// The bytes a hex string stands for, one byte per digit pair.
pub open spec fn spec_hex_decode(s: Seq<char>) -> Seq<u8>
    decreases s.len(),
{
    if s.len() < 2 {
        Seq::empty()
    } else {
        seq![
            (spec_hex_char_val(s[0]) * 16 + spec_hex_char_val(s[1])) as u8,
        ] + spec_hex_decode(s.skip(2))
    }
}

/// Hex encoding round-trips: what `spec_hex_of` produces is valid hex and
/// decodes to the original bytes.
pub proof fn lemma_hex_roundtrip(bytes: Seq<u8>)
    ensures
        spec_hex_valid(spec_hex_of(bytes)),
        spec_hex_of(bytes).len() == 2 * bytes.len(),
        spec_hex_decode(spec_hex_of(bytes)) == bytes,
    decreases bytes.len(),
{
    if bytes.len() == 0 {
        assert(spec_hex_decode(spec_hex_of(bytes)) =~= bytes);
    } else {
        let b = bytes[0];
        let hi = b / 16;
        let lo = b % 16;
        lemma_hex_roundtrip(bytes.drop_first());
        let s = spec_hex_of(bytes);
        assert(s[0] == spec_hex_digit(hi) && s[1] == spec_hex_digit(lo));
        assert(spec_is_hex_char(spec_hex_digit(hi)) && spec_hex_char_val(spec_hex_digit(hi))
            == hi);
        assert(spec_is_hex_char(spec_hex_digit(lo)) && spec_hex_char_val(spec_hex_digit(lo))
            == lo);
        assert(s.skip(2) =~= spec_hex_of(bytes.drop_first()));
        assert forall|i: int| 0 <= i < s.len() implies spec_is_hex_char(#[trigger] s[i]) by {
            if i >= 2 {
                assert(s[i] == spec_hex_of(bytes.drop_first())[i - 2]);
            }
        }
        assert(spec_hex_decode(s)[0] == b);
        assert(spec_hex_decode(s) =~= bytes);
    }
}

/// Relies on hex::encode: lowercase output, exactly two digits per input
/// byte, in input order.
#[verifier::external_body]
pub fn hex_encode(data: &[u8]) -> (r: String)
    ensures
        r@ == spec_hex_of(data@),
{
    hex::encode(data)
}

/// Relies on hex::decode: succeeds exactly on even-length strings of hex
/// digits of either case, and returns the bytes the digit pairs stand for.
#[verifier::external_body]
pub fn hex_decode(data: &str) -> (r: Option<Vec<u8>>)
    ensures
        r is Some <==> spec_hex_valid(data@),
        r matches Some(b) ==> b@ == spec_hex_decode(data@),
{
    hex::decode(data).ok()
}

/// The SHA3-256 digest of a byte string; a function of the bytes alone.
pub uninterp spec fn sha3_256_of(data: Seq<u8>) -> Seq<u8>;

/// Relies on tiny_keccak's Sha3::v256: a 32-byte digest that depends on the
/// input bytes alone.
#[verifier::external_body]
pub fn sha3_256(data: &[u8]) -> (r: Vec<u8>)
    ensures
        r@ == sha3_256_of(data@),
        r@.len() == 32,
{
    let mut hasher = tiny_keccak::Sha3::v256();
    let mut out = [0u8;32];
    tiny_keccak::Hasher::update(&mut hasher, data);
    tiny_keccak::Hasher::finalize(hasher, &mut out);
    out.to_vec()
}

/// The standard, padded base64 encoding of a byte string.
pub uninterp spec fn base64_of(data: Seq<u8>) -> Seq<char>;

/// Relies on base64::encode (standard alphabet with padding): the output
/// depends on the input bytes alone.
#[verifier::external_body]
pub fn base64_encode(data: &[u8]) -> (r: String)
    ensures
        r@ == base64_of(data@),
{
    base64::encode(data)
}

/// Relies on String::from_utf8: succeeds exactly on valid UTF-8 and returns
/// its decoding.
#[verifier::external_body]
pub fn string_from_utf8(bytes: Vec<u8>) -> (r: Option<String>)
    ensures
        r is Some <==> vstd::utf8::valid_utf8(bytes@),
        r matches Some(s) ==> s@ == vstd::utf8::decode_utf8(bytes@),
{
    String::from_utf8(bytes).ok()
}

/// The 20-byte address recovered from a 32-byte digest, a 64-byte signature
/// and a recovery byte, when recovery succeeds.
pub uninterp spec fn spec_recovered_address(hash: Seq<u8>, sig: Seq<u8>, rec: u8) -> Option<
    Seq<u8>,
>;

/// Relies on k256's VerifyingKey::recover_from_msg and alloy-primitives'
/// Address::from_public_key: a 20-byte address determined by the inputs
/// alone, or nothing when the signature does not recover.
#[verifier::external_body]
pub fn recover_signer_address(hash: &[u8], sig: &[u8], rec: u8) -> (r: Option<Vec<u8>>)
    ensures
        r is Some <==> spec_recovered_address(hash@, sig@, rec) is Some,
        r matches Some(a) ==> Some(a@) == spec_recovered_address(hash@, sig@, rec) && a@.len()
            == 20,
{
    let sig = k256::ecdsa::Signature::from_slice(sig).ok()?;
    let rec_id = k256::ecdsa::RecoveryId::from_byte(rec)?;
    let pk = k256::ecdsa::VerifyingKey::recover_from_msg(hash, &sig, rec_id).ok()?;
    let addr = alloy_primitives::Address::from_public_key(&pk);
    Some(addr.as_slice().to_vec())
}

/// Relies on uuid::Uuid::new_v4: the value is drawn by chance; its hyphenated
/// form is always 36 characters.
#[verifier::external_body]
pub fn new_agent_id() -> (r: String)
    ensures
        r@.len() == 36,
{
    uuid::Uuid::new_v4().to_string()
}

/// Relies on rand's gen_range: a value below the bound; which one is chance.
#[verifier::external_body]
pub fn random_index(n: usize) -> (r: usize)
    requires
        n > 0,
    ensures
        r < n,
{
    rand::Rng::gen_range(&mut rand::thread_rng(), 0..n)
}

} // verus!
