//! What the command-line client computes before it talks to the fabric:
//! the signed payload digest of a build request, and the shape of the
//! disk-removal command.
use vstd::prelude::*;
use vstd::string::StringSliceAdditionalSpecFns;
use crate::codec::{sha3_256, sha3_256_of};
use crate::ids::concat_bytes;

verus! {

/// The digest a build request signs: SHA3-256 over the name hash followed
/// by the manifest's JSON text.
pub fn build_payload_hash(name_hash: &[u8], formfile_json: &str) -> (r: Vec<u8>)
    ensures
        r@ == sha3_256_of(name_hash@ + formfile_json.spec_bytes()),
        r@.len() == 32,
{
    let joined = concat_bytes(name_hash, formfile_json.as_bytes());
    sha3_256(joined.as_slice())
}

/// The disk-removal command, as parsed from the command line.  Its handling
/// is not implemented yet; the command only announces that.
pub struct RemoveDiskCommand {
    /// The instance to modify.
    pub id: Option<String>,
    /// The instance's name, an alternative to the id.
    pub name: Option<String>,
    /// Private key for authentication.
    pub private_key: Option<String>,
    /// Keyfile containing the private key.
    pub keyfile: Option<String>,
    /// Mnemonic for key derivation.
    pub mnemonic: Option<String>,
    /// The disk to remove, as returned when it was added.
    pub disk_id: String,
    /// Send the request via the queue instead of the direct API.
    pub queue: bool,
}

} // verus!
