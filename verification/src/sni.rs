//! The TLS ClientHello SNI parser (RFC 6066 §3).  Every length field is
//! checked before it is trusted; a truncated message yields a typed error
//! and the parser never reads past its input.
//!
//! Layout walked here: record header (5 bytes, type 0x16), handshake type
//! (0x01), 4 bytes handshake header, 2 bytes version, 32 bytes random,
//! session id (1-byte length), cipher suites (2-byte length), compression
//! methods (1-byte length), extensions (2-byte length), then extensions
//! until the SNI type 0x0000, whose hostname entry has name type 0x00.
use vstd::prelude::*;
use crate::codec::string_from_utf8;

verus! {

/// Why no hostname came back.
#[derive(Clone, Copy, Debug, PartialEq, Eq, Structural)]
pub enum SniError {
    /// Shorter than the 5-byte record header.
    TooShort,
    /// The record type is not handshake (0x16).
    NotHandshake,
    /// The handshake type is not ClientHello (0x01).
    NotClientHello,
    /// Ends before the session id length byte.
    ShortSessionId,
    /// Ends inside the cipher-suites length field.
    ShortCipherSuites,
    /// Ends inside the compression-methods length field.
    ShortCompression,
    /// Ends inside the extensions length field.
    ShortExtensions,
    /// The extensions block overruns the message.
    ShortExtensionsData,
    /// The SNI extension ends inside its list length field.
    SniTruncated,
    /// The SNI server-name list overruns the extensions block.
    SniDataTruncated,
    /// A hostname entry overruns the server-name list.
    HostnameTruncated,
    /// The hostname bytes are not UTF-8.
    InvalidUtf8,
    /// No SNI extension with a hostname entry was found.
    NoSni,
}

impl SniError {
    /// The diagnostic text of each error.
    pub open spec fn spec_message(self) -> Seq<char> {
        match self {
            SniError::TooShort => "ClientHello too short"@,
            SniError::NotHandshake => "Not a TLS handshake"@,
            SniError::NotClientHello => "Not a ClientHello"@,
            SniError::ShortSessionId => "Message too short for session ID"@,
            SniError::ShortCipherSuites => "Message too short for cipher suites"@,
            SniError::ShortCompression => "Message too short for compression methods"@,
            SniError::ShortExtensions => "Message too short for extensions"@,
            SniError::ShortExtensionsData => "Message too short for extensions data"@,
            SniError::SniTruncated => "SNI extension truncated"@,
            SniError::SniDataTruncated => "SNI extension data truncated"@,
            SniError::HostnameTruncated => "SNI hostname truncated"@,
            SniError::InvalidUtf8 => "Invalid UTF-8 in SNI hostname"@,
            SniError::NoSni => "No SNI extension found"@,
        }
    }

    /// The diagnostic text of each error.
    pub fn message(&self) -> (r: &'static str)
        ensures
            r@ == self.spec_message(),
    {
        match self {
            SniError::TooShort => "ClientHello too short",
            SniError::NotHandshake => "Not a TLS handshake",
            SniError::NotClientHello => "Not a ClientHello",
            SniError::ShortSessionId => "Message too short for session ID",
            SniError::ShortCipherSuites => "Message too short for cipher suites",
            SniError::ShortCompression => "Message too short for compression methods",
            SniError::ShortExtensions => "Message too short for extensions",
            SniError::ShortExtensionsData => "Message too short for extensions data",
            SniError::SniTruncated => "SNI extension truncated",
            SniError::SniDataTruncated => "SNI extension data truncated",
            SniError::HostnameTruncated => "SNI hostname truncated",
            SniError::InvalidUtf8 => "Invalid UTF-8 in SNI hostname",
            SniError::NoSni => "No SNI extension found",
        }
    }
}

/// A big-endian 16-bit field.
pub open spec fn spec_be16(hi: u8, lo: u8) -> int {
    hi * 256 + lo
}

/// Where the cipher-suites length starts: after the session id.
pub open spec fn spec_cs_pos(b: Seq<u8>) -> int
    recommends
        b.len() > 43,
{
    44 + b[43]
}

/// Where the compression-methods length starts: after the cipher suites.
pub open spec fn spec_cm_pos(b: Seq<u8>) -> int {
    spec_cs_pos(b) + 2 + spec_be16(b[spec_cs_pos(b)], b[spec_cs_pos(b) + 1])
}

/// Where the extensions length starts: after the compression methods.
pub open spec fn spec_ext_pos(b: Seq<u8>) -> int {
    spec_cm_pos(b) + 1 + b[spec_cm_pos(b)]
}

/// Where the extensions block ends.
pub open spec fn spec_ext_end(b: Seq<u8>) -> int {
    spec_ext_pos(b) + 2 + spec_be16(b[spec_ext_pos(b)], b[spec_ext_pos(b) + 1])
}

/// Scanning the server-name list for a hostname entry (name type 0).
/// `Ok(None)` means the list holds no hostname entry.
pub open spec fn spec_scan_names(b: Seq<u8>, pos: int, list_end: int) -> Result<
    Option<Seq<u8>>,
    SniError,
>
    decreases (if pos <= list_end {
        list_end - pos
    } else {
        0
    }),
{
    if pos + 3 > list_end {
        Ok(None)
    } else {
        let name_type = b[pos];
        let name_len = spec_be16(b[pos + 1], b[pos + 2]);
        let after = pos + 3;
        if after + name_len > list_end {
            Err(SniError::HostnameTruncated)
        } else if name_type == 0 {
            Ok(Some(b.subrange(after, after + name_len)))
        } else {
            spec_scan_names(b, after + name_len, list_end)
        }
    }
}

/// Scanning the extensions for the SNI extension (type 0).
pub open spec fn spec_scan_exts(b: Seq<u8>, pos: int, end: int) -> Result<Seq<u8>, SniError>
    decreases (if pos <= end {
        end - pos
    } else {
        0
    }),
{
    if pos + 4 > end {
        Err(SniError::NoSni)
    } else {
        let ext_type = spec_be16(b[pos], b[pos + 1]);
        let ext_len = spec_be16(b[pos + 2], b[pos + 3]);
        let body = pos + 4;
        if ext_type == 0 {
            if body + 2 > end {
                Err(SniError::SniTruncated)
            } else {
                let list_len = spec_be16(b[body], b[body + 1]);
                let list_start = body + 2;
                if list_start + list_len > end {
                    Err(SniError::SniDataTruncated)
                } else {
                    match spec_scan_names(b, list_start, list_start + list_len) {
                        Err(e) => Err(e),
                        Ok(Some(h)) => Ok(h),
                        Ok(None) => spec_scan_exts(b, list_start + ext_len, end),
                    }
                }
            }
        } else {
            spec_scan_exts(b, body + ext_len, end)
        }
    }
}

/// The whole parse, down to the hostname bytes.
pub open spec fn spec_parse_sni(b: Seq<u8>) -> Result<Seq<u8>, SniError> {
    if b.len() < 5 {
        Err(SniError::TooShort)
    } else if b[0] != 0x16 {
        Err(SniError::NotHandshake)
    } else if b.len() < 6 || b[5] != 0x01 {
        Err(SniError::NotClientHello)
    } else if 43 >= b.len() {
        Err(SniError::ShortSessionId)
    } else if spec_cs_pos(b) + 2 > b.len() {
        Err(SniError::ShortCipherSuites)
    } else if spec_cm_pos(b) + 1 > b.len() {
        Err(SniError::ShortCompression)
    } else if spec_ext_pos(b) + 2 > b.len() {
        Err(SniError::ShortExtensions)
    } else if spec_ext_end(b) > b.len() {
        Err(SniError::ShortExtensionsData)
    } else {
        spec_scan_exts(b, spec_ext_pos(b) + 2, spec_ext_end(b))
    }
}

/// A big-endian 16-bit read.
fn be16(b: &[u8], pos: usize) -> (r: usize)
    requires
        pos + 1 < b@.len(),
    ensures
        r == spec_be16(b@[pos as int], b@[pos as int + 1]),
        r < 0x10000,
{
    (b[pos] as usize) * 256 + (b[pos + 1] as usize)
}

/// Copies `b[from..to]` out.
pub fn copy_byte_range(b: &[u8], from: usize, to: usize) -> (r: Vec<u8>)
    requires
        from <= to <= b@.len(),
    ensures
        r@ == b@.subrange(from as int, to as int),
{
    let mut out: Vec<u8> = Vec::new();
    let mut i: usize = from;
    while i < to
        invariant
            from <= i <= to <= b@.len(),
            out@ == b@.subrange(from as int, i as int),
        decreases to - i,
    {
        out.push(b[i]);
        i = i + 1;
        proof {
            assert(out@ =~= b@.subrange(from as int, i as int));
        }
    }
    out
}

/// Extracts the SNI hostname bytes from a ClientHello, validating every
/// length field on the way; exactly the parse `spec_parse_sni` describes.
pub fn extract_sni_bytes(client_hello: &[u8]) -> (r: Result<Vec<u8>, SniError>)
    ensures
        match r {
            Ok(v) => spec_parse_sni(client_hello@) == Ok::<Seq<u8>, SniError>(v@),
            Err(e) => spec_parse_sni(client_hello@) == Err::<Seq<u8>, SniError>(e),
        },
{
    let n = client_hello.len();
    if n < 5 {
        return Err(SniError::TooShort);
    }
    if client_hello[0] != 0x16 {
        return Err(SniError::NotHandshake);
    }
    if n < 6 || client_hello[5] != 0x01 {
        return Err(SniError::NotClientHello);
    }
    if 43 >= n {
        return Err(SniError::ShortSessionId);
    }
    let session_id_len = client_hello[43] as usize;
    let cs_pos = 44 + session_id_len;
    if cs_pos + 2 > n {
        return Err(SniError::ShortCipherSuites);
    }
    let cs_len = be16(client_hello, cs_pos);
    let cm_pos = cs_pos + 2 + cs_len;
    if cm_pos + 1 > n {
        return Err(SniError::ShortCompression);
    }
    let cm_len = client_hello[cm_pos] as usize;
    let ext_pos = cm_pos + 1 + cm_len;
    if ext_pos + 2 > n {
        return Err(SniError::ShortExtensions);
    }
    let ext_len = be16(client_hello, ext_pos);
    let ext_end = ext_pos + 2 + ext_len;
    if ext_end > n {
        return Err(SniError::ShortExtensionsData);
    }
    let ghost end = ext_end as int;
    let mut pos: usize = ext_pos + 2;
    let ghost target = spec_scan_exts(client_hello@, pos as int, end);
    proof {
        assert(cs_pos as int == spec_cs_pos(client_hello@));
        assert(cm_pos as int == spec_cm_pos(client_hello@));
        assert(ext_pos as int == spec_ext_pos(client_hello@));
        assert(ext_end as int == spec_ext_end(client_hello@));
        assert(spec_parse_sni(client_hello@) == spec_scan_exts(client_hello@, spec_ext_pos(client_hello@) + 2, spec_ext_end(client_hello@)));
        assert(spec_parse_sni(client_hello@) == target);
    }
    while ext_end >= 4 && pos <= ext_end - 4
        invariant
            client_hello@.len() == n,
            ext_end <= n,
            spec_scan_exts(client_hello@, pos as int, end) == target,
            end == ext_end as int,
            spec_parse_sni(client_hello@) == target,
        decreases (if pos <= ext_end { ext_end - pos } else { 0 }),
    {
        let e_type = be16(client_hello, pos);
        let e_len = be16(client_hello, pos + 2);
        let body = pos + 4;
        if e_type == 0 {
            if ext_end - body < 2 {
                proof {
                    assert(target == Err::<Seq<u8>, SniError>(SniError::SniTruncated));
                }
                return Err(SniError::SniTruncated);
            }
            let list_len = be16(client_hello, body);
            let list_start = body + 2;
            if list_len > ext_end - list_start {
                proof {
                    assert(target == Err::<Seq<u8>, SniError>(SniError::SniDataTruncated));
                }
                return Err(SniError::SniDataTruncated);
            }
            let list_end = list_start + list_len;
            let ghost names_target = spec_scan_names(client_hello@, list_start as int, list_end as int);
            let ghost cont = spec_scan_exts(client_hello@, list_start as int + e_len, end);
            proof {
                assert(target == match names_target {
                    Err(e) => Err::<Seq<u8>, SniError>(e),
                    Ok(Some(h)) => Ok::<Seq<u8>, SniError>(h),
                    Ok(None) => cont,
                });
            }
            let mut sni_pos: usize = list_start;
            while list_end >= 3 && sni_pos <= list_end - 3
                invariant
                    client_hello@.len() == n,
                    list_end <= ext_end <= n,
                    spec_scan_names(client_hello@, sni_pos as int, list_end as int) == names_target,
                    target == (match names_target {
                        Err(e) => Err::<Seq<u8>, SniError>(e),
                        Ok(Some(h)) => Ok::<Seq<u8>, SniError>(h),
                        Ok(None) => cont,
                    }),
                    spec_parse_sni(client_hello@) == target,
                decreases (if sni_pos <= list_end { list_end - sni_pos } else { 0 }),
            {
                let name_type = client_hello[sni_pos];
                let name_len = be16(client_hello, sni_pos + 1);
                let after = sni_pos + 3;
                if name_len > list_end - after {
                    proof {
                        assert(names_target == Err::<Option<Seq<u8>>, SniError>(
                            SniError::HostnameTruncated,
                        ));
                        assert(target == Err::<Seq<u8>, SniError>(SniError::HostnameTruncated));
                    }
                    return Err(SniError::HostnameTruncated);
                }
                if name_type == 0 {
                    let hostname = copy_byte_range(client_hello, after, after + name_len);
                    proof {
                        assert(names_target == Ok::<Option<Seq<u8>>, SniError>(
                            Some(hostname@),
                        ));
                        assert(target == Ok::<Seq<u8>, SniError>(hostname@));
                    }
                    return Ok(hostname);
                }
                sni_pos = after + name_len;
            }
            proof {
                assert(names_target == Ok::<Option<Seq<u8>>, SniError>(None));
                assert(target == cont);
            }
            match list_start.checked_add(e_len) {
                Some(next) => {
                    pos = next;
                },
                None => {
                    proof {
                        assert(list_start as int + e_len > end);
                        assert(cont == Err::<Seq<u8>, SniError>(SniError::NoSni));
                    }
                    return Err(SniError::NoSni);
                },
            }
        } else {
            proof {
                assert(spec_scan_exts(client_hello@, pos as int, end) == spec_scan_exts(
                    client_hello@,
                    body as int + e_len,
                    end,
                ));
            }
            match body.checked_add(e_len) {
                Some(next) => {
                    pos = next;
                },
                None => {
                    proof {
                        assert(body as int + e_len > end);
                        assert(spec_scan_exts(client_hello@, body as int + e_len, end) == Err::<
                            Seq<u8>,
                            SniError,
                        >(SniError::NoSni));
                    }
                    return Err(SniError::NoSni);
                },
            }
        }
    }
    proof {
        assert(target == Err::<Seq<u8>, SniError>(SniError::NoSni));
    }
    Err(SniError::NoSni)
}

/// Extracts the SNI hostname of a ClientHello as a string, or says exactly
/// why there is none.
pub fn extract_sni(client_hello: &[u8]) -> (r: Result<String, SniError>)
    ensures
        match r {
            Ok(s) => spec_parse_sni(client_hello@) matches Ok(h) && vstd::utf8::valid_utf8(h)
                && s@ == vstd::utf8::decode_utf8(h),
            Err(e) => spec_parse_sni(client_hello@) == Err::<Seq<u8>, SniError>(e) || (e
                == SniError::InvalidUtf8 && (spec_parse_sni(client_hello@) matches Ok(h)
                && !vstd::utf8::valid_utf8(h))),
        },
{
    let bytes = extract_sni_bytes(client_hello)?;
    match string_from_utf8(bytes) {
        Some(s) => Ok(s),
        None => Err(SniError::InvalidUtf8),
    }
}

/// Robustness against truncation: a complete ClientHello from which the SNI
/// parser extracts a hostname (and whose extensions block ends exactly at
/// the end of the message, as the handshake layout forces) parses to a
/// typed error — never a hostname — from every proper prefix.
pub proof fn lemma_truncated_prefix_errs(b: Seq<u8>, i: int)
    requires
        spec_parse_sni(b) is Ok,
        spec_ext_end(b) == b.len(),
        0 <= i < b.len(),
    ensures
        spec_parse_sni(b.take(i)) is Err,
{
    let p = b.take(i);
    assert(p.len() == i);
    assert(forall|k: int| 0 <= k < i ==> p[k] == b[k]);
    // the guards of the full parse all passed
    assert(b.len() >= 5 && b[0] == 0x16 && b.len() >= 6 && b[5] == 0x01 && 43 < b.len());
    assert(spec_cs_pos(b) + 2 <= b.len());
    assert(spec_cm_pos(b) + 1 <= b.len());
    assert(spec_ext_pos(b) + 2 <= b.len());
    if i < 5 {
    } else if p[0] != 0x16 {
        assert(false);
    } else if i < 6 {
    } else if 43 >= i {
    } else {
        assert(spec_cs_pos(p) == spec_cs_pos(b));
        if spec_cs_pos(p) + 2 > i {
        } else {
            assert(spec_cm_pos(p) == spec_cm_pos(b));
            if spec_cm_pos(p) + 1 > i {
            } else {
                assert(spec_ext_pos(p) == spec_ext_pos(b));
                if spec_ext_pos(p) + 2 > i {
                } else {
                    assert(spec_ext_end(p) == spec_ext_end(b));
                    assert(spec_ext_end(p) > i);
                }
            }
        }
    }
}

} // verus!
