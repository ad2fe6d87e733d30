//! The ClientHello SNI parser, and its behavior on every truncation.
use formation::sni::{extract_sni, SniError};

/// A minimal, well-formed ClientHello whose only extension is an SNI entry
/// for `hostname`.  The extensions block ends exactly at the end of the
/// message.
fn client_hello_with_sni(hostname: &str) -> Vec<u8> {
    let name = hostname.as_bytes();
    let name_len = name.len() as u16;
    // server_name entry: type 0 + 2-byte length + name
    let entry_len = 3 + name.len();
    // server_name_list length
    let list_len = entry_len as u16;
    // extension: type 0x0000, length = 2 (list len) + list
    let ext_data_len = 2 + entry_len;
    let extensions_len = (4 + ext_data_len) as u16;

    let mut hello = Vec::new();
    hello.push(0x16); // handshake record
    hello.extend_from_slice(&[0x03, 0x01]); // record version
    hello.extend_from_slice(&[0x00, 0x00]); // record length (placeholder)
    hello.push(0x01); // ClientHello
    hello.extend_from_slice(&[0x00, 0x00, 0x00]); // handshake length (placeholder)
    hello.extend_from_slice(&[0x03, 0x03]); // client version
    hello.extend_from_slice(&[0xAA; 32]); // random
    hello.push(0x00); // session id length
    hello.extend_from_slice(&[0x00, 0x02]); // cipher suites length
    hello.extend_from_slice(&[0x13, 0x01]); // one cipher suite
    hello.push(0x01); // compression methods length
    hello.push(0x00); // null compression
    hello.extend_from_slice(&extensions_len.to_be_bytes()); // extensions length
    hello.extend_from_slice(&[0x00, 0x00]); // SNI extension type
    hello.extend_from_slice(&(ext_data_len as u16).to_be_bytes()); // extension length
    hello.extend_from_slice(&list_len.to_be_bytes()); // server_name_list length
    hello.push(0x00); // name_type hostname
    hello.extend_from_slice(&name_len.to_be_bytes()); // name length
    hello.extend_from_slice(name);
    hello
}

#[test]
fn extracts_the_hostname() {
    let hello = client_hello_with_sni("example.com");
    assert_eq!(extract_sni(&hello).unwrap(), "example.com");
}

#[test]
fn truncated_before_extensions_length_reports_short_extensions() {
    let hello = client_hello_with_sni("example.com");
    // the extensions-length field starts right after the compression
    // methods; cutting one byte before it leaves the parser at that field
    let ext_len_pos = 5 + 4 + 2 + 32 + 1 + 2 + 2 + 1 + 1;
    let truncated = &hello[..ext_len_pos - 1];
    match extract_sni(truncated) {
        Err(e) => assert_eq!(e.message(), "Message too short for extensions"),
        Ok(h) => panic!("parsed a hostname from a truncated hello: {h}"),
    }
}

#[test]
fn every_truncated_prefix_is_a_typed_error() {
    let hello = client_hello_with_sni("example.com");
    for i in 0..hello.len() {
        let prefix = &hello[..i];
        assert!(
            extract_sni(prefix).is_err(),
            "prefix of {i} bytes did not error"
        );
    }
}

#[test]
fn early_validation_errors() {
    assert_eq!(extract_sni(&[]).unwrap_err(), SniError::TooShort);
    assert_eq!(
        extract_sni(&[0x17, 0, 0, 0, 0, 0]).unwrap_err(),
        SniError::NotHandshake
    );
    assert_eq!(
        extract_sni(&[0x16, 3, 1, 0, 0, 0x02]).unwrap_err(),
        SniError::NotClientHello
    );
}

#[test]
fn hello_without_sni_reports_no_sni() {
    let mut hello = client_hello_with_sni("x");
    // flip the SNI extension type to an unknown one
    let ext_type_pos = 5 + 4 + 2 + 32 + 1 + 2 + 2 + 1 + 1 + 2;
    hello[ext_type_pos] = 0xff;
    assert_eq!(extract_sni(&hello).unwrap_err(), SniError::NoSni);
}
