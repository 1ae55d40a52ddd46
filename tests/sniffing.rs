use sni_router::record::{record_body_length, FramingError, MAX_RECORD_LENGTH};
use sni_router::sni::{select_host_name, sniff, Extension, RoutingError, ServerName, SniffError};

fn be16(n: usize) -> [u8; 2] {
    [(n >> 8) as u8, n as u8]
}

fn sni_extension(entries: &[(u8, &[u8])]) -> Vec<u8> {
    let mut list = Vec::new();
    for (name_type, name) in entries {
        list.push(*name_type);
        list.extend_from_slice(&be16(name.len()));
        list.extend_from_slice(name);
    }
    let mut data = be16(list.len()).to_vec();
    data.extend_from_slice(&list);
    let mut ext = vec![0x00, 0x00];
    ext.extend_from_slice(&be16(data.len()));
    ext.extend_from_slice(&data);
    ext
}

fn other_extension() -> Vec<u8> {
    // ec_point_formats: one format, uncompressed
    vec![0x00, 0x0b, 0x00, 0x02, 0x01, 0x00]
}

fn client_hello(extensions: Option<Vec<u8>>) -> Vec<u8> {
    let mut hello = vec![0x03, 0x03];
    hello.extend_from_slice(&[7u8; 32]);
    hello.push(0);
    hello.extend_from_slice(&[0x00, 0x02, 0x00, 0x2f]);
    hello.extend_from_slice(&[0x01, 0x00]);
    if let Some(block) = extensions {
        hello.extend_from_slice(&be16(block.len()));
        hello.extend_from_slice(&block);
    }
    let mut msg = vec![0x01, 0x00];
    msg.extend_from_slice(&be16(hello.len()));
    msg.extend_from_slice(&hello);
    record(0x16, &msg)
}

fn record(content_type: u8, body: &[u8]) -> Vec<u8> {
    let mut rec = vec![content_type, 0x03, 0x01];
    rec.extend_from_slice(&be16(body.len()));
    rec.extend_from_slice(body);
    rec
}

fn hello_with_names(entries: &[(u8, &[u8])]) -> Vec<u8> {
    client_hello(Some(sni_extension(entries)))
}

#[test]
fn sniff_returns_host_name_and_captured_bytes() {
    let rec = hello_with_names(&[(0, b"backend.example")]);
    let route = sniff(rec.clone()).unwrap();
    assert_eq!(route.host, "backend.example");
    assert_eq!(route.captured, rec);
}

#[test]
fn sniff_first_host_name_wins() {
    let rec = hello_with_names(&[(0, b"a.example"), (0, b"b.example")]);
    assert_eq!(sniff(rec).unwrap().host, "a.example");
}

#[test]
fn sniff_skips_entries_of_other_types() {
    let rec = hello_with_names(&[(1, b"not-a-host"), (0, b"c.example")]);
    assert_eq!(sniff(rec).unwrap().host, "c.example");
}

#[test]
fn sniff_finds_name_after_other_extensions() {
    let mut block = other_extension();
    block.extend_from_slice(&sni_extension(&[(0, b"d.example")]));
    let rec = client_hello(Some(block));
    assert_eq!(sniff(rec).unwrap().host, "d.example");
}

#[test]
fn sniff_without_extensions_is_routing_error() {
    let rec = client_hello(None);
    assert_eq!(
        sniff(rec).err(),
        Some(SniffError::Routing(RoutingError::NoClientHelloExtensions))
    );
}

#[test]
fn sniff_without_host_name_is_routing_error() {
    let rec = client_hello(Some(other_extension()));
    assert_eq!(sniff(rec).err(), Some(SniffError::Routing(RoutingError::NoHostName)));
    let rec = hello_with_names(&[(1, b"x")]);
    assert_eq!(sniff(rec).err(), Some(SniffError::Routing(RoutingError::NoHostName)));
}

#[test]
fn sniff_empty_name_is_routing_error() {
    let rec = hello_with_names(&[(0, b"")]);
    assert_eq!(sniff(rec).err(), Some(SniffError::Routing(RoutingError::EmptyName)));
}

#[test]
fn sniff_non_utf8_name_is_routing_error() {
    let rec = hello_with_names(&[(0, &[0xff, 0xfe, 0x41])]);
    assert_eq!(sniff(rec).err(), Some(SniffError::Routing(RoutingError::NotUtf8)));
}

#[test]
fn sniff_non_handshake_record_is_routing_error() {
    // an alert record: warning, close_notify
    let rec = record(0x15, &[0x01, 0x00]);
    assert_eq!(
        sniff(rec).err(),
        Some(SniffError::Routing(RoutingError::NoClientHelloExtensions))
    );
}

#[test]
fn sniff_malformed_record_is_framing_error() {
    let rec = record(0x16, &[0x01, 0x00, 0x00, 0x40, 0x03]);
    assert_eq!(sniff(rec).err(), Some(SniffError::Framing(FramingError::Malformed)));
}

#[test]
fn sniff_oversized_record_is_framing_error() {
    let header = vec![0x16, 0x03, 0x01, 0x40, 0x01];
    assert_eq!(record_body_length(&header), Err(FramingError::TooLong));
    assert_eq!(sniff(header).err(), Some(SniffError::Framing(FramingError::TooLong)));
    let header = vec![0x16, 0x03, 0x01, 0xff, 0xff];
    assert_eq!(record_body_length(&header), Err(FramingError::TooLong));
}

#[test]
fn body_length_is_big_endian() {
    assert_eq!(record_body_length(&[0x16, 0x03, 0x01, 0x01, 0x02]), Ok(258));
    assert_eq!(record_body_length(&[0x16, 0x03, 0x01, 0x00, 0x00]), Ok(0));
    assert_eq!(record_body_length(&[0x16, 0x03, 0x01, 0x40, 0x00]), Ok(MAX_RECORD_LENGTH));
}

#[test]
fn short_header_and_length_mismatch_are_framing_errors() {
    assert_eq!(record_body_length(&[0x16, 0x03, 0x01, 0x00]), Err(FramingError::ShortHeader));
    assert_eq!(sniff(vec![0x16]).err(), Some(SniffError::Framing(FramingError::ShortHeader)));
    let mut rec = hello_with_names(&[(0, b"a.example")]);
    rec.pop();
    assert_eq!(sniff(rec).err(), Some(SniffError::Framing(FramingError::LengthMismatch)));
}

#[test]
fn replayed_capture_is_identical() {
    let rec = hello_with_names(&[(0, b"echo.example")]);
    let route = sniff(rec.clone()).unwrap();
    let mut backend: Vec<u8> = Vec::new();
    backend.extend_from_slice(&route.captured);
    let echoed = backend.clone();
    assert_eq!(echoed, rec);
}

#[test]
fn select_host_name_scans_in_order() {
    let exts = vec![
        Extension::Other,
        Extension::ServerNames(vec![ServerName { name_type: 2, name: b"skip".to_vec() }]),
        Extension::ServerNames(vec![
            ServerName { name_type: 0, name: b"first".to_vec() },
            ServerName { name_type: 0, name: b"second".to_vec() },
        ]),
        Extension::ServerNames(vec![ServerName { name_type: 0, name: b"third".to_vec() }]),
    ];
    assert_eq!(select_host_name(&exts), Ok(b"first".to_vec()));
    assert_eq!(select_host_name(&vec![Extension::Other]), Err(RoutingError::NoHostName));
    let empty = vec![Extension::ServerNames(vec![ServerName { name_type: 0, name: Vec::new() }])];
    assert_eq!(select_host_name(&empty), Err(RoutingError::EmptyName));
}
