use before_colony::endpoint::{endpoint_from, DiscoverError, HexError};

const HASH: &str = "00112233445566778899aabbccddeeff00112233445566778899AABBCCDDEEFF";

#[test]
fn a_dev_server_advertises_its_endpoint() {
    let info = endpoint_from("http://127.0.0.1:8080/", Some(4433), None, Some(HASH)).unwrap();
    assert_eq!(info.url, "https://127.0.0.1:4433/bc");
    let h = info.cert_hash.unwrap();
    assert_eq!(h[0], 0x00);
    assert_eq!(h[1], 0x11);
    assert_eq!(h[31], 0xff);
    let info = endpoint_from("https://example.org:80", Some(1), Some("/x"), Some(HASH)).unwrap();
    assert_eq!(info.url, "https://example.org:1/x");
    // No port in the base: the local host.
    let info = endpoint_from("localhost", Some(9), None, Some(HASH)).unwrap();
    assert_eq!(info.url, "https://127.0.0.1:9/bc");
}

#[test]
fn what_is_missing_or_malformed_is_reported() {
    assert_eq!(endpoint_from("http://h:1", None, None, Some(HASH)).unwrap_err(), DiscoverError::MissingPort);
    assert_eq!(endpoint_from("http://h:1", Some(2), None, None).unwrap_err(), DiscoverError::MissingHash);
    assert_eq!(
        endpoint_from("http://h:1", Some(2), None, Some("abc")).unwrap_err(),
        DiscoverError::BadHash(HexError::OddLength)
    );
    assert_eq!(
        endpoint_from("http://h:1", Some(2), None, Some("abcd")).unwrap_err(),
        DiscoverError::BadHash(HexError::InvalidStringLength)
    );
    let mut bad = HASH.to_string();
    bad.replace_range(5..6, "x");
    assert_eq!(
        endpoint_from("http://h:1", Some(2), None, Some(&bad)).unwrap_err(),
        DiscoverError::BadHash(HexError::InvalidHexCharacter { c: 'x', index: 5 })
    );
}
