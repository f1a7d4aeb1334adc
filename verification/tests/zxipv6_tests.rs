use nali_rs::error::NaliError;
use nali_rs::types::{DatabaseType, IpAddress};
use nali_rs::zxipv6::{check_file, location_from_text, ZXIPv6Database};

/// A file with two records; the index holds three entries of eleven bytes,
/// as the search treats the declared end as an entry of its own.
fn sample() -> Vec<u8> {
    let mut data = Vec::new();
    data.extend_from_slice(b"IPDB");
    data.extend_from_slice(&[0, 0, 3, 8]);
    data.extend_from_slice(&2u64.to_le_bytes());
    data.extend_from_slice(&24u64.to_le_bytes());
    for (key, offset) in [(0u64, 60u8), (0x2001_0db8_0000_0000u64, 70), (u64::MAX, 60)] {
        data.extend_from_slice(&key.to_le_bytes());
        data.extend_from_slice(&[offset, 0, 0]);
    }
    assert_eq!(data.len(), 57);
    data.resize(60, 0);
    data.extend_from_slice("默认\0\0".as_bytes());
    data.resize(70, 0);
    data.extend_from_slice("中国 CZ88.NET\0教育网\0".as_bytes());
    data
}

#[test]
fn check_file_accepts_a_whole_file() {
    assert!(check_file(&sample()));
}

#[test]
fn check_file_rejects() {
    assert!(!check_file(b"IPD"));
    assert!(!check_file(b"IPDX0000000000000000000000000000"));
    assert!(!check_file(&sample()[..23]));
    // no records: start == end
    let mut data = sample();
    data[8] = 0;
    assert!(!check_file(&data));
    // index end beyond the file
    let mut data = sample();
    data[8] = 200;
    assert!(!check_file(&data));
    // a count whose product leaves 64 bits
    let mut data = sample();
    for b in &mut data[8..16] {
        *b = 0xff;
    }
    assert!(!check_file(&data));
}

#[test]
fn lookup_by_prefix() {
    let mut db = ZXIPv6Database::new();
    db.load_from_file("db", sample()).unwrap();
    let ip: u128 = 0x2001_0db8_0000_0000_0000_0000_0000_0001;
    let geo = db.lookup_ip(IpAddress::V6(ip)).unwrap().unwrap();
    assert_eq!(geo.ip, IpAddress::V6(0x2001_0db8_0000_0000u128 << 64));
    assert_eq!(geo.country.as_deref(), Some("中国"));
    assert_eq!(geo.isp.as_deref(), Some("教育网"));
    assert_eq!(geo.country_code, None);
    assert_eq!(geo.timezone, None);
    assert_eq!(geo.region, None);
    let low = db.lookup_ipv6(5).unwrap().unwrap();
    assert_eq!(low.country.as_deref(), Some("默认"));
    assert_eq!(low.isp, None);
    assert_eq!(db.search_index(0x2001_0db8_0000_0001).unwrap(), 70);
}

#[test]
fn handle_properties() {
    let mut db = ZXIPv6Database::new();
    assert_eq!(db.name(), "zxipv6wry");
    assert_eq!(db.database_type(), DatabaseType::ZXIPv6Wry);
    assert!(!db.supports_ipv4());
    assert!(db.supports_ipv6());
    assert!(!db.supports_cdn());
    assert!(!db.is_loaded());
    assert!(db.lookup_ipv6(1).unwrap().is_none());
    assert!(matches!(db.search_index(1), Err(NaliError::ParseError(_))));
    db.load_from_file("db", sample()).unwrap();
    assert!(db.is_loaded());
    assert!(db.lookup_ip(IpAddress::V4(1)).unwrap().is_none());
    assert!(db.lookup_cdn("example.com").unwrap().is_none());
}

#[test]
fn truncated_file_is_rejected() {
    let mut db = ZXIPv6Database::new();
    let mut data = sample();
    data.truncate(45);
    assert!(matches!(db.load_from_file("db", data), Err(NaliError::ParseError(_))));
    assert!(!db.is_loaded());
}

#[test]
fn stride_from_header_must_divide_the_region() {
    let mut data = sample();
    data[6] = 4;
    let mut db = ZXIPv6Database::new();
    db.load_from_file("db", data).unwrap();
    assert!(matches!(db.lookup_ipv6(1), Err(NaliError::DatabaseCorrupted(_))));
}

#[test]
fn ipv6_answers_are_made_of_cleaned_text() {
    let geo = location_from_text(0x2001_0db8_0000_0001, "", " 电信 CZ88.NET");
    assert_eq!(geo.ip, IpAddress::V6(0x2001_0db8_0000_0001u128 << 64));
    assert_eq!(geo.country, None);
    assert_eq!(geo.isp.as_deref(), Some("电信"));
    assert_eq!(geo.country_code, None);
    assert_eq!(geo.timezone, None);
    let top = location_from_text(u64::MAX, "a", "b");
    assert_eq!(top.ip, IpAddress::V6((u64::MAX as u128) << 64));
}
