use nali_rs::error::NaliError;
use nali_rs::qqwry::{clean, location_from_text, QQwryDatabase};
use nali_rs::types::{DatabaseType, IpAddress};

/// A file with two index entries (at 8 and 15) and two records.
fn sample() -> Vec<u8> {
    let mut data = Vec::new();
    data.extend_from_slice(&8u32.to_le_bytes());
    data.extend_from_slice(&15u32.to_le_bytes());
    // entry at 8: key 0x0100007F, record at 22
    data.extend_from_slice(&0x0100_007Fu32.to_le_bytes());
    data.extend_from_slice(&[22, 0, 0]);
    // entry at 15: key 0xFFFFFFFF, record at 36
    data.extend_from_slice(&0xFFFF_FFFFu32.to_le_bytes());
    data.extend_from_slice(&[36, 0, 0]);
    assert_eq!(data.len(), 22);
    // record at 22: end address, then GBK text
    data.extend_from_slice(&[0, 0, 0, 0]);
    data.extend_from_slice(&[0xB1, 0xBE, 0xB5, 0xD8, 0]);
    data.extend_from_slice(&[0xBB, 0xD8, 0xBB, 0xB7, 0]);
    assert_eq!(data.len(), 36);
    // record at 36
    data.extend_from_slice(&[0, 0, 0, 0]);
    data.extend_from_slice(b"Last CZ88.NET\0 CZ88.NET\0");
    data
}

#[test]
fn loopback_scenario() {
    let mut db = QQwryDatabase::new();
    assert!(!db.is_loaded());
    db.load_from_file("db", sample()).unwrap();
    assert!(db.is_loaded());
    let geo = db.lookup_ip(IpAddress::V4(0x7F00_0001)).unwrap().unwrap();
    assert_eq!(geo.ip, IpAddress::V4(0x7F00_0001));
    assert_eq!(geo.country.as_deref(), Some("本地"));
    assert_eq!(geo.isp.as_deref(), Some("回环"));
    assert_eq!(geo.region, None);
    assert_eq!(geo.city, None);
    assert_eq!(geo.country_code.as_deref(), Some("CN"));
    assert_eq!(geo.timezone.as_deref(), Some("Asia/Shanghai"));
    assert_eq!(geo.latitude, None);
    assert_eq!(geo.longitude, None);
}

#[test]
fn trademark_token_is_stripped() {
    let mut db = QQwryDatabase::new();
    db.load_from_file("db", sample()).unwrap();
    let geo = db.lookup_ipv4(0xFFFF_FFFF).unwrap().unwrap();
    assert_eq!(geo.country.as_deref(), Some("Last"));
    assert_eq!(geo.isp, None);
    assert_eq!(clean("  CZ88.NET x CZ88.NET "), "x");
    assert_eq!(clean("CZ88.NET"), "");
}

#[test]
fn search_index_gives_record_offsets() {
    let mut db = QQwryDatabase::new();
    db.load_from_file("db", sample()).unwrap();
    assert_eq!(db.search_index(0).unwrap(), 22);
    assert_eq!(db.search_index(0xFFFF_FFFE).unwrap(), 22);
    assert_eq!(db.search_index(0xFFFF_FFFF).unwrap(), 36);
    assert_eq!(db.record_count(), 2);
}

#[test]
fn empty_handle_answers_nothing() {
    let db = QQwryDatabase::new();
    assert!(db.lookup_ipv4(1).unwrap().is_none());
    assert!(matches!(db.search_index(1), Err(NaliError::ParseError(_))));
    assert_eq!(db.record_count(), 0);
    assert_eq!(db.name(), "qqwry");
    assert_eq!(db.database_type(), DatabaseType::QQwry);
    assert!(db.supports_ipv4());
    assert!(!db.supports_ipv6());
    assert!(!db.supports_cdn());
    assert!(db.lookup_cdn("example.com").unwrap().is_none());
}

#[test]
fn ipv6_is_never_found() {
    let mut db = QQwryDatabase::new();
    db.load_from_file("db", sample()).unwrap();
    assert!(db.lookup_ip(IpAddress::V6(1)).unwrap().is_none());
}

#[test]
fn bad_headers_are_rejected() {
    let mut db = QQwryDatabase::new();
    assert!(matches!(db.load_from_file("db", vec![0; 7]), Err(NaliError::ParseError(_))));
    // start not before end
    let mut data = sample();
    data[0] = 15;
    assert!(matches!(db.load_from_file("db", data), Err(NaliError::ParseError(_))));
    // truncated below the last index entry
    let mut data = sample();
    data.truncate(21);
    assert!(matches!(db.load_from_file("db", data), Err(NaliError::ParseError(_))));
    assert!(!db.is_loaded());
    // exactly the last entry fits
    let mut data = sample();
    data.truncate(22);
    assert!(db.load_from_file("db", data).is_ok());
}

#[test]
fn truncated_record_fails_the_query_only() {
    let mut data = sample();
    data.truncate(30);
    let mut db = QQwryDatabase::new();
    db.load_from_file("db", data).unwrap();
    assert!(matches!(db.lookup_ipv4(0x7F00_0001), Err(NaliError::ParseError(_))));
    assert!(db.is_loaded());
}

#[test]
fn ragged_index_region_is_corrupted() {
    let mut data = sample();
    data[4] = 16;
    data.push(0);
    let mut db = QQwryDatabase::new();
    db.load_from_file("db", data).unwrap();
    assert!(matches!(db.lookup_ipv4(5), Err(NaliError::DatabaseCorrupted(_))));
}

#[test]
fn answers_are_made_of_cleaned_text() {
    let geo = location_from_text(7, " CZ88.NET 北京 ", "CZ88.NET");
    assert_eq!(geo.ip, IpAddress::V4(7));
    assert_eq!(geo.country.as_deref(), Some("北京"));
    assert_eq!(geo.isp, None);
    assert_eq!(geo.country_code.as_deref(), Some("CN"));
    assert_eq!(geo.timezone.as_deref(), Some("Asia/Shanghai"));
}
