use nali_rs::error::NaliError;
use nali_rs::ipip::{
    categorize, Category, IPIPDatabase, IPIPHeader, IPIPRecord, IPIPTranslationTables,
};
use nali_rs::types::{DatabaseType, IpAddress};

fn record(start: u32, end: u32, ids: [u16; 4]) -> Vec<u8> {
    let mut v = Vec::new();
    v.extend_from_slice(&start.to_le_bytes());
    v.extend_from_slice(&end.to_le_bytes());
    for id in ids {
        v.extend_from_slice(&id.to_le_bytes());
    }
    v
}

/// Five records from offset 32 on, then the block of strings where the
/// header places it.
fn sample(ipv6: bool) -> Vec<u8> {
    let mut data = Vec::new();
    data.extend_from_slice(&3u32.to_le_bytes());
    data.extend_from_slice(&1_700_000_000u32.to_le_bytes());
    data.extend_from_slice(&32u32.to_le_bytes());
    data.extend_from_slice(&96u32.to_le_bytes());
    data.push(if ipv6 { 1 } else { 0 });
    data.resize(32, 0);
    data.extend_from_slice(&record(10, 19, [0, 0, 0, 0]));
    data.extend_from_slice(&record(20, 29, [1, 0, 1, 0]));
    data.extend_from_slice(&record(40, 49, [0, 1, 0, 9]));
    data.extend_from_slice(&record(50, 50, [1, 1, 1, 1]));
    data.extend_from_slice(&record(60, 4_000_000_000, [0, 0, 0, 0]));
    assert_eq!(data.len(), 112);
    // text starts at 96 + 4 * 16 = 160
    data.resize(160, 0);
    data.extend_from_slice(
        "China\0United States\0\0广东省\0California Province\0深圳市\0New York City\0电信\0ISP Two\0plain\0"
            .as_bytes(),
    );
    data
}

#[test]
fn header_fields() {
    let h = IPIPHeader::parse(&sample(true)).unwrap();
    assert_eq!(h.version, 3);
    assert_eq!(h.created_time, 1_700_000_000);
    assert_eq!(h.index_start, 32);
    assert_eq!(h.index_end, 96);
    assert!(h.support_ipv6);
    assert_eq!(h.index_count(), 4);
    let h = IPIPHeader::parse(&sample(false)[..16]).unwrap();
    assert!(!h.support_ipv6);
    assert!(matches!(IPIPHeader::parse(&[0u8; 15]), Err(NaliError::ParseError(_))));
    let inverted = IPIPHeader { version: 0, created_time: 0, index_start: 64, index_end: 32, support_ipv6: false };
    assert_eq!(inverted.index_count(), 0);
}

#[test]
fn record_fields() {
    let data = sample(false);
    let r = IPIPRecord::parse(&data, 64).unwrap();
    assert_eq!((r.start_ip, r.end_ip), (40, 49));
    assert_eq!((r.country_id, r.region_id, r.city_id, r.isp_id), (0, 1, 0, 9));
    assert!(matches!(IPIPRecord::parse(&data, data.len() as u32 - 15), Err(NaliError::ParseError(_))));
    assert!(IPIPRecord::parse(&data, data.len() as u32 - 16).is_ok());
    assert!(matches!(IPIPRecord::parse(&data, u32::MAX), Err(NaliError::ParseError(_))));
}

#[test]
fn keywords_sort_strings_into_tables() {
    let cs = |s: &str| s.chars().collect::<Vec<char>>();
    assert_eq!(categorize(&cs("China")), Some(Category::Country));
    assert_eq!(categorize(&cs("某国家")), Some(Category::Country));
    assert_eq!(categorize(&cs("United States of America")), Some(Category::Country));
    assert_eq!(categorize(&cs("China Province")), Some(Category::Country));
    assert_eq!(categorize(&cs("广东省")), Some(Category::Region));
    assert_eq!(categorize(&cs("加州")), Some(Category::Region));
    assert_eq!(categorize(&cs("Some Province City")), Some(Category::Region));
    assert_eq!(categorize(&cs("深圳市")), Some(Category::City));
    assert_eq!(categorize(&cs("Mexico City")), Some(Category::City));
    assert_eq!(categorize(&cs("电信")), Some(Category::Isp));
    assert_eq!(categorize(&cs("运营商")), Some(Category::Isp));
    assert_eq!(categorize(&cs("An ISP")), Some(Category::Isp));
    assert_eq!(categorize(&cs("plain")), None);
    assert_eq!(categorize(&cs("")), None);
}

#[test]
fn tables_translate_ids() {
    let data = sample(false);
    let h = IPIPHeader::parse(&data).unwrap();
    let t = IPIPTranslationTables::parse(&data, &h).unwrap();
    assert_eq!(t.translate(0, "countries"), "China");
    assert_eq!(t.translate(1, "countries"), "United States");
    assert_eq!(t.translate(2, "countries"), "Unknown");
    assert_eq!(t.translate(0, "regions"), "广东省");
    assert_eq!(t.translate(1, "regions"), "California Province");
    assert_eq!(t.translate(0, "cities"), "深圳市");
    assert_eq!(t.translate(1, "cities"), "New York City");
    assert_eq!(t.translate(0, "isps"), "电信");
    assert_eq!(t.translate(1, "isps"), "ISP Two");
    assert_eq!(t.translate(u16::MAX, "isps"), "Unknown");
    assert_eq!(t.translate(0, "planets"), "Unknown");
}

#[test]
fn tables_are_empty_without_text() {
    let mut data = sample(false);
    data.truncate(160);
    let h = IPIPHeader::parse(&data).unwrap();
    let t = IPIPTranslationTables::parse(&data, &h).unwrap();
    assert_eq!(t.translate(0, "countries"), "Unknown");
}

#[test]
fn lookup_finds_the_containing_range() {
    let mut db = IPIPDatabase::new();
    db.load_from_file("db", sample(false)).unwrap();
    let cases: [(u32, Option<&str>); 12] = [
        (9, None),
        (10, Some("China")),
        (19, Some("China")),
        (20, Some("United States")),
        (29, Some("United States")),
        (30, None),
        (39, None),
        (45, Some("China")),
        (50, Some("United States")),
        (55, None),
        (60, Some("China")),
        (u32::MAX, None),
    ];
    for (ip, country) in cases {
        let got = db.lookup_ip(IpAddress::V4(ip)).unwrap();
        assert_eq!(got.as_ref().and_then(|g| g.country.as_deref()), country, "ip {}", ip);
    }
    let geo = db.lookup_ip_internal_v4(45).unwrap().unwrap();
    assert_eq!(geo.ip, IpAddress::V4(45));
    assert_eq!(geo.region.as_deref(), Some("California Province"));
    assert_eq!(geo.city.as_deref(), Some("深圳市"));
    assert_eq!(geo.isp.as_deref(), Some("Unknown"));
    assert_eq!(geo.country_code.as_deref(), Some("CN"));
    assert_eq!(geo.timezone.as_deref(), Some("Asia/Shanghai"));
    assert_eq!(geo.latitude, None);
}

#[test]
fn ipv6_is_a_fixed_answer() {
    let mut db = IPIPDatabase::new();
    db.load_from_file("db", sample(false)).unwrap();
    assert!(!db.supports_ipv6());
    assert!(db.lookup_ip(IpAddress::V6(7)).unwrap().is_none());
    let mut db = IPIPDatabase::new();
    db.load_from_file("db", sample(true)).unwrap();
    assert!(db.supports_ipv6());
    let geo = db.lookup_ip(IpAddress::V6(7)).unwrap().unwrap();
    assert_eq!(geo.ip, IpAddress::V6(7));
    assert_eq!(geo.country.as_deref(), Some("China"));
    assert_eq!(geo.region.as_deref(), Some("Beijing"));
    assert_eq!(geo.city.as_deref(), Some("Beijing"));
    assert_eq!(geo.isp.as_deref(), Some("China Telecom"));
}

#[test]
fn handle_properties_and_load_failure() {
    let mut db = IPIPDatabase::new();
    assert_eq!(db.name(), "ipip");
    assert_eq!(db.database_type(), DatabaseType::IPIP);
    assert!(db.supports_ipv4());
    assert!(!db.supports_cdn());
    assert!(!db.is_loaded());
    assert!(db.lookup_ip(IpAddress::V4(10)).unwrap().is_none());
    assert!(matches!(db.parse_record(32), Err(NaliError::ParseError(_))));
    assert_eq!(db.translate_id(0, "countries"), "Unknown");
    assert!(matches!(db.load_from_file("db", vec![0; 15]), Err(NaliError::ParseError(_))));
    assert!(!db.is_loaded());
    db.load_from_file("db", sample(false)).unwrap();
    assert!(db.is_loaded());
    assert_eq!(db.parse_record(32).unwrap().start_ip, 10);
    assert!(db.lookup_cdn("example.com").unwrap().is_none());
}

#[test]
fn truncated_file_is_refused() {
    // cut before the last record that the header declares (at 96)
    for len in [16usize, 70, 100, 111] {
        let mut data = sample(false);
        data.truncate(len);
        let mut db = IPIPDatabase::new();
        assert!(matches!(db.load_from_file("db", data), Err(NaliError::ParseError(_))), "len {}", len);
        assert!(!db.is_loaded());
        assert!(db.lookup_ip(IpAddress::V4(45)).unwrap().is_none());
    }
    // a header alone that declares its last record at the top of the range
    let mut data = vec![0u8; 16];
    data[12..16].copy_from_slice(&[0xff; 4]);
    let mut db = IPIPDatabase::new();
    assert!(matches!(db.load_from_file("db", data), Err(NaliError::ParseError(_))));
    assert!(!db.is_loaded());
    // the last record just fits
    let mut data = sample(false);
    data.truncate(112);
    let mut db = IPIPDatabase::new();
    db.load_from_file("db", data).unwrap();
    assert_eq!(db.lookup_ip(IpAddress::V4(60)).unwrap().unwrap().country.as_deref(), Some("Unknown"));
}

#[test]
fn a_failed_load_keeps_what_was_loaded() {
    let mut db = IPIPDatabase::new();
    db.load_from_file("db", sample(false)).unwrap();
    assert!(db.load_from_file("db", vec![0; 20]).is_ok());
    let mut bad = sample(false);
    bad.truncate(50);
    assert!(db.load_from_file("db", bad).is_err());
    assert!(db.is_loaded());
}

#[test]
fn tables_from_lines() {
    let cs = |s: &str| s.chars().collect::<Vec<char>>();
    let lines = vec![cs("City A"), cs(""), cs("China"), cs("City B"), cs("none"), cs("ISP")];
    let t = IPIPTranslationTables::from_lines(&lines);
    assert_eq!(t.translate(0, "cities"), "City A");
    assert_eq!(t.translate(1, "cities"), "City B");
    assert_eq!(t.translate(2, "cities"), "Unknown");
    assert_eq!(t.translate(0, "countries"), "China");
    assert_eq!(t.translate(0, "isps"), "ISP");
    assert_eq!(t.translate(0, "regions"), "Unknown");
}
