use nali_rs::config::AppConfig;
use nali_rs::database::{DatabaseFactory, DatabaseHandle};
use nali_rs::error::NaliError;
use nali_rs::geoip2::{location_from_record, pick_name, CityRecord};
use nali_rs::manager::{CdnLookup, CdnStep, DatabaseManager, IpLookup, IpStep, LoadPlan};
use nali_rs::types::{DatabaseType, GeoLocation, IpAddress};

fn qqwry_file() -> Vec<u8> {
    let mut data = Vec::new();
    data.extend_from_slice(&8u32.to_le_bytes());
    data.extend_from_slice(&15u32.to_le_bytes());
    data.extend_from_slice(&0u32.to_le_bytes());
    data.extend_from_slice(&[22, 0, 0]);
    data.extend_from_slice(&0xFFFF_FFFFu32.to_le_bytes());
    data.extend_from_slice(&[22, 0, 0]);
    data.extend_from_slice(&[0, 0, 0, 0]);
    data.extend_from_slice(b"Here\0Net\0");
    data
}

#[test]
fn test_database_manager_creation() {
    let config = AppConfig::default();
    let manager = DatabaseManager::new(config);
    let (db_count, cache_count) = manager.cache_stats();
    assert_eq!(db_count, 0);
    assert_eq!(cache_count, 0);
}

#[test]
fn test_get_database_type() {
    let config = AppConfig::default();
    let manager = DatabaseManager::new(config);

    assert!(matches!(manager.get_database_type("qqwry"), Ok(DatabaseType::QQwry)));
    assert!(matches!(manager.get_database_type("cdn"), Ok(DatabaseType::CDN)));
    assert!(manager.get_database_type("unknown").is_err());
}

#[test]
fn every_database_name() {
    let m = DatabaseManager::new(AppConfig::default());
    let cases = [
        ("qqwry", DatabaseType::QQwry),
        ("chunzhen", DatabaseType::QQwry),
        ("zxipv6wry", DatabaseType::ZXIPv6Wry),
        ("zxipv6", DatabaseType::ZXIPv6Wry),
        ("geoip", DatabaseType::GeoIP2),
        ("geoip2", DatabaseType::GeoIP2),
        ("geolite", DatabaseType::GeoIP2),
        ("ipip", DatabaseType::IPIP),
        ("ip2region", DatabaseType::IP2Region),
        ("dbip", DatabaseType::DBIP),
        ("ip2location", DatabaseType::IP2Location),
        ("cdn", DatabaseType::CDN),
    ];
    for (name, t) in cases {
        assert_eq!(m.get_database_type(name).unwrap(), t);
    }
    assert!(matches!(m.get_database_type("QQWRY"), Err(NaliError::DatabaseNotFound(_))));
}

#[test]
fn query_asks_for_loading_then_answers_and_caches() {
    let mut m = DatabaseManager::new(AppConfig::default());
    let ip = IpAddress::V4(0x0102_0304);
    match m.query_ip(ip) {
        IpStep::Load { name, db_type } => {
            assert_eq!(name, "qqwry");
            assert_eq!(db_type, DatabaseType::QQwry);
        },
        other => panic!("unexpected: {:?}", other),
    }
    assert!(matches!(m.get_or_load_database("qqwry", "/data/qqwry.dat", true), LoadPlan::ReadFile));
    m.install("qqwry", DatabaseType::QQwry, qqwry_file(), "/data/qqwry.dat").unwrap();
    assert_eq!(m.cache_stats(), (1, 0));
    let first = match m.query_ip(ip) {
        IpStep::Done(Ok(Some(geo))) => geo,
        other => panic!("unexpected: {:?}", other),
    };
    assert_eq!(first.country.as_deref(), Some("Here"));
    assert_eq!(first.isp.as_deref(), Some("Net"));
    assert_eq!(m.cache_stats(), (1, 1));
    let second = match m.query_ip(ip) {
        IpStep::Done(Ok(Some(geo))) => geo,
        other => panic!("unexpected: {:?}", other),
    };
    assert_eq!(second.country, first.country);
    assert_eq!(m.cache_stats(), (1, 1));
    m.clear_cache();
    assert_eq!(m.cache_stats(), (1, 0));
}

#[test]
fn loading_twice_changes_nothing() {
    let mut m = DatabaseManager::new(AppConfig::default());
    m.install("qqwry", DatabaseType::QQwry, qqwry_file(), "p").unwrap();
    assert!(m.is_loaded("qqwry"));
    assert!(matches!(m.get_or_load_database("qqwry", "p", false), LoadPlan::AlreadyLoaded));
    assert!(matches!(m.get_or_load_database("qqwry", "p", true), LoadPlan::AlreadyLoaded));
    // a second load is not even attempted: bad contents are not looked at
    m.install("qqwry", DatabaseType::QQwry, vec![1, 2, 3], "p").unwrap();
    assert_eq!(m.cache_stats(), (1, 0));
    assert!(matches!(m.query_ip(IpAddress::V4(7)), IpStep::Done(Ok(Some(_)))));
}

#[test]
fn missing_files_are_provisioned_or_refused() {
    let mut config = AppConfig::default();
    config.database.databases[0].download_urls.clear();
    let m = DatabaseManager::new(config);
    assert!(matches!(
        m.get_or_load_database("qqwry", "/d/qqwry.dat", false),
        LoadPlan::Fail(NaliError::DatabaseNotFound(_))
    ));
    assert!(matches!(
        m.get_or_load_database("chunzhen", "/d/qqwry.dat", false),
        LoadPlan::Fail(NaliError::DatabaseNotFound(_))
    ));
    assert!(matches!(m.get_or_load_database("zxipv6", "/d/z.db", false), LoadPlan::Download));
    assert!(matches!(m.get_or_load_database("cdn", "/d/cdn.yml", false), LoadPlan::Download));
    match m.get_or_load_database("ipip", "/d/ipip.dat", false) {
        LoadPlan::Fail(NaliError::DatabaseNotFound(msg)) => assert!(msg.contains("/d/ipip.dat")),
        other => panic!("unexpected: {:?}", other),
    }
    assert!(matches!(m.get_or_load_database("ipip", "/d/ipip.dat", true), LoadPlan::ReadFile));
}

#[test]
fn failed_load_leaves_the_registry_alone() {
    let mut m = DatabaseManager::new(AppConfig::default());
    let r = m.install("qqwry", DatabaseType::QQwry, vec![0; 4], "p");
    assert!(matches!(r, Err(NaliError::ParseError(_))));
    assert_eq!(m.cache_stats(), (0, 0));
    assert!(!m.is_loaded("qqwry"));
    let r = m.install("cdn", DatabaseType::CDN, vec![0xff, 0xfe], "p");
    assert!(matches!(r, Err(NaliError::IoError(_))));
    let r = m.install("cdn", DatabaseType::CDN, b"- list".to_vec(), "p");
    assert!(matches!(r, Err(NaliError::YamlError(_))));
    // other names are not poisoned
    m.install("dbip", DatabaseType::DBIP, Vec::new(), "p").unwrap();
    assert!(m.is_loaded("dbip"));
}

#[test]
fn failures_are_not_cached() {
    let mut file = qqwry_file();
    file.truncate(28);
    let mut m = DatabaseManager::new(AppConfig::default());
    m.install("qqwry", DatabaseType::QQwry, file, "p").unwrap();
    assert!(matches!(m.query_ip(IpAddress::V4(9)), IpStep::Done(Err(NaliError::ParseError(_)))));
    assert_eq!(m.cache_stats(), (1, 0));
}

#[test]
fn unknown_configured_name_is_not_found() {
    let mut config = AppConfig::default();
    config.database.ipv6_database = "nothing".to_string();
    let mut m = DatabaseManager::new(config);
    assert!(matches!(
        m.query_ip(IpAddress::V6(1)),
        IpStep::Done(Err(NaliError::DatabaseNotFound(_)))
    ));
}

#[test]
fn outside_reader_is_asked_outside() {
    let mut config = AppConfig::default();
    config.database.ipv4_database = "geoip2".to_string();
    let mut m = DatabaseManager::new(config);
    let ip = IpAddress::V4(0x0808_0808);
    assert!(matches!(m.query_ip(ip), IpStep::Load { db_type: DatabaseType::GeoIP2, .. }));
    m.install("geoip2", DatabaseType::GeoIP2, Vec::new(), "p").unwrap();
    match m.query_ip(ip) {
        IpStep::Outside { name } => assert_eq!(name, "geoip2"),
        other => panic!("unexpected: {:?}", other),
    }
    let answer = Some(GeoLocation {
        ip,
        country: Some("US".to_string()),
        region: None,
        city: None,
        isp: None,
        country_code: None,
        timezone: None,
        latitude: Some(37_751_000),
        longitude: Some(-97_822_000),
    });
    m.record_ip(ip, &answer);
    match m.query_ip(ip) {
        IpStep::Done(Ok(Some(geo))) => assert_eq!(geo.latitude, Some(37_751_000)),
        other => panic!("unexpected: {:?}", other),
    }
}

#[test]
fn cdn_queries() {
    let mut m = DatabaseManager::new(AppConfig::default());
    match m.query_cdn("cdn.akamai.net") {
        CdnStep::Load { name, db_type } => {
            assert_eq!(name, "cdn");
            assert_eq!(db_type, DatabaseType::CDN);
        },
        other => panic!("unexpected: {:?}", other),
    }
    m.install("cdn", DatabaseType::CDN, b"akamai.net:\n  name: Akamai\n".to_vec(), "p").unwrap();
    match m.query_cdn("cdn.akamai.net") {
        CdnStep::Done(Ok(Some(p))) => assert_eq!(p.provider, "Akamai"),
        other => panic!("unexpected: {:?}", other),
    }
    assert!(matches!(m.query_cdn("unrelated.org"), CdnStep::Done(Ok(None))));
    assert_eq!(m.cache_stats(), (1, 2));
    // a cached "not found" is answered from the cache
    assert!(matches!(m.query_cdn("unrelated.org"), CdnStep::Done(Ok(None))));
    assert_eq!(m.cache_stats(), (1, 2));
    // an IP and a domain never share a cache entry
    assert!(matches!(m.query_ip(IpAddress::V4(1)), IpStep::Load { .. }));
}

#[test]
fn factory_makes_empty_handles() {
    let kinds = [
        DatabaseType::QQwry,
        DatabaseType::ZXIPv6Wry,
        DatabaseType::GeoIP2,
        DatabaseType::IPIP,
        DatabaseType::IP2Region,
        DatabaseType::DBIP,
        DatabaseType::IP2Location,
        DatabaseType::CDN,
    ];
    for k in kinds {
        let h = DatabaseFactory::create(k);
        assert_eq!(h.database_type(), k);
        assert!(!h.is_loaded());
        assert_eq!(h.served_outside(), k == DatabaseType::GeoIP2);
        assert_eq!(h.supports_cdn(), k == DatabaseType::CDN);
        assert_eq!(h.supports_ipv4(), k != DatabaseType::CDN && k != DatabaseType::ZXIPv6Wry);
    }
    let h = DatabaseFactory::create(DatabaseType::ZXIPv6Wry);
    assert!(h.supports_ipv6());
    assert!(matches!(h, DatabaseHandle::ZXIPv6Wry(_)));
}

#[test]
fn pass_through_databases_answer_with_fixed_records() {
    let ip = IpAddress::V4(1);
    let mut h = DatabaseFactory::create(DatabaseType::DBIP);
    h.load(Vec::new(), "any").unwrap();
    assert!(h.is_loaded());
    let g = h.lookup_ip(ip).unwrap().unwrap();
    assert_eq!(g.ip, ip);
    assert_eq!(g.country.as_deref(), Some("United States"));
    assert_eq!(g.city.as_deref(), Some("San Jose"));
    assert_eq!((g.latitude, g.longitude), (Some(37_338_200), Some(-121_886_300)));
    let g = DatabaseFactory::create(DatabaseType::IP2Region).lookup_ip(ip).unwrap().unwrap();
    assert_eq!(g.isp.as_deref(), Some("China Unicom"));
    assert_eq!((g.latitude, g.longitude), (Some(39_904_200), Some(116_407_400)));
    let g = DatabaseFactory::create(DatabaseType::IP2Location).lookup_ip(ip).unwrap().unwrap();
    assert_eq!(g.timezone.as_deref(), Some("Europe/London"));
    assert_eq!((g.latitude, g.longitude), (Some(51_507_400), Some(-127_800)));
    assert!(h.lookup_cdn("a.com").unwrap().is_none());
}

#[test]
fn lookups_only_read_and_answers_are_recorded() {
    let mut m = DatabaseManager::new(AppConfig::default());
    let ip = IpAddress::V4(3);
    assert!(matches!(m.lookup_ip(ip), IpLookup::Load { db_type: DatabaseType::QQwry, .. }));
    m.install("qqwry", DatabaseType::QQwry, qqwry_file(), "p").unwrap();
    let answer = match m.lookup_ip(ip) {
        IpLookup::Answered(Ok(found)) => found,
        other => panic!("unexpected: {:?}", other),
    };
    assert_eq!(answer.as_ref().unwrap().country.as_deref(), Some("Here"));
    // nothing was cached by looking
    assert_eq!(m.cache_stats(), (1, 0));
    assert!(matches!(m.lookup_ip(ip), IpLookup::Answered(Ok(Some(_)))));
    m.record_ip(ip, &answer);
    assert_eq!(m.cache_stats(), (1, 1));
    match m.lookup_ip(ip) {
        IpLookup::Cached(Some(geo)) => assert_eq!(geo.isp.as_deref(), Some("Net")),
        other => panic!("unexpected: {:?}", other),
    }
    // recording again under the same key replaces
    m.record_ip(ip, &None);
    assert_eq!(m.cache_stats(), (1, 1));
    assert!(matches!(m.lookup_ip(ip), IpLookup::Cached(None)));

    assert!(matches!(m.lookup_cdn("a.com"), CdnLookup::Load { db_type: DatabaseType::CDN, .. }));
    m.install("cdn", DatabaseType::CDN, b"a.com:\n  name: A\n".to_vec(), "p").unwrap();
    let found = match m.lookup_cdn("x.a.com") {
        CdnLookup::Answered(Ok(found)) => found,
        other => panic!("unexpected: {:?}", other),
    };
    assert_eq!(found.as_ref().unwrap().provider, "A");
    assert_eq!(m.cache_stats(), (2, 1));
    m.record_cdn("x.a.com", &found);
    assert_eq!(m.cache_stats(), (2, 2));
    assert!(matches!(m.lookup_cdn("x.a.com"), CdnLookup::Cached(Some(_))));
}

#[test]
fn city_records_become_answers() {
    let n = |pairs: &[(&str, &str)]| -> Vec<(String, String)> {
        pairs.iter().map(|(k, v)| (k.to_string(), v.to_string())).collect()
    };
    assert_eq!(pick_name(&n(&[("en", "China"), ("zh-CN", "中国")])).as_deref(), Some("中国"));
    assert_eq!(pick_name(&n(&[("de", "Deutschland"), ("en", "Germany")])).as_deref(), Some("Germany"));
    assert_eq!(pick_name(&n(&[("de", "Deutschland")])), None);
    assert_eq!(pick_name(&n(&[])), None);
    let record = CityRecord {
        country_names: n(&[("en", "United States"), ("zh-CN", "美国")]),
        country_code: Some("US".to_string()),
        city_names: n(&[("en", "Mountain View")]),
        subdivisions: vec![n(&[("en", "West")]), n(&[("en", "California"), ("zh-CN", "加利福尼亚州")])],
        time_zone: Some("America/Los_Angeles".to_string()),
        latitude: Some(37_386_000),
        longitude: Some(-122_083_800),
    };
    let geo = location_from_record(IpAddress::V4(0x0808_0808), &record);
    assert_eq!(geo.ip, IpAddress::V4(0x0808_0808));
    assert_eq!(geo.country.as_deref(), Some("美国"));
    assert_eq!(geo.region.as_deref(), Some("加利福尼亚州"));
    assert_eq!(geo.city.as_deref(), Some("Mountain View"));
    assert_eq!(geo.isp, None);
    assert_eq!(geo.country_code.as_deref(), Some("US"));
    assert_eq!(geo.timezone.as_deref(), Some("America/Los_Angeles"));
    assert_eq!((geo.latitude, geo.longitude), (Some(37_386_000), Some(-122_083_800)));
    let bare = CityRecord {
        country_names: vec![],
        country_code: None,
        city_names: vec![],
        subdivisions: vec![],
        time_zone: None,
        latitude: None,
        longitude: None,
    };
    let geo = location_from_record(IpAddress::V6(1), &bare);
    assert_eq!((geo.country, geo.region, geo.city), (None, None, None));
}
