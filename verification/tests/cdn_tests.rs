use nali_rs::cdn::{
    classify, entry_from_fields, extract_base_domain, match_regex, wildcard_to_regex, CDNDatabase,
    CdnEntry, CdnPattern, PatternKind,
};
use nali_rs::error::NaliError;
use nali_rs::types::{DatabaseType, IpAddress};

fn entry(name: &str) -> CdnEntry {
    CdnEntry { name: name.to_string(), link: None }
}

fn loaded(entries: Vec<(&str, CdnEntry)>) -> CDNDatabase {
    let mut db = CDNDatabase::new();
    db.load_entries(entries.into_iter().map(|(p, e)| (p.to_string(), e)).collect());
    db.mark_loaded();
    db
}

#[test]
fn matcher_test_extract_base_domain() {
    let candidates = extract_base_domain("www.example.com");
    assert!(candidates.contains(&"www.example.com".to_string()));
    assert!(candidates.contains(&"example.com".to_string()));
}

#[test]
fn mod_test_extract_base_domain() {
    let candidates = extract_base_domain("www.example.com");
    assert!(candidates.contains(&"www.example.com".to_string()));
    assert!(candidates.contains(&"example.com".to_string()));
}

#[test]
fn test_wildcard_to_regex() {
    let regex = wildcard_to_regex("*.example.com");
    assert_eq!(regex, "^.*\\.example\\.com$");
}

#[test]
fn database_test_parse_simple_yaml() {
    let yaml = r#"
cloudflare.com:
  name: Cloudflare
  link: https://www.cloudflare.com
"#;

    let mut db = CDNDatabase::new();
    db.parse_yaml(yaml).unwrap();
    assert_eq!(db.exact_count(), 1);
}

#[test]
fn mod_test_parse_simple_yaml() {
    let yaml = r#"
cloudflare.com:
  name: Cloudflare
  link: https://www.cloudflare.com
"#;

    let mut db = CDNDatabase::new();
    db.parse_yaml(yaml).unwrap();
    assert_eq!(db.exact_count(), 1);
}

fn lookup_exact_match() {
    let yaml = r#"
cloudflare.com:
  name: Cloudflare
"#;

    let mut db = CDNDatabase::new();
    db.parse_yaml(yaml).unwrap();
    db.mark_loaded();

    let result = db.lookup_cdn("cloudflare.com").unwrap();
    assert!(result.is_some());
    assert_eq!(result.unwrap().provider, "Cloudflare");
}

#[test]
fn database_test_lookup_exact_match() {
    lookup_exact_match();
}

#[test]
fn mod_test_lookup_exact_match() {
    lookup_exact_match();
}

fn lookup_subdomain() {
    let yaml = r#"
example.com:
  name: Example CDN
"#;

    let mut db = CDNDatabase::new();
    db.parse_yaml(yaml).unwrap();
    db.mark_loaded();

    let result = db.lookup_cdn("www.example.com").unwrap();
    assert!(result.is_some());
    assert_eq!(result.unwrap().provider, "Example CDN");
}

#[test]
fn database_test_lookup_subdomain() {
    lookup_subdomain();
}

#[test]
fn mod_test_lookup_subdomain() {
    lookup_subdomain();
}

fn lookup_regex() {
    let yaml = r#"
"[a-z]+\\.cdn\\.example\\.com":
  name: Example CDN Network
"#;

    let mut db = CDNDatabase::new();
    db.parse_yaml(yaml).unwrap();
    db.mark_loaded();

    let result = db.lookup_cdn("test.cdn.example.com").unwrap();
    assert!(result.is_some());
    assert_eq!(result.unwrap().provider, "Example CDN Network");
}

#[test]
fn database_test_lookup_regex() {
    lookup_regex();
}

#[test]
fn mod_test_lookup_regex() {
    lookup_regex();
}

fn lookup_not_found() {
    let yaml = r#"
cloudflare.com:
  name: Cloudflare
"#;

    let mut db = CDNDatabase::new();
    db.parse_yaml(yaml).unwrap();
    db.mark_loaded();

    let result = db.lookup_cdn("unknown.com").unwrap();
    assert!(result.is_none());
}

#[test]
fn database_test_lookup_not_found() {
    lookup_not_found();
}

#[test]
fn mod_test_lookup_not_found() {
    lookup_not_found();
}

#[test]
fn akamai_scenario() {
    let mut db = CDNDatabase::new();
    db.load_from_file("cdn.yml", "{\"akamai.net\": {\"name\": \"Akamai\"}}").unwrap();
    assert!(db.is_loaded());
    let hit = db.lookup_cdn("cdn.akamai.net").unwrap().unwrap();
    assert_eq!(hit.provider, "Akamai");
    assert_eq!(hit.domain, "cdn.akamai.net");
    assert_eq!(hit.description, None);
    assert!(db.lookup_cdn("unrelated.org").unwrap().is_none());
}

#[test]
fn wildcard_pattern_scenario() {
    let db = loaded(vec![("*.example.com", entry("Wild"))]);
    assert_eq!(db.exact_count(), 0);
    assert_eq!(db.pattern_count(), 1);
    assert_eq!(db.lookup_cdn("foo.example.com").unwrap().unwrap().provider, "Wild");
    assert_eq!(db.lookup_cdn("FOO.Example.COM").unwrap().unwrap().domain, "FOO.Example.COM");
    assert!(db.lookup_cdn("exampleXcom").unwrap().is_none());
    assert!(db.lookup_cdn("fooXexampleXcom").unwrap().is_none());
    // the wildcard asks for a dot before the base domain
    assert!(db.lookup_cdn("example.com").unwrap().is_none());
    // with the base domain as an exact pattern the fallback answers
    let db = loaded(vec![("*.example.com", entry("Wild")), ("example.com", entry("Exact"))]);
    assert_eq!(db.lookup_cdn("example.com").unwrap().unwrap().provider, "Exact");
    assert_eq!(db.lookup_cdn("foo.example.com").unwrap().unwrap().provider, "Exact");
}

#[test]
fn plain_pattern_never_becomes_a_regex() {
    let db = loaded(vec![("cloudflare.com", entry("Cloudflare"))]);
    assert_eq!(db.exact_count(), 1);
    assert_eq!(db.pattern_count(), 0);
    assert_eq!(classify("cloudflare.com"), PatternKind::Exact);
    // a regex would let the dot stand for any character
    assert!(db.lookup_cdn("cloudflareXcom").unwrap().is_none());
    assert!(db.lookup_cdn("a.b.cloudflare.com").unwrap().is_some());
    assert!(db.lookup_cdn("CloudFlare.Com").unwrap().is_some());
}

#[test]
fn classification() {
    assert_eq!(classify("*.a.com"), PatternKind::Wildcard);
    assert_eq!(classify("a?.com"), PatternKind::Wildcard);
    assert_eq!(classify("[ab]*.com"), PatternKind::Wildcard);
    assert_eq!(classify("[ab].com"), PatternKind::Regex);
    assert_eq!(classify("a+.com"), PatternKind::Regex);
    assert_eq!(classify("(a).com"), PatternKind::Regex);
    assert_eq!(classify("a{2}.com"), PatternKind::Regex);
    assert_eq!(classify("a.com"), PatternKind::Exact);
    assert_eq!(classify("a|b.com"), PatternKind::Exact);
    assert_eq!(classify(""), PatternKind::Exact);
}

#[test]
fn wildcard_translation_escapes_metacharacters() {
    assert_eq!(wildcard_to_regex(""), "^$");
    assert_eq!(wildcard_to_regex("a?b"), "^a.b$");
    assert_eq!(wildcard_to_regex(".\\+^$()[]{}|"), "^\\.\\\\\\+\\^\\$\\(\\)\\[\\]\\{\\}\\|$");
    assert_eq!(wildcard_to_regex("中-x"), "^中-x$");
}

#[test]
fn base_domains() {
    assert_eq!(extract_base_domain("WWW.Example.COM"), vec!["www.example.com", "example.com"]);
    assert_eq!(extract_base_domain("example.com"), vec!["example.com", "example.com"]);
    assert_eq!(extract_base_domain("localhost"), vec!["localhost"]);
    assert_eq!(extract_base_domain("a."), vec!["a.", "a."]);
    assert_eq!(extract_base_domain(""), vec![""]);
}

#[test]
fn invalid_patterns_are_dropped() {
    let db = loaded(vec![("(unclosed", entry("Bad")), ("[a-z]+\\.ok\\.com", entry("Good"))]);
    assert_eq!(db.pattern_count(), 1);
    assert_eq!(db.lookup_cdn("x.ok.com").unwrap().unwrap().provider, "Good");
}

#[test]
fn first_loaded_pattern_wins() {
    let db = loaded(vec![("*.cdn.com", entry("First")), ("a.*", entry("Second"))]);
    assert_eq!(db.lookup_cdn("a.cdn.com").unwrap().unwrap().provider, "First");
    assert_eq!(db.lookup_cdn("a.other.org").unwrap().unwrap().provider, "Second");
}

#[test]
fn later_exact_entry_replaces_earlier() {
    let db = loaded(vec![("A.com", entry("One")), ("a.COM", entry("Two")), ("b.com", entry("B"))]);
    assert_eq!(db.exact_count(), 2);
    assert_eq!(db.lookup_cdn("a.com").unwrap().unwrap().provider, "Two");
}

#[test]
fn link_becomes_description() {
    let mut db = CDNDatabase::new();
    db.load_from_file("cdn.yml", "x.com:\n  name: X\n  link: https://x.com\n").unwrap();
    let hit = db.lookup_cdn("x.com").unwrap().unwrap();
    assert_eq!(hit.description.as_deref(), Some("https://x.com"));
}

#[test]
fn unloaded_matcher_refuses_queries() {
    let db = CDNDatabase::new();
    match db.lookup_cdn("a.com") {
        Err(NaliError::DatabaseNotLoaded(n)) => assert_eq!(n, "cdn"),
        other => panic!("unexpected: {:?}", other),
    }
}

#[test]
fn malformed_sources_are_rejected() {
    let mut db = CDNDatabase::new();
    assert!(matches!(db.parse_yaml("- a\n- b\n"), Err(NaliError::YamlError(_))));
    assert!(matches!(db.parse_yaml("a.com:\n  link: x\n"), Err(NaliError::YamlError(_))));
    assert!(matches!(db.parse_yaml("a.com: [1, 2]\n"), Err(NaliError::YamlError(_))));
    assert!(matches!(db.load_from_file("cdn.yml", "{{{{"), Err(NaliError::YamlError(_))));
    assert_eq!(db.exact_count(), 0);
    assert!(!db.is_loaded());
}

#[test]
fn fields_make_entries() {
    let fields = vec![
        ("link".to_string(), Some("l".to_string())),
        ("name".to_string(), Some("n".to_string())),
    ];
    let e = entry_from_fields(&fields).unwrap();
    assert_eq!((e.name.as_str(), e.link.as_deref()), ("n", Some("l")));
    assert!(entry_from_fields(&vec![("name".to_string(), None)]).is_none());
    assert!(entry_from_fields(&vec![]).is_none());
    let e = entry_from_fields(&vec![("name".to_string(), Some("n".to_string()))]).unwrap();
    assert_eq!(e.link, None);
}

#[test]
fn match_regex_returns_first_match() {
    let db = loaded(vec![("*.a.com", entry("A"))]);
    assert!(match_regex("x.a.com", &[]).is_none());
    assert_eq!(db.lookup_cdn("x.a.com").unwrap().unwrap().provider, "A");
    let patterns = vec![
        CdnPattern::new("^b", entry("B")).unwrap(),
        CdnPattern::new("a\\.com$", entry("First")).unwrap(),
        CdnPattern::new("^x", entry("Second")).unwrap(),
    ];
    assert_eq!(match_regex("x.a.com", &patterns).unwrap().name, "First");
    assert_eq!(match_regex("x.b.org", &patterns).unwrap().name, "Second");
    assert!(match_regex("c.org", &patterns).is_none());
    assert!(CdnPattern::new("(", entry("Bad")).is_none());
    assert!(patterns[0].is_match("b.com"));
    assert!(!patterns[0].is_match("B.com"));
    assert_eq!(patterns[0].entry().name, "B");
}

#[test]
fn matcher_properties() {
    let db = CDNDatabase::new();
    assert_eq!(db.name(), "cdn");
    assert_eq!(db.database_type(), DatabaseType::CDN);
    assert!(!db.supports_ipv4());
    assert!(!db.supports_ipv6());
    assert!(db.supports_cdn());
    assert!(db.lookup_ip(IpAddress::V4(1)).unwrap().is_none());
}

#[test]
fn lowered_queries_and_direct_inserts() {
    let mut db = CDNDatabase::new();
    db.insert_exact("a.com".to_string(), entry("A"));
    db.insert_exact("A.com".to_string(), entry("Upper"));
    db.insert_exact("a.com".to_string(), entry("A2"));
    assert_eq!(db.exact_count(), 2);
    let hit = db.lookup_lowered("X.A.COM", &"x.a.com".to_string()).unwrap();
    assert_eq!((hit.domain.as_str(), hit.provider.as_str()), ("X.A.COM", "A2"));
    // the query is taken as it is given: no exact domain is in upper case
    assert!(db.lookup_lowered("a.com", &"B.COM".to_string()).is_none());
    db.add_pattern("*.Wild.com", entry("W"));
    assert!(db.lookup_lowered("q", &"x.Wild.com".to_string()).is_some());
    assert!(db.lookup_lowered("q", &"x.wild.com".to_string()).is_none());
}
