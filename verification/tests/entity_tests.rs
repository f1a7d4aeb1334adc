use nali_rs::entity::{Entities, Entity, EntityType};
use nali_rs::finder::{find_domains, find_ipv4, find_ipv6};
use nali_rs::formatter::{
    apply_color, entity_notes, format_entity, format_geo_info, format_geo_info_compact,
    format_text, format_with_notes, ColorType,
};
use nali_rs::parser::{build_complete_entities, entities_from_matches, parse_line, parse_lines};
use nali_rs::types::{CdnProvider, GeoLocation, IpAddress};

#[test]
fn test_entity_creation() {
    let entity = Entity::ipv4(0, 10, "192.168.1.1".to_string());
    assert_eq!(entity.entity_type, EntityType::IPv4);
    assert!(entity.is_ip());
    assert!(!entity.is_domain());
}

#[test]
fn test_entities_sort() {
    let mut entities = Entities::new();
    entities.push(Entity::ipv4(10, 20, "8.8.8.8".to_string()));
    entities.push(Entity::ipv4(0, 10, "1.1.1.1".to_string()));

    entities.sort_by_position();

    assert_eq!(entities.entities[0].text, "1.1.1.1");
    assert_eq!(entities.entities[1].text, "8.8.8.8");
}

#[test]
fn test_remove_overlaps() {
    let mut entities = Entities::new();
    entities.push(Entity::ipv4(0, 10, "192.168.1.1".to_string()));
    entities.push(Entity::plain(5, 15, "overlap".to_string()));

    entities.remove_overlaps();

    assert_eq!(entities.len(), 1);
    assert_eq!(entities.entities[0].text, "192.168.1.1");
}

#[test]
fn test_ipv4_regex() {
    let text = "Server IP: 192.168.1.1 and 8.8.8.8";
    let matches = find_ipv4(text);
    assert_eq!(matches.len(), 2);
    assert_eq!(matches[0].2, "192.168.1.1");
    assert_eq!(matches[1].2, "8.8.8.8");
}

#[test]
fn test_ipv6_regex() {
    let text = "IPv6: 2001:0db8::1 and ::1";
    let matches = find_ipv6(text);
    assert!(matches.len() >= 1);
    assert!(matches[0].2.contains("2001"));
}

#[test]
fn test_domain_regex() {
    let text = "Visit example.com and sub.example.org";
    let matches = find_domains(text);
    assert_eq!(matches.len(), 2);
    assert_eq!(matches[0].2, "example.com");
    assert_eq!(matches[1].2, "sub.example.org");
}

#[test]
fn test_invalid_ipv4() {
    let text = "Invalid: 999.999.999.999";
    let matches = find_ipv4(text);
    assert_eq!(matches.len(), 0);
}

#[test]
fn test_parse_line_ipv4() {
    let text = "Server IP: 192.168.1.1";
    let entities = parse_line(text);

    assert_eq!(entities.len(), 1);
    assert_eq!(entities.entities[0].entity_type, EntityType::IPv4);
    assert_eq!(entities.entities[0].text, "192.168.1.1");
}

#[test]
fn test_parse_line_multiple() {
    let text = "IP 8.8.8.8 at google.com";
    let entities = parse_line(text);

    assert!(entities.len() >= 2);

    let ips = entities.ips();
    let domains = entities.domains();

    assert!(!ips.is_empty());
    assert!(!domains.is_empty());
}

#[test]
fn test_build_complete_entities() {
    let text = "Server: 1.2.3.4 ok";
    let entities = parse_line(text);
    let complete = build_complete_entities(text, entities);

    assert_eq!(complete.len(), 3);
    assert_eq!(complete.entities[0].text, "Server: ");
    assert_eq!(complete.entities[1].text, "1.2.3.4");
    assert_eq!(complete.entities[2].text, " ok");
}

#[test]
fn test_no_entities() {
    let text = "No IPs or domains here";
    let entities = parse_line(text);
    let complete = build_complete_entities(text, entities);

    assert_eq!(complete.len(), 1);
    assert_eq!(complete.entities[0].entity_type, EntityType::Plain);
    assert_eq!(complete.entities[0].text, text);
}

#[test]
fn test_format_text_plain() {
    let mut entities = Entities::new();
    entities.push(Entity::plain(0, 5, "Hello".to_string()));

    let formatted = format_text(&entities, false);
    assert_eq!(formatted, "Hello");
}

fn geo(country: Option<&str>, region: Option<&str>, city: Option<&str>, isp: Option<&str>) -> GeoLocation {
    GeoLocation {
        ip: IpAddress::V4(0x0808_0808),
        country: country.map(String::from),
        region: region.map(String::from),
        city: city.map(String::from),
        isp: isp.map(String::from),
        country_code: None,
        timezone: None,
        latitude: None,
        longitude: None,
    }
}

#[test]
fn test_format_text_with_geo() {
    let mut entities = Entities::new();
    let mut entity = Entity::ipv4(0, 9, "8.8.8.8".to_string());

    entity.geo_info = Some(geo(Some("美国"), Some("加利福尼亚"), Some("山景城"), Some("Google")));

    entities.push(entity);

    let formatted = format_text(&entities, false);
    assert!(formatted.contains("8.8.8.8"));
    assert!(formatted.contains("["));
    assert!(formatted.contains("美国"));
    assert_eq!(formatted, "8.8.8.8 [美国 加利福尼亚 山景城 Google] ");
}

#[test]
fn geo_info_skips_repeats() {
    assert_eq!(format_geo_info(&geo(Some("A"), Some("A"), Some("A"), Some("I"))), "A I");
    assert_eq!(format_geo_info(&geo(Some("A"), Some("B"), Some("A"), None)), "A B A");
    assert_eq!(format_geo_info(&geo(None, Some("B"), Some("B"), None)), "B");
    assert_eq!(format_geo_info(&geo(None, None, Some("C"), None)), "C");
    assert_eq!(format_geo_info(&geo(None, None, None, None)), "");
    assert_eq!(format_geo_info_compact(&geo(None, None, None, None)), "[Unknown]");
    assert_eq!(format_geo_info_compact(&geo(Some("A"), None, None, Some("I"))), "A I");
}

#[test]
fn entities_are_written_with_their_notes() {
    let mut entities = Entities::new();
    entities.push(Entity::plain(0, 3, "at ".to_string()));
    let mut d = Entity::domain(3, 8, "a.com".to_string());
    d.cdn_info = Some(CdnProvider {
        domain: "a.com".to_string(),
        provider: "Prov".to_string(),
        description: None,
    });
    d.source = Some("cdn".to_string());
    assert_eq!(format_entity(&d), "a.com -> Prov (cdn)");
    assert_eq!(entity_notes(&d, false), (None, Some("Prov".to_string())));
    let painted = entity_notes(&d, true);
    assert!(painted.0.is_none());
    assert!(painted.1.unwrap().contains("Prov"));
    entities.push(d);
    assert_eq!(format_text(&entities, false), "at a.com [Prov] ");
    assert!(format_text(&entities, true).contains("Prov"));
    let notes = vec![(Some("x".to_string()), Some("y".to_string()))];
    assert_eq!(format_with_notes(&entities, &notes), "at  [x]  [y] a.com");
    let mut e = Entity::ipv4(0, 7, "1.1.1.1".to_string());
    e.geo_info = Some(geo(Some("C"), None, None, None));
    assert_eq!(format_entity(&e), "1.1.1.1 -> C");
    assert_eq!(apply_color("t", false, ColorType::Green), "t");
}

#[test]
fn sorting_is_stable_and_overlaps_keep_the_first() {
    let mut entities = Entities::new();
    entities.push(Entity::plain(5, 6, "c".to_string()));
    entities.push(Entity::plain(1, 3, "a1".to_string()));
    entities.push(Entity::plain(9, 12, "d".to_string()));
    entities.push(Entity::plain(1, 2, "a2".to_string()));
    entities.push(Entity::plain(2, 5, "b".to_string()));
    entities.push(Entity::plain(11, 20, "e".to_string()));
    entities.sort_by_position();
    let order: Vec<&str> = entities.entities.iter().map(|e| e.text.as_str()).collect();
    assert_eq!(order, vec!["a1", "a2", "b", "c", "d", "e"]);
    entities.remove_overlaps();
    let order: Vec<&str> = entities.entities.iter().map(|e| e.text.as_str()).collect();
    assert_eq!(order, vec!["a1", "c", "d"]);
    assert!(!entities.is_empty());
    assert!(Entities::new().is_empty());
}

#[test]
fn domains_inside_addresses_are_dropped() {
    let m = |s: usize, e: usize, t: &str| (s, e, t.to_string());
    let v4 = vec![m(0, 7, "1.2.3.4")];
    let v6 = vec![m(20, 23, "::1")];
    let domains = vec![m(2, 7, "2.3.4"), m(10, 15, "a.com"), m(6, 9, "x.y")];
    let got = entities_from_matches(&v4, &v6, &domains);
    let texts: Vec<&str> = got.entities.iter().map(|e| e.text.as_str()).collect();
    assert_eq!(texts, vec!["1.2.3.4", "a.com", "::1"]);
    assert_eq!(got.entities[1].entity_type, EntityType::Domain);
    assert_eq!(got.entities[2].entity_type, EntityType::IPv6);
    assert_eq!(got.ips().len(), 2);
    assert_eq!(got.domains().len(), 1);
}

#[test]
fn gaps_are_filled_and_offsets_clamped() {
    let text = "中文 1.2.3.4";
    let complete = build_complete_entities(text, parse_line(text));
    let texts: Vec<&str> = complete.entities.iter().map(|e| e.text.as_str()).collect();
    assert_eq!(texts, vec!["中文 ", "1.2.3.4"]);
    assert_eq!(complete.entities[0].location, (0, 7));
    let mut odd = Entities::new();
    odd.push(Entity::ipv4(2, 100, "x".to_string()));
    let complete = build_complete_entities("abcd", odd);
    let texts: Vec<&str> = complete.entities.iter().map(|e| e.text.as_str()).collect();
    assert_eq!(texts, vec!["ab", "x"]);
    let lines = vec!["8.8.8.8".to_string(), "none".to_string()];
    let parsed = parse_lines(&lines);
    assert_eq!((parsed[0].len(), parsed[1].len()), (1, 0));
}
