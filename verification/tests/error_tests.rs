use nali_rs::error::NaliError;

#[test]
fn constructors_carry_their_message() {
    assert!(matches!(NaliError::parse("p"), NaliError::ParseError(m) if m == "p"));
    assert!(matches!(NaliError::config("c"), NaliError::ConfigError(m) if m == "c"));
    assert!(matches!(NaliError::network("n"), NaliError::NetworkError(m) if m == "n"));
    assert!(matches!(NaliError::encoding("e"), NaliError::EncodingError(m) if m == "e"));
    assert!(matches!(NaliError::corrupted("x"), NaliError::DatabaseCorrupted(m) if m == "x"));
}

#[test]
fn descriptions() {
    let s = |t: &str| t.to_string();
    let cases = vec![
        (NaliError::DatabaseNotFound(s("a")), "Database not found: a"),
        (NaliError::InvalidIp(s("a")), "Invalid IP address: a"),
        (NaliError::InvalidDomain(s("a")), "Invalid domain: a"),
        (NaliError::ParseError(s("a")), "Database parse error: a"),
        (NaliError::DatabaseNotLoaded(s("a")), "Database not loaded: a"),
        (NaliError::DatabaseCorrupted(s("a")), "Database corrupted: a"),
        (NaliError::ConfigError(s("a")), "Configuration error: a"),
        (NaliError::NetworkError(s("a")), "Network error: a"),
        (NaliError::DownloadError(s("a")), "Download failed: a"),
        (NaliError::IoError(s("a")), "File I/O error: a"),
        (NaliError::EncodingError(s("a")), "Encoding conversion error: a"),
        (NaliError::RegexError(s("a")), "Regex error: a"),
        (NaliError::YamlError(s("a")), "YAML parse error: a"),
        (NaliError::JsonError(s("a")), "JSON parse error: a"),
        (NaliError::IndexOutOfBounds(0, 1205), "Index out of bounds: offset=0, size=1205"),
        (NaliError::IndexOutOfBounds(10, 9), "Index out of bounds: offset=10, size=9"),
        (NaliError::Other(s("")), "Other error: "),
    ];
    for (e, text) in cases {
        assert_eq!(e.describe(), text);
    }
    assert_eq!(
        NaliError::IndexOutOfBounds(usize::MAX, 7).describe(),
        format!("Index out of bounds: offset={}, size=7", usize::MAX)
    );
}
