use nali_rs::text::{
    chars_of, contains, gbk_to_utf8, is_whitespace, join_chars, matches_at, remove_all,
    same_chars, split_chars, string_of, text_eq, trim, GBK_INPUT_LIMIT,
};

fn cs(s: &str) -> Vec<char> {
    s.chars().collect()
}

#[test]
fn test_gbk_to_utf8() {
    let gbk_bytes = vec![0xD6, 0xD0, 0xB9, 0xFA];
    let result = gbk_to_utf8(&gbk_bytes).unwrap();
    assert_eq!(result, "中国");
}

#[test]
fn gbk_decoding_trims_and_degrades() {
    assert_eq!(gbk_to_utf8(b"  abc \n").unwrap(), "abc");
    assert_eq!(gbk_to_utf8(&[0xD6, 0xD0, 0xFF]).unwrap(), "中\u{FFFD}");
    assert_eq!(gbk_to_utf8(&[]).unwrap(), "");
}

#[test]
fn gbk_decoding_takes_long_input() {
    let long = vec![b'a'; 0x100_0001];
    assert_eq!(gbk_to_utf8(&long).unwrap().len(), 0x100_0001);
    assert_eq!(GBK_INPUT_LIMIT, usize::MAX / 8);
}

#[test]
fn chars_and_strings_convert_both_ways() {
    assert_eq!(chars_of("a中b"), vec!['a', '中', 'b']);
    assert_eq!(string_of(&['a', '中', 'b']), "a中b");
    assert_eq!(chars_of(""), Vec::<char>::new());
}

#[test]
fn substring_search() {
    assert!(contains(&cs("hello world"), &cs("lo w")));
    assert!(contains(&cs("hello"), &cs("")));
    assert!(contains(&cs("hello"), &cs("hello")));
    assert!(!contains(&cs("hello"), &cs("hellox")));
    assert!(!contains(&cs("hello"), &cs("lol")));
    assert!(matches_at(&cs("hello"), 2, &cs("llo")));
    assert!(!matches_at(&cs("hello"), 3, &cs("llo")));
    assert!(!matches_at(&cs("hello"), 9, &cs("")));
    assert!(same_chars(&cs("ab"), &cs("ab")));
    assert!(!same_chars(&cs("ab"), &cs("abc")));
    assert!(text_eq("cities", "cities"));
    assert!(!text_eq("cities", "citie"));
}

#[test]
fn token_removal_matches_replace() {
    for s in ["", "CZ88.NET", "aCZ88.NETb", "CZ88.NETCZ88.NET", "CZ88.NE", "CZCZ88.NET88.NET", "abc"] {
        assert_eq!(string_of(&remove_all(&cs(s), &cs("CZ88.NET"))), s.replace("CZ88.NET", ""));
    }
    assert_eq!(string_of(&remove_all(&cs("aaa"), &cs("aa"))), "a");
    assert_eq!(string_of(&remove_all(&cs("abc"), &cs(""))), "abc");
}

#[test]
fn trimming_matches_std() {
    for s in ["", "  ", " a b ", "\t\n a\u{3000}", "\u{a0}x\u{2003}", "x", "\u{85}\u{1680}y\u{205f}"] {
        assert_eq!(string_of(&trim(&cs(s))), s.trim());
    }
}

#[test]
fn whitespace_matches_std() {
    for v in 0u32..0x3100 {
        if let Some(c) = char::from_u32(v) {
            assert_eq!(is_whitespace(c), c.is_whitespace(), "U+{:04X}", v);
        }
    }
}

#[test]
fn splitting_and_joining() {
    let parts = split_chars(&cs("www.example.com"), '.');
    assert_eq!(parts, vec![cs("www"), cs("example"), cs("com")]);
    assert_eq!(split_chars(&cs(""), '.'), vec![cs("")]);
    assert_eq!(split_chars(&cs("a."), '.'), vec![cs("a"), cs("")]);
    assert_eq!(split_chars(&cs(".."), '.'), vec![cs(""), cs(""), cs("")]);
    assert_eq!(string_of(&join_chars(&parts, &['.'], 1)), "example.com");
    assert_eq!(string_of(&join_chars(&parts, &['.'], 0)), "www.example.com");
    assert_eq!(string_of(&join_chars(&parts, &['.'], 2)), "com");
    assert_eq!(string_of(&join_chars(&parts, &['.'], 3)), "");
}
