use nali_rs::error::NaliError;
use nali_rs::index::{search_index, IndexLayout};

/// Builds a buffer with `keys.len()` seven-byte entries from offset 8 on;
/// entry `i` carries the payload `100 + i`.
fn index_of(keys: &[u32]) -> (Vec<u8>, IndexLayout) {
    let mut data = vec![0u8; 8];
    for (i, k) in keys.iter().enumerate() {
        data.extend_from_slice(&k.to_le_bytes());
        let payload = 100 + i as u32;
        data.extend_from_slice(&payload.to_le_bytes()[0..3]);
    }
    let layout = IndexLayout {
        start: 8,
        end: 8 + 7 * (keys.len() - 1),
        stride: 7,
        key_width: 4,
        payload_offset: 4,
    };
    (data, layout)
}

#[test]
fn search_returns_greatest_key_not_above_target() {
    let keys = [10u32, 20, 30, 40, 50];
    let (data, layout) = index_of(&keys);
    for target in 0u32..70 {
        let expected = if target < 10 {
            0
        } else {
            keys.iter().rposition(|k| *k <= target).unwrap() as u32
        };
        let got = search_index(&data, &layout, target as u64).unwrap();
        assert_eq!(got, 100 + expected, "target {}", target);
    }
}

#[test]
fn search_two_entries() {
    let (data, layout) = index_of(&[5, 9]);
    assert_eq!(search_index(&data, &layout, 4).unwrap(), 100);
    assert_eq!(search_index(&data, &layout, 5).unwrap(), 100);
    assert_eq!(search_index(&data, &layout, 8).unwrap(), 100);
    assert_eq!(search_index(&data, &layout, 9).unwrap(), 101);
    assert_eq!(search_index(&data, &layout, u32::MAX as u64).unwrap(), 101);
}

#[test]
fn search_with_eight_byte_keys() {
    let mut data = vec![0u8; 4];
    let keys = [1u64 << 40, 1 << 50, 1 << 60];
    for (i, k) in keys.iter().enumerate() {
        data.extend_from_slice(&k.to_le_bytes());
        data.extend_from_slice(&[i as u8 + 1, 0, 0]);
    }
    let layout = IndexLayout { start: 4, end: 4 + 22, stride: 11, key_width: 8, payload_offset: 8 };
    assert_eq!(search_index(&data, &layout, 0).unwrap(), 1);
    assert_eq!(search_index(&data, &layout, 1 << 45).unwrap(), 1);
    assert_eq!(search_index(&data, &layout, 1 << 50).unwrap(), 2);
    assert_eq!(search_index(&data, &layout, u64::MAX).unwrap(), 3);
}

#[test]
fn search_rejects_malformed_region() {
    let (data, mut layout) = index_of(&[1, 2, 3]);
    layout.end = layout.end + 1;
    assert!(matches!(search_index(&data, &layout, 2), Err(NaliError::DatabaseCorrupted(_))));
    layout.end = layout.start;
    assert!(matches!(search_index(&data, &layout, 2), Err(NaliError::DatabaseCorrupted(_))));
    layout.end = layout.start + 7;
    layout.stride = 0;
    assert!(matches!(search_index(&data, &layout, 2), Err(NaliError::DatabaseCorrupted(_))));
    layout.stride = 7;
    layout.key_width = 5;
    assert!(matches!(search_index(&data, &layout, 2), Err(NaliError::DatabaseCorrupted(_))));
}

#[test]
fn search_reports_entries_outside_the_buffer() {
    let (mut data, layout) = index_of(&[1, 2, 3]);
    data.truncate(data.len() - 1);
    assert!(matches!(search_index(&data, &layout, 3), Err(NaliError::ParseError(_))));
    data.truncate(12);
    assert!(matches!(search_index(&data, &layout, 0), Err(NaliError::ParseError(_))));
}
