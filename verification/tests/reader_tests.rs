use nali_rs::reader::Reader;

fn record(country: &[u8], area: &[u8]) -> Vec<u8> {
    let mut v = country.to_vec();
    v.push(0);
    v.extend_from_slice(area);
    v.push(0);
    v
}

#[test]
fn literal_record_round_trip() {
    let mut data = vec![0xAAu8; 4];
    data.extend_from_slice(&record(b"Country", b"Area"));
    let mut reader = Reader::new(&data);
    let (c, a) = reader.parse(4).unwrap();
    assert_eq!(c, b"Country".to_vec());
    assert_eq!(a, b"Area".to_vec());
}

#[test]
fn parse_zero_reads_at_the_cursor() {
    let data = record(b"C", b"A");
    let mut reader = Reader::new(&data);
    let (c, a) = reader.parse(0).unwrap();
    assert_eq!(c, b"C".to_vec());
    assert_eq!(a, b"A".to_vec());
}

#[test]
fn full_redirect_decodes_as_its_target() {
    // 0: mode 1 -> 8 ; 8: literal record
    let mut data = vec![1u8, 8, 0, 0, 0xEE, 0xEE, 0xEE, 0xEE];
    data.extend_from_slice(&record(b"X", b"Y"));
    let direct = Reader::new(&data).parse(8).unwrap();
    let redirected = {
        let mut r = Reader::new(&data);
        r.seek_abs(0);
        r.parse(0).unwrap()
    };
    assert_eq!(direct, redirected);
    assert_eq!(direct, (b"X".to_vec(), b"Y".to_vec()));
}

#[test]
fn partial_redirect_takes_country_from_offset() {
    // 4: mode 2, offset 16, then literal area "Y" ; 16: "X\0"
    let mut data = vec![0u8; 4];
    data.extend_from_slice(&[2, 16, 0, 0]);
    data.extend_from_slice(b"Y\0");
    data.resize(16, 0xEE);
    data.extend_from_slice(b"X\0");
    let (c, a) = Reader::new(&data).parse(4).unwrap();
    assert_eq!(c, b"X".to_vec());
    assert_eq!(a, b"Y".to_vec());
}

#[test]
fn area_redirects() {
    // 4: "C\0", then area mode 1 -> 16 ; 16: "A\0"
    let mut data = vec![0u8; 4];
    data.extend_from_slice(b"C\0");
    data.extend_from_slice(&[1, 16, 0, 0]);
    data.resize(16, 0xEE);
    data.extend_from_slice(b"A\0");
    assert_eq!(Reader::new(&data).parse(4).unwrap(), (b"C".to_vec(), b"A".to_vec()));
    // area mode 2 with offset 0: the empty string
    let mut data = vec![0u8; 4];
    data.extend_from_slice(b"C\0");
    data.extend_from_slice(&[2, 0, 0, 0]);
    assert_eq!(Reader::new(&data).parse(4).unwrap(), (b"C".to_vec(), Vec::new()));
}

#[test]
fn unterminated_area_runs_to_the_end() {
    let data = b"\xEEC\0Area".to_vec();
    assert_eq!(Reader::new(&data).parse(1).unwrap(), (b"C".to_vec(), b"Area".to_vec()));
}

#[test]
fn decoding_outside_the_buffer_fails() {
    let data = vec![0xEEu8, b'C', 0];
    assert!(Reader::new(&data).parse(3).is_err());
    assert!(Reader::new(&data).parse(100).is_err());
    // the country ends the buffer: no area field is left
    assert!(Reader::new(&data).parse(1).is_err());
    // a redirect whose offset field is cut short
    let data = vec![0xEEu8, 1, 8, 0];
    assert!(Reader::new(&data).parse(1).is_err());
    // a partial redirect that points beyond the end
    let data = vec![0xEEu8, 2, 200, 0, 0, b'A', 0];
    assert!(Reader::new(&data).parse(1).is_err());
}

#[test]
fn redirect_cycle_fails() {
    // 4: mode 1 -> 8 ; 8: mode 1 -> 4
    let data = vec![0u8, 0, 0, 0, 1, 8, 0, 0, 1, 4, 0, 0];
    assert!(Reader::new(&data).parse(4).is_err());
}

#[test]
fn cursor_primitives() {
    let data = vec![7u8, 0x01, 0x02, 0x03, b'a', b'b', 0, b'c'];
    let mut r = Reader::new(&data);
    assert_eq!(r.pos(), 0);
    assert_eq!(r.read_mode().unwrap(), 7);
    assert_eq!(r.pos(), 1);
    assert_eq!(r.read_offset(false).unwrap(), 0x030201);
    assert_eq!(r.pos(), 4);
    assert_eq!(r.read_string(false).unwrap(), b"ab".to_vec());
    assert_eq!(r.pos(), 4);
    assert_eq!(r.read_string(true).unwrap(), b"ab".to_vec());
    assert_eq!(r.pos(), 7);
    r.seek_back();
    assert_eq!(r.pos(), 4);
    r.seek_abs(1);
    assert_eq!(r.read_offset(true).unwrap(), 0x030201);
    assert_eq!(r.pos(), 0x030201);
    r.seek_back();
    assert_eq!(r.pos(), 4);
    r.seek_abs(8);
    assert!(r.read_mode().is_err());
    assert_eq!(r.read_string(false).unwrap(), Vec::<u8>::new());
    r.seek_abs(6);
    assert!(r.read_offset(false).is_err());
    r.seek_abs(9);
    assert!(r.read_string(false).is_err());
}
