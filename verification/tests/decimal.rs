use remote_desktop::decimal::{parse_i32, write_i32};

fn spell(v: i32) -> String {
    let mut out = Vec::new();
    write_i32(v, &mut out);
    String::from_utf8(out).unwrap()
}

#[test]
fn writes_canonical_digits() {
    assert_eq!(spell(0), "0");
    assert_eq!(spell(7), "7");
    assert_eq!(spell(10), "10");
    assert_eq!(spell(-1), "-1");
    assert_eq!(spell(1920), "1920");
    assert_eq!(spell(-1080), "-1080");
}

#[test]
fn writes_the_extremes() {
    assert_eq!(spell(i32::MAX), "2147483647");
    assert_eq!(spell(i32::MIN), "-2147483648");
}

#[test]
fn write_appends_to_what_is_there() {
    let mut out = vec![b'x'];
    write_i32(42, &mut out);
    assert_eq!(out, b"x42".to_vec());
}

#[test]
fn parses_what_it_writes() {
    for v in [0, 1, -1, 9, 10, 99, 100, -100, 65535, 123456789, i32::MAX, i32::MIN, i32::MIN + 1] {
        assert_eq!(parse_i32(spell(v).as_bytes()), Some(v));
    }
}

#[test]
fn agrees_with_std_on_a_sweep() {
    let mut v: i64 = i32::MIN as i64;
    while v <= i32::MAX as i64 {
        let x = v as i32;
        assert_eq!(spell(x), x.to_string());
        assert_eq!(parse_i32(x.to_string().as_bytes()), Some(x));
        v += 7_654_321;
    }
}

#[test]
fn rejects_other_spellings() {
    for text in ["", "-", "+5", "05", "00", "-0", "-01", " 5", "5 ", "1_000", "0x10", "1.0", "5,", "--5", "5-"] {
        assert_eq!(parse_i32(text.as_bytes()), None, "{:?}", text);
    }
}

#[test]
fn rejects_what_does_not_fit() {
    assert_eq!(parse_i32(b"2147483648"), None);
    assert_eq!(parse_i32(b"-2147483649"), None);
    assert_eq!(parse_i32(b"99999999999999999999999999"), None);
    assert_eq!(parse_i32(b"-99999999999999999999999999"), None);
}

#[test]
fn rejects_bytes_that_are_no_text() {
    assert_eq!(parse_i32(&[0xff, 0x31]), None);
    assert_eq!(parse_i32(&[0x31, 0x00]), None);
}
