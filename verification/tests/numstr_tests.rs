use id::numstr::dec_to_i32;
use id::numstr::i32_to_dec;

#[test]
fn formats_canonical_decimal() {
    assert_eq!(i32_to_dec(0), "0");
    assert_eq!(i32_to_dec(7), "7");
    assert_eq!(i32_to_dec(10), "10");
    assert_eq!(i32_to_dec(90125), "90125");
    assert_eq!(i32_to_dec(i32::MAX), "2147483647");
}

#[test]
fn parses_what_it_formats() {
    for n in [0, 1, 9, 10, 42, 1000, 123456789, i32::MAX] {
        assert_eq!(dec_to_i32(&i32_to_dec(n)), Some(n));
    }
}

#[test]
fn rejects_non_canonical_spellings() {
    assert_eq!(dec_to_i32(""), None);
    assert_eq!(dec_to_i32("007"), None);
    assert_eq!(dec_to_i32("-1"), None);
    assert_eq!(dec_to_i32("4x2"), None);
    assert_eq!(dec_to_i32("12 "), None);
    assert_eq!(dec_to_i32("2147483648"), None);
    assert_eq!(dec_to_i32("99999999999999999999"), None);
}
