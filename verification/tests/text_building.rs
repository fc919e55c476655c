use ox_squared_server::config::parse_u64;
use ox_squared_server::text::{digit, hex16_string, push_decimal};

#[test]
fn hex_is_sixteen_lower_case_digits() {
    assert_eq!(hex16_string(0), "0000000000000000");
    assert_eq!(hex16_string(255), "00000000000000ff");
    assert_eq!(hex16_string(u64::MAX), "ffffffffffffffff");
    assert_eq!(hex16_string(0x0123_4567_89ab_cdef), "0123456789abcdef");
    assert_eq!(hex16_string(0xdead_beef), format!("{:016x}", 0xdead_beefu64));
}

#[test]
fn decimal_numerals() {
    let mut s = String::from("got ");
    push_decimal(&mut s, 0);
    assert_eq!(s, "got 0");
    let mut t = String::new();
    push_decimal(&mut t, 81);
    assert_eq!(t, "81");
    let mut u = String::new();
    push_decimal(&mut u, 18446744073709551615);
    assert_eq!(u, "18446744073709551615");
    assert_eq!(digit(7), '7');
    assert_eq!(digit(12), 'c');
}

#[test]
fn decimal_text_parses_back() {
    for n in [0u64, 7, 10, 81, 65536, 1 << 40, u64::MAX] {
        let mut s = String::new();
        push_decimal(&mut s, n);
        assert_eq!(parse_u64(&s), Some(n));
    }
}
