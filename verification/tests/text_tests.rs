use my_vm_compiler::text::{
    chars_of, decimal_chars, join_chars, parse_hex_u32_chars, parse_u32_chars, replace_all_chars,
    trim_chars, words_chars,
};

fn v(x: &str) -> Vec<char> {
    x.chars().collect()
}

#[test]
fn decimal_digits() {
    assert_eq!(decimal_chars(0), v("0"));
    assert_eq!(decimal_chars(907), v("907"));
    assert_eq!(decimal_chars(u64::MAX), v("18446744073709551615"));
}

#[test]
fn parse_numbers() {
    assert_eq!(parse_u32_chars(&v("42")), Some(42));
    assert_eq!(parse_u32_chars(&v("+7")), Some(7));
    assert_eq!(parse_u32_chars(&v("4294967295")), Some(u32::MAX));
    assert_eq!(parse_u32_chars(&v("4294967296")), None);
    assert_eq!(parse_u32_chars(&v("")), None);
    assert_eq!(parse_u32_chars(&v("-1")), None);
    assert_eq!(parse_hex_u32_chars(&v("ff")), Some(255));
    assert_eq!(parse_hex_u32_chars(&v("+DEAD")), Some(0xdead));
    assert_eq!(parse_hex_u32_chars(&v("100000000")), None);
    assert_eq!(parse_hex_u32_chars(&v("g")), None);
}

#[test]
fn string_helpers() {
    assert_eq!(chars_of("héllo"), v("héllo"));
    assert_eq!(trim_chars(&v("  a b \t\n")), v("a b"));
    assert_eq!(words_chars(&v(" a  bb\tc ")), vec![v("a"), v("bb"), v("c")]);
    assert_eq!(join_chars(&vec![v("a"), v("b")], ", "), v("a, b"));
    assert_eq!(replace_all_chars(&v("{x}+{x}"), &v("{x}"), &v("A")), v("A+A"));
}
