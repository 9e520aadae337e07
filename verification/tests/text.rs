use tether::text::{
    chars_of, decimal_string, hex_string, lines_of, parse_u32_chars, split_chars, trim_chars,
};

fn s(v: &[char]) -> String {
    v.iter().collect()
}

#[test]
fn trimming_and_splitting() {
    assert_eq!(s(&trim_chars(&chars_of(" \t a b \u{3000}"))), "a b");
    assert_eq!(s(&trim_chars(&chars_of("   "))), "");
    let parts = split_chars(&chars_of("a,,b"), ',');
    let parts: Vec<String> = parts.iter().map(|p| s(p)).collect();
    assert_eq!(parts, vec!["a", "", "b"]);
    assert_eq!(split_chars(&chars_of(""), ',').len(), 1);
}

#[test]
fn lines_like_str_lines() {
    let ls: Vec<String> = lines_of(&chars_of("a\r\nb\n\nc\r")).iter().map(|l| s(l)).collect();
    assert_eq!(ls, "a\r\nb\n\nc\r".lines().map(|l| l.to_string()).collect::<Vec<_>>());
    assert_eq!(lines_of(&chars_of("")).len(), 0);
    assert_eq!(lines_of(&chars_of("x\n")).len(), 1);
}

#[test]
fn numbers() {
    assert_eq!(parse_u32_chars(&chars_of("42")), Some(42));
    assert_eq!(parse_u32_chars(&chars_of("+7")), Some(7));
    assert_eq!(parse_u32_chars(&chars_of("4294967295")), Some(u32::MAX));
    assert_eq!(parse_u32_chars(&chars_of("4294967296")), None);
    assert_eq!(parse_u32_chars(&chars_of("-1")), None);
    assert_eq!(parse_u32_chars(&chars_of("+")), None);
    assert_eq!(parse_u32_chars(&chars_of("")), None);
    assert_eq!(parse_u32_chars(&chars_of("1a")), None);
    assert_eq!(decimal_string(0), "0");
    assert_eq!(decimal_string(18446744073709551615), "18446744073709551615");
    assert_eq!(hex_string(&[0x0a, 0xff, 0x00]), "0aff00");
}
