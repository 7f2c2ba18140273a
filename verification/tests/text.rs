use memos_mcp_server::config::{bind_address, fallback_token, wants_stdio, MAX_REQUEST_BYTES};
use memos_mcp_server::text::{
    decimal_i32, decimal_u64, joined, lowered, pieces_of, trim_text, white_space, CharClass,
};

#[test]
fn white_space_agrees_with_the_standard_library() {
    for n in 0..=0x10ffffu32 {
        if let Some(c) = char::from_u32(n) {
            assert_eq!(white_space(c), c.is_whitespace(), "{:x}", n);
        }
    }
}

#[test]
fn lowering_reaches_ascii_from_ascii_only() {
    // Besides the ASCII letters only the Kelvin sign becomes a single ASCII letter.
    for n in 0..=0x10ffffu32 {
        if let Some(c) = char::from_u32(n) {
            let low: Vec<char> = c.to_lowercase().collect();
            if c.is_ascii() {
                assert_eq!(low, vec![lowered(c)]);
            } else if low.iter().all(|l| l.is_ascii()) {
                assert_eq!(n, 0x212a);
            }
        }
    }
}

#[test]
fn pieces_and_joins() {
    let v: Vec<char> = "a,,b".chars().collect();
    assert_eq!(
        pieces_of(&v, ','),
        vec!["a".to_string(), String::new(), "b".to_string()]
    );
    assert_eq!(pieces_of(&[], ','), vec![String::new()]);
    assert_eq!(joined(&["x".to_string(), "y".to_string()], ", "), "x, y");
    assert_eq!(joined(&[], ", "), "");
    assert_eq!(trim_text("\t x y\n", CharClass::Space), "x y");
    assert_eq!(trim_text("//x//", CharClass::Only('/')), "x");
}

#[test]
fn decimals() {
    assert_eq!(decimal_u64(0), "0");
    assert_eq!(decimal_u64(u64::MAX), "18446744073709551615");
    assert_eq!(decimal_i32(i32::MIN), "-2147483648");
    assert_eq!(decimal_i32(-7), "-7");
    assert_eq!(decimal_i32(1000), "1000");
}

#[test]
fn bind_takes_ports_and_addresses() {
    assert_eq!(bind_address("8080"), "0.0.0.0:8080");
    assert_eq!(bind_address("127.0.0.1:8080"), "127.0.0.1:8080");
    assert_eq!(bind_address("65535"), "0.0.0.0:65535");
    assert_eq!(bind_address("65536"), "65536");
    assert_eq!(bind_address("99999999999999999999"), "99999999999999999999");
    assert_eq!(bind_address("0080"), "0.0.0.0:0080");
    assert_eq!(bind_address("+80"), "0.0.0.0:+80");
    assert_eq!(bind_address("+"), "+");
    assert_eq!(bind_address("-1"), "-1");
    assert_eq!(bind_address(""), "");
}

#[test]
fn bind_agrees_with_the_standard_parser() {
    for s in ["0", "00000000065535", "65536", "+0", "++1", " 1", "1 ", "\u{661}", "x", "70000"] {
        assert_eq!(bind_address(s) != s, s.parse::<u16>().is_ok(), "{}", s);
    }
}

#[test]
fn fallback_token_order() {
    let some = |s: &str| Some(s.to_string());
    assert_eq!(fallback_token(some("a"), some("b")), "a");
    assert_eq!(fallback_token(some(""), some("b")), "");
    assert_eq!(fallback_token(None, some("b")), "b");
    assert_eq!(fallback_token(None, None), "");
}

#[test]
fn stdio_by_flag_or_variable() {
    let args = vec!["prog".to_string(), "--stdio".to_string()];
    assert!(wants_stdio(&args, false));
    assert!(wants_stdio(&args[..1], true));
    assert!(!wants_stdio(&args[..1], false));
}

#[test]
fn body_cap_is_256_mib() {
    assert_eq!(MAX_REQUEST_BYTES, 256 * 1024 * 1024);
}
