use gcrecomp_core::chars::trim_chars;
use gcrecomp_core::text::{append_dec, append_dec_signed, append_hex};

#[test]
fn decimal_text_matches_to_string() {
    for n in [0u64, 7, 10, 99, 100, 12345, u64::MAX] {
        let mut s = String::from("x=");
        append_dec(&mut s, n);
        assert_eq!(s, format!("x={}", n));
    }
    for n in [0i64, -1, 42, -9_000, i64::MIN, i64::MAX] {
        let mut s = String::new();
        append_dec_signed(&mut s, n);
        assert_eq!(s, n.to_string());
    }
}

#[test]
fn hex_text_matches_formatting() {
    for (n, w) in [(0u32, 0usize), (0, 8), (0xABCD, 2), (0xABCD, 8), (u32::MAX, 8), (0x1F, 10)] {
        let mut s = String::new();
        append_hex(&mut s, n, w);
        assert_eq!(s, format!("{:0w$X}", n, w = w));
    }
}

#[test]
fn trimming_drops_unicode_whitespace() {
    let v: Vec<char> = "\u{3000}\t a b\u{A0}\u{2029}\n".chars().collect();
    let r: String = trim_chars(&v).into_iter().collect();
    assert_eq!(r, "a b");
    let w: Vec<char> = "\u{200B}x".chars().collect();
    assert_eq!(trim_chars(&w), w);
}
