use imgen::text::{bytes_eq, push_decimal, push_str, str_eq, to_decimal};

#[test]
fn test_to_decimal() {
    assert_eq!(to_decimal(0), "0");
    assert_eq!(to_decimal(7), "7");
    assert_eq!(to_decimal(10), "10");
    assert_eq!(to_decimal(1713833628), "1713833628");
    assert_eq!(to_decimal(u64::MAX), "18446744073709551615");
}

#[test]
fn test_push_decimal_appends() {
    let mut text = String::from("n=");
    push_decimal(&mut text, 255);
    push_decimal(&mut text, 0);
    assert_eq!(text, "n=2550");
}

#[test]
fn test_push_str_appends_utf8() {
    let mut out: Vec<u8> = vec![1];
    push_str(&mut out, "a\u{e9}");
    push_str(&mut out, "");
    assert_eq!(out, vec![1, b'a', 0xC3, 0xA9]);
}

#[test]
fn test_bytes_eq() {
    assert!(bytes_eq(&[], &[]));
    assert!(bytes_eq(&[1, 2, 3], &[1, 2, 3]));
    assert!(!bytes_eq(&[1, 2, 3], &[1, 2]));
    assert!(!bytes_eq(&[1, 2, 3], &[1, 2, 4]));
}

#[test]
fn test_str_eq() {
    assert!(str_eq("", ""));
    assert!(str_eq("png", "png"));
    assert!(!str_eq("png", "PNG"));
    assert!(!str_eq("png", "pn"));
    assert!(str_eq("\u{732b}", "\u{732b}"));
}
