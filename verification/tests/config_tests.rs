use auth_core::config::{parse_u32_dec, DatabaseConfig};
use auth_core::hex::{parse_hex_at, push_hex};
use auth_core::text::ascii_lower;

#[test]
fn parse_u32_dec_accepts_plain_numbers() {
    assert_eq!(parse_u32_dec("0"), Some(0));
    assert_eq!(parse_u32_dec("20"), Some(20));
    assert_eq!(parse_u32_dec("007"), Some(7));
    assert_eq!(parse_u32_dec("4294967295"), Some(u32::MAX));
}

#[test]
fn parse_u32_dec_rejects_everything_else() {
    assert_eq!(parse_u32_dec(""), None);
    assert_eq!(parse_u32_dec("abc"), None);
    assert_eq!(parse_u32_dec("20x"), None);
    assert_eq!(parse_u32_dec("-5"), None);
    assert_eq!(parse_u32_dec("4294967296"), None);
    assert_eq!(parse_u32_dec("99999999999999999999"), None);
}

#[test]
fn config_requires_url_and_defaults_the_numbers() {
    assert!(DatabaseConfig::from_values(None, None, None, None).is_none());
    let cfg = DatabaseConfig::from_values(
        Some(String::from("postgres://localhost/app")),
        None,
        Some(String::from("not-a-number")),
        Some(String::from("30")),
    )
    .expect("a URL must be enough");
    assert_eq!(cfg.url, "postgres://localhost/app");
    assert_eq!(cfg.max_connections, 20);
    assert_eq!(cfg.min_connections, 5);
    assert_eq!(cfg.connect_timeout_secs, 30);
}

#[test]
fn hex_coding_roundtrips_fixed_width() {
    let mut s = String::new();
    push_hex(&mut s, 255, 16);
    assert_eq!(s, "00000000000000ff");
    assert_eq!(parse_hex_at(&s, 0, 16), Some(255));
    assert_eq!(parse_hex_at("00ffx00000000000", 0, 16), None);
}

#[test]
fn ascii_lower_folds_only_ascii_letters() {
    assert_eq!(ascii_lower("AbC@X.Com"), "abc@x.com");
    assert_eq!(ascii_lower("already-lower_9"), "already-lower_9");
    assert_eq!(ascii_lower("Ü"), "Ü");
}
