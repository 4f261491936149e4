use shortener::codes::{generate, CODE_LEN};
use shortener::errors::ErrorKind;
use shortener::urls::validate;

#[test]
fn validate_accepts_plain_absolute_url() {
    assert_eq!(
        validate("https://example.com/page"),
        Ok("https://example.com/page".to_string())
    );
}

#[test]
fn validate_normalizes_scheme_and_host_case() {
    assert_eq!(
        validate("HTTPS://EXAMPLE.COM"),
        Ok("https://example.com/".to_string())
    );
}

#[test]
fn validate_adds_root_path() {
    assert_eq!(
        validate("https://example.com"),
        Ok("https://example.com/".to_string())
    );
}

#[test]
fn validate_percent_encodes_path() {
    assert_eq!(
        validate("https://example.com/a b"),
        Ok("https://example.com/a%20b".to_string())
    );
}

#[test]
fn validate_drops_default_port() {
    assert_eq!(
        validate("https://example.com:443/x"),
        Ok("https://example.com/x".to_string())
    );
}

#[test]
fn validate_rejects_empty_string() {
    assert_eq!(validate("").unwrap_err().kind, ErrorKind::InvalidUrl);
}

#[test]
fn validate_rejects_relative_url() {
    let e = validate("example.com/page").unwrap_err();
    assert_eq!(e.kind, ErrorKind::InvalidUrl);
    assert_eq!(e.diagnostic, "relative URL without a base");
}

#[test]
fn validate_rejects_free_text() {
    let e = validate("not a url").unwrap_err();
    assert_eq!(e.kind, ErrorKind::InvalidUrl);
    assert!(!e.diagnostic.is_empty());
    assert_ne!(e.diagnostic, "not a url");
}

#[test]
fn validate_rejects_url_without_host() {
    let e = validate("mailto:user@example.com").unwrap_err();
    assert_eq!(e.kind, ErrorKind::InvalidUrl);
    assert_eq!(e.diagnostic, "the URL has no host");
}

#[test]
fn generated_code_has_length_and_alphabet() {
    let code = generate();
    assert_eq!(code.len(), CODE_LEN);
    assert_eq!(CODE_LEN, 10);
    assert!(code
        .chars()
        .all(|c| c.is_ascii_alphanumeric() || c == '_' || c == '-'));
}

#[test]
fn generated_codes_vary() {
    let a = generate();
    let b = generate();
    assert_ne!(a, b);
}
