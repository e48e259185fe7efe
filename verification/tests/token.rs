use sockudo::token::{secure_compare, Token};

#[test]
fn secure_compare_is_equality() {
    assert!(secure_compare("abc", "abc"));
    assert!(secure_compare("", ""));
    assert!(!secure_compare("abc", "abd"));
    assert!(!secure_compare("abc", "ab"));
    assert!(!secure_compare("é", "ab"));
}

#[test]
fn sign_gives_hmac_sha256_in_hex() {
    let token = Token::new("key".to_string(), "key".to_string());
    assert_eq!(
        token.sign("The quick brown fox jumps over the lazy dog".to_string()),
        "f7bc83f430538424b13298e6aa6fb143ef4d59a14946175997479dbc2d1a3cd8"
    );
}

#[test]
fn verify_accepts_own_signature_only() {
    let token = Token::new("app-key".to_string(), "secret".to_string());
    let signature = token.sign("data".to_string());
    assert!(token.verify("data".to_string(), &signature));
    assert!(!token.verify("date".to_string(), &signature));
    assert!(!token.verify("data".to_string(), "00"));
}
