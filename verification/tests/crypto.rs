use riversd::crypto::{
    decrypt_error_message, decrypt_key_version, hash_password, hmac_hex, random_base64url,
    random_hex, random_len, sha256_hex, sha512_hex, timing_safe_equal, verify_password,
    hmac_key, keystore_missing_message, DecryptFailure, LockboxLookup, admin_body_hash,
    admin_identity, decode_signature_hex,
};

#[test]
fn random_lengths() {
    assert_eq!(random_len(None), 16);
    assert_eq!(random_len(Some(8)), 8);
    assert_eq!(random_len(Some(5000)), 1024);
    assert_eq!(random_len(Some(-1)), 1024);
    assert_eq!(random_hex(Some(4)).len(), 8);
    assert_eq!(random_hex(Some(0)), "");
    assert!(random_hex(None).chars().all(|c| c.is_ascii_hexdigit() && !c.is_ascii_uppercase()));
    assert_eq!(random_base64url(Some(3)).len(), 4);
    assert_eq!(random_base64url(Some(4)).len(), 6);
    assert!(random_base64url(None).chars().all(|c| c.is_ascii_alphanumeric() || c == '-' || c == '_'));
}

#[test]
fn digests_are_lowercase_hex() {
    assert_eq!(
        sha256_hex("abc"),
        "ba7816bf8f01cfea414140de5dae2223b00361a396177a9cb410ff61f20015ad"
    );
    assert_eq!(sha512_hex("").len(), 128);
    assert_eq!(
        hmac_hex("key", "The quick brown fox jumps over the lazy dog").unwrap(),
        "f7bc83f430538424b13298e6aa6fb143ef4d59a14946175997479dbc2d1a3cd8"
    );
}

#[test]
fn timing_safe_comparison() {
    assert!(timing_safe_equal("abc", "abc"));
    assert!(!timing_safe_equal("abc", "abd"));
    assert!(!timing_safe_equal("abc", "abcd"));
    assert!(timing_safe_equal("", ""));
}

#[test]
fn passwords_round_trip() {
    let h = hash_password("s3cret").unwrap();
    assert_eq!(h.len(), 60);
    assert!(h.starts_with("$2b$12$"));
    assert!(verify_password("s3cret", &h));
    assert!(!verify_password("wrong", &h));
    assert!(!verify_password("s3cret", "not a hash"));
}

#[test]
fn decrypt_rules() {
    assert_eq!(decrypt_key_version(Some(3)).unwrap(), 3);
    assert_eq!(
        decrypt_key_version(None).unwrap_err(),
        "Rivers.crypto.decrypt: options.key_version is required"
    );
    assert_eq!(decrypt_error_message(&DecryptFailure::KeyNotFound("no key k".into())), "no key k");
    assert_eq!(decrypt_error_message(&DecryptFailure::Other("tag mismatch".into())), "decryption failed");
}

#[test]
fn hmac_key_resolution() {
    assert_eq!(hmac_key("raw-key", LockboxLookup::NoLockbox).unwrap(), "raw-key");
    assert_eq!(
        hmac_key("signing", LockboxLookup::UnknownAlias).unwrap_err(),
        "lockbox alias not found: 'signing'"
    );
    assert_eq!(
        hmac_key("signing", LockboxLookup::FetchFailed("locked".to_string())).unwrap_err(),
        "lockbox fetch failed: locked"
    );
    assert_eq!(hmac_key("signing", LockboxLookup::Secret("s3".to_string())).unwrap(), "s3");
    assert_eq!(
        keystore_missing_message(true),
        "keystore not configured: no [[keystores]] resource declared"
    );
    assert_eq!(keystore_missing_message(false), "keystore not configured");
}

#[test]
fn admin_signature_helpers() {
    assert_eq!(
        admin_body_hash(b""),
        "e3b0c44298fc1c149afbf4c8996fb92427ae41e4649b934ca495991b7852b855"
    );
    assert_eq!(admin_identity("abc"), sha256_hex("abc"));
    assert_eq!(
        admin_identity("abc"),
        "ba7816bf8f01cfea414140de5dae2223b00361a396177a9cb410ff61f20015ad"
    );
    assert_eq!(decode_signature_hex("00fF10"), Some(vec![0x00, 0xff, 0x10]));
    assert_eq!(decode_signature_hex("0"), None);
    assert_eq!(decode_signature_hex("0g"), None);
    assert_eq!(decode_signature_hex("é1"), None);
    assert_eq!(decode_signature_hex(""), Some(vec![]));
}
