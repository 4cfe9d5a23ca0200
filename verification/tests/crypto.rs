use subsonic::crypto::hash_password_with_salt;
use subsonic::crypto::{hash_outcome, hash_password, verify_outcome, verify_password, PasswordError};

#[test]
fn test_hash_password() {
    let hash = hash_password("test_password").unwrap();
    assert!(hash.starts_with("$argon2id$"));
    assert!(hash.len() > 50); // Argon2 hashes are fairly long
}

#[test]
fn test_verify_correct_password() {
    let hash = hash_password("correct_password").unwrap();
    assert!(verify_password("correct_password", &hash).unwrap());
}

#[test]
fn test_verify_wrong_password() {
    let hash = hash_password("correct_password").unwrap();
    assert!(!verify_password("wrong_password", &hash).unwrap());
}

#[test]
fn test_different_passwords_different_hashes() {
    let hash1 = hash_password("password1").unwrap();
    let hash2 = hash_password("password1").unwrap();
    // Same password should produce different hashes (different salts)
    assert_ne!(hash1, hash2);
}

#[test]
fn test_invalid_hash_format() {
    let result = verify_password("password", "not_a_valid_hash");
    assert!(matches!(result, Err(PasswordError::InvalidHash)));
}

#[test]
fn outcomes_map_errors() {
    assert_eq!(hash_outcome(Ok("h".to_string())).unwrap(), "h");
    match hash_outcome(Err("bad".to_string())) {
        Err(PasswordError::HashError(m)) => assert_eq!(m, "bad"),
        _ => panic!("hash error expected"),
    }
    assert!(verify_outcome(Ok(true)).unwrap());
    match verify_outcome(Err("broken".to_string())) {
        Err(PasswordError::VerifyError(m)) => assert_eq!(m, "broken"),
        _ => panic!("verify error expected"),
    }
}

#[test]
fn hashes_that_do_not_begin_with_a_dollar_are_invalid() {
    assert!(matches!(verify_password("pw", ""), Err(PasswordError::InvalidHash)));
    assert!(matches!(verify_password("pw", "argon2id$v=19"), Err(PasswordError::InvalidHash)));
}

#[test]
fn any_password_gets_a_verdict_against_an_argon2id_hash() {
    let hash = hash_password("").expect("hashing always succeeds");
    assert!(hash.starts_with("$argon2id$"));
    assert_eq!(verify_password("", &hash).ok(), Some(true));
    assert_eq!(verify_password("other", &hash).ok(), Some(false));
}

#[test]
fn hashing_with_a_given_salt_is_deterministic() {
    let salt = "AAAAAAAAAAAAAAAAAAAAAA";
    let a = hash_password_with_salt("pw", salt).expect("valid salt");
    let b = hash_password_with_salt("pw", salt).expect("valid salt");
    assert_eq!(a, b);
    assert!(a.starts_with("$argon2id$"));
    assert_eq!(verify_password("pw", &a).ok(), Some(true));
    assert!(matches!(hash_password_with_salt("pw", "bad salt!"), Err(PasswordError::HashError(_))));
}
