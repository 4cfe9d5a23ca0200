use subsonic::auth::token_matches;
use subsonic::auth::{
    auth_verdict, check_auth_params, credential, lookup_failure, AuthLookup, AuthParams,
    Credential,
};
use subsonic::error::ApiError;
use subsonic::response::Format;

fn params(u: &str, v: &str, c: &str) -> AuthParams {
    AuthParams {
        u: u.to_string(),
        v: v.to_string(),
        c: c.to_string(),
        ..Default::default()
    }
}

#[test]
fn test_hex_encoded_password() {
    // "password" in hex is "70617373776f7264"
    let encoded = "enc:70617373776f7264";
    let decoded = AuthParams::decode_password(encoded);
    assert_eq!(decoded, "password");

    // Plain password should be returned as-is
    let plain = "password";
    assert_eq!(AuthParams::decode_password(plain), "password");
}

#[test]
fn test_format_from_param() {
    assert_eq!(Format::from_param(None), Format::Xml);
    assert_eq!(Format::from_param(Some("xml")), Format::Xml);
    assert_eq!(Format::from_param(Some("json")), Format::Json);
    assert_eq!(Format::from_param(Some("jsonp")), Format::Json);
}

#[test]
fn test_params_merge() {
    let query = AuthParams {
        u: "user".into(),
        v: "1.16.1".into(),
        c: "test".into(),
        p: Some("pass".into()),
        ..Default::default()
    };
    let form = AuthParams {
        u: "other".into(),
        v: "1.15.0".into(),
        c: "other_client".into(),
        f: Some("json".into()),
        ..Default::default()
    };

    let merged = query.merge_with(form);

    // Query params should take precedence
    assert_eq!(merged.u, "user");
    assert_eq!(merged.v, "1.16.1");
    assert_eq!(merged.c, "test");
    assert_eq!(merged.p, Some("pass".into()));
    // Form params fill in missing values
    assert_eq!(merged.f, Some("json".into()));
}

#[test]
fn test_api_key_detection() {
    let with_api_key = AuthParams {
        api_key: Some("secret".into()),
        v: "1.16.1".into(),
        c: "test".into(),
        ..Default::default()
    };
    assert!(with_api_key.uses_api_key());
    assert!(!with_api_key.uses_user_auth());

    let with_user = AuthParams {
        u: "user".into(),
        p: Some("pass".into()),
        v: "1.16.1".into(),
        c: "test".into(),
        ..Default::default()
    };
    assert!(!with_user.uses_api_key());
    assert!(with_user.uses_user_auth());
}

#[test]
fn decode_password_keeps_undecodable_hex() {
    assert_eq!(AuthParams::decode_password("enc:7"), "enc:7");
    assert_eq!(AuthParams::decode_password("enc:zz"), "enc:zz");
    // 0xff is no UTF-8.
    assert_eq!(AuthParams::decode_password("enc:ff"), "enc:ff");
    assert_eq!(AuthParams::decode_password("enc:"), "");
    assert_eq!(AuthParams::decode_password("enc:4F4b"), "OK");
}

#[test]
fn merge_with_empty_params_changes_nothing() {
    let a = AuthParams {
        u: "user".into(),
        t: Some("tok".into()),
        s: Some("salt".into()),
        v: "1.16.1".into(),
        c: "client".into(),
        f: Some("json".into()),
        ..Default::default()
    };
    let merged = a.clone().merge_with(AuthParams::default());
    assert_eq!(merged.u, a.u);
    assert_eq!(merged.t, a.t);
    assert_eq!(merged.s, a.s);
    assert_eq!(merged.v, a.v);
    assert_eq!(merged.c, a.c);
    assert_eq!(merged.f, a.f);
    assert_eq!(merged.p, None);
    let other = AuthParams::default().merge_with(a.clone());
    assert_eq!(other.u, a.u);
    assert_eq!(other.t, a.t);
    assert_eq!(other.f, a.f);
}

#[test]
fn format_of_params() {
    let mut p = params("u", "1", "c");
    assert_eq!(p.format(), Format::Xml);
    p.f = Some("jsonp".into());
    assert_eq!(p.format(), Format::Json);
}

#[test]
fn check_auth_params_requires_version_and_client() {
    match check_auth_params(&params("user", "", "c")) {
        Err(ApiError::MissingParameter(m)) => assert_eq!(m, "v (version)"),
        _ => panic!("missing version must be refused"),
    }
    match check_auth_params(&params("user", "1.16.1", "")) {
        Err(ApiError::MissingParameter(m)) => assert_eq!(m, "c (client)"),
        _ => panic!("missing client must be refused"),
    }
}

#[test]
fn check_auth_params_refuses_conflicting_mechanisms() {
    let mut p = params("user", "1.16.1", "c");
    p.api_key = Some("key".into());
    assert!(matches!(check_auth_params(&p), Err(ApiError::ConflictingAuthMechanisms)));
    let mut q = params("", "1.16.1", "c");
    q.api_key = Some("key".into());
    q.t = Some("tok".into());
    assert!(matches!(check_auth_params(&q), Err(ApiError::ConflictingAuthMechanisms)));
}

#[test]
fn check_auth_params_names_the_lookup() {
    let mut p = params("", "1.16.1", "c");
    p.api_key = Some("key".into());
    match check_auth_params(&p) {
        Ok(AuthLookup::ApiKey(k)) => assert_eq!(k, "key"),
        _ => panic!("api key lookup expected"),
    }
    match check_auth_params(&params("alice", "1.16.1", "c")) {
        Ok(AuthLookup::Username(u)) => assert_eq!(u, "alice"),
        _ => panic!("username lookup expected"),
    }
    match check_auth_params(&params("", "1.16.1", "c")) {
        Err(ApiError::MissingParameter(m)) => assert_eq!(m, "u (username) or apiKey"),
        _ => panic!("missing username must be refused"),
    }
}

#[test]
fn lookup_failures_and_verdicts() {
    assert!(matches!(lookup_failure(&AuthLookup::ApiKey("k".into())), ApiError::InvalidApiKey));
    assert!(matches!(
        lookup_failure(&AuthLookup::Username("u".into())),
        ApiError::WrongCredentials
    ));
    assert!(auth_verdict(true).is_ok());
    assert!(matches!(auth_verdict(false), Err(ApiError::WrongCredentials)));
}

#[test]
fn credential_prefers_token_then_password() {
    let mut p = params("alice", "1.16.1", "c");
    p.t = Some("tok".into());
    p.s = Some("salt".into());
    p.p = Some("pw".into());
    match credential(&p) {
        Ok(Credential::Token { token, salt }) => {
            assert_eq!(token, "tok");
            assert_eq!(salt, "salt");
        }
        _ => panic!("token expected"),
    }
    let mut q = params("alice", "1.16.1", "c");
    q.t = Some("tok".into());
    q.p = Some("enc:70617373776f7264".into());
    match credential(&q) {
        Ok(Credential::Password(pw)) => assert_eq!(pw, "password"),
        _ => panic!("password expected"),
    }
    match credential(&params("alice", "1.16.1", "c")) {
        Err(ApiError::MissingParameter(m)) => assert_eq!(
            m,
            "authentication: 'apiKey', 'p' (password), or 't' and 's' (token and salt)"
        ),
        _ => panic!("missing credentials must be refused"),
    }
}

#[test]
fn enc_passwords_round_trip() {
    for password in ["pässwörd", "", "plain", "emoji 🎵 tune"] {
        let sent = format!("enc:{}", hex::encode(password.as_bytes()));
        assert_eq!(AuthParams::decode_password(&sent), password);
        let upper = format!("enc:{}", hex::encode_upper(password.as_bytes()));
        assert_eq!(AuthParams::decode_password(&upper), password);
    }
}

#[test]
fn token_is_md5_of_password_and_salt() {
    assert!(token_matches("sesame", "c19b2d", "26719a1196d2a940705a59634eb18eab"));
    assert!(!token_matches("sesame", "c19b2d", "26719A1196D2A940705A59634EB18EAB"));
    assert!(!token_matches("sesame", "other", "26719a1196d2a940705a59634eb18eab"));
    assert!(!token_matches("wrong", "c19b2d", "26719a1196d2a940705a59634eb18eab"));
}
