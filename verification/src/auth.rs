//! Authentication of Subsonic API requests.
//!
//! Every request names a client version `v` and a client `c`, and
//! authenticates either with an API key (`apiKey`, OpenSubsonic) or with a
//! username `u` and a password `p` (plain or `enc:` followed by hex) or a
//! token `t` with its salt `s`. Parameters may come from the query string and
//! from a form body; the query string takes precedence.
//!
//! The decisions of the authentication are functions from the request's
//! parameters, and from what the user store answered, to the next step.
use vstd::prelude::*;
use vstd::utf8::{valid_utf8, decode_utf8, encode_utf8};
use crate::encoding::{hex_bytes, hex_decode, hex_text, is_hex_text, lemma_hex_round_trip, utf8_string};
use crate::error::ApiError;
use crate::media::{str_eq, strip_prefix};
use crate::scanner::{md5, md5_digest};
use crate::encoding::hex_encode;
use crate::models::opt_view;
use crate::response::{spec_format, Format};

verus! {

/// Common parameters of all Subsonic API requests.
#[derive(Clone, Debug)]
pub struct AuthParams {
    /// Username.
    pub u: String,
    /// Password (legacy): plain, or `enc:` followed by its hex encoding.
    pub p: Option<String>,
    /// Authentication token, MD5(password + salt).
    pub t: Option<String>,
    /// Salt used to make the token.
    pub s: Option<String>,
    /// API key (OpenSubsonic).
    pub api_key: Option<String>,
    /// Client API version.
    pub v: String,
    /// Client identifier.
    pub c: String,
    /// Response format (`xml`, `json`, `jsonp`).
    pub f: Option<String>,
}

/// The parameters of a request as text.
#[verifier::ext_equal]
pub struct ParamsView {
    pub u: Seq<char>,
    pub p: Option<Seq<char>>,
    pub t: Option<Seq<char>>,
    pub s: Option<Seq<char>>,
    pub api_key: Option<Seq<char>>,
    pub v: Seq<char>,
    pub c: Seq<char>,
    pub f: Option<Seq<char>>,
}

impl View for AuthParams {
    type V = ParamsView;

    open spec fn view(&self) -> ParamsView {
        ParamsView {
            u: self.u@,
            p: opt_view(self.p),
            t: opt_view(self.t),
            s: opt_view(self.s),
            api_key: opt_view(self.api_key),
            v: self.v@,
            c: self.c@,
            f: opt_view(self.f),
        }
    }
}

/// A request without any parameter.
pub open spec fn no_params() -> ParamsView {
    ParamsView {
        u: Seq::empty(),
        p: None,
        t: None,
        s: None,
        api_key: None,
        v: Seq::empty(),
        c: Seq::empty(),
        f: None,
    }
}

/// `a` unless it is empty, else `b`.
pub open spec fn prefer_text(a: Seq<char>, b: Seq<char>) -> Seq<char> {
    if a.len() == 0 {
        b
    } else {
        a
    }
}

/// `a` unless it is absent, else `b`.
pub open spec fn prefer_opt(a: Option<Seq<char>>, b: Option<Seq<char>>) -> Option<Seq<char>> {
    if a is None {
        b
    } else {
        a
    }
}

/// The parameters of `a`, with those that `a` lacks taken from `b`.
pub open spec fn merged(a: ParamsView, b: ParamsView) -> ParamsView {
    ParamsView {
        u: prefer_text(a.u, b.u),
        p: prefer_opt(a.p, b.p),
        t: prefer_opt(a.t, b.t),
        s: prefer_opt(a.s, b.s),
        api_key: prefer_opt(a.api_key, b.api_key),
        v: prefer_text(a.v, b.v),
        c: prefer_text(a.c, b.c),
        f: prefer_opt(a.f, b.f),
    }
}

/// Whether the parameters authenticate by API key.
pub open spec fn spec_uses_api_key(a: ParamsView) -> bool {
    a.api_key is Some
}

/// Whether the parameters authenticate by username and password or token.
pub open spec fn spec_uses_user_auth(a: ParamsView) -> bool {
    a.u.len() > 0 || a.p is Some || a.t is Some
}

impl Default for AuthParams {
    fn default() -> (r: Self)
        ensures
            r@ == no_params(),
    {
        AuthParams {
            u: String::new(),
            p: None,
            t: None,
            s: None,
            api_key: None,
            v: String::new(),
            c: String::new(),
            f: None,
        }
    }
}

/// The password that the `p` parameter stands for: the text that the hex
/// after `enc:` encodes in UTF-8, or the parameter as it is when it has no
/// such prefix or the rest does not decode.
pub open spec fn spec_decode_password(p: Seq<char>) -> Seq<char> {
    if "enc:"@.is_prefix_of(p) {
        let h = p.skip(4);
        if is_hex_text(h) && valid_utf8(hex_bytes(h)) {
            decode_utf8(hex_bytes(h))
        } else {
            p
        }
    } else {
        p
    }
}

impl AuthParams {
    /// The response format that the `f` parameter asks for.
    pub fn format(&self) -> (r: Format)
        ensures
            r == spec_format(self@.f),
    {
        match &self.f {
            Some(f) => Format::from_param(Some(f.as_str())),
            None => Format::from_param(None),
        }
    }

    /// Decodes a password given as `enc:` followed by hex; any other
    /// password, or one whose hex does not decode to UTF-8, is returned as
    /// it is.
    pub fn decode_password(password: &str) -> (r: String)
        ensures
            r@ == spec_decode_password(password@),
    {
        proof {
            reveal_strlit("enc:");
        }
        match strip_prefix(password, "enc:") {
            Some(h) => {
                assert(h@ =~= password@.skip(4));
                match hex_decode(h) {
                    Some(bytes) => match utf8_string(bytes) {
                        Some(s) => s,
                        None => password.to_string(),
                    },
                    None => password.to_string(),
                }
            },
            None => password.to_string(),
        }
    }

    /// These parameters, with each one that is missing (an empty `u`, `v`
    /// or `c`, an absent optional one) taken from `other`: query parameters
    /// take precedence over form parameters.
    pub fn merge_with(self, other: AuthParams) -> (r: Self)
        ensures
            r@ == merged(self@, other@),
    {
        let AuthParams { u, p, t, s, api_key, v, c, f } = other;
        let mut r = self;
        if r.u.as_str().is_empty() {
            r.u = u;
        }
        if r.p.is_none() {
            r.p = p;
        }
        if r.t.is_none() {
            r.t = t;
        }
        if r.s.is_none() {
            r.s = s;
        }
        if r.api_key.is_none() {
            r.api_key = api_key;
        }
        if r.v.as_str().is_empty() {
            r.v = v;
        }
        if r.c.as_str().is_empty() {
            r.c = c;
        }
        if r.f.is_none() {
            r.f = f;
        }
        r
    }

    /// Whether an API key is given.
    pub fn uses_api_key(&self) -> (r: bool)
        ensures
            r == spec_uses_api_key(self@),
    {
        self.api_key.is_some()
    }

    /// Whether a username, a password or a token is given.
    pub fn uses_user_auth(&self) -> (r: bool)
        ensures
            r == spec_uses_user_auth(self@),
    {
        !self.u.as_str().is_empty() || self.p.is_some() || self.t.is_some()
    }
}

/// What the user store is asked for, once the parameters are in order.
pub enum AuthLookup {
    /// The user that owns this API key.
    ApiKey(String),
    /// The user with this username.
    Username(String),
}

/// How a user found by username proves who they are.
pub enum Credential {
    /// A token and its salt, to be checked against MD5(password + salt).
    Token { token: String, salt: String },
    /// A password, decoded from its `enc:` form where it has one.
    Password(String),
}

/// A refused request: the error and the format to answer it in.
pub struct AuthError {
    pub error: ApiError,
    pub format: Format,
}

/// The first step of authentication: check the parameters and say which
/// user to look up.
///
/// `v` and `c` must be given; an API key together with a username, password
/// or token conflicts; an API key alone asks for its owner; otherwise a
/// username must be given, and its user is asked for.
pub fn check_auth_params(params: &AuthParams) -> (r: Result<AuthLookup, ApiError>)
    ensures
        params@.v.len() == 0 ==> (r matches Err(ApiError::MissingParameter(m)) && m@
            == "v (version)"@),
        params@.v.len() > 0 && params@.c.len() == 0 ==> (r matches Err(
            ApiError::MissingParameter(m),
        ) && m@ == "c (client)"@),
        params@.v.len() > 0 && params@.c.len() > 0 ==> {
            if spec_uses_api_key(params@) && spec_uses_user_auth(params@) {
                r matches Err(ApiError::ConflictingAuthMechanisms)
            } else if spec_uses_api_key(params@) {
                r matches Ok(AuthLookup::ApiKey(k)) && params@.api_key == Some(k@)
            } else if params@.u.len() == 0 {
                r matches Err(ApiError::MissingParameter(m)) && m@ == "u (username) or apiKey"@
            } else {
                r matches Ok(AuthLookup::Username(u)) && u@ == params@.u
            }
        },
{
    if params.v.as_str().is_empty() {
        return Err(ApiError::MissingParameter("v (version)".to_string()));
    }
    if params.c.as_str().is_empty() {
        return Err(ApiError::MissingParameter("c (client)".to_string()));
    }
    if params.uses_api_key() && params.uses_user_auth() {
        return Err(ApiError::ConflictingAuthMechanisms);
    }
    match &params.api_key {
        Some(key) => Ok(AuthLookup::ApiKey(key.clone())),
        None => {
            if params.u.as_str().is_empty() {
                Err(ApiError::MissingParameter("u (username) or apiKey".to_string()))
            } else {
                Ok(AuthLookup::Username(params.u.clone()))
            }
        },
    }
}

/// The error for a lookup that found no user: an unknown API key is
/// invalid, an unknown username is wrong credentials.
pub fn lookup_failure(lookup: &AuthLookup) -> (r: ApiError)
    ensures
        lookup is ApiKey ==> r is InvalidApiKey,
        lookup is Username ==> r is WrongCredentials,
{
    match lookup {
        AuthLookup::ApiKey(_) => ApiError::InvalidApiKey,
        AuthLookup::Username(_) => ApiError::WrongCredentials,
    }
}

/// The second step for a user found by username: the credential to check.
/// A token with its salt comes first, then a password; with neither the
/// request lacks a parameter.
pub fn credential(params: &AuthParams) -> (r: Result<Credential, ApiError>)
    ensures
        params@.t is Some && params@.s is Some ==> (r matches Ok(
            Credential::Token { token, salt },
        ) && params@.t == Some(token@) && params@.s == Some(salt@)),
        !(params@.t is Some && params@.s is Some) && params@.p is Some ==> (r matches Ok(
            Credential::Password(pw),
        ) && pw@ == spec_decode_password(params@.p->0)),
        !(params@.t is Some && params@.s is Some) && params@.p is None ==> (r matches Err(
            ApiError::MissingParameter(m),
        ) && m@ == "authentication: 'apiKey', 'p' (password), or 't' and 's' (token and salt)"@),
{
    match (&params.t, &params.s) {
        (Some(token), Some(salt)) => {
            return Ok(Credential::Token { token: token.clone(), salt: salt.clone() });
        },
        _ => {},
    }
    match &params.p {
        Some(p) => Ok(Credential::Password(AuthParams::decode_password(p.as_str()))),
        None => Err(
            ApiError::MissingParameter(
                "authentication: 'apiKey', 'p' (password), or 't' and 's' (token and salt)".to_string(),
            ),
        ),
    }
}

/// The token that proves knowledge of `password` with `salt`: the MD5 digest
/// of the UTF-8 bytes of the password followed by the salt, in lowercase
/// hexadecimal.
pub open spec fn spec_token(password: Seq<char>, salt: Seq<char>) -> Seq<char> {
    hex_text(md5(encode_utf8(password + salt)))
}

/// Whether a token sent with its salt matches a password (token
/// authentication: `t` = MD5(password + salt) in lowercase hex).
pub fn token_matches(password: &str, salt: &str, token: &str) -> (r: bool)
    ensures
        r == (token@ == spec_token(password@, salt@)),
{
    let mut joined = password.to_string();
    joined.append(salt);
    let digest = md5_digest(joined.as_str().as_bytes());
    let expected = hex_encode(digest.as_slice());
    str_eq(token, expected.as_str())
}

/// The last step: a credential that did not check out is wrong credentials.
pub fn auth_verdict(authenticated: bool) -> (r: Result<(), ApiError>)
    ensures
        authenticated <==> r is Ok,
        !authenticated ==> r matches Err(ApiError::WrongCredentials),
{
    if authenticated {
        Ok(())
    } else {
        Err(ApiError::WrongCredentials)
    }
}

/// Merging with a request that has no parameters changes nothing.
pub proof fn lemma_merge_with_nothing(a: ParamsView)
    ensures
        merged(a, no_params()) == a,
{
    assert(merged(a, no_params()) =~= a);
}

/// Parameters merged into a request that has none are taken as they are.
pub proof fn lemma_merge_into_nothing(b: ParamsView)
    ensures
        merged(no_params(), b) == b,
{
    assert(merged(no_params(), b) =~= b);
}

/// A password sent as `enc:` followed by the hex of its UTF-8 bytes is
/// decoded back to the password.
pub proof fn lemma_enc_password_round_trip(p: Seq<char>)
    ensures
        spec_decode_password("enc:"@ + hex_text(encode_utf8(p))) == p,
{
    broadcast use vstd::utf8::encode_utf8_valid_utf8, vstd::utf8::encode_utf8_decode_utf8;

    reveal_strlit("enc:");
    let h = hex_text(encode_utf8(p));
    let s = "enc:"@ + h;
    assert("enc:"@.is_prefix_of(s)) by {
        assert(s.take(4) =~= "enc:"@);
    }
    assert(s.skip(4) =~= h);
    lemma_hex_round_trip(encode_utf8(p));
}

} // verus!
