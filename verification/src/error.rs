//! Subsonic API error codes and errors.
//!
//! Error codes are defined by the Subsonic API specification; OpenSubsonic
//! adds codes 42 to 44.
use vstd::prelude::*;

verus! {

/// Subsonic API error codes.
#[derive(PartialEq, Eq, Structural, Clone, Copy, Debug)]
pub enum ErrorCode {
    /// A generic error.
    Generic,
    /// Required parameter is missing.
    MissingParameter,
    /// Incompatible Subsonic REST protocol version. Client must upgrade.
    ClientTooOld,
    /// Incompatible Subsonic REST protocol version. Server must upgrade.
    ServerTooOld,
    /// Wrong username or password.
    WrongCredentials,
    /// Token authentication not supported for LDAP users.
    TokenAuthNotSupported,
    /// Provided authentication mechanism not supported.
    AuthMechanismNotSupported,
    /// Multiple conflicting authentication mechanisms provided.
    ConflictingAuthMechanisms,
    /// API key not valid.
    InvalidApiKey,
    /// User is not authorized for the given operation.
    NotAuthorized,
    /// The trial period for the Subsonic server is over.
    TrialExpired,
    /// The requested data was not found.
    NotFound,
}

/// The number of each error code.
pub open spec fn code_number(c: ErrorCode) -> u32 {
    match c {
        ErrorCode::Generic => 0,
        ErrorCode::MissingParameter => 10,
        ErrorCode::ClientTooOld => 20,
        ErrorCode::ServerTooOld => 30,
        ErrorCode::WrongCredentials => 40,
        ErrorCode::TokenAuthNotSupported => 41,
        ErrorCode::AuthMechanismNotSupported => 42,
        ErrorCode::ConflictingAuthMechanisms => 43,
        ErrorCode::InvalidApiKey => 44,
        ErrorCode::NotAuthorized => 50,
        ErrorCode::TrialExpired => 60,
        ErrorCode::NotFound => 70,
    }
}

impl ErrorCode {
    /// The number of the code in the Subsonic protocol.
    pub fn number(self) -> (r: u32)
        ensures
            r == code_number(self),
    {
        match self {
            ErrorCode::Generic => 0,
            ErrorCode::MissingParameter => 10,
            ErrorCode::ClientTooOld => 20,
            ErrorCode::ServerTooOld => 30,
            ErrorCode::WrongCredentials => 40,
            ErrorCode::TokenAuthNotSupported => 41,
            ErrorCode::AuthMechanismNotSupported => 42,
            ErrorCode::ConflictingAuthMechanisms => 43,
            ErrorCode::InvalidApiKey => 44,
            ErrorCode::NotAuthorized => 50,
            ErrorCode::TrialExpired => 60,
            ErrorCode::NotFound => 70,
        }
    }
}

/// API errors that can be returned to clients.
#[derive(Debug)]
pub enum ApiError {
    Generic(String),
    MissingParameter(String),
    ClientTooOld,
    ServerTooOld,
    WrongCredentials,
    TokenAuthNotSupported,
    AuthMechanismNotSupported,
    ConflictingAuthMechanisms,
    InvalidApiKey,
    NotAuthorized,
    TrialExpired,
    NotFound(String),
}

/// The error code of each error.
pub open spec fn error_code(e: ApiError) -> ErrorCode {
    match e {
        ApiError::Generic(_) => ErrorCode::Generic,
        ApiError::MissingParameter(_) => ErrorCode::MissingParameter,
        ApiError::ClientTooOld => ErrorCode::ClientTooOld,
        ApiError::ServerTooOld => ErrorCode::ServerTooOld,
        ApiError::WrongCredentials => ErrorCode::WrongCredentials,
        ApiError::TokenAuthNotSupported => ErrorCode::TokenAuthNotSupported,
        ApiError::AuthMechanismNotSupported => ErrorCode::AuthMechanismNotSupported,
        ApiError::ConflictingAuthMechanisms => ErrorCode::ConflictingAuthMechanisms,
        ApiError::InvalidApiKey => ErrorCode::InvalidApiKey,
        ApiError::NotAuthorized => ErrorCode::NotAuthorized,
        ApiError::TrialExpired => ErrorCode::TrialExpired,
        ApiError::NotFound(_) => ErrorCode::NotFound,
    }
}

/// The message of each error.
pub open spec fn error_message(e: ApiError) -> Seq<char> {
    match e {
        ApiError::Generic(s) => "A generic error occurred: "@ + s@,
        ApiError::MissingParameter(s) => "Required parameter is missing: "@ + s@,
        ApiError::ClientTooOld => "Client protocol version too old, please upgrade"@,
        ApiError::ServerTooOld => "Server protocol version too old"@,
        ApiError::WrongCredentials => "Wrong username or password"@,
        ApiError::TokenAuthNotSupported => "Token authentication not supported for this user"@,
        ApiError::AuthMechanismNotSupported => "Provided authentication mechanism not supported"@,
        ApiError::ConflictingAuthMechanisms =>
            "Multiple conflicting authentication mechanisms provided"@,
        ApiError::InvalidApiKey => "API key not valid"@,
        ApiError::NotAuthorized => "User is not authorized for the given operation"@,
        ApiError::TrialExpired => "Trial period is over"@,
        ApiError::NotFound(s) => "Requested data was not found: "@ + s@,
    }
}

impl ApiError {
    /// Get the Subsonic error code for this error.
    pub fn code(&self) -> (r: u32)
        ensures
            r == code_number(error_code(*self)),
    {
        let c = match self {
            ApiError::Generic(_) => ErrorCode::Generic,
            ApiError::MissingParameter(_) => ErrorCode::MissingParameter,
            ApiError::ClientTooOld => ErrorCode::ClientTooOld,
            ApiError::ServerTooOld => ErrorCode::ServerTooOld,
            ApiError::WrongCredentials => ErrorCode::WrongCredentials,
            ApiError::TokenAuthNotSupported => ErrorCode::TokenAuthNotSupported,
            ApiError::AuthMechanismNotSupported => ErrorCode::AuthMechanismNotSupported,
            ApiError::ConflictingAuthMechanisms => ErrorCode::ConflictingAuthMechanisms,
            ApiError::InvalidApiKey => ErrorCode::InvalidApiKey,
            ApiError::NotAuthorized => ErrorCode::NotAuthorized,
            ApiError::TrialExpired => ErrorCode::TrialExpired,
            ApiError::NotFound(_) => ErrorCode::NotFound,
        };
        c.number()
    }

    /// Get the error message.
    pub fn message(&self) -> (r: String)
        ensures
            r@ == error_message(*self),
    {
        match self {
            ApiError::Generic(s) => {
                let mut m = "A generic error occurred: ".to_string();
                m.append(s.as_str());
                m
            },
            ApiError::MissingParameter(s) => {
                let mut m = "Required parameter is missing: ".to_string();
                m.append(s.as_str());
                m
            },
            ApiError::ClientTooOld => "Client protocol version too old, please upgrade".to_string(),
            ApiError::ServerTooOld => "Server protocol version too old".to_string(),
            ApiError::WrongCredentials => "Wrong username or password".to_string(),
            ApiError::TokenAuthNotSupported =>
                "Token authentication not supported for this user".to_string(),
            ApiError::AuthMechanismNotSupported =>
                "Provided authentication mechanism not supported".to_string(),
            ApiError::ConflictingAuthMechanisms =>
                "Multiple conflicting authentication mechanisms provided".to_string(),
            ApiError::InvalidApiKey => "API key not valid".to_string(),
            ApiError::NotAuthorized => "User is not authorized for the given operation".to_string(),
            ApiError::TrialExpired => "Trial period is over".to_string(),
            ApiError::NotFound(s) => {
                let mut m = "Requested data was not found: ".to_string();
                m.append(s.as_str());
                m
            },
        }
    }
}

} // verus!
