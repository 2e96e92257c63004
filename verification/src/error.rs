//! The error taxonomy of the authorization pipeline and its transport statuses.

use vstd::prelude::*;

verus! {

/// Why a request was refused.
#[derive(Debug, Clone, PartialEq, Eq)]
pub enum AuthError {
    /// A required header is absent.
    MissingHeaders,
    /// The signature is malformed or was not made by the declared sender.
    InvalidSignature,
    /// The signed digest does not match the declared state and body.
    InvalidMessage,
    /// The nonce is not strictly greater than the stored one.
    InvalidNonce,
    /// The declared balance does not cover the payment or the escrow.
    InsufficientBalance,
    /// The expiration disagrees with the contract, or the timestamp is stale.
    Expired,
    /// A channel field disagrees with the contract or with the stored record.
    InvalidChannel,
    /// No such channel (reserved).
    ChannelNotFound,
    /// The sender has used up the current rate window.
    RateLimitExceeded,
    /// A contract call failed.
    ContractError(String),
    /// The RPC transport failed.
    NetworkError(String),
    /// The startup configuration is unusable.
    InvalidConfig,
}

/// The transport statuses that a refusal can map to.
#[derive(Debug, Clone, Copy, PartialEq, Eq, Structural)]
pub enum StatusCode {
    BadRequest,
    Unauthorized,
    PaymentRequired,
    NotFound,
    RequestTimeout,
    TooManyRequests,
    InternalServerError,
}

impl StatusCode {
    /// The numeric HTTP status.
    pub open spec fn code(self) -> u16 {
        match self {
            StatusCode::BadRequest => 400,
            StatusCode::Unauthorized => 401,
            StatusCode::PaymentRequired => 402,
            StatusCode::NotFound => 404,
            StatusCode::RequestTimeout => 408,
            StatusCode::TooManyRequests => 429,
            StatusCode::InternalServerError => 500,
        }
    }

    /// The numeric HTTP status.
    pub fn as_u16(&self) -> (code: u16)
        ensures
            code == self.code(),
    {
        match self {
            StatusCode::BadRequest => 400,
            StatusCode::Unauthorized => 401,
            StatusCode::PaymentRequired => 402,
            StatusCode::NotFound => 404,
            StatusCode::RequestTimeout => 408,
            StatusCode::TooManyRequests => 429,
            StatusCode::InternalServerError => 500,
        }
    }
}

impl AuthError {
    /// The transport status of each kind of refusal.
    pub open spec fn status(self) -> StatusCode {
        match self {
            AuthError::MissingHeaders => StatusCode::BadRequest,
            AuthError::InvalidSignature => StatusCode::Unauthorized,
            AuthError::InvalidMessage => StatusCode::BadRequest,
            AuthError::InvalidNonce => StatusCode::BadRequest,
            AuthError::InsufficientBalance => StatusCode::PaymentRequired,
            AuthError::Expired => StatusCode::RequestTimeout,
            AuthError::InvalidChannel => StatusCode::BadRequest,
            AuthError::ChannelNotFound => StatusCode::NotFound,
            AuthError::RateLimitExceeded => StatusCode::TooManyRequests,
            AuthError::ContractError(_) => StatusCode::InternalServerError,
            AuthError::NetworkError(_) => StatusCode::InternalServerError,
            AuthError::InvalidConfig => StatusCode::BadRequest,
        }
    }

    /// The transport status of this refusal.
    pub fn status_code(&self) -> (status: StatusCode)
        ensures
            status == self.status(),
    {
        match self {
            AuthError::MissingHeaders => StatusCode::BadRequest,
            AuthError::InvalidSignature => StatusCode::Unauthorized,
            AuthError::InvalidMessage => StatusCode::BadRequest,
            AuthError::InvalidNonce => StatusCode::BadRequest,
            AuthError::InsufficientBalance => StatusCode::PaymentRequired,
            AuthError::Expired => StatusCode::RequestTimeout,
            AuthError::InvalidChannel => StatusCode::BadRequest,
            AuthError::ChannelNotFound => StatusCode::NotFound,
            AuthError::RateLimitExceeded => StatusCode::TooManyRequests,
            AuthError::ContractError(_) => StatusCode::InternalServerError,
            AuthError::NetworkError(_) => StatusCode::InternalServerError,
            AuthError::InvalidConfig => StatusCode::BadRequest,
        }
    }
}

impl From<AuthError> for StatusCode {
    fn from(error: AuthError) -> (status: StatusCode) {
        error.status_code()
    }
}

impl vstd::std_specs::convert::FromSpecImpl<AuthError> for StatusCode {
    open spec fn obeys_from_spec() -> bool {
        true
    }

    open spec fn from_spec(error: AuthError) -> StatusCode {
        error.status()
    }
}

} // verus!
