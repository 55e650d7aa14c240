//! The error surface of the HTTP boundary and the user record it
//! exchanges.  The HTTP layer itself — routing, response formatting,
//! header handling — is an external collaborator; the library owns the
//! error taxonomy, its status mapping, and the choice of payload.

use vstd::prelude::*;

use crate::token::Identifier;

verus! {

/// The errors the boundary reports to callers.
#[derive(Debug, Clone, PartialEq, Eq)]
pub enum ApiError {
    /// Something inside the service failed.
    InternalError,
    /// The request was malformed.
    BadRequest,
    /// An upstream call took too long.
    Timeout,
    /// The request was well-formed but wrong for the user, with the
    /// message shown to them.
    UserError(String),
}

impl ApiError {
    /// The HTTP status the error is reported under.  A user error travels
    /// as an ordinary successful response whose JSON body carries the
    /// failure state.
    pub fn status_code(&self) -> (c: u16)
        ensures
            match self {
                ApiError::InternalError => c == 500,
                ApiError::BadRequest => c == 400,
                ApiError::Timeout => c == 504,
                ApiError::UserError(_) => c == 200,
            },
    {
        match self {
            ApiError::InternalError => 500,
            ApiError::BadRequest => 400,
            ApiError::Timeout => 504,
            ApiError::UserError(_) => 200,
        }
    }

    /// The message for the JSON failure payload: present exactly for a
    /// user error; every other error is reported as plain text instead.
    pub fn user_message(&self) -> (m: Option<String>)
        ensures
            match self {
                ApiError::UserError(s) => m == Some(*s),
                _ => m is None,
            },
    {
        match self {
            ApiError::UserError(s) => Some(s.clone()),
            _ => None,
        }
    }
}

/// The registration outcome a client is shown: duplicate or dangling data
/// is the user's to fix, with the store's message; anything else is the
/// service's fault.
pub fn register_outcome(r: Result<(), crate::db::Error>) -> (out: Result<(), ApiError>)
    ensures
        match r {
            Ok(_) => out is Ok,
            Err(e) => match e {
                crate::db::Error::DuplicateData(m) => out == Err::<(), ApiError>(
                    ApiError::UserError(m),
                ),
                crate::db::Error::ForeignKeyViolation(m) => out == Err::<(), ApiError>(
                    ApiError::UserError(m),
                ),
                _ => out == Err::<(), ApiError>(ApiError::InternalError),
            },
        },
{
    match r {
        Ok(_) => Ok(()),
        Err(e) => match e {
            crate::db::Error::DuplicateData(m) => Err(ApiError::UserError(m)),
            crate::db::Error::ForeignKeyViolation(m) => Err(ApiError::UserError(m)),
            _ => Err(ApiError::InternalError),
        },
    }
}

/// The login outcome a client is shown: any failure to verify the
/// credentials reads as one and the same user error, naming neither the
/// account nor the cause.
pub fn login_outcome<T>(r: Result<T, crate::db::Error>) -> (out: Result<T, ApiError>)
    ensures
        match r {
            Ok(v) => out == Ok::<T, ApiError>(v),
            Err(_) => out matches Err(e) && (e matches ApiError::UserError(m) && m@
                == "username or password is invalid"@),
        },
{
    match r {
        Ok(v) => Ok(v),
        Err(_) => Err(ApiError::UserError("username or password is invalid".to_owned())),
    }
}

/// A user as the boundary exchanges it: the name that identifies the
/// account and the password presented with it.
#[derive(Debug, Clone, PartialEq, Eq)]
pub struct User {
    pub user_name: String,
    pub passwd: String,
}

impl Identifier for User {
    /// A user is cached under their account name.
    open spec fn spec_id(&self) -> Seq<char> {
        self.user_name@
    }

    fn id(&self) -> (r: String) {
        self.user_name.clone()
    }
}

} // verus!
