//! The response envelope's data and the error taxonomy the endpoints
//! speak in.

use vstd::prelude::*;

verus! {

/// The body of every API response: a success flag, then either a payload
/// or an error code.
#[derive(Debug)]
pub struct ApiResponseData<T> {
    pub success: bool,
    pub data: Option<T>,
    pub error: Option<&'static str>,
}

impl<T> ApiResponseData<T> {
    /// A successful envelope around `data`.
    pub fn done(data: T) -> (r: ApiResponseData<T>)
        ensures
            r.success,
            r.data is Some,
            r.error is None,
    {
        ApiResponseData { success: true, data: Some(data), error: None }
    }

    /// A failed envelope carrying only the error code.
    pub fn failed(error: &'static str) -> (r: ApiResponseData<T>)
        ensures
            !r.success,
            r.data is None,
            r.error == Some(error),
    {
        ApiResponseData { success: false, data: None, error: Some(error) }
    }
}

/// An error as the HTTP layer classifies it, with its response code text.
#[derive(Debug, Clone, Copy)]
pub enum AppError {
    NotFound(&'static str),
    Unauthorized(&'static str),
    BadRequest(&'static str),
    Internal(&'static str),
    Forbidden(&'static str),
    Conflict(&'static str),
}

/// What went wrong inside an endpoint, before HTTP classification.
#[derive(Debug, Clone, Copy, PartialEq, Eq, Structural)]
pub enum FuncError {
    UserNotFound,
    IncorrectPassword,
    IncorrectData,
    UserAlreadyExists,
    UsernameExists,
    InternalServerError,
    Unauthorized,
    ExpiredToken,
    InvalidToken,
}

impl FuncError {
    /// The HTTP classification of each endpoint error, with its code text.
    pub fn to_app_error(&self) -> (r: AppError)
        ensures
            *self is UserNotFound ==> (r matches AppError::NotFound(m) && m@ == ("USER_NOT_FOUND")@),
            *self is IncorrectPassword ==> (r matches AppError::Unauthorized(m) && m@ == ("INCORRECT_PASSWORD")@),
            *self is IncorrectData ==> (r matches AppError::BadRequest(m) && m@ == ("INCORRECT_DATA")@),
            *self is UserAlreadyExists ==> (r matches AppError::Conflict(m) && m@ == ("USER_ALREADY_EXISTS")@),
            *self is UsernameExists ==> (r matches AppError::Conflict(m) && m@ == ("USERNAME_EXISTS")@),
            *self is InternalServerError ==> (r matches AppError::Internal(m) && m@ == ("INTERNAL_SERVER_ERROR")@),
            *self is Unauthorized ==> (r matches AppError::Unauthorized(m) && m@ == ("UNAUTHORIZED")@),
            *self is ExpiredToken ==> (r matches AppError::Unauthorized(m) && m@ == ("EXPIRED_TOKEN")@),
            *self is InvalidToken ==> (r matches AppError::Unauthorized(m) && m@ == ("INVALID_TOKEN")@),
    {
        match self {
            FuncError::UserNotFound => AppError::NotFound("USER_NOT_FOUND"),
            FuncError::IncorrectPassword => AppError::Unauthorized("INCORRECT_PASSWORD"),
            FuncError::IncorrectData => AppError::BadRequest("INCORRECT_DATA"),
            FuncError::UserAlreadyExists => AppError::Conflict("USER_ALREADY_EXISTS"),
            FuncError::UsernameExists => AppError::Conflict("USERNAME_EXISTS"),
            FuncError::InternalServerError => AppError::Internal("INTERNAL_SERVER_ERROR"),
            FuncError::Unauthorized => AppError::Unauthorized("UNAUTHORIZED"),
            FuncError::ExpiredToken => AppError::Unauthorized("EXPIRED_TOKEN"),
            FuncError::InvalidToken => AppError::Unauthorized("INVALID_TOKEN"),
        }
    }
}

impl crate::session::AuthError {
    /// How the request layer reports each authentication failure: token
    /// troubles collapse to the generic unauthorized classifications the
    /// endpoints already use.
    pub fn to_func_error(&self) -> (r: FuncError)
        ensures
            *self is ExpiredToken ==> r == FuncError::ExpiredToken,
            *self is StaleSecret ==> r == FuncError::InvalidToken,
            (*self is MalformedToken || *self is InvalidSignature || *self is WrongTokenKind)
                ==> r == FuncError::Unauthorized,
    {
        match self {
            crate::session::AuthError::ExpiredToken => FuncError::ExpiredToken,
            crate::session::AuthError::StaleSecret => FuncError::InvalidToken,
            crate::session::AuthError::MalformedToken => FuncError::Unauthorized,
            crate::session::AuthError::InvalidSignature => FuncError::Unauthorized,
            crate::session::AuthError::WrongTokenKind => FuncError::Unauthorized,
        }
    }
}

} // verus!
