//! The errors of the API.
use crate::protocol::ApiError;
use vstd::prelude::*;

verus! {

/// Why a request fails.
#[derive(Debug, Clone, PartialEq, Eq)]
pub enum AppError {
    /// The request is at fault, for the reason given.
    BadRequest(String),
    Unauthorized,
    Forbidden,
    NotFound,
    /// The request clashes with what is there.
    Conflict(String),
    /// The relay is at fault; the reason is for its log alone.
    Internal(String),
}

impl AppError {
    /// The HTTP status of the reply.
    pub open spec fn status(self) -> u16 {
        match self {
            AppError::BadRequest(_) => 400,
            AppError::Unauthorized => 401,
            AppError::Forbidden => 403,
            AppError::NotFound => 404,
            AppError::Conflict(_) => 409,
            AppError::Internal(_) => 500,
        }
    }

    /// The machine-readable code of the reply.
    pub open spec fn code(self) -> Seq<char> {
        match self {
            AppError::BadRequest(_) => "bad_request"@,
            AppError::Unauthorized => "unauthorized"@,
            AppError::Forbidden => "forbidden"@,
            AppError::NotFound => "not_found"@,
            AppError::Conflict(_) => "conflict"@,
            AppError::Internal(_) => "internal_error"@,
        }
    }

    /// The message of the reply.
    pub open spec fn reply_message(self) -> Seq<char> {
        match self {
            AppError::BadRequest(m) => m@,
            AppError::Unauthorized => "Authentication required"@,
            AppError::Forbidden => "Forbidden"@,
            AppError::NotFound => "Not found"@,
            AppError::Conflict(m) => m@,
            AppError::Internal(_) => "Internal server error"@,
        }
    }

    /// The reply to a failed request: its status and its body.
    pub fn into_response(self) -> (r: (u16, ApiError))
        ensures
            r.0 == self.status(),
            r.1.code@ == self.code(),
            r.1.message@ == self.reply_message(),
    {
        match self {
            AppError::BadRequest(message) => (
                400,
                ApiError { code: "bad_request".to_owned(), message },
            ),
            AppError::Unauthorized => (
                401,
                ApiError {
                    code: "unauthorized".to_owned(),
                    message: "Authentication required".to_owned(),
                },
            ),
            AppError::Forbidden => (
                403,
                ApiError { code: "forbidden".to_owned(), message: "Forbidden".to_owned() },
            ),
            AppError::NotFound => (
                404,
                ApiError { code: "not_found".to_owned(), message: "Not found".to_owned() },
            ),
            AppError::Conflict(message) => (
                409,
                ApiError { code: "conflict".to_owned(), message },
            ),
            AppError::Internal(_) => (
                500,
                ApiError {
                    code: "internal_error".to_owned(),
                    message: "Internal server error".to_owned(),
                },
            ),
        }
    }

    /// The text that names the error in a log.
    pub open spec fn described(self) -> Seq<char> {
        match self {
            AppError::BadRequest(m) => m@,
            AppError::Unauthorized => "authentication required"@,
            AppError::Forbidden => "forbidden"@,
            AppError::NotFound => "not found"@,
            AppError::Conflict(m) => "conflict: "@ + m@,
            AppError::Internal(m) => m@,
        }
    }

    /// Writes the error for a log.
    pub fn describe(&self) -> (r: String)
        ensures
            r@ == self.described(),
    {
        match self {
            AppError::BadRequest(m) => m.clone(),
            AppError::Unauthorized => "authentication required".to_owned(),
            AppError::Forbidden => "forbidden".to_owned(),
            AppError::NotFound => "not found".to_owned(),
            AppError::Conflict(m) => crate::text::join("conflict: ", m.as_str()),
            AppError::Internal(m) => m.clone(),
        }
    }
}

/// What an internal failure says stays inside: two of them are answered alike.
pub proof fn law_internal_detail_stays_inside(a: String, b: String)
    ensures
        AppError::Internal(a).status() == AppError::Internal(b).status(),
        AppError::Internal(a).code() == AppError::Internal(b).code(),
        AppError::Internal(a).reply_message() == AppError::Internal(b).reply_message(),
{
}

/// Whether an error is a bad request with a given reason.
pub open spec fn bad(e: AppError, reason: Seq<char>) -> bool {
    e matches AppError::BadRequest(m) && m@ == reason
}

/// Whether an error is a conflict with a given reason.
pub open spec fn clash(e: AppError, reason: Seq<char>) -> bool {
    e matches AppError::Conflict(m) && m@ == reason
}

/// Whether an error is an internal failure with a given reason.
pub open spec fn fault(e: AppError, reason: Seq<char>) -> bool {
    e matches AppError::Internal(m) && m@ == reason
}

/// A bad request.
pub fn bad_request(reason: &str) -> (r: AppError)
    ensures
        bad(r, reason@),
{
    AppError::BadRequest(reason.to_owned())
}

/// Each error has its status and its code, and the reasons of bad requests and conflicts are told.
pub proof fn law_errors_are_told(reason: String)
    ensures
        AppError::BadRequest(reason).status() == 400,
        AppError::Unauthorized.status() == 401,
        AppError::Forbidden.status() == 403,
        AppError::NotFound.status() == 404,
        AppError::Conflict(reason).status() == 409,
        AppError::Internal(reason).status() == 500,
        AppError::BadRequest(reason).reply_message() == reason@,
        AppError::Conflict(reason).reply_message() == reason@,
        AppError::Internal(reason).reply_message() == "Internal server error"@,
        AppError::BadRequest(reason).code() == "bad_request"@,
        AppError::Unauthorized.code() == "unauthorized"@,
        AppError::Forbidden.code() == "forbidden"@,
        AppError::NotFound.code() == "not_found"@,
        AppError::Conflict(reason).code() == "conflict"@,
        AppError::Internal(reason).code() == "internal_error"@,
        AppError::Unauthorized.reply_message() == "Authentication required"@,
        AppError::Forbidden.reply_message() == "Forbidden"@,
        AppError::NotFound.reply_message() == "Not found"@,
        AppError::Internal(reason).described() == reason@,
        AppError::BadRequest(reason).described() == reason@,
        AppError::Unauthorized.described() == "authentication required"@,
        AppError::Forbidden.described() == "forbidden"@,
        AppError::NotFound.described() == "not found"@,
        AppError::Conflict(reason).described() == "conflict: "@ + reason@,
{
}

/// An error that tells a reason tells that one: a bad request and a conflict to whoever asked, an internal
/// failure in the log.
pub proof fn law_reasons(e: AppError, reason: Seq<char>)
    ensures
        bad(e, reason) ==> e.status() == 400 && e.reply_message() == reason,
        clash(e, reason) ==> e.status() == 409 && e.reply_message() == reason,
        fault(e, reason) ==> e.status() == 500 && e.described() == reason,
        e.status() == 400 ==> bad(e, e.reply_message()),
        e.status() == 409 ==> clash(e, e.reply_message()),
        e.status() == 500 ==> fault(e, e.described()),
{
}

} // verus!
