//! The error taxonomy of the service and its mapping to HTTP status codes
//! and wire-format error bodies.

use vstd::prelude::*;

verus! {

/// Every failure the service can report, each variant carrying a
/// human-readable message.
#[derive(Debug)]
pub enum ApiError {
    AuthError(String),
    ForbiddenError(String),
    NotFoundError(String),
    BadRequestError(String),
    InternalError(String),
    DbError(String),
}

/// The mathematical model of an [`ApiError`]: the same variants over
/// character sequences.
pub ghost enum ApiErrorModel {
    Auth(Seq<char>),
    Forbidden(Seq<char>),
    NotFound(Seq<char>),
    BadRequest(Seq<char>),
    Internal(Seq<char>),
    Db(Seq<char>),
}

impl View for ApiError {
    type V = ApiErrorModel;

    open spec fn view(&self) -> ApiErrorModel {
        match self {
            ApiError::AuthError(m) => ApiErrorModel::Auth(m@),
            ApiError::ForbiddenError(m) => ApiErrorModel::Forbidden(m@),
            ApiError::NotFoundError(m) => ApiErrorModel::NotFound(m@),
            ApiError::BadRequestError(m) => ApiErrorModel::BadRequest(m@),
            ApiError::InternalError(m) => ApiErrorModel::Internal(m@),
            ApiError::DbError(m) => ApiErrorModel::Db(m@),
        }
    }
}

impl ApiErrorModel {
    /// The HTTP status code each failure maps to.
    pub open spec fn spec_status_code(self) -> u16 {
        match self {
            ApiErrorModel::Auth(_) => 401,
            ApiErrorModel::Forbidden(_) => 403,
            ApiErrorModel::NotFound(_) => 404,
            ApiErrorModel::BadRequest(_) => 400,
            ApiErrorModel::Internal(_) => 500,
            ApiErrorModel::Db(_) => 500,
        }
    }

    /// The status line of the wire-format error body.
    pub open spec fn spec_status_text(self) -> Seq<char> {
        match self {
            ApiErrorModel::Auth(_) => "401 Unauthorized"@,
            ApiErrorModel::Forbidden(_) => "403 Forbidden"@,
            ApiErrorModel::NotFound(_) => "404 Not Found"@,
            ApiErrorModel::BadRequest(_) => "400 Bad Request"@,
            ApiErrorModel::Internal(_) => "500 Internal Server Error"@,
            ApiErrorModel::Db(_) => "500 Internal Server Error"@,
        }
    }

    /// The message of the wire-format error body: a fixed prefix naming the
    /// failure class, then the carried message.
    pub open spec fn spec_message(self) -> Seq<char> {
        match self {
            ApiErrorModel::Auth(m) => "Authentication error: "@ + m,
            ApiErrorModel::Forbidden(m) => "Authorization error: "@ + m,
            ApiErrorModel::NotFound(m) => "Not found: "@ + m,
            ApiErrorModel::BadRequest(m) => "Bad request: "@ + m,
            ApiErrorModel::Internal(m) => "Internal server error: "@ + m,
            ApiErrorModel::Db(m) => "Database error: "@ + m,
        }
    }
}

/// The JSON body sent with every non-2xx response.
#[derive(Debug)]
pub struct ErrorResponse {
    pub status: String,
    pub message: String,
}

/// The mathematical model of an [`ErrorResponse`].
pub ghost struct ErrorResponseModel {
    pub status: Seq<char>,
    pub message: Seq<char>,
}

impl View for ErrorResponse {
    type V = ErrorResponseModel;

    open spec fn view(&self) -> ErrorResponseModel {
        ErrorResponseModel { status: self.status@, message: self.message@ }
    }
}

impl ApiError {
    /// The HTTP status code this failure maps to.
    pub fn status_code(&self) -> (c: u16)
        ensures
            c == self@.spec_status_code(),
    {
        match self {
            ApiError::AuthError(_) => 401,
            ApiError::ForbiddenError(_) => 403,
            ApiError::NotFoundError(_) => 404,
            ApiError::BadRequestError(_) => 400,
            ApiError::InternalError(_) => 500,
            ApiError::DbError(_) => 500,
        }
    }

    /// The wire-format error body for this failure: the status line of the
    /// mapped HTTP code, and the carried message under a fixed prefix.
    pub fn error_response(&self) -> (r: ErrorResponse)
        ensures
            r@.status == self@.spec_status_text(),
            r@.message == self@.spec_message(),
    {
        match self {
            ApiError::AuthError(m) => ErrorResponse {
                status: String::from_str("401 Unauthorized"),
                message: String::from_str("Authentication error: ").concat(m.as_str()),
            },
            ApiError::ForbiddenError(m) => ErrorResponse {
                status: String::from_str("403 Forbidden"),
                message: String::from_str("Authorization error: ").concat(m.as_str()),
            },
            ApiError::NotFoundError(m) => ErrorResponse {
                status: String::from_str("404 Not Found"),
                message: String::from_str("Not found: ").concat(m.as_str()),
            },
            ApiError::BadRequestError(m) => ErrorResponse {
                status: String::from_str("400 Bad Request"),
                message: String::from_str("Bad request: ").concat(m.as_str()),
            },
            ApiError::InternalError(m) => ErrorResponse {
                status: String::from_str("500 Internal Server Error"),
                message: String::from_str("Internal server error: ").concat(m.as_str()),
            },
            ApiError::DbError(m) => ErrorResponse {
                status: String::from_str("500 Internal Server Error"),
                message: String::from_str("Database error: ").concat(m.as_str()),
            },
        }
    }
}

} // verus!
