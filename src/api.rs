//! Request and response records of the control surface, and its error
//! kinds.
use vstd::prelude::*;
use crate::text::text_concat;

verus! {

pub struct LoginRequest {
    pub username: String,
    pub password: String,
}

pub struct LoginResponse {
    pub token: String,
    pub user: UserInfo,
}

pub struct UserInfo {
    pub id: String,
    pub username: String,
    pub role: String,
}

pub struct RegisterRequest {
    pub username: String,
    pub password: String,
    pub role: String,
}

pub struct ChangePasswordRequest {
    pub password: String,
}

pub struct CreateUser {
    pub username: String,
    pub password: String,
    pub role: String,
}

pub struct MediaQuery {
    pub media_type: Option<String>,
    pub search: Option<String>,
    pub page: Option<i64>,
    pub limit: Option<i64>,
    pub is_filler: Option<bool>,
    pub folder_id: Option<String>,
}

pub struct UpdateFillerRequest {
    pub is_filler: bool,
}

/// Which background a transparency job keys out: `green` or `black`.
pub struct TransparencyRequest {
    pub color: String,
}

pub struct PlaylistQuery {
    pub name: Option<String>,
    pub date: Option<String>,
}

pub struct ProtectedAsset {
    pub name: String,
    pub path: String,
    pub size: u64,
    pub is_video: bool,
}

pub struct ScheduleQuery {
    pub start_date: Option<String>,
    pub end_date: Option<String>,
}

pub struct GetPlaylistForDateRequest {
    pub date: String,
}

/// The claims of an access token; times are seconds since the Unix epoch.
pub struct Claims {
    pub sub: String,
    pub username: String,
    pub role: String,
    pub exp: i64,
    pub iat: i64,
}

impl Claims {
    /// Claims issued at `now_secs` that expire `lifetime_secs` later (the
    /// sum held within `i64`).
    pub fn new(user_id: String, username: String, role: String, now_secs: i64, lifetime_secs: i64) -> (r: Claims)
        ensures
            r.sub == user_id,
            r.username == username,
            r.role == role,
            r.iat == now_secs,
            r.exp == (if now_secs + lifetime_secs > i64::MAX {
                i64::MAX as int
            } else if now_secs + lifetime_secs < i64::MIN {
                i64::MIN as int
            } else {
                now_secs + lifetime_secs
            }),
    {
        let exp = now_secs.checked_add(lifetime_secs);
        let exp = match exp {
            Some(e) => e,
            None => if lifetime_secs > 0 {
                i64::MAX
            } else {
                i64::MIN
            },
        };
        Claims { sub: user_id, username, role, iat: now_secs, exp }
    }
}

/// Errors of the control surface.
pub enum AppError {
    InternalError,
    NotFound,
    Unauthorized,
    BadRequest(String),
}

impl AppError {
    /// The HTTP status of the error.
    pub fn status_code(&self) -> (r: u16)
        ensures
            r == match self {
                AppError::InternalError => 500u16,
                AppError::NotFound => 404u16,
                AppError::Unauthorized => 401u16,
                AppError::BadRequest(_) => 400u16,
            },
    {
        match self {
            AppError::InternalError => 500,
            AppError::NotFound => 404,
            AppError::Unauthorized => 401,
            AppError::BadRequest(_) => 400,
        }
    }

    /// The message shown for the error.
    pub fn message(&self) -> (r: String)
        ensures
            r@ == match self {
                AppError::InternalError => "Internal server error"@,
                AppError::NotFound => "Resource not found"@,
                AppError::Unauthorized => "Unauthorized"@,
                AppError::BadRequest(m) => "Bad request: "@ + m@,
            },
    {
        match self {
            AppError::InternalError => String::from_str("Internal server error"),
            AppError::NotFound => String::from_str("Resource not found"),
            AppError::Unauthorized => String::from_str("Unauthorized"),
            AppError::BadRequest(m) => text_concat("Bad request: ", m.as_str()),
        }
    }
}

} // verus!
