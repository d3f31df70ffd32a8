//! The records of the service (engines, storage mounts, jobs, tasks,
//! notifications, users), request shapes, defaults and the API envelope.
use vstd::prelude::*;

verus! {

/// A storage engine.
#[derive(Debug, Clone)]
pub struct Engine {
    pub id: i64,
    pub remark: Option<String>,
    pub url: String,
    pub user_name: Option<String>,
    pub token: Option<String>,
    pub engine_type: String,
    pub system_key: Option<String>,
    pub protected: bool,
    pub create_time: i64,
}

/// The engine type assumed when a request names none.
pub fn default_engine_type() -> (r: String)
    ensures
        r@ == "alist"@,
{
    "alist".to_string()
}

/// Request to add or change an engine.
#[derive(Debug, Clone)]
pub struct EngineRequest {
    pub remark: Option<String>,
    pub url: String,
    pub user_name: Option<String>,
    pub token: Option<String>,
    pub engine_type: String,
}

/// A storage mount of an engine.
#[derive(Debug, Clone)]
pub struct StorageMount {
    pub id: i64,
    pub engine_id: i64,
    pub name: String,
    pub driver_type: String,
    pub config: String,
    pub enabled: bool,
    pub config_version: i32,
    pub auth_version: i32,
    pub create_time: i64,
}

/// Whether a mount is enabled when a request does not say.
pub fn default_enabled() -> (r: bool)
    ensures
        r,
{
    true
}

/// A sync job.
#[derive(Debug, Clone, Default)]
pub struct Job {
    pub id: i64,
    pub enable: bool,
    pub remark: Option<String>,
    pub src_path: String,
    pub dst_path: String,
    pub alist_id: Option<i64>,
    pub use_cache_t: bool,
    pub scan_interval_t: i32,
    pub use_cache_s: bool,
    pub scan_interval_s: i32,
    pub method: i32,
    pub source_mode: bool,
    pub interval: Option<i32>,
    pub is_cron: i32,
    pub year: Option<String>,
    pub month: Option<String>,
    pub day: Option<String>,
    pub week: Option<String>,
    pub day_of_week: Option<String>,
    pub hour: Option<String>,
    pub minute: Option<String>,
    pub second: Option<String>,
    pub start_date: Option<String>,
    pub end_date: Option<String>,
    pub exclude: Option<String>,
    pub min_file_size: Option<i64>,
    pub max_file_size: Option<i64>,
    pub create_time: i64,
}

/// Request shape of a job.
#[derive(Debug, Clone)]
pub struct JobRequest {
    pub enable: Option<bool>,
    pub remark: Option<String>,
    pub src_path: String,
    pub dst_path: String,
    pub alist_id: Option<i64>,
    pub use_cache_t: bool,
    pub scan_interval_t: i32,
    pub use_cache_s: bool,
    pub scan_interval_s: i32,
    pub method: i32,
    pub source_mode: bool,
    pub interval: Option<i32>,
    pub is_cron: i32,
    pub year: Option<String>,
    pub month: Option<String>,
    pub day: Option<String>,
    pub week: Option<String>,
    pub day_of_week: Option<String>,
    pub hour: Option<String>,
    pub minute: Option<String>,
    pub second: Option<String>,
    pub start_date: Option<String>,
    pub end_date: Option<String>,
    pub exclude: Option<String>,
    pub min_file_size: Option<i64>,
    pub max_file_size: Option<i64>,
}

/// One run of a job.
#[derive(Debug, Clone)]
pub struct JobTask {
    pub id: i64,
    pub job_id: i64,
    pub status: i32,
    pub err_msg: Option<String>,
    pub run_time: Option<i64>,
    pub task_num: Option<String>,
    pub create_time: i64,
}

/// Whether a task is past scanning (any status after "running").
pub fn scan_finished(status: i32) -> (r: bool)
    ensures
        r == (status > 1),
{
    status > 1
}

/// A notification channel.
#[derive(Debug, Clone)]
pub struct Notify {
    pub id: i64,
    pub enable: bool,
    pub method: i32,
    pub params: String,
    pub create_time: i64,
}

/// A user account.
#[derive(Debug, Clone)]
pub struct User {
    pub id: i64,
    pub user_name: String,
    pub passwd: String,
    pub sql_version: i32,
    pub create_time: i64,
}

/// What is shown of a user.
#[derive(Debug, Clone)]
pub struct UserInfo {
    pub id: i64,
    pub user_name: String,
    pub create_time: i64,
}

/// Login request.
#[derive(Debug, Clone)]
pub struct LoginRequest {
    pub user_name: String,
    pub passwd: String,
}

/// Password change request.
#[derive(Debug, Clone)]
pub struct ChangePasswordRequest {
    pub old_passwd: String,
    pub passwd: String,
}

/// Password reset request.
#[derive(Debug, Clone)]
pub struct ResetPasswordRequest {
    pub user_name: String,
    pub key: String,
    pub passwd: Option<String>,
}

/// Paging request.
#[derive(Debug, Clone, Copy)]
pub struct PageRequest {
    pub page_num: i32,
    pub page_size: i32,
}

/// First page number.
pub fn default_page_num() -> (r: i32)
    ensures
        r == 1,
{
    1
}

/// Default page size.
pub fn default_page_size() -> (r: i32)
    ensures
        r == 10,
{
    10
}

/// Language switch request.
#[derive(Debug, Clone)]
pub struct LanguageRequest {
    pub language: String,
}

/// The claims of a session token.
#[derive(Debug, Clone)]
pub struct Claims {
    pub sub: i64,
    pub user_name: String,
    pub exp: usize,
    pub iat: usize,
}

/// API result codes (`Success` is the 200 code).
#[derive(Debug, Clone, Copy, PartialEq, Eq, Structural)]
pub enum ErrorCode {
    Success,
    BadRequest,
    Unauthorized,
    Forbidden,
    NotFound,
    Conflict,
    Internal,
}

/// The numeric value of a result code (HTTP-like).
pub open spec fn code_number(c: ErrorCode) -> i32 {
    match c {
        ErrorCode::Success => 200,
        ErrorCode::BadRequest => 400,
        ErrorCode::Unauthorized => 401,
        ErrorCode::Forbidden => 403,
        ErrorCode::NotFound => 404,
        ErrorCode::Conflict => 409,
        ErrorCode::Internal => 500,
    }
}

impl ErrorCode {
    /// The numeric value of the code.
    pub fn number(self) -> (r: i32)
        ensures
            r == code_number(self),
    {
        match self {
            ErrorCode::Success => 200,
            ErrorCode::BadRequest => 400,
            ErrorCode::Unauthorized => 401,
            ErrorCode::Forbidden => 403,
            ErrorCode::NotFound => 404,
            ErrorCode::Conflict => 409,
            ErrorCode::Internal => 500,
        }
    }
}

/// The envelope of every API answer: a code, optional data, optional message.
#[derive(Debug, Clone)]
pub struct ApiResponse<T> {
    pub code: i32,
    pub data: Option<T>,
    pub msg: Option<String>,
}

impl<T> ApiResponse<T> {
    /// Success with data.
    pub fn ok(data: T) -> (r: Self)
        ensures
            r.code == 200,
            r.data == Some(data),
            r.msg is None,
    {
        ApiResponse { code: 200, data: Some(data), msg: None }
    }

    /// Success with data and a message.
    pub fn ok_msg(data: T, msg: &str) -> (r: Self)
        ensures
            r.code == 200,
            r.data == Some(data),
            r.msg matches Some(m) && m@ == msg@,
    {
        ApiResponse { code: 200, data: Some(data), msg: Some(msg.to_string()) }
    }

    /// Failure with a code and a message.
    pub fn error(code: ErrorCode, msg: &str) -> (r: Self)
        ensures
            r.code == code_number(code),
            r.data is None,
            r.msg matches Some(m) && m@ == msg@,
    {
        ApiResponse { code: code.number(), data: None, msg: Some(msg.to_string()) }
    }

    /// Internal failure (500).
    pub fn err(msg: &str) -> (r: Self)
        ensures
            r.code == 500,
            r.data is None,
            r.msg matches Some(m) && m@ == msg@,
    {
        Self::error(ErrorCode::Internal, msg)
    }

    /// Invalid request (400).
    pub fn bad_request(msg: &str) -> (r: Self)
        ensures
            r.code == 400,
            r.data is None,
            r.msg matches Some(m) && m@ == msg@,
    {
        Self::error(ErrorCode::BadRequest, msg)
    }

    /// Not logged in (401).
    pub fn unauthorized(msg: &str) -> (r: Self)
        ensures
            r.code == 401,
            r.data is None,
            r.msg matches Some(m) && m@ == msg@,
    {
        Self::error(ErrorCode::Unauthorized, msg)
    }

    /// Not allowed (403).
    pub fn forbidden(msg: &str) -> (r: Self)
        ensures
            r.code == 403,
            r.data is None,
            r.msg matches Some(m) && m@ == msg@,
    {
        Self::error(ErrorCode::Forbidden, msg)
    }

    /// Not found (404).
    pub fn not_found(msg: &str) -> (r: Self)
        ensures
            r.code == 404,
            r.data is None,
            r.msg matches Some(m) && m@ == msg@,
    {
        Self::error(ErrorCode::NotFound, msg)
    }

    /// Conflict (409).
    pub fn conflict(msg: &str) -> (r: Self)
        ensures
            r.code == 409,
            r.data is None,
            r.msg matches Some(m) && m@ == msg@,
    {
        Self::error(ErrorCode::Conflict, msg)
    }
}

} // verus!
