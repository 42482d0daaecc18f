//! Data models and transfer objects of the API, with the pagination rules.

use std::collections::HashMap;
use vstd::prelude::*;
use crate::ids::{random_uuid, uuid_hyphenated, uuid_text};

verus! {

/// HTTP status codes used in responses.
#[derive(Debug, Clone, Copy, PartialEq, Eq, Structural)]
pub enum HttpStatus {
    OK,
    Created,
    Accepted,
    NoContent,
    BadRequest,
    Unauthorized,
    Forbidden,
    NotFound,
    Conflict,
    UnprocessableEntity,
    TooManyRequests,
    InternalServerError,
    NotImplemented,
    BadGateway,
    ServiceUnavailable,
    GatewayTimeout,
}

/// The numeric code of a status.
pub open spec fn status_code(s: HttpStatus) -> u16 {
    match s {
        HttpStatus::OK => 200,
        HttpStatus::Created => 201,
        HttpStatus::Accepted => 202,
        HttpStatus::NoContent => 204,
        HttpStatus::BadRequest => 400,
        HttpStatus::Unauthorized => 401,
        HttpStatus::Forbidden => 403,
        HttpStatus::NotFound => 404,
        HttpStatus::Conflict => 409,
        HttpStatus::UnprocessableEntity => 422,
        HttpStatus::TooManyRequests => 429,
        HttpStatus::InternalServerError => 500,
        HttpStatus::NotImplemented => 501,
        HttpStatus::BadGateway => 502,
        HttpStatus::ServiceUnavailable => 503,
        HttpStatus::GatewayTimeout => 504,
    }
}

impl HttpStatus {
    /// Get the numeric status code.
    pub fn code(&self) -> (c: u16)
        ensures
            c == status_code(*self),
    {
        match self {
            HttpStatus::OK => 200,
            HttpStatus::Created => 201,
            HttpStatus::Accepted => 202,
            HttpStatus::NoContent => 204,
            HttpStatus::BadRequest => 400,
            HttpStatus::Unauthorized => 401,
            HttpStatus::Forbidden => 403,
            HttpStatus::NotFound => 404,
            HttpStatus::Conflict => 409,
            HttpStatus::UnprocessableEntity => 422,
            HttpStatus::TooManyRequests => 429,
            HttpStatus::InternalServerError => 500,
            HttpStatus::NotImplemented => 501,
            HttpStatus::BadGateway => 502,
            HttpStatus::ServiceUnavailable => 503,
            HttpStatus::GatewayTimeout => 504,
        }
    }

    /// Check if status is successful (2xx).
    pub fn is_success(&self) -> (b: bool)
        ensures
            b == (200 <= status_code(*self) < 300),
    {
        self.code() >= 200 && self.code() < 300
    }

    /// Check if status is a client error (4xx).
    pub fn is_client_error(&self) -> (b: bool)
        ensures
            b == (400 <= status_code(*self) < 500),
    {
        self.code() >= 400 && self.code() < 500
    }

    /// Check if status is a server error (5xx).
    pub fn is_server_error(&self) -> (b: bool)
        ensures
            b == (status_code(*self) >= 500),
    {
        self.code() >= 500
    }
}

/// Pagination metadata.
#[derive(Debug, Clone)]
pub struct PaginationMeta {
    /// Current page number (1-based).
    pub page: usize,
    /// Number of items per page.
    pub per_page: usize,
    /// Total number of items.
    pub total: usize,
    /// Total number of pages.
    pub total_pages: usize,
    /// Whether there are more items.
    pub has_more: bool,
    /// Links to other pages.
    pub links: Option<PaginationLinks>,
}

/// Pagination links.
#[derive(Debug, Clone)]
pub struct PaginationLinks {
    pub first: Option<String>,
    pub prev: Option<String>,
    pub next: Option<String>,
    pub last: Option<String>,
}

/// Pagination parameters for list operations.
#[derive(Debug)]
pub struct PaginationQuery {
    pub limit: u32,
    pub offset: u32,
    pub sort: Option<String>,
    pub order: Option<SortOrder>,
    pub filter: Option<String>,
}

/// Sort order options.
#[derive(Debug, Clone, Copy, PartialEq, Eq, Structural)]
pub enum SortOrder {
    Asc,
    Desc,
}

impl Default for SortOrder {
    fn default() -> (s: Self)
        ensures
            s == SortOrder::Asc,
    {
        SortOrder::Asc
    }
}

/// The default page size of list and search queries.
pub fn default_limit() -> (l: u32)
    ensures
        l == 50,
{
    50
}

/// Pagination information of a paginated response.
#[derive(Debug)]
pub struct PaginationInfo {
    pub total: u64,
    pub limit: u32,
    pub offset: u32,
    pub has_next: bool,
    pub has_previous: bool,
}

/// Paginated response wrapper.
#[derive(Debug)]
pub struct PaginatedResponse<T> {
    pub items: Vec<T>,
    pub pagination: PaginationInfo,
}

impl<T> PaginatedResponse<T> {
    /// Create a new paginated response.
    ///
    /// There is a next page when `offset + limit` is below the total taken
    /// as a 32-bit count (the total is truncated to 32 bits first), and a
    /// previous page when the offset is positive.
    pub fn new(items: Vec<T>, total: u64, limit: u32, offset: u32) -> (r: Self)
        requires
            offset + limit <= u32::MAX,
        ensures
            r.items@ == items@,
            r.pagination.total == total,
            r.pagination.limit == limit,
            r.pagination.offset == offset,
            r.pagination.has_next == (offset + limit < (total as u32)),
            r.pagination.has_previous == (offset > 0),
    {
        let has_next = offset + limit < total as u32;
        let has_previous = offset > 0;
        PaginatedResponse {
            items,
            pagination: PaginationInfo { total, limit, offset, has_next, has_previous },
        }
    }
}

/// Generic ID wrapper for request parameters.
#[derive(Debug)]
pub struct IdParam {
    pub id: String,
}

/// Generic name wrapper for request parameters.
#[derive(Debug)]
pub struct NameParam {
    pub name: String,
}

/// Bulk operation request.
#[derive(Debug)]
pub struct BulkOperationRequest<T> {
    pub items: Vec<T>,
    pub continue_on_error: bool,
}

/// Bulk operation response.
#[derive(Debug)]
pub struct BulkOperationResponse<T> {
    pub results: Vec<BulkOperationResult<T>>,
    pub summary: BulkOperationSummary,
}

/// Individual bulk operation result.
#[derive(Debug)]
pub struct BulkOperationResult<T> {
    pub success: bool,
    pub data: Option<T>,
    pub error: Option<String>,
    pub index: usize,
}

/// Bulk operation summary.
#[derive(Debug)]
pub struct BulkOperationSummary {
    pub total: usize,
    pub successful: usize,
    pub failed: usize,
    pub errors: Vec<String>,
}

/// Search request parameters.
#[derive(Debug)]
pub struct SearchQuery {
    pub q: String,
    pub fields: Vec<String>,
    pub limit: u32,
    pub offset: u32,
    pub sort: Option<String>,
    pub highlight: bool,
    pub filters: Option<HashMap<String, String>>,
}

/// Export request parameters.
#[derive(Debug)]
pub struct ExportQuery {
    pub format: ExportFormat,
    pub fields: Option<Vec<String>>,
    pub filter: Option<String>,
    pub compression: Option<CompressionType>,
}

/// Export formats.
#[derive(Debug, Clone, Copy, PartialEq, Eq, Structural)]
pub enum ExportFormat {
    Json,
    Csv,
    Excel,
    Xml,
    Yaml,
}

/// Compression types.
#[derive(Debug, Clone, Copy, PartialEq, Eq, Structural)]
pub enum CompressionType {
    Gzip,
    Zip,
    Bzip2,
}

/// Import request.
#[derive(Debug)]
pub struct ImportRequest {
    pub format: ExportFormat,
    pub data: String,
    pub overwrite: bool,
    pub validate_only: bool,
    pub mapping: Option<HashMap<String, String>>,
}

/// Health check status levels.
#[derive(Debug, Clone, Copy, PartialEq, Eq, Structural)]
pub enum HealthStatus {
    Healthy,
    Degraded,
    Unhealthy,
    Unknown,
}

/// Configuration validation error.
#[derive(Debug)]
pub struct ValidationError {
    pub path: String,
    pub message: String,
    pub severity: ValidationSeverity,
}

/// Configuration validation warning.
#[derive(Debug)]
pub struct ValidationWarning {
    pub path: String,
    pub message: String,
    pub suggestion: Option<String>,
}

/// Validation severity levels.
#[derive(Debug, Clone, Copy, PartialEq, Eq, Structural)]
pub enum ValidationSeverity {
    Error,
    Warning,
    Info,
}

/// Batch job states.
#[derive(Debug, Clone, Copy, PartialEq, Eq, Structural)]
pub enum BatchJobState {
    Pending,
    Running,
    Completed,
    Failed,
    Cancelled,
}

/// Whole seconds elapsed since the Unix epoch on the system clock, or 0
/// when the clock reads before the epoch.
///
/// Trusted: calls `std::time::SystemTime::now` and `duration_since` of
/// `UNIX_EPOCH`; the error of a clock set before 1970 is answered with 0
/// rather than a panic.  Nothing is claimed of the value: it depends on the
/// clock.
#[verifier::external_body]
pub(crate) fn unix_time_now() -> (t: u64) {
    match std::time::SystemTime::now().duration_since(std::time::UNIX_EPOCH) {
        Ok(d) => d.as_secs(),
        Err(_) => 0,
    }
}

/// The current time, in seconds since the Unix epoch, saturated at the
/// largest `i64`.
pub(crate) fn utc_now_seconds() -> (t: i64)
    ensures
        t >= 0,
{
    let s = unix_time_now();
    if s <= 9_223_372_036_854_775_807u64 {
        s as i64
    } else {
        9_223_372_036_854_775_807i64
    }
}

/// The outcome of an operation, under a fresh random id.
#[derive(Debug)]
pub struct OperationResult<T> {
    pub success: bool,
    pub data: Option<T>,
    pub message: Option<String>,
    /// A random UUID in hyphenated form.
    pub operation_id: String,
    /// When the result was made, in seconds since the Unix epoch.
    pub timestamp: i64,
}

/// The operation id is the text of some UUID.
pub open spec fn is_uuid_text(s: Seq<char>) -> bool {
    exists|u: u128| s == uuid_hyphenated(u)
}

fn operation_result<T>(success: bool, data: Option<T>, message: Option<String>) -> (r:
    OperationResult<T>)
    ensures
        r.success == success,
        r.data == data,
        r.message == message,
        is_uuid_text(r.operation_id@),
{
    let id = uuid_text(random_uuid());
    OperationResult { success, data, message, operation_id: id, timestamp: utc_now_seconds() }
}

impl<T> OperationResult<T> {
    /// A successful result carrying data.
    pub fn success(data: T) -> (r: Self)
        ensures
            r.success,
            r.data == Some(data),
            r.message is None,
            is_uuid_text(r.operation_id@),
    {
        operation_result(true, Some(data), None)
    }

    /// A successful result carrying data and a message.
    pub fn success_with_message(data: T, message: String) -> (r: Self)
        ensures
            r.success,
            r.data == Some(data),
            r.message == Some(message),
            is_uuid_text(r.operation_id@),
    {
        operation_result(true, Some(data), Some(message))
    }
}

impl OperationResult<()> {
    /// A successful result without data.
    pub fn success_empty() -> (r: Self)
        ensures
            r.success,
            r.data is None,
            r.message is None,
            is_uuid_text(r.operation_id@),
    {
        operation_result(true, None, None)
    }

    /// A successful result with a message only.
    pub fn success_message(message: String) -> (r: Self)
        ensures
            r.success,
            r.data is None,
            r.message == Some(message),
            is_uuid_text(r.operation_id@),
    {
        operation_result(true, None, Some(message))
    }

    /// A failed result with its message.
    pub fn failure(message: String) -> (r: Self)
        ensures
            !r.success,
            r.data is None,
            r.message == Some(message),
            is_uuid_text(r.operation_id@),
    {
        operation_result(false, None, Some(message))
    }
}

} // verus!
