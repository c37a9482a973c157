//! The error taxonomy shared by the transport, the job runner and the store.

use vstd::prelude::*;
use crate::text::str_eq;

verus! {

/// The kinds of failure a download can end with.
#[derive(Debug, Clone, Copy, PartialEq, Eq, Structural)]
pub enum ErrorCode {
    DnsFail,
    ConnectFail,
    TlsFail,
    Http4xx,
    Http5xx,
    Timeout,
    RangeUnsupported,
    DiskFull,
    RemoteChanged,
    PermissionDenied,
    Cancelled,
    InvalidUrl,
    Unknown,
}

/// The failures after which the next candidate URL is tried.
pub open spec fn retryable(c: ErrorCode) -> bool {
    match c {
        ErrorCode::DnsFail | ErrorCode::ConnectFail | ErrorCode::TlsFail | ErrorCode::Http5xx
        | ErrorCode::Timeout | ErrorCode::RangeUnsupported => true,
        _ => false,
    }
}

/// The persisted, screaming-snake name of each code.
pub open spec fn code_text(c: ErrorCode) -> Seq<char> {
    match c {
        ErrorCode::DnsFail => "DNS_FAIL"@,
        ErrorCode::ConnectFail => "CONNECT_FAIL"@,
        ErrorCode::TlsFail => "TLS_FAIL"@,
        ErrorCode::Http4xx => "HTTP_4XX"@,
        ErrorCode::Http5xx => "HTTP_5XX"@,
        ErrorCode::Timeout => "TIMEOUT"@,
        ErrorCode::RangeUnsupported => "RANGE_UNSUPPORTED"@,
        ErrorCode::DiskFull => "DISK_FULL"@,
        ErrorCode::RemoteChanged => "REMOTE_CHANGED"@,
        ErrorCode::PermissionDenied => "PERMISSION_DENIED"@,
        ErrorCode::Cancelled => "CANCELLED"@,
        ErrorCode::InvalidUrl => "INVALID_URL"@,
        ErrorCode::Unknown => "UNKNOWN"@,
    }
}

/// The code a persisted name stands for; an unknown name stands for `Unknown`.
pub open spec fn code_from_text(t: Seq<char>) -> ErrorCode {
    if t == "DNS_FAIL"@ {
        ErrorCode::DnsFail
    } else if t == "CONNECT_FAIL"@ {
        ErrorCode::ConnectFail
    } else if t == "TLS_FAIL"@ {
        ErrorCode::TlsFail
    } else if t == "HTTP_4XX"@ {
        ErrorCode::Http4xx
    } else if t == "HTTP_5XX"@ {
        ErrorCode::Http5xx
    } else if t == "TIMEOUT"@ {
        ErrorCode::Timeout
    } else if t == "RANGE_UNSUPPORTED"@ {
        ErrorCode::RangeUnsupported
    } else if t == "DISK_FULL"@ {
        ErrorCode::DiskFull
    } else if t == "REMOTE_CHANGED"@ {
        ErrorCode::RemoteChanged
    } else if t == "PERMISSION_DENIED"@ {
        ErrorCode::PermissionDenied
    } else if t == "CANCELLED"@ {
        ErrorCode::Cancelled
    } else if t == "INVALID_URL"@ {
        ErrorCode::InvalidUrl
    } else {
        ErrorCode::Unknown
    }
}

/// The code that an HTTP status stands for when a request fails with it.
pub open spec fn http_status_code(status: u16) -> ErrorCode {
    if 400 <= status < 500 {
        ErrorCode::Http4xx
    } else if 500 <= status < 600 {
        ErrorCode::Http5xx
    } else {
        ErrorCode::Unknown
    }
}

impl ErrorCode {
    pub fn is_retryable(&self) -> (r: bool)
        ensures
            r == retryable(*self),
    {
        match self {
            ErrorCode::DnsFail | ErrorCode::ConnectFail | ErrorCode::TlsFail | ErrorCode::Http5xx
            | ErrorCode::Timeout | ErrorCode::RangeUnsupported => true,
            _ => false,
        }
    }
}

/// The persisted name of `code`.
pub fn format_code(code: ErrorCode) -> (r: &'static str)
    ensures
        r@ == code_text(code),
{
    match code {
        ErrorCode::DnsFail => "DNS_FAIL",
        ErrorCode::ConnectFail => "CONNECT_FAIL",
        ErrorCode::TlsFail => "TLS_FAIL",
        ErrorCode::Http4xx => "HTTP_4XX",
        ErrorCode::Http5xx => "HTTP_5XX",
        ErrorCode::Timeout => "TIMEOUT",
        ErrorCode::RangeUnsupported => "RANGE_UNSUPPORTED",
        ErrorCode::DiskFull => "DISK_FULL",
        ErrorCode::RemoteChanged => "REMOTE_CHANGED",
        ErrorCode::PermissionDenied => "PERMISSION_DENIED",
        ErrorCode::Cancelled => "CANCELLED",
        ErrorCode::InvalidUrl => "INVALID_URL",
        ErrorCode::Unknown => "UNKNOWN",
    }
}

/// Reads a persisted code; every name reads as some code, an unknown one as `Unknown`.
pub fn parse_error_code(s: String) -> (r: Option<ErrorCode>)
    ensures
        r == Some(code_from_text(s@)),
{
    let t = s.as_str();
    let c = if str_eq(t, "DNS_FAIL") {
        ErrorCode::DnsFail
    } else if str_eq(t, "CONNECT_FAIL") {
        ErrorCode::ConnectFail
    } else if str_eq(t, "TLS_FAIL") {
        ErrorCode::TlsFail
    } else if str_eq(t, "HTTP_4XX") {
        ErrorCode::Http4xx
    } else if str_eq(t, "HTTP_5XX") {
        ErrorCode::Http5xx
    } else if str_eq(t, "TIMEOUT") {
        ErrorCode::Timeout
    } else if str_eq(t, "RANGE_UNSUPPORTED") {
        ErrorCode::RangeUnsupported
    } else if str_eq(t, "DISK_FULL") {
        ErrorCode::DiskFull
    } else if str_eq(t, "REMOTE_CHANGED") {
        ErrorCode::RemoteChanged
    } else if str_eq(t, "PERMISSION_DENIED") {
        ErrorCode::PermissionDenied
    } else if str_eq(t, "CANCELLED") {
        ErrorCode::Cancelled
    } else if str_eq(t, "INVALID_URL") {
        ErrorCode::InvalidUrl
    } else {
        ErrorCode::Unknown
    };
    Some(c)
}

/// The code recorded for a response with an error status.
pub fn code_for_http_status(status: u16) -> (r: ErrorCode)
    ensures
        r == http_status_code(status),
{
    if 400 <= status && status < 500 {
        ErrorCode::Http4xx
    } else if 500 <= status && status < 600 {
        ErrorCode::Http5xx
    } else {
        ErrorCode::Unknown
    }
}

/// The code recorded for a request that failed before a response came:
/// a timeout, a failed connection, or anything else.
pub fn code_for_transport_failure(is_timeout: bool, is_connect: bool) -> (r: ErrorCode)
    ensures
        is_timeout ==> r == ErrorCode::Timeout,
        !is_timeout && is_connect ==> r == ErrorCode::ConnectFail,
        !is_timeout && !is_connect ==> r == ErrorCode::Unknown,
{
    if is_timeout {
        ErrorCode::Timeout
    } else if is_connect {
        ErrorCode::ConnectFail
    } else {
        ErrorCode::Unknown
    }
}

} // verus!
