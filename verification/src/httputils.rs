//! Reason phrases of status codes and the text of a `Content-Type` header.

use vstd::prelude::*;
use vstd::string::*;

verus! {

/// The reason phrase that goes with a status code, for the codes that have
/// one.
pub open spec fn reason_phrase(code: int) -> Option<Seq<char>> {
    if code == 100 {
        Some("Continue"@)
    } else if code == 101 {
        Some("Switching Protocols"@)
    } else if code == 102 {
        Some("Processing"@)
    } else if code == 200 {
        Some("OK"@)
    } else if code == 201 {
        Some("Created"@)
    } else if code == 202 {
        Some("Accepted"@)
    } else if code == 203 {
        Some("Non-Authoritative Information"@)
    } else if code == 204 {
        Some("No Content"@)
    } else if code == 205 {
        Some("Reset Content"@)
    } else if code == 206 {
        Some("Partial Content"@)
    } else if code == 207 {
        Some("Multi-Status"@)
    } else if code == 300 {
        Some("Multiple Choices"@)
    } else if code == 301 {
        Some("Moved Permanently"@)
    } else if code == 302 {
        Some("Found"@)
    } else if code == 303 {
        Some("See Other"@)
    } else if code == 304 {
        Some("Not Modified"@)
    } else if code == 305 {
        Some("Use Proxy"@)
    } else if code == 307 {
        Some("Temporary Redirect"@)
    } else if code == 308 {
        Some("Permanent Redirect"@)
    } else if code == 400 {
        Some("Bad Request"@)
    } else if code == 401 {
        Some("Unauthorized"@)
    } else if code == 402 {
        Some("Payment Required"@)
    } else if code == 403 {
        Some("Forbidden"@)
    } else if code == 404 {
        Some("Not Found"@)
    } else if code == 405 {
        Some("Method Not Allowed"@)
    } else if code == 406 {
        Some("Not Acceptable"@)
    } else if code == 407 {
        Some("Proxy Authentication Required"@)
    } else if code == 408 {
        Some("Request Timeout"@)
    } else if code == 409 {
        Some("Conflict"@)
    } else if code == 410 {
        Some("Gone"@)
    } else if code == 411 {
        Some("Length Required"@)
    } else if code == 412 {
        Some("Precondition Failed"@)
    } else if code == 413 {
        Some("Payload Too Large"@)
    } else if code == 414 {
        Some("URI Too Long"@)
    } else if code == 415 {
        Some("Unsupported Media Type"@)
    } else if code == 416 {
        Some("Range Not Satisfiable"@)
    } else if code == 417 {
        Some("Expectation Failed"@)
    } else if code == 418 {
        Some("I'm a teapot"@)
    } else if code == 422 {
        Some("Unprocessable Entity"@)
    } else if code == 423 {
        Some("Locked"@)
    } else if code == 424 {
        Some("Failed Dependency"@)
    } else if code == 426 {
        Some("Upgrade Required"@)
    } else if code == 428 {
        Some("Precondition Required"@)
    } else if code == 429 {
        Some("Too Many Requests"@)
    } else if code == 431 {
        Some("Request Header Fields Too Large"@)
    } else if code == 451 {
        Some("Unavailable For Legal Reasons"@)
    } else if code == 500 {
        Some("Internal Server Error"@)
    } else if code == 501 {
        Some("Not Implemented"@)
    } else if code == 502 {
        Some("Bad Gateway"@)
    } else if code == 503 {
        Some("Service Unavailable"@)
    } else if code == 504 {
        Some("Gateway Timeout"@)
    } else if code == 505 {
        Some("HTTP Version Not Supported"@)
    } else if code == 507 {
        Some("Insufficient Storage"@)
    } else if code == 510 {
        Some("Not Extended"@)
    } else if code == 511 {
        Some("Network Authentication Required"@)
    } else {
        None
    }
}

/// The text shown for a code without a reason phrase.
pub open spec fn unknown_status() -> Seq<char> {
    "UNKNOWN"@
}

/// The status text of a code: its reason phrase, or the unknown marker.
pub open spec fn status_text(code: int) -> Seq<char> {
    match reason_phrase(code) {
        Some(name) => name,
        None => unknown_status(),
    }
}

/// Looks up the reason phrase of a status code.
pub fn get_name_by_http_code(code: isize) -> (r: Option<&'static str>)
    ensures
        match r {
            Some(name) => reason_phrase(code as int) == Some(name@),
            None => reason_phrase(code as int) is None,
        },
{
    if code == 100 {
        Some("Continue")
    } else if code == 101 {
        Some("Switching Protocols")
    } else if code == 102 {
        Some("Processing")
    } else if code == 200 {
        Some("OK")
    } else if code == 201 {
        Some("Created")
    } else if code == 202 {
        Some("Accepted")
    } else if code == 203 {
        Some("Non-Authoritative Information")
    } else if code == 204 {
        Some("No Content")
    } else if code == 205 {
        Some("Reset Content")
    } else if code == 206 {
        Some("Partial Content")
    } else if code == 207 {
        Some("Multi-Status")
    } else if code == 300 {
        Some("Multiple Choices")
    } else if code == 301 {
        Some("Moved Permanently")
    } else if code == 302 {
        Some("Found")
    } else if code == 303 {
        Some("See Other")
    } else if code == 304 {
        Some("Not Modified")
    } else if code == 305 {
        Some("Use Proxy")
    } else if code == 307 {
        Some("Temporary Redirect")
    } else if code == 308 {
        Some("Permanent Redirect")
    } else if code == 400 {
        Some("Bad Request")
    } else if code == 401 {
        Some("Unauthorized")
    } else if code == 402 {
        Some("Payment Required")
    } else if code == 403 {
        Some("Forbidden")
    } else if code == 404 {
        Some("Not Found")
    } else if code == 405 {
        Some("Method Not Allowed")
    } else if code == 406 {
        Some("Not Acceptable")
    } else if code == 407 {
        Some("Proxy Authentication Required")
    } else if code == 408 {
        Some("Request Timeout")
    } else if code == 409 {
        Some("Conflict")
    } else if code == 410 {
        Some("Gone")
    } else if code == 411 {
        Some("Length Required")
    } else if code == 412 {
        Some("Precondition Failed")
    } else if code == 413 {
        Some("Payload Too Large")
    } else if code == 414 {
        Some("URI Too Long")
    } else if code == 415 {
        Some("Unsupported Media Type")
    } else if code == 416 {
        Some("Range Not Satisfiable")
    } else if code == 417 {
        Some("Expectation Failed")
    } else if code == 418 {
        Some("I'm a teapot")
    } else if code == 422 {
        Some("Unprocessable Entity")
    } else if code == 423 {
        Some("Locked")
    } else if code == 424 {
        Some("Failed Dependency")
    } else if code == 426 {
        Some("Upgrade Required")
    } else if code == 428 {
        Some("Precondition Required")
    } else if code == 429 {
        Some("Too Many Requests")
    } else if code == 431 {
        Some("Request Header Fields Too Large")
    } else if code == 451 {
        Some("Unavailable For Legal Reasons")
    } else if code == 500 {
        Some("Internal Server Error")
    } else if code == 501 {
        Some("Not Implemented")
    } else if code == 502 {
        Some("Bad Gateway")
    } else if code == 503 {
        Some("Service Unavailable")
    } else if code == 504 {
        Some("Gateway Timeout")
    } else if code == 505 {
        Some("HTTP Version Not Supported")
    } else if code == 507 {
        Some("Insufficient Storage")
    } else if code == 510 {
        Some("Not Extended")
    } else if code == 511 {
        Some("Network Authentication Required")
    } else {
        None
    }
}

/// The value of a `Content-Type` header for a media type and a charset.
pub open spec fn content_type_text(mimetype: Seq<char>, charset: Seq<char>) -> Seq<char> {
    mimetype + "; charset="@ + charset
}

/// Writes the `Content-Type` value for `mimetype` with the parameter
/// `charset` attached.
pub fn get_content_type(mimetype: &str, charset: &str) -> (r: String)
    ensures
        r@ == content_type_text(mimetype@, charset@),
{
    let mut r = String::from_str(mimetype);
    r.append("; charset=");
    r.append(charset);
    r
}

} // verus!
