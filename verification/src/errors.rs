//! How failures reach clients: the status of a storage error and the body of an error reply.

use vstd::prelude::*;

use crate::text::{chars_contain, contains_seq, to_chars};
use crate::types::HttpStatus;

verus! {

/// The status a failed storage operation is answered with, read from its message.
pub open spec fn spec_error_status(m: Seq<char>) -> HttpStatus {
    if contains_seq(m, "duplicate key"@) && contains_seq(m, "worlds_slug"@) {
        HttpStatus::Conflict
    } else if contains_seq(m, "version conflict"@) || contains_seq(m, "id conflict"@) {
        HttpStatus::Conflict
    } else if contains_seq(m, "not found"@) || contains_seq(m, "not owned"@) {
        HttpStatus::NotFound
    } else if contains_seq(m, "invalid reference"@) || contains_seq(m, "invalid topology"@)
        || contains_seq(m, "invalid geometry"@) || contains_seq(m, "invalid node draft"@)
        || contains_seq(m, "invalid way draft"@) || contains_seq(m, "invalid relation draft"@) {
        HttpStatus::UnprocessableEntity
    } else {
        HttpStatus::InternalServerError
    }
}

/// The status a failed storage operation is answered with: conflicts 409, missing or foreign
/// entities 404, broken drafts and references 422, anything else 500.
pub fn error_status(message: &str) -> (r: HttpStatus)
    ensures
        r == spec_error_status(message@),
{
    let m = to_chars(message);
    if chars_contain(&m, "duplicate key") && chars_contain(&m, "worlds_slug") {
        HttpStatus::Conflict
    } else if chars_contain(&m, "version conflict") || chars_contain(&m, "id conflict") {
        HttpStatus::Conflict
    } else if chars_contain(&m, "not found") || chars_contain(&m, "not owned") {
        HttpStatus::NotFound
    } else if chars_contain(&m, "invalid reference") || chars_contain(&m, "invalid topology")
        || chars_contain(&m, "invalid geometry") || chars_contain(&m, "invalid node draft")
        || chars_contain(&m, "invalid way draft") || chars_contain(&m, "invalid relation draft") {
        HttpStatus::UnprocessableEntity
    } else {
        HttpStatus::InternalServerError
    }
}

/// The status a failed world creation is answered with: a taken slug is a conflict, anything
/// else as for any storage failure.
pub fn world_creation_status(message: &str) -> (r: HttpStatus)
    ensures
        r == if contains_seq(message@, "world slug already exists"@) {
            HttpStatus::Conflict
        } else {
            spec_error_status(message@)
        },
{
    let m = to_chars(message);
    if chars_contain(&m, "world slug already exists") {
        HttpStatus::Conflict
    } else {
        error_status(message)
    }
}

/// The machine-readable code of an error reply with status `status`.
pub open spec fn spec_error_code(status: u16) -> Seq<char> {
    if status == 400 {
        "validation"@
    } else if status == 401 {
        "unauthorized"@
    } else if status == 403 {
        "forbidden"@
    } else if status == 404 {
        "not_found"@
    } else if status == 409 {
        "version_conflict"@
    } else if status == 422 {
        "invalid_geometry_state"@
    } else {
        "unknown"@
    }
}

/// A status that error replies name by a code of their own.
pub open spec fn known_status(status: u16) -> bool {
    status == 400 || status == 401 || status == 403 || status == 404 || status == 409 || status
        == 422
}

/// The code of an error reply.
pub fn error_code(status: u16) -> (r: &'static str)
    ensures
        r@ == spec_error_code(status),
{
    match status {
        400 => "validation",
        401 => "unauthorized",
        403 => "forbidden",
        404 => "not_found",
        409 => "version_conflict",
        422 => "invalid_geometry_state",
        _ => "unknown",
    }
}

/// The message of an error reply: its code, or `request failed` for other statuses.
pub fn error_message(status: u16) -> (r: &'static str)
    ensures
        r@ == if known_status(status) {
            spec_error_code(status)
        } else {
            "request failed"@
        },
{
    match status {
        400 => "validation",
        401 => "unauthorized",
        403 => "forbidden",
        404 => "not_found",
        409 => "version_conflict",
        422 => "invalid_geometry_state",
        _ => "request failed",
    }
}

/// The name of a request's trace span: the method and the matched route template, or the
/// method and path recorded when the request arrived.
pub fn span_name(method: &str, fallback: &str, route: Option<&str>) -> (r: String)
    ensures
        r@ == match route {
            Some(t) => method@ + " "@ + t@,
            None => fallback@,
        },
{
    match route {
        Some(t) => {
            let r = method.to_owned().concat(" ").concat(t);
            r
        },
        None => fallback.to_owned(),
    }
}

/// The fallback name of a request's trace span: its method and path.
pub fn fallback_span_name(method: &str, path: &str) -> (r: String)
    ensures
        r@ == method@ + " "@ + path@,
{
    method.to_owned().concat(" ").concat(path)
}

} // verus!
