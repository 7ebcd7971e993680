//! The taxonomy of common failure responses, and the classification of a
//! request failure into exactly one of them.

use vstd::prelude::*;
use crate::descriptor::{
    views, DescriptorView, HeaderDescriptor, MediaTypeDescriptor, ResponseDescriptor, SchemaRef,
};
use crate::text::{decimal, decimal_string, parse_u64, parsed_u64};
use crate::wire::{Body, WireResponse};

verus! {

/// A common failure response. Each carries a plain-text message; the range
/// failure also carries the value of its `content-range` header, if any.
#[derive(Debug, Clone, PartialEq, Eq)]
pub enum ErrorResponse {
    BadRequest(String),
    Unauthorized(String),
    Forbidden(String),
    NotFound(String),
    MethodNotAllowed(String),
    PreconditionFailed(String),
    PayloadTooLarge(String),
    UnsupportedMediaType(String),
    RangeNotSatisfiable(String, Option<u64>),
    InternalServerError(String),
}

/// The kinds of request failure that the routing and parsing layers raise.
/// `Other` is any failure of a kind not listed.
#[derive(Debug, Clone, Copy, PartialEq, Eq)]
pub enum FailureKind {
    ParsePath,
    NotFound,
    MethodNotAllowed,
    Cors,
    ReadBody,
    ParseCookie,
    GetData,
    ParseForm,
    ParseJson,
    ParseQuery,
    ParseMultipart,
    ParseTypedHeader,
    Upgrade,
    StaticFile,
    SizedLimit,
    Route,
    ParseParam,
    ParseRequestPayload,
    ContentType,
    Authorization,
    Other,
}

/// A failed request, as the layer that raised it reports it: its kind, the
/// status it asks for, its message, and the `content-range` header of the
/// response it would give, if that has one.
#[derive(Debug, Clone, PartialEq, Eq)]
pub struct RequestFailure {
    pub kind: FailureKind,
    pub status: u16,
    pub message: String,
    pub content_range: Option<String>,
}

/// The statuses of the taxonomy, in declaration order.
pub open spec fn taxonomy_statuses() -> Seq<u16> {
    seq![400u16, 401, 403, 404, 405, 412, 413, 415, 416, 500]
}

/// The taxonomy response for `status`, if it has one.
pub open spec fn response_for_status(status: u16, message: String, range: Option<u64>) -> Option<
    ErrorResponse,
> {
    if status == 400 {
        Some(ErrorResponse::BadRequest(message))
    } else if status == 401 {
        Some(ErrorResponse::Unauthorized(message))
    } else if status == 403 {
        Some(ErrorResponse::Forbidden(message))
    } else if status == 404 {
        Some(ErrorResponse::NotFound(message))
    } else if status == 405 {
        Some(ErrorResponse::MethodNotAllowed(message))
    } else if status == 412 {
        Some(ErrorResponse::PreconditionFailed(message))
    } else if status == 413 {
        Some(ErrorResponse::PayloadTooLarge(message))
    } else if status == 415 {
        Some(ErrorResponse::UnsupportedMediaType(message))
    } else if status == 500 {
        Some(ErrorResponse::InternalServerError(message))
    } else if status == 416 {
        Some(ErrorResponse::RangeNotSatisfiable(message, range))
    } else {
        None
    }
}

/// The number that a `content-range` header holds, where it holds one.
pub open spec fn range_value(header: Option<String>) -> Option<u64> {
    match header {
        Some(h) => parsed_u64(h@),
        None => None,
    }
}

/// What a failure of a listed kind maps to: the response at its status.
pub open spec fn from_failure(failure: RequestFailure) -> Option<ErrorResponse> {
    if failure.kind is Other {
        None
    } else {
        response_for_status(failure.status, failure.message, range_value(failure.content_range))
    }
}

/// The classification of a failure: the response at its status where its kind
/// is listed and its status is in the taxonomy, else the internal error with
/// its message.
pub open spec fn classify(failure: RequestFailure) -> ErrorResponse {
    match from_failure(failure) {
        Some(r) => r,
        None => ErrorResponse::InternalServerError(failure.message),
    }
}

impl ErrorResponse {
    pub open spec fn spec_status(&self) -> u16 {
        match self {
            ErrorResponse::BadRequest(_) => 400,
            ErrorResponse::Unauthorized(_) => 401,
            ErrorResponse::Forbidden(_) => 403,
            ErrorResponse::NotFound(_) => 404,
            ErrorResponse::MethodNotAllowed(_) => 405,
            ErrorResponse::PreconditionFailed(_) => 412,
            ErrorResponse::PayloadTooLarge(_) => 413,
            ErrorResponse::UnsupportedMediaType(_) => 415,
            ErrorResponse::RangeNotSatisfiable(..) => 416,
            ErrorResponse::InternalServerError(_) => 500,
        }
    }

    /// The status this response is sent with.
    pub fn status(&self) -> (r: u16)
        ensures
            r == self.spec_status(),
    {
        match self {
            ErrorResponse::BadRequest(_) => 400,
            ErrorResponse::Unauthorized(_) => 401,
            ErrorResponse::Forbidden(_) => 403,
            ErrorResponse::NotFound(_) => 404,
            ErrorResponse::MethodNotAllowed(_) => 405,
            ErrorResponse::PreconditionFailed(_) => 412,
            ErrorResponse::PayloadTooLarge(_) => 413,
            ErrorResponse::UnsupportedMediaType(_) => 415,
            ErrorResponse::RangeNotSatisfiable(..) => 416,
            ErrorResponse::InternalServerError(_) => 500,
        }
    }

    /// The taxonomy response for a failure that asks for `status`: the variant
    /// with that status, carrying `message` (and, for the range failure, the
    /// number in `content_range` where it holds one); `None` where no variant
    /// has that status.
    pub fn from_response_error(status: u16, message: String, content_range: Option<&str>) -> (r:
        Option<ErrorResponse>)
        ensures
            r == response_for_status(
                status,
                message,
                match content_range {
                    Some(h) => parsed_u64(h@),
                    None => None,
                },
            ),
    {
        if status == 400 {
            return Some(ErrorResponse::BadRequest(message));
        }
        if status == 401 {
            return Some(ErrorResponse::Unauthorized(message));
        }
        if status == 403 {
            return Some(ErrorResponse::Forbidden(message));
        }
        if status == 404 {
            return Some(ErrorResponse::NotFound(message));
        }
        if status == 405 {
            return Some(ErrorResponse::MethodNotAllowed(message));
        }
        if status == 412 {
            return Some(ErrorResponse::PreconditionFailed(message));
        }
        if status == 413 {
            return Some(ErrorResponse::PayloadTooLarge(message));
        }
        if status == 415 {
            return Some(ErrorResponse::UnsupportedMediaType(message));
        }
        if status == 500 {
            return Some(ErrorResponse::InternalServerError(message));
        }
        if status == 416 {
            let range = match content_range {
                Some(h) => parse_u64(h),
                None => None,
            };
            return Some(ErrorResponse::RangeNotSatisfiable(message, range));
        }
        None
    }

    /// The taxonomy response for a request failure of a listed kind (see
    /// `from_response_error`); `None` for a failure of another kind.
    pub fn from_poem_error(err: &RequestFailure) -> (r: Option<ErrorResponse>)
        ensures
            r == from_failure(*err),
    {
        match err.kind {
            FailureKind::Other => None,
            _ => {
                let range = match &err.content_range {
                    Some(h) => Some(h.as_str()),
                    None => None,
                };
                ErrorResponse::from_response_error(err.status, err.message.clone(), range)
            },
        }
    }
}

/// Classifies a request failure into exactly one taxonomy response: the one at
/// its status where there is one, else the internal error with its message.
pub fn bad_request_handler(err: &RequestFailure) -> (r: ErrorResponse)
    ensures
        r == classify(*err),
        taxonomy_statuses().contains(r.spec_status()),
        r.spec_status() == (if !(err.kind is Other) && taxonomy_statuses().contains(err.status) {
            err.status
        } else {
            500
        }),
{
    let r = match ErrorResponse::from_poem_error(err) {
        Some(r) => r,
        None => ErrorResponse::InternalServerError(err.message.clone()),
    };
    proof {
        assert(taxonomy_statuses()[9] == 500);
        assert(taxonomy_statuses().contains(r.spec_status())) by {
            let s = r.spec_status();
            if s == 400 { assert(taxonomy_statuses()[0] == s); }
            if s == 401 { assert(taxonomy_statuses()[1] == s); }
            if s == 403 { assert(taxonomy_statuses()[2] == s); }
            if s == 404 { assert(taxonomy_statuses()[3] == s); }
            if s == 405 { assert(taxonomy_statuses()[4] == s); }
            if s == 412 { assert(taxonomy_statuses()[5] == s); }
            if s == 413 { assert(taxonomy_statuses()[6] == s); }
            if s == 415 { assert(taxonomy_statuses()[7] == s); }
            if s == 416 { assert(taxonomy_statuses()[8] == s); }
        }
    }
    r
}

/// The message a taxonomy response carries.
pub open spec fn message_of(r: ErrorResponse) -> String {
    match r {
        ErrorResponse::BadRequest(m) => m,
        ErrorResponse::Unauthorized(m) => m,
        ErrorResponse::Forbidden(m) => m,
        ErrorResponse::NotFound(m) => m,
        ErrorResponse::MethodNotAllowed(m) => m,
        ErrorResponse::PreconditionFailed(m) => m,
        ErrorResponse::PayloadTooLarge(m) => m,
        ErrorResponse::UnsupportedMediaType(m) => m,
        ErrorResponse::RangeNotSatisfiable(m, _) => m,
        ErrorResponse::InternalServerError(m) => m,
    }
}

/// `s` is an inline schema of type `ty` with format `format`.
pub open spec fn is_inline(s: SchemaRef, ty: Seq<char>, format: Option<Seq<char>>) -> bool {
    match s {
        SchemaRef::Inline { ty: t, format: f } => t@ == ty && match (f, format) {
            (Some(a), Some(b)) => a@ == b,
            (None, None) => true,
            _ => false,
        },
        SchemaRef::Reference(_) => false,
    }
}

/// The descriptor the taxonomy publishes at `status`: no description, a
/// plain-text body, and for the range failure an optional `CONTENT-RANGE`
/// header holding an unsigned integer.
pub open spec fn is_taxonomy_descriptor(d: DescriptorView, status: u16) -> bool {
    &&& d.status == Some(status)
    &&& d.description.len() == 0
    &&& d.content.len() == 1
    &&& d.content[0].content_type@ == "text/plain; charset=utf-8"@
    &&& is_inline(d.content[0].schema, "string"@, None)
    &&& if status == 416 {
        &&& d.headers.len() == 1
        &&& d.headers[0].name@ == "CONTENT-RANGE"@
        &&& d.headers[0].description is None
        &&& !d.headers[0].required
        &&& !d.headers[0].deprecated
        &&& is_inline(d.headers[0].schema, "integer"@, Some("uint64"@))
    } else {
        d.headers.len() == 0
    }
}

fn taxonomy_descriptor(status: u16) -> (r: ResponseDescriptor)
    ensures
        is_taxonomy_descriptor(r@, status),
{
    let mut content: Vec<MediaTypeDescriptor> = Vec::new();
    content.push(
        MediaTypeDescriptor {
            content_type: String::from_str("text/plain; charset=utf-8"),
            schema: SchemaRef::Inline { ty: String::from_str("string"), format: None },
        },
    );
    let mut headers: Vec<HeaderDescriptor> = Vec::new();
    if status == 416 {
        headers.push(
            HeaderDescriptor {
                name: String::from_str("CONTENT-RANGE"),
                description: None,
                required: false,
                deprecated: false,
                schema: SchemaRef::Inline {
                    ty: String::from_str("integer"),
                    format: Some(String::from_str("uint64")),
                },
            },
        );
    }
    ResponseDescriptor { status: Some(status), description: String::new(), content, headers }
}

impl ErrorResponse {
    /// The descriptors of the taxonomy, one per status, in declaration order.
    pub fn meta() -> (r: Vec<ResponseDescriptor>)
        ensures
            r@.len() == taxonomy_statuses().len(),
            forall|i: int|
                0 <= i < r@.len() ==> is_taxonomy_descriptor(#[trigger] r@[i]@, taxonomy_statuses()[i]),
            crate::merge::distinct_statuses(views(r@)),
    {
        let statuses: Vec<u16> = vec![400u16, 401, 403, 404, 405, 412, 413, 415, 416, 500];
        assert(statuses@ =~= taxonomy_statuses());
        let mut r: Vec<ResponseDescriptor> = Vec::new();
        let mut i: usize = 0;
        while i < statuses.len()
            invariant
                statuses@ == taxonomy_statuses(),
                0 <= i <= statuses@.len(),
                r@.len() == i,
                forall|j: int| 0 <= j < i ==> is_taxonomy_descriptor(#[trigger] r@[j]@, taxonomy_statuses()[j]),
            decreases statuses@.len() - i,
        {
            r.push(taxonomy_descriptor(statuses[i]));
            i += 1;
        }
        assert forall|a: int, b: int| 0 <= a < b < views(r@).len() implies views(r@)[a].status
            != views(r@)[b].status by {
            assert(views(r@)[a] == r@[a]@);
            assert(views(r@)[b] == r@[b]@);
            assert(is_taxonomy_descriptor(r@[a]@, taxonomy_statuses()[a]));
            assert(is_taxonomy_descriptor(r@[b]@, taxonomy_statuses()[b]));
        }
        r
    }

    /// Renders the response: its status, a plain-text body with its message,
    /// and for the range failure the `CONTENT-RANGE` header where a value is
    /// present.
    pub fn render(self) -> (r: WireResponse)
        ensures
            r.status == self.spec_status(),
            r.content_type matches Some(ct) && ct@ == "text/plain; charset=utf-8"@,
            r.body == Body::Text(message_of(self)),
            match self {
                ErrorResponse::RangeNotSatisfiable(_, Some(n)) => {
                    &&& r.headers@.len() == 1
                    &&& r.headers@[0].0@ == "CONTENT-RANGE"@
                    &&& r.headers@[0].1@ == decimal(n as nat)
                },
                _ => r.headers@.len() == 0,
            },
    {
        let status = self.status();
        let mut headers: Vec<(String, String)> = Vec::new();
        let message = match self {
            ErrorResponse::BadRequest(m) => m,
            ErrorResponse::Unauthorized(m) => m,
            ErrorResponse::Forbidden(m) => m,
            ErrorResponse::NotFound(m) => m,
            ErrorResponse::MethodNotAllowed(m) => m,
            ErrorResponse::PreconditionFailed(m) => m,
            ErrorResponse::PayloadTooLarge(m) => m,
            ErrorResponse::UnsupportedMediaType(m) => m,
            ErrorResponse::RangeNotSatisfiable(m, range) => {
                if let Some(n) = range {
                    headers.push((String::from_str("CONTENT-RANGE"), decimal_string(n)));
                }
                m
            },
            ErrorResponse::InternalServerError(m) => m,
        };
        WireResponse {
            status,
            content_type: Some(String::from_str("text/plain; charset=utf-8")),
            headers,
            body: Body::Text(message),
        }
    }
}

} // verus!
