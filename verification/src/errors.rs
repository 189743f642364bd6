//! The error taxonomy of the catalog-consistency layer, with the HTTP status
//! code and the user-visible message each classification maps to.

use vstd::prelude::*;

verus! {

/// Every failure a lifecycle operation can surface.
#[derive(Debug)]
pub enum ApiError {
    /// The backend is unreachable (503).
    ServerDown,
    /// The owner has no catalog document (404).
    OwnerNotFound(String),
    /// The resource is absent where it was required (404).
    ResourceNotFound(String),
    /// A create found the resource already present (409).
    ResourceExists(String),
    /// The backend rejected a malformed body (400).
    BadDataRequest,
    /// Any other backend failure, passed through opaquely (500).
    Unknown,
}

impl ApiError {
    /// The HTTP status code of each classification.
    pub open spec fn status_code_spec(self) -> u16 {
        match self {
            ApiError::ServerDown => 503,
            ApiError::OwnerNotFound(_) => 404,
            ApiError::ResourceNotFound(_) => 404,
            ApiError::ResourceExists(_) => 409,
            ApiError::BadDataRequest => 400,
            ApiError::Unknown => 500,
        }
    }

    pub fn status_code(&self) -> (r: u16)
        ensures
            r == self.status_code_spec(),
    {
        match self {
            ApiError::ServerDown => 503,
            ApiError::OwnerNotFound(_) => 404,
            ApiError::ResourceNotFound(_) => 404,
            ApiError::ResourceExists(_) => 409,
            ApiError::BadDataRequest => 400,
            ApiError::Unknown => 500,
        }
    }

    /// The text that names the condition in a JSON error body.
    pub open spec fn message_spec(self) -> Seq<char> {
        match self {
            ApiError::ServerDown => "could not connect to the server"@,
            ApiError::OwnerNotFound(o) => "owner "@ + o@ + " not found"@,
            ApiError::ResourceNotFound(n) => "resource "@ + n@ + " not found"@,
            ApiError::ResourceExists(n) => "resource "@ + n@ + " already exists"@,
            ApiError::BadDataRequest => "bad data request"@,
            ApiError::Unknown => "unknown error"@,
        }
    }

    pub fn message(&self) -> (r: String)
        ensures
            r@ == self.message_spec(),
    {
        match self {
            ApiError::ServerDown => String::from_str("could not connect to the server"),
            ApiError::OwnerNotFound(o) => {
                let mut s = String::from_str("owner ");
                s.append(o.as_str());
                s.append(" not found");
                proof {
                    assert(s@ =~= self.message_spec());
                }
                s
            },
            ApiError::ResourceNotFound(n) => {
                let mut s = String::from_str("resource ");
                s.append(n.as_str());
                s.append(" not found");
                proof {
                    assert(s@ =~= self.message_spec());
                }
                s
            },
            ApiError::ResourceExists(n) => {
                let mut s = String::from_str("resource ");
                s.append(n.as_str());
                s.append(" already exists");
                proof {
                    assert(s@ =~= self.message_spec());
                }
                s
            },
            ApiError::BadDataRequest => String::from_str("bad data request"),
            ApiError::Unknown => String::from_str("unknown error"),
        }
    }
}

/// How a raw backend status code is read when a call is passed through.
pub enum ResponseClass {
    Success,
    NotFound,
    BadRequest,
    Other,
}

/// Classifies a backend status code: success, a not-found, a rejected body,
/// or anything else (surfaced as `Unknown` upstream).
pub fn classify_status(status: u16) -> (r: ResponseClass)
    ensures
        r is Success <==> 200 <= status < 300,
        r is NotFound <==> status == 404,
        r is BadRequest <==> status == 400,
{
    if 200 <= status && status < 300 {
        ResponseClass::Success
    } else if status == 404 {
        ResponseClass::NotFound
    } else if status == 400 {
        ResponseClass::BadRequest
    } else {
        ResponseClass::Other
    }
}

} // verus!
