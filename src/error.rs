//! The errors that the API reports to clients.
use vstd::prelude::*;

verus! {

/// What went wrong while serving a request.
#[derive(Clone, Copy, Debug, PartialEq, Eq, Structural)]
pub enum ApiError {
    /// The credential is missing, malformed, unknown or revoked.
    Unauthenticated,
    /// The request body is not valid for the endpoint.
    BadJson,
    /// The requested room alias belongs to another room.
    AliasTaken,
    /// The store could not complete the operation.
    Storage,
}

impl ApiError {
    /// The `errcode` field of the error response.
    pub fn errcode(&self) -> (r: &'static str)
        ensures
            r@ == self.errcode_spec(),
    {
        match self {
            ApiError::Unauthenticated => "M_FORBIDDEN",
            ApiError::BadJson => "M_BAD_JSON",
            ApiError::AliasTaken => "M_ROOM_IN_USE",
            ApiError::Storage => "M_UNKNOWN",
        }
    }

    pub open spec fn errcode_spec(&self) -> Seq<char> {
        match self {
            ApiError::Unauthenticated => "M_FORBIDDEN"@,
            ApiError::BadJson => "M_BAD_JSON"@,
            ApiError::AliasTaken => "M_ROOM_IN_USE"@,
            ApiError::Storage => "M_UNKNOWN"@,
        }
    }

    /// The HTTP status code of the error response.
    pub fn status(&self) -> (r: u16)
        ensures
            r == self.status_spec(),
    {
        match self {
            ApiError::Unauthenticated => 403,
            ApiError::BadJson => 400,
            ApiError::AliasTaken => 409,
            ApiError::Storage => 500,
        }
    }

    pub open spec fn status_spec(&self) -> u16 {
        match self {
            ApiError::Unauthenticated => 403,
            ApiError::BadJson => 400,
            ApiError::AliasTaken => 409,
            ApiError::Storage => 500,
        }
    }
}

} // verus!
