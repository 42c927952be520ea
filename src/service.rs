use vstd::prelude::*;

verus! {

/// HTTP status of a successful response.
pub const HTTP_OK: u16 = 200;

/// HTTP status that rejects the credentials.
pub const HTTP_UNAUTHORIZED: u16 = 401;

/// What a response to the model-listing request says of an API key.
#[derive(Clone, Copy, Debug, PartialEq, Eq, Structural)]
pub enum KeyValidity {
    /// The request succeeded: the key is valid.
    Valid,
    /// The service answered 401: the key is not valid.
    Invalid,
    /// Any other status: nothing can be said of the key.
    Unexpected { status: u16 },
}

/// Whether `status` is a success status (2xx).
pub open spec fn is_success(status: u16) -> bool {
    200 <= status <= 299
}

/// Judges an API key by the status of the model-listing request made with it.
pub fn key_validity_from_status(status: u16) -> (r: KeyValidity)
    ensures
        is_success(status) ==> r == KeyValidity::Valid,
        status == HTTP_UNAUTHORIZED ==> r == KeyValidity::Invalid,
        !is_success(status) && status != HTTP_UNAUTHORIZED ==> r == (KeyValidity::Unexpected {
            status,
        }),
{
    if 200 <= status && status <= 299 {
        KeyValidity::Valid
    } else if status == HTTP_UNAUTHORIZED {
        KeyValidity::Invalid
    } else {
        KeyValidity::Unexpected { status }
    }
}

} // verus!
