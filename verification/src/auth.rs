//! The computable core of the authentication middleware: picking the bearer
//! token out of an `Authorization` header and shaping the error responses.
//! Verifying the token itself is identity plumbing and stays outside the
//! engine; it receives the extracted token as a plain value.

use vstd::prelude::*;
use vstd::string::StrSliceExecFns;
use crate::api::ApiResponse;
use crate::api::EmptyStruct;

verus! {

/// An authentication failure: the response body to send and the HTTP status
/// code to send it with.
pub struct ApiAuthError {
    pub response: ApiResponse<EmptyStruct>,
    pub status_code: u16,
}

/// The identity a validated token proves: the user's id, as its canonical
/// text.
pub struct AuthenticatedUser {
    pub user_id: String,
}

/// An unauthorized response carrying `message`.
pub fn create_401_error(message: &str) -> (r: ApiAuthError)
    ensures
        r.status_code == 401,
        !r.response.success,
        r.response.data is None,
        r.response.message matches Some(m) && m@ == message@,
{
    ApiAuthError {
        response: ApiResponse {
            success: false,
            data: None,
            message: Some(message.to_owned()),
        },
        status_code: 401,
    }
}

/// An internal-server-error response carrying `message`.
pub fn create_500_error(message: &str) -> (r: ApiAuthError)
    ensures
        r.status_code == 500,
        !r.response.success,
        r.response.data is None,
        r.response.message matches Some(m) && m@ == message@,
{
    ApiAuthError {
        response: ApiResponse {
            success: false,
            data: None,
            message: Some(message.to_owned()),
        },
        status_code: 500,
    }
}

/// The scheme prefix of a bearer `Authorization` header.
pub open spec fn bearer_prefix() -> Seq<char> {
    seq!['B', 'e', 'a', 'r', 'e', 'r', ' ']
}

/// Picks the token out of an `Authorization` header value: everything after
/// the exact prefix `Bearer `. Rejects every other value.
pub fn extract_bearer_token(auth_str: &str) -> (r: Option<String>)
    ensures
        r is Some <==> auth_str@.len() >= 7 && auth_str@.subrange(0, 7) == bearer_prefix(),
        r matches Some(t) ==> t@ == auth_str@.subrange(7, auth_str@.len() as int),
{
    let n = auth_str.unicode_len();
    if n < 7 {
        return None;
    }
    let scheme = "Bearer ";
    proof {
        reveal_strlit("Bearer ");
        assert(scheme@ =~= bearer_prefix());
    }
    let mut i: usize = 0;
    while i < 7
        invariant
            i <= 7,
            scheme@ == bearer_prefix(),
            7 <= n == auth_str@.len(),
            forall|j: int| 0 <= j < i ==> auth_str@[j] == bearer_prefix()[j],
        decreases 7 - i,
    {
        if auth_str.get_char(i) != scheme.get_char(i) {
            assert(auth_str@.subrange(0, 7)[i as int] != bearer_prefix()[i as int]);
            return None;
        }
        i = i + 1;
    }
    proof {
        assert(auth_str@.subrange(0, 7) =~= bearer_prefix());
    }
    Some(auth_str.substring_char(7, n).to_owned())
}

} // verus!
