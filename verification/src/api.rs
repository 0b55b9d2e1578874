//! The HTTP credential check: how the authorization headers of a request
//! decide whether it may proceed.

use vstd::prelude::*;

verus! {

/// Why a request's authorization headers were rejected.
#[derive(Debug, PartialEq, Eq, Structural)]
pub enum ApiKeyError {
    /// More than one authorization header was presented.
    BadCount,
    /// No authorization header was presented.
    Missing,
    /// The one presented credential does not equal the process credential.
    Invalid,
}

/// Whether a presented key equals the process credential exactly: whole
/// content, no prefix or partial match.
pub fn is_valid(key: &String, credential: &String) -> (r: bool)
    ensures
        r == (key@ == credential@),
{
    *key == *credential
}

/// Decides a request from its authorization header values: exactly one
/// header, equal to the credential, passes and yields the accepted key;
/// zero headers, a single wrong one, and several headers are each
/// rejected with their own error.
pub fn check_api_key(headers: &Vec<String>, credential: &String) -> (r: Result<
    String,
    ApiKeyError,
>)
    ensures
        headers@.len() == 0 ==> r == Err::<String, ApiKeyError>(ApiKeyError::Missing),
        headers@.len() == 1 && headers@[0]@ == credential@ ==> (r matches Ok(k)
            && k@ == credential@),
        headers@.len() == 1 && headers@[0]@ != credential@ ==> r == Err::<String, ApiKeyError>(
            ApiKeyError::Invalid,
        ),
        headers@.len() > 1 ==> r == Err::<String, ApiKeyError>(ApiKeyError::BadCount),
{
    if headers.len() == 0 {
        Err(ApiKeyError::Missing)
    } else if headers.len() == 1 {
        let key = &headers[0];
        if is_valid(key, credential) {
            Ok(key.clone())
        } else {
            Err(ApiKeyError::Invalid)
        }
    } else {
        Err(ApiKeyError::BadCount)
    }
}

/// The HTTP status for a failed credential check: every failure maps to
/// 400, whichever of the three it is.
pub fn api_key_error_status(e: &ApiKeyError) -> (s: u16)
    ensures
        s == 400,
{
    match e {
        ApiKeyError::BadCount => 400,
        ApiKeyError::Missing => 400,
        ApiKeyError::Invalid => 400,
    }
}

} // verus!
