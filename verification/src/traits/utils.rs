use arangors::ClientError;
use vstd::prelude::*;

verus! {

/// The error type of the `arangors` client: what a request to the store failed with.
#[verifier::external_type_specification]
#[verifier::external_body]
pub struct ExClientError(ClientError);

/// The number under which the store reports that a write ran into another
/// write of the same document.
pub const ERROR_WRITE_CONFLICT: u16 = 1200;

/// The number that the store gave to `error`, where the error came from the
/// store itself: what `arangors::ArangoError::error_num` returns for the
/// error inside `ClientError::Arango`. Every other error has none.
pub uninterp spec fn arango_error_num(error: ClientError) -> Option<u16>;

/// Reads the number of an error of the store with
/// `arangors::ArangoError::error_num`, for the variant `ClientError::Arango`.
#[verifier::external_body]
fn client_error_num(error: &ClientError) -> (r: Option<u16>)
    ensures
        r == arango_error_num(*error),
{
    match error {
        ClientError::Arango(e) => Some(e.error_num()),
        _ => None,
    }
}

/// Whether an error with the number `error_num` is a write conflict.
pub fn is_write_conflict(error_num: Option<u16>) -> (r: bool)
    ensures
        r == (error_num == Some(ERROR_WRITE_CONFLICT)),
{
    match error_num {
        Some(n) => n == ERROR_WRITE_CONFLICT,
        None => false,
    }
}

/// Sorts the errors after which a write is simply tried again from all
/// others: `Ok` holds a write conflict, `Err` any other error.
pub fn check_client_is_write_conflict(error: ClientError) -> (r: Result<ClientError, ClientError>)
    ensures
        match r {
            Ok(e) => e == error && arango_error_num(error) == Some(ERROR_WRITE_CONFLICT),
            Err(e) => e == error && arango_error_num(error) != Some(ERROR_WRITE_CONFLICT),
        },
{
    if is_write_conflict(client_error_num(&error)) {
        Ok(error)
    } else {
        Err(error)
    }
}

} // verus!
