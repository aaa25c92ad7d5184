//! What the scanner answers to its control surface.

pub mod routes;

use vstd::prelude::*;
use self::routes::Response;

verus! {

/// The answer to a command that was carried out: status 200 and `message`.
pub fn success(message: String) -> (response: Response)
    ensures
        response.status == 200,
        response.message == message,
{
    Response { status: 200, message }
}

/// The answer to a command that was refused or failed: status 400 and
/// `message`.
pub fn error(message: String) -> (response: Response)
    ensures
        response.status == 400,
        response.message == message,
{
    Response { status: 400, message }
}

} // verus!
