//! The status codes that the probe and the endpoint go by.

use vstd::prelude::*;

verus! {

/// The request succeeded. This is the first of the codes that mean success.
pub const OK: u16 = 200;

/// The last of the codes that mean success.
pub const LAST_SUCCESS: u16 = 299;

/// The server failed to serve the request.
pub const INTERNAL_SERVER_ERROR: u16 = 500;

/// Whether `code` means success: it lies from [`OK`] to [`LAST_SUCCESS`],
/// both included.
pub open spec fn success(code: u16) -> bool {
    OK <= code <= LAST_SUCCESS
}

/// Tells whether `code` means success.
pub fn is_success(code: u16) -> (yes: bool)
    ensures
        yes == success(code),
{
    OK <= code && code <= LAST_SUCCESS
}

} // verus!
