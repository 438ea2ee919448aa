//! What a client expects of the answer to a request for a WebSocket.

use vstd::prelude::*;
use crate::head::Version;

verus! {

/// The status that the answer to a WebSocket request must have but has
/// not: under HTTP/1.1 the protocols must be switched, under HTTP/2 the
/// request must succeed. `None` where the status is as it must be, and
/// under every other version.
pub open spec fn missing_status(version: Version, status: u16) -> Option<u16> {
    if version == Version::Http11 && status != 101 {
        Some(101u16)
    } else if version == Version::Http2 && status != 200 {
        Some(200u16)
    } else {
        None
    }
}

/// Tells the status that the answer to a WebSocket request must have but
/// has not; see [`missing_status`].
pub fn expect_status(version: Version, status: u16) -> (r: Option<u16>)
    ensures
        r == missing_status(version, status),
{
    match version {
        Version::Http11 => {
            if status != 101 {
                Some(101)
            } else {
                None
            }
        },
        Version::Http2 => {
            if status != 200 {
                Some(200)
            } else {
                None
            }
        },
        _ => None,
    }
}

} // verus!
