//! Classification of HTTP response statuses: which status codes count as a
//! successful call. The transport layer consults this before reporting an
//! outcome to the pipeline, so that a non-success response counts as the
//! call's failure even when the transport itself carried it fine.

use vstd::prelude::*;

verus! {

/// A status code in the success class.
pub open spec fn status_success(status: int) -> bool {
    200 <= status < 300
}

/// Whether an HTTP response status counts as success: exactly the 2xx class.
pub fn http_success(status: u16) -> (r: bool)
    ensures
        r == status_success(status as int),
{
    200 <= status && status < 300
}

} // verus!
