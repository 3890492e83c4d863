//! Access guard: ownership is the only authorization rule.

use vstd::prelude::*;
use crate::errors::FmError;
use crate::models::Host;
use crate::text::str_eq;

verus! {

/// The caller owns the host.
pub open spec fn owns(caller_id: Seq<char>, host: Host) -> bool {
    host.user_id@ == caller_id
}

/// Decides whether a caller may operate on a host: allowed exactly when the
/// caller's subject id equals the host's owner id; every other caller is
/// denied with `Authorization`. There is no role or sharing model.
pub fn authorize(caller_id: &str, host: &Host) -> (r: Result<(), FmError>)
    ensures
        r is Ok <==> owns(caller_id@, *host),
        r is Err ==> r == Err::<(), FmError>(FmError::Authorization),
{
    if str_eq(caller_id, host.user_id.as_str()) {
        Ok(())
    } else {
        Err(FmError::Authorization)
    }
}

} // verus!
