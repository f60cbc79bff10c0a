//! The crate's calls into outside libraries, each behind a stated contract.

use vstd::prelude::*;

verus! {

/// Relies on `uuid::Uuid::new_v4` and its `Display` form: a fresh random
/// version-4 UUID rendered hyphenated, 36 characters with hyphens at
/// positions 8, 13, 18 and 23. Nothing is assumed about which identifier
/// comes back: two calls may differ, and normally do.
#[verifier::external_body]
pub(crate) fn fresh_client_id() -> (r: String)
    ensures
        r@.len() == 36,
        r@[8] == '-',
        r@[13] == '-',
        r@[18] == '-',
        r@[23] == '-',
{
    uuid::Uuid::new_v4().to_string()
}

} // verus!
