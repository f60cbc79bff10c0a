//! The input validators behind the interactive prompts. The prompt plumbing
//! lives with the binary; the decisions live here.

use vstd::prelude::*;

use crate::text::{chars_of, contains_exec, contains_seq};

verus! {

/// A usable network port: non-zero and within sixteen bits.
pub fn validate_net_port(value: u32) -> (r: bool)
    ensures
        r == (1 <= value <= 0xFFFF),
{
    1 <= value && value <= 0xFFFF
}

/// A non-empty string.
pub fn validate_empty_string(value: &str) -> (r: bool)
    ensures
        r == (value@.len() > 0),
{
    !value.is_empty()
}

/// A plausible email: holds an `@`, or is at least longer than two
/// characters.
pub fn validate_simple_email(value: &str) -> (r: bool)
    ensures
        r == (contains_seq(value@, "@"@) || value@.len() > 2),
{
    let cs = chars_of(value);
    let at = chars_of("@");
    let has_at = contains_exec(&cs, &at);
    has_at || cs.len() > 2
}

} // verus!
