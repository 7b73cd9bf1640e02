//! Options of the configuration tools.

use vstd::prelude::*;

use crate::common::text;

verus! {

/// Options of the tool that prints verification keys.
#[derive(Debug, PartialEq, Eq)]
pub struct ConfigArgs {
    /// The environment file to use.
    pub env_file: Option<String>,
    /// Optional path to write output JSON results.
    pub output_json: Option<String>,
}

/// The number in a variable, if there is a `u32` in it. A variable that holds anything else counts
/// as if it held nothing.
pub fn optional_u32(var: &str) -> (r: Option<u32>)
    ensures
        r == (match text::u64_value(var@) {
            Some(n) => if n <= u32::MAX {
                Some(n as u32)
            } else {
                None
            },
            None => None,
        }),
{
    match text::parse_u64(var) {
        Ok(n) => if n <= u32::MAX as u64 {
            Some(n as u32)
        } else {
            None
        },
        Err(_) => None,
    }
}

/// The truth value that `text` denotes.
pub open spec fn bool_value(text: Seq<char>) -> Option<bool> {
    if text == "true"@ {
        Some(true)
    } else if text == "false"@ {
        Some(false)
    } else {
        None
    }
}

/// Reads a truth value.
pub fn parse_bool(text: &str) -> (r: Option<bool>)
    ensures
        r == bool_value(text@),
{
    if text::str_eq(text, "true") {
        Some(true)
    } else if text::str_eq(text, "false") {
        Some(false)
    } else {
        None
    }
}

} // verus!
