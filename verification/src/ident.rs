//! Fresh identifiers.

use vstd::prelude::*;

verus! {

/// A fresh random identifier, written as a version 4 UUID.
///
/// Calls `uuid::Uuid::new_v4` and formats what it returns, which gives the
/// hyphenated form of 36 characters. Which identifier comes is left open.
#[verifier::external_body]
pub(crate) fn fresh_uuid() -> (id: String)
    ensures
        id@.len() == 36,
{
    uuid::Uuid::new_v4().to_string()
}

} // verus!
