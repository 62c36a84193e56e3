//! Generation of fresh game identifiers.

use vstd::prelude::*;

verus! {

/// Relies on uuid::Uuid::new_v4 and its Display form: a random
/// version-4 UUID rendered as the 36-character hyphenated string.
/// Nothing is assumed beyond the length of that rendering.
#[verifier::external_body]
pub(crate) fn fresh_game_id() -> (r: String)
    ensures
        r@.len() == 36,
{
    uuid::Uuid::new_v4().to_string()
}

} // verus!
