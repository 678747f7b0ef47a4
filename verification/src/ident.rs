//! Fresh ids for new tasks.

use vstd::prelude::*;

verus! {

/// The length of an id: 32 hexadecimal digits in five groups, with a
/// hyphen between groups.
pub const ID_LENGTH: usize = 36;

/// A new random id: `uuid::Uuid::new_v4`, written out by its `Display`.
/// Trusted: the text has [`ID_LENGTH`] characters. Which characters is a
/// matter of chance, and nothing is claimed of them.
#[verifier::external_body]
pub(crate) fn random_id() -> (r: String)
    ensures
        r@.len() == ID_LENGTH,
{
    uuid::Uuid::new_v4().to_string()
}

} // verus!
