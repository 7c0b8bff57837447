//! What the answers of the store mean.

use vstd::prelude::*;

verus! {

/// What became of an API key that was to be revoked.
#[derive(Clone, Copy, Debug, PartialEq, Eq, Structural)]
pub enum RevocationStatus {
    /// The key was stored and is now gone.
    Revoked,
    /// No such key was stored.
    NotFound,
}

impl RevocationStatus {
    /// Reads the outcome of a revocation off the number of rows that the
    /// delete statement removed: none means that the key was not found.
    pub fn from_rows_affected(rows: u64) -> (status: Self)
        ensures
            status == if rows == 0 {
                RevocationStatus::NotFound
            } else {
                RevocationStatus::Revoked
            },
    {
        if rows == 0 {
            RevocationStatus::NotFound
        } else {
            RevocationStatus::Revoked
        }
    }
}

/// Whether an API key is valid, given how many stored keys equal it: it is
/// valid when there is at least one.
pub fn key_count_is_valid(count: u32) -> (valid: bool)
    ensures
        valid == (count > 0),
{
    count > 0
}

} // verus!
