//! Decisions of the storage layer: what is checked, merged and reported
//! around each read and write of the local database.
pub mod device;
pub mod group;
pub mod schedule;
pub mod settings;
pub mod snapshot;

use vstd::prelude::*;

use crate::error::AppError;
use crate::text::{owned, push_str};

verus! {

/// The `NotFound` detail for the record `id` of the given kind: the label, a
/// space, then the id.
pub open spec fn not_found_detail(label: Seq<char>, id: Seq<char>) -> Seq<char> {
    label + " "@ + id
}

/// The `NotFound` error for the record `id` of the given kind.
pub fn not_found(label: &str, id: &str) -> (e: AppError)
    ensures
        e matches AppError::NotFound(d) && d@ == not_found_detail(label@, id@),
{
    let mut d = owned(label);
    push_str(&mut d, " ");
    push_str(&mut d, id);
    AppError::NotFound(d)
}

/// A change that touched no row means the record does not exist.
pub fn require_affected(rows_affected: u64, label: &str, id: &str) -> (r: Result<(), AppError>)
    ensures
        rows_affected > 0 ==> r is Ok,
        rows_affected == 0 ==> (r matches Err(AppError::NotFound(d)) && d@ == not_found_detail(
            label@,
            id@,
        )),
{
    if rows_affected == 0 {
        Err(not_found(label, id))
    } else {
        Ok(())
    }
}

} // verus!
