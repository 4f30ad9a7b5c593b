//! Groups (tags) of devices.
use vstd::prelude::*;

use crate::error::AppError;
use crate::text::{owned, spec_trim, trim};

verus! {

/// Checks a new group's name: it is trimmed and must not be empty.
pub fn group_name(name: &str) -> (r: Result<String, AppError>)
    ensures
        spec_trim(name@).len() > 0 ==> (r matches Ok(n) && n@ == spec_trim(name@)),
        spec_trim(name@).len() == 0 ==> (r matches Err(AppError::Validation(d)) && d@
            == "群組名稱不可為空"@),
{
    let n = trim(name);
    if n.as_str().is_empty() {
        Err(AppError::Validation(owned("群組名稱不可為空")))
    } else {
        Ok(n)
    }
}

/// Refuses a group name already in use.
pub fn reject_duplicate_name(name: &str, taken: bool) -> (r: Result<(), AppError>)
    ensures
        !taken ==> r is Ok,
        taken ==> (r matches Err(AppError::DuplicateName(d)) && d@ == name@),
{
    if taken {
        Err(AppError::DuplicateName(owned(name)))
    } else {
        Ok(())
    }
}

} // verus!
