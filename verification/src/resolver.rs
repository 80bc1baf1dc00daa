//! Resolution of the dependency graph. Syncing and checking a project are not
//! available yet: both report so.

use vstd::prelude::*;

verus! {

broadcast use vstd::string::group_string_axioms;

/// A command that cannot run yet, with the message that says so.
#[derive(Debug)]
pub struct NotImplemented {
    pub message: String,
}

/// Syncing a project is not available yet.
pub fn sync(locked: bool, allow_high_sensitivity: bool) -> (r: Result<(), NotImplemented>)
    ensures
        r matches Err(e) && e.message@ == "sync is not implemented yet"@,
{
    Err(NotImplemented { message: "sync is not implemented yet".to_string() })
}

/// Checking a project is not available yet.
pub fn doctor() -> (r: Result<(), NotImplemented>)
    ensures
        r matches Err(e) && e.message@ == "doctor is not implemented yet"@,
{
    Err(NotImplemented { message: "doctor is not implemented yet".to_string() })
}

} // verus!
