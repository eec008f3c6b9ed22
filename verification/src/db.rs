use vstd::prelude::*;

verus! {

/// One row of the local guest-entry log; opening the database and inserting
/// rows is the caller's affair.
#[derive(Debug)]
pub struct GuestEntry {
    pub id: i32,
    pub onecard: i32,
    pub entry_time: String,
    pub name: Option<String>,
}

} // verus!
