use vstd::prelude::*;

verus! {

/// One guest entry as it is forwarded to the server: exactly the identifier
/// and name a decoded swipe carries, unmodified.
#[derive(Clone)]
pub struct CardData {
    pub onecard: String,
    pub name: String,
}

} // verus!
