use crate::types::uuid::DBUuid;
use vstd::prelude::*;

verus! {

/// A document in the shape in which clients see it.
pub trait APIDocument: Sized {
    /// The identifier of the document, if it has one yet.
    spec fn api_id(&self) -> Option<DBUuid>;

    // GETTERS ----------------------------------------------------------------

    /// The identifier of the document, if it has one yet.
    fn id(&self) -> (r: &Option<DBUuid>)
        ensures
            *r == self.api_id(),
    ;
}

} // verus!
