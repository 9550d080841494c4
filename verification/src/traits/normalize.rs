use crate::traits::document::DBDocument;
use vstd::prelude::*;

verus! {

/// What cleaning a value up came to.
#[derive(Debug, Clone, Copy, PartialEq, Eq, Structural)]
pub enum DBNormalizeResult {
    /// The value is as it was.
    NotModified,
    /// The value has changed.
    Modified,
    /// Nothing is left of the value: whoever holds it drops it.
    Removed,
}

/// A value that can be cleaned up in place.
pub trait DBNormalize {
    /// Cleans the value up and tells what came of it.
    fn normalize(&mut self) -> DBNormalizeResult;
}

impl<T> DBNormalize for T where T: DBDocument {
    /// A document is cleaned up by normalizing its fields: the document
    /// changes as `normalize_fields` changes it, and the result is the result
    /// of `normalize_fields`.
    fn normalize(&mut self) -> (r: DBNormalizeResult)
        ensures
            exists|document: &mut T|
                *document == *old(self) && *final(document) == *final(self)
                    && #[trigger] call_ensures(T::normalize_fields, (document,), r),
    {
        self.normalize_fields()
    }
}

} // verus!
