use crate::traits::document::DBDocument;
use crate::types::id::DBId;
use crate::types::uuid::DBUuid;
use vstd::prelude::*;

verus! {

/// A document that links two documents.
pub trait DBEdgeDocument: DBDocument {
    // GETTERS ----------------------------------------------------------------

    /// The document the edge starts from.
    fn db_from(&self) -> &Option<DBId<DBUuid, Self::CollectionType>>;

    /// The document the edge leads to.
    fn db_to(&self) -> &Option<DBId<DBUuid, Self::CollectionType>>;
}

} // verus!
