use crate::traits::document::DBDocument;
use crate::types::mutex::DBMutex;
use crate::types::nullable_option::NullableOption;
use crate::types::uuid::DBUuid;
use vstd::prelude::*;

verus! {

/// A document that nodes lock through a mutex stored in the document itself.
pub trait DBSynchronizedDocument<'a>: DBDocument {
    /// The mutex field of the document.
    spec fn mutex(&self) -> NullableOption<DBMutex>;

    // GETTERS ----------------------------------------------------------------

    /// The key of the document that represents the collection in the config collection.
    fn collection_key() -> &'a DBUuid;

    // SETTERS ----------------------------------------------------------------

    /// Replaces the mutex field and nothing else.
    fn set_mutex(&mut self, mutex: NullableOption<DBMutex>)
        ensures
            final(self).mutex() == mutex,
            final(self).key() == old(self).key(),
    ;
}

} // verus!
