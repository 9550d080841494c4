use crate::traits::normalize::DBNormalizeResult;
use crate::types::uuid::DBUuid;
use vstd::prelude::*;

verus! {

/// A document of a collection.
pub trait DBDocument: Sized {
    /// How the collections of the store are told apart.
    type CollectionType;

    /// The key under which the document is stored, if it has one yet.
    spec fn key(&self) -> Option<DBUuid>;

    // GETTERS ----------------------------------------------------------------

    /// The key under which the document is stored, if it has one yet.
    fn db_key(&self) -> (r: &Option<DBUuid>)
        ensures
            *r == self.key(),
    ;

    // SETTERS ----------------------------------------------------------------

    /// Replaces the key of the document.
    fn set_db_key(&mut self, value: Option<DBUuid>)
        ensures
            final(self).key() == value,
    ;

    // METHODS ----------------------------------------------------------------

    /// Normalizes the fields of the document to clean it up.
    fn normalize_fields(&mut self) -> DBNormalizeResult;
}

/// The characters of a key, if there is a key.
pub open spec fn option_key_view(key: Option<DBUuid>) -> Option<Seq<char>> {
    match key {
        Some(k) => Some(k@),
        None => None,
    }
}

/// The characters of the key of `document`, if it has a key.
pub open spec fn key_view<T: DBDocument>(document: T) -> Option<Seq<char>> {
    option_key_view(document.key())
}

/// Whether two keys that may be missing are the same.
pub fn same_key(a: &Option<DBUuid>, b: &Option<DBUuid>) -> (r: bool)
    ensures
        r == (option_key_view(*a) == option_key_view(*b)),
{
    match a {
        Some(x) => match b {
            Some(y) => *x == *y,
            None => false,
        },
        None => b.is_none(),
    }
}

} // verus!
