use crate::traits::document::{option_key_view, same_key, DBDocument};
use crate::traits::document_api::APIDocument;
use crate::traits::normalize::{DBNormalize, DBNormalizeResult};
use crate::types::reference_api::APIReference;
use crate::types::uuid::DBUuid;
use vstd::prelude::*;
use vstd::std_specs::cmp::PartialEqSpecImpl;

verus! {

/// A reference to a document of another collection: the document itself or its key alone.
#[derive(Debug)]
pub enum DBReference<T: DBDocument> {
    // Keep this order because otherwise Key will always be dereferenced in favour of Document
    // ignoring the rest of the fields.
    Document(Box<T>),
    Key(DBReferenceKey<DBUuid>),
}

/// The key of a referenced document.
#[derive(Debug, Clone, Eq, PartialEq)]
pub struct DBReferenceKey<K> {
    key: K,
}

impl<K> DBReferenceKey<K> {
    /// The key that the reference holds.
    pub closed spec fn spec_key(&self) -> K {
        self.key
    }

    /// The key that the reference holds.
    pub fn key(&self) -> (r: &K)
        ensures
            *r == self.spec_key(),
    {
        &self.key
    }
}

impl<T: DBDocument> DBReference<T> {
    /// The key of the referenced document, if the reference has one.
    pub open spec fn spec_key(&self) -> Option<Seq<char>> {
        match self {
            DBReference::Key(v) => Some(v.spec_key()@),
            DBReference::Document(v) => option_key_view(v.key()),
        }
    }

    // CONSTRUCTORS -----------------------------------------------------------

    /// The reference to the document stored under `key`.
    pub fn new_key(key: DBUuid) -> (r: Self)
        ensures
            r matches DBReference::Key(v) && v.spec_key() == key,
    {
        Self::Key(DBReferenceKey { key })
    }

    // GETTERS ----------------------------------------------------------------

    /// The key of the referenced document.
    pub fn key(&self) -> (r: DBUuid)
        requires
            self.spec_key() is Some,
        ensures
            Some(r@) == self.spec_key(),
    {
        match self {
            DBReference::Key(v) => v.key.clone(),
            DBReference::Document(v) => match v.db_key() {
                Some(k) => k.clone(),
                None => vstd::pervasive::unreached(),
            },
        }
    }

    /// Whether the reference holds a key alone.
    pub fn is_key(&self) -> (r: bool)
        ensures
            r == (*self is Key),
    {
        matches!(self, DBReference::Key(_))
    }

    /// Whether the reference holds the document itself.
    pub fn is_document(&self) -> (r: bool)
        ensures
            r == (*self is Document),
    {
        matches!(self, DBReference::Document(_))
    }

    /// The document that the reference holds.
    pub fn unwrap_document_as_ref(&self) -> (r: &T)
        requires
            *self is Document,
        ensures
            *r == *self->Document_0,
    {
        match self {
            DBReference::Document(v) => v,
            _ => vstd::pervasive::unreached(),
        }
    }

    /// The document that the reference holds, to be changed in place.
    pub fn unwrap_document_as_mut_ref(&mut self) -> (r: &mut T)
        requires
            *old(self) is Document,
        ensures
            *r == *old(self)->Document_0,
            *final(self) matches DBReference::Document(v) && *v == *final(r),
    {
        match self {
            DBReference::Document(v) => v,
            _ => vstd::pervasive::unreached(),
        }
    }

    // METHODS ----------------------------------------------------------------

    /// Takes the document out of the reference.
    pub fn unwrap_document(self) -> (r: Box<T>)
        requires
            self is Document,
        ensures
            r == self->Document_0,
    {
        match self {
            DBReference::Document(v) => v,
            _ => vstd::pervasive::unreached(),
        }
    }

    /// The same reference for clients: `mapper` turns a document into its
    /// client shape, and a key stays the key it is.
    pub fn map_to_api<F, R>(self, mapper: F) -> (r: APIReference<R>) where
        F: FnOnce(Box<T>) -> Box<R>,
        R: APIDocument,

        requires
            self matches DBReference::Document(v) ==> mapper.requires((v,)),
        ensures
            match self {
                DBReference::Document(v) => r matches APIReference::Document(d) && mapper.ensures(
                    (v,),
                    d,
                ),
                DBReference::Key(v) => r matches APIReference::Key(k) && k.spec_id()
                    == v.spec_key(),
            },
    {
        match self {
            DBReference::Document(v) => APIReference::Document(mapper(v)),
            DBReference::Key(v) => APIReference::new_key(v.key),
        }
    }
}

impl<T: DBDocument> PartialEq for DBReference<T> {
    fn eq(&self, other: &Self) -> (r: bool) {
        match self {
            DBReference::Key(a) => match other {
                DBReference::Key(b) => a.key == b.key,
                DBReference::Document(_) => false,
            },
            DBReference::Document(a) => match other {
                DBReference::Key(_) => false,
                DBReference::Document(b) => same_key(a.db_key(), b.db_key()),
            },
        }
    }
}

impl<T: DBDocument> PartialEqSpecImpl for DBReference<T> {
    open spec fn obeys_eq_spec() -> bool {
        true
    }

    /// Two references are the same where both hold a key, or both a
    /// document, and the keys are the same.
    open spec fn eq_spec(&self, other: &Self) -> bool {
        match self {
            DBReference::Key(a) => match other {
                DBReference::Key(b) => a.spec_key()@ == b.spec_key()@,
                DBReference::Document(_) => false,
            },
            DBReference::Document(a) => match other {
                DBReference::Key(_) => false,
                DBReference::Document(b) => option_key_view(a.key()) == option_key_view(b.key()),
            },
        }
    }
}

/// What cleaning a reference up comes to where cleaning its document up
/// came to `inner`.
pub open spec fn reference_result(inner: DBNormalizeResult) -> DBNormalizeResult {
    match inner {
        DBNormalizeResult::NotModified => DBNormalizeResult::NotModified,
        DBNormalizeResult::Modified => DBNormalizeResult::Modified,
        DBNormalizeResult::Removed => DBNormalizeResult::Modified,
    }
}

impl<T: DBDocument> DBNormalize for DBReference<T> {
    // METHODS ----------------------------------------------------------------

    /// Cleans up the document, where the reference holds one: the document
    /// changes as `normalize_fields` changes it, and the result tells whether
    /// it changed. The reference itself always stays: a document of which
    /// nothing is left counts as modified. A reference that holds a key alone
    /// stays as it is.
    fn normalize(&mut self) -> (r: DBNormalizeResult)
        ensures
            *old(self) is Key ==> r is NotModified && *final(self) == *old(self),
            *old(self) matches DBReference::Document(before) ==> *final(self)
                matches DBReference::Document(after) && exists|
                document: &mut T,
                inner: DBNormalizeResult,
            |
                *document == *before && *final(document) == *after && #[trigger] call_ensures(
                    T::normalize_fields,
                    (document,),
                    inner,
                ) && r == reference_result(inner),
    {
        match self {
            DBReference::Key(_) => DBNormalizeResult::NotModified,
            DBReference::Document(document) => match document.normalize() {
                DBNormalizeResult::NotModified => DBNormalizeResult::NotModified,
                DBNormalizeResult::Modified => DBNormalizeResult::Modified,
                DBNormalizeResult::Removed => DBNormalizeResult::Modified,
            },
        }
    }
}

} // verus!
