use crate::traits::document::{option_key_view, same_key, DBDocument};
use crate::traits::document_api::APIDocument;
use crate::types::reference::DBReference;
use crate::types::uuid::DBUuid;
use vstd::prelude::*;
use vstd::std_specs::cmp::PartialEqSpecImpl;

verus! {

/// A reference to another document as clients see it: the document itself
/// or its identifier alone.
#[derive(Debug)]
pub enum APIReference<T: APIDocument> {
    // Keep this order because otherwise Key will always be dereferenced in favour of Document
    // ignoring the rest of the fields.
    Document(Box<T>),
    Key(APIReferenceKey<DBUuid>),
}

/// The identifier of a referenced document.
#[derive(Debug, Clone, Eq, PartialEq)]
pub struct APIReferenceKey<K> {
    id: K,
}

impl<K> APIReferenceKey<K> {
    /// The identifier that the reference holds.
    pub closed spec fn spec_id(&self) -> K {
        self.id
    }

    /// The identifier that the reference holds.
    pub fn id(&self) -> (r: &K)
        ensures
            *r == self.spec_id(),
    {
        &self.id
    }
}

impl<T: APIDocument> APIReference<T> {
    /// The identifier of the referenced document, if the reference has one.
    pub open spec fn spec_key(&self) -> Option<Seq<char>> {
        match self {
            APIReference::Key(v) => Some(v.spec_id()@),
            APIReference::Document(v) => option_key_view(v.api_id()),
        }
    }

    // CONSTRUCTORS -----------------------------------------------------------

    /// The reference to the document with the identifier `id`.
    pub fn new_key(id: DBUuid) -> (r: Self)
        ensures
            r matches APIReference::Key(v) && v.spec_id() == id,
    {
        Self::Key(APIReferenceKey { id })
    }

    // GETTERS ----------------------------------------------------------------

    /// The identifier of the referenced document.
    pub fn key(&self) -> (r: DBUuid)
        requires
            self.spec_key() is Some,
        ensures
            Some(r@) == self.spec_key(),
    {
        match self {
            APIReference::Key(v) => v.id.clone(),
            APIReference::Document(v) => match v.id() {
                Some(k) => k.clone(),
                None => vstd::pervasive::unreached(),
            },
        }
    }

    /// Whether the reference holds an identifier alone.
    pub fn is_key(&self) -> (r: bool)
        ensures
            r == (*self is Key),
    {
        matches!(self, APIReference::Key(_))
    }

    /// Whether the reference holds the document itself.
    pub fn is_document(&self) -> (r: bool)
        ensures
            r == (*self is Document),
    {
        matches!(self, APIReference::Document(_))
    }

    /// The document that the reference holds.
    pub fn unwrap_document_as_ref(&self) -> (r: &T)
        requires
            *self is Document,
        ensures
            *r == *self->Document_0,
    {
        match self {
            APIReference::Document(v) => v,
            _ => vstd::pervasive::unreached(),
        }
    }

    /// The document that the reference holds, to be changed in place.
    pub fn unwrap_document_as_mut_ref(&mut self) -> (r: &mut T)
        requires
            *old(self) is Document,
        ensures
            *r == *old(self)->Document_0,
            *final(self) matches APIReference::Document(v) && *v == *final(r),
    {
        match self {
            APIReference::Document(v) => v,
            _ => vstd::pervasive::unreached(),
        }
    }

    // METHODS ----------------------------------------------------------------

    /// Takes the document out of the reference.
    pub fn unwrap_document(self) -> (r: Box<T>)
        requires
            self is Document,
        ensures
            r == self->Document_0,
    {
        match self {
            APIReference::Document(v) => v,
            _ => vstd::pervasive::unreached(),
        }
    }

    /// Lets `mapper` change the document in place, where the reference holds
    /// one; a reference that holds an identifier alone stays as it is.
    pub fn and<F>(&mut self, mapper: F) where F: FnOnce(&mut Box<T>)
        requires
            *old(self) matches APIReference::Document(before) ==> forall|document: &mut Box<T>|
                *document == before ==> #[trigger] mapper.requires((document,)),
        ensures
            *old(self) is Key ==> *final(self) == *old(self),
            *old(self) matches APIReference::Document(before) ==> *final(self)
                matches APIReference::Document(after) && exists|document: &mut Box<T>|
                *document == before && *final(document) == after && #[trigger] mapper.ensures(
                    (document,),
                    (),
                ),
    {
        match self {
            APIReference::Document(v) => {
                mapper(v);
            },
            APIReference::Key(_) => {},
        }
    }

    /// The same reference for the store: `mapper` turns a document into its
    /// stored shape, and an identifier stays the key it is.
    pub fn map_to_db<F, R>(self, mapper: F) -> (r: DBReference<R>) where
        F: FnOnce(Box<T>) -> Box<R>,
        R: DBDocument,

        requires
            self matches APIReference::Document(v) ==> mapper.requires((v,)),
        ensures
            match self {
                APIReference::Document(v) => r matches DBReference::Document(d) && mapper.ensures(
                    (v,),
                    d,
                ),
                APIReference::Key(v) => r matches DBReference::Key(k) && k.spec_key()
                    == v.spec_id(),
            },
    {
        match self {
            APIReference::Document(v) => DBReference::Document(mapper(v)),
            APIReference::Key(v) => DBReference::new_key(v.id),
        }
    }
}

impl<T: APIDocument> PartialEq for APIReference<T> {
    fn eq(&self, other: &Self) -> (r: bool) {
        match self {
            APIReference::Key(a) => match other {
                APIReference::Key(b) => a.id == b.id,
                APIReference::Document(_) => false,
            },
            APIReference::Document(a) => match other {
                APIReference::Key(_) => false,
                APIReference::Document(b) => same_key(a.id(), b.id()),
            },
        }
    }
}

impl<T: APIDocument> PartialEqSpecImpl for APIReference<T> {
    open spec fn obeys_eq_spec() -> bool {
        true
    }

    /// Two references are the same where both hold an identifier, or both a
    /// document, and the identifiers are the same.
    open spec fn eq_spec(&self, other: &Self) -> bool {
        match self {
            APIReference::Key(a) => match other {
                APIReference::Key(b) => a.spec_id()@ == b.spec_id()@,
                APIReference::Document(_) => false,
            },
            APIReference::Document(a) => match other {
                APIReference::Key(_) => false,
                APIReference::Document(b) => option_key_view(a.api_id()) == option_key_view(
                    b.api_id(),
                ),
            },
        }
    }
}

} // verus!
