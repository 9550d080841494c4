use vstd::prelude::*;

verus! {

/// The attributes that the store itself gives to every document.
#[derive(Debug, Clone, Copy, PartialEq, Eq, Structural)]
pub enum DBDocumentField {
    Key,
    Id,
    Rev,
    To,
    From,
    Mutex,
}

impl DBDocumentField {
    /// The name of the attribute inside a stored document.
    pub open spec fn spec_path(&self) -> Seq<char> {
        match self {
            DBDocumentField::Key => "_key"@,
            DBDocumentField::Id => "_id"@,
            DBDocumentField::Rev => "_rev"@,
            DBDocumentField::To => "_to"@,
            DBDocumentField::From => "_from"@,
            DBDocumentField::Mutex => "_l"@,
        }
    }

    // GETTERS ----------------------------------------------------------------

    /// The name of the attribute inside a stored document.
    pub fn path(&self) -> (r: &'static str)
        ensures
            r@ == self.spec_path(),
    {
        match self {
            DBDocumentField::Key => "_key",
            DBDocumentField::Id => "_id",
            DBDocumentField::Rev => "_rev",
            DBDocumentField::To => "_to",
            DBDocumentField::From => "_from",
            DBDocumentField::Mutex => "_l",
        }
    }
}

} // verus!
