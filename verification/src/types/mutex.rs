use crate::types::dates::DBDateTime;
use crate::types::uuid::DBUuid;
use vstd::prelude::*;

verus! {

/// The mutex of a document: who holds it, under which change flag, and until when.
#[derive(Debug, PartialEq, Eq)]
pub struct DBMutex {
    pub node: String,
    pub change_flag: DBUuid,
    pub expiration: DBDateTime,
}

/// What a mutex holds, as plain mathematical values.
pub struct DBMutexView {
    /// The identifier of the node that holds the mutex.
    pub node: Seq<char>,
    /// The token drawn when the mutex was claimed.
    pub change_flag: Seq<char>,
    /// The instant, in milliseconds since the Unix epoch, at which the mutex lapses.
    pub expiration: int,
}

impl View for DBMutex {
    type V = DBMutexView;

    open spec fn view(&self) -> DBMutexView {
        DBMutexView {
            node: self.node@,
            change_flag: self.change_flag@,
            expiration: self.expiration@,
        }
    }
}

impl Clone for DBMutex {
    fn clone(&self) -> (r: Self)
        ensures
            r@ == self@,
    {
        DBMutex {
            node: self.node.clone(),
            change_flag: self.change_flag.clone(),
            expiration: self.expiration.clone(),
        }
    }
}

/// The attributes of a stored mutex.
#[derive(Debug, Clone, Copy, PartialEq, Eq, Structural)]
pub enum DBMutexField {
    Node,
    ChangeFlag,
    Expiration,
}

impl DBMutexField {
    /// The name of the attribute inside a stored mutex.
    pub open spec fn spec_path(&self) -> Seq<char> {
        match self {
            DBMutexField::Node => "N"@,
            DBMutexField::ChangeFlag => "F"@,
            DBMutexField::Expiration => "E"@,
        }
    }

    /// The name of the attribute inside a stored mutex.
    pub fn path(&self) -> (r: &'static str)
        ensures
            r@ == self.spec_path(),
    {
        match self {
            DBMutexField::Node => "N",
            DBMutexField::ChangeFlag => "F",
            DBMutexField::Expiration => "E",
        }
    }
}

} // verus!
