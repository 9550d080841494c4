use vstd::prelude::*;

verus! {

/// How far a model takes part in synchronisation through mutexes.
#[derive(Debug, Copy, Clone, Eq, PartialEq, Structural)]
pub enum SyncLevelType {
    Disabled,
    OnlyDocument,
    OnlyCollection,
    DocumentAndCollection,
}

impl SyncLevelType {
    // GETTERS ----------------------------------------------------------------

    /// Whether single documents of the model can be locked.
    pub fn is_document_active(&self) -> (r: bool)
        ensures
            r == (*self is OnlyDocument || *self is DocumentAndCollection),
    {
        *self == SyncLevelType::OnlyDocument || *self == SyncLevelType::DocumentAndCollection
    }

    /// Whether the model's collection as a whole can be locked.
    pub fn is_collection_active(&self) -> (r: bool)
        ensures
            r == (*self is OnlyCollection || *self is DocumentAndCollection),
    {
        *self == SyncLevelType::OnlyCollection || *self == SyncLevelType::DocumentAndCollection
    }

    /// Whether the model takes part in synchronisation at all.
    pub fn is_active(&self) -> (r: bool)
        ensures
            r == !(*self is Disabled),
            r == (*self is OnlyDocument || *self is OnlyCollection || *self is DocumentAndCollection),
    {
        *self != SyncLevelType::Disabled
    }
}

impl Default for SyncLevelType {
    fn default() -> (r: Self)
        ensures
            r is Disabled,
    {
        Self::Disabled
    }
}

/// What the value inside a variant of a model is.
#[derive(Debug, Copy, Clone, Eq, PartialEq, Structural)]
pub enum InnerModelKind {
    Data,
    Struct,
    Enum,
}

impl Default for InnerModelKind {
    fn default() -> (r: Self)
        ensures
            r is Data,
    {
        Self::Data
    }
}

} // verus!
