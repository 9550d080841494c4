use vstd::prelude::*;

verus! {

/// One criterion of a sort step: an expression over the document and a direction.
#[derive(Debug)]
pub struct AqlSort {
    pub expression: String,
    pub is_descending: bool,
}

impl View for AqlSort {
    type V = (Seq<char>, bool);

    open spec fn view(&self) -> (Seq<char>, bool) {
        (self.expression@, self.is_descending)
    }
}

impl Clone for AqlSort {
    fn clone(&self) -> (r: Self)
        ensures
            r@ == self@,
    {
        AqlSort { expression: self.expression.clone(), is_descending: self.is_descending }
    }
}

/// A limit step: how many documents to skip, if any, and how many to take.
#[derive(Debug, Clone, Copy, PartialEq, Eq, Structural)]
pub struct AqlLimit {
    pub offset: Option<u64>,
    pub count: u64,
}

} // verus!
