use vstd::prelude::*;

verus! {

/// A field of a stored document that distinguishes three states: never
/// written, explicitly emptied, and holding a value.
#[derive(Debug, Clone, PartialEq, Eq)]
pub enum NullableOption<T> {
    Missing,
    Null,
    Value(T),
}

impl<T: View> View for NullableOption<T> {
    type V = NullableOption<T::V>;

    /// The same state, with the value it may hold seen as a mathematical value.
    open spec fn view(&self) -> NullableOption<T::V> {
        match self {
            NullableOption::Missing => NullableOption::Missing,
            NullableOption::Null => NullableOption::Null,
            NullableOption::Value(v) => NullableOption::Value(v@),
        }
    }
}

impl<T> NullableOption<T> {
    /// Whether the field was never written.
    pub fn is_missing(&self) -> (r: bool)
        ensures
            r == (*self is Missing),
    {
        match self {
            NullableOption::Missing => true,
            _ => false,
        }
    }

    /// Whether the field was explicitly emptied.
    pub fn is_null(&self) -> (r: bool)
        ensures
            r == (*self is Null),
    {
        match self {
            NullableOption::Null => true,
            _ => false,
        }
    }

    /// Whether the field holds a value.
    pub fn is_value(&self) -> (r: bool)
        ensures
            r == (*self is Value),
    {
        match self {
            NullableOption::Value(_) => true,
            _ => false,
        }
    }

    /// The value the field holds.
    pub fn unwrap_as_ref(&self) -> (r: &T)
        requires
            *self is Value,
        ensures
            *r == self->Value_0,
    {
        match self {
            NullableOption::Value(v) => v,
            _ => vstd::pervasive::unreached(),
        }
    }

    /// Takes the value out of the field.
    pub fn unwrap(self) -> (r: T)
        requires
            self is Value,
        ensures
            r == self->Value_0,
    {
        match self {
            NullableOption::Value(v) => v,
            _ => vstd::pervasive::unreached(),
        }
    }

    /// The value as an `Option`, with both empty states mapped to `None`.
    pub fn into_option(self) -> (r: Option<T>)
        ensures
            r == (match self {
                NullableOption::Value(v) => Some(v),
                _ => None,
            }),
    {
        match self {
            NullableOption::Value(v) => Some(v),
            _ => None,
        }
    }
}

impl<T> Default for NullableOption<T> {
    fn default() -> (r: Self)
        ensures
            r is Missing,
    {
        NullableOption::Missing
    }
}

} // verus!
