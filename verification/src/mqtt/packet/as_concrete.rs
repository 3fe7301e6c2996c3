//! Getting a concrete packet type out of a value that may hold one.
use vstd::prelude::*;

verus! {

/// A reference to the `T` held by `self`, if it holds one.
pub trait AsConcrete<T> {
    /// The held `T`, or `None`.
    fn as_concrete(&self) -> Option<&T>;
}

/// The `T` held by `self`, taken by value, if it holds one.
pub trait IntoConcreteOwned<T> {
    /// The held `T`, or `None`.
    fn into_concrete_owned(self) -> Option<T>;
}

/// A value of type `T` holds itself.
impl<T> AsConcrete<T> for T {
    fn as_concrete(&self) -> (r: Option<&T>)
        ensures
            r == Some(self),
    {
        Some(self)
    }
}

/// A value of type `T` holds itself.
impl<T> IntoConcreteOwned<T> for T {
    fn into_concrete_owned(self) -> (r: Option<T>)
        ensures
            r == Some(self),
    {
        Some(self)
    }
}

} // verus!
