//! Support traits consumed by the peer generators that share this token-tree
//! toolchain: a field-width specifier and a pair of value-conversion traits.

use vstd::prelude::*;

verus! {

/// A type standing for a field of a fixed bit width, with its backing
/// representation and the type a caller faces.
pub trait Specifier {
    const BITS: usize;

    type Base;

    type Face;
}

/// Conversion into `Self` from a `T`.
pub trait FromTrans<T>: Sized {
    fn fromt(t: T) -> Self;
}

/// Conversion from `Self` into a `T`.
pub trait IntoTrans<T>: Sized {
    fn intot(self) -> T;
}

impl<T, U> IntoTrans<T> for U where T: FromTrans<U> {
    fn intot(self) -> T {
        T::fromt(self)
    }
}

impl<T> FromTrans<T> for T {
    fn fromt(v: T) -> (r: Self)
        ensures
            r == v,
    {
        v
    }
}

} // verus!
