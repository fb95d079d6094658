//! Type families: a marker type stands for a type constructor, and each
//! container type names the family it belongs to, so that capabilities can be
//! stated once per family.
use vstd::prelude::*;

verus! {

/// A type constructor of one parameter, named by a marker type.
pub trait Hkt1 {}

/// The constructor named by `Self`, applied to `T`.
pub trait Hkt1Accepting<T>: Hkt1 {
    /// The applied type, such as `Option<T>` for the option family.
    type GetMember;

    /// The elements that a value of the applied type holds, in order.
    spec fn elements(m: Self::GetMember) -> Seq<T>;
}

/// A type that is a constructor applied to the element type `T`.
pub trait Mirror1: Sized {
    type T;
    type Family: Hkt1Accepting<Self::T, GetMember = Self>;
}

pub trait Mirror1Ext: Mirror1 {
    /// Views a container as the member of its family that it is.
    fn as_member(self) -> (r: <Self::Family as Hkt1Accepting<Self::T>>::GetMember)
        ensures
            r == self,
    ;
}

impl<X: Mirror1> Mirror1Ext for X {
    fn as_member(self) -> (r: <X::Family as Hkt1Accepting<X::T>>::GetMember) {
        self
    }
}

} // verus!

verus! {

/// A type constructor of two parameters, named by a marker type.
pub trait Hkt2 {}

/// The constructor named by `Self`, applied to `A` and `B`.
pub trait Hkt2Accepting<A, B>: Hkt2 {
    /// The applied type, such as `Result<A, B>` for the result family.
    type GetMember;

    /// The values of the first parameter that `m` holds.
    spec fn firsts(m: Self::GetMember) -> Seq<A>;

    /// The values of the second parameter that `m` holds.
    spec fn seconds(m: Self::GetMember) -> Seq<B>;
}

/// A type that is a two-parameter constructor applied to `A` and `B`.
pub trait Mirror2: Sized {
    type A;
    type B;
    type Family: Hkt2Accepting<Self::A, Self::B, GetMember = Self>;
}

pub trait Mirror2Ext: Mirror2 {
    /// Views a container as the member of its family that it is.
    fn as_member(self) -> (r: <Self::Family as Hkt2Accepting<Self::A, Self::B>>::GetMember)
        ensures
            r == self,
    ;
}

impl<X: Mirror2> Mirror2Ext for X {
    fn as_member(self) -> (r: <X::Family as Hkt2Accepting<X::A, X::B>>::GetMember) {
        self
    }
}

} // verus!
