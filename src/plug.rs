//! The second encoding of type families: a container type is taken apart
//! into its family and its element types (`Unplug`), and rebuilt around other
//! element types (`Plug`).
use vstd::prelude::*;
use crate::option::OptionFamily;
use crate::result::{ResultFamily1, ResultFamily2};
use crate::vec::VecFamily;

verus! {

/// Unplug destructures F<A> into F and A.
pub trait Unplug {
    type F;
    type A;
}

/// Unplug2 destructures F<A, B> into F, A, and B.
pub trait Unplug2 {
    type F;
    type A;
    type B;
}

/// Plug replaces the type F<B> to F<A>.
pub trait Plug<A> {
    type Out: Unplug<A = A>;
}

/// Plug2 replaces the type F<C, D> to F<A, B>.
pub trait Plug2<A, B> {
    type Out: Unplug2<A = A, B = B>;
}

impl<A> Unplug for Option<A> {
    type F = OptionFamily;
    type A = A;
}

impl<A, B> Plug<B> for Option<A> {
    type Out = Option<B>;
}

impl<A> Unplug for Vec<A> {
    type F = VecFamily;
    type A = A;
}

impl<A, B> Plug<B> for Vec<A> {
    type Out = Vec<B>;
}

impl<A, E> Unplug for Result<A, E> {
    type F = ResultFamily1<E>;
    type A = A;
}

impl<A, B, E> Plug<B> for Result<A, E> {
    type Out = Result<B, E>;
}

impl<A, B> Unplug2 for Result<A, B> {
    type F = ResultFamily2;
    type A = A;
    type B = B;
}

impl<A, B, C, D> Plug2<C, D> for Result<A, B> {
    type Out = Result<C, D>;
}

} // verus!
