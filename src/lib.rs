//! Typeclass abstractions (functor, applicative, monad, foldable, traversable,
//! semigroup and monoid, alternative, bifunctor) over the option, sequence and
//! result containers, with their behaviour stated and proved.
//!
//! A capability such as `Functor` is implemented once per family of
//! containers: a marker type (`OptionFamily`, `VecFamily`, ...) stands for the
//! type constructor, `Hkt1Accepting<T>` names the container that the family
//! builds around `T`, and `Mirror1` leads from a container back to its family.
//! The `...Ext` traits then give every container the capabilities of its
//! family as methods (`Some(2).fmap(|a| a + 1)`).
pub mod classes;
pub mod mirror;
pub mod option;
pub mod plug;
pub mod result;
pub mod vec;
