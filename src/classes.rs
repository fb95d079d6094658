//! The capabilities, each stated once for a family of containers, and the
//! method-call forms (the `...Ext` traits) that containers get from their
//! family.
//!
//! A capability that applies a caller's function states its result as a
//! relation: `rel(a, b)` stands for "`b` is a value that the function may
//! return for `a`", that is `f.ensures((a,), b)`. Each family defines the
//! relation for its own shape.
use vstd::prelude::*;
use crate::mirror::{Hkt1Accepting, Hkt2Accepting, Mirror1, Mirror2};

verus! {

/// Every element of `xs` is an argument that `f` accepts.
pub open spec fn accepts_all<A, B, F: Fn(A) -> B>(f: F, xs: Seq<A>) -> bool {
    forall|i: int| 0 <= i < xs.len() ==> f.requires((#[trigger] xs[i],))
}

/// Each function in `fs` accepts each element of `xs`, and any clone of it.
pub open spec fn all_accept_all<A: Clone, B, F: Fn(A) -> B>(fs: Seq<F>, xs: Seq<A>) -> bool {
    forall|i: int, j: int, x: A|
        #![trigger fs[i].requires((x,)), cloned(xs[j], x)]
        0 <= i < fs.len() && 0 <= j < xs.len() && cloned(xs[j], x) ==> fs[i].requires((x,))
}

/// `rel` holds only of pairs `(a, m(a))`: a function whose results `rel`
/// describes computes `m`.
pub open spec fn computes<A, B>(rel: spec_fn(A, B) -> bool, m: spec_fn(A) -> B) -> bool {
    forall|a: A, b: B| #[trigger] rel(a, b) ==> b == m(a)
}

/// `chain` lists the accumulators of a fold of `xs` from the front with the
/// step function `f`: each next one is a result of `f` on the one before and
/// the element.
pub open spec fn left_chain<A, B, F: Fn(B, A) -> B>(f: F, xs: Seq<A>, chain: Seq<B>) -> bool {
    &&& chain.len() == xs.len() + 1
    &&& forall|i: int| 0 <= i < xs.len() ==> #[trigger] f.ensures((chain[i], xs[i]), chain[i + 1])
}

/// `r` is a possible result of folding `xs` from the front with `f`, starting
/// from `init`.
pub open spec fn folds_left<A, B, F: Fn(B, A) -> B>(f: F, xs: Seq<A>, init: B, r: B) -> bool {
    exists|chain: Seq<B>|
        #[trigger] left_chain(f, xs, chain) && chain[0] == init && chain[xs.len() as int] == r
}

/// `chain` lists the accumulators of a fold of `xs` from the back with the
/// step function `f`: `chain[i]` is a result of `f` on `xs[i]` and
/// `chain[i + 1]`.
pub open spec fn right_chain<A, B, F: Fn(A, B) -> B>(f: F, xs: Seq<A>, chain: Seq<B>) -> bool {
    &&& chain.len() == xs.len() + 1
    &&& forall|i: int| 0 <= i < xs.len() ==> #[trigger] f.ensures((xs[i], chain[i + 1]), chain[i])
}

/// `r` is a possible result of folding `xs` from the back with `f`, starting
/// from `init`.
pub open spec fn folds_right<A, B, F: Fn(A, B) -> B>(f: F, xs: Seq<A>, init: B, r: B) -> bool {
    exists|chain: Seq<B>|
        #[trigger] right_chain(f, xs, chain) && chain[xs.len() as int] == init && chain[0] == r
}

/// `f` accepts each element of `xs` together with every accumulator that
/// folding the elements before it from the front, starting from `init`, can
/// give.
pub open spec fn fold_left_accepts<A, B, F: Fn(B, A) -> B>(f: F, xs: Seq<A>, init: B) -> bool {
    forall|k: int, chain: Seq<B>|
        0 <= k < xs.len() && #[trigger] left_chain(f, xs.take(k), chain) && chain[0] == init
            ==> f.requires((chain[k], xs[k]))
}

/// `f` accepts each element of `xs` together with every accumulator that
/// folding the elements after it from the back, starting from `init`, can
/// give.
pub open spec fn fold_right_accepts<A, B, F: Fn(A, B) -> B>(f: F, xs: Seq<A>, init: B) -> bool {
    forall|k: int, chain: Seq<B>|
        0 <= k < xs.len() && #[trigger] right_chain(f, xs.skip(k + 1), chain) && chain[xs.len()
            - k - 1] == init ==> f.requires((xs[k], chain[0]))
}

/// Folding one more element from the front continues a left fold.
pub proof fn lemma_folds_left_push<A, B, F: Fn(B, A) -> B>(f: F, xs: Seq<A>, chain: Seq<B>, x: A, r: B)
    requires
        left_chain(f, xs, chain),
        f.ensures((chain[xs.len() as int], x), r),
    ensures
        left_chain(f, xs.push(x), chain.push(r)),
{
    let ys = xs.push(x);
    let c = chain.push(r);
    assert forall|i: int| 0 <= i < ys.len() implies #[trigger] f.ensures((c[i], ys[i]), c[i + 1]) by {
        if i < xs.len() {
            assert(f.ensures((chain[i], xs[i]), chain[i + 1]));
        }
    }
}

/// Folding one more element from the back continues a right fold.
pub proof fn lemma_folds_right_prepend<A, B, F: Fn(A, B) -> B>(f: F, xs: Seq<A>, chain: Seq<B>, x: A, r: B)
    requires
        right_chain(f, xs, chain),
        f.ensures((x, chain[0]), r),
    ensures
        right_chain(f, seq![x] + xs, seq![r] + chain),
{
    let ys = seq![x] + xs;
    let c = seq![r] + chain;
    assert forall|i: int| 0 <= i < ys.len() implies #[trigger] f.ensures((ys[i], c[i + 1]), c[i]) by {
        if i > 0 {
            let k = i - 1;
            assert(f.ensures((xs[k], chain[k + 1]), chain[k]));
        }
    }
}

/// Mapping a function over every element, keeping the structure.
pub trait Functor<A, B>: Hkt1Accepting<A> + Hkt1Accepting<B> {
    /// `r` is `fa` with each element `a` replaced by some `b` with `rel(a, b)`.
    spec fn fmap_rel(
        fa: <Self as Hkt1Accepting<A>>::GetMember,
        r: <Self as Hkt1Accepting<B>>::GetMember,
        rel: spec_fn(A, B) -> bool,
    ) -> bool;

    fn fmap<F: Fn(A) -> B>(f: F, fa: <Self as Hkt1Accepting<A>>::GetMember) -> (r: <
        Self as Hkt1Accepting<B>
    >::GetMember)
        requires
            accepts_all(f, <Self as Hkt1Accepting<A>>::elements(fa)),
        ensures
            Self::fmap_rel(fa, r, |a: A, b: B| f.ensures((a,), b)),
    ;

    /// What holds of a result for a relation holds of it for any wider one.
    proof fn lemma_fmap_rel_widen(
        fa: <Self as Hkt1Accepting<A>>::GetMember,
        r: <Self as Hkt1Accepting<B>>::GetMember,
        rel: spec_fn(A, B) -> bool,
        wider: spec_fn(A, B) -> bool,
    )
        requires
            Self::fmap_rel(fa, r, rel),
            forall|a: A, b: B| #[trigger] rel(a, b) ==> wider(a, b),
        ensures
            Self::fmap_rel(fa, r, wider),
    ;
}

pub trait FunctorExt<B>: Mirror1 where Self::Family: Functor<Self::T, B> {
    fn fmap<F: Fn(Self::T) -> B>(self, f: F) -> (r: <Self::Family as Hkt1Accepting<B>>::GetMember)
        requires
            accepts_all(f, <Self::Family as Hkt1Accepting<Self::T>>::elements(self)),
        ensures
            <Self::Family as Functor<Self::T, B>>::fmap_rel(
                self,
                r,
                |a: Self::T, b: B| f.ensures((a,), b),
            ),
    ;
}

impl<B, X: Mirror1> FunctorExt<B> for X where X::Family: Functor<X::T, B> {
    fn fmap<F: Fn(X::T) -> B>(self, f: F) -> (r: <X::Family as Hkt1Accepting<B>>::GetMember) {
        <X::Family as Functor<X::T, B>>::fmap(f, self)
    }
}

/// Applying a container of functions to a container of values.
pub trait Apply<A: Clone, B, F: Fn(A) -> B>: Functor<A, B> + Hkt1Accepting<F> {
    /// `r` combines the functions of `ff` with the values of `fa`, each result
    /// `b` of a function `g` and a value `a` such that `rel(g, a, b)`.
    spec fn ap_rel(
        ff: <Self as Hkt1Accepting<F>>::GetMember,
        fa: <Self as Hkt1Accepting<A>>::GetMember,
        r: <Self as Hkt1Accepting<B>>::GetMember,
        rel: spec_fn(F, A, B) -> bool,
    ) -> bool;

    fn ap(
        ff: <Self as Hkt1Accepting<F>>::GetMember,
        fa: <Self as Hkt1Accepting<A>>::GetMember,
    ) -> (r: <Self as Hkt1Accepting<B>>::GetMember)
        requires
            all_accept_all(
                <Self as Hkt1Accepting<F>>::elements(ff),
                <Self as Hkt1Accepting<A>>::elements(fa),
            ),
        ensures
            Self::ap_rel(ff, fa, r, |g: F, a: A, b: B| g.ensures((a,), b)),
    ;
}

pub trait ApplyExt<B, F: Fn(Self::T) -> B>: Mirror1 where
    Self::T: Clone,
    Self::Family: Apply<Self::T, B, F>,
 {
    /// Applies the functions of `f` to the values of `self`.
    fn ap(self, f: <Self::Family as Hkt1Accepting<F>>::GetMember) -> (r: <
        Self::Family as Hkt1Accepting<B>
    >::GetMember)
        requires
            all_accept_all(
                <Self::Family as Hkt1Accepting<F>>::elements(f),
                <Self::Family as Hkt1Accepting<Self::T>>::elements(self),
            ),
        ensures
            <Self::Family as Apply<Self::T, B, F>>::ap_rel(
                f,
                self,
                r,
                |g: F, a: Self::T, b: B| g.ensures((a,), b),
            ),
    ;
}

impl<B, F: Fn(X::T) -> B, X: Mirror1> ApplyExt<B, F> for X where
    X::T: Clone,
    X::Family: Apply<X::T, B, F>,
 {
    fn ap(self, f: <X::Family as Hkt1Accepting<F>>::GetMember) -> (r: <
        X::Family as Hkt1Accepting<B>
    >::GetMember) {
        <X::Family as Apply<X::T, B, F>>::ap(f, self)
    }
}

/// Lifting a plain value into a container.
pub trait Applicative<A>: Hkt1Accepting<A> {
    /// The container that holds `a` and nothing else.
    spec fn pure_rel(a: A, r: <Self as Hkt1Accepting<A>>::GetMember) -> bool;

    fn pure(a: A) -> (r: <Self as Hkt1Accepting<A>>::GetMember)
        ensures
            Self::pure_rel(a, r),
            <Self as Hkt1Accepting<A>>::elements(r) == seq![a],
    ;
}

pub trait ApplicativeExt: Mirror1 where Self::Family: Applicative<Self::T> {
    fn pure(a: Self::T) -> (r: <Self::Family as Hkt1Accepting<Self::T>>::GetMember)
        ensures
            <Self::Family as Applicative<Self::T>>::pure_rel(a, r),
            <Self::Family as Hkt1Accepting<Self::T>>::elements(r) == seq![a],
    ;
}

impl<X: Mirror1> ApplicativeExt for X where X::Family: Applicative<X::T> {
    fn pure(a: X::T) -> (r: <X::Family as Hkt1Accepting<X::T>>::GetMember) {
        <X::Family as Applicative<X::T>>::pure(a)
    }
}

/// Chaining a computation that produces a container.
pub trait Monad<A, B>: Applicative<A> + Applicative<B> {
    /// `r` is what chaining `fa` into a function gives, where `rel(a, m)` says
    /// that the function may return `m` for `a`.
    spec fn bind_rel(
        fa: <Self as Hkt1Accepting<A>>::GetMember,
        r: <Self as Hkt1Accepting<B>>::GetMember,
        rel: spec_fn(A, <Self as Hkt1Accepting<B>>::GetMember) -> bool,
    ) -> bool;

    fn bind<F: Fn(A) -> <Self as Hkt1Accepting<B>>::GetMember>(
        fa: <Self as Hkt1Accepting<A>>::GetMember,
        f: F,
    ) -> (r: <Self as Hkt1Accepting<B>>::GetMember)
        requires
            accepts_all(f, <Self as Hkt1Accepting<A>>::elements(fa)),
        ensures
            Self::bind_rel(
                fa,
                r,
                |a: A, m: <Self as Hkt1Accepting<B>>::GetMember| f.ensures((a,), m),
            ),
    ;
}

pub trait MonadExt<B>: Mirror1 where Self::Family: Monad<Self::T, B> {
    fn bind<F: Fn(Self::T) -> <Self::Family as Hkt1Accepting<B>>::GetMember>(self, f: F) -> (r: <
        Self::Family as Hkt1Accepting<B>
    >::GetMember)
        requires
            accepts_all(f, <Self::Family as Hkt1Accepting<Self::T>>::elements(self)),
        ensures
            <Self::Family as Monad<Self::T, B>>::bind_rel(
                self,
                r,
                |a: Self::T, m: <Self::Family as Hkt1Accepting<B>>::GetMember| f.ensures((a,), m),
            ),
    ;
}

impl<B, X: Mirror1> MonadExt<B> for X where X::Family: Monad<X::T, B> {
    fn bind<F: Fn(X::T) -> <X::Family as Hkt1Accepting<B>>::GetMember>(self, f: F) -> (r: <
        X::Family as Hkt1Accepting<B>
    >::GetMember) {
        <X::Family as Monad<X::T, B>>::bind(self, f)
    }
}

/// Collapsing a container to one value, front to back or back to front.
pub trait Foldable<A, B>: Hkt1Accepting<A> {
    fn fold_left<F: Fn(B, A) -> B>(f: F, init: B, t: <Self as Hkt1Accepting<A>>::GetMember) -> (r:
        B)
        requires
            fold_left_accepts(f, <Self as Hkt1Accepting<A>>::elements(t), init),
        ensures
            folds_left(f, <Self as Hkt1Accepting<A>>::elements(t), init, r),
    ;

    fn fold_right<F: Fn(A, B) -> B>(f: F, init: B, t: <Self as Hkt1Accepting<A>>::GetMember) -> (r:
        B)
        requires
            fold_right_accepts(f, <Self as Hkt1Accepting<A>>::elements(t), init),
        ensures
            folds_right(f, <Self as Hkt1Accepting<A>>::elements(t), init, r),
    ;
}

pub trait FoldableExt<B>: Mirror1 where Self::Family: Foldable<Self::T, B> {
    fn fold_left<F: Fn(B, Self::T) -> B>(self, init: B, f: F) -> (r: B)
        requires
            fold_left_accepts(f, <Self::Family as Hkt1Accepting<Self::T>>::elements(self), init),
        ensures
            folds_left(f, <Self::Family as Hkt1Accepting<Self::T>>::elements(self), init, r),
    ;

    fn fold_right<F: Fn(Self::T, B) -> B>(self, init: B, f: F) -> (r: B)
        requires
            fold_right_accepts(f, <Self::Family as Hkt1Accepting<Self::T>>::elements(self), init),
        ensures
            folds_right(f, <Self::Family as Hkt1Accepting<Self::T>>::elements(self), init, r),
    ;
}

impl<B, X: Mirror1> FoldableExt<B> for X where X::Family: Foldable<X::T, B> {
    fn fold_left<F: Fn(B, X::T) -> B>(self, init: B, f: F) -> (r: B) {
        <X::Family as Foldable<X::T, B>>::fold_left(f, init, self)
    }

    fn fold_right<F: Fn(X::T, B) -> B>(self, init: B, f: F) -> (r: B) {
        <X::Family as Foldable<X::T, B>>::fold_right(f, init, self)
    }
}

/// Turning a container of inputs into an effect (of the family `App`) that
/// yields a container of outputs, where each input is sent through a
/// function that produces an effect.
pub trait Traversable<App, A, B>: Hkt1Accepting<A> + Hkt1Accepting<B> where
    App: Hkt1Accepting<B> + Hkt1Accepting<<Self as Hkt1Accepting<B>>::GetMember>,
 {
    /// `r` is what traversing `t` gives, where `rel(a, e)` says that the
    /// function may return the effect `e` for `a`.
    spec fn traverse_rel(
        t: <Self as Hkt1Accepting<A>>::GetMember,
        r: <App as Hkt1Accepting<<Self as Hkt1Accepting<B>>::GetMember>>::GetMember,
        rel: spec_fn(A, <App as Hkt1Accepting<B>>::GetMember) -> bool,
    ) -> bool;

    fn traverse<F: Fn(A) -> <App as Hkt1Accepting<B>>::GetMember>(
        f: F,
        t: <Self as Hkt1Accepting<A>>::GetMember,
    ) -> (r: <App as Hkt1Accepting<<Self as Hkt1Accepting<B>>::GetMember>>::GetMember)
        requires
            accepts_all(f, <Self as Hkt1Accepting<A>>::elements(t)),
        ensures
            Self::traverse_rel(
                t,
                r,
                |a: A, e: <App as Hkt1Accepting<B>>::GetMember| f.ensures((a,), e),
            ),
    ;
}

pub trait TraversableExt<AppB: Mirror1>: Mirror1 where
    AppB::Family: Hkt1Accepting<<Self::Family as Hkt1Accepting<AppB::T>>::GetMember>,
    Self::Family: Traversable<AppB::Family, Self::T, AppB::T>,
 {
    /// Traverses `self` with `f`, whose results are effects of `AppB`'s family.
    fn traverse<F: Fn(Self::T) -> AppB>(self, f: F) -> (r: <
        AppB::Family as Hkt1Accepting<<Self::Family as Hkt1Accepting<AppB::T>>::GetMember>
    >::GetMember)
        requires
            accepts_all(f, <Self::Family as Hkt1Accepting<Self::T>>::elements(self)),
        ensures
            <Self::Family as Traversable<AppB::Family, Self::T, AppB::T>>::traverse_rel(
                self,
                r,
                |a: Self::T, e: AppB| f.ensures((a,), e),
            ),
    ;
}

impl<AppB: Mirror1, X: Mirror1> TraversableExt<AppB> for X where
    AppB::Family: Hkt1Accepting<<X::Family as Hkt1Accepting<AppB::T>>::GetMember>,
    X::Family: Traversable<AppB::Family, X::T, AppB::T>,
 {
    fn traverse<F: Fn(X::T) -> AppB>(self, f: F) -> (r: <
        AppB::Family as Hkt1Accepting<<X::Family as Hkt1Accepting<AppB::T>>::GetMember>
    >::GetMember) {
        <X::Family as Traversable<AppB::Family, X::T, AppB::T>>::traverse(f, self)
    }
}

/// Mapping over both parameters of a two-parameter container.
pub trait Bifunctor<A, B, C, D>: Hkt2Accepting<A, C> + Hkt2Accepting<B, D> {
    /// `r` is `fac` with each first-parameter value `a` replaced by some `b`
    /// with `rel1(a, b)`, and each second-parameter value `c` by some `d` with
    /// `rel2(c, d)`.
    spec fn bimap_rel(
        fac: <Self as Hkt2Accepting<A, C>>::GetMember,
        r: <Self as Hkt2Accepting<B, D>>::GetMember,
        rel1: spec_fn(A, B) -> bool,
        rel2: spec_fn(C, D) -> bool,
    ) -> bool;

    fn bimap<F1: Fn(A) -> B, F2: Fn(C) -> D>(
        f1: F1,
        f2: F2,
        fac: <Self as Hkt2Accepting<A, C>>::GetMember,
    ) -> (r: <Self as Hkt2Accepting<B, D>>::GetMember)
        requires
            accepts_all(f1, <Self as Hkt2Accepting<A, C>>::firsts(fac)),
            accepts_all(f2, <Self as Hkt2Accepting<A, C>>::seconds(fac)),
        ensures
            Self::bimap_rel(
                fac,
                r,
                |a: A, b: B| f1.ensures((a,), b),
                |c: C, d: D| f2.ensures((c,), d),
            ),
    ;
}

pub trait BifunctorExt<C, D>: Mirror2 where Self::Family: Bifunctor<Self::A, C, Self::B, D> {
    fn bimap<F1: Fn(Self::A) -> C, F2: Fn(Self::B) -> D>(self, f1: F1, f2: F2) -> (r: <
        Self::Family as Hkt2Accepting<C, D>
    >::GetMember)
        requires
            accepts_all(f1, <Self::Family as Hkt2Accepting<Self::A, Self::B>>::firsts(self)),
            accepts_all(f2, <Self::Family as Hkt2Accepting<Self::A, Self::B>>::seconds(self)),
        ensures
            <Self::Family as Bifunctor<Self::A, C, Self::B, D>>::bimap_rel(
                self,
                r,
                |a: Self::A, c: C| f1.ensures((a,), c),
                |b: Self::B, d: D| f2.ensures((b,), d),
            ),
    ;
}

impl<C, D, X: Mirror2> BifunctorExt<C, D> for X where X::Family: Bifunctor<X::A, C, X::B, D> {
    fn bimap<F1: Fn(X::A) -> C, F2: Fn(X::B) -> D>(self, f1: F1, f2: F2) -> (r: <
        X::Family as Hkt2Accepting<C, D>
    >::GetMember) {
        <X::Family as Bifunctor<X::A, C, X::B, D>>::bimap(f1, f2, self)
    }
}

/// Merging two values of one type.
pub trait Semigroup: Sized {
    /// The merge of `self` and `other` can be computed (no overflow, say).
    spec fn combinable(self, other: Self) -> bool;

    /// `r` is the merge of `self` and `other`.
    spec fn combines_to(self, other: Self, r: Self) -> bool;

    fn combine(self, other: Self) -> (r: Self)
        requires
            self.combinable(other),
        ensures
            self.combines_to(other, r),
    ;
}

/// A semigroup with an identity element.
pub trait Monoid: Semigroup {
    /// `m` is the identity element.
    spec fn is_mempty(m: Self) -> bool;

    fn mempty() -> (r: Self)
        ensures
            Self::is_mempty(r),
    ;
}

/// Mapping a function over the inputs that a container consumes.
pub trait Contravariant<A, B>: Hkt1Accepting<A> + Hkt1Accepting<B> {
    /// `r` consumes an `a` where `fb` would consume some `b` with `rel(a, b)`.
    spec fn contramap_rel(
        fb: <Self as Hkt1Accepting<B>>::GetMember,
        r: <Self as Hkt1Accepting<A>>::GetMember,
        rel: spec_fn(A, B) -> bool,
    ) -> bool;

    fn contramap<F: Fn(A) -> B>(f: F, fb: <Self as Hkt1Accepting<B>>::GetMember) -> (r: <
        Self as Hkt1Accepting<A>
    >::GetMember)
        ensures
            Self::contramap_rel(fb, r, |a: A, b: B| f.ensures((a,), b)),
    ;
}

pub trait ContravariantExt<A>: Mirror1 where Self::Family: Contravariant<A, Self::T> {
    fn contramap<F: Fn(A) -> Self::T>(self, f: F) -> (r: <Self::Family as Hkt1Accepting<A>>::GetMember)
        ensures
            <Self::Family as Contravariant<A, Self::T>>::contramap_rel(
                self,
                r,
                |a: A, b: Self::T| f.ensures((a,), b),
            ),
    ;
}

impl<A, X: Mirror1> ContravariantExt<A> for X where X::Family: Contravariant<A, X::T> {
    fn contramap<F: Fn(A) -> X::T>(self, f: F) -> (r: <X::Family as Hkt1Accepting<A>>::GetMember) {
        <X::Family as Contravariant<A, X::T>>::contramap(f, self)
    }
}

/// Merging two containers of one element type.
pub trait SemigroupK<A>: Hkt1Accepting<A> {
    /// `r` is the merge of `fa` and `fb`.
    spec fn combine_k_rel(
        fa: <Self as Hkt1Accepting<A>>::GetMember,
        fb: <Self as Hkt1Accepting<A>>::GetMember,
        r: <Self as Hkt1Accepting<A>>::GetMember,
    ) -> bool;

    fn combine_k(
        fa: <Self as Hkt1Accepting<A>>::GetMember,
        fb: <Self as Hkt1Accepting<A>>::GetMember,
    ) -> (r: <Self as Hkt1Accepting<A>>::GetMember)
        ensures
            Self::combine_k_rel(fa, fb, r),
    ;
}

pub trait SemigroupKExt: Mirror1 where Self::Family: SemigroupK<Self::T> {
    fn combine_k(self, other: Self) -> (r: Self)
        ensures
            <Self::Family as SemigroupK<Self::T>>::combine_k_rel(self, other, r),
    ;
}

impl<X: Mirror1> SemigroupKExt for X where X::Family: SemigroupK<X::T> {
    fn combine_k(self, other: X) -> (r: X) {
        <X::Family as SemigroupK<X::T>>::combine_k(self, other)
    }
}

/// A `SemigroupK` with an empty container, which holds no element.
pub trait MonoidK<A>: SemigroupK<A> {
    fn empty() -> (r: <Self as Hkt1Accepting<A>>::GetMember)
        ensures
            <Self as Hkt1Accepting<A>>::elements(r).len() == 0,
    ;
}

pub trait MonoidKExt: Mirror1 where Self::Family: MonoidK<Self::T> {
    fn empty() -> (r: Self)
        ensures
            <Self::Family as Hkt1Accepting<Self::T>>::elements(r).len() == 0,
    ;
}

impl<X: Mirror1> MonoidKExt for X where X::Family: MonoidK<X::T> {
    fn empty() -> (r: X) {
        <X::Family as MonoidK<X::T>>::empty()
    }
}

/// An applicative family with an empty container and a choice between two.
pub trait Alternative<A>: Applicative<A> + MonoidK<A> {

}

impl Semigroup for i32 {
    open spec fn combinable(self, other: i32) -> bool {
        i32::MIN <= self + other <= i32::MAX
    }

    open spec fn combines_to(self, other: i32, r: i32) -> bool {
        r == self + other
    }

    /// Integers merge by addition.
    fn combine(self, other: i32) -> (r: i32) {
        self + other
    }
}

/// Rendering a value as text.
pub trait Show: Sized {
    fn show(a: Self) -> String;
}

} // verus!
