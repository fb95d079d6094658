//! The result families: a success value or a failure value. Over the success
//! channel (the failure type fixed) it is a one-parameter family; over both
//! channels it is a two-parameter one.
use vstd::prelude::*;
use core::marker::PhantomData;
use crate::classes::{
    computes, folds_left, folds_right, left_chain, lemma_folds_left_push, lemma_folds_right_prepend,
    right_chain, Applicative, Apply, Bifunctor, Foldable, Functor, Monad, Semigroup, SemigroupK,
    Traversable,
};
use crate::mirror::{Hkt1, Hkt1Accepting, Hkt2, Hkt2Accepting, Mirror1, Mirror2};

verus! {

/// The family of `Result<T, E>` over `T`, for a fixed failure type `E`.
pub struct ResultFamily1<E> {
    e: PhantomData<E>,
}

/// The family of `Result<A, B>` over both `A` and `B`.
pub struct ResultFamily2;

impl<E> Hkt1 for ResultFamily1<E> {}

impl<T, E> Hkt1Accepting<T> for ResultFamily1<E> {
    type GetMember = Result<T, E>;

    open spec fn elements(m: Result<T, E>) -> Seq<T> {
        match m {
            Ok(a) => seq![a],
            Err(_) => Seq::empty(),
        }
    }
}

impl<A, E> Mirror1 for Result<A, E> {
    type T = A;
    type Family = ResultFamily1<E>;
}

impl Hkt2 for ResultFamily2 {}

impl<A, B> Hkt2Accepting<A, B> for ResultFamily2 {
    type GetMember = Result<A, B>;

    open spec fn firsts(m: Result<A, B>) -> Seq<A> {
        match m {
            Ok(a) => seq![a],
            Err(_) => Seq::empty(),
        }
    }

    open spec fn seconds(m: Result<A, B>) -> Seq<B> {
        match m {
            Ok(_) => Seq::empty(),
            Err(b) => seq![b],
        }
    }
}

impl<A, B> Mirror2 for Result<A, B> {
    type A = A;
    type B = B;
    type Family = ResultFamily2;
}

impl<A, B, E> Functor<A, B> for ResultFamily1<E> {
    /// A success value is mapped; a failure passes through unchanged.
    open spec fn fmap_rel(fa: Result<A, E>, r: Result<B, E>, rel: spec_fn(A, B) -> bool) -> bool {
        match fa {
            Ok(a) => r matches Ok(b) && rel(a, b),
            Err(e) => r == Err::<B, E>(e),
        }
    }

    fn fmap<F: Fn(A) -> B>(f: F, fa: Result<A, E>) -> (r: Result<B, E>) {
        match fa {
            Ok(a) => {
                assert(seq![a][0] == a);
                Ok(f(a))
            },
            Err(e) => Err(e),
        }
    }

    proof fn lemma_fmap_rel_widen(
        fa: Result<A, E>,
        r: Result<B, E>,
        rel: spec_fn(A, B) -> bool,
        wider: spec_fn(A, B) -> bool,
    ) {
        if let (Ok(a), Ok(b)) = (fa, r) {
            assert(rel(a, b));
        }
    }
}

impl<A: Clone, B, F: Fn(A) -> B, E> Apply<A, B, F> for ResultFamily1<E> {
    /// Both successes: the function applied to the value; otherwise the first
    /// failure, the function's side being looked at first.
    open spec fn ap_rel(
        ff: Result<F, E>,
        fa: Result<A, E>,
        r: Result<B, E>,
        rel: spec_fn(F, A, B) -> bool,
    ) -> bool {
        match (ff, fa) {
            (Ok(g), Ok(a)) => r matches Ok(b) && rel(g, a, b),
            (Err(e), _) => r == Err::<B, E>(e),
            (Ok(_), Err(e)) => r == Err::<B, E>(e),
        }
    }

    fn ap(ff: Result<F, E>, fa: Result<A, E>) -> (r: Result<B, E>) {
        match (ff, fa) {
            (Ok(g), Ok(v)) => {
                assert(cloned(seq![v][0], v));
                assert(seq![g][0].requires((v,)));
                Ok(g(v))
            },
            (Err(e), _) => Err(e),
            (_, Err(e)) => Err(e),
        }
    }
}

impl<A, E> Applicative<A> for ResultFamily1<E> {
    open spec fn pure_rel(a: A, r: Result<A, E>) -> bool {
        r == Ok::<A, E>(a)
    }

    fn pure(a: A) -> (r: Result<A, E>) {
        Ok(a)
    }
}

impl<A, B, E> Monad<A, B> for ResultFamily1<E> {
    /// Success: what the function returns for the value; a failure passes
    /// through unchanged.
    open spec fn bind_rel(fa: Result<A, E>, r: Result<B, E>, rel: spec_fn(A, Result<B, E>) -> bool) -> bool {
        match fa {
            Ok(a) => rel(a, r),
            Err(e) => r == Err::<B, E>(e),
        }
    }

    fn bind<F: Fn(A) -> Result<B, E>>(fa: Result<A, E>, f: F) -> (r: Result<B, E>) {
        match fa {
            Ok(a) => {
                assert(seq![a][0] == a);
                f(a)
            },
            Err(e) => Err(e),
        }
    }
}

impl<A, B, E> Foldable<A, B> for ResultFamily1<E> {
    fn fold_left<F: Fn(B, A) -> B>(f: F, init: B, t: Result<A, E>) -> (r: B) {
        let ghost xs = <ResultFamily1<E> as Hkt1Accepting<A>>::elements(t);
        match t {
            Ok(x) => {
                assert(seq![x][0] == x);
                assert(left_chain(f, xs.take(0), seq![init]));
                let r = f(init, x);
                proof {
                    lemma_folds_left_push(f, Seq::empty(), seq![init], x, r);
                    assert(Seq::<A>::empty().push(x) =~= xs);
                    assert(seq![init].push(r) =~= seq![init, r]);
                    assert(folds_left(f, xs, init, r));
                }
                r
            },
            Err(_) => {
                assert(left_chain(f, xs, seq![init]) && seq![init][0] == init);
                init
            },
        }
    }

    fn fold_right<F: Fn(A, B) -> B>(f: F, init: B, t: Result<A, E>) -> (r: B) {
        let ghost xs = <ResultFamily1<E> as Hkt1Accepting<A>>::elements(t);
        match t {
            Ok(x) => {
                assert(seq![x][0] == x);
                assert(xs.skip(1) =~= Seq::<A>::empty());
                assert(right_chain(f, xs.skip(1), seq![init]));
                let r = f(x, init);
                proof {
                    lemma_folds_right_prepend(f, Seq::empty(), seq![init], x, r);
                    assert(seq![x] + Seq::<A>::empty() =~= xs);
                    assert(seq![r] + seq![init] =~= seq![r, init]);
                    assert(folds_right(f, xs, init, r));
                }
                r
            },
            Err(_) => {
                assert(right_chain(f, xs, seq![init]) && seq![init][0] == init);
                init
            },
        }
    }
}

impl<App, A, B, E> Traversable<App, A, B> for ResultFamily1<E> where
    App: Functor<B, Result<B, E>> + Applicative<Result<B, E>>,
 {
    /// Success: the function's effect for the value, with its result made a
    /// success; failure: the effect that yields that failure.
    open spec fn traverse_rel(
        t: Result<A, E>,
        r: <App as Hkt1Accepting<Result<B, E>>>::GetMember,
        rel: spec_fn(A, <App as Hkt1Accepting<B>>::GetMember) -> bool,
    ) -> bool {
        match t {
            Ok(a) => exists|e: <App as Hkt1Accepting<B>>::GetMember|
                #[trigger] rel(a, e) && App::fmap_rel(
                    e,
                    r,
                    |b: B, rb: Result<B, E>| rb == Ok::<B, E>(b),
                ),
            Err(x) => App::pure_rel(Err(x), r),
        }
    }

    fn traverse<F: Fn(A) -> <App as Hkt1Accepting<B>>::GetMember>(f: F, t: Result<A, E>) -> (r: <
        App as Hkt1Accepting<Result<B, E>>
    >::GetMember) {
        match t {
            Ok(v) => {
                assert(seq![v][0] == v);
                let e = f(v);
                let wrap = |b: B| -> (rb: Result<B, E>)
                    ensures
                        rb == Ok::<B, E>(b),
                    { Ok(b) };
                let r = App::fmap(wrap, e);
                proof {
                    App::lemma_fmap_rel_widen(
                        e,
                        r,
                        |b: B, rb: Result<B, E>| wrap.ensures((b,), rb),
                        |b: B, rb: Result<B, E>| rb == Ok::<B, E>(b),
                    );
                    let rel = |a: A, e: <App as Hkt1Accepting<B>>::GetMember| f.ensures((a,), e);
                    assert(rel(v, e));
                }
                r
            },
            Err(x) => App::pure(Err(x)),
        }
    }
}

impl<A, E> SemigroupK<A> for ResultFamily1<E> {
    /// The first operand if it is a success, else the second.
    open spec fn combine_k_rel(fa: Result<A, E>, fb: Result<A, E>, r: Result<A, E>) -> bool {
        r == if fa is Ok {
            fa
        } else {
            fb
        }
    }

    fn combine_k(fa: Result<A, E>, fb: Result<A, E>) -> (r: Result<A, E>) {
        match fa {
            Err(_) => fb,
            a => a,
        }
    }
}

impl<A, B, C, D> Bifunctor<A, B, C, D> for ResultFamily2 {
    /// The success value is mapped by the first function, the failure value by
    /// the second.
    open spec fn bimap_rel(
        fac: Result<A, C>,
        r: Result<B, D>,
        rel1: spec_fn(A, B) -> bool,
        rel2: spec_fn(C, D) -> bool,
    ) -> bool {
        match fac {
            Ok(a) => r matches Ok(b) && rel1(a, b),
            Err(c) => r matches Err(d) && rel2(c, d),
        }
    }

    fn bimap<F1: Fn(A) -> B, F2: Fn(C) -> D>(f1: F1, f2: F2, fac: Result<A, C>) -> (r: Result<B, D>) {
        match fac {
            Ok(v) => {
                assert(seq![v][0] == v);
                Ok(f1(v))
            },
            Err(e) => {
                assert(seq![e][0] == e);
                Err(f2(e))
            },
        }
    }
}

impl<A, E> Semigroup for Result<A, E> {
    open spec fn combinable(self, other: Result<A, E>) -> bool {
        true
    }

    /// The first success wins; a failure gives way to the other operand.
    open spec fn combines_to(self, other: Result<A, E>, r: Result<A, E>) -> bool {
        r == if self is Err {
            other
        } else {
            self
        }
    }

    fn combine(self, other: Result<A, E>) -> (r: Result<A, E>) {
        match self {
            Err(_) => other,
            _ => self,
        }
    }
}

/// Functor identity: mapping a function that returns its argument gives back
/// the same result.
pub proof fn law_result_fmap_identity<A, E>(fa: Result<A, E>, r: Result<A, E>, rel: spec_fn(A, A) -> bool)
    requires
        <ResultFamily1<E> as Functor<A, A>>::fmap_rel(fa, r, rel),
        computes(rel, |a: A| a),
    ensures
        r == fa,
{
    if let (Ok(a), Ok(b)) = (fa, r) {
        assert(rel(a, b));
    }
}

/// Functor composition: mapping `f` (computing `mf`) and then `g` (computing
/// `mg`) gives what mapping one function computing `mg(mf(x))` gives.
pub proof fn law_result_fmap_composition<A, B, C, E>(
    fa: Result<A, E>,
    mid: Result<B, E>,
    r: Result<C, E>,
    direct: Result<C, E>,
    rel_f: spec_fn(A, B) -> bool,
    rel_g: spec_fn(B, C) -> bool,
    rel_gf: spec_fn(A, C) -> bool,
    mf: spec_fn(A) -> B,
    mg: spec_fn(B) -> C,
)
    requires
        <ResultFamily1<E> as Functor<A, B>>::fmap_rel(fa, mid, rel_f),
        <ResultFamily1<E> as Functor<B, C>>::fmap_rel(mid, r, rel_g),
        <ResultFamily1<E> as Functor<A, C>>::fmap_rel(fa, direct, rel_gf),
        computes(rel_f, mf),
        computes(rel_g, mg),
        computes(rel_gf, |x: A| mg(mf(x))),
    ensures
        r == direct,
{
    if let (Ok(a), Ok(b), Ok(c), Ok(d)) = (fa, mid, r, direct) {
        assert(rel_f(a, b));
        assert(rel_g(b, c));
        assert(rel_gf(a, d));
    }
}

/// Monad left identity: lifting `a` and chaining a function that computes `mf`
/// gives `mf(a)`.
pub proof fn law_result_left_identity<A, B, E>(
    a: A,
    lifted: Result<A, E>,
    r: Result<B, E>,
    rel: spec_fn(A, Result<B, E>) -> bool,
    mf: spec_fn(A) -> Result<B, E>,
)
    requires
        <ResultFamily1<E> as Applicative<A>>::pure_rel(a, lifted),
        <ResultFamily1<E> as Monad<A, B>>::bind_rel(lifted, r, rel),
        computes(rel, mf),
    ensures
        r == mf(a),
{
    assert(rel(a, r));
}

/// Monad right identity: chaining the lift function gives back the same result.
pub proof fn law_result_right_identity<A, E>(
    fa: Result<A, E>,
    r: Result<A, E>,
    rel: spec_fn(A, Result<A, E>) -> bool,
)
    requires
        <ResultFamily1<E> as Monad<A, A>>::bind_rel(fa, r, rel),
        forall|a: A, m: Result<A, E>| #[trigger] rel(a, m) ==> <ResultFamily1<E> as Applicative<A>>::pure_rel(a, m),
    ensures
        r == fa,
{
    if let Ok(a) = fa {
        assert(rel(a, r));
    }
}

} // verus!
