//! The option family: a container of zero or one element.
use vstd::prelude::*;
use crate::classes::{
    computes, lemma_folds_left_push, lemma_folds_right_prepend, left_chain, right_chain, folds_left, folds_right, Alternative, Applicative, Apply, Foldable, Functor, Monad, Monoid,
    MonoidK, Semigroup, SemigroupK, Traversable,
};
use crate::mirror::{Hkt1, Hkt1Accepting, Mirror1};

verus! {

/// The family of `Option<T>`.
pub struct OptionFamily;

impl Hkt1 for OptionFamily {}

impl<T> Hkt1Accepting<T> for OptionFamily {
    type GetMember = Option<T>;

    open spec fn elements(m: Option<T>) -> Seq<T> {
        match m {
            Some(a) => seq![a],
            None => Seq::empty(),
        }
    }
}

impl<A> Mirror1 for Option<A> {
    type T = A;
    type Family = OptionFamily;
}

impl<A, B> Functor<A, B> for OptionFamily {
    /// A present value is mapped; absent stays absent.
    open spec fn fmap_rel(fa: Option<A>, r: Option<B>, rel: spec_fn(A, B) -> bool) -> bool {
        match fa {
            Some(a) => r matches Some(b) && rel(a, b),
            None => r is None,
        }
    }

    fn fmap<F: Fn(A) -> B>(f: F, fa: Option<A>) -> (r: Option<B>) {
        match fa {
            Some(a) => {
                assert(seq![a][0] == a);
                Some(f(a))
            },
            None => None,
        }
    }

    proof fn lemma_fmap_rel_widen(
        fa: Option<A>,
        r: Option<B>,
        rel: spec_fn(A, B) -> bool,
        wider: spec_fn(A, B) -> bool,
    ) {
        if let (Some(a), Some(b)) = (fa, r) {
            assert(rel(a, b));
        }
    }
}

impl<A: Clone, B, F: Fn(A) -> B> Apply<A, B, F> for OptionFamily {
    /// Both present: the function applied to the value; otherwise absent.
    open spec fn ap_rel(
        ff: Option<F>,
        fa: Option<A>,
        r: Option<B>,
        rel: spec_fn(F, A, B) -> bool,
    ) -> bool {
        match (ff, fa) {
            (Some(g), Some(a)) => r matches Some(b) && rel(g, a, b),
            _ => r is None,
        }
    }

    fn ap(ff: Option<F>, fa: Option<A>) -> (r: Option<B>) {
        match (ff, fa) {
            (Some(g), Some(a)) => {
                assert(cloned(seq![a][0], a));
                assert(seq![g][0].requires((a,)));
                Some(g(a))
            },
            _ => None,
        }
    }
}

impl<A> Applicative<A> for OptionFamily {
    open spec fn pure_rel(a: A, r: Option<A>) -> bool {
        r == Some(a)
    }

    fn pure(a: A) -> (r: Option<A>) {
        Some(a)
    }
}

impl<A, B> Monad<A, B> for OptionFamily {
    /// Present: what the function returns for the value; absent stays absent.
    open spec fn bind_rel(fa: Option<A>, r: Option<B>, rel: spec_fn(A, Option<B>) -> bool) -> bool {
        match fa {
            Some(a) => rel(a, r),
            None => r is None,
        }
    }

    fn bind<F: Fn(A) -> Option<B>>(fa: Option<A>, f: F) -> (r: Option<B>) {
        match fa {
            Some(a) => {
                assert(seq![a][0] == a);
                f(a)
            },
            None => None,
        }
    }
}

impl<A, B> Foldable<A, B> for OptionFamily {
    fn fold_left<F: Fn(B, A) -> B>(f: F, init: B, t: Option<A>) -> (r: B) {
        let ghost xs = <OptionFamily as Hkt1Accepting<A>>::elements(t);
        match t {
            Some(x) => {
                assert(seq![x][0] == x);
                assert(left_chain(f, xs.take(0), seq![init]));
                let r = f(init, x);
                proof {
                    lemma_folds_left_push(f, Seq::empty(), seq![init], x, r);
                    assert(Seq::<A>::empty().push(x) =~= seq![x]);
                    assert(left_chain(f, seq![x], seq![init, r]));
                    assert(seq![init, r][0] == init && seq![init, r][1] == r);
                    assert(xs == seq![x]);
                    assert(folds_left(f, xs, init, r));
                }
                r
            },
            None => {
                assert(left_chain(f, xs, seq![init]) && seq![init][0] == init);
                init
            },
        }
    }

    fn fold_right<F: Fn(A, B) -> B>(f: F, init: B, t: Option<A>) -> (r: B) {
        let ghost xs = <OptionFamily as Hkt1Accepting<A>>::elements(t);
        match t {
            Some(x) => {
                assert(seq![x][0] == x);
                assert(xs.skip(1) =~= Seq::<A>::empty());
                assert(right_chain(f, xs.skip(1), seq![init]));
                let r = f(x, init);
                proof {
                    lemma_folds_right_prepend(f, Seq::empty(), seq![init], x, r);
                    assert(seq![x] + Seq::<A>::empty() =~= seq![x]);
                    assert(seq![r] + seq![init] =~= seq![r, init]);
                    assert(right_chain(f, seq![x], seq![r, init]));
                    assert(seq![r, init][0] == r && seq![r, init][1] == init);
                    assert(xs == seq![x]);
                    assert(folds_right(f, xs, init, r));
                }
                r
            },
            None => {
                assert(right_chain(f, xs, seq![init]) && seq![init][0] == init);
                init
            },
        }
    }
}

impl<App, A, B> Traversable<App, A, B> for OptionFamily where
    App: Functor<B, Option<B>> + Applicative<Option<B>>,
 {
    /// Present: the function's effect for the value, with its result made
    /// present; absent: the effect that yields absent.
    open spec fn traverse_rel(
        t: Option<A>,
        r: <App as Hkt1Accepting<Option<B>>>::GetMember,
        rel: spec_fn(A, <App as Hkt1Accepting<B>>::GetMember) -> bool,
    ) -> bool {
        match t {
            Some(a) => exists|e: <App as Hkt1Accepting<B>>::GetMember|
                #[trigger] rel(a, e) && App::fmap_rel(e, r, |b: B, ob: Option<B>| ob == Some(b)),
            None => App::pure_rel(None, r),
        }
    }

    fn traverse<F: Fn(A) -> <App as Hkt1Accepting<B>>::GetMember>(f: F, t: Option<A>) -> (r: <
        App as Hkt1Accepting<Option<B>>
    >::GetMember) {
        match t {
            Some(v) => {
                assert(seq![v][0] == v);
                let e = f(v);
                let wrap = |b: B| -> (ob: Option<B>)
                    ensures
                        ob == Some(b),
                    { Some(b) };
                let r = App::fmap(wrap, e);
                proof {
                    App::lemma_fmap_rel_widen(
                        e,
                        r,
                        |b: B, ob: Option<B>| wrap.ensures((b,), ob),
                        |b: B, ob: Option<B>| ob == Some(b),
                    );
                    let rel = |a: A, e: <App as Hkt1Accepting<B>>::GetMember| f.ensures((a,), e);
                    assert(rel(v, e));
                }
                r
            },
            None => App::pure(None),
        }
    }
}

impl<A> SemigroupK<A> for OptionFamily {
    /// The first operand if present, else the second.
    open spec fn combine_k_rel(fa: Option<A>, fb: Option<A>, r: Option<A>) -> bool {
        r == if fa is Some {
            fa
        } else {
            fb
        }
    }

    fn combine_k(fa: Option<A>, fb: Option<A>) -> (r: Option<A>) {
        match fa {
            None => fb,
            a => a,
        }
    }
}

impl<A> MonoidK<A> for OptionFamily {
    fn empty() -> (r: Option<A>) {
        None
    }
}

impl<A> Alternative<A> for OptionFamily {

}

impl<A: Semigroup> Semigroup for Option<A> {
    open spec fn combinable(self, other: Option<A>) -> bool {
        match (self, other) {
            (Some(a), Some(b)) => a.combinable(b),
            _ => true,
        }
    }

    /// Absent is the identity; two present values merge their contents.
    open spec fn combines_to(self, other: Option<A>, r: Option<A>) -> bool {
        match (self, other) {
            (Some(a), Some(b)) => r matches Some(c) && a.combines_to(b, c),
            (Some(_), None) => r == self,
            (None, _) => r == other,
        }
    }

    fn combine(self, other: Option<A>) -> (r: Option<A>) {
        match (self, other) {
            (a, None) => a,
            (None, b) => b,
            (Some(a), Some(b)) => Some(a.combine(b)),
        }
    }
}

impl<A: Semigroup> Monoid for Option<A> {
    open spec fn is_mempty(m: Option<A>) -> bool {
        m is None
    }

    fn mempty() -> (r: Option<A>) {
        None
    }
}

/// Functor identity: mapping a function that returns its argument gives back
/// the same option.
pub proof fn law_option_fmap_identity<A>(fa: Option<A>, r: Option<A>, rel: spec_fn(A, A) -> bool)
    requires
        <OptionFamily as Functor<A, A>>::fmap_rel(fa, r, rel),
        computes(rel, |a: A| a),
    ensures
        r == fa,
{
    if let (Some(a), Some(b)) = (fa, r) {
        assert(rel(a, b));
    }
}

/// Functor composition: mapping `f` (computing `mf`) and then `g` (computing
/// `mg`) gives what mapping one function computing `mg(mf(x))` gives.
pub proof fn law_option_fmap_composition<A, B, C>(
    fa: Option<A>,
    mid: Option<B>,
    r: Option<C>,
    direct: Option<C>,
    rel_f: spec_fn(A, B) -> bool,
    rel_g: spec_fn(B, C) -> bool,
    rel_gf: spec_fn(A, C) -> bool,
    mf: spec_fn(A) -> B,
    mg: spec_fn(B) -> C,
)
    requires
        <OptionFamily as Functor<A, B>>::fmap_rel(fa, mid, rel_f),
        <OptionFamily as Functor<B, C>>::fmap_rel(mid, r, rel_g),
        <OptionFamily as Functor<A, C>>::fmap_rel(fa, direct, rel_gf),
        computes(rel_f, mf),
        computes(rel_g, mg),
        computes(rel_gf, |x: A| mg(mf(x))),
    ensures
        r == direct,
{
    if let (Some(a), Some(b), Some(c), Some(d)) = (fa, mid, r, direct) {
        assert(rel_f(a, b));
        assert(rel_g(b, c));
        assert(rel_gf(a, d));
    }
}

/// Monad left identity: lifting `a` and chaining a function that computes `mf`
/// gives `mf(a)`.
pub proof fn law_option_left_identity<A, B>(
    a: A,
    lifted: Option<A>,
    r: Option<B>,
    rel: spec_fn(A, Option<B>) -> bool,
    mf: spec_fn(A) -> Option<B>,
)
    requires
        <OptionFamily as Applicative<A>>::pure_rel(a, lifted),
        <OptionFamily as Monad<A, B>>::bind_rel(lifted, r, rel),
        computes(rel, mf),
    ensures
        r == mf(a),
{
    assert(rel(a, r));
}

/// Monad right identity: chaining the lift function gives back the same option.
pub proof fn law_option_right_identity<A>(fa: Option<A>, r: Option<A>, rel: spec_fn(A, Option<A>) -> bool)
    requires
        <OptionFamily as Monad<A, A>>::bind_rel(fa, r, rel),
        forall|a: A, m: Option<A>| #[trigger] rel(a, m) ==> <OptionFamily as Applicative<A>>::pure_rel(a, m),
    ensures
        r == fa,
{
    if let Some(a) = fa {
        assert(rel(a, r));
    }
}

/// Monoid identity: merging with absent, on either side, gives back the other
/// operand.
pub proof fn law_option_monoid_identity<A: Semigroup>(x: Option<A>, e: Option<A>, left: Option<A>, right: Option<A>)
    requires
        <Option<A> as Monoid>::is_mempty(e),
        e.combines_to(x, left),
        x.combines_to(e, right),
    ensures
        left == x,
        right == x,
{
}

} // verus!
