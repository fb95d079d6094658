//! The sequence family: zero or more elements, in order.
use vstd::prelude::*;
use crate::classes::{
    accepts_all, fold_left_accepts, fold_right_accepts, all_accept_all, computes, folds_left, folds_right, left_chain,
    lemma_folds_left_push, lemma_folds_right_prepend, right_chain, Alternative, Applicative, Apply, Foldable, Functor, Monad, Monoid,
    MonoidK, Semigroup, SemigroupK, Traversable,
};
use crate::option::OptionFamily;
use crate::result::ResultFamily1;
use crate::mirror::{Hkt1, Hkt1Accepting, Mirror1};

verus! {

/// The family of `Vec<T>`.
pub struct VecFamily;

impl Hkt1 for VecFamily {}

impl<T> Hkt1Accepting<T> for VecFamily {
    type GetMember = Vec<T>;

    open spec fn elements(m: Vec<T>) -> Seq<T> {
        m@
    }
}

impl<A> Mirror1 for Vec<A> {
    type T = A;
    type Family = VecFamily;
}

/// The contents of each vector of `vs`.
pub open spec fn views<B>(vs: Seq<Vec<B>>) -> Seq<Seq<B>> {
    Seq::new(vs.len(), |i: int| vs[i]@)
}

/// The contents of the vectors of `parts`, one after the other.
pub open spec fn concat_views<B>(parts: Seq<Vec<B>>) -> Seq<B>
    decreases parts.len(),
{
    if parts.len() == 0 {
        Seq::empty()
    } else {
        concat_views(parts.drop_last()) + parts.last()@
    }
}

/// The elements of `v` in reverse order, each moved, none cloned.
fn into_reversed<T>(v: Vec<T>) -> (r: Vec<T>)
    ensures
        r@.len() == v@.len(),
        forall|i: int| 0 <= i < v@.len() ==> r@[i] == v@[v@.len() - 1 - i],
{
    let ghost orig = v@;
    let mut v = v;
    let mut r: Vec<T> = Vec::new();
    while v.len() > 0
        invariant
            r@.len() + v@.len() == orig.len(),
            forall|i: int| 0 <= i < v@.len() ==> v@[i] == orig[i],
            forall|i: int| 0 <= i < r@.len() ==> r@[i] == orig[orig.len() - 1 - i],
        decreases v@.len(),
    {
        let x = v.pop().unwrap();
        r.push(x);
    }
    r
}

impl<A, B> Functor<A, B> for VecFamily {
    /// Same length, each element mapped in place.
    open spec fn fmap_rel(fa: Vec<A>, r: Vec<B>, rel: spec_fn(A, B) -> bool) -> bool {
        &&& r@.len() == fa@.len()
        &&& forall|i: int| 0 <= i < fa@.len() ==> #[trigger] rel(fa@[i], r@[i])
    }

    fn fmap<F: Fn(A) -> B>(f: F, fa: Vec<A>) -> (r: Vec<B>) {
        let ghost xs = fa@;
        let mut rest = into_reversed(fa);
        let mut out: Vec<B> = Vec::new();
        while rest.len() > 0
            invariant
                out@.len() + rest@.len() == xs.len(),
                forall|i: int| 0 <= i < rest@.len() ==> rest@[i] == xs[xs.len() - 1 - i],
                forall|i: int| 0 <= i < out@.len() ==> f.ensures((xs[i],), #[trigger] out@[i]),
                accepts_all(f, xs),
            decreases rest@.len(),
        {
            let ghost k = out@.len() as int;
            let x = rest.pop().unwrap();
            assert(x == xs[k]);
            assert(f.requires((xs[k],)));
            let y = f(x);
            out.push(y);
        }
        out
    }

    proof fn lemma_fmap_rel_widen(
        fa: Vec<A>,
        r: Vec<B>,
        rel: spec_fn(A, B) -> bool,
        wider: spec_fn(A, B) -> bool,
    ) {
        assert forall|i: int| 0 <= i < fa@.len() implies #[trigger] wider(fa@[i], r@[i]) by {
            assert(rel(fa@[i], r@[i]));
        }
    }
}

/// `row` holds, for each value of `xs` in order, a result that `rel` allows
/// for the function `g` and the matching clone in `args`.
pub open spec fn applied_row<A: Clone, B, F>(
    g: F,
    xs: Seq<A>,
    args: Seq<A>,
    row: Seq<B>,
    rel: spec_fn(F, A, B) -> bool,
) -> bool {
    &&& row.len() == xs.len()
    &&& args.len() == xs.len()
    &&& forall|j: int|
        0 <= j < xs.len() ==> cloned(xs[j], #[trigger] args[j]) && rel(g, args[j], row[j])
}

impl<A: Clone, B, F: Fn(A) -> B> Apply<A, B, F> for VecFamily {
    /// Every function applied to every value: one row per function, in order,
    /// each row the function applied to a clone of each value in order; the
    /// rows one after the other.
    open spec fn ap_rel(ff: Vec<F>, fa: Vec<A>, r: Vec<B>, rel: spec_fn(F, A, B) -> bool) -> bool {
        exists|rows: Seq<Vec<B>>, args: Seq<Seq<A>>|
            {
                &&& rows.len() == ff@.len()
                &&& args.len() == ff@.len()
                &&& forall|i: int|
                    0 <= i < ff@.len() ==> applied_row(
                        ff@[i],
                        fa@,
                        #[trigger] args[i],
                        rows[i]@,
                        rel,
                    )
                &&& r@ == concat_views(rows)
            }
    }

    fn ap(ff: Vec<F>, fa: Vec<A>) -> (r: Vec<B>) {
        let ghost gs = ff@;
        let ghost xs = fa@;
        let ghost rel = |g: F, a: A, b: B| g.ensures((a,), b);
        let mut rest = into_reversed(ff);
        let mut out: Vec<B> = Vec::new();
        let ghost mut rows: Seq<Vec<B>> = Seq::empty();
        let ghost mut all_args: Seq<Seq<A>> = Seq::empty();
        while rest.len() > 0
            invariant
                rows.len() + rest@.len() == gs.len(),
                all_args.len() == rows.len(),
                fa@ == xs,
                rel == (|g: F, a: A, b: B| g.ensures((a,), b)),
                forall|k: int| 0 <= k < rest@.len() ==> rest@[k] == gs[gs.len() - 1 - k],
                forall|i: int|
                    0 <= i < rows.len() ==> applied_row(
                        gs[i],
                        xs,
                        #[trigger] all_args[i],
                        rows[i]@,
                        rel,
                    ),
                out@ == concat_views(rows),
                all_accept_all(gs, xs),
            decreases rest@.len(),
        {
            let ghost i = rows.len() as int;
            let g = rest.pop().unwrap();
            assert(g == gs[i]);
            let mut row: Vec<B> = Vec::new();
            let ghost mut args: Seq<A> = Seq::empty();
            let mut j: usize = 0;
            while j < fa.len()
                invariant
                    0 <= i < gs.len(),
                    g == gs[i],
                    fa@ == xs,
                    rel == (|g: F, a: A, b: B| g.ensures((a,), b)),
                    0 <= j <= xs.len(),
                    row@.len() == j,
                    args.len() == j,
                    forall|j0: int|
                        0 <= j0 < j ==> cloned(xs[j0], #[trigger] args[j0]) && rel(
                            g,
                            args[j0],
                            row@[j0],
                        ),
                    all_accept_all(gs, xs),
                decreases xs.len() - j,
            {
                let x = fa[j].clone();
                assert(cloned(xs[j as int], x));
                assert(gs[i].requires((x,)));
                proof {
                    args = args.push(x);
                }
                let y = g(x);
                row.push(y);
                j = j + 1;
            }
            proof {
                assert(applied_row(gs[i], xs, args, row@, rel));
                let next = rows.push(row);
                let next_args = all_args.push(args);
                assert(next.drop_last() =~= rows);
                assert(forall|k: int| 0 <= k < i ==> next[k] == rows[k] && next_args[k] == all_args[k]);
                rows = next;
                all_args = next_args;
            }
            out.append(&mut row);
        }
        out
    }
}

impl<A> Applicative<A> for VecFamily {
    open spec fn pure_rel(a: A, r: Vec<A>) -> bool {
        r@ == seq![a]
    }

    fn pure(a: A) -> (r: Vec<A>) {
        let mut r: Vec<A> = Vec::new();
        r.push(a);
        r
    }
}

impl<A, B> Monad<A, B> for VecFamily {
    /// The sequences that the function returns for the elements, one after
    /// the other.
    open spec fn bind_rel(fa: Vec<A>, r: Vec<B>, rel: spec_fn(A, Vec<B>) -> bool) -> bool {
        exists|parts: Seq<Vec<B>>|
            {
                &&& parts.len() == fa@.len()
                &&& forall|i: int| 0 <= i < fa@.len() ==> #[trigger] rel(fa@[i], parts[i])
                &&& r@ == concat_views(parts)
            }
    }

    fn bind<F: Fn(A) -> Vec<B>>(fa: Vec<A>, f: F) -> (r: Vec<B>) {
        let ghost xs = fa@;
        let mut rest = into_reversed(fa);
        let mut out: Vec<B> = Vec::new();
        let ghost mut parts: Seq<Vec<B>> = Seq::empty();
        while rest.len() > 0
            invariant
                parts.len() + rest@.len() == xs.len(),
                forall|i: int| 0 <= i < rest@.len() ==> rest@[i] == xs[xs.len() - 1 - i],
                forall|i: int| 0 <= i < parts.len() ==> f.ensures((xs[i],), #[trigger] parts[i]),
                out@ == concat_views(parts),
                accepts_all(f, xs),
            decreases rest@.len(),
        {
            let ghost k = parts.len() as int;
            let x = rest.pop().unwrap();
            assert(x == xs[k]);
            assert(f.requires((xs[k],)));
            let mut part = f(x);
            proof {
                let next = parts.push(part);
                assert(next.drop_last() =~= parts);
                parts = next;
            }
            out.append(&mut part);
        }
        let ghost rel = |a: A, m: Vec<B>| f.ensures((a,), m);
        assert(forall|i: int| 0 <= i < xs.len() ==> #[trigger] rel(xs[i], parts[i]));
        out
    }
}

impl<A, B> Foldable<A, B> for VecFamily {
    fn fold_left<F: Fn(B, A) -> B>(f: F, init: B, t: Vec<A>) -> (r: B) {
        let ghost xs = t@;
        let mut rest = into_reversed(t);
        let mut acc = init;
        let ghost mut chain: Seq<B> = seq![init];
        while rest.len() > 0
            invariant
                chain.len() + rest@.len() == xs.len() + 1,
                forall|i: int| 0 <= i < rest@.len() ==> rest@[i] == xs[xs.len() - 1 - i],
                left_chain(f, xs.take(chain.len() - 1), chain),
                chain[0] == init,
                chain.last() == acc,
                fold_left_accepts(f, xs, init),
            decreases rest@.len(),
        {
            let ghost k = chain.len() - 1;
            let x = rest.pop().unwrap();
            assert(x == xs[k]);
            assert(left_chain(f, xs.take(k), chain));
            let next = f(acc, x);
            proof {
                lemma_folds_left_push(f, xs.take(k), chain, x, next);
                assert(xs.take(k).push(x) =~= xs.take(k + 1));
                chain = chain.push(next);
            }
            acc = next;
        }
        assert(xs.take(xs.len() as int) =~= xs);
        acc
    }

    fn fold_right<F: Fn(A, B) -> B>(f: F, init: B, t: Vec<A>) -> (r: B) {
        let ghost xs = t@;
        let mut rest = t;
        let mut acc = init;
        let ghost mut chain: Seq<B> = seq![init];
        while rest.len() > 0
            invariant
                rest@.len() + chain.len() == xs.len() + 1,
                rest@ == xs.take(rest@.len() as int),
                right_chain(f, xs.skip(rest@.len() as int), chain),
                chain.last() == init,
                chain[0] == acc,
                fold_right_accepts(f, xs, init),
            decreases rest@.len(),
        {
            let ghost k = rest@.len() - 1;
            let x = rest.pop().unwrap();
            assert(x == xs[k]);
            assert(right_chain(f, xs.skip(k + 1), chain));
            let next = f(x, acc);
            proof {
                lemma_folds_right_prepend(f, xs.skip(k + 1), chain, x, next);
                assert(seq![x] + xs.skip(k + 1) =~= xs.skip(k));
                assert(rest@ =~= xs.take(k));
                chain = seq![next] + chain;
            }
            acc = next;
        }
        assert(xs.skip(0) =~= xs);
        acc
    }
}

/// `outs` are the outcomes of running a function on a prefix of `xs`, each
/// allowed by `rel`, stopping at the first failure: every outcome but the last
/// is a success.
pub open spec fn ran_until_failure<A, B, E>(xs: Seq<A>, outs: Seq<Result<B, E>>, rel: spec_fn(A, Result<B, E>) -> bool) -> bool {
    &&& outs.len() <= xs.len()
    &&& forall|i: int| 0 <= i < outs.len() ==> #[trigger] rel(xs[i], outs[i])
    &&& forall|i: int| 0 <= i < outs.len() - 1 ==> (#[trigger] outs[i]) is Ok
}

/// `outs` are the outcomes of running a function on a prefix of `xs`, each
/// allowed by `rel`, stopping at the first absent outcome: every outcome but
/// the last is present.
pub open spec fn ran_until_absent<A, B>(xs: Seq<A>, outs: Seq<Option<B>>, rel: spec_fn(A, Option<B>) -> bool) -> bool {
    &&& outs.len() <= xs.len()
    &&& forall|i: int| 0 <= i < outs.len() ==> #[trigger] rel(xs[i], outs[i])
    &&& forall|i: int| 0 <= i < outs.len() - 1 ==> (#[trigger] outs[i]) is Some
}

impl<A, B> Traversable<OptionFamily, A, B> for VecFamily {
    /// Present with every element's result when the function gives a present
    /// value for each element; absent as soon as it gives an absent one.
    open spec fn traverse_rel(t: Vec<A>, r: Option<Vec<B>>, rel: spec_fn(A, Option<B>) -> bool) -> bool {
        exists|outs: Seq<Option<B>>|
            {
                &&& #[trigger] ran_until_absent(t@, outs, rel)
                &&& match r {
                    Some(v) => {
                        &&& outs.len() == t@.len()
                        &&& v@.len() == t@.len()
                        &&& forall|i: int| 0 <= i < t@.len() ==> outs[i] == Some(#[trigger] v@[i])
                    },
                    None => outs.len() > 0 && outs.last() is None,
                }
            }
    }

    fn traverse<F: Fn(A) -> Option<B>>(f: F, t: Vec<A>) -> (r: Option<Vec<B>>) {
        let ghost xs = t@;
        let ghost rel = |a: A, e: Option<B>| f.ensures((a,), e);
        let mut rest = into_reversed(t);
        let mut out: Vec<B> = Vec::new();
        let ghost mut outs: Seq<Option<B>> = Seq::empty();
        while rest.len() > 0
            invariant
                out@.len() + rest@.len() == xs.len(),
                outs.len() == out@.len(),
                rel == (|a: A, e: Option<B>| f.ensures((a,), e)),
                xs == t@,
                forall|i: int| 0 <= i < rest@.len() ==> rest@[i] == xs[xs.len() - 1 - i],
                ran_until_absent(xs, outs, rel),
                forall|i: int| 0 <= i < out@.len() ==> outs[i] == Some(#[trigger] out@[i]),
                accepts_all(f, xs),
            decreases rest@.len(),
        {
            let ghost k = out@.len() as int;
            let x = rest.pop().unwrap();
            assert(x == xs[k]);
            assert(f.requires((xs[k],)));
            let e = f(x);
            proof {
                assert(rel(xs[k], e));
                let prev = outs;
                outs = outs.push(e);
                assert forall|i: int| 0 <= i < outs.len() implies #[trigger] rel(xs[i], outs[i]) by {
                    if i < k {
                        assert(outs[i] == prev[i]);
                    }
                }
                assert forall|i: int| 0 <= i < outs.len() - 1 implies (#[trigger] outs[i]) is Some by {
                    assert(outs[i] == prev[i]);
                    assert(prev[i] == Some(out@[i]));
                }
                assert(ran_until_absent(xs, outs, rel));
            }
            match e {
                Some(b) => {
                    let ghost prev = out@;
                    out.push(b);
                    assert forall|i: int| 0 <= i < out@.len() implies outs[i] == Some(#[trigger] out@[i]) by {
                        if i < k {
                            assert(out@[i] == prev[i]);
                        }
                    }
                },
                None => {
                    assert(outs.last() is None);
                    return None;
                },
            }
        }
        assert(outs.len() == xs.len());
        Some(out)
    }
}

impl<A, B, E> Traversable<ResultFamily1<E>, A, B> for VecFamily {
    /// A success with every element's result when the function succeeds on
    /// each element; otherwise the first failure, where it stops.
    open spec fn traverse_rel(t: Vec<A>, r: Result<Vec<B>, E>, rel: spec_fn(A, Result<B, E>) -> bool) -> bool {
        exists|outs: Seq<Result<B, E>>|
            {
                &&& #[trigger] ran_until_failure(t@, outs, rel)
                &&& match r {
                    Ok(v) => {
                        &&& outs.len() == t@.len()
                        &&& v@.len() == t@.len()
                        &&& forall|i: int|
                            0 <= i < t@.len() ==> outs[i] == Ok::<B, E>(#[trigger] v@[i])
                    },
                    Err(e) => outs.len() > 0 && outs.last() == Err::<B, E>(e),
                }
            }
    }

    fn traverse<F: Fn(A) -> Result<B, E>>(f: F, t: Vec<A>) -> (r: Result<Vec<B>, E>) {
        let ghost xs = t@;
        let ghost rel = |a: A, e: Result<B, E>| f.ensures((a,), e);
        let mut rest = into_reversed(t);
        let mut out: Vec<B> = Vec::new();
        let ghost mut outs: Seq<Result<B, E>> = Seq::empty();
        while rest.len() > 0
            invariant
                out@.len() + rest@.len() == xs.len(),
                outs.len() == out@.len(),
                rel == (|a: A, e: Result<B, E>| f.ensures((a,), e)),
                xs == t@,
                forall|i: int| 0 <= i < rest@.len() ==> rest@[i] == xs[xs.len() - 1 - i],
                ran_until_failure(xs, outs, rel),
                forall|i: int| 0 <= i < out@.len() ==> outs[i] == Ok::<B, E>(#[trigger] out@[i]),
                accepts_all(f, xs),
            decreases rest@.len(),
        {
            let ghost k = out@.len() as int;
            let x = rest.pop().unwrap();
            assert(x == xs[k]);
            assert(f.requires((xs[k],)));
            let e = f(x);
            proof {
                assert(rel(xs[k], e));
                let prev = outs;
                outs = outs.push(e);
                assert forall|i: int| 0 <= i < outs.len() implies #[trigger] rel(xs[i], outs[i]) by {
                    if i < k {
                        assert(outs[i] == prev[i]);
                    }
                }
                assert forall|i: int| 0 <= i < outs.len() - 1 implies (#[trigger] outs[i]) is Ok by {
                    assert(outs[i] == prev[i]);
                    assert(prev[i] == Ok::<B, E>(out@[i]));
                }
                assert(ran_until_failure(xs, outs, rel));
            }
            match e {
                Ok(b) => {
                    let ghost prev = out@;
                    out.push(b);
                    assert forall|i: int| 0 <= i < out@.len() implies outs[i] == Ok::<B, E>(#[trigger] out@[i]) by {
                        if i < k {
                            assert(out@[i] == prev[i]);
                        }
                    }
                },
                Err(err) => {
                    assert(outs.last() == Err::<B, E>(err));
                    return Err(err);
                },
            }
        }
        assert(outs.len() == xs.len());
        Ok(out)
    }
}

/// For each `c` of `last` in order, each sequence of `prev` in order with `c`
/// added at its end.
pub open spec fn extend_each<B>(prev: Seq<Seq<B>>, last: Seq<B>) -> Seq<Seq<B>>
    decreases last.len(),
{
    if last.len() == 0 {
        Seq::empty()
    } else {
        extend_each(prev, last.drop_last()) + Seq::new(
            prev.len(),
            |j: int| prev[j].push(last.last()),
        )
    }
}

/// Every way of picking one element from each of `choices`, in order: the
/// picks for all but the last choice, extended by each element of the last
/// one (which varies slowest).
pub open spec fn all_picks<B>(choices: Seq<Seq<B>>) -> Seq<Seq<B>>
    decreases choices.len(),
{
    if choices.len() == 0 {
        seq![Seq::empty()]
    } else {
        extend_each(all_picks(choices.drop_last()), choices.last())
    }
}

/// A copy of `v`, element by element.
fn copy_vec<B: Copy>(v: &Vec<B>) -> (r: Vec<B>)
    ensures
        r@ == v@,
{
    let mut r: Vec<B> = Vec::new();
    let mut i: usize = 0;
    while i < v.len()
        invariant
            0 <= i <= v@.len(),
            r@ == v@.take(i as int),
        decreases v@.len() - i,
    {
        r.push(v[i]);
        i = i + 1;
        assert(r@ =~= v@.take(i as int));
    }
    assert(v@.take(v@.len() as int) =~= v@);
    r
}

/// Each sequence of `prev`, in order, with `c` added at its end.
fn extend_with<B: Copy>(prev: &Vec<Vec<B>>, c: B, out: &mut Vec<Vec<B>>)
    ensures
        views(final(out)@) == views(old(out)@) + Seq::new(
            prev@.len(),
            |j: int| prev@[j]@.push(c),
        ),
{
    let ghost start = views(out@);
    let mut j: usize = 0;
    while j < prev.len()
        invariant
            0 <= j <= prev@.len(),
            views(out@) == start + Seq::new(j as nat, |j0: int| prev@[j0]@.push(c)),
        decreases prev@.len() - j,
    {
        let mut p = copy_vec(&prev[j]);
        p.push(c);
        let ghost before = out@;
        out.push(p);
        proof {
            assert(views(out@) =~= views(before) + seq![p@]);
            assert(start + Seq::new((j + 1) as nat, |j0: int| prev@[j0]@.push(c)) =~= start
                + Seq::new(j as nat, |j0: int| prev@[j0]@.push(c)) + seq![p@]);
        }
        j = j + 1;
    }
    assert(Seq::new(j as nat, |j0: int| prev@[j0]@.push(c)) =~= Seq::new(
        prev@.len(),
        |j0: int| prev@[j0]@.push(c),
    ));
}

impl<A, B: Copy> Traversable<VecFamily, A, B> for VecFamily {
    /// Every combination of the function's results: each element gives a
    /// sequence of possible results, and the outcome lists every way of
    /// picking one result per element, in the order of `all_picks`. A result
    /// stands in many combinations, so it is copied, hence `B: Copy`.
    open spec fn traverse_rel(t: Vec<A>, r: Vec<Vec<B>>, rel: spec_fn(A, Vec<B>) -> bool) -> bool {
        exists|choices: Seq<Vec<B>>|
            {
                &&& choices.len() == t@.len()
                &&& forall|i: int| 0 <= i < t@.len() ==> #[trigger] rel(t@[i], choices[i])
                &&& views(r@) == all_picks(views(choices))
            }
    }

    fn traverse<F: Fn(A) -> Vec<B>>(f: F, t: Vec<A>) -> (r: Vec<Vec<B>>) {
        let ghost xs = t@;
        let ghost rel = |a: A, e: Vec<B>| f.ensures((a,), e);
        let mut rest = into_reversed(t);
        let mut acc: Vec<Vec<B>> = Vec::new();
        acc.push(Vec::new());
        let ghost mut choices: Seq<Vec<B>> = Seq::empty();
        assert(views(acc@) =~= all_picks(views(choices)));
        while rest.len() > 0
            invariant
                choices.len() + rest@.len() == xs.len(),
                xs == t@,
                rel == (|a: A, e: Vec<B>| f.ensures((a,), e)),
                forall|i: int| 0 <= i < rest@.len() ==> rest@[i] == xs[xs.len() - 1 - i],
                forall|i: int| 0 <= i < choices.len() ==> #[trigger] rel(xs[i], choices[i]),
                views(acc@) == all_picks(views(choices)),
                accepts_all(f, xs),
            decreases rest@.len(),
        {
            let ghost k = choices.len() as int;
            let x = rest.pop().unwrap();
            assert(x == xs[k]);
            assert(f.requires((xs[k],)));
            let ch = f(x);
            let ghost prev = views(acc@);
            let mut next: Vec<Vec<B>> = Vec::new();
            let mut c: usize = 0;
            assert(views(next@) =~= extend_each(prev, ch@.take(0)));
            while c < ch.len()
                invariant
                    0 <= c <= ch@.len(),
                    prev == views(acc@),
                    views(next@) == extend_each(prev, ch@.take(c as int)),
                decreases ch@.len() - c,
            {
                extend_with(&acc, ch[c], &mut next);
                proof {
                    let taken = ch@.take(c + 1);
                    assert(taken.drop_last() =~= ch@.take(c as int));
                    assert(taken.last() == ch@[c as int]);
                    assert(Seq::new(acc@.len(), |j: int| acc@[j]@.push(ch@[c as int])) =~= Seq::new(
                        prev.len(),
                        |j: int| prev[j].push(taken.last()),
                    ));
                }
                c = c + 1;
            }
            proof {
                assert(ch@.take(ch@.len() as int) =~= ch@);
                let grown = choices.push(ch);
                assert(grown.drop_last() =~= choices);
                assert(views(grown) =~= views(choices).push(ch@));
                assert(views(grown).drop_last() =~= views(choices));
                assert(rel(xs[k], ch));
                choices = grown;
            }
            acc = next;
        }
        acc
    }
}

impl<A> SemigroupK<A> for VecFamily {
    /// Concatenation.
    open spec fn combine_k_rel(fa: Vec<A>, fb: Vec<A>, r: Vec<A>) -> bool {
        r@ == fa@ + fb@
    }

    fn combine_k(fa: Vec<A>, fb: Vec<A>) -> (r: Vec<A>) {
        let mut r = fa;
        let mut tail = fb;
        r.append(&mut tail);
        r
    }
}

impl<A> MonoidK<A> for VecFamily {
    fn empty() -> (r: Vec<A>) {
        Vec::new()
    }
}

impl<A> Alternative<A> for VecFamily {

}

impl<A> Semigroup for Vec<A> {
    open spec fn combinable(self, other: Vec<A>) -> bool {
        true
    }

    /// Concatenation.
    open spec fn combines_to(self, other: Vec<A>, r: Vec<A>) -> bool {
        r@ == self@ + other@
    }

    fn combine(self, other: Vec<A>) -> (r: Vec<A>) {
        let mut r = self;
        let mut tail = other;
        r.append(&mut tail);
        r
    }
}

impl<A> Monoid for Vec<A> {
    open spec fn is_mempty(m: Vec<A>) -> bool {
        m@.len() == 0
    }

    fn mempty() -> (r: Vec<A>) {
        Vec::new()
    }
}

/// Functor identity: mapping a function that returns its argument gives back
/// a sequence with the same elements.
pub proof fn law_vec_fmap_identity<A>(fa: Vec<A>, r: Vec<A>, rel: spec_fn(A, A) -> bool)
    requires
        <VecFamily as Functor<A, A>>::fmap_rel(fa, r, rel),
        computes(rel, |a: A| a),
    ensures
        r@ == fa@,
{
    assert forall|i: int| 0 <= i < fa@.len() implies r@[i] == fa@[i] by {
        assert(rel(fa@[i], r@[i]));
    }
    assert(r@ =~= fa@);
}

/// Functor composition: mapping `f` (computing `mf`) and then `g` (computing
/// `mg`) gives what mapping one function computing `mg(mf(x))` gives.
pub proof fn law_vec_fmap_composition<A, B, C>(
    fa: Vec<A>,
    mid: Vec<B>,
    r: Vec<C>,
    direct: Vec<C>,
    rel_f: spec_fn(A, B) -> bool,
    rel_g: spec_fn(B, C) -> bool,
    rel_gf: spec_fn(A, C) -> bool,
    mf: spec_fn(A) -> B,
    mg: spec_fn(B) -> C,
)
    requires
        <VecFamily as Functor<A, B>>::fmap_rel(fa, mid, rel_f),
        <VecFamily as Functor<B, C>>::fmap_rel(mid, r, rel_g),
        <VecFamily as Functor<A, C>>::fmap_rel(fa, direct, rel_gf),
        computes(rel_f, mf),
        computes(rel_g, mg),
        computes(rel_gf, |x: A| mg(mf(x))),
    ensures
        r@ == direct@,
{
    assert forall|i: int| 0 <= i < fa@.len() implies r@[i] == direct@[i] by {
        assert(rel_f(fa@[i], mid@[i]));
        assert(rel_g(mid@[i], r@[i]));
        assert(rel_gf(fa@[i], direct@[i]));
    }
    assert(r@ =~= direct@);
}

/// Monad left identity: lifting `a` and chaining a function that computes `mf`
/// gives the elements of `mf(a)`.
pub proof fn law_vec_left_identity<A, B>(
    a: A,
    lifted: Vec<A>,
    r: Vec<B>,
    rel: spec_fn(A, Vec<B>) -> bool,
    mf: spec_fn(A) -> Vec<B>,
)
    requires
        <VecFamily as Applicative<A>>::pure_rel(a, lifted),
        <VecFamily as Monad<A, B>>::bind_rel(lifted, r, rel),
        computes(rel, mf),
    ensures
        r@ == mf(a)@,
{
    let parts = choose|parts: Seq<Vec<B>>|
        {
            &&& parts.len() == lifted@.len()
            &&& forall|i: int| 0 <= i < lifted@.len() ==> #[trigger] rel(lifted@[i], parts[i])
            &&& r@ == concat_views(parts)
        };
    assert(rel(lifted@[0], parts[0]));
    assert(parts.drop_last().len() == 0);
    assert(concat_views(parts) == concat_views(parts.drop_last()) + parts[0]@);
    assert(r@ =~= mf(a)@);
}

/// Chaining singletons of the elements, one after the other, gives the elements.
proof fn lemma_concat_singletons<A>(xs: Seq<A>, parts: Seq<Vec<A>>)
    requires
        parts.len() == xs.len(),
        forall|i: int| 0 <= i < xs.len() ==> (#[trigger] parts[i])@ == seq![xs[i]],
    ensures
        concat_views(parts) == xs,
    decreases xs.len(),
{
    if xs.len() > 0 {
        let n = xs.len() - 1;
        assert forall|i: int| 0 <= i < n implies (#[trigger] parts.drop_last()[i])@ == seq![
            xs.drop_last()[i],
        ] by {
            assert(parts[i]@ == seq![xs[i]]);
        }
        lemma_concat_singletons(xs.drop_last(), parts.drop_last());
        assert(parts[n]@ == seq![xs[n]]);
        assert(xs =~= xs.drop_last() + seq![xs[n]]);
    } else {
        assert(xs =~= Seq::<A>::empty());
    }
}

/// Monad right identity: chaining the lift function gives back a sequence with
/// the same elements.
pub proof fn law_vec_right_identity<A>(fa: Vec<A>, r: Vec<A>, rel: spec_fn(A, Vec<A>) -> bool)
    requires
        <VecFamily as Monad<A, A>>::bind_rel(fa, r, rel),
        forall|a: A, m: Vec<A>| #[trigger] rel(a, m) ==> <VecFamily as Applicative<A>>::pure_rel(a, m),
    ensures
        r@ == fa@,
{
    let parts = choose|parts: Seq<Vec<A>>|
        {
            &&& parts.len() == fa@.len()
            &&& forall|i: int| 0 <= i < fa@.len() ==> #[trigger] rel(fa@[i], parts[i])
            &&& r@ == concat_views(parts)
        };
    assert forall|i: int| 0 <= i < fa@.len() implies (#[trigger] parts[i])@ == seq![fa@[i]] by {
        assert(rel(fa@[i], parts[i]));
    }
    lemma_concat_singletons(fa@, parts);
}

/// Monoid identity: concatenating the empty sequence, on either side, gives
/// back the elements of the other operand.
pub proof fn law_vec_monoid_identity<A>(x: Vec<A>, e: Vec<A>, left: Vec<A>, right: Vec<A>)
    requires
        <Vec<A> as Monoid>::is_mempty(e),
        e.combines_to(x, left),
        x.combines_to(e, right),
    ensures
        left@ == x@,
        right@ == x@,
{
    assert(left@ =~= x@);
    assert(right@ =~= x@);
}

} // verus!
