use typeclasses::classes::{ApplicativeExt, FunctorExt, MonadExt, Monoid, Semigroup};

#[test]
fn functor_identity_on_each_container() {
    assert_eq!(Some(5).fmap(|x: i32| x), Some(5));
    assert_eq!(None::<i32>.fmap(|x: i32| x), None);
    assert_eq!(vec![1, 2, 3].fmap(|x: i32| x), vec![1, 2, 3]);
    assert_eq!(Ok::<i32, String>(4).fmap(|x: i32| x), Ok(4));
    assert_eq!(Err::<i32, String>("e".to_owned()).fmap(|x: i32| x), Err("e".to_owned()));
}

#[test]
fn functor_composition_on_each_container() {
    let f = |x: i32| x * 2;
    let g = |x: i32| x + 3;
    assert_eq!(Some(5).fmap(f).fmap(g), Some(5).fmap(|x| g(f(x))));
    assert_eq!(vec![1, 2, 3].fmap(f).fmap(g), vec![1, 2, 3].fmap(|x| g(f(x))));
    assert_eq!(vec![1, 2, 3].fmap(f).fmap(g), vec![5, 7, 9]);
    assert_eq!(
        Ok::<i32, String>(4).fmap(f).fmap(g),
        Ok::<i32, String>(4).fmap(|x| g(f(x)))
    );
}

#[test]
fn monad_left_identity_on_each_container() {
    let f = |x: i32| if x > 0 { Some(x - 1) } else { None };
    assert_eq!(Option::pure(3).bind(f), f(3));
    assert_eq!(Option::pure(0).bind(f), f(0));
    let g = |x: i32| vec![x, x];
    assert_eq!(Vec::pure(3).bind(g), g(3));
    let h = |x: i32| if x > 0 { Ok(x) } else { Err("neg".to_owned()) };
    assert_eq!(Result::pure(-1).bind(h), h(-1));
}

#[test]
fn monad_right_identity_on_each_container() {
    assert_eq!(Some(3).bind(|x| Some(x)), Some(3));
    assert_eq!(None::<i32>.bind(|x| Some(x)), None);
    assert_eq!(vec![1, 2, 3].bind(|x| vec![x]), vec![1, 2, 3]);
    assert_eq!(Ok::<i32, i32>(3).bind(|x| Ok(x)), Ok(3));
    assert_eq!(Err::<i32, i32>(8).bind(|x| Ok(x)), Err(8));
}

#[test]
fn monoid_identity_on_either_side() {
    assert_eq!(Some(4).combine(Option::mempty()), Some(4));
    assert_eq!(Option::mempty().combine(Some(4)), Some(4));
    assert_eq!(vec![1, 2].combine(Vec::mempty()), vec![1, 2]);
    assert_eq!(Vec::mempty().combine(vec![1, 2]), vec![1, 2]);
}
