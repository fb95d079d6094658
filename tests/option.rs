use typeclasses::classes::{
    ApplicativeExt, ApplyExt, FoldableExt, FunctorExt, MonadExt, Monoid, MonoidKExt, Semigroup,
    SemigroupKExt, TraversableExt,
};

#[test]
fn option_test_monoid() {
    assert_eq!(Option::<i32>::mempty(), None);
    assert_eq!(Semigroup::combine(1, 2), 3);
    assert_eq!(Option::mempty().combine(Some(1)).combine(Some(2)), Some(3));
}

#[test]
fn test_functor_applicative_monad() {
    assert_eq!(Some(2).fmap(|a| a + 1), Some(3));
    assert_eq!(None.fmap(|a: i32| a + 1), None);

    assert_eq!(Option::pure(2), Some(2));
    let v: Option<i32> = Option::pure(2);
    assert_eq!(v, Some(2));
    assert_eq!(Some(2).ap(Some(|a| a + 1)), Some(3));
    assert_eq!(Some(2).ap(None::<fn(i32) -> i32>), None);
    assert_eq!(None.ap(Some(|a: i32| a + 1)), None);

    assert_eq!(Some(2).bind(|a: i32| a.checked_add(1)), Some(3));
    assert_eq!(None.bind(|a: i32| a.checked_add(1)), None);
    assert_eq!(Some(2).bind(|_| None::<i32>), None);
}

#[test]
fn test_fold() {
    assert_eq!(
        Some(2).fold_left("a".to_owned(), |acc, n| format!("{}{}", acc, n)),
        "a2".to_owned()
    );
    assert_eq!(
        Some(2).fold_right("a".to_owned(), |n, acc| format!("{}{}", acc, n)),
        "a2".to_owned()
    );
}

#[test]
fn option_test_alternative() {
    assert_eq!(Option::<i32>::empty(), None);
    assert_eq!(Some(2).combine_k(Some(3)), Some(2));
    assert_eq!(None.combine_k(Some(3)), Some(3));
    assert_eq!(Some(2).combine_k(None), Some(2));
    assert_eq!(None::<i32>.combine_k(None), None);
}

#[test]
fn option_fold_of_absent_keeps_the_accumulator() {
    assert_eq!(None::<i32>.fold_left(7, |acc, n| acc * 10 + n), 7);
    assert_eq!(None::<i32>.fold_right(7, |n, acc| acc * 10 + n), 7);
}

#[test]
fn option_fold_left_and_right_order_arguments() {
    assert_eq!(Some(3).fold_left(10, |acc, n| acc - n), 7);
    assert_eq!(Some(3).fold_right(10, |n, acc| n - acc), -7);
}

#[test]
fn option_combine_merges_present_values() {
    assert_eq!(Some(4).combine(Some(5)), Some(9));
    assert_eq!(Some(4).combine(None), Some(4));
    assert_eq!(None.combine(Some(5)), Some(5));
    assert_eq!(None::<i32>.combine(None), None);
}

#[test]
fn option_traverse_into_sequences() {
    assert_eq!(Some(3).traverse(|x: i32| vec![x, x * 10]), vec![Some(3), Some(30)]);
    assert_eq!(Some(3).traverse(|_: i32| Vec::<i32>::new()), Vec::<Option<i32>>::new());
    assert_eq!(None::<i32>.traverse(|x: i32| vec![x, x * 10]), vec![None]);
}

#[test]
fn option_traverse_into_results() {
    assert_eq!(Some(3).traverse(|x: i32| Ok::<i32, String>(x + 1)), Ok(Some(4)));
    assert_eq!(
        Some(3).traverse(|_: i32| Err::<i32, String>("bad".to_owned())),
        Err("bad".to_owned())
    );
    assert_eq!(None::<i32>.traverse(|x: i32| Ok::<i32, String>(x + 1)), Ok(None));
}
