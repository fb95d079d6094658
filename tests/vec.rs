use typeclasses::classes::{
    ApplicativeExt, ApplyExt, FoldableExt, FunctorExt, MonadExt, Monoid, MonoidKExt, Semigroup,
    SemigroupKExt, TraversableExt,
};

#[test]
fn test_functor() {
    assert_eq!(vec![1, 2, 3].fmap(|a| a + 1), vec![2, 3, 4]);
    assert_eq!(vec![].fmap(|a: i32| a + 1), vec![]);
}

#[test]
fn test_applicative() {
    let plus_one: Box<dyn Fn(i32) -> i32> = Box::new(|a| a + 1);
    let plus_two: Box<dyn Fn(i32) -> i32> = Box::new(|a| a + 2);
    let plus_three: Box<dyn Fn(i32) -> i32> = Box::new(|a| a + 3);
    assert_eq!(
        vec![1, 2, 3].ap(vec![plus_one, plus_two, plus_three]),
        vec![2, 3, 4, 3, 4, 5, 4, 5, 6]
    );
}

#[test]
fn test_monad() {
    assert_eq!(
        vec![1, 2, 3].bind(|i| vec![2, 3, 4].bind(|j| vec![(i, j)])),
        vec![
            (1, 2),
            (1, 3),
            (1, 4),
            (2, 2),
            (2, 3),
            (2, 4),
            (3, 2),
            (3, 3),
            (3, 4)
        ]
    );
}

#[test]
fn vec_test_monoid() {
    assert_eq!(vec![1, 2, 3].combine(vec![4, 5, 6]), vec![1, 2, 3, 4, 5, 6]);
    assert_eq!(Vec::<i32>::mempty(), vec![]);
    assert_eq!(Vec::mempty().combine(vec![1]).combine(vec![2]), vec![1, 2]);
}

#[test]
fn test_foldable() {
    assert_eq!(
        vec![1, 2, 3, 4, 5].fold_left("".to_owned(), |acc, i| format!("{}{}", acc, i)),
        "12345"
    );
    assert_eq!(
        vec![1, 2, 3, 4, 5].fold_right("".to_owned(), |i, acc| format!("{}{}", acc, i)),
        "54321"
    );
}

#[test]
fn test_traverse() {
    assert_eq!(vec![1, 2, 3].traverse(|i| Some(i)), Some(vec![1, 2, 3]));
    assert_eq!(vec![].traverse(|i: i32| Some(i)), Some(vec![]));
    assert_eq!(vec![1, 2, 3].traverse(|_| None::<i32>), None);
    assert_eq!(
        vec![2, 4, 6, 8].traverse(|i| if i % 2 == 0 { vec![i] } else { vec![] }),
        vec![vec![2, 4, 6, 8]]
    );
    assert_eq!(
        vec![2, 4, 6, 7, 8].traverse(|i| if i % 2 == 0 { vec![i] } else { vec![] }),
        Vec::<Vec<i32>>::new()
    );
}

#[test]
fn vec_test_alternative() {
    assert_eq!(vec![1, 2, 3].combine(vec![4, 5, 6]), vec![1, 2, 3, 4, 5, 6]);
    assert_eq!(Vec::<i32>::empty(), vec![]);
}

#[test]
fn vec_combine_k_concatenates() {
    assert_eq!(vec![1, 2].combine_k(vec![3]), vec![1, 2, 3]);
    assert_eq!(Vec::<i32>::new().combine_k(vec![]), Vec::<i32>::new());
}

#[test]
fn vec_pure_is_a_singleton() {
    let v: Vec<i32> = Vec::pure(7);
    assert_eq!(v, vec![7]);
}

#[test]
fn vec_ap_with_an_empty_side_is_empty() {
    let none: Vec<fn(i32) -> i32> = vec![];
    assert_eq!(vec![1, 2].ap(none), Vec::<i32>::new());
    assert_eq!(Vec::<i32>::new().ap(vec![|a: i32| a + 1]), Vec::<i32>::new());
}

#[test]
fn vec_fold_of_empty_keeps_the_accumulator() {
    assert_eq!(Vec::<i32>::new().fold_left(5, |acc, i| acc - i), 5);
    assert_eq!(Vec::<i32>::new().fold_right(5, |i, acc| i - acc), 5);
}

#[test]
fn vec_fold_right_nests_from_the_back() {
    // 1 - (2 - (3 - 0)) = 2; ((0 - 1) - 2) - 3 = -6
    assert_eq!(vec![1, 2, 3].fold_right(0, |i, acc| i - acc), 2);
    assert_eq!(vec![1, 2, 3].fold_left(0, |acc, i| acc - i), -6);
}

#[test]
fn vec_traverse_into_sequences_lists_every_combination() {
    assert_eq!(
        vec![1, 2].traverse(|i: i32| vec![i, i * 10]),
        vec![vec![1, 2], vec![10, 2], vec![1, 20], vec![10, 20]]
    );
    assert_eq!(Vec::<i32>::new().traverse(|i: i32| vec![i]), vec![Vec::<i32>::new()]);
}

#[test]
fn vec_traverse_into_results_stops_at_the_first_failure() {
    let check = |i: i32| if i > 0 { Ok(i * 2) } else { Err(i) };
    assert_eq!(vec![1, 2, 3].traverse(check), Ok(vec![2, 4, 6]));
    assert_eq!(vec![1, -2, 3, -4].traverse(check), Err(-2));
    assert_eq!(Vec::<i32>::new().traverse(check), Ok(vec![]));
}

#[test]
fn vec_traverse_into_options_is_absent_if_any_is() {
    let half = |i: i32| if i % 2 == 0 { Some(i / 2) } else { None };
    assert_eq!(vec![2, 4].traverse(half), Some(vec![1, 2]));
    assert_eq!(vec![2, 3, 4].traverse(half), None);
}
