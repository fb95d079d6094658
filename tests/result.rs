use typeclasses::classes::{
    ApplicativeExt, ApplyExt, BifunctorExt, FoldableExt, FunctorExt, MonadExt, Semigroup,
    SemigroupKExt, TraversableExt,
};

#[test]
fn test_semigroup() {
    assert_eq!(Semigroup::combine(Ok::<_, i32>(1), Ok(2)), Ok(1));
}

#[test]
fn result_combine_failure_first_gives_the_success() {
    assert_eq!(Err::<i32, i32>(7).combine(Ok(2)), Ok(2));
    assert_eq!(Ok::<i32, i32>(2).combine(Err(7)), Ok(2));
    assert_eq!(Err::<i32, i32>(7).combine(Err(8)), Err(8));
}

#[test]
fn result_fmap_passes_failures_through() {
    assert_eq!(Ok::<i32, String>(2).fmap(|a| a * 3), Ok(6));
    assert_eq!(Err::<i32, String>("e".to_owned()).fmap(|a| a * 3), Err("e".to_owned()));
}

#[test]
fn result_pure_is_a_success() {
    let r: Result<i32, String> = Result::pure(4);
    assert_eq!(r, Ok(4));
}

#[test]
fn result_ap_first_failure_wins() {
    assert_eq!(Ok::<i32, i32>(2).ap(Ok(|a: i32| a + 1)), Ok(3));
    assert_eq!(Err::<i32, i32>(1).ap(Ok(|a: i32| a + 1)), Err(1));
    assert_eq!(Ok::<i32, i32>(2).ap(Err::<fn(i32) -> i32, i32>(5)), Err(5));
    assert_eq!(Err::<i32, i32>(1).ap(Err::<fn(i32) -> i32, i32>(5)), Err(5));
}

#[test]
fn result_bind_short_circuits() {
    let halve = |a: i32| if a % 2 == 0 { Ok(a / 2) } else { Err(a) };
    assert_eq!(Ok::<i32, i32>(8).bind(halve), Ok(4));
    assert_eq!(Ok::<i32, i32>(3).bind(halve), Err(3));
    assert_eq!(Err::<i32, i32>(9).bind(halve), Err(9));
}

#[test]
fn result_fold_uses_only_the_success() {
    assert_eq!(Ok::<i32, i32>(3).fold_left(10, |acc, a| acc + a), 13);
    assert_eq!(Err::<i32, i32>(3).fold_left(10, |acc, a| acc + a), 10);
    assert_eq!(Ok::<i32, i32>(3).fold_right(10, |a, acc| a - acc), -7);
    assert_eq!(Err::<i32, i32>(3).fold_right(10, |a, acc| a - acc), 10);
}

#[test]
fn result_combine_k_takes_the_first_success() {
    assert_eq!(Ok::<i32, i32>(1).combine_k(Ok(2)), Ok(1));
    assert_eq!(Err::<i32, i32>(1).combine_k(Ok(2)), Ok(2));
    assert_eq!(Err::<i32, i32>(1).combine_k(Err(2)), Err(2));
}

#[test]
fn result_bimap_maps_each_channel() {
    assert_eq!(Ok::<i32, String>(2).bimap(|a| a + 1, |e: String| e.len()), Ok(3));
    assert_eq!(Err::<i32, String>("abc".to_owned()).bimap(|a| a + 1, |e: String| e.len()), Err(3));
}

#[test]
fn result_traverse_into_options() {
    assert_eq!(Ok::<i32, String>(2).traverse(|a: i32| Some(a * 2)), Some(Ok(4)));
    assert_eq!(Ok::<i32, String>(2).traverse(|_: i32| None::<i32>), None);
    assert_eq!(
        Err::<i32, String>("e".to_owned()).traverse(|a: i32| Some(a * 2)),
        Some(Err("e".to_owned()))
    );
}
