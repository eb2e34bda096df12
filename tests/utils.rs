use rust_snake::utils::{min, rand_range};

#[test]
fn test_rand_range() {
    let i = 100;
    for _ in 0..i {
        let a = rand_range(0, 5);
        println!("{}", a);
        assert!(a < 5);
    }
}

#[test]
fn test_min() {
    let b = vec![3, 45, 56, 1];
    let a = min(b.iter());
    assert_eq!(1, *a);
}

#[test]
fn rand_range_of_one_value() {
    assert_eq!(rand_range(3, 4), 3);
    assert_eq!(rand_range(7, 8), 7);
}

#[test]
fn min_of_one_value_and_of_negatives() {
    let one = vec![9];
    assert_eq!(*min(one.iter()), 9);
    let neg = vec![-2, -7, 0, -7, 4];
    assert_eq!(*min(neg.iter()), -7);
}
