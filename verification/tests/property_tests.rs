use fib_rs::Fib;
use fib_rs::fib_range;
use num_bigint::BigUint;
use std::str::FromStr;

#[test]
fn small_range_exact_values() {
    // F(3) through F(10), in index order
    let fibs = fib_range(3..=10);
    let expected: Vec<BigUint> = vec![
        BigUint::from_str("2").unwrap(),
        BigUint::from_str("3").unwrap(),
        BigUint::from_str("5").unwrap(),
        BigUint::from_str("8").unwrap(),
        BigUint::from_str("13").unwrap(),
        BigUint::from_str("21").unwrap(),
        BigUint::from_str("34").unwrap(),
        BigUint::from_str("55").unwrap(),
    ];
    assert_eq!(fibs, expected);
}

#[test]
fn inverted_range_is_empty() {
    // An inverted range is a defined empty-result success case
    let fibs = Fib::range(10, 5);
    assert!(fibs.is_empty());
    assert!(fib_range(1..=0).is_empty());
}

#[test]
fn plateau_at_start() {
    // F(1) = F(2) = 1 is the sole plateau before strict growth begins
    let one = BigUint::from_str("1").unwrap();
    assert_eq!(Fib::single(1), one);
    assert_eq!(Fib::single(2), one);
    assert!(Fib::single(3) > Fib::single(2));
}

#[test]
fn single_element_range_matches_single() {
    for n in [0u128, 1, 2, 17, 95] {
        let r = Fib::range(n, n);
        assert_eq!(r.len(), 1);
        assert_eq!(r[0], Fib::single(n));
    }
}

#[test]
fn output_independent_of_worker_count() {
    // The same range, computed under pools of different sizes, must be
    // bit-for-bit identical
    let one_worker = rayon::ThreadPoolBuilder::new()
        .num_threads(1)
        .build()
        .unwrap()
        .install(|| fib_range(0..=500));
    let many_workers = rayon::ThreadPoolBuilder::new()
        .num_threads(7)
        .build()
        .unwrap()
        .install(|| fib_range(0..=500));
    assert_eq!(one_worker, many_workers);
    assert_eq!(one_worker, fib_range(0..=500));
}
