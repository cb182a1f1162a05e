use bayestest::{CountTest, InvalidArgument, Posterior, MAX_COUNT_VARIANTS};

fn p(alpha: u64, beta: u64) -> Posterior {
    Posterior { alpha, beta }
}

#[test]
fn count_new_test_is_empty() {
    let test = CountTest::new();
    assert_eq!(test.len(), 0);
    assert!(test.comparisons().is_empty());
}

#[test]
fn count_default_test_is_empty() {
    let test = CountTest::default();
    assert_eq!(test.len(), 0);
    assert!(test.comparisons().is_empty());
}

#[test]
fn count_one_variant_needs_no_comparison() {
    let mut test = CountTest::new();
    assert_eq!(test.add(2, 1), Ok(()));
    assert_eq!(test.len(), 1);
    assert!(test.comparisons().is_empty());
}

#[test]
fn count_two_variants_comparison() {
    let mut test = CountTest::new();
    test.add(55, 50).unwrap();
    test.add(30, 30).unwrap();
    assert_eq!(test.comparisons(), vec![vec![p(55, 50), p(30, 30)]]);
}

#[test]
fn count_three_variants_comparisons() {
    let mut test = CountTest::new();
    test.add(55, 50).unwrap();
    test.add(30, 30).unwrap();
    test.add(10, 10).unwrap();
    let v0 = p(55, 50);
    let v1 = p(30, 30);
    let v2 = p(10, 10);
    assert_eq!(test.comparisons(), vec![vec![v0, v1, v2], vec![v1, v2, v0]]);
}

#[test]
fn count_test_four_variants() {
    let mut test = CountTest::new();
    for _ in 0..3 {
        assert_eq!(test.add(2, 1), Ok(()));
    }
    assert_eq!(test.len(), MAX_COUNT_VARIANTS);
    assert_eq!(test.add(2, 1), Err(InvalidArgument::TooManyVariants));
    assert_eq!(test.len(), 3);
}

#[test]
fn count_zero_events_and_exposure_are_accepted() {
    let mut test = CountTest::new();
    assert_eq!(test.add(0, 0), Ok(()));
    assert_eq!(test.add(7, 0), Ok(()));
    assert_eq!(test.comparisons(), vec![vec![p(0, 0), p(7, 0)]]);
}

#[test]
fn count_each_comparison_uses_every_variant_once() {
    let mut test = CountTest::new();
    test.add(1, 2).unwrap();
    test.add(3, 4).unwrap();
    test.add(5, 6).unwrap();
    let all = vec![p(1, 2), p(3, 4), p(5, 6)];
    let calls = test.comparisons();
    assert_eq!(calls.len(), 2);
    for (i, call) in calls.iter().enumerate() {
        assert_eq!(call[0], all[i]);
        for v in &all {
            assert_eq!(call.iter().filter(|c| *c == v).count(), 1);
        }
    }
}
