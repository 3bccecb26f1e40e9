use gpu_test_harness::tally::{combine, describe_rounds, median, sum_words, Rounds};

#[test]
fn sums_that_do_not_fit_are_none() {
    assert_eq!(sum_words(&vec![1, 2, 3]), Some(6));
    assert_eq!(sum_words(&Vec::new()), Some(0));
    assert_eq!(sum_words(&vec![u32::MAX, 0]), Some(u32::MAX));
    assert_eq!(sum_words(&vec![u32::MAX, 1]), None);
}

#[test]
fn rounds_are_described() {
    assert_eq!(
        describe_rounds(&vec![7, 3, 12, 3]),
        Some(Rounds { least: 3, greatest: 12, mean: 6 })
    );
    assert_eq!(
        describe_rounds(&Vec::new()),
        Some(Rounds { least: 0, greatest: 0, mean: 0 })
    );
    assert_eq!(describe_rounds(&vec![u32::MAX, 1]), None);
}

#[test]
fn median_is_the_later_middle() {
    assert_eq!(median(&vec![5]), 5);
    assert_eq!(median(&vec![9, 1]), 9);
    assert_eq!(median(&vec![3, 1, 2]), 2);
    assert_eq!(median(&vec![10, 7, 7, 1, 8, 2, 9, 3, 7, 4]), 7);
    assert_eq!(median(&vec![4, 3, 2, 1]), 3);
}

#[test]
fn halves_combine() {
    assert_eq!(combine(5, 0), 5);
    assert_eq!(combine(0xDDCC_BBAA, 0x1122_3344), 0x1122_3344_DDCC_BBAA);
    let number: u64 = 0xFEDC_BA98_7654_3210;
    assert_eq!(combine(number as u32, (number >> 32) as u32), number);
}
