use gpu_test_harness::float_bits::{f16_to_f32, f32_of_count};
use gpu_test_harness::fragments::{
    accumulator_fragments, counted_fragments, exchange_bytes, expected_product, expected_swap,
    find_differing, find_misled, identity_fragments, judge_checks, judge_exchange,
};

fn halves(word: u32) -> (f32, f32) {
    (
        f32::from_bits(f16_to_f32(word as u16)),
        f32::from_bits(f16_to_f32((word >> 16) as u16)),
    )
}

#[test]
fn checks_must_all_hold() {
    assert!(judge_checks("f32_math_test", &vec![true; 8]).is_ok());
    assert!(judge_checks("f32_math_test", &Vec::new()).is_ok());
    let error = judge_checks("f32_math_test", &vec![true, false, true]).err().unwrap();
    assert_eq!((error.test, error.detail.as_str()), ("f32_math_test", "see above"));
}

#[test]
fn accumulator_holds_one_to_four() {
    let words = accumulator_fragments();
    assert_eq!(words.len(), 128);
    for (i, word) in words.iter().enumerate() {
        assert_eq!(f32::from_bits(*word), (i % 4 + 1) as f32);
    }
}

#[test]
fn differing_words_are_found() {
    let expected = vec![1, 2, 3, 4];
    assert_eq!(find_differing(&expected, &expected), Vec::<usize>::new());
    assert_eq!(find_differing(&expected, &vec![0, 2, 5, 4, 9]), vec![0, 2]);
}

#[test]
fn neighbours_exchange_their_values() {
    let output: Vec<u32> = (0..32u32).map(|t| (t ^ 1) + 1).collect();
    assert_eq!(expected_swap(0), 2);
    assert_eq!(expected_swap(1), 1);
    assert_eq!(expected_swap(31), 31);
    assert_eq!(exchange_bytes(), 128);
    assert!(judge_exchange(&output).is_ok());
    let mut wrong = output.clone();
    wrong[6] = 0;
    wrong[31] = 32;
    assert_eq!(find_misled(&wrong), vec![6, 31]);
    let error = judge_exchange(&wrong).err().unwrap();
    assert_eq!(
        (error.test, error.detail.as_str()),
        ("shared_memory", "neighbor swap pattern mismatch")
    );
}

#[test]
fn identity_is_packed() {
    let words = identity_fragments();
    assert_eq!(words.len(), 128);
    for i in 0..16 {
        for c in 0..8 {
            let (low, high) = halves(words[8 * i + c]);
            assert_eq!(low, if 2 * c == i { 1.0 } else { 0.0 });
            assert_eq!(high, if 2 * c + 1 == i { 1.0 } else { 0.0 });
        }
    }
    assert_eq!(words[0], 0x3C00);
    assert_eq!(words[8], 0x3C00_0000);
}

#[test]
fn counted_matrix_is_packed() {
    let words = counted_fragments();
    assert_eq!(words.len(), 64);
    for k in 0..16 {
        for p in 0..4 {
            let (low, high) = halves(words[4 * k + p]);
            assert_eq!(low, (8 * k + 2 * p + 1) as f32);
            assert_eq!(high, (8 * k + 2 * p + 2) as f32);
        }
    }
}

#[test]
fn product_registers_cover_the_matrix() {
    let values = expected_product();
    assert_eq!(values.len(), 128);
    assert_eq!(&values[..4], &[1, 9, 65, 73]);
    assert_eq!(values[4 * 31 + 3], (3 * 2 + 9) * 8 + 7 + 1);
    let mut sorted = values.clone();
    sorted.sort();
    assert_eq!(sorted, (1..=128).collect::<Vec<u32>>());
}

#[test]
fn counts_are_exact_numbers() {
    for n in [0u32, 1, 2, 3, 127, 128, 1000, 0xFF_FFFF] {
        assert_eq!(f32_of_count(n), (n as f32).to_bits());
    }
}
