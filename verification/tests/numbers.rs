use gpu_test_harness::float_bits::{
    f16_to_f32, f32_greater, f32_is_infinite, f32_is_nan, f32_key, f32_to_f16, f64_key, pack_f16x2,
};
use gpu_test_harness::inspection::{
    audited_positions, count_broken_rows, count_infinities, count_nans, greatest_magnitude,
    judge_forward, judge_logits, judge_prediction, report_forward, scan_rows, ForwardVerdict,
};
use gpu_test_harness::ranking::{greedy_token, greedy_token64, top_tokens, top_tokens64};

fn bits(numbers: &[f32]) -> Vec<u32> {
    numbers.iter().map(|n| n.to_bits()).collect()
}

fn bits64(numbers: &[f64]) -> Vec<u64> {
    numbers.iter().map(|n| n.to_bits()).collect()
}

const SAMPLES: [f32; 14] = [
    0.0,
    -0.0,
    1.0,
    -1.0,
    1.0e-40,
    -1.0e-40,
    0.1,
    65504.0,
    65520.0,
    -7.25,
    3.4e38,
    f32::INFINITY,
    f32::NEG_INFINITY,
    f32::NAN,
];

#[test]
fn numbers_are_classified_and_compared() {
    for a in SAMPLES {
        assert_eq!(f32_is_nan(a.to_bits()), a.is_nan());
        assert_eq!(f32_is_infinite(a.to_bits()), a.is_infinite());
        assert_eq!(f32_key(a.to_bits()).is_none(), a.is_nan());
        for b in SAMPLES {
            assert_eq!(f32_greater(a.to_bits(), b.to_bits()), a > b);
        }
    }
    assert_eq!(f32_key((-0.0f32).to_bits()), Some(0));
}

#[test]
fn keys_order_as_values() {
    for a in SAMPLES {
        for b in SAMPLES {
            if let (Some(ka), Some(kb)) = (f32_key(a.to_bits()), f32_key(b.to_bits())) {
                assert_eq!(ka < kb, a < b);
                assert_eq!(ka == kb, a == b);
            }
            let (da, db) = (a as f64, b as f64);
            if let (Some(ka), Some(kb)) = (f64_key(da.to_bits()), f64_key(db.to_bits())) {
                assert_eq!(ka < kb, da < db);
                assert_eq!(ka == kb, da == db);
            }
        }
    }
    assert_eq!(f64_key(f64::NAN.to_bits()), None);
    assert_eq!(f64_key((-2.0f64).to_bits()), Some(-0x4000_0000_0000_0000));
}

#[test]
fn halves() {
    assert_eq!(f32_to_f16(1.0f32.to_bits()), 0x3C00);
    assert_eq!(f32_to_f16((-2.0f32).to_bits()), 0xC000);
    assert_eq!(f32_to_f16(65504.0f32.to_bits()), 0x7BFF);
    assert_eq!(f32_to_f16(65536.0f32.to_bits()), 0x7C00);
    assert_eq!(f32_to_f16(f32::NEG_INFINITY.to_bits()), 0xFC00);
    assert_eq!(f32_to_f16(f32::NAN.to_bits()), 0x7C00);
    assert_eq!(f32_to_f16(1.0e-5f32.to_bits()), 0);
    assert_eq!(f32_to_f16((-1.0e-5f32).to_bits()), 0x8000);
    assert_eq!(f32_to_f16((1.0f32 + 1.0 / 1025.0).to_bits()), 0x3C00);
    assert_eq!(f16_to_f32(0x3C00), 1.0f32.to_bits());
    assert_eq!(f16_to_f32(0x8000), (-0.0f32).to_bits());
    assert_eq!(f16_to_f32(0x7C00), f32::INFINITY.to_bits());
    assert_eq!(f16_to_f32(0xFC01), f32::NAN.to_bits());
    assert_eq!(pack_f16x2(1.0f32.to_bits(), (-2.0f32).to_bits()), 0xC000_3C00);
}

#[test]
fn halves_survive_widening() {
    for half in [0u16, 0x8000, 0x3C00, 0x7BFF, 0xFBFF, 0x0400, 0x7C00, 0xFC00] {
        assert_eq!(f32_to_f16(f16_to_f32(half)), half);
    }
    let cut = f32::from_bits(f16_to_f32(f32_to_f16(0.1f32.to_bits())));
    assert!(cut <= 0.1 && 0.1 - cut < 0.0001);
}

#[test]
fn greedy_choice_is_the_first_greatest() {
    assert_eq!(greedy_token(&bits(&[0.5, 2.0, -1.0, 2.0])), 1);
    assert_eq!(greedy_token(&bits(&[f32::NAN, -5.0, f32::NAN])), 1);
    assert_eq!(greedy_token(&bits(&[f32::NAN, f32::NEG_INFINITY])), 0);
    assert_eq!(greedy_token(&Vec::new()), 0);
    assert_eq!(greedy_token(&bits(&[-0.0, 0.0])), 0);
    assert_eq!(greedy_token64(&bits64(&[0.5, 2.0, 2.0])), 1);
    assert_eq!(greedy_token64(&bits64(&[f64::NAN, -3.0])), 1);
}

#[test]
fn top_tokens_are_stable() {
    let logits = bits(&[1.0, 3.0, 2.0, 3.0, -1.0]);
    assert_eq!(top_tokens(&logits, 5), vec![1, 3, 2, 0, 4]);
    assert_eq!(top_tokens(&logits, 0), Vec::<usize>::new());
    assert_eq!(top_tokens(&logits, 1), vec![greedy_token(&logits)]);
    assert_eq!(top_tokens64(&bits64(&[1.0, 3.0, 2.0, 3.0]), 3), vec![1, 3, 2]);
}

#[test]
fn values_that_must_not_be_there_are_counted() {
    let numbers = bits(&[1.0, f32::NAN, f32::INFINITY, -9.5, f32::NEG_INFINITY, f32::NAN]);
    assert_eq!(count_nans(&numbers), 2);
    assert_eq!(count_infinities(&numbers), 2);
    assert_eq!(greatest_magnitude(&numbers), 9.5f32.to_bits());
    assert_eq!(greatest_magnitude(&Vec::new()), 0);
    assert_eq!(count_broken_rows(&numbers, 2, 3), 3);
    assert_eq!(count_broken_rows(&bits(&[1.0, 2.0, f32::NAN, 0.0]), 2, 2), 1);
}

#[test]
fn rows_are_scanned() {
    let data = bits(&[1.0, -2.0, f32::NAN, 70000.0, -70001.0, 3.0, 4.0, f32::INFINITY]);
    let scan = scan_rows(&data, 2, 4);
    assert_eq!(scan.nan_rows, vec![1]);
    assert_eq!(
        scan.overflow_rows,
        vec![(1, 70000.0f32.to_bits()), (2, 70001.0f32.to_bits())]
    );
    assert_eq!(scan.greatest, 70001.0f32.to_bits());
}

#[test]
fn forward_passes_are_judged() {
    let good = bits(&[1.0, -1000.0, 2.0, 3.0]);
    assert!(matches!(judge_forward(&good, 2, 2), ForwardVerdict::Accepted));
    let large = bits(&[1.0, -1000.5, 2.0, 3.0]);
    match judge_forward(&large, 2, 2) {
        ForwardVerdict::TooLarge(size) => assert_eq!(size, 1000.5f32.to_bits()),
        _ => panic!("expected a verdict on the size"),
    }
    let broken = bits(&[1.0, 1.0, f32::NAN, f32::INFINITY]);
    match judge_forward(&broken, 2, 2) {
        ForwardVerdict::Rejected(error) => {
            assert_eq!(error.test, "full_forward");
            assert_eq!(
                error.detail,
                "prediction position has 1 NaN and 1 Inf values"
            );
        }
        _ => panic!("expected a rejection"),
    }
    let early = bits(&[f32::NAN, 1.0, 2.0, 3.0]);
    assert!(matches!(judge_forward(&early, 2, 2), ForwardVerdict::Accepted));
}

#[test]
fn predictions_and_logits_are_judged() {
    assert!(judge_prediction("f32_forward", &bits(&[1.0, 2.0])).is_ok());
    let error = judge_prediction("mma_forward", &bits(&[f32::NAN, f32::NAN])).err().unwrap();
    assert_eq!((error.test, error.detail.as_str()), ("mma_forward", "prediction has 2 NaN, 0 Inf"));
    assert!(judge_logits(&bits(&[1.0, -2.0])).is_ok());
    let error = judge_logits(&bits(&[f32::NEG_INFINITY])).err().unwrap();
    assert_eq!(
        (error.test, error.detail.as_str()),
        ("lm_head", "logits have 0 NaN and 1 Inf values")
    );
    assert_eq!(audited_positions(1), vec![0]);
    assert_eq!(audited_positions(6), vec![4, 5]);
}

#[test]
fn forward_passes_are_reported() {
    let good = bits(&[1.0, -1000.0, 2.0, 3.0]);
    assert!(report_forward(&good, 2, 2, "1000.00").is_ok());
    let large = bits(&[1.0, -1000.5, 2.0, 3.0]);
    let error = report_forward(&large, 2, 2, "1000.50").err().unwrap();
    assert_eq!(
        (error.test, error.detail.as_str()),
        ("full_forward", "output magnitude too large: max|val|=1000.50")
    );
    let broken = bits(&[1.0, 2000.0, f32::NAN, f32::INFINITY]);
    let error = report_forward(&broken, 2, 2, "2000.00").err().unwrap();
    assert_eq!(
        (error.test, error.detail.as_str()),
        ("full_forward", "prediction position has 1 NaN and 1 Inf values")
    );
}
