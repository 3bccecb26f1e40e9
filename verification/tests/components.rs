use gpu_test_harness::components::{
    bench_sizes, fill_pattern, judge_causal_attention, judge_deviation, judge_first_row,
    judge_mismatches, may_attend, residues, spot_rows, Elementwise, Pattern,
};
use gpu_test_harness::error::{FailureKind, HarnessError};
use gpu_test_harness::gates::gate;
use gpu_test_harness::text::{bracket, join, say};

fn rejection<T>(result: Result<T, HarnessError>) -> (&'static str, String) {
    let error = result.err().unwrap();
    assert_eq!(error.kind, FailureKind::Verification);
    (error.test, error.detail)
}

#[test]
fn inputs_follow_their_patterns() {
    assert_eq!(residues(5, 7, 3, 11), vec![3, 10, 6, 2, 9]);
    assert_eq!(residues(3, u32::MAX, u32::MAX, 10), vec![5, 0, 5]);
    let pattern = Pattern { row_step: 3, col_step: 1, seed: 0, modulus: 7, base: 1 };
    assert_eq!(fill_pattern(2, 4, pattern), vec![1, 2, 3, 4, 4, 5, 6, 7]);
    let pattern = Pattern { row_step: 11, col_step: 5, seed: 100, modulus: 7, base: 1 };
    let levels = fill_pattern(5, 6, pattern);
    for row in 0..5u32 {
        for col in 0..6u32 {
            assert_eq!(
                levels[(row * 6 + col) as usize],
                (col * 5 + row * 11 + 100) % 7 + 1
            );
        }
    }
}

#[test]
fn spot_rows_are_first_middle_and_last() {
    assert_eq!(spot_rows(0), Vec::<usize>::new());
    assert_eq!(spot_rows(20), (0..20).collect::<Vec<usize>>());
    assert_eq!(spot_rows(50), (0..50).collect::<Vec<usize>>());
    assert_eq!(spot_rows(64), (0..64).collect::<Vec<usize>>());
    let mut expected: Vec<usize> = (0..32).collect();
    expected.extend(128..160);
    expected.extend(224..256);
    assert_eq!(spot_rows(256), expected);
    let mut expected: Vec<usize> = (0..32).collect();
    expected.extend(50..100);
    assert_eq!(spot_rows(100), expected);
}

#[test]
fn mismatches_are_reported() {
    assert!(judge_mismatches("layer_norm", 0).is_ok());
    assert_eq!(
        rejection(judge_mismatches("ffn_block", 12)),
        ("ffn_block", "12 mismatches".to_string())
    );
    assert!(judge_deviation("gelu_forward", "", 0, "0").is_ok());
    assert_eq!(
        rejection(judge_deviation("flash_attention", "causal: ", 3, "0.00200000")).1,
        "causal: 3 mismatches, max_err=0.00200000"
    );
    assert!(judge_first_row(true, 128, "0").is_ok());
    assert_eq!(
        rejection(judge_first_row(false, 128, "0.500000")),
        (
            "attn_v3",
            "seq=128 row0 mismatch: max_err=0.500000 (expect ~V[0])".to_string()
        )
    );
}

#[test]
fn causal_attention_must_match_and_differ() {
    assert!(judge_causal_attention(0, true).is_ok());
    assert_eq!(
        rejection(judge_causal_attention(0, false)),
        (
            "attention_head",
            "causal_mismatches=0, causal_differs=false".to_string()
        )
    );
    assert_eq!(
        rejection(judge_causal_attention(2, true)).1,
        "causal_mismatches=2, causal_differs=true"
    );
}

#[test]
fn mask_hides_the_future() {
    assert!(may_attend(0, 0, true));
    assert!(!may_attend(0, 1, true));
    assert!(may_attend(3, 2, true));
    assert!(may_attend(0, 9, false));
}

#[test]
fn benchmark_table() {
    let sizes: Vec<(u32, &str)> =
        bench_sizes().iter().map(|s| (s.elements, s.label)).collect();
    assert_eq!(
        sizes,
        vec![
            (98304, "128x768 (LN output)"),
            (393216, "128x3072 (FFN hidden)"),
            (786432, "786432 (GPT-2 FFN)"),
            (4194304, "4M (large tensor)"),
        ]
    );
    assert_eq!(Elementwise::Sum.bytes_per_element(), 12);
    assert_eq!(Elementwise::Relu.bytes_per_element(), 8);
    assert_eq!(Elementwise::QuadGelu.label(), "gelu(V2 sigmoid)");
    assert_eq!(Elementwise::Sum.note(), "in-place");
    assert_eq!(Elementwise::Relu.note(), "bandwidth");
    assert_eq!(Elementwise::Silu.note(), "compute");
}

#[test]
fn lines_are_put_together() {
    let line = say("n=").dec(0).text(" m=").dec(18_446_744_073_709_551_615).text(" h=").hex(0xfe);
    assert_eq!(line.done(), "n=0 m=18446744073709551615 h=0xfe");
    let line = say("").pair(7).text("/").pair(12).text("/").pair(123).text(" ").flag(true);
    assert_eq!(line.done(), "07/12/123 true");
    assert_eq!(say("x ").list(&vec![1, 20, 3]).done(), "x [1, 20, 3]");
    assert_eq!(bracket(&Vec::new()), "[]");
    let parts = vec!["a".to_string(), "".to_string(), "b".to_string()];
    assert_eq!(join(&parts, "; "), "a; ; b");
    assert_eq!(join(&Vec::new(), "; "), "");
}

#[test]
fn failures_are_collected() {
    let mut failures = Vec::new();
    gate(&mut failures, true, "kept out".to_string());
    gate(&mut failures, false, "first".to_string());
    gate(&mut failures, false, "second".to_string());
    assert_eq!(failures, vec!["first".to_string(), "second".to_string()]);
}
