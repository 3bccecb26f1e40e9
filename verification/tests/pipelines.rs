use gpu_test_harness::error::HarnessError;
use gpu_test_harness::pipelines::{
    examine_creation, examine_mode, examine_overlap, examine_transform, examine_written,
    find_unexpected, grep_complete, grep_text, judge_buffered, judge_bulk, judge_creation,
    judge_existence, judge_overlap, judge_panic, judge_shards, judge_transform, judge_warp,
    low_words, repeat_text, same_bytes, toggle_case, transform_input, Mode, OverlapFindings,
};

fn strings(texts: &[&str]) -> Vec<String> {
    texts.iter().map(|t| t.to_string()).collect()
}

fn rejection<T>(result: Result<T, HarnessError>) -> (&'static str, String) {
    let error = result.err().unwrap();
    (error.test, error.detail)
}

#[test]
fn transform_input_repeats_its_pattern() {
    let input = transform_input();
    assert_eq!(input.len(), 1024);
    assert!(input.starts_with(b"Hello, GPU Pipeline! Hello, GPU"));
    assert!(input.ends_with(b"Hello, GPU Pipel"));
    assert_eq!(repeat_text("ab", 5), b"ababa".to_vec());
    assert_eq!(repeat_text("ab", 0), Vec::<u8>::new());
}

#[test]
fn case_is_toggled_and_restored() {
    let bytes = b"Hello, @[`{ GPU 2024!\xff".to_vec();
    let toggled = toggle_case(&bytes);
    assert_eq!(toggled, b"hELLO, @[`{ gpu 2024!\xff".to_vec());
    assert_eq!(toggle_case(&toggled), bytes);
    assert!(same_bytes(&bytes, &bytes.clone()));
    assert!(!same_bytes(&bytes, &toggled));
    assert!(!same_bytes(&bytes, &bytes[1..].to_vec()));
}

#[test]
fn transform_is_judged_by_content_and_message() {
    let input = b"aB1".to_vec();
    let messages = strings(&["pipeline: done"]);
    let good = examine_transform(&input, &b"Ab1".to_vec(), &messages);
    assert!(good.content_ok && good.message_ok);
    assert!(judge_transform(1, good).is_ok());
    assert_eq!(
        rejection(judge_transform(0, good)),
        ("file_transform_pipeline", "see above".to_string())
    );
    let same = examine_transform(&input, &input, &messages);
    assert!(!same.content_ok);
    assert!(judge_transform(1, same).is_err());
    let quiet = examine_transform(&input, &b"Ab1".to_vec(), &Vec::new());
    assert!(!quiet.message_ok);
    assert!(judge_transform(1, quiet).is_err());
}

#[test]
fn bulk_and_shards() {
    assert!(judge_bulk(1, 4096, 4096, 1).is_ok());
    assert_eq!(
        rejection(judge_bulk(0, 4096, 12, 0)),
        (
            "bulk_io_test",
            "overall=0, written=4096, read=12, match=0".to_string()
        )
    );
    assert!(judge_shards(4, 4, 4).is_ok());
    assert_eq!(
        rejection(judge_shards(4, 3, 9)),
        (
            "sharded_hostcall",
            "expected 4 successes, got 3".to_string()
        )
    );
    assert_eq!(rejection(judge_shards(4, 4, 5)).1, "expected 4 messages, got 5");
}

#[test]
fn grep_text_has_the_word_in_four_of_eight_lines() {
    let lines: Vec<&str> = grep_text().lines().collect();
    assert_eq!(lines.len(), 8);
    assert_eq!(lines.iter().filter(|l| l.contains("GPU")).count(), 4);
    assert_eq!(grep_text().matches("GPU").count(), 4);
    assert!(grep_text().ends_with('\n'));
    assert_eq!(low_words(&vec![4, 0x1_0000_0003, u64::MAX]), vec![4, 3, u32::MAX]);
    assert!(grep_complete(16, 4));
    assert!(!grep_complete(15, 4));
}

#[test]
fn creating_branch() {
    let messages = strings(&["branch: file created"]);
    let good = examine_creation(&messages, true, &Some(b"hello from GPU\n".to_vec()));
    assert!(good.created_msg && good.file_exists && good.content_ok);
    assert!(judge_creation(1, good).is_ok());
    assert_eq!(
        rejection(judge_creation(2, good)),
        (
            "branching_pipeline_run1",
            "CREATE branch failed".to_string()
        )
    );
    let wrong = examine_creation(&messages, true, &Some(b"hello".to_vec()));
    assert!(!wrong.content_ok);
    assert!(judge_creation(1, wrong).is_err());
    let missing = examine_creation(&messages, false, &None);
    assert!(!missing.content_ok && !missing.file_exists);
    assert!(judge_creation(1, missing).is_err());
    assert!(!examine_creation(&Vec::new(), true, &None).created_msg);
}

#[test]
fn finding_branch() {
    assert!(judge_existence(1, &strings(&["branch: file exists"])).is_ok());
    assert_eq!(
        rejection(judge_existence(1, &strings(&["branch: file created"]))),
        (
            "branching_pipeline_run2",
            "EXISTS branch failed".to_string()
        )
    );
    assert!(judge_existence(0, &strings(&["branch: file exists"])).is_err());
}

#[test]
fn overlap_states_its_iterations() {
    let messages = strings(&[
        "pipelined: start",
        "pipelined: computing...",
        "pipelined: done 812iter",
        "pipelined: done 9iter",
    ]);
    let findings = examine_overlap(&messages);
    assert_eq!(
        findings,
        OverlapFindings { start: true, computing: true, iterations: 812 }
    );
    assert!(judge_overlap(1, findings).is_ok());
    let findings = examine_overlap(&strings(&["pipelined: done iter"]));
    assert_eq!(
        findings,
        OverlapFindings { start: false, computing: false, iterations: 0 }
    );
    assert_eq!(
        rejection(judge_overlap(1, findings)),
        (
            "pipelined_compute",
            "Pipelined I/O + compute failed".to_string()
        )
    );
}

#[test]
fn warp_of_executors() {
    assert!(judge_warp(32, 40).is_ok());
    assert_eq!(
        rejection(judge_warp(31, 40)),
        (
            "warp_scale_async_kernel",
            "only 31/32 threads completed".to_string()
        )
    );
    assert_eq!(
        rejection(judge_warp(32, 31)).1,
        "only 31 messages, expected 32"
    );
}

#[test]
fn autonomous_modes() {
    let all = strings(&[
        "auto: start",
        "auto: file-written",
        "auto: large-payload",
        "auto: roundtrip-ok",
        "auto: done",
    ]);
    for mode in [Mode::Write, Mode::Classify, Mode::RoundTrip] {
        assert_eq!(examine_mode(mode, 1, &all), None);
    }
    assert_eq!(
        examine_mode(Mode::Write, 0, &all),
        Some("Mode 0: kernel should succeed")
    );
    assert_eq!(
        examine_mode(Mode::Write, 1, &strings(&["auto: start"])),
        Some("Mode 0: should see file-written")
    );
    assert_eq!(
        examine_mode(Mode::Write, 1, &Vec::new()),
        Some("Mode 0: should see init message")
    );
    assert_eq!(
        examine_mode(Mode::Classify, 1, &strings(&["auto: done"])),
        Some("Mode 1: should detect large payload (21 bytes > 10)")
    );
    assert_eq!(
        examine_mode(Mode::RoundTrip, 1, &strings(&["auto: roundtrip-ok"])),
        Some("Mode 2: should see done message")
    );
    assert_eq!(
        examine_mode(Mode::RoundTrip, 1, &Vec::new()),
        Some("Mode 2: roundtrip should verify successfully")
    );
    assert_eq!(examine_written(&b"GPU-autonomous-output".to_vec()), None);
    assert_eq!(
        examine_written(&b"GPU-autonomous-output\n".to_vec()),
        Some("Mode 0: file content mismatch")
    );
}

#[test]
fn buffered_printing() {
    assert!(judge_buffered(1, 12).is_ok());
    assert_eq!(
        rejection(judge_buffered(0, 12)),
        (
            "buffered_print_test",
            "kernel returned 0, expected 1".to_string()
        )
    );
    assert_eq!(
        rejection(judge_buffered(1, 11)).1,
        "expected 12 messages, got 11"
    );
    let mut messages: Vec<String> = (0..12).map(|i| format!("Buffered msg {i:02}")).collect();
    assert_eq!(find_unexpected(&messages), Vec::<usize>::new());
    messages[3] = "Buffered msg 3".to_string();
    messages.swap(10, 11);
    assert_eq!(find_unexpected(&messages), vec![3, 10, 11]);
}

#[test]
fn panics_are_judged_by_their_marker() {
    assert!(judge_panic(1).is_ok());
    for marker in [0, 2, u32::MAX] {
        assert_eq!(
            rejection(judge_panic(marker)),
            ("panic_test", format!("marker was {marker} (expected 1)"))
        );
    }
}
