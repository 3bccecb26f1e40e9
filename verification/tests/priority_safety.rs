use gpu_test_harness::priority_safety::{
    check_phase_three, evaluate, field, have_fitting_sums, judge_safety, SafetyResults,
    EXPECTED_RUNNER_MASK, MAX_TASKS, RESULT_WORDS,
};

#[test]
fn phase_three_oracle_rejects_default_zero() {
    let results = SafetyResults {
        words: [0; RESULT_WORDS],
    };
    let mut failures = Vec::new();
    check_phase_three(&results, 0, &mut failures);
    assert!(failures
        .iter()
        .any(|failure| failure.contains("donor spawn")));
    assert!(failures
        .iter()
        .any(|failure| failure.contains("first wait Cancelled")));
    assert!(failures
        .iter()
        .any(|failure| failure.contains("mapped token state")));
}

#[test]
fn phase_three_oracle_rejects_early_terminal_markers() {
    let mut words = [0; RESULT_WORDS];
    words[field::PHASE_THREE_ENTER_MASK] = EXPECTED_RUNNER_MASK;
    words[field::PHASE_THREE_EXIT_MASK] = EXPECTED_RUNNER_MASK;
    words[field::TOKEN_STATE_FINAL] = 2;
    words[field::FINAL_CAN_TEARDOWN] = 1;
    words[field::EVENT_SEQUENCE] = 6;
    words[field::TEARDOWN_SEQUENCE] = 6;
    let results = SafetyResults { words };
    let mut failures = Vec::new();
    check_phase_three(&results, 2, &mut failures);
    assert!(failures
        .iter()
        .any(|failure| failure.contains("target first Pending")));
    assert!(failures
        .iter()
        .any(|failure| failure.contains("second wait AlreadyJoined")));
    assert!(failures
        .iter()
        .any(|failure| failure.contains("drop sequence")));
}

/// The words of a run that is safe in every respect.
fn safe_words() -> [u64; RESULT_WORDS] {
    let mut words = [0u64; RESULT_WORDS];
    words[field::VERSION] = 3;
    words[field::WORDS] = RESULT_WORDS as u64;
    words[field::PHASE] = 7;
    words[field::EXPECTED_RUNNER_MASK] = EXPECTED_RUNNER_MASK;
    for mask in [
        field::PHASE_ONE_ENTER_MASK,
        field::PHASE_ONE_EXIT_MASK,
        field::PHASE_TWO_ENTER_MASK,
        field::PHASE_TWO_EXIT_MASK,
        field::PHASE_THREE_ENTER_MASK,
        field::PHASE_THREE_EXIT_MASK,
    ] {
        words[mask] = EXPECTED_RUNNER_MASK;
    }
    words[field::POLL_BLOCK_MASK] = 3;
    words[field::CAPTURE_BLOCK_MASK] = 2;
    words[field::OLD_SLOT] = 9;
    words[field::NEW_SLOT] = 9;
    words[field::OLD_GENERATION] = 4;
    words[field::REUSE_QUEUE_FULL_RETRIES] = 10;
    words[field::NEW_GENERATION] = 15;
    words[field::STORED_WAKER_ALIGN] = 16;
    words[field::STORED_WAKER_SIZE] = 48;
    for (index, value) in [
        (field::PIN_CONTEXT_REFS, 1),
        (field::PIN_PENDING_RECLAIMS, 1),
        (field::PIN_HIGH_SUCCESSES, 255),
        (field::PIN_NO_FREE_SLOTS, 1),
        (field::REUSE_SPAWN_OK, 1),
        (field::OLD_KEY_STALE, 1),
        (field::PHASE_ONE_SPAWNED, 257),
        (field::PHASE_ONE_COMPLETED, 257),
        (field::PHASE_TWO_SPAWN_SUCCESSES, 256),
        (field::TOTAL_SPAWNED, 515),
        (field::TOTAL_COMPLETED, 515),
        (field::SHUTDOWN_COMPLETE, 1),
        (field::WAKER_STATE_FINAL, 2),
        (field::HOLD_RELEASE, 1),
        (field::TERMINAL_WAKE_ACTIVE_BEFORE, 255),
        (field::TERMINAL_WAKE_ACTIVE_AFTER, 255),
        (field::TERMINAL_WAKE_COMPLETED_BEFORE, 1),
        (field::TERMINAL_WAKE_COMPLETED_AFTER, 1),
        (field::TERMINAL_WAKE_RECLAIMS_BEFORE, 1),
        (field::TERMINAL_WAKE_RECLAIMS_AFTER, 1),
        (field::TERMINAL_WAKE_SPAWNED_BEFORE, 256),
        (field::TERMINAL_WAKE_SPAWNED_AFTER, 256),
        (field::TOKEN_STATE_FINAL, 2),
        (field::DONOR_SPAWN_OK, 1),
        (field::DONOR_HANDLE_DROPPED, 1),
        (field::DONOR_TOKEN_PUBLISHED, 1),
        (field::TARGET_SPAWN_OK, 1),
        (field::TARGET_FIRST_POLLED, 1),
        (field::TARGET_SELF_WAKE_ISSUED, 1),
        (field::SHUTDOWN_REQUESTED, 1),
        (field::FIRST_WAIT_CANCELLED, 1),
        (field::SECOND_WAIT_ALREADY_JOINED, 1),
        (field::TOKEN_DROPPED, 1),
        (field::HANDLE_DROPPED, 1),
        (field::FINAL_SPAWNED, 515),
        (field::FINAL_COMPLETED, 515),
        (field::FINAL_CAN_TEARDOWN, 1),
        (field::PHASE_THREE_SPAWN_SUCCESSES, 2),
        (field::EVENT_SEQUENCE, 6),
        (field::FIRST_PENDING_SEQUENCE, 1),
        (field::SHUTDOWN_SEQUENCE, 2),
        (field::CANCELLED_SEQUENCE, 3),
        (field::ALREADY_JOINED_SEQUENCE, 4),
        (field::DROP_SEQUENCE, 5),
        (field::TEARDOWN_SEQUENCE, 6),
        (field::PRE_JOIN_PENDING_RECLAIMS, 2),
        (field::POST_JOIN_PENDING_RECLAIMS, 1),
        (field::STORED_TOKEN_ALIGN, 16),
        (field::STORED_TOKEN_SIZE, 64),
        (field::TARGET_POLL_COUNT, 1),
        (field::WAIT_POLL_ATTEMPTS, 3),
    ] {
        words[index] = value;
    }
    for runner in 1..8 {
        words[field::RUNNER_TASKS_BASE + runner] = 73;
        words[field::RUNNER_POLLS_BASE + runner] = 110;
    }
    words[field::RUNNER_TASKS_BASE + 1] += 514 - 7 * 73;
    for task in 0..MAX_TASKS as usize {
        words[field::TWO_POLL_COUNTS_BASE + task] = 2;
        words[field::TWO_COMPLETE_COUNTS_BASE + task] = 1;
    }
    words
}

fn complaint(index: usize, value: u64) -> String {
    let mut words = safe_words();
    words[index] = value;
    let results = SafetyResults { words };
    assert!(have_fitting_sums(&results));
    evaluate(&results, 2, 2).unwrap_err()
}

#[test]
fn safe_run_is_accepted() {
    let results = SafetyResults { words: safe_words() };
    assert!(have_fitting_sums(&results));
    assert_eq!(evaluate(&results, 2, 2), Ok(()));
    assert_eq!(results.get(field::OLD_SLOT), 9);
}

#[test]
fn mapped_states_are_reported() {
    let results = SafetyResults { words: safe_words() };
    assert_eq!(
        evaluate(&results, 1, 2),
        Err("mapped waker state=1 (expected 2)".to_string())
    );
    assert_eq!(
        evaluate(&results, 2, 0),
        Err("mapped token state=0 (expected 2)".to_string())
    );
    assert_eq!(
        evaluate(&results, 0, 1),
        Err("mapped waker state=0 (expected 2); mapped token state=1 (expected 2)".to_string())
    );
}

#[test]
fn single_words_are_reported() {
    assert_eq!(complaint(field::VERSION, 2), "schema version=2 (expected 3)");
    assert_eq!(complaint(field::WORDS, 7), "schema words=7 (expected 616)");
    assert_eq!(complaint(field::PHASE, 6), "terminal phase=6 (expected 7)");
    assert_eq!(complaint(field::KERNEL_ERROR, 12), "kernel error=12");
    assert_eq!(
        complaint(field::EXPECTED_RUNNER_MASK, 0xFF),
        "kernel runner mask=0xff (host expects 0xfe)"
    );
    assert_eq!(
        complaint(field::PHASE_TWO_EXIT_MASK, 0x7E),
        "phase2 exit mask=0x7e (expected 0xfe)"
    );
    assert_eq!(
        complaint(field::POLL_BLOCK_MASK, 1),
        "poll block mask=0x1 (expected 0x3)"
    );
    assert_eq!(complaint(field::CAPTURE_BLOCK_MASK, 0), "capture block mask=0x0");
    assert_eq!(complaint(field::CAPTURE_BLOCK_MASK, 4), "capture block mask=0x4");
    assert_eq!(
        complaint(field::PIN_ACTIVE_TASKS, 5),
        "pinned active tasks=5 (expected 0)"
    );
    assert_eq!(
        complaint(field::STORED_WAKER_SIZE, 40),
        "StoredWaker size=40 exceeds/alignment-mismatches 64 bytes"
    );
    assert_eq!(
        complaint(field::STORED_WAKER_SIZE, 80),
        "StoredWaker size=80 exceeds/alignment-mismatches 64 bytes"
    );
    assert_eq!(
        complaint(field::STORED_TOKEN_ALIGN, 8),
        "StoredToken align=8 (expected 16)"
    );
    assert_eq!(
        complaint(field::WAIT_POLL_ATTEMPTS, 1_000_001),
        "typed wait poll attempts=1000001 (expected 1..=1000000)"
    );
    assert_eq!(
        complaint(field::TARGET_POLL_COUNT, 0),
        "target poll count=0 (minimum 1)"
    );
    assert_eq!(complaint(62, 8), "reserved words 62..64 are [8, 0]");
}

#[test]
fn reuse_is_reported() {
    assert_eq!(complaint(field::NEW_SLOT, 8), "slot reuse old=9 new=8");
    assert_eq!(
        complaint(field::NEW_GENERATION, 14),
        "generation reuse old=4 retries=10 new=14"
    );
    assert_eq!(
        complaint(field::OLD_GENERATION, u64::MAX),
        "generation reuse old=18446744073709551615 retries=10 new=15"
    );
    let mut words = safe_words();
    words[field::REUSE_QUEUE_FULL_RETRIES] = 65_537;
    words[field::NEW_GENERATION] = 65_542;
    assert_eq!(
        evaluate(&SafetyResults { words }, 2, 2),
        Err("QueueFull retries=65537 (maximum 65536)".to_string())
    );
}

#[test]
fn a_task_that_is_polled_once_is_named() {
    assert_eq!(
        complaint(field::TWO_POLL_COUNTS_BASE + 17, 1),
        "task 17: polls=1, completions=1; two-poll sums polls=511, completions=256"
    );
    assert_eq!(
        complaint(field::TWO_COMPLETE_COUNTS_BASE + 255, 2),
        "task 255: polls=2, completions=2; two-poll sums polls=512, completions=257"
    );
}

#[test]
fn runner_sums_are_reported() {
    assert_eq!(
        complaint(field::RUNNER_TASKS_BASE + 3, 74),
        "runner task sum=515 (expected 514)"
    );
    assert_eq!(
        complaint(field::RUNNER_TASKS_BASE, 1),
        "runner task sum=515 (expected 514)"
    );
    assert_eq!(
        complaint(field::RUNNER_POLLS_BASE + 7, 108),
        "runner poll sum=768 (minimum 769)"
    );
}

#[test]
fn shutdown_events_out_of_order_are_rejected() {
    let mut words = safe_words();
    words[field::SHUTDOWN_SEQUENCE] = 3;
    words[field::CANCELLED_SEQUENCE] = 2;
    assert_eq!(
        evaluate(&SafetyResults { words }, 2, 2),
        Err("shutdown sequence=3 (expected 2); Cancelled sequence=2 (expected 3)".to_string())
    );
}

#[test]
fn reclaims_that_stay_are_rejected() {
    assert_eq!(
        complaint(field::POST_DROP_PENDING_RECLAIMS, 1),
        "post-drop pending reclaims=1 (expected 0)"
    );
}

#[test]
fn untouched_words_are_rejected() {
    let results = SafetyResults { words: [0; RESULT_WORDS] };
    assert!(evaluate(&results, 2, 2)
        .unwrap_err()
        .starts_with("schema version=0 (expected 3); schema words=0 (expected 616)"));
}

#[test]
fn sums_beyond_a_word_are_noticed() {
    let mut words = safe_words();
    words[field::RUNNER_POLLS_BASE + 1] = u64::MAX;
    assert!(!have_fitting_sums(&SafetyResults { words }));
    words[field::RUNNER_POLLS_BASE + 1] = 110;
    words[field::TWO_POLL_COUNTS_BASE] = u64::MAX;
    assert!(!have_fitting_sums(&SafetyResults { words }));
}

#[test]
fn safety_runs_are_judged() {
    let mut words = safe_words();
    assert!(judge_safety(&SafetyResults { words }, 2, 2).is_ok());
    let error = judge_safety(&SafetyResults { words }, 0, 1).err().unwrap();
    assert_eq!(
        (error.test, error.detail.as_str()),
        (
            "priority_handle_safety_stress",
            "mapped waker state=0 (expected 2); mapped token state=1 (expected 2)"
        )
    );
    for place in [
        field::AFTER_DROP_CONTEXT_REFS,
        field::PRE_JOIN_CONTEXT_REFS,
        field::POST_JOIN_CONTEXT_REFS,
        field::POST_DROP_CONTEXT_REFS,
    ] {
        words[place] = 77;
    }
    assert!(judge_safety(&SafetyResults { words }, 2, 2).is_ok());
}
