use gpu_test_harness::error::{FailureKind, HarnessError};
use gpu_test_harness::obstacle::{
    composed_mutation_name, composed_nonce, field, judge_composed_run, judge_reuse_run, EchoEvent,
    OracleVerdict, PoolAudit, ProcessingMetrics, ReuseWords, StressResults, RESULT_WORDS,
};
use gpu_test_harness::supervision::{
    judge_composed_launch, judge_obstacle_launch, judge_reuse_launch, judge_safety_launch, Buffers,
    LaunchEnd, LaunchFailure,
};

fn rejection<T>(result: Result<T, HarnessError>) -> (&'static str, String) {
    let error = result.err().unwrap();
    assert_eq!(error.kind, FailureKind::Verification);
    (error.test, error.detail)
}

fn passing_words() -> [u64; RESULT_WORDS] {
    let mut words = [0u64; RESULT_WORDS];
    words[field::VERSION] = 1;
    words[field::WORD_COUNT] = 48;
    words[field::PHASE] = 6;
    words[field::FRESH_ACTION] = 1;
    words[field::FRESH_REASON] = 1;
    words[field::FRESH_USED_GPU_RESULT] = 1;
    words[field::STALE_ACTION] = 2;
    words[field::STALE_REASON] = 2;
    words[field::DEADLINE_ACTION] = 2;
    words[field::DEADLINE_REASON] = 4;
    for flag in [
        field::RESERVED_PASS,
        field::FIRST_POLL_PASS,
        field::WAKER_PASS,
        field::LOW_EVENTUAL_PASS,
        field::POSITIVE_PASS,
        field::NEG_NO_MIDPOLL_PASS,
        field::DECISION_PASS,
        field::OVERALL_PASS,
    ] {
        words[flag] = 1;
    }
    words
}

#[test]
fn stress_run_passes() {
    let results = StressResults { words: passing_words() };
    assert!(results.verdict().is_ok());
    assert_eq!(results.get(field::DEADLINE_REASON), 4);
    assert_eq!(
        results.gate_summary(),
        "reserved=1 first_poll=1 waker=1 low_eventual=1 positive=1 no_midpoll=1 decisions=1 \
         overall=1"
    );
}

#[test]
fn stress_run_names_what_failed() {
    let mut words = passing_words();
    words[field::STALE_REASON] = 4;
    words[field::WAKER_PASS] = 0;
    assert_eq!(
        rejection(StressResults { words }.verdict()),
        (
            "obstacle_event_priority_stress",
            "semantic gate failed: schema_ok=true decisions_are_distinct=false; reserved=1 \
             first_poll=1 waker=0 low_eventual=1 positive=1 no_midpoll=1 decisions=1 overall=1"
                .to_string()
        )
    );
    let mut words = passing_words();
    words[field::PHASE] = 5;
    assert!(rejection(StressResults { words }.verdict())
        .1
        .starts_with("semantic gate failed: schema_ok=false decisions_are_distinct=true; "));
    let mut words = passing_words();
    words[field::OVERALL_PASS] = 0;
    assert!(StressResults { words }.verdict().is_err());
    assert!(StressResults { words: [0; RESULT_WORDS] }.verdict().is_err());
}

#[test]
fn mutations_have_names_and_nonces() {
    assert_eq!(composed_mutation_name(0), "positive typed High");
    assert_eq!(composed_mutation_name(5), "join replay evidence");
    assert_eq!(composed_mutation_name(6), "unknown mutation");
    assert_eq!(composed_nonce(0), 0xC05E_0000_0000_0001);
    assert_eq!(composed_nonce(5), 0xC05E_0000_0000_0006);
    assert_eq!(composed_nonce(u32::MAX), 0xC05E_0001_0000_0000);
}

#[test]
fn positive_run_must_pass() {
    assert!(judge_composed_run(0, &OracleVerdict::Pass, false).is_ok());
    let failures = vec!["a".to_string(), "b".to_string()];
    assert_eq!(
        rejection(judge_composed_run(0, &OracleVerdict::Fail(failures), true)),
        (
            "composed_priority_hostcall_e2e",
            "positive semantics FAIL: a; b".to_string()
        )
    );
    assert_eq!(
        rejection(judge_composed_run(0, &OracleVerdict::Unknown("?".to_string()), true)).1,
        "positive result UNKNOWN: ?"
    );
}

#[test]
fn faulty_run_must_fail_where_the_fault_is() {
    let fail = OracleVerdict::Fail(vec!["x".to_string()]);
    assert!(judge_composed_run(2, &fail, true).is_ok());
    assert_eq!(
        rejection(judge_composed_run(2, &fail, false)).1,
        "fault mutation 2 (wire priority downgrade) failed only unrelated gates; designated gate \
         stayed green: x"
    );
    assert_eq!(
        rejection(judge_composed_run(4, &OracleVerdict::Pass, true)).1,
        "fault mutation 4 (host forced error) survived independent oracle"
    );
    assert_eq!(
        rejection(judge_composed_run(3, &OracleVerdict::Unknown("gone".to_string()), true)).1,
        "fault mutation 3 (wire identity corruption) produced UNKNOWN, not a killed gate: gone"
    );
}

fn reuse_words() -> ReuseWords {
    ReuseWords {
        version: 1,
        first_nonce: 0xCA11_CE11,
        second_nonce: 0xCA11_CE22,
        first_packet_index: 1,
        first_error_category: 16,
        reacquire_busy_attempts: 3,
        second_packet_index: 1,
        second_echo_nonce: 0xCA11_CE22,
        second_response_packet_index: 1,
        second_pending_polls: 1,
        reuse_stale_write: 0,
        second_completed: 1,
        general_guard_packet_index: 0,
        reserved_0: 0,
        reserved_1: 0,
        kernel_error: 0,
    }
}

fn echo(ordinal: u64, nonce: u64, local_id: u64, error_category: u64) -> EchoEvent {
    EchoEvent {
        request_nonce: nonce,
        echo_nonce: nonce,
        packet_index: 1,
        generation: ordinal,
        task_id: (0x0B57_A11E << 32) | local_id,
        namespace: 0x0B57_A11E,
        local_id,
        priority: 2,
        shared_high_reserved: true,
        error_category,
        process_sequence: ordinal,
        process_count: 1,
    }
}

fn echoes() -> Vec<EchoEvent> {
    vec![echo(1, 0xCA11_CE11, 250, 16), echo(2, 0xCA11_CE22, 251, 0)]
}

const METRICS: ProcessingMetrics =
    ProcessingMetrics { cancelled: 1, completed: 1, errors: 0, stale_rejected: 0 };

const AUDIT: PoolAudit = PoolAudit {
    ready_empty: true,
    idle_packets: 2,
    general_mask: 1,
    shared_high_mask: 2,
    duplicate_entries: 0,
    missing_packets: 0,
    non_idle_controls: 0,
};

#[test]
fn reuse_of_a_reclaimed_packet() {
    assert!(judge_reuse_run(&reuse_words(), &echoes(), &METRICS, &AUDIT).is_ok());
    let mut events = echoes();
    events[0].error_category = 0;
    assert!(judge_reuse_run(&reuse_words(), &events, &METRICS, &AUDIT).is_ok());
    let mut words = reuse_words();
    words.reuse_stale_write = 1;
    assert_eq!(
        rejection(judge_reuse_run(&words, &echoes(), &METRICS, &AUDIT)),
        (
            "priority_echo_timeout_reuse",
            "timeout→host reclaim→same packet reuse/no-stale-write gate failed".to_string()
        )
    );
    let mut words = reuse_words();
    words.reacquire_busy_attempts = 0;
    assert!(judge_reuse_run(&words, &echoes(), &METRICS, &AUDIT).is_err());
    let mut events = echoes();
    events[1].generation = 1;
    assert!(judge_reuse_run(&reuse_words(), &events, &METRICS, &AUDIT).is_err());
    let mut events = echoes();
    events[1].error_category = 16;
    assert!(judge_reuse_run(&reuse_words(), &events, &METRICS, &AUDIT).is_err());
    let mut events = echoes();
    events.push(echo(3, 0xCA11_CE22, 251, 0));
    assert!(judge_reuse_run(&reuse_words(), &events, &METRICS, &AUDIT).is_err());
    let metrics = ProcessingMetrics { stale_rejected: 1, ..METRICS };
    assert!(judge_reuse_run(&reuse_words(), &echoes(), &metrics, &AUDIT).is_err());
    let audit = PoolAudit { missing_packets: 1, ..AUDIT };
    assert!(judge_reuse_run(&reuse_words(), &echoes(), &METRICS, &audit).is_err());
}

fn report(result: Result<(), LaunchFailure>) -> (FailureKind, &'static str, String, Buffers) {
    let failure = result.err().unwrap();
    (failure.error.kind, failure.error.test, failure.error.detail, failure.buffers)
}

#[test]
fn clean_reports_are_accepted() {
    let end = LaunchEnd::Reported { error: None, joined: true };
    assert!(judge_safety_launch(&end).is_ok());
    assert!(judge_obstacle_launch(&end).is_ok());
    assert!(judge_composed_launch(3, &end).is_ok());
    assert!(judge_reuse_launch(&end).is_ok());
}

#[test]
fn expired_launches_keep_their_buffers() {
    let end = LaunchEnd::Expired { phase: 4 };
    assert_eq!(
        report(judge_safety_launch(&end)),
        (
            FailureKind::Timeout,
            "priority_handle_safety_stress",
            "30s exceeded at phase=4; result=UNKNOWN, mapped buffers intentionally retained"
                .to_string(),
            Buffers::Retained
        )
    );
    assert_eq!(
        report(judge_obstacle_launch(&end)),
        (
            FailureKind::Timeout,
            "obstacle_event_priority_stress",
            "20s 内未完成，最后 phase=4；结果判定为 UNKNOWN，mapped buffers 保留至进程退出"
                .to_string(),
            Buffers::Retained
        )
    );
    assert_eq!(
        report(judge_composed_launch(2, &end)).2,
        "mutation=2 exceeded 30s; result=UNKNOWN, mappings intentionally retained"
    );
    let (kind, test, detail, buffers) = report(judge_reuse_launch(&end));
    assert_eq!((kind, test), (FailureKind::Timeout, "priority_echo_timeout_reuse"));
    assert_eq!(
        detail,
        "timeout/reclaim/reuse exceeded 30s; result=UNKNOWN, mapping retained"
    );
    assert_eq!(buffers, Buffers::Retained);
}

#[test]
fn failed_launches_are_reported() {
    let end = LaunchEnd::Reported { error: Some("boom".to_string()), joined: true };
    assert_eq!(
        report(judge_safety_launch(&end)),
        (
            FailureKind::Verification,
            "priority_handle_safety_stress",
            "launch/synchronize failed: boom; result=UNKNOWN".to_string(),
            Buffers::Released
        )
    );
    assert_eq!(
        report(judge_obstacle_launch(&end)).2,
        "CUDA launch/synchronize failed: boom; result=UNKNOWN"
    );
    assert_eq!(
        report(judge_composed_launch(1, &end)).2,
        "mutation=1 launch/synchronize failed: boom; result=UNKNOWN"
    );
    let gone = LaunchEnd::Disconnected { panicked: true };
    assert_eq!(
        report(judge_safety_launch(&gone)),
        (
            FailureKind::Verification,
            "priority_handle_safety_stress",
            "GPU launch thread disconnected (panicked=true); result=UNKNOWN, mapped buffers \
             intentionally retained"
                .to_string(),
            Buffers::Retained
        )
    );
    assert_eq!(
        report(judge_obstacle_launch(&gone)).2,
        "CUDA launch/synchronize failed: GPU launch thread disconnected; result=UNKNOWN"
    );
    let late = LaunchEnd::Reported { error: None, joined: false };
    assert_eq!(report(judge_safety_launch(&late)).3, Buffers::Retained);
    assert_eq!(
        report(judge_composed_launch(0, &late)).2,
        "mutation=0 launch thread panicked after status delivery; result=UNKNOWN"
    );
}
