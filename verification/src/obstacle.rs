//! Verdicts on the obstacle-event priority runs.
//!
//! The stress kernel reports 48 words; the composed runs combine typed priority
//! with the host-call protocol, once as it should be and five times with a fault
//! put in, and end with a run that times out, reclaims and reuses a packet.
use vstd::prelude::*;
use crate::error::{rejected, reported, Failure, HarnessError};
use crate::text::{decimal, join, joined, say, texts, truth, Line};

pub mod field;

verus! {

/// Number of words in the result buffer.
pub const RESULT_WORDS: usize = 48;

/// Bytes of an executor's mapped storage.
pub const EXECUTOR_BYTES: usize = 524288;

/// Seconds the stress kernel may take.
pub const KERNEL_TIMEOUT_SECONDS: u64 = 20;

pub const ACTION_APPLY_BRAKE_FROM_FRESH_RESULT: u64 = 1;

pub const ACTION_WATCHDOG_CONSERVATIVE_STOP: u64 = 2;

pub const REASON_FRESH_HAZARD: u64 = 1;

pub const REASON_STALE_RESULT: u64 = 2;

pub const REASON_DEADLINE_MISS: u64 = 4;

/// The words that the stress kernel left.
#[derive(Clone, Copy)]
pub struct StressResults {
    pub words: [u64; RESULT_WORDS],
}

impl View for StressResults {
    type V = Seq<u64>;

    open spec fn view(&self) -> Seq<u64> {
        self.words@
    }
}

/// The summary of the pass flags.
pub open spec fn gate_summary_text(words: Seq<u64>) -> Seq<char> {
    "reserved="@ + decimal(words[field::RESERVED_PASS as int] as nat) + " first_poll="@ + decimal(
        words[field::FIRST_POLL_PASS as int] as nat,
    ) + " waker="@ + decimal(words[field::WAKER_PASS as int] as nat) + " low_eventual="@
        + decimal(words[field::LOW_EVENTUAL_PASS as int] as nat) + " positive="@ + decimal(
        words[field::POSITIVE_PASS as int] as nat,
    ) + " no_midpoll="@ + decimal(words[field::NEG_NO_MIDPOLL_PASS as int] as nat)
        + " decisions="@ + decimal(words[field::DECISION_PASS as int] as nat) + " overall="@
        + decimal(words[field::OVERALL_PASS as int] as nat)
}

/// The words have the layout that the host reads, and the kernel came to its last
/// phase.
pub open spec fn schema_ok(words: Seq<u64>) -> bool {
    &&& words[field::VERSION as int] == 1
    &&& words[field::WORD_COUNT as int] == RESULT_WORDS
    &&& words[field::PHASE as int] == 6
}

/// A fresh result is acted upon; a stale one and a missed deadline both lead to
/// the watchdog's stop, each for its own reason and without the GPU's result.
pub open spec fn decisions_are_distinct(words: Seq<u64>) -> bool {
    &&& words[field::FRESH_ACTION as int] == ACTION_APPLY_BRAKE_FROM_FRESH_RESULT
    &&& words[field::FRESH_REASON as int] == REASON_FRESH_HAZARD
    &&& words[field::FRESH_USED_GPU_RESULT as int] == 1
    &&& words[field::STALE_ACTION as int] == ACTION_WATCHDOG_CONSERVATIVE_STOP
    &&& words[field::STALE_REASON as int] == REASON_STALE_RESULT
    &&& words[field::STALE_USED_GPU_RESULT as int] == 0
    &&& words[field::DEADLINE_ACTION as int] == ACTION_WATCHDOG_CONSERVATIVE_STOP
    &&& words[field::DEADLINE_REASON as int] == REASON_DEADLINE_MISS
    &&& words[field::DEADLINE_USED_GPU_RESULT as int] == 0
}

/// What the words of the stress kernel come to.
pub open spec fn stress_failure(words: Seq<u64>) -> Option<Failure> {
    if schema_ok(words) && decisions_are_distinct(words) && words[field::OVERALL_PASS as int] == 1 {
        None
    } else {
        Some(
            rejected(
                "obstacle_event_priority_stress"@,
                "semantic gate failed: schema_ok="@ + truth(schema_ok(words))
                    + " decisions_are_distinct="@ + truth(decisions_are_distinct(words)) + "; "@
                    + gate_summary_text(words),
            ),
        )
    }
}

impl StressResults {
    /// The word of the given field.
    pub fn get(&self, field: usize) -> (word: u64)
        requires
            field < RESULT_WORDS,
        ensures
            word == self@[field as int],
    {
        self.words[field]
    }

    /// The pass flags in one line.
    pub fn gate_summary(&self) -> (summary: String)
        ensures
            summary@ == gate_summary_text(self@),
    {
        say("reserved=").dec(self.get(field::RESERVED_PASS)).text(" first_poll=").dec(
            self.get(field::FIRST_POLL_PASS),
        ).text(" waker=").dec(self.get(field::WAKER_PASS)).text(" low_eventual=").dec(
            self.get(field::LOW_EVENTUAL_PASS),
        ).text(" positive=").dec(self.get(field::POSITIVE_PASS)).text(" no_midpoll=").dec(
            self.get(field::NEG_NO_MIDPOLL_PASS),
        ).text(" decisions=").dec(self.get(field::DECISION_PASS)).text(" overall=").dec(
            self.get(field::OVERALL_PASS),
        ).done()
    }

    /// Decides whether the stress run passed.
    pub fn verdict(&self) -> (result: Result<(), HarnessError>)
        ensures
            reported(result) == stress_failure(self@),
    {
        let layout: bool = self.get(field::VERSION) == 1 && self.get(field::WORD_COUNT)
            == RESULT_WORDS as u64 && self.get(field::PHASE) == 6;
        let decisions: bool = self.get(field::FRESH_ACTION) == ACTION_APPLY_BRAKE_FROM_FRESH_RESULT
            && self.get(field::FRESH_REASON) == REASON_FRESH_HAZARD && self.get(
            field::FRESH_USED_GPU_RESULT,
        ) == 1 && self.get(field::STALE_ACTION) == ACTION_WATCHDOG_CONSERVATIVE_STOP && self.get(
            field::STALE_REASON,
        ) == REASON_STALE_RESULT && self.get(field::STALE_USED_GPU_RESULT) == 0 && self.get(
            field::DEADLINE_ACTION,
        ) == ACTION_WATCHDOG_CONSERVATIVE_STOP && self.get(field::DEADLINE_REASON)
            == REASON_DEADLINE_MISS && self.get(field::DEADLINE_USED_GPU_RESULT) == 0;
        if !layout || !decisions || self.get(field::OVERALL_PASS) != 1 {
            let summary: String = self.gate_summary();
            return Err(
                HarnessError::verification(
                    "obstacle_event_priority_stress",
                    say("semantic gate failed: schema_ok=").flag(layout).text(
                        " decisions_are_distinct=",
                    ).flag(decisions).text("; ").text(summary.as_str()),
                ),
            );
        }
        Ok(())
    }
}

/// Seconds a composed run may take.
pub const COMPOSED_TIMEOUT_SECONDS: u64 = 30;

/// Bytes of a mapped completion record.
pub const COMPLETION_BYTES: usize = 64;

/// Number of composed runs: one as it should be and five with a fault.
pub const COMPOSED_RUNS: u32 = 6;

/// The mutation in which the host forces an error.
pub const FORCED_ERROR_MUTATION: u32 = 4;

/// What is said of a mutation.
pub open spec fn mutation_text(mutation: u32) -> Seq<char> {
    if mutation == 0 {
        "positive typed High"@
    } else if mutation == 1 {
        "isolated raw substitution (High admission, then Normal FIFO requeue)"@
    } else if mutation == 2 {
        "wire priority downgrade"@
    } else if mutation == 3 {
        "wire identity corruption"@
    } else if mutation == 4 {
        "host forced error"@
    } else if mutation == 5 {
        "join replay evidence"@
    } else {
        "unknown mutation"@
    }
}

/// The name of a mutation of the composed run.
pub fn composed_mutation_name(mutation: u32) -> (name: &'static str)
    ensures
        name@ == mutation_text(mutation),
{
    match mutation {
        0 => "positive typed High",
        1 => "isolated raw substitution (High admission, then Normal FIFO requeue)",
        2 => "wire priority downgrade",
        3 => "wire identity corruption",
        4 => "host forced error",
        5 => "join replay evidence",
        _ => "unknown mutation",
    }
}

/// The nonce of a composed run.
pub open spec fn composed_nonce_value(mutation: u32) -> int {
    0xC05E_0000_0000_0000 + mutation + 1
}

/// The nonce that marks the requests of a composed run.
pub fn composed_nonce(mutation: u32) -> (nonce: u64)
    ensures
        nonce == composed_nonce_value(mutation),
{
    let low: u64 = mutation as u64 + 1;
    assert(0xC05E_0000_0000_0000u64 | low == 0xC05E_0000_0000_0000u64 + low) by (bit_vector)
        requires
            low <= 0x1_0000_0000,
    ;
    0xC05E_0000_0000_0000 | low
}

/// No two composed runs share a nonce.
pub proof fn composed_nonces_differ(first: u32, second: u32)
    ensures
        composed_nonce_value(first) == composed_nonce_value(second) <==> first == second,
{
}

/// What an independent oracle says of a composed run.
pub enum OracleVerdict {
    Pass,
    Fail(Vec<String>),
    Unknown(String),
}

/// What becomes of a composed run with this verdict. `red` says whether the
/// condition that the mutation is meant to break is broken.
pub open spec fn composed_failure(mutation: u32, verdict: OracleVerdict, red: bool) -> Option<
    Failure,
> {
    let test = "composed_priority_hostcall_e2e"@;
    let fault = "fault mutation "@ + decimal(mutation as nat) + " ("@ + mutation_text(mutation);
    if mutation == 0 {
        match verdict {
            OracleVerdict::Pass => None,
            OracleVerdict::Fail(failures) => Some(
                rejected(
                    test,
                    "positive semantics FAIL: "@ + joined(texts(failures@), "; "@),
                ),
            ),
            OracleVerdict::Unknown(detail) => Some(
                rejected(test, "positive result UNKNOWN: "@ + detail@),
            ),
        }
    } else {
        match verdict {
            OracleVerdict::Fail(failures) => if red {
                None
            } else {
                Some(
                    rejected(
                        test,
                        fault + ") failed only unrelated gates; designated gate stayed green: "@
                            + joined(texts(failures@), "; "@),
                    ),
                )
            },
            OracleVerdict::Pass => Some(
                rejected(test, fault + ") survived independent oracle"@),
            ),
            OracleVerdict::Unknown(detail) => Some(
                rejected(test, fault + ") produced UNKNOWN, not a killed gate: "@ + detail@),
            ),
        }
    }
}

/// Judges a composed run by the oracle's verdict on it.
pub fn judge_composed_run(
    mutation: u32,
    verdict: &OracleVerdict,
    designated_gate_red: bool,
) -> (result: Result<(), HarnessError>)
    ensures
        reported(result) == composed_failure(mutation, *verdict, designated_gate_red),
{
    let test: &'static str = "composed_priority_hostcall_e2e";
    if mutation == 0 {
        return match verdict {
            OracleVerdict::Pass => Ok(()),
            OracleVerdict::Fail(failures) => {
                let list: String = join(failures, "; ");
                Err(
                    HarnessError::verification(
                        test,
                        say("positive semantics FAIL: ").text(list.as_str()),
                    ),
                )
            },
            OracleVerdict::Unknown(detail) => Err(
                HarnessError::verification(
                    test,
                    say("positive result UNKNOWN: ").text(detail.as_str()),
                ),
            ),
        };
    }
    let fault: Line = say("fault mutation ").dec(mutation as u64).text(" (").text(
        composed_mutation_name(mutation),
    );
    match verdict {
        OracleVerdict::Fail(failures) => {
            if designated_gate_red {
                return Ok(());
            }
            let list: String = join(failures, "; ");
            Err(
                HarnessError::verification(
                    test,
                    fault.text(
                        ") failed only unrelated gates; designated gate stayed green: ",
                    ).text(list.as_str()),
                ),
            )
        },
        OracleVerdict::Pass => Err(
            HarnessError::verification(test, fault.text(") survived independent oracle")),
        ),
        OracleVerdict::Unknown(detail) => Err(
            HarnessError::verification(
                test,
                fault.text(") produced UNKNOWN, not a killed gate: ").text(detail.as_str()),
            ),
        ),
    }
}

/// A run without a fault counts only if the oracle passes it; a run with a fault
/// only if the oracle fails it where the fault is meant to show.
pub proof fn composed_run_counts_only_if_decided(
    mutation: u32,
    verdict: OracleVerdict,
    red: bool,
)
    ensures
        composed_failure(mutation, verdict, red) is None <==> (if mutation == 0 {
            verdict is Pass
        } else {
            verdict is Fail && red
        }),
{
}

pub const HOST_TIMEOUT_ERROR_CATEGORY: u64 = 16;

pub const COMPOSED_NAMESPACE: u64 = 0x0B57_A11E;

pub const TIMEOUT_FIRST_LOCAL_ID: u64 = 250;

pub const TIMEOUT_SECOND_LOCAL_ID: u64 = 251;

pub const EXPECTED_REUSE_SCHEMA_VERSION: u64 = 1;

pub const EXPECTED_PRIORITY_HIGH: u64 = 2;

/// Nonce of the request that times out.
pub const REUSE_FIRST_NONCE: u64 = 0xCA11_CE11;

/// Nonce of the request that takes the reclaimed packet.
pub const REUSE_SECOND_NONCE: u64 = 0xCA11_CE22;

/// The words of the timeout and reuse kernel.
#[derive(Clone, Copy)]
pub struct ReuseWords {
    pub version: u64,
    pub first_nonce: u64,
    pub second_nonce: u64,
    pub first_packet_index: u64,
    pub first_error_category: u64,
    pub reacquire_busy_attempts: u64,
    pub second_packet_index: u64,
    pub second_echo_nonce: u64,
    pub second_response_packet_index: u64,
    pub second_pending_polls: u64,
    pub reuse_stale_write: u64,
    pub second_completed: u64,
    pub general_guard_packet_index: u64,
    pub reserved_0: u64,
    pub reserved_1: u64,
    pub kernel_error: u64,
}

/// An echo request as the host processed it.
#[derive(Clone, Copy)]
pub struct EchoEvent {
    pub request_nonce: u64,
    pub echo_nonce: u64,
    pub packet_index: u64,
    pub generation: u64,
    pub task_id: u64,
    pub namespace: u64,
    pub local_id: u64,
    pub priority: u64,
    pub shared_high_reserved: bool,
    pub error_category: u64,
    pub process_sequence: u64,
    pub process_count: u64,
}

/// What the host counted while it processed requests.
#[derive(Clone, Copy)]
pub struct ProcessingMetrics {
    pub cancelled: u64,
    pub completed: u64,
    pub errors: u64,
    pub stale_rejected: u64,
}

/// The packet pool once everything has come to rest.
#[derive(Clone, Copy)]
pub struct PoolAudit {
    pub ready_empty: bool,
    pub idle_packets: u64,
    pub general_mask: u64,
    pub shared_high_mask: u64,
    pub duplicate_entries: u64,
    pub missing_packets: u64,
    pub non_idle_controls: u64,
}

/// The event is the `ordinal`-th use of the reserved packet, by the request with
/// this nonce and local identity.
pub open spec fn is_echo(event: EchoEvent, ordinal: u64, nonce: u64, local_id: u64) -> bool {
    &&& event.request_nonce == nonce
    &&& event.echo_nonce == nonce
    &&& event.packet_index == 1
    &&& event.generation == ordinal
    &&& event.task_id == COMPOSED_NAMESPACE * 0x1_0000_0000 + local_id
    &&& event.namespace == COMPOSED_NAMESPACE
    &&& event.local_id == local_id
    &&& event.priority == EXPECTED_PRIORITY_HIGH
    &&& event.shared_high_reserved
    &&& event.process_sequence == ordinal
    &&& event.process_count == 1
}

/// The words of a run in which the first request timed out and the second one
/// took over its packet, undisturbed by late writes.
pub open spec fn reuse_words_hold(words: ReuseWords) -> bool {
    &&& words.version == EXPECTED_REUSE_SCHEMA_VERSION
    &&& words.first_nonce == REUSE_FIRST_NONCE
    &&& words.second_nonce == REUSE_SECOND_NONCE
    &&& words.first_packet_index == 1
    &&& words.first_error_category == HOST_TIMEOUT_ERROR_CATEGORY
    &&& words.reacquire_busy_attempts >= 1
    &&& words.second_packet_index == 1
    &&& words.second_echo_nonce == REUSE_SECOND_NONCE
    &&& words.second_response_packet_index == 1
    &&& words.second_pending_polls >= 1
    &&& words.reuse_stale_write == 0
    &&& words.second_completed == 1
    &&& words.general_guard_packet_index == 0
    &&& words.reserved_0 == 0
    &&& words.reserved_1 == 0
    &&& words.kernel_error == 0
}

/// The host saw exactly two requests on the same packet, the second one a
/// generation later and without an error.
pub open spec fn echo_chain_holds(events: Seq<EchoEvent>) -> bool {
    &&& events.len() == 2
    &&& is_echo(events[0], 1, REUSE_FIRST_NONCE, TIMEOUT_FIRST_LOCAL_ID)
    &&& is_echo(events[1], 2, REUSE_SECOND_NONCE, TIMEOUT_SECOND_LOCAL_ID)
    &&& events[0].error_category == 0 || events[0].error_category == HOST_TIMEOUT_ERROR_CATEGORY
    &&& events[1].error_category == 0
}

/// One request was cancelled, one completed, and both packets came back to rest.
pub open spec fn pool_settled(metrics: ProcessingMetrics, audit: PoolAudit) -> bool {
    &&& metrics == (ProcessingMetrics { cancelled: 1, completed: 1, errors: 0, stale_rejected: 0 })
    &&& audit == (PoolAudit {
        ready_empty: true,
        idle_packets: 2,
        general_mask: 1,
        shared_high_mask: 2,
        duplicate_entries: 0,
        missing_packets: 0,
        non_idle_controls: 0,
    })
}

/// What the timeout and reuse run comes to.
pub open spec fn reuse_failure(
    words: ReuseWords,
    events: Seq<EchoEvent>,
    metrics: ProcessingMetrics,
    audit: PoolAudit,
) -> Option<Failure> {
    if reuse_words_hold(words) && echo_chain_holds(events) && pool_settled(metrics, audit) {
        None
    } else {
        Some(
            rejected(
                "priority_echo_timeout_reuse"@,
                "timeout→host reclaim→same packet reuse/no-stale-write gate failed"@,
            ),
        )
    }
}

fn check_reuse_words(words: &ReuseWords) -> (holds: bool)
    ensures
        holds == reuse_words_hold(*words),
{
    words.version == EXPECTED_REUSE_SCHEMA_VERSION && words.first_nonce == REUSE_FIRST_NONCE
        && words.second_nonce == REUSE_SECOND_NONCE && words.first_packet_index == 1
        && words.first_error_category == HOST_TIMEOUT_ERROR_CATEGORY
        && words.reacquire_busy_attempts >= 1 && words.second_packet_index == 1
        && words.second_echo_nonce == REUSE_SECOND_NONCE && words.second_response_packet_index == 1
        && words.second_pending_polls >= 1 && words.reuse_stale_write == 0
        && words.second_completed == 1 && words.general_guard_packet_index == 0
        && words.reserved_0 == 0 && words.reserved_1 == 0 && words.kernel_error == 0
}

fn check_echo(event: &EchoEvent, ordinal: u64, nonce: u64, local_id: u64) -> (holds: bool)
    requires
        local_id < 0x1_0000_0000,
    ensures
        holds == is_echo(*event, ordinal, nonce, local_id),
{
    assert((0x0B57_A11Eu64 << 32u64) | local_id == 0x0B57_A11Eu64 * 0x1_0000_0000 + local_id)
        by (bit_vector)
        requires
            local_id < 0x1_0000_0000,
    ;
    event.request_nonce == nonce && event.echo_nonce == nonce && event.packet_index == 1
        && event.generation == ordinal && event.task_id == (COMPOSED_NAMESPACE << 32u64) | local_id
        && event.namespace == COMPOSED_NAMESPACE && event.local_id == local_id && event.priority
        == EXPECTED_PRIORITY_HIGH && event.shared_high_reserved && event.process_sequence
        == ordinal && event.process_count == 1
}

fn check_echo_chain(events: &Vec<EchoEvent>) -> (holds: bool)
    ensures
        holds == echo_chain_holds(events@),
{
    if events.len() != 2 {
        return false;
    }
    let first: EchoEvent = events[0];
    let second: EchoEvent = events[1];
    check_echo(&first, 1, REUSE_FIRST_NONCE, TIMEOUT_FIRST_LOCAL_ID) && check_echo(
        &second,
        2,
        REUSE_SECOND_NONCE,
        TIMEOUT_SECOND_LOCAL_ID,
    ) && (first.error_category == 0 || first.error_category == HOST_TIMEOUT_ERROR_CATEGORY)
        && second.error_category == 0
}

/// Judges the timeout and reuse run.
pub fn judge_reuse_run(
    words: &ReuseWords,
    events: &Vec<EchoEvent>,
    metrics: &ProcessingMetrics,
    audit: &PoolAudit,
) -> (result: Result<(), HarnessError>)
    ensures
        reported(result) == reuse_failure(*words, events@, *metrics, *audit),
{
    let settled: bool = metrics.cancelled == 1 && metrics.completed == 1 && metrics.errors == 0
        && metrics.stale_rejected == 0 && audit.ready_empty && audit.idle_packets == 2
        && audit.general_mask == 1 && audit.shared_high_mask == 2 && audit.duplicate_entries == 0
        && audit.missing_packets == 0 && audit.non_idle_controls == 0;
    if check_reuse_words(words) && check_echo_chain(events) && settled {
        Ok(())
    } else {
        Err(
            HarnessError::verification(
                "priority_echo_timeout_reuse",
                say("timeout→host reclaim→same packet reuse/no-stale-write gate failed"),
            ),
        )
    }
}

/// In an accepted reuse run the two requests used one packet, under successive
/// generations and distinct nonces.
pub proof fn accepted_reuse_keeps_the_packet(
    words: ReuseWords,
    events: Seq<EchoEvent>,
    metrics: ProcessingMetrics,
    audit: PoolAudit,
)
    requires
        reuse_failure(words, events, metrics, audit) is None,
    ensures
        events[0].packet_index == events[1].packet_index,
        events[0].packet_index == words.first_packet_index,
        events[1].packet_index == words.second_response_packet_index,
        events[1].generation == events[0].generation + 1,
        events[0].request_nonce != events[1].request_nonce,
        events[0].task_id != events[1].task_id,
{
}

/// The stress kernel writes its words in this order.
pub proof fn words_stand_in_their_places()
    ensures
        field::VERSION == 0,
        field::PHASE == 1,
        field::LOW_ADMITTED_TOTAL == 2,
        field::LOW_WORK_ADMITTED == 3,
        field::LOW_RESERVED_REJECTIONS == 4,
        field::LOW_OTHER_REJECTIONS == 5,
        field::HIGH_SPAWN_OK == 6,
        field::POS_INJECT_SEQ == 7,
        field::POS_HIGH_FIRST_SEQ == 8,
        field::POS_HIGH_FIRST_GAP == 9,
        field::POS_HIGH_RESUME_SEQ == 10,
        field::POS_HIGH_RESUME_GAP == 11,
        field::LOW_COMPLETED == 12,
        field::POS_SPAWNED == 13,
        field::POS_COMPLETED == 14,
        field::RESERVED_PASS == 15,
        field::FIRST_POLL_PASS == 16,
        field::WAKER_PASS == 17,
        field::LOW_EVENTUAL_PASS == 18,
        field::POSITIVE_PASS == 19,
        field::POS_INJECT_NS == 20,
        field::POS_HIGH_FIRST_NS == 21,
        field::POS_LATENCY_NS == 22,
        field::NEG_HIGH_SPAWN_OK == 23,
        field::NEG_INJECT_SEQ == 24,
        field::NEG_LOW_RETURN_SEQ == 25,
        field::NEG_HIGH_FIRST_SEQ == 26,
        field::NEG_INJECT_NS == 27,
        field::NEG_LOW_RETURN_NS == 28,
        field::NEG_HIGH_FIRST_NS == 29,
        field::NEG_LATENCY_NS == 30,
        field::NEG_NO_MIDPOLL_PASS == 31,
        field::FRESH_ACTION == 32,
        field::FRESH_REASON == 33,
        field::FRESH_USED_GPU_RESULT == 34,
        field::STALE_ACTION == 35,
        field::STALE_REASON == 36,
        field::STALE_USED_GPU_RESULT == 37,
        field::DEADLINE_ACTION == 38,
        field::DEADLINE_REASON == 39,
        field::DEADLINE_USED_GPU_RESULT == 40,
        field::DECISION_PASS == 41,
        field::POS_DISPATCH_SEQUENCE == 42,
        field::NEG_DISPATCH_SEQUENCE == 43,
        field::EXPECTED_LOW_LIMIT == 44,
        field::NEG_BUSY_ITERS == 45,
        field::OVERALL_PASS == 46,
        field::WORD_COUNT == 47,
{
}

/// A stress run is accepted exactly if its record is whole, the fresh result was
/// acted upon, the stale one and the missed deadline were not but led to the stop,
/// each for its own reason, and the kernel itself found everything in order.
pub proof fn accepted_stress_run_decides_rightly(words: Seq<u64>)
    ensures
        stress_failure(words) is None <==> {
            &&& words[0] == 1 && words[47] == 48 && words[1] == 6
            &&& (words[32], words[33], words[34]) == (1u64, 1u64, 1u64)
            &&& (words[35], words[36], words[37]) == (2u64, 2u64, 0u64)
            &&& (words[38], words[39], words[40]) == (2u64, 4u64, 0u64)
            &&& words[46] == 1
        },
{
}

/// A rejected stress run says which of its two sides failed, and shows the flags that
/// the kernel set.
pub proof fn rejected_stress_run_says_why(words: Seq<u64>)
    requires
        stress_failure(words) is Some,
    ensures
        ({
            let whole = words[0] == 1 && words[47] == 48 && words[1] == 6;
            let right = (words[32], words[33], words[34]) == (1u64, 1u64, 1u64) && (
            words[35],
            words[36],
            words[37],
            ) == (2u64, 2u64, 0u64) && (words[38], words[39], words[40]) == (2u64, 4u64, 0u64);
            stress_failure(words)->0 == rejected(
                "obstacle_event_priority_stress"@,
                "semantic gate failed: schema_ok="@ + truth(whole) + " decisions_are_distinct="@
                    + truth(right) + "; "@ + gate_summary_text(words),
            )
        }),
        gate_summary_text(words) == "reserved="@ + decimal(words[15] as nat) + " first_poll="@
            + decimal(words[16] as nat) + " waker="@ + decimal(words[17] as nat)
            + " low_eventual="@ + decimal(words[18] as nat) + " positive="@ + decimal(
            words[19] as nat,
        ) + " no_midpoll="@ + decimal(words[31] as nat) + " decisions="@ + decimal(
            words[41] as nat,
        ) + " overall="@ + decimal(words[46] as nat),
{
    let whole = words[0] == 1 && words[47] == 48 && words[1] == 6;
    let right = (words[32], words[33], words[34]) == (1u64, 1u64, 1u64) && (
    words[35],
    words[36],
    words[37],
    ) == (2u64, 2u64, 0u64) && (words[38], words[39], words[40]) == (2u64, 4u64, 0u64);
    assert(whole == schema_ok(words));
    assert(right == decisions_are_distinct(words));
}

/// The nonce of a composed run stands in the low half of a fixed pattern, counted
/// from one; those of the reuse run are others.
pub proof fn nonces_are_marked(mutation: u32)
    ensures
        composed_nonce_value(mutation) % 0x1_0000_0000_0000 == mutation + 1,
        composed_nonce_value(mutation) / 0x1_0000_0000_0000 == 0xC05E,
        REUSE_FIRST_NONCE == 0xCA11_CE11,
        REUSE_SECOND_NONCE == 0xCA11_CE22,
{
}

/// Whether an event is a request on packet one, in the high class, that was processed
/// once and echoed its nonce.
pub open spec fn went_through(event: EchoEvent, turn: u64, nonce: u64, local_id: u64) -> bool {
    &&& (event.request_nonce, event.echo_nonce) == (nonce, nonce)
    &&& event.packet_index == 1
    &&& (event.generation, event.process_sequence) == (turn, turn)
    &&& event.process_count == 1
    &&& (event.namespace, event.local_id) == (0x0B57_A11Eu64, local_id)
    &&& event.task_id / 0x1_0000_0000 == event.namespace
    &&& event.task_id % 0x1_0000_0000 == event.local_id
    &&& event.priority == 2
    &&& event.shared_high_reserved
}

/// The timeout and reuse run is accepted exactly if the first request timed out, the
/// second one took over its packet and was answered, the host saw just these two, and
/// the pool came to rest with every packet in its place.
pub proof fn accepted_reuse_run_reclaims_the_packet(
    words: ReuseWords,
    events: Seq<EchoEvent>,
    metrics: ProcessingMetrics,
    audit: PoolAudit,
)
    ensures
        reuse_failure(words, events, metrics, audit) is None <==> {
            &&& words.version == 1 && words.kernel_error == 0
            &&& words.reserved_0 == 0 && words.reserved_1 == 0
            &&& (words.first_nonce, words.second_nonce) == (0xCA11_CE11u64, 0xCA11_CE22u64)
            &&& words.first_error_category == 16
            &&& (words.first_packet_index, words.second_packet_index) == (1u64, 1u64)
            &&& words.second_response_packet_index == words.second_packet_index
            &&& words.second_echo_nonce == words.second_nonce
            &&& words.reacquire_busy_attempts > 0 && words.second_pending_polls > 0
            &&& words.reuse_stale_write == 0
            &&& words.second_completed == 1
            &&& words.general_guard_packet_index == 0
            &&& events.len() == 2
            &&& went_through(events[0], 1, words.first_nonce, 250)
            &&& went_through(events[1], 2, words.second_nonce, 251)
            &&& events[0].error_category == 0 || events[0].error_category == 16
            &&& events[1].error_category == 0
            &&& (metrics.cancelled, metrics.completed) == (1u64, 1u64)
            &&& (metrics.errors, metrics.stale_rejected) == (0u64, 0u64)
            &&& audit.ready_empty && audit.idle_packets == 2
            &&& (audit.general_mask, audit.shared_high_mask) == (1u64, 2u64)
            &&& audit.duplicate_entries == 0 && audit.missing_packets == 0
            &&& audit.non_idle_controls == 0
        },
{
}

/// The host gives up when the time that its reports state is over, and the buffers have
/// the sizes that the kernels expect.
pub proof fn limits_are_those_reported()
    ensures
        KERNEL_TIMEOUT_SECONDS == 20,
        COMPOSED_TIMEOUT_SECONDS == 30,
        RESULT_WORDS == 48,
        EXECUTOR_BYTES == 512 * 1024,
        COMPLETION_BYTES == 64,
        COMPOSED_RUNS == 6,
        mutation_text(FORCED_ERROR_MUTATION) == "host forced error"@,
{
}

/// A composed run that does not count names its fault, and says whether the oracle
/// passed it, failed it elsewhere, or could not decide.
pub proof fn uncounted_run_names_its_fault(mutation: u32, verdict: OracleVerdict, red: bool)
    requires
        mutation != 0,
    ensures
        composed_failure(mutation, verdict, red) matches Some(f) ==> {
            let fault = "fault mutation "@ + decimal(mutation as nat) + " ("@ + mutation_text(
                mutation,
            );
            match verdict {
                OracleVerdict::Pass => f.detail == fault + ") survived independent oracle"@,
                OracleVerdict::Fail(failures) => f.detail == fault
                    + ") failed only unrelated gates; designated gate stayed green: "@ + joined(
                    texts(failures@),
                    "; "@,
                ),
                OracleVerdict::Unknown(detail) => f.detail == fault
                    + ") produced UNKNOWN, not a killed gate: "@ + detail@,
            }
        },
        mutation_text(1)
            == "isolated raw substitution (High admission, then Normal FIFO requeue)"@,
        mutation_text(2) == "wire priority downgrade"@,
        mutation_text(3) == "wire identity corruption"@,
        mutation_text(5) == "join replay evidence"@,
{
}

} // verus!
