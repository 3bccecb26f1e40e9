//! What an accepted safety run looks like.
//!
//! The oracle runs through a list of gates. Here the run is described as a whole, by
//! what must have happened in it, and the two descriptions are shown to agree.
use vstd::prelude::*;
use crate::gates::{all_hold, all_hold_of_concatenation, failing, failing_gate_is_reported};
use crate::priority_safety::{
    all_zero, exact_gate, exact_gates, field, lemma_accepted_groups, lemma_row_holds, participation_gates,
    phase_one_and_two_table, phase_three_gates, phase_three_table, reuse_gates, runner_gates,
    runner_polls, runner_tasks, safety_failure, safety_gates, schema_gates, shutdown_gates, sum,
    task_completions, task_gates, task_polls, task_sum_gates, Exact, RESULT_WORDS,
};
use crate::text::decimal;

verus! {

/// The record is of the known kind and whole, and the kernel came to its last phase
/// without an error.
pub open spec fn record_is_whole(words: Seq<u64>) -> bool {
    &&& words[field::VERSION as int] == 3
    &&& words[field::WORDS as int] == 616
    &&& words[field::PHASE as int] == 7
    &&& words[field::KERNEL_ERROR as int] == 0
    &&& words[62] == 0 && words[63] == 0
    &&& words[614] == 0 && words[615] == 0
}

/// Every warp but the first ran, through all three phases, and both blocks polled.
pub open spec fn everyone_took_part(words: Seq<u64>) -> bool {
    &&& words[field::EXPECTED_RUNNER_MASK as int] == 0xFE
    &&& words[field::PHASE_ONE_ENTER_MASK as int] == 0xFE
    &&& words[field::PHASE_ONE_EXIT_MASK as int] == 0xFE
    &&& words[field::PHASE_TWO_ENTER_MASK as int] == 0xFE
    &&& words[field::PHASE_TWO_EXIT_MASK as int] == 0xFE
    &&& words[field::PHASE_THREE_ENTER_MASK as int] == 0xFE
    &&& words[field::PHASE_THREE_EXIT_MASK as int] == 0xFE
    &&& words[field::POLL_BLOCK_MASK as int] == 3
    &&& 1 <= words[field::CAPTURE_BLOCK_MASK as int] <= 3
    &&& words[field::RUNNER_TASKS_BASE as int] == 0
    &&& sum(words.subrange(40, 48)) == 514
    &&& words[field::RUNNER_POLLS_BASE as int] == 0
    &&& sum(words.subrange(48, 56)) >= 769
}

/// While the captured waker pinned its slot, all other slots could be filled and the
/// pinned one could not; once it was dropped, the slot was reclaimed.
pub open spec fn pinned_slot_was_kept(words: Seq<u64>) -> bool {
    &&& words[field::PIN_CONTEXT_REFS as int] == 1
    &&& words[field::PIN_PENDING_RECLAIMS as int] == 1
    &&& words[field::PIN_ACTIVE_TASKS as int] == 0
    &&& words[field::PIN_HIGH_SUCCESSES as int] == 255
    &&& words[field::PIN_NO_FREE_SLOTS as int] == 1
    &&& words[field::AFTER_DROP_PENDING_RECLAIMS as int] == 0
    &&& words[field::HOLD_RELEASE as int] == 1
}

/// The wake of a finished task changed nothing: no count after it differs from the
/// same count before.
pub open spec fn terminal_wake_had_no_effect(words: Seq<u64>) -> bool {
    &&& words[field::TERMINAL_WAKE_ACTIVE_AFTER as int]
        == words[field::TERMINAL_WAKE_ACTIVE_BEFORE as int]
    &&& words[field::TERMINAL_WAKE_COMPLETED_AFTER as int]
        == words[field::TERMINAL_WAKE_COMPLETED_BEFORE as int]
    &&& words[field::TERMINAL_WAKE_RECLAIMS_AFTER as int]
        == words[field::TERMINAL_WAKE_RECLAIMS_BEFORE as int]
    &&& words[field::TERMINAL_WAKE_SPAWNED_AFTER as int]
        == words[field::TERMINAL_WAKE_SPAWNED_BEFORE as int]
    &&& words[field::TERMINAL_WAKE_ACTIVE_BEFORE as int] == 255
    &&& words[field::TERMINAL_WAKE_COMPLETED_BEFORE as int] == 1
    &&& words[field::TERMINAL_WAKE_RECLAIMS_BEFORE as int] == 1
    &&& words[field::TERMINAL_WAKE_SPAWNED_BEFORE as int] == 256
}

/// The slot came back under the next generation, counted on by one for every attempt
/// that met a full queue, and the old key was refused.
pub open spec fn slot_was_reused(words: Seq<u64>) -> bool {
    &&& words[field::REUSE_SPAWN_OK as int] == 1
    &&& words[field::REUSE_ERROR_CODE as int] == 0
    &&& words[field::OLD_KEY_STALE as int] == 1
    &&& words[field::OLD_SLOT as int] < 256
    &&& words[field::NEW_SLOT as int] == words[field::OLD_SLOT as int]
    &&& words[field::OLD_GENERATION as int] > 0
    &&& words[field::NEW_GENERATION as int] == words[field::OLD_GENERATION as int] + 1
        + words[field::REUSE_QUEUE_FULL_RETRIES as int]
    &&& words[field::REUSE_QUEUE_FULL_RETRIES as int] <= 65536
}

/// A record stored in mapped memory is aligned to sixteen bytes and fits its place.
pub open spec fn is_stored_well(align: u64, size: u64) -> bool {
    align == 16 && (size == 16 || size == 32 || size == 48 || size == 64)
}

/// The waker was stored, and used up.
pub open spec fn waker_was_used_up(words: Seq<u64>, mapped_waker_state: u32) -> bool {
    &&& is_stored_well(
        words[field::STORED_WAKER_ALIGN as int],
        words[field::STORED_WAKER_SIZE as int],
    )
    &&& words[field::WAKER_STATE_FINAL as int] == 2
    &&& mapped_waker_state == 2
}

/// Every task that was spawned completed: 257 in the first phase, 256 in the second,
/// each of those polled twice, and two in the third.
pub open spec fn every_task_completed(words: Seq<u64>) -> bool {
    &&& words[field::PHASE_ONE_SPAWNED as int] == 257
    &&& words[field::PHASE_ONE_COMPLETED as int] == 257
    &&& words[field::PHASE_ONE_ACTIVE_FINAL as int] == 0
    &&& words[field::PHASE_TWO_SPAWN_SUCCESSES as int] == 256
    &&& forall|id: int| 64 <= id < 320 ==> #[trigger] words[id] == 2
    &&& forall|id: int| 320 <= id < 576 ==> #[trigger] words[id] == 1
    &&& words[field::PHASE_THREE_SPAWN_SUCCESSES as int] == 2
    &&& words[field::TOTAL_SPAWNED as int] == 257 + 256 + 2
    &&& words[field::TOTAL_COMPLETED as int] == words[field::TOTAL_SPAWNED as int]
    &&& words[field::TOTAL_ACTIVE_FINAL as int] == 0
    &&& words[field::FINAL_SPAWNED as int] == words[field::TOTAL_SPAWNED as int]
    &&& words[field::FINAL_COMPLETED as int] == words[field::TOTAL_SPAWNED as int]
    &&& words[field::FINAL_ACTIVE as int] == 0
}

/// The donor handed its token over, and the target waited for it.
pub open spec fn token_was_handed_over(words: Seq<u64>, mapped_token_state: u32) -> bool {
    &&& is_stored_well(
        words[field::STORED_TOKEN_ALIGN as int],
        words[field::STORED_TOKEN_SIZE as int],
    )
    &&& words[field::TOKEN_STATE_FINAL as int] == 2
    &&& mapped_token_state == 2
    &&& words[field::DONOR_SPAWN_OK as int] == 1
    &&& words[field::DONOR_HANDLE_DROPPED as int] == 1
    &&& words[field::DONOR_TOKEN_PUBLISHED as int] == 1
    &&& words[field::TARGET_SPAWN_OK as int] == 1
    &&& words[field::TARGET_FIRST_POLLED as int] == 1
    &&& words[field::TARGET_SELF_WAKE_ISSUED as int] == 1
    &&& words[field::TARGET_POLL_COUNT as int] >= 1
    &&& 1 <= words[field::WAIT_POLL_ATTEMPTS as int] <= 1_000_000
}

/// The shutdown cancelled the wait, a second wait found it joined, and everything was
/// dropped and torn down, in this order; every reclaim was settled on the way.
pub open spec fn shutdown_was_orderly(words: Seq<u64>) -> bool {
    &&& words[field::SHUTDOWN_REQUESTED as int] == 1
    &&& words[field::FIRST_WAIT_CANCELLED as int] == 1
    &&& words[field::SECOND_WAIT_ALREADY_JOINED as int] == 1
    &&& words[field::TOKEN_DROPPED as int] == 1
    &&& words[field::HANDLE_DROPPED as int] == 1
    &&& words[field::SHUTDOWN_COMPLETE as int] == 1
    &&& words[field::FINAL_CAN_TEARDOWN as int] == 1
    &&& words[field::FIRST_PENDING_SEQUENCE as int] == 1
    &&& words[field::SHUTDOWN_SEQUENCE as int] == 2
    &&& words[field::CANCELLED_SEQUENCE as int] == 3
    &&& words[field::ALREADY_JOINED_SEQUENCE as int] == 4
    &&& words[field::DROP_SEQUENCE as int] == 5
    &&& words[field::TEARDOWN_SEQUENCE as int] == 6
    &&& words[field::EVENT_SEQUENCE as int] == 6
    &&& words[field::PRE_JOIN_PENDING_RECLAIMS as int] == 2
    &&& words[field::POST_JOIN_PENDING_RECLAIMS as int] == 1
    &&& words[field::POST_DROP_PENDING_RECLAIMS as int] == 0
    &&& words[field::FINAL_CONTEXT_REFS as int] == 0
    &&& words[field::FINAL_PENDING_RECLAIMS as int] == 0
}

/// Whether the words are those of a safe run.
pub open spec fn run_is_safe(
    words: Seq<u64>,
    mapped_waker_state: u32,
    mapped_token_state: u32,
) -> bool {
    &&& record_is_whole(words)
    &&& everyone_took_part(words)
    &&& pinned_slot_was_kept(words)
    &&& terminal_wake_had_no_effect(words)
    &&& slot_was_reused(words)
    &&& waker_was_used_up(words, mapped_waker_state)
    &&& every_task_completed(words)
    &&& token_was_handed_over(words, mapped_token_state)
    &&& shutdown_was_orderly(words)
}

/// The kernel writes its words in this order.
pub proof fn words_stand_in_their_places()
    ensures
        field::VERSION == 0,
        field::WORDS == 1,
        field::PHASE == 2,
        field::KERNEL_ERROR == 3,
        field::EXPECTED_RUNNER_MASK == 4,
        field::PHASE_ONE_ENTER_MASK == 5,
        field::PHASE_ONE_EXIT_MASK == 6,
        field::PHASE_TWO_ENTER_MASK == 7,
        field::PHASE_TWO_EXIT_MASK == 8,
        field::POLL_BLOCK_MASK == 9,
        field::CAPTURE_BLOCK_MASK == 10,
        field::OLD_SLOT == 11,
        field::OLD_GENERATION == 12,
        field::PIN_CONTEXT_REFS == 13,
        field::PIN_PENDING_RECLAIMS == 14,
        field::PIN_ACTIVE_TASKS == 15,
        field::PIN_HIGH_SUCCESSES == 16,
        field::PIN_NO_FREE_SLOTS == 17,
        field::AFTER_DROP_CONTEXT_REFS == 18,
        field::AFTER_DROP_PENDING_RECLAIMS == 19,
        field::REUSE_SPAWN_OK == 20,
        field::NEW_SLOT == 21,
        field::NEW_GENERATION == 22,
        field::OLD_KEY_STALE == 23,
        field::PHASE_ONE_SPAWNED == 24,
        field::PHASE_ONE_COMPLETED == 25,
        field::PHASE_ONE_ACTIVE_FINAL == 26,
        field::PHASE_TWO_SPAWN_SUCCESSES == 27,
        field::TOTAL_SPAWNED == 28,
        field::TOTAL_COMPLETED == 29,
        field::TOTAL_ACTIVE_FINAL == 30,
        field::SHUTDOWN_COMPLETE == 31,
        field::WAKER_STATE_FINAL == 32,
        field::HOLD_RELEASE == 33,
        field::STORED_WAKER_SIZE == 34,
        field::STORED_WAKER_ALIGN == 35,
        field::TERMINAL_WAKE_ACTIVE_BEFORE == 36,
        field::TERMINAL_WAKE_ACTIVE_AFTER == 37,
        field::TERMINAL_WAKE_COMPLETED_BEFORE == 38,
        field::TERMINAL_WAKE_COMPLETED_AFTER == 39,
        field::RUNNER_TASKS_BASE == 40,
        field::RUNNER_POLLS_BASE == 48,
        field::TERMINAL_WAKE_RECLAIMS_BEFORE == 56,
        field::TERMINAL_WAKE_RECLAIMS_AFTER == 57,
        field::TERMINAL_WAKE_SPAWNED_BEFORE == 58,
        field::TERMINAL_WAKE_SPAWNED_AFTER == 59,
        field::REUSE_QUEUE_FULL_RETRIES == 60,
        field::REUSE_ERROR_CODE == 61,
        field::TWO_POLL_COUNTS_BASE == 64,
        field::TWO_COMPLETE_COUNTS_BASE == 320,
        field::PHASE_THREE_ENTER_MASK == 576,
        field::PHASE_THREE_EXIT_MASK == 577,
        field::TOKEN_STATE_FINAL == 578,
        field::STORED_TOKEN_SIZE == 579,
        field::STORED_TOKEN_ALIGN == 580,
        field::DONOR_SPAWN_OK == 581,
        field::DONOR_HANDLE_DROPPED == 582,
        field::DONOR_TOKEN_PUBLISHED == 583,
        field::TARGET_SPAWN_OK == 584,
        field::TARGET_FIRST_POLLED == 585,
        field::TARGET_POLL_COUNT == 586,
        field::SHUTDOWN_REQUESTED == 587,
        field::FIRST_WAIT_CANCELLED == 588,
        field::SECOND_WAIT_ALREADY_JOINED == 589,
        field::WAIT_POLL_ATTEMPTS == 590,
        field::TOKEN_DROPPED == 591,
        field::HANDLE_DROPPED == 592,
        field::FINAL_CONTEXT_REFS == 593,
        field::FINAL_PENDING_RECLAIMS == 594,
        field::FINAL_ACTIVE == 595,
        field::FINAL_SPAWNED == 596,
        field::FINAL_COMPLETED == 597,
        field::FINAL_CAN_TEARDOWN == 598,
        field::PHASE_THREE_SPAWN_SUCCESSES == 599,
        field::EVENT_SEQUENCE == 600,
        field::FIRST_PENDING_SEQUENCE == 601,
        field::SHUTDOWN_SEQUENCE == 602,
        field::CANCELLED_SEQUENCE == 603,
        field::ALREADY_JOINED_SEQUENCE == 604,
        field::DROP_SEQUENCE == 605,
        field::TEARDOWN_SEQUENCE == 606,
        field::PRE_JOIN_PENDING_RECLAIMS == 607,
        field::POST_JOIN_PENDING_RECLAIMS == 608,
        field::POST_DROP_PENDING_RECLAIMS == 609,
        field::PRE_JOIN_CONTEXT_REFS == 610,
        field::POST_JOIN_CONTEXT_REFS == 611,
        field::POST_DROP_CONTEXT_REFS == 612,
        field::TARGET_SELF_WAKE_ISSUED == 613,
        field::RESERVED_PHASE_THREE_0 == 614,
{
}

proof fn lemma_row_gate(words: Seq<u64>, rows: Seq<Exact>, i: int)
    requires
        0 <= i < rows.len(),
        words[rows[i].index as int] == rows[i].expected,
    ensures
        exact_gates(words, rows)[i].holds,
{
}

proof fn lemma_constant_sum(words: Seq<u64>, each: u64)
    requires
        forall|i: int| 0 <= i < words.len() ==> #[trigger] words[i] == each,
    ensures
        sum(words) == words.len() * each,
    decreases words.len(),
{
    if words.len() > 0 {
        let fewer = words.drop_last();
        assert forall|i: int| 0 <= i < fewer.len() implies #[trigger] fewer[i] == each by {
            assert(words[i] == each);
        }
        lemma_constant_sum(fewer, each);
        assert(words.last() == words[words.len() - 1]);
        let n = words.len() as int;
        assert(n * each == (n - 1) * each + each) by (nonlinear_arith);
    }
}

/// The exact words of the first two phases of a safe run.
proof fn lemma_early_tables(words: Seq<u64>)
    requires
        pinned_slot_was_kept(words),
        terminal_wake_had_no_effect(words),
        slot_was_reused(words),
        every_task_completed(words),
        words[field::SHUTDOWN_COMPLETE as int] == 1,
        words[field::WAKER_STATE_FINAL as int] == 2,
    ensures
        all_hold(exact_gates(words, phase_one_and_two_table())),
{
    let rows = phase_one_and_two_table();
    let gates = exact_gates(words, rows);
    lemma_row_gate(words, rows, 0);
    lemma_row_gate(words, rows, 1);
    lemma_row_gate(words, rows, 2);
    lemma_row_gate(words, rows, 3);
    lemma_row_gate(words, rows, 4);
    lemma_row_gate(words, rows, 5);
    lemma_row_gate(words, rows, 6);
    lemma_row_gate(words, rows, 7);
    lemma_row_gate(words, rows, 8);
    lemma_row_gate(words, rows, 9);
    lemma_row_gate(words, rows, 10);
    lemma_row_gate(words, rows, 11);
    lemma_row_gate(words, rows, 12);
    lemma_row_gate(words, rows, 13);
    lemma_row_gate(words, rows, 14);
    lemma_row_gate(words, rows, 15);
    lemma_row_gate(words, rows, 16);
    lemma_row_gate(words, rows, 17);
    lemma_row_gate(words, rows, 18);
    lemma_row_gate(words, rows, 19);
    lemma_row_gate(words, rows, 20);
    lemma_row_gate(words, rows, 21);
    lemma_row_gate(words, rows, 22);
    lemma_row_gate(words, rows, 23);
    lemma_row_gate(words, rows, 24);
    lemma_row_gate(words, rows, 25);
    lemma_row_gate(words, rows, 26);
    assert forall|i: int| 0 <= i < gates.len() implies (#[trigger] gates[i]).holds by {
        assert(i == 0 || i == 1 || i == 2 || i == 3 || i == 4 || i == 5 || i == 6 || i == 7
            || i == 8 || i == 9 || i == 10 || i == 11 || i == 12 || i == 13 || i == 14
            || i == 15 || i == 16 || i == 17 || i == 18 || i == 19 || i == 20 || i == 21
            || i == 22 || i == 23 || i == 24 || i == 25 || i == 26);
    }
}

/// The exact words of the third phase of a safe run.
proof fn lemma_late_tables(words: Seq<u64>, mapped_token_state: u32)
    requires
        everyone_took_part(words),
        every_task_completed(words),
        token_was_handed_over(words, mapped_token_state),
        shutdown_was_orderly(words),
    ensures
        all_hold(exact_gates(words, phase_three_table())),
{
    let rows = phase_three_table();
    let gates = exact_gates(words, rows);
    lemma_row_gate(words, rows, 0);
    lemma_row_gate(words, rows, 1);
    lemma_row_gate(words, rows, 2);
    lemma_row_gate(words, rows, 3);
    lemma_row_gate(words, rows, 4);
    lemma_row_gate(words, rows, 5);
    lemma_row_gate(words, rows, 6);
    lemma_row_gate(words, rows, 7);
    lemma_row_gate(words, rows, 8);
    lemma_row_gate(words, rows, 9);
    lemma_row_gate(words, rows, 10);
    lemma_row_gate(words, rows, 11);
    lemma_row_gate(words, rows, 12);
    lemma_row_gate(words, rows, 13);
    lemma_row_gate(words, rows, 14);
    lemma_row_gate(words, rows, 15);
    lemma_row_gate(words, rows, 16);
    lemma_row_gate(words, rows, 17);
    lemma_row_gate(words, rows, 18);
    lemma_row_gate(words, rows, 19);
    lemma_row_gate(words, rows, 20);
    lemma_row_gate(words, rows, 21);
    lemma_row_gate(words, rows, 22);
    lemma_row_gate(words, rows, 23);
    lemma_row_gate(words, rows, 24);
    lemma_row_gate(words, rows, 25);
    lemma_row_gate(words, rows, 26);
    lemma_row_gate(words, rows, 27);
    lemma_row_gate(words, rows, 28);
    lemma_row_gate(words, rows, 29);
    lemma_row_gate(words, rows, 30);
    assert forall|i: int| 0 <= i < gates.len() implies (#[trigger] gates[i]).holds by {
        assert(i == 0 || i == 1 || i == 2 || i == 3 || i == 4 || i == 5 || i == 6 || i == 7
            || i == 8 || i == 9 || i == 10 || i == 11 || i == 12 || i == 13 || i == 14
            || i == 15 || i == 16 || i == 17 || i == 18 || i == 19 || i == 20 || i == 21
            || i == 22 || i == 23 || i == 24 || i == 25 || i == 26 || i == 27 || i == 28
            || i == 29 || i == 30);
    }
}

/// The gates that are no exact words hold in a safe run.
proof fn lemma_safe_gates(words: Seq<u64>, mapped_waker_state: u32, mapped_token_state: u32)
    requires
        words.len() == RESULT_WORDS,
        run_is_safe(words, mapped_waker_state, mapped_token_state),
    ensures
        all_hold(schema_gates(words)),
        all_hold(participation_gates(words)),
        all_hold(reuse_gates(words, mapped_waker_state)),
        all_hold(runner_gates(words)),
        all_hold(task_gates(words)),
        all_hold(task_sum_gates(words)),
        all_hold(shutdown_gates(words, mapped_token_state)),
{
    assert(runner_tasks(words) =~= words.subrange(40, 48));
    assert(runner_polls(words) =~= words.subrange(48, 56));
    assert forall|id: int| 0 <= id < 256 implies #[trigger] task_polls(words)[id] == 2 by {
        assert(words[64 + id] == 2);
    }
    assert forall|id: int| 0 <= id < 256 implies #[trigger] task_completions(words)[id] == 1 by {
        assert(words[320 + id] == 1);
    }
    lemma_constant_sum(task_polls(words), 2);
    lemma_constant_sum(task_completions(words), 1);
    assert forall|id: int| 0 <= id < task_gates(words).len() implies (#[trigger] task_gates(
        words,
    )[id]).holds by {
        assert(task_polls(words)[id] == 2 && task_completions(words)[id] == 1);
    }
    let reserved = words.subrange(62, 64);
    assert(reserved[0] == 0 && reserved[1] == 0);
    let late = words.subrange(614, 616);
    assert(late[0] == 0 && late[1] == 0);
    assert(all_zero(reserved));
    assert(all_zero(late));
}

/// A safe run passes every gate.
proof fn lemma_safe_is_accepted(
    words: Seq<u64>,
    mapped_waker_state: u32,
    mapped_token_state: u32,
)
    requires
        words.len() == RESULT_WORDS,
        run_is_safe(words, mapped_waker_state, mapped_token_state),
    ensures
        all_hold(safety_gates(words, mapped_waker_state, mapped_token_state)),
{
    lemma_safe_gates(words, mapped_waker_state, mapped_token_state);
    lemma_early_tables(words);
    lemma_late_tables(words, mapped_token_state);
    let g1 = schema_gates(words);
    let g2 = participation_gates(words);
    let g3 = exact_gates(words, phase_one_and_two_table());
    let g4 = reuse_gates(words, mapped_waker_state);
    let g5 = runner_gates(words);
    let g6 = task_gates(words);
    let g7 = task_sum_gates(words);
    let g8 = phase_three_gates(words, mapped_token_state);
    all_hold_of_concatenation(
        exact_gates(words, phase_three_table()),
        shutdown_gates(words, mapped_token_state),
    );
    all_hold_of_concatenation(g1, g2);
    all_hold_of_concatenation(g1 + g2, g3);
    all_hold_of_concatenation(g1 + g2 + g3, g4);
    all_hold_of_concatenation(g1 + g2 + g3 + g4, g5);
    all_hold_of_concatenation(g1 + g2 + g3 + g4 + g5, g6);
    all_hold_of_concatenation(g1 + g2 + g3 + g4 + g5 + g6, g7);
    all_hold_of_concatenation(g1 + g2 + g3 + g4 + g5 + g6 + g7, g8);
}

/// The exact words of the first two phases of an accepted run.
proof fn lemma_early_words(words: Seq<u64>)
    requires
        all_hold(exact_gates(words, phase_one_and_two_table())),
    ensures
        pinned_slot_was_kept(words),
        terminal_wake_had_no_effect(words),
        words[field::REUSE_SPAWN_OK as int] == 1,
        words[field::REUSE_ERROR_CODE as int] == 0,
        words[field::OLD_KEY_STALE as int] == 1,
        words[field::WAKER_STATE_FINAL as int] == 2,
        words[field::PHASE_ONE_SPAWNED as int] == 257,
        words[field::PHASE_ONE_COMPLETED as int] == 257,
        words[field::PHASE_ONE_ACTIVE_FINAL as int] == 0,
        words[field::PHASE_TWO_SPAWN_SUCCESSES as int] == 256,
        words[field::TOTAL_SPAWNED as int] == 515,
        words[field::TOTAL_COMPLETED as int] == 515,
        words[field::TOTAL_ACTIVE_FINAL as int] == 0,
        words[field::SHUTDOWN_COMPLETE as int] == 1,
{
    let rows = phase_one_and_two_table();
    lemma_row_holds(words, rows, 0);
    lemma_row_holds(words, rows, 1);
    lemma_row_holds(words, rows, 2);
    lemma_row_holds(words, rows, 3);
    lemma_row_holds(words, rows, 4);
    lemma_row_holds(words, rows, 5);
    lemma_row_holds(words, rows, 6);
    lemma_row_holds(words, rows, 7);
    lemma_row_holds(words, rows, 8);
    lemma_row_holds(words, rows, 9);
    lemma_row_holds(words, rows, 10);
    lemma_row_holds(words, rows, 11);
    lemma_row_holds(words, rows, 12);
    lemma_row_holds(words, rows, 13);
    lemma_row_holds(words, rows, 14);
    lemma_row_holds(words, rows, 15);
    lemma_row_holds(words, rows, 16);
    lemma_row_holds(words, rows, 17);
    lemma_row_holds(words, rows, 18);
    lemma_row_holds(words, rows, 19);
    lemma_row_holds(words, rows, 20);
    lemma_row_holds(words, rows, 21);
    lemma_row_holds(words, rows, 22);
    lemma_row_holds(words, rows, 23);
    lemma_row_holds(words, rows, 24);
    lemma_row_holds(words, rows, 25);
    lemma_row_holds(words, rows, 26);
}

/// The exact words of the third phase of an accepted run.
proof fn lemma_late_words(words: Seq<u64>)
    requires
        all_hold(exact_gates(words, phase_three_table())),
        words[field::SHUTDOWN_COMPLETE as int] == 1,
    ensures
        shutdown_was_orderly(words),
        words[field::PHASE_THREE_ENTER_MASK as int] == 0xFE,
        words[field::PHASE_THREE_EXIT_MASK as int] == 0xFE,
        words[field::TOKEN_STATE_FINAL as int] == 2,
        words[field::DONOR_SPAWN_OK as int] == 1,
        words[field::DONOR_HANDLE_DROPPED as int] == 1,
        words[field::DONOR_TOKEN_PUBLISHED as int] == 1,
        words[field::TARGET_SPAWN_OK as int] == 1,
        words[field::TARGET_FIRST_POLLED as int] == 1,
        words[field::TARGET_SELF_WAKE_ISSUED as int] == 1,
        words[field::FINAL_ACTIVE as int] == 0,
        words[field::FINAL_SPAWNED as int] == 515,
        words[field::FINAL_COMPLETED as int] == 515,
        words[field::PHASE_THREE_SPAWN_SUCCESSES as int] == 2,
{
    let rows = phase_three_table();
    lemma_row_holds(words, rows, 0);
    lemma_row_holds(words, rows, 1);
    lemma_row_holds(words, rows, 2);
    lemma_row_holds(words, rows, 3);
    lemma_row_holds(words, rows, 4);
    lemma_row_holds(words, rows, 5);
    lemma_row_holds(words, rows, 6);
    lemma_row_holds(words, rows, 7);
    lemma_row_holds(words, rows, 8);
    lemma_row_holds(words, rows, 9);
    lemma_row_holds(words, rows, 10);
    lemma_row_holds(words, rows, 11);
    lemma_row_holds(words, rows, 12);
    lemma_row_holds(words, rows, 13);
    lemma_row_holds(words, rows, 14);
    lemma_row_holds(words, rows, 15);
    lemma_row_holds(words, rows, 16);
    lemma_row_holds(words, rows, 17);
    lemma_row_holds(words, rows, 18);
    lemma_row_holds(words, rows, 19);
    lemma_row_holds(words, rows, 20);
    lemma_row_holds(words, rows, 21);
    lemma_row_holds(words, rows, 22);
    lemma_row_holds(words, rows, 23);
    lemma_row_holds(words, rows, 24);
    lemma_row_holds(words, rows, 25);
    lemma_row_holds(words, rows, 26);
    lemma_row_holds(words, rows, 27);
    lemma_row_holds(words, rows, 28);
    lemma_row_holds(words, rows, 29);
    lemma_row_holds(words, rows, 30);
}

/// A run that passes every gate is safe.
proof fn lemma_accepted_is_safe(
    words: Seq<u64>,
    mapped_waker_state: u32,
    mapped_token_state: u32,
)
    requires
        words.len() == RESULT_WORDS,
        all_hold(safety_gates(words, mapped_waker_state, mapped_token_state)),
    ensures
        run_is_safe(words, mapped_waker_state, mapped_token_state),
{
    lemma_accepted_groups(words, mapped_waker_state, mapped_token_state);
    lemma_early_words(words);
    lemma_late_words(words);
    let schema = schema_gates(words);
    assert(schema[0].holds && schema[1].holds && schema[2].holds && schema[3].holds
        && schema[4].holds);
    let part = participation_gates(words);
    assert(part[0].holds && part[1].holds && part[2].holds && part[3].holds && part[4].holds
        && part[5].holds && part[6].holds && part[7].holds && part[8].holds && part[9].holds);
    let reuse = reuse_gates(words, mapped_waker_state);
    assert(reuse[0].holds && reuse[1].holds && reuse[2].holds && reuse[3].holds && reuse[4].holds
        && reuse[5].holds);
    let runners = runner_gates(words);
    assert(runners[0].holds && runners[1].holds);
    assert(runner_tasks(words) =~= words.subrange(40, 48));
    assert(runner_polls(words) =~= words.subrange(48, 56));
    assert forall|id: int| 64 <= id < 320 implies #[trigger] words[id] == 2 by {
        assert(task_gates(words)[id - 64].holds);
        assert(task_polls(words)[id - 64] == words[id]);
    }
    assert forall|id: int| 320 <= id < 576 implies #[trigger] words[id] == 1 by {
        assert(task_gates(words)[id - 320].holds);
        assert(task_completions(words)[id - 320] == words[id]);
    }
    let sums = task_sum_gates(words);
    assert(sums[1].holds);
    let reserved = words.subrange(62, 64);
    assert(reserved[0] == words[62] && reserved[1] == words[63]);
    let rest = shutdown_gates(words, mapped_token_state);
    assert(rest[0].holds && rest[1].holds && rest[2].holds && rest[3].holds && rest[4].holds
        && rest[5].holds);
    let late = words.subrange(614, 616);
    assert(late[0] == words[614] && late[1] == words[615]);
}

/// A run is accepted exactly if it was safe: if the record is whole, everyone took
/// part, the pinned slot was kept and then reused under a new generation, the wake of
/// the finished task changed nothing, every task completed, and the shutdown was
/// orderly.
pub proof fn accepted_exactly_if_safe(
    words: Seq<u64>,
    mapped_waker_state: u32,
    mapped_token_state: u32,
)
    requires
        words.len() == RESULT_WORDS,
    ensures
        safety_failure(words, mapped_waker_state, mapped_token_state) is None <==> run_is_safe(
            words,
            mapped_waker_state,
            mapped_token_state,
        ),
        all_hold(safety_gates(words, mapped_waker_state, mapped_token_state)) <==> run_is_safe(
            words,
            mapped_waker_state,
            mapped_token_state,
        ),
{
    if all_hold(safety_gates(words, mapped_waker_state, mapped_token_state)) {
        lemma_accepted_is_safe(words, mapped_waker_state, mapped_token_state);
    }
    if run_is_safe(words, mapped_waker_state, mapped_token_state) {
        lemma_safe_is_accepted(words, mapped_waker_state, mapped_token_state);
    }
}

/// What a report calls the word at a place that must have one exact value.
pub open spec fn label_of(place: int) -> Seq<char> {
    if place == 13 {
        "pinned context refs"@
    } else if place == 14 {
        "pinned pending reclaims"@
    } else if place == 15 {
        "pinned active tasks"@
    } else if place == 16 {
        "high successes while pinned"@
    } else if place == 17 {
        "NoFreeSlots observation"@
    } else if place == 19 {
        "pending reclaims after drop"@
    } else if place == 20 {
        "reuse spawn"@
    } else if place == 23 {
        "old-key stale result"@
    } else if place == 24 {
        "phase1 spawned"@
    } else if place == 25 {
        "phase1 completed"@
    } else if place == 26 {
        "phase1 active"@
    } else if place == 27 {
        "phase2 spawn successes"@
    } else if place == 28 {
        "total spawned"@
    } else if place == 29 {
        "total completed"@
    } else if place == 30 {
        "total active"@
    } else if place == 31 {
        "shutdown complete"@
    } else if place == 32 {
        "stored waker final state"@
    } else if place == 33 {
        "holder release"@
    } else if place == 36 {
        "terminal wake active before"@
    } else if place == 37 {
        "terminal wake active after"@
    } else if place == 38 {
        "terminal wake completed before"@
    } else if place == 39 {
        "terminal wake completed after"@
    } else if place == 56 {
        "terminal wake reclaims before"@
    } else if place == 57 {
        "terminal wake reclaims after"@
    } else if place == 58 {
        "terminal wake spawned before"@
    } else if place == 59 {
        "terminal wake spawned after"@
    } else if place == 61 {
        "reuse error code"@
    } else if place == 576 {
        "phase3 enter mask"@
    } else if place == 577 {
        "phase3 exit mask"@
    } else if place == 578 {
        "token state result"@
    } else if place == 581 {
        "donor spawn"@
    } else if place == 582 {
        "donor handle drop"@
    } else if place == 583 {
        "donor token publish"@
    } else if place == 584 {
        "target spawn"@
    } else if place == 585 {
        "target first Pending"@
    } else if place == 587 {
        "shutdown requested"@
    } else if place == 588 {
        "first wait Cancelled"@
    } else if place == 589 {
        "second wait AlreadyJoined"@
    } else if place == 591 {
        "token dropped"@
    } else if place == 592 {
        "handle dropped"@
    } else if place == 593 {
        "final context refs"@
    } else if place == 594 {
        "final pending reclaims"@
    } else if place == 595 {
        "final active"@
    } else if place == 596 {
        "final spawned"@
    } else if place == 597 {
        "final completed"@
    } else if place == 598 {
        "final can_teardown"@
    } else if place == 599 {
        "phase3 spawn successes"@
    } else if place == 600 {
        "event sequence count"@
    } else if place == 601 {
        "first Pending sequence"@
    } else if place == 602 {
        "shutdown sequence"@
    } else if place == 603 {
        "Cancelled sequence"@
    } else if place == 604 {
        "AlreadyJoined sequence"@
    } else if place == 605 {
        "drop sequence"@
    } else if place == 606 {
        "teardown sequence"@
    } else if place == 607 {
        "pre-join pending reclaims"@
    } else if place == 608 {
        "post-join pending reclaims"@
    } else if place == 609 {
        "post-drop pending reclaims"@
    } else if place == 613 {
        "target self-wake issued"@
    } else {
        Seq::empty()
    }
}

proof fn lemma_early_labels(i: int)
    requires
        0 <= i < phase_one_and_two_table().len(),
    ensures
        phase_one_and_two_table()[i].name@ == label_of(phase_one_and_two_table()[i].index as int),
{
}

proof fn lemma_late_labels(i: int)
    requires
        0 <= i < phase_three_table().len(),
    ensures
        phase_three_table()[i].name@ == label_of(phase_three_table()[i].index as int),
{
}

/// Every word that must have one exact value and has another is reported under its own
/// name, with what was found and what was expected.
pub proof fn wrong_words_are_reported(
    words: Seq<u64>,
    mapped_waker_state: u32,
    mapped_token_state: u32,
    row: Exact,
)
    requires
        phase_one_and_two_table().contains(row) || phase_three_table().contains(row),
        words[row.index as int] != row.expected,
    ensures
        failing(safety_gates(words, mapped_waker_state, mapped_token_state)).contains(
            label_of(row.index as int) + "="@ + decimal(words[row.index as int] as nat)
                + " (expected "@ + decimal(row.expected as nat) + ")"@,
        ),
        safety_failure(words, mapped_waker_state, mapped_token_state) is Some,
{
    let gates = safety_gates(words, mapped_waker_state, mapped_token_state);
    let (early, late) = (phase_one_and_two_table(), phase_three_table());
    let before = schema_gates(words) + participation_gates(words);
    let between = reuse_gates(words, mapped_waker_state) + runner_gates(words) + task_gates(words)
        + task_sum_gates(words);
    let middle = exact_gates(words, early);
    let end = phase_three_gates(words, mapped_token_state);
    assert(gates =~= before + middle + between + end);
    let place = if early.contains(row) {
        let i = choose|i: int| 0 <= i < early.len() && early[i] == row;
        lemma_early_labels(i);
        assert(middle[i] == exact_gate(words, row));
        assert(gates[before.len() + i] == middle[i]);
        before.len() + i
    } else {
        let i = choose|i: int| 0 <= i < late.len() && late[i] == row;
        lemma_late_labels(i);
        assert(exact_gates(words, late)[i] == exact_gate(words, row));
        assert(end[i] == exact_gates(words, late)[i]);
        let start = (before + middle + between).len();
        assert(gates[start + i] == end[i]);
        start + i
    };
    assert(gates[place] == exact_gate(words, row));
    failing_gate_is_reported(gates, place);
    assert(!gates[place].holds);
}

} // verus!
