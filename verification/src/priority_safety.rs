//! Oracle of the stale-waker, generation and multi-block executor safety run.
//!
//! Two blocks of four warps run an executor through three phases and leave 616
//! words of observations. The oracle decides from the words alone whether the
//! run was safe.
use vstd::prelude::*;
use crate::error::{rejected, reported, Failure, HarnessError};
use crate::gates::{
    all_hold, all_hold_of_concatenation, failing, failing_gate_is_reported,
    failing_is_empty_iff_all_hold, Gate, Ledger,
};
use crate::text::{bracketed, decimal, join, joined, prefixed_hex, say, texts};

pub mod acceptance;
pub mod field;

verus! {

/// Number of words in the result buffer.
pub const RESULT_WORDS: usize = 616;

/// Bytes of the executor's mapped storage.
pub const EXECUTOR_BYTES: usize = 524288;

/// Bytes of the mapped storage that holds the stored waker and token.
pub const STORAGE_BYTES: usize = 256;

/// Where the token's state word lies in that storage.
pub const TOKEN_STATE_OFFSET: usize = 64;

/// Seconds the kernel may take.
pub const KERNEL_TIMEOUT_SECONDS: u64 = 30;

/// Task slots of the executor.
pub const MAX_TASKS: u64 = 256;

/// Every warp but the first runs tasks.
pub const EXPECTED_RUNNER_MASK: u64 = 0xFE;

/// Both blocks poll.
pub const EXPECTED_BLOCK_MASK: u64 = 3;

/// Tasks of the first phase.
pub const EXPECTED_PHASE_ONE_TASKS: u64 = 257;

/// Tasks of the whole run.
pub const EXPECTED_FINAL_TASKS: u64 = 515;

/// Tasks that the runner warps saw ready.
pub const EXPECTED_RUNNER_READY_TASKS: u64 = 514;

/// The fewest polls that the tasks can need.
pub const MINIMUM_TOTAL_POLLS: u64 = 769;

/// The most `QueueFull` answers a reuse may meet.
pub const MAX_REUSE_QUEUE_FULL_RETRIES: u64 = 65_536;

/// The most polls of the typed wait.
pub const MAX_PHASE_THREE_WAIT_ATTEMPTS: u64 = 1_000_000;

/// The words that the kernel left.
pub struct SafetyResults {
    pub words: [u64; RESULT_WORDS],
}

impl View for SafetyResults {
    type V = Seq<u64>;

    open spec fn view(&self) -> Seq<u64> {
        self.words@
    }
}

impl SafetyResults {
    /// The word at `index`.
    pub fn get(&self, index: usize) -> (word: u64)
        requires
            index < RESULT_WORDS,
        ensures
            word == self@[index as int],
    {
        self.words[index]
    }
}

/// A word that must have one exact value.
#[derive(Clone, Copy)]
pub struct Exact {
    pub name: &'static str,
    pub index: usize,
    pub expected: u64,
}

/// A row of a table of exact values.
pub open spec fn exact(name: &'static str, index: usize, expected: u64) -> Exact {
    Exact { name, index, expected }
}

/// A row asks that the word has the expected value.
pub open spec fn exact_gate(words: Seq<u64>, row: Exact) -> Gate {
    Gate {
        holds: words[row.index as int] == row.expected,
        detail: row.name@ + "="@ + decimal(words[row.index as int] as nat) + " (expected "@
            + decimal(row.expected as nat) + ")"@,
    }
}

/// The gates of all rows of a table.
pub open spec fn exact_gates(words: Seq<u64>, rows: Seq<Exact>) -> Seq<Gate> {
    rows.map_values(|row: Exact| exact_gate(words, row))
}

fn check_exact(results: &SafetyResults, rows: &Vec<Exact>, ledger: &mut Ledger)
    requires
        old(ledger).wf(),
        forall|i: int| 0 <= i < rows@.len() ==> (#[trigger] rows@[i]).index < RESULT_WORDS,
    ensures
        final(ledger).wf(),
        final(ledger).gates() == old(ledger).gates() + exact_gates(results@, rows@),
{
    let ghost before = ledger.gates();
    let mut i: usize = 0;
    while i < rows.len()
        invariant
            i <= rows.len(),
            ledger.wf(),
            ledger.gates() == before + exact_gates(results@, rows@).take(i as int),
            forall|k: int| 0 <= k < rows@.len() ==> (#[trigger] rows@[k]).index < RESULT_WORDS,
        decreases rows.len() - i,
    {
        let row: Exact = rows[i];
        let value: u64 = results.get(row.index);
        ledger.check(
            value == row.expected,
            say(row.name).text("=").dec(value).text(" (expected ").dec(row.expected).text(")"),
        );
        i += 1;
        assert(exact_gates(results@, rows@).take(i as int) =~= exact_gates(results@, rows@).take(
            i - 1,
        ).push(exact_gate(results@, row)));
    }
    assert(exact_gates(results@, rows@).take(i as int) =~= exact_gates(results@, rows@));
}

/// What the words of the third phase must be.
pub open spec fn phase_three_table() -> Seq<Exact> {
    seq![
        exact("phase3 enter mask", field::PHASE_THREE_ENTER_MASK, EXPECTED_RUNNER_MASK),
        exact("phase3 exit mask", field::PHASE_THREE_EXIT_MASK, EXPECTED_RUNNER_MASK),
        exact("token state result", field::TOKEN_STATE_FINAL, 2),
        exact("donor spawn", field::DONOR_SPAWN_OK, 1),
        exact("donor handle drop", field::DONOR_HANDLE_DROPPED, 1),
        exact("donor token publish", field::DONOR_TOKEN_PUBLISHED, 1),
        exact("target spawn", field::TARGET_SPAWN_OK, 1),
        exact("target first Pending", field::TARGET_FIRST_POLLED, 1),
        exact("target self-wake issued", field::TARGET_SELF_WAKE_ISSUED, 1),
        exact("shutdown requested", field::SHUTDOWN_REQUESTED, 1),
        exact("first wait Cancelled", field::FIRST_WAIT_CANCELLED, 1),
        exact("second wait AlreadyJoined", field::SECOND_WAIT_ALREADY_JOINED, 1),
        exact("token dropped", field::TOKEN_DROPPED, 1),
        exact("handle dropped", field::HANDLE_DROPPED, 1),
        exact("final context refs", field::FINAL_CONTEXT_REFS, 0),
        exact("final pending reclaims", field::FINAL_PENDING_RECLAIMS, 0),
        exact("final active", field::FINAL_ACTIVE, 0),
        exact("final spawned", field::FINAL_SPAWNED, EXPECTED_FINAL_TASKS),
        exact("final completed", field::FINAL_COMPLETED, EXPECTED_FINAL_TASKS),
        exact("final can_teardown", field::FINAL_CAN_TEARDOWN, 1),
        exact("phase3 spawn successes", field::PHASE_THREE_SPAWN_SUCCESSES, 2),
        exact("event sequence count", field::EVENT_SEQUENCE, 6),
        exact("first Pending sequence", field::FIRST_PENDING_SEQUENCE, 1),
        exact("shutdown sequence", field::SHUTDOWN_SEQUENCE, 2),
        exact("Cancelled sequence", field::CANCELLED_SEQUENCE, 3),
        exact("AlreadyJoined sequence", field::ALREADY_JOINED_SEQUENCE, 4),
        exact("drop sequence", field::DROP_SEQUENCE, 5),
        exact("teardown sequence", field::TEARDOWN_SEQUENCE, 6),
        exact("pre-join pending reclaims", field::PRE_JOIN_PENDING_RECLAIMS, 2),
        exact("post-join pending reclaims", field::POST_JOIN_PENDING_RECLAIMS, 1),
        exact("post-drop pending reclaims", field::POST_DROP_PENDING_RECLAIMS, 0),
    ]
}

fn phase_three_rows() -> (rows: Vec<Exact>)
    ensures
        rows@ == phase_three_table(),
        forall|i: int| 0 <= i < rows@.len() ==> (#[trigger] rows@[i]).index < RESULT_WORDS,
{
    let rows: Vec<Exact> = vec![
        Exact { name: "phase3 enter mask", index: field::PHASE_THREE_ENTER_MASK, expected: EXPECTED_RUNNER_MASK },
        Exact { name: "phase3 exit mask", index: field::PHASE_THREE_EXIT_MASK, expected: EXPECTED_RUNNER_MASK },
        Exact { name: "token state result", index: field::TOKEN_STATE_FINAL, expected: 2 },
        Exact { name: "donor spawn", index: field::DONOR_SPAWN_OK, expected: 1 },
        Exact { name: "donor handle drop", index: field::DONOR_HANDLE_DROPPED, expected: 1 },
        Exact { name: "donor token publish", index: field::DONOR_TOKEN_PUBLISHED, expected: 1 },
        Exact { name: "target spawn", index: field::TARGET_SPAWN_OK, expected: 1 },
        Exact { name: "target first Pending", index: field::TARGET_FIRST_POLLED, expected: 1 },
        Exact { name: "target self-wake issued", index: field::TARGET_SELF_WAKE_ISSUED, expected: 1 },
        Exact { name: "shutdown requested", index: field::SHUTDOWN_REQUESTED, expected: 1 },
        Exact { name: "first wait Cancelled", index: field::FIRST_WAIT_CANCELLED, expected: 1 },
        Exact { name: "second wait AlreadyJoined", index: field::SECOND_WAIT_ALREADY_JOINED, expected: 1 },
        Exact { name: "token dropped", index: field::TOKEN_DROPPED, expected: 1 },
        Exact { name: "handle dropped", index: field::HANDLE_DROPPED, expected: 1 },
        Exact { name: "final context refs", index: field::FINAL_CONTEXT_REFS, expected: 0 },
        Exact { name: "final pending reclaims", index: field::FINAL_PENDING_RECLAIMS, expected: 0 },
        Exact { name: "final active", index: field::FINAL_ACTIVE, expected: 0 },
        Exact { name: "final spawned", index: field::FINAL_SPAWNED, expected: EXPECTED_FINAL_TASKS },
        Exact { name: "final completed", index: field::FINAL_COMPLETED, expected: EXPECTED_FINAL_TASKS },
        Exact { name: "final can_teardown", index: field::FINAL_CAN_TEARDOWN, expected: 1 },
        Exact { name: "phase3 spawn successes", index: field::PHASE_THREE_SPAWN_SUCCESSES, expected: 2 },
        Exact { name: "event sequence count", index: field::EVENT_SEQUENCE, expected: 6 },
        Exact { name: "first Pending sequence", index: field::FIRST_PENDING_SEQUENCE, expected: 1 },
        Exact { name: "shutdown sequence", index: field::SHUTDOWN_SEQUENCE, expected: 2 },
        Exact { name: "Cancelled sequence", index: field::CANCELLED_SEQUENCE, expected: 3 },
        Exact { name: "AlreadyJoined sequence", index: field::ALREADY_JOINED_SEQUENCE, expected: 4 },
        Exact { name: "drop sequence", index: field::DROP_SEQUENCE, expected: 5 },
        Exact { name: "teardown sequence", index: field::TEARDOWN_SEQUENCE, expected: 6 },
        Exact { name: "pre-join pending reclaims", index: field::PRE_JOIN_PENDING_RECLAIMS, expected: 2 },
        Exact { name: "post-join pending reclaims", index: field::POST_JOIN_PENDING_RECLAIMS, expected: 1 },
        Exact { name: "post-drop pending reclaims", index: field::POST_DROP_PENDING_RECLAIMS, expected: 0 },
    ];
    assert(rows@ =~= phase_three_table());
    rows
}

/// What the words of the first two phases must be.
pub open spec fn phase_one_and_two_table() -> Seq<Exact> {
    seq![
        exact("pinned context refs", field::PIN_CONTEXT_REFS, 1),
        exact("pinned pending reclaims", field::PIN_PENDING_RECLAIMS, 1),
        exact("pinned active tasks", field::PIN_ACTIVE_TASKS, 0),
        exact("high successes while pinned", field::PIN_HIGH_SUCCESSES, (MAX_TASKS - 1) as u64),
        exact("NoFreeSlots observation", field::PIN_NO_FREE_SLOTS, 1),
        exact("pending reclaims after drop", field::AFTER_DROP_PENDING_RECLAIMS, 0),
        exact("reuse spawn", field::REUSE_SPAWN_OK, 1),
        exact("old-key stale result", field::OLD_KEY_STALE, 1),
        exact("phase1 spawned", field::PHASE_ONE_SPAWNED, EXPECTED_PHASE_ONE_TASKS),
        exact("phase1 completed", field::PHASE_ONE_COMPLETED, EXPECTED_PHASE_ONE_TASKS),
        exact("phase1 active", field::PHASE_ONE_ACTIVE_FINAL, 0),
        exact("phase2 spawn successes", field::PHASE_TWO_SPAWN_SUCCESSES, MAX_TASKS),
        exact("total spawned", field::TOTAL_SPAWNED, EXPECTED_FINAL_TASKS),
        exact("total completed", field::TOTAL_COMPLETED, EXPECTED_FINAL_TASKS),
        exact("total active", field::TOTAL_ACTIVE_FINAL, 0),
        exact("shutdown complete", field::SHUTDOWN_COMPLETE, 1),
        exact("stored waker final state", field::WAKER_STATE_FINAL, 2),
        exact("holder release", field::HOLD_RELEASE, 1),
        exact("terminal wake active before", field::TERMINAL_WAKE_ACTIVE_BEFORE, (MAX_TASKS - 1) as u64),
        exact("terminal wake active after", field::TERMINAL_WAKE_ACTIVE_AFTER, (MAX_TASKS - 1) as u64),
        exact("terminal wake completed before", field::TERMINAL_WAKE_COMPLETED_BEFORE, 1),
        exact("terminal wake completed after", field::TERMINAL_WAKE_COMPLETED_AFTER, 1),
        exact("terminal wake reclaims before", field::TERMINAL_WAKE_RECLAIMS_BEFORE, 1),
        exact("terminal wake reclaims after", field::TERMINAL_WAKE_RECLAIMS_AFTER, 1),
        exact("terminal wake spawned before", field::TERMINAL_WAKE_SPAWNED_BEFORE, MAX_TASKS),
        exact("terminal wake spawned after", field::TERMINAL_WAKE_SPAWNED_AFTER, MAX_TASKS),
        exact("reuse error code", field::REUSE_ERROR_CODE, 0),
    ]
}

fn phase_one_and_two_rows() -> (rows: Vec<Exact>)
    ensures
        rows@ == phase_one_and_two_table(),
        forall|i: int| 0 <= i < rows@.len() ==> (#[trigger] rows@[i]).index < RESULT_WORDS,
{
    let rows: Vec<Exact> = vec![
        Exact { name: "pinned context refs", index: field::PIN_CONTEXT_REFS, expected: 1 },
        Exact { name: "pinned pending reclaims", index: field::PIN_PENDING_RECLAIMS, expected: 1 },
        Exact { name: "pinned active tasks", index: field::PIN_ACTIVE_TASKS, expected: 0 },
        Exact { name: "high successes while pinned", index: field::PIN_HIGH_SUCCESSES, expected: MAX_TASKS - 1 },
        Exact { name: "NoFreeSlots observation", index: field::PIN_NO_FREE_SLOTS, expected: 1 },
        Exact { name: "pending reclaims after drop", index: field::AFTER_DROP_PENDING_RECLAIMS, expected: 0 },
        Exact { name: "reuse spawn", index: field::REUSE_SPAWN_OK, expected: 1 },
        Exact { name: "old-key stale result", index: field::OLD_KEY_STALE, expected: 1 },
        Exact { name: "phase1 spawned", index: field::PHASE_ONE_SPAWNED, expected: EXPECTED_PHASE_ONE_TASKS },
        Exact { name: "phase1 completed", index: field::PHASE_ONE_COMPLETED, expected: EXPECTED_PHASE_ONE_TASKS },
        Exact { name: "phase1 active", index: field::PHASE_ONE_ACTIVE_FINAL, expected: 0 },
        Exact { name: "phase2 spawn successes", index: field::PHASE_TWO_SPAWN_SUCCESSES, expected: MAX_TASKS },
        Exact { name: "total spawned", index: field::TOTAL_SPAWNED, expected: EXPECTED_FINAL_TASKS },
        Exact { name: "total completed", index: field::TOTAL_COMPLETED, expected: EXPECTED_FINAL_TASKS },
        Exact { name: "total active", index: field::TOTAL_ACTIVE_FINAL, expected: 0 },
        Exact { name: "shutdown complete", index: field::SHUTDOWN_COMPLETE, expected: 1 },
        Exact { name: "stored waker final state", index: field::WAKER_STATE_FINAL, expected: 2 },
        Exact { name: "holder release", index: field::HOLD_RELEASE, expected: 1 },
        Exact { name: "terminal wake active before", index: field::TERMINAL_WAKE_ACTIVE_BEFORE, expected: MAX_TASKS - 1 },
        Exact { name: "terminal wake active after", index: field::TERMINAL_WAKE_ACTIVE_AFTER, expected: MAX_TASKS - 1 },
        Exact { name: "terminal wake completed before", index: field::TERMINAL_WAKE_COMPLETED_BEFORE, expected: 1 },
        Exact { name: "terminal wake completed after", index: field::TERMINAL_WAKE_COMPLETED_AFTER, expected: 1 },
        Exact { name: "terminal wake reclaims before", index: field::TERMINAL_WAKE_RECLAIMS_BEFORE, expected: 1 },
        Exact { name: "terminal wake reclaims after", index: field::TERMINAL_WAKE_RECLAIMS_AFTER, expected: 1 },
        Exact { name: "terminal wake spawned before", index: field::TERMINAL_WAKE_SPAWNED_BEFORE, expected: MAX_TASKS },
        Exact { name: "terminal wake spawned after", index: field::TERMINAL_WAKE_SPAWNED_AFTER, expected: MAX_TASKS },
        Exact { name: "reuse error code", index: field::REUSE_ERROR_CODE, expected: 0 },
    ];
    assert(rows@ =~= phase_one_and_two_table());
    rows
}

/// The gates of the third phase that are not one exact value of a word.
pub open spec fn shutdown_gates(words: Seq<u64>, mapped_token_state: u32) -> Seq<Gate> {
    let align = words[field::STORED_TOKEN_ALIGN as int];
    let size = words[field::STORED_TOKEN_SIZE as int];
    let polls = words[field::TARGET_POLL_COUNT as int];
    let attempts = words[field::WAIT_POLL_ATTEMPTS as int];
    let reserved = words.subrange(field::RESERVED_PHASE_THREE_0 as int, RESULT_WORDS as int);
    seq![
        Gate {
            holds: mapped_token_state == 2,
            detail: "mapped token state="@ + decimal(mapped_token_state as nat)
                + " (expected 2)"@,
        },
        Gate {
            holds: align == 16,
            detail: "StoredToken align="@ + decimal(align as nat) + " (expected 16)"@,
        },
        Gate {
            holds: 0 < size <= 64 && size % 16 == 0,
            detail: "StoredToken size="@ + decimal(size as nat)
                + " exceeds/alignment-mismatches 64 bytes"@,
        },
        Gate {
            holds: polls >= 1,
            detail: "target poll count="@ + decimal(polls as nat) + " (minimum 1)"@,
        },
        Gate {
            holds: 1 <= attempts <= MAX_PHASE_THREE_WAIT_ATTEMPTS,
            detail: "typed wait poll attempts="@ + decimal(attempts as nat) + " (expected 1..="@
                + decimal(MAX_PHASE_THREE_WAIT_ATTEMPTS as nat) + ")"@,
        },
        Gate {
            holds: all_zero(reserved),
            detail: "phase3 reserved words are "@ + bracketed(reserved),
        },
    ]
}

/// Whether every word is zero.
pub open spec fn all_zero(words: Seq<u64>) -> bool {
    forall|i: int| 0 <= i < words.len() ==> #[trigger] words[i] == 0
}

/// All gates of the third phase.
pub open spec fn phase_three_gates(words: Seq<u64>, mapped_token_state: u32) -> Seq<Gate> {
    exact_gates(words, phase_three_table()) + shutdown_gates(words, mapped_token_state)
}

/// The words from `from` up to, not including, `to`.
fn words_between(results: &SafetyResults, from: usize, to: usize) -> (words: Vec<u64>)
    requires
        from <= to <= RESULT_WORDS,
    ensures
        words@ == results@.subrange(from as int, to as int),
{
    let mut words: Vec<u64> = Vec::new();
    let mut i: usize = from;
    while i < to
        invariant
            from <= i <= to <= RESULT_WORDS,
            words@ == results@.subrange(from as int, i as int),
        decreases to - i,
    {
        words.push(results.get(i));
        i += 1;
        assert(results@.subrange(from as int, i as int) =~= results@.subrange(
            from as int,
            i - 1,
        ).push(results@[i - 1]));
    }
    words
}

fn are_all_zero(words: &Vec<u64>) -> (zero: bool)
    ensures
        zero == all_zero(words@),
{
    let mut i: usize = 0;
    while i < words.len()
        invariant
            i <= words.len(),
            forall|k: int| 0 <= k < i ==> #[trigger] words@[k] == 0,
        decreases words.len() - i,
    {
        if words[i] != 0 {
            assert(words@[i as int] != 0);
            return false;
        }
        i += 1;
    }
    true
}

fn check_shutdown(results: &SafetyResults, mapped_token_state: u32, ledger: &mut Ledger)
    requires
        old(ledger).wf(),
    ensures
        final(ledger).wf(),
        final(ledger).gates() == old(ledger).gates() + shutdown_gates(
            results@,
            mapped_token_state,
        ),
{
    let ghost before = ledger.gates();
    let align: u64 = results.get(field::STORED_TOKEN_ALIGN);
    let size: u64 = results.get(field::STORED_TOKEN_SIZE);
    let polls: u64 = results.get(field::TARGET_POLL_COUNT);
    let attempts: u64 = results.get(field::WAIT_POLL_ATTEMPTS);
    let reserved: Vec<u64> = words_between(results, field::RESERVED_PHASE_THREE_0, RESULT_WORDS);
    ledger.check(
        mapped_token_state == 2,
        say("mapped token state=").dec(mapped_token_state as u64).text(" (expected 2)"),
    );
    ledger.check(align == 16, say("StoredToken align=").dec(align).text(" (expected 16)"));
    ledger.check(
        size != 0 && size <= 64 && size % 16 == 0,
        say("StoredToken size=").dec(size).text(" exceeds/alignment-mismatches 64 bytes"),
    );
    ledger.check(polls >= 1, say("target poll count=").dec(polls).text(" (minimum 1)"));
    ledger.check(
        1 <= attempts && attempts <= MAX_PHASE_THREE_WAIT_ATTEMPTS,
        say("typed wait poll attempts=").dec(attempts).text(" (expected 1..=").dec(
            MAX_PHASE_THREE_WAIT_ATTEMPTS,
        ).text(")"),
    );
    ledger.check(are_all_zero(&reserved), say("phase3 reserved words are ").list(&reserved));
    assert(ledger.gates() =~= before + shutdown_gates(results@, mapped_token_state));
}

fn check_phase_three_gates(
    results: &SafetyResults,
    mapped_token_state: u32,
    ledger: &mut Ledger,
)
    requires
        old(ledger).wf(),
    ensures
        final(ledger).wf(),
        final(ledger).gates() == old(ledger).gates() + phase_three_gates(
            results@,
            mapped_token_state,
        ),
{
    let ghost before = ledger.gates();
    let rows: Vec<Exact> = phase_three_rows();
    check_exact(results, &rows, ledger);
    check_shutdown(results, mapped_token_state, ledger);
    assert(ledger.gates() =~= before + phase_three_gates(results@, mapped_token_state));
}

/// Adds the failures of the third phase to those already found.
pub fn check_phase_three(
    results: &SafetyResults,
    mapped_token_state: u32,
    failures: &mut Vec<String>,
)
    ensures
        texts(final(failures)@) == texts(old(failures)@) + failing(
            phase_three_gates(results@, mapped_token_state),
        ),
{
    let mut ledger: Ledger = Ledger::new();
    check_phase_three_gates(results, mapped_token_state, &mut ledger);
    assert(ledger.gates() =~= phase_three_gates(results@, mapped_token_state));
    let mut found: Vec<String> = ledger.into_failures();
    let ghost added = found@;
    failures.append(&mut found);
    assert(texts(failures@) =~= texts(old(failures)@) + texts(added));
}

/// The schema of the words, and how the kernel ended.
pub open spec fn schema_gates(words: Seq<u64>) -> Seq<Gate> {
    let version = words[field::VERSION as int];
    let count = words[field::WORDS as int];
    let phase = words[field::PHASE as int];
    let error = words[field::KERNEL_ERROR as int];
    let runners = words[field::EXPECTED_RUNNER_MASK as int];
    seq![
        Gate {
            holds: version == 3,
            detail: "schema version="@ + decimal(version as nat) + " (expected 3)"@,
        },
        Gate {
            holds: count == RESULT_WORDS,
            detail: "schema words="@ + decimal(count as nat) + " (expected "@ + decimal(
                RESULT_WORDS as nat,
            ) + ")"@,
        },
        Gate {
            holds: phase == 7,
            detail: "terminal phase="@ + decimal(phase as nat) + " (expected 7)"@,
        },
        Gate { holds: error == 0, detail: "kernel error="@ + decimal(error as nat) },
        Gate {
            holds: runners == EXPECTED_RUNNER_MASK,
            detail: "kernel runner mask="@ + prefixed_hex(runners as nat) + " (host expects "@
                + prefixed_hex(EXPECTED_RUNNER_MASK as nat) + ")"@,
        },
    ]
}

/// At a phase boundary, every runner warp has passed it, and no other.
pub open spec fn mask_gate(words: Seq<u64>, name: &'static str, index: usize) -> Gate {
    Gate {
        holds: words[index as int] == EXPECTED_RUNNER_MASK,
        detail: name@ + " mask="@ + prefixed_hex(words[index as int] as nat) + " (expected "@
            + prefixed_hex(EXPECTED_RUNNER_MASK as nat) + ")"@,
    }
}

/// Who took part: the warps in each phase, the blocks in polling and capturing,
/// and the slot that the captured waker belonged to.
pub open spec fn participation_gates(words: Seq<u64>) -> Seq<Gate> {
    let polling = words[field::POLL_BLOCK_MASK as int];
    let capturing = words[field::CAPTURE_BLOCK_MASK as int];
    let slot = words[field::OLD_SLOT as int];
    seq![
        mask_gate(words, "phase1 enter", field::PHASE_ONE_ENTER_MASK),
        mask_gate(words, "phase1 exit", field::PHASE_ONE_EXIT_MASK),
        mask_gate(words, "phase2 enter", field::PHASE_TWO_ENTER_MASK),
        mask_gate(words, "phase2 exit", field::PHASE_TWO_EXIT_MASK),
        mask_gate(words, "phase3 enter", field::PHASE_THREE_ENTER_MASK),
        mask_gate(words, "phase3 exit", field::PHASE_THREE_EXIT_MASK),
        Gate {
            holds: polling == EXPECTED_BLOCK_MASK,
            detail: "poll block mask="@ + prefixed_hex(polling as nat) + " (expected "@
                + prefixed_hex(EXPECTED_BLOCK_MASK as nat) + ")"@,
        },
        Gate {
            holds: 0 < capturing <= EXPECTED_BLOCK_MASK,
            detail: "capture block mask="@ + prefixed_hex(capturing as nat),
        },
        Gate {
            holds: slot < MAX_TASKS,
            detail: "old slot="@ + decimal(slot as nat) + " is out of range"@,
        },
        Gate {
            holds: words[field::OLD_GENERATION as int] != 0,
            detail: "old generation is zero"@,
        },
    ]
}

/// The reuse of the slot, and what was stored of the waker.
pub open spec fn reuse_gates(words: Seq<u64>, mapped_waker_state: u32) -> Seq<Gate> {
    let old_slot = words[field::OLD_SLOT as int];
    let new_slot = words[field::NEW_SLOT as int];
    let old_generation = words[field::OLD_GENERATION as int];
    let new_generation = words[field::NEW_GENERATION as int];
    let retries = words[field::REUSE_QUEUE_FULL_RETRIES as int];
    let align = words[field::STORED_WAKER_ALIGN as int];
    let size = words[field::STORED_WAKER_SIZE as int];
    seq![
        Gate {
            holds: new_slot == old_slot,
            detail: "slot reuse old="@ + decimal(old_slot as nat) + " new="@ + decimal(
                new_slot as nat,
            ),
        },
        Gate {
            holds: new_generation == old_generation + 1 + retries,
            detail: "generation reuse old="@ + decimal(old_generation as nat) + " retries="@
                + decimal(retries as nat) + " new="@ + decimal(new_generation as nat),
        },
        Gate {
            holds: retries <= MAX_REUSE_QUEUE_FULL_RETRIES,
            detail: "QueueFull retries="@ + decimal(retries as nat) + " (maximum "@ + decimal(
                MAX_REUSE_QUEUE_FULL_RETRIES as nat,
            ) + ")"@,
        },
        Gate {
            holds: align == 16,
            detail: "StoredWaker align="@ + decimal(align as nat) + " (expected 16)"@,
        },
        Gate {
            holds: 0 < size <= TOKEN_STATE_OFFSET && size % 16 == 0,
            detail: "StoredWaker size="@ + decimal(size as nat)
                + " exceeds/alignment-mismatches "@ + decimal(TOKEN_STATE_OFFSET as nat)
                + " bytes"@,
        },
        Gate {
            holds: mapped_waker_state == 2,
            detail: "mapped waker state="@ + decimal(mapped_waker_state as nat)
                + " (expected 2)"@,
        },
    ]
}

/// The sum of the words.
pub open spec fn sum(words: Seq<u64>) -> nat
    decreases words.len(),
{
    if words.len() == 0 {
        0
    } else {
        sum(words.drop_last()) + words.last() as nat
    }
}

/// Tasks per warp.
pub open spec fn runner_tasks(words: Seq<u64>) -> Seq<u64> {
    words.subrange(field::RUNNER_TASKS_BASE as int, field::RUNNER_TASKS_BASE + 8)
}

/// Polls per warp.
pub open spec fn runner_polls(words: Seq<u64>) -> Seq<u64> {
    words.subrange(field::RUNNER_POLLS_BASE as int, field::RUNNER_POLLS_BASE + 8)
}

/// Polls per task of the second phase.
pub open spec fn task_polls(words: Seq<u64>) -> Seq<u64> {
    words.subrange(field::TWO_POLL_COUNTS_BASE as int, field::TWO_POLL_COUNTS_BASE + MAX_TASKS)
}

/// Completions per task of the second phase.
pub open spec fn task_completions(words: Seq<u64>) -> Seq<u64> {
    words.subrange(
        field::TWO_COMPLETE_COUNTS_BASE as int,
        field::TWO_COMPLETE_COUNTS_BASE + MAX_TASKS,
    )
}

/// Whether each of the four sums that the oracle forms fits a word.
pub open spec fn sums_fit(words: Seq<u64>) -> bool {
    &&& sum(runner_tasks(words)) <= u64::MAX
    &&& sum(runner_polls(words)) <= u64::MAX
    &&& sum(task_polls(words)) <= u64::MAX
    &&& sum(task_completions(words)) <= u64::MAX
}

/// The work of the runner warps: the first warp of all does none of it.
pub open spec fn runner_gates(words: Seq<u64>) -> Seq<Gate> {
    let tasks = sum(runner_tasks(words));
    let polls = sum(runner_polls(words));
    seq![
        Gate {
            holds: runner_tasks(words)[0] == 0 && tasks == EXPECTED_RUNNER_READY_TASKS,
            detail: "runner task sum="@ + decimal(tasks) + " (expected "@ + decimal(
                EXPECTED_RUNNER_READY_TASKS as nat,
            ) + ")"@,
        },
        Gate {
            holds: runner_polls(words)[0] == 0 && polls >= MINIMUM_TOTAL_POLLS,
            detail: "runner poll sum="@ + decimal(polls) + " (minimum "@ + decimal(
                MINIMUM_TOTAL_POLLS as nat,
            ) + ")"@,
        },
    ]
}

/// A task of the second phase is polled twice and completes once.
pub open spec fn task_gate(words: Seq<u64>, id: int) -> Gate {
    let polls = task_polls(words)[id];
    let completions = task_completions(words)[id];
    Gate {
        holds: polls == 2 && completions == 1,
        detail: "task "@ + decimal(id as nat) + ": polls="@ + decimal(polls as nat)
            + ", completions="@ + decimal(completions as nat),
    }
}

/// The tasks of the second phase one by one, if all of them were spawned.
pub open spec fn task_gates(words: Seq<u64>) -> Seq<Gate> {
    if words[field::PHASE_TWO_SPAWN_SUCCESSES as int] == MAX_TASKS {
        Seq::new(MAX_TASKS as nat, |id: int| task_gate(words, id))
    } else {
        Seq::empty()
    }
}

/// The tasks of the second phase in sum, and the reserved words.
pub open spec fn task_sum_gates(words: Seq<u64>) -> Seq<Gate> {
    let polls = sum(task_polls(words));
    let completions = sum(task_completions(words));
    let reserved = words.subrange(62, 64);
    seq![
        Gate {
            holds: polls == MAX_TASKS * 2 && completions == MAX_TASKS,
            detail: "two-poll sums polls="@ + decimal(polls) + ", completions="@ + decimal(
                completions,
            ),
        },
        Gate {
            holds: all_zero(reserved),
            detail: "reserved words 62..64 are "@ + bracketed(reserved),
        },
    ]
}

/// All gates of the run, in the order in which they are reported.
pub open spec fn safety_gates(
    words: Seq<u64>,
    mapped_waker_state: u32,
    mapped_token_state: u32,
) -> Seq<Gate> {
    schema_gates(words) + participation_gates(words) + exact_gates(
        words,
        phase_one_and_two_table(),
    ) + reuse_gates(words, mapped_waker_state) + runner_gates(words) + task_gates(words)
        + task_sum_gates(words) + phase_three_gates(words, mapped_token_state)
}

fn check_schema(results: &SafetyResults, ledger: &mut Ledger)
    requires
        old(ledger).wf(),
    ensures
        final(ledger).wf(),
        final(ledger).gates() == old(ledger).gates() + schema_gates(results@),
{
    let ghost before = ledger.gates();
    let version: u64 = results.get(field::VERSION);
    let count: u64 = results.get(field::WORDS);
    let phase: u64 = results.get(field::PHASE);
    let error: u64 = results.get(field::KERNEL_ERROR);
    let runners: u64 = results.get(field::EXPECTED_RUNNER_MASK);
    ledger.check(version == 3, say("schema version=").dec(version).text(" (expected 3)"));
    ledger.check(
        count == RESULT_WORDS as u64,
        say("schema words=").dec(count).text(" (expected ").dec(RESULT_WORDS as u64).text(")"),
    );
    ledger.check(phase == 7, say("terminal phase=").dec(phase).text(" (expected 7)"));
    ledger.check(error == 0, say("kernel error=").dec(error));
    ledger.check(
        runners == EXPECTED_RUNNER_MASK,
        say("kernel runner mask=").hex(runners).text(" (host expects ").hex(
            EXPECTED_RUNNER_MASK,
        ).text(")"),
    );
    assert(ledger.gates() =~= before + schema_gates(results@));
}

fn check_mask(results: &SafetyResults, name: &'static str, index: usize, ledger: &mut Ledger)
    requires
        old(ledger).wf(),
        index < RESULT_WORDS,
    ensures
        final(ledger).wf(),
        final(ledger).gates() == old(ledger).gates().push(mask_gate(results@, name, index)),
{
    let mask: u64 = results.get(index);
    ledger.check(
        mask == EXPECTED_RUNNER_MASK,
        say(name).text(" mask=").hex(mask).text(" (expected ").hex(EXPECTED_RUNNER_MASK).text(")"),
    );
}

fn check_participation(results: &SafetyResults, ledger: &mut Ledger)
    requires
        old(ledger).wf(),
    ensures
        final(ledger).wf(),
        final(ledger).gates() == old(ledger).gates() + participation_gates(results@),
{
    let ghost before = ledger.gates();
    let polling: u64 = results.get(field::POLL_BLOCK_MASK);
    let capturing: u64 = results.get(field::CAPTURE_BLOCK_MASK);
    let slot: u64 = results.get(field::OLD_SLOT);
    check_mask(results, "phase1 enter", field::PHASE_ONE_ENTER_MASK, ledger);
    check_mask(results, "phase1 exit", field::PHASE_ONE_EXIT_MASK, ledger);
    check_mask(results, "phase2 enter", field::PHASE_TWO_ENTER_MASK, ledger);
    check_mask(results, "phase2 exit", field::PHASE_TWO_EXIT_MASK, ledger);
    check_mask(results, "phase3 enter", field::PHASE_THREE_ENTER_MASK, ledger);
    check_mask(results, "phase3 exit", field::PHASE_THREE_EXIT_MASK, ledger);
    ledger.check(
        polling == EXPECTED_BLOCK_MASK,
        say("poll block mask=").hex(polling).text(" (expected ").hex(EXPECTED_BLOCK_MASK).text(
            ")",
        ),
    );
    assert(capturing & !3u64 == 0 <==> capturing <= 3) by (bit_vector);
    ledger.check(
        capturing != 0 && capturing & !EXPECTED_BLOCK_MASK == 0,
        say("capture block mask=").hex(capturing),
    );
    ledger.check(slot < MAX_TASKS, say("old slot=").dec(slot).text(" is out of range"));
    ledger.check(results.get(field::OLD_GENERATION) != 0, say("old generation is zero"));
    assert(ledger.gates() =~= before + participation_gates(results@));
}

fn check_reuse(results: &SafetyResults, mapped_waker_state: u32, ledger: &mut Ledger)
    requires
        old(ledger).wf(),
    ensures
        final(ledger).wf(),
        final(ledger).gates() == old(ledger).gates() + reuse_gates(results@, mapped_waker_state),
{
    let ghost before = ledger.gates();
    let old_slot: u64 = results.get(field::OLD_SLOT);
    let new_slot: u64 = results.get(field::NEW_SLOT);
    let old_generation: u64 = results.get(field::OLD_GENERATION);
    let new_generation: u64 = results.get(field::NEW_GENERATION);
    let retries: u64 = results.get(field::REUSE_QUEUE_FULL_RETRIES);
    let align: u64 = results.get(field::STORED_WAKER_ALIGN);
    let size: u64 = results.get(field::STORED_WAKER_SIZE);
    ledger.check(
        new_slot == old_slot,
        say("slot reuse old=").dec(old_slot).text(" new=").dec(new_slot),
    );
    let advanced: bool = match old_generation.checked_add(1) {
        Some(next) => match next.checked_add(retries) {
            Some(expected) => expected == new_generation,
            None => false,
        },
        None => false,
    };
    ledger.check(
        advanced,
        say("generation reuse old=").dec(old_generation).text(" retries=").dec(retries).text(
            " new=",
        ).dec(new_generation),
    );
    ledger.check(
        retries <= MAX_REUSE_QUEUE_FULL_RETRIES,
        say("QueueFull retries=").dec(retries).text(" (maximum ").dec(
            MAX_REUSE_QUEUE_FULL_RETRIES,
        ).text(")"),
    );
    ledger.check(align == 16, say("StoredWaker align=").dec(align).text(" (expected 16)"));
    ledger.check(
        size != 0 && size <= TOKEN_STATE_OFFSET as u64 && size % 16 == 0,
        say("StoredWaker size=").dec(size).text(" exceeds/alignment-mismatches ").dec(
            TOKEN_STATE_OFFSET as u64,
        ).text(" bytes"),
    );
    ledger.check(
        mapped_waker_state == 2,
        say("mapped waker state=").dec(mapped_waker_state as u64).text(" (expected 2)"),
    );
    assert(ledger.gates() =~= before + reuse_gates(results@, mapped_waker_state));
}

/// The sum of the words from `from` up to, not including, `to`.
fn sum_between(results: &SafetyResults, from: usize, to: usize) -> (total: u128)
    requires
        from <= to <= RESULT_WORDS,
    ensures
        total == sum(results@.subrange(from as int, to as int)),
{
    let mut total: u128 = 0;
    let mut i: usize = from;
    assert(results@.subrange(from as int, from as int) =~= Seq::empty());
    while i < to
        invariant
            from <= i <= to <= RESULT_WORDS,
            total == sum(results@.subrange(from as int, i as int)),
            total <= (i - from) * (u64::MAX as int),
        decreases to - i,
    {
        total += results.get(i) as u128;
        i += 1;
        assert(results@.subrange(from as int, i as int).drop_last() =~= results@.subrange(
            from as int,
            i - 1,
        ));
    }
    total
}

/// Whether each of the four sums that [`evaluate`] forms fits a word.
pub fn have_fitting_sums(results: &SafetyResults) -> (fit: bool)
    ensures
        fit == sums_fit(results@),
{
    let limit: u128 = u64::MAX as u128;
    let base: usize = field::RUNNER_TASKS_BASE;
    let tasks: u128 = sum_between(results, base, base + 8);
    let base: usize = field::RUNNER_POLLS_BASE;
    let polls: u128 = sum_between(results, base, base + 8);
    let base: usize = field::TWO_POLL_COUNTS_BASE;
    let two_polls: u128 = sum_between(results, base, base + MAX_TASKS as usize);
    let base: usize = field::TWO_COMPLETE_COUNTS_BASE;
    let two_completions: u128 = sum_between(results, base, base + MAX_TASKS as usize);
    tasks <= limit && polls <= limit && two_polls <= limit && two_completions <= limit
}

fn check_runners(results: &SafetyResults, ledger: &mut Ledger)
    requires
        old(ledger).wf(),
        sums_fit(results@),
    ensures
        final(ledger).wf(),
        final(ledger).gates() == old(ledger).gates() + runner_gates(results@),
{
    let ghost before = ledger.gates();
    let base: usize = field::RUNNER_TASKS_BASE;
    let tasks: u64 = sum_between(results, base, base + 8) as u64;
    ledger.check(
        results.get(base) == 0 && tasks == EXPECTED_RUNNER_READY_TASKS,
        say("runner task sum=").dec(tasks).text(" (expected ").dec(
            EXPECTED_RUNNER_READY_TASKS,
        ).text(")"),
    );
    let base: usize = field::RUNNER_POLLS_BASE;
    let polls: u64 = sum_between(results, base, base + 8) as u64;
    ledger.check(
        results.get(base) == 0 && polls >= MINIMUM_TOTAL_POLLS,
        say("runner poll sum=").dec(polls).text(" (minimum ").dec(MINIMUM_TOTAL_POLLS).text(")"),
    );
    assert(ledger.gates() =~= before + runner_gates(results@));
}

fn check_tasks(results: &SafetyResults, ledger: &mut Ledger)
    requires
        old(ledger).wf(),
    ensures
        final(ledger).wf(),
        final(ledger).gates() == old(ledger).gates() + task_gates(results@),
{
    let ghost before = ledger.gates();
    if results.get(field::PHASE_TWO_SPAWN_SUCCESSES) == MAX_TASKS {
        let mut id: usize = 0;
        while id < MAX_TASKS as usize
            invariant
                id <= MAX_TASKS,
                ledger.wf(),
                ledger.gates() == before + task_gates(results@).take(id as int),
                task_gates(results@) == Seq::new(
                    MAX_TASKS as nat,
                    |id: int| task_gate(results@, id),
                ),
            decreases MAX_TASKS - id,
        {
            let polls: u64 = results.get(field::TWO_POLL_COUNTS_BASE + id);
            let completions: u64 = results.get(field::TWO_COMPLETE_COUNTS_BASE + id);
            ledger.check(
                polls == 2 && completions == 1,
                say("task ").dec(id as u64).text(": polls=").dec(polls).text(
                    ", completions=",
                ).dec(completions),
            );
            id += 1;
            assert(task_gates(results@).take(id as int) =~= task_gates(results@).take(
                id - 1,
            ).push(task_gate(results@, id - 1)));
        }
        assert(task_gates(results@).take(id as int) =~= task_gates(results@));
    }
    assert(ledger.gates() =~= before + task_gates(results@));
}

fn check_task_sums(results: &SafetyResults, ledger: &mut Ledger)
    requires
        old(ledger).wf(),
        sums_fit(results@),
    ensures
        final(ledger).wf(),
        final(ledger).gates() == old(ledger).gates() + task_sum_gates(results@),
{
    let ghost before = ledger.gates();
    let base: usize = field::TWO_POLL_COUNTS_BASE;
    let polls: u64 = sum_between(results, base, base + MAX_TASKS as usize) as u64;
    let base: usize = field::TWO_COMPLETE_COUNTS_BASE;
    let completions: u64 = sum_between(results, base, base + MAX_TASKS as usize) as u64;
    let reserved: Vec<u64> = words_between(results, 62, 64);
    ledger.check(
        polls == MAX_TASKS * 2 && completions == MAX_TASKS,
        say("two-poll sums polls=").dec(polls).text(", completions=").dec(completions),
    );
    ledger.check(are_all_zero(&reserved), say("reserved words 62..64 are ").list(&reserved));
    assert(ledger.gates() =~= before + task_sum_gates(results@));
}

/// Decides whether the run was safe. The failures of all gates that do not hold
/// are reported together.
pub fn evaluate(
    results: &SafetyResults,
    mapped_waker_state: u32,
    mapped_token_state: u32,
) -> (verdict: Result<(), String>)
    requires
        sums_fit(results@),
    ensures
        verdict is Ok <==> all_hold(
            safety_gates(results@, mapped_waker_state, mapped_token_state),
        ),
        verdict matches Err(detail) ==> detail@ == joined(
            failing(safety_gates(results@, mapped_waker_state, mapped_token_state)),
            "; "@,
        ),
{
    let ghost gates = safety_gates(results@, mapped_waker_state, mapped_token_state);
    let mut ledger: Ledger = Ledger::new();
    check_schema(results, &mut ledger);
    check_participation(results, &mut ledger);
    let rows: Vec<Exact> = phase_one_and_two_rows();
    check_exact(results, &rows, &mut ledger);
    check_reuse(results, mapped_waker_state, &mut ledger);
    check_runners(results, &mut ledger);
    check_tasks(results, &mut ledger);
    check_task_sums(results, &mut ledger);
    check_phase_three_gates(results, mapped_token_state, &mut ledger);
    assert(Seq::<Gate>::empty() + schema_gates(results@) =~= schema_gates(results@));
    assert(ledger.gates() == gates);
    let failures: Vec<String> = ledger.into_failures();
    proof {
        failing_is_empty_iff_all_hold(gates);
        assert(failures@.len() == texts(failures@).len());
    }
    if failures.len() == 0 {
        Ok(())
    } else {
        Err(join(&failures, "; "))
    }
}

/// What the safety run comes to: the failures of all gates that do not hold, one
/// behind the other.
pub open spec fn safety_failure(
    words: Seq<u64>,
    mapped_waker_state: u32,
    mapped_token_state: u32,
) -> Option<Failure> {
    let gates = safety_gates(words, mapped_waker_state, mapped_token_state);
    if all_hold(gates) {
        None
    } else {
        Some(rejected("priority_handle_safety_stress"@, joined(failing(gates), "; "@)))
    }
}

/// Judges the safety run by its words and the two mapped states.
///
/// The numbers of references to the context after the drop, before and after the
/// join and after the last drop (words 18 and 610 to 612) are recorded but have no
/// gate: no verdict depends on them (`open_references_have_no_gate`).
pub fn judge_safety(
    results: &SafetyResults,
    mapped_waker_state: u32,
    mapped_token_state: u32,
) -> (result: Result<(), HarnessError>)
    requires
        sums_fit(results@),
    ensures
        reported(result) == safety_failure(results@, mapped_waker_state, mapped_token_state),
{
    match evaluate(results, mapped_waker_state, mapped_token_state) {
        Ok(()) => Ok(()),
        Err(detail) => Err(
            HarnessError::verification(
                "priority_handle_safety_stress",
                say(detail.as_str()),
            ),
        ),
    }
}

/// A row of a table whose gates hold has the value that the row asks for.
pub(crate) proof fn lemma_row_holds(words: Seq<u64>, rows: Seq<Exact>, i: int)
    requires
        all_hold(exact_gates(words, rows)),
        0 <= i < rows.len(),
    ensures
        words[rows[i].index as int] == rows[i].expected,
{
    assert(exact_gates(words, rows)[i].holds);
}

/// The gates of an accepted run, group by group.
pub(crate) proof fn lemma_accepted_groups(words: Seq<u64>, mapped_waker_state: u32, mapped_token_state: u32)
    requires
        all_hold(safety_gates(words, mapped_waker_state, mapped_token_state)),
    ensures
        all_hold(schema_gates(words)),
        all_hold(participation_gates(words)),
        all_hold(exact_gates(words, phase_one_and_two_table())),
        all_hold(reuse_gates(words, mapped_waker_state)),
        all_hold(runner_gates(words)),
        all_hold(task_gates(words)),
        all_hold(task_sum_gates(words)),
        all_hold(exact_gates(words, phase_three_table())),
        all_hold(shutdown_gates(words, mapped_token_state)),
{
    let g1 = schema_gates(words);
    let g2 = participation_gates(words);
    let g3 = exact_gates(words, phase_one_and_two_table());
    let g4 = reuse_gates(words, mapped_waker_state);
    let g5 = runner_gates(words);
    let g6 = task_gates(words);
    let g7 = task_sum_gates(words);
    let g8 = phase_three_gates(words, mapped_token_state);
    all_hold_of_concatenation(g1 + g2 + g3 + g4 + g5 + g6 + g7, g8);
    all_hold_of_concatenation(g1 + g2 + g3 + g4 + g5 + g6, g7);
    all_hold_of_concatenation(g1 + g2 + g3 + g4 + g5, g6);
    all_hold_of_concatenation(g1 + g2 + g3 + g4, g5);
    all_hold_of_concatenation(g1 + g2 + g3, g4);
    all_hold_of_concatenation(g1 + g2, g3);
    all_hold_of_concatenation(g1, g2);
    all_hold_of_concatenation(
        exact_gates(words, phase_three_table()),
        shutdown_gates(words, mapped_token_state),
    );
}

/// Words that the kernel never wrote are rejected, whatever the mapped states say.
pub proof fn untouched_words_are_rejected(
    words: Seq<u64>,
    mapped_waker_state: u32,
    mapped_token_state: u32,
)
    requires
        words.len() == RESULT_WORDS,
        all_zero(words),
    ensures
        !all_hold(safety_gates(words, mapped_waker_state, mapped_token_state)),
        !all_hold(phase_three_gates(words, mapped_token_state)),
        failing(phase_three_gates(words, mapped_token_state)).contains(
            exact_gate(words, phase_three_table()[3]).detail,
        ),
{
    let gates = phase_three_gates(words, mapped_token_state);
    assert(words[field::DONOR_SPAWN_OK as int] == 0);
    assert(gates[3] == exact_gate(words, phase_three_table()[3]));
    assert(!gates[3].holds);
    failing_gate_is_reported(gates, 3);
    if all_hold(safety_gates(words, mapped_waker_state, mapped_token_state)) {
        lemma_accepted_groups(words, mapped_waker_state, mapped_token_state);
        lemma_row_holds(words, phase_three_table(), 3);
    }
}

/// In an accepted run the shutdown events happened one after the other: the first
/// pending poll, the shutdown, the cancelled wait, the wait that was already
/// joined, the drops, the teardown.
pub proof fn accepted_run_orders_shutdown_events(words: Seq<u64>, mapped_token_state: u32)
    requires
        all_hold(phase_three_gates(words, mapped_token_state)),
    ensures
        0 < words[field::FIRST_PENDING_SEQUENCE as int] < words[field::SHUTDOWN_SEQUENCE as int]
            < words[field::CANCELLED_SEQUENCE as int] < words[field::ALREADY_JOINED_SEQUENCE as int]
            < words[field::DROP_SEQUENCE as int] < words[field::TEARDOWN_SEQUENCE as int],
        words[field::TEARDOWN_SEQUENCE as int] == words[field::EVENT_SEQUENCE as int],
{
    all_hold_of_concatenation(
        exact_gates(words, phase_three_table()),
        shutdown_gates(words, mapped_token_state),
    );
    let rows = phase_three_table();
    lemma_row_holds(words, rows, 21);
    lemma_row_holds(words, rows, 22);
    lemma_row_holds(words, rows, 23);
    lemma_row_holds(words, rows, 24);
    lemma_row_holds(words, rows, 25);
    lemma_row_holds(words, rows, 26);
    lemma_row_holds(words, rows, 27);
}

/// In an accepted run every reclaim is settled in the end, one at the join and one
/// at the drop.
pub proof fn accepted_run_settles_reclaims(words: Seq<u64>, mapped_token_state: u32)
    requires
        all_hold(phase_three_gates(words, mapped_token_state)),
    ensures
        words[field::PRE_JOIN_PENDING_RECLAIMS as int]
            == words[field::POST_JOIN_PENDING_RECLAIMS as int] + 1,
        words[field::POST_JOIN_PENDING_RECLAIMS as int]
            == words[field::POST_DROP_PENDING_RECLAIMS as int] + 1,
        words[field::FINAL_PENDING_RECLAIMS as int] == 0,
        words[field::FINAL_SPAWNED as int] == words[field::FINAL_COMPLETED as int],
        words[field::FINAL_ACTIVE as int] == 0,
{
    all_hold_of_concatenation(
        exact_gates(words, phase_three_table()),
        shutdown_gates(words, mapped_token_state),
    );
    let rows = phase_three_table();
    lemma_row_holds(words, rows, 15);
    lemma_row_holds(words, rows, 16);
    lemma_row_holds(words, rows, 17);
    lemma_row_holds(words, rows, 18);
    lemma_row_holds(words, rows, 28);
    lemma_row_holds(words, rows, 29);
    lemma_row_holds(words, rows, 30);
}

/// In an accepted run every task of the second phase was polled twice and
/// completed once.
pub proof fn accepted_run_polls_every_task_twice(
    words: Seq<u64>,
    mapped_waker_state: u32,
    mapped_token_state: u32,
    id: int,
)
    requires
        all_hold(safety_gates(words, mapped_waker_state, mapped_token_state)),
        0 <= id < MAX_TASKS,
    ensures
        task_polls(words)[id] == 2,
        task_completions(words)[id] == 1,
{
    lemma_accepted_groups(words, mapped_waker_state, mapped_token_state);
    lemma_row_holds(words, phase_one_and_two_table(), 11);
    assert(task_gates(words)[id].holds);
}

/// In an accepted run the slot came back under a later generation, so that the
/// old key is stale.
pub proof fn accepted_run_advances_generation(
    words: Seq<u64>,
    mapped_waker_state: u32,
    mapped_token_state: u32,
)
    requires
        all_hold(safety_gates(words, mapped_waker_state, mapped_token_state)),
    ensures
        words[field::NEW_SLOT as int] == words[field::OLD_SLOT as int] < MAX_TASKS,
        0 < words[field::OLD_GENERATION as int] < words[field::NEW_GENERATION as int],
        words[field::OLD_KEY_STALE as int] == 1,
{
    lemma_accepted_groups(words, mapped_waker_state, mapped_token_state);
    lemma_row_holds(words, phase_one_and_two_table(), 7);
    assert(reuse_gates(words, mapped_waker_state)[0].holds);
    assert(reuse_gates(words, mapped_waker_state)[1].holds);
    assert(participation_gates(words)[8].holds);
    assert(participation_gates(words)[9].holds);
}

/// Whether a word counts references to the context at a moment at which any number
/// is acceptable.
pub open spec fn counts_open_references(place: int) -> bool {
    ||| place == field::AFTER_DROP_CONTEXT_REFS
    ||| place == field::PRE_JOIN_CONTEXT_REFS
    ||| place == field::POST_JOIN_CONTEXT_REFS
    ||| place == field::POST_DROP_CONTEXT_REFS
}

/// What a safety run comes to does not depend on the references to the context that
/// were counted after the drop, before and after the join and after the last drop.
pub proof fn open_references_have_no_gate(
    words: Seq<u64>,
    place: int,
    count: u64,
    mapped_waker_state: u32,
    mapped_token_state: u32,
)
    requires
        words.len() == RESULT_WORDS,
        counts_open_references(place),
    ensures
        safety_failure(words.update(place, count), mapped_waker_state, mapped_token_state)
            == safety_failure(words, mapped_waker_state, mapped_token_state),
{
    let other = words.update(place, count);
    assert(runner_tasks(other) =~= runner_tasks(words));
    assert(runner_polls(other) =~= runner_polls(words));
    assert(task_polls(other) =~= task_polls(words));
    assert(task_completions(other) =~= task_completions(words));
    assert(other.subrange(62, 64) =~= words.subrange(62, 64));
    assert(other.subrange(field::RESERVED_PHASE_THREE_0 as int, RESULT_WORDS as int)
        =~= words.subrange(field::RESERVED_PHASE_THREE_0 as int, RESULT_WORDS as int));
    lemma_same_exact_gates(words, other, phase_one_and_two_table(), place);
    lemma_same_exact_gates(words, other, phase_three_table(), place);
    assert(task_gates(other) =~= task_gates(words));
    assert(schema_gates(other) =~= schema_gates(words));
    assert(participation_gates(other) =~= participation_gates(words));
    assert(reuse_gates(other, mapped_waker_state) =~= reuse_gates(words, mapped_waker_state));
    assert(shutdown_gates(other, mapped_token_state) =~= shutdown_gates(
        words,
        mapped_token_state,
    ));
}

/// A table that leaves a word out has the same gates whatever the word is.
proof fn lemma_same_exact_gates(
    words: Seq<u64>,
    other: Seq<u64>,
    rows: Seq<Exact>,
    place: int,
)
    requires
        forall|i: int|
            0 <= i < rows.len() ==> (#[trigger] rows[i]).index != place && rows[i].index
                < words.len(),
        forall|i: int|
            0 <= i < words.len() && i != place ==> #[trigger] other[i] == words[i],
    ensures
        exact_gates(other, rows) == exact_gates(words, rows),
{
    assert forall|i: int| 0 <= i < rows.len() implies #[trigger] exact_gates(other, rows)[i]
        == exact_gates(words, rows)[i] by {
        assert(rows[i].index != place);
    }
    assert(exact_gates(other, rows) =~= exact_gates(words, rows));
}

/// The host gives up when the time that its report states is over, and the buffers have
/// the sizes that the kernel expects: the state of the token stands behind the waker.
pub proof fn limits_are_those_reported()
    ensures
        KERNEL_TIMEOUT_SECONDS == 30,
        RESULT_WORDS == 64 + 2 * 256 + 40,
        EXECUTOR_BYTES == 512 * 1024,
        STORAGE_BYTES == 256,
        TOKEN_STATE_OFFSET == 64,
        MAX_TASKS == 256,
{
}

} // verus!
