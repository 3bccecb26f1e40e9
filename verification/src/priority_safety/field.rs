//! Positions of the words in the result buffer of the handle safety kernel.
use vstd::prelude::*;

verus! {

pub const VERSION: usize = 0;

pub const WORDS: usize = 1;

pub const PHASE: usize = 2;

pub const KERNEL_ERROR: usize = 3;

pub const EXPECTED_RUNNER_MASK: usize = 4;

pub const PHASE_ONE_ENTER_MASK: usize = 5;

pub const PHASE_ONE_EXIT_MASK: usize = 6;

pub const PHASE_TWO_ENTER_MASK: usize = 7;

pub const PHASE_TWO_EXIT_MASK: usize = 8;

pub const POLL_BLOCK_MASK: usize = 9;

pub const CAPTURE_BLOCK_MASK: usize = 10;

pub const OLD_SLOT: usize = 11;

pub const OLD_GENERATION: usize = 12;

pub const PIN_CONTEXT_REFS: usize = 13;

pub const PIN_PENDING_RECLAIMS: usize = 14;

pub const PIN_ACTIVE_TASKS: usize = 15;

pub const PIN_HIGH_SUCCESSES: usize = 16;

pub const PIN_NO_FREE_SLOTS: usize = 17;

pub const AFTER_DROP_CONTEXT_REFS: usize = 18;

pub const AFTER_DROP_PENDING_RECLAIMS: usize = 19;

pub const REUSE_SPAWN_OK: usize = 20;

pub const NEW_SLOT: usize = 21;

pub const NEW_GENERATION: usize = 22;

pub const OLD_KEY_STALE: usize = 23;

pub const PHASE_ONE_SPAWNED: usize = 24;

pub const PHASE_ONE_COMPLETED: usize = 25;

pub const PHASE_ONE_ACTIVE_FINAL: usize = 26;

pub const PHASE_TWO_SPAWN_SUCCESSES: usize = 27;

pub const TOTAL_SPAWNED: usize = 28;

pub const TOTAL_COMPLETED: usize = 29;

pub const TOTAL_ACTIVE_FINAL: usize = 30;

pub const SHUTDOWN_COMPLETE: usize = 31;

pub const WAKER_STATE_FINAL: usize = 32;

pub const HOLD_RELEASE: usize = 33;

pub const STORED_WAKER_SIZE: usize = 34;

pub const STORED_WAKER_ALIGN: usize = 35;

pub const TERMINAL_WAKE_ACTIVE_BEFORE: usize = 36;

pub const TERMINAL_WAKE_ACTIVE_AFTER: usize = 37;

pub const TERMINAL_WAKE_COMPLETED_BEFORE: usize = 38;

pub const TERMINAL_WAKE_COMPLETED_AFTER: usize = 39;

pub const RUNNER_TASKS_BASE: usize = 40;

pub const RUNNER_POLLS_BASE: usize = 48;

pub const TERMINAL_WAKE_RECLAIMS_BEFORE: usize = 56;

pub const TERMINAL_WAKE_RECLAIMS_AFTER: usize = 57;

pub const TERMINAL_WAKE_SPAWNED_BEFORE: usize = 58;

pub const TERMINAL_WAKE_SPAWNED_AFTER: usize = 59;

pub const REUSE_QUEUE_FULL_RETRIES: usize = 60;

pub const REUSE_ERROR_CODE: usize = 61;

pub const TWO_POLL_COUNTS_BASE: usize = 64;

pub const TWO_COMPLETE_COUNTS_BASE: usize = 320;

pub const PHASE_THREE_ENTER_MASK: usize = 576;

pub const PHASE_THREE_EXIT_MASK: usize = 577;

pub const TOKEN_STATE_FINAL: usize = 578;

pub const STORED_TOKEN_SIZE: usize = 579;

pub const STORED_TOKEN_ALIGN: usize = 580;

pub const DONOR_SPAWN_OK: usize = 581;

pub const DONOR_HANDLE_DROPPED: usize = 582;

pub const DONOR_TOKEN_PUBLISHED: usize = 583;

pub const TARGET_SPAWN_OK: usize = 584;

pub const TARGET_FIRST_POLLED: usize = 585;

pub const TARGET_POLL_COUNT: usize = 586;

pub const SHUTDOWN_REQUESTED: usize = 587;

pub const FIRST_WAIT_CANCELLED: usize = 588;

pub const SECOND_WAIT_ALREADY_JOINED: usize = 589;

pub const WAIT_POLL_ATTEMPTS: usize = 590;

pub const TOKEN_DROPPED: usize = 591;

pub const HANDLE_DROPPED: usize = 592;

pub const FINAL_CONTEXT_REFS: usize = 593;

pub const FINAL_PENDING_RECLAIMS: usize = 594;

pub const FINAL_ACTIVE: usize = 595;

pub const FINAL_SPAWNED: usize = 596;

pub const FINAL_COMPLETED: usize = 597;

pub const FINAL_CAN_TEARDOWN: usize = 598;

pub const PHASE_THREE_SPAWN_SUCCESSES: usize = 599;

pub const EVENT_SEQUENCE: usize = 600;

pub const FIRST_PENDING_SEQUENCE: usize = 601;

pub const SHUTDOWN_SEQUENCE: usize = 602;

pub const CANCELLED_SEQUENCE: usize = 603;

pub const ALREADY_JOINED_SEQUENCE: usize = 604;

pub const DROP_SEQUENCE: usize = 605;

pub const TEARDOWN_SEQUENCE: usize = 606;

pub const PRE_JOIN_PENDING_RECLAIMS: usize = 607;

pub const POST_JOIN_PENDING_RECLAIMS: usize = 608;

pub const POST_DROP_PENDING_RECLAIMS: usize = 609;

pub const PRE_JOIN_CONTEXT_REFS: usize = 610;

pub const POST_JOIN_CONTEXT_REFS: usize = 611;

pub const POST_DROP_CONTEXT_REFS: usize = 612;

pub const TARGET_SELF_WAKE_ISSUED: usize = 613;

pub const RESERVED_PHASE_THREE_0: usize = 614;

} // verus!
