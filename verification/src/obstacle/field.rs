//! Positions of the words in the result buffer of the obstacle stress kernel.
use vstd::prelude::*;

verus! {

pub const VERSION: usize = 0;

pub const PHASE: usize = 1;

pub const LOW_ADMITTED_TOTAL: usize = 2;

pub const LOW_WORK_ADMITTED: usize = 3;

pub const LOW_RESERVED_REJECTIONS: usize = 4;

pub const LOW_OTHER_REJECTIONS: usize = 5;

pub const HIGH_SPAWN_OK: usize = 6;

pub const POS_INJECT_SEQ: usize = 7;

pub const POS_HIGH_FIRST_SEQ: usize = 8;

pub const POS_HIGH_FIRST_GAP: usize = 9;

pub const POS_HIGH_RESUME_SEQ: usize = 10;

pub const POS_HIGH_RESUME_GAP: usize = 11;

pub const LOW_COMPLETED: usize = 12;

pub const POS_SPAWNED: usize = 13;

pub const POS_COMPLETED: usize = 14;

pub const RESERVED_PASS: usize = 15;

pub const FIRST_POLL_PASS: usize = 16;

pub const WAKER_PASS: usize = 17;

pub const LOW_EVENTUAL_PASS: usize = 18;

pub const POSITIVE_PASS: usize = 19;

pub const POS_INJECT_NS: usize = 20;

pub const POS_HIGH_FIRST_NS: usize = 21;

pub const POS_LATENCY_NS: usize = 22;

pub const NEG_HIGH_SPAWN_OK: usize = 23;

pub const NEG_INJECT_SEQ: usize = 24;

pub const NEG_LOW_RETURN_SEQ: usize = 25;

pub const NEG_HIGH_FIRST_SEQ: usize = 26;

pub const NEG_INJECT_NS: usize = 27;

pub const NEG_LOW_RETURN_NS: usize = 28;

pub const NEG_HIGH_FIRST_NS: usize = 29;

pub const NEG_LATENCY_NS: usize = 30;

pub const NEG_NO_MIDPOLL_PASS: usize = 31;

pub const FRESH_ACTION: usize = 32;

pub const FRESH_REASON: usize = 33;

pub const FRESH_USED_GPU_RESULT: usize = 34;

pub const STALE_ACTION: usize = 35;

pub const STALE_REASON: usize = 36;

pub const STALE_USED_GPU_RESULT: usize = 37;

pub const DEADLINE_ACTION: usize = 38;

pub const DEADLINE_REASON: usize = 39;

pub const DEADLINE_USED_GPU_RESULT: usize = 40;

pub const DECISION_PASS: usize = 41;

pub const POS_DISPATCH_SEQUENCE: usize = 42;

pub const NEG_DISPATCH_SEQUENCE: usize = 43;

pub const EXPECTED_LOW_LIMIT: usize = 44;

pub const NEG_BUSY_ITERS: usize = 45;

pub const OVERALL_PASS: usize = 46;

pub const WORD_COUNT: usize = 47;

} // verus!
