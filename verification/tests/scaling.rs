use gpu_test_harness::error::{FailureKind, HarnessError};
use gpu_test_harness::scaling::{
    hears_block, judge_async_blocks, judge_contention, judge_fleet, judge_printing,
    judge_propagation, judge_reuse, judge_showcase, judge_steps, showcase_input, Fleet, Roll,
};
use gpu_test_harness::tally::sum_words;

fn strings(texts: &[&str]) -> Vec<String> {
    texts.iter().map(|t| t.to_string()).collect()
}

fn rejection<T>(result: Result<T, HarnessError>) -> (&'static str, String) {
    let error = result.err().unwrap();
    assert_eq!(error.kind, FailureKind::Verification);
    (error.test, error.detail)
}

fn roll_call(threads: usize, digits: usize) -> Vec<String> {
    (0..threads)
        .map(|t| format!("Thread {t:0digits$} says hello"))
        .collect()
}

#[test]
fn fleet_sizes() {
    let size = Fleet::EightBlocks.size();
    assert_eq!((size.blocks, size.threads_per_block, size.packets), (8, 64, 1024));
    let size = Fleet::FourBlocks.size();
    assert_eq!((size.blocks, size.threads_per_block, size.packets), (4, 32, 256));
    let size = Fleet::Warp.size();
    assert_eq!((size.blocks, size.threads_per_block, size.packets), (1, 32, 64));
}

#[test]
fn complete_fleets_are_accepted() {
    let mut messages = roll_call(512, 3);
    messages.push("Thread 000 says hello".to_string());
    assert_eq!(
        judge_fleet(Fleet::EightBlocks, 1, 512, &messages).unwrap(),
        Roll { messages: 513, unique: 512, duplicates: 1 }
    );
    assert!(judge_fleet(Fleet::Warp, 1, 32, &roll_call(32, 2)).is_ok());
    assert!(judge_fleet(Fleet::FourBlocks, 1, 128, &roll_call(128, 3)).is_ok());
}

#[test]
fn fleet_markers_are_looked_at_first() {
    assert_eq!(
        rejection(judge_fleet(Fleet::Warp, 0, 5, &Vec::new())),
        (
            "multi_warp_sync_kernel",
            "success marker not set (got 0)".to_string()
        )
    );
    assert_eq!(
        rejection(judge_fleet(Fleet::FourBlocks, 1, 96, &Vec::new())),
        (
            "multi_block_sync_kernel",
            "expected thread_count=128, got 96".to_string()
        )
    );
}

#[test]
fn missing_threads_are_listed() {
    let mut messages = roll_call(32, 2);
    messages.remove(17);
    messages.remove(4);
    assert_eq!(
        rejection(judge_fleet(Fleet::Warp, 1, 32, &messages)),
        (
            "multi_warp_sync_kernel",
            "expected messages from all 32 threads, got 30 unique. Missing: [4, 17]".to_string()
        )
    );
}

#[test]
fn only_twenty_missing_threads_of_the_largest_fleet_are_listed() {
    let messages = roll_call(490, 3);
    assert_eq!(
        rejection(judge_fleet(Fleet::EightBlocks, 1, 512, &messages)),
        (
            "multi_block_512",
            "expected messages from all 512 threads, got 490 unique. Missing (first 20): \
             [490, 491, 492, 493, 494, 495, 496, 497, 498, 499, 500, 501, 502, 503, 504, 505, \
             506, 507, 508, 509]"
                .to_string()
        )
    );
    let messages = roll_call(511, 3);
    assert_eq!(
        rejection(judge_fleet(Fleet::EightBlocks, 1, 512, &messages)).1,
        "expected messages from all 512 threads, got 511 unique. Missing (first 20): [511]"
    );
}

#[test]
fn steps_of_the_pipeline() {
    let messages = strings(&["step 1: READ", "step 2: PROCESS", "step 3: WRITE", "step 4: PRINT"]);
    assert!(judge_steps(1, 9, &messages, "").is_ok());
    assert_eq!(
        rejection(judge_steps(0, 9, &messages, "")),
        (
            "pipeline_kernel",
            "success marker not set (got 0), poll_rounds=9".to_string()
        )
    );
    let messages = strings(&["step 1: READ", "step 3: WRITE"]);
    assert_eq!(
        rejection(judge_steps(1, 9, &messages, "[..]")).1,
        "expected 4 pipeline steps, found 2. Messages: [..]"
    );
}

#[test]
fn showcase_needs_all_its_content() {
    let messages = strings(&["Hello, Rustacean!", "sum=220 min=3", "Goodbye"]);
    assert!(judge_showcase(1, 4, &messages, "").is_ok());
    assert_eq!(
        rejection(judge_showcase(2, 4, &messages, "")).1,
        "kernel reported failure (success=2)"
    );
    assert_eq!(
        rejection(judge_showcase(1, 3, &messages, "")),
        (
            "showcase_kernel",
            "expected 4 stdout messages, got 3".to_string()
        )
    );
    let messages = strings(&["Hello", "Rustacean", "sum=220"]);
    assert_eq!(
        rejection(judge_showcase(1, 4, &messages, "[m]")).1,
        "missing expected content (greeting=false, stats=true, goodbye=false). Messages: [m]"
    );
    assert_eq!(sum_words(&showcase_input()), Some(220));
}

#[test]
fn every_async_block_must_be_heard() {
    let messages = strings(&["block 3", "from block 0", "block 1", "block 2!"]);
    assert!(judge_async_blocks(4, &messages).is_ok());
    assert!(hears_block(&strings(&["block 12"]), 1));
    assert_eq!(
        rejection(judge_async_blocks(3, &messages)),
        (
            "multi_block_async_kernel",
            "only 3/4 threads completed".to_string()
        )
    );
    assert_eq!(
        rejection(judge_async_blocks(4, &strings(&["block 3", "block 0"]))).1,
        "missing messages from some blocks. Seen: [true, false, false, true]"
    );
}

#[test]
fn error_propagation() {
    assert!(judge_propagation(1, 3, 1, 2, 2).is_ok());
    assert_eq!(
        rejection(judge_propagation(0, 2, 1, 0, 5)),
        (
            "error_propagation_test",
            "not all tests passed (2/3). categories: open=1, close=0, read=5".to_string()
        )
    );
}

#[test]
fn printing_counts_as_a_whole() {
    let messages = strings(&["hello from", " GPU\nvalue = ", "42\nx=8", "4, y=52\n"]);
    assert!(judge_printing(1, &messages, "").is_ok());
    assert_eq!(
        rejection(judge_printing(1, &strings(&["hello from GPU", "x=84"]), "..")),
        (
            "println_direct_test_kernel",
            "missing expected content (hello=true, value=false, multi=false). Full output: .."
                .to_string()
        )
    );
    assert_eq!(
        rejection(judge_printing(0, &messages, "")).1,
        "kernel reported failure (success=0)"
    );
}

#[test]
fn allocator() {
    assert!(judge_reuse(1, 20).is_ok());
    assert_eq!(
        rejection(judge_reuse(0, 13)),
        (
            "slab_dealloc_test_kernel",
            "expected 20 successful cycles, got 13".to_string()
        )
    );
    let mut cycles = vec![5u32; 32];
    assert!(judge_contention(&cycles).is_ok());
    cycles[3] = 4;
    cycles[31] = 6;
    assert_eq!(
        rejection(judge_contention(&cycles)),
        (
            "slab_concurrent_test_kernel",
            "expected all 32 threads to complete 5 cycles, got 30/32 threads OK. \
             Failed: [(3, 4), (31, 6)]"
                .to_string()
        )
    );
}
