//! Verdicts on kernels that run with many threads and blocks, and on the kernels
//! for output, errors and the allocator.
use vstd::prelude::*;
use crate::error::{rejected, reported, Failure, HarnessError};
use crate::messages::{
    concatenate, contains, find_silent, heard_threads_sent_messages, mention, mentioned, occurs,
    run_together, silent,
};
use crate::text::{bracketed, decimal, join, joined, say, texts, truth, Line};

verus! {

/// A launch whose threads each send one message.
#[derive(Clone, Copy, PartialEq, Eq, Structural, Debug)]
pub enum Fleet {
    /// One full warp.
    Warp,
    /// Four blocks of one warp each.
    FourBlocks,
    /// Eight blocks of two warps each.
    EightBlocks,
}

/// The sizes of a fleet.
#[derive(Clone, Copy, PartialEq, Eq, Structural, Debug)]
pub struct FleetSize {
    pub blocks: u32,
    pub threads_per_block: u32,
    /// The packets of the buffer that the threads share.
    pub packets: u16,
}

/// The sizes of a fleet.
pub open spec fn fleet_size(fleet: Fleet) -> FleetSize {
    match fleet {
        Fleet::Warp => FleetSize { blocks: 1, threads_per_block: 32, packets: 64 },
        Fleet::FourBlocks => FleetSize { blocks: 4, threads_per_block: 32, packets: 256 },
        Fleet::EightBlocks => FleetSize { blocks: 8, threads_per_block: 64, packets: 1024 },
    }
}

/// How many threads a fleet has.
pub open spec fn fleet_threads(fleet: Fleet) -> nat {
    (fleet_size(fleet).blocks * fleet_size(fleet).threads_per_block) as nat
}

/// The name under which a fleet reports.
pub open spec fn fleet_test(fleet: Fleet) -> Seq<char> {
    match fleet {
        Fleet::Warp => "multi_warp_sync_kernel"@,
        Fleet::FourBlocks => "multi_block_sync_kernel"@,
        Fleet::EightBlocks => "multi_block_512"@,
    }
}

/// A warp numbers its threads with two digits, the others with three.
pub open spec fn fleet_is_wide(fleet: Fleet) -> bool {
    fleet != Fleet::Warp
}

/// Every fleet has two packets for each of its threads.
pub proof fn every_thread_has_two_packets(fleet: Fleet)
    ensures
        fleet_threads(fleet) * 2 == fleet_size(fleet).packets,
{
}

impl Fleet {
    /// The sizes of the fleet.
    pub fn size(self) -> (size: FleetSize)
        ensures
            size == fleet_size(self),
    {
        match self {
            Fleet::Warp => FleetSize { blocks: 1, threads_per_block: 32, packets: 64 },
            Fleet::FourBlocks => FleetSize { blocks: 4, threads_per_block: 32, packets: 256 },
            Fleet::EightBlocks => FleetSize { blocks: 8, threads_per_block: 64, packets: 1024 },
        }
    }

    /// The name under which the fleet reports.
    pub fn test(self) -> (name: &'static str)
        ensures
            name@ == fleet_test(self),
    {
        match self {
            Fleet::Warp => "multi_warp_sync_kernel",
            Fleet::FourBlocks => "multi_block_sync_kernel",
            Fleet::EightBlocks => "multi_block_512",
        }
    }
}

/// What a fleet of which every thread was heard sent.
#[derive(Clone, Copy, PartialEq, Eq, Structural, Debug)]
pub struct Roll {
    pub messages: u64,
    pub unique: u64,
    pub duplicates: u64,
}

/// How many silent threads of the largest fleet are listed.
pub const LISTED_SILENT: usize = 20;

/// The list of the silent threads, with the wording before it.
pub open spec fn silent_list(fleet: Fleet, missing: Seq<u64>) -> Seq<char> {
    if fleet == Fleet::EightBlocks {
        " unique. Missing (first 20): "@ + bracketed(
            if missing.len() > LISTED_SILENT {
                missing.take(LISTED_SILENT as int)
            } else {
                missing
            },
        )
    } else {
        " unique. Missing: "@ + bracketed(missing)
    }
}

/// What a fleet comes to. It must report success and the right number of threads,
/// and a message must name each of them.
pub open spec fn fleet_failure(
    fleet: Fleet,
    success: nat,
    threads: nat,
    messages: Seq<Seq<char>>,
) -> Option<Failure> {
    let total = fleet_threads(fleet);
    let missing = silent(messages, fleet_is_wide(fleet), total);
    if success != 1 {
        Some(
            rejected(
                fleet_test(fleet),
                "success marker not set (got "@ + decimal(success) + ")"@,
            ),
        )
    } else if threads != total {
        Some(
            rejected(
                fleet_test(fleet),
                "expected thread_count="@ + decimal(total) + ", got "@ + decimal(threads),
            ),
        )
    } else if missing.len() > 0 {
        Some(
            rejected(
                fleet_test(fleet),
                "expected messages from all "@ + decimal(total) + " threads, got "@ + decimal(
                    (total - missing.len()) as nat,
                ) + silent_list(fleet, missing),
            ),
        )
    } else {
        None
    }
}

/// What an accepted fleet sent: a message of every thread, and duplicates.
pub open spec fn roll_of(fleet: Fleet, messages: nat) -> Roll {
    Roll {
        messages: messages as u64,
        unique: fleet_threads(fleet) as u64,
        duplicates: (messages - fleet_threads(fleet)) as u64,
    }
}

/// Judges a fleet.
pub fn judge_fleet(
    fleet: Fleet,
    success: u32,
    threads: u32,
    messages: &Vec<String>,
) -> (result: Result<Roll, HarnessError>)
    ensures
        reported(result) == fleet_failure(
            fleet,
            success as nat,
            threads as nat,
            texts(messages@),
        ),
        result matches Ok(roll) ==> roll.messages == messages@.len() && roll.unique
            == fleet_threads(fleet) && roll.duplicates == messages@.len() - fleet_threads(fleet),
        result matches Ok(roll) ==> roll == roll_of(fleet, messages@.len()),
{
    let size: FleetSize = fleet.size();
    let total: u32 = size.blocks * size.threads_per_block;
    if success != 1 {
        return Err(
            HarnessError::verification(
                fleet.test(),
                say("success marker not set (got ").dec(success as u64).text(")"),
            ),
        );
    }
    if threads != total {
        return Err(
            HarnessError::verification(
                fleet.test(),
                say("expected thread_count=").dec(total as u64).text(", got ").dec(threads as u64),
            ),
        );
    }
    let wide: bool = match fleet {
        Fleet::Warp => false,
        _ => true,
    };
    let mut missing: Vec<u64> = find_silent(messages, wide, total as u64);
    proof {
        heard_threads_sent_messages(texts(messages@), wide, total as nat);
    }
    if missing.len() > 0 {
        let unique: u64 = total as u64 - missing.len() as u64;
        let line: Line = say("expected messages from all ").dec(total as u64).text(
            " threads, got ",
        ).dec(unique);
        let ghost all = missing@;
        let tail: Line = match fleet {
            Fleet::EightBlocks => {
                if missing.len() > LISTED_SILENT {
                    missing.truncate(LISTED_SILENT);
                    assert(missing@ =~= all.take(LISTED_SILENT as int));
                }
                say(" unique. Missing (first 20): ").list(&missing)
            },
            _ => say(" unique. Missing: ").list(&missing),
        };
        let listed: String = tail.done();
        return Err(HarnessError::verification(fleet.test(), line.text(listed.as_str())));
    }
    Ok(
        Roll {
            messages: messages.len() as u64,
            unique: total as u64,
            duplicates: messages.len() as u64 - total as u64,
        },
    )
}

/// Every thread of an accepted fleet sent a message.
pub proof fn accepted_fleet_was_heard(
    fleet: Fleet,
    success: nat,
    threads: nat,
    messages: Seq<Seq<char>>,
    thread: int,
)
    requires
        fleet_failure(fleet, success, threads, messages) is None,
        0 <= thread < fleet_threads(fleet),
    ensures
        crate::messages::heard(messages, fleet_is_wide(fleet), thread),
{
    crate::messages::silent_threads_are_complete(
        messages,
        fleet_is_wide(fleet),
        fleet_threads(fleet),
        thread,
    );
}

/// One for a thing that holds.
pub open spec fn one_if(holds: bool) -> nat {
    if holds {
        1
    } else {
        0
    }
}

/// How many of the four steps of the pipeline the messages mention.
pub open spec fn steps_found(messages: Seq<Seq<char>>) -> nat {
    one_if(mentioned(messages, "step 1: READ"@)) + one_if(mentioned(messages, "step 2: PROCESS"@))
        + one_if(mentioned(messages, "step 3: WRITE"@)) + one_if(
        mentioned(messages, "step 4: PRINT"@),
    )
}

/// What the pipeline of four steps comes to.
pub open spec fn steps_failure(
    success: nat,
    poll_rounds: nat,
    messages: Seq<Seq<char>>,
    shown: Seq<char>,
) -> Option<Failure> {
    let test = "pipeline_kernel"@;
    if success != 1 {
        Some(
            rejected(
                test,
                "success marker not set (got "@ + decimal(success) + "), poll_rounds="@ + decimal(
                    poll_rounds,
                ),
            ),
        )
    } else if steps_found(messages) != 4 {
        Some(
            rejected(
                test,
                "expected 4 pipeline steps, found "@ + decimal(steps_found(messages))
                    + ". Messages: "@ + shown,
            ),
        )
    } else {
        None
    }
}

/// Judges the pipeline of four steps. `shown` is the list of the messages for the
/// report.
pub fn judge_steps(
    success: u32,
    poll_rounds: u32,
    messages: &Vec<String>,
    shown: &str,
) -> (result: Result<(), HarnessError>)
    ensures
        reported(result) == steps_failure(
            success as nat,
            poll_rounds as nat,
            texts(messages@),
            shown@,
        ),
{
    if success != 1 {
        return Err(
            HarnessError::verification(
                "pipeline_kernel",
                say("success marker not set (got ").dec(success as u64).text(
                    "), poll_rounds=",
                ).dec(poll_rounds as u64),
            ),
        );
    }
    let mut found: u64 = 0;
    if mention(messages, "step 1: READ") {
        found += 1;
    }
    if mention(messages, "step 2: PROCESS") {
        found += 1;
    }
    if mention(messages, "step 3: WRITE") {
        found += 1;
    }
    if mention(messages, "step 4: PRINT") {
        found += 1;
    }
    if found != 4 {
        return Err(
            HarnessError::verification(
                "pipeline_kernel",
                say("expected 4 pipeline steps, found ").dec(found).text(". Messages: ").text(
                    shown,
                ),
            ),
        );
    }
    Ok(())
}

/// The numbers that the showcase kernel gets.
pub open spec fn showcase_numbers() -> Seq<u32> {
    seq![10u32, 25, 30, 7, 42, 15, 88, 3]
}

/// The numbers that the showcase kernel gets.
pub fn showcase_input() -> (numbers: Vec<u32>)
    ensures
        numbers@ == showcase_numbers(),
{
    let numbers: Vec<u32> = vec![10u32, 25, 30, 7, 42, 15, 88, 3];
    assert(numbers@ =~= showcase_numbers());
    numbers
}

/// Whether a message greets the name that was typed in.
pub open spec fn greeted(messages: Seq<Seq<char>>) -> bool {
    exists|m: int|
        0 <= m < messages.len() && occurs(#[trigger] messages[m], "Hello"@) && occurs(
            messages[m],
            "Rustacean"@,
        )
}

fn find_greeting(messages: &Vec<String>) -> (found: bool)
    ensures
        found == greeted(texts(messages@)),
{
    let mut m: usize = 0;
    while m < messages.len()
        invariant
            m <= messages.len(),
            forall|k: int|
                0 <= k < m ==> !(occurs(#[trigger] texts(messages@)[k], "Hello"@) && occurs(
                    texts(messages@)[k],
                    "Rustacean"@,
                )),
        decreases messages.len() - m,
    {
        assert(texts(messages@)[m as int] == messages@[m as int]@);
        if contains(messages[m].as_str(), "Hello") && contains(
            messages[m].as_str(),
            "Rustacean",
        ) {
            return true;
        }
        m += 1;
    }
    false
}

/// What the showcase comes to.
pub open spec fn showcase_failure(
    success: nat,
    sent: nat,
    messages: Seq<Seq<char>>,
    shown: Seq<char>,
) -> Option<Failure> {
    let test = "showcase_kernel"@;
    let greeting = greeted(messages);
    let stats = mentioned(messages, "sum=220"@);
    let goodbye = mentioned(messages, "Goodbye"@);
    if success != 1 {
        Some(
            rejected(test, "kernel reported failure (success="@ + decimal(success) + ")"@),
        )
    } else if sent < 4 {
        Some(rejected(test, "expected 4 stdout messages, got "@ + decimal(sent)))
    } else if !greeting || !stats || !goodbye {
        Some(
            rejected(
                test,
                "missing expected content (greeting="@ + truth(greeting) + ", stats="@ + truth(
                    stats,
                ) + ", goodbye="@ + truth(goodbye) + "). Messages: "@ + shown,
            ),
        )
    } else {
        None
    }
}

/// Judges the showcase. `sent` is the number of messages that the kernel counted,
/// `shown` the list of the messages for the report.
pub fn judge_showcase(success: u32, sent: u32, messages: &Vec<String>, shown: &str) -> (result:
    Result<(), HarnessError>)
    ensures
        reported(result) == showcase_failure(
            success as nat,
            sent as nat,
            texts(messages@),
            shown@,
        ),
{
    if success != 1 {
        return Err(
            HarnessError::verification(
                "showcase_kernel",
                say("kernel reported failure (success=").dec(success as u64).text(")"),
            ),
        );
    }
    if sent < 4 {
        return Err(
            HarnessError::verification(
                "showcase_kernel",
                say("expected 4 stdout messages, got ").dec(sent as u64),
            ),
        );
    }
    let greeting: bool = find_greeting(messages);
    let stats: bool = mention(messages, "sum=220");
    let goodbye: bool = mention(messages, "Goodbye");
    if !greeting || !stats || !goodbye {
        return Err(
            HarnessError::verification(
                "showcase_kernel",
                say("missing expected content (greeting=").flag(greeting).text(", stats=").flag(
                    stats,
                ).text(", goodbye=").flag(goodbye).text("). Messages: ").text(shown),
            ),
        );
    }
    Ok(())
}

/// The sum that the showcase must print is that of its input.
pub proof fn showcase_sum_is_that_of_the_input()
    ensures
        crate::tally::total(showcase_numbers()) == 220,
{
    let s = showcase_numbers();
    assert(crate::tally::total(s) == 220) by {
        reveal_with_fuel(crate::tally::total, 9);
    }
}

/// How many blocks run an executor of their own.
pub const ASYNC_BLOCKS: u32 = 4;

/// Whether a message comes from the block.
pub open spec fn block_heard(messages: Seq<Seq<char>>, block: nat) -> bool {
    mentioned(messages, "block "@ + decimal(block))
}

/// Whether a message comes from the block.
pub fn hears_block(messages: &Vec<String>, block: u64) -> (found: bool)
    ensures
        found == block_heard(texts(messages@), block as nat),
{
    let name: String = say("block ").dec(block).done();
    mention(messages, name.as_str())
}

/// What the blocks with executors of their own come to.
pub open spec fn async_blocks_failure(completed: nat, messages: Seq<Seq<char>>) -> Option<Failure> {
    let test = "multi_block_async_kernel"@;
    let (a, b, c, d) = (
        block_heard(messages, 0),
        block_heard(messages, 1),
        block_heard(messages, 2),
        block_heard(messages, 3),
    );
    if completed != ASYNC_BLOCKS {
        Some(rejected(test, "only "@ + decimal(completed) + "/4 threads completed"@))
    } else if !(a && b && c && d) {
        Some(
            rejected(
                test,
                "missing messages from some blocks. Seen: ["@ + truth(a) + ", "@ + truth(b)
                    + ", "@ + truth(c) + ", "@ + truth(d) + "]"@,
            ),
        )
    } else {
        None
    }
}

/// Judges the blocks with executors of their own.
pub fn judge_async_blocks(completed: u32, messages: &Vec<String>) -> (result: Result<
    (),
    HarnessError,
>)
    ensures
        reported(result) == async_blocks_failure(completed as nat, texts(messages@)),
{
    if completed != ASYNC_BLOCKS {
        return Err(
            HarnessError::verification(
                "multi_block_async_kernel",
                say("only ").dec(completed as u64).text("/4 threads completed"),
            ),
        );
    }
    let a: bool = hears_block(messages, 0);
    let b: bool = hears_block(messages, 1);
    let c: bool = hears_block(messages, 2);
    let d: bool = hears_block(messages, 3);
    if a && b && c && d {
        Ok(())
    } else {
        Err(
            HarnessError::verification(
                "multi_block_async_kernel",
                say("missing messages from some blocks. Seen: [").flag(a).text(", ").flag(b).text(
                    ", ",
                ).flag(c).text(", ").flag(d).text("]"),
            ),
        )
    }
}

/// What the propagation of errors comes to. Only the success word decides.
pub open spec fn propagation_failure(
    success: nat,
    passed: nat,
    opened: nat,
    closed: nat,
    read: nat,
) -> Option<Failure> {
    if success == 1 {
        None
    } else {
        Some(
            rejected(
                "error_propagation_test"@,
                "not all tests passed ("@ + decimal(passed) + "/3). categories: open="@ + decimal(
                    opened,
                ) + ", close="@ + decimal(closed) + ", read="@ + decimal(read),
            ),
        )
    }
}

/// Judges the propagation of errors, by the success word; the number of passed
/// cases and the error categories go into the report.
pub fn judge_propagation(success: u32, passed: u32, opened: u32, closed: u32, read: u32) -> (result:
    Result<(), HarnessError>)
    ensures
        reported(result) == propagation_failure(
            success as nat,
            passed as nat,
            opened as nat,
            closed as nat,
            read as nat,
        ),
{
    if success == 1 {
        Ok(())
    } else {
        Err(
            HarnessError::verification(
                "error_propagation_test",
                say("not all tests passed (").dec(passed as u64).text(
                    "/3). categories: open=",
                ).dec(opened as u64).text(", close=").dec(closed as u64).text(", read=").dec(
                    read as u64,
                ),
            ),
        )
    }
}

/// What direct printing comes to. The output counts as a whole, however it was
/// cut into messages.
pub open spec fn printing_failure(
    success: nat,
    messages: Seq<Seq<char>>,
    shown: Seq<char>,
) -> Option<Failure> {
    let test = "println_direct_test_kernel"@;
    let output = run_together(messages);
    let hello = occurs(output, "hello from GPU"@);
    let value = occurs(output, "value = 42"@);
    let multi = occurs(output, "x=84"@) && occurs(output, "y=52"@);
    if success != 1 {
        Some(rejected(test, "kernel reported failure (success="@ + decimal(success) + ")"@))
    } else if !hello || !value || !multi {
        Some(
            rejected(
                test,
                "missing expected content (hello="@ + truth(hello) + ", value="@ + truth(value)
                    + ", multi="@ + truth(multi) + "). Full output: "@ + shown,
            ),
        )
    } else {
        None
    }
}

/// Judges direct printing. `shown` is the whole output for the report.
pub fn judge_printing(success: u32, messages: &Vec<String>, shown: &str) -> (result: Result<
    (),
    HarnessError,
>)
    ensures
        reported(result) == printing_failure(success as nat, texts(messages@), shown@),
{
    if success != 1 {
        return Err(
            HarnessError::verification(
                "println_direct_test_kernel",
                say("kernel reported failure (success=").dec(success as u64).text(")"),
            ),
        );
    }
    let output: String = concatenate(messages);
    let hello: bool = contains(output.as_str(), "hello from GPU");
    let value: bool = contains(output.as_str(), "value = 42");
    let multi: bool = contains(output.as_str(), "x=84") && contains(output.as_str(), "y=52");
    if !hello || !value || !multi {
        return Err(
            HarnessError::verification(
                "println_direct_test_kernel",
                say("missing expected content (hello=").flag(hello).text(", value=").flag(
                    value,
                ).text(", multi=").flag(multi).text("). Full output: ").text(shown),
            ),
        );
    }
    Ok(())
}

/// What the allocator comes to when one thread allocates and frees.
pub open spec fn reuse_failure(success: nat, cycles: nat) -> Option<Failure> {
    if success == 1 {
        None
    } else {
        Some(
            rejected(
                "slab_dealloc_test_kernel"@,
                "expected 20 successful cycles, got "@ + decimal(cycles),
            ),
        )
    }
}

/// Judges the allocator when one thread allocates and frees.
pub fn judge_reuse(success: u32, cycles: u32) -> (result: Result<(), HarnessError>)
    ensures
        reported(result) == reuse_failure(success as nat, cycles as nat),
{
    if success == 1 {
        Ok(())
    } else {
        Err(
            HarnessError::verification(
                "slab_dealloc_test_kernel",
                say("expected 20 successful cycles, got ").dec(cycles as u64),
            ),
        )
    }
}

/// The cycles that each thread of a warp must complete.
pub const ALLOCATOR_CYCLES: u32 = 5;

/// The threads below `n` that did not complete all cycles, as the report lists
/// them: the thread and its cycles.
pub open spec fn stuck(cycles: Seq<u32>, n: nat) -> Seq<Seq<char>>
    decreases n,
{
    if n == 0 {
        Seq::empty()
    } else {
        let before = stuck(cycles, (n - 1) as nat);
        if cycles[n - 1] == ALLOCATOR_CYCLES {
            before
        } else {
            before.push(
                "("@ + decimal((n - 1) as nat) + ", "@ + decimal(cycles[n - 1] as nat) + ")"@,
            )
        }
    }
}

/// What the allocator comes to when the threads of a warp compete.
pub open spec fn contention_failure(cycles: Seq<u32>) -> Option<Failure> {
    let failed = stuck(cycles, 32);
    if failed.len() == 0 {
        None
    } else {
        Some(
            rejected(
                "slab_concurrent_test_kernel"@,
                "expected all 32 threads to complete 5 cycles, got "@ + decimal(
                    (32 - failed.len()) as nat,
                ) + "/32 threads OK. Failed: ["@ + joined(failed, ", "@) + "]"@,
            ),
        )
    }
}

proof fn lemma_stuck_count(cycles: Seq<u32>, n: nat)
    ensures
        stuck(cycles, n).len() <= n,
        stuck(cycles, n).len() == 0 <==> forall|t: int|
            0 <= t < n ==> #[trigger] cycles[t] == ALLOCATOR_CYCLES,
    decreases n,
{
    if n > 0 {
        lemma_stuck_count(cycles, (n - 1) as nat);
        if stuck(cycles, n).len() > 0 && stuck(cycles, (n - 1) as nat).len() == 0 {
            assert(cycles[n - 1] != ALLOCATOR_CYCLES);
        }
    }
}

/// Judges the allocator when the threads of a warp compete.
pub fn judge_contention(cycles: &Vec<u32>) -> (result: Result<(), HarnessError>)
    requires
        cycles@.len() == 32,
    ensures
        reported(result) == contention_failure(cycles@),
{
    let mut failed: Vec<String> = Vec::new();
    let mut t: usize = 0;
    assert(texts(failed@) =~= stuck(cycles@, 0));
    while t < 32
        invariant
            t <= 32,
            cycles@.len() == 32,
            texts(failed@) == stuck(cycles@, t as nat),
        decreases 32 - t,
    {
        if cycles[t] != ALLOCATOR_CYCLES {
            let ghost before = failed@;
            let line: Line = say("(").dec(t as u64).text(", ").dec(cycles[t] as u64).text(")");
            let ghost entry = line@;
            failed.push(line.done());
            assert(texts(failed@) =~= texts(before).push(entry));
        }
        t += 1;
    }
    proof {
        lemma_stuck_count(cycles@, 32);
        assert(texts(failed@).len() == failed@.len());
    }
    if failed.len() == 0 {
        return Ok(());
    }
    let listed: String = join(&failed, ", ");
    Err(
        HarnessError::verification(
            "slab_concurrent_test_kernel",
            say("expected all 32 threads to complete 5 cycles, got ").dec(
                32 - failed.len() as u64,
            ).text("/32 threads OK. Failed: [").text(listed.as_str()).text("]"),
        ),
    )
}

/// The allocator is accepted under contention exactly when every thread completed
/// its cycles.
pub proof fn contention_accepts_only_full_cycles(cycles: Seq<u32>)
    requires
        cycles.len() == 32,
    ensures
        contention_failure(cycles) is None <==> forall|t: int|
            0 <= t < 32 ==> #[trigger] cycles[t] == ALLOCATOR_CYCLES,
{
    lemma_stuck_count(cycles, 32);
}

/// The three launches: one warp, four blocks of a warp, eight blocks of two.
pub proof fn fleets_have_their_sizes()
    ensures
        fleet_threads(Fleet::Warp) == 32 && fleet_size(Fleet::Warp).blocks == 1,
        fleet_threads(Fleet::FourBlocks) == 128 && fleet_size(Fleet::FourBlocks).blocks == 4,
        fleet_threads(Fleet::EightBlocks) == 512 && fleet_size(Fleet::EightBlocks).blocks == 8,
{
}

/// Whether each thread below `total` is named by a message.
pub open spec fn all_heard(messages: Seq<Seq<char>>, wide: bool, total: int) -> bool {
    forall|t: int| 0 <= t < total ==> #[trigger] crate::messages::heard(messages, wide, t)
}

/// A fleet is accepted exactly when it reports success and all its threads, and each
/// of the threads is named by a message: with two digits in a warp, else with three.
pub proof fn fleet_is_accepted_if_every_thread_is_heard(
    fleet: Fleet,
    success: nat,
    threads: nat,
    messages: Seq<Seq<char>>,
)
    ensures
        fleet_failure(fleet, success, threads, messages) is None <==> success == 1 && match fleet {
            Fleet::Warp => threads == 32 && all_heard(messages, false, 32),
            Fleet::FourBlocks => threads == 128 && all_heard(messages, true, 128),
            Fleet::EightBlocks => threads == 512 && all_heard(messages, true, 512),
        },
{
    let total = fleet_threads(fleet);
    let wide = fleet_is_wide(fleet);
    let missing = silent(messages, wide, total);
    assert forall|t: int| 0 <= t < total && missing.len() == 0 implies #[trigger]
        crate::messages::heard(messages, wide, t) by {
        crate::messages::silent_threads_are_complete(messages, wide, total, t);
    }
    if missing.len() > 0 {
        crate::messages::lemma_silent_below(messages, wide, total);
        let t = missing[0];
        assert(missing.contains(t));
        crate::messages::silent_threads_are_complete(messages, wide, total, t as int);
        assert(!crate::messages::heard(messages, wide, t as int));
    }
}

/// The pipeline is accepted exactly when it reports success and the messages show
/// that it read, processed, wrote and printed.
pub proof fn steps_are_accepted_if_all_were_taken(
    success: nat,
    poll_rounds: nat,
    messages: Seq<Seq<char>>,
    shown: Seq<char>,
)
    ensures
        steps_failure(success, poll_rounds, messages, shown) is None <==> {
            &&& success == 1
            &&& exists|m: int|
                0 <= m < messages.len() && occurs(#[trigger] messages[m], "step 1: READ"@)
            &&& exists|m: int|
                0 <= m < messages.len() && occurs(#[trigger] messages[m], "step 2: PROCESS"@)
            &&& exists|m: int|
                0 <= m < messages.len() && occurs(#[trigger] messages[m], "step 3: WRITE"@)
            &&& exists|m: int|
                0 <= m < messages.len() && occurs(#[trigger] messages[m], "step 4: PRINT"@)
        },
{
}

/// The showcase is accepted exactly when it reports success and four messages, and
/// greets the name, prints the sum of its input and says goodbye.
pub proof fn showcase_is_accepted_if_it_says_all(
    success: nat,
    sent: nat,
    messages: Seq<Seq<char>>,
    shown: Seq<char>,
)
    ensures
        showcase_failure(success, sent, messages, shown) is None <==> {
            &&& success == 1
            &&& sent >= 4
            &&& exists|m: int|
                0 <= m < messages.len() && occurs(#[trigger] messages[m], "Hello"@) && occurs(
                    messages[m],
                    "Rustacean"@,
                )
            &&& exists|m: int|
                0 <= m < messages.len() && occurs(#[trigger] messages[m], "sum=220"@)
            &&& exists|m: int|
                0 <= m < messages.len() && occurs(#[trigger] messages[m], "Goodbye"@)
        },
{
}

/// The blocks are accepted exactly when all four completed and each was heard.
pub proof fn async_blocks_are_accepted_if_each_was_heard(
    completed: nat,
    messages: Seq<Seq<char>>,
)
    ensures
        async_blocks_failure(completed, messages) is None <==> {
            &&& completed == 4
            &&& forall|b: nat|
                b < 4 ==> #[trigger] mentioned(messages, "block "@ + decimal(b))
        },
{
    assert(mentioned(messages, "block "@ + decimal(0)) == block_heard(messages, 0));
    assert(mentioned(messages, "block "@ + decimal(1)) == block_heard(messages, 1));
    assert(mentioned(messages, "block "@ + decimal(2)) == block_heard(messages, 2));
    assert(mentioned(messages, "block "@ + decimal(3)) == block_heard(messages, 3));
    if block_heard(messages, 0) && block_heard(messages, 1) && block_heard(messages, 2)
        && block_heard(messages, 3) {
        assert forall|b: nat| b < 4 implies #[trigger] mentioned(
            messages,
            "block "@ + decimal(b),
        ) by {
            assert(b == 0 || b == 1 || b == 2 || b == 3);
        }
    }
}

/// Direct printing is accepted exactly when it reports success and everything stands
/// in the output, also where a message boundary falls into it.
pub proof fn printing_is_accepted_if_all_was_printed(
    success: nat,
    messages: Seq<Seq<char>>,
    shown: Seq<char>,
)
    ensures
        printing_failure(success, messages, shown) is None <==> {
            let output = run_together(messages);
            &&& success == 1
            &&& occurs(output, "hello from GPU"@)
            &&& occurs(output, "value = 42"@)
            &&& occurs(output, "x=84"@)
            &&& occurs(output, "y=52"@)
        },
        messages.len() == 1 ==> run_together(messages) == messages[0],
        forall|first: Seq<Seq<char>>, second: Seq<Seq<char>>|
            messages == #[trigger] (first + second) ==> run_together(messages) == run_together(
                first,
            ) + run_together(second),
{
    assert forall|first: Seq<Seq<char>>, second: Seq<Seq<char>>| messages == #[trigger] (first
        + second) implies run_together(messages) == run_together(first) + run_together(second) by {
        crate::messages::running_together_goes_list_by_list(first, second);
    }
    if messages.len() == 1 {
        crate::messages::running_together_goes_list_by_list(Seq::empty(), messages);
    }
}

/// The kernels that count their own successes are accepted by their success word
/// alone; a rejected one shows what it counted.
pub proof fn success_words_decide(
    success: nat,
    passed: nat,
    opened: nat,
    closed: nat,
    read: nat,
)
    ensures
        propagation_failure(success, passed, opened, closed, read) is None <==> success == 1,
        success != 1 ==> propagation_failure(success, passed, opened, closed, read)->0.detail
            == "not all tests passed ("@ + decimal(passed) + "/3). categories: open="@ + decimal(
            opened,
        ) + ", close="@ + decimal(closed) + ", read="@ + decimal(read),
        reuse_failure(success, passed) is None <==> success == 1,
        success != 1 ==> reuse_failure(success, passed)->0.detail
            == "expected 20 successful cycles, got "@ + decimal(passed),
{
}

/// The allocator is accepted under contention exactly when every thread of the warp
/// completed five cycles. A rejection lists each thread that did not, with the cycles
/// that it completed, in order.
pub proof fn contention_lists_the_stuck_threads(cycles: Seq<u32>, thread: int)
    requires
        cycles.len() == 32,
        0 <= thread < 32,
    ensures
        contention_failure(cycles) is None ==> cycles[thread] == 5,
        cycles == Seq::new(32, |t: int| 5u32) ==> contention_failure(cycles) is None,
        ({
            let entry = "("@ + decimal(thread as nat) + ", "@ + decimal(cycles[thread] as nat)
                + ")"@;
            let earlier = stuck(cycles, thread as nat);
            if cycles[thread] == 5 {
                stuck(cycles, (thread + 1) as nat) == earlier
            } else {
                stuck(cycles, (thread + 1) as nat) == earlier.push(entry)
            }
        }),
        stuck(cycles, 0).len() == 0,
        contention_failure(cycles) is Some ==> contention_failure(cycles)->0.detail
            == "expected all 32 threads to complete 5 cycles, got "@ + decimal(
            (32 - stuck(cycles, 32).len()) as nat,
        ) + "/32 threads OK. Failed: ["@ + joined(stuck(cycles, 32), ", "@) + "]"@,
{
    lemma_stuck_count(cycles, 32);
}

/// The silent threads are listed: all of them, or of the largest fleet the first twenty.
pub proof fn silent_threads_are_listed(
    fleet: Fleet,
    success: nat,
    threads: nat,
    messages: Seq<Seq<char>>,
)
    requires
        success == 1,
        threads == fleet_threads(fleet),
        fleet_failure(fleet, success, threads, messages) is Some,
    ensures
        ({
            let missing = silent(messages, fleet != Fleet::Warp, threads);
            let start = "expected messages from all "@ + decimal(threads) + " threads, got "@
                + decimal((threads - missing.len()) as nat);
            &&& missing.len() > 0
            &&& fleet != Fleet::EightBlocks ==> fleet_failure(
                fleet,
                success,
                threads,
                messages,
            )->0.detail == start + (" unique. Missing: "@ + bracketed(missing))
            &&& fleet == Fleet::EightBlocks && missing.len() >= 20 ==> fleet_failure(
                fleet,
                success,
                threads,
                messages,
            )->0.detail == start + (" unique. Missing (first 20): "@ + bracketed(missing.take(20)))
            &&& fleet == Fleet::EightBlocks && missing.len() < 20 ==> fleet_failure(
                fleet,
                success,
                threads,
                messages,
            )->0.detail == start + (" unique. Missing (first 20): "@ + bracketed(missing))
        }),
{
    let missing = silent(messages, fleet_is_wide(fleet), threads);
    if missing.len() == 20 {
        assert(missing.take(20) =~= missing);
    }
}

/// A fleet without success shows its marker; one with a wrong number of threads shows
/// first what was expected and then what came.
pub proof fn rejected_fleet_shows_its_words(
    fleet: Fleet,
    success: nat,
    threads: nat,
    messages: Seq<Seq<char>>,
)
    ensures
        success != 1 ==> fleet_failure(fleet, success, threads, messages)->0.detail
            == "success marker not set (got "@ + decimal(success) + ")"@,
        success == 1 && fleet == Fleet::Warp && threads != 32 ==> fleet_failure(
            fleet,
            success,
            threads,
            messages,
        )->0.detail == "expected thread_count="@ + decimal(32) + ", got "@ + decimal(threads),
        success == 1 && fleet == Fleet::FourBlocks && threads != 128 ==> fleet_failure(
            fleet,
            success,
            threads,
            messages,
        )->0.detail == "expected thread_count="@ + decimal(128) + ", got "@ + decimal(threads),
        success == 1 && fleet == Fleet::EightBlocks && threads != 512 ==> fleet_failure(
            fleet,
            success,
            threads,
            messages,
        )->0.detail == "expected thread_count="@ + decimal(512) + ", got "@ + decimal(threads),
{
}

/// What is missing of the output is told apart: each flag says whether its own words
/// were found.
pub proof fn rejections_tell_what_is_missing(messages: Seq<Seq<char>>, shown: Seq<char>)
    ensures
        showcase_failure(1, 4, messages, shown) matches Some(f) ==> f.detail
            == "missing expected content (greeting="@ + truth(greeted(messages)) + ", stats="@
            + truth(mentioned(messages, "sum=220"@)) + ", goodbye="@ + truth(
            mentioned(messages, "Goodbye"@),
        ) + "). Messages: "@ + shown,
        printing_failure(1, messages, shown) matches Some(f) ==> {
            let output = run_together(messages);
            f.detail == "missing expected content (hello="@ + truth(
                occurs(output, "hello from GPU"@),
            ) + ", value="@ + truth(occurs(output, "value = 42"@)) + ", multi="@ + truth(
                occurs(output, "x=84"@) && occurs(output, "y=52"@),
            ) + "). Full output: "@ + shown
        },
        async_blocks_failure(4, messages) matches Some(f) ==> f.detail
            == "missing messages from some blocks. Seen: ["@ + truth(
            mentioned(messages, "block "@ + decimal(0)),
        ) + ", "@ + truth(mentioned(messages, "block "@ + decimal(1))) + ", "@ + truth(
            mentioned(messages, "block "@ + decimal(2)),
        ) + ", "@ + truth(mentioned(messages, "block "@ + decimal(3))) + "]"@,
{
}

/// Every message of an accepted fleet is the first of its thread or a duplicate.
pub proof fn messages_are_unique_or_duplicates(fleet: Fleet, messages: Seq<Seq<char>>)
    requires
        fleet_failure(fleet, 1, fleet_threads(fleet), messages) is None,
        messages.len() <= u64::MAX,
    ensures
        ({
            let roll = roll_of(fleet, messages.len());
            &&& roll.messages == messages.len()
            &&& roll.unique + roll.duplicates == roll.messages
            &&& roll.unique == match fleet {
                Fleet::Warp => 32,
                Fleet::FourBlocks => 128,
                Fleet::EightBlocks => 512u64,
            }
        }),
{
    heard_threads_sent_messages(messages, fleet_is_wide(fleet), fleet_threads(fleet));
}

} // verus!
