//! Single-warp kernels: arithmetic, tensor-core fragments and shared memory.
use vstd::arithmetic::power2::{lemma_pow2_adds, pow2};
use vstd::prelude::*;
use crate::error::{rejected, reported, Failure, HarnessError};
use crate::float_bits::{
    exponent, f32_of_count, fraction, half_of, holds_count, magnitude,
    pack_f16x2, packed_pair, single_number,
};
use crate::text::say;

verus! {

/// The threads of a warp.
pub const WARP: u32 = 32;

/// The registers of all fragments of a warp.
pub const REGISTERS: usize = 128;

/// The bits of one.
pub const F32_ONE: u32 = 0x3F80_0000;

/// What the checks of a kernel's single results come to.
pub open spec fn checks_failure(test: Seq<char>, checks: Seq<bool>) -> Option<Failure> {
    if forall|i: int| 0 <= i < checks.len() ==> #[trigger] checks[i] {
        None
    } else {
        Some(rejected(test, "see above"@))
    }
}

/// Judges a kernel by the checks of its single results: all must hold.
pub fn judge_checks(test: &'static str, checks: &Vec<bool>) -> (result: Result<(), HarnessError>)
    ensures
        reported(result) == checks_failure(test@, checks@),
{
    let mut i: usize = 0;
    while i < checks.len()
        invariant
            i <= checks.len(),
            forall|k: int| 0 <= k < i ==> #[trigger] checks@[k],
        decreases checks.len() - i,
    {
        if !checks[i] {
            assert(!checks@[i as int]);
            return Err(HarnessError::verification(test, say("see above")));
        }
        i += 1;
    }
    Ok(())
}

/// The bits of the accumulator's register `r`: one, two, three and four.
pub open spec fn accumulator_word(r: int) -> u32 {
    if r == 0 {
        0x3F80_0000
    } else if r == 1 {
        0x4000_0000
    } else if r == 2 {
        0x4040_0000
    } else {
        0x4080_0000
    }
}

/// The accumulator fragments: each thread holds one, two, three and four.
pub fn accumulator_fragments() -> (words: Vec<u32>)
    ensures
        words@ == Seq::new(REGISTERS as nat, |i: int| accumulator_word(i % 4)),
{
    let mut words: Vec<u32> = Vec::new();
    let mut thread: u32 = 0;
    while thread < WARP
        invariant
            thread <= WARP,
            words@ =~= Seq::new((4 * thread) as nat, |i: int| accumulator_word(i % 4)),
        decreases WARP - thread,
    {
        words.push(0x3F80_0000);
        words.push(0x4000_0000);
        words.push(0x4040_0000);
        words.push(0x4080_0000);
        thread += 1;
    }
    words
}

/// The places below `n` where two lists of words differ.
pub open spec fn differing(expected: Seq<u32>, found: Seq<u32>, n: nat) -> Seq<usize>
    decreases n,
{
    if n == 0 {
        Seq::empty()
    } else {
        let before = differing(expected, found, (n - 1) as nat);
        if expected[n - 1] != found[n - 1] {
            before.push((n - 1) as usize)
        } else {
            before
        }
    }
}

/// The places where the words found are not those expected.
pub fn find_differing(expected: &Vec<u32>, found: &Vec<u32>) -> (places: Vec<usize>)
    requires
        found@.len() >= expected@.len(),
    ensures
        places@ == differing(expected@, found@, expected@.len()),
{
    let mut places: Vec<usize> = Vec::new();
    let mut i: usize = 0;
    while i < expected.len()
        invariant
            i <= expected.len(),
            found@.len() >= expected@.len(),
            places@ == differing(expected@, found@, i as nat),
        decreases expected.len() - i,
    {
        if expected[i] != found[i] {
            places.push(i);
        }
        i += 1;
    }
    places
}

/// The differing places are found one and all.
pub proof fn differing_places_are_complete(expected: Seq<u32>, found: Seq<u32>, n: nat, i: int)
    requires
        n <= usize::MAX,
        0 <= i < n,
    ensures
        differing(expected, found, n).contains(i as usize) <==> expected[i] != found[i],
    decreases n,
{
    let now = differing(expected, found, n);
    let before = differing(expected, found, (n - 1) as nat);
    if expected[n - 1] != found[n - 1] {
        assert(now[before.len() as int] == (n - 1) as usize);
        assert forall|k: usize| k != n - 1 implies now.contains(k) == before.contains(k) by {
            if before.contains(k) {
                let r = choose|r: int| 0 <= r < before.len() && before[r] == k;
                assert(now[r] == k);
            }
            if now.contains(k) {
                let r = choose|r: int| 0 <= r < now.len() && now[r] == k;
                assert(before[r] == k);
            }
        }
    }
    if i < n - 1 {
        differing_places_are_complete(expected, found, (n - 1) as nat, i);
    } else {
        lemma_differing_below(expected, found, (n - 1) as nat);
    }
}

proof fn lemma_differing_below(expected: Seq<u32>, found: Seq<u32>, n: nat)
    requires
        n <= usize::MAX,
    ensures
        forall|r: int| 0 <= r < differing(expected, found, n).len() ==> (#[trigger] differing(
            expected,
            found,
            n,
        )[r]) < n,
    decreases n,
{
    if n > 0 {
        lemma_differing_below(expected, found, (n - 1) as nat);
        let before = differing(expected, found, (n - 1) as nat);
        let now = differing(expected, found, n);
        assert forall|r: int| 0 <= r < now.len() implies (#[trigger] now[r]) < n by {
            if r < before.len() {
                assert(now[r] == before[r]);
            }
        }
    }
}

/// The thread that a thread exchanges its value with.
pub open spec fn neighbour(thread: int) -> int {
    if thread % 2 == 0 {
        thread + 1
    } else {
        thread - 1
    }
}

/// Neighbours are neighbours of each other, and stay inside an even number of
/// threads.
pub proof fn neighbours_are_mutual(thread: int, threads: int)
    requires
        0 <= thread < threads,
        threads % 2 == 0,
    ensures
        neighbour(neighbour(thread)) == thread,
        neighbour(thread) != thread,
        0 <= neighbour(thread) < threads,
{
}

/// What a thread must read: its neighbour's number, counted from one.
pub open spec fn swapped_value(thread: int) -> int {
    neighbour(thread) + 1
}

/// What a thread must read.
pub fn expected_swap(thread: u32) -> (value: u32)
    requires
        thread < WARP,
    ensures
        value == swapped_value(thread as int),
{
    assert(thread < 32 ==> (thread ^ 1) == if thread % 2 == 0 {
        thread + 1
    } else {
        thread - 1
    }) by (bit_vector);
    (thread ^ 1) + 1
}

/// The bytes of shared memory that the exchange needs: a word for each thread.
pub fn exchange_bytes() -> (bytes: u32)
    ensures
        bytes == 4 * WARP,
{
    WARP * 4
}

/// The threads below `n` that read something else than they must.
pub open spec fn misled(output: Seq<u32>, n: nat) -> Seq<u32>
    decreases n,
{
    if n == 0 {
        Seq::empty()
    } else {
        let before = misled(output, (n - 1) as nat);
        if output[n - 1] != swapped_value(n - 1) {
            before.push((n - 1) as u32)
        } else {
            before
        }
    }
}

/// The threads that did not read their neighbour's value.
pub fn find_misled(output: &Vec<u32>) -> (threads: Vec<u32>)
    requires
        output@.len() >= WARP,
    ensures
        threads@ == misled(output@, WARP as nat),
{
    let mut threads: Vec<u32> = Vec::new();
    let mut thread: u32 = 0;
    while thread < WARP
        invariant
            thread <= WARP,
            output@.len() >= WARP,
            threads@ == misled(output@, thread as nat),
        decreases WARP - thread,
    {
        if output[thread as usize] != expected_swap(thread) {
            threads.push(thread);
        }
        thread += 1;
    }
    threads
}

/// What the exchange through shared memory comes to.
pub open spec fn exchange_failure(output: Seq<u32>) -> Option<Failure> {
    if forall|t: int| 0 <= t < WARP ==> #[trigger] output[t] == swapped_value(t) {
        None
    } else {
        Some(rejected("shared_memory"@, "neighbor swap pattern mismatch"@))
    }
}

proof fn lemma_nobody_misled(output: Seq<u32>, n: nat)
    ensures
        misled(output, n).len() == 0 <==> forall|t: int|
            0 <= t < n ==> #[trigger] output[t] == swapped_value(t),
    decreases n,
{
    if n > 0 {
        lemma_nobody_misled(output, (n - 1) as nat);
        if misled(output, n).len() > 0 && misled(output, (n - 1) as nat).len() == 0 {
            assert(output[n - 1] != swapped_value(n - 1));
        }
    }
}

/// Judges the exchange through shared memory.
pub fn judge_exchange(output: &Vec<u32>) -> (result: Result<(), HarnessError>)
    requires
        output@.len() >= WARP,
    ensures
        reported(result) == exchange_failure(output@),
{
    let threads: Vec<u32> = find_misled(output);
    proof {
        lemma_nobody_misled(output@, WARP as nat);
    }
    if threads.len() == 0 {
        Ok(())
    } else {
        Err(HarnessError::verification("shared_memory", say("neighbor swap pattern mismatch")))
    }
}

/// Word `c` of row `i` of the packed identity matrix.
pub open spec fn identity_word(i: int, c: int) -> int {
    if c != i / 2 {
        0
    } else if i % 2 == 0 {
        packed_pair(F32_ONE, 0)
    } else {
        packed_pair(0, F32_ONE)
    }
}

/// The identity matrix of sixteen rows in half precision, two numbers to a word.
pub fn identity_fragments() -> (words: Vec<u32>)
    ensures
        words@.len() == REGISTERS,
        forall|i: int, c: int|
            0 <= i < 16 && 0 <= c < 8 ==> words@[8 * i + c] == #[trigger] identity_word(i, c),
{
    let mut words: Vec<u32> = Vec::new();
    let mut place: u32 = 0;
    while place < 128
        invariant
            place <= 128,
            words@.len() == place,
            forall|p: int| 0 <= p < place ==> #[trigger] words@[p] == identity_word(p / 8, p % 8),
        decreases 128 - place,
    {
        let row: u32 = place / 8;
        let word: u32 = if place % 8 != row / 2 {
            0
        } else if row % 2 == 0 {
            pack_f16x2(F32_ONE, 0)
        } else {
            pack_f16x2(0, F32_ONE)
        };
        words.push(word);
        place += 1;
    }
    assert forall|i: int, c: int| 0 <= i < 16 && 0 <= c < 8 implies words@[8 * i + c]
        == #[trigger] identity_word(i, c) by {
        assert((8 * i + c) / 8 == i && (8 * i + c) % 8 == c);
    }
    words
}

/// Half `k` of a row of packed words.
pub open spec fn half_in(word: int, k: int) -> int {
    if k % 2 == 0 {
        word % 0x1_0000
    } else {
        word / 0x1_0000
    }
}

/// The packed matrix is the identity: one where row and column agree, else zero.
pub proof fn identity_words_hold_the_identity(i: int, k: int)
    requires
        0 <= i < 16,
        0 <= k < 16,
    ensures
        half_in(identity_word(i, k / 2), k) == if i == k {
            0x3C00int
        } else {
            0
        },
{
    assert(half_of(F32_ONE) == 0x3C00);
    assert(half_of(0) == 0);
}

/// Number of the second matrix at row `k` and column `j`.
pub open spec fn counted_value(k: int, j: int) -> int {
    8 * k + j + 1
}

/// Word `p` of row `k` of the packed second matrix.
pub open spec fn counted_word(k: int, p: int) -> int {
    packed_pair(single_number(counted_value(k, 2 * p)), single_number(counted_value(k, 2 * p + 1)))
}

/// A matrix of sixteen rows and eight columns that counts from one, in half
/// precision, two numbers to a word.
pub fn counted_fragments() -> (words: Vec<u32>)
    ensures
        words@.len() == 64,
        forall|k: int, p: int|
            0 <= k < 16 && 0 <= p < 4 ==> words@[4 * k + p] == #[trigger] counted_word(k, p),
{
    let mut words: Vec<u32> = Vec::new();
    let mut place: u32 = 0;
    while place < 64
        invariant
            place <= 64,
            words@.len() == place,
            forall|q: int| 0 <= q < place ==> #[trigger] words@[q] == counted_word(q / 4, q % 4),
        decreases 64 - place,
    {
        let row: u32 = place / 4;
        let pair: u32 = place % 4;
        let low: u32 = f32_of_count(8 * row + 2 * pair + 1);
        let high: u32 = f32_of_count(8 * row + 2 * pair + 2);
        words.push(pack_f16x2(low, high));
        place += 1;
    }
    assert forall|k: int, p: int| 0 <= k < 16 && 0 <= p < 4 implies words@[4 * k + p]
        == #[trigger] counted_word(k, p) by {
        assert((4 * k + p) / 4 == k && (4 * k + p) % 4 == p);
    }
    words
}

/// The row of the product that register `r` of a thread holds.
pub open spec fn fragment_row(thread: int, r: int) -> int {
    2 * (thread % 4) + if r == 0 {
        0int
    } else if r == 1 {
        1
    } else if r == 2 {
        8
    } else {
        9
    }
}

/// The column of the product that the registers of a thread hold.
pub open spec fn fragment_column(thread: int) -> int {
    thread / 4
}

/// Each element of the product is in one register of one thread, and in no other.
pub proof fn every_element_has_one_register(row: int, column: int)
    requires
        0 <= row < 16,
        0 <= column < 8,
    ensures
        exists|thread: int, r: int|
            0 <= thread < WARP && 0 <= r < 4 && #[trigger] fragment_row(thread, r) == row
                && fragment_column(thread) == column,
        forall|t: int, r: int, u: int, s: int|
            0 <= t < WARP && 0 <= r < 4 && 0 <= u < WARP && 0 <= s < 4
                && #[trigger] fragment_row(t, r) == row && fragment_column(t) == column
                && #[trigger] fragment_row(u, s) == row && fragment_column(u) == column ==> t == u
                && r == s,
{
    let thread = 4 * column + (row % 8) / 2;
    let r = row % 2 + if row >= 8 {
        2int
    } else {
        0
    };
    assert(thread % 4 == (row % 8) / 2);
    assert(fragment_row(thread, r) == row);
}

/// What register `r` of a thread must hold.
pub open spec fn expected_register(thread: int, r: int) -> int {
    counted_value(fragment_row(thread, r), fragment_column(thread))
}

/// What the registers must hold: as the first matrix is the identity, the second
/// one.
pub fn expected_product() -> (values: Vec<u32>)
    ensures
        values@.len() == REGISTERS,
        forall|thread: int, r: int|
            0 <= thread < WARP && 0 <= r < 4 ==> values@[4 * thread + r] == counted_value(
                #[trigger] fragment_row(thread, r),
                fragment_column(thread),
            ),
        forall|thread: int, r: int|
            0 <= thread < WARP && 0 <= r < 4 ==> values@[4 * thread + r]
                == #[trigger] expected_register(thread, r),
{
    let mut values: Vec<u32> = Vec::new();
    let mut thread: u32 = 0;
    while thread < WARP
        invariant
            thread <= WARP,
            values@.len() == 4 * thread,
            forall|t: int, r: int|
                0 <= t < thread && 0 <= r < 4 ==> values@[4 * t + r] == counted_value(
                    #[trigger] fragment_row(t, r),
                    fragment_column(t),
                ),
        decreases WARP - thread,
    {
        let group: u32 = thread / 4;
        let lane: u32 = thread % 4;
        values.push(lane * 2 * 8 + group + 1);
        values.push((lane * 2 + 1) * 8 + group + 1);
        values.push((lane * 2 + 8) * 8 + group + 1);
        values.push((lane * 2 + 9) * 8 + group + 1);
        thread += 1;
    }
    assert forall|t: int, r: int| 0 <= t < WARP && 0 <= r < 4 implies values@[4 * t + r]
        == #[trigger] expected_register(t, r) by {
        assert(values@[4 * t + r] == counted_value(fragment_row(t, r), fragment_column(t)));
    }
    values
}

/// The accumulator's registers hold the numbers one, two, three and four.
pub proof fn accumulator_counts_to_four(r: int)
    requires
        0 <= r < 4,
    ensures
        holds_count(accumulator_word(r), r + 1),
{
    vstd::arithmetic::power2::lemma2_to64();
    lemma_pow2_adds(23, 126);
    lemma_pow2_adds(1, 126);
    lemma_pow2_adds(2, 126);
    let word = accumulator_word(r);
    let p = pow2(126) as int;
    assert(pow2(149) == 0x80_0000 * p && pow2(127) == 2 * p && pow2(128) == 4 * p);
    assert(magnitude(word) == word);
    if r == 0 {
        assert(exponent(word) == 127 && fraction(word) == 0);
    } else if r == 1 {
        assert(exponent(word) == 128 && fraction(word) == 0);
    } else if r == 2 {
        assert(exponent(word) == 128 && fraction(word) == 0x40_0000);
    } else {
        assert(exponent(word) == 129 && fraction(word) == 0);
    }
}

/// A kernel passes exactly when none of its checks failed.
pub proof fn checks_pass_together(test: Seq<char>, checks: Seq<bool>)
    ensures
        checks_failure(test, checks) is None <==> !checks.contains(false),
{
    if !checks.contains(false) {
        assert forall|i: int| 0 <= i < checks.len() implies #[trigger] checks[i] by {
            if !checks[i] {
                assert(checks.contains(checks[i]));
            }
        }
    }
}

/// Whether both threads of a pair read the other's number, counted from one.
pub open spec fn pair_swapped(output: Seq<u32>, pair: int) -> bool {
    output[2 * pair] == 2 * pair + 2 && output[2 * pair + 1] == 2 * pair + 1
}

/// Threads exchange their values in pairs, an even thread with the one behind it. The
/// exchange is accepted exactly when each pair has swapped.
pub proof fn exchange_is_accepted_if_pairs_swapped(output: Seq<u32>)
    requires
        output.len() >= 32,
    ensures
        exchange_failure(output) is None <==> forall|pair: int|
            0 <= pair < 16 ==> #[trigger] pair_swapped(output, pair),
{
    if exchange_failure(output) is None {
        assert forall|pair: int| 0 <= pair < 16 implies #[trigger] pair_swapped(output, pair) by {
            assert(output[2 * pair] == swapped_value(2 * pair));
            assert(output[2 * pair + 1] == swapped_value(2 * pair + 1));
        }
    } else {
        let t = choose|t: int| 0 <= t < WARP && #[trigger] output[t] != swapped_value(t);
        assert(!pair_swapped(output, t / 2));
    }
}

/// The misled threads are found one and all.
pub proof fn misled_threads_are_complete(output: Seq<u32>, n: nat, thread: int)
    requires
        n <= u32::MAX,
        0 <= thread < n,
    ensures
        misled(output, n).contains(thread as u32) <==> output[thread] != if thread % 2 == 0 {
            thread + 2
        } else {
            thread
        },
    decreases n,
{
    let now = misled(output, n);
    let before = misled(output, (n - 1) as nat);
    lemma_misled_below(output, (n - 1) as nat);
    if output[n - 1] != swapped_value(n - 1) {
        assert(now[before.len() as int] == (n - 1) as u32);
        assert forall|k: u32| k != n - 1 implies now.contains(k) == before.contains(k) by {
            if before.contains(k) {
                let r = choose|r: int| 0 <= r < before.len() && before[r] == k;
                assert(now[r] == k);
            }
            if now.contains(k) {
                let r = choose|r: int| 0 <= r < now.len() && now[r] == k;
                assert(before[r] == k);
            }
        }
    }
    if thread < n - 1 {
        misled_threads_are_complete(output, (n - 1) as nat, thread);
    }
}

proof fn lemma_misled_below(output: Seq<u32>, n: nat)
    requires
        n <= u32::MAX,
    ensures
        forall|r: int| 0 <= r < misled(output, n).len() ==> (#[trigger] misled(output, n)[r]) < n,
    decreases n,
{
    if n > 0 {
        lemma_misled_below(output, (n - 1) as nat);
        let before = misled(output, (n - 1) as nat);
        let now = misled(output, n);
        assert forall|r: int| 0 <= r < now.len() implies (#[trigger] now[r]) < n by {
            if r < before.len() {
                assert(now[r] == before[r]);
            }
        }
    }
}

/// The second matrix counts from one, row by row, and its packed words hold those
/// numbers in half precision, the left one in the low half.
pub proof fn counted_words_hold_the_count(k: int, j: int)
    requires
        0 <= k < 16,
        0 <= j < 8,
    ensures
        counted_value(0, 0) == 1,
        j < 7 ==> counted_value(k, j + 1) == counted_value(k, j) + 1,
        j == 7 ==> counted_value(k + 1, 0) == counted_value(k, j) + 1,
        half_in(counted_word(k, j / 2), j) == half_of(single_number(counted_value(k, j))),
{
    let p = j / 2;
    crate::float_bits::packed_pair_unpacks(
        single_number(counted_value(k, 2 * p)),
        single_number(counted_value(k, 2 * p + 1)),
    );
    assert(j == 2 * p || j == 2 * p + 1);
}

/// Where an element of the product is: the threads of a group of four hold a column,
/// each two neighbouring rows of the upper half and the same two of the lower half.
pub proof fn fragments_hold_columns(row: int, column: int)
    requires
        0 <= row < 16,
        0 <= column < 8,
    ensures
        ({
            let thread = 4 * column + (row % 8) / 2;
            let r = 2 * (row / 8) + row % 2;
            fragment_row(thread, r) == row && fragment_column(thread) == column
        }),
{
    let thread = 4 * column + (row % 8) / 2;
    assert(thread % 4 == (row % 8) / 2);
}

/// What the registers must hold is the product of the two matrices: the identity picks
/// from each column of the second one the number of its own row.
pub proof fn identity_leaves_the_second_matrix(row: int, column: int, n: int)
    requires
        0 <= row < 16,
        0 <= n <= 16,
    ensures
        product_sum(row, column, n) == if row < n {
            counted_value(row, column)
        } else {
            0
        },
    decreases n,
{
    if n > 0 {
        identity_leaves_the_second_matrix(row, column, n - 1);
        identity_words_hold_the_identity(row, n - 1);
    }
}

/// The first `n` terms of an element of the product of the packed identity and the
/// second matrix.
pub open spec fn product_sum(row: int, column: int, n: int) -> int
    decreases n,
{
    if n <= 0 {
        0
    } else {
        product_sum(row, column, n - 1) + if half_in(identity_word(row, (n - 1) / 2), n - 1)
            == 0x3C00 {
            counted_value(n - 1, column)
        } else {
            0
        }
    }
}

/// The register that holds an element of the product must hold the sum over a row of
/// the identity and a column of the second matrix.
pub proof fn registers_hold_the_product(row: int, column: int)
    requires
        0 <= row < 16,
        0 <= column < 8,
    ensures
        expected_register(4 * column + (row % 8) / 2, 2 * (row / 8) + row % 2) == product_sum(
            row,
            column,
            16,
        ),
        expected_register(4 * column + (row % 8) / 2, 2 * (row / 8) + row % 2) == 8 * row + column
            + 1,
{
    fragments_hold_columns(row, column);
    identity_leaves_the_second_matrix(row, column, 16);
}

} // verus!
