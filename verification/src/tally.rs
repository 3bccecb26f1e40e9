//! Counts and times: sums, bounds, averages and medians.
use vstd::prelude::*;
use vstd::relations::{sorted_by, total_ordering};
use vstd::seq_lib::lemma_sorted_unique;

verus! {

/// The sum of the words.
pub open spec fn total(words: Seq<u32>) -> int
    decreases words.len(),
{
    if words.len() == 0 {
        0
    } else {
        total(words.drop_last()) + words.last()
    }
}

proof fn lemma_total_grows(words: Seq<u32>, n: int)
    requires
        0 <= n <= words.len(),
    ensures
        0 <= total(words.take(n)) <= total(words),
    decreases words.len() - n,
{
    lemma_total_positive(words.take(n));
    if n < words.len() {
        lemma_total_grows(words, n + 1);
        assert(words.take(n + 1).drop_last() =~= words.take(n));
    } else {
        assert(words.take(n) =~= words);
    }
}

proof fn lemma_total_positive(words: Seq<u32>)
    ensures
        0 <= total(words),
    decreases words.len(),
{
    if words.len() > 0 {
        lemma_total_positive(words.drop_last());
    }
}

/// The sum of the words, where it fits in a word.
pub fn sum_words(words: &Vec<u32>) -> (sum: Option<u32>)
    ensures
        match sum {
            Some(s) => s == total(words@),
            None => total(words@) > u32::MAX,
        },
{
    let mut sum: u32 = 0;
    let mut i: usize = 0;
    while i < words.len()
        invariant
            i <= words.len(),
            sum == total(words@.take(i as int)),
        decreases words.len() - i,
    {
        proof {
            assert(words@.take(i + 1).drop_last() =~= words@.take(i as int));
            lemma_total_grows(words@, i + 1);
        }
        match sum.checked_add(words[i]) {
            Some(next) => {
                sum = next;
            },
            None => {
                return None;
            },
        }
        i += 1;
    }
    assert(words@.take(i as int) =~= words@);
    Some(sum)
}

/// The bounds and the average of the poll rounds of the threads.
#[derive(Clone, Copy, PartialEq, Eq, Structural, Debug)]
pub struct Rounds {
    pub least: u32,
    pub greatest: u32,
    pub mean: u32,
}

/// Whether `rounds` describes the words: their bounds and their average, or
/// zeros where there are none.
pub open spec fn describes(rounds: Rounds, words: Seq<u32>) -> bool {
    if words.len() == 0 {
        rounds == (Rounds { least: 0, greatest: 0, mean: 0 })
    } else {
        &&& words.contains(rounds.least)
        &&& words.contains(rounds.greatest)
        &&& forall|i: int|
            0 <= i < words.len() ==> rounds.least <= #[trigger] words[i] <= rounds.greatest
        &&& rounds.mean == total(words) / (words.len() as int)
    }
}

/// Describes the poll rounds of the threads. There is no answer where their sum
/// does not fit in a word.
pub fn describe_rounds(words: &Vec<u32>) -> (rounds: Option<Rounds>)
    requires
        words@.len() <= u32::MAX,
    ensures
        match rounds {
            Some(r) => describes(r, words@) && total(words@) <= u32::MAX,
            None => total(words@) > u32::MAX,
        },
{
    let sum: u32 = match sum_words(words) {
        Some(s) => s,
        None => {
            return None;
        },
    };
    if words.len() == 0 {
        return Some(Rounds { least: 0, greatest: 0, mean: 0 });
    }
    let mut least: u32 = words[0];
    let mut greatest: u32 = words[0];
    let mut i: usize = 1;
    assert(words@[0] == least);
    while i < words.len()
        invariant
            1 <= i <= words.len(),
            words@.contains(least),
            words@.contains(greatest),
            forall|k: int| 0 <= k < i ==> least <= #[trigger] words@[k] <= greatest,
        decreases words.len() - i,
    {
        let word: u32 = words[i];
        assert(words@[i as int] == word);
        if word < least {
            least = word;
        }
        if word > greatest {
            greatest = word;
        }
        i += 1;
    }
    Some(Rounds { least, greatest, mean: sum / words.len() as u32 })
}

/// The average lies between the bounds.
pub proof fn mean_lies_between_the_bounds(rounds: Rounds, words: Seq<u32>)
    requires
        describes(rounds, words),
    ensures
        rounds.least <= rounds.mean <= rounds.greatest,
{
    if words.len() > 0 {
        let n = words.len() as int;
        lemma_total_between(rounds, words, n);
        assert(words.take(n) =~= words);
        let (low, high, t) = (rounds.least as int, rounds.greatest as int, total(words));
        assert(low <= t / n <= high) by (nonlinear_arith)
            requires
                n > 0,
                low * n <= t <= high * n,
        ;
    }
}

proof fn lemma_total_between(rounds: Rounds, words: Seq<u32>, n: int)
    requires
        0 <= n <= words.len(),
        forall|i: int|
            0 <= i < words.len() ==> rounds.least <= #[trigger] words[i] <= rounds.greatest,
    ensures
        rounds.least * n <= total(words.take(n)) <= rounds.greatest * n,
    decreases n,
{
    if n > 0 {
        lemma_total_between(rounds, words, n - 1);
        assert(words.take(n).drop_last() =~= words.take(n - 1));
        assert(words.take(n).last() == words[n - 1]);
        assert(rounds.least * n == rounds.least * (n - 1) + rounds.least) by (nonlinear_arith);
        assert(rounds.greatest * n == rounds.greatest * (n - 1) + rounds.greatest)
            by (nonlinear_arith);
    }
}

/// The order of times.
pub open spec fn no_later() -> spec_fn(u128, u128) -> bool {
    |a: u128, b: u128| a <= b
}

/// The time in the middle of the sorted times, the later one of two.
pub open spec fn median_of(times: Seq<u128>) -> u128 {
    times.sort_by(no_later())[times.len() as int / 2]
}

/// Puts a time at its place among sorted times.
fn insert_sorted(sorted: &mut Vec<u128>, time: u128)
    requires
        sorted_by(old(sorted)@, no_later()),
    ensures
        sorted_by(final(sorted)@, no_later()),
        final(sorted)@.to_multiset() == old(sorted)@.to_multiset().insert(time),
{
    let ghost before = sorted@;
    let mut place: usize = 0;
    while place < sorted.len() && sorted[place] <= time
        invariant
            place <= sorted.len(),
            sorted@ == before,
            forall|k: int| 0 <= k < place ==> #[trigger] sorted@[k] <= time,
        decreases sorted.len() - place,
    {
        place += 1;
    }
    assert forall|k: int| place <= k < before.len() implies time <= #[trigger] before[k] by {
        if place < k {
            assert(no_later()(before[place as int], before[k]));
        }
    }
    sorted.insert(place, time);
    proof {
        let after = sorted@;
        assert(after.to_multiset() == before.to_multiset().insert(time)) by {
            broadcast use vstd::seq_lib::group_to_multiset_ensures;

            assert(after[place as int] == time);
            assert(after.remove(place as int) =~= before);
            assert(after.to_multiset().remove(time) == before.to_multiset());
            assert(after.contains(time));
            assert(after.to_multiset() =~= before.to_multiset().insert(time));
        }
        assert forall|i: int, j: int| 0 <= i < j < after.len() implies #[trigger] no_later()(
            after[i],
            after[j],
        ) by {
            let (p, q) = (
                if i < place {
                    i
                } else {
                    i - 1
                },
                if j < place {
                    j
                } else {
                    j - 1
                },
            );
            if i != place && j != place {
                assert(no_later()(before[p], before[q]));
            } else if i == place {
                assert(before[q] == after[j]);
            } else {
                assert(before[p] == after[i]);
            }
        }
    }
}

/// The median of the times.
pub fn median(times: &Vec<u128>) -> (middle: u128)
    requires
        times@.len() > 0,
    ensures
        middle == median_of(times@),
{
    let mut sorted: Vec<u128> = Vec::new();
    let mut i: usize = 0;
    assert(times@.take(0) =~= Seq::<u128>::empty());
    assert(sorted@ =~= times@.take(0));
    while i < times.len()
        invariant
            i <= times.len(),
            sorted_by(sorted@, no_later()),
            sorted@.to_multiset() == times@.take(i as int).to_multiset(),
        decreases times.len() - i,
    {
        insert_sorted(&mut sorted, times[i]);
        proof {
            times@.take(i as int).to_multiset_ensures();
            assert(times@.take(i + 1) =~= times@.take(i as int).push(times@[i as int]));
        }
        i += 1;
    }
    proof {
        assert(times@.take(i as int) =~= times@);
        assert(total_ordering(no_later()));
        times@.lemma_sort_by_ensures(no_later());
        lemma_sorted_unique(sorted@, times@.sort_by(no_later()), no_later());
        sorted@.to_multiset_ensures();
        times@.to_multiset_ensures();
    }
    sorted[times.len() / 2]
}

/// The median is one of the times.
pub proof fn median_is_one_of_the_times(times: Seq<u128>)
    requires
        times.len() > 0,
    ensures
        times.contains(median_of(times)),
{
    broadcast use vstd::seq_lib::group_to_multiset_ensures;

    assert(total_ordering(no_later()));
    times.lemma_sort_by_ensures(no_later());
    let sorted = times.sort_by(no_later());
    assert(sorted.to_multiset().len() == times.to_multiset().len());
    assert(sorted.len() == times.len());
    assert(sorted.contains(sorted[times.len() as int / 2]));
}

/// The number whose low and high halves are the two words.
pub open spec fn combined(low: u32, high: u32) -> int {
    low + high * 0x1_0000_0000
}

/// Puts a number together from its low and its high half.
pub fn combine(low: u32, high: u32) -> (number: u64)
    ensures
        number == combined(low, high),
{
    low as u64 + high as u64 * 0x1_0000_0000
}

/// The halves of a number put it together again.
pub proof fn halves_combine(number: u64)
    ensures
        combined((number % 0x1_0000_0000) as u32, (number / 0x1_0000_0000) as u32) == number,
{
}

/// However the times are put in order, the median stands in the middle: at least half
/// of them are no later, and at least half are no earlier.
pub proof fn median_stands_in_the_middle(times: Seq<u128>, ordered: Seq<u128>)
    requires
        times.len() > 0,
        ordered.to_multiset() == times.to_multiset(),
        forall|i: int, j: int| 0 <= i <= j < ordered.len() ==> ordered[i] <= ordered[j],
    ensures
        ordered.len() == times.len(),
        median_of(times) == ordered[times.len() as int / 2],
        forall|k: int| 0 <= k <= times.len() as int / 2 ==> #[trigger] ordered[k] <= median_of(times),
        forall|k: int|
            times.len() as int / 2 <= k < times.len() ==> median_of(times) <= #[trigger] ordered[k],
{
    assert(total_ordering(no_later()));
    times.lemma_sort_by_ensures(no_later());
    assert(sorted_by(ordered, no_later()));
    lemma_sorted_unique(ordered, times.sort_by(no_later()), no_later());
    ordered.to_multiset_ensures();
    times.to_multiset_ensures();
}

/// The sum of two lists is that of both together, and a single word is its own sum.
pub proof fn sums_add_up(first: Seq<u32>, second: Seq<u32>)
    ensures
        total(first + second) == total(first) + total(second),
        first.len() == 0 ==> total(first) == 0,
        first.len() == 1 ==> total(first) == first[0],
    decreases second.len(),
{
    reveal_with_fuel(total, 2);
    if second.len() == 0 {
        assert(first + second =~= first);
    } else {
        sums_add_up(first, second.drop_last());
        assert((first + second).drop_last() =~= first + second.drop_last());
        assert((first + second).last() == second.last());
    }
    if first.len() == 1 {
        assert(first.drop_last() =~= Seq::empty());
    }
}

/// The average is the sum divided among the words, rounded down.
pub proof fn mean_divides_the_sum(rounds: Rounds, words: Seq<u32>)
    requires
        describes(rounds, words),
        words.len() > 0,
    ensures
        rounds.mean * words.len() <= total(words) < (rounds.mean + 1) * words.len(),
{
    let (n, t, m) = (words.len() as int, total(words), rounds.mean as int);
    lemma_total_positive(words);
    vstd::arithmetic::div_mod::lemma_fundamental_div_mod(t, n);
    vstd::arithmetic::div_mod::lemma_mod_bound(t, n);
    assert(m * n <= t < (m + 1) * n) by (nonlinear_arith)
        requires
            t == n * m + t % n,
            0 <= t % n < n,
    ;
}

} // verus!
