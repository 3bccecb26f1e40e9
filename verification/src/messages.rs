//! Messages that kernels send to the host: what they mention, and which threads
//! they come from.
use vstd::prelude::*;
use crate::text::{
    decimal, decimal_stands_for_the_number, digit_number, numeral_value, texts,
};

verus! {

/// Whether `part` stands in the text at place `i`.
pub open spec fn occurs_at(text: Seq<char>, part: Seq<char>, i: int) -> bool {
    0 <= i && i + part.len() <= text.len() && text.subrange(i, i + part.len()) == part
}

/// Whether `part` stands anywhere in the text.
pub open spec fn occurs(text: Seq<char>, part: Seq<char>) -> bool {
    exists|i: int| occurs_at(text, part, i)
}

/// Whether `part` first stands in the text at place `i`.
pub open spec fn first_occurs_at(text: Seq<char>, part: Seq<char>, i: int) -> bool {
    occurs_at(text, part, i) && forall|j: int| j < i ==> !#[trigger] occurs_at(text, part, j)
}

/// Whether any of the messages has `part` in it.
pub open spec fn mentioned(messages: Seq<Seq<char>>, part: Seq<char>) -> bool {
    exists|m: int| 0 <= m < messages.len() && occurs(#[trigger] messages[m], part)
}

/// The characters of a text.
pub fn characters(text: &str) -> (all: Vec<char>)
    ensures
        all@ == text@,
{
    let mut all: Vec<char> = Vec::new();
    for c in it: text.chars()
        invariant
            all@ == it.seq().take(it.index() as int),
            it.seq() == text@,
    {
        all.push(c);
    }
    all
}

fn stands_at(text: &Vec<char>, part: &Vec<char>, i: usize) -> (stands: bool)
    requires
        i + part@.len() <= text@.len(),
    ensures
        stands == occurs_at(text@, part@, i as int),
{
    let len: usize = text.len();
    let mut k: usize = 0;
    while k < part.len()
        invariant
            k <= part@.len(),
            i + part@.len() <= text@.len() == len,
            forall|r: int| 0 <= r < k ==> text@[i + r] == #[trigger] part@[r],
        decreases part.len() - k,
    {
        if text[i + k] != part[k] {
            assert(text@.subrange(i as int, i + part@.len())[k as int] != part@[k as int]);
            return false;
        }
        k += 1;
    }
    assert(text@.subrange(i as int, i + part@.len()) =~= part@);
    true
}

/// The first place where `part` stands in the text.
pub fn find_first(text: &Vec<char>, part: &Vec<char>) -> (place: Option<usize>)
    ensures
        match place {
            Some(i) => first_occurs_at(text@, part@, i as int),
            None => !occurs(text@, part@),
        },
{
    if part.len() > text.len() {
        return None;
    }
    let last: usize = text.len() - part.len();
    let mut i: usize = 0;
    loop
        invariant
            i <= last,
            last + part@.len() == text@.len(),
            forall|j: int| j < i ==> !#[trigger] occurs_at(text@, part@, j),
        decreases last - i,
    {
        if stands_at(text, part, i) {
            return Some(i);
        }
        if i == last {
            return None;
        }
        i += 1;
    }
}

/// Whether the text has `part` in it.
pub fn contains(text: &str, part: &str) -> (found: bool)
    ensures
        found == occurs(text@, part@),
{
    find_first(&characters(text), &characters(part)).is_some()
}

/// The first message that has `part` in it.
pub fn first_mention(messages: &Vec<String>, part: &str) -> (place: Option<usize>)
    ensures
        match place {
            Some(m) => m < messages@.len() && occurs(texts(messages@)[m as int], part@)
                && forall|k: int|
                0 <= k < m ==> !occurs(#[trigger] texts(messages@)[k], part@),
            None => !mentioned(texts(messages@), part@),
        },
{
    let mut m: usize = 0;
    while m < messages.len()
        invariant
            m <= messages.len(),
            forall|k: int| 0 <= k < m ==> !occurs(#[trigger] texts(messages@)[k], part@),
        decreases messages.len() - m,
    {
        if contains(messages[m].as_str(), part) {
            assert(texts(messages@)[m as int] == messages@[m as int]@);
            return Some(m);
        }
        assert(texts(messages@)[m as int] == messages@[m as int]@);
        m += 1;
    }
    None
}

/// Whether any of the messages has `part` in it.
pub fn mention(messages: &Vec<String>, part: &str) -> (found: bool)
    ensures
        found == mentioned(texts(messages@), part@),
{
    first_mention(messages, part).is_some()
}

/// The messages one after the other.
pub open spec fn run_together(messages: Seq<Seq<char>>) -> Seq<char>
    decreases messages.len(),
{
    if messages.len() == 0 {
        Seq::empty()
    } else {
        run_together(messages.drop_last()) + messages.last()
    }
}

/// Joins the messages without anything between them.
pub fn concatenate(messages: &Vec<String>) -> (all: String)
    ensures
        all@ == run_together(texts(messages@)),
{
    let mut all: String = String::new();
    let mut m: usize = 0;
    while m < messages.len()
        invariant
            m <= messages.len(),
            all@ == run_together(texts(messages@).take(m as int)),
        decreases messages.len() - m,
    {
        all.append(messages[m].as_str());
        m += 1;
        assert(texts(messages@).take(m as int).drop_last() =~= texts(messages@).take(m - 1));
        assert(texts(messages@).take(m as int).last() == messages@[m - 1]@);
    }
    assert(texts(messages@).take(m as int) =~= texts(messages@));
    all
}

/// Whether a character is a decimal digit.
pub open spec fn is_digit(c: char) -> bool {
    48 <= c as int <= 57
}

/// The value of a decimal digit.
pub open spec fn digit_value(c: char) -> int {
    c as int - 48
}

/// How many digits stand in the text from `from` on without a gap.
pub open spec fn digit_run(text: Seq<char>, from: int) -> nat
    decreases text.len() - from,
{
    if 0 <= from < text.len() && is_digit(text[from]) {
        1 + digit_run(text, from + 1)
    } else {
        0
    }
}

/// The value of the first `count` digits from `from` on.
pub open spec fn digits_value(text: Seq<char>, from: int, count: nat) -> int
    decreases count,
{
    if count == 0 {
        0
    } else {
        10 * digits_value(text, from, (count - 1) as nat) + digit_value(text[from + count - 1])
    }
}

/// The number that stands in the text at `from`: 0 where there is none, or none
/// that fits.
pub open spec fn number_at(text: Seq<char>, from: int) -> int {
    let value = digits_value(text, from, digit_run(text, from));
    if value <= u32::MAX {
        value
    } else {
        0
    }
}

/// The first place where `part` stands in the text.
pub open spec fn first_place(text: Seq<char>, part: Seq<char>) -> int {
    choose|i: int| first_occurs_at(text, part, i)
}

/// The number behind the first place where `prefix` stands; 0 where it does not.
pub open spec fn number_after(text: Seq<char>, prefix: Seq<char>) -> int {
    if occurs(text, prefix) {
        number_at(text, first_place(text, prefix) + prefix.len())
    } else {
        0
    }
}

/// A text has at most one first place for a part.
pub proof fn first_place_is_unique(text: Seq<char>, part: Seq<char>, a: int, b: int)
    requires
        first_occurs_at(text, part, a),
        first_occurs_at(text, part, b),
    ensures
        a == b,
{
}

/// More digits never make a smaller number.
proof fn lemma_value_grows(text: Seq<char>, from: int, shorter: nat, longer: nat)
    requires
        0 <= from,
        shorter <= longer <= digit_run(text, from),
    ensures
        0 <= digits_value(text, from, shorter) <= digits_value(text, from, longer),
    decreases longer,
{
    if longer > 0 {
        lemma_run_is_digits(text, from, longer - 1);
        if shorter < longer {
            lemma_value_grows(text, from, shorter, (longer - 1) as nat);
        } else {
            lemma_value_grows(text, from, (shorter - 1) as nat, (longer - 1) as nat);
        }
    }
}

proof fn lemma_run_is_digits(text: Seq<char>, from: int, k: int)
    requires
        0 <= from,
        0 <= k < digit_run(text, from),
    ensures
        from + k < text.len(),
        is_digit(text[from + k]),
    decreases k,
{
    if k > 0 {
        lemma_run_is_digits(text, from + 1, k - 1);
    }
}

/// The run of digits ends where the first other character stands.
proof fn lemma_run_ends(text: Seq<char>, from: int, count: nat)
    requires
        0 <= from,
        from + count <= text.len(),
        forall|k: int| from <= k < from + count ==> is_digit(#[trigger] text[k]),
    ensures
        digit_run(text, from) >= count,
        from + count == text.len() || !is_digit(text[from + count]) ==> digit_run(text, from)
            == count,
    decreases count,
{
    if count > 0 {
        lemma_run_ends(text, from + 1, (count - 1) as nat);
        assert(is_digit(text[from]));
    }
}

fn read_number(text: &Vec<char>, from: usize) -> (number: u32)
    requires
        from <= text@.len(),
    ensures
        number == number_at(text@, from as int),
{
    let mut value: u64 = 0;
    let mut k: usize = from;
    let mut ended: bool = false;
    while !ended && k < text.len()
        invariant
            from <= k <= text@.len(),
            forall|j: int| from <= j < k ==> is_digit(#[trigger] text@[j]),
            ended ==> k < text@.len() && !is_digit(text@[k as int]),
            value == digits_value(text@, from as int, (k - from) as nat),
            value <= u32::MAX,
        decreases text.len() - k, if ended {
            0int
        } else {
            1
        },
    {
        match read_digit(text[k]) {
            Some(digit) => {
                value = 10 * value + digit;
                k += 1;
                if value > u32::MAX as u64 {
                    proof {
                        lemma_run_ends(text@, from as int, (k - from) as nat);
                        lemma_value_grows(
                            text@,
                            from as int,
                            (k - from) as nat,
                            digit_run(text@, from as int),
                        );
                    }
                    return 0;
                }
            },
            None => {
                ended = true;
            },
        }
    }
    proof {
        lemma_run_ends(text@, from as int, (k - from) as nat);
    }
    value as u32
}

/// The number behind the first place where `prefix` stands in the text.
pub fn find_number(text: &str, prefix: &str) -> (number: u32)
    ensures
        number == number_after(text@, prefix@),
{
    let all: Vec<char> = characters(text);
    let part: Vec<char> = characters(prefix);
    match find_first(&all, &part) {
        Some(i) => {
            proof {
                assert(occurs_at(text@, prefix@, i as int));
                first_place_is_unique(text@, prefix@, i as int, first_place(text@, prefix@));
            }
            let len: usize = all.len();
            assert(i + part@.len() <= len);
            read_number(&all, i + part.len())
        },
        None => 0,
    }
}

/// The thread that a message names: `Thread ` and its number, in two digits or,
/// for a wide launch, in three. Shorter messages name none.
pub open spec fn thread_in(text: Seq<char>, wide: bool) -> Option<int> {
    let bytes = vstd::utf8::encode_utf8(text).len();
    if !occurs_at(text, "Thread "@, 0) {
        None
    } else if wide {
        if bytes >= 17 && text.len() > 9 && is_digit(text[7]) && is_digit(text[8]) && is_digit(
            text[9],
        ) {
            Some(
                digit_value(text[7]) * 100 + digit_value(text[8]) * 10 + digit_value(text[9]),
            )
        } else {
            None
        }
    } else {
        if bytes >= 16 && text.len() > 8 && is_digit(text[7]) && digit_value(text[7]) <= 3
            && is_digit(text[8]) {
            Some(digit_value(text[7]) * 10 + digit_value(text[8]))
        } else {
            None
        }
    }
}

/// The value of a character that is a digit.
fn read_digit(c: char) -> (digit: Option<u64>)
    ensures
        digit == if is_digit(c) {
            Some(digit_value(c) as u64)
        } else {
            None
        },
{
    let code: u32 = c as u32;
    if 48 <= code && code <= 57 {
        Some((code - 48) as u64)
    } else {
        None
    }
}

/// The thread that a message names.
pub fn read_thread(message: &str, wide: bool) -> (thread: Option<u64>)
    ensures
        match thread {
            Some(t) => thread_in(message@, wide) == Some(t as int),
            None => thread_in(message@, wide) is None,
        },
{
    let bytes: usize = message.as_bytes().len();
    let text: Vec<char> = characters(message);
    let start: Vec<char> = characters("Thread ");
    if start.len() > text.len() || !stands_at(&text, &start, 0) {
        return None;
    }
    if wide {
        if bytes < 17 || text.len() <= 9 {
            return None;
        }
        match (read_digit(text[7]), read_digit(text[8]), read_digit(text[9])) {
            (Some(hundreds), Some(tens), Some(ones)) => Some(hundreds * 100 + tens * 10 + ones),
            _ => None,
        }
    } else {
        if bytes < 16 || text.len() <= 8 {
            return None;
        }
        match (read_digit(text[7]), read_digit(text[8])) {
            (Some(tens), Some(ones)) => if tens <= 3 {
                Some(tens * 10 + ones)
            } else {
                None
            },
            _ => None,
        }
    }
}

/// Whether any message names the thread.
pub open spec fn heard(messages: Seq<Seq<char>>, wide: bool, thread: int) -> bool {
    exists|m: int|
        0 <= m < messages.len() && thread_in(#[trigger] messages[m], wide) == Some(thread)
}

/// The threads below `n` that no message names, in order.
pub open spec fn silent(messages: Seq<Seq<char>>, wide: bool, n: nat) -> Seq<u64>
    decreases n,
{
    if n == 0 {
        Seq::empty()
    } else {
        let before = silent(messages, wide, (n - 1) as nat);
        if heard(messages, wide, n - 1) {
            before
        } else {
            before.push((n - 1) as u64)
        }
    }
}

/// The thread that each message names.
fn read_threads(messages: &Vec<String>, wide: bool) -> (threads: Vec<Option<u64>>)
    ensures
        threads@.len() == messages@.len(),
        forall|m: int|
            0 <= m < messages@.len() ==> match #[trigger] threads@[m] {
                Some(t) => thread_in(messages@[m]@, wide) == Some(t as int),
                None => thread_in(messages@[m]@, wide) is None,
            },
{
    let mut threads: Vec<Option<u64>> = Vec::new();
    let mut m: usize = 0;
    while m < messages.len()
        invariant
            m <= messages@.len(),
            threads@.len() == m,
            forall|k: int|
                0 <= k < m ==> match #[trigger] threads@[k] {
                    Some(t) => thread_in(messages@[k]@, wide) == Some(t as int),
                    None => thread_in(messages@[k]@, wide) is None,
                },
        decreases messages.len() - m,
    {
        threads.push(read_thread(messages[m].as_str(), wide));
        m += 1;
    }
    threads
}

/// Whether a thread is among those named.
fn is_named(threads: &Vec<Option<u64>>, thread: u64) -> (named: bool)
    ensures
        named == threads@.contains(Some(thread)),
{
    let mut m: usize = 0;
    while m < threads.len()
        invariant
            m <= threads@.len(),
            forall|k: int| 0 <= k < m ==> #[trigger] threads@[k] != Some(thread),
        decreases threads.len() - m,
    {
        if let Some(t) = threads[m] {
            if t == thread {
                assert(threads@[m as int] == Some(thread));
                return true;
            }
        }
        m += 1;
    }
    false
}

/// The threads below `total` that no message names.
pub fn find_silent(messages: &Vec<String>, wide: bool, total: u64) -> (threads: Vec<u64>)
    ensures
        threads@ == silent(texts(messages@), wide, total as nat),
{
    let named: Vec<Option<u64>> = read_threads(messages, wide);
    let ghost all = texts(messages@);
    assert forall|t: u64| #[trigger] named@.contains(Some(t)) == heard(all, wide, t as int) by {
        if named@.contains(Some(t)) {
            let m = choose|m: int| 0 <= m < named@.len() && named@[m] == Some(t);
            assert(all[m] == messages@[m]@);
        }
        if heard(all, wide, t as int) {
            let m = choose|m: int|
                0 <= m < all.len() && thread_in(#[trigger] all[m], wide) == Some(t as int);
            assert(named@[m] == Some(t));
        }
    }
    let mut threads: Vec<u64> = Vec::new();
    let mut n: u64 = 0;
    while n < total
        invariant
            n <= total,
            forall|t: u64| #[trigger] named@.contains(Some(t)) == heard(all, wide, t as int),
            threads@ == silent(all, wide, n as nat),
        decreases total - n,
    {
        if !is_named(&named, n) {
            threads.push(n);
        }
        n += 1;
    }
    threads
}

/// One more message makes at most the thread that it names heard.
proof fn lemma_heard_step(messages: Seq<Seq<char>>, wide: bool, m: int, thread: int)
    requires
        0 <= m < messages.len(),
    ensures
        heard(messages.take(m + 1), wide, thread) == (heard(messages.take(m), wide, thread)
            || thread_in(messages[m], wide) == Some(thread)),
{
    let (fewer, more) = (messages.take(m), messages.take(m + 1));
    if heard(fewer, wide, thread) {
        let k = choose|k: int|
            0 <= k < fewer.len() && thread_in(#[trigger] fewer[k], wide) == Some(thread);
        assert(more[k] == fewer[k]);
    }
    if thread_in(messages[m], wide) == Some(thread) {
        assert(more[m] == messages[m]);
    }
    if heard(more, wide, thread) {
        let k = choose|k: int|
            0 <= k < more.len() && thread_in(#[trigger] more[k], wide) == Some(thread);
        if k < m {
            assert(fewer[k] == more[k]);
        }
    }
}

/// A thread is listed as silent exactly when no message names it.
pub proof fn silent_threads_are_complete(
    messages: Seq<Seq<char>>,
    wide: bool,
    n: nat,
    thread: int,
)
    requires
        0 <= thread < n <= u64::MAX + 1,
    ensures
        silent(messages, wide, n).contains(thread as u64) <==> !heard(messages, wide, thread),
    decreases n,
{
    let now = silent(messages, wide, n);
    let before = silent(messages, wide, (n - 1) as nat);
    lemma_silent_below(messages, wide, (n - 1) as nat);
    if !heard(messages, wide, n - 1) {
        assert(now[before.len() as int] == (n - 1) as u64);
        assert forall|k: u64| k != n - 1 implies now.contains(k) == before.contains(k) by {
            if before.contains(k) {
                let r = choose|r: int| 0 <= r < before.len() && before[r] == k;
                assert(now[r] == k);
            }
            if now.contains(k) {
                let r = choose|r: int| 0 <= r < now.len() && now[r] == k;
                assert(before[r] == k);
            }
        }
    }
    if thread < n - 1 {
        silent_threads_are_complete(messages, wide, (n - 1) as nat, thread);
    }
}

/// Only threads below `n` are listed.
pub(crate) proof fn lemma_silent_below(messages: Seq<Seq<char>>, wide: bool, n: nat)
    requires
        n <= u64::MAX + 1,
    ensures
        forall|r: int| 0 <= r < silent(messages, wide, n).len() ==> (#[trigger] silent(
            messages,
            wide,
            n,
        )[r]) < n,
    decreases n,
{
    if n > 0 {
        lemma_silent_below(messages, wide, (n - 1) as nat);
        let before = silent(messages, wide, (n - 1) as nat);
        let now = silent(messages, wide, n);
        assert forall|r: int| 0 <= r < now.len() implies (#[trigger] now[r]) < n by {
            if r < before.len() {
                assert(now[r] == before[r]);
            }
        }
    }
}

/// No more threads are silent than there are.
proof fn lemma_silent_count(messages: Seq<Seq<char>>, wide: bool, n: nat)
    ensures
        silent(messages, wide, n).len() <= n,
    decreases n,
{
    if n > 0 {
        lemma_silent_count(messages, wide, (n - 1) as nat);
    }
}

/// Without the last message at most one more thread is silent.
proof fn lemma_one_fewer(messages: Seq<Seq<char>>, wide: bool, n: nat)
    requires
        messages.len() > 0,
    ensures
        silent(messages.drop_last(), wide, n).len() <= silent(messages, wide, n).len() + if (
        thread_in(messages.last(), wide) matches Some(t) && t < n) {
            1int
        } else {
            0
        },
    decreases n,
{
    if n > 0 {
        lemma_one_fewer(messages, wide, (n - 1) as nat);
        lemma_heard_step(messages, wide, messages.len() - 1, n - 1);
        assert(messages.take(messages.len() as int) =~= messages);
        assert(messages.take(messages.len() - 1) =~= messages.drop_last());
    }
}

/// Every thread that is heard sent a message of its own: there are at least as
/// many messages as heard threads.
pub proof fn heard_threads_sent_messages(messages: Seq<Seq<char>>, wide: bool, n: nat)
    ensures
        silent(messages, wide, n).len() <= n,
        n - silent(messages, wide, n).len() <= messages.len(),
    decreases messages.len(),
{
    lemma_silent_count(messages, wide, n);
    if messages.len() == 0 {
        lemma_nobody_heard(messages, wide, n);
    } else {
        heard_threads_sent_messages(messages.drop_last(), wide, n);
        lemma_one_fewer(messages, wide, n);
    }
}

proof fn lemma_nobody_heard(messages: Seq<Seq<char>>, wide: bool, n: nat)
    requires
        messages.len() == 0,
    ensures
        silent(messages, wide, n).len() == n,
    decreases n,
{
    if n > 0 {
        lemma_nobody_heard(messages, wide, (n - 1) as nat);
    }
}

/// Lists that stand one behind the other run together into one text.
pub proof fn running_together_goes_list_by_list(first: Seq<Seq<char>>, second: Seq<Seq<char>>)
    ensures
        run_together(first + second) == run_together(first) + run_together(second),
        second.len() == 1 ==> run_together(second) == second[0],
    decreases second.len(),
{
    reveal_with_fuel(run_together, 2);
    if second.len() == 0 {
        assert(first + second =~= first);
        assert(run_together(first) + run_together(second) =~= run_together(first));
    } else {
        let both = first + second;
        running_together_goes_list_by_list(first, second.drop_last());
        assert(both.drop_last() =~= first + second.drop_last());
        assert(both.last() == second.last());
        assert(run_together(both) =~= run_together(first) + run_together(second));
        if second.len() == 1 {
            assert(second.drop_last() =~= Seq::empty());
            assert(run_together(second) =~= second[0]);
        }
    }
}

/// The value of a run of digits is that of the numeral.
proof fn lemma_value_of_numeral(text: Seq<char>, from: int, count: nat)
    requires
        0 <= from,
        from + count <= text.len(),
        forall|k: int| from <= k < from + count ==> is_digit(#[trigger] text[k]),
    ensures
        digits_value(text, from, count) == numeral_value(text.subrange(from, from + count), 10),
    decreases count,
{
    let part = text.subrange(from, from + count);
    if count > 0 {
        lemma_value_of_numeral(text, from, (count - 1) as nat);
        assert(part.drop_last() =~= text.subrange(from, from + count - 1));
        assert(part.last() == text[from + count - 1]);
        assert(is_digit(text[from + count - 1]));
    }
}

/// A number that a message states is read back: behind the first place of the prefix
/// stands the decimal text of a number, and then no digit.
pub proof fn stated_numbers_read_back(
    text: Seq<char>,
    prefix: Seq<char>,
    place: int,
    number: nat,
)
    requires
        first_occurs_at(text, prefix, place),
        number <= u32::MAX,
        occurs_at(text, decimal(number), place + prefix.len()),
        ({
            let end = place + prefix.len() + decimal(number).len();
            end == text.len() || !is_digit(text[end])
        }),
    ensures
        number_after(text, prefix) == number,
{
    let from = place + prefix.len();
    let numeral = decimal(number);
    decimal_stands_for_the_number(number);
    first_place_is_unique(text, prefix, place, first_place(text, prefix));
    assert(text.subrange(from, from + numeral.len()) == numeral);
    assert forall|k: int| from <= k < from + numeral.len() implies is_digit(#[trigger] text[k]) by {
        assert(numeral[k - from] == text[k]);
        assert(0 <= digit_number(numeral[k - from]) < 10);
    }
    lemma_run_ends(text, from, numeral.len());
    lemma_value_of_numeral(text, from, numeral.len());
}

/// A message that begins with `Thread ` and the digits of a number names the thread of
/// that number: two digits, of which the first is at most three, or three in a wide
/// launch. A message that begins otherwise names none.
pub proof fn threads_are_named_by_their_digits(text: Seq<char>, wide: bool)
    ensures
        ({
            let digits: int = if wide {
                3
            } else {
                2
            };
            let long_enough = vstd::utf8::encode_utf8(text).len() >= 14 + digits;
            &&& !occurs_at(text, "Thread "@, 0) || !long_enough ==> thread_in(text, wide) is None
            &&& thread_in(text, wide) is Some ==> {
                &&& text.len() >= 7 + digits
                &&& is_digit(text[7]) && is_digit(text[8]) && (wide ==> is_digit(text[9]))
                &&& thread_in(text, wide) == Some(
                    numeral_value(text.subrange(7, 7 + digits), 10),
                )
            }
            &&& occurs_at(text, "Thread "@, 0) && long_enough && text.len() >= 7 + digits
                && is_digit(text[7]) && is_digit(text[8]) && (if wide {
                is_digit(text[9])
            } else {
                text[7] <= '3'
            }) ==> thread_in(text, wide) is Some
        }),
{
    reveal_with_fuel(digits_value, 4);
    if text.len() >= 10 && is_digit(text[7]) && is_digit(text[8]) && is_digit(text[9]) {
        lemma_value_of_numeral(text, 7, 3);
    }
    if text.len() >= 9 && is_digit(text[7]) && is_digit(text[8]) {
        lemma_value_of_numeral(text, 7, 2);
    }
}

/// The silent threads are listed in order, each once.
pub proof fn silent_threads_are_in_order(messages: Seq<Seq<char>>, wide: bool, n: nat)
    requires
        n <= u64::MAX + 1,
    ensures
        forall|a: int, b: int|
            0 <= a < b < silent(messages, wide, n).len() ==> (#[trigger] silent(
                messages,
                wide,
                n,
            )[a]) < (#[trigger] silent(messages, wide, n)[b]),
    decreases n,
{
    if n > 0 {
        silent_threads_are_in_order(messages, wide, (n - 1) as nat);
        lemma_silent_below(messages, wide, (n - 1) as nat);
        let before = silent(messages, wide, (n - 1) as nat);
        let now = silent(messages, wide, n);
        assert forall|a: int, b: int| 0 <= a < b < now.len() implies (#[trigger] now[a])
            < (#[trigger] now[b]) by {
            assert(now[a] == before[a]);
            if b < before.len() {
                assert(now[b] == before[b]);
            }
        }
    }
}

} // verus!
