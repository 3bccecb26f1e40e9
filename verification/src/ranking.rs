//! Greedy choice and ranking of logits.
use vstd::prelude::*;
use crate::float_bits::{
    f32_key, f64_key, greater, is_finite, is_finite64, is_nan, is_nan64, keys64_order_as_values,
    keys_order_as_values, order_key, order_key64, scaled_value, scaled_value64, F32_INFINITY,
    F64_INFINITY,
};

verus! {

/// The keys that order single-precision numbers; none for a NaN.
pub open spec fn keys(logits: Seq<u32>) -> Seq<Option<int>> {
    logits.map_values(
        |bits: u32|
            if is_nan(bits) {
                None
            } else {
                Some(order_key(bits))
            },
    )
}

/// The keys that order double-precision numbers; none for a NaN.
pub open spec fn keys64(logits: Seq<u64>) -> Seq<Option<int>> {
    logits.map_values(
        |bits: u64|
            if is_nan64(bits) {
                None
            } else {
                Some(order_key64(bits))
            },
    )
}

/// Whether an entry has a key above the given one.
pub open spec fn above(key: Option<int>, floor: int) -> bool {
    key matches Some(k) && k > floor
}

/// The first of the greatest entries above `floor`; 0 if no entry is above it.
pub open spec fn is_first_greatest(keys: Seq<Option<int>>, floor: int, best: int) -> bool {
    if forall|i: int| 0 <= i < keys.len() ==> !above(#[trigger] keys[i], floor) {
        best == 0
    } else {
        &&& 0 <= best < keys.len()
        &&& above(keys[best], floor)
        &&& forall|i: int| 0 <= i < keys.len() ==> !above(#[trigger] keys[i], keys[best]->0)
        &&& forall|i: int| 0 <= i < best ==> (#[trigger] keys[i] matches Some(k) ==> k
            < keys[best]->0)
    }
}

/// There is only one first greatest entry.
pub proof fn first_greatest_is_unique(keys: Seq<Option<int>>, floor: int, a: int, b: int)
    requires
        is_first_greatest(keys, floor, a),
        is_first_greatest(keys, floor, b),
    ensures
        a == b,
{
    if exists|i: int| 0 <= i < keys.len() && above(#[trigger] keys[i], floor) {
        assert(!above(keys[a], keys[b]->0));
        assert(!above(keys[b], keys[a]->0));
    }
}

fn first_greatest(keys: &Vec<Option<i64>>, floor: i64) -> (best: usize)
    ensures
        is_first_greatest(
            keys@.map_values(
                |key: Option<i64>|
                    match key {
                        Some(k) => Some(k as int),
                        None => None,
                    },
            ),
            floor as int,
            best as int,
        ),
{
    let ghost view = keys@.map_values(
        |key: Option<i64>|
            match key {
                Some(k) => Some(k as int),
                None => None,
            },
    );
    let mut best: usize = 0;
    let mut best_key: i64 = floor;
    let mut i: usize = 0;
    while i < keys.len()
        invariant
            i <= keys.len(),
            view.len() == keys@.len(),
            view == keys@.map_values(
                |key: Option<i64>|
                    match key {
                        Some(k) => Some(k as int),
                        None => None,
                    },
            ),
            forall|j: int| 0 <= j < i ==> !above(#[trigger] view[j], best_key as int),
            best_key >= floor,
            best_key == floor ==> best == 0,
            best_key > floor ==> best < i && view[best as int] == Some(best_key as int)
                && forall|j: int|
                0 <= j < best ==> (#[trigger] view[j] matches Some(k) ==> k < best_key),
        decreases keys.len() - i,
    {
        if let Some(key) = keys[i] {
            assert(view[i as int] == Some(key as int));
            if key > best_key {
                assert forall|j: int| 0 <= j < i implies (#[trigger] view[j] matches Some(k) ==> k
                    < key) by {
                    assert(!above(view[j], best_key as int));
                }
                best = i;
                best_key = key;
            }
        }
        i += 1;
    }
    if best_key > floor {
        assert(above(view[best as int], floor as int));
    }
    best
}

/// The token with the greatest logit, in single precision: the first one where
/// several are equal, 0 where no logit is above minus infinity.
pub fn greedy_token(logits: &Vec<u32>) -> (token: usize)
    ensures
        is_first_greatest(keys(logits@), -(F32_INFINITY as int), token as int),
{
    let mut ordered: Vec<Option<i64>> = Vec::new();
    let mut i: usize = 0;
    while i < logits.len()
        invariant
            i <= logits.len(),
            ordered@.len() == i,
            forall|j: int|
                0 <= j < i ==> (match #[trigger] ordered@[j] {
                    Some(k) => keys(logits@)[j] == Some(k as int),
                    None => keys(logits@)[j] is None,
                }),
        decreases logits.len() - i,
    {
        ordered.push(f32_key(logits[i]));
        i += 1;
    }
    let token: usize = first_greatest(&ordered, -0x7F80_0000);
    assert(keys(logits@) =~= ordered@.map_values(
        |key: Option<i64>|
            match key {
                Some(k) => Some(k as int),
                None => None,
            },
    ));
    token
}

/// The token with the greatest logit, in double precision.
pub fn greedy_token64(logits: &Vec<u64>) -> (token: usize)
    ensures
        is_first_greatest(keys64(logits@), -(F64_INFINITY as int), token as int),
{
    let mut ordered: Vec<Option<i64>> = Vec::new();
    let mut i: usize = 0;
    while i < logits.len()
        invariant
            i <= logits.len(),
            ordered@.len() == i,
            forall|j: int|
                0 <= j < i ==> (match #[trigger] ordered@[j] {
                    Some(k) => keys64(logits@)[j] == Some(k as int),
                    None => keys64(logits@)[j] is None,
                }),
        decreases logits.len() - i,
    {
        ordered.push(f64_key(logits[i]));
        i += 1;
    }
    let token: usize = first_greatest(&ordered, -0x7FF0_0000_0000_0000);
    assert(keys64(logits@) =~= ordered@.map_values(
        |key: Option<i64>|
            match key {
                Some(k) => Some(k as int),
                None => None,
            },
    ));
    token
}

/// Whether entry `a` comes before entry `b` in descending order. Equal entries keep
/// their order.
pub open spec fn ranks_before(keys: Seq<Option<int>>, a: int, b: int) -> bool {
    keys[a]->0 > keys[b]->0 || keys[a]->0 == keys[b]->0 && a < b
}

/// Whether the list holds the first entries of the descending order: it descends,
/// and holds an entry exactly if that ranks no later than its last one.
pub open spec fn is_top(keys: Seq<Option<int>>, top: Seq<usize>) -> bool {
    &&& forall|r: int| 0 <= r < top.len() ==> (#[trigger] top[r]) < keys.len()
    &&& forall|r: int, s: int|
        0 <= r < s < top.len() ==> ranks_before(
            keys,
            (#[trigger] top[r]) as int,
            (#[trigger] top[s]) as int,
        )
    &&& top.len() > 0 ==> forall|i: int|
        0 <= i < keys.len() ==> ((exists|r: int| 0 <= r < top.len() && top[r] == i) <==> i
            == top.last() || #[trigger] ranks_before(keys, i, top.last() as int))
}

/// A list that is shorter than the range misses a number of the range.
proof fn lemma_misses_one(list: Seq<usize>, n: int) -> (missing: int)
    requires
        list.len() < n,
    ensures
        0 <= missing < n,
        forall|r: int| 0 <= r < list.len() ==> list[r] != missing,
{
    let numbers = list.map_values(|x: usize| x as int);
    let range = vstd::set_lib::set_int_range(0, n);
    vstd::set_lib::lemma_int_range(0, n);
    numbers.lemma_cardinality_of_set();
    if forall|i: int| 0 <= i < n ==> #[trigger] numbers.contains(i) {
        assert(range.subset_of(numbers.to_set()));
        vstd::set_lib::lemma_len_subset(range, numbers.to_set());
        assert(false);
    }
    let missing = choose|i: int| 0 <= i < n && !(#[trigger] numbers.contains(i));
    assert forall|r: int| 0 <= r < list.len() implies list[r] != missing by {
        assert(numbers[r] == list[r] as int);
        if list[r] == missing {
            assert(numbers.contains(missing));
        }
    }
    missing
}

/// The next entry in descending order behind `last`, or the first of all.
fn next_ranked(keys: &Vec<i64>, last: Option<usize>, Ghost(top): Ghost<Seq<usize>>) -> (next:
    usize)
    requires
        is_top(numbers(keys@), top),
        top.len() < keys@.len(),
        last matches Some(l) ==> top.len() > 0 && l == top.last(),
        last is None ==> top.len() == 0,
    ensures
        next < keys@.len(),
        is_top(numbers(keys@), top.push(next)),
{
    let ghost view = numbers(keys@);
    let mut found: Option<usize> = None;
    let mut i: usize = 0;
    while i < keys.len()
        invariant
            i <= keys.len(),
            view == numbers(keys@),
            last matches Some(l) ==> l < keys@.len(),
            found matches Some(f) ==> f < i && (last matches Some(l) ==> ranks_before(
                view,
                l as int,
                f as int,
            )),
            forall|j: int|
                0 <= j < i ==> (#[trigger] eligible(view, last, j)) ==> (found matches Some(f) && (j
                    == f || ranks_before(view, f as int, j))),
        decreases keys.len() - i,
    {
        let key: i64 = keys[i];
        let open: bool = match last {
            Some(l) => keys[l] > key || (keys[l] == key && l < i),
            None => true,
        };
        assert(open == eligible(view, last, i as int));
        if open {
            let better: bool = match found {
                Some(f) => key > keys[f],
                None => true,
            };
            if better {
                found = Some(i);
            }
        }
        i += 1;
    }
    let ghost missing = lemma_misses_one(top, keys@.len() as int);
    proof {
        assert(eligible(view, last, missing)) by {
            if top.len() > 0 {
                assert(!ranks_before(view, missing, top.last() as int));
                assert(top[top.len() - 1] != missing);
            }
        }
    }
    match found {
        Some(next) => {
            proof {
                lemma_extends(view, top, last, next);
            }
            next
        },
        None => {
            assert(false);
            0
        },
    }
}

/// Whether an entry ranks behind `last`.
spec fn eligible(keys: Seq<Option<int>>, last: Option<usize>, i: int) -> bool {
    match last {
        Some(l) => ranks_before(keys, l as int, i),
        None => true,
    }
}

/// The first of the entries behind the list continues it.
proof fn lemma_extends(
    keys: Seq<Option<int>>,
    top: Seq<usize>,
    last: Option<usize>,
    next: usize,
)
    requires
        is_top(keys, top),
        next < keys.len(),
        last matches Some(l) ==> top.len() > 0 && l == top.last() && ranks_before(
            keys,
            l as int,
            next as int,
        ),
        last is None ==> top.len() == 0,
        forall|j: int|
            0 <= j < keys.len() ==> (#[trigger] eligible(keys, last, j)) ==> j == next
                || ranks_before(keys, next as int, j),
    ensures
        is_top(keys, top.push(next)),
{
    let longer = top.push(next);
    assert forall|r: int, s: int| 0 <= r < s < longer.len() implies ranks_before(
        keys,
        (#[trigger] longer[r]) as int,
        (#[trigger] longer[s]) as int,
    ) by {
        if s == top.len() {
            if r < top.len() - 1 {
                assert(ranks_before(keys, top[r] as int, top[top.len() - 1] as int));
            }
        } else {
            assert(ranks_before(keys, top[r] as int, top[s] as int));
        }
    }
    assert forall|i: int| 0 <= i < keys.len() implies ((exists|r: int|
        0 <= r < longer.len() && longer[r] == i) <==> i == longer.last() || #[trigger] ranks_before(
        keys,
        i,
        longer.last() as int,
    )) by {
        if exists|r: int| 0 <= r < longer.len() && longer[r] == i {
            let r = choose|r: int| 0 <= r < longer.len() && longer[r] == i;
            if r < top.len() {
                assert(ranks_before(keys, longer[r] as int, longer[longer.len() - 1] as int));
            }
        }
        if i == longer.last() {
            assert(longer[longer.len() - 1] == i);
        } else if ranks_before(keys, i, longer.last() as int) {
            assert(!eligible(keys, last, i));
            assert(top.len() > 0);
            assert(i == top.last() || ranks_before(keys, i, top.last() as int));
            let r = choose|r: int| 0 <= r < top.len() && top[r] == i;
            if i == top.last() {
                assert(longer[top.len() - 1] == i);
            } else {
                assert(longer[r] == i);
            }
        }
    }
}

/// The keys as entries without a gap.
spec fn numbers(keys: Seq<i64>) -> Seq<Option<int>> {
    keys.map_values(|k: i64| Some(k as int))
}

fn top_of(keys: &Vec<i64>, count: usize) -> (top: Vec<usize>)
    requires
        count <= keys@.len(),
    ensures
        top@.len() == count,
        is_top(numbers(keys@), top@),
{
    let mut top: Vec<usize> = Vec::new();
    let mut last: Option<usize> = None;
    while top.len() < count
        invariant
            top@.len() <= count <= keys@.len(),
            is_top(numbers(keys@), top@),
            last matches Some(l) ==> top@.len() > 0 && l == top@.last(),
            last is None ==> top@.len() == 0,
        decreases count - top@.len(),
    {
        let next: usize = next_ranked(keys, last, Ghost(top@));
        top.push(next);
        last = Some(next);
    }
    top
}

/// The `count` greatest logits in descending order, in single precision. Equal
/// logits keep the order of their tokens.
pub fn top_tokens(logits: &Vec<u32>, count: usize) -> (top: Vec<usize>)
    requires
        count <= logits@.len(),
        forall|i: int| 0 <= i < logits@.len() ==> !is_nan(#[trigger] logits@[i]),
    ensures
        top@.len() == count,
        is_top(keys(logits@), top@),
{
    let mut ordered: Vec<i64> = Vec::new();
    let mut i: usize = 0;
    while i < logits.len()
        invariant
            i <= logits.len(),
            ordered@.len() == i,
            forall|j: int| 0 <= j < logits@.len() ==> !is_nan(#[trigger] logits@[j]),
            forall|j: int| 0 <= j < i ==> (#[trigger] ordered@[j]) == order_key(logits@[j]),
        decreases logits.len() - i,
    {
        assert(!is_nan(logits@[i as int]));
        match f32_key(logits[i]) {
            Some(key) => ordered.push(key),
            None => {
                assert(false);
            },
        }
        i += 1;
    }
    assert(keys(logits@) =~= numbers(ordered@)) by {
        assert forall|j: int| 0 <= j < logits@.len() implies keys(logits@)[j] == numbers(
            ordered@,
        )[j] by {
            assert(!is_nan(logits@[j]));
            assert(ordered@[j] == order_key(logits@[j]));
        }
    }
    top_of(&ordered, count)
}

/// The `count` greatest logits in descending order, in double precision.
pub fn top_tokens64(logits: &Vec<u64>, count: usize) -> (top: Vec<usize>)
    requires
        count <= logits@.len(),
        forall|i: int| 0 <= i < logits@.len() ==> !is_nan64(#[trigger] logits@[i]),
    ensures
        top@.len() == count,
        is_top(keys64(logits@), top@),
{
    let mut ordered: Vec<i64> = Vec::new();
    let mut i: usize = 0;
    while i < logits.len()
        invariant
            i <= logits.len(),
            ordered@.len() == i,
            forall|j: int| 0 <= j < logits@.len() ==> !is_nan64(#[trigger] logits@[j]),
            forall|j: int| 0 <= j < i ==> (#[trigger] ordered@[j]) == order_key64(logits@[j]),
        decreases logits.len() - i,
    {
        assert(!is_nan64(logits@[i as int]));
        match f64_key(logits[i]) {
            Some(key) => ordered.push(key),
            None => {
                assert(false);
            },
        }
        i += 1;
    }
    assert(keys64(logits@) =~= numbers(ordered@)) by {
        assert forall|j: int| 0 <= j < logits@.len() implies keys64(logits@)[j] == numbers(
            ordered@,
        )[j] by {
            assert(!is_nan64(logits@[j]));
            assert(ordered@[j] == order_key64(logits@[j]));
        }
    }
    top_of(&ordered, count)
}

/// The first of the ranking is the greedy choice, where a logit is above minus
/// infinity.
pub proof fn first_of_the_top_is_the_greedy_choice(
    keys: Seq<Option<int>>,
    floor: int,
    top: Seq<usize>,
    best: int,
)
    requires
        is_top(keys, top),
        top.len() > 0,
        forall|i: int| 0 <= i < keys.len() ==> (#[trigger] keys[i]) is Some,
        exists|i: int| 0 <= i < keys.len() && above(#[trigger] keys[i], floor),
        is_first_greatest(keys, floor, best),
    ensures
        top[0] == best,
{
    let first = top[0] as int;
    assert(keys[first] is Some && keys[best] is Some);
    if first != best {
        assert(!above(keys[first], keys[best]->0));
        assert(ranks_before(keys, best, first));
        if top.len() > 1 {
            assert(ranks_before(keys, top[0] as int, top[top.len() - 1] as int));
            assert(ranks_before(keys, best, top.last() as int));
        }
        let r = choose|r: int| 0 <= r < top.len() && top[r] == best;
        assert(ranks_before(keys, top[0] as int, top[r] as int));
        assert(false);
    }
}

/// The greedy choice in terms of the logits: a number above minus infinity, above which
/// there is no logit, and which every earlier one is below. Where no logit is above
/// minus infinity, it is the first token.
pub proof fn greedy_choice_is_the_first_greatest_logit(logits: Seq<u32>, token: int)
    requires
        is_first_greatest(keys(logits), -(F32_INFINITY as int), token),
    ensures
        (exists|i: int| 0 <= i < logits.len() && greater(#[trigger] logits[i], 0xFF80_0000)) ==> {
            &&& 0 <= token < logits.len()
            &&& !is_nan(logits[token])
            &&& forall|i: int| 0 <= i < logits.len() ==> !greater(#[trigger] logits[i], logits[token])
            &&& forall|i: int|
                0 <= i < token && !is_nan(#[trigger] logits[i]) ==> greater(logits[token], logits[i])
        },
        !(exists|i: int| 0 <= i < logits.len() && greater(#[trigger] logits[i], 0xFF80_0000))
            ==> token == 0,
{
    let all = keys(logits);
    let floor = -(F32_INFINITY as int);
    assert(order_key(0xFF80_0000) == floor && !is_nan(0xFF80_0000));
    assert forall|i: int| 0 <= i < logits.len() implies above(#[trigger] all[i], floor) == greater(
        logits[i],
        0xFF80_0000,
    ) by {}
    if exists|i: int| 0 <= i < logits.len() && greater(#[trigger] logits[i], 0xFF80_0000) {
        let i = choose|i: int|
            0 <= i < logits.len() && greater(#[trigger] logits[i], 0xFF80_0000);
        assert(above(all[i], floor));
        assert(all[token] == Some(order_key(logits[token])));
        assert forall|i: int| 0 <= i < logits.len() implies !greater(
            #[trigger] logits[i],
            logits[token],
        ) by {
            assert(!above(all[i], all[token]->0));
        }
        assert forall|i: int| 0 <= i < token && !is_nan(#[trigger] logits[i]) implies greater(
            logits[token],
            logits[i],
        ) by {
            assert(all[i] == Some(order_key(logits[i])));
        }
    } else {
        assert forall|i: int| 0 <= i < all.len() implies !above(#[trigger] all[i], floor) by {
            assert(!greater(logits[i], 0xFF80_0000));
        }
    }
}

/// The greedy choice in double precision: a finite logit is never chosen where another
/// one, or an earlier equal one, is greater in value.
pub proof fn greedy_choice64_is_the_first_greatest_logit(logits: Seq<u64>, token: int, i: int)
    requires
        is_first_greatest(keys64(logits), -(F64_INFINITY as int), token),
        0 <= i < logits.len(),
        forall|k: int| 0 <= k < logits.len() ==> is_finite64(#[trigger] logits[k]),
    ensures
        0 <= token < logits.len(),
        scaled_value64(logits[i]) <= scaled_value64(logits[token]),
        i < token ==> scaled_value64(logits[i]) < scaled_value64(logits[token]),
{
    let all = keys64(logits);
    let floor = -(F64_INFINITY as int);
    assert(is_finite64(logits[i]));
    assert(all[i] == Some(order_key64(logits[i])));
    assert(above(all[i], floor));
    assert(is_finite64(logits[token]));
    assert(all[token] == Some(order_key64(logits[token])));
    assert(!above(all[i], all[token]->0));
    keys64_order_as_values(logits[i], logits[token]);
}

/// The ranking in terms of the logits: it goes down in value, equal values go up by
/// token, and what is left out is no greater than its last value, or equal and behind.
pub proof fn top_descends_in_value(logits: Seq<u32>, top: Seq<usize>)
    requires
        is_top(keys(logits), top),
        forall|i: int| 0 <= i < logits.len() ==> is_finite(#[trigger] logits[i]),
    ensures
        forall|r: int| 0 <= r < top.len() ==> (#[trigger] top[r]) < logits.len(),
        forall|r: int, s: int|
            0 <= r < s < top.len() ==> scaled_value(logits[(#[trigger] top[r]) as int])
                > scaled_value(logits[(#[trigger] top[s]) as int]) || scaled_value(
                logits[top[r] as int],
            ) == scaled_value(logits[top[s] as int]) && top[r] < top[s],
        top.len() > 0 ==> forall|i: int|
            0 <= i < logits.len() && !top.contains(i as usize) && i <= usize::MAX ==> scaled_value(
                #[trigger] logits[i],
            ) < scaled_value(logits[top.last() as int]) || scaled_value(logits[i]) == scaled_value(
                logits[top.last() as int],
            ) && i > top.last(),
{
    let all = keys(logits);
    assert forall|i: int| 0 <= i < logits.len() implies (#[trigger] all[i]) == Some(
        order_key(logits[i]),
    ) by {
        assert(is_finite(logits[i]));
    }
    assert forall|r: int, s: int| 0 <= r < s < top.len() implies scaled_value(
        logits[(#[trigger] top[r]) as int],
    ) > scaled_value(logits[(#[trigger] top[s]) as int]) || scaled_value(logits[top[r] as int])
        == scaled_value(logits[top[s] as int]) && top[r] < top[s] by {
        let (a, b) = (top[r] as int, top[s] as int);
        assert(ranks_before(all, a, b));
        assert(is_finite(logits[a]) && is_finite(logits[b]));
        assert(all[a] == Some(order_key(logits[a])) && all[b] == Some(order_key(logits[b])));
        keys_order_as_values(logits[b], logits[a]);
    }
    if top.len() > 0 {
        let last = top.last() as int;
        assert(top[top.len() - 1] == top.last());
        assert(is_finite(logits[last]));
        assert(all[last] == Some(order_key(logits[last])));
        assert forall|i: int|
            0 <= i < logits.len() && !top.contains(i as usize) && i <= usize::MAX implies
            scaled_value(#[trigger] logits[i]) < scaled_value(logits[last]) || scaled_value(
            logits[i],
        ) == scaled_value(logits[last]) && i > last by {
            assert(is_finite(logits[i]));
            assert(all[i] == Some(order_key(logits[i])));
            if exists|r: int| 0 <= r < top.len() && top[r] == i {
                let r = choose|r: int| 0 <= r < top.len() && top[r] == i;
                assert(top[r] == i as usize);
            }
            assert(!ranks_before(all, i, last));
            if i == last {
                assert(top[top.len() - 1] == i as usize);
            }
            keys_order_as_values(logits[i], logits[last]);
        }
    }
}

/// The ranking in double precision goes down in value, and equal values up by token.
pub proof fn top64_descends_in_value(logits: Seq<u64>, top: Seq<usize>, r: int, s: int)
    requires
        is_top(keys64(logits), top),
        forall|i: int| 0 <= i < logits.len() ==> is_finite64(#[trigger] logits[i]),
        0 <= r < s < top.len(),
    ensures
        top[r] < logits.len(),
        top[s] < logits.len(),
        ({
            let (a, b) = (
                scaled_value64(logits[top[r] as int]),
                scaled_value64(logits[top[s] as int]),
            );
            a > b || a == b && top[r] < top[s]
        }),
{
    let all = keys64(logits);
    let (a, b) = (top[r] as int, top[s] as int);
    assert(ranks_before(all, a, b));
    assert(is_finite64(logits[a]) && is_finite64(logits[b]));
    assert(all[a] == Some(order_key64(logits[a])) && all[b] == Some(order_key64(logits[b])));
    keys64_order_as_values(logits[b], logits[a]);
}

} // verus!
