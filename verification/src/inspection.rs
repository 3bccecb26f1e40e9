//! Inspection of activations and logits for values that must not be there.
use vstd::prelude::*;
use crate::error::{rejected, reported, Failure, HarnessError};
use crate::float_bits::{
    f32_is_infinite, f32_is_nan, is_finite, is_infinite, is_nan, magnitude,
    F32_HALF_MAX, F32_THOUSAND,
};
use crate::text::{decimal, say};

verus! {

/// Number of NaNs.
pub open spec fn nans(numbers: Seq<u32>) -> nat
    decreases numbers.len(),
{
    if numbers.len() == 0 {
        0
    } else {
        nans(numbers.drop_last()) + if is_nan(numbers.last()) {
            1nat
        } else {
            0nat
        }
    }
}

/// Number of infinities.
pub open spec fn infinities(numbers: Seq<u32>) -> nat
    decreases numbers.len(),
{
    if numbers.len() == 0 {
        0
    } else {
        infinities(numbers.drop_last()) + if is_infinite(numbers.last()) {
            1nat
        } else {
            0nat
        }
    }
}

/// The greatest absolute value among the finite numbers, as bits; 0 if there is
/// none.
pub open spec fn greatest(numbers: Seq<u32>) -> u32
    decreases numbers.len(),
{
    if numbers.len() == 0 {
        0
    } else {
        let rest = greatest(numbers.drop_last());
        let size = magnitude(numbers.last());
        if is_finite(numbers.last()) && size > rest {
            size
        } else {
            rest
        }
    }
}

/// There is no NaN exactly if none is counted, and likewise for the infinities.
pub proof fn counts_find_every_value(numbers: Seq<u32>)
    ensures
        nans(numbers) == 0 <==> forall|i: int|
            0 <= i < numbers.len() ==> !is_nan(#[trigger] numbers[i]),
        infinities(numbers) == 0 <==> forall|i: int|
            0 <= i < numbers.len() ==> !is_infinite(#[trigger] numbers[i]),
        nans(numbers) + infinities(numbers) <= numbers.len(),
    decreases numbers.len(),
{
    if numbers.len() > 0 {
        let rest = numbers.drop_last();
        counts_find_every_value(rest);
        assert forall|i: int| 0 <= i < rest.len() implies rest[i] == #[trigger] numbers[i] by {}
        assert(numbers[numbers.len() - 1] == numbers.last());
        if nans(numbers) == 0 {
            assert forall|i: int| 0 <= i < numbers.len() implies !is_nan(
                #[trigger] numbers[i],
            ) by {
                if i < rest.len() {
                    assert(!is_nan(rest[i]));
                }
            }
        }
        if forall|i: int| 0 <= i < numbers.len() ==> !is_nan(#[trigger] numbers[i]) {
            assert forall|i: int| 0 <= i < rest.len() implies !is_nan(#[trigger] rest[i]) by {
                assert(!is_nan(numbers[i]));
            }
            assert(!is_nan(numbers[numbers.len() - 1]));
        }
        if infinities(numbers) == 0 {
            assert forall|i: int| 0 <= i < numbers.len() implies !is_infinite(
                #[trigger] numbers[i],
            ) by {
                if i < rest.len() {
                    assert(!is_infinite(rest[i]));
                }
            }
        }
        if forall|i: int| 0 <= i < numbers.len() ==> !is_infinite(#[trigger] numbers[i]) {
            assert forall|i: int| 0 <= i < rest.len() implies !is_infinite(
                #[trigger] rest[i],
            ) by {
                assert(!is_infinite(numbers[i]));
            }
            assert(!is_infinite(numbers[numbers.len() - 1]));
        }
    }
}

/// The greatest absolute value bounds every finite number, and one of them attains
/// it unless it is 0.
pub proof fn greatest_bounds_every_value(numbers: Seq<u32>)
    ensures
        forall|i: int|
            0 <= i < numbers.len() && is_finite(#[trigger] numbers[i]) ==> magnitude(numbers[i])
                <= greatest(numbers),
        greatest(numbers) > 0 ==> exists|i: int|
            0 <= i < numbers.len() && is_finite(#[trigger] numbers[i]) && magnitude(numbers[i])
                == greatest(numbers),
    decreases numbers.len(),
{
    if numbers.len() > 0 {
        let rest = numbers.drop_last();
        greatest_bounds_every_value(rest);
        assert forall|i: int| 0 <= i < numbers.len() && is_finite(#[trigger] numbers[i]) implies magnitude(
            numbers[i],
        ) <= greatest(numbers) by {
            if i < rest.len() {
                assert(rest[i] == numbers[i]);
            }
        }
        if greatest(numbers) > 0 {
            let last = numbers[numbers.len() - 1];
            if !(is_finite(last) && magnitude(last) == greatest(numbers)) {
                let i = choose|i: int|
                    0 <= i < rest.len() && is_finite(#[trigger] rest[i]) && magnitude(rest[i])
                        == greatest(rest);
                assert(numbers[i] == rest[i]);
            }
        }
    }
}

/// Counts the NaNs.
pub fn count_nans(numbers: &Vec<u32>) -> (count: usize)
    ensures
        count == nans(numbers@),
{
    let mut count: usize = 0;
    let mut i: usize = 0;
    while i < numbers.len()
        invariant
            i <= numbers.len(),
            count <= i,
            count == nans(numbers@.take(i as int)),
        decreases numbers.len() - i,
    {
        if f32_is_nan(numbers[i]) {
            count += 1;
        }
        i += 1;
        assert(numbers@.take(i as int).drop_last() =~= numbers@.take(i - 1));
    }
    assert(numbers@.take(i as int) =~= numbers@);
    count
}

/// Counts the infinities.
pub fn count_infinities(numbers: &Vec<u32>) -> (count: usize)
    ensures
        count == infinities(numbers@),
{
    let mut count: usize = 0;
    let mut i: usize = 0;
    while i < numbers.len()
        invariant
            i <= numbers.len(),
            count <= i,
            count == infinities(numbers@.take(i as int)),
        decreases numbers.len() - i,
    {
        if f32_is_infinite(numbers[i]) {
            count += 1;
        }
        i += 1;
        assert(numbers@.take(i as int).drop_last() =~= numbers@.take(i - 1));
    }
    assert(numbers@.take(i as int) =~= numbers@);
    count
}

/// The bits of the greatest absolute value among the finite numbers.
pub fn greatest_magnitude(numbers: &Vec<u32>) -> (bits: u32)
    ensures
        bits == greatest(numbers@),
{
    let mut best: u32 = 0;
    let mut i: usize = 0;
    while i < numbers.len()
        invariant
            i <= numbers.len(),
            best == greatest(numbers@.take(i as int)),
        decreases numbers.len() - i,
    {
        let bits: u32 = numbers[i];
        if !f32_is_nan(bits) && !f32_is_infinite(bits) && bits % 0x8000_0000 > best {
            best = bits % 0x8000_0000;
        }
        i += 1;
        assert(numbers@.take(i as int).drop_last() =~= numbers@.take(i - 1));
    }
    assert(numbers@.take(i as int) =~= numbers@);
    best
}

/// One row of a matrix that is stored by rows.
pub open spec fn row(data: Seq<u32>, width: int, r: int) -> Seq<u32> {
    data.subrange(r * width, r * width + width)
}

/// What the rows of a hidden state hold.
pub struct RowScan {
    /// Rows with a NaN.
    pub nan_rows: Vec<usize>,
    /// Rows with a finite number beyond the range of half precision, with the
    /// greatest absolute value of each.
    pub overflow_rows: Vec<(usize, u32)>,
    /// The greatest absolute value of all rows.
    pub greatest: u32,
}

/// The rows, among the first `rows`, that hold a NaN.
pub open spec fn rows_with_nan(data: Seq<u32>, width: int, rows: nat) -> Seq<usize>
    decreases rows,
{
    if rows == 0 {
        Seq::empty()
    } else {
        let before = rows_with_nan(data, width, (rows - 1) as nat);
        if nans(row(data, width, rows - 1)) > 0 {
            before.push((rows - 1) as usize)
        } else {
            before
        }
    }
}

/// The rows, among the first `rows`, that exceed the range of half precision.
pub open spec fn rows_with_overflow(data: Seq<u32>, width: int, rows: nat) -> Seq<(usize, u32)>
    decreases rows,
{
    if rows == 0 {
        Seq::empty()
    } else {
        let before = rows_with_overflow(data, width, (rows - 1) as nat);
        let size = greatest(row(data, width, rows - 1));
        if size > F32_HALF_MAX {
            before.push(((rows - 1) as usize, size))
        } else {
            before
        }
    }
}

/// The greatest absolute value of the first `rows` rows.
pub open spec fn greatest_of_rows(data: Seq<u32>, width: int, rows: nat) -> u32
    decreases rows,
{
    if rows == 0 {
        0
    } else {
        let before = greatest_of_rows(data, width, (rows - 1) as nat);
        let size = greatest(row(data, width, rows - 1));
        if size > before {
            size
        } else {
            before
        }
    }
}

/// Scans the first `rows` rows of a hidden state.
pub fn scan_rows(data: &Vec<u32>, width: usize, rows: usize) -> (scan: RowScan)
    requires
        rows * width <= data@.len(),
    ensures
        scan.nan_rows@ == rows_with_nan(data@, width as int, rows as nat),
        scan.overflow_rows@ == rows_with_overflow(data@, width as int, rows as nat),
        scan.greatest == greatest_of_rows(data@, width as int, rows as nat),
{
    let mut nan_rows: Vec<usize> = Vec::new();
    let mut overflow_rows: Vec<(usize, u32)> = Vec::new();
    let mut best: u32 = 0;
    let mut r: usize = 0;
    while r < rows
        invariant
            r <= rows,
            rows * width <= data@.len(),
            nan_rows@ == rows_with_nan(data@, width as int, r as nat),
            overflow_rows@ == rows_with_overflow(data@, width as int, r as nat),
            best == greatest_of_rows(data@, width as int, r as nat),
        decreases rows - r,
    {
        assert((r + 1) * width <= rows * width) by (nonlinear_arith)
            requires
                r < rows,
        ;
        let line: Vec<u32> = crate::layout::row_of(data, width, r);
        let size: u32 = greatest_magnitude(&line);
        if count_nans(&line) > 0 {
            nan_rows.push(r);
        }
        if size > F32_HALF_MAX {
            overflow_rows.push((r, size));
        }
        if size > best {
            best = size;
        }
        r += 1;
    }
    RowScan { nan_rows, overflow_rows, greatest: best }
}

/// A forward pass judged by its output.
pub enum ForwardVerdict {
    /// The output can be used.
    Accepted,
    /// The prediction holds values that are not numbers.
    Rejected(HarnessError),
    /// The greatest absolute value, given as bits, is out of proportion.
    TooLarge(u32),
}

/// What a contract says of the verdict on a forward pass.
pub enum ForwardJudgement {
    Accepted,
    Rejected(Failure),
    TooLarge(u32),
}

impl View for ForwardVerdict {
    type V = ForwardJudgement;

    open spec fn view(&self) -> ForwardJudgement {
        match self {
            ForwardVerdict::Accepted => ForwardJudgement::Accepted,
            ForwardVerdict::Rejected(error) => ForwardJudgement::Rejected(error@),
            ForwardVerdict::TooLarge(bits) => ForwardJudgement::TooLarge(*bits),
        }
    }
}

/// The output of a pass over `rows` tokens: the last row must hold numbers only,
/// and no row a finite number above a thousand.
pub open spec fn forward_judgement(output: Seq<u32>, width: int, rows: nat) -> ForwardJudgement {
    let prediction = row(output, width, rows - 1);
    let size = greatest_of_rows(output, width, rows);
    if nans(prediction) > 0 || infinities(prediction) > 0 {
        ForwardJudgement::Rejected(
            rejected(
                "full_forward"@,
                "prediction position has "@ + decimal(nans(prediction)) + " NaN and "@ + decimal(
                    infinities(prediction),
                ) + " Inf values"@,
            ),
        )
    } else if size > F32_THOUSAND {
        ForwardJudgement::TooLarge(size)
    } else {
        ForwardJudgement::Accepted
    }
}

/// Judges the output of a full forward pass over `rows` tokens.
pub fn judge_forward(output: &Vec<u32>, width: usize, rows: usize) -> (verdict: ForwardVerdict)
    requires
        1 <= rows,
        rows * width <= output@.len(),
    ensures
        verdict@ == forward_judgement(output@, width as int, rows as nat),
{
    let scan: RowScan = scan_rows(output, width, rows);
    let line: Vec<u32> = crate::layout::row_of(output, width, rows - 1);
    let nan: usize = count_nans(&line);
    let inf: usize = count_infinities(&line);
    if nan > 0 || inf > 0 {
        ForwardVerdict::Rejected(
            HarnessError::verification(
                "full_forward",
                say("prediction position has ").dec(nan as u64).text(" NaN and ").dec(
                    inf as u64,
                ).text(" Inf values"),
            ),
        )
    } else if scan.greatest > F32_THOUSAND {
        ForwardVerdict::TooLarge(scan.greatest)
    } else {
        ForwardVerdict::Accepted
    }
}

/// What the output of a pass over `rows` tokens comes to; `magnitude` shows its
/// greatest absolute value.
pub open spec fn forward_failure(
    output: Seq<u32>,
    width: int,
    rows: nat,
    magnitude: Seq<char>,
) -> Option<Failure> {
    match forward_judgement(output, width, rows) {
        ForwardJudgement::Accepted => None,
        ForwardJudgement::Rejected(failure) => Some(failure),
        ForwardJudgement::TooLarge(_) => Some(
            rejected("full_forward"@, "output magnitude too large: max|val|="@ + magnitude),
        ),
    }
}

/// Reports on the output of a full forward pass over `rows` tokens; `magnitude`
/// shows its greatest absolute value.
pub fn report_forward(output: &Vec<u32>, width: usize, rows: usize, magnitude: &str) -> (result:
    Result<(), HarnessError>)
    requires
        1 <= rows,
        rows * width <= output@.len(),
    ensures
        reported(result) == forward_failure(output@, width as int, rows as nat, magnitude@),
{
    match judge_forward(output, width, rows) {
        ForwardVerdict::Accepted => Ok(()),
        ForwardVerdict::Rejected(error) => Err(error),
        ForwardVerdict::TooLarge(_) => Err(
            HarnessError::verification(
                "full_forward",
                say("output magnitude too large: max|val|=").text(magnitude),
            ),
        ),
    }
}

/// What a prediction row comes to in the passes that are compared by precision.
pub open spec fn prediction_failure(test: Seq<char>, prediction: Seq<u32>) -> Option<Failure> {
    if nans(prediction) > 0 || infinities(prediction) > 0 {
        Some(
            rejected(
                test,
                "prediction has "@ + decimal(nans(prediction)) + " NaN, "@ + decimal(
                    infinities(prediction),
                ) + " Inf"@,
            ),
        )
    } else {
        None
    }
}

/// Judges a prediction row.
pub fn judge_prediction(test: &'static str, prediction: &Vec<u32>) -> (result: Result<
    (),
    HarnessError,
>)
    ensures
        reported(result) == prediction_failure(test@, prediction@),
{
    let nan: usize = count_nans(prediction);
    let inf: usize = count_infinities(prediction);
    if nan > 0 || inf > 0 {
        return Err(
            HarnessError::verification(
                test,
                say("prediction has ").dec(nan as u64).text(" NaN, ").dec(inf as u64).text(" Inf"),
            ),
        );
    }
    Ok(())
}

/// What the logits come to.
pub open spec fn logits_failure(logits: Seq<u32>) -> Option<Failure> {
    if nans(logits) > 0 || infinities(logits) > 0 {
        Some(
            rejected(
                "lm_head"@,
                "logits have "@ + decimal(nans(logits)) + " NaN and "@ + decimal(
                    infinities(logits),
                ) + " Inf values"@,
            ),
        )
    } else {
        None
    }
}

/// Judges the logits.
pub fn judge_logits(logits: &Vec<u32>) -> (result: Result<(), HarnessError>)
    ensures
        reported(result) == logits_failure(logits@),
{
    let nan: usize = count_nans(logits);
    let inf: usize = count_infinities(logits);
    if nan > 0 || inf > 0 {
        return Err(
            HarnessError::verification(
                "lm_head",
                say("logits have ").dec(nan as u64).text(" NaN and ").dec(inf as u64).text(
                    " Inf values",
                ),
            ),
        );
    }
    Ok(())
}

/// Number of rows, among the first `rows`, that hold a NaN or an infinity.
pub open spec fn broken_rows(data: Seq<u32>, width: int, rows: nat) -> nat
    decreases rows,
{
    if rows == 0 {
        0
    } else {
        let line = row(data, width, rows - 1);
        broken_rows(data, width, (rows - 1) as nat) + if nans(line) > 0 || infinities(line) > 0 {
            1nat
        } else {
            0nat
        }
    }
}

/// Counts the rows that hold a NaN or an infinity.
pub fn count_broken_rows(data: &Vec<u32>, width: usize, rows: usize) -> (count: usize)
    requires
        rows * width <= data@.len(),
    ensures
        count == broken_rows(data@, width as int, rows as nat),
{
    let mut count: usize = 0;
    let mut r: usize = 0;
    while r < rows
        invariant
            r <= rows,
            count <= r,
            rows * width <= data@.len(),
            count == broken_rows(data@, width as int, r as nat),
        decreases rows - r,
    {
        assert((r + 1) * width <= rows * width) by (nonlinear_arith)
            requires
                r < rows,
        ;
        let line: Vec<u32> = crate::layout::row_of(data, width, r);
        if count_nans(&line) > 0 || count_infinities(&line) > 0 {
            count += 1;
        }
        r += 1;
    }
    count
}

/// The positions around the last one at which predictions are looked at: the one
/// before it, if there is one, and the last one.
pub open spec fn audited(len: int) -> Seq<usize> {
    if len >= 2 {
        seq![(len - 2) as usize, (len - 1) as usize]
    } else {
        seq![(len - 1) as usize]
    }
}

/// The positions to audit in a sequence of `len` tokens: the last one and its
/// neighbours, as far as they are inside.
pub fn audited_positions(len: usize) -> (positions: Vec<usize>)
    requires
        len >= 1,
    ensures
        positions@ == audited(len as int),
{
    let mut positions: Vec<usize> = Vec::new();
    let last: usize = len - 1;
    if last >= 1 {
        positions.push(last - 1);
    }
    positions.push(last);
    assert(positions@ =~= audited(len as int));
    positions
}

/// Counting goes list by list: two lists hold the NaNs and infinities of both.
pub proof fn counts_add_up(first: Seq<u32>, second: Seq<u32>)
    ensures
        nans(first + second) == nans(first) + nans(second),
        infinities(first + second) == infinities(first) + infinities(second),
        first.len() == 1 ==> nans(first) == if is_nan(first[0]) {
            1nat
        } else {
            0
        },
        first.len() == 1 ==> infinities(first) == if is_infinite(first[0]) {
            1nat
        } else {
            0
        },
    decreases second.len(),
{
    reveal_with_fuel(nans, 2);
    reveal_with_fuel(infinities, 2);
    if second.len() == 0 {
        assert(first + second =~= first);
    } else {
        counts_add_up(first, second.drop_last());
        assert((first + second).drop_last() =~= first + second.drop_last());
        assert((first + second).last() == second.last());
    }
}

/// Whether row `r` of a matrix holds a NaN.
pub open spec fn row_has_nan(data: Seq<u32>, width: int, r: int) -> bool {
    exists|c: int| 0 <= c < width && is_nan(#[trigger] data[r * width + c])
}

/// Whether row `r` of a matrix holds a NaN or an infinity.
pub open spec fn row_is_broken(data: Seq<u32>, width: int, r: int) -> bool {
    exists|c: int| 0 <= c < width && !is_finite(#[trigger] data[r * width + c])
}

/// Element `c` of a row is the element of the matrix in that column.
proof fn lemma_row_elements(data: Seq<u32>, width: int, r: int, rows: int)
    requires
        0 <= width,
        0 <= r < rows,
        rows * width <= data.len(),
    ensures
        0 <= r * width,
        r * width + width <= rows * width,
        row(data, width, r).len() == width,
        forall|c: int| 0 <= c < width ==> row(data, width, r)[c] == #[trigger] data[r * width + c],
        nans(row(data, width, r)) > 0 <==> row_has_nan(data, width, r),
        nans(row(data, width, r)) > 0 || infinities(row(data, width, r)) > 0 <==> row_is_broken(
            data,
            width,
            r,
        ),
{
    assert(0 <= r * width && r * width + width <= rows * width) by (nonlinear_arith)
        requires
            0 <= width,
            0 <= r < rows,
    ;
    let line = row(data, width, r);
    counts_find_every_value(line);
    assert forall|c: int| 0 <= c < width implies line[c] == #[trigger] data[r * width + c] by {}
    if row_has_nan(data, width, r) {
        let c = choose|c: int| 0 <= c < width && is_nan(#[trigger] data[r * width + c]);
        assert(is_nan(line[c]));
    }
    if row_is_broken(data, width, r) {
        let c = choose|c: int| 0 <= c < width && !is_finite(#[trigger] data[r * width + c]);
        assert(is_nan(line[c]) || is_infinite(line[c]));
    }
    if nans(line) > 0 {
        let c = choose|c: int| 0 <= c < line.len() && is_nan(#[trigger] line[c]);
        assert(is_nan(data[r * width + c]));
    }
    if infinities(line) > 0 {
        let c = choose|c: int| 0 <= c < line.len() && is_infinite(#[trigger] line[c]);
        assert(!is_finite(data[r * width + c]));
    }
}

/// A row is listed exactly when one of its numbers is a NaN.
pub proof fn rows_with_nan_are_complete(data: Seq<u32>, width: int, rows: nat, r: int)
    requires
        0 <= width,
        rows * width <= data.len(),
        0 <= r < rows <= usize::MAX,
    ensures
        rows_with_nan(data, width, rows).contains(r as usize) <==> row_has_nan(data, width, r),
    decreases rows,
{
    let before = rows_with_nan(data, width, (rows - 1) as nat);
    let now = rows_with_nan(data, width, rows);
    lemma_row_elements(data, width, rows - 1, rows as int);
    lemma_nan_rows_below(data, width, (rows - 1) as nat);
    if nans(row(data, width, rows - 1)) > 0 {
        assert(now[before.len() as int] == (rows - 1) as usize);
        assert forall|k: usize| k != rows - 1 implies now.contains(k) == before.contains(k) by {
            if before.contains(k) {
                let i = choose|i: int| 0 <= i < before.len() && before[i] == k;
                assert(now[i] == k);
            }
            if now.contains(k) {
                let i = choose|i: int| 0 <= i < now.len() && now[i] == k;
                assert(before[i] == k);
            }
        }
    }
    if r < rows - 1 {
        assert((rows - 1) * width <= rows * width) by (nonlinear_arith)
            requires
                0 <= width,
                0 < rows,
        ;
        rows_with_nan_are_complete(data, width, (rows - 1) as nat, r);
    }
}

proof fn lemma_nan_rows_below(data: Seq<u32>, width: int, rows: nat)
    requires
        rows <= usize::MAX,
    ensures
        forall|i: int| 0 <= i < rows_with_nan(data, width, rows).len() ==> (
        #[trigger] rows_with_nan(data, width, rows)[i]) < rows,
    decreases rows,
{
    if rows > 0 {
        lemma_nan_rows_below(data, width, (rows - 1) as nat);
        let before = rows_with_nan(data, width, (rows - 1) as nat);
        let now = rows_with_nan(data, width, rows);
        assert forall|i: int| 0 <= i < now.len() implies (#[trigger] now[i]) < rows by {
            if i < before.len() {
                assert(now[i] == before[i]);
            }
        }
    }
}

/// A row is listed as beyond the range of half precision exactly when one of its finite
/// numbers is above 65504 in size, and then with the greatest of them.
pub proof fn rows_with_overflow_are_complete(
    data: Seq<u32>,
    width: int,
    rows: nat,
    r: int,
    size: u32,
)
    requires
        0 <= width,
        rows * width <= data.len(),
        0 <= r < rows <= usize::MAX,
    ensures
        rows_with_overflow(data, width, rows).contains((r as usize, size)) <==> {
            &&& size > 0x477F_E000
            &&& exists|c: int|
                0 <= c < width && is_finite(#[trigger] data[r * width + c]) && magnitude(
                    data[r * width + c],
                ) == size
            &&& forall|c: int|
                0 <= c < width && is_finite(#[trigger] data[r * width + c]) ==> magnitude(
                    data[r * width + c],
                ) <= size
        },
    decreases rows,
{
    let before = rows_with_overflow(data, width, (rows - 1) as nat);
    let now = rows_with_overflow(data, width, rows);
    lemma_overflow_rows_below(data, width, (rows - 1) as nat);
    let line = row(data, width, rows - 1);
    let most = greatest(line);
    if most > F32_HALF_MAX {
        assert(now[before.len() as int] == ((rows - 1) as usize, most));
        assert forall|k: (usize, u32)|
            k != ((rows - 1) as usize, most) implies #[trigger] now.contains(k)
            == before.contains(k) by {
            if before.contains(k) {
                let i = choose|i: int| 0 <= i < before.len() && before[i] == k;
                assert(now[i] == k);
            }
            if now.contains(k) {
                let i = choose|i: int| 0 <= i < now.len() && now[i] == k;
                assert(before[i] == k);
            }
        }
    }
    if r < rows - 1 {
        assert((rows - 1) * width <= rows * width) by (nonlinear_arith)
            requires
                0 <= width,
                0 < rows,
        ;
        rows_with_overflow_are_complete(data, width, (rows - 1) as nat, r, size);
        assert(now.contains((r as usize, size)) == before.contains((r as usize, size)));
    } else {
        lemma_row_elements(data, width, r, rows as int);
        greatest_bounds_every_value(line);
        assert(!before.contains((r as usize, size)));
        assert(now.contains((r as usize, size)) <==> most > F32_HALF_MAX && size == most);
        if most > F32_HALF_MAX && size == most {
            let c = choose|c: int|
                0 <= c < line.len() && is_finite(#[trigger] line[c]) && magnitude(line[c]) == most;
            assert(magnitude(data[r * width + c]) == size);
            assert forall|c: int|
                0 <= c < width && is_finite(#[trigger] data[r * width + c]) implies magnitude(
                data[r * width + c],
            ) <= size by {
                assert(line[c] == data[r * width + c]);
            }
        }
        if size > 0x477F_E000 && (exists|c: int|
            0 <= c < width && is_finite(#[trigger] data[r * width + c]) && magnitude(
                data[r * width + c],
            ) == size) && (forall|c: int|
            0 <= c < width && is_finite(#[trigger] data[r * width + c]) ==> magnitude(
                data[r * width + c],
            ) <= size) {
            let c = choose|c: int|
                0 <= c < width && is_finite(#[trigger] data[r * width + c]) && magnitude(
                    data[r * width + c],
                ) == size;
            assert(line[c] == data[r * width + c]);
            let d = choose|d: int|
                0 <= d < line.len() && is_finite(#[trigger] line[d]) && magnitude(line[d]) == most;
            assert(data[r * width + d] == line[d]);
        }
    }
}

proof fn lemma_overflow_rows_below(data: Seq<u32>, width: int, rows: nat)
    requires
        rows <= usize::MAX,
    ensures
        forall|i: int| 0 <= i < rows_with_overflow(data, width, rows).len() ==> (
        #[trigger] rows_with_overflow(data, width, rows)[i]).0 < rows,
    decreases rows,
{
    if rows > 0 {
        lemma_overflow_rows_below(data, width, (rows - 1) as nat);
        let before = rows_with_overflow(data, width, (rows - 1) as nat);
        let now = rows_with_overflow(data, width, rows);
        assert forall|i: int| 0 <= i < now.len() implies (#[trigger] now[i]).0 < rows by {
            if i < before.len() {
                assert(now[i] == before[i]);
            }
        }
    }
}

/// The greatest of the rows bounds every finite number in them, and is one of them
/// unless it is 0.
pub proof fn greatest_of_rows_bounds_every_value(data: Seq<u32>, width: int, rows: nat)
    requires
        0 <= width,
        rows * width <= data.len(),
    ensures
        forall|i: int|
            0 <= i < rows * width && is_finite(#[trigger] data[i]) ==> magnitude(data[i])
                <= greatest_of_rows(data, width, rows),
        greatest_of_rows(data, width, rows) > 0 ==> exists|i: int|
            0 <= i < rows * width && is_finite(#[trigger] data[i]) && magnitude(data[i])
                == greatest_of_rows(data, width, rows),
    decreases rows,
{
    if rows == 0 {
        assert(0 * width == 0);
    } else {
        let fewer = (rows - 1) as nat;
        let edge = fewer * width;
        lemma_row_elements(data, width, fewer as int, rows as int);
        assert(rows * width == edge + width) by (nonlinear_arith)
            requires
                edge == (rows - 1) * width,
        ;
        greatest_of_rows_bounds_every_value(data, width, fewer);
        let line = row(data, width, fewer as int);
        greatest_bounds_every_value(line);
        let most = greatest_of_rows(data, width, rows);
        assert forall|i: int| 0 <= i < rows * width && is_finite(#[trigger] data[i]) implies
            magnitude(data[i]) <= most by {
            if i >= edge {
                assert(line[i - edge] == data[i]);
            }
        }
        if most > 0 && most == greatest(line) {
            let c = choose|c: int|
                0 <= c < line.len() && is_finite(#[trigger] line[c]) && magnitude(line[c]) == most;
            assert(data[edge + c] == line[c]);
        }
    }
}

/// A forward pass is accepted exactly when its last row holds numbers only and no
/// finite number of its output is above a thousand in size. It is rejected for its last
/// row, however large the others are.
pub proof fn forward_pass_is_accepted_if_sound(output: Seq<u32>, width: int, rows: nat)
    requires
        0 <= width,
        1 <= rows,
        rows * width <= output.len(),
    ensures
        forward_judgement(output, width, rows) is Accepted <==> {
            &&& forall|c: int|
                0 <= c < width ==> is_finite(#[trigger] output[(rows - 1) * width + c])
            &&& forall|i: int|
                0 <= i < rows * width && is_finite(#[trigger] output[i]) ==> magnitude(output[i])
                    <= 0x447A_0000
        },
        forward_judgement(output, width, rows) is Rejected <==> exists|c: int|
            0 <= c < width && !is_finite(#[trigger] output[(rows - 1) * width + c]),
{
    lemma_row_elements(output, width, rows - 1, rows as int);
    greatest_of_rows_bounds_every_value(output, width, rows);
    let broken = row_is_broken(output, width, rows - 1);
    assert(broken <==> exists|c: int|
        0 <= c < width && !is_finite(#[trigger] output[(rows - 1) * width + c]));
    let most = greatest_of_rows(output, width, rows);
    if most > F32_THOUSAND {
        let i = choose|i: int|
            0 <= i < rows * width && is_finite(#[trigger] output[i]) && magnitude(output[i])
                == most;
        assert(magnitude(output[i]) > 0x447A_0000);
    }
}

/// A prediction and the logits are accepted exactly when they hold numbers only.
pub proof fn numbers_are_accepted_if_finite(test: Seq<char>, numbers: Seq<u32>)
    ensures
        prediction_failure(test, numbers) is None <==> forall|i: int|
            0 <= i < numbers.len() ==> is_finite(#[trigger] numbers[i]),
        logits_failure(numbers) is None <==> forall|i: int|
            0 <= i < numbers.len() ==> is_finite(#[trigger] numbers[i]),
{
    counts_find_every_value(numbers);
    if nans(numbers) == 0 && infinities(numbers) == 0 {
        assert forall|i: int| 0 <= i < numbers.len() implies is_finite(#[trigger] numbers[i]) by {
            assert(!is_nan(numbers[i]) && !is_infinite(numbers[i]));
        }
    }
    if nans(numbers) > 0 {
        let i = choose|i: int| 0 <= i < numbers.len() && is_nan(#[trigger] numbers[i]);
        assert(!is_finite(numbers[i]));
    }
    if infinities(numbers) > 0 {
        let i = choose|i: int| 0 <= i < numbers.len() && is_infinite(#[trigger] numbers[i]);
        assert(!is_finite(numbers[i]));
    }
}

/// A row more adds one to the broken rows exactly when it holds something that is not a
/// number; without any row there is none.
pub proof fn broken_rows_are_counted(data: Seq<u32>, width: int, rows: nat)
    requires
        0 <= width,
        (rows + 1) * width <= data.len(),
    ensures
        broken_rows(data, width, 0) == 0,
        broken_rows(data, width, rows + 1) == broken_rows(data, width, rows) + if row_is_broken(
            data,
            width,
            rows as int,
        ) {
            1int
        } else {
            0
        },
{
    lemma_row_elements(data, width, rows as int, (rows + 1) as int);
}

/// The last position is audited, and the one before it where there is one.
pub proof fn last_positions_are_audited(len: int, position: int)
    requires
        1 <= len <= usize::MAX,
        0 <= position < len,
    ensures
        audited(len).contains(position as usize) <==> len - position <= 2,
        audited(len).last() == len - 1,
        len >= 2 ==> audited(len)[0] == len - 2,
        audited(len).len() <= 2,
{
    let positions = audited(len);
    if len >= 2 {
        assert(positions[0] == len - 2 && positions[1] == len - 1);
    } else {
        assert(positions[0] == len - 1);
    }
}

/// A rejection counts the NaNs first and the infinities behind them.
pub proof fn rejections_count_what_is_not_a_number(test: Seq<char>, numbers: Seq<u32>)
    ensures
        prediction_failure(test, numbers) matches Some(f) ==> f.test == test && f.detail
            == "prediction has "@ + decimal(nans(numbers)) + " NaN, "@ + decimal(
            infinities(numbers),
        ) + " Inf"@,
        logits_failure(numbers) matches Some(f) ==> f.test == "lm_head"@ && f.detail
            == "logits have "@ + decimal(nans(numbers)) + " NaN and "@ + decimal(
            infinities(numbers),
        ) + " Inf values"@,
        numbers.len() > 0 ==> (forward_judgement(numbers, numbers.len() as int, 1) matches
            ForwardJudgement::Rejected(f) ==> f.detail == "prediction position has "@ + decimal(
            nans(numbers),
        ) + " NaN and "@ + decimal(infinities(numbers)) + " Inf values"@),
{
    if numbers.len() > 0 {
        assert(row(numbers, numbers.len() as int, 0) =~= numbers);
    }
}

} // verus!
