//! Inputs and verdicts of the tests of single transformer components.
use vstd::prelude::*;
use crate::error::{rejected, reported, Failure, HarnessError};
use crate::text::{decimal, say, truth};

verus! {

/// The residues `(i * factor + offset) % modulus`, from which test inputs are
/// scaled.
pub open spec fn residue(i: int, factor: int, offset: int, modulus: int) -> int {
    (i * factor + offset) % modulus
}

/// The first `total` residues.
pub fn residues(total: usize, factor: u32, offset: u32, modulus: u32) -> (values: Vec<u32>)
    requires
        modulus > 0,
    ensures
        values@.len() == total,
        forall|i: int|
            0 <= i < total ==> #[trigger] values@[i] == residue(
                i,
                factor as int,
                offset as int,
                modulus as int,
            ),
{
    let mut values: Vec<u32> = Vec::new();
    let mut i: usize = 0;
    while i < total
        invariant
            i <= total,
            modulus > 0,
            values@.len() == i,
            forall|k: int|
                0 <= k < i ==> #[trigger] values@[k] == residue(
                    k,
                    factor as int,
                    offset as int,
                    modulus as int,
                ),
        decreases total - i,
    {
        assert(i * factor <= u64::MAX * u32::MAX) by (nonlinear_arith)
            requires
                0 <= i <= u64::MAX,
                0 <= factor <= u32::MAX,
        ;
        let value: u128 = (i as u128 * factor as u128 + offset as u128) % modulus as u128;
        values.push(value as u32);
        i += 1;
    }
    values
}

/// A pattern that fills a matrix with small numbers by row and column.
#[derive(Clone, Copy, PartialEq, Eq, Structural, Debug)]
pub struct Pattern {
    pub row_step: u32,
    pub col_step: u32,
    pub seed: u32,
    pub modulus: u32,
    /// What is added to every number.
    pub base: u32,
}

/// The number of a pattern at a row and column.
pub open spec fn level(pattern: Pattern, row: int, col: int) -> int {
    (col * pattern.col_step + row * pattern.row_step + pattern.seed) % (pattern.modulus as int)
        + pattern.base
}

/// A matrix of `rows` rows and `cols` columns filled with a pattern, by rows.
pub fn fill_pattern(rows: u32, cols: u32, pattern: Pattern) -> (levels: Vec<u32>)
    requires
        rows * cols <= usize::MAX,
        pattern.modulus > 0,
        pattern.modulus + pattern.base <= u32::MAX,
    ensures
        levels@.len() == rows * cols,
        forall|row: int, col: int|
            0 <= row < rows && 0 <= col < cols ==> levels@[row * cols + col] == #[trigger] level(
                pattern,
                row,
                col,
            ),
{
    let mut levels: Vec<u32> = Vec::new();
    let mut row: u32 = 0;
    assert(0 * cols == 0);
    while row < rows
        invariant
            row <= rows,
            pattern.modulus > 0,
            pattern.modulus + pattern.base <= u32::MAX,
            levels@.len() == row * cols,
            forall|r: int, c: int|
                0 <= r < row && 0 <= c < cols ==> levels@[r * cols + c] == #[trigger] level(
                    pattern,
                    r,
                    c,
                ),
        decreases rows - row,
    {
        let ghost earlier = levels@;
        let mut col: u32 = 0;
        while col < cols
            invariant
                col <= cols,
                row < rows,
                pattern.modulus > 0,
                pattern.modulus + pattern.base <= u32::MAX,
                earlier.len() == row * cols,
                levels@.len() == row * cols + col,
                forall|i: int| 0 <= i < earlier.len() ==> levels@[i] == earlier[i],
                forall|c: int|
                    0 <= c < col ==> levels@[row * cols + c] == #[trigger] level(
                        pattern,
                        row as int,
                        c,
                    ),
            decreases cols - col,
        {
            let (rs, cs): (u32, u32) = (pattern.row_step, pattern.col_step);
            assert(0 <= col * cs <= u32::MAX * u32::MAX && 0 <= row * rs <= u32::MAX * u32::MAX)
                by (nonlinear_arith)
                requires
                    col <= u32::MAX,
                    row <= u32::MAX,
                    rs <= u32::MAX,
                    cs <= u32::MAX,
            ;
            let sum: u128 = col as u128 * cs as u128 + row as u128 * rs as u128
                + pattern.seed as u128;
            let rest: u128 = sum % pattern.modulus as u128;
            levels.push(rest as u32 + pattern.base);
            col += 1;
        }
        row += 1;
        proof {
            assert(row * cols == (row - 1) * cols + cols) by (nonlinear_arith);
            assert forall|r: int, c: int| 0 <= r < row && 0 <= c < cols implies levels@[r * cols
                + c] == #[trigger] level(pattern, r, c) by {
                if r < row - 1 {
                    assert(0 <= r * cols + c < (row - 1) * cols) by (nonlinear_arith)
                        requires
                            0 <= r < row - 1,
                            0 <= c < cols,
                    ;
                    assert(levels@[r * cols + c] == earlier[r * cols + c]);
                }
            }
        }
    }
    levels
}

/// Whether a row of a long sequence is looked at: the first, the middle and the
/// last thirty-two are.
pub open spec fn is_spot(len: int, row: int) -> bool {
    row < 32 || len > 64 && len / 2 <= row < len / 2 + 32 || row >= len - 32
}

/// The rows to look at, each once and in order.
pub fn spot_rows(len: usize) -> (rows: Vec<usize>)
    ensures
        forall|r: int, s: int| 0 <= r < s < rows@.len() ==> rows@[r] < rows@[s],
        forall|r: int| 0 <= r < rows@.len() ==> (#[trigger] rows@[r]) < len && is_spot(
            len as int,
            rows@[r] as int,
        ),
        forall|row: int|
            0 <= row < len && #[trigger] is_spot(len as int, row) ==> exists|r: int|
                0 <= r < rows@.len() && rows@[r] == row,
{
    let mut rows: Vec<usize> = Vec::new();
    let mut row: usize = 0;
    while row < len
        invariant
            row <= len,
            forall|r: int, s: int| 0 <= r < s < rows@.len() ==> rows@[r] < rows@[s],
            forall|r: int| 0 <= r < rows@.len() ==> (#[trigger] rows@[r]) < row && is_spot(
                len as int,
                rows@[r] as int,
            ),
            forall|k: int|
                0 <= k < row && #[trigger] is_spot(len as int, k) ==> exists|r: int|
                    0 <= r < rows@.len() && rows@[r] == k,
        decreases len - row,
    {
        let ghost before = rows@;
        let spot: bool = row < 32 || (len > 64 && len / 2 <= row && row - len / 2 < 32) || len
            - row <= 32;
        if spot {
            rows.push(row);
        }
        row += 1;
        assert forall|k: int| 0 <= k < row && #[trigger] is_spot(len as int, k) implies exists|
            r: int,
        | 0 <= r < rows@.len() && rows@[r] == k by {
            if k < row - 1 {
                let r = choose|r: int| 0 <= r < before.len() && before[r] == k;
                assert(rows@[r] == k);
            } else {
                assert(rows@[rows@.len() - 1] == k);
            }
        }
    }
    rows
}

/// What a number of mismatches comes to.
pub open spec fn mismatch_failure(test: Seq<char>, mismatches: nat) -> Option<Failure> {
    if mismatches == 0 {
        None
    } else {
        Some(rejected(test, decimal(mismatches) + " mismatches"@))
    }
}

/// Judges a component by the number of elements that differ from the reference.
pub fn judge_mismatches(test: &'static str, mismatches: u64) -> (result: Result<(), HarnessError>)
    ensures
        reported(result) == mismatch_failure(test@, mismatches as nat),
{
    if mismatches == 0 {
        return Ok(());
    }
    let start: crate::text::Line = say("").dec(mismatches);
    proof {
        reveal_strlit("");
        assert(""@ + decimal(mismatches as nat) =~= decimal(mismatches as nat));
    }
    Err(HarnessError::verification(test, start.text(" mismatches")))
}

/// What causal attention comes to: it must match the reference, and differ from
/// attention in both directions.
pub open spec fn causal_failure(mismatches: nat, differs: bool) -> Option<Failure> {
    if mismatches == 0 && differs {
        None
    } else {
        Some(
            rejected(
                "attention_head"@,
                "causal_mismatches="@ + decimal(mismatches) + ", causal_differs="@ + truth(
                    differs,
                ),
            ),
        )
    }
}

/// Judges causal attention.
pub fn judge_causal_attention(mismatches: u64, differs: bool) -> (result: Result<(), HarnessError>)
    ensures
        reported(result) == causal_failure(mismatches as nat, differs),
{
    if mismatches == 0 && differs {
        Ok(())
    } else {
        Err(
            HarnessError::verification(
                "attention_head",
                say("causal_mismatches=").dec(mismatches).text(", causal_differs=").flag(differs),
            ),
        )
    }
}

/// Whether the token at `query` may look at the token at `key`.
pub open spec fn visible(query: int, key: int, causal: bool) -> bool {
    !causal || key <= query
}

/// Whether the token at `query` may look at the token at `key`: under the causal
/// mask, only at itself and at what is before it.
pub fn may_attend(query: usize, key: usize, causal: bool) -> (allowed: bool)
    ensures
        allowed == visible(query as int, key as int, causal),
{
    !causal || key <= query
}

/// What a deviation from the reference comes to. `label` says which part of the
/// test it is of, `max_err` is the greatest deviation as text.
pub open spec fn deviation_failure(
    test: Seq<char>,
    label: Seq<char>,
    mismatches: nat,
    max_err: Seq<char>,
) -> Option<Failure> {
    if mismatches == 0 {
        None
    } else {
        Some(
            rejected(test, label + decimal(mismatches) + " mismatches, max_err="@ + max_err),
        )
    }
}

/// Judges a component by the number of elements that differ from the reference,
/// and reports the greatest deviation.
pub fn judge_deviation(test: &'static str, label: &str, mismatches: u64, max_err: &str) -> (result:
    Result<(), HarnessError>)
    ensures
        reported(result) == deviation_failure(test@, label@, mismatches as nat, max_err@),
{
    if mismatches == 0 {
        Ok(())
    } else {
        Err(
            HarnessError::verification(
                test,
                say(label).dec(mismatches).text(" mismatches, max_err=").text(max_err),
            ),
        )
    }
}

/// What the first row of a benchmarked attention comes to.
pub open spec fn first_row_failure(close: bool, len: nat, max_err: Seq<char>) -> Option<Failure> {
    if close {
        None
    } else {
        Some(
            rejected(
                "attn_v3"@,
                "seq="@ + decimal(len) + " row0 mismatch: max_err="@ + max_err
                    + " (expect ~V[0])"@,
            ),
        )
    }
}

/// Judges the first row of a benchmarked attention, which must be close to the
/// first value: it can look at nothing else.
pub fn judge_first_row(close: bool, len: usize, max_err: &str) -> (result: Result<
    (),
    HarnessError,
>)
    ensures
        reported(result) == first_row_failure(close, len as nat, max_err@),
{
    if close {
        Ok(())
    } else {
        Err(
            HarnessError::verification(
                "attn_v3",
                say("seq=").dec(len as u64).text(" row0 mismatch: max_err=").text(max_err).text(
                    " (expect ~V[0])",
                ),
            ),
        )
    }
}

/// Under the causal mask the first token sees itself alone.
pub proof fn first_token_sees_only_itself(key: int)
    requires
        0 <= key,
    ensures
        visible(0, key, true) <==> key == 0,
{
}

/// Every token sees itself, and under the causal mask nothing behind it.
pub proof fn causal_mask_hides_the_future(query: int, key: int)
    requires
        0 <= query,
    ensures
        visible(query, query, true),
        key > query ==> !visible(query, key, true),
        key <= query ==> visible(query, key, true),
        visible(query, key, false),
{
}

/// An elementwise operation of the benchmark.
#[derive(Clone, Copy, PartialEq, Eq, Structural, Debug)]
pub enum Elementwise {
    Sum,
    Gelu,
    QuadGelu,
    Silu,
    Sigmoid,
    Relu,
}

/// The bytes that an operation moves for each element: it reads its operands and
/// writes its result, four bytes each.
pub open spec fn moved_bytes(operation: Elementwise) -> nat {
    let operands: nat = if operation == Elementwise::Sum {
        2
    } else {
        1
    };
    4 * (operands + 1)
}

impl Elementwise {
    /// The bytes that the operation moves for each element.
    pub fn bytes_per_element(self) -> (bytes: u64)
        ensures
            bytes == moved_bytes(self),
    {
        match self {
            Elementwise::Sum => 12,
            _ => 8,
        }
    }

    /// The label of the operation in the table of the benchmark.
    pub fn label(self) -> (text: &'static str)
        ensures
            text@ == match self {
                Elementwise::Sum => "elementwise_add(V3)"@,
                Elementwise::Gelu => "gelu(V1 tanh)"@,
                Elementwise::QuadGelu => "gelu(V2 sigmoid)"@,
                Elementwise::Silu => "silu(V1 scalar)"@,
                Elementwise::Sigmoid => "sigmoid(V1 scalar)"@,
                Elementwise::Relu => "relu(GPU float4)"@,
            },
    {
        match self {
            Elementwise::Sum => "elementwise_add(V3)",
            Elementwise::Gelu => "gelu(V1 tanh)",
            Elementwise::QuadGelu => "gelu(V2 sigmoid)",
            Elementwise::Silu => "silu(V1 scalar)",
            Elementwise::Sigmoid => "sigmoid(V1 scalar)",
            Elementwise::Relu => "relu(GPU float4)",
        }
    }

    /// What bounds the operation, as the table of the benchmark notes it.
    pub fn note(self) -> (text: &'static str)
        ensures
            text@ == match self {
                Elementwise::Sum => "in-place"@,
                Elementwise::Relu => "bandwidth"@,
                _ => "compute"@,
            },
    {
        match self {
            Elementwise::Sum => "in-place",
            Elementwise::Relu => "bandwidth",
            _ => "compute",
        }
    }
}

/// A size of the benchmark.
pub struct BenchSize {
    pub elements: u32,
    pub label: &'static str,
}

/// The sizes of the benchmark, in elements.
pub open spec fn bench_elements() -> Seq<u32> {
    seq![98304u32, 393216, 786432, 4194304]
}

/// The sizes of the benchmark.
pub fn bench_sizes() -> (sizes: Vec<BenchSize>)
    ensures
        sizes@.map_values(|s: BenchSize| s.elements) == bench_elements(),
        sizes@.map_values(|s: BenchSize| s.label@) == seq![
            "128x768 (LN output)"@,
            "128x3072 (FFN hidden)"@,
            "786432 (GPT-2 FFN)"@,
            "4M (large tensor)"@,
        ],
{
    let sizes: Vec<BenchSize> = vec![
        BenchSize { elements: 768 * 128, label: "128x768 (LN output)" },
        BenchSize { elements: 3072 * 128, label: "128x3072 (FFN hidden)" },
        BenchSize { elements: 786_432, label: "786432 (GPT-2 FFN)" },
        BenchSize { elements: 4_194_304, label: "4M (large tensor)" },
    ];
    assert(sizes@.map_values(|s: BenchSize| s.elements) =~= bench_elements());
    assert(sizes@.map_values(|s: BenchSize| s.label@) =~= seq![
        "128x768 (LN output)"@,
        "128x3072 (FFN hidden)"@,
        "786432 (GPT-2 FFN)"@,
        "4M (large tensor)"@,
    ]);
    sizes
}

/// Residues count up by the factor and wrap at the modulus, starting from the offset.
pub proof fn residues_step_by_the_factor(i: int, factor: int, offset: int, modulus: int)
    requires
        modulus > 0,
    ensures
        0 <= residue(i, factor, offset, modulus) < modulus,
        residue(0, factor, offset, modulus) == offset % modulus,
        residue(i + 1, factor, offset, modulus) == (residue(i, factor, offset, modulus) + factor)
            % modulus,
{
    vstd::arithmetic::div_mod::lemma_mod_bound(i * factor + offset, modulus);
    assert(0 * factor == 0) by (nonlinear_arith);
    assert((i + 1) * factor + offset == (i * factor + offset) + factor) by (nonlinear_arith);
    vstd::arithmetic::div_mod::lemma_add_mod_noop(i * factor + offset, factor, modulus);
    vstd::arithmetic::div_mod::lemma_add_mod_noop(
        residue(i, factor, offset, modulus),
        factor,
        modulus,
    );
    vstd::arithmetic::div_mod::lemma_mod_twice(i * factor + offset, modulus);
}

/// A pattern starts from its seed and steps along the row by one number, down the
/// column by another; what it adds comes last and does not wrap.
pub proof fn patterns_step_by_row_and_column(pattern: Pattern, row: int, col: int)
    requires
        pattern.modulus > 0,
    ensures
        pattern.base <= level(pattern, row, col) < pattern.base + pattern.modulus,
        level(pattern, 0, 0) == pattern.seed % pattern.modulus + pattern.base,
        level(pattern, row, col + 1) - pattern.base == (level(pattern, row, col) - pattern.base
            + pattern.col_step) % (pattern.modulus as int),
        level(pattern, row + 1, col) - pattern.base == (level(pattern, row, col) - pattern.base
            + pattern.row_step) % (pattern.modulus as int),
{
    let (rs, cs, m) = (
        pattern.row_step as int,
        pattern.col_step as int,
        pattern.modulus as int,
    );
    let sum = col * cs + row * rs + pattern.seed;
    vstd::arithmetic::div_mod::lemma_mod_bound(sum, m);
    assert(0 * cs == 0 && 0 * rs == 0) by (nonlinear_arith);
    assert((col + 1) * cs == col * cs + cs && (row + 1) * rs == row * rs + rs)
        by (nonlinear_arith);
    vstd::arithmetic::div_mod::lemma_add_mod_noop(sum, cs, m);
    vstd::arithmetic::div_mod::lemma_add_mod_noop(sum % m, cs, m);
    vstd::arithmetic::div_mod::lemma_add_mod_noop(sum, rs, m);
    vstd::arithmetic::div_mod::lemma_add_mod_noop(sum % m, rs, m);
    vstd::arithmetic::div_mod::lemma_mod_twice(sum, m);
}

/// A component is accepted exactly when nothing differs from the reference; causal
/// attention must also differ from attention in both directions.
pub proof fn components_are_accepted_if_nothing_differs(
    test: Seq<char>,
    label: Seq<char>,
    mismatches: nat,
    differs: bool,
    shown: Seq<char>,
)
    ensures
        mismatch_failure(test, mismatches) is None <==> mismatches == 0,
        deviation_failure(test, label, mismatches, shown) is None <==> mismatches == 0,
        causal_failure(mismatches, differs) is None <==> mismatches == 0 && differs,
        first_row_failure(differs, mismatches, shown) is None <==> differs,
        mismatch_failure(test, mismatches) matches Some(f) ==> f.test == test && f.detail
            == decimal(mismatches) + " mismatches"@,
        deviation_failure(test, label, mismatches, shown) matches Some(f) ==> f.test == test
            && f.detail == label + decimal(mismatches) + " mismatches, max_err="@ + shown,
{
}

/// The rows that are looked at: thirty-two from the start, from the middle and from the
/// end. Up to sixty-four rows, that is every row.
pub proof fn spots_are_at_the_start_the_middle_and_the_end(len: int, row: int)
    requires
        0 <= row < len,
    ensures
        row < 32 || len - row <= 32 ==> is_spot(len, row),
        len <= 64 ==> is_spot(len, row),
        len > 64 ==> (0 <= row - len / 2 < 32 ==> is_spot(len, row)),
        is_spot(len, row) && 32 <= row && row < len - 32 ==> 0 <= row - len / 2 < 32,
{
}

/// A sum reads two operands, every other operation one; each writes one result, and
/// all of them are words of four bytes.
pub proof fn operations_move_their_operands(operation: Elementwise)
    ensures
        moved_bytes(operation) == if operation == Elementwise::Sum {
            3nat * 4
        } else {
            2nat * 4
        },
{
}

/// The sizes of the benchmark are those of the model's activations and a large one.
pub proof fn bench_sizes_are_those_of_the_model()
    ensures
        bench_elements().len() == 4,
        bench_elements()[0] == 128 * 768,
        bench_elements()[1] == 128 * 3072,
        bench_elements()[2] == 256 * 3072,
        bench_elements()[3] == 4 * 1024 * 1024,
{
}

/// Rejected attention shows how much differs and how it should have been.
pub proof fn rejected_attention_shows_what_differs(
    mismatches: nat,
    differs: bool,
    max_err: Seq<char>,
)
    ensures
        causal_failure(mismatches, differs) matches Some(f) ==> f.test == "attention_head"@
            && f.detail == "causal_mismatches="@ + decimal(mismatches) + ", causal_differs="@
            + truth(differs),
        first_row_failure(false, mismatches, max_err)->0.detail == "seq="@ + decimal(mismatches)
            + " row0 mismatch: max_err="@ + max_err + " (expect ~V[0])"@,
{
}

} // verus!
