//! Layouts of matrices, heads and sequences in memory.
//!
//! Weights go to the device column by column, activations are split into heads and
//! joined again, and token sequences are padded. None of this looks at the
//! numbers themselves.
use vstd::prelude::*;
use vstd::arithmetic::div_mod::{lemma_fundamental_div_mod, lemma_fundamental_div_mod_converse};
use crate::float_bits::{
    half_of, pack_f16x2, packed_pair, packed_pair_unpacks, rounding_twice_changes_nothing,
    single_of, f16_to_f32, f32_to_f16,
};

verus! {

/// A matrix of `k` rows and `n` columns, stored by rows, in storage by columns.
pub open spec fn col_major<T>(w: Seq<T>, k: int, n: int) -> Seq<T> {
    Seq::new((k * n) as nat, |i: int| w[(i % k) * n + i / k])
}

/// A position given by a major and a minor index.
proof fn lemma_position(major: int, minor: int, width: int)
    requires
        major >= 0,
        0 <= minor < width,
    ensures
        (major * width + minor) / width == major,
        (major * width + minor) % width == minor,
        major * width >= 0,
{
    assert(major * width >= 0) by (nonlinear_arith)
        requires
            major >= 0,
            width > 0,
    ;
    assert(major * width == width * major) by (nonlinear_arith);
    lemma_fundamental_div_mod_converse(major * width + minor, width, major, minor);
}

/// A position inside a matrix.
proof fn lemma_inside(major: int, minor: int, height: int, width: int)
    requires
        0 <= major < height,
        0 <= minor < width,
    ensures
        0 <= major * width + minor < height * width,
        major * width <= height * width - width,
{
    assert(0 <= major * width && major * width <= height * width - width) by (nonlinear_arith)
        requires
            0 <= major < height,
            0 < width,
    ;
}

/// The row and column of a position inside a matrix.
proof fn lemma_coordinates(i: int, height: int, width: int)
    requires
        0 <= i < height * width,
        width > 0,
    ensures
        0 <= i / width < height,
        0 <= i % width < width,
        i == (i / width) * width + i % width,
{
    lemma_fundamental_div_mod(i, width);
    let q = i / width;
    let r = i % width;
    assert(i == q * width + r) by (nonlinear_arith)
        requires
            i == width * q + r,
    ;
    assert(0 <= q < height) by (nonlinear_arith)
        requires
            0 <= i < height * width,
            i == q * width + r,
            0 <= r < width,
    ;
}

/// Transposes a weight from storage by rows to storage by columns.
pub fn to_col_major<T: Copy>(w: &Vec<T>, k: usize, n: usize) -> (cm: Vec<T>)
    requires
        k * n <= w@.len(),
    ensures
        cm@ == col_major(w@, k as int, n as int),
{
    let len: usize = w.len();
    let mut cm: Vec<T> = Vec::new();
    let mut col: usize = 0;
    proof {
        if k > 0 {
            assert(0 <= k * n && 0 * k == 0) by (nonlinear_arith);
        }
    }
    while col < n
        invariant
            col <= n,
            k * n <= w@.len(),
            w@.len() == len,
            cm@.len() == col * k,
            forall|i: int| 0 <= i < cm@.len() ==> cm@[i] == w@[(i % k as int) * n + i / k as int],
        decreases n - col,
    {
        let mut row: usize = 0;
        while row < k
            invariant
                row <= k,
                col < n,
                k * n <= w@.len(),
                w@.len() == len,
                cm@.len() == col * k + row,
                forall|i: int|
                    0 <= i < cm@.len() ==> cm@[i] == w@[(i % k as int) * n + i / k as int],
            decreases k - row,
        {
            proof {
                lemma_inside(row as int, col as int, k as int, n as int);
                lemma_position(col as int, row as int, k as int);
            }
            cm.push(w[row * n + col]);
            row += 1;
        }
        col += 1;
        assert(col * k == (col - 1) * k + k) by (nonlinear_arith);
    }
    assert(n * k == k * n) by (nonlinear_arith);
    assert(cm@ =~= col_major(w@, k as int, n as int));
    cm
}

/// In storage by columns, the element of a row and a column is where the device
/// looks for it.
pub proof fn col_major_places_elements<T>(w: Seq<T>, k: int, n: int, row: int, col: int)
    requires
        0 <= row < k,
        0 <= col < n,
    ensures
        0 <= col * k + row < col_major(w, k, n).len(),
        col_major(w, k, n)[col * k + row] == w[row * n + col],
{
    lemma_position(col, row, k);
    lemma_inside(col, row, n, k);
    assert(n * k == k * n) by (nonlinear_arith);
}

/// Transposing twice gives the matrix back.
pub proof fn transposing_twice_is_identity<T>(w: Seq<T>, k: int, n: int)
    requires
        0 <= k,
        0 <= n,
        w.len() == k * n,
    ensures
        col_major(col_major(w, k, n), n, k) == w,
{
    let twice = col_major(col_major(w, k, n), n, k);
    assert(n * k == k * n) by (nonlinear_arith);
    assert(twice.len() == w.len());
    assert forall|i: int| 0 <= i < w.len() implies #[trigger] twice[i] == w[i] by {
        assert(k > 0 && n > 0) by (nonlinear_arith)
            requires
                0 <= k,
                0 <= n,
                0 < k * n,
        ;
        lemma_coordinates(i, k, n);
        col_major_places_elements(w, k, n, i / n, i % n);
    }
    assert(twice =~= w);
}

/// A weight in packed half precision, by columns: each word holds two numbers that
/// are below each other in a column.
pub open spec fn packed_col_major(w: Seq<u32>, k: int, n: int) -> Seq<u32> {
    Seq::new(
        (n * (k / 2)) as nat,
        |i: int|
            packed_pair(
                w[(i % (k / 2)) * 2 * n + i / (k / 2)],
                w[((i % (k / 2)) * 2 + 1) * n + i / (k / 2)],
            ) as u32,
    )
}

/// Packs a weight of `k` rows and `n` columns into half precision, by columns.
pub fn to_col_major_f16x2(w: &Vec<u32>, k: usize, n: usize) -> (packed: Vec<u32>)
    requires
        k * n <= w@.len(),
    ensures
        packed@ == packed_col_major(w@, k as int, n as int),
{
    let len: usize = w.len();
    let half: usize = k / 2;
    let ghost h = k as int / 2;
    let mut packed: Vec<u32> = Vec::new();
    let mut col: usize = 0;
    assert(0 * h == 0);
    while col < n
        invariant
            col <= n,
            half == h,
            h == k as int / 2,
            k * n <= w@.len(),
            w@.len() == len,
            packed@.len() == col * h,
            forall|i: int|
                0 <= i < packed@.len() ==> packed@[i] == packed_pair(
                    w@[(i % h) * 2 * n + i / h],
                    w@[((i % h) * 2 + 1) * n + i / h],
                ) as u32,
        decreases n - col,
    {
        let mut pair: usize = 0;
        while pair < half
            invariant
                pair <= half,
                col < n,
                half == h,
                h == k as int / 2,
                k * n <= w@.len(),
                w@.len() == len,
                packed@.len() == col * h + pair,
                forall|i: int|
                    0 <= i < packed@.len() ==> packed@[i] == packed_pair(
                        w@[(i % h) * 2 * n + i / h],
                        w@[((i % h) * 2 + 1) * n + i / h],
                    ) as u32,
            decreases half - pair,
        {
            proof {
                lemma_position(col as int, pair as int, h);
                lemma_inside(pair * 2, col as int, k as int, n as int);
                lemma_inside(pair * 2 + 1, col as int, k as int, n as int);
            }
            let low: u32 = w[pair * 2 * n + col];
            let high: u32 = w[(pair * 2 + 1) * n + col];
            packed.push(pack_f16x2(low, high));
            pair += 1;
        }
        col += 1;
        assert(col * h == (col - 1) * h + h) by (nonlinear_arith);
    }
    assert(packed@ =~= packed_col_major(w@, k as int, n as int));
    packed
}

/// A packed weight unpacks to the weight in storage by columns: going down a column,
/// its numbers come one after the other, in half precision, the lower half of a word
/// before the higher. Of an odd number of rows the last one is left out.
pub proof fn packed_words_hold_the_columns(w: Seq<u32>, k: int, n: int, row: int, col: int)
    requires
        0 <= row < 2 * (k / 2),
        0 <= col < n,
    ensures
        packed_col_major(w, k, n).len() == n * (k / 2),
        0 <= col * (k / 2) + row / 2 < packed_col_major(w, k, n).len(),
        ({
            let word = packed_col_major(w, k, n)[col * (k / 2) + row / 2] as int;
            let half = if row % 2 == 0 {
                word % 0x1_0000
            } else {
                word / 0x1_0000
            };
            &&& half == half_of(w[row * n + col])
            &&& half == half_of(col_major(w, k, n)[col * k + row])
        }),
{
    let h = k / 2;
    let pair = row / 2;
    let i = col * h + pair;
    lemma_position(col, pair, h);
    lemma_inside(col, pair, n, h);
    col_major_places_elements(w, k, n, row, col);
    let low = w[(pair * 2) * n + col];
    let high = w[(pair * 2 + 1) * n + col];
    assert(i % h == pair && i / h == col);
    packed_pair_unpacks(low, high);
    assert(0 <= packed_pair(low, high) <= u32::MAX);
    assert(packed_col_major(w, k, n)[i] == packed_pair(low, high));
}

/// Each number as half precision leaves it.
pub open spec fn rounded(numbers: Seq<u32>) -> Seq<u32> {
    numbers.map_values(|bits: u32| single_of(half_of(bits) as u16) as u32)
}

/// Takes every number to half precision and back.
pub fn round_to_half(numbers: &Vec<u32>) -> (result: Vec<u32>)
    ensures
        result@ == rounded(numbers@),
{
    let mut result: Vec<u32> = Vec::new();
    let mut i: usize = 0;
    while i < numbers.len()
        invariant
            i <= numbers.len(),
            result@ == rounded(numbers@).take(i as int),
        decreases numbers.len() - i,
    {
        result.push(f16_to_f32(f32_to_f16(numbers[i])));
        i += 1;
        assert(rounded(numbers@).take(i as int) =~= rounded(numbers@).take(i - 1).push(
            rounded(numbers@)[i - 1],
        ));
    }
    assert(rounded(numbers@).take(i as int) =~= rounded(numbers@));
    result
}

/// Numbers that half precision has room for stay: taking a list to half precision and
/// back a second time changes nothing.
pub proof fn rounding_to_half_settles(numbers: Seq<u32>)
    ensures
        rounded(rounded(numbers)) == rounded(numbers),
{
    assert forall|i: int| 0 <= i < numbers.len() implies rounded(rounded(numbers))[i] == rounded(
        numbers,
    )[i] by {
        rounding_twice_changes_nothing(numbers[i]);
    }
    assert(rounded(rounded(numbers)) =~= rounded(numbers));
}

/// Queries (`part` 0), keys (1) or values (2) of `rows` rows, head by head: row
/// `s` of head `h` holds the columns of that head in row `s`.
pub open spec fn heads_of<T>(qkv: Seq<T>, part: int, rows: int, heads: int, width: int) -> Seq<T> {
    Seq::new(
        (heads * (rows * width)) as nat,
        |i: int|
            {
                let head = i / (rows * width);
                let row = (i % (rows * width)) / width;
                let d = i % (rows * width) % width;
                qkv[row * (3 * (heads * width)) + (part * (heads * width) + (head * width + d))]
            },
    )
}

/// Splits one part of the combined activations into heads.
pub fn split_heads<T: Copy>(
    qkv: &Vec<T>,
    part: usize,
    rows: usize,
    heads: usize,
    width: usize,
) -> (split: Vec<T>)
    requires
        part < 3,
        rows * (3 * (heads * width)) <= qkv@.len(),
    ensures
        split@ == heads_of(qkv@, part as int, rows as int, heads as int, width as int),
{
    let len: usize = qkv.len();
    let ghost spec_split = heads_of(qkv@, part as int, rows as int, heads as int, width as int);
    let mut split: Vec<T> = Vec::new();
    let mut head: usize = 0;
    let ghost block = rows as int * width as int;
    assert(0 * block == 0);
    while head < heads
        invariant
            head <= heads,
            part < 3,
            rows * (3 * (heads * width)) <= qkv@.len(),
            qkv@.len() == len,
            block == rows as int * width as int,
            spec_split == heads_of(qkv@, part as int, rows as int, heads as int, width as int),
            split@.len() == head * block,
            split@.len() <= spec_split.len(),
            forall|i: int| 0 <= i < split@.len() ==> split@[i] == spec_split[i],
        decreases heads - head,
    {
        let mut row: usize = 0;
        assert(0 * width == 0);
        while row < rows
            invariant
                row <= rows,
                head < heads,
                part < 3,
                rows * (3 * (heads * width)) <= qkv@.len(),
                qkv@.len() == len,
                block == rows as int * width as int,
                spec_split == heads_of(
                    qkv@,
                    part as int,
                    rows as int,
                    heads as int,
                    width as int,
                ),
                split@.len() == head * block + row * width,
                split@.len() <= spec_split.len(),
                forall|i: int| 0 <= i < split@.len() ==> split@[i] == spec_split[i],
            decreases rows - row,
        {
            let mut d: usize = 0;
            while d < width
                invariant
                    d <= width,
                    row < rows,
                    head < heads,
                    part < 3,
                    rows * (3 * (heads * width)) <= qkv@.len(),
                    qkv@.len() == len,
                    block == rows as int * width as int,
                    spec_split == heads_of(
                        qkv@,
                        part as int,
                        rows as int,
                        heads as int,
                        width as int,
                    ),
                    split@.len() == head * block + row * width + d,
                    d > 0 ==> split@.len() <= spec_split.len(),
                    forall|i: int| 0 <= i < split@.len() ==> split@[i] == spec_split[i],
                decreases width - d,
            {
                let ghost model = heads as int * width as int;
                let ghost inner = row * width + d;
                proof {
                    lemma_inside(row as int, d as int, rows as int, width as int);
                    lemma_position(row as int, d as int, width as int);
                    lemma_inside(head as int, inner, heads as int, block);
                    lemma_position(head as int, inner, block);
                    lemma_inside(head as int, d as int, heads as int, width as int);
                    lemma_inside(part as int, head * width + d, 3, model);
                    lemma_inside(
                        row as int,
                        part * model + (head * width + d),
                        rows as int,
                        3 * model,
                    );
                    assert(head * block + row * width + d == head * block + inner);
                    assert(model <= qkv@.len()) by (nonlinear_arith)
                        requires
                            rows * (3 * model) <= qkv@.len(),
                            rows >= 1,
                            model >= 0,
                    ;
                    assert(3 * model <= qkv@.len()) by (nonlinear_arith)
                        requires
                            rows * (3 * model) <= qkv@.len(),
                            rows >= 1,
                            model >= 0,
                    ;
                }
                let column: usize = part * (heads * width) + (head * width + d);
                split.push(qkv[row * (3 * (heads * width)) + column]);
                d += 1;
            }
            row += 1;
            proof {
                assert(row * width == (row - 1) * width + width) by (nonlinear_arith);
                lemma_end(head as int, row as int, heads as int, rows as int, width as int);
            }
        }
        head += 1;
        proof {
            assert(head * block == (head - 1) * block + block) by (nonlinear_arith);
            lemma_end(head as int, 0, heads as int, rows as int, width as int);
        }
    }
    assert(split@ =~= spec_split);
    split
}

/// In a part that is split into heads, each head has its rows together, and a row of
/// a head holds the head's columns of that part, in order.
pub proof fn split_heads_place_elements<T>(
    qkv: Seq<T>,
    part: int,
    rows: int,
    heads: int,
    width: int,
    head: int,
    row: int,
    d: int,
)
    requires
        0 <= part < 3,
        0 <= head < heads,
        0 <= row < rows,
        0 <= d < width,
    ensures
        heads_of(qkv, part, rows, heads, width).len() == heads * (rows * width),
        0 <= (head * rows + row) * width + d < heads * (rows * width),
        heads_of(qkv, part, rows, heads, width)[(head * rows + row) * width + d] == qkv[(row * 3
            + part) * (heads * width) + head * width + d],
{
    let block = rows * width;
    let inner = row * width + d;
    lemma_inside(row, d, rows, width);
    lemma_position(row, d, width);
    lemma_inside(head, inner, heads, block);
    lemma_position(head, inner, block);
    assert((head * rows + row) * width + d == head * block + inner) by (nonlinear_arith)
        requires
            block == rows * width,
            inner == row * width + d,
    ;
    assert(heads * block >= 0) by (nonlinear_arith)
        requires
            heads > 0,
            block >= 0,
    ;
    let model = heads * width;
    assert((row * 3 + part) * model + head * width + d == row * (3 * model) + (part * model + (head
        * width + d))) by (nonlinear_arith);
}

/// In the joined heads, a row holds that row of every head, head after head.
pub proof fn joined_heads_place_elements<T>(
    split: Seq<T>,
    rows: int,
    heads: int,
    width: int,
    head: int,
    row: int,
    d: int,
)
    requires
        0 <= head < heads,
        0 <= row < rows,
        0 <= d < width,
    ensures
        heads_joined(split, rows, heads, width).len() == rows * (heads * width),
        0 <= (row * heads + head) * width + d < rows * (heads * width),
        heads_joined(split, rows, heads, width)[(row * heads + head) * width + d] == split[(head
            * rows + row) * width + d],
{
    let model = heads * width;
    let inner = head * width + d;
    lemma_inside(head, d, heads, width);
    lemma_position(head, d, width);
    lemma_inside(row, inner, rows, model);
    lemma_position(row, inner, model);
    assert((row * heads + head) * width + d == row * model + inner) by (nonlinear_arith)
        requires
            model == heads * width,
            inner == head * width + d,
    ;
    assert(rows * model >= 0) by (nonlinear_arith)
        requires
            rows > 0,
            model >= 0,
    ;
    assert(head * (rows * width) + (row * width + d) == (head * rows + row) * width + d)
        by (nonlinear_arith);
}

/// The end of a row lies inside, or at the end of, all heads.
proof fn lemma_end(head: int, row: int, heads: int, rows: int, width: int)
    requires
        0 <= head <= heads,
        0 <= row <= rows,
        head == heads ==> row == 0,
        width >= 0,
    ensures
        head * (rows * width) + row * width <= heads * (rows * width),
{
    assert(head * (rows * width) + row * width <= heads * (rows * width)) by (nonlinear_arith)
        requires
            0 <= head <= heads,
            0 <= row <= rows,
            head == heads ==> row == 0,
            width >= 0,
    ;
}

/// The heads side by side: row `s` holds row `s` of every head.
pub open spec fn heads_joined<T>(split: Seq<T>, rows: int, heads: int, width: int) -> Seq<T> {
    Seq::new(
        (rows * (heads * width)) as nat,
        |i: int|
            {
                let row = i / (heads * width);
                let head = (i % (heads * width)) / width;
                let d = i % (heads * width) % width;
                split[head * (rows * width) + (row * width + d)]
            },
    )
}

/// Joins the heads again.
pub fn concat_heads<T: Copy>(split: &Vec<T>, rows: usize, heads: usize, width: usize) -> (joined:
    Vec<T>)
    requires
        heads * (rows * width) <= split@.len(),
    ensures
        joined@ == heads_joined(split@, rows as int, heads as int, width as int),
{
    let len: usize = split.len();
    let ghost spec_joined = heads_joined(split@, rows as int, heads as int, width as int);
    let mut joined: Vec<T> = Vec::new();
    let mut row: usize = 0;
    let ghost model = heads as int * width as int;
    assert(0 * model == 0);
    while row < rows
        invariant
            row <= rows,
            heads * (rows * width) <= split@.len(),
            split@.len() == len,
            model == heads as int * width as int,
            spec_joined == heads_joined(split@, rows as int, heads as int, width as int),
            joined@.len() == row * model,
            joined@.len() <= spec_joined.len(),
            forall|i: int| 0 <= i < joined@.len() ==> joined@[i] == spec_joined[i],
        decreases rows - row,
    {
        let mut head: usize = 0;
        assert(0 * width == 0);
        while head < heads
            invariant
                head <= heads,
                row < rows,
                heads * (rows * width) <= split@.len(),
                split@.len() == len,
                model == heads as int * width as int,
                spec_joined == heads_joined(split@, rows as int, heads as int, width as int),
                joined@.len() == row * model + head * width,
                joined@.len() <= spec_joined.len(),
                forall|i: int| 0 <= i < joined@.len() ==> joined@[i] == spec_joined[i],
            decreases heads - head,
        {
            let mut d: usize = 0;
            while d < width
                invariant
                    d <= width,
                    head < heads,
                    row < rows,
                    heads * (rows * width) <= split@.len(),
                    split@.len() == len,
                    model == heads as int * width as int,
                    spec_joined == heads_joined(split@, rows as int, heads as int, width as int),
                    joined@.len() == row * model + head * width + d,
                    d > 0 ==> joined@.len() <= spec_joined.len(),
                    forall|i: int| 0 <= i < joined@.len() ==> joined@[i] == spec_joined[i],
                decreases width - d,
            {
                let ghost inner = head * width + d;
                let ghost block = rows as int * width as int;
                proof {
                    lemma_inside(head as int, d as int, heads as int, width as int);
                    lemma_position(head as int, d as int, width as int);
                    lemma_inside(row as int, inner, rows as int, model);
                    lemma_position(row as int, inner, model);
                    lemma_inside(row as int, d as int, rows as int, width as int);
                    lemma_inside(head as int, row * width + d, heads as int, block);
                    assert(row * model + head * width + d == row * model + inner);
                    assert(block <= split@.len()) by (nonlinear_arith)
                        requires
                            heads * block <= split@.len(),
                            heads >= 1,
                            block >= 0,
                    ;
                }
                joined.push(split[head * (rows * width) + (row * width + d)]);
                d += 1;
            }
            head += 1;
            proof {
                assert(head * width == (head - 1) * width + width) by (nonlinear_arith);
                lemma_end(row as int, head as int, rows as int, heads as int, width as int);
            }
        }
        row += 1;
        proof {
            assert(row * model == (row - 1) * model + model) by (nonlinear_arith);
            lemma_end(row as int, 0, rows as int, heads as int, width as int);
        }
    }
    assert(joined@ =~= spec_joined);
    joined
}

/// Splitting a part into heads and joining them gives the columns of that part
/// back, row by row.
pub proof fn joining_split_heads_restores_the_part<T>(
    qkv: Seq<T>,
    part: int,
    rows: int,
    heads: int,
    width: int,
    row: int,
    column: int,
)
    requires
        0 <= part < 3,
        0 <= row < rows,
        0 < width,
        0 <= column < heads * width,
    ensures
        heads_joined(heads_of(qkv, part, rows, heads, width), rows, heads, width)[row * (heads
            * width) + column] == qkv[row * (3 * (heads * width)) + (part * (heads * width)
            + column)],
{
    let model = heads * width;
    let block = rows * width;
    let split = heads_of(qkv, part, rows, heads, width);
    let i = row * model + column;
    lemma_position(row, column, model);
    lemma_inside(row, column, rows, model);
    let head = column / width;
    let d = column % width;
    lemma_coordinates(column, heads, width);
    let inner = row * width + d;
    lemma_inside(row, d, rows, width);
    lemma_inside(head, inner, heads, block);
    lemma_position(head, inner, block);
    lemma_position(row, d, width);
    assert(heads_joined(split, rows, heads, width)[i] == split[head * block + inner]);
    assert(split[head * block + inner] == qkv[row * (3 * model) + (part * model + (head * width
        + d))]);
}

/// One row of every head, the heads side by side.
pub open spec fn head_row_of<T>(split: Seq<T>, rows: int, heads: int, width: int, row: int) -> Seq<
    T,
> {
    Seq::new(
        (heads * width) as nat,
        |i: int| split[(i / width) * (rows * width) + (row * width + i % width)],
    )
}

/// Takes one row of every head.
pub fn head_row<T: Copy>(
    split: &Vec<T>,
    rows: usize,
    heads: usize,
    width: usize,
    row: usize,
) -> (line: Vec<T>)
    requires
        row < rows,
        heads * (rows * width) <= split@.len(),
    ensures
        line@ == head_row_of(split@, rows as int, heads as int, width as int, row as int),
{
    let len: usize = split.len();
    let ghost spec_line = head_row_of(
        split@,
        rows as int,
        heads as int,
        width as int,
        row as int,
    );
    let ghost block = rows as int * width as int;
    let mut line: Vec<T> = Vec::new();
    let mut head: usize = 0;
    assert(0 * width == 0);
    while head < heads
        invariant
            head <= heads,
            row < rows,
            block == rows as int * width as int,
            heads * (rows * width) <= split@.len(),
            split@.len() == len,
            spec_line == head_row_of(
                split@,
                rows as int,
                heads as int,
                width as int,
                row as int,
            ),
            line@.len() == head * width,
            line@.len() <= spec_line.len(),
            forall|i: int| 0 <= i < line@.len() ==> line@[i] == spec_line[i],
        decreases heads - head,
    {
        let mut d: usize = 0;
        while d < width
            invariant
                d <= width,
                head < heads,
                row < rows,
                block == rows as int * width as int,
                heads * (rows * width) <= split@.len(),
                split@.len() == len,
                spec_line == head_row_of(
                    split@,
                    rows as int,
                    heads as int,
                    width as int,
                    row as int,
                ),
                line@.len() == head * width + d,
                d > 0 ==> line@.len() <= spec_line.len(),
                forall|i: int| 0 <= i < line@.len() ==> line@[i] == spec_line[i],
            decreases width - d,
        {
            proof {
                lemma_inside(head as int, d as int, heads as int, width as int);
                lemma_position(head as int, d as int, width as int);
                lemma_inside(row as int, d as int, rows as int, width as int);
                lemma_inside(head as int, row * width + d, heads as int, block);
                assert(block <= split@.len()) by (nonlinear_arith)
                    requires
                        heads * block <= split@.len(),
                        heads >= 1,
                        block >= 0,
                ;
            }
            line.push(split[head * (rows * width) + (row * width + d)]);
            d += 1;
        }
        head += 1;
        proof {
            assert(head * width == (head - 1) * width + width) by (nonlinear_arith);
            assert(head * width <= heads * width) by (nonlinear_arith)
                requires
                    head <= heads,
                    width >= 0,
            ;
        }
    }
    assert(line@ =~= spec_line);
    line
}

/// A row of every head is that row of the joined heads.
pub proof fn head_row_is_a_joined_row<T>(
    split: Seq<T>,
    rows: int,
    heads: int,
    width: int,
    row: int,
)
    requires
        0 <= row < rows,
        heads >= 0,
        width > 0,
    ensures
        head_row_of(split, rows, heads, width, row) == heads_joined(
            split,
            rows,
            heads,
            width,
        ).subrange(row * (heads * width), row * (heads * width) + heads * width),
{
    let model = heads * width;
    assert(model >= 0) by (nonlinear_arith)
        requires
            heads >= 0,
            width > 0,
            model == heads * width,
    ;
    assert(row * model + model <= rows * model && row * model >= 0) by (nonlinear_arith)
        requires
            0 <= row < rows,
            model >= 0,
    ;
    let line = head_row_of(split, rows, heads, width, row);
    let joined = heads_joined(split, rows, heads, width);
    assert forall|i: int| 0 <= i < model implies line[i] == #[trigger] joined[row * model + i] by {
        lemma_position(row, i, model);
    }
    let part = joined.subrange(row * model, row * model + model);
    assert forall|i: int| 0 <= i < model implies #[trigger] part[i] == line[i] by {
        assert(part[i] == joined[row * model + i]);
    }
    assert(line =~= part);
}

/// A row of a matrix that is stored by rows.
pub fn row_of<T: Copy>(data: &Vec<T>, width: usize, row: usize) -> (line: Vec<T>)
    requires
        (row + 1) * width <= data@.len(),
    ensures
        line@ == data@.subrange(row * width, row * width + width),
{
    let len: usize = data.len();
    proof {
        assert((row + 1) * width == row * width + width && 0 <= row * width) by (nonlinear_arith);
    }
    let start: usize = row * width;
    let mut line: Vec<T> = Vec::new();
    let mut i: usize = 0;
    while i < width
        invariant
            i <= width,
            start == row * width,
            start + width <= data@.len(),
            data@.len() == len,
            line@ == data@.subrange(start as int, start + i),
        decreases width - i,
    {
        line.push(data[start + i]);
        i += 1;
        assert(data@.subrange(start as int, start + i) =~= data@.subrange(
            start as int,
            start + i - 1,
        ).push(data@[start + i - 1]));
    }
    line
}

/// A sequence cut or filled up to `len` elements.
pub open spec fn resized<T>(items: Seq<T>, len: int, filler: T) -> Seq<T> {
    Seq::new(
        len as nat,
        |i: int|
            if i < items.len() {
                items[i]
            } else {
                filler
            },
    )
}

/// Resizing keeps what fits, in place, and fills the rest; a sequence of that length
/// already stays as it is.
pub proof fn resizing_keeps_what_fits<T>(items: Seq<T>, len: int, filler: T, i: int)
    requires
        0 <= i < len,
    ensures
        resized(items, len, filler).len() == len,
        i < items.len() ==> resized(items, len, filler)[i] == items[i],
        i >= items.len() ==> resized(items, len, filler)[i] == filler,
        items.len() == len ==> resized(items, len, filler) == items,
{
    if items.len() == len {
        assert(resized(items, len, filler) =~= items);
    }
}

/// A copy of the sequence, cut or filled up to `len` elements.
pub fn resize<T: Copy>(items: &Vec<T>, len: usize, filler: T) -> (result: Vec<T>)
    ensures
        result@ == resized(items@, len as int, filler),
{
    let mut result: Vec<T> = Vec::new();
    let mut i: usize = 0;
    while i < len
        invariant
            i <= len,
            result@ == resized(items@, len as int, filler).take(i as int),
        decreases len - i,
    {
        if i < items.len() {
            result.push(items[i]);
        } else {
            result.push(filler);
        }
        i += 1;
        assert(resized(items@, len as int, filler).take(i as int) =~= resized(
            items@,
            len as int,
            filler,
        ).take(i - 1).push(resized(items@, len as int, filler)[i - 1]));
    }
    assert(resized(items@, len as int, filler).take(i as int) =~= resized(
        items@,
        len as int,
        filler,
    ));
    result
}

/// The elements with the rows from `from` up to, not including, `to` set to `filler`.
pub open spec fn cleared<T>(data: Seq<T>, width: int, from: int, to: int, filler: T) -> Seq<T> {
    Seq::new(
        data.len(),
        |i: int|
            if from * width <= i < to * width {
                filler
            } else {
                data[i]
            },
    )
}

/// Of a matrix that is stored by rows, the rows in the range are cleared, element by
/// element, and the others are kept.
pub proof fn clearing_rows_keeps_the_others<T>(
    data: Seq<T>,
    width: int,
    from: int,
    to: int,
    filler: T,
    row: int,
    col: int,
)
    requires
        0 <= row,
        0 <= col < width,
        row * width + col < data.len(),
    ensures
        cleared(data, width, from, to, filler).len() == data.len(),
        cleared(data, width, from, to, filler)[row * width + col] == if from <= row && row < to {
            filler
        } else {
            data[row * width + col]
        },
{
    assert(from <= row ==> from * width <= row * width + col) by (nonlinear_arith)
        requires
            0 <= col < width,
    ;
    assert(row < from ==> row * width + col < from * width) by (nonlinear_arith)
        requires
            0 <= col < width,
    ;
    assert(to <= row ==> to * width <= row * width + col) by (nonlinear_arith)
        requires
            0 <= col < width,
    ;
    assert(row < to ==> row * width + col < to * width) by (nonlinear_arith)
        requires
            0 <= col < width,
    ;
    assert(0 <= row * width) by (nonlinear_arith)
        requires
            0 <= row,
            0 < width,
    ;
}

/// Sets the rows from `from` up to, not including, `to` to `filler`.
pub fn clear_rows<T: Copy>(data: &mut Vec<T>, width: usize, from: usize, to: usize, filler: T)
    requires
        from <= to,
        to * width <= old(data)@.len(),
    ensures
        final(data)@ == Seq::new(
            old(data)@.len(),
            |i: int|
                if from * width <= i < to * width {
                    filler
                } else {
                    old(data)@[i]
                },
        ),
        final(data)@ == cleared(old(data)@, width as int, from as int, to as int, filler),
{
    let len: usize = data.len();
    let ghost before = data@;
    proof {
        assert(0 <= from * width <= to * width) by (nonlinear_arith)
            requires
                from <= to,
        ;
    }
    let start: usize = from * width;
    let end: usize = to * width;
    let mut i: usize = start;
    while i < end
        invariant
            start <= i <= end <= len,
            data@.len() == len,
            before.len() == len,
            forall|k: int|
                0 <= k < len ==> data@[k] == if start <= k < i {
                    filler
                } else {
                    before[k]
                },
        decreases end - i,
    {
        data.set(i, filler);
        i += 1;
    }
    assert(data@ =~= Seq::new(
        before.len(),
        |i: int|
            if from * width <= i < to * width {
                filler
            } else {
                before[i]
            },
    ));
}

} // verus!
