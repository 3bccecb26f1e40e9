//! Launch geometry of the compute kernels.
use vstd::prelude::*;

verus! {

/// Threads of a block in the elementwise kernels.
pub const ELEMENT_BLOCK: u32 = 256;

/// Rows of a tile, in the matrix products and in flash attention.
pub const ROW_TILE: u32 = 32;

/// Columns of a tile of the matrix products.
pub const COLUMN_TILE: u32 = 16;

/// Width of an attention head.
pub const D_HEAD: u32 = 64;

/// Grid, block and dynamic shared memory of a launch. Blocks are one-dimensional;
/// grids have up to two dimensions.
#[derive(Clone, Copy, PartialEq, Eq, Structural, Debug)]
pub struct Dims {
    pub grid_x: u32,
    pub grid_y: u32,
    pub block_x: u32,
    pub shared_bytes: u32,
}

/// The least number of blocks of size `block` that hold `total` elements.
pub open spec fn blocks(total: int, block: int) -> int {
    (total + block - 1) / block
}

/// One thread per element.
pub open spec fn element_dims(total: u32) -> Dims {
    Dims {
        grid_x: blocks(total as int, ELEMENT_BLOCK as int) as u32,
        grid_y: 1,
        block_x: ELEMENT_BLOCK,
        shared_bytes: 0,
    }
}

/// One warp per row.
pub open spec fn row_dims(rows: u32) -> Dims {
    Dims { grid_x: rows, grid_y: 1, block_x: 32, shared_bytes: 0 }
}

/// One block per tile of the product.
pub open spec fn tile_dims(rows: u32, columns: u32, shared_bytes: u32) -> Dims {
    Dims {
        grid_x: rows / ROW_TILE,
        grid_y: columns / COLUMN_TILE,
        block_x: 128,
        shared_bytes,
    }
}

/// One warp per head and tile of queries, with a tile of keys and one of values.
pub open spec fn attention_dims(heads: u32, queries: u32) -> Dims {
    Dims {
        grid_x: heads,
        grid_y: blocks(queries as int, ROW_TILE as int) as u32,
        block_x: 32,
        shared_bytes: 16384,
    }
}

/// One warp per head, with the whole score matrix in shared memory.
pub open spec fn head_dims(heads: u32, rows: u32) -> Dims {
    Dims { grid_x: heads, grid_y: 1, block_x: 32, shared_bytes: (rows * rows * 4) as u32 }
}

/// The least number of blocks of size `block` that hold `total` elements.
pub fn block_count(total: u32, block: u32) -> (count: u32)
    requires
        block > 0,
    ensures
        count == blocks(total as int, block as int),
{
    let full: u32 = total / block;
    let rest: u32 = total % block;
    proof {
        lemma_blocks(total as int, block as int);
        if block == 1 {
            assert(rest == 0);
        } else {
            assert(full < u32::MAX) by (nonlinear_arith)
                requires
                    full == total / block,
                    block >= 2,
                    total <= u32::MAX,
            ;
        }
    }
    if rest == 0 {
        full
    } else {
        full + 1
    }
}

/// Rounding up by adding one less than the block size.
proof fn lemma_blocks(total: int, block: int)
    requires
        total >= 0,
        block > 0,
    ensures
        blocks(total, block) == total / block + if total % block == 0 {
            0int
        } else {
            1int
        },
{
    let q = total / block;
    let r = total % block;
    vstd::arithmetic::div_mod::lemma_fundamental_div_mod(total, block);
    if r == 0 {
        assert(total + block - 1 == block * q + (block - 1));
        vstd::arithmetic::div_mod::lemma_fundamental_div_mod_converse(
            total + block - 1,
            block,
            q,
            block - 1,
        );
    } else {
        assert(total + block - 1 == block * (q + 1) + (r - 1)) by (nonlinear_arith)
            requires
                total == block * q + r,
        ;
        vstd::arithmetic::div_mod::lemma_fundamental_div_mod_converse(
            total + block - 1,
            block,
            q + 1,
            r - 1,
        );
    }
}

/// The blocks hold every element, and one block less would not.
pub proof fn blocks_cover_exactly(total: int, block: int)
    requires
        total >= 0,
        block > 0,
    ensures
        blocks(total, block) * block >= total,
        total > 0 ==> (blocks(total, block) - 1) * block < total,
        total == 0 ==> blocks(total, block) == 0,
{
    lemma_blocks(total, block);
    vstd::arithmetic::div_mod::lemma_fundamental_div_mod(total, block);
    let q = total / block;
    let r = total % block;
    let b = blocks(total, block);
    if total == 0 {
        assert(q == 0) by (nonlinear_arith)
            requires
                q == 0int / block,
                block > 0,
        ;
    }
    assert(b * block >= total && (total > 0 ==> (b - 1) * block < total)) by (nonlinear_arith)
        requires
            total == block * q + r,
            0 <= r < block,
            block > 0,
            b == q + if r == 0 {
                0int
            } else {
                1int
            },
    ;
}

/// The geometry of an elementwise kernel.
pub fn element_launch(total: u32) -> (dims: Dims)
    ensures
        dims == element_dims(total),
{
    Dims {
        grid_x: block_count(total, ELEMENT_BLOCK),
        grid_y: 1,
        block_x: ELEMENT_BLOCK,
        shared_bytes: 0,
    }
}

/// The geometry of a kernel that works row by row.
pub fn row_launch(rows: u32) -> (dims: Dims)
    ensures
        dims == row_dims(rows),
{
    Dims { grid_x: rows, grid_y: 1, block_x: 32, shared_bytes: 0 }
}

/// The geometry of a tiled matrix product.
pub fn tile_launch(rows: u32, columns: u32, shared_bytes: u32) -> (dims: Dims)
    ensures
        dims == tile_dims(rows, columns, shared_bytes),
{
    Dims { grid_x: rows / ROW_TILE, grid_y: columns / COLUMN_TILE, block_x: 128, shared_bytes }
}

/// The geometry of flash attention.
pub fn attention_launch(heads: u32, queries: u32) -> (dims: Dims)
    ensures
        dims == attention_dims(heads, queries),
{
    Dims {
        grid_x: heads,
        grid_y: block_count(queries, ROW_TILE),
        block_x: 32,
        shared_bytes: 2 * ROW_TILE * D_HEAD * 4,
    }
}

/// The geometry of per-head attention.
pub fn head_launch(heads: u32, rows: u32) -> (dims: Dims)
    requires
        rows <= 0x7FFF,
    ensures
        dims == head_dims(heads, rows),
{
    assert(rows * rows * 4 <= u32::MAX) by (nonlinear_arith)
        requires
            rows <= 0x7FFF,
    ;
    assert(rows * rows <= u32::MAX);
    Dims { grid_x: heads, grid_y: 1, block_x: 32, shared_bytes: rows * rows * 4 }
}

/// Status counters count blocks: a launch of `heads` by `queries` is complete once
/// every one of its blocks has reported.
pub open spec fn attention_blocks(heads: int, queries: int) -> int {
    heads * blocks(queries, ROW_TILE as int)
}

/// Whether the status counter says that every block of an attention launch ran.
pub fn attention_complete(status: u32, heads: u32, queries: u32) -> (complete: bool)
    ensures
        complete == (status >= attention_blocks(heads as int, queries as int)),
{
    let tiles: u32 = block_count(queries, ROW_TILE);
    assert(heads as int * tiles as int <= 0xFFFF_FFFF * 0xFFFF_FFFF) by (nonlinear_arith)
        requires
            heads <= 0xFFFF_FFFFu32,
            tiles <= 0xFFFF_FFFFu32,
    ;
    status as u64 >= heads as u64 * tiles as u64
}

/// One thread per four elements.
pub open spec fn quad_dims(total: u32) -> Dims {
    Dims {
        grid_x: blocks(total as int, 1024) as u32,
        grid_y: 1,
        block_x: ELEMENT_BLOCK,
        shared_bytes: 0,
    }
}

/// The geometry of an elementwise kernel whose threads take four elements each.
pub fn quad_launch(total: u32) -> (dims: Dims)
    ensures
        dims == quad_dims(total),
{
    Dims {
        grid_x: block_count(total, 4 * ELEMENT_BLOCK),
        grid_y: 1,
        block_x: ELEMENT_BLOCK,
        shared_bytes: 0,
    }
}

/// An elementwise launch has a thread for every element, and no block without one; with
/// four elements to a thread it has a quarter of the threads.
pub proof fn element_threads_cover_the_elements(total: u32)
    ensures
        ({
            let dims = element_dims(total);
            &&& total <= dims.grid_x * 256 < total + 256
            &&& (dims.block_x, dims.grid_y, dims.shared_bytes) == (256u32, 1u32, 0u32)
        }),
        ({
            let dims = quad_dims(total);
            &&& total <= dims.grid_x * 256 * 4 < total + 1024
            &&& (dims.block_x, dims.grid_y, dims.shared_bytes) == (256u32, 1u32, 0u32)
        }),
{
    blocks_cover_exactly(total as int, 256);
    blocks_cover_exactly(total as int, 1024);
}

/// A launch row by row has a warp for each row.
pub proof fn every_row_has_a_warp(rows: u32)
    ensures
        row_dims(rows).grid_x * row_dims(rows).grid_y == rows,
        row_dims(rows).block_x == 32,
        row_dims(rows).shared_bytes == 0,
{
}

/// The tiles of a product cover it, without any overlap, where its sides are whole
/// numbers of tiles: thirty-two rows by sixteen columns, with four warps to a tile.
pub proof fn tiles_cover_the_product(rows: u32, columns: u32, shared_bytes: u32)
    requires
        rows % 32 == 0,
        columns % 16 == 0,
    ensures
        tile_dims(rows, columns, shared_bytes).grid_x * 32 == rows,
        tile_dims(rows, columns, shared_bytes).grid_y * 16 == columns,
        tile_dims(rows, columns, shared_bytes).block_x == 4 * 32,
        tile_dims(rows, columns, shared_bytes).shared_bytes == shared_bytes,
{
}

/// An attention launch has a warp for each head and each tile of thirty-two queries,
/// none without a query, and room for thirty-two keys and values of a head in single
/// precision. It is complete when all its blocks have reported.
pub proof fn attention_warps_cover_the_queries(heads: u32, queries: u32)
    ensures
        ({
            let dims = attention_dims(heads, queries);
            &&& dims.grid_x == heads
            &&& queries <= dims.grid_y * 32 < queries + 32
            &&& dims.block_x == 32
            &&& dims.shared_bytes == 2 * (32 * 64 * 4)
            &&& attention_blocks(heads as int, queries as int) == dims.grid_x * dims.grid_y
        }),
{
    blocks_cover_exactly(queries as int, 32);
}

/// A launch head by head has a warp for each head, and room for a score in single
/// precision for every pair of rows.
pub proof fn scores_fit_in_shared_memory(heads: u32, rows: u32)
    requires
        rows <= 0x7FFF,
    ensures
        head_dims(heads, rows).grid_x * head_dims(heads, rows).grid_y == heads,
        head_dims(heads, rows).block_x == 32,
        head_dims(heads, rows).shared_bytes == 4 * (rows * rows),
{
    assert(0 <= rows * rows * 4 <= u32::MAX) by (nonlinear_arith)
        requires
            rows <= 0x7FFF,
    ;
}

} // verus!
