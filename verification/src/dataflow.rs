//! What a plan does with its buffers.
//!
//! A plan is sound if every launch covers its elements exactly, stays inside its
//! buffers, reads only what an earlier action has written, and normalises the
//! hidden state only while the padding rows are zero. That holds of the rows of the
//! caches too: a token is attended to in a layer only once its key and its value are
//! in the caches of that layer. The proofs here show that every plan of this crate
//! is sound, and that the passes of a cached generation are, one after the other.
use vstd::prelude::*;
use crate::generation::{
    decoding_continues_the_caches, due_pass, generate, generation_stays_in_bounds, unfinished,
    Outcome, Pass, Progress, END_OF_TEXT,
};
use crate::launch::{
    blocks, blocks_cover_exactly, element_dims, Dims, COLUMN_TILE, D_HEAD, ELEMENT_BLOCK, ROW_TILE,
};
use crate::plan::{
    accumulate, activate, add_bias, append_cache, attend_caches, attend_causally, attend_freely,
    attention_actions, buffer_size, clear, clear_padding, decode_actions,
    decode_attention_actions, decode_layer_actions, decode_layers_actions, depth_tile,
    embed_actions, ffn_actions, ffn_start_actions, forward_actions, gather_query, join_heads,
    last_norm_actions, layer_actions, layers_actions, multiply, normalize, pack,
    packed_attention_actions, packed_ffn_actions, packed_layer_actions, query_actions,
    split_heads, Action, Attention, Buffer, Cache, Gemm, Norm, Part, CACHE_ROWS, D_FFN, D_MODEL,
    D_QKV, MAX_ROWS, N_HEADS, N_LAYERS, STEP_ROWS,
};

verus! {

/// The rows of a pass, and how many of them are tokens.
pub struct Shape {
    pub rows: int,
    pub used: int,
}

impl Shape {
    /// Whether there are rows behind the tokens.
    pub open spec fn padded(self) -> bool {
        self.used < self.rows
    }
}

/// Which buffers have been written, and whether the padding rows of the hidden
/// state are zero.
pub struct Flow {
    pub input: bool,
    pub hidden: bool,
    pub clean: bool,
    pub packed: Option<Buffer>,
    pub normed: bool,
    pub qkv: bool,
    pub heads: bool,
    pub attended: bool,
    pub concat: bool,
    pub projected: bool,
    pub ffn_hidden: bool,
    pub activated: bool,
    pub ffn_out: bool,
    /// How many rows of keys the cache of each layer holds.
    pub key_rows: Seq<nat>,
    /// How many rows of values the cache of each layer holds.
    pub value_rows: Seq<nat>,
    pub query_row: bool,
    pub attended_row: bool,
    pub concat_row: bool,
}

/// The same number of rows in every layer.
pub open spec fn level(rows: nat) -> Seq<nat> {
    Seq::new(N_LAYERS as nat, |layer: int| rows)
}

/// `more` rows in the first `done` layers, `fewer` in the others.
pub open spec fn filled(done: nat, more: nat, fewer: nat) -> Seq<nat> {
    Seq::new(
        N_LAYERS as nat,
        |layer: int|
            if layer < done {
                more
            } else {
                fewer
            },
    )
}

/// Whether the caches of every layer hold `rows` rows.
pub open spec fn caches_hold(flow: Flow, rows: nat) -> bool {
    flow.key_rows == level(rows) && flow.value_rows == level(rows)
}

/// Nothing is written yet.
pub open spec fn untouched() -> Flow {
    Flow {
        input: false,
        hidden: false,
        clean: false,
        packed: None,
        normed: false,
        qkv: false,
        heads: false,
        attended: false,
        concat: false,
        projected: false,
        ffn_hidden: false,
        activated: false,
        ffn_out: false,
        key_rows: level(0),
        value_rows: level(0),
        query_row: false,
        attended_row: false,
        concat_row: false,
    }
}

/// Whether a buffer has been written.
pub open spec fn written(flow: Flow, buffer: Buffer) -> bool {
    match buffer {
        Buffer::Input => flow.input,
        Buffer::InputPacked => flow.packed == Some(buffer),
        Buffer::Hidden => flow.hidden,
        Buffer::Normed => flow.normed,
        Buffer::NormedPacked => flow.packed == Some(buffer),
        Buffer::Qkv => flow.qkv,
        Buffer::Queries => flow.heads,
        Buffer::Keys => flow.heads,
        Buffer::Values => flow.heads,
        Buffer::Attended => flow.attended,
        Buffer::Concat => flow.concat,
        Buffer::ConcatPacked => flow.packed == Some(buffer),
        Buffer::Projected => flow.projected,
        Buffer::FfnHidden => flow.ffn_hidden,
        Buffer::Activated => flow.activated,
        Buffer::ActivatedPacked => flow.packed == Some(buffer),
        Buffer::FfnOut => flow.ffn_out,
        Buffer::QueryRow => flow.query_row,
        Buffer::AttendedRow => flow.attended_row,
        Buffer::ConcatRow => flow.concat_row,
    }
}

/// The flow after a buffer has been written.
pub open spec fn write(flow: Flow, buffer: Buffer) -> Flow {
    match buffer {
        Buffer::Input => Flow { input: true, ..flow },
        Buffer::InputPacked => Flow { packed: Some(buffer), ..flow },
        Buffer::Hidden => Flow { hidden: true, ..flow },
        Buffer::Normed => Flow { normed: true, ..flow },
        Buffer::NormedPacked => Flow { packed: Some(buffer), ..flow },
        Buffer::Qkv => Flow { qkv: true, ..flow },
        Buffer::Queries => Flow { heads: true, ..flow },
        Buffer::Keys => Flow { heads: true, ..flow },
        Buffer::Values => Flow { heads: true, ..flow },
        Buffer::Attended => Flow { attended: true, ..flow },
        Buffer::Concat => Flow { concat: true, ..flow },
        Buffer::ConcatPacked => Flow { packed: Some(buffer), ..flow },
        Buffer::Projected => Flow { projected: true, ..flow },
        Buffer::FfnHidden => Flow { ffn_hidden: true, ..flow },
        Buffer::Activated => Flow { activated: true, ..flow },
        Buffer::ActivatedPacked => Flow { packed: Some(buffer), ..flow },
        Buffer::FfnOut => Flow { ffn_out: true, ..flow },
        Buffer::QueryRow => Flow { query_row: true, ..flow },
        Buffer::AttendedRow => Flow { attended_row: true, ..flow },
        Buffer::ConcatRow => Flow { concat_row: true, ..flow },
    }
}

/// How many rows a cache of a layer holds.
pub open spec fn cached(flow: Flow, cache: Cache, layer: u32) -> nat {
    match cache {
        Cache::Keys => flow.key_rows[layer as int],
        Cache::Values => flow.value_rows[layer as int],
    }
}

/// The flow after a layer's keys and values of `rows` tokens went into its caches.
pub open spec fn store(flow: Flow, layer: u32, rows: nat) -> Flow {
    Flow {
        key_rows: flow.key_rows.update(layer as int, rows),
        value_rows: flow.value_rows.update(layer as int, rows),
        ..flow
    }
}

/// The flow after one more row went into a cache of a layer.
pub open spec fn append(flow: Flow, cache: Cache, layer: u32) -> Flow {
    let rows = cached(flow, cache, layer) + 1;
    match cache {
        Cache::Keys => Flow { key_rows: flow.key_rows.update(layer as int, rows), ..flow },
        Cache::Values => Flow { value_rows: flow.value_rows.update(layer as int, rows), ..flow },
    }
}

/// The launch has a thread for each of `total` elements, and no block too many.
pub open spec fn covers(dims: Dims, total: int) -> bool {
    &&& dims.grid_y == 1
    &&& dims.grid_x * dims.block_x >= total
    &&& total > 0 ==> (dims.grid_x - 1) * dims.block_x < total
}

/// Whether the buffer holds packed pairs.
pub open spec fn is_packed(buffer: Buffer) -> bool {
    match buffer {
        Buffer::InputPacked => true,
        Buffer::NormedPacked => true,
        Buffer::ConcatPacked => true,
        Buffer::ActivatedPacked => true,
        _ => false,
    }
}

/// How many numbers a buffer holds.
pub open spec fn numbers(rows: int, buffer: Buffer) -> int {
    if is_packed(buffer) {
        2 * buffer_size(rows, buffer)
    } else {
        buffer_size(rows, buffer)
    }
}

/// Bytes of the tiles of keys and of values that flash attention keeps at hand.
pub open spec fn attention_tiles() -> int {
    2 * (ROW_TILE * D_HEAD) * 4
}

/// Bytes of the two operand tiles of a product, sixteen deep: single precision takes
/// four bytes for a number, the other kernels two, or four for half the depth.
pub open spec fn operand_tiles(kernel: Gemm) -> int {
    let numbers = ROW_TILE * 16 + 16 * COLUMN_TILE;
    if kernel == Gemm::F32 {
        4 * numbers
    } else {
        2 * numbers
    }
}

/// Whether the geometry and the arguments of an action match its buffers.
#[verifier::opaque]
pub open spec fn fits(shape: Shape, action: Action) -> bool {
    match action {
        Action::Embed { dims, rows, width } => {
            &&& width == D_MODEL
            &&& rows * width == buffer_size(shape.rows, Buffer::Hidden)
            &&& covers(dims, rows * width)
        },
        Action::Normalize { dims, input, output, width, .. } => {
            &&& width == D_MODEL
            &&& dims.grid_y == 1 && dims.block_x == 32
            &&& dims.grid_x * width == buffer_size(shape.rows, input)
            &&& dims.grid_x * width == buffer_size(shape.rows, output)
        },
        Action::Pack { dims, input, output, pairs } => {
            &&& 2 * pairs == buffer_size(shape.rows, input)
            &&& pairs == buffer_size(shape.rows, output)
            &&& is_packed(output)
            &&& covers(dims, pairs as int)
        },
        Action::Multiply { dims, kernel, input, output, depth, columns, .. } => {
            &&& dims.block_x == 128
            &&& dims.shared_bytes == operand_tiles(kernel)
            &&& dims.grid_x * ROW_TILE == shape.rows
            &&& dims.grid_y * COLUMN_TILE == columns
            &&& shape.rows * (depth * depth_tile(kernel)) == numbers(shape.rows, input)
            &&& shape.rows * columns == buffer_size(shape.rows, output)
            &&& is_packed(input) <==> kernel == Gemm::Packed
        },
        Action::AddBias { dims, data, width, total, .. } => {
            &&& total == shape.rows * width
            &&& total == buffer_size(shape.rows, data)
            &&& covers(dims, total as int)
        },
        Action::SplitHeads { dims, rows, heads, head_width } => {
            &&& rows == shape.rows
            &&& heads == N_HEADS && head_width == D_HEAD
            &&& rows * (3 * D_MODEL) == buffer_size(shape.rows, Buffer::Qkv)
            &&& covers(dims, rows * D_MODEL)
        },
        Action::Attend { dims, method: Attention::Flash, rows, head_width, .. } => {
            &&& rows == shape.rows
            &&& dims.grid_x == N_HEADS && head_width == D_HEAD
            &&& (dims.grid_y - 1) * ROW_TILE < rows <= dims.grid_y * ROW_TILE
            &&& dims.block_x == 32
            &&& dims.shared_bytes == attention_tiles()
        },
        Action::Attend { dims, method: Attention::PerHead, rows, head_width, .. } => {
            &&& rows == shape.rows
            &&& dims.grid_x == N_HEADS && head_width == D_HEAD
            &&& dims.grid_y == 1
            &&& dims.block_x == 32
            &&& rows * rows * 4 <= u32::MAX ==> dims.shared_bytes == rows * rows * 4
        },
        Action::JoinHeads { dims, input, output, rows, heads, head_width } => {
            &&& heads == N_HEADS && head_width == D_HEAD
            &&& rows * D_MODEL == buffer_size(shape.rows, input)
            &&& rows * D_MODEL == buffer_size(shape.rows, output)
            &&& covers(dims, rows * D_MODEL)
        },
        Action::Activate { dims, total } => {
            &&& total == buffer_size(shape.rows, Buffer::FfnHidden)
            &&& total == buffer_size(shape.rows, Buffer::Activated)
            &&& covers(dims, total as int)
        },
        Action::Accumulate { dims, target, source, total } => {
            &&& total == buffer_size(shape.rows, target)
            &&& total == buffer_size(shape.rows, source)
            &&& covers(dims, total as int)
        },
        Action::Clear { dims, target, start, end } => {
            &&& start < end == buffer_size(shape.rows, target)
            &&& covers(dims, end - start)
        },
        Action::StoreCaches { layer } => {
            &&& layer < N_LAYERS
            &&& shape.rows == CACHE_ROWS
        },
        Action::AppendCache {
            dims,
            layer,
            heads,
            source_rows,
            cache_rows,
            head_width,
            position,
            ..
        } => {
            &&& layer < N_LAYERS
            &&& source_rows == shape.rows
            &&& cache_rows == CACHE_ROWS
            &&& position < cache_rows
            &&& heads == N_HEADS && head_width == D_HEAD
            &&& covers(dims, heads * head_width)
        },
        Action::GatherQuery { dims, heads, source_rows, target_rows, head_width, position } => {
            &&& source_rows == shape.rows
            &&& heads == N_HEADS && head_width == D_HEAD
            &&& position < target_rows
            &&& heads * target_rows * head_width == buffer_size(shape.rows, Buffer::QueryRow)
            &&& covers(dims, heads * head_width)
        },
        Action::AttendCaches {
            dims,
            layer,
            queries,
            keys,
            head_width,
            causal,
            offset,
            cache_rows,
        } => {
            &&& layer < N_LAYERS
            &&& queries == 1
            &&& causal == 1
            &&& keys == offset + 1
            &&& keys <= cache_rows == CACHE_ROWS
            &&& dims.grid_x == N_HEADS && head_width == D_HEAD
            &&& dims.grid_y == 1
            &&& dims.block_x == 32
            &&& dims.shared_bytes == attention_tiles()
        },
        Action::SpreadRow => true,
        Action::Sync => true,
    }
}

/// What one action does to the buffers; none if it is not sound where it stands.
#[verifier::opaque]
pub open spec fn act(shape: Shape, flow: Flow, action: Action) -> Option<Flow> {
    if !fits(shape, action) {
        None
    } else {
        match action {
            Action::Embed { .. } => Some(Flow { hidden: true, clean: !shape.padded(), ..flow }),
            Action::Normalize { input, output, .. } => if written(flow, input) && (input
                == Buffer::Hidden ==> flow.clean) {
                Some(write(flow, output))
            } else {
                None
            },
            Action::Pack { input, output, .. } => if written(flow, input) {
                Some(write(flow, output))
            } else {
                None
            },
            Action::Multiply { input, output, .. } => if written(flow, input) {
                Some(write(flow, output))
            } else {
                None
            },
            Action::AddBias { data, .. } => if written(flow, data) {
                Some(flow)
            } else {
                None
            },
            Action::SplitHeads { .. } => if flow.qkv {
                Some(Flow { heads: true, ..flow })
            } else {
                None
            },
            Action::Attend { .. } => if flow.heads {
                Some(Flow { attended: true, ..flow })
            } else {
                None
            },
            Action::JoinHeads { input, output, .. } => if written(flow, input) {
                Some(write(flow, output))
            } else {
                None
            },
            Action::Activate { .. } => if flow.ffn_hidden {
                Some(Flow { activated: true, ..flow })
            } else {
                None
            },
            Action::Accumulate { target, source, .. } => if written(flow, target) && written(
                flow,
                source,
            ) {
                Some(
                    if target == Buffer::Hidden {
                        Flow { clean: !shape.padded(), ..flow }
                    } else {
                        flow
                    },
                )
            } else {
                None
            },
            Action::Clear { target, start, .. } => if target == Buffer::Hidden {
                if start == shape.used * D_MODEL {
                    Some(Flow { clean: flow.hidden, ..flow })
                } else {
                    None
                }
            } else {
                Some(flow)
            },
            Action::StoreCaches { layer } => if flow.heads {
                Some(store(flow, layer, shape.used as nat))
            } else {
                None
            },
            Action::AppendCache { cache, layer, position, .. } => if flow.heads && cached(
                flow,
                cache,
                layer,
            ) == position {
                Some(append(flow, cache, layer))
            } else {
                None
            },
            Action::GatherQuery { .. } => if flow.heads {
                Some(Flow { query_row: true, ..flow })
            } else {
                None
            },
            Action::AttendCaches { layer, keys, .. } => if flow.query_row && keys <= cached(
                flow,
                Cache::Keys,
                layer,
            ) && keys <= cached(flow, Cache::Values, layer) {
                Some(Flow { attended_row: true, ..flow })
            } else {
                None
            },
            Action::SpreadRow => if flow.concat_row {
                Some(Flow { concat: true, ..flow })
            } else {
                None
            },
            Action::Sync => Some(flow),
        }
    }
}

/// The buffers after the first `count` actions; none if one of them is not sound.
#[verifier::opaque]
pub open spec fn run_first(
    shape: Shape,
    start: Option<Flow>,
    actions: Seq<Action>,
    count: nat,
) -> Option<Flow>
    decreases count,
{
    if count == 0 {
        start
    } else {
        match run_first(shape, start, actions, (count - 1) as nat) {
            None => None,
            Some(flow) => act(shape, flow, actions[count - 1]),
        }
    }
}

/// The buffers after all actions; none if one of them is not sound.
pub open spec fn run(shape: Shape, start: Option<Flow>, actions: Seq<Action>) -> Option<Flow> {
    run_first(shape, start, actions, actions.len())
}

/// Whether a plan is sound from the given buffers on.
pub open spec fn sound(shape: Shape, start: Flow, actions: Seq<Action>) -> bool {
    run(shape, Some(start), actions) is Some
}

proof fn lemma_run_prefix(
    shape: Shape,
    start: Option<Flow>,
    first: Seq<Action>,
    second: Seq<Action>,
    count: nat,
)
    requires
        count <= first.len(),
    ensures
        run_first(shape, start, first + second, count) == run_first(shape, start, first, count),
    decreases count,
{
    reveal(run_first);
    if count > 0 {
        lemma_run_prefix(shape, start, first, second, (count - 1) as nat);
        assert((first + second)[count - 1] == first[count - 1]);
    }
}

proof fn lemma_run_suffix(
    shape: Shape,
    start: Option<Flow>,
    first: Seq<Action>,
    second: Seq<Action>,
    count: nat,
)
    requires
        count <= second.len(),
    ensures
        run_first(shape, start, first + second, first.len() + count) == run_first(
            shape,
            run(shape, start, first),
            second,
            count,
        ),
    decreases count,
{
    reveal(run_first);
    if count == 0 {
        lemma_run_prefix(shape, start, first, second, first.len());
    } else {
        lemma_run_suffix(shape, start, first, second, (count - 1) as nat);
        assert((first + second)[first.len() + count - 1] == second[count - 1]);
    }
}

proof fn lemma_run_concat(
    shape: Shape,
    start: Option<Flow>,
    first: Seq<Action>,
    second: Seq<Action>,
)
    ensures
        run(shape, start, first + second) == run(shape, run(shape, start, first), second),
{
    lemma_run_suffix(shape, start, first, second, second.len());
}

/// One action that is sound where it stands.
proof fn lemma_step(
    shape: Shape,
    start: Option<Flow>,
    actions: Seq<Action>,
    i: nat,
    before: Flow,
    after: Flow,
)
    requires
        run_first(shape, start, actions, i) == Some(before),
        act(shape, before, actions[i as int]) == Some(after),
    ensures
        run_first(shape, start, actions, i + 1) == Some(after),
{
    reveal(run_first);
}

/// One action that is sound where it stands, and the wait for it.
proof fn lemma_awaited_step(
    shape: Shape,
    start: Option<Flow>,
    actions: Seq<Action>,
    i: nat,
    before: Flow,
    after: Flow,
)
    requires
        run_first(shape, start, actions, i) == Some(before),
        act(shape, before, actions[i as int]) == Some(after),
        actions[i as int + 1] == Action::Sync,
    ensures
        run_first(shape, start, actions, i + 2) == Some(after),
{
    lemma_step(shape, start, actions, i, before, after);
    lemma_sync_acts(shape, after);
    lemma_step(shape, start, actions, i + 1, after, after);
}

/// Nothing has run before the first action.
proof fn lemma_run_none(shape: Shape, start: Option<Flow>, actions: Seq<Action>)
    ensures
        run_first(shape, start, actions, 0) == start,
{
    reveal(run_first);
}

/// The rows of a pass: whole tiles, few enough for the kernels' arguments.
pub open spec fn tiled(rows: u32) -> bool {
    0 < rows <= MAX_ROWS && rows % ROW_TILE == 0
}

/// The hidden state is there, and its padding is zero.
pub open spec fn settled(flow: Flow) -> bool {
    flow.hidden && flow.clean
}

proof fn lemma_element_dims_cover(total: u32)
    ensures
        covers(element_dims(total), total as int),
{
    blocks_cover_exactly(total as int, ELEMENT_BLOCK as int);
    assert(0 <= blocks(total as int, ELEMENT_BLOCK as int) <= u32::MAX);
}

proof fn lemma_sync_acts(shape: Shape, flow: Flow)
    ensures
        act(shape, flow, Action::Sync) == Some(flow),
{
    reveal(fits);
    reveal(act);
}

proof fn lemma_embed_acts(shape: Shape, flow: Flow, rows: u32)
    requires
        shape.rows == rows,
        tiled(rows),
    ensures
        act(
            shape,
            flow,
            Action::Embed { dims: element_dims((rows * D_MODEL) as u32), rows, width: D_MODEL },
        ) == Some(Flow { hidden: true, clean: !shape.padded(), ..flow }),
{
    reveal(fits);
    reveal(act);
    lemma_element_dims_cover((rows * D_MODEL) as u32);
}

proof fn lemma_normalize_acts(shape: Shape, flow: Flow, rows: u32, input: Buffer, norm: Norm)
    requires
        shape.rows == rows,
        input == Buffer::Hidden && settled(flow) || input == Buffer::Input && flow.input,
    ensures
        act(shape, flow, normalize(rows, input, norm)) == Some(Flow { normed: true, ..flow }),
{
    reveal(fits);
    reveal(act);
}

proof fn lemma_pack_acts(shape: Shape, flow: Flow, pairs: u32, input: Buffer, output: Buffer)
    requires
        written(flow, input),
        is_packed(output),
        2 * pairs == buffer_size(shape.rows, input),
        pairs == buffer_size(shape.rows, output),
    ensures
        act(shape, flow, pack(pairs, input, output)) == Some(
            Flow { packed: Some(output), ..flow },
        ),
{
    reveal(fits);
    reveal(act);
    lemma_element_dims_cover(pairs);
}

proof fn lemma_multiply_fits(
    shape: Shape,
    gemm: Gemm,
    rows: u32,
    input: Buffer,
    layer: u32,
    part: Part,
    output: Buffer,
    inner: u32,
    columns: u32,
)
    requires
        shape.rows == rows,
        tiled(rows),
        inner % 16 == 0,
        columns % COLUMN_TILE == 0,
        numbers(rows as int, input) == rows * inner,
        buffer_size(rows as int, output) == rows * columns,
        is_packed(input) <==> gemm == Gemm::Packed,
    ensures
        fits(shape, multiply(gemm, rows, input, layer, part, output, inner, columns)),
{
    reveal(fits);
    let tile = depth_tile(gemm);
    let depth = inner / tile;
    assert(depth * tile == inner) by {
        match gemm {
            Gemm::F32 => {},
            Gemm::Tf32 => {
                assert(inner % 8 == 0);
            },
            _ => {},
        }
    }
    let product = depth * tile;
    assert(shape.rows * product == rows * inner);
}

proof fn lemma_multiply_acts(
    shape: Shape,
    flow: Flow,
    gemm: Gemm,
    rows: u32,
    input: Buffer,
    layer: u32,
    part: Part,
    output: Buffer,
    inner: u32,
    columns: u32,
)
    requires
        shape.rows == rows,
        tiled(rows),
        inner % 16 == 0,
        columns % COLUMN_TILE == 0,
        numbers(rows as int, input) == rows * inner,
        buffer_size(rows as int, output) == rows * columns,
        is_packed(input) <==> gemm == Gemm::Packed,
        written(flow, input),
    ensures
        act(shape, flow, multiply(gemm, rows, input, layer, part, output, inner, columns))
            == Some(write(flow, output)),
{
    lemma_multiply_fits(shape, gemm, rows, input, layer, part, output, inner, columns);
    reveal(act);
}

proof fn lemma_bias_acts(
    shape: Shape,
    flow: Flow,
    rows: u32,
    data: Buffer,
    layer: u32,
    part: Part,
    width: u32,
)
    requires
        shape.rows == rows,
        rows * width <= u32::MAX,
        buffer_size(rows as int, data) == rows * width,
        written(flow, data),
    ensures
        act(shape, flow, add_bias(rows, data, layer, part, width)) == Some(flow),
{
    reveal(fits);
    reveal(act);
    assert(0 <= rows * width) by (nonlinear_arith);
    lemma_element_dims_cover((rows * width) as u32);
}

proof fn lemma_split_acts(shape: Shape, flow: Flow, rows: u32)
    requires
        shape.rows == rows,
        tiled(rows),
        flow.qkv,
    ensures
        act(shape, flow, split_heads(rows)) == Some(Flow { heads: true, ..flow }),
{
    reveal(fits);
    reveal(act);
    lemma_element_dims_cover((rows * D_MODEL) as u32);
}

proof fn lemma_attend_acts(shape: Shape, flow: Flow, rows: u32)
    requires
        shape.rows == rows,
        rows > 0,
        flow.heads,
    ensures
        act(shape, flow, attend_causally(rows)) == Some(Flow { attended: true, ..flow }),
        act(shape, flow, attend_freely(rows)) == Some(Flow { attended: true, ..flow }),
{
    reveal(fits);
    reveal(act);
    blocks_cover_exactly(rows as int, ROW_TILE as int);
    assert(0 <= rows * rows) by (nonlinear_arith);
}

proof fn lemma_join_acts(shape: Shape, flow: Flow, rows: u32, input: Buffer, output: Buffer)
    requires
        rows <= MAX_ROWS,
        buffer_size(shape.rows, input) == rows * D_MODEL,
        buffer_size(shape.rows, output) == rows * D_MODEL,
        written(flow, input),
    ensures
        act(shape, flow, join_heads(rows, input, output)) == Some(write(flow, output)),
{
    reveal(fits);
    reveal(act);
    lemma_element_dims_cover((rows * D_MODEL) as u32);
}

proof fn lemma_activate_acts(shape: Shape, flow: Flow, rows: u32)
    requires
        shape.rows == rows,
        tiled(rows),
        flow.ffn_hidden,
    ensures
        act(shape, flow, activate(rows)) == Some(Flow { activated: true, ..flow }),
{
    reveal(fits);
    reveal(act);
    lemma_element_dims_cover((rows * D_FFN) as u32);
}

proof fn lemma_accumulate_acts(shape: Shape, flow: Flow, rows: u32, source: Buffer)
    requires
        shape.rows == rows,
        tiled(rows),
        buffer_size(rows as int, source) == rows * D_MODEL,
        flow.hidden,
        written(flow, source),
    ensures
        act(shape, flow, accumulate(rows, source)) == Some(
            Flow { clean: !shape.padded(), ..flow },
        ),
{
    reveal(fits);
    reveal(act);
    lemma_element_dims_cover((rows * D_MODEL) as u32);
}

proof fn lemma_clear_acts(shape: Shape, flow: Flow, rows: u32, target: Buffer, from: u32)
    requires
        shape.rows == rows,
        from < rows <= MAX_ROWS,
        target == Buffer::Hidden && flow.hidden && shape.used == from || target == Buffer::Concat,
    ensures
        act(shape, flow, clear(rows, target, from)) == Some(
            if target == Buffer::Hidden {
                Flow { clean: true, ..flow }
            } else {
                flow
            },
        ),
{
    reveal(fits);
    reveal(act);
    lemma_element_dims_cover((rows * D_MODEL - from * D_MODEL) as u32);
}

proof fn lemma_store_acts(shape: Shape, flow: Flow, layer: u32)
    requires
        layer < N_LAYERS,
        shape.rows == CACHE_ROWS,
        flow.heads,
    ensures
        act(shape, flow, Action::StoreCaches { layer }) == Some(
            store(flow, layer, shape.used as nat),
        ),
{
    reveal(fits);
    reveal(act);
}

proof fn lemma_query(shape: Shape, flow: Flow, gemm: Gemm, rows: u32, layer: u32)
    requires
        shape.rows == rows,
        tiled(rows),
        settled(flow),
        gemm != Gemm::Packed,
    ensures
        run(shape, Some(flow), query_actions(gemm, rows, layer)) == Some(
            Flow { normed: true, qkv: true, heads: true, ..flow },
        ),
{
    let actions = query_actions(gemm, rows, layer);
    let start = Some(flow);
    lemma_run_none(shape, start, actions);
    let norm = Norm::BeforeAttention { layer };
    lemma_normalize_acts(shape, flow, rows, Buffer::Hidden, norm);
    let f1 = Flow { normed: true, ..flow };
    lemma_awaited_step(shape, start, actions, 0, flow, f1);
    lemma_multiply_acts(
        shape,
        f1,
        gemm,
        rows,
        Buffer::Normed,
        layer,
        Part::Qkv,
        Buffer::Qkv,
        D_MODEL,
        D_QKV,
    );
    let f2 = Flow { qkv: true, ..f1 };
    lemma_awaited_step(shape, start, actions, 2, f1, f2);
    lemma_bias_acts(shape, f2, rows, Buffer::Qkv, layer, Part::Qkv, D_QKV);
    lemma_awaited_step(shape, start, actions, 4, f2, f2);
    lemma_split_acts(shape, f2, rows);
    lemma_awaited_step(shape, start, actions, 6, f2, Flow { heads: true, ..f2 });
}

proof fn lemma_clear_padding(shape: Shape, flow: Flow, rows: u32, used: u32)
    requires
        shape == (Shape { rows: rows as int, used: used as int }),
        tiled(rows),
        used <= rows,
        flow.hidden,
        flow.clean == !shape.padded(),
    ensures
        run(shape, Some(flow), clear_padding(rows, used)) == Some(Flow { clean: true, ..flow }),
{
    lemma_run_none(shape, Some(flow), clear_padding(rows, used));
    if used < rows {
        lemma_clear_acts(shape, flow, rows, Buffer::Hidden, used);
        lemma_step(
            shape,
            Some(flow),
            clear_padding(rows, used),
            0,
            flow,
            Flow { clean: true, ..flow },
        );
    }
}

proof fn lemma_sync(shape: Shape, flow: Flow)
    ensures
        run(shape, Some(flow), seq![Action::Sync]) == Some(flow),
{
    let actions: Seq<Action> = seq![Action::Sync];
    lemma_run_none(shape, Some(flow), actions);
    lemma_sync_acts(shape, flow);
    lemma_step(shape, Some(flow), actions, 0, flow, flow);
}

/// The actions of [`attention_actions`] up to the residual.
spec fn attention_start(gemm: Gemm, rows: u32, layer: u32) -> Seq<Action> {
    seq![
        attend_causally(rows),
        Action::Sync,
        join_heads(rows, Buffer::Attended, Buffer::Concat),
        Action::Sync,
        multiply(gemm, rows, Buffer::Concat, layer, Part::Proj, Buffer::Projected, D_MODEL, D_MODEL),
        Action::Sync,
        add_bias(rows, Buffer::Projected, layer, Part::Proj, D_MODEL),
        Action::Sync,
        accumulate(rows, Buffer::Projected),
    ]
}

proof fn lemma_attention_start(shape: Shape, flow: Flow, gemm: Gemm, rows: u32, layer: u32)
    requires
        shape.rows == rows,
        tiled(rows),
        settled(flow),
        flow.heads,
        gemm != Gemm::Packed,
    ensures
        run(shape, Some(flow), attention_start(gemm, rows, layer)) == Some(
            Flow {
                attended: true,
                concat: true,
                projected: true,
                clean: !shape.padded(),
                ..flow
            },
        ),
{
    let actions = attention_start(gemm, rows, layer);
    let start = Some(flow);
    lemma_run_none(shape, start, actions);
    lemma_attend_acts(shape, flow, rows);
    let f1 = Flow { attended: true, ..flow };
    lemma_awaited_step(shape, start, actions, 0, flow, f1);
    lemma_join_acts(shape, f1, rows, Buffer::Attended, Buffer::Concat);
    let f2 = Flow { concat: true, ..f1 };
    lemma_awaited_step(shape, start, actions, 2, f1, f2);
    lemma_multiply_acts(
        shape,
        f2,
        gemm,
        rows,
        Buffer::Concat,
        layer,
        Part::Proj,
        Buffer::Projected,
        D_MODEL,
        D_MODEL,
    );
    let f3 = Flow { projected: true, ..f2 };
    lemma_awaited_step(shape, start, actions, 4, f2, f3);
    lemma_bias_acts(shape, f3, rows, Buffer::Projected, layer, Part::Proj, D_MODEL);
    lemma_awaited_step(shape, start, actions, 6, f3, f3);
    lemma_accumulate_acts(shape, f3, rows, Buffer::Projected);
    lemma_step(shape, start, actions, 8, f3, Flow { clean: !shape.padded(), ..f3 });
}

proof fn lemma_attention(
    shape: Shape,
    flow: Flow,
    gemm: Gemm,
    rows: u32,
    used: u32,
    layer: u32,
)
    requires
        shape == (Shape { rows: rows as int, used: used as int }),
        tiled(rows),
        used <= rows,
        settled(flow),
        flow.heads,
        gemm != Gemm::Packed,
    ensures
        run(shape, Some(flow), attention_actions(gemm, rows, used, layer)) == Some(
            Flow { attended: true, concat: true, projected: true, ..flow },
        ),
{
    let first = attention_start(gemm, rows, layer);
    let clearing = clear_padding(rows, used);
    let done = Flow {
        attended: true,
        concat: true,
        projected: true,
        clean: !shape.padded(),
        ..flow
    };
    lemma_attention_start(shape, flow, gemm, rows, layer);
    lemma_clear_padding(shape, done, rows, used);
    lemma_sync(shape, Flow { clean: true, ..done });
    lemma_run_concat(shape, Some(flow), first, clearing);
    lemma_run_concat(shape, Some(flow), first + clearing, seq![Action::Sync]);
}

proof fn lemma_ffn_start(shape: Shape, flow: Flow, gemm: Gemm, rows: u32, layer: u32)
    requires
        shape.rows == rows,
        tiled(rows),
        settled(flow),
        gemm != Gemm::Packed,
    ensures
        run(shape, Some(flow), ffn_start_actions(gemm, rows, layer)) == Some(
            Flow {
                normed: true,
                ffn_hidden: true,
                activated: true,
                ffn_out: true,
                clean: !shape.padded(),
                ..flow
            },
        ),
{
    let actions = ffn_start_actions(gemm, rows, layer);
    let start = Some(flow);
    lemma_run_none(shape, start, actions);
    lemma_normalize_acts(shape, flow, rows, Buffer::Hidden, Norm::BeforeFfn { layer });
    let f1 = Flow { normed: true, ..flow };
    lemma_awaited_step(shape, start, actions, 0, flow, f1);
    lemma_multiply_acts(
        shape,
        f1,
        gemm,
        rows,
        Buffer::Normed,
        layer,
        Part::Fc,
        Buffer::FfnHidden,
        D_MODEL,
        D_FFN,
    );
    let f2 = Flow { ffn_hidden: true, ..f1 };
    lemma_awaited_step(shape, start, actions, 2, f1, f2);
    lemma_bias_acts(shape, f2, rows, Buffer::FfnHidden, layer, Part::Fc, D_FFN);
    lemma_awaited_step(shape, start, actions, 4, f2, f2);
    lemma_activate_acts(shape, f2, rows);
    let f3 = Flow { activated: true, ..f2 };
    lemma_awaited_step(shape, start, actions, 6, f2, f3);
    lemma_multiply_acts(
        shape,
        f3,
        gemm,
        rows,
        Buffer::Activated,
        layer,
        Part::FcProj,
        Buffer::FfnOut,
        D_FFN,
        D_MODEL,
    );
    let f4 = Flow { ffn_out: true, ..f3 };
    lemma_awaited_step(shape, start, actions, 8, f3, f4);
    lemma_bias_acts(shape, f4, rows, Buffer::FfnOut, layer, Part::FcProj, D_MODEL);
    lemma_awaited_step(shape, start, actions, 10, f4, f4);
    lemma_accumulate_acts(shape, f4, rows, Buffer::FfnOut);
    lemma_step(shape, start, actions, 12, f4, Flow { clean: !shape.padded(), ..f4 });
}

proof fn lemma_last_norm(shape: Shape, flow: Flow, rows: u32)
    requires
        shape.rows == rows,
        settled(flow),
    ensures
        run(shape, Some(flow), last_norm_actions(rows)) == Some(Flow { normed: true, ..flow }),
{
    let actions = last_norm_actions(rows);
    lemma_run_none(shape, Some(flow), actions);
    lemma_normalize_acts(shape, flow, rows, Buffer::Hidden, Norm::Last);
    lemma_awaited_step(shape, Some(flow), actions, 0, flow, Flow { normed: true, ..flow });
}

proof fn lemma_store(shape: Shape, flow: Flow, layer: u32)
    requires
        layer < N_LAYERS,
        shape.rows == CACHE_ROWS,
        flow.heads,
    ensures
        run(shape, Some(flow), seq![Action::StoreCaches { layer }]) == Some(
            store(flow, layer, shape.used as nat),
        ),
{
    let actions: Seq<Action> = seq![Action::StoreCaches { layer }];
    lemma_run_none(shape, Some(flow), actions);
    lemma_store_acts(shape, flow, layer);
    lemma_step(
        shape,
        Some(flow),
        actions,
        0,
        flow,
        store(flow, layer, shape.used as nat),
    );
}

proof fn lemma_layer(
    shape: Shape,
    flow: Flow,
    gemm: Gemm,
    rows: u32,
    used: u32,
    layer: u32,
    store: bool,
)
    requires
        shape == (Shape { rows: rows as int, used: used as int }),
        tiled(rows),
        used <= rows,
        settled(flow),
        gemm != Gemm::Packed,
        layer < N_LAYERS,
        store ==> rows == CACHE_ROWS,
    ensures
        ({
            let end = run(shape, Some(flow), layer_actions(gemm, rows, used, layer, store));
            &&& end is Some
            &&& settled(end->0)
            &&& end->0.key_rows == if store {
                flow.key_rows.update(layer as int, used as nat)
            } else {
                flow.key_rows
            }
            &&& end->0.value_rows == if store {
                flow.value_rows.update(layer as int, used as nat)
            } else {
                flow.value_rows
            }
        }),
{
    let query = query_actions(gemm, rows, layer);
    let stored: Seq<Action> = if store {
        seq![Action::StoreCaches { layer }]
    } else {
        Seq::empty()
    };
    let attention = attention_actions(gemm, rows, used, layer);
    let first = ffn_start_actions(gemm, rows, layer);
    let clearing = clear_padding(rows, used);
    let flow1 = Flow { normed: true, qkv: true, heads: true, ..flow };
    let flow2 = if store {
        self::store(flow1, layer, used as nat)
    } else {
        flow1
    };
    let flow3 = Flow { attended: true, concat: true, projected: true, ..flow2 };
    let flow4 = Flow {
        ffn_hidden: true,
        activated: true,
        ffn_out: true,
        clean: !shape.padded(),
        ..flow3
    };
    lemma_query(shape, flow, gemm, rows, layer);
    if store {
        lemma_store(shape, flow1, layer);
    } else {
        lemma_run_none(shape, Some(flow1), stored);
    }
    lemma_attention(shape, flow2, gemm, rows, used, layer);
    lemma_ffn_start(shape, flow3, gemm, rows, layer);
    lemma_clear_padding(shape, flow4, rows, used);
    lemma_sync(shape, Flow { clean: true, ..flow4 });
    lemma_run_concat(shape, Some(flow3), first, clearing);
    lemma_run_concat(shape, Some(flow3), first + clearing, seq![Action::Sync]);
    lemma_run_concat(shape, Some(flow), query, stored);
    lemma_run_concat(shape, Some(flow), query + stored, attention);
    lemma_run_concat(
        shape,
        Some(flow),
        query + stored + attention,
        ffn_actions(gemm, rows, used, layer),
    );
}

/// No layer filled, and all of them.
proof fn lemma_filled_ends(more: nat, fewer: nat)
    ensures
        filled(0, more, fewer) == level(fewer),
        filled(N_LAYERS as nat, more, fewer) == level(more),
{
    assert(filled(0, more, fewer) =~= level(fewer));
    assert(filled(N_LAYERS as nat, more, fewer) =~= level(more));
}

/// One more layer filled.
proof fn lemma_filled_grows(done: nat, more: nat, fewer: nat)
    requires
        done < N_LAYERS,
    ensures
        filled(done, more, fewer).update(done as int, more) == filled(done + 1, more, fewer),
{
    assert(filled(done, more, fewer).update(done as int, more) =~= filled(done + 1, more, fewer));
}

proof fn lemma_layers(
    shape: Shape,
    flow: Flow,
    gemm: Gemm,
    rows: u32,
    used: u32,
    store: bool,
    count: nat,
)
    requires
        shape == (Shape { rows: rows as int, used: used as int }),
        tiled(rows),
        used <= rows,
        settled(flow),
        gemm != Gemm::Packed,
        count <= N_LAYERS,
        store ==> rows == CACHE_ROWS,
        caches_hold(flow, 0),
    ensures
        ({
            let end = run(shape, Some(flow), layers_actions(gemm, rows, used, store, count));
            &&& end is Some
            &&& settled(end->0)
            &&& end->0.key_rows == filled(
                if store {
                    count
                } else {
                    0
                },
                used as nat,
                0,
            )
            &&& end->0.value_rows == end->0.key_rows
        }),
    decreases count,
{
    if count == 0 {
        lemma_run_none(shape, Some(flow), layers_actions(gemm, rows, used, store, 0));
        lemma_filled_ends(used as nat, 0);
    } else {
        lemma_layers(shape, flow, gemm, rows, used, store, (count - 1) as nat);
        let before = layers_actions(gemm, rows, used, store, (count - 1) as nat);
        let middle = run(shape, Some(flow), before)->0;
        let last = layer_actions(gemm, rows, used, (count - 1) as u32, store);
        lemma_layer(shape, middle, gemm, rows, used, (count - 1) as u32, store);
        lemma_filled_grows((count - 1) as nat, used as nat, 0);
        lemma_run_concat(shape, Some(flow), before, last);
    }
}

proof fn lemma_embedding(shape: Shape, flow: Flow, rows: u32, used: u32)
    requires
        shape == (Shape { rows: rows as int, used: used as int }),
        tiled(rows),
        used <= rows,
    ensures
        run(shape, Some(flow), embed_actions(rows, used)) == Some(
            Flow { hidden: true, clean: true, ..flow },
        ),
{
    let actions = embed_actions(rows, used);
    let embedded = Flow { hidden: true, clean: !shape.padded(), ..flow };
    lemma_run_none(shape, Some(flow), actions);
    lemma_embed_acts(shape, flow, rows);
    lemma_awaited_step(shape, Some(flow), actions, 0, flow, embedded);
    if used < rows {
        lemma_clear_acts(shape, embedded, rows, Buffer::Hidden, used);
        lemma_awaited_step(
            shape,
            Some(flow),
            actions,
            2,
            embedded,
            Flow { clean: true, ..embedded },
        );
    }
}

/// Every forward pass over whole tiles is sound: each launch covers its elements
/// and stays inside its buffers, no buffer is read before it is written, and the
/// hidden state is normalised only while its padding rows are zero. With `store`,
/// the caches of every layer hold the keys and values of all tokens in the end.
pub proof fn forward_plan_is_sound(gemm: Gemm, rows: u32, used: u32, store: bool)
    requires
        tiled(rows),
        used <= rows,
        gemm != Gemm::Packed,
        store ==> rows == CACHE_ROWS,
    ensures
        ({
            let shape = Shape { rows: rows as int, used: used as int };
            let end = run(shape, Some(untouched()), forward_actions(gemm, rows, used, store));
            &&& sound(shape, untouched(), forward_actions(gemm, rows, used, store))
            &&& end->0.normed
            &&& caches_hold(
                end->0,
                if store {
                    used as nat
                } else {
                    0
                },
            )
        }),
{
    let shape = Shape { rows: rows as int, used: used as int };
    let embedding = embed_actions(rows, used);
    let layers = layers_actions(gemm, rows, used, store, N_LAYERS as nat);
    let flow = Flow { hidden: true, clean: true, ..untouched() };
    lemma_embedding(shape, untouched(), rows, used);
    lemma_layers(shape, flow, gemm, rows, used, store, N_LAYERS as nat);
    lemma_run_concat(shape, Some(untouched()), embedding, layers);
    lemma_last_norm(shape, run(shape, Some(flow), layers)->0, rows);
    lemma_run_concat(shape, Some(untouched()), embedding + layers, last_norm_actions(rows));
    lemma_filled_ends(used as nat, 0);
}

proof fn lemma_cache_acts(shape: Shape, flow: Flow, layer: u32, position: u32)
    requires
        shape.rows == STEP_ROWS,
        layer < N_LAYERS,
        position < CACHE_ROWS,
        flow.heads,
    ensures
        forall|cache: Cache|
            cached(flow, cache, layer) == position ==> #[trigger] act(
                shape,
                flow,
                append_cache(cache, layer, position),
            ) == Some(append(flow, cache, layer)),
        act(shape, flow, gather_query()) == Some(Flow { query_row: true, ..flow }),
{
    reveal(fits);
    reveal(act);
    lemma_element_dims_cover(D_MODEL);
}

proof fn lemma_attend_caches_acts(shape: Shape, flow: Flow, layer: u32, position: u32)
    requires
        layer < N_LAYERS,
        position < CACHE_ROWS,
        flow.query_row,
        cached(flow, Cache::Keys, layer) > position,
        cached(flow, Cache::Values, layer) > position,
    ensures
        act(shape, flow, attend_caches(layer, position)) == Some(
            Flow { attended_row: true, ..flow },
        ),
{
    reveal(fits);
    reveal(act);
}

proof fn lemma_spread_acts(shape: Shape, flow: Flow)
    requires
        flow.concat_row,
    ensures
        act(shape, flow, Action::SpreadRow) == Some(Flow { concat: true, ..flow }),
{
    reveal(fits);
    reveal(act);
}

proof fn lemma_decode_attention(shape: Shape, flow: Flow, layer: u32, position: u32)
    requires
        shape == (Shape { rows: STEP_ROWS as int, used: 1 }),
        layer < N_LAYERS,
        position < CACHE_ROWS,
        settled(flow),
        flow.heads,
        flow.key_rows == filled(layer as nat, position as nat + 1, position as nat),
        flow.value_rows == flow.key_rows,
    ensures
        run(shape, Some(flow), decode_attention_actions(layer, position)) == Some(
            Flow {
                key_rows: filled(layer as nat + 1, position as nat + 1, position as nat),
                value_rows: filled(layer as nat + 1, position as nat + 1, position as nat),
                query_row: true,
                attended_row: true,
                concat_row: true,
                concat: true,
                projected: true,
                ..flow
            },
        ),
{
    let actions = decode_attention_actions(layer, position);
    let start = Some(flow);
    lemma_run_none(shape, start, actions);
    let appended = append(flow, Cache::Keys, layer);
    let both = append(appended, Cache::Values, layer);
    lemma_cache_acts(shape, flow, layer, position);
    lemma_step(shape, start, actions, 0, flow, appended);
    lemma_cache_acts(shape, appended, layer, position);
    lemma_awaited_step(shape, start, actions, 1, appended, both);
    lemma_filled_grows(layer as nat, position as nat + 1, position as nat);
    lemma_cache_acts(shape, both, layer, position);
    let f1 = Flow { query_row: true, ..both };
    lemma_awaited_step(shape, start, actions, 3, both, f1);
    lemma_attend_caches_acts(shape, f1, layer, position);
    let f2 = Flow { attended_row: true, ..f1 };
    lemma_awaited_step(shape, start, actions, 5, f1, f2);
    lemma_join_acts(shape, f2, 1, Buffer::AttendedRow, Buffer::ConcatRow);
    let f3 = Flow { concat_row: true, ..f2 };
    lemma_awaited_step(shape, start, actions, 7, f2, f3);
    lemma_clear_acts(shape, f3, STEP_ROWS, Buffer::Concat, 0);
    lemma_awaited_step(shape, start, actions, 9, f3, f3);
    lemma_spread_acts(shape, f3);
    let f4 = Flow { concat: true, ..f3 };
    lemma_step(shape, start, actions, 11, f3, f4);
    lemma_multiply_acts(
        shape,
        f4,
        Gemm::F32,
        STEP_ROWS,
        Buffer::Concat,
        layer,
        Part::Proj,
        Buffer::Projected,
        D_MODEL,
        D_MODEL,
    );
    let f5 = Flow { projected: true, ..f4 };
    lemma_awaited_step(shape, start, actions, 12, f4, f5);
    lemma_bias_acts(shape, f5, STEP_ROWS, Buffer::Projected, layer, Part::Proj, D_MODEL);
    lemma_awaited_step(shape, start, actions, 14, f5, f5);
    lemma_accumulate_acts(shape, f5, STEP_ROWS, Buffer::Projected);
    let f6 = Flow { clean: false, ..f5 };
    lemma_awaited_step(shape, start, actions, 16, f5, f6);
    lemma_clear_acts(shape, f6, STEP_ROWS, Buffer::Hidden, 1);
    lemma_awaited_step(shape, start, actions, 18, f6, Flow { clean: true, ..f6 });
}

/// The wait for the last residual of a token's layer, and the padding cleared.
spec fn decode_rest() -> Seq<Action> {
    seq![Action::Sync, clear(STEP_ROWS, Buffer::Hidden, 1), Action::Sync]
}

proof fn lemma_decode_rest(shape: Shape, flow: Flow)
    requires
        shape == (Shape { rows: STEP_ROWS as int, used: 1 }),
        flow.hidden,
    ensures
        run(shape, Some(flow), decode_rest()) == Some(Flow { clean: true, ..flow }),
{
    lemma_run_none(shape, Some(flow), decode_rest());
    lemma_sync_acts(shape, flow);
    lemma_step(shape, Some(flow), decode_rest(), 0, flow, flow);
    lemma_clear_acts(shape, flow, STEP_ROWS, Buffer::Hidden, 1);
    lemma_awaited_step(shape, Some(flow), decode_rest(), 1, flow, Flow { clean: true, ..flow });
}

proof fn lemma_decode_layer(shape: Shape, flow: Flow, layer: u32, position: u32)
    requires
        shape == (Shape { rows: STEP_ROWS as int, used: 1 }),
        layer < N_LAYERS,
        position < CACHE_ROWS,
        settled(flow),
        flow.key_rows == filled(layer as nat, position as nat + 1, position as nat),
        flow.value_rows == flow.key_rows,
    ensures
        ({
            let end = run(shape, Some(flow), decode_layer_actions(layer, position));
            &&& end is Some
            &&& settled(end->0)
            &&& end->0.key_rows == filled(layer as nat + 1, position as nat + 1, position as nat)
            &&& end->0.value_rows == end->0.key_rows
        }),
{
    let query = query_actions(Gemm::F32, STEP_ROWS, layer);
    let attention = decode_attention_actions(layer, position);
    let ffn = ffn_start_actions(Gemm::F32, STEP_ROWS, layer);
    let flow1 = Flow { normed: true, qkv: true, heads: true, ..flow };
    let flow2 = Flow {
        key_rows: filled(layer as nat + 1, position as nat + 1, position as nat),
        value_rows: filled(layer as nat + 1, position as nat + 1, position as nat),
        query_row: true,
        attended_row: true,
        concat_row: true,
        concat: true,
        projected: true,
        ..flow1
    };
    let flow3 = Flow {
        ffn_hidden: true,
        activated: true,
        ffn_out: true,
        clean: false,
        ..flow2
    };
    lemma_query(shape, flow, Gemm::F32, STEP_ROWS, layer);
    lemma_decode_attention(shape, flow1, layer, position);
    lemma_ffn_start(shape, flow2, Gemm::F32, STEP_ROWS, layer);
    lemma_decode_rest(shape, flow3);
    lemma_run_concat(shape, Some(flow), query, attention);
    lemma_run_concat(shape, Some(flow), query + attention, ffn);
    lemma_run_concat(shape, Some(flow), query + attention + ffn, decode_rest());
}

proof fn lemma_decode_layers(shape: Shape, flow: Flow, position: u32, count: nat)
    requires
        shape == (Shape { rows: STEP_ROWS as int, used: 1 }),
        position < CACHE_ROWS,
        settled(flow),
        caches_hold(flow, position as nat),
        count <= N_LAYERS,
    ensures
        ({
            let end = run(shape, Some(flow), decode_layers_actions(position, count));
            &&& end is Some
            &&& settled(end->0)
            &&& end->0.key_rows == filled(count, position as nat + 1, position as nat)
            &&& end->0.value_rows == end->0.key_rows
        }),
    decreases count,
{
    if count == 0 {
        lemma_run_none(shape, Some(flow), decode_layers_actions(position, 0));
        lemma_filled_ends(position as nat + 1, position as nat);
    } else {
        lemma_decode_layers(shape, flow, position, (count - 1) as nat);
        let before = decode_layers_actions(position, (count - 1) as nat);
        let middle = run(shape, Some(flow), before)->0;
        lemma_decode_layer(shape, middle, (count - 1) as u32, position);
        lemma_run_concat(
            shape,
            Some(flow),
            before,
            decode_layer_actions((count - 1) as u32, position),
        );
    }
}

/// The pass for one token is sound at every position of the caches, once the
/// token's embedding is in the first row of a hidden state that is zero elsewhere and
/// the caches hold every token before it. In the end they hold this token too.
pub proof fn decode_plan_is_sound(position: u32, flow: Flow)
    requires
        position < CACHE_ROWS,
        settled(flow),
        caches_hold(flow, position as nat),
    ensures
        ({
            let shape = Shape { rows: STEP_ROWS as int, used: 1 };
            let end = run(shape, Some(flow), decode_actions(position));
            &&& sound(shape, flow, decode_actions(position))
            &&& end->0.normed
            &&& caches_hold(end->0, position as nat + 1)
        }),
{
    let shape = Shape { rows: STEP_ROWS as int, used: 1 };
    lemma_decode_layers(shape, flow, position, N_LAYERS as nat);
    let layers = decode_layers_actions(position, N_LAYERS as nat);
    lemma_last_norm(shape, run(shape, Some(flow), layers)->0, STEP_ROWS);
    lemma_run_concat(shape, Some(flow), layers, last_norm_actions(STEP_ROWS));
    lemma_filled_ends(position as nat + 1, position as nat);
}

/// The rows of a pass of a cached generation.
pub open spec fn pass_shape(pass: Pass) -> Shape {
    match pass {
        Pass::Prefill { used } => Shape { rows: CACHE_ROWS as int, used: used as int },
        Pass::Decode { .. } => Shape { rows: STEP_ROWS as int, used: 1 },
    }
}

/// The actions of a pass of a cached generation.
pub open spec fn pass_actions(pass: Pass) -> Seq<Action> {
    match pass {
        Pass::Prefill { used } => forward_actions(Gemm::F32, CACHE_ROWS, used, true),
        Pass::Decode { position, .. } => decode_actions(position),
    }
}

/// What a pass may count on: the caches as the passes before it left them and,
/// where it decodes, the token's embedding in a hidden state that is zero elsewhere.
pub open spec fn pass_start(pass: Pass, key_rows: Seq<nat>, value_rows: Seq<nat>) -> Flow {
    let fresh = Flow { key_rows, value_rows, ..untouched() };
    match pass {
        Pass::Prefill { .. } => fresh,
        Pass::Decode { .. } => Flow { hidden: true, clean: true, ..fresh },
    }
}

/// The rows of keys and of values that a cached generation has in its caches after
/// the passes with the given outcomes; none if one of the passes is not sound.
pub open spec fn caches_after(start: Progress, outcomes: Seq<Outcome>) -> Option<
    (Seq<nat>, Seq<nat>),
>
    decreases outcomes.len(),
{
    if outcomes.len() == 0 {
        Some((level(0), level(0)))
    } else {
        let before = generate(start, outcomes.drop_last());
        match caches_after(start, outcomes.drop_last()) {
            None => None,
            Some((key_rows, value_rows)) => if unfinished(before) {
                let pass = due_pass(before);
                let begin = pass_start(pass, key_rows, value_rows);
                match run(pass_shape(pass), Some(begin), pass_actions(pass)) {
                    None => None,
                    Some(end) => Some((end.key_rows, end.value_rows)),
                }
            } else {
                Some((key_rows, value_rows))
            },
        }
    }
}

/// Every pass of a cached generation is sound, whatever the passes come to: the
/// token that is decoded finds all tokens before it in the caches of every layer.
pub proof fn cached_generation_is_sound(start: Progress, outcomes: Seq<Outcome>)
    requires
        start.generated.len() == 0,
        start.prompt.len() + start.limit <= CACHE_ROWS,
    ensures
        caches_after(start, outcomes) is Some,
        unfinished(generate(start, outcomes)) ==> caches_after(start, outcomes) == Some(
            match due_pass(generate(start, outcomes)) {
                Pass::Prefill { .. } => (level(0), level(0)),
                Pass::Decode { position, .. } => (level(position as nat), level(position as nat)),
            },
        ),
    decreases outcomes.len(),
{
    if outcomes.len() > 0 {
        let earlier = outcomes.drop_last();
        let before = generate(start, earlier);
        cached_generation_is_sound(start, earlier);
        generation_stays_in_bounds(start, earlier);
        if unfinished(before) {
            let rows = caches_after(start, earlier)->0;
            let pass = due_pass(before);
            match pass {
                Pass::Prefill { used } => {
                    assert(pass_start(pass, rows.0, rows.1) == untouched());
                    forward_plan_is_sound(Gemm::F32, CACHE_ROWS, used, true);
                },
                Pass::Decode { position, .. } => {
                    decode_plan_is_sound(position, pass_start(pass, rows.0, rows.1));
                },
            }
            match outcomes.last() {
                Outcome::Broken => {},
                Outcome::Token(token) => {
                    if token != END_OF_TEXT {
                        decoding_continues_the_caches(before, token);
                    }
                },
            }
        }
    }
}

proof fn lemma_packed_ffn(
    shape: Shape,
    flow: Flow,
    rows: u32,
    input: Buffer,
    input_packed: Buffer,
    layer: u32,
)
    requires
        shape.rows == rows,
        tiled(rows),
        written(flow, input),
        input == Buffer::Input && input_packed == Buffer::InputPacked || input == Buffer::Normed
            && input_packed == Buffer::NormedPacked,
    ensures
        run(shape, Some(flow), packed_ffn_actions(rows, input, input_packed, layer)) == Some(
            Flow {
                packed: Some(Buffer::ActivatedPacked),
                ffn_hidden: true,
                activated: true,
                ffn_out: true,
                ..flow
            },
        ),
{
    let actions = packed_ffn_actions(rows, input, input_packed, layer);
    let start = Some(flow);
    lemma_run_none(shape, start, actions);
    lemma_pack_acts(shape, flow, (rows * D_MODEL / 2) as u32, input, input_packed);
    let f1 = Flow { packed: Some(input_packed), ..flow };
    lemma_awaited_step(shape, start, actions, 0, flow, f1);
    lemma_multiply_acts(
        shape,
        f1,
        Gemm::Packed,
        rows,
        input_packed,
        layer,
        Part::Fc,
        Buffer::FfnHidden,
        D_MODEL,
        D_FFN,
    );
    let f2 = Flow { ffn_hidden: true, ..f1 };
    lemma_awaited_step(shape, start, actions, 2, f1, f2);
    lemma_bias_acts(shape, f2, rows, Buffer::FfnHidden, layer, Part::Fc, D_FFN);
    lemma_awaited_step(shape, start, actions, 4, f2, f2);
    lemma_activate_acts(shape, f2, rows);
    let f3 = Flow { activated: true, ..f2 };
    lemma_awaited_step(shape, start, actions, 6, f2, f3);
    lemma_pack_acts(
        shape,
        f3,
        (rows * D_FFN / 2) as u32,
        Buffer::Activated,
        Buffer::ActivatedPacked,
    );
    let f4 = Flow { packed: Some(Buffer::ActivatedPacked), ..f3 };
    lemma_awaited_step(shape, start, actions, 8, f3, f4);
    lemma_multiply_acts(
        shape,
        f4,
        Gemm::Packed,
        rows,
        Buffer::ActivatedPacked,
        layer,
        Part::FcProj,
        Buffer::FfnOut,
        D_FFN,
        D_MODEL,
    );
    let f5 = Flow { ffn_out: true, ..f4 };
    lemma_awaited_step(shape, start, actions, 10, f4, f5);
    lemma_bias_acts(shape, f5, rows, Buffer::FfnOut, layer, Part::FcProj, D_MODEL);
    lemma_awaited_step(shape, start, actions, 12, f5, f5);
}

/// The packed feed-forward network is sound once its input is there.
pub proof fn packed_ffn_plan_is_sound(rows: u32)
    requires
        tiled(rows),
    ensures
        sound(
            Shape { rows: rows as int, used: rows as int },
            Flow { input: true, ..untouched() },
            packed_ffn_actions(rows, Buffer::Input, Buffer::InputPacked, 0),
        ),
{
    let shape = Shape { rows: rows as int, used: rows as int };
    lemma_packed_ffn(
        shape,
        Flow { input: true, ..untouched() },
        rows,
        Buffer::Input,
        Buffer::InputPacked,
        0,
    );
}

proof fn lemma_packed_attention(shape: Shape, flow: Flow, rows: u32, layer: u32)
    requires
        shape == (Shape { rows: rows as int, used: rows as int }),
        tiled(rows),
        flow.input,
        settled(flow),
    ensures
        run(shape, Some(flow), packed_attention_actions(rows, layer)) == Some(
            Flow {
                normed: true,
                packed: Some(Buffer::ConcatPacked),
                qkv: true,
                heads: true,
                attended: true,
                concat: true,
                projected: true,
                ..flow
            },
        ),
{
    let actions = packed_attention_actions(rows, layer);
    let start = Some(flow);
    let pairs = (rows * D_MODEL / 2) as u32;
    lemma_run_none(shape, start, actions);
    lemma_normalize_acts(shape, flow, rows, Buffer::Input, Norm::BeforeAttention { layer });
    let f1 = Flow { normed: true, ..flow };
    lemma_awaited_step(shape, start, actions, 0, flow, f1);
    lemma_pack_acts(shape, f1, pairs, Buffer::Normed, Buffer::NormedPacked);
    let f2 = Flow { packed: Some(Buffer::NormedPacked), ..f1 };
    lemma_awaited_step(shape, start, actions, 2, f1, f2);
    lemma_multiply_acts(
        shape,
        f2,
        Gemm::Packed,
        rows,
        Buffer::NormedPacked,
        layer,
        Part::Qkv,
        Buffer::Qkv,
        D_MODEL,
        D_QKV,
    );
    let f3 = Flow { qkv: true, ..f2 };
    lemma_awaited_step(shape, start, actions, 4, f2, f3);
    lemma_bias_acts(shape, f3, rows, Buffer::Qkv, layer, Part::Qkv, D_QKV);
    lemma_awaited_step(shape, start, actions, 6, f3, f3);
    lemma_split_acts(shape, f3, rows);
    let f4 = Flow { heads: true, ..f3 };
    lemma_awaited_step(shape, start, actions, 8, f3, f4);
    lemma_attend_acts(shape, f4, rows);
    let f5 = Flow { attended: true, ..f4 };
    lemma_awaited_step(shape, start, actions, 10, f4, f5);
    lemma_join_acts(shape, f5, rows, Buffer::Attended, Buffer::Concat);
    let f6 = Flow { concat: true, ..f5 };
    lemma_awaited_step(shape, start, actions, 12, f5, f6);
    lemma_pack_acts(shape, f6, pairs, Buffer::Concat, Buffer::ConcatPacked);
    let f7 = Flow { packed: Some(Buffer::ConcatPacked), ..f6 };
    lemma_awaited_step(shape, start, actions, 14, f6, f7);
    lemma_multiply_acts(
        shape,
        f7,
        Gemm::Packed,
        rows,
        Buffer::ConcatPacked,
        layer,
        Part::Proj,
        Buffer::Projected,
        D_MODEL,
        D_MODEL,
    );
    let f8 = Flow { projected: true, ..f7 };
    lemma_awaited_step(shape, start, actions, 16, f7, f8);
    lemma_bias_acts(shape, f8, rows, Buffer::Projected, layer, Part::Proj, D_MODEL);
    lemma_awaited_step(shape, start, actions, 18, f8, f8);
    lemma_accumulate_acts(shape, f8, rows, Buffer::Projected);
    lemma_awaited_step(shape, start, actions, 20, f8, f8);
}

/// The normalisation between the two halves of a packed layer.
spec fn packed_norm(rows: u32) -> Seq<Action> {
    seq![normalize(rows, Buffer::Hidden, Norm::BeforeFfn { layer: 0 }), Action::Sync]
}

/// The last residual of a packed layer.
spec fn packed_rest(rows: u32) -> Seq<Action> {
    seq![accumulate(rows, Buffer::FfnOut), Action::Sync]
}

proof fn lemma_packed_joints(shape: Shape, flow: Flow, rows: u32)
    requires
        shape == (Shape { rows: rows as int, used: rows as int }),
        tiled(rows),
        settled(flow),
    ensures
        run(shape, Some(flow), packed_norm(rows)) == Some(Flow { normed: true, ..flow }),
        flow.ffn_out ==> run(shape, Some(flow), packed_rest(rows)) == Some(flow),
{
    lemma_run_none(shape, Some(flow), packed_norm(rows));
    lemma_normalize_acts(shape, flow, rows, Buffer::Hidden, Norm::BeforeFfn { layer: 0 });
    lemma_awaited_step(
        shape,
        Some(flow),
        packed_norm(rows),
        0,
        flow,
        Flow { normed: true, ..flow },
    );
    if flow.ffn_out {
        lemma_run_none(shape, Some(flow), packed_rest(rows));
        lemma_accumulate_acts(shape, flow, rows, Buffer::FfnOut);
        lemma_awaited_step(shape, Some(flow), packed_rest(rows), 0, flow, flow);
    }
}

/// The packed layer is sound once its input is there and copied into the residual.
pub proof fn packed_layer_plan_is_sound(rows: u32)
    requires
        tiled(rows),
    ensures
        sound(
            Shape { rows: rows as int, used: rows as int },
            Flow { input: true, hidden: true, clean: true, ..untouched() },
            packed_layer_actions(rows, 0),
        ),
{
    let shape = Shape { rows: rows as int, used: rows as int };
    let flow = Flow { input: true, hidden: true, clean: true, ..untouched() };
    let attention = packed_attention_actions(rows, 0);
    let ffn = packed_ffn_actions(rows, Buffer::Normed, Buffer::NormedPacked, 0);
    let flow1 = Flow {
        normed: true,
        packed: Some(Buffer::ConcatPacked),
        qkv: true,
        heads: true,
        attended: true,
        concat: true,
        projected: true,
        ..flow
    };
    let flow2 = Flow {
        packed: Some(Buffer::ActivatedPacked),
        ffn_hidden: true,
        activated: true,
        ffn_out: true,
        ..flow1
    };
    lemma_packed_attention(shape, flow, rows, 0);
    lemma_packed_joints(shape, flow1, rows);
    lemma_packed_ffn(shape, flow1, rows, Buffer::Normed, Buffer::NormedPacked, 0);
    lemma_packed_joints(shape, flow2, rows);
    lemma_run_concat(shape, Some(flow), attention, packed_norm(rows));
    lemma_run_concat(shape, Some(flow), attention + packed_norm(rows), ffn);
    lemma_run_concat(
        shape,
        Some(flow),
        attention + packed_norm(rows) + ffn,
        packed_rest(rows),
    );
}

/// Whether an action launches a kernel.
pub open spec fn launches(action: Action) -> bool {
    !(action is Sync || action is StoreCaches || action is SpreadRow)
}

/// Whether the host waits behind the action at place `i`, or launches at once only what
/// belongs to it: the padding that a residual is cleared of, and the values that go into
/// the caches with their keys.
pub open spec fn is_awaited(actions: Seq<Action>, i: int) -> bool {
    i + 1 < actions.len() && {
        ||| actions[i + 1] is Sync
        ||| (actions[i] matches Action::Accumulate { target, .. } && actions[i + 1] matches
            Action::Clear { target: cleared, .. } && target == cleared)
        ||| (actions[i] matches Action::AppendCache { cache: Cache::Keys, layer, position, .. }
            && actions[i + 1] matches Action::AppendCache {
            cache: Cache::Values,
            layer: same_layer,
            position: same_position,
            ..
        } && layer == same_layer && position == same_position)
    }
}

/// Whether the host waits for every launch before it goes on.
pub open spec fn all_awaited(actions: Seq<Action>) -> bool {
    forall|i: int|
        0 <= i < actions.len() && launches(#[trigger] actions[i]) ==> is_awaited(actions, i)
}

proof fn lemma_awaited_behind(first: Seq<Action>, second: Seq<Action>)
    requires
        all_awaited(first),
        all_awaited(second),
    ensures
        all_awaited(first + second),
{
    let both = first + second;
    assert forall|i: int|
        0 <= i < both.len() && launches(#[trigger] both[i]) implies is_awaited(both, i) by {
        if i < first.len() {
            assert(both[i] == first[i]);
            assert(is_awaited(first, i));
            assert(both[i + 1] == first[i + 1]);
        } else {
            let k = i - first.len();
            assert(both[i] == second[k]);
            assert(is_awaited(second, k));
            assert(both[i + 1] == second[k + 1]);
        }
    }
}

proof fn lemma_layer_awaited(gemm: Gemm, rows: u32, used: u32, layer: u32, store: bool)
    ensures
        all_awaited(layer_actions(gemm, rows, used, layer, store)),
{
    let query = query_actions(gemm, rows, layer);
    let stored = if store {
        seq![Action::StoreCaches { layer }]
    } else {
        Seq::empty()
    };
    let attend = attention_actions(gemm, rows, used, layer);
    let ffn = ffn_actions(gemm, rows, used, layer);
    assert(all_awaited(query));
    assert(all_awaited(stored));
    assert(all_awaited(attend)) by {
        if used < rows {
            assert(clear_padding(rows, used).len() == 1);
        } else {
            assert(clear_padding(rows, used).len() == 0);
        }
    }
    assert(all_awaited(ffn)) by {
        if used < rows {
            assert(clear_padding(rows, used).len() == 1);
        } else {
            assert(clear_padding(rows, used).len() == 0);
        }
    }
    lemma_awaited_behind(query, stored);
    lemma_awaited_behind(query + stored, attend);
    lemma_awaited_behind(query + stored + attend, ffn);
}

proof fn lemma_layers_awaited(gemm: Gemm, rows: u32, used: u32, store: bool, count: nat)
    ensures
        all_awaited(layers_actions(gemm, rows, used, store, count)),
    decreases count,
{
    if count > 0 {
        let fewer = (count - 1) as nat;
        lemma_layers_awaited(gemm, rows, used, store, fewer);
        lemma_layer_awaited(gemm, rows, used, fewer as u32, store);
        lemma_awaited_behind(
            layers_actions(gemm, rows, used, store, fewer),
            layer_actions(gemm, rows, used, fewer as u32, store),
        );
    }
}

/// In a full pass the host waits for every launch before the next step reads what it
/// wrote.
pub proof fn forward_plan_waits(gemm: Gemm, rows: u32, used: u32, store: bool)
    ensures
        all_awaited(forward_actions(gemm, rows, used, store)),
{
    let embed = embed_actions(rows, used);
    let layers = layers_actions(gemm, rows, used, store, N_LAYERS as nat);
    let last = last_norm_actions(rows);
    assert(all_awaited(embed));
    assert(all_awaited(last));
    lemma_layers_awaited(gemm, rows, used, store, N_LAYERS as nat);
    lemma_awaited_behind(embed, layers);
    lemma_awaited_behind(embed + layers, last);
}

proof fn lemma_decode_layers_awaited(position: u32, count: nat)
    ensures
        all_awaited(decode_layers_actions(position, count)),
    decreases count,
{
    if count > 0 {
        let fewer = (count - 1) as nat;
        let layer = fewer as u32;
        lemma_decode_layers_awaited(position, fewer);
        let query = query_actions(Gemm::F32, STEP_ROWS, layer);
        let attend = decode_attention_actions(layer, position);
        let end = seq![Action::Sync, clear(STEP_ROWS, Buffer::Hidden, 1), Action::Sync];
        let ffn = ffn_start_actions(Gemm::F32, STEP_ROWS, layer) + end;
        assert(all_awaited(query));
        assert(all_awaited(attend));
        assert(all_awaited(ffn));
        lemma_awaited_behind(query, attend);
        lemma_awaited_behind(query + attend, ffn);
        assert(decode_layer_actions(layer, position) =~= query + attend + ffn);
        lemma_awaited_behind(
            decode_layers_actions(position, fewer),
            decode_layer_actions(layer, position),
        );
    }
}

/// So it does in the pass for one token.
pub proof fn decode_plan_waits(position: u32)
    ensures
        all_awaited(decode_actions(position)),
{
    let last = last_norm_actions(STEP_ROWS);
    assert(all_awaited(last));
    lemma_decode_layers_awaited(position, N_LAYERS as nat);
    lemma_awaited_behind(decode_layers_actions(position, N_LAYERS as nat), last);
}

/// So it does in the packed plans.
pub proof fn packed_plans_wait(rows: u32, input: Buffer, input_packed: Buffer, layer: u32)
    ensures
        all_awaited(packed_ffn_actions(rows, input, input_packed, layer)),
        all_awaited(packed_layer_actions(rows, layer)),
{
    assert forall|i: Buffer, p: Buffer| #[trigger]
        all_awaited(packed_ffn_actions(rows, i, p, layer)) by {}
    let attend = packed_attention_actions(rows, layer);
    let norm = seq![normalize(rows, Buffer::Hidden, Norm::BeforeFfn { layer }), Action::Sync];
    let ffn = packed_ffn_actions(rows, Buffer::Normed, Buffer::NormedPacked, layer);
    let end = seq![accumulate(rows, Buffer::FfnOut), Action::Sync];
    assert(all_awaited(attend));
    assert(all_awaited(norm));
    assert(all_awaited(ffn));
    assert(all_awaited(end));
    lemma_awaited_behind(attend, norm);
    lemma_awaited_behind(attend + norm, ffn);
    lemma_awaited_behind(attend + norm + ffn, end);
}

} // verus!
