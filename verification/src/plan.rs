//! Plans of transformer passes on the device.
//!
//! A pass is a sequence of kernel launches over named buffers. A plan lists the
//! launches with their geometry and arguments; the host works it off one action
//! after the other. The model is GPT-2 small: twelve layers of width 768 with
//! twelve heads.
use vstd::prelude::*;
use crate::launch::{
    attention_dims, attention_launch, element_dims, element_launch,
    head_dims, head_launch, row_dims, row_launch, tile_dims, tile_launch, Dims, D_HEAD,
};

verus! {

/// Width of the model.
pub const D_MODEL: u32 = 768;

/// Attention heads.
pub const N_HEADS: u32 = 12;

/// Width of the hidden layer of the feed-forward network.
pub const D_FFN: u32 = 3072;

/// Width of queries, keys and values side by side.
pub const D_QKV: u32 = 2304;

/// Transformer layers.
pub const N_LAYERS: u32 = 12;

/// Rows of the key and value caches, and of a full pass of the generation.
pub const CACHE_ROWS: u32 = 128;

/// Rows of a pass for one token: the least that the matrix products take.
pub const STEP_ROWS: u32 = 32;

/// The most rows for which every element count fits a kernel argument.
pub const MAX_ROWS: u32 = 1_398_101;

/// The matrix product kernels.
#[derive(Clone, Copy, PartialEq, Eq, Structural, Debug)]
pub enum Gemm {
    /// Single precision throughout.
    F32,
    /// Single-precision operands, cut to bfloat16 on the way.
    Bf16,
    /// Single-precision operands, cut to TF32 on the way.
    Tf32,
    /// Single-precision activations and packed half-precision weights.
    F32In,
    /// Packed half-precision operands.
    Packed,
}

/// The attention kernels for a full sequence.
#[derive(Clone, Copy, PartialEq, Eq, Structural, Debug)]
pub enum Attention {
    /// Tiled, with a running softmax.
    Flash,
    /// One warp per head.
    PerHead,
}

/// The device buffers of a pass.
#[derive(Clone, Copy, PartialEq, Eq, Structural, Debug)]
pub enum Buffer {
    Input,
    InputPacked,
    Hidden,
    Normed,
    NormedPacked,
    Qkv,
    Queries,
    Keys,
    Values,
    Attended,
    Concat,
    ConcatPacked,
    Projected,
    FfnHidden,
    Activated,
    ActivatedPacked,
    FfnOut,
    QueryRow,
    AttendedRow,
    ConcatRow,
}

/// The four linear maps of a layer.
#[derive(Clone, Copy, PartialEq, Eq, Structural, Debug)]
pub enum Part {
    Qkv,
    Proj,
    Fc,
    FcProj,
}

/// The normalisations of the model.
#[derive(Clone, Copy, PartialEq, Eq, Structural, Debug)]
pub enum Norm {
    BeforeAttention { layer: u32 },
    BeforeFfn { layer: u32 },
    Last,
}

/// Which of the two caches an append goes to.
#[derive(Clone, Copy, PartialEq, Eq, Structural, Debug)]
pub enum Cache {
    Keys,
    Values,
}

/// One step of a plan: a kernel launch, a transfer, or a synchronisation.
#[derive(Clone, Copy, PartialEq, Eq, Structural, Debug)]
pub enum Action {
    /// Token and position embeddings into `Hidden`.
    Embed { dims: Dims, rows: u32, width: u32 },
    /// Layer normalisation.
    Normalize { dims: Dims, input: Buffer, output: Buffer, norm: Norm, width: u32 },
    /// Single precision to packed half precision.
    Pack { dims: Dims, input: Buffer, output: Buffer, pairs: u32 },
    /// Matrix product with a weight of a layer.
    Multiply {
        dims: Dims,
        kernel: Gemm,
        input: Buffer,
        layer: u32,
        part: Part,
        output: Buffer,
        depth: u32,
        columns: u32,
    },
    /// The bias of a linear map, added in place.
    AddBias { dims: Dims, data: Buffer, layer: u32, part: Part, width: u32, total: u32 },
    /// `Qkv` into `Queries`, `Keys` and `Values`, head by head.
    SplitHeads { dims: Dims, rows: u32, heads: u32, head_width: u32 },
    /// Attention over a full sequence.
    Attend { dims: Dims, method: Attention, rows: u32, head_width: u32, causal: u32 },
    /// The heads side by side again.
    JoinHeads {
        dims: Dims,
        input: Buffer,
        output: Buffer,
        rows: u32,
        heads: u32,
        head_width: u32,
    },
    /// The activation of the feed-forward network.
    Activate { dims: Dims, total: u32 },
    /// `source` added to `target` in place.
    Accumulate { dims: Dims, target: Buffer, source: Buffer, total: u32 },
    /// Zeros from `start` up to `end`.
    Clear { dims: Dims, target: Buffer, start: u32, end: u32 },
    /// `Keys` and `Values` copied into the caches of a layer.
    StoreCaches { layer: u32 },
    /// The first row of `Keys` or `Values` into a row of a cache.
    AppendCache {
        dims: Dims,
        cache: Cache,
        layer: u32,
        heads: u32,
        source_rows: u32,
        cache_rows: u32,
        head_width: u32,
        position: u32,
    },
    /// The first row of `Queries` into a fresh `QueryRow`.
    GatherQuery {
        dims: Dims,
        heads: u32,
        source_rows: u32,
        target_rows: u32,
        head_width: u32,
        position: u32,
    },
    /// Attention of one query over the caches of a layer.
    AttendCaches {
        dims: Dims,
        layer: u32,
        queries: u32,
        keys: u32,
        head_width: u32,
        causal: u32,
        offset: u32,
        cache_rows: u32,
    },
    /// `ConcatRow` into the first row of `Concat`, the other rows zero.
    SpreadRow,
    /// Waits for the device.
    Sync,
}

/// What a kernel of the matrix products takes as its depth argument: single
/// precision counts elements, the others tiles of sixteen or eight.
pub open spec fn depth_tile(gemm: Gemm) -> u32 {
    match gemm {
        Gemm::F32 => 1,
        Gemm::Tf32 => 8,
        Gemm::Bf16 => 16,
        Gemm::F32In => 16,
        Gemm::Packed => 16,
    }
}

/// Dynamic shared memory of a matrix product: two tiles of operands.
pub open spec fn gemm_shared(gemm: Gemm) -> u32 {
    match gemm {
        Gemm::F32 => 3072,
        _ => 1536,
    }
}

/// Number of elements of a buffer for a pass over `rows` rows. Packed buffers hold
/// two numbers per element.
pub open spec fn buffer_size(rows: int, buffer: Buffer) -> int {
    match buffer {
        Buffer::Input => rows * D_MODEL,
        Buffer::InputPacked => rows * 384,
        Buffer::Hidden => rows * D_MODEL,
        Buffer::Normed => rows * D_MODEL,
        Buffer::NormedPacked => rows * 384,
        Buffer::Qkv => rows * D_QKV,
        Buffer::Queries => rows * D_MODEL,
        Buffer::Keys => rows * D_MODEL,
        Buffer::Values => rows * D_MODEL,
        Buffer::Attended => rows * D_MODEL,
        Buffer::Concat => rows * D_MODEL,
        Buffer::ConcatPacked => rows * 384,
        Buffer::Projected => rows * D_MODEL,
        Buffer::FfnHidden => rows * D_FFN,
        Buffer::Activated => rows * D_FFN,
        Buffer::ActivatedPacked => rows * 1536,
        Buffer::FfnOut => rows * D_MODEL,
        Buffer::QueryRow => D_MODEL as int,
        Buffer::AttendedRow => D_MODEL as int,
        Buffer::ConcatRow => D_MODEL as int,
    }
}

/// How many elements to allocate for a buffer.
pub fn buffer_len(rows: u32, buffer: Buffer) -> (len: usize)
    requires
        rows <= MAX_ROWS,
    ensures
        len == buffer_size(rows as int, buffer),
{
    let len: u32 = match buffer {
        Buffer::Input | Buffer::Hidden | Buffer::Normed | Buffer::Queries | Buffer::Keys
        | Buffer::Values | Buffer::Attended | Buffer::Concat | Buffer::Projected
        | Buffer::FfnOut => rows * D_MODEL,
        Buffer::InputPacked | Buffer::NormedPacked | Buffer::ConcatPacked => rows * D_MODEL / 2,
        Buffer::Qkv => rows * D_QKV,
        Buffer::FfnHidden | Buffer::Activated => rows * D_FFN,
        Buffer::ActivatedPacked => rows * D_FFN / 2,
        Buffer::QueryRow | Buffer::AttendedRow | Buffer::ConcatRow => D_MODEL,
    };
    len as usize
}

/// The symbol of a matrix product kernel.
pub open spec fn gemm_symbol(gemm: Gemm) -> Seq<char> {
    match gemm {
        Gemm::F32 => "gemm_f32"@,
        Gemm::Bf16 => "full_gemm_bf16"@,
        Gemm::Tf32 => "full_gemm_tf32"@,
        Gemm::F32In => "full_gemm_f32in"@,
        Gemm::Packed => "full_gemm"@,
    }
}

impl Gemm {
    /// The symbol of the kernel in the compute module.
    pub fn symbol(self) -> (name: &'static str)
        ensures
            name@ == gemm_symbol(self),
    {
        match self {
            Gemm::F32 => "gemm_f32",
            Gemm::Bf16 => "full_gemm_bf16",
            Gemm::Tf32 => "full_gemm_tf32",
            Gemm::F32In => "full_gemm_f32in",
            Gemm::Packed => "full_gemm",
        }
    }
}

/// The symbol of the kernel that an action launches, if it launches one.
pub open spec fn action_symbol(action: Action) -> Option<Seq<char>> {
    match action {
        Action::Embed { .. } => Some("embedding_lookup"@),
        Action::Normalize { .. } => Some("layer_norm"@),
        Action::Pack { .. } => Some("f32_to_f16x2_pack"@),
        Action::Multiply { kernel, .. } => Some(gemm_symbol(kernel)),
        Action::AddBias { .. } => Some("bias_add"@),
        Action::SplitHeads { .. } => Some("split_qkv"@),
        Action::Attend { method: Attention::Flash, .. } => Some("flash_attention"@),
        Action::Attend { method: Attention::PerHead, .. } => Some("attention_head"@),
        Action::JoinHeads { .. } => Some("concat_heads"@),
        Action::Activate { .. } => Some("gelu_forward"@),
        Action::Accumulate { .. } => Some("elementwise_add"@),
        Action::Clear { .. } => Some("zero_pad"@),
        Action::StoreCaches { .. } => None,
        Action::AppendCache { .. } => Some("kv_cache_append"@),
        Action::GatherQuery { .. } => Some("kv_cache_append"@),
        Action::AttendCaches { .. } => Some("flash_attention_kv"@),
        Action::SpreadRow => None,
        Action::Sync => None,
    }
}

impl Action {
    /// The symbol of the kernel to launch, if this is a launch.
    pub fn symbol(&self) -> (name: Option<&'static str>)
        ensures
            name is Some <==> action_symbol(*self) is Some,
            name matches Some(n) ==> n@ == action_symbol(*self)->0,
    {
        match self {
            Action::Embed { .. } => Some("embedding_lookup"),
            Action::Normalize { .. } => Some("layer_norm"),
            Action::Pack { .. } => Some("f32_to_f16x2_pack"),
            Action::Multiply { kernel, .. } => Some(kernel.symbol()),
            Action::AddBias { .. } => Some("bias_add"),
            Action::SplitHeads { .. } => Some("split_qkv"),
            Action::Attend { method, .. } => match method {
                Attention::Flash => Some("flash_attention"),
                Attention::PerHead => Some("attention_head"),
            },
            Action::JoinHeads { .. } => Some("concat_heads"),
            Action::Activate { .. } => Some("gelu_forward"),
            Action::Accumulate { .. } => Some("elementwise_add"),
            Action::Clear { .. } => Some("zero_pad"),
            Action::StoreCaches { .. } => None,
            Action::AppendCache { .. } => Some("kv_cache_append"),
            Action::GatherQuery { .. } => Some("kv_cache_append"),
            Action::AttendCaches { .. } => Some("flash_attention_kv"),
            Action::SpreadRow => None,
            Action::Sync => None,
        }
    }
}

/// Layer normalisation of every row.
pub open spec fn normalize(rows: u32, input: Buffer, norm: Norm) -> Action {
    Action::Normalize { dims: row_dims(rows), input, output: Buffer::Normed, norm, width: D_MODEL }
}

/// A buffer of `pairs` pairs packed.
pub open spec fn pack(pairs: u32, input: Buffer, output: Buffer) -> Action {
    Action::Pack { dims: element_dims(pairs), input, output, pairs }
}

/// The product of `input` (`inner` columns) with a weight of `columns` columns.
pub open spec fn multiply(
    gemm: Gemm,
    rows: u32,
    input: Buffer,
    layer: u32,
    part: Part,
    output: Buffer,
    inner: u32,
    columns: u32,
) -> Action {
    Action::Multiply {
        dims: tile_dims(rows, columns, gemm_shared(gemm)),
        kernel: gemm,
        input,
        layer,
        part,
        output,
        depth: inner / depth_tile(gemm),
        columns,
    }
}

/// The bias of a linear map onto every row of `data`.
pub open spec fn add_bias(rows: u32, data: Buffer, layer: u32, part: Part, width: u32) -> Action {
    let total = (rows * width) as u32;
    Action::AddBias { dims: element_dims(total), data, layer, part, width, total }
}

/// Queries, keys and values taken apart.
pub open spec fn split_heads(rows: u32) -> Action {
    Action::SplitHeads {
        dims: element_dims((rows * D_MODEL) as u32),
        rows,
        heads: N_HEADS,
        head_width: D_HEAD,
    }
}

/// Causal attention of every row.
pub open spec fn attend_causally(rows: u32) -> Action {
    Action::Attend {
        dims: attention_dims(N_HEADS, rows),
        method: Attention::Flash,
        rows,
        head_width: D_HEAD,
        causal: 1,
    }
}

/// Attention of every row to every row.
pub open spec fn attend_freely(rows: u32) -> Action {
    Action::Attend {
        dims: head_dims(N_HEADS, rows),
        method: Attention::PerHead,
        rows,
        head_width: D_HEAD,
        causal: 0,
    }
}

/// The heads of `rows` rows side by side.
pub open spec fn join_heads(rows: u32, input: Buffer, output: Buffer) -> Action {
    Action::JoinHeads {
        dims: element_dims((rows * D_MODEL) as u32),
        input,
        output,
        rows,
        heads: N_HEADS,
        head_width: D_HEAD,
    }
}

/// The activation of every element.
pub open spec fn activate(rows: u32) -> Action {
    let total = (rows * D_FFN) as u32;
    Action::Activate { dims: element_dims(total), total }
}

/// A residual onto the hidden state.
pub open spec fn accumulate(rows: u32, source: Buffer) -> Action {
    let total = (rows * D_MODEL) as u32;
    Action::Accumulate { dims: element_dims(total), target: Buffer::Hidden, source, total }
}

/// The rows from `from` on set to zero.
pub open spec fn clear(rows: u32, target: Buffer, from: u32) -> Action {
    let start = (from * D_MODEL) as u32;
    let end = (rows * D_MODEL) as u32;
    Action::Clear { dims: element_dims((end - start) as u32), target, start, end }
}

/// The rows behind the `used` ones set to zero, if there are any.
pub open spec fn clear_padding(rows: u32, used: u32) -> Seq<Action> {
    if used < rows {
        seq![clear(rows, Buffer::Hidden, used)]
    } else {
        Seq::empty()
    }
}

/// Embeddings of all rows, with the padding cleared.
pub open spec fn embed_actions(rows: u32, used: u32) -> Seq<Action> {
    let total = (rows * D_MODEL) as u32;
    seq![Action::Embed { dims: element_dims(total), rows, width: D_MODEL }, Action::Sync] + if used
        < rows {
        seq![clear(rows, Buffer::Hidden, used), Action::Sync]
    } else {
        Seq::empty()
    }
}

/// From the hidden state to queries, keys and values.
pub open spec fn query_actions(gemm: Gemm, rows: u32, layer: u32) -> Seq<Action> {
    seq![
        normalize(rows, Buffer::Hidden, Norm::BeforeAttention { layer }),
        Action::Sync,
        multiply(gemm, rows, Buffer::Normed, layer, Part::Qkv, Buffer::Qkv, D_MODEL, D_QKV),
        Action::Sync,
        add_bias(rows, Buffer::Qkv, layer, Part::Qkv, D_QKV),
        Action::Sync,
        split_heads(rows),
        Action::Sync,
    ]
}

/// Attention, the output projection and its residual.
pub open spec fn attention_actions(gemm: Gemm, rows: u32, used: u32, layer: u32) -> Seq<Action> {
    seq![
        attend_causally(rows),
        Action::Sync,
        join_heads(rows, Buffer::Attended, Buffer::Concat),
        Action::Sync,
        multiply(gemm, rows, Buffer::Concat, layer, Part::Proj, Buffer::Projected, D_MODEL, D_MODEL),
        Action::Sync,
        add_bias(rows, Buffer::Projected, layer, Part::Proj, D_MODEL),
        Action::Sync,
        accumulate(rows, Buffer::Projected),
    ] + clear_padding(rows, used) + seq![Action::Sync]
}

/// The feed-forward network up to its residual.
pub open spec fn ffn_start_actions(gemm: Gemm, rows: u32, layer: u32) -> Seq<Action> {
    seq![
        normalize(rows, Buffer::Hidden, Norm::BeforeFfn { layer }),
        Action::Sync,
        multiply(gemm, rows, Buffer::Normed, layer, Part::Fc, Buffer::FfnHidden, D_MODEL, D_FFN),
        Action::Sync,
        add_bias(rows, Buffer::FfnHidden, layer, Part::Fc, D_FFN),
        Action::Sync,
        activate(rows),
        Action::Sync,
        multiply(
            gemm,
            rows,
            Buffer::Activated,
            layer,
            Part::FcProj,
            Buffer::FfnOut,
            D_FFN,
            D_MODEL,
        ),
        Action::Sync,
        add_bias(rows, Buffer::FfnOut, layer, Part::FcProj, D_MODEL),
        Action::Sync,
        accumulate(rows, Buffer::FfnOut),
    ]
}

/// The feed-forward network and its residual.
pub open spec fn ffn_actions(gemm: Gemm, rows: u32, used: u32, layer: u32) -> Seq<Action> {
    ffn_start_actions(gemm, rows, layer) + clear_padding(rows, used) + seq![Action::Sync]
}

/// One layer over the whole sequence. With `store`, its keys and values go into
/// the caches.
pub open spec fn layer_actions(
    gemm: Gemm,
    rows: u32,
    used: u32,
    layer: u32,
    store: bool,
) -> Seq<Action> {
    query_actions(gemm, rows, layer) + (if store {
        seq![Action::StoreCaches { layer }]
    } else {
        Seq::empty()
    }) + attention_actions(gemm, rows, used, layer) + ffn_actions(gemm, rows, used, layer)
}

/// The first `count` layers.
pub open spec fn layers_actions(
    gemm: Gemm,
    rows: u32,
    used: u32,
    store: bool,
    count: nat,
) -> Seq<Action>
    decreases count,
{
    if count == 0 {
        Seq::empty()
    } else {
        layers_actions(gemm, rows, used, store, (count - 1) as nat) + layer_actions(
            gemm,
            rows,
            used,
            (count - 1) as u32,
            store,
        )
    }
}

/// The last normalisation.
pub open spec fn last_norm_actions(rows: u32) -> Seq<Action> {
    seq![normalize(rows, Buffer::Hidden, Norm::Last), Action::Sync]
}

/// A forward pass over `rows` rows of which the first `used` are tokens.
pub open spec fn forward_actions(gemm: Gemm, rows: u32, used: u32, store: bool) -> Seq<Action> {
    embed_actions(rows, used) + layers_actions(gemm, rows, used, store, N_LAYERS as nat)
        + last_norm_actions(rows)
}

/// The actions' parameters fit the kernels' arguments.
pub open spec fn shape_fits(rows: u32, used: u32) -> bool {
    used <= rows <= MAX_ROWS
}

fn plan_normalize(rows: u32, input: Buffer, norm: Norm) -> (action: Action)
    ensures
        action == normalize(rows, input, norm),
{
    Action::Normalize { dims: row_launch(rows), input, output: Buffer::Normed, norm, width: D_MODEL }
}

fn plan_pack(pairs: u32, input: Buffer, output: Buffer) -> (action: Action)
    ensures
        action == pack(pairs, input, output),
{
    Action::Pack { dims: element_launch(pairs), input, output, pairs }
}

fn plan_multiply(
    gemm: Gemm,
    rows: u32,
    input: Buffer,
    layer: u32,
    part: Part,
    output: Buffer,
    inner: u32,
    columns: u32,
) -> (action: Action)
    ensures
        action == multiply(gemm, rows, input, layer, part, output, inner, columns),
{
    let tile: u32 = match gemm {
        Gemm::F32 => 1,
        Gemm::Tf32 => 8,
        Gemm::Bf16 | Gemm::F32In | Gemm::Packed => 16,
    };
    let shared: u32 = match gemm {
        Gemm::F32 => (32 * 16 + 16 * 16) * 4,
        _ => (256 + 128) * 4,
    };
    Action::Multiply {
        dims: tile_launch(rows, columns, shared),
        kernel: gemm,
        input,
        layer,
        part,
        output,
        depth: inner / tile,
        columns,
    }
}

fn plan_add_bias(rows: u32, data: Buffer, layer: u32, part: Part, width: u32) -> (action: Action)
    requires
        rows * width <= u32::MAX,
    ensures
        action == add_bias(rows, data, layer, part, width),
{
    let total: u32 = rows * width;
    Action::AddBias { dims: element_launch(total), data, layer, part, width, total }
}

fn plan_accumulate(rows: u32, source: Buffer) -> (action: Action)
    requires
        rows <= MAX_ROWS,
    ensures
        action == accumulate(rows, source),
{
    let total: u32 = rows * D_MODEL;
    Action::Accumulate { dims: element_launch(total), target: Buffer::Hidden, source, total }
}

fn plan_clear(rows: u32, target: Buffer, from: u32) -> (action: Action)
    requires
        shape_fits(rows, from),
    ensures
        action == clear(rows, target, from),
{
    let start: u32 = from * D_MODEL;
    let end: u32 = rows * D_MODEL;
    Action::Clear { dims: element_launch(end - start), target, start, end }
}

fn plan_join_heads(rows: u32, input: Buffer, output: Buffer) -> (action: Action)
    requires
        rows <= MAX_ROWS,
    ensures
        action == join_heads(rows, input, output),
{
    Action::JoinHeads {
        dims: element_launch(rows * D_MODEL),
        input,
        output,
        rows,
        heads: N_HEADS,
        head_width: D_HEAD,
    }
}

fn plan_split_heads(rows: u32) -> (action: Action)
    requires
        rows <= MAX_ROWS,
    ensures
        action == split_heads(rows),
{
    Action::SplitHeads {
        dims: element_launch(N_HEADS * D_HEAD * rows),
        rows,
        heads: N_HEADS,
        head_width: D_HEAD,
    }
}

fn plan_activate(rows: u32) -> (action: Action)
    requires
        rows <= MAX_ROWS,
    ensures
        action == activate(rows),
{
    let total: u32 = rows * D_FFN;
    Action::Activate { dims: element_launch(total), total }
}

fn push_query(plan: &mut Vec<Action>, gemm: Gemm, rows: u32, layer: u32)
    requires
        rows <= MAX_ROWS,
    ensures
        final(plan)@ == old(plan)@ + query_actions(gemm, rows, layer),
{
    plan.push(plan_normalize(rows, Buffer::Hidden, Norm::BeforeAttention { layer }));
    plan.push(Action::Sync);
    plan.push(
        plan_multiply(gemm, rows, Buffer::Normed, layer, Part::Qkv, Buffer::Qkv, D_MODEL, D_QKV),
    );
    plan.push(Action::Sync);
    plan.push(plan_add_bias(rows, Buffer::Qkv, layer, Part::Qkv, D_QKV));
    plan.push(Action::Sync);
    plan.push(plan_split_heads(rows));
    plan.push(Action::Sync);
    assert(plan@ =~= old(plan)@ + query_actions(gemm, rows, layer));
}

fn push_clear_padding(plan: &mut Vec<Action>, rows: u32, used: u32)
    requires
        shape_fits(rows, used),
    ensures
        final(plan)@ == old(plan)@ + clear_padding(rows, used),
{
    if used < rows {
        plan.push(plan_clear(rows, Buffer::Hidden, used));
    }
    assert(plan@ =~= old(plan)@ + clear_padding(rows, used));
}

fn push_attention(plan: &mut Vec<Action>, gemm: Gemm, rows: u32, used: u32, layer: u32)
    requires
        shape_fits(rows, used),
    ensures
        final(plan)@ == old(plan)@ + attention_actions(gemm, rows, used, layer),
{
    plan.push(
        Action::Attend {
            dims: attention_launch(N_HEADS, rows),
            method: Attention::Flash,
            rows,
            head_width: D_HEAD,
            causal: 1,
        },
    );
    plan.push(Action::Sync);
    plan.push(plan_join_heads(rows, Buffer::Attended, Buffer::Concat));
    plan.push(Action::Sync);
    plan.push(
        plan_multiply(
            gemm,
            rows,
            Buffer::Concat,
            layer,
            Part::Proj,
            Buffer::Projected,
            D_MODEL,
            D_MODEL,
        ),
    );
    plan.push(Action::Sync);
    plan.push(plan_add_bias(rows, Buffer::Projected, layer, Part::Proj, D_MODEL));
    plan.push(Action::Sync);
    plan.push(plan_accumulate(rows, Buffer::Projected));
    push_clear_padding(plan, rows, used);
    plan.push(Action::Sync);
    assert(plan@ =~= old(plan)@ + attention_actions(gemm, rows, used, layer));
}

fn push_ffn_start(plan: &mut Vec<Action>, gemm: Gemm, rows: u32, layer: u32)
    requires
        rows <= MAX_ROWS,
    ensures
        final(plan)@ == old(plan)@ + ffn_start_actions(gemm, rows, layer),
{
    plan.push(plan_normalize(rows, Buffer::Hidden, Norm::BeforeFfn { layer }));
    plan.push(Action::Sync);
    plan.push(
        plan_multiply(
            gemm,
            rows,
            Buffer::Normed,
            layer,
            Part::Fc,
            Buffer::FfnHidden,
            D_MODEL,
            D_FFN,
        ),
    );
    plan.push(Action::Sync);
    plan.push(plan_add_bias(rows, Buffer::FfnHidden, layer, Part::Fc, D_FFN));
    plan.push(Action::Sync);
    plan.push(plan_activate(rows));
    plan.push(Action::Sync);
    plan.push(
        plan_multiply(
            gemm,
            rows,
            Buffer::Activated,
            layer,
            Part::FcProj,
            Buffer::FfnOut,
            D_FFN,
            D_MODEL,
        ),
    );
    plan.push(Action::Sync);
    plan.push(plan_add_bias(rows, Buffer::FfnOut, layer, Part::FcProj, D_MODEL));
    plan.push(Action::Sync);
    plan.push(plan_accumulate(rows, Buffer::FfnOut));
    assert(plan@ =~= old(plan)@ + ffn_start_actions(gemm, rows, layer));
}

fn push_layer(plan: &mut Vec<Action>, gemm: Gemm, rows: u32, used: u32, layer: u32, store: bool)
    requires
        shape_fits(rows, used),
    ensures
        final(plan)@ == old(plan)@ + layer_actions(gemm, rows, used, layer, store),
{
    push_query(plan, gemm, rows, layer);
    if store {
        plan.push(Action::StoreCaches { layer });
    }
    push_attention(plan, gemm, rows, used, layer);
    push_ffn_start(plan, gemm, rows, layer);
    push_clear_padding(plan, rows, used);
    plan.push(Action::Sync);
    assert(plan@ =~= old(plan)@ + layer_actions(gemm, rows, used, layer, store));
}

/// Plans a forward pass over `rows` rows of which the first `used` are tokens.
/// With `store`, the keys and values of every layer go into the caches.
pub fn plan_forward(gemm: Gemm, rows: u32, used: u32, store: bool) -> (plan: Vec<Action>)
    requires
        shape_fits(rows, used),
    ensures
        plan@ == forward_actions(gemm, rows, used, store),
{
    let mut plan: Vec<Action> = Vec::new();
    let total: u32 = rows * D_MODEL;
    plan.push(Action::Embed { dims: element_launch(total), rows, width: D_MODEL });
    plan.push(Action::Sync);
    if used < rows {
        plan.push(plan_clear(rows, Buffer::Hidden, used));
        plan.push(Action::Sync);
    }
    assert(plan@ =~= embed_actions(rows, used));
    let ghost start = plan@;
    let mut layer: u32 = 0;
    assert(plan@ =~= start + layers_actions(gemm, rows, used, store, 0));
    while layer < N_LAYERS
        invariant
            layer <= N_LAYERS,
            shape_fits(rows, used),
            plan@ == start + layers_actions(gemm, rows, used, store, layer as nat),
        decreases N_LAYERS - layer,
    {
        push_layer(&mut plan, gemm, rows, used, layer, store);
        layer += 1;
        assert(plan@ =~= start + layers_actions(gemm, rows, used, store, layer as nat));
    }
    plan.push(plan_normalize(rows, Buffer::Hidden, Norm::Last));
    plan.push(Action::Sync);
    assert(plan@ =~= forward_actions(gemm, rows, used, store));
    plan
}

/// The new token's keys or values into the cache of a layer.
pub open spec fn append_cache(cache: Cache, layer: u32, position: u32) -> Action {
    Action::AppendCache {
        dims: element_dims(D_MODEL),
        cache,
        layer,
        heads: N_HEADS,
        source_rows: STEP_ROWS,
        cache_rows: CACHE_ROWS,
        head_width: D_HEAD,
        position,
    }
}

/// The new token's query, without the padding rows between the heads.
pub open spec fn gather_query() -> Action {
    Action::GatherQuery {
        dims: element_dims(D_MODEL),
        heads: N_HEADS,
        source_rows: STEP_ROWS,
        target_rows: 1,
        head_width: D_HEAD,
        position: 0,
    }
}

/// Attention of the token at `position` to itself and all tokens before it.
pub open spec fn attend_caches(layer: u32, position: u32) -> Action {
    Action::AttendCaches {
        dims: attention_dims(N_HEADS, 1),
        layer,
        queries: 1,
        keys: (position + 1) as u32,
        head_width: D_HEAD,
        causal: 1,
        offset: position,
        cache_rows: CACHE_ROWS,
    }
}

/// Attention of one token over the caches, the output projection and its residual.
pub open spec fn decode_attention_actions(layer: u32, position: u32) -> Seq<Action> {
    seq![
        append_cache(Cache::Keys, layer, position),
        append_cache(Cache::Values, layer, position),
        Action::Sync,
        gather_query(),
        Action::Sync,
        attend_caches(layer, position),
        Action::Sync,
        join_heads(1, Buffer::AttendedRow, Buffer::ConcatRow),
        Action::Sync,
        clear(STEP_ROWS, Buffer::Concat, 0),
        Action::Sync,
        Action::SpreadRow,
        multiply(
            Gemm::F32,
            STEP_ROWS,
            Buffer::Concat,
            layer,
            Part::Proj,
            Buffer::Projected,
            D_MODEL,
            D_MODEL,
        ),
        Action::Sync,
        add_bias(STEP_ROWS, Buffer::Projected, layer, Part::Proj, D_MODEL),
        Action::Sync,
        accumulate(STEP_ROWS, Buffer::Projected),
        Action::Sync,
        clear(STEP_ROWS, Buffer::Hidden, 1),
        Action::Sync,
    ]
}

/// One layer for one token.
pub open spec fn decode_layer_actions(layer: u32, position: u32) -> Seq<Action> {
    query_actions(Gemm::F32, STEP_ROWS, layer) + decode_attention_actions(layer, position)
        + ffn_start_actions(Gemm::F32, STEP_ROWS, layer) + seq![
        Action::Sync,
        clear(STEP_ROWS, Buffer::Hidden, 1),
        Action::Sync,
    ]
}

/// The first `count` layers for one token.
pub open spec fn decode_layers_actions(position: u32, count: nat) -> Seq<Action>
    decreases count,
{
    if count == 0 {
        Seq::empty()
    } else {
        decode_layers_actions(position, (count - 1) as nat) + decode_layer_actions(
            (count - 1) as u32,
            position,
        )
    }
}

/// The pass for the token at `position`, whose embedding is in the first row of
/// the hidden state.
pub open spec fn decode_actions(position: u32) -> Seq<Action> {
    decode_layers_actions(position, N_LAYERS as nat) + last_norm_actions(STEP_ROWS)
}

fn push_decode_attention(plan: &mut Vec<Action>, layer: u32, position: u32)
    requires
        position < CACHE_ROWS,
    ensures
        final(plan)@ == old(plan)@ + decode_attention_actions(layer, position),
{
    let dims: Dims = element_launch(N_HEADS * D_HEAD);
    plan.push(
        Action::AppendCache {
            dims,
            cache: Cache::Keys,
            layer,
            heads: N_HEADS,
            source_rows: STEP_ROWS,
            cache_rows: CACHE_ROWS,
            head_width: D_HEAD,
            position,
        },
    );
    plan.push(
        Action::AppendCache {
            dims,
            cache: Cache::Values,
            layer,
            heads: N_HEADS,
            source_rows: STEP_ROWS,
            cache_rows: CACHE_ROWS,
            head_width: D_HEAD,
            position,
        },
    );
    plan.push(Action::Sync);
    plan.push(
        Action::GatherQuery {
            dims,
            heads: N_HEADS,
            source_rows: STEP_ROWS,
            target_rows: 1,
            head_width: D_HEAD,
            position: 0,
        },
    );
    plan.push(Action::Sync);
    plan.push(
        Action::AttendCaches {
            dims: attention_launch(N_HEADS, 1),
            layer,
            queries: 1,
            keys: position + 1,
            head_width: D_HEAD,
            causal: 1,
            offset: position,
            cache_rows: CACHE_ROWS,
        },
    );
    plan.push(Action::Sync);
    plan.push(plan_join_heads(1, Buffer::AttendedRow, Buffer::ConcatRow));
    plan.push(Action::Sync);
    plan.push(plan_clear(STEP_ROWS, Buffer::Concat, 0));
    plan.push(Action::Sync);
    plan.push(Action::SpreadRow);
    plan.push(
        plan_multiply(
            Gemm::F32,
            STEP_ROWS,
            Buffer::Concat,
            layer,
            Part::Proj,
            Buffer::Projected,
            D_MODEL,
            D_MODEL,
        ),
    );
    plan.push(Action::Sync);
    plan.push(plan_add_bias(STEP_ROWS, Buffer::Projected, layer, Part::Proj, D_MODEL));
    plan.push(Action::Sync);
    plan.push(plan_accumulate(STEP_ROWS, Buffer::Projected));
    plan.push(Action::Sync);
    plan.push(plan_clear(STEP_ROWS, Buffer::Hidden, 1));
    plan.push(Action::Sync);
    assert(plan@ =~= old(plan)@ + decode_attention_actions(layer, position));
}

/// Plans the pass for the token at `position` over the caches.
pub fn plan_decode(position: u32) -> (plan: Vec<Action>)
    requires
        position < CACHE_ROWS,
    ensures
        plan@ == decode_actions(position),
{
    let mut plan: Vec<Action> = Vec::new();
    let mut layer: u32 = 0;
    while layer < N_LAYERS
        invariant
            layer <= N_LAYERS,
            position < CACHE_ROWS,
            plan@ == decode_layers_actions(position, layer as nat),
        decreases N_LAYERS - layer,
    {
        push_query(&mut plan, Gemm::F32, STEP_ROWS, layer);
        push_decode_attention(&mut plan, layer, position);
        push_ffn_start(&mut plan, Gemm::F32, STEP_ROWS, layer);
        plan.push(Action::Sync);
        plan.push(plan_clear(STEP_ROWS, Buffer::Hidden, 1));
        plan.push(Action::Sync);
        layer += 1;
        assert(plan@ =~= decode_layers_actions(position, layer as nat));
    }
    plan.push(plan_normalize(STEP_ROWS, Buffer::Hidden, Norm::Last));
    plan.push(Action::Sync);
    assert(plan@ =~= decode_actions(position));
    plan
}

/// The feed-forward network in packed half precision: from `input`, packed into
/// `input_packed`, to `FfnOut`.
pub open spec fn packed_ffn_actions(
    rows: u32,
    input: Buffer,
    input_packed: Buffer,
    layer: u32,
) -> Seq<Action> {
    seq![
        pack((rows * D_MODEL / 2) as u32, input, input_packed),
        Action::Sync,
        multiply(
            Gemm::Packed,
            rows,
            input_packed,
            layer,
            Part::Fc,
            Buffer::FfnHidden,
            D_MODEL,
            D_FFN,
        ),
        Action::Sync,
        add_bias(rows, Buffer::FfnHidden, layer, Part::Fc, D_FFN),
        Action::Sync,
        activate(rows),
        Action::Sync,
        pack((rows * D_FFN / 2) as u32, Buffer::Activated, Buffer::ActivatedPacked),
        Action::Sync,
        multiply(
            Gemm::Packed,
            rows,
            Buffer::ActivatedPacked,
            layer,
            Part::FcProj,
            Buffer::FfnOut,
            D_FFN,
            D_MODEL,
        ),
        Action::Sync,
        add_bias(rows, Buffer::FfnOut, layer, Part::FcProj, D_MODEL),
        Action::Sync,
    ]
}

/// Attention of a packed layer: from `Input` to the residual in `Hidden`, which
/// starts as a copy of the input.
pub open spec fn packed_attention_actions(rows: u32, layer: u32) -> Seq<Action> {
    seq![
        normalize(rows, Buffer::Input, Norm::BeforeAttention { layer }),
        Action::Sync,
        pack((rows * D_MODEL / 2) as u32, Buffer::Normed, Buffer::NormedPacked),
        Action::Sync,
        multiply(
            Gemm::Packed,
            rows,
            Buffer::NormedPacked,
            layer,
            Part::Qkv,
            Buffer::Qkv,
            D_MODEL,
            D_QKV,
        ),
        Action::Sync,
        add_bias(rows, Buffer::Qkv, layer, Part::Qkv, D_QKV),
        Action::Sync,
        split_heads(rows),
        Action::Sync,
        attend_freely(rows),
        Action::Sync,
        join_heads(rows, Buffer::Attended, Buffer::Concat),
        Action::Sync,
        pack((rows * D_MODEL / 2) as u32, Buffer::Concat, Buffer::ConcatPacked),
        Action::Sync,
        multiply(
            Gemm::Packed,
            rows,
            Buffer::ConcatPacked,
            layer,
            Part::Proj,
            Buffer::Projected,
            D_MODEL,
            D_MODEL,
        ),
        Action::Sync,
        add_bias(rows, Buffer::Projected, layer, Part::Proj, D_MODEL),
        Action::Sync,
        accumulate(rows, Buffer::Projected),
        Action::Sync,
    ]
}

/// A whole layer in packed half precision, with attention in both directions.
pub open spec fn packed_layer_actions(rows: u32, layer: u32) -> Seq<Action> {
    packed_attention_actions(rows, layer) + seq![
        normalize(rows, Buffer::Hidden, Norm::BeforeFfn { layer }),
        Action::Sync,
    ] + packed_ffn_actions(rows, Buffer::Normed, Buffer::NormedPacked, layer) + seq![
        accumulate(rows, Buffer::FfnOut),
        Action::Sync,
    ]
}

fn push_packed_ffn(
    plan: &mut Vec<Action>,
    rows: u32,
    input: Buffer,
    input_packed: Buffer,
    layer: u32,
)
    requires
        rows <= MAX_ROWS,
    ensures
        final(plan)@ == old(plan)@ + packed_ffn_actions(rows, input, input_packed, layer),
{
    plan.push(plan_pack(rows * D_MODEL / 2, input, input_packed));
    plan.push(Action::Sync);
    plan.push(
        plan_multiply(
            Gemm::Packed,
            rows,
            input_packed,
            layer,
            Part::Fc,
            Buffer::FfnHidden,
            D_MODEL,
            D_FFN,
        ),
    );
    plan.push(Action::Sync);
    plan.push(plan_add_bias(rows, Buffer::FfnHidden, layer, Part::Fc, D_FFN));
    plan.push(Action::Sync);
    plan.push(plan_activate(rows));
    plan.push(Action::Sync);
    plan.push(plan_pack(rows * D_FFN / 2, Buffer::Activated, Buffer::ActivatedPacked));
    plan.push(Action::Sync);
    plan.push(
        plan_multiply(
            Gemm::Packed,
            rows,
            Buffer::ActivatedPacked,
            layer,
            Part::FcProj,
            Buffer::FfnOut,
            D_FFN,
            D_MODEL,
        ),
    );
    plan.push(Action::Sync);
    plan.push(plan_add_bias(rows, Buffer::FfnOut, layer, Part::FcProj, D_MODEL));
    plan.push(Action::Sync);
    assert(plan@ =~= old(plan)@ + packed_ffn_actions(rows, input, input_packed, layer));
}

/// Plans the feed-forward network in packed half precision.
pub fn plan_packed_ffn(rows: u32) -> (plan: Vec<Action>)
    requires
        rows <= MAX_ROWS,
    ensures
        plan@ == packed_ffn_actions(rows, Buffer::Input, Buffer::InputPacked, 0),
{
    let mut plan: Vec<Action> = Vec::new();
    push_packed_ffn(&mut plan, rows, Buffer::Input, Buffer::InputPacked, 0);
    assert(plan@ =~= packed_ffn_actions(rows, Buffer::Input, Buffer::InputPacked, 0));
    plan
}

/// Plans a whole layer in packed half precision.
pub fn plan_packed_layer(rows: u32) -> (plan: Vec<Action>)
    requires
        rows <= 0x7FFF,
    ensures
        plan@ == packed_layer_actions(rows, 0),
{
    let layer: u32 = 0;
    let mut plan: Vec<Action> = Vec::new();
    plan.push(plan_normalize(rows, Buffer::Input, Norm::BeforeAttention { layer }));
    plan.push(Action::Sync);
    plan.push(plan_pack(rows * D_MODEL / 2, Buffer::Normed, Buffer::NormedPacked));
    plan.push(Action::Sync);
    plan.push(
        plan_multiply(
            Gemm::Packed,
            rows,
            Buffer::NormedPacked,
            layer,
            Part::Qkv,
            Buffer::Qkv,
            D_MODEL,
            D_QKV,
        ),
    );
    plan.push(Action::Sync);
    plan.push(plan_add_bias(rows, Buffer::Qkv, layer, Part::Qkv, D_QKV));
    plan.push(Action::Sync);
    plan.push(plan_split_heads(rows));
    plan.push(Action::Sync);
    plan.push(
        Action::Attend {
            dims: head_launch(N_HEADS, rows),
            method: Attention::PerHead,
            rows,
            head_width: D_HEAD,
            causal: 0,
        },
    );
    plan.push(Action::Sync);
    plan.push(plan_join_heads(rows, Buffer::Attended, Buffer::Concat));
    plan.push(Action::Sync);
    plan.push(plan_pack(rows * D_MODEL / 2, Buffer::Concat, Buffer::ConcatPacked));
    plan.push(Action::Sync);
    plan.push(
        plan_multiply(
            Gemm::Packed,
            rows,
            Buffer::ConcatPacked,
            layer,
            Part::Proj,
            Buffer::Projected,
            D_MODEL,
            D_MODEL,
        ),
    );
    plan.push(Action::Sync);
    plan.push(plan_add_bias(rows, Buffer::Projected, layer, Part::Proj, D_MODEL));
    plan.push(Action::Sync);
    plan.push(plan_accumulate(rows, Buffer::Projected));
    plan.push(Action::Sync);
    assert(plan@ =~= packed_attention_actions(rows, layer));
    plan.push(plan_normalize(rows, Buffer::Hidden, Norm::BeforeFfn { layer }));
    plan.push(Action::Sync);
    push_packed_ffn(&mut plan, rows, Buffer::Normed, Buffer::NormedPacked, layer);
    plan.push(plan_accumulate(rows, Buffer::FfnOut));
    plan.push(Action::Sync);
    assert(plan@ =~= packed_layer_actions(rows, layer));
    plan
}

/// The kernels count their depth in tiles of their own, and a plan hands each of them
/// the whole depth.
pub proof fn products_take_their_whole_depth(
    gemm: Gemm,
    rows: u32,
    input: Buffer,
    layer: u32,
    part: Part,
    output: Buffer,
    inner: u32,
    columns: u32,
)
    requires
        inner % 16 == 0,
    ensures
        ({
            let tile: int = if gemm == Gemm::F32 {
                1
            } else if gemm == Gemm::Tf32 {
                8
            } else {
                16
            };
            multiply(gemm, rows, input, layer, part, output, inner, columns) matches
                Action::Multiply { depth, .. } && depth * tile == inner
        }),
{
}

/// A buffer has room for its rows: 768 numbers, or three or four times as many, and half
/// of that where two numbers are packed into one element. The buffers for one row have
/// room for one row.
pub proof fn buffers_have_room_for_their_rows(rows: int)
    ensures
        buffer_size(rows, Buffer::Input) == rows * 768,
        2 * buffer_size(rows, Buffer::InputPacked) == rows * 768,
        buffer_size(rows, Buffer::Hidden) == rows * 768,
        buffer_size(rows, Buffer::Normed) == rows * 768,
        2 * buffer_size(rows, Buffer::NormedPacked) == rows * 768,
        buffer_size(rows, Buffer::Qkv) == 3 * (rows * 768),
        buffer_size(rows, Buffer::Queries) == rows * 768,
        buffer_size(rows, Buffer::Keys) == rows * 768,
        buffer_size(rows, Buffer::Values) == rows * 768,
        buffer_size(rows, Buffer::Attended) == rows * 768,
        buffer_size(rows, Buffer::Concat) == rows * 768,
        2 * buffer_size(rows, Buffer::ConcatPacked) == rows * 768,
        buffer_size(rows, Buffer::Projected) == rows * 768,
        buffer_size(rows, Buffer::FfnHidden) == 4 * (rows * 768),
        buffer_size(rows, Buffer::Activated) == 4 * (rows * 768),
        2 * buffer_size(rows, Buffer::ActivatedPacked) == 4 * (rows * 768),
        buffer_size(rows, Buffer::FfnOut) == rows * 768,
        buffer_size(rows, Buffer::QueryRow) == 768,
        buffer_size(rows, Buffer::AttendedRow) == 768,
        buffer_size(rows, Buffer::ConcatRow) == 768,
{
}

/// What an action launches: every step of the model has a kernel of its own. The caches
/// are stored and a row is spread by copies, and waiting launches nothing.
pub proof fn every_step_has_its_kernel(action: Action)
    ensures
        action is Embed ==> action_symbol(action) == Some("embedding_lookup"@),
        action is Normalize ==> action_symbol(action) == Some("layer_norm"@),
        action is Pack ==> action_symbol(action) == Some("f32_to_f16x2_pack"@),
        action is AddBias ==> action_symbol(action) == Some("bias_add"@),
        action is SplitHeads ==> action_symbol(action) == Some("split_qkv"@),
        action is JoinHeads ==> action_symbol(action) == Some("concat_heads"@),
        action is Activate ==> action_symbol(action) == Some("gelu_forward"@),
        action is Accumulate ==> action_symbol(action) == Some("elementwise_add"@),
        action is Clear ==> action_symbol(action) == Some("zero_pad"@),
        action is AppendCache || action is GatherQuery ==> action_symbol(action) == Some(
            "kv_cache_append"@,
        ),
        action is AttendCaches ==> action_symbol(action) == Some("flash_attention_kv"@),
        action matches Action::Attend { method, .. } ==> action_symbol(action) == Some(
            if method == Attention::Flash {
                "flash_attention"@
            } else {
                "attention_head"@
            },
        ),
        action matches Action::Multiply { kernel, .. } ==> action_symbol(action) == Some(
            match kernel {
                Gemm::F32 => "gemm_f32"@,
                Gemm::Bf16 => "full_gemm_bf16"@,
                Gemm::Tf32 => "full_gemm_tf32"@,
                Gemm::F32In => "full_gemm_f32in"@,
                Gemm::Packed => "full_gemm"@,
            },
        ),
        action_symbol(action) is None <==> action is StoreCaches || action is SpreadRow
            || action is Sync,
{
}

} // verus!
