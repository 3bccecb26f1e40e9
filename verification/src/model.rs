//! What the plans compute.
//!
//! A row of a buffer is an expression over embeddings and parameters, and an action
//! builds new expressions from those that are there. The model is written down
//! apart from all plans: a block attends to the rows before it and feeds them
//! forward, and twelve blocks lie one on the other. The proofs here show that every
//! plan computes the rows of the model: the full pass, with any of the product
//! kernels, and the pass for one token over the caches, row for row alike.
use vstd::prelude::*;
use crate::dataflow::{pass_actions, tiled};
use crate::generation::{
    decoding_continues_the_caches, due_pass, generate, generation_stays_in_bounds, unfinished,
    Outcome, Pass, Progress, END_OF_TEXT,
};
use crate::launch::{D_HEAD, ROW_TILE};
use crate::plan::{
    attention_actions, clear_padding, decode_actions, decode_attention_actions,
    decode_layer_actions, decode_layers_actions, embed_actions, ffn_actions, ffn_start_actions,
    forward_actions, last_norm_actions, layer_actions, layers_actions, packed_attention_actions,
    packed_ffn_actions, packed_layer_actions, query_actions, Action, Attention, Buffer, Cache,
    Gemm, Norm, Part, CACHE_ROWS, D_FFN, D_MODEL, D_QKV, MAX_ROWS, N_HEADS, N_LAYERS,
    STEP_ROWS,
};

verus! {

/// What a row of a buffer holds.
pub enum Term {
    /// Zeros.
    Zero,
    /// The embedding of the token at a place of the text, and of that place.
    Embedding { place: nat },
    /// A normalised row.
    Normed(Norm, Box<Term>),
    /// A row in half precision.
    Half(Box<Term>),
    /// A row times a weight.
    Product { kernel: Gemm, layer: u32, part: Part, row: Box<Term> },
    /// A row plus a bias.
    Biased { layer: u32, part: Part, row: Box<Term> },
    /// The first third of a row: the query of every head.
    Query(Box<Term>),
    /// The second third: the key of every head.
    Key(Box<Term>),
    /// The last third: the value of every head.
    Value(Box<Term>),
    /// The attention of a query to keys and their values, in every head.
    Attention { query: Box<Term>, keys: Seq<Term>, values: Seq<Term> },
    /// The heads of a row side by side.
    Joined(Box<Term>),
    /// An activated row.
    Activated(Box<Term>),
    /// The sum of two rows.
    Sum(Box<Term>, Box<Term>),
}

/// A linear map of a layer. Products in packed half precision take their row in
/// half precision.
pub open spec fn linear(kernel: Gemm, layer: u32, part: Part, row: Term) -> Term {
    let operand = if kernel == Gemm::Packed {
        Term::Half(Box::new(row))
    } else {
        row
    };
    Term::Biased {
        layer,
        part,
        row: Box::new(Term::Product { kernel, layer, part, row: Box::new(operand) }),
    }
}

/// Query, key and value of a row, side by side.
pub open spec fn projections(kernel: Gemm, layer: u32, row: Term) -> Term {
    linear(
        kernel,
        layer,
        Part::Qkv,
        Term::Normed(Norm::BeforeAttention { layer }, Box::new(row)),
    )
}

/// The key of a row.
pub open spec fn key_of(kernel: Gemm, layer: u32, row: Term) -> Term {
    Term::Key(Box::new(projections(kernel, layer, row)))
}

/// The value of a row.
pub open spec fn value_of(kernel: Gemm, layer: u32, row: Term) -> Term {
    Term::Value(Box::new(projections(kernel, layer, row)))
}

/// The attention of a row to the rows that it sees.
pub open spec fn attention(kernel: Gemm, layer: u32, row: Term, seen: Seq<Term>) -> Term {
    Term::Attention {
        query: Box::new(Term::Query(Box::new(projections(kernel, layer, row)))),
        keys: Seq::new(seen.len(), |k: int| key_of(kernel, layer, seen[k])),
        values: Seq::new(seen.len(), |k: int| value_of(kernel, layer, seen[k])),
    }
}

/// The feed-forward network.
pub open spec fn feed_forward(kernel: Gemm, layer: u32, row: Term) -> Term {
    let wide = linear(kernel, layer, Part::Fc, row);
    linear(kernel, layer, Part::FcProj, Term::Activated(Box::new(wide)))
}

/// A row behind the attention of a block: the row and what it attended to.
pub open spec fn attended(kernel: Gemm, layer: u32, row: Term, seen: Seq<Term>) -> Term {
    let heads = Term::Joined(Box::new(attention(kernel, layer, row, seen)));
    Term::Sum(Box::new(row), Box::new(linear(kernel, layer, Part::Proj, heads)))
}

/// A row behind a whole block.
pub open spec fn block(kernel: Gemm, layer: u32, row: Term, seen: Seq<Term>) -> Term {
    let middle = attended(kernel, layer, row, seen);
    let normed = Term::Normed(Norm::BeforeFfn { layer }, Box::new(middle));
    Term::Sum(Box::new(middle), Box::new(feed_forward(kernel, layer, normed)))
}

/// The first rows of the model behind a number of blocks: in every block a row sees
/// itself and the rows before it.
pub open spec fn hidden_rows(kernel: Gemm, blocks: nat, count: nat) -> Seq<Term>
    decreases blocks,
{
    if blocks == 0 {
        Seq::new(count, |r: int| Term::Embedding { place: r as nat })
    } else {
        let below = hidden_rows(kernel, (blocks - 1) as nat, count);
        Seq::new(
            count,
            |r: int| block(kernel, (blocks - 1) as u32, below[r], below.take(r + 1)),
        )
    }
}

/// The row of the model at a place of the text, behind a number of blocks.
pub open spec fn hidden_row(kernel: Gemm, blocks: nat, place: nat) -> Term {
    hidden_rows(kernel, blocks, place + 1)[place as int]
}

/// What the model makes of a text does not change when the text goes on.
pub proof fn rows_do_not_see_the_future(kernel: Gemm, blocks: nat, count: nat, more: nat)
    requires
        count <= more,
    ensures
        hidden_rows(kernel, blocks, more).take(count as int) == hidden_rows(kernel, blocks, count),
    decreases blocks,
{
    let long = hidden_rows(kernel, blocks, more);
    let short = hidden_rows(kernel, blocks, count);
    if blocks > 0 {
        let below = (blocks - 1) as nat;
        rows_do_not_see_the_future(kernel, below, count, more);
        let (l, s) = (hidden_rows(kernel, below, more), hidden_rows(kernel, below, count));
        lemma_row_count(kernel, below, more);
        lemma_row_count(kernel, below, count);
        assert forall|r: int| 0 <= r < count implies long[r] == short[r] by {
            assert(l[r] == l.take(count as int)[r]);
            assert(l.take(r + 1) =~= s.take(r + 1)) by {
                assert forall|k: int| 0 <= k <= r implies l[k] == s[k] by {
                    assert(l[k] == l.take(count as int)[k]);
                }
            }
        }
    }
    assert(long.take(count as int) =~= short);
}

proof fn lemma_row_count(kernel: Gemm, blocks: nat, count: nat)
    ensures
        hidden_rows(kernel, blocks, count).len() == count,
{
}

/// What the model puts out at a place of the text.
pub open spec fn output_row(kernel: Gemm, place: nat) -> Term {
    Term::Normed(Norm::Last, Box::new(hidden_row(kernel, N_LAYERS as nat, place)))
}

/// The key of a place of the text in a layer.
pub open spec fn key_row(kernel: Gemm, layer: u32, place: nat) -> Term {
    key_of(kernel, layer, hidden_row(kernel, layer as nat, place))
}

/// The value of a place of the text in a layer.
pub open spec fn value_row(kernel: Gemm, layer: u32, place: nat) -> Term {
    value_of(kernel, layer, hidden_row(kernel, layer as nat, place))
}

/// The rows of every buffer and of the caches of every layer.
pub struct Memory {
    pub buffers: Map<Buffer, Seq<Term>>,
    pub keys: Seq<Seq<Term>>,
    pub values: Seq<Seq<Term>>,
}

/// The memory with other rows in a buffer.
pub open spec fn put(memory: Memory, buffer: Buffer, rows: Seq<Term>) -> Memory {
    Memory { buffers: memory.buffers.insert(buffer, rows), ..memory }
}

/// What one action does to the memory of a pass.
#[verifier::opaque]
pub open spec fn perform(memory: Memory, action: Action) -> Memory {
    let b = memory.buffers;
    match action {
        Action::Embed { rows, .. } => put(
            memory,
            Buffer::Hidden,
            Seq::new(rows as nat, |r: int| Term::Embedding { place: r as nat }),
        ),
        Action::Normalize { dims, input, output, norm, .. } => put(
            memory,
            output,
            Seq::new(dims.grid_x as nat, |r: int| Term::Normed(norm, Box::new(b[input][r]))),
        ),
        Action::Pack { input, output, .. } => put(
            memory,
            output,
            Seq::new(b[input].len(), |r: int| Term::Half(Box::new(b[input][r]))),
        ),
        Action::Multiply { dims, kernel, input, layer, part, output, .. } => put(
            memory,
            output,
            Seq::new(
                (dims.grid_x * ROW_TILE) as nat,
                |r: int| Term::Product { kernel, layer, part, row: Box::new(b[input][r]) },
            ),
        ),
        Action::AddBias { data, layer, part, .. } => put(
            memory,
            data,
            Seq::new(
                b[data].len(),
                |r: int| Term::Biased { layer, part, row: Box::new(b[data][r]) },
            ),
        ),
        Action::SplitHeads { rows, .. } => {
            let qkv = b[Buffer::Qkv];
            let queries = Seq::new(rows as nat, |r: int| Term::Query(Box::new(qkv[r])));
            let keys = Seq::new(rows as nat, |r: int| Term::Key(Box::new(qkv[r])));
            let values = Seq::new(rows as nat, |r: int| Term::Value(Box::new(qkv[r])));
            put(
                put(put(memory, Buffer::Queries, queries), Buffer::Keys, keys),
                Buffer::Values,
                values,
            )
        },
        Action::Attend { rows, causal, .. } => put(
            memory,
            Buffer::Attended,
            Seq::new(
                rows as nat,
                |r: int|
                    {
                        let seen = if causal == 1 {
                            r + 1
                        } else {
                            rows as int
                        };
                        Term::Attention {
                            query: Box::new(b[Buffer::Queries][r]),
                            keys: b[Buffer::Keys].take(seen),
                            values: b[Buffer::Values].take(seen),
                        }
                    },
            ),
        ),
        Action::JoinHeads { input, output, rows, .. } => put(
            memory,
            output,
            Seq::new(rows as nat, |r: int| Term::Joined(Box::new(b[input][r]))),
        ),
        Action::Activate { .. } => put(
            memory,
            Buffer::Activated,
            Seq::new(
                b[Buffer::FfnHidden].len(),
                |r: int| Term::Activated(Box::new(b[Buffer::FfnHidden][r])),
            ),
        ),
        Action::Accumulate { target, source, .. } => put(
            memory,
            target,
            Seq::new(
                b[target].len(),
                |r: int| Term::Sum(Box::new(b[target][r]), Box::new(b[source][r])),
            ),
        ),
        Action::Clear { target, start, end, .. } => put(
            memory,
            target,
            Seq::new(
                b[target].len(),
                |r: int|
                    if start <= r * D_MODEL < end {
                        Term::Zero
                    } else {
                        b[target][r]
                    },
            ),
        ),
        Action::StoreCaches { layer } => Memory {
            keys: memory.keys.update(layer as int, b[Buffer::Keys]),
            values: memory.values.update(layer as int, b[Buffer::Values]),
            ..memory
        },
        Action::AppendCache { cache: Cache::Keys, layer, position, .. } => Memory {
            keys: memory.keys.update(
                layer as int,
                memory.keys[layer as int].update(position as int, b[Buffer::Keys][0]),
            ),
            ..memory
        },
        Action::AppendCache { cache: Cache::Values, layer, position, .. } => Memory {
            values: memory.values.update(
                layer as int,
                memory.values[layer as int].update(position as int, b[Buffer::Values][0]),
            ),
            ..memory
        },
        Action::GatherQuery { .. } => put(
            memory,
            Buffer::QueryRow,
            seq![b[Buffer::Queries][0]],
        ),
        Action::AttendCaches { layer, keys, causal, offset, .. } => {
            let seen = if causal == 1 && offset + 1 < keys {
                offset + 1
            } else {
                keys as int
            };
            put(
                memory,
                Buffer::AttendedRow,
                seq![
                    Term::Attention {
                        query: Box::new(b[Buffer::QueryRow][0]),
                        keys: memory.keys[layer as int].take(seen),
                        values: memory.values[layer as int].take(seen),
                    },
                ],
            )
        },
        Action::SpreadRow => put(
            memory,
            Buffer::Concat,
            Seq::new(
                STEP_ROWS as nat,
                |r: int|
                    if r == 0 {
                        b[Buffer::ConcatRow][0]
                    } else {
                        Term::Zero
                    },
            ),
        ),
        Action::Sync => memory,
    }
}

/// The memory after the first `count` actions.
#[verifier::opaque]
pub open spec fn perform_first(memory: Memory, actions: Seq<Action>, count: nat) -> Memory
    decreases count,
{
    if count == 0 {
        memory
    } else {
        perform(perform_first(memory, actions, (count - 1) as nat), actions[count - 1])
    }
}

/// The memory after all actions.
pub open spec fn perform_all(memory: Memory, actions: Seq<Action>) -> Memory {
    perform_first(memory, actions, actions.len())
}

proof fn lemma_first_part(memory: Memory, first: Seq<Action>, second: Seq<Action>, count: nat)
    requires
        count <= first.len(),
    ensures
        perform_first(memory, first + second, count) == perform_first(memory, first, count),
    decreases count,
{
    reveal(perform_first);
    if count > 0 {
        lemma_first_part(memory, first, second, (count - 1) as nat);
        assert((first + second)[count - 1] == first[count - 1]);
    }
}

proof fn lemma_second_part(memory: Memory, first: Seq<Action>, second: Seq<Action>, count: nat)
    requires
        count <= second.len(),
    ensures
        perform_first(memory, first + second, first.len() + count) == perform_first(
            perform_all(memory, first),
            second,
            count,
        ),
    decreases count,
{
    reveal(perform_first);
    if count == 0 {
        lemma_first_part(memory, first, second, first.len());
    } else {
        lemma_second_part(memory, first, second, (count - 1) as nat);
        assert((first + second)[first.len() + count - 1] == second[count - 1]);
    }
}

/// One list of actions behind another.
proof fn lemma_both_parts(memory: Memory, first: Seq<Action>, second: Seq<Action>)
    ensures
        perform_all(memory, first + second) == perform_all(perform_all(memory, first), second),
{
    lemma_second_part(memory, first, second, second.len());
}

proof fn lemma_nothing(memory: Memory, actions: Seq<Action>)
    ensures
        perform_first(memory, actions, 0) == memory,
{
    reveal(perform_first);
}

/// One more action.
proof fn lemma_next(memory: Memory, actions: Seq<Action>, i: nat)
    ensures
        perform_first(memory, actions, i + 1) == perform(
            perform_first(memory, actions, i),
            actions[i as int],
        ),
{
    reveal(perform_first);
}

/// One more action, and the wait for it.
proof fn lemma_next_awaited(memory: Memory, actions: Seq<Action>, i: nat)
    requires
        actions[i as int + 1] == Action::Sync,
    ensures
        perform_first(memory, actions, i + 2) == perform(
            perform_first(memory, actions, i),
            actions[i as int],
        ),
{
    lemma_next(memory, actions, i);
    lemma_next(memory, actions, i + 1);
    reveal(perform);
}

/// From the hidden state to the queries, keys and values of every row.
proof fn lemma_query(memory: Memory, kernel: Gemm, rows: u32, layer: u32)
    requires
        tiled(rows),
        kernel != Gemm::Packed,
        memory.buffers[Buffer::Hidden].len() == rows,
    ensures
        ({
            let h = memory.buffers[Buffer::Hidden];
            let end = perform_all(memory, query_actions(kernel, rows, layer));
            &&& end.keys == memory.keys
            &&& end.values == memory.values
            &&& end.buffers[Buffer::Hidden] == h
            &&& end.buffers[Buffer::Queries] == Seq::new(
                rows as nat,
                |r: int| Term::Query(Box::new(projections(kernel, layer, h[r]))),
            )
            &&& end.buffers[Buffer::Keys] == Seq::new(
                rows as nat,
                |r: int| key_of(kernel, layer, h[r]),
            )
            &&& end.buffers[Buffer::Values] == Seq::new(
                rows as nat,
                |r: int| value_of(kernel, layer, h[r]),
            )
        }),
{
    let actions = query_actions(kernel, rows, layer);
    let h = memory.buffers[Buffer::Hidden];
    reveal(perform);
    lemma_nothing(memory, actions);
    lemma_next_awaited(memory, actions, 0);
    lemma_next_awaited(memory, actions, 2);
    lemma_next_awaited(memory, actions, 4);
    lemma_next_awaited(memory, actions, 6);
    let end = perform_all(memory, actions);
    assert(end.buffers[Buffer::Queries] =~= Seq::new(
        rows as nat,
        |r: int| Term::Query(Box::new(projections(kernel, layer, h[r]))),
    ));
    assert(end.buffers[Buffer::Keys] =~= Seq::new(rows as nat, |r: int| key_of(kernel, layer, h[r])));
    assert(end.buffers[Buffer::Values] =~= Seq::new(
        rows as nat,
        |r: int| value_of(kernel, layer, h[r]),
    ));
}

/// The rows behind the tokens are zero.
pub open spec fn padding_is_zero(rows: Seq<Term>, used: int) -> bool {
    forall|r: int| used <= r < rows.len() ==> #[trigger] rows[r] == Term::Zero
}

/// The padding cleared, if there is any: the rows of the tokens stay.
proof fn lemma_clear_padding(memory: Memory, rows: u32, used: u32)
    requires
        tiled(rows),
        used <= rows,
        memory.buffers[Buffer::Hidden].len() == rows,
    ensures
        ({
            let h = memory.buffers[Buffer::Hidden];
            let end = perform_all(memory, clear_padding(rows, used) + seq![Action::Sync]);
            &&& end.keys == memory.keys
            &&& end.values == memory.values
            &&& end.buffers[Buffer::Hidden].len() == rows
            &&& forall|r: int|
                0 <= r < used ==> #[trigger] end.buffers[Buffer::Hidden][r] == h[r]
            &&& padding_is_zero(end.buffers[Buffer::Hidden], used as int)
        }),
{
    let actions = clear_padding(rows, used) + seq![Action::Sync];
    reveal(perform);
    lemma_nothing(memory, actions);
    if used < rows {
        lemma_next_awaited(memory, actions, 0);
    } else {
        lemma_next(memory, actions, 0);
    }
}

/// The attention of every row to itself and the rows before it, up to the residual.
proof fn lemma_attention_start(memory: Memory, kernel: Gemm, rows: u32, used: u32, layer: u32)
    requires
        tiled(rows),
        used <= rows,
        kernel != Gemm::Packed,
        memory.buffers[Buffer::Hidden].len() == rows,
        ({
            let h = memory.buffers[Buffer::Hidden];
            &&& memory.buffers[Buffer::Queries] == Seq::new(
                rows as nat,
                |r: int| Term::Query(Box::new(projections(kernel, layer, h[r]))),
            )
            &&& memory.buffers[Buffer::Keys] == Seq::new(
                rows as nat,
                |r: int| key_of(kernel, layer, h[r]),
            )
            &&& memory.buffers[Buffer::Values] == Seq::new(
                rows as nat,
                |r: int| value_of(kernel, layer, h[r]),
            )
        }),
    ensures
        ({
            let h = memory.buffers[Buffer::Hidden];
            let end = perform_all(memory, attention_actions(kernel, rows, used, layer));
            &&& end.keys == memory.keys
            &&& end.values == memory.values
            &&& end.buffers[Buffer::Hidden].len() == rows
            &&& forall|r: int|
                0 <= r < used ==> #[trigger] end.buffers[Buffer::Hidden][r] == attended(
                    kernel,
                    layer,
                    h[r],
                    h.take(r + 1),
                )
            &&& padding_is_zero(end.buffers[Buffer::Hidden], used as int)
        }),
{
    let whole = attention_actions(kernel, rows, used, layer);
    let rest = clear_padding(rows, used) + seq![Action::Sync];
    let start = whole.take(9);
    assert(whole =~= start + rest);
    let h = memory.buffers[Buffer::Hidden];
    reveal(perform);
    lemma_nothing(memory, start);
    lemma_next_awaited(memory, start, 0);
    lemma_next_awaited(memory, start, 2);
    lemma_next_awaited(memory, start, 4);
    lemma_next_awaited(memory, start, 6);
    lemma_next(memory, start, 8);
    let middle = perform_all(memory, start);
    assert forall|r: int| 0 <= r < rows implies #[trigger] middle.buffers[Buffer::Hidden][r]
        == attended(kernel, layer, h[r], h.take(r + 1)) by {
        let seen = h.take(r + 1);
        assert(memory.buffers[Buffer::Keys].take(r + 1) =~= Seq::new(
            seen.len(),
            |k: int| key_of(kernel, layer, seen[k]),
        ));
        assert(memory.buffers[Buffer::Values].take(r + 1) =~= Seq::new(
            seen.len(),
            |k: int| value_of(kernel, layer, seen[k]),
        ));
    }
    lemma_clear_padding(middle, rows, used);
    lemma_both_parts(memory, start, rest);
}

/// The feed-forward network of every row, up to the residual.
proof fn lemma_ffn_start(memory: Memory, kernel: Gemm, rows: u32, layer: u32)
    requires
        tiled(rows),
        kernel != Gemm::Packed,
        memory.buffers[Buffer::Hidden].len() == rows,
    ensures
        ({
            let h = memory.buffers[Buffer::Hidden];
            let end = perform_all(memory, ffn_start_actions(kernel, rows, layer));
            &&& end.keys == memory.keys
            &&& end.values == memory.values
            &&& end.buffers[Buffer::Hidden].len() == rows
            &&& forall|r: int|
                0 <= r < rows ==> #[trigger] end.buffers[Buffer::Hidden][r] == Term::Sum(
                    Box::new(h[r]),
                    Box::new(
                        feed_forward(
                            kernel,
                            layer,
                            Term::Normed(Norm::BeforeFfn { layer }, Box::new(h[r])),
                        ),
                    ),
                )
        }),
{
    let actions = ffn_start_actions(kernel, rows, layer);
    reveal(perform);
    lemma_nothing(memory, actions);
    lemma_next_awaited(memory, actions, 0);
    lemma_next_awaited(memory, actions, 2);
    lemma_next_awaited(memory, actions, 4);
    lemma_next_awaited(memory, actions, 6);
    lemma_next_awaited(memory, actions, 8);
    lemma_next_awaited(memory, actions, 10);
    lemma_next(memory, actions, 12);
}

/// Whether the hidden state of a full pass holds the rows of the model behind a
/// number of blocks.
pub open spec fn holds_rows(memory: Memory, kernel: Gemm, blocks: nat, rows: u32, used: u32) -> bool {
    let h = memory.buffers[Buffer::Hidden];
    &&& h.len() == rows
    &&& forall|r: int|
        0 <= r < used ==> #[trigger] h[r] == hidden_row(kernel, blocks, r as nat)
    &&& padding_is_zero(h, used as int)
}

/// Whether the caches of a layer hold the keys and values of the first places.
pub open spec fn caches_places(memory: Memory, kernel: Gemm, layer: u32, places: nat) -> bool {
    &&& memory.keys[layer as int].len() == CACHE_ROWS
    &&& memory.values[layer as int].len() == CACHE_ROWS
    &&& forall|k: int|
        0 <= k < places ==> #[trigger] memory.keys[layer as int][k] == key_row(
            kernel,
            layer,
            k as nat,
        )
    &&& forall|k: int|
        0 <= k < places ==> #[trigger] memory.values[layer as int][k] == value_row(
            kernel,
            layer,
            k as nat,
        )
}

/// Whether there are caches for every layer.
pub open spec fn has_caches(memory: Memory) -> bool {
    memory.keys.len() == N_LAYERS && memory.values.len() == N_LAYERS
}

/// One block more.
proof fn lemma_row_above(kernel: Gemm, layer: u32, place: nat, seen: Seq<Term>)
    requires
        seen.len() == place + 1,
        forall|k: int|
            0 <= k <= place ==> #[trigger] seen[k] == hidden_row(kernel, layer as nat, k as nat),
    ensures
        hidden_row(kernel, layer as nat + 1, place) == block(
            kernel,
            layer,
            hidden_row(kernel, layer as nat, place),
            seen,
        ),
{
    let below = hidden_rows(kernel, layer as nat, place + 1);
    lemma_row_count(kernel, layer as nat, place + 1);
    assert forall|k: int| 0 <= k <= place implies below[k] == seen[k] by {
        rows_do_not_see_the_future(kernel, layer as nat, (k + 1) as nat, place + 1);
        assert(below[k] == below.take(k + 1)[k]);
    }
    assert(below.take(place as int + 1) =~= seen);
}

/// One block of a full pass.
proof fn lemma_layer(
    memory: Memory,
    kernel: Gemm,
    rows: u32,
    used: u32,
    layer: u32,
    store: bool,
)
    requires
        tiled(rows),
        used <= rows,
        kernel != Gemm::Packed,
        layer < N_LAYERS,
        has_caches(memory),
        store ==> rows == CACHE_ROWS,
        holds_rows(memory, kernel, layer as nat, rows, used),
    ensures
        ({
            let end = perform_all(memory, layer_actions(kernel, rows, used, layer, store));
            &&& has_caches(end)
            &&& holds_rows(end, kernel, layer as nat + 1, rows, used)
            &&& store ==> caches_places(end, kernel, layer, used as nat)
            &&& forall|l: int|
                0 <= l < N_LAYERS && (l != layer || !store) ==> #[trigger] end.keys[l]
                    == memory.keys[l]
            &&& forall|l: int|
                0 <= l < N_LAYERS && (l != layer || !store) ==> #[trigger] end.values[l]
                    == memory.values[l]
        }),
{
    let query = query_actions(kernel, rows, layer);
    let storing: Seq<Action> = if store {
        seq![Action::StoreCaches { layer }]
    } else {
        Seq::empty()
    };
    let attention = attention_actions(kernel, rows, used, layer);
    let ffn = ffn_start_actions(kernel, rows, layer);
    let rest = clear_padding(rows, used) + seq![Action::Sync];
    let h = memory.buffers[Buffer::Hidden];
    lemma_query(memory, kernel, rows, layer);
    let m1 = perform_all(memory, query);
    lemma_nothing(m1, storing);
    if store {
        lemma_next(m1, storing, 0);
    }
    let m2 = perform_all(m1, storing);
    assert(m2.buffers == m1.buffers && has_caches(m2)) by {
        reveal(perform);
    }
    assert((forall|l: int|
        0 <= l < N_LAYERS && (l != layer || !store) ==> #[trigger] m2.keys[l] == memory.keys[l])
        && (forall|l: int|
        0 <= l < N_LAYERS && (l != layer || !store) ==> #[trigger] m2.values[l]
            == memory.values[l])) by {
        reveal(perform);
    }
    if store {
        assert(caches_places(m2, kernel, layer, used as nat)) by {
            reveal(perform);
        }
    }
    lemma_attention_start(m2, kernel, rows, used, layer);
    let m3 = perform_all(m2, attention);
    lemma_ffn_start(m3, kernel, rows, layer);
    let m4 = perform_all(m3, ffn);
    lemma_clear_padding(m4, rows, used);
    let end = perform_all(m4, rest);
    assert forall|r: int| 0 <= r < used implies #[trigger] end.buffers[Buffer::Hidden][r]
        == hidden_row(kernel, layer as nat + 1, r as nat) by {
        assert(m4.buffers[Buffer::Hidden][r] == end.buffers[Buffer::Hidden][r]);
        assert(m3.buffers[Buffer::Hidden][r] == attended(kernel, layer, h[r], h.take(r + 1)));
        assert(h[r] == hidden_row(kernel, layer as nat, r as nat));
        lemma_row_above(kernel, layer, r as nat, h.take(r + 1));
    }
    assert(ffn_actions(kernel, rows, used, layer) =~= ffn + rest);
    assert(layer_actions(kernel, rows, used, layer, store) =~= query + storing + attention + ffn
        + rest);
    lemma_both_parts(memory, query, storing);
    lemma_both_parts(memory, query + storing, attention);
    lemma_both_parts(memory, query + storing + attention, ffn);
    lemma_both_parts(memory, query + storing + attention + ffn, rest);
}

/// The blocks of a full pass.
proof fn lemma_layers(
    memory: Memory,
    kernel: Gemm,
    rows: u32,
    used: u32,
    store: bool,
    count: nat,
)
    requires
        tiled(rows),
        used <= rows,
        kernel != Gemm::Packed,
        count <= N_LAYERS,
        has_caches(memory),
        store ==> rows == CACHE_ROWS,
        holds_rows(memory, kernel, 0, rows, used),
    ensures
        ({
            let end = perform_all(memory, layers_actions(kernel, rows, used, store, count));
            &&& has_caches(end)
            &&& holds_rows(end, kernel, count, rows, used)
            &&& store ==> forall|l: u32|
                l < count ==> #[trigger] caches_places(end, kernel, l, used as nat)
            &&& !store ==> end.keys =~= memory.keys && end.values =~= memory.values
        }),
    decreases count,
{
    if count == 0 {
        lemma_nothing(memory, layers_actions(kernel, rows, used, store, 0));
    } else {
        let fewer = (count - 1) as nat;
        let layer = fewer as u32;
        lemma_layers(memory, kernel, rows, used, store, fewer);
        let before = layers_actions(kernel, rows, used, store, fewer);
        let middle = perform_all(memory, before);
        let last = layer_actions(kernel, rows, used, layer, store);
        lemma_layer(middle, kernel, rows, used, layer, store);
        lemma_both_parts(memory, before, last);
        let end = perform_all(middle, last);
        if store {
            assert forall|l: u32| l < count implies #[trigger] caches_places(
                end,
                kernel,
                l,
                used as nat,
            ) by {
                if l < fewer {
                    assert(caches_places(middle, kernel, l, used as nat));
                    assert(end.keys[l as int] == middle.keys[l as int]);
                }
            }
        } else {
            assert(end.keys =~= memory.keys);
            assert(end.values =~= memory.values);
        }
    }
}

/// A full pass computes the model: at every place of a token its output is that of
/// the model, with every product on the kernel asked for. With `store`, the caches of
/// every layer end up with the keys and values of every token; without, they stay.
pub proof fn forward_plan_computes_the_model(
    memory: Memory,
    kernel: Gemm,
    rows: u32,
    used: u32,
    store: bool,
)
    requires
        tiled(rows),
        used <= rows,
        kernel != Gemm::Packed,
        has_caches(memory),
        store ==> rows == CACHE_ROWS,
    ensures
        ({
            let end = perform_all(memory, forward_actions(kernel, rows, used, store));
            &&& has_caches(end)
            &&& forall|place: int|
                0 <= place < used ==> #[trigger] end.buffers[Buffer::Normed][place]
                    == output_row(kernel, place as nat)
            &&& store ==> forall|layer: u32|
                layer < N_LAYERS ==> #[trigger] caches_places(end, kernel, layer, used as nat)
            &&& !store ==> end.keys == memory.keys && end.values == memory.values
        }),
{
    let embedding = embed_actions(rows, used);
    let layers = layers_actions(kernel, rows, used, store, N_LAYERS as nat);
    let last = last_norm_actions(rows);
    let m1 = perform_all(memory, embedding);
    lemma_nothing(memory, embedding);
    lemma_next_awaited(memory, embedding, 0);
    if used < rows {
        lemma_next_awaited(memory, embedding, 2);
    }
    assert(m1.keys == memory.keys && m1.values == memory.values && holds_rows(
        m1,
        kernel,
        0,
        rows,
        used,
    )) by {
        reveal(perform);
    }
    lemma_layers(m1, kernel, rows, used, store, N_LAYERS as nat);
    let m2 = perform_all(m1, layers);
    lemma_nothing(m2, last);
    lemma_next_awaited(m2, last, 0);
    let end = perform_all(m2, last);
    assert(end.keys == m2.keys && end.values == m2.values) by {
        reveal(perform);
    }
    assert forall|place: int| 0 <= place < used implies #[trigger] end.buffers[Buffer::Normed][place]
        == output_row(kernel, place as nat) by {
        reveal(perform);
        assert(m2.buffers[Buffer::Hidden][place] == hidden_row(
            kernel,
            N_LAYERS as nat,
            place as nat,
        ));
    }
    if store {
        assert forall|layer: u32| layer < N_LAYERS implies #[trigger] caches_places(
            end,
            kernel,
            layer,
            used as nat,
        ) by {
            assert(caches_places(m2, kernel, layer, used as nat));
        }
    }
    lemma_both_parts(memory, embedding, layers);
    lemma_both_parts(memory, embedding + layers, last);
}

/// Whether the hidden state of a pass for one token holds its row of the model
/// behind a number of blocks.
pub open spec fn holds_row(memory: Memory, blocks: nat, place: nat) -> bool {
    let h = memory.buffers[Buffer::Hidden];
    &&& h.len() == STEP_ROWS
    &&& h[0] == hidden_row(Gemm::F32, blocks, place)
    &&& padding_is_zero(h, 1)
}

/// The attention of one token over the caches, up to the cleared residual.
proof fn lemma_decode_attention(memory: Memory, layer: u32, position: u32)
    requires
        layer < N_LAYERS,
        position < CACHE_ROWS,
        has_caches(memory),
        caches_places(memory, Gemm::F32, layer, position as nat),
        memory.buffers[Buffer::Hidden].len() == STEP_ROWS,
        memory.buffers[Buffer::Hidden][0] == hidden_row(
            Gemm::F32,
            layer as nat,
            position as nat,
        ),
        ({
            let projected = projections(
                Gemm::F32,
                layer,
                hidden_row(Gemm::F32, layer as nat, position as nat),
            );
            &&& memory.buffers[Buffer::Queries][0] == Term::Query(Box::new(projected))
            &&& memory.buffers[Buffer::Keys][0] == Term::Key(Box::new(projected))
            &&& memory.buffers[Buffer::Values][0] == Term::Value(Box::new(projected))
        }),
    ensures
        ({
            let end = perform_all(memory, decode_attention_actions(layer, position));
            &&& has_caches(end)
            &&& caches_places(end, Gemm::F32, layer, position as nat + 1)
            &&& forall|l: int|
                0 <= l < N_LAYERS && l != layer ==> #[trigger] end.keys[l] == memory.keys[l]
            &&& forall|l: int|
                0 <= l < N_LAYERS && l != layer ==> #[trigger] end.values[l] == memory.values[l]
            &&& end.buffers[Buffer::Hidden].len() == STEP_ROWS
            &&& end.buffers[Buffer::Hidden][0] == attended(
                Gemm::F32,
                layer,
                hidden_row(Gemm::F32, layer as nat, position as nat),
                Seq::new(
                    position as nat + 1,
                    |k: int| hidden_row(Gemm::F32, layer as nat, k as nat),
                ),
            )
            &&& padding_is_zero(end.buffers[Buffer::Hidden], 1)
        }),
{
    let actions = decode_attention_actions(layer, position);
    let row = hidden_row(Gemm::F32, layer as nat, position as nat);
    let seen = Seq::new(
        position as nat + 1,
        |k: int| hidden_row(Gemm::F32, layer as nat, k as nat),
    );
    lemma_nothing(memory, actions);
    lemma_next(memory, actions, 0);
    lemma_next_awaited(memory, actions, 1);
    let m1 = perform_first(memory, actions, 3);
    assert(has_caches(m1) && m1.buffers == memory.buffers && caches_places(
        m1,
        Gemm::F32,
        layer,
        position as nat + 1,
    ) && (forall|l: int|
        0 <= l < N_LAYERS && l != layer ==> #[trigger] m1.keys[l] == memory.keys[l]) && (
    forall|l: int|
        0 <= l < N_LAYERS && l != layer ==> #[trigger] m1.values[l] == memory.values[l])) by {
        reveal(perform);
    }
    lemma_next_awaited(memory, actions, 3);
    lemma_next_awaited(memory, actions, 5);
    let m2 = perform_first(memory, actions, 7);
    assert(m1.keys[layer as int].take(position + 1) =~= Seq::new(
        seen.len(),
        |k: int| key_of(Gemm::F32, layer, seen[k]),
    ));
    assert(m1.values[layer as int].take(position + 1) =~= Seq::new(
        seen.len(),
        |k: int| value_of(Gemm::F32, layer, seen[k]),
    ));
    assert(m2.keys == m1.keys && m2.values == m1.values && m2.buffers[Buffer::AttendedRow][0]
        == attention(Gemm::F32, layer, row, seen) && m2.buffers[Buffer::Hidden]
        == memory.buffers[Buffer::Hidden]) by {
        reveal(perform);
    }
    lemma_next_awaited(memory, actions, 7);
    lemma_next_awaited(memory, actions, 9);
    lemma_next(memory, actions, 11);
    lemma_next_awaited(memory, actions, 12);
    lemma_next_awaited(memory, actions, 14);
    lemma_next_awaited(memory, actions, 16);
    lemma_next_awaited(memory, actions, 18);
    reveal(perform);
}

/// One block of a pass for one token.
proof fn lemma_decode_layer(memory: Memory, layer: u32, position: u32)
    requires
        layer < N_LAYERS,
        position < CACHE_ROWS,
        has_caches(memory),
        caches_places(memory, Gemm::F32, layer, position as nat),
        holds_row(memory, layer as nat, position as nat),
    ensures
        ({
            let end = perform_all(memory, decode_layer_actions(layer, position));
            &&& has_caches(end)
            &&& holds_row(end, layer as nat + 1, position as nat)
            &&& caches_places(end, Gemm::F32, layer, position as nat + 1)
            &&& forall|l: int|
                0 <= l < N_LAYERS && l != layer ==> #[trigger] end.keys[l] == memory.keys[l]
            &&& forall|l: int|
                0 <= l < N_LAYERS && l != layer ==> #[trigger] end.values[l] == memory.values[l]
        }),
{
    let query = query_actions(Gemm::F32, STEP_ROWS, layer);
    let attention = decode_attention_actions(layer, position);
    let ffn = ffn_start_actions(Gemm::F32, STEP_ROWS, layer);
    let whole = decode_layer_actions(layer, position);
    let rest = whole.skip((query.len() + attention.len() + ffn.len()) as int);
    assert(whole =~= query + attention + ffn + rest);
    lemma_query(memory, Gemm::F32, STEP_ROWS, layer);
    let m1 = perform_all(memory, query);
    lemma_decode_attention(m1, layer, position);
    let m2 = perform_all(m1, attention);
    lemma_ffn_start(m2, Gemm::F32, STEP_ROWS, layer);
    let m3 = perform_all(m2, ffn);
    lemma_nothing(m3, rest);
    lemma_next(m3, rest, 0);
    lemma_next_awaited(m3, rest, 1);
    let end = perform_all(m3, rest);
    let seen = Seq::new(
        position as nat + 1,
        |k: int| hidden_row(Gemm::F32, layer as nat, k as nat),
    );
    lemma_row_above(Gemm::F32, layer, position as nat, seen);
    assert(end.keys == m3.keys && end.values == m3.values && end.buffers[Buffer::Hidden].len()
        == STEP_ROWS && end.buffers[Buffer::Hidden][0] == m3.buffers[Buffer::Hidden][0]
        && padding_is_zero(end.buffers[Buffer::Hidden], 1)) by {
        reveal(perform);
    }
    lemma_both_parts(memory, query, attention);
    lemma_both_parts(memory, query + attention, ffn);
    lemma_both_parts(memory, query + attention + ffn, rest);
}

/// How many places the caches of a layer hold while a token passes: one more in the
/// blocks that are done.
spec fn cached_places(position: u32, done: nat, layer: u32) -> nat {
    if layer < done {
        position as nat + 1
    } else {
        position as nat
    }
}

/// The blocks of a pass for one token.
proof fn lemma_decode_layers(memory: Memory, position: u32, count: nat)
    requires
        position < CACHE_ROWS,
        count <= N_LAYERS,
        has_caches(memory),
        forall|layer: u32|
            layer < N_LAYERS ==> #[trigger] caches_places(
                memory,
                Gemm::F32,
                layer,
                position as nat,
            ),
        holds_row(memory, 0, position as nat),
    ensures
        ({
            let end = perform_all(memory, decode_layers_actions(position, count));
            &&& has_caches(end)
            &&& holds_row(end, count, position as nat)
            &&& forall|layer: u32|
                layer < N_LAYERS ==> #[trigger] caches_places(
                    end,
                    Gemm::F32,
                    layer,
                    cached_places(position, count, layer),
                )
        }),
    decreases count,
{
    let actions = decode_layers_actions(position, count);
    if count == 0 {
        lemma_nothing(memory, actions);
        assert forall|layer: u32| layer < N_LAYERS implies #[trigger] caches_places(
            perform_all(memory, actions),
            Gemm::F32,
            layer,
            cached_places(position, count, layer),
        ) by {
            assert(caches_places(memory, Gemm::F32, layer, position as nat));
        }
    } else {
        let fewer = (count - 1) as nat;
        let layer = fewer as u32;
        lemma_decode_layers(memory, position, fewer);
        let before = decode_layers_actions(position, fewer);
        let middle = perform_all(memory, before);
        let last = decode_layer_actions(layer, position);
        assert(caches_places(
            middle,
            Gemm::F32,
            layer,
            cached_places(position, fewer, layer),
        ));
        lemma_decode_layer(middle, layer, position);
        lemma_both_parts(memory, before, last);
        let end = perform_all(middle, last);
        assert forall|l: u32| l < N_LAYERS implies #[trigger] caches_places(
            end,
            Gemm::F32,
            l,
            cached_places(position, count, l),
        ) by {
            if l != layer {
                assert(caches_places(
                    middle,
                    Gemm::F32,
                    l,
                    cached_places(position, fewer, l),
                ));
                assert(end.keys[l as int] == middle.keys[l as int]);
                assert(end.values[l as int] == middle.values[l as int]);
            }
        }
    }
}

/// A pass for one token over the caches computes the row of the model at the token's
/// place, which is what a full pass computes there. It takes the caches with the keys
/// and values of every place before, and leaves them with those of this place too.
pub proof fn decode_plan_computes_the_model(memory: Memory, position: u32)
    requires
        position < CACHE_ROWS,
        has_caches(memory),
        forall|layer: u32|
            layer < N_LAYERS ==> #[trigger] caches_places(
                memory,
                Gemm::F32,
                layer,
                position as nat,
            ),
        holds_row(memory, 0, position as nat),
    ensures
        ({
            let end = perform_all(memory, decode_actions(position));
            &&& has_caches(end)
            &&& end.buffers[Buffer::Normed][0] == output_row(Gemm::F32, position as nat)
            &&& forall|layer: u32|
                layer < N_LAYERS ==> #[trigger] caches_places(
                    end,
                    Gemm::F32,
                    layer,
                    position as nat + 1,
                )
        }),
{
    let layers = decode_layers_actions(position, N_LAYERS as nat);
    let last = last_norm_actions(STEP_ROWS);
    lemma_decode_layers(memory, position, N_LAYERS as nat);
    let middle = perform_all(memory, layers);
    lemma_nothing(middle, last);
    lemma_next_awaited(middle, last, 0);
    let end = perform_all(middle, last);
    assert(end.keys == middle.keys && end.values == middle.values
        && end.buffers[Buffer::Normed][0] == output_row(Gemm::F32, position as nat)) by {
        reveal(perform);
    }
    assert forall|layer: u32| layer < N_LAYERS implies #[trigger] caches_places(
        end,
        Gemm::F32,
        layer,
        position as nat + 1,
    ) by {
        assert(caches_places(
            middle,
            Gemm::F32,
            layer,
            cached_places(position, N_LAYERS as nat, layer),
        ));
    }
    lemma_both_parts(memory, layers, last);
}

/// The memory that a pass starts from: a pass for one token gets the token's embedding
/// in a hidden state that is zero elsewhere.
pub open spec fn pass_memory(memory: Memory, pass: Pass) -> Memory {
    match pass {
        Pass::Prefill { .. } => memory,
        Pass::Decode { position, .. } => put(
            memory,
            Buffer::Hidden,
            Seq::new(
                STEP_ROWS as nat,
                |r: int|
                    if r == 0 {
                        Term::Embedding { place: position as nat }
                    } else {
                        Term::Zero
                    },
            ),
        ),
    }
}

/// The memory behind one pass of a cached generation.
pub open spec fn pass_result(memory: Memory, pass: Pass) -> Memory {
    perform_all(pass_memory(memory, pass), pass_actions(pass))
}

/// The memory behind the passes with the given outcomes.
pub open spec fn memory_after(memory: Memory, start: Progress, outcomes: Seq<Outcome>) -> Memory
    decreases outcomes.len(),
{
    if outcomes.len() == 0 {
        memory
    } else {
        let before = memory_after(memory, start, outcomes.drop_last());
        let progress = generate(start, outcomes.drop_last());
        if unfinished(progress) {
            pass_result(before, due_pass(progress))
        } else {
            before
        }
    }
}

/// The row of a pass's output that predicts the next token.
pub open spec fn prediction(memory: Memory, pass: Pass) -> Term {
    match pass {
        Pass::Prefill { used } => memory.buffers[Buffer::Normed][used - 1],
        Pass::Decode { .. } => memory.buffers[Buffer::Normed][0],
    }
}

/// The caches that a pass counts on.
proof fn lemma_generation_caches(memory: Memory, start: Progress, outcomes: Seq<Outcome>)
    requires
        has_caches(memory),
        start.generated.len() == 0,
        start.prompt.len() + start.limit <= CACHE_ROWS,
    ensures
        has_caches(memory_after(memory, start, outcomes)),
        unfinished(generate(start, outcomes)) ==> (due_pass(generate(start, outcomes)) matches
            Pass::Decode { position, .. } ==> position < CACHE_ROWS && forall|layer: u32|
            layer < N_LAYERS ==> #[trigger] caches_places(
                memory_after(memory, start, outcomes),
                Gemm::F32,
                layer,
                position as nat,
            )),
    decreases outcomes.len(),
{
    generation_stays_in_bounds(start, outcomes);
    if outcomes.len() > 0 {
        let earlier = outcomes.drop_last();
        let before = generate(start, earlier);
        lemma_generation_caches(memory, start, earlier);
        generation_stays_in_bounds(start, earlier);
        if unfinished(before) {
            let pass = due_pass(before);
            let then = pass_memory(memory_after(memory, start, earlier), pass);
            match pass {
                Pass::Prefill { used } => {
                    forward_plan_computes_the_model(then, Gemm::F32, CACHE_ROWS, used, true);
                },
                Pass::Decode { position, .. } => {
                    assert forall|layer: u32| layer < N_LAYERS implies #[trigger] caches_places(
                        then,
                        Gemm::F32,
                        layer,
                        position as nat,
                    ) by {
                        assert(caches_places(
                            memory_after(memory, start, earlier),
                            Gemm::F32,
                            layer,
                            position as nat,
                        ));
                    }
                    decode_plan_computes_the_model(then, position);
                },
            }
            match outcomes.last() {
                Outcome::Broken => {},
                Outcome::Token(token) => {
                    if token != END_OF_TEXT {
                        decoding_continues_the_caches(before, token);
                    }
                },
            }
        }
    }
}

/// Generation with caches predicts as the model does: whatever the passes before came
/// to, the pass that is due predicts the next token from the output of the model at
/// the last place of the text, as a full pass over the whole text would.
pub proof fn cached_generation_computes_the_model(
    memory: Memory,
    start: Progress,
    outcomes: Seq<Outcome>,
)
    requires
        has_caches(memory),
        start.generated.len() == 0,
        1 <= start.prompt.len(),
        start.prompt.len() + start.limit <= CACHE_ROWS,
        unfinished(generate(start, outcomes)),
    ensures
        ({
            let progress = generate(start, outcomes);
            let text = progress.prompt + progress.generated;
            let pass = due_pass(progress);
            let end = pass_result(memory_after(memory, start, outcomes), pass);
            &&& prediction(end, pass) == output_row(Gemm::F32, (text.len() - 1) as nat)
            &&& pass matches Pass::Decode { token, position } ==> position == text.len() - 1
                && token == text.last()
        }),
{
    let progress = generate(start, outcomes);
    let pass = due_pass(progress);
    let before = memory_after(memory, start, outcomes);
    let then = pass_memory(before, pass);
    generation_stays_in_bounds(start, outcomes);
    lemma_generation_caches(memory, start, outcomes);
    match pass {
        Pass::Prefill { used } => {
            forward_plan_computes_the_model(then, Gemm::F32, CACHE_ROWS, used, true);
        },
        Pass::Decode { position, .. } => {
            assert forall|layer: u32| layer < N_LAYERS implies #[trigger] caches_places(
                then,
                Gemm::F32,
                layer,
                position as nat,
            ) by {
                assert(caches_places(before, Gemm::F32, layer, position as nat));
            }
            decode_plan_computes_the_model(then, position);
        },
    }
}

/// The feed-forward network in packed half precision, from a buffer to `FfnOut`.
proof fn lemma_packed_ffn(
    memory: Memory,
    rows: u32,
    input: Buffer,
    input_packed: Buffer,
    layer: u32,
)
    requires
        tiled(rows),
        memory.buffers[input].len() == rows,
        input == Buffer::Input && input_packed == Buffer::InputPacked || input == Buffer::Normed
            && input_packed == Buffer::NormedPacked,
    ensures
        ({
            let x = memory.buffers[input];
            let end = perform_all(memory, packed_ffn_actions(rows, input, input_packed, layer));
            &&& end.buffers[Buffer::Hidden] == memory.buffers[Buffer::Hidden]
            &&& end.buffers[Buffer::FfnOut].len() == rows
            &&& forall|r: int|
                0 <= r < rows ==> #[trigger] end.buffers[Buffer::FfnOut][r] == feed_forward(
                    Gemm::Packed,
                    layer,
                    x[r],
                )
        }),
{
    let actions = packed_ffn_actions(rows, input, input_packed, layer);
    reveal(perform);
    lemma_nothing(memory, actions);
    lemma_next_awaited(memory, actions, 0);
    lemma_next_awaited(memory, actions, 2);
    lemma_next_awaited(memory, actions, 4);
    lemma_next_awaited(memory, actions, 6);
    lemma_next_awaited(memory, actions, 8);
    lemma_next_awaited(memory, actions, 10);
    lemma_next_awaited(memory, actions, 12);
}

/// The packed feed-forward plan computes the feed-forward network of every row of
/// its input.
pub proof fn packed_ffn_plan_computes_the_network(memory: Memory, rows: u32, r: int)
    requires
        tiled(rows),
        memory.buffers[Buffer::Input].len() == rows,
        0 <= r < rows,
    ensures
        perform_all(
            memory,
            packed_ffn_actions(rows, Buffer::Input, Buffer::InputPacked, 0),
        ).buffers[Buffer::FfnOut][r] == feed_forward(
            Gemm::Packed,
            0,
            memory.buffers[Buffer::Input][r],
        ),
{
    lemma_packed_ffn(memory, rows, Buffer::Input, Buffer::InputPacked, 0);
}

/// The attention of a packed layer, in both directions.
proof fn lemma_packed_attention(memory: Memory, rows: u32, layer: u32)
    requires
        tiled(rows),
        memory.buffers[Buffer::Input].len() == rows,
        memory.buffers[Buffer::Hidden] == memory.buffers[Buffer::Input],
    ensures
        ({
            let x = memory.buffers[Buffer::Input];
            let end = perform_all(memory, packed_attention_actions(rows, layer));
            &&& end.buffers[Buffer::Hidden].len() == rows
            &&& forall|r: int|
                0 <= r < rows ==> #[trigger] end.buffers[Buffer::Hidden][r] == attended(
                    Gemm::Packed,
                    layer,
                    x[r],
                    x,
                )
        }),
{
    let actions = packed_attention_actions(rows, layer);
    let x = memory.buffers[Buffer::Input];
    lemma_nothing(memory, actions);
    lemma_next_awaited(memory, actions, 0);
    lemma_next_awaited(memory, actions, 2);
    lemma_next_awaited(memory, actions, 4);
    lemma_next_awaited(memory, actions, 6);
    lemma_next_awaited(memory, actions, 8);
    let split = perform_first(memory, actions, 10);
    assert(split.buffers[Buffer::Hidden] == x && split.buffers[Buffer::Queries].len() == rows
        && split.buffers[Buffer::Keys] =~= Seq::new(
        x.len(),
        |k: int| key_of(Gemm::Packed, layer, x[k]),
    ) && split.buffers[Buffer::Values] =~= Seq::new(
        x.len(),
        |k: int| value_of(Gemm::Packed, layer, x[k]),
    ) && forall|r: int|
        0 <= r < rows ==> #[trigger] split.buffers[Buffer::Queries][r] == Term::Query(
            Box::new(projections(Gemm::Packed, layer, x[r])),
        )) by {
        reveal(perform);
    }
    lemma_next_awaited(memory, actions, 10);
    let attending = perform_first(memory, actions, 12);
    assert forall|r: int| 0 <= r < rows implies #[trigger] attending.buffers[Buffer::Attended][r]
        == attention(Gemm::Packed, layer, x[r], x) by {
        reveal(perform);
        assert(split.buffers[Buffer::Keys].take(rows as int) =~= split.buffers[Buffer::Keys]);
        assert(split.buffers[Buffer::Values].take(rows as int) =~= split.buffers[Buffer::Values]);
        assert(split.buffers[Buffer::Queries][r] == Term::Query(
            Box::new(projections(Gemm::Packed, layer, x[r])),
        ));
    }
    assert(attending.buffers[Buffer::Attended].len() == rows && attending.buffers[Buffer::Hidden]
        == x) by {
        reveal(perform);
    }
    lemma_next_awaited(memory, actions, 12);
    lemma_next_awaited(memory, actions, 14);
    lemma_next_awaited(memory, actions, 16);
    lemma_next_awaited(memory, actions, 18);
    lemma_next_awaited(memory, actions, 20);
    reveal(perform);
}

/// The packed layer computes a whole block of every row of its input, in packed half
/// precision; every row sees all rows.
pub proof fn packed_layer_plan_computes_a_block(memory: Memory, rows: u32, r: int)
    requires
        tiled(rows),
        memory.buffers[Buffer::Input].len() == rows,
        memory.buffers[Buffer::Hidden] == memory.buffers[Buffer::Input],
        0 <= r < rows,
    ensures
        perform_all(memory, packed_layer_actions(rows, 0)).buffers[Buffer::Hidden][r] == block(
            Gemm::Packed,
            0,
            memory.buffers[Buffer::Input][r],
            memory.buffers[Buffer::Input],
        ),
{
    let attending = packed_attention_actions(rows, 0);
    let ffn = packed_ffn_actions(rows, Buffer::Normed, Buffer::NormedPacked, 0);
    let whole = packed_layer_actions(rows, 0);
    let norm = whole.subrange(attending.len() as int, attending.len() as int + 2);
    let rest = whole.skip(attending.len() as int + 2 + ffn.len());
    assert(whole =~= attending + norm + ffn + rest);
    lemma_packed_attention(memory, rows, 0);
    let m1 = perform_all(memory, attending);
    lemma_nothing(m1, norm);
    lemma_next_awaited(m1, norm, 0);
    let m2 = perform_all(m1, norm);
    assert(m2.buffers[Buffer::Hidden] == m1.buffers[Buffer::Hidden]
        && m2.buffers[Buffer::Normed].len() == rows && m2.buffers[Buffer::Normed][r]
        == Term::Normed(
        Norm::BeforeFfn { layer: 0 },
        Box::new(m1.buffers[Buffer::Hidden][r]),
    )) by {
        reveal(perform);
    }
    lemma_packed_ffn(m2, rows, Buffer::Normed, Buffer::NormedPacked, 0);
    let m3 = perform_all(m2, ffn);
    lemma_nothing(m3, rest);
    lemma_next_awaited(m3, rest, 0);
    assert(m3.buffers[Buffer::FfnOut][r] == feed_forward(
        Gemm::Packed,
        0,
        m2.buffers[Buffer::Normed][r],
    ));
    assert(m1.buffers[Buffer::Hidden][r] == attended(
        Gemm::Packed,
        0,
        memory.buffers[Buffer::Input][r],
        memory.buffers[Buffer::Input],
    ));
    assert(perform_all(m3, rest).buffers[Buffer::Hidden][r] == Term::Sum(
        Box::new(m3.buffers[Buffer::Hidden][r]),
        Box::new(m3.buffers[Buffer::FfnOut][r]),
    )) by {
        reveal(perform);
    }
    lemma_both_parts(memory, attending, norm);
    lemma_both_parts(memory, attending + norm, ffn);
    lemma_both_parts(memory, attending + norm + ffn, rest);
}

/// A parameter of the model.
pub enum Parameter {
    /// Scale and shift of a normalisation.
    Scale(Norm),
    Weight { layer: u32, part: Part },
    Bias { layer: u32, part: Part },
}

/// The parameter that an action uses, if it uses one.
pub open spec fn parameter(action: Action) -> Option<Parameter> {
    match action {
        Action::Normalize { norm, .. } => Some(Parameter::Scale(norm)),
        Action::Multiply { layer, part, .. } => Some(Parameter::Weight { layer, part }),
        Action::AddBias { layer, part, .. } => Some(Parameter::Bias { layer, part }),
        _ => None,
    }
}

/// The parameters that the first `count` actions use, in order.
pub open spec fn parameters_first(actions: Seq<Action>, count: nat) -> Seq<Parameter>
    decreases count,
{
    if count == 0 {
        Seq::empty()
    } else {
        let before = parameters_first(actions, (count - 1) as nat);
        match parameter(actions[count - 1]) {
            Some(used) => before.push(used),
            None => before,
        }
    }
}

/// The parameters that a plan uses, in order.
pub open spec fn parameters(actions: Seq<Action>) -> Seq<Parameter> {
    parameters_first(actions, actions.len())
}

/// The parameters of one layer, in the order in which a row meets them.
pub open spec fn layer_parameters(layer: u32) -> Seq<Parameter> {
    seq![
        Parameter::Scale(Norm::BeforeAttention { layer }),
        Parameter::Weight { layer, part: Part::Qkv },
        Parameter::Bias { layer, part: Part::Qkv },
        Parameter::Weight { layer, part: Part::Proj },
        Parameter::Bias { layer, part: Part::Proj },
        Parameter::Scale(Norm::BeforeFfn { layer }),
        Parameter::Weight { layer, part: Part::Fc },
        Parameter::Bias { layer, part: Part::Fc },
        Parameter::Weight { layer, part: Part::FcProj },
        Parameter::Bias { layer, part: Part::FcProj },
    ]
}

proof fn lemma_parameters_first(first: Seq<Action>, second: Seq<Action>, count: nat)
    requires
        count <= first.len(),
    ensures
        parameters_first(first + second, count) == parameters_first(first, count),
    decreases count,
{
    if count > 0 {
        lemma_parameters_first(first, second, (count - 1) as nat);
        assert((first + second)[count - 1] == first[count - 1]);
    }
}

proof fn lemma_parameters_second(first: Seq<Action>, second: Seq<Action>, count: nat)
    requires
        count <= second.len(),
    ensures
        parameters_first(first + second, first.len() + count) == parameters(first)
            + parameters_first(second, count),
    decreases count,
{
    if count == 0 {
        lemma_parameters_first(first, second, first.len());
        assert(parameters(first) + parameters_first(second, 0) =~= parameters(first));
    } else {
        lemma_parameters_second(first, second, (count - 1) as nat);
        assert((first + second)[first.len() + count - 1] == second[count - 1]);
        assert(parameters_first(first + second, first.len() + count) =~= parameters(first)
            + parameters_first(second, count));
    }
}

/// The parameters of one list of actions behind another.
proof fn lemma_parameters_of_both(first: Seq<Action>, second: Seq<Action>)
    ensures
        parameters(first + second) == parameters(first) + parameters(second),
{
    lemma_parameters_second(first, second, second.len());
}

/// The parameters of a layer up to its attention, and behind it.
proof fn lemma_parameters_around(gemm: Gemm, rows: u32, layer: u32)
    ensures
        parameters(query_actions(gemm, rows, layer)) == layer_parameters(layer).take(3),
        parameters(ffn_start_actions(gemm, rows, layer)) == layer_parameters(layer).skip(5),
{
    reveal_with_fuel(parameters_first, 14);
    assert(parameters(query_actions(gemm, rows, layer)) =~= layer_parameters(layer).take(3));
    assert(parameters(ffn_start_actions(gemm, rows, layer)) =~= layer_parameters(layer).skip(5));
}

/// The parameters of the attention of a full pass.
proof fn lemma_parameters_of_attention(gemm: Gemm, rows: u32, used: u32, layer: u32)
    ensures
        parameters(attention_actions(gemm, rows, used, layer)) == layer_parameters(
            layer,
        ).subrange(3, 5),
        parameters(clear_padding(rows, used) + seq![Action::Sync]) == Seq::<Parameter>::empty(),
{
    reveal_with_fuel(parameters_first, 12);
    assert(parameters(attention_actions(gemm, rows, used, layer)) =~= layer_parameters(
        layer,
    ).subrange(3, 5));
}

/// The parameters of the attention of a pass for one token.
proof fn lemma_parameters_of_decoding(layer: u32, position: u32)
    ensures
        parameters(decode_attention_actions(layer, position)) == layer_parameters(
            layer,
        ).subrange(3, 5),
{
    reveal_with_fuel(parameters_first, 21);
    assert(parameters(decode_attention_actions(layer, position)) =~= layer_parameters(
        layer,
    ).subrange(3, 5));
}

proof fn lemma_parameters_of_layer(gemm: Gemm, rows: u32, used: u32, layer: u32, store: bool)
    ensures
        parameters(layer_actions(gemm, rows, used, layer, store)) == layer_parameters(layer),
{
    let query = query_actions(gemm, rows, layer);
    let storing: Seq<Action> = if store {
        seq![Action::StoreCaches { layer }]
    } else {
        Seq::empty()
    };
    let attending = attention_actions(gemm, rows, used, layer);
    let ffn = ffn_start_actions(gemm, rows, layer);
    let rest = clear_padding(rows, used) + seq![Action::Sync];
    lemma_parameters_around(gemm, rows, layer);
    lemma_parameters_of_attention(gemm, rows, used, layer);
    assert(parameters(storing) =~= Seq::empty()) by {
        reveal_with_fuel(parameters_first, 2);
    }
    assert(ffn_actions(gemm, rows, used, layer) =~= ffn + rest);
    assert(layer_actions(gemm, rows, used, layer, store) =~= query + storing + attending + ffn
        + rest);
    lemma_parameters_of_both(query, storing);
    lemma_parameters_of_both(query + storing, attending);
    lemma_parameters_of_both(query + storing + attending, ffn);
    lemma_parameters_of_both(query + storing + attending + ffn, rest);
    assert(parameters(layer_actions(gemm, rows, used, layer, store)) =~= layer_parameters(layer));
}

proof fn lemma_parameters_of_decode_layer(layer: u32, position: u32)
    ensures
        parameters(decode_layer_actions(layer, position)) == layer_parameters(layer),
{
    let query = query_actions(Gemm::F32, STEP_ROWS, layer);
    let attending = decode_attention_actions(layer, position);
    let ffn = ffn_start_actions(Gemm::F32, STEP_ROWS, layer);
    let whole = decode_layer_actions(layer, position);
    let rest = whole.skip((query.len() + attending.len() + ffn.len()) as int);
    assert(whole =~= query + attending + ffn + rest);
    lemma_parameters_around(Gemm::F32, STEP_ROWS, layer);
    lemma_parameters_of_decoding(layer, position);
    assert(parameters(rest) =~= Seq::empty()) by {
        reveal_with_fuel(parameters_first, 4);
    }
    lemma_parameters_of_both(query, attending);
    lemma_parameters_of_both(query + attending, ffn);
    lemma_parameters_of_both(query + attending + ffn, rest);
    assert(parameters(whole) =~= layer_parameters(layer));
}

/// Whether a list of parameters is that of the layers below `count`, each layer's
/// parameters once and in order.
pub open spec fn lists_layers(list: Seq<Parameter>, count: nat) -> bool {
    &&& list.len() == 10 * count
    &&& forall|layer: int|
        0 <= layer < count ==> #[trigger] list.subrange(10 * layer, 10 * layer + 10)
            == layer_parameters(layer as u32)
}

proof fn lemma_lists_one_more(list: Seq<Parameter>, count: nat)
    requires
        lists_layers(list, count),
    ensures
        lists_layers(list + layer_parameters(count as u32), count + 1),
{
    let longer = list + layer_parameters(count as u32);
    assert forall|layer: int| 0 <= layer < count + 1 implies #[trigger] longer.subrange(
        10 * layer,
        10 * layer + 10,
    ) == layer_parameters(layer as u32) by {
        if layer < count {
            assert(longer.subrange(10 * layer, 10 * layer + 10) =~= list.subrange(
                10 * layer,
                10 * layer + 10,
            ));
        } else {
            assert(longer.subrange(10 * layer, 10 * layer + 10) =~= layer_parameters(
                layer as u32,
            ));
        }
    }
}

proof fn lemma_parameters_of_layers(
    gemm: Gemm,
    rows: u32,
    used: u32,
    store: bool,
    position: u32,
    count: nat,
)
    requires
        count <= N_LAYERS,
    ensures
        lists_layers(parameters(layers_actions(gemm, rows, used, store, count)), count),
        lists_layers(parameters(decode_layers_actions(position, count)), count),
    decreases count,
{
    if count > 0 {
        let fewer = (count - 1) as nat;
        let layer = fewer as u32;
        lemma_parameters_of_layers(gemm, rows, used, store, position, fewer);
        lemma_parameters_of_layer(gemm, rows, used, layer, store);
        lemma_parameters_of_both(
            layers_actions(gemm, rows, used, store, fewer),
            layer_actions(gemm, rows, used, layer, store),
        );
        lemma_lists_one_more(parameters(layers_actions(gemm, rows, used, store, fewer)), fewer);
        lemma_parameters_of_decode_layer(layer, position);
        lemma_parameters_of_both(
            decode_layers_actions(position, fewer),
            decode_layer_actions(layer, position),
        );
        lemma_lists_one_more(parameters(decode_layers_actions(position, fewer)), fewer);
    }
}

/// Every pass uses every parameter of the model once: layer by layer, in the order in
/// which a row meets them, and the last normalisation behind all layers.
pub proof fn every_parameter_is_used_once(
    gemm: Gemm,
    rows: u32,
    used: u32,
    store: bool,
    position: u32,
)
    ensures
        ({
            let full = parameters(forward_actions(gemm, rows, used, store));
            let single = parameters(decode_actions(position));
            &&& full.len() == 121 && single.len() == 121
            &&& lists_layers(full.take(120), 12)
            &&& lists_layers(single.take(120), 12)
            &&& full.last() == Parameter::Scale(Norm::Last)
            &&& single.last() == Parameter::Scale(Norm::Last)
        }),
{
    let embedding = embed_actions(rows, used);
    let layers = layers_actions(gemm, rows, used, store, N_LAYERS as nat);
    let steps = decode_layers_actions(position, N_LAYERS as nat);
    lemma_parameters_of_layers(gemm, rows, used, store, position, N_LAYERS as nat);
    assert(parameters(embedding) =~= Seq::empty()) by {
        reveal_with_fuel(parameters_first, 5);
    }
    let one: Seq<Parameter> = seq![Parameter::Scale(Norm::Last)];
    assert(parameters(last_norm_actions(rows)) =~= one) by {
        reveal_with_fuel(parameters_first, 3);
    }
    assert(parameters(last_norm_actions(STEP_ROWS)) =~= one) by {
        reveal_with_fuel(parameters_first, 3);
    }
    lemma_parameters_of_both(embedding, layers);
    lemma_parameters_of_both(embedding + layers, last_norm_actions(rows));
    lemma_parameters_of_both(steps, last_norm_actions(STEP_ROWS));
    assert(parameters(forward_actions(gemm, rows, used, store)).take(120) =~= parameters(layers));
    assert(parameters(decode_actions(position)).take(120) =~= parameters(steps));
}

/// Whether every attention of the plan over a full sequence hides the rows behind
/// the one that attends.
pub open spec fn hides_the_future(actions: Seq<Action>) -> bool {
    forall|i: int|
        0 <= i < actions.len() ==> (#[trigger] actions[i] matches Action::Attend {
            method,
            causal,
            ..
        } ==> method == Attention::Flash && causal == 1)
}

proof fn lemma_layers_hide_the_future(
    gemm: Gemm,
    rows: u32,
    used: u32,
    store: bool,
    count: nat,
)
    ensures
        hides_the_future(layers_actions(gemm, rows, used, store, count)),
    decreases count,
{
    if count > 0 {
        lemma_layers_hide_the_future(gemm, rows, used, store, (count - 1) as nat);
    }
}

/// Every attention of a full pass is flash attention under the causal mask.
pub proof fn forward_attention_is_causal(gemm: Gemm, rows: u32, used: u32, store: bool)
    ensures
        hides_the_future(forward_actions(gemm, rows, used, store)),
{
    lemma_layers_hide_the_future(gemm, rows, used, store, N_LAYERS as nat);
}

/// The sizes are those of GPT-2 small.
pub proof fn sizes_are_those_of_the_model()
    ensures
        N_LAYERS == 12,
        D_MODEL == 768,
        N_HEADS == 12,
        D_HEAD == 64,
        N_HEADS * D_HEAD == D_MODEL,
        D_QKV == 3 * D_MODEL,
        D_FFN == 4 * D_MODEL,
        CACHE_ROWS == 128,
        STEP_ROWS == 32,
        MAX_ROWS * D_FFN <= u32::MAX < (MAX_ROWS + 1) * D_FFN,
{
}

} // verus!
