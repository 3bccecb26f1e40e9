# gpu_test_harness

A harness for kernels that run on a GPU and ask their host for services. The
library holds what can be decided without a device, and proves it with Verus:
which launches a pass over the language model consists of, how data is laid out,
and whether what a run left behind is what it should have left behind.

## Layout

- `src/` is the library. Every item is verified.
  - `priority_safety`, `obstacle`, `gates`, `supervision`: the records of the
    priority stress runs, the conditions they are held to, and what becomes of
    memory that a kernel may still use.
  - `plan`, `dataflow`, `launch`: the launches of a forward pass, of a decoding
    step with caches, of a feed-forward block and of a layer; and proofs that each
    launch reads only what an earlier one wrote, which goes for the rows of the
    caches over a whole generation too.
  - `layout`, `float_bits`, `wire`: transposition, heads, half precision, bytes.
  - `ranking`, `generation`, `inspection`: the choice of the next token, the loop
    around it, and the inspection of hidden states.
  - `components`, `fragments`, `search`, `scaling`, `pipelines`, `demos`: the
    judgements of the single runs.
  - `messages`, `tally`, `text`, `error`: texts from kernels, counts and times,
    reports.
- `tests/` runs the library on concrete values.
- `app/` is ordinary Rust around it: the device through `cudarc`, threads, files,
  `tokio`, and everything in floating point. What only the host machine can supply
  (compiled kernels, mailboxes, the model's weights, a tokenizer) is behind the
  traits of `app/host.rs`.

Numbers in floating point enter the library as their bit patterns, or as text
where a report shows them.
