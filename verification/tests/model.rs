use gpu_test_harness::generation::{
    compare_rankings, compare_texts, continuation_complete, count_agreeing,
    judge_cached_generation, judge_generation, judge_generations, padded_rows, EndPolicy, Generation, Outcome, Pass, END_OF_TEXT,
};
use gpu_test_harness::launch::{
    attention_complete, attention_launch, block_count, element_launch, head_launch, quad_launch,
    row_launch, tile_launch, Dims,
};
use gpu_test_harness::layout::{
    clear_rows, concat_heads, head_row, resize, round_to_half, row_of, split_heads, to_col_major,
    to_col_major_f16x2,
};
use gpu_test_harness::plan::{
    buffer_len, plan_decode, plan_forward, plan_packed_ffn, plan_packed_layer, Action, Attention,
    Buffer, Cache, Gemm, Norm, Part,
};

fn dims(grid_x: u32, grid_y: u32, block_x: u32, shared_bytes: u32) -> Dims {
    Dims { grid_x, grid_y, block_x, shared_bytes }
}

#[test]
fn launches_cover_their_work() {
    assert_eq!(block_count(0, 256), 0);
    assert_eq!(block_count(256, 256), 1);
    assert_eq!(block_count(257, 256), 2);
    assert_eq!(block_count(u32::MAX, 256), 1 << 24);
    assert_eq!(element_launch(1000), dims(4, 1, 256, 0));
    assert_eq!(quad_launch(98304), dims(96, 1, 256, 0));
    assert_eq!(quad_launch(1025), dims(2, 1, 256, 0));
    assert_eq!(row_launch(7), dims(7, 1, 32, 0));
    assert_eq!(tile_launch(64, 2304, 1536), dims(2, 144, 128, 1536));
    assert_eq!(attention_launch(12, 33), dims(12, 2, 32, 16384));
    assert_eq!(head_launch(12, 32), dims(12, 1, 32, 4096));
    assert!(attention_complete(24, 12, 33));
    assert!(!attention_complete(23, 12, 33));
}

#[test]
fn buffers_have_room_for_their_rows() {
    assert_eq!(buffer_len(32, Buffer::Hidden), 32 * 768);
    assert_eq!(buffer_len(32, Buffer::NormedPacked), 32 * 384);
    assert_eq!(buffer_len(32, Buffer::Qkv), 32 * 2304);
    assert_eq!(buffer_len(32, Buffer::ActivatedPacked), 32 * 1536);
    assert_eq!(buffer_len(32, Buffer::QueryRow), 768);
}

fn symbols(plan: &[Action]) -> Vec<&'static str> {
    plan.iter().filter_map(|a| a.symbol()).collect()
}

#[test]
fn forward_plan_runs_twelve_layers() {
    let plan = plan_forward(Gemm::Bf16, 32, 32, false);
    let launched = symbols(&plan);
    let layer = [
        "layer_norm",
        "full_gemm_bf16",
        "bias_add",
        "split_qkv",
        "flash_attention",
        "concat_heads",
        "full_gemm_bf16",
        "bias_add",
        "elementwise_add",
        "layer_norm",
        "full_gemm_bf16",
        "bias_add",
        "gelu_forward",
        "full_gemm_bf16",
        "bias_add",
        "elementwise_add",
    ];
    assert_eq!(launched.len(), 1 + 12 * layer.len() + 1);
    assert_eq!(launched[0], "embedding_lookup");
    for l in 0..12 {
        assert_eq!(&launched[1 + 16 * l..1 + 16 * (l + 1)], &layer);
    }
    assert_eq!(launched[193], "layer_norm");
    assert!(!plan.iter().any(|a| matches!(a, Action::Clear { .. })));
    assert!(!plan.iter().any(|a| matches!(a, Action::StoreCaches { .. })));
    assert_eq!(plan.last(), Some(&Action::Sync));
}

#[test]
fn forward_plan_clears_its_padding() {
    let plan = plan_forward(Gemm::F32, 64, 40, true);
    let clears: Vec<&Action> =
        plan.iter().filter(|a| matches!(a, Action::Clear { .. })).collect();
    assert_eq!(clears.len(), 1 + 2 * 12);
    assert_eq!(
        clears[0],
        &Action::Clear {
            dims: dims(72, 1, 256, 0),
            target: Buffer::Hidden,
            start: 40 * 768,
            end: 64 * 768,
        }
    );
    let stores = plan.iter().filter(|a| matches!(a, Action::StoreCaches { .. })).count();
    assert_eq!(stores, 12);
}

#[test]
fn products_take_the_depth_of_their_kernel() {
    for (gemm, depth, shared) in [
        (Gemm::F32, 768, 3072),
        (Gemm::Bf16, 48, 1536),
        (Gemm::Tf32, 96, 1536),
        (Gemm::F32In, 48, 1536),
        (Gemm::Packed, 48, 1536),
    ] {
        let plan = plan_forward(gemm, 32, 5, false);
        let first = plan.iter().find(|a| matches!(a, Action::Multiply { .. }));
        assert_eq!(
            first,
            Some(&Action::Multiply {
                dims: dims(1, 144, 128, shared),
                kernel: gemm,
                input: Buffer::Normed,
                layer: 0,
                part: Part::Qkv,
                output: Buffer::Qkv,
                depth,
                columns: 2304,
            })
        );
    }
}

#[test]
fn decode_plan_appends_before_it_attends() {
    let plan = plan_decode(17);
    let append = plan
        .iter()
        .position(|a| {
            matches!(a, Action::AppendCache { cache: Cache::Values, layer: 3, position: 17, .. })
        })
        .unwrap();
    let attend = plan
        .iter()
        .position(|a| matches!(a, Action::AttendCaches { layer: 3, .. }))
        .unwrap();
    assert!(append < attend);
    assert_eq!(
        plan[attend],
        Action::AttendCaches {
            dims: dims(12, 1, 32, 16384),
            layer: 3,
            queries: 1,
            keys: 18,
            head_width: 64,
            causal: 1,
            offset: 17,
            cache_rows: 128,
        }
    );
    assert!(symbols(&plan).iter().all(|s| *s != "embedding_lookup"));
    assert!(matches!(
        plan[plan.len() - 2],
        Action::Normalize { norm: Norm::Last, input: Buffer::Hidden, .. }
    ));
}

#[test]
fn packed_plans() {
    assert_eq!(
        symbols(&plan_packed_ffn(32)),
        vec![
            "f32_to_f16x2_pack",
            "full_gemm",
            "bias_add",
            "gelu_forward",
            "f32_to_f16x2_pack",
            "full_gemm",
            "bias_add",
        ]
    );
    let plan = plan_packed_layer(32);
    assert_eq!(
        symbols(&plan),
        vec![
            "layer_norm",
            "f32_to_f16x2_pack",
            "full_gemm",
            "bias_add",
            "split_qkv",
            "attention_head",
            "concat_heads",
            "f32_to_f16x2_pack",
            "full_gemm",
            "bias_add",
            "elementwise_add",
            "layer_norm",
            "f32_to_f16x2_pack",
            "full_gemm",
            "bias_add",
            "gelu_forward",
            "f32_to_f16x2_pack",
            "full_gemm",
            "bias_add",
            "elementwise_add",
        ]
    );
    assert!(plan.iter().any(|a| matches!(
        a,
        Action::Attend { method: Attention::PerHead, causal: 0, .. }
    )));
}

#[test]
fn weights_are_transposed() {
    let w: Vec<u32> = (0..6).collect();
    assert_eq!(to_col_major(&w, 2, 3), vec![0, 3, 1, 4, 2, 5]);
    assert_eq!(to_col_major(&to_col_major(&w, 2, 3), 3, 2), w);
    let numbers: Vec<u32> = [1.0f32, 2.0, -1.0, 0.5].iter().map(|n| n.to_bits()).collect();
    assert_eq!(to_col_major_f16x2(&numbers, 2, 2), vec![0xBC00_3C00, 0x3800_4000]);
    assert_eq!(
        round_to_half(&vec![0.1f32.to_bits()]),
        vec![0.099_975_586f32.to_bits()]
    );
}

#[test]
fn heads_are_split_and_joined() {
    let (rows, heads, width) = (3, 2, 2);
    let qkv: Vec<usize> = (0..rows * 3 * heads * width).collect();
    let keys = split_heads(&qkv, 1, rows, heads, width);
    assert_eq!(keys, vec![4, 5, 16, 17, 28, 29, 6, 7, 18, 19, 30, 31]);
    let joined = concat_heads(&keys, rows, heads, width);
    assert_eq!(joined, vec![4, 5, 6, 7, 16, 17, 18, 19, 28, 29, 30, 31]);
    assert_eq!(head_row(&keys, rows, heads, width, 1), vec![16, 17, 18, 19]);
    assert_eq!(row_of(&joined, 4, 1), vec![16, 17, 18, 19]);
}

#[test]
fn rows_are_resized_and_cleared() {
    assert_eq!(resize(&vec![1, 2], 4, 9), vec![1, 2, 9, 9]);
    assert_eq!(resize(&vec![1, 2, 3], 2, 9), vec![1, 2]);
    let mut data = vec![1; 8];
    clear_rows(&mut data, 2, 1, 3, 0);
    assert_eq!(data, vec![1, 1, 0, 0, 0, 0, 1, 1]);
}

#[test]
fn rows_are_padded_to_tiles() {
    assert_eq!(padded_rows(0), 32);
    assert_eq!(padded_rows(32), 32);
    assert_eq!(padded_rows(33), 64);
    assert_eq!(padded_rows(100), 128);
}

#[test]
fn generation_ends_at_its_limit() {
    let mut generation = Generation::start(&vec![1, 2, 3], 5, EndPolicy::Dropped);
    assert_eq!(generation.limit(), 2);
    assert_eq!(generation.next_pass(), Pass::Prefill { used: 3 });
    generation.observe(Outcome::Token(7));
    assert_eq!(generation.next_pass(), Pass::Decode { token: 7, position: 3 });
    assert!(generation.is_unfinished());
    generation.observe(Outcome::Token(8));
    assert!(!generation.is_unfinished());
    assert_eq!(generation.tokens(), &vec![1, 2, 3, 7, 8]);
    assert_eq!(generation.generated(), &vec![7, 8]);
    assert_eq!(Generation::start(&vec![1], 128, EndPolicy::Kept).limit(), 50);
}

#[test]
fn policies_differ_only_in_the_end() {
    let mut texts = Vec::new();
    for policy in [EndPolicy::Dropped, EndPolicy::Kept] {
        let mut generation = Generation::start(&vec![1], 20, policy);
        generation.observe(Outcome::Token(4));
        generation.observe(Outcome::Token(END_OF_TEXT));
        assert!(!generation.is_unfinished());
        texts.push(generation.generated().clone());
    }
    assert_eq!(texts, vec![vec![4], vec![4, END_OF_TEXT]]);
    let mut generation = Generation::start(&vec![1], 20, EndPolicy::Kept);
    generation.observe(Outcome::Broken);
    assert!(!generation.is_unfinished());
    assert!(generation.generated().is_empty());
}

#[test]
fn generations_are_judged() {
    assert!(continuation_complete(50, 60));
    assert!(continuation_complete(7, 7));
    assert!(!continuation_complete(6, 7));
    assert!(!continuation_complete(49, 60));
    assert!(judge_generation(true).is_ok());
    let error = judge_generation(false).err().unwrap();
    assert_eq!(
        (error.test, error.detail.as_str()),
        ("generation", "some prompts failed to generate 50 tokens")
    );
}

#[test]
fn cached_generation_is_compared() {
    let agreement = compare_texts(&vec![1, 2, 3, 4], &vec![1, 2, 9]);
    assert_eq!(
        (agreement.compared, agreement.first_mismatch, agreement.matching),
        (3, Some(2), 2)
    );
    let error = judge_cached_generation(&agreement, 4).err().unwrap();
    assert_eq!(
        (error.test, error.detail.as_str()),
        (
            "kv_cached_generation",
            "only 2 tokens matched (need 50+). First mismatch at step 2"
        )
    );
    assert!(judge_cached_generation(&agreement, 2).is_ok());
    let agreement = compare_texts(&vec![1, 2], &vec![1, 2, 9]);
    assert_eq!((agreement.first_mismatch, agreement.matching), (None, 2));
    let error = judge_cached_generation(&agreement, 5).err().unwrap();
    assert_eq!(
        error.detail,
        "only 2 tokens matched (need 50+). First mismatch at step 0"
    );
    assert_eq!(count_agreeing(&vec![1, 2, 3], &vec![1, 5, 3]), 2);
}

#[test]
fn every_prompt_must_be_continued() {
    assert!(judge_generations(&vec![50, 7, 60], &vec![60, 7, 90]).is_ok());
    assert!(judge_generations(&Vec::new(), &Vec::new()).is_ok());
    for (generated, limits) in [
        (vec![50, 49], vec![50, 60]),
        (vec![6, 50], vec![7, 50]),
        (vec![0], vec![1]),
    ] {
        let error = judge_generations(&generated, &limits).err().unwrap();
        assert_eq!(
            (error.test, error.detail.as_str()),
            ("generation", "some prompts failed to generate 50 tokens")
        );
    }
}

#[test]
fn rankings_are_compared_rank_by_rank() {
    let agreement = compare_rankings(&vec![9, 4, 7, 1, 3], &vec![9, 7, 4, 1, 8]);
    assert_eq!(agreement.ranks, vec![true, false, false, true, false]);
    assert_eq!(agreement.matching, 2);
    let agreement = compare_rankings(&vec![5, 6], &vec![5, 6]);
    assert_eq!((agreement.ranks, agreement.matching), (vec![true, true], 2));
    let agreement = compare_rankings(&vec![5, 6, 7], &vec![5]);
    assert_eq!((agreement.ranks, agreement.matching), (vec![true, false, false], 1));
    let agreement = compare_rankings(&Vec::new(), &vec![5]);
    assert_eq!((agreement.ranks, agreement.matching), (Vec::new(), 0));
}

#[test]
fn decoding_takes_up_where_the_caches_end() {
    let mut generation = Generation::start(&vec![11, 12, 13], 128, EndPolicy::Kept);
    let mut cached = 0;
    for token in 20..25 {
        match generation.next_pass() {
            Pass::Prefill { used } => {
                let stored = plan_forward(Gemm::F32, 128, used, true)
                    .iter()
                    .filter(|a| matches!(a, Action::StoreCaches { .. }))
                    .count();
                assert_eq!((cached, stored), (0, 12));
                cached = used;
            }
            Pass::Decode { position, .. } => {
                assert_eq!(position, cached);
                for action in plan_decode(position) {
                    match action {
                        Action::AppendCache { position, .. } => assert_eq!(position, cached),
                        Action::AttendCaches { keys, .. } => assert_eq!(keys, cached + 1),
                        Action::GatherQuery { target_rows, position, .. } => {
                            assert_eq!((target_rows, position), (1, 0));
                        }
                        _ => {}
                    }
                }
                cached += 1;
            }
        }
        generation.observe(Outcome::Token(token));
    }
    assert_eq!(cached, 7);
}
