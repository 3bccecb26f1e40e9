use gpu_test_harness::error::HarnessError;
use gpu_test_harness::ranking::top_tokens;
use gpu_test_harness::search::{
    batch_file, database_file, is_doubtful, judge_batch, judge_search, parse_batch, parse_results,
    query_file, Hit,
};
use gpu_test_harness::wire::{encode, read_word};

fn rejection<T>(result: Result<T, HarnessError>) -> (&'static str, String) {
    let error = result.err().unwrap();
    (error.test, error.detail)
}

fn hit(id: u32, score: f32) -> Hit {
    Hit { id, score: score.to_bits() }
}

fn shown(hits: &[Hit]) -> Vec<String> {
    hits.iter()
        .map(|h| format!("{:?}", f32::from_bits(h.score)))
        .collect()
}

#[test]
fn words_are_little_endian() {
    let bytes = encode(&vec![0x0403_0201, 0xFFFF_FFFF, 7]);
    assert_eq!(bytes, vec![1, 2, 3, 4, 255, 255, 255, 255, 7, 0, 0, 0]);
    assert_eq!(read_word(&bytes, 0), 0x0403_0201);
    assert_eq!(read_word(&bytes, 4), 0xFFFF_FFFF);
    assert_eq!(read_word(&bytes, 8), 7);
    assert_eq!(read_word(&bytes, 1), u32::from_le_bytes([2, 3, 4, 255]));
}

#[test]
fn database_file_holds_its_vectors() {
    let vectors: Vec<Vec<u32>> = vec![
        vec![1.0f32.to_bits(), (-2.5f32).to_bits()],
        vec![0.0f32.to_bits(), 3.0f32.to_bits()],
        vec![9.0f32.to_bits(), 8.0f32.to_bits()],
    ];
    let bytes = database_file(&vectors, 2);
    assert_eq!(bytes.len(), 8 + 4 * 6);
    assert_eq!(read_word(&bytes, 0), 3);
    assert_eq!(read_word(&bytes, 4), 2);
    for i in 0..3 {
        for d in 0..2 {
            assert_eq!(read_word(&bytes, 8 + 4 * (2 * i + d)), vectors[i][d]);
        }
    }
    let batch = batch_file(&vectors, &vec![2, 0], 2);
    assert_eq!(read_word(&batch, 0), 2);
    assert_eq!(read_word(&batch, 8), 9.0f32.to_bits());
    assert_eq!(read_word(&batch, 16), 1.0f32.to_bits());
    let query = query_file(&vectors[1], 2);
    assert_eq!(query.len(), 12);
    assert_eq!(read_word(&query, 0), 2);
    assert_eq!(read_word(&query, 8), 3.0f32.to_bits());
}

#[test]
fn results_stop_at_the_end_of_the_file() {
    let mut words = vec![3, 42, 1.0f32.to_bits(), 7, 0.5f32.to_bits()];
    let results = parse_results(&encode(&words));
    assert_eq!(results.announced, 3);
    assert_eq!(results.hits, vec![hit(42, 1.0), hit(7, 0.5)]);
    words.push(8);
    assert_eq!(parse_results(&encode(&words)).hits.len(), 2);
    assert_eq!(parse_results(&encode(&vec![5])).hits, Vec::new());
    let mut many = vec![12];
    for i in 0..12 {
        many.push(i);
        many.push(0.25f32.to_bits());
    }
    let results = parse_results(&encode(&many));
    assert_eq!(results.announced, 12);
    assert_eq!(results.hits.len(), 10);
    assert_eq!(results.hits[9].id, 9);
}

#[test]
fn batch_results_are_read_query_by_query() {
    let mut words = vec![2, 4];
    for id in 0..8 {
        words.push(id);
        words.push((id as f32).to_bits());
    }
    let results = parse_batch(&encode(&words));
    assert_eq!((results.queries, results.announced), (2, 4));
    assert_eq!(results.tops.len(), 2);
    assert_eq!(results.tops[0], vec![hit(0, 0.0), hit(1, 1.0), hit(2, 2.0)]);
    assert_eq!(results.tops[1], vec![hit(4, 4.0), hit(5, 5.0), hit(6, 6.0)]);
    assert!(is_doubtful(&results.tops[0]));
    assert!(!is_doubtful(&results.tops[1]));
    let results = parse_batch(&encode(&vec![9, u32::MAX, 1, 0]));
    assert_eq!(results.tops.len(), 5);
    assert_eq!(results.tops[0], vec![hit(1, 0.0)]);
    assert_eq!(results.tops[4], Vec::new());
    assert!(is_doubtful(&results.tops[4]));
    assert!(!is_doubtful(&vec![hit(1, f32::NAN)]));
    assert!(is_doubtful(&vec![hit(1, -0.0)]));
}

#[test]
fn search_must_find_the_planted_vector() {
    let hits = vec![hit(42, 0.9999), hit(3, 0.5)];
    assert!(judge_search(1, &hits, &shown(&hits)).is_ok());
    assert_eq!(
        rejection(judge_search(0, &hits, &shown(&hits))),
        (
            "vector_search_pipeline",
            format!("status=0, results={:?}", vec![(42u32, 0.9999f32), (3, 0.5)])
        )
    );
    let weak = vec![hit(42, 0.99)];
    assert_eq!(
        rejection(judge_search(1, &weak, &shown(&weak))).1,
        "status=1, results=[(42, 0.99)]"
    );
    let wrong = vec![hit(41, 1.0)];
    assert!(judge_search(1, &wrong, &shown(&wrong)).is_err());
    assert_eq!(
        rejection(judge_search(1, &Vec::new(), &Vec::new())).1,
        "status=1, results=[]"
    );
    assert_eq!(0.99f32.to_bits(), gpu_test_harness::search::EXACT_MATCH);
}

#[test]
fn batch_must_answer_every_query() {
    assert!(judge_batch(1, 5).is_ok());
    assert_eq!(
        rejection(judge_batch(1, 4)),
        ("batch_search_pipeline", "status=1, nq=4".to_string())
    );
    assert_eq!(rejection(judge_batch(2, 5)).1, "status=2, nq=5");
}

#[test]
fn reference_ranking_keeps_the_order_of_equals() {
    let scores: Vec<u32> = [0.5f32, 1.0, -0.5, 1.0, 0.75]
        .iter()
        .map(|s| s.to_bits())
        .collect();
    assert_eq!(top_tokens(&scores, 4), vec![1, 3, 4, 0]);
}
