//! Vector search: the files that the kernels read and write, and the verdicts.
use vstd::arithmetic::power2::{lemma_pow2_adds, lemma_pow2_pos, pow2};
use vstd::prelude::*;
use crate::error::{rejected, reported, Failure, HarnessError};
use crate::float_bits::{
    exponent, f32_greater, f32_is_nan, fraction, greater, is_finite, is_nan, keys_order_as_values,
    scaled_value,
};
use crate::text::{decimal, join, joined, say, texts, Line};
use crate::wire::{encode, encoded, encoded_words_read_back, read_word, word_at};

verus! {

/// How many hits a search returns at most.
pub const TOP_COUNT: u32 = 10;

/// How many queries a batch holds.
pub const BATCH_QUERIES: u32 = 5;

/// How many hits of each query of a batch are listed.
pub const LISTED_HITS: u32 = 3;

/// The vector of the database that the single search looks for.
pub const PLANTED_VECTOR: u32 = 42;

/// The bits of 0.99, which the score of the planted vector must exceed.
pub const EXACT_MATCH: u32 = 0x3F7D_70A4;

/// The vectors one after the other.
pub open spec fn flat(vectors: Seq<Seq<u32>>) -> Seq<u32>
    decreases vectors.len(),
{
    if vectors.len() == 0 {
        Seq::empty()
    } else {
        flat(vectors.drop_last()) + vectors.last()
    }
}

/// The numbers of each vector.
pub open spec fn contents(vectors: Seq<Vec<u32>>) -> Seq<Seq<u32>> {
    vectors.map_values(|v: Vec<u32>| v@)
}

/// The words of a file of vectors: how many there are, their dimension, and then
/// their numbers.
pub open spec fn vector_words(vectors: Seq<Seq<u32>>, dim: u32) -> Seq<u32> {
    seq![vectors.len() as u32, dim] + flat(vectors)
}

/// The words of a file with one query: the dimension, and then the numbers.
pub open spec fn query_words(query: Seq<u32>, dim: u32) -> Seq<u32> {
    seq![dim] + query
}

/// The vectors at the given places.
pub open spec fn picked(vectors: Seq<Seq<u32>>, picks: Seq<usize>) -> Seq<Seq<u32>> {
    picks.map_values(|p: usize| vectors[p as int])
}

fn push_all(words: &mut Vec<u32>, more: &Vec<u32>)
    ensures
        final(words)@ == old(words)@ + more@,
{
    let mut i: usize = 0;
    while i < more.len()
        invariant
            i <= more.len(),
            words@ =~= old(words)@ + more@.take(i as int),
        decreases more.len() - i,
    {
        words.push(more[i]);
        i += 1;
    }
    assert(more@.take(i as int) =~= more@);
}

/// The file of a database of vectors.
pub fn database_file(vectors: &Vec<Vec<u32>>, dim: u32) -> (bytes: Vec<u8>)
    requires
        vectors@.len() <= u32::MAX,
    ensures
        bytes@ == encoded(vector_words(contents(vectors@), dim)),
{
    let mut words: Vec<u32> = Vec::new();
    words.push(vectors.len() as u32);
    words.push(dim);
    let ghost head = seq![vectors@.len() as u32, dim];
    let mut i: usize = 0;
    assert(words@ =~= head + flat(contents(vectors@).take(0)));
    while i < vectors.len()
        invariant
            i <= vectors.len(),
            words@ == head + flat(contents(vectors@).take(i as int)),
        decreases vectors.len() - i,
    {
        let ghost before = words@;
        push_all(&mut words, &vectors[i]);
        i += 1;
        proof {
            let now = contents(vectors@).take(i as int);
            assert(now.drop_last() =~= contents(vectors@).take(i - 1));
            assert(now.last() == vectors@[i - 1]@);
            assert(words@ =~= head + flat(now));
        }
    }
    assert(contents(vectors@).take(i as int) =~= contents(vectors@));
    encode(&words)
}

/// The file of one query.
pub fn query_file(query: &Vec<u32>, dim: u32) -> (bytes: Vec<u8>)
    ensures
        bytes@ == encoded(query_words(query@, dim)),
{
    let mut words: Vec<u32> = Vec::new();
    words.push(dim);
    push_all(&mut words, query);
    assert(words@ =~= query_words(query@, dim));
    encode(&words)
}

/// The file of a batch of queries, taken from the database.
pub fn batch_file(vectors: &Vec<Vec<u32>>, picks: &Vec<usize>, dim: u32) -> (bytes: Vec<u8>)
    requires
        picks@.len() <= u32::MAX,
        forall|i: int| 0 <= i < picks@.len() ==> #[trigger] picks@[i] < vectors@.len(),
    ensures
        bytes@ == encoded(vector_words(picked(contents(vectors@), picks@), dim)),
{
    let mut words: Vec<u32> = Vec::new();
    words.push(picks.len() as u32);
    words.push(dim);
    let ghost head = seq![picks@.len() as u32, dim];
    let ghost queries = picked(contents(vectors@), picks@);
    let mut i: usize = 0;
    assert(words@ =~= head + flat(queries.take(0)));
    while i < picks.len()
        invariant
            i <= picks.len(),
            queries == picked(contents(vectors@), picks@),
            forall|k: int| 0 <= k < picks@.len() ==> #[trigger] picks@[k] < vectors@.len(),
            words@ == head + flat(queries.take(i as int)),
        decreases picks.len() - i,
    {
        push_all(&mut words, &vectors[picks[i]]);
        i += 1;
        proof {
            let now = queries.take(i as int);
            assert(now.drop_last() =~= queries.take(i - 1));
            assert(now.last() == vectors@[picks@[i - 1] as int]@);
            assert(words@ =~= head + flat(now));
        }
    }
    assert(queries.take(i as int) =~= queries);
    encode(&words)
}

/// Number `d` of vector `i` in the row of vectors of one dimension.
proof fn lemma_flat_places(vectors: Seq<Seq<u32>>, dim: int, i: int, d: int)
    requires
        forall|k: int| 0 <= k < vectors.len() ==> (#[trigger] vectors[k]).len() == dim,
        0 <= i < vectors.len(),
        0 <= d < dim,
    ensures
        flat(vectors).len() == vectors.len() * dim,
        0 <= i * dim + d < vectors.len() * dim,
        flat(vectors)[i * dim + d] == vectors[i][d],
    decreases vectors.len(),
{
    let n = vectors.len() as int;
    let shorter = vectors.drop_last();
    lemma_flat_len(shorter, dim);
    assert(vectors.last() == vectors[n - 1]);
    assert(n * dim == (n - 1) * dim + dim) by (nonlinear_arith);
    assert(0 <= i * dim + d < n * dim) by (nonlinear_arith)
        requires
            0 <= i < n,
            0 <= d < dim,
    ;
    if i < n - 1 {
        lemma_flat_places(shorter, dim, i, d);
        assert(shorter[i] == vectors[i]);
    }
}

proof fn lemma_flat_len(vectors: Seq<Seq<u32>>, dim: int)
    requires
        forall|k: int| 0 <= k < vectors.len() ==> (#[trigger] vectors[k]).len() == dim,
    ensures
        flat(vectors).len() == vectors.len() * dim,
    decreases vectors.len(),
{
    if vectors.len() > 0 {
        let n = vectors.len() as int;
        lemma_flat_len(vectors.drop_last(), dim);
        assert(vectors.last() == vectors[n - 1]);
        assert(n * dim == (n - 1) * dim + dim) by (nonlinear_arith);
    }
}

/// A file of vectors gives back its header and every number of every vector.
pub proof fn vector_file_holds_the_vectors(vectors: Seq<Seq<u32>>, dim: u32, i: int, d: int)
    requires
        vectors.len() <= u32::MAX,
        forall|k: int| 0 <= k < vectors.len() ==> (#[trigger] vectors[k]).len() == dim,
        0 <= i < vectors.len(),
        0 <= d < dim,
    ensures
        encoded(vector_words(vectors, dim)).len() == 8 + 4 * (vectors.len() * dim),
        word_at(encoded(vector_words(vectors, dim)), 0) == vectors.len(),
        word_at(encoded(vector_words(vectors, dim)), 4) == dim,
        word_at(encoded(vector_words(vectors, dim)), 8 + 4 * (i * dim + d)) == vectors[i][d],
{
    let words = vector_words(vectors, dim);
    lemma_flat_places(vectors, dim as int, i, d);
    encoded_words_read_back(words, 0);
    encoded_words_read_back(words, 1);
    encoded_words_read_back(words, 2 + (i * dim + d));
}

/// A vector that a search found.
#[derive(Clone, Copy, PartialEq, Eq, Structural, Debug)]
pub struct Hit {
    /// Its place in the database.
    pub id: u32,
    /// The bits of its score.
    pub score: u32,
}

/// The hit at a place of a result file.
pub open spec fn hit_at(bytes: Seq<u8>, offset: int) -> Hit {
    Hit { id: word_at(bytes, offset), score: word_at(bytes, offset + 4) }
}

/// How many whole hits a file has from `base` on, up to `wanted`.
pub open spec fn hit_count(len: int, base: int, wanted: int) -> int {
    let room = if len < base {
        0
    } else {
        (len - base) / 8
    };
    if wanted <= room {
        wanted
    } else {
        room
    }
}

/// The hits from `base` on: `wanted` of them, or as many as the file holds.
pub open spec fn hits_from(bytes: Seq<u8>, base: int, wanted: int) -> Seq<Hit> {
    Seq::new(
        hit_count(bytes.len() as int, base, wanted) as nat,
        |i: int| hit_at(bytes, base + 8 * i),
    )
}

fn read_hits(bytes: &Vec<u8>, base: u64, wanted: u32) -> (hits: Vec<Hit>)
    requires
        base <= 0x100_0000_0000,
    ensures
        hits@ == hits_from(bytes@, base as int, wanted as int),
{
    let mut hits: Vec<Hit> = Vec::new();
    let mut i: u32 = 0;
    let mut offset: u64 = base;
    let len: usize = bytes.len();
    while i < wanted && offset + 8 <= len as u64
        invariant
            bytes@.len() == len,
            i <= wanted,
            offset == base + 8 * i,
            base <= 0x100_0000_0000,
            i > 0 ==> offset <= len,
            hits@.len() == i,
            forall|k: int| 0 <= k < i ==> #[trigger] hits@[k] == hit_at(bytes@, base + 8 * k),
        decreases wanted - i,
    {
        let at: usize = offset as usize;
        hits.push(Hit { id: read_word(bytes, at), score: read_word(bytes, at + 4) });
        i += 1;
        offset += 8;
    }
    assert(i == hit_count(len as int, base as int, wanted as int));
    assert(hits@ =~= hits_from(bytes@, base as int, wanted as int));
    hits
}

/// What the result file of a single search says.
pub struct SearchResults {
    /// How many hits it announces.
    pub announced: u32,
    /// The hits that are there.
    pub hits: Vec<Hit>,
}

/// The smaller of two numbers.
pub open spec fn least(a: int, b: int) -> int {
    if a <= b {
        a
    } else {
        b
    }
}

/// How many hits the result file of a single search announces.
pub open spec fn announced_hits(bytes: Seq<u8>) -> u32 {
    word_at(bytes, 0)
}

/// The first hits of a single search.
pub open spec fn search_top(bytes: Seq<u8>) -> Seq<Hit> {
    hits_from(bytes, 4, least(announced_hits(bytes) as int, TOP_COUNT as int))
}

/// Reads the result file of a single search.
pub fn parse_results(bytes: &Vec<u8>) -> (results: SearchResults)
    requires
        bytes@.len() >= 4,
    ensures
        results.announced == word_at(bytes@, 0),
        results.hits@ == hits_from(
            bytes@,
            4,
            least(word_at(bytes@, 0) as int, TOP_COUNT as int),
        ),
        results.announced == announced_hits(bytes@),
        results.hits@ == search_top(bytes@),
{
    let announced: u32 = read_word(bytes, 0);
    let wanted: u32 = if announced <= TOP_COUNT {
        announced
    } else {
        TOP_COUNT
    };
    SearchResults { announced, hits: read_hits(bytes, 4, wanted) }
}

/// What the result file of a batch says.
pub struct BatchResults {
    /// How many queries it announces.
    pub queries: u32,
    /// How many hits it announces for each of them.
    pub announced: u32,
    /// The first hits of each query.
    pub tops: Vec<Vec<Hit>>,
}

/// The first hits of query `q` of a batch.
pub open spec fn batch_top(bytes: Seq<u8>, q: int) -> Seq<Hit> {
    let announced = word_at(bytes, 4) as int;
    hits_from(bytes, 8 + q * announced * 8, least(announced, LISTED_HITS as int))
}

/// How many queries the result file of a batch announces, and how many hits for each.
pub open spec fn batch_header(bytes: Seq<u8>) -> (u32, u32) {
    (word_at(bytes, 0), word_at(bytes, 4))
}

/// How many queries of a batch are read.
pub open spec fn batch_count(bytes: Seq<u8>) -> int {
    least(batch_header(bytes).0 as int, BATCH_QUERIES as int)
}

/// Reads the result file of a batch.
pub fn parse_batch(bytes: &Vec<u8>) -> (results: BatchResults)
    requires
        bytes@.len() >= 8,
    ensures
        results.queries == word_at(bytes@, 0),
        results.announced == word_at(bytes@, 4),
        (results.queries, results.announced) == batch_header(bytes@),
        results.tops@.len() == batch_count(bytes@),
        results.tops@.len() == least(word_at(bytes@, 0) as int, BATCH_QUERIES as int),
        forall|q: int|
            0 <= q < results.tops@.len() ==> (#[trigger] results.tops@[q])@ == batch_top(bytes@, q),
{
    let queries: u32 = read_word(bytes, 0);
    let announced: u32 = read_word(bytes, 4);
    let count: u32 = if queries <= BATCH_QUERIES {
        queries
    } else {
        BATCH_QUERIES
    };
    let wanted: u32 = if announced <= LISTED_HITS {
        announced
    } else {
        LISTED_HITS
    };
    let mut tops: Vec<Vec<Hit>> = Vec::new();
    let mut q: u32 = 0;
    while q < count
        invariant
            q <= count <= BATCH_QUERIES,
            announced == word_at(bytes@, 4),
            wanted == least(announced as int, LISTED_HITS as int),
            tops@.len() == q,
            forall|k: int| 0 <= k < q ==> (#[trigger] tops@[k])@ == batch_top(bytes@, k),
        decreases count - q,
    {
        assert(0 <= q * announced <= 5 * 0xFFFF_FFFF) by (nonlinear_arith)
            requires
                q <= 5,
                announced <= 0xFFFF_FFFF,
        ;
        tops.push(read_hits(bytes, 8 + q as u64 * announced as u64 * 8, wanted));
        q += 1;
    }
    BatchResults { queries, announced, tops }
}

/// Whether the best hit of a query has no positive score, or there is none.
pub open spec fn doubtful(hits: Seq<Hit>) -> bool {
    hits.len() == 0 || !is_nan(hits[0].score) && !greater(hits[0].score, 0)
}

/// Whether the best hit of a query calls for a warning.
pub fn is_doubtful(hits: &Vec<Hit>) -> (warn: bool)
    ensures
        warn == doubtful(hits@),
{
    hits.len() == 0 || !f32_is_nan(hits[0].score) && !f32_greater(hits[0].score, 0)
}

/// A hit as a failure lists it: its place, and its score as text.
pub open spec fn listed_hit(id: u32, score: Seq<char>) -> Seq<char> {
    "("@ + decimal(id as nat) + ", "@ + score + ")"@
}

/// The hits as a failure lists them.
pub open spec fn listed_hits(hits: Seq<Hit>, scores: Seq<Seq<char>>) -> Seq<Seq<char>> {
    Seq::new(hits.len(), |i: int| listed_hit(hits[i].id, scores[i]))
}

/// What a single search comes to. The kernel must report success, and the best
/// hit must be the planted vector.
pub open spec fn search_failure(
    status: nat,
    hits: Seq<Hit>,
    scores: Seq<Seq<char>>,
) -> Option<Failure> {
    if status == 1 && hits.len() > 0 && hits[0].id == PLANTED_VECTOR && greater(
        hits[0].score,
        EXACT_MATCH,
    ) {
        None
    } else {
        Some(
            rejected(
                "vector_search_pipeline"@,
                "status="@ + decimal(status) + ", results=["@ + joined(
                    listed_hits(hits, scores),
                    ", "@,
                ) + "]"@,
            ),
        )
    }
}

/// Judges a single search. `scores` holds the scores of the hits as text.
pub fn judge_search(status: u32, hits: &Vec<Hit>, scores: &Vec<String>) -> (result: Result<
    (),
    HarnessError,
>)
    requires
        scores@.len() == hits@.len(),
    ensures
        reported(result) == search_failure(status as nat, hits@, texts(scores@)),
{
    if status == 1 && hits.len() > 0 && hits[0].id == PLANTED_VECTOR && f32_greater(
        hits[0].score,
        EXACT_MATCH,
    ) {
        return Ok(());
    }
    let mut listed: Vec<String> = Vec::new();
    let mut i: usize = 0;
    while i < hits.len()
        invariant
            i <= hits.len(),
            scores@.len() == hits@.len(),
            listed@.len() == i,
            forall|k: int|
                0 <= k < i ==> (#[trigger] listed@[k])@ == listed_hit(
                    hits@[k].id,
                    texts(scores@)[k],
                ),
        decreases hits.len() - i,
    {
        let one: Line = say("(").dec(hits[i].id as u64).text(", ").text(scores[i].as_str()).text(
            ")",
        );
        listed.push(one.done());
        i += 1;
    }
    let all: String = join(&listed, ", ");
    assert(texts(listed@) =~= listed_hits(hits@, texts(scores@)));
    Err(
        HarnessError::verification(
            "vector_search_pipeline",
            say("status=").dec(status as u64).text(", results=[").text(all.as_str()).text("]"),
        ),
    )
}

/// What a batch comes to. The kernel must report success and answer every query.
pub open spec fn batch_failure(status: nat, queries: nat) -> Option<Failure> {
    if status == 1 && queries == BATCH_QUERIES {
        None
    } else {
        Some(
            rejected(
                "batch_search_pipeline"@,
                "status="@ + decimal(status) + ", nq="@ + decimal(queries),
            ),
        )
    }
}

/// Judges a batch.
pub fn judge_batch(status: u32, queries: u32) -> (result: Result<(), HarnessError>)
    ensures
        reported(result) == batch_failure(status as nat, queries as nat),
{
    if status == 1 && queries == BATCH_QUERIES {
        Ok(())
    } else {
        Err(
            HarnessError::verification(
                "batch_search_pipeline",
                say("status=").dec(status as u64).text(", nq=").dec(queries as u64),
            ),
        )
    }
}

/// The file of a batch of queries gives back the picked vectors, number by number.
pub proof fn batch_file_holds_the_picks(
    vectors: Seq<Seq<u32>>,
    picks: Seq<usize>,
    dim: u32,
    i: int,
    d: int,
)
    requires
        picks.len() <= u32::MAX,
        forall|k: int| 0 <= k < vectors.len() ==> (#[trigger] vectors[k]).len() == dim,
        forall|k: int| 0 <= k < picks.len() ==> (#[trigger] picks[k]) < vectors.len(),
        0 <= i < picks.len(),
        0 <= d < dim,
    ensures
        ({
            let bytes = encoded(vector_words(picked(vectors, picks), dim));
            &&& word_at(bytes, 0) == picks.len()
            &&& word_at(bytes, 4) == dim
            &&& word_at(bytes, 8 + 4 * (i * dim + d)) == vectors[picks[i] as int][d]
        }),
{
    let queries = picked(vectors, picks);
    assert forall|k: int| 0 <= k < queries.len() implies (#[trigger] queries[k]).len() == dim by {
        assert(picks[k] < vectors.len());
    }
    vector_file_holds_the_vectors(queries, dim, i, d);
}

/// The file of one query gives back its dimension and its numbers.
pub proof fn query_file_holds_the_query(query: Seq<u32>, dim: u32, d: int)
    requires
        0 <= d < query.len(),
    ensures
        encoded(query_words(query, dim)).len() == 4 + 4 * query.len(),
        word_at(encoded(query_words(query, dim)), 0) == dim,
        word_at(encoded(query_words(query, dim)), 4 + 4 * d) == query[d],
{
    let words = query_words(query, dim);
    encoded_words_read_back(words, 0);
    encoded_words_read_back(words, 1 + d);
    assert(words[1 + d] == query[d]);
}

/// The words of a list of hits: the place and the score of one after the other.
pub open spec fn hit_words(hits: Seq<Hit>) -> Seq<u32>
    decreases hits.len(),
{
    if hits.len() == 0 {
        Seq::empty()
    } else {
        hit_words(hits.drop_last()) + seq![hits.last().id, hits.last().score]
    }
}

/// The words of the lists of hits of several queries, one list after the other.
pub open spec fn answer_words(answers: Seq<Seq<Hit>>) -> Seq<u32>
    decreases answers.len(),
{
    if answers.len() == 0 {
        Seq::empty()
    } else {
        answer_words(answers.drop_last()) + hit_words(answers.last())
    }
}

/// The result file of a single search.
pub open spec fn result_file(hits: Seq<Hit>) -> Seq<u8> {
    encoded(seq![hits.len() as u32] + hit_words(hits))
}

/// The result file of a batch in which every query has `announced` hits.
pub open spec fn answer_file(answers: Seq<Seq<Hit>>, announced: u32) -> Seq<u8> {
    encoded(seq![answers.len() as u32, announced] + answer_words(answers))
}

proof fn lemma_hit_words(hits: Seq<Hit>, r: int)
    ensures
        hit_words(hits).len() == 2 * hits.len(),
        0 <= r < hits.len() ==> hit_words(hits)[2 * r] == hits[r].id && hit_words(hits)[2 * r + 1]
            == hits[r].score,
    decreases hits.len(),
{
    if hits.len() > 0 {
        lemma_hit_words(hits.drop_last(), r);
    }
}

proof fn lemma_answer_words(answers: Seq<Seq<Hit>>, announced: int, q: int, r: int)
    requires
        forall|k: int| 0 <= k < answers.len() ==> (#[trigger] answers[k]).len() == announced,
        announced >= 0,
    ensures
        answer_words(answers).len() == answers.len() * (2 * announced),
        0 <= q < answers.len() && 0 <= r < announced ==> {
            let at = q * (2 * announced) + 2 * r;
            &&& 0 <= at && at + 1 < answers.len() * (2 * announced)
            &&& answer_words(answers)[at] == answers[q][r].id
            &&& answer_words(answers)[at + 1] == answers[q][r].score
        },
    decreases answers.len(),
{
    if answers.len() > 0 {
        let n = answers.len() as int;
        let fewer = answers.drop_last();
        let width = 2 * announced;
        assert forall|k: int| 0 <= k < fewer.len() implies (#[trigger] fewer[k]).len()
            == announced by {
            assert(answers[k].len() == announced);
        }
        lemma_answer_words(fewer, announced, q, r);
        assert(answers[n - 1].len() == announced);
        lemma_hit_words(answers.last(), r);
        assert(n * width == (n - 1) * width + width) by (nonlinear_arith);
        if 0 <= q < n && 0 <= r < announced {
            assert(0 <= q * width && q * width + width <= n * width) by (nonlinear_arith)
                requires
                    0 <= q < n,
                    width >= 0,
            ;
            if q < n - 1 {
                assert(fewer[q] == answers[q]);
            }
        }
    }
}

/// The result file of a single search reads back: it announces its hits, and the
/// first ten of them are read, in order.
pub proof fn result_file_reads_back(hits: Seq<Hit>)
    requires
        hits.len() <= u32::MAX,
    ensures
        ({
            let bytes = result_file(hits);
            &&& announced_hits(bytes) == hits.len()
            &&& search_top(bytes) == if hits.len() <= 10 {
                hits
            } else {
                hits.take(10)
            }
        }),
{
    let words = seq![hits.len() as u32] + hit_words(hits);
    let bytes = result_file(hits);
    lemma_hit_words(hits, 0);
    encoded_words_read_back(words, 0);
    let found = search_top(bytes);
    let wanted = if hits.len() <= 10 {
        hits
    } else {
        hits.take(10)
    };
    assert(bytes.len() == 4 + 8 * hits.len());
    assert forall|r: int| 0 <= r < wanted.len() implies found[r] == wanted[r] by {
        lemma_hit_words(hits, r);
        encoded_words_read_back(words, 1 + 2 * r);
        encoded_words_read_back(words, 2 + 2 * r);
        assert(words[1 + 2 * r] == hit_words(hits)[2 * r]);
        assert(words[2 + 2 * r] == hit_words(hits)[2 * r + 1]);
    }
    assert(found =~= wanted);
}

/// The result file of a batch reads back: it announces its queries and their hits,
/// and of every query the first three hits are read from that query's own part of the
/// file.
pub proof fn answer_file_reads_back(answers: Seq<Seq<Hit>>, announced: u32, q: int)
    requires
        answers.len() <= u32::MAX,
        forall|k: int| 0 <= k < answers.len() ==> (#[trigger] answers[k]).len() == announced,
        0 <= q < answers.len(),
    ensures
        ({
            let bytes = answer_file(answers, announced);
            &&& batch_header(bytes) == (answers.len() as u32, announced)
            &&& batch_count(bytes) == if answers.len() <= 5 {
                answers.len() as int
            } else {
                5
            }
            &&& batch_top(bytes, q) == if announced <= 3 {
                answers[q]
            } else {
                answers[q].take(3)
            }
        }),
{
    let words = seq![answers.len() as u32, announced] + answer_words(answers);
    let bytes = answer_file(answers, announced);
    let n = answers.len() as int;
    let width = 2 * (announced as int);
    lemma_answer_words(answers, announced as int, q, 0);
    assert(n * width >= 0) by (nonlinear_arith)
        requires
            n >= 0,
            width >= 0,
    ;
    encoded_words_read_back(words, 0);
    encoded_words_read_back(words, 1);
    let wanted = if announced <= 3 {
        answers[q]
    } else {
        answers[q].take(3)
    };
    assert(answers[q].len() == announced);
    let found = batch_top(bytes, q);
    let base = 8 + q * announced * 8;
    assert(q * announced * 8 == 4 * (q * width)) by (nonlinear_arith)
        requires
            width == 2 * announced,
    ;
    assert(q * width + width <= n * width) by (nonlinear_arith)
        requires
            0 <= q < n,
            width >= 0,
    ;
    assert(bytes.len() == 8 + 4 * (n * width));
    assert(0 <= q * width) by (nonlinear_arith)
        requires
            0 <= q,
            width >= 0,
    ;
    assert(bytes.len() - base >= 8 * announced);
    assert forall|r: int| 0 <= r < wanted.len() implies found[r] == wanted[r] by {
        lemma_answer_words(answers, announced as int, q, r);
        let at = q * width + 2 * r;
        encoded_words_read_back(words, 2 + at);
        encoded_words_read_back(words, 3 + at);
        assert(words[2 + at] == answer_words(answers)[at]);
        assert(words[3 + at] == answer_words(answers)[at + 1]);
        assert(base + 8 * r == 4 * (2 + at));
    }
    assert(found =~= wanted);
}

/// A file that breaks off gives the hits that are whole in it: the first of those
/// that the whole file gives.
pub proof fn broken_files_give_the_first_hits(bytes: Seq<u8>, len: int, base: int, wanted: int)
    requires
        0 <= len <= bytes.len(),
        0 <= base,
        0 <= wanted,
    ensures
        ({
            let short = hits_from(bytes.take(len), base, wanted);
            &&& short.len() <= hits_from(bytes, base, wanted).len() <= wanted
            &&& short == hits_from(bytes, base, wanted).take(short.len() as int)
            &&& short.len() < wanted ==> len < base + 8 * (short.len() + 1)
        }),
{
    let cut = bytes.take(len);
    let short = hits_from(cut, base, wanted);
    let long = hits_from(bytes, base, wanted);
    assert(short.len() <= long.len());
    assert forall|i: int| 0 <= i < short.len() implies short[i] == long[i] by {
        assert(base + 8 * i + 8 <= len);
    }
    assert(short =~= long.take(short.len() as int));
}

/// A search is accepted exactly if the kernel reports success and the best hit is
/// vector 42 with a score above 0.99.
pub proof fn accepted_search_found_the_planted_vector(
    status: nat,
    hits: Seq<Hit>,
    scores: Seq<Seq<char>>,
)
    ensures
        search_failure(status, hits, scores) is None ==> status == 1 && hits.len() > 0
            && hits[0].id == 42 && !is_nan(hits[0].score) && (is_finite(hits[0].score) ==> 100
            * scaled_value(hits[0].score) > 99 * pow2(149)),
        status == 1 && hits.len() > 0 && hits[0].id == 42 && is_finite(hits[0].score)
            && scaled_value(hits[0].score) > scaled_value(EXACT_MATCH) ==> search_failure(
            status,
            hits,
            scores,
        ) is None,
        100 * (scaled_value(EXACT_MATCH) - pow2(125)) < 99 * pow2(149) <= 100 * scaled_value(
            EXACT_MATCH,
        ),
{
    assert(exponent(EXACT_MATCH) == 126 && fraction(EXACT_MATCH) == 0x7D_70A4);
    lemma_pow2_adds(24, 125);
    vstd::arithmetic::power2::lemma2_to64();
    lemma_pow2_pos(125);
    let p = pow2(125) as int;
    assert(scaled_value(EXACT_MATCH) == 0xFD_70A4 * p);
    assert(pow2(149) == 0x100_0000 * p);
    if hits.len() > 0 && is_finite(hits[0].score) {
        keys_order_as_values(EXACT_MATCH, hits[0].score);
    }
}

/// A batch is accepted exactly if the kernel reports success and answers five queries.
pub proof fn accepted_batch_answers_every_query(status: nat, queries: nat)
    ensures
        batch_failure(status, queries) is None <==> status == 1 && queries == 5,
{
}

/// The best hit of a query is doubtful exactly if there is none, or if its score is a
/// number that is not positive.
pub proof fn doubtful_hits_have_no_positive_score(hits: Seq<Hit>)
    ensures
        hits.len() == 0 ==> doubtful(hits),
        hits.len() > 0 && is_nan(hits[0].score) ==> !doubtful(hits),
        hits.len() > 0 && is_finite(hits[0].score) ==> (doubtful(hits) <==> scaled_value(
            hits[0].score,
        ) <= 0),
{
    if hits.len() > 0 && is_finite(hits[0].score) {
        keys_order_as_values(0, hits[0].score);
        assert(scaled_value(0) == 0);
    }
}

/// A rejected search shows the status and every hit with its score, in order; a rejected
/// batch the status and the number of queries.
pub proof fn rejected_search_shows_its_hits(
    status: nat,
    hits: Seq<Hit>,
    scores: Seq<Seq<char>>,
    i: int,
)
    requires
        scores.len() == hits.len(),
        0 <= i < hits.len(),
    ensures
        search_failure(status, hits, scores) matches Some(f) ==> f.detail == "status="@ + decimal(
            status,
        ) + ", results=["@ + joined(listed_hits(hits, scores), ", "@) + "]"@,
        listed_hits(hits, scores).len() == hits.len(),
        listed_hits(hits, scores)[i] == "("@ + decimal(hits[i].id as nat) + ", "@ + scores[i] + ")"@,
        batch_failure(status, hits.len()) matches Some(f) ==> f.detail == "status="@ + decimal(
            status,
        ) + ", nq="@ + decimal(hits.len()),
{
}

} // verus!
