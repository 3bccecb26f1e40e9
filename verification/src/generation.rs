//! Greedy generation of text, token by token.
use vstd::prelude::*;
use crate::error::{rejected, reported, Failure, HarnessError};
use crate::launch::ROW_TILE;
use crate::plan::CACHE_ROWS;
use crate::text::{decimal, say};

verus! {

/// Number of tokens of the vocabulary.
pub const VOCABULARY: usize = 50257;

/// The token that ends a text.
pub const END_OF_TEXT: u32 = 50256;

/// The most tokens that a prompt is continued by.
pub const MAX_NEW_TOKENS: usize = 50;

/// Rows of a pass over `used` tokens: whole tiles, at least one.
pub open spec fn padded(used: int) -> int {
    if used <= ROW_TILE {
        ROW_TILE as int
    } else {
        (used + 31) / 32 * 32
    }
}

/// The least number of whole tiles of rows that holds `used` tokens.
pub fn padded_rows(used: u32) -> (rows: u32)
    requires
        used <= 0xFFFF_FFE0,
    ensures
        rows == padded(used as int),
        rows % ROW_TILE == 0,
        used <= rows,
        rows > ROW_TILE ==> rows - ROW_TILE < used,
{
    let tiles: u32 = used / 32 + if used % 32 == 0 {
        0
    } else {
        1
    };
    let rounded: u32 = tiles * 32;
    if rounded < ROW_TILE {
        ROW_TILE
    } else {
        rounded
    }
}

/// How many tokens a prompt of `prompt` tokens is continued by.
pub open spec fn new_tokens(rows: int, prompt: int) -> int {
    if rows - prompt < MAX_NEW_TOKENS {
        rows - prompt
    } else {
        MAX_NEW_TOKENS as int
    }
}

/// What one pass came to.
#[derive(Clone, Copy, PartialEq, Eq, Structural, Debug)]
pub enum Outcome {
    /// The prediction is not a number.
    Broken,
    /// The token with the greatest logit.
    Token(u32),
}

/// What becomes of the end of the text.
#[derive(Clone, Copy, PartialEq, Eq, Structural, Debug)]
pub enum EndPolicy {
    /// It stops the generation and is left out.
    Dropped,
    /// It stops the generation and is kept as the last token.
    Kept,
}

/// A text under generation.
pub struct Generation {
    tokens: Vec<u32>,
    generated: Vec<u32>,
    limit: usize,
    policy: EndPolicy,
    stopped: bool,
}

/// What a contract says of a generation.
pub struct Progress {
    pub prompt: Seq<u32>,
    pub generated: Seq<u32>,
    pub limit: nat,
    pub policy: EndPolicy,
    pub stopped: bool,
}

/// One pass later.
pub open spec fn observed(before: Progress, outcome: Outcome) -> Progress {
    match outcome {
        Outcome::Broken => Progress { stopped: true, ..before },
        Outcome::Token(token) => if token == END_OF_TEXT {
            match before.policy {
                EndPolicy::Dropped => Progress { stopped: true, ..before },
                EndPolicy::Kept => Progress {
                    generated: before.generated.push(token),
                    stopped: true,
                    ..before
                },
            }
        } else {
            Progress { generated: before.generated.push(token), ..before }
        },
    }
}

/// Whether another pass is due.
pub open spec fn unfinished(progress: Progress) -> bool {
    !progress.stopped && progress.generated.len() < progress.limit
}

/// The end of the text stands nowhere but, if it is kept, at the end of a
/// generation that has stopped.
pub open spec fn ends_properly(progress: Progress) -> bool {
    forall|i: int|
        0 <= i < progress.generated.len() && #[trigger] progress.generated[i] == END_OF_TEXT
            ==> progress.stopped && progress.policy == EndPolicy::Kept && i
            == progress.generated.len() - 1
}

impl View for Generation {
    type V = Progress;

    closed spec fn view(&self) -> Progress {
        Progress {
            prompt: self.tokens@.take(self.tokens@.len() - self.generated@.len()),
            generated: self.generated@,
            limit: self.limit as nat,
            policy: self.policy,
            stopped: self.stopped,
        }
    }
}

impl Generation {
    /// The tokens are the prompt and what was generated; there are never more than
    /// the limit, and the end of the text stands in its place.
    pub closed spec fn wf(&self) -> bool {
        &&& self.generated@.len() <= self.tokens@.len()
        &&& self.tokens@.skip(self.tokens@.len() - self.generated@.len()) == self.generated@
        &&& self.generated@.len() <= self.limit
        &&& ends_properly(self@)
    }

    /// Starts from a prompt. The pass has room for `rows` tokens.
    pub fn start(prompt: &Vec<u32>, rows: usize, policy: EndPolicy) -> (generation: Generation)
        requires
            1 <= prompt@.len() <= rows,
        ensures
            generation.wf(),
            generation@ == (Progress {
                prompt: prompt@,
                generated: Seq::empty(),
                limit: new_tokens(rows as int, prompt@.len() as int) as nat,
                policy,
                stopped: false,
            }),
    {
        let room: usize = rows - prompt.len();
        let limit: usize = if room < MAX_NEW_TOKENS {
            room
        } else {
            MAX_NEW_TOKENS
        };
        let tokens: Vec<u32> = copied(prompt);
        let generation = Generation {
            tokens,
            generated: Vec::new(),
            limit,
            policy,
            stopped: false,
        };
        assert(generation.tokens@.take(prompt@.len() as int) =~= prompt@);
        assert(generation.generated@ =~= Seq::empty());
        assert(generation.tokens@.skip(prompt@.len() as int) =~= Seq::empty());
        generation
    }

    /// Whether another pass is due.
    pub fn is_unfinished(&self) -> (due: bool)
        requires
            self.wf(),
        ensures
            due == unfinished(self@),
    {
        !self.stopped && self.generated.len() < self.limit
    }

    /// The prompt and everything generated so far, which the next pass runs over.
    pub fn tokens(&self) -> (tokens: &Vec<u32>)
        requires
            self.wf(),
        ensures
            tokens@ == self@.prompt + self@.generated,
    {
        assert(self.tokens@ =~= self@.prompt + self@.generated);
        &self.tokens
    }

    /// Everything generated so far.
    pub fn generated(&self) -> (tokens: &Vec<u32>)
        ensures
            tokens@ == self@.generated,
    {
        &self.generated
    }

    /// The most tokens that this generation can come to.
    pub fn limit(&self) -> (limit: usize)
        ensures
            limit == self@.limit,
    {
        self.limit
    }

    /// Takes up what a pass came to.
    pub fn observe(&mut self, outcome: Outcome)
        requires
            old(self).wf(),
            unfinished(old(self)@),
        ensures
            final(self).wf(),
            final(self)@ == observed(old(self)@, outcome),
    {
        let ghost tokens = self.tokens@;
        let ghost generated = self.generated@;
        match outcome {
            Outcome::Broken => {
                self.stopped = true;
            },
            Outcome::Token(token) => {
                let ended: bool = token == END_OF_TEXT;
                let kept: bool = match self.policy {
                    EndPolicy::Dropped => false,
                    EndPolicy::Kept => true,
                };
                if !ended || kept {
                    self.generated.push(token);
                    self.tokens.push(token);
                    assert(self.tokens@.skip(tokens.len() - generated.len())
                        =~= generated.push(token));
                    assert(self.tokens@.take(tokens.len() - generated.len()) =~= tokens.take(
                        tokens.len() - generated.len(),
                    ));
                }
                if ended {
                    self.stopped = true;
                }
            },
        }
    }
}

fn copied(tokens: &Vec<u32>) -> (copy: Vec<u32>)
    ensures
        copy@ == tokens@,
{
    let mut copy: Vec<u32> = Vec::new();
    let mut i: usize = 0;
    while i < tokens.len()
        invariant
            i <= tokens.len(),
            copy@ == tokens@.take(i as int),
        decreases tokens.len() - i,
    {
        copy.push(tokens[i]);
        i += 1;
        assert(tokens@.take(i as int) =~= tokens@.take(i - 1).push(tokens@[i - 1]));
    }
    assert(tokens@.take(i as int) =~= tokens@);
    copy
}

/// The pass that a cached generation makes next.
#[derive(Clone, Copy, PartialEq, Eq, Structural, Debug)]
pub enum Pass {
    /// Over the whole prompt, filling the caches.
    Prefill { used: u32 },
    /// Over the token that was generated last, at its position.
    Decode { token: u32, position: u32 },
}

/// The pass that is due: first the whole prompt, then token by token.
pub open spec fn due_pass(progress: Progress) -> Pass {
    if progress.generated.len() == 0 {
        Pass::Prefill { used: progress.prompt.len() as u32 }
    } else {
        Pass::Decode {
            token: progress.generated.last(),
            position: (progress.prompt.len() + progress.generated.len() - 1) as u32,
        }
    }
}

impl Generation {
    /// The pass that a cached generation makes next.
    pub fn next_pass(&self) -> (pass: Pass)
        requires
            self.wf(),
            self@.prompt.len() + self@.generated.len() <= CACHE_ROWS,
        ensures
            pass == due_pass(self@),
    {
        if self.generated.len() == 0 {
            Pass::Prefill { used: self.tokens.len() as u32 }
        } else {
            let last: usize = self.generated.len() - 1;
            Pass::Decode { token: self.generated[last], position: (self.tokens.len() - 1) as u32 }
        }
    }
}

/// The caches fill up without a gap: a token that was generated is decoded next, at
/// the position right behind everything cached so far.
pub proof fn decoding_continues_the_caches(before: Progress, token: u32)
    requires
        unfinished(before),
        token != END_OF_TEXT,
        before.prompt.len() + before.limit <= CACHE_ROWS,
    ensures
        ({
            let cached = match due_pass(before) {
                Pass::Prefill { used } => used as int,
                Pass::Decode { position, .. } => position + 1,
            };
            due_pass(observed(before, Outcome::Token(token))) == Pass::Decode {
                token,
                position: cached as u32,
            }
        }),
{
}

/// A whole generation: the passes' outcomes taken up one after the other, as long
/// as another pass is due.
pub open spec fn generate(start: Progress, outcomes: Seq<Outcome>) -> Progress
    decreases outcomes.len(),
{
    if outcomes.len() == 0 {
        start
    } else {
        let before = generate(start, outcomes.drop_last());
        if unfinished(before) {
            observed(before, outcomes.last())
        } else {
            before
        }
    }
}

/// However a generation goes, it keeps its prompt and limit, never exceeds the
/// limit, and has the end of the text only where that belongs.
pub proof fn generation_stays_in_bounds(start: Progress, outcomes: Seq<Outcome>)
    requires
        start.generated.len() == 0,
    ensures
        ({
            let end = generate(start, outcomes);
            &&& end.prompt == start.prompt
            &&& end.limit == start.limit
            &&& end.policy == start.policy
            &&& end.generated.len() <= end.limit
            &&& end.generated.len() <= outcomes.len()
            &&& start.stopped || ends_properly(end)
        }),
    decreases outcomes.len(),
{
    if outcomes.len() > 0 {
        generation_stays_in_bounds(start, outcomes.drop_last());
    }
}

/// Once a generation has stopped, nothing changes it.
pub proof fn stopped_generation_stays(start: Progress, outcomes: Seq<Outcome>, more: Seq<Outcome>)
    requires
        !unfinished(generate(start, outcomes)),
    ensures
        generate(start, outcomes + more) == generate(start, outcomes),
    decreases more.len(),
{
    if more.len() == 0 {
        assert(outcomes + more =~= outcomes);
    } else {
        stopped_generation_stays(start, outcomes, more.drop_last());
        assert((outcomes + more).drop_last() =~= outcomes + more.drop_last());
    }
}

/// The tokens of a generation never outgrow the pass: the next position is inside
/// the caches.
pub proof fn next_position_is_inside(prompt: Seq<u32>, rows: nat, policy: EndPolicy, outcomes: Seq<
    Outcome,
>)
    requires
        1 <= prompt.len() <= rows,
    ensures
        ({
            let start = Progress {
                prompt,
                generated: Seq::empty(),
                limit: new_tokens(rows as int, prompt.len() as int) as nat,
                policy,
                stopped: false,
            };
            let end = generate(start, outcomes);
            &&& end.prompt.len() + end.generated.len() <= rows
            &&& unfinished(end) ==> end.prompt.len() + end.generated.len() < rows
        }),
{
    let start = Progress {
        prompt,
        generated: Seq::empty(),
        limit: new_tokens(rows as int, prompt.len() as int) as nat,
        policy,
        stopped: false,
    };
    generation_stays_in_bounds(start, outcomes);
}

/// While both go on, two policies generate the same tokens: they differ only in
/// whether the end of the text is kept.
pub proof fn policies_agree_until_the_end(prompt: Seq<u32>, limit: nat, outcomes: Seq<Outcome>)
    ensures
        ({
            let dropping = Progress {
                prompt,
                generated: Seq::empty(),
                limit,
                policy: EndPolicy::Dropped,
                stopped: false,
            };
            let keeping = Progress { policy: EndPolicy::Kept, ..dropping };
            let short = generate(dropping, outcomes);
            let long = generate(keeping, outcomes);
            &&& short.stopped == long.stopped
            &&& long.generated == short.generated || long.stopped && long.generated
                == short.generated.push(END_OF_TEXT)
        }),
    decreases outcomes.len(),
{
    if outcomes.len() > 0 {
        let dropping = Progress {
            prompt,
            generated: Seq::empty(),
            limit,
            policy: EndPolicy::Dropped,
            stopped: false,
        };
        let keeping = Progress { policy: EndPolicy::Kept, ..dropping };
        policies_agree_until_the_end(prompt, limit, outcomes.drop_last());
        generation_stays_in_bounds(dropping, outcomes.drop_last());
        generation_stays_in_bounds(keeping, outcomes.drop_last());
    }
}

/// Whether a prompt was continued by as many tokens as it should be.
pub open spec fn is_complete(generated: int, limit: int) -> bool {
    generated >= limit || generated >= MAX_NEW_TOKENS
}

/// Whether every prompt was.
pub open spec fn all_complete(generated: Seq<usize>, limits: Seq<usize>) -> bool {
    forall|i: int|
        0 <= i < generated.len() ==> is_complete(#[trigger] generated[i] as int, limits[i] as int)
}

/// Judges the length of one continuation.
pub fn continuation_complete(generated: usize, limit: usize) -> (complete: bool)
    ensures
        complete == is_complete(generated as int, limit as int),
{
    let needed: usize = if limit < MAX_NEW_TOKENS {
        limit
    } else {
        MAX_NEW_TOKENS
    };
    generated >= needed
}

/// Judges the generation over all prompts.
pub fn judge_generation(all_complete: bool) -> (result: Result<(), HarnessError>)
    ensures
        reported(result) == if all_complete {
            None
        } else {
            Some(
                rejected("generation"@, "some prompts failed to generate 50 tokens"@),
            )
        },
{
    if all_complete {
        Ok(())
    } else {
        Err(
            HarnessError::verification(
                "generation",
                say("some prompts failed to generate 50 tokens"),
            ),
        )
    }
}

/// Judges the generation over all prompts by how many tokens each of them was
/// continued by, and by how many at most.
pub fn judge_generations(generated: &Vec<usize>, limits: &Vec<usize>) -> (result: Result<
    (),
    HarnessError,
>)
    requires
        generated@.len() == limits@.len(),
    ensures
        reported(result) == if all_complete(generated@, limits@) {
            None
        } else {
            Some(
                rejected("generation"@, "some prompts failed to generate 50 tokens"@),
            )
        },
{
    let mut i: usize = 0;
    while i < generated.len()
        invariant
            i <= generated@.len(),
            generated@.len() == limits@.len(),
            forall|k: int|
                0 <= k < i ==> is_complete(#[trigger] generated@[k] as int, limits@[k] as int),
        decreases generated.len() - i,
    {
        if !continuation_complete(generated[i], limits[i]) {
            assert(!is_complete(generated@[i as int] as int, limits@[i as int] as int));
            return judge_generation(false);
        }
        i += 1;
    }
    judge_generation(true)
}

/// How far two generated texts agree.
#[derive(Clone, Copy, PartialEq, Eq, Structural, Debug)]
pub struct Agreement {
    /// Length of the shorter text.
    pub compared: usize,
    /// Where they first differ, inside the shorter one.
    pub first_mismatch: Option<usize>,
    /// Number of leading tokens that agree.
    pub matching: usize,
}

/// Whether the two texts agree in exactly their first `count` tokens.
pub open spec fn agree_up_to(reference: Seq<u32>, cached: Seq<u32>, count: int) -> bool {
    &&& 0 <= count <= reference.len()
    &&& count <= cached.len()
    &&& forall|i: int| 0 <= i < count ==> #[trigger] reference[i] == cached[i]
    &&& count < reference.len() && count < cached.len() ==> reference[count] != cached[count]
}

/// Compares a cached generation with its reference.
pub fn compare_texts(reference: &Vec<u32>, cached: &Vec<u32>) -> (agreement: Agreement)
    ensures
        agree_up_to(reference@, cached@, agreement.matching as int),
        agreement.compared == if reference@.len() < cached@.len() {
            reference@.len()
        } else {
            cached@.len()
        },
        agreement.first_mismatch == if agreement.matching < agreement.compared {
            Some(agreement.matching)
        } else {
            None
        },
{
    let compared: usize = if reference.len() < cached.len() {
        reference.len()
    } else {
        cached.len()
    };
    let mut i: usize = 0;
    while i < compared
        invariant
            i <= compared <= reference@.len(),
            compared <= cached@.len(),
            compared == reference@.len() || compared == cached@.len(),
            forall|k: int| 0 <= k < i ==> #[trigger] reference@[k] == cached@[k],
        decreases compared - i,
    {
        if reference[i] != cached[i] {
            return Agreement { compared, first_mismatch: Some(i), matching: i };
        }
        i += 1;
    }
    Agreement { compared, first_mismatch: None, matching: compared }
}

/// Two texts agree up to one count only.
pub proof fn agreement_is_unique(reference: Seq<u32>, cached: Seq<u32>, a: int, b: int)
    requires
        agree_up_to(reference, cached, a),
        agree_up_to(reference, cached, b),
    ensures
        a == b,
{
    if a < b {
        assert(reference[a] == cached[a]);
    } else if b < a {
        assert(reference[b] == cached[b]);
    }
}

/// What a comparison of the cached generation comes to.
pub open spec fn cached_failure(agreement: Agreement, limit: usize) -> Option<Failure> {
    if is_complete(agreement.matching as int, limit as int) {
        None
    } else {
        Some(
            rejected(
                "kv_cached_generation"@,
                "only "@ + decimal(agreement.matching as nat)
                    + " tokens matched (need 50+). First mismatch at step "@ + decimal(
                    match agreement.first_mismatch {
                        Some(step) => step as nat,
                        None => 0,
                    },
                ),
            ),
        )
    }
}

/// Judges the cached generation by how far it agrees with the reference.
pub fn judge_cached_generation(agreement: &Agreement, limit: usize) -> (result: Result<
    (),
    HarnessError,
>)
    ensures
        reported(result) == cached_failure(*agreement, limit),
{
    if continuation_complete(agreement.matching, limit) {
        return Ok(());
    }
    let step: usize = match agreement.first_mismatch {
        Some(step) => step,
        None => 0,
    };
    Err(
        HarnessError::verification(
            "kv_cached_generation",
            say("only ").dec(agreement.matching as u64).text(
                " tokens matched (need 50+). First mismatch at step ",
            ).dec(step as u64),
        ),
    )
}

/// Number of prompts on which the candidate's first choice is the reference's.
pub open spec fn agreeing(reference: Seq<usize>, candidate: Seq<usize>) -> nat
    decreases reference.len(),
{
    if reference.len() == 0 || candidate.len() == 0 {
        0
    } else {
        agreeing(reference.drop_last(), candidate.drop_last()) + if reference.last()
            == candidate.last() {
            1nat
        } else {
            0nat
        }
    }
}

/// Counts the prompts on which two variants of the model choose the same token.
pub fn count_agreeing(reference: &Vec<usize>, candidate: &Vec<usize>) -> (count: usize)
    requires
        reference@.len() == candidate@.len(),
    ensures
        count == agreeing(reference@, candidate@),
{
    let mut count: usize = 0;
    let mut i: usize = 0;
    while i < reference.len()
        invariant
            i <= reference@.len(),
            reference@.len() == candidate@.len(),
            count == agreeing(reference@.take(i as int), candidate@.take(i as int)),
            count <= i,
        decreases reference.len() - i,
    {
        if reference[i] == candidate[i] {
            count += 1;
        }
        i += 1;
        assert(reference@.take(i as int).drop_last() =~= reference@.take(i - 1));
        assert(candidate@.take(i as int).drop_last() =~= candidate@.take(i - 1));
    }
    assert(reference@.take(i as int) =~= reference@);
    assert(candidate@.take(i as int) =~= candidate@);
    count
}

/// How two rankings of tokens agree.
pub struct RankAgreement {
    /// Whether they have the same token at a rank, for every rank of the reference.
    pub ranks: Vec<bool>,
    /// At how many ranks they have.
    pub matching: usize,
}

/// Whether two rankings have the same token at a rank.
pub open spec fn same_rank(reference: Seq<usize>, candidate: Seq<usize>, rank: int) -> bool {
    rank < candidate.len() && reference[rank] == candidate[rank]
}

/// At how many of the first `count` ranks two rankings have the same token.
pub open spec fn matching_ranks(reference: Seq<usize>, candidate: Seq<usize>, count: nat) -> nat
    decreases count,
{
    if count == 0 {
        0
    } else {
        matching_ranks(reference, candidate, (count - 1) as nat) + if same_rank(
            reference,
            candidate,
            count - 1,
        ) {
            1nat
        } else {
            0nat
        }
    }
}

/// Compares a ranking with a reference, rank by rank. A rank that the candidate
/// does not have disagrees.
pub fn compare_rankings(reference: &Vec<usize>, candidate: &Vec<usize>) -> (agreement:
    RankAgreement)
    ensures
        agreement.ranks@.len() == reference@.len(),
        forall|rank: int|
            0 <= rank < reference@.len() ==> #[trigger] agreement.ranks@[rank] == same_rank(
                reference@,
                candidate@,
                rank,
            ),
        agreement.matching == matching_ranks(reference@, candidate@, reference@.len()),
{
    let mut ranks: Vec<bool> = Vec::new();
    let mut matching: usize = 0;
    let mut i: usize = 0;
    while i < reference.len()
        invariant
            i <= reference@.len(),
            ranks@.len() == i,
            forall|rank: int|
                0 <= rank < i ==> #[trigger] ranks@[rank] == same_rank(
                    reference@,
                    candidate@,
                    rank,
                ),
            matching == matching_ranks(reference@, candidate@, i as nat),
            matching <= i,
        decreases reference.len() - i,
    {
        let same: bool = i < candidate.len() && reference[i] == candidate[i];
        ranks.push(same);
        if same {
            matching += 1;
        }
        i += 1;
    }
    RankAgreement { ranks, matching }
}

/// Two rankings of the same length match at every rank exactly if they are equal.
pub proof fn full_match_means_equal(reference: Seq<usize>, candidate: Seq<usize>)
    requires
        reference.len() == candidate.len(),
    ensures
        matching_ranks(reference, candidate, reference.len()) <= reference.len(),
        matching_ranks(reference, candidate, reference.len()) == reference.len() <==> reference
            == candidate,
{
    lemma_matching_ranks(reference, candidate, reference.len());
    if matching_ranks(reference, candidate, reference.len()) == reference.len() {
        assert forall|rank: int| 0 <= rank < reference.len() implies reference[rank]
            == candidate[rank] by {
            assert(same_rank(reference, candidate, rank));
        }
        assert(reference =~= candidate);
    }
}

/// All of the first `count` ranks match exactly if each of them does.
proof fn lemma_matching_ranks(reference: Seq<usize>, candidate: Seq<usize>, count: nat)
    ensures
        matching_ranks(reference, candidate, count) <= count,
        matching_ranks(reference, candidate, count) == count <==> forall|rank: int|
            0 <= rank < count ==> #[trigger] same_rank(reference, candidate, rank),
    decreases count,
{
    if count > 0 {
        let fewer = (count - 1) as nat;
        lemma_matching_ranks(reference, candidate, fewer);
        if matching_ranks(reference, candidate, fewer) < fewer {
            let rank = choose|rank: int|
                0 <= rank < fewer && !#[trigger] same_rank(reference, candidate, rank);
            assert(!same_rank(reference, candidate, rank));
        }
    }
}

/// A pass runs over the least number of whole tiles of thirty-two rows, at least one,
/// that holds its tokens.
pub proof fn padding_is_the_least(used: int, tiles: int)
    requires
        used >= 0,
    ensures
        padded(used) % 32 == 0,
        padded(used) >= 32,
        used <= padded(used),
        tiles >= 1 && used <= 32 * tiles ==> padded(used) <= 32 * tiles,
{
}

/// A prompt is continued until the pass is full, but by no more than fifty tokens.
pub proof fn continuation_fills_the_pass(rows: int, prompt: int)
    requires
        1 <= prompt <= rows,
    ensures
        prompt + new_tokens(rows, prompt) <= rows,
        0 <= new_tokens(rows, prompt) <= 50,
        prompt + new_tokens(rows, prompt) == rows || new_tokens(rows, prompt) == 50,
{
}

/// Every token that was generated is what the pass of the same number predicted.
pub proof fn generated_tokens_are_those_predicted(start: Progress, outcomes: Seq<Outcome>, i: int)
    requires
        start.generated.len() == 0,
        0 <= i < generate(start, outcomes).generated.len(),
    ensures
        i < outcomes.len(),
        outcomes[i] == Outcome::Token(generate(start, outcomes).generated[i]),
    decreases outcomes.len(),
{
    let end = generate(start, outcomes);
    if outcomes.len() > 0 {
        let fewer = outcomes.drop_last();
        let before = generate(start, fewer);
        if unfinished(before) {
            lemma_every_pass_added_one(start, fewer);
        }
        if i < before.generated.len() {
            assert(end.generated[i] == before.generated[i]);
            generated_tokens_are_those_predicted(start, fewer, i);
            assert(outcomes[i] == fewer[i]);
        } else {
            assert(unfinished(before));
            assert(i == before.generated.len());
            assert(outcomes[i] == outcomes.last());
        }
    }
}

/// As long as a generation goes on, every pass has added a token.
proof fn lemma_every_pass_added_one(start: Progress, outcomes: Seq<Outcome>)
    requires
        start.generated.len() == 0,
        !generate(start, outcomes).stopped,
    ensures
        generate(start, outcomes).generated.len() == outcomes.len() || !unfinished(
            generate(start, outcomes),
        ),
    decreases outcomes.len(),
{
    if outcomes.len() > 0 {
        lemma_every_pass_added_one(start, outcomes.drop_last());
    }
}

/// While the passes predict tokens that do not end the text, all of them are taken up,
/// as far as the limit allows.
pub proof fn predicted_tokens_are_taken_up(start: Progress, outcomes: Seq<Outcome>)
    requires
        start.generated.len() == 0,
        !start.stopped,
        forall|i: int|
            0 <= i < outcomes.len() ==> ((#[trigger] outcomes[i]) matches Outcome::Token(t) && t
                != 50256),
    ensures
        !generate(start, outcomes).stopped,
        generate(start, outcomes).generated.len() == if outcomes.len() < start.limit {
            outcomes.len()
        } else {
            start.limit
        },
        generate(start, outcomes).limit == start.limit,
    decreases outcomes.len(),
{
    if outcomes.len() > 0 {
        let fewer = outcomes.drop_last();
        assert forall|i: int| 0 <= i < fewer.len() implies ((#[trigger] fewer[i]) matches
            Outcome::Token(t) && t != 50256) by {
            assert(fewer[i] == outcomes[i]);
        }
        predicted_tokens_are_taken_up(start, fewer);
        assert(outcomes.last() == outcomes[outcomes.len() - 1]);
    }
}

/// The end of the text (the last token of the vocabulary) and a broken prediction stop
/// a generation; the end is taken up only where it is kept.
pub proof fn ends_stop_the_generation(before: Progress, outcome: Outcome)
    requires
        outcome == Outcome::Broken || outcome == Outcome::Token(50256),
    ensures
        observed(before, outcome).stopped,
        !unfinished(observed(before, outcome)),
        observed(before, outcome).generated == if outcome == Outcome::Token(50256)
            && before.policy == EndPolicy::Kept {
            before.generated.push(50256)
        } else {
            before.generated
        },
        observed(before, outcome).prompt == before.prompt,
        END_OF_TEXT == VOCABULARY - 1,
{
}

/// The first pass of a cached generation runs over everything there is; every later one
/// over the last token, at the place where that stands.
pub proof fn passes_run_over_what_is_new(progress: Progress)
    requires
        progress.prompt.len() >= 1,
        progress.prompt.len() + progress.generated.len() <= u32::MAX,
    ensures
        ({
            let tokens = progress.prompt + progress.generated;
            match due_pass(progress) {
                Pass::Prefill { used } => progress.generated.len() == 0 && used == tokens.len(),
                Pass::Decode { token, position } => {
                    &&& progress.generated.len() > 0
                    &&& position == tokens.len() - 1
                    &&& tokens[position as int] == token
                },
            }
        }),
{
}

/// A continuation is complete exactly when it has fifty tokens, or all that there was
/// room for. All prompts are judged alike.
pub proof fn continuations_are_complete_at_their_limit(
    generated: Seq<usize>,
    limits: Seq<usize>,
    agreement: Agreement,
    limit: usize,
)
    requires
        generated.len() == limits.len(),
    ensures
        all_complete(generated, limits) <==> forall|i: int|
            0 <= i < generated.len() ==> (#[trigger] generated[i]) >= 50 || generated[i]
                >= limits[i],
        cached_failure(agreement, limit) is None <==> agreement.matching >= 50
            || agreement.matching >= limit,
{
    if all_complete(generated, limits) {
        assert forall|i: int| 0 <= i < generated.len() implies (#[trigger] generated[i]) >= 50
            || generated[i] >= limits[i] by {
            assert(is_complete(generated[i] as int, limits[i] as int));
        }
    }
}

/// Choices are counted prompt by prompt: a prompt more adds one exactly if the choices
/// agree on it, and all are counted exactly if the choices are the same.
pub proof fn agreeing_choices_are_counted(reference: Seq<usize>, candidate: Seq<usize>)
    requires
        reference.len() == candidate.len(),
    ensures
        agreeing(reference, candidate) == matching_ranks(reference, candidate, reference.len()),
        agreeing(reference, candidate) <= reference.len(),
        agreeing(reference, candidate) == reference.len() <==> reference == candidate,
        agreeing(reference, candidate) == 0 <==> forall|i: int|
            0 <= i < reference.len() ==> (#[trigger] reference[i]) != candidate[i],
    decreases reference.len(),
{
    full_match_means_equal(reference, candidate);
    if reference.len() > 0 {
        let (r, c) = (reference.drop_last(), candidate.drop_last());
        agreeing_choices_are_counted(r, c);
        lemma_fewer_ranks(reference, candidate, r.len());
        let last = reference.len() - 1;
        if agreeing(reference, candidate) == 0 {
            assert forall|i: int| 0 <= i < reference.len() implies (#[trigger] reference[i])
                != candidate[i] by {
                if i < last {
                    assert(r[i] != c[i]);
                }
            }
        }
        if forall|i: int| 0 <= i < reference.len() ==> (#[trigger] reference[i]) != candidate[i] {
            assert(reference[last] != candidate[last]);
            assert forall|i: int| 0 <= i < r.len() implies (#[trigger] r[i]) != c[i] by {
                assert(reference[i] != candidate[i]);
            }
        }
    }
}

/// The first ranks of two rankings do not depend on their last one.
proof fn lemma_fewer_ranks(reference: Seq<usize>, candidate: Seq<usize>, count: nat)
    requires
        reference.len() == candidate.len(),
        count < reference.len(),
    ensures
        matching_ranks(reference.drop_last(), candidate.drop_last(), count) == matching_ranks(
            reference,
            candidate,
            count,
        ),
    decreases count,
{
    if count > 0 {
        lemma_fewer_ranks(reference, candidate, (count - 1) as nat);
    }
}

/// A cached generation that is rejected shows how many tokens matched and where the
/// texts part.
pub proof fn rejected_generation_shows_the_mismatch(agreement: Agreement, limit: usize)
    ensures
        cached_failure(agreement, limit) matches Some(f) ==> f.test == "kv_cached_generation"@
            && (agreement.first_mismatch matches Some(step) ==> f.detail == "only "@ + decimal(
            agreement.matching as nat,
        ) + " tokens matched (need 50+). First mismatch at step "@ + decimal(step as nat)),
        cached_failure(agreement, limit) is Some && agreement.first_mismatch is None
            ==> cached_failure(agreement, limit)->0.detail == "only "@ + decimal(
            agreement.matching as nat,
        ) + " tokens matched (need 50+). First mismatch at step "@ + decimal(0),
{
}

} // verus!
