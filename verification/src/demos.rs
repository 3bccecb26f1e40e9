//! Demonstration kernels: executors, channels, convergence and the bridge to an
//! asynchronous host.
use vstd::prelude::*;
use crate::error::{overdue, rejected, reported, Failure, HarnessError};
use crate::messages::{mention, mentioned};
use crate::text::{decimal, say, texts};

verus! {

/// A kernel that runs tasks on an executor of its own.
#[derive(Clone, Copy, PartialEq, Eq, Structural, Debug)]
pub enum Demo {
    /// Tasks that write values and count.
    Executor,
    /// Pairs of tasks over channels for one value.
    Oneshot,
    /// Several producers and one consumer over one channel.
    Mpsc,
}

/// What a demonstration needs of the host.
#[derive(Clone, Copy, PartialEq, Eq, Structural, Debug)]
pub struct DemoNeeds {
    /// The bytes for the executor and its channels.
    pub memory: usize,
    /// The number of result words.
    pub results: usize,
    /// The result word that holds the phase.
    pub phase: usize,
}

/// What a demonstration needs of the host.
pub open spec fn demo_needs(demo: Demo) -> DemoNeeds {
    match demo {
        Demo::Executor => DemoNeeds { memory: 262144, results: 16, phase: 10 },
        Demo::Oneshot => DemoNeeds { memory: 262400, results: 16, phase: 10 },
        Demo::Mpsc => DemoNeeds { memory: 263168, results: 8, phase: 7 },
    }
}

/// The kernel of a demonstration, which is also the name under which it reports.
pub open spec fn demo_kernel(demo: Demo) -> Seq<char> {
    match demo {
        Demo::Executor => "executor_demo"@,
        Demo::Oneshot => "channel_oneshot_demo"@,
        Demo::Mpsc => "channel_mpsc_demo"@,
    }
}

impl Demo {
    /// What the demonstration needs of the host.
    pub fn needs(self) -> (needs: DemoNeeds)
        ensures
            needs == demo_needs(self),
    {
        match self {
            Demo::Executor => DemoNeeds { memory: 262144, results: 16, phase: 10 },
            Demo::Oneshot => DemoNeeds { memory: 262400, results: 16, phase: 10 },
            Demo::Mpsc => DemoNeeds { memory: 263168, results: 8, phase: 7 },
        }
    }

    /// The kernel of the demonstration.
    pub fn kernel(self) -> (name: &'static str)
        ensures
            name@ == demo_kernel(self),
    {
        match self {
            Demo::Executor => "executor_demo",
            Demo::Oneshot => "channel_oneshot_demo",
            Demo::Mpsc => "channel_mpsc_demo",
        }
    }

    /// The failure of a demonstration that did not come to an end.
    pub fn hung(self, phase: u32) -> (error: HarnessError)
        ensures
            error@ == hung_failure(self, phase as nat),
    {
        HarnessError::timeout(self.kernel(), say("kernel hung at phase ").dec(phase as u64))
    }
}

/// The failure of a demonstration that did not come to an end.
pub open spec fn hung_failure(demo: Demo, phase: nat) -> Failure {
    overdue(demo_kernel(demo), "kernel hung at phase "@ + decimal(phase))
}

/// A result word that must have a certain value, and what is said if it has not.
pub struct Check {
    pub found: u32,
    pub expected: u32,
    pub what: &'static str,
}

/// What a contract says of a check.
pub struct Claim {
    pub found: u32,
    pub expected: u32,
    pub what: Seq<char>,
}

impl View for Check {
    type V = Claim;

    open spec fn view(&self) -> Claim {
        Claim { found: self.found, expected: self.expected, what: self.what@ }
    }
}

/// A claim on a result word.
pub open spec fn claim(found: u32, expected: u32, what: Seq<char>) -> Claim {
    Claim { found, expected, what }
}

/// The first claim that does not hold, if any.
pub open spec fn first_broken(claims: Seq<Claim>) -> Option<Claim>
    decreases claims.len(),
{
    if claims.len() == 0 {
        None
    } else if claims[0].found != claims[0].expected {
        Some(claims[0])
    } else {
        first_broken(claims.skip(1))
    }
}

/// What the result words of a demonstration must be, in the order in which they
/// are looked at.
pub open spec fn demo_claims(demo: Demo, words: Seq<u32>) -> Seq<Claim> {
    match demo {
        Demo::Executor => seq![
            claim(words[0], 8, "expected 8 tasks spawned"@),
            claim(words[1], 8, "expected 8 tasks completed"@),
            claim(words[4], 42, "WriteValueFuture[0] expected 42"@),
            claim(words[5], 100, "WriteValueFuture[1] expected 100"@),
            claim(words[6], 255, "WriteValueFuture[2] expected 255"@),
            claim(words[7], 1337, "WriteValueFuture[3] expected 1337"@),
            claim(words[8], 4, "CounterFuture counter expected 4"@),
            claim(words[9], 1, "success flag expected 1"@),
        ],
        Demo::Oneshot => seq![
            claim(words[0], 8, "expected 8 tasks spawned (4 producers + 4 consumers)"@),
            claim(words[1], 8, "expected 8 tasks completed"@),
            claim(words[4], 42, "channel[0] expected 42"@),
            claim(words[5], 100, "channel[1] expected 100"@),
            claim(words[6], 255, "channel[2] expected 255"@),
            claim(words[7], 1337, "channel[3] expected 1337"@),
            claim(words[8], 4, "expected 4 channel pairs"@),
            claim(words[9], 1, "success flag expected 1"@),
        ],
        Demo::Mpsc => seq![
            claim(words[0], 4, "expected 4 tasks spawned (3 producers + 1 consumer)"@),
            claim(words[1], 4, "expected 4 tasks completed"@),
            claim(
                words[4],
                312,
                "expected sum = 312 (10+20+30+40+11+21+31+41+12+22+32+42)"@,
            ),
            claim(words[5], 12, "expected 12 values received"@),
            claim(words[6], 1, "success flag expected 1"@),
        ],
    }
}

fn check(found: u32, expected: u32, what: &'static str) -> (check: Check)
    ensures
        check@ == claim(found, expected, what@),
{
    Check { found, expected, what }
}

/// The claims that the checks stand for.
pub open spec fn claims_of(checks: Seq<Check>) -> Seq<Claim> {
    checks.map_values(|c: Check| c@)
}

/// What a check that did not hold says, if there is one.
pub open spec fn complaint_of(complaint: Option<Check>) -> Option<Claim> {
    match complaint {
        Some(c) => Some(c@),
        None => None,
    }
}

fn find_broken(checks: &Vec<Check>) -> (complaint: Option<Check>)
    ensures
        complaint_of(complaint) == first_broken(claims_of(checks@)),
{
    let ghost claims = claims_of(checks@);
    let mut i: usize = 0;
    assert(claims.skip(0) =~= claims);
    while i < checks.len()
        invariant
            i <= checks.len(),
            claims == claims_of(checks@),
            first_broken(claims) == first_broken(claims.skip(i as int)),
        decreases checks.len() - i,
    {
        assert(claims.skip(i as int)[0] == checks@[i as int]@);
        if checks[i].found != checks[i].expected {
            return Some(
                Check {
                    found: checks[i].found,
                    expected: checks[i].expected,
                    what: checks[i].what,
                },
            );
        }
        assert(claims.skip(i as int).skip(1) =~= claims.skip(i + 1));
        i += 1;
    }
    None
}

/// The first result word of a demonstration that is not what it must be.
pub fn examine_demo(demo: Demo, words: &Vec<u32>) -> (complaint: Option<Check>)
    requires
        words@.len() >= demo_needs(demo).results,
    ensures
        complaint_of(complaint) == first_broken(demo_claims(demo, words@)),
{
    let checks: Vec<Check> = match demo {
        Demo::Executor => vec![
            check(words[0], 8, "expected 8 tasks spawned"),
            check(words[1], 8, "expected 8 tasks completed"),
            check(words[4], 42, "WriteValueFuture[0] expected 42"),
            check(words[5], 100, "WriteValueFuture[1] expected 100"),
            check(words[6], 255, "WriteValueFuture[2] expected 255"),
            check(words[7], 1337, "WriteValueFuture[3] expected 1337"),
            check(words[8], 4, "CounterFuture counter expected 4"),
            check(words[9], 1, "success flag expected 1"),
        ],
        Demo::Oneshot => vec![
            check(words[0], 8, "expected 8 tasks spawned (4 producers + 4 consumers)"),
            check(words[1], 8, "expected 8 tasks completed"),
            check(words[4], 42, "channel[0] expected 42"),
            check(words[5], 100, "channel[1] expected 100"),
            check(words[6], 255, "channel[2] expected 255"),
            check(words[7], 1337, "channel[3] expected 1337"),
            check(words[8], 4, "expected 4 channel pairs"),
            check(words[9], 1, "success flag expected 1"),
        ],
        Demo::Mpsc => vec![
            check(words[0], 4, "expected 4 tasks spawned (3 producers + 1 consumer)"),
            check(words[1], 4, "expected 4 tasks completed"),
            check(
                words[4],
                312,
                "expected sum = 312 (10+20+30+40+11+21+31+41+12+22+32+42)",
            ),
            check(words[5], 12, "expected 12 values received"),
            check(words[6], 1, "success flag expected 1"),
        ],
    };
    assert(claims_of(checks@) =~= demo_claims(demo, words@));
    find_broken(&checks)
}

/// There is no complaint exactly when every claim holds.
pub proof fn no_complaint_means_all_claims_hold(claims: Seq<Claim>)
    ensures
        first_broken(claims) is None <==> forall|i: int|
            0 <= i < claims.len() ==> (#[trigger] claims[i]).found == claims[i].expected,
    decreases claims.len(),
{
    if claims.len() > 0 {
        let rest = claims.skip(1);
        no_complaint_means_all_claims_hold(rest);
        if forall|i: int|
            0 <= i < claims.len() ==> (#[trigger] claims[i]).found == claims[i].expected {
            assert forall|i: int| 0 <= i < rest.len() implies (#[trigger] rest[i]).found
                == rest[i].expected by {
                assert(rest[i] == claims[i + 1]);
            }
        }
        if first_broken(claims) is None {
            assert forall|i: int| 0 <= i < claims.len() implies (#[trigger] claims[i]).found
                == claims[i].expected by {
                if i > 0 {
                    assert(rest[i - 1] == claims[i]);
                }
            }
        }
    }
}

/// What a kernel that iterates until it converges comes to.
#[derive(Clone, Copy, PartialEq, Eq, Structural, Debug)]
pub enum Convergence {
    Accepted,
    /// The kernel did not set its flag.
    NotDone,
    /// The number of iterations is not between one and a hundred.
    OutOfRange,
}

/// What a kernel that iterates until it converges comes to.
pub open spec fn convergence(done: u32, iterations: u32) -> Convergence {
    if done != 1 {
        Convergence::NotDone
    } else if 0 < iterations <= 100 {
        Convergence::Accepted
    } else {
        Convergence::OutOfRange
    }
}

/// Judges a kernel that iterates until it converges.
pub fn judge_convergence(done: u32, iterations: u32) -> (verdict: Convergence)
    ensures
        verdict == if done != 1 {
            Convergence::NotDone
        } else if 0 < iterations <= 100 {
            Convergence::Accepted
        } else {
            Convergence::OutOfRange
        },
        verdict == convergence(done, iterations),
{
    if done != 1 {
        Convergence::NotDone
    } else if iterations > 0 && iterations <= 100 {
        Convergence::Accepted
    } else {
        Convergence::OutOfRange
    }
}

/// The microseconds that launching the three stages of every iteration on their
/// own would cost, at ten for each launch.
pub fn launch_overhead_micros(iterations: u32) -> (micros: u64)
    ensures
        micros == 30 * iterations,
{
    3 * iterations as u64 * 10
}

/// Whether an iterative square root is accepted: it is close enough, and it took
/// some iterations but not all that it was allowed.
pub fn root_accepted(close: bool, iterations: u32, limit: u32) -> (accepted: bool)
    ensures
        accepted == (close && 0 < iterations < limit),
{
    close && iterations > 0 && iterations < limit
}

/// The numbers of an iterative square root, as they are shown.
pub struct ShownRoot {
    /// What the root was taken of.
    pub value: String,
    /// What the kernel found.
    pub root: String,
    /// What it had to find.
    pub expected: String,
    /// How far the two are apart.
    pub error: String,
}

/// What an iterative square root comes to.
pub open spec fn root_failure(
    close: bool,
    iterations: u32,
    limit: u32,
    shown: ShownRoot,
) -> Option<Failure> {
    if close && 0 < iterations < limit {
        None
    } else {
        Some(
            rejected(
                "newton_sqrt_kernel"@,
                "sqrt("@ + shown.value@ + ") = "@ + shown.root@ + " (expected "@ + shown.expected@
                    + ", err="@ + shown.error@ + ", "@ + decimal(iterations as nat) + " iters)"@,
            ),
        )
    }
}

/// Judges an iterative square root; `close` says whether the error is below the
/// tolerance. A rejection shows the numbers.
pub fn judge_root(close: bool, iterations: u32, limit: u32, shown: &ShownRoot) -> (result: Result<
    (),
    HarnessError,
>)
    ensures
        reported(result) == root_failure(close, iterations, limit, *shown),
{
    if root_accepted(close, iterations, limit) {
        return Ok(());
    }
    Err(
        HarnessError::verification(
            "newton_sqrt_kernel",
            say("sqrt(").text(shown.value.as_str()).text(") = ").text(shown.root.as_str()).text(
                " (expected ",
            ).text(shown.expected.as_str()).text(", err=").text(shown.error.as_str()).text(
                ", ",
            ).dec(iterations as u64).text(" iters)"),
        ),
    )
}

/// What the bridge to an asynchronous host delivers.
pub enum BridgeEvent {
    /// The kernel printed something.
    Print(String),
    /// The kernel is shutting down.
    Shutdown,
    /// There will be no more events.
    Closed,
    /// Nothing came in time.
    Quiet,
}

/// What arrived over the bridge: the texts, and whether more may come.
pub struct Arrivals {
    pub texts: Seq<Seq<char>>,
    pub open: bool,
}

/// What has arrived after one more event. After the first event that is no text
/// nothing more is taken.
pub open spec fn arrive(before: Arrivals, event: BridgeEvent) -> Arrivals {
    if !before.open {
        before
    } else {
        match event {
            BridgeEvent::Print(text) => Arrivals { texts: before.texts.push(text@), open: true },
            _ => Arrivals { texts: before.texts, open: false },
        }
    }
}

/// What has arrived after a number of events.
pub open spec fn arrived(events: Seq<BridgeEvent>) -> Arrivals
    decreases events.len(),
{
    if events.len() == 0 {
        Arrivals { texts: Seq::empty(), open: true }
    } else {
        arrive(arrived(events.drop_last()), events.last())
    }
}

/// Collects what arrives over the bridge.
pub struct Inbox {
    messages: Vec<String>,
    open: bool,
}

impl View for Inbox {
    type V = Arrivals;

    closed spec fn view(&self) -> Arrivals {
        Arrivals { texts: texts(self.messages@), open: self.open }
    }
}

impl Inbox {
    /// An inbox in which nothing has arrived.
    pub fn new() -> (inbox: Inbox)
        ensures
            inbox@ == arrived(Seq::empty()),
    {
        let inbox: Inbox = Inbox { messages: Vec::new(), open: true };
        assert(inbox@.texts =~= Seq::<Seq<char>>::empty());
        inbox
    }

    /// Whether more may come.
    pub fn is_open(&self) -> (open: bool)
        ensures
            open == self@.open,
    {
        self.open
    }

    /// Takes an event.
    pub fn take(&mut self, event: BridgeEvent)
        ensures
            final(self)@ == arrive(old(self)@, event),
    {
        if !self.open {
            return ;
        }
        match event {
            BridgeEvent::Print(text) => {
                let ghost before = self.messages@;
                self.messages.push(text);
                assert(texts(self.messages@) =~= texts(before).push(text@));
            },
            _ => {
                self.open = false;
            },
        }
    }

    /// The texts that arrived.
    pub fn messages(&self) -> (messages: &Vec<String>)
        ensures
            texts(messages@) == self@.texts,
    {
        &self.messages
    }
}

/// As long as only texts come, all of them are kept, in their order.
pub proof fn arrivals_keep_every_text(events: Seq<BridgeEvent>)
    requires
        forall|i: int| 0 <= i < events.len() ==> #[trigger] events[i] is Print,
    ensures
        arrived(events).open,
        arrived(events).texts.len() == events.len(),
        forall|i: int|
            0 <= i < events.len() ==> #[trigger] arrived(events).texts[i] == events[i]->Print_0@,
    decreases events.len(),
{
    if events.len() > 0 {
        let fewer = events.drop_last();
        assert forall|i: int| 0 <= i < fewer.len() implies #[trigger] fewer[i] is Print by {
            assert(events[i] is Print);
        }
        arrivals_keep_every_text(fewer);
        assert(events.last() == events[events.len() - 1]);
        assert forall|i: int| 0 <= i < events.len() implies #[trigger] arrived(events).texts[i]
            == events[i]->Print_0@ by {
            if i < fewer.len() {
                assert(arrived(fewer).texts[i] == fewer[i]->Print_0@);
            }
        }
    }
}

/// After the first event that is no text nothing changes any more.
pub proof fn closed_inbox_stays(events: Seq<BridgeEvent>, more: Seq<BridgeEvent>)
    requires
        !arrived(events).open,
    ensures
        arrived(events + more) == arrived(events),
    decreases more.len(),
{
    if more.len() == 0 {
        assert(events + more =~= events);
    } else {
        closed_inbox_stays(events, more.drop_last());
        assert((events + more).drop_last() =~= events + more.drop_last());
        assert((events + more).last() == more.last());
    }
}

/// What a run over the bridge comes to.
#[derive(Clone, Copy, PartialEq, Eq, Structural, Debug)]
pub enum BridgeVerdict {
    Accepted,
    /// The kernel reported a failure.
    KernelFailed,
    /// No text has the greeting in it.
    GreetingMissing,
}

/// What a run over the bridge comes to.
pub open spec fn bridge_verdict(result: u32, messages: Seq<Seq<char>>) -> BridgeVerdict {
    if result != 1 {
        BridgeVerdict::KernelFailed
    } else if mentioned(messages, "Hello from GPU!"@) {
        BridgeVerdict::Accepted
    } else {
        BridgeVerdict::GreetingMissing
    }
}

/// Judges a run over the bridge.
pub fn judge_bridge(result: u32, messages: &Vec<String>) -> (verdict: BridgeVerdict)
    ensures
        verdict == if result != 1 {
            BridgeVerdict::KernelFailed
        } else if mentioned(texts(messages@), "Hello from GPU!"@) {
            BridgeVerdict::Accepted
        } else {
            BridgeVerdict::GreetingMissing
        },
        verdict == bridge_verdict(result, texts(messages@)),
{
    if result != 1 {
        BridgeVerdict::KernelFailed
    } else if mention(messages, "Hello from GPU!") {
        BridgeVerdict::Accepted
    } else {
        BridgeVerdict::GreetingMissing
    }
}

/// The complaint is about the first claim that does not hold.
pub proof fn complaint_is_the_first(claims: Seq<Claim>, i: int)
    requires
        0 <= i < claims.len(),
        claims[i].found != claims[i].expected,
        forall|k: int| 0 <= k < i ==> (#[trigger] claims[k]).found == claims[k].expected,
    ensures
        first_broken(claims) == Some(claims[i]),
    decreases claims.len(),
{
    if i > 0 {
        let rest = claims.skip(1);
        assert(claims[0].found == claims[0].expected);
        assert(rest[i - 1] == claims[i]);
        assert forall|k: int| 0 <= k < i - 1 implies (#[trigger] rest[k]).found
            == rest[k].expected by {
            assert(rest[k] == claims[k + 1]);
        }
        complaint_is_the_first(rest, i - 1);
    }
}

/// A demonstration is accepted exactly when its tasks ran to their end and delivered
/// what they were given: the four values, or the sum of the twelve numbers sent by
/// three producers.
pub proof fn demos_are_accepted_if_all_arrived(demo: Demo, words: Seq<u32>)
    ensures
        first_broken(demo_claims(demo, words)) is None <==> match demo {
            Demo::Mpsc => {
                &&& words[0] == 4 && words[1] == 4
                &&& words[4] == 10 + 20 + 30 + 40 + 11 + 21 + 31 + 41 + 12 + 22 + 32 + 42
                &&& words[5] == 3 * 4
                &&& words[6] == 1
            },
            _ => {
                &&& words[0] == 8 && words[1] == 8
                &&& (words[4], words[5]) == (42u32, 100u32)
                &&& (words[6], words[7]) == (255u32, 1337u32)
                &&& words[8] == 4
                &&& words[9] == 1
            },
        },
{
    let claims = demo_claims(demo, words);
    no_complaint_means_all_claims_hold(claims);
    match demo {
        Demo::Mpsc => {
            if words[0] == 4 && words[1] == 4 && words[4] == 312 && words[5] == 12 && words[6]
                == 1 {
                assert forall|i: int| 0 <= i < claims.len() implies (#[trigger] claims[i]).found
                    == claims[i].expected by {
                    assert(i == 0 || i == 1 || i == 2 || i == 3 || i == 4);
                }
            }
            assert(claims[0] == claim(words[0], 4, claims[0].what));
            assert(claims[1] == claim(words[1], 4, claims[1].what));
            assert(claims[2] == claim(words[4], 312, claims[2].what));
            assert(claims[3] == claim(words[5], 12, claims[3].what));
            assert(claims[4] == claim(words[6], 1, claims[4].what));
        },
        _ => {
            if words[0] == 8 && words[1] == 8 && words[4] == 42 && words[5] == 100 && words[6]
                == 255 && words[7] == 1337 && words[8] == 4 && words[9] == 1 {
                assert forall|i: int| 0 <= i < claims.len() implies (#[trigger] claims[i]).found
                    == claims[i].expected by {
                    assert(i == 0 || i == 1 || i == 2 || i == 3 || i == 4 || i == 5 || i == 6 || i
                        == 7);
                }
            }
            assert(claims[0] == claim(words[0], 8, claims[0].what));
            assert(claims[1] == claim(words[1], 8, claims[1].what));
            assert(claims[2] == claim(words[4], 42, claims[2].what));
            assert(claims[3] == claim(words[5], 100, claims[3].what));
            assert(claims[4] == claim(words[6], 255, claims[4].what));
            assert(claims[5] == claim(words[7], 1337, claims[5].what));
            assert(claims[6] == claim(words[8], 4, claims[6].what));
            assert(claims[7] == claim(words[9], 1, claims[7].what));
        },
    }
}

/// The host gives every demonstration room for the words that it is judged by, and the
/// phase stands behind them.
pub proof fn demos_have_room_for_their_words(demo: Demo)
    ensures
        demo_needs(demo).phase < demo_needs(demo).results,
        demo == Demo::Mpsc ==> demo_needs(demo).phase > 6,
        demo != Demo::Mpsc ==> demo_needs(demo).phase > 9,
        demo_needs(demo).memory >= 0x4_0000,
        demo_needs(Demo::Oneshot).memory - demo_needs(Demo::Executor).memory == 4 * 64,
        demo_needs(Demo::Mpsc).memory - demo_needs(Demo::Executor).memory == 1024,
{
}

/// A root is accepted exactly when it is close and was found by iterating, before the
/// limit was reached.
pub proof fn root_is_accepted_if_close(
    close: bool,
    iterations: u32,
    limit: u32,
    shown: ShownRoot,
)
    ensures
        root_failure(close, iterations, limit, shown) is None <==> close && iterations >= 1
            && iterations <= limit - 1,
{
}

/// A kernel that iterates is accepted exactly when it says that it is done and took
/// from one to a hundred iterations. Of one that is not done, the iterations do not
/// matter.
pub proof fn convergence_takes_some_iterations(done: u32, iterations: u32)
    ensures
        convergence(done, iterations) == Convergence::Accepted <==> done == 1 && iterations >= 1
            && iterations < 101,
        convergence(done, iterations) == Convergence::NotDone <==> done != 1,
{
}

/// A run over the bridge is accepted exactly when the kernel succeeded and a text has
/// the greeting in it.
pub proof fn bridge_is_accepted_if_greeted(result: u32, messages: Seq<Seq<char>>)
    ensures
        bridge_verdict(result, messages) == BridgeVerdict::Accepted <==> result == 1 && exists|
            m: int,
        |
            0 <= m < messages.len() && crate::messages::occurs(
                #[trigger] messages[m],
                "Hello from GPU!"@,
            ),
        bridge_verdict(result, messages) == BridgeVerdict::KernelFailed <==> result != 1,
{
}

/// A demonstration that hangs is overdue, under the name of its kernel and with the
/// phase that it hangs in.
pub proof fn hung_demo_is_overdue(demo: Demo, phase: nat)
    ensures
        hung_failure(demo, phase).kind == crate::error::FailureKind::Timeout,
        hung_failure(demo, phase).detail == "kernel hung at phase "@ + decimal(phase),
        hung_failure(Demo::Executor, phase).test == "executor_demo"@,
        hung_failure(Demo::Oneshot, phase).test == "channel_oneshot_demo"@,
        hung_failure(Demo::Mpsc, phase).test == "channel_mpsc_demo"@,
{
}

/// The first event that is no text closes the inbox, whichever it is, and brings nothing
/// into it; a text goes behind all others.
pub proof fn events_go_into_the_inbox(events: Seq<BridgeEvent>, event: BridgeEvent)
    requires
        arrived(events).open,
    ensures
        arrived(events.push(event)).open <==> event is Print,
        event is Shutdown || event is Closed || event is Quiet ==> arrived(events.push(event)).texts
            == arrived(events).texts,
        event matches BridgeEvent::Print(text) ==> arrived(events.push(event)).texts == arrived(
            events,
        ).texts.push(text@),
{
    assert(events.push(event).drop_last() =~= events);
}

/// A rejected root shows the numbers in the order in which they came about.
pub proof fn rejected_root_shows_the_numbers(
    close: bool,
    iterations: u32,
    limit: u32,
    shown: ShownRoot,
)
    requires
        root_failure(close, iterations, limit, shown) is Some,
    ensures
        root_failure(close, iterations, limit, shown)->0.detail == "sqrt("@ + shown.value@ + ") = "@
            + shown.root@ + " (expected "@ + shown.expected@ + ", err="@ + shown.error@ + ", "@
            + decimal(iterations as nat) + " iters)"@,
        root_failure(close, iterations, limit, shown)->0.test == "newton_sqrt_kernel"@,
{
}

} // verus!
