use gpu_test_harness::demos::{
    examine_demo, judge_bridge, judge_convergence, judge_root, launch_overhead_micros,
    root_accepted, BridgeEvent, BridgeVerdict, Convergence, Demo, Inbox, ShownRoot,
};
use gpu_test_harness::error::FailureKind;
use gpu_test_harness::supervision::{look, watch, Next};

fn executor_words() -> Vec<u32> {
    let mut words = vec![0; 16];
    words[..10].copy_from_slice(&[8, 8, 0, 0, 42, 100, 255, 1337, 4, 1]);
    words
}

#[test]
fn demonstrations_that_work() {
    assert!(examine_demo(Demo::Executor, &executor_words()).is_none());
    assert!(examine_demo(Demo::Oneshot, &executor_words()).is_none());
    assert!(examine_demo(Demo::Mpsc, &vec![4, 4, 9, 9, 312, 12, 1, 7]).is_none());
}

#[test]
fn first_broken_claim_is_reported() {
    let mut words = executor_words();
    words[9] = 0;
    words[6] = 254;
    let complaint = examine_demo(Demo::Executor, &words).unwrap();
    assert_eq!(complaint.what, "WriteValueFuture[2] expected 255");
    assert_eq!((complaint.found, complaint.expected), (254, 255));
    words[0] = 7;
    let complaint = examine_demo(Demo::Oneshot, &words).unwrap();
    assert_eq!(
        complaint.what,
        "expected 8 tasks spawned (4 producers + 4 consumers)"
    );
    let complaint = examine_demo(Demo::Mpsc, &vec![4, 4, 0, 0, 311, 12, 1, 0]).unwrap();
    assert_eq!(
        complaint.what,
        "expected sum = 312 (10+20+30+40+11+21+31+41+12+22+32+42)"
    );
    let complaint = examine_demo(Demo::Mpsc, &vec![4, 4, 0, 0, 312, 12, 0, 0]).unwrap();
    assert_eq!(complaint.what, "success flag expected 1");
}

#[test]
fn demonstrations_state_their_needs() {
    let needs = Demo::Oneshot.needs();
    assert_eq!((needs.memory, needs.results, needs.phase), (256 * 1024 + 256, 16, 10));
    let needs = Demo::Mpsc.needs();
    assert_eq!((needs.memory, needs.results, needs.phase), (256 * 1024 + 1024, 8, 7));
    assert_eq!(Demo::Executor.needs().memory, 256 * 1024);
    assert_eq!(Demo::Mpsc.kernel(), "channel_mpsc_demo");
}

#[test]
fn a_hung_kernel_times_out() {
    let error = Demo::Executor.hung(5);
    assert_eq!(error.kind, FailureKind::Timeout);
    assert_eq!(error.test, "executor_demo");
    assert_eq!(error.detail, "kernel hung at phase 5");
}

#[test]
fn watching_a_kernel() {
    let limit = 10_000_000_000;
    let seen = watch(1, 2, false, limit, limit);
    assert!(seen.announce);
    assert_eq!(seen.next, Next::Wait);
    let seen = watch(2, 2, false, limit + 1, limit);
    assert!(!seen.announce);
    assert_eq!(seen.next, Next::GiveUp);
    assert_eq!(watch(2, 2, true, limit + 1, limit).next, Next::Finish);
    assert!(look(0, 1, 29_999, 30_000).announce);
    assert!(!look(1, 1, 29_999, 30_000).expired);
    assert!(look(1, 1, 30_000, 30_000).expired);
}

#[test]
fn convergence() {
    assert_eq!(judge_convergence(1, 1), Convergence::Accepted);
    assert_eq!(judge_convergence(1, 100), Convergence::Accepted);
    assert_eq!(judge_convergence(1, 0), Convergence::OutOfRange);
    assert_eq!(judge_convergence(1, 101), Convergence::OutOfRange);
    assert_eq!(judge_convergence(0, 5), Convergence::NotDone);
    assert_eq!(launch_overhead_micros(7), 210);
    assert!(root_accepted(true, 5, 100));
    assert!(!root_accepted(false, 5, 100));
    assert!(!root_accepted(true, 0, 100));
    assert!(!root_accepted(true, 100, 100));
}

#[test]
fn inbox_keeps_texts_until_it_closes() {
    let mut inbox = Inbox::new();
    assert!(inbox.is_open());
    inbox.take(BridgeEvent::Print("Hello from GPU!".to_string()));
    inbox.take(BridgeEvent::Print("more".to_string()));
    assert!(inbox.is_open());
    inbox.take(BridgeEvent::Quiet);
    assert!(!inbox.is_open());
    inbox.take(BridgeEvent::Print("late".to_string()));
    assert_eq!(inbox.messages(), &vec!["Hello from GPU!".to_string(), "more".to_string()]);
    for event in [BridgeEvent::Shutdown, BridgeEvent::Closed] {
        let mut inbox = Inbox::new();
        inbox.take(event);
        assert!(!inbox.is_open());
        assert!(inbox.messages().is_empty());
    }
}

#[test]
fn bridge_needs_the_greeting() {
    let messages = vec!["well: Hello from GPU!".to_string()];
    assert_eq!(judge_bridge(1, &messages), BridgeVerdict::Accepted);
    assert_eq!(judge_bridge(0, &messages), BridgeVerdict::KernelFailed);
    assert_eq!(judge_bridge(1, &Vec::new()), BridgeVerdict::GreetingMissing);
}

#[test]
fn rejected_roots_are_shown() {
    let shown = ShownRoot {
        value: "2".to_string(),
        root: "1.5".to_string(),
        expected: "1.4142135".to_string(),
        error: "8.58e-2".to_string(),
    };
    assert!(judge_root(true, 99, 100, &shown).is_ok());
    for (close, iterations) in [(false, 5), (true, 0), (true, 100)] {
        let error = judge_root(close, iterations, 100, &shown).err().unwrap();
        assert_eq!(error.kind, FailureKind::Verification);
        assert_eq!(error.test, "newton_sqrt_kernel");
        assert_eq!(
            error.detail,
            format!("sqrt(2) = 1.5 (expected 1.4142135, err=8.58e-2, {iterations} iters)")
        );
    }
}
