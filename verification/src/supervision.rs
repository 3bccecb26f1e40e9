//! Supervision of a kernel that runs in a thread of its own.
//!
//! The host polls the phase word of a running kernel and gives up after a fixed
//! time. What a launch came to decides the report, and whether the mapped
//! buffers may be freed: a kernel that may still be running keeps them.
use vstd::prelude::*;
use crate::error::{overdue, rejected, Failure, FailureKind, HarnessError};
use crate::text::{decimal, say, truth, Line};

verus! {

/// What one look at a running kernel asks of the host.
#[derive(Clone, Copy, PartialEq, Eq, Structural, Debug)]
pub struct Look {
    /// The phase has changed since the last look and is to be announced.
    pub announce: bool,
    /// The time is up.
    pub expired: bool,
}

/// What one look at a running kernel comes to.
pub open spec fn looked(last_phase: u64, phase: u64, elapsed: u64, limit: u64) -> Look {
    Look { announce: phase != last_phase, expired: elapsed >= limit }
}

/// Judges one look at a running kernel.
pub fn look(last_phase: u64, phase: u64, elapsed_millis: u64, limit_millis: u64) -> (seen: Look)
    ensures
        seen.announce == (phase != last_phase),
        seen.expired == (elapsed_millis >= limit_millis),
        seen == looked(last_phase, phase, elapsed_millis, limit_millis),
{
    Look { announce: phase != last_phase, expired: elapsed_millis >= limit_millis }
}

/// What the host does after a look at a kernel that it waits for.
#[derive(Clone, Copy, PartialEq, Eq, Structural, Debug)]
pub enum Next {
    /// The kernel has come to an end.
    Finish,
    /// The time is over.
    GiveUp,
    /// Look again a little later.
    Wait,
}

/// What one look at a kernel that the host waits for asks of it.
#[derive(Clone, Copy, PartialEq, Eq, Structural, Debug)]
pub struct Watch {
    /// The phase has changed since the last look and is to be announced.
    pub announce: bool,
    pub next: Next,
}

/// What one look at a kernel that the host waits for comes to.
pub open spec fn watched(
    last_phase: u32,
    phase: u32,
    ended: bool,
    elapsed: u128,
    limit: u128,
) -> Watch {
    Watch {
        announce: phase != last_phase,
        next: if ended {
            Next::Finish
        } else if elapsed > limit {
            Next::GiveUp
        } else {
            Next::Wait
        },
    }
}

/// Judges one look at a kernel that the host waits for. A kernel that has come to
/// an end is never late.
pub fn watch(
    last_phase: u32,
    phase: u32,
    ended: bool,
    elapsed_nanos: u128,
    limit_nanos: u128,
) -> (seen: Watch)
    ensures
        seen.announce == (phase != last_phase),
        seen.next == if ended {
            Next::Finish
        } else if elapsed_nanos > limit_nanos {
            Next::GiveUp
        } else {
            Next::Wait
        },
        seen == watched(last_phase, phase, ended, elapsed_nanos, limit_nanos),
{
    let next: Next = if ended {
        Next::Finish
    } else if elapsed_nanos > limit_nanos {
        Next::GiveUp
    } else {
        Next::Wait
    };
    Watch { announce: phase != last_phase, next }
}

/// What a supervised launch came to.
pub enum LaunchEnd {
    /// The launch thread reported: an error or success, and whether it could be
    /// joined afterwards.
    Reported { error: Option<String>, joined: bool },
    /// The launch thread went away without a report.
    Disconnected { panicked: bool },
    /// The time was up while the kernel was in this phase.
    Expired { phase: u64 },
}

/// What becomes of the mapped buffers.
#[derive(Clone, Copy, PartialEq, Eq, Structural, Debug)]
pub enum Buffers {
    /// They are freed.
    Released,
    /// They are kept until the process exits, as the device may still use them.
    Retained,
}

/// A launch that did not work out.
pub struct LaunchFailure {
    pub error: HarnessError,
    pub buffers: Buffers,
}

/// The failure and the fate of the buffers that a launch result states, if it
/// failed.
pub open spec fn launch_report(result: Result<(), LaunchFailure>) -> Option<(Failure, Buffers)> {
    match result {
        Ok(_) => None,
        Err(failure) => Some((failure.error@, failure.buffers)),
    }
}

/// What the safety run makes of its launch.
pub open spec fn safety_launch_report(end: LaunchEnd) -> Option<(Failure, Buffers)> {
    let test = "priority_handle_safety_stress"@;
    match end {
        LaunchEnd::Disconnected { panicked } => Some(
            (
                rejected(
                    test,
                    "GPU launch thread disconnected (panicked="@ + truth(panicked)
                        + "); result=UNKNOWN, mapped buffers intentionally retained"@,
                ),
                Buffers::Retained,
            ),
        ),
        LaunchEnd::Expired { phase } => Some(
            (
                overdue(
                    test,
                    "30s exceeded at phase="@ + decimal(phase as nat)
                        + "; result=UNKNOWN, mapped buffers intentionally retained"@,
                ),
                Buffers::Retained,
            ),
        ),
        LaunchEnd::Reported { error, joined } => if !joined {
            Some(
                (
                    rejected(
                        test,
                        "GPU launch thread panicked after reporting status; result=UNKNOWN, mapped buffers intentionally retained"@,
                    ),
                    Buffers::Retained,
                ),
            )
        } else {
            match error {
                Some(detail) => Some(
                    (
                        rejected(
                            test,
                            "launch/synchronize failed: "@ + detail@ + "; result=UNKNOWN"@,
                        ),
                        Buffers::Released,
                    ),
                ),
                None => None,
            }
        },
    }
}

/// Judges the launch of the safety run.
pub fn judge_safety_launch(end: &LaunchEnd) -> (result: Result<(), LaunchFailure>)
    ensures
        launch_report(result) == safety_launch_report(*end),
{
    let test: &'static str = "priority_handle_safety_stress";
    match end {
        LaunchEnd::Disconnected { panicked } => Err(
            LaunchFailure {
                error: HarnessError::verification(
                    test,
                    say("GPU launch thread disconnected (panicked=").flag(*panicked).text(
                        "); result=UNKNOWN, mapped buffers intentionally retained",
                    ),
                ),
                buffers: Buffers::Retained,
            },
        ),
        LaunchEnd::Expired { phase } => Err(
            LaunchFailure {
                error: HarnessError::timeout(
                    test,
                    say("30s exceeded at phase=").dec(*phase).text(
                        "; result=UNKNOWN, mapped buffers intentionally retained",
                    ),
                ),
                buffers: Buffers::Retained,
            },
        ),
        LaunchEnd::Reported { error, joined } => {
            if !*joined {
                return Err(
                    LaunchFailure {
                        error: HarnessError::verification(
                            test,
                            say(
                                "GPU launch thread panicked after reporting status; result=UNKNOWN, mapped buffers intentionally retained",
                            ),
                        ),
                        buffers: Buffers::Retained,
                    },
                );
            }
            match error {
                Some(detail) => Err(
                    LaunchFailure {
                        error: HarnessError::verification(
                            test,
                            say("launch/synchronize failed: ").text(detail.as_str()).text(
                                "; result=UNKNOWN",
                            ),
                        ),
                        buffers: Buffers::Released,
                    },
                ),
                None => Ok(()),
            }
        },
    }
}

/// What the obstacle run makes of its launch. A launch thread that is gone counts
/// as a launch that failed.
pub open spec fn obstacle_launch_report(end: LaunchEnd) -> Option<(Failure, Buffers)> {
    let test = "obstacle_event_priority_stress"@;
    match end {
        LaunchEnd::Expired { phase } => Some(
            (
                overdue(
                    test,
                    "20s 内未完成，最后 phase="@ + decimal(phase as nat)
                        + "；结果判定为 UNKNOWN，mapped buffers 保留至进程退出"@,
                ),
                Buffers::Retained,
            ),
        ),
        LaunchEnd::Disconnected { .. } => Some(
            (
                rejected(
                    test,
                    "CUDA launch/synchronize failed: "@ + "GPU launch thread disconnected"@
                        + "; result=UNKNOWN"@,
                ),
                Buffers::Released,
            ),
        ),
        LaunchEnd::Reported { error: Some(detail), .. } => Some(
            (
                rejected(
                    test,
                    "CUDA launch/synchronize failed: "@ + detail@ + "; result=UNKNOWN"@,
                ),
                Buffers::Released,
            ),
        ),
        LaunchEnd::Reported { error: None, .. } => None,
    }
}

/// Judges the launch of the obstacle run.
pub fn judge_obstacle_launch(end: &LaunchEnd) -> (result: Result<(), LaunchFailure>)
    ensures
        launch_report(result) == obstacle_launch_report(*end),
{
    let test: &'static str = "obstacle_event_priority_stress";
    match end {
        LaunchEnd::Expired { phase } => Err(
            LaunchFailure {
                error: HarnessError::timeout(
                    test,
                    say("20s 内未完成，最后 phase=").dec(*phase).text(
                        "；结果判定为 UNKNOWN，mapped buffers 保留至进程退出",
                    ),
                ),
                buffers: Buffers::Retained,
            },
        ),
        LaunchEnd::Disconnected { .. } => Err(
            LaunchFailure {
                error: HarnessError::verification(
                    test,
                    say("CUDA launch/synchronize failed: ").text(
                        "GPU launch thread disconnected",
                    ).text("; result=UNKNOWN"),
                ),
                buffers: Buffers::Released,
            },
        ),
        LaunchEnd::Reported { error, .. } => match error {
            Some(detail) => Err(
                LaunchFailure {
                    error: HarnessError::verification(
                        test,
                        say("CUDA launch/synchronize failed: ").text(detail.as_str()).text(
                            "; result=UNKNOWN",
                        ),
                    ),
                    buffers: Buffers::Released,
                },
            ),
            None => Ok(()),
        },
    }
}

/// What a composed run with the given mutation makes of its launch.
pub open spec fn composed_launch_report(mutation: u32, end: LaunchEnd) -> Option<
    (Failure, Buffers),
> {
    let test = "composed_priority_hostcall_e2e"@;
    let start = "mutation="@ + decimal(mutation as nat);
    match end {
        LaunchEnd::Expired { .. } => Some(
            (
                overdue(
                    test,
                    start + " exceeded 30s; result=UNKNOWN, mappings intentionally retained"@,
                ),
                Buffers::Retained,
            ),
        ),
        LaunchEnd::Disconnected { panicked } => Some(
            (
                rejected(
                    test,
                    start + " launch status channel disconnected (thread_panicked="@ + truth(
                        panicked,
                    ) + "); result=UNKNOWN, mappings intentionally retained"@,
                ),
                Buffers::Retained,
            ),
        ),
        LaunchEnd::Reported { error, joined } => if !joined {
            Some(
                (
                    rejected(
                        test,
                        start + " launch thread panicked after status delivery; result=UNKNOWN"@,
                    ),
                    Buffers::Released,
                ),
            )
        } else {
            match error {
                Some(detail) => Some(
                    (
                        rejected(
                            test,
                            start + " launch/synchronize failed: "@ + detail@
                                + "; result=UNKNOWN"@,
                        ),
                        Buffers::Released,
                    ),
                ),
                None => None,
            }
        },
    }
}

/// Judges the launch of a composed run.
pub fn judge_composed_launch(mutation: u32, end: &LaunchEnd) -> (result: Result<(), LaunchFailure>)
    ensures
        launch_report(result) == composed_launch_report(mutation, *end),
{
    let test: &'static str = "composed_priority_hostcall_e2e";
    let start: Line = say("mutation=").dec(mutation as u64);
    match end {
        LaunchEnd::Expired { .. } => Err(
            LaunchFailure {
                error: HarnessError::timeout(
                    test,
                    start.text(" exceeded 30s; result=UNKNOWN, mappings intentionally retained"),
                ),
                buffers: Buffers::Retained,
            },
        ),
        LaunchEnd::Disconnected { panicked } => Err(
            LaunchFailure {
                error: HarnessError::verification(
                    test,
                    start.text(" launch status channel disconnected (thread_panicked=").flag(
                        *panicked,
                    ).text("); result=UNKNOWN, mappings intentionally retained"),
                ),
                buffers: Buffers::Retained,
            },
        ),
        LaunchEnd::Reported { error, joined } => {
            if !*joined {
                return Err(
                    LaunchFailure {
                        error: HarnessError::verification(
                            test,
                            start.text(
                                " launch thread panicked after status delivery; result=UNKNOWN",
                            ),
                        ),
                        buffers: Buffers::Released,
                    },
                );
            }
            match error {
                Some(detail) => Err(
                    LaunchFailure {
                        error: HarnessError::verification(
                            test,
                            start.text(" launch/synchronize failed: ").text(
                                detail.as_str(),
                            ).text("; result=UNKNOWN"),
                        ),
                        buffers: Buffers::Released,
                    },
                ),
                None => Ok(()),
            }
        },
    }
}

/// What the timeout and reuse run makes of its launch.
pub open spec fn reuse_launch_report(end: LaunchEnd) -> Option<(Failure, Buffers)> {
    let test = "priority_echo_timeout_reuse"@;
    match end {
        LaunchEnd::Expired { .. } => Some(
            (
                overdue(
                    test,
                    "timeout/reclaim/reuse exceeded 30s; result=UNKNOWN, mapping retained"@,
                ),
                Buffers::Retained,
            ),
        ),
        LaunchEnd::Disconnected { panicked } => Some(
            (
                rejected(
                    test,
                    "launch status channel disconnected (thread_panicked="@ + truth(panicked)
                        + "); result=UNKNOWN, mapping intentionally retained"@,
                ),
                Buffers::Retained,
            ),
        ),
        LaunchEnd::Reported { error, joined } => if !joined {
            Some(
                (
                    rejected(
                        test,
                        "launch thread panicked after status delivery; result=UNKNOWN"@,
                    ),
                    Buffers::Released,
                ),
            )
        } else {
            match error {
                Some(detail) => Some(
                    (
                        rejected(
                            test,
                            "launch/synchronize failed: "@ + detail@ + "; result=UNKNOWN"@,
                        ),
                        Buffers::Released,
                    ),
                ),
                None => None,
            }
        },
    }
}

/// Judges the launch of the timeout and reuse run.
pub fn judge_reuse_launch(end: &LaunchEnd) -> (result: Result<(), LaunchFailure>)
    ensures
        launch_report(result) == reuse_launch_report(*end),
{
    let test: &'static str = "priority_echo_timeout_reuse";
    match end {
        LaunchEnd::Expired { .. } => Err(
            LaunchFailure {
                error: HarnessError::timeout(
                    test,
                    say("timeout/reclaim/reuse exceeded 30s; result=UNKNOWN, mapping retained"),
                ),
                buffers: Buffers::Retained,
            },
        ),
        LaunchEnd::Disconnected { panicked } => Err(
            LaunchFailure {
                error: HarnessError::verification(
                    test,
                    say("launch status channel disconnected (thread_panicked=").flag(
                        *panicked,
                    ).text("); result=UNKNOWN, mapping intentionally retained"),
                ),
                buffers: Buffers::Retained,
            },
        ),
        LaunchEnd::Reported { error, joined } => {
            if !*joined {
                return Err(
                    LaunchFailure {
                        error: HarnessError::verification(
                            test,
                            say("launch thread panicked after status delivery; result=UNKNOWN"),
                        ),
                        buffers: Buffers::Released,
                    },
                );
            }
            match error {
                Some(detail) => Err(
                    LaunchFailure {
                        error: HarnessError::verification(
                            test,
                            say("launch/synchronize failed: ").text(detail.as_str()).text(
                                "; result=UNKNOWN",
                            ),
                        ),
                        buffers: Buffers::Released,
                    },
                ),
                None => Ok(()),
            }
        },
    }
}

/// Whether the report is that the run is overdue and keeps its buffers.
pub open spec fn overdue_and_retained(report: Option<(Failure, Buffers)>) -> bool {
    match report {
        Some((failure, buffers)) => failure.kind == FailureKind::Timeout && buffers
            == Buffers::Retained,
        None => false,
    }
}

/// A kernel that has not come to an end keeps its mapped buffers, and the run is
/// reported as overdue, in every supervised run.
pub proof fn running_kernel_keeps_its_buffers(mutation: u32, phase: u64)
    ensures
        overdue_and_retained(safety_launch_report(LaunchEnd::Expired { phase })),
        overdue_and_retained(obstacle_launch_report(LaunchEnd::Expired { phase })),
        overdue_and_retained(composed_launch_report(mutation, LaunchEnd::Expired { phase })),
        overdue_and_retained(reuse_launch_report(LaunchEnd::Expired { phase })),
{
}

/// A supervised run goes on to its results exactly where the kernel ended without
/// an error and, but for the obstacle run, the launch thread could be joined.
pub proof fn launch_succeeds_only_on_a_clean_report(mutation: u32, end: LaunchEnd)
    ensures
        safety_launch_report(end) is None <==> (end matches LaunchEnd::Reported {
            error: None,
            joined: true,
        }),
        composed_launch_report(mutation, end) is None <==> safety_launch_report(end) is None,
        reuse_launch_report(end) is None <==> safety_launch_report(end) is None,
        obstacle_launch_report(end) is None <==> (end matches LaunchEnd::Reported {
            error: None,
            ..
        }),
{
}

/// Whether the report keeps the buffers.
pub open spec fn retains(report: Option<(Failure, Buffers)>) -> bool {
    report matches Some((_, buffers)) && buffers == Buffers::Retained
}

/// Whether the report says that the time is over.
pub open spec fn is_overdue(report: Option<(Failure, Buffers)>) -> bool {
    report matches Some((failure, _)) && failure.kind == FailureKind::Timeout
}

/// The buffers are kept exactly where the kernel may still be using them: the time was
/// up, or, but for the obstacle run, the launch thread went away without a report. The
/// safety run also keeps them where the thread could not be joined. Only a run whose
/// time was up is overdue.
pub proof fn buffers_are_kept_where_the_kernel_may_run(mutation: u32, end: LaunchEnd)
    ensures
        retains(safety_launch_report(end)) <==> end is Expired || end is Disconnected || (
        end matches LaunchEnd::Reported { joined, .. } && !joined),
        retains(obstacle_launch_report(end)) <==> end is Expired,
        retains(composed_launch_report(mutation, end)) <==> end is Expired || end is Disconnected,
        retains(reuse_launch_report(end)) <==> end is Expired || end is Disconnected,
        is_overdue(safety_launch_report(end)) <==> end is Expired,
        is_overdue(obstacle_launch_report(end)) <==> end is Expired,
        is_overdue(composed_launch_report(mutation, end)) <==> end is Expired,
        is_overdue(reuse_launch_report(end)) <==> end is Expired,
{
}

/// Every report bears the name of its own run.
pub proof fn reports_bear_their_names(mutation: u32, end: LaunchEnd)
    ensures
        safety_launch_report(end) matches Some((failure, _)) ==> failure.test
            == "priority_handle_safety_stress"@,
        obstacle_launch_report(end) matches Some((failure, _)) ==> failure.test
            == "obstacle_event_priority_stress"@,
        composed_launch_report(mutation, end) matches Some((failure, _)) ==> failure.test
            == "composed_priority_hostcall_e2e"@,
        reuse_launch_report(end) matches Some((failure, _)) ==> failure.test
            == "priority_echo_timeout_reuse"@,
{
}

/// A change of phase is announced, and nothing else. Once the time is up it stays up.
pub proof fn looks_see_changes_and_time(
    last_phase: u64,
    phase: u64,
    elapsed: u64,
    later: u64,
    limit: u64,
)
    requires
        elapsed <= later,
    ensures
        !looked(phase, phase, elapsed, limit).announce,
        last_phase != phase ==> looked(last_phase, phase, elapsed, limit).announce,
        looked(last_phase, phase, elapsed, limit).expired ==> looked(
            last_phase,
            phase,
            later,
            limit,
        ).expired,
        looked(last_phase, phase, limit, limit).expired,
        elapsed < limit ==> !looked(last_phase, phase, elapsed, limit).expired,
{
}

/// A kernel that has come to an end is never given up, however late. One that has not is
/// waited for up to the limit, and given up behind it.
pub proof fn watches_wait_for_the_limit(
    last_phase: u32,
    phase: u32,
    elapsed: u128,
    limit: u128,
)
    ensures
        watched(last_phase, phase, true, elapsed, limit).next == Next::Finish,
        elapsed <= limit ==> watched(last_phase, phase, false, elapsed, limit).next == Next::Wait,
        elapsed > limit ==> watched(last_phase, phase, false, elapsed, limit).next
            == Next::GiveUp,
        watched(last_phase, phase, true, elapsed, limit).announce <==> last_phase != phase,
        watched(last_phase, phase, false, elapsed, limit).announce <==> last_phase != phase,
{
}

/// What a report says was found.
pub open spec fn detail_of(report: Option<(Failure, Buffers)>) -> Seq<char> {
    match report {
        Some((failure, _)) => failure.detail,
        None => Seq::empty(),
    }
}

/// A run whose time was up says so, and says in which phase the kernel was where the
/// run keeps count of that.
pub proof fn overdue_reports_state_the_phase(mutation: u32, phase: u64)
    ensures
        ({
            let end = LaunchEnd::Expired { phase };
            &&& detail_of(safety_launch_report(end)) == "30s exceeded at phase="@ + decimal(
                phase as nat,
            ) + "; result=UNKNOWN, mapped buffers intentionally retained"@
            &&& detail_of(obstacle_launch_report(end)) == "20s 内未完成，最后 phase="@ + decimal(
                phase as nat,
            ) + "；结果判定为 UNKNOWN，mapped buffers 保留至进程退出"@
            &&& detail_of(composed_launch_report(mutation, end)) == "mutation="@ + decimal(
                mutation as nat,
            ) + " exceeded 30s; result=UNKNOWN, mappings intentionally retained"@
            &&& detail_of(reuse_launch_report(end))
                == "timeout/reclaim/reuse exceeded 30s; result=UNKNOWN, mapping retained"@
        }),
{
}

/// The error of a launch goes into the report, and with it the mutation of a composed
/// run.
pub proof fn launch_errors_are_passed_on(mutation: u32, detail: String)
    ensures
        ({
            let end = LaunchEnd::Reported { error: Some(detail), joined: true };
            &&& detail_of(safety_launch_report(end)) == "launch/synchronize failed: "@ + detail@
                + "; result=UNKNOWN"@
            &&& detail_of(obstacle_launch_report(end)) == "CUDA launch/synchronize failed: "@
                + detail@ + "; result=UNKNOWN"@
            &&& detail_of(composed_launch_report(mutation, end)) == "mutation="@ + decimal(
                mutation as nat,
            ) + " launch/synchronize failed: "@ + detail@ + "; result=UNKNOWN"@
            &&& detail_of(reuse_launch_report(end)) == "launch/synchronize failed: "@ + detail@
                + "; result=UNKNOWN"@
        }),
{
}

} // verus!
