//! How plugins run: the budgets of their calls, what becomes of them after a call, and the course
//! of their threads.
use crate::counters::Count;
use crate::plugin::engine;
use crate::plugin::engine::{
    after_call, epoch_deadline, fuel_budget, log_line, sandbox_limits, stop_steps, watchdog_ms,
    AfterCall, EngineHost, EngineKind, Execution, Handover, LogLevel, Readiness, Reply,
    SandboxLimits, StopStep,
};
use crate::plugin::engine_thread::{Command, EngineThread, ThreadAction, ThreadPhase};
use crate::plugin::manifest::PluginLimits;
use crate::plugin::registry::PluginStatus;
use crate::text;
use vstd::prelude::*;

verus! {

// ---- budgets ----

/// A call is interrupted after as many ticks of ten milliseconds as fit in its time, at least one;
/// it may spend two hundred thousand instructions for each millisecond, at least a million; and its
/// caller waits a second longer than it may take.
pub proof fn law_budgets_follow_from_the_time_of_a_call(ms: u64, ticks: u64, fuel: u64, wait: u64)
    requires
        call_ensures(epoch_deadline, (ms,), ticks),
        call_ensures(fuel_budget, (ms,), fuel),
        call_ensures(watchdog_ms, (ms,), wait),
    ensures
        ms < 10 ==> ticks == 1,
        ms >= 10 ==> 10 * ticks <= ms < 10 * ticks + 10,
        ms <= 5 ==> fuel == 1_000_000,
        5 < ms && ms * 200_000 <= u64::MAX ==> fuel == ms * 200_000,
        ms * 200_000 > u64::MAX ==> fuel == u64::MAX,
        ms + 1_000 <= u64::MAX ==> wait == ms + 1_000,
        ms + 1_000 > u64::MAX ==> wait == u64::MAX,
{
}

/// A longer call never has a smaller budget.
pub proof fn law_budgets_grow_with_time(
    a: u64,
    b: u64,
    ticks: (u64, u64),
    fuel: (u64, u64),
    wait: (u64, u64),
)
    requires
        a <= b,
        call_ensures(epoch_deadline, (a,), ticks.0) && call_ensures(epoch_deadline, (b,), ticks.1),
        call_ensures(fuel_budget, (a,), fuel.0) && call_ensures(fuel_budget, (b,), fuel.1),
        call_ensures(watchdog_ms, (a,), wait.0) && call_ensures(watchdog_ms, (b,), wait.1),
    ensures
        ticks.0 <= ticks.1,
        fuel.0 <= fuel.1,
        wait.0 <= wait.1,
{
}

/// A plugin may occupy the memory that its manifest allows, and a component more instances, tables
/// and memories than a module.
pub proof fn law_sandboxes_follow_the_limits(
    limits: PluginLimits,
    kind: EngineKind,
    r: SandboxLimits,
)
    requires
        call_ensures(sandbox_limits, (kind, &limits), r),
    ensures
        r.memory_bytes == limits.max_memory_mb * 1024 * 1024,
        kind is Component ==> r.instances == 8 && r.tables == 8 && r.memories == 4,
        !(kind is Component) ==> r.instances == 1 && r.tables == 4 && r.memories == 1,
{
}

// ---- the life of a plugin ----

/// Whether two states are the same, with the same reason of a failure.
pub open spec fn same_state(a: PluginStatus, b: PluginStatus) -> bool {
    match (a, b) {
        (PluginStatus::Failed(x), PluginStatus::Failed(y)) => x@ == y@,
        _ => a == b,
    }
}

/// A plugin is loaded at first, and takes no call.
pub proof fn law_plugins_are_loaded_at_first(
    kind: EngineKind,
    name: &str,
    ms: u64,
    host: EngineHost,
    state: PluginStatus,
    takes: Result<(), String>,
    wait: u64,
)
    requires
        call_ensures(EngineHost::new, (kind, name, ms), host),
        call_ensures(EngineHost::status, (&host,), state),
        call_ensures(EngineHost::check_call, (&host,), takes),
        call_ensures(EngineHost::watchdog, (&host,), wait),
    ensures
        state is Loaded,
        takes matches Err(e) && e@ == "plugin '"@ + name@ + "' is not started (status=loaded)"@,
        ms + 1_000 <= u64::MAX ==> wait == ms + 1_000,
{
    let e = takes->Err_0;
    reveal_strlit("' is not started (status=");
    reveal_strlit("loaded");
    reveal_strlit(")");
    reveal_strlit("' is not started (status=loaded)");
    assert("' is not started (status="@ + "loaded"@ + ")"@ =~= "' is not started (status=loaded)"@);
}

/// A plugin whose thread runs can be started, and then takes calls and is healthy; one whose thread
/// does not run cannot, and stays what it was.
pub proof fn law_started_plugins_take_calls(
    host: &mut EngineHost,
    r: Result<(), String>,
    before: EngineHost,
    was: PluginStatus,
    after: EngineHost,
    state: PluginStatus,
    takes: Result<(), String>,
    healthy: bool,
)
    requires
        call_ensures(EngineHost::start, (host,), r),
        before == *old(host),
        after == *final(host),
        call_ensures(EngineHost::status, (&before,), was),
        call_ensures(EngineHost::status, (&after,), state),
        call_ensures(EngineHost::check_call, (&after,), takes),
        call_ensures(EngineHost::health_check, (&after,), healthy),
    ensures
        r is Ok <==> before@.open,
        r is Ok ==> state is Started && takes is Ok && healthy,
        r matches Err(e) ==> same_state(state, was) && takes is Err && e@ == "plugin '"@
            + before@.name + "' is not initialised"@,
{
}

/// A plugin is healthy exactly where it is started, and takes calls exactly where it is started and
/// its thread runs.
pub proof fn law_health_is_being_started(
    host: EngineHost,
    state: PluginStatus,
    takes: Result<(), String>,
    healthy: bool,
)
    requires
        call_ensures(EngineHost::status, (&host,), state),
        call_ensures(EngineHost::check_call, (&host,), takes),
        call_ensures(EngineHost::health_check, (&host,), healthy),
    ensures
        healthy <==> state is Started,
        takes is Ok <==> state is Started && host@.open,
        takes matches Err(e) ==> (state is Started ==> e@ == "plugin '"@ + host@.name
            + "' is not running"@) && (!(state is Started) ==> exists|now: Seq<char>|
            (now == "loaded"@ || now == "stopped"@ || now == "failed"@) && e@ == "plugin '"@
                + host@.name + ("' is not started (status="@ + now + ")"@)),
{
}

/// A plugin that is stopped is stopped and takes no call; its thread is told where it runs.
pub proof fn law_stopped_plugins_take_no_call(
    host: &mut EngineHost,
    told: bool,
    before: EngineHost,
    after: EngineHost,
    state: PluginStatus,
    takes: Result<(), String>,
)
    requires
        call_ensures(EngineHost::stop, (host,), told),
        before == *old(host),
        after == *final(host),
        call_ensures(EngineHost::status, (&after,), state),
        call_ensures(EngineHost::check_call, (&after,), takes),
    ensures
        told == before@.open,
        state is Stopped,
        takes is Err,
        !after@.open && after@.name == before@.name && after@.kind == before@.kind,
{
}

/// A plugin whose thread came up goes on; one whose thread did not is failed, says why, and takes no
/// call.
pub proof fn law_plugins_that_do_not_come_up_fail(
    host: &mut EngineHost,
    ready: Readiness,
    r: Result<(), String>,
    before: EngineHost,
    was: PluginStatus,
    after: EngineHost,
    state: PluginStatus,
    takes: Result<(), String>,
)
    requires
        call_ensures(EngineHost::ready, (host, ready), r),
        before == *old(host),
        after == *final(host),
        call_ensures(EngineHost::status, (&before,), was),
        call_ensures(EngineHost::status, (&after,), state),
        call_ensures(EngineHost::check_call, (&after,), takes),
    ensures
        r is Ok <==> ready is Up,
        ready is Up ==> same_state(state, was) && after@.open == before@.open,
        !(ready is Up) ==> takes is Err && !after@.open,
        ready matches Readiness::Failed(e) ==> {
            &&& state matches PluginStatus::Failed(why) && why@ == e@
            &&& before@.kind is Js ==> r->Err_0@ == "plugin initialisation failed (see logs)"@
            &&& before@.kind is Wasm ==> r->Err_0@ == "wasm plugin initialisation failed (see logs)"@
            &&& before@.kind is Component ==> r->Err_0@ == "component plugin initialisation failed: "@ + e@
        },
        ready is Gone ==> (state matches PluginStatus::Failed(why) && {
            &&& before@.kind is Js ==> why@ == "plugin thread exited during init"@
            &&& before@.kind is Wasm ==> why@ == "wasm plugin thread exited during init"@
            &&& before@.kind is Component ==> why@ == "component plugin thread exited during init"@
        }),
        after@.name == before@.name && after@.kind == before@.kind,
{
}

/// A call that the thread took goes on; where too many wait, the caller is sent back and the plugin
/// stays what it was; where the thread is gone, the plugin is failed.
pub proof fn law_calls_are_handed_over(
    host: &mut EngineHost,
    handover: Handover,
    r: Result<(), String>,
    before: EngineHost,
    was: PluginStatus,
    after: EngineHost,
    state: PluginStatus,
)
    requires
        call_ensures(EngineHost::handed_over, (host, handover), r),
        before == *old(host),
        after == *final(host),
        call_ensures(EngineHost::status, (&before,), was),
        call_ensures(EngineHost::status, (&after,), state),
    ensures
        r is Ok <==> handover is Taken,
        !(handover is Gone) ==> same_state(state, was) && after@.open == before@.open,
        handover is Gone ==> !after@.open && (state matches PluginStatus::Failed(why) && why@
            == "plugin thread is gone"@) && r->Err_0@ == "plugin '"@ + before@.name
            + "' thread is gone"@,
        handover is Full ==> text::begins_with(
            r->Err_0@,
            "plugin '"@ + before@.name + "' invocation queue is full (16 pending)"@,
        ),
        after@.name == before@.name && after@.kind == before@.kind,
{
    if handover is Full {
        reveal_with_fuel(text::decimal, 3);
        let head = "plugin '"@ + before@.name + "' invocation queue is full (16 pending)"@;
        let got = r->Err_0@;
        reveal_strlit("' invocation queue is full (16 pending)");
        reveal_strlit("' invocation queue is full (");
        reveal_strlit(" pending) \u{2014} \n                     backpressure, retry after the in-flight calls drain");
        let depth = text::decimal(16);
        assert(16nat / 10 == 1 && 16nat % 10 == 6);
        assert(depth =~= seq!['1', '6']);
        let tail = "' invocation queue is full ("@ + depth + engine::queue_full_rest();
        let part = tail.subrange(0, "' invocation queue is full (16 pending)"@.len() as int);
        assert(part =~= "' invocation queue is full (16 pending)"@);
        assert(got.subrange(0, head.len() as int) =~= head) by {
            assert(got == "plugin '"@ + before@.name + tail);
        }
    }
}

/// A call is answered with what the plugin answered. A plugin that answered with a failure goes on
/// as before; one that was interrupted, that went away or that took too long is failed.
pub proof fn law_calls_are_answered_as_the_plugin_answered(
    host: &mut EngineHost,
    reply: Reply,
    interrupted: bool,
    r: Result<Vec<u8>, String>,
    before: EngineHost,
    was: PluginStatus,
    after: EngineHost,
    state: PluginStatus,
    takes: Result<(), String>,
)
    requires
        call_ensures(EngineHost::called, (host, reply, interrupted), r),
        before == *old(host),
        after == *final(host),
        call_ensures(EngineHost::status, (&before,), was),
        call_ensures(EngineHost::status, (&after,), state),
        call_ensures(EngineHost::check_call, (&after,), takes),
    ensures
        reply matches Reply::Answered(Ok(b)) ==> (r matches Ok(x) && x@ == b@) && same_state(state, was)
            && after@.open == before@.open,
        reply matches Reply::Answered(Err(e)) ==> r matches Err(x) && x@ == e@,
        reply is Answered && !interrupted ==> same_state(state, was) && after@.open == before@.open,
        reply matches Reply::Answered(Err(_)) && interrupted ==> state is Failed && takes is Err
            && !after@.open,
        !(reply is Answered) ==> r is Err && state is Failed && takes is Err && !after@.open,
        reply is Dropped ==> r->Err_0@ == "plugin '"@ + before@.name + "' thread is gone"@,
        reply is TimedOut && before@.max_exec_ms + 1_000 <= u64::MAX ==> r->Err_0@ == "plugin '"@
            + before@.name + ("' invoke exceeded the watchdog ("@ + engine::duration_text(
            (before@.max_exec_ms + 1_000) as u64,
        ) + ")"@),
        interrupted && r is Err && before@.kind is Js ==> (state matches PluginStatus::Failed(why)
            && why@ == "execution interrupted after "@ + text::decimal(before@.max_exec_ms as nat)
            + "ms (max_exec_ms); isolate discarded"@),
        reply matches Reply::Answered(Err(e)) && interrupted && !(before@.kind is Js) ==> (
        state matches PluginStatus::Failed(why) && why@ == "wasm trap discarded the instance: "@
            + r->Err_0@),
        after@.name == before@.name && after@.kind == before@.kind,
{
}

/// Every call is counted once, with its plugin, its engine and whether it succeeded; the failed call
/// of a script that was interrupted is counted as an interruption too.
pub proof fn law_calls_are_counted(host: EngineHost, ok: bool, interrupted: bool, r: Vec<Count>)
    requires
        call_ensures(EngineHost::counts, (&host, ok, interrupted), r),
    ensures
        r@.len() == if host@.kind is Js && !ok && interrupted {
            2int
        } else {
            1int
        },
        r@[0] matches Count::Invocation { plugin, engine, ok: counted } && plugin@ == host@.name
            && counted == ok && (host@.kind is Js ==> engine@ == "js"@) && (!(host@.kind is Js)
            ==> engine@ == "wasm"@),
        r@.len() == 2 ==> (r@[1] matches Count::Trap { plugin, reason } && plugin@ == host@.name
            && reason@ == "timeout"@),
{
    let seen = crate::counters::count_views(r@);
    assert(seen.len() == r@.len());
    assert(seen[0] == r@[0]@);
    if r@.len() == 2 {
        assert(seen[1] == r@[1]@);
    }
}

/// A script's handles are released and its identity forgotten before its thread is told; a module's
/// identity is forgotten last; what a component left open is released after its thread ended.
pub proof fn law_plugins_are_stopped_in_order(kind: EngineKind, r: Vec<StopStep>)
    requires
        call_ensures(stop_steps, (kind,), r),
    ensures
        r@.len() == 4,
        kind is Js ==> r@[0] is Release && r@[1] is Forget && r@[2] is Tell && r@[3] is Join,
        kind is Wasm ==> r@[0] is Release && r@[1] is Tell && r@[2] is Join && r@[3] is Forget,
        kind is Component ==> r@[0] is Tell && r@[1] is Join && r@[2] is Release && r@[3] is Forget,
{
}

/// After a call the instance is discarded exactly where the execution broke off; the caller gets what
/// the plugin answered, or why it did not.
pub proof fn law_broken_instances_are_discarded(
    name: &str,
    execution: Execution,
    r: AfterCall,
    count: Option<Count>,
)
    requires
        call_ensures(after_call, (name, execution), r),
        call_ensures(AfterCall::count, (&r, name), count),
    ensures
        r.discard <==> execution is Broken,
        execution matches Execution::Answered(b) ==> r.reply matches Ok(x) && x@ == b@,
        !(execution is Answered) ==> r.reply is Err,
        execution matches Execution::Refused(m) ==> r.reply->Err_0@ == "plugin '"@ + name@
            + ("' returned error: "@ + m@),
        execution matches Execution::Code(code) ==> exists|called: Seq<char>|
            r.reply->Err_0@ == "plugin '"@ + name@ + ("' returned "@ + called + " (abi code "@
                + text::decimal_int(code as int) + ")"@),
        execution matches Execution::Broken { message, trap } ==> r.reply->Err_0@ == message@ && r.trap
            == trap,
        count is Some <==> (execution matches Execution::Broken { trap, .. } && trap is Some),
        count matches Some(c) ==> (c matches Count::Trap { plugin, reason } && plugin@ == name@ && {
            let class = execution->Broken_trap->0;
            &&& class is Fuel ==> reason@ == "fuel"@
            &&& class is Epoch ==> reason@ == "epoch"@
            &&& class is Memory ==> reason@ == "memory"@
            &&& class is Other ==> reason@ == "other"@
        }),
{
}

/// A line of a plugin's log carries the plugin's name and the plugin's words, at the level that it
/// names.
pub proof fn law_plugins_log_under_their_name(
    plugin: &str,
    level: &str,
    message: &str,
    r: (LogLevel, String),
)
    requires
        call_ensures(log_line, (plugin, level, message), r),
    ensures
        r.1@ == "["@ + plugin@ + "] "@ + message@,
        r.0 is Error <==> level@ == "error"@,
        r.0 is Warn <==> level@ == "warn"@ || level@ == "warning"@,
        r.0 is Debug <==> level@ == "debug"@,
        r.0 is Trace <==> level@ == "trace"@,
{
    reveal_strlit("error");
    reveal_strlit("warn");
    reveal_strlit("warning");
    reveal_strlit("debug");
    reveal_strlit("trace");
    assert("error"@.len() == 5 && "warn"@.len() == 4 && "warning"@.len() == 7 && "debug"@.len() == 5
        && "trace"@.len() == 5);
    assert("error"@[0] != "debug"@[0] && "error"@[0] != "trace"@[0] && "debug"@[0] != "trace"@[0]);
}

// ---- threads ----

/// A thread builds its runtime first, but that of a module needs none; then it brings the plugin up,
/// and reports the outcome of both.
pub proof fn law_threads_bring_their_plugin_up(
    kind: EngineKind,
    t: EngineThread,
    outcome: Result<(), String>,
    built: EngineThread,
    created: EngineThread,
    fresh: EngineThread,
)
    requires
        call_ensures(EngineThread::new, (kind,), fresh),
        call_ensures(EngineThread::built, (t, outcome), built),
        call_ensures(EngineThread::created, (t, outcome), created),
    ensures
        kind is Wasm ==> fresh@.phase is Creating,
        !(kind is Wasm) ==> fresh@.phase is Building,
        !fresh@.trapped && !fresh@.released && fresh@.kind == kind,
        t@.phase is Building ==> {
            &&& outcome is Ok ==> built@.phase is Creating
            &&& outcome matches Err(e) ==> (built@.phase matches ThreadPhase::Reporting(report) && (
            report matches Readiness::Failed(why) && {
                &&& t@.kind is Js ==> why@ == "tokio runtime: "@ + e@
                &&& !(t@.kind is Js) ==> why@ == "failed to build plugin runtime: "@ + e@
            }))
        },
        t@.phase is Creating ==> {
            &&& outcome is Ok ==> created@.phase == ThreadPhase::Reporting(Readiness::Up)
            &&& outcome matches Err(e) ==> (created@.phase matches ThreadPhase::Reporting(report) && (
            report matches Readiness::Failed(why) && why@ == e@))
        },
        built@.kind == t@.kind && created@.kind == t@.kind,
{
}

/// A thread whose plugin is up waits for commands where somebody heard of it; any other one ends.
pub proof fn law_threads_wait_once_their_plugin_is_up(t: EngineThread, heard: bool, r: EngineThread)
    requires
        t@.phase is Reporting,
        call_ensures(EngineThread::reported, (t, heard), r),
    ensures
        r@.phase is Waiting <==> heard && t@.phase == ThreadPhase::Reporting(Readiness::Up),
        !(r@.phase is Waiting) ==> r@.phase is Ended,
        r@.trapped == t@.trapped && r@.released == t@.released && r@.kind == t@.kind,
{
}

/// A waiting thread carries every call out, runs the stop hook when it is stopped, and ends when
/// nobody commands it any more, a script's after a release.
pub proof fn law_threads_do_as_commanded(t: EngineThread, command: Command, r: EngineThread)
    requires
        t@.phase is Waiting,
        call_ensures(EngineThread::commanded, (t, command), r),
    ensures
        command is Invoke ==> r@.phase is Executing,
        command is Stop ==> r@.phase is Stopping,
        command is Closed && t@.kind is Js ==> r@.phase == (ThreadPhase::Releasing {
            acknowledge: false,
        }),
        command is Closed && !(t@.kind is Js) ==> r@.phase is Ended,
        r@.trapped == t@.trapped && r@.released == t@.released && r@.kind == t@.kind,
{
}

/// A thread replies with what the call came to and waits for the next one; a thread whose instance is
/// discarded notes so before the reply, and serves no more.
pub proof fn law_threads_reply_and_go_on(
    t: EngineThread,
    after: AfterCall,
    replying: EngineThread,
    next: EngineThread,
)
    requires
        t@.phase is Executing,
        call_ensures(EngineThread::executed, (t, after), replying),
        call_ensures(EngineThread::replied, (replying,), next),
    ensures
        replying@.phase == (ThreadPhase::Replying { reply: after.reply, discard: after.discard }),
        replying@.trapped == (t@.trapped || after.discard),
        !after.discard ==> next@.phase is Waiting,
        after.discard && t@.kind is Wasm ==> next@.phase is Ended,
        after.discard && !(t@.kind is Wasm) ==> next@.phase == (ThreadPhase::Releasing {
            acknowledge: false,
        }),
        next@.trapped == replying@.trapped && next@.kind == t@.kind,
{
}

/// A component releases what it left open before it acknowledges a stop, a script after that, and a
/// module holds nothing; then each ends.
pub proof fn law_threads_stop_in_order(
    t: EngineThread,
    stopped: EngineThread,
    released: EngineThread,
    acknowledged: EngineThread,
)
    requires
        call_ensures(EngineThread::stopped, (t,), stopped),
        call_ensures(EngineThread::released, (t,), released),
        call_ensures(EngineThread::acknowledged, (t,), acknowledged),
    ensures
        t@.phase is Stopping && t@.kind is Component ==> stopped@.phase == (ThreadPhase::Releasing {
            acknowledge: true,
        }),
        t@.phase is Stopping && !(t@.kind is Component) ==> stopped@.phase is Acknowledging,
        t@.phase is Releasing ==> released@.released,
        t@.phase == (ThreadPhase::Releasing { acknowledge: true }) ==> released@.phase is Acknowledging,
        t@.phase == (ThreadPhase::Releasing { acknowledge: false }) ==> released@.phase is Ended,
        t@.phase is Acknowledging && t@.kind is Js ==> acknowledged@.phase == (
        ThreadPhase::Releasing { acknowledge: false }),
        t@.phase is Acknowledging && !(t@.kind is Js) ==> acknowledged@.phase is Ended,
        stopped@.kind == t@.kind && released@.kind == t@.kind && acknowledged@.kind == t@.kind,
{
}

/// A thread is asked for nothing but what its phase is for, and hands out the reports and replies
/// that it was given.
pub proof fn law_threads_act_by_their_phase(
    t: &mut EngineThread,
    before: EngineThread,
    r: ThreadAction,
)
    requires
        call_ensures(EngineThread::action, (t,), r),
        before == *old(t),
    ensures
        r is BuildRuntime <==> before@.phase is Building,
        r is CreateInstance <==> before@.phase is Creating,
        r is Await <==> before@.phase is Waiting,
        r is Execute <==> before@.phase is Executing,
        r is RunStop <==> before@.phase is Stopping,
        r is Release <==> before@.phase is Releasing,
        r is Acknowledge <==> before@.phase is Acknowledging,
        r is End <==> before@.phase is Ended,
        before@.phase matches ThreadPhase::Reporting(report) ==> r == ThreadAction::Report(report),
        before@.phase matches ThreadPhase::Replying { reply, .. } ==> r == ThreadAction::Reply(reply),
{
}

} // verus!
