//! What the engines share: the life of a loaded plugin, the budgets of a call, and what becomes
//! of a plugin when a call goes wrong.
use crate::counters;
use crate::counters::{Count, CountView};
use crate::plugin::manifest::PluginLimits;
use crate::plugin::registry;
use crate::plugin::registry::PluginStatus;
use crate::text;
use crate::text::{decimal_text, join3, join5, same_text};
use vstd::prelude::*;

verus! {

/// An engine.
#[derive(Debug, Clone, Copy, PartialEq, Eq, Structural)]
pub enum EngineKind {
    /// Scripts.
    Js,
    /// WebAssembly modules.
    Wasm,
    /// WebAssembly components.
    Component,
}

// ---- budgets ----

/// Interval of the epoch clock, in milliseconds.
pub const EPOCH_TICK_MS: u64 = 10;

/// Instructions that a millisecond of a call stands for.
pub const FUEL_PER_MS: u64 = 200_000;

/// Fewest instructions of a call.
pub const MIN_FUEL: u64 = 1_000_000;

/// How much longer than its plugin a caller waits, in milliseconds.
pub const WATCHDOG_MARGIN_MS: u64 = 1_000;

/// Most calls that wait for a module.
pub const MAX_PLUGIN_QUEUE_DEPTH: usize = 16;

/// Ticks of the epoch clock after which a call is interrupted, at least one.
pub open spec fn deadline_ticks(max_exec_ms: u64) -> int {
    if max_exec_ms / EPOCH_TICK_MS == 0 {
        1
    } else {
        max_exec_ms as int / EPOCH_TICK_MS as int
    }
}

/// Instructions after which a call is interrupted.
pub open spec fn fuel_of(max_exec_ms: u64) -> int {
    if max_exec_ms * FUEL_PER_MS > u64::MAX {
        u64::MAX as int
    } else if max_exec_ms * FUEL_PER_MS < MIN_FUEL {
        MIN_FUEL as int
    } else {
        max_exec_ms * FUEL_PER_MS
    }
}

/// Ticks of the epoch clock after which a call is interrupted.
pub fn epoch_deadline(max_exec_ms: u64) -> (r: u64)
    ensures
        r == deadline_ticks(max_exec_ms),
{
    let ticks: u64 = max_exec_ms / EPOCH_TICK_MS;
    if ticks == 0 {
        1
    } else {
        ticks
    }
}

/// Instructions after which a call is interrupted.
pub fn fuel_budget(max_exec_ms: u64) -> (r: u64)
    ensures
        r == fuel_of(max_exec_ms),
{
    if max_exec_ms > u64::MAX / FUEL_PER_MS {
        return u64::MAX;
    }
    let fuel: u64 = max_exec_ms * FUEL_PER_MS;
    if fuel < MIN_FUEL {
        MIN_FUEL
    } else {
        fuel
    }
}

/// How long a caller waits for an answer, in milliseconds.
pub open spec fn watchdog_of(max_exec_ms: u64) -> u64 {
    if max_exec_ms + WATCHDOG_MARGIN_MS > u64::MAX {
        u64::MAX
    } else {
        (max_exec_ms + WATCHDOG_MARGIN_MS) as u64
    }
}

/// How long a caller waits for an answer, in milliseconds.
pub fn watchdog_ms(max_exec_ms: u64) -> (r: u64)
    ensures
        r == watchdog_of(max_exec_ms),
{
    if max_exec_ms > u64::MAX - WATCHDOG_MARGIN_MS {
        u64::MAX
    } else {
        max_exec_ms + WATCHDOG_MARGIN_MS
    }
}

/// What a plugin may occupy.
#[derive(Debug, Clone, Copy, PartialEq, Eq, Structural)]
pub struct SandboxLimits {
    pub memory_bytes: u64,
    pub instances: usize,
    pub tables: usize,
    pub memories: usize,
}

/// What a plugin of an engine may occupy. A component is made of several instances.
pub fn sandbox_limits(kind: EngineKind, limits: &PluginLimits) -> (r: SandboxLimits)
    ensures
        r.memory_bytes == limits.max_memory_mb * 1_048_576,
        (r.instances, r.tables, r.memories) == match kind {
            EngineKind::Component => (8usize, 8usize, 4usize),
            _ => (1usize, 4usize, 1usize),
        },
{
    let memory_bytes: u64 = limits.max_memory_mb as u64 * 1_048_576;
    match kind {
        EngineKind::Component => SandboxLimits { memory_bytes, instances: 8, tables: 8, memories: 4 },
        _ => SandboxLimits { memory_bytes, instances: 1, tables: 4, memories: 1 },
    }
}

/// A caller never gives up before its plugin is interrupted: the watchdog is longer than the
/// time that the epoch clock allows.
pub proof fn law_plugins_are_interrupted_before_callers_give_up(max_exec_ms: u64)
    ensures
        deadline_ticks(max_exec_ms) * EPOCH_TICK_MS <= watchdog_of(max_exec_ms),
        deadline_ticks(max_exec_ms) >= 1,
        fuel_of(max_exec_ms) >= MIN_FUEL,
{
    assert(EPOCH_TICK_MS == 10 && WATCHDOG_MARGIN_MS == 1_000);
}

// ---- the life of a plugin ----

/// `Debug` text of a `std::time::Duration` of so many milliseconds.
pub uninterp spec fn duration_text(ms: u64) -> Seq<char>;

/// `<std::time::Duration as Debug>::fmt`: the text is a function of the duration alone. Its form
/// is left to the name of the result.
#[verifier::external_body]
fn duration_debug(ms: u64) -> (r: String)
    ensures
        r@ == duration_text(ms),
{
    format!("{:?}", std::time::Duration::from_millis(ms))
}

/// How the start of a plugin's thread went.
#[derive(Debug, PartialEq, Eq)]
pub enum Readiness {
    Up,
    /// The plugin did not come up, for this reason.
    Failed(String),
    /// The thread went away without a word.
    Gone,
}

/// Whether a call reached the plugin's thread.
#[derive(Debug, Clone, Copy, PartialEq, Eq, Structural)]
pub enum Handover {
    Taken,
    /// Too many calls wait.
    Full,
    /// The thread is gone.
    Gone,
}

/// What a caller got back.
#[derive(Debug, PartialEq, Eq)]
pub enum Reply {
    Answered(Result<Vec<u8>, String>),
    /// The thread went away without an answer.
    Dropped,
    /// The watchdog ran out.
    TimedOut,
}

/// A loaded plugin: its state, and whether its thread takes calls.
#[derive(Debug)]
pub struct EngineHost {
    kind: EngineKind,
    name: String,
    max_exec_ms: u64,
    status: PluginStatus,
    open: bool,
}

/// Contents of [`EngineHost`].
pub struct HostView {
    pub kind: EngineKind,
    pub name: Seq<char>,
    pub max_exec_ms: u64,
    pub state: HostStateView,
    /// Whether the thread takes calls.
    pub open: bool,
}

/// State of a plugin, with the reason of a failure.
pub enum HostStateView {
    Loaded,
    Started,
    Stopped,
    Failed(Seq<char>),
}

/// Contents of a state.
pub open spec fn state_view(status: PluginStatus) -> HostStateView {
    match status {
        PluginStatus::Loaded => HostStateView::Loaded,
        PluginStatus::Started => HostStateView::Started,
        PluginStatus::Stopped => HostStateView::Stopped,
        PluginStatus::Failed(reason) => HostStateView::Failed(reason@),
    }
}

/// Name of a state.
pub open spec fn state_text(state: HostStateView) -> Seq<char> {
    match state {
        HostStateView::Loaded => "loaded"@,
        HostStateView::Started => "started"@,
        HostStateView::Stopped => "stopped"@,
        HostStateView::Failed(_) => "failed"@,
    }
}

/// A plugin that failed takes no more calls.
pub open spec fn host_failed(host: HostView, reason: Seq<char>) -> HostView {
    HostView { state: HostStateView::Failed(reason), open: false, ..host }
}

/// Something about a plugin.
pub open spec fn about(name: Seq<char>, rest: Seq<char>) -> Seq<char> {
    "plugin '"@ + name + rest
}

/// What a start of the thread leads to.
pub open spec fn host_ready(host: HostView, ready: Readiness) -> (HostView, Option<Seq<char>>) {
    match (ready, host.kind) {
        (Readiness::Up, _) => (host, None),
        (Readiness::Failed(e), EngineKind::Js) => (
            host_failed(host, e@),
            Some("plugin initialisation failed (see logs)"@),
        ),
        (Readiness::Failed(e), EngineKind::Wasm) => (
            host_failed(host, e@),
            Some("wasm plugin initialisation failed (see logs)"@),
        ),
        (Readiness::Failed(e), EngineKind::Component) => (
            host_failed(host, e@),
            Some("component plugin initialisation failed: "@ + e@),
        ),
        (Readiness::Gone, EngineKind::Js) => (
            host_failed(host, "plugin thread exited during init"@),
            Some("plugin thread exited during init"@),
        ),
        (Readiness::Gone, EngineKind::Wasm) => (
            host_failed(host, "wasm plugin thread exited during init"@),
            Some("wasm plugin initialisation failed"@),
        ),
        (Readiness::Gone, EngineKind::Component) => (
            host_failed(host, "component plugin thread exited during init"@),
            Some(
                "component plugin initialisation failed: "@
                    + "component plugin thread exited during init"@,
            ),
        ),
    }
}

/// What a handover leads to.
pub open spec fn host_handed_over(host: HostView, handover: Handover) -> (HostView, Option<Seq<char>>) {
    match handover {
        Handover::Taken => (host, None),
        Handover::Full => (
            host,
            Some(
                about(
                    host.name,
                    "' invocation queue is full ("@ + text::decimal(MAX_PLUGIN_QUEUE_DEPTH as nat)
                        + queue_full_rest(),
                ),
            ),
        ),
        Handover::Gone => (
            host_failed(host, "plugin thread is gone"@),
            Some(about(host.name, "' thread is gone"@)),
        ),
    }
}

/// End of the message of a full queue.
pub open spec fn queue_full_rest() -> Seq<char> {
    " pending) \u{2014} \n                     backpressure, retry after the in-flight calls drain"@
}

/// What a call comes to before the engine's own interruption is looked at, and whether it ends
/// there.
pub open spec fn host_replied(host: HostView, reply: Reply) -> (HostView, Option<Seq<char>>) {
    match reply {
        Reply::Answered(Ok(_)) => (host, None),
        Reply::Answered(Err(e)) => (host, Some(e@)),
        Reply::Dropped => (
            host_failed(host, "plugin thread dropped the response channel"@),
            Some(about(host.name, "' thread is gone"@)),
        ),
        Reply::TimedOut => {
            let wait = duration_text(watchdog_of(host.max_exec_ms));
            (
                host_failed(host, "invoke watchdog timed out after "@ + wait),
                Some(about(host.name, "' invoke exceeded the watchdog ("@ + wait + ")"@)),
            )
        },
    }
}

/// Why an interrupted plugin is given up.
pub open spec fn interruption(host: HostView, error: Seq<char>) -> Seq<char> {
    match host.kind {
        EngineKind::Js => "execution interrupted after "@ + text::decimal(host.max_exec_ms as nat)
            + "ms (max_exec_ms); isolate discarded"@,
        _ => "wasm trap discarded the instance: "@ + error,
    }
}

/// Whether an interruption counts: a script's always does, a module's only with an answer.
pub open spec fn interruption_counts(kind: EngineKind, reply: Reply) -> bool {
    kind is Js || reply is Answered
}

/// What a call comes to: the plugin after it, and the failure where it failed. A plugin whose
/// execution was interrupted is given up.
pub open spec fn host_called(host: HostView, reply: Reply, interrupted: bool) -> (
    HostView,
    Option<Seq<char>>,
) {
    let (after, error) = host_replied(host, reply);
    match error {
        None => (after, None),
        Some(e) => if interrupted && interruption_counts(host.kind, reply) {
            (host_failed(after, interruption(host, e)), Some(e))
        } else {
            (after, Some(e))
        },
    }
}

impl View for EngineHost {
    type V = HostView;

    closed spec fn view(&self) -> HostView {
        HostView {
            kind: self.kind,
            name: self.name@,
            max_exec_ms: self.max_exec_ms,
            state: state_view(self.status),
            open: self.open,
        }
    }
}

/// Name of an engine among the counts.
pub open spec fn engine_label(kind: EngineKind) -> Seq<char> {
    match kind {
        EngineKind::Js => "js"@,
        _ => "wasm"@,
    }
}

/// What a call counts for: each for one call, whether it reached the plugin or not, and a script's
/// failed call for an interruption too where its execution was interrupted.
pub open spec fn call_counts(host: HostView, ok: bool, interrupted: bool) -> Seq<CountView> {
    let call = CountView::Invocation { plugin: host.name, engine: engine_label(host.kind), ok };
    if host.kind is Js && !ok && interrupted {
        seq![call, CountView::Trap { plugin: host.name, reason: "timeout"@ }]
    } else {
        seq![call]
    }
}

/// Failure of an outcome.
pub open spec fn unit_error(r: Result<(), String>) -> Option<Seq<char>> {
    match r {
        Ok(_) => None,
        Err(e) => Some(e@),
    }
}

impl EngineHost {
    /// A plugin that is loaded and whose thread does not run.
    pub fn new(kind: EngineKind, name: &str, max_exec_ms: u64) -> (r: Self)
        ensures
            r@ == (HostView {
                kind,
                name: name@,
                max_exec_ms,
                state: HostStateView::Loaded,
                open: false,
            }),
    {
        EngineHost {
            kind,
            name: name.to_owned(),
            max_exec_ms,
            status: PluginStatus::Loaded,
            open: false,
        }
    }

    /// State of the plugin.
    pub fn status(&self) -> (r: PluginStatus)
        ensures
            state_view(r) == self@.state,
    {
        self.status.clone()
    }

    /// Whether the plugin is healthy: it is started.
    pub fn health_check(&self) -> (r: bool)
        ensures
            r == (self@.state is Started),
    {
        self.status.is_started()
    }

    /// How long a caller waits for an answer, in milliseconds.
    pub fn watchdog(&self) -> (r: u64)
        ensures
            r == watchdog_of(self@.max_exec_ms),
    {
        watchdog_ms(self.max_exec_ms)
    }

    /// The plugin failed.
    pub fn fail(&mut self, reason: &str)
        ensures
            final(self)@ == host_failed(old(self)@, reason@),
    {
        self.status = PluginStatus::Failed(reason.to_owned());
        self.open = false;
    }

    /// The plugin's thread runs and takes calls.
    pub fn spawned(&mut self)
        ensures
            final(self)@ == (HostView { open: true, ..old(self)@ }),
    {
        self.open = true;
    }

    /// What the start of the thread leads to.
    pub fn ready(&mut self, ready: Readiness) -> (r: Result<(), String>)
        ensures
            (final(self)@, unit_error(r)) == host_ready(old(self)@, ready),
    {
        match ready {
            Readiness::Up => Ok(()),
            Readiness::Failed(e) => {
                self.fail(e.as_str());
                match self.kind {
                    EngineKind::Js => Err("plugin initialisation failed (see logs)".to_owned()),
                    EngineKind::Wasm => Err("wasm plugin initialisation failed (see logs)".to_owned()),
                    EngineKind::Component => {
                        let mut text = "component plugin initialisation failed: ".to_owned();
                        text.append(e.as_str());
                        Err(text)
                    },
                }
            },
            Readiness::Gone => match self.kind {
                EngineKind::Js => {
                    self.fail("plugin thread exited during init");
                    Err("plugin thread exited during init".to_owned())
                },
                EngineKind::Wasm => {
                    self.fail("wasm plugin thread exited during init");
                    Err("wasm plugin initialisation failed".to_owned())
                },
                EngineKind::Component => {
                    self.fail("component plugin thread exited during init");
                    let mut text = "component plugin initialisation failed: ".to_owned();
                    text.append("component plugin thread exited during init");
                    Err(text)
                },
            },
        }
    }

    /// Starts the plugin; its thread must run.
    pub fn start(&mut self) -> (r: Result<(), String>)
        ensures
            match r {
                Ok(_) => old(self)@.open && final(self)@ == (HostView {
                    state: HostStateView::Started,
                    ..old(self)@
                }),
                Err(e) => !old(self)@.open && final(self)@ == old(self)@ && e@ == about(
                    old(self)@.name,
                    "' is not initialised"@,
                ),
            },
    {
        if !self.open {
            return Err(join3("plugin '", self.name.as_str(), "' is not initialised"));
        }
        self.status = PluginStatus::Started;
        Ok(())
    }

    /// Stops the plugin, and says whether its thread has to be told.
    pub fn stop(&mut self) -> (r: bool)
        ensures
            r == old(self)@.open,
            final(self)@ == (HostView {
                state: HostStateView::Stopped,
                open: false,
                ..old(self)@
            }),
    {
        let told = self.open;
        self.status = PluginStatus::Stopped;
        self.open = false;
        told
    }

    /// Whether the plugin takes a call.
    pub fn check_call(&self) -> (r: Result<(), String>)
        ensures
            match r {
                Ok(_) => self@.state is Started && self@.open,
                Err(e) => if self@.state !is Started {
                    e@ == about(
                        self@.name,
                        "' is not started (status="@ + state_text(self@.state) + ")"@,
                    )
                } else {
                    !self@.open && e@ == about(self@.name, "' is not running"@)
                },
            },
    {
        if !self.status.is_started() {
            let text = join5(
                "plugin '",
                self.name.as_str(),
                "' is not started (status=",
                self.status.as_str(),
                ")",
            );
            assert(registry::status_text(self.status) == state_text(self@.state));
            assert(text@ =~= about(
                self@.name,
                "' is not started (status="@ + state_text(self@.state) + ")"@,
            ));
            return Err(text);
        }
        if !self.open {
            return Err(join3("plugin '", self.name.as_str(), "' is not running"));
        }
        Ok(())
    }

    /// What a handover of a call leads to.
    pub fn handed_over(&mut self, handover: Handover) -> (r: Result<(), String>)
        ensures
            (final(self)@, unit_error(r)) == host_handed_over(old(self)@, handover),
    {
        match handover {
            Handover::Taken => Ok(()),
            Handover::Full => {
                let depth = decimal_text(MAX_PLUGIN_QUEUE_DEPTH as u64);
                let text = join5(
                    "plugin '",
                    self.name.as_str(),
                    "' invocation queue is full (",
                    depth.as_str(),
                    " pending) \u{2014} \n                     backpressure, retry after the in-flight calls drain",
                );
                assert(text@ =~= about(
                    self@.name,
                    "' invocation queue is full ("@ + text::decimal(MAX_PLUGIN_QUEUE_DEPTH as nat)
                        + queue_full_rest(),
                ));
                Err(text)
            },
            Handover::Gone => {
                self.fail("plugin thread is gone");
                Err(join3("plugin '", self.name.as_str(), "' thread is gone"))
            },
        }
    }

    /// What a call counts for; `interrupted` says whether the engine interrupted the execution.
    pub fn counts(&self, ok: bool, interrupted: bool) -> (r: Vec<Count>)
        ensures
            counters::count_views(r@) == call_counts(self@, ok, interrupted),
    {
        let engine: &'static str = match self.kind {
            EngineKind::Js => "js",
            _ => "wasm",
        };
        let mut out: Vec<Count> = Vec::new();
        out.push(Count::Invocation { plugin: self.name.clone(), engine, ok });
        if let EngineKind::Js = self.kind {
            if !ok && interrupted {
                out.push(Count::Trap { plugin: self.name.clone(), reason: "timeout" });
            }
        }
        assert(counters::count_views(out@) =~= call_counts(self@, ok, interrupted));
        out
    }

    /// What a call comes to; `interrupted` says whether the engine interrupted the execution.
    pub fn called(&mut self, reply: Reply, interrupted: bool) -> (r: Result<Vec<u8>, String>)
        ensures
            ({
                let (after, error) = host_called(old(self)@, reply, interrupted);
                &&& final(self)@ == after
                &&& match (reply, r) {
                    (Reply::Answered(Ok(bytes)), Ok(answer)) => answer == bytes && error is None,
                    (_, Err(e)) => error == Some(e@),
                    _ => false,
                }
            }),
    {
        let counts = match (self.kind, &reply) {
            (EngineKind::Js, _) => true,
            (_, Reply::Answered(_)) => true,
            _ => false,
        };
        let ghost start = self@;
        let error = match reply {
            Reply::Answered(Ok(bytes)) => {
                return Ok(bytes);
            },
            Reply::Answered(Err(e)) => e,
            Reply::Dropped => {
                self.fail("plugin thread dropped the response channel");
                join3("plugin '", self.name.as_str(), "' thread is gone")
            },
            Reply::TimedOut => {
                let wait = duration_debug(watchdog_ms(self.max_exec_ms));
                let mut reason = "invoke watchdog timed out after ".to_owned();
                reason.append(wait.as_str());
                self.fail(reason.as_str());
                let text = join5(
                    "plugin '",
                    self.name.as_str(),
                    "' invoke exceeded the watchdog (",
                    wait.as_str(),
                    ")",
                );
                assert(text@ =~= about(
                    start.name,
                    "' invoke exceeded the watchdog ("@ + duration_text(
                        watchdog_of(start.max_exec_ms),
                    ) + ")"@,
                ));
                text
            },
        };
        if interrupted && counts {
            let reason = match self.kind {
                EngineKind::Js => {
                    let ms = decimal_text(self.max_exec_ms);
                    join3(
                        "execution interrupted after ",
                        ms.as_str(),
                        "ms (max_exec_ms); isolate discarded",
                    )
                },
                _ => {
                    let mut text = "wasm trap discarded the instance: ".to_owned();
                    text.append(error.as_str());
                    text
                },
            };
            self.fail(reason.as_str());
        }
        Err(error)
    }
}

// ---- the end of a plugin ----

/// How long a stopping plugin's thread is waited for, in milliseconds.
pub const STOP_WAIT_MS: u64 = 5_000;

/// A part of stopping a plugin.
#[derive(Debug, Clone, Copy, PartialEq, Eq, Structural)]
pub enum StopStep {
    /// Release what the plugin left open.
    Release,
    /// Forget the plugin's identity.
    Forget,
    /// Tell the thread, where it takes calls, and wait for its word no longer than
    /// [`STOP_WAIT_MS`].
    Tell,
    /// Wait for the end of the thread.
    Join,
}

/// The parts of stopping a plugin, in their order. A component releases its own handles before its
/// thread ends, so what is left is released after that.
pub open spec fn stop_order(kind: EngineKind) -> Seq<StopStep> {
    match kind {
        EngineKind::Js => seq![StopStep::Release, StopStep::Forget, StopStep::Tell, StopStep::Join],
        EngineKind::Wasm => seq![
            StopStep::Release,
            StopStep::Tell,
            StopStep::Join,
            StopStep::Forget,
        ],
        EngineKind::Component => seq![
            StopStep::Tell,
            StopStep::Join,
            StopStep::Release,
            StopStep::Forget,
        ],
    }
}

/// The parts of stopping a plugin, in their order.
pub fn stop_steps(kind: EngineKind) -> (r: Vec<StopStep>)
    ensures
        r@ == stop_order(kind),
{
    let steps = match kind {
        EngineKind::Js => vec![StopStep::Release, StopStep::Forget, StopStep::Tell, StopStep::Join],
        EngineKind::Wasm => vec![StopStep::Release, StopStep::Tell, StopStep::Join, StopStep::Forget],
        EngineKind::Component => vec![
            StopStep::Tell,
            StopStep::Join,
            StopStep::Release,
            StopStep::Forget,
        ],
    };
    assert(steps@ =~= stop_order(kind));
    steps
}

/// However a plugin is stopped, its thread is told before it is waited for, what it left open is
/// released and its identity is forgotten, each once.
pub proof fn law_stopping_leaves_nothing(kind: EngineKind)
    ensures
        stop_order(kind).no_duplicates(),
        forall|step: StopStep| #[trigger] stop_order(kind).contains(step),
        stop_order(kind).index_of(StopStep::Tell) < stop_order(kind).index_of(StopStep::Join),
        stop_order(kind).index_of(StopStep::Release) < stop_order(kind).index_of(StopStep::Forget),
{
    let order = stop_order(kind);
    assert forall|step: StopStep| #[trigger] order.contains(step) by {
        assert(order[0] == step || order[1] == step || order[2] == step || order[3] == step);
    }
    assert(order.contains(StopStep::Tell) && order.contains(StopStep::Join) && order.contains(
        StopStep::Release,
    ) && order.contains(StopStep::Forget));
}

/// A plugin whose execution was interrupted serves no further call: it is failed, its thread is
/// cut off, and it cannot be started again without being initialised anew.
pub proof fn law_interrupted_plugins_are_given_up(host: HostView, error: String)
    ensures
        ({
            let (after, e) = host_called(host, Reply::Answered(Err(error)), true);
            e == Some(error@) && after.state is Failed && !after.open
        }),
{
}

/// A call that fails without an interruption concerns that call alone.
pub proof fn law_failed_calls_are_isolated(host: HostView, error: String)
    ensures
        host_called(host, Reply::Answered(Err(error)), false) == (host, Some(error@)),
{
}

// ---- what a thread does after a call ----

/// What a call inside the thread came to.
#[derive(Debug, PartialEq, Eq)]
pub enum Execution {
    Answered(Vec<u8>),
    /// A module answered with an error code.
    Code(i32),
    /// The plugin answered with an error.
    Refused(String),
    /// The execution broke off, with the class of the interruption where there was one.
    Broken { message: String, trap: Option<TrapClass> },
}

/// Class of an interruption.
#[derive(Debug, Clone, Copy, PartialEq, Eq, Structural)]
pub enum TrapClass {
    /// The instructions ran out.
    Fuel,
    /// The time ran out.
    Epoch,
    /// Memory or stack was exceeded.
    Memory,
    Other,
}

/// Name of a class of interruptions.
pub open spec fn trap_text(class: TrapClass) -> Seq<char> {
    match class {
        TrapClass::Fuel => "fuel"@,
        TrapClass::Epoch => "epoch"@,
        TrapClass::Memory => "memory"@,
        TrapClass::Other => "other"@,
    }
}

impl TrapClass {
    /// Name of the class.
    pub fn as_str(self) -> (r: &'static str)
        ensures
            r@ == trap_text(self),
    {
        match self {
            TrapClass::Fuel => "fuel",
            TrapClass::Epoch => "epoch",
            TrapClass::Memory => "memory",
            TrapClass::Other => "other",
        }
    }
}

/// What a thread does after a call, in this order: note the interruption where the instance is
/// discarded, send the reply, and end where the instance is discarded.
#[derive(Debug, PartialEq, Eq)]
pub struct AfterCall {
    pub discard: bool,
    pub trap: Option<TrapClass>,
    pub reply: Result<Vec<u8>, String>,
}

impl AfterCall {
    /// What the call counts for in the thread: an interruption of a known class, where the
    /// instance is discarded for it.
    pub fn count(&self, name: &str) -> (r: Option<Count>)
        ensures
            match r {
                Some(c) => self.discard && (self.trap matches Some(class) && c@ == (
                CountView::Trap { plugin: name@, reason: trap_text(class) })),
                None => !self.discard || self.trap is None,
            },
    {
        match self.trap {
            Some(class) => {
                if self.discard {
                    Some(Count::Trap { plugin: name.to_owned(), reason: class.as_str() })
                } else {
                    None
                }
            },
            None => None,
        }
    }
}

/// What a module's thread does after a call.
pub fn after_call(name: &str, execution: Execution) -> (r: AfterCall)
    ensures
        r.discard == (execution is Broken),
        match execution {
            Execution::Answered(bytes) => r.reply == Ok::<Vec<u8>, String>(bytes) && r.trap is None,
            Execution::Code(code) => r.trap is None && (r.reply matches Err(e) && e@ == about(
                name@,
                "' returned "@ + crate::plugin::abi::wire_name(code) + " (abi code "@
                    + text::decimal_int(code as int) + ")"@,
            )),
            Execution::Refused(msg) => r.trap is None && (r.reply matches Err(e) && e@ == about(
                name@,
                "' returned error: "@ + msg@,
            )),
            Execution::Broken { message, trap } => r.trap == trap && r.reply == Err::<
                Vec<u8>,
                String,
            >(message),
        },
{
    match execution {
        Execution::Answered(bytes) => AfterCall { discard: false, trap: None, reply: Ok(bytes) },
        Execution::Code(code) => {
            let number = crate::text::decimal_int_text(code as i64);
            let mut text = join5(
                "plugin '",
                name,
                "' returned ",
                crate::plugin::abi::core_err_name(code),
                " (abi code ",
            );
            text.append(number.as_str());
            text.append(")");
            assert(text@ =~= about(
                name@,
                "' returned "@ + crate::plugin::abi::wire_name(code) + " (abi code "@
                    + text::decimal_int(code as int) + ")"@,
            ));
            AfterCall { discard: false, trap: None, reply: Err(text) }
        },
        Execution::Refused(msg) => {
            let mut text = join3("plugin '", name, "' returned error: ");
            text.append(msg.as_str());
            assert(text@ =~= about(name@, "' returned error: "@ + msg@));
            AfterCall { discard: false, trap: None, reply: Err(text) }
        },
        Execution::Broken { message, trap } => AfterCall {
            discard: true,
            trap,
            reply: Err(message),
        },
    }
}

// ---- log lines of plugins ----

/// Level of a log line.
#[derive(Debug, Clone, Copy, PartialEq, Eq, Structural)]
pub enum LogLevel {
    Error,
    Warn,
    Info,
    Debug,
    Trace,
}

/// Level that a plugin names; an unknown one is the usual one.
pub open spec fn level_of(name: Seq<char>) -> LogLevel {
    if name == "error"@ {
        LogLevel::Error
    } else if name == "warn"@ || name == "warning"@ {
        LogLevel::Warn
    } else if name == "debug"@ {
        LogLevel::Debug
    } else if name == "trace"@ {
        LogLevel::Trace
    } else {
        LogLevel::Info
    }
}

/// Level and text of a plugin's log line.
pub fn log_line(plugin: &str, level: &str, message: &str) -> (r: (LogLevel, String))
    ensures
        r.0 == level_of(level@),
        r.1@ == "["@ + plugin@ + "] "@ + message@,
{
    let kind = if same_text(level, "error") {
        LogLevel::Error
    } else if same_text(level, "warn") || same_text(level, "warning") {
        LogLevel::Warn
    } else if same_text(level, "debug") {
        LogLevel::Debug
    } else if same_text(level, "trace") {
        LogLevel::Trace
    } else {
        LogLevel::Info
    };
    let mut line = join3("[", plugin, "] ");
    line.append(message);
    (kind, line)
}

} // verus!
