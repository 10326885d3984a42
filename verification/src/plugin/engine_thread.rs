//! The thread of a plugin: it brings the plugin up, serves one call after the other, and ends with
//! a stop or with a plugin that can no longer be used.
use crate::plugin::engine::{AfterCall, EngineKind, Readiness};
use vstd::prelude::*;

verus! {

/// What the thread is to do next.
#[derive(Debug)]
pub enum ThreadAction {
    /// Build the runtime that drives the plugin.
    BuildRuntime,
    /// Create the instance and initialise the plugin.
    CreateInstance,
    /// Report that the plugin is up, or why it is not.
    Report(Readiness),
    /// Wait for a command.
    Await,
    /// Carry the call out.
    Execute,
    /// Answer the call.
    Reply(Result<Vec<u8>, String>),
    /// Run the plugin's stop hook.
    RunStop,
    /// Release what the plugin left open.
    Release,
    /// Acknowledge the stop.
    Acknowledge,
    End,
}

/// A command for the thread.
#[derive(Debug, Clone, Copy, PartialEq, Eq, Structural)]
pub enum Command {
    Invoke,
    Stop,
    /// Nobody can send commands any more.
    Closed,
}

/// Where the thread stands.
#[derive(Debug)]
enum Phase {
    Building,
    Creating,
    Reporting(Readiness),
    Waiting,
    Executing,
    Replying { reply: Result<Vec<u8>, String>, discard: bool },
    Stopping,
    Releasing { acknowledge: bool },
    Acknowledging,
    Ended,
}

/// Contents of the phase of a thread.
pub enum ThreadPhase {
    Building,
    Creating,
    Reporting(Readiness),
    Waiting,
    Executing,
    Replying { reply: Result<Vec<u8>, String>, discard: bool },
    Stopping,
    Releasing { acknowledge: bool },
    Acknowledging,
    Ended,
}

/// The thread of a plugin.
#[derive(Debug)]
pub struct EngineThread {
    kind: EngineKind,
    phase: Phase,
    trapped: bool,
    released: bool,
}

/// Contents of [`EngineThread`].
pub struct ThreadView {
    pub kind: EngineKind,
    pub phase: ThreadPhase,
    /// Whether it is noted that the instance was discarded.
    pub trapped: bool,
    /// Whether what the plugin left open was released.
    pub released: bool,
}

/// Beginning of the report of a runtime that cannot be built.
pub open spec fn runtime_failure(kind: EngineKind) -> Seq<char> {
    match kind {
        EngineKind::Js => "tokio runtime: "@,
        _ => "failed to build plugin runtime: "@,
    }
}

/// A thread before its first step. A module needs no runtime of its own.
pub open spec fn thread_begin(kind: EngineKind) -> ThreadView {
    ThreadView {
        kind,
        phase: match kind {
            EngineKind::Wasm => ThreadPhase::Creating,
            _ => ThreadPhase::Building,
        },
        trapped: false,
        released: false,
    }
}

/// Where a thread goes whose plugin is over: handles of a component and of a script are released,
/// a module holds none.
pub open spec fn thread_over(t: ThreadView) -> ThreadView {
    ThreadView {
        phase: match t.kind {
            EngineKind::Wasm => ThreadPhase::Ended,
            _ => ThreadPhase::Releasing { acknowledge: false },
        },
        ..t
    }
}

/// The thread after its report reached somebody or nobody.
pub open spec fn thread_reported(t: ThreadView, heard: bool) -> ThreadView {
    match t.phase {
        ThreadPhase::Reporting(Readiness::Up) => ThreadView {
            phase: if heard {
                ThreadPhase::Waiting
            } else {
                ThreadPhase::Ended
            },
            ..t
        },
        ThreadPhase::Reporting(_) => ThreadView { phase: ThreadPhase::Ended, ..t },
        _ => t,
    }
}

/// The thread after a command. A thread that nobody commands any more is over.
pub open spec fn thread_commanded(t: ThreadView, command: Command) -> ThreadView {
    if t.phase is Waiting {
        match command {
            Command::Invoke => ThreadView { phase: ThreadPhase::Executing, ..t },
            Command::Stop => ThreadView { phase: ThreadPhase::Stopping, ..t },
            Command::Closed => match t.kind {
                EngineKind::Js => thread_over(t),
                _ => ThreadView { phase: ThreadPhase::Ended, ..t },
            },
        }
    } else {
        t
    }
}

/// The thread after a call was carried out: a discarded instance is noted before the reply.
pub open spec fn thread_executed(t: ThreadView, after: AfterCall) -> ThreadView {
    if t.phase is Executing {
        ThreadView {
            phase: ThreadPhase::Replying { reply: after.reply, discard: after.discard },
            trapped: t.trapped || after.discard,
            ..t
        }
    } else {
        t
    }
}

/// The thread after a reply: with a discarded instance it is over.
pub open spec fn thread_replied(t: ThreadView) -> ThreadView {
    match t.phase {
        ThreadPhase::Replying { reply, discard } => if discard {
            thread_over(t)
        } else {
            ThreadView { phase: ThreadPhase::Waiting, ..t }
        },
        _ => t,
    }
}

/// The thread after the stop hook. What a component left open is released before the stop is
/// acknowledged.
pub open spec fn thread_stopped(t: ThreadView) -> ThreadView {
    if t.phase is Stopping {
        ThreadView {
            phase: match t.kind {
                EngineKind::Component => ThreadPhase::Releasing { acknowledge: true },
                _ => ThreadPhase::Acknowledging,
            },
            ..t
        }
    } else {
        t
    }
}

/// The thread after the release.
pub open spec fn thread_released(t: ThreadView) -> ThreadView {
    match t.phase {
        ThreadPhase::Releasing { acknowledge } => ThreadView {
            phase: if acknowledge {
                ThreadPhase::Acknowledging
            } else {
                ThreadPhase::Ended
            },
            released: true,
            ..t
        },
        _ => t,
    }
}

/// The thread after it acknowledged the stop. A script's handles are released then.
pub open spec fn thread_acknowledged(t: ThreadView) -> ThreadView {
    if t.phase is Acknowledging {
        match t.kind {
            EngineKind::Js => thread_over(t),
            _ => ThreadView { phase: ThreadPhase::Ended, ..t },
        }
    } else {
        t
    }
}

spec fn phase_view(p: Phase) -> ThreadPhase {
    match p {
        Phase::Building => ThreadPhase::Building,
        Phase::Creating => ThreadPhase::Creating,
        Phase::Reporting(r) => ThreadPhase::Reporting(r),
        Phase::Waiting => ThreadPhase::Waiting,
        Phase::Executing => ThreadPhase::Executing,
        Phase::Replying { reply, discard } => ThreadPhase::Replying { reply, discard },
        Phase::Stopping => ThreadPhase::Stopping,
        Phase::Releasing { acknowledge } => ThreadPhase::Releasing { acknowledge },
        Phase::Acknowledging => ThreadPhase::Acknowledging,
        Phase::Ended => ThreadPhase::Ended,
    }
}

impl View for EngineThread {
    type V = ThreadView;

    closed spec fn view(&self) -> ThreadView {
        ThreadView {
            kind: self.kind,
            phase: phase_view(self.phase),
            trapped: self.trapped,
            released: self.released,
        }
    }
}

/// A reply before a discarded instance is noted never goes out.
pub open spec fn noted(t: ThreadView) -> bool {
    t.phase matches ThreadPhase::Replying { discard, .. } ==> discard ==> t.trapped
}

impl EngineThread {
    #[verifier::type_invariant]
    closed spec fn wf(&self) -> bool {
        noted(self@)
    }

    /// A thread before its first step.
    pub fn new(kind: EngineKind) -> (r: Self)
        ensures
            r@ == thread_begin(kind),
    {
        let phase = match kind {
            EngineKind::Wasm => Phase::Creating,
            _ => Phase::Building,
        };
        EngineThread { kind, phase, trapped: false, released: false }
    }

    /// Whether it is noted that the instance was discarded.
    pub fn trapped(&self) -> (r: bool)
        ensures
            r == self@.trapped,
            self@.phase matches ThreadPhase::Replying { discard, .. } ==> discard ==> r,
    {
        proof {
            use_type_invariant(self);
        }
        self.trapped
    }

    /// What is to be done next; a report or a reply is handed out once.
    pub fn action(&mut self) -> (r: ThreadAction)
        ensures
            final(self)@.kind == old(self)@.kind,
            final(self)@.trapped == old(self)@.trapped,
            final(self)@.released == old(self)@.released,
            match old(self)@.phase {
                ThreadPhase::Building => r is BuildRuntime && final(self)@ == old(self)@,
                ThreadPhase::Creating => r is CreateInstance && final(self)@ == old(self)@,
                ThreadPhase::Reporting(report) => r == ThreadAction::Report(report) && (
                final(self)@.phase matches ThreadPhase::Reporting(left) && (left is Up <==> report is Up)),
                ThreadPhase::Waiting => r is Await && final(self)@ == old(self)@,
                ThreadPhase::Executing => r is Execute && final(self)@ == old(self)@,
                ThreadPhase::Replying { reply, discard } => r == ThreadAction::Reply(reply) && (
                final(self)@.phase matches ThreadPhase::Replying { discard: d, .. } && d == discard),
                ThreadPhase::Stopping => r is RunStop && final(self)@ == old(self)@,
                ThreadPhase::Releasing { .. } => r is Release && final(self)@ == old(self)@,
                ThreadPhase::Acknowledging => r is Acknowledge && final(self)@ == old(self)@,
                ThreadPhase::Ended => r is End && final(self)@ == old(self)@,
            },
    {
        proof {
            use_type_invariant(&*self);
        }
        let mut held = EngineThread {
            kind: self.kind,
            phase: Phase::Ended,
            trapped: self.trapped,
            released: self.released,
        };
        std::mem::swap(&mut held, self);
        let EngineThread { kind, phase, trapped, released } = held;
        match phase {
            Phase::Reporting(report) => {
                let left = match &report {
                    Readiness::Up => Readiness::Up,
                    _ => Readiness::Gone,
                };
                *self = EngineThread { kind, phase: Phase::Reporting(left), trapped, released };
                ThreadAction::Report(report)
            },
            Phase::Replying { reply, discard } => {
                *self = EngineThread {
                    kind,
                    phase: Phase::Replying { reply: Ok(Vec::new()), discard },
                    trapped,
                    released,
                };
                ThreadAction::Reply(reply)
            },
            other => {
                let action = match &other {
                    Phase::Building => ThreadAction::BuildRuntime,
                    Phase::Creating => ThreadAction::CreateInstance,
                    Phase::Waiting => ThreadAction::Await,
                    Phase::Executing => ThreadAction::Execute,
                    Phase::Stopping => ThreadAction::RunStop,
                    Phase::Releasing { .. } => ThreadAction::Release,
                    Phase::Acknowledging => ThreadAction::Acknowledge,
                    _ => ThreadAction::End,
                };
                *self = EngineThread { kind, phase: other, trapped, released };
                action
            },
        }
    }

    fn at(self, phase: Phase) -> (r: Self)
        requires
            !(phase is Replying),
        ensures
            r@ == (ThreadView { phase: phase_view(phase), ..self@ }),
    {
        EngineThread { kind: self.kind, phase, trapped: self.trapped, released: self.released }
    }

    fn over(self) -> (r: Self)
        ensures
            r@ == thread_over(self@),
    {
        match self.kind {
            EngineKind::Wasm => self.at(Phase::Ended),
            _ => self.at(Phase::Releasing { acknowledge: false }),
        }
    }

    /// The thread after the runtime was built or not.
    pub fn built(self, outcome: Result<(), String>) -> (r: Self)
        ensures
            r@.kind == self@.kind,
            r@.trapped == self@.trapped,
            r@.released == self@.released,
            if self@.phase is Building {
                match outcome {
                    Ok(_) => r@.phase is Creating,
                    Err(e) => r@.phase matches ThreadPhase::Reporting(Readiness::Failed(text))
                        && text@ == runtime_failure(self@.kind) + e@,
                }
            } else {
                r == self
            },
    {
        if let Phase::Building = self.phase {
            match outcome {
                Ok(_) => self.at(Phase::Creating),
                Err(e) => {
                    let mut text = match self.kind {
                        EngineKind::Js => "tokio runtime: ".to_owned(),
                        _ => "failed to build plugin runtime: ".to_owned(),
                    };
                    text.append(e.as_str());
                    self.at(Phase::Reporting(Readiness::Failed(text)))
                },
            }
        } else {
            self
        }
    }

    /// The thread after the plugin was brought up or not.
    pub fn created(self, outcome: Result<(), String>) -> (r: Self)
        ensures
            r@.kind == self@.kind,
            r@.trapped == self@.trapped,
            r@.released == self@.released,
            if self@.phase is Creating {
                r@.phase == ThreadPhase::Reporting(
                    match outcome {
                        Ok(_) => Readiness::Up,
                        Err(e) => Readiness::Failed(e),
                    },
                )
            } else {
                r == self
            },
    {
        if let Phase::Creating = self.phase {
            match outcome {
                Ok(_) => self.at(Phase::Reporting(Readiness::Up)),
                Err(e) => self.at(Phase::Reporting(Readiness::Failed(e))),
            }
        } else {
            self
        }
    }

    /// The thread after its report reached somebody or nobody.
    pub fn reported(self, heard: bool) -> (r: Self)
        ensures
            r@ == thread_reported(self@, heard),
    {
        let up = match &self.phase {
            Phase::Reporting(Readiness::Up) => true,
            Phase::Reporting(_) => false,
            _ => {
                return self;
            },
        };
        if up && heard {
            self.at(Phase::Waiting)
        } else {
            self.at(Phase::Ended)
        }
    }

    /// The thread after a command.
    pub fn commanded(self, command: Command) -> (r: Self)
        ensures
            r@ == thread_commanded(self@, command),
    {
        if let Phase::Waiting = self.phase {
            match command {
                Command::Invoke => self.at(Phase::Executing),
                Command::Stop => self.at(Phase::Stopping),
                Command::Closed => match self.kind {
                    EngineKind::Js => self.over(),
                    _ => self.at(Phase::Ended),
                },
            }
        } else {
            self
        }
    }

    /// The thread after a call was carried out.
    pub fn executed(self, after: AfterCall) -> (r: Self)
        ensures
            r@ == thread_executed(self@, after),
    {
        if let Phase::Executing = self.phase {
            EngineThread {
                kind: self.kind,
                phase: Phase::Replying { reply: after.reply, discard: after.discard },
                trapped: self.trapped || after.discard,
                released: self.released,
            }
        } else {
            self
        }
    }

    /// The thread after a reply.
    pub fn replied(self) -> (r: Self)
        ensures
            r@ == thread_replied(self@),
    {
        let discard = match &self.phase {
            Phase::Replying { discard, .. } => *discard,
            _ => {
                return self;
            },
        };
        if discard {
            self.over()
        } else {
            self.at(Phase::Waiting)
        }
    }

    /// The thread after the stop hook.
    pub fn stopped(self) -> (r: Self)
        ensures
            r@ == thread_stopped(self@),
    {
        if let Phase::Stopping = self.phase {
            match self.kind {
                EngineKind::Component => self.at(Phase::Releasing { acknowledge: true }),
                _ => self.at(Phase::Acknowledging),
            }
        } else {
            self
        }
    }

    /// The thread after the release.
    pub fn released(self) -> (r: Self)
        ensures
            r@ == thread_released(self@),
    {
        let acknowledge = match &self.phase {
            Phase::Releasing { acknowledge } => *acknowledge,
            _ => {
                return self;
            },
        };
        let phase = if acknowledge {
            Phase::Acknowledging
        } else {
            Phase::Ended
        };
        EngineThread { kind: self.kind, phase, trapped: self.trapped, released: true }
    }

    /// The thread after it acknowledged the stop.
    pub fn acknowledged(self) -> (r: Self)
        ensures
            r@ == thread_acknowledged(self@),
    {
        if let Phase::Acknowledging = self.phase {
            match self.kind {
                EngineKind::Js => self.over(),
                _ => self.at(Phase::Ended),
            }
        } else {
            self
        }
    }
}

/// Whoever reads a reply of a discarded instance finds the discard noted.
pub proof fn law_a_discard_is_noted_before_its_reply(t: ThreadView, after: AfterCall)
    requires
        t.phase is Executing,
        after.discard,
    ensures
        thread_executed(t, after).trapped,
        thread_executed(t, after).phase is Replying,
{
}

/// A thread whose instance is discarded takes no further command: after the reply it only
/// releases what was left open, and ends.
pub proof fn law_a_discarded_instance_serves_no_more(t: ThreadView, after: AfterCall)
    requires
        t.phase is Executing,
        after.discard,
    ensures
        ({
            let replied = thread_replied(thread_executed(t, after));
            match t.kind {
                EngineKind::Wasm => replied.phase is Ended,
                _ => replied.phase is Releasing && thread_released(replied).phase is Ended
                    && thread_released(replied).released,
            }
        }),
{
}

/// A stop runs the stop hook, releases what a component or a script left open, acknowledges, and
/// ends.
pub proof fn law_a_stop_is_orderly(t: ThreadView)
    requires
        t.phase is Waiting,
    ensures
        ({
            let stopping = thread_commanded(t, Command::Stop);
            let after = thread_stopped(stopping);
            &&& stopping.phase is Stopping
            &&& match t.kind {
                EngineKind::Component => {
                    let done = thread_acknowledged(thread_released(after));
                    after.phase is Releasing && done.phase is Ended && done.released
                },
                EngineKind::Wasm => thread_acknowledged(after).phase is Ended,
                EngineKind::Js => {
                    let done = thread_released(thread_acknowledged(after));
                    done.phase is Ended && done.released
                },
            }
        }),
{
}

/// A failed call does not end the thread: it waits for the next command.
pub proof fn law_a_failed_call_leaves_the_thread_serving(t: ThreadView, after: AfterCall)
    requires
        t.phase is Executing,
        !after.discard,
    ensures
        thread_replied(thread_executed(t, after)).phase is Waiting,
        thread_replied(thread_executed(t, after)).trapped == t.trapped,
{
}

} // verus!
