//! Scripts: when a call is interrupted, which hooks a script has, and what its errors say.
use crate::plugin::engine::AfterCall;
use crate::text::join3;
use vstd::prelude::*;

verus! {

/// Stack of a script, in bytes.
pub const MAX_STACK_BYTES: usize = 1_048_576;

/// Milliseconds of the epoch; zero where the clock is before it or too far beyond, so that
/// nothing is interrupted by mistake.
pub fn epoch_ms(since_epoch: Option<u128>) -> (r: u64)
    ensures
        r == match since_epoch {
            Some(ms) => if ms <= u64::MAX {
                ms as u64
            } else {
                0
            },
            None => 0,
        },
{
    match since_epoch {
        Some(ms) => {
            if ms <= u64::MAX as u128 {
                ms as u64
            } else {
                0
            }
        },
        None => 0,
    }
}

// ---- interruption ----

/// When the call under way is interrupted, and whether one was.
#[derive(Debug, Clone, Copy, PartialEq, Eq, Structural)]
pub struct InterruptCtl {
    deadline_ms: u64,
    tripped: bool,
}

/// Contents of [`InterruptCtl`].
pub struct InterruptView {
    /// Time at which the call is interrupted; zero for never.
    pub deadline: u64,
    /// Whether a call was interrupted.
    pub tripped: bool,
}

/// A call that may last so long from now on; where the clock is not known it lasts as it likes.
pub open spec fn armed(now: u64, max_exec_ms: u64) -> InterruptView {
    InterruptView {
        deadline: if now == 0 {
            0
        } else {
            (now + max_exec_ms) as u64
        },
        tripped: false,
    }
}

/// Whether the call is over time.
pub open spec fn over_time(ctl: InterruptView, now: u64) -> bool {
    ctl.deadline != 0 && now != 0 && now >= ctl.deadline
}

impl View for InterruptCtl {
    type V = InterruptView;

    closed spec fn view(&self) -> InterruptView {
        InterruptView { deadline: self.deadline_ms, tripped: self.tripped }
    }
}

impl Default for InterruptCtl {
    fn default() -> (r: Self)
        ensures
            r@ == (InterruptView { deadline: 0, tripped: false }),
    {
        InterruptCtl { deadline_ms: 0, tripped: false }
    }
}

impl InterruptCtl {
    /// A call begins that may last so long.
    pub fn arm(&mut self, now: u64, max_exec_ms: u64)
        requires
            now == 0 || now + max_exec_ms <= u64::MAX,
        ensures
            final(self)@ == armed(now, max_exec_ms),
    {
        self.tripped = false;
        self.deadline_ms = if now == 0 {
            0
        } else {
            now + max_exec_ms
        };
    }

    /// The call is over.
    pub fn disarm(&mut self)
        ensures
            final(self)@ == (InterruptView { deadline: 0, ..old(self)@ }),
    {
        self.deadline_ms = 0;
    }

    /// Whether the call is to be interrupted now.
    pub fn expired(&mut self, now: u64) -> (r: bool)
        ensures
            r == over_time(old(self)@, now),
            final(self)@ == (InterruptView {
                tripped: old(self)@.tripped || r,
                ..old(self)@
            }),
    {
        if self.deadline_ms == 0 {
            return false;
        }
        if now != 0 && now >= self.deadline_ms {
            self.tripped = true;
            return true;
        }
        false
    }

    /// Whether a call was interrupted.
    pub fn was_tripped(&self) -> (r: bool)
        ensures
            r == self@.tripped,
    {
        self.tripped
    }
}

/// A call is interrupted only when its time is up, never where the clock is not known, and never
/// after it is over.
pub proof fn law_calls_are_interrupted_only_over_time(now: u64, max_exec_ms: u64, later: u64)
    requires
        now == 0 || now + max_exec_ms <= u64::MAX,
    ensures
        over_time(armed(now, max_exec_ms), later) ==> now != 0 && later - now >= max_exec_ms,
        now != 0 && later >= now + max_exec_ms ==> over_time(armed(now, max_exec_ms), later),
        !over_time(InterruptView { deadline: 0, ..armed(now, max_exec_ms) }, later),
{
}

/// What a script's thread does after a call: a script that was interrupted is discarded.
pub fn after_script(reply: Result<Vec<u8>, String>, tripped: bool) -> (r: AfterCall)
    ensures
        r.discard == tripped,
        r.trap is None,
        r.reply == reply,
{
    AfterCall { discard: tripped, trap: None, reply }
}

// ---- hooks ----

/// The hooks that a script may have.
pub const HOOKS: [&'static str; 3] = ["handleInvoke", "init", "stop"];

/// Where a hook comes from.
#[derive(Debug, Clone, Copy, PartialEq, Eq, Structural)]
pub enum HookSource {
    /// The script exports it.
    Export,
    /// The script declares it globally.
    Global,
}

/// Where a hook comes from: an export goes before a global declaration.
pub fn hook_source(exported: bool, global: bool) -> (r: Option<HookSource>)
    ensures
        r == if exported {
            Some(HookSource::Export)
        } else if global {
            Some(HookSource::Global)
        } else {
            None
        },
{
    if exported {
        Some(HookSource::Export)
    } else if global {
        Some(HookSource::Global)
    } else {
        None
    }
}

/// Name under which a hook is kept.
pub open spec fn hook_slot_text(hook: Seq<char>) -> Seq<char> {
    "__coord_hook_"@ + hook
}

/// Name under which a hook is kept.
pub fn hook_slot(hook: &str) -> (r: String)
    ensures
        r@ == hook_slot_text(hook@),
{
    let mut slot = "__coord_hook_".to_owned();
    slot.append(hook);
    slot
}

/// Message of a call of a script that has no handler.
pub const MISSING_HANDLER: &'static str = "plugin does not export 'handleInvoke'";

// ---- errors ----

/// What a script threw.
#[derive(Debug, PartialEq, Eq)]
pub enum Thrown {
    /// An error with a message, and with a name where it has one.
    Error { name: Option<String>, message: String },
    Text(String),
    /// Anything else, as the engine shows it.
    Shown(String),
}

/// What is reported of something thrown.
pub open spec fn thrown_text(thrown: Thrown) -> Seq<char> {
    match thrown {
        Thrown::Error { name, message } => match name {
            Some(n) => n@ + ": "@ + message@,
            None => "Error"@ + ": "@ + message@,
        },
        Thrown::Text(s) => s@,
        Thrown::Shown(s) => s@,
    }
}

/// What is reported of something thrown.
pub fn format_caught(thrown: &Thrown) -> (r: String)
    ensures
        r@ == thrown_text(*thrown),
{
    match thrown {
        Thrown::Error { name, message } => match name {
            Some(n) => join3(n.as_str(), ": ", message.as_str()),
            None => join3("Error", ": ", message.as_str()),
        },
        Thrown::Text(s) => s.clone(),
        Thrown::Shown(s) => s.clone(),
    }
}

/// Why a script did not come up.
pub fn init_failure(name: &str, error: &str) -> (r: String)
    ensures
        r@ == "plugin '"@ + name@ + "' init failed: "@ + error@,
{
    let mut text = join3("plugin '", name, "' init failed: ");
    text.append(error);
    text
}

} // verus!
