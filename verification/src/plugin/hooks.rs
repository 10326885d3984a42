//! Hooks on the calls that plugins make.
use crate::plugin::sdk::backend::{SdkError, SdkErrorCode};
use crate::text::same_text;
use std::sync::Arc;
use vstd::prelude::*;

verus! {

/// What a plugin calls.
#[derive(Debug, Clone, Copy, PartialEq, Eq, Structural)]
pub enum CallOp {
    KvPut,
    KvRange,
    KvDelete,
    KvGet,
    KvCreate,
    Txn,
    LeaseGrant,
    LeaseRevoke,
    LeaseKeepAlive,
    StoragePut,
    StorageGet,
    StorageDelete,
}

/// Short name of an operation.
pub open spec fn op_text(op: CallOp) -> Seq<char> {
    match op {
        CallOp::KvPut => "kv_put"@,
        CallOp::KvRange => "kv_range"@,
        CallOp::KvDelete => "kv_delete"@,
        CallOp::KvGet => "kv_get"@,
        CallOp::KvCreate => "kv_create"@,
        CallOp::Txn => "txn"@,
        CallOp::LeaseGrant => "lease_grant"@,
        CallOp::LeaseRevoke => "lease_revoke"@,
        CallOp::LeaseKeepAlive => "lease_keepalive"@,
        CallOp::StoragePut => "storage_put"@,
        CallOp::StorageGet => "storage_get"@,
        CallOp::StorageDelete => "storage_delete"@,
    }
}

/// Operations that only read, or only keep something alive.
pub open spec fn reads_only(op: CallOp) -> bool {
    op is KvRange || op is KvGet || op is LeaseKeepAlive || op is StorageGet
}

impl CallOp {
    /// Short name for metrics and audits.
    pub fn as_str(self) -> (r: &'static str)
        ensures
            r@ == op_text(self),
    {
        match self {
            CallOp::KvPut => "kv_put",
            CallOp::KvRange => "kv_range",
            CallOp::KvDelete => "kv_delete",
            CallOp::KvGet => "kv_get",
            CallOp::KvCreate => "kv_create",
            CallOp::Txn => "txn",
            CallOp::LeaseGrant => "lease_grant",
            CallOp::LeaseRevoke => "lease_revoke",
            CallOp::LeaseKeepAlive => "lease_keepalive",
            CallOp::StoragePut => "storage_put",
            CallOp::StorageGet => "storage_get",
            CallOp::StorageDelete => "storage_delete",
        }
    }

    /// Whether the operation may change something.
    pub fn is_write(self) -> (r: bool)
        ensures
            r == !reads_only(self),
    {
        match self {
            CallOp::KvRange | CallOp::KvGet | CallOp::LeaseKeepAlive | CallOp::StorageGet => false,
            _ => true,
        }
    }
}

/// One call of a plugin.
#[derive(Debug, Clone, PartialEq, Eq)]
pub struct CallCtx {
    /// The calling plugin.
    pub plugin: String,
    pub op: CallOp,
    /// What is called on: a key, `lease:<id>`, or nothing.
    pub resource: String,
    /// Size of the payload in bytes.
    pub payload_bytes: usize,
}

/// What a hook decides.
#[derive(Debug, Clone, PartialEq, Eq)]
pub enum CallDecision {
    Allow,
    /// Refused, with the reason.
    Deny(String),
}

/// How a call ended.
#[derive(Debug, Clone, Copy, PartialEq, Eq, Structural)]
pub struct CallOutcome {
    pub ok: bool,
    pub error_code: Option<SdkErrorCode>,
}

impl CallOutcome {
    /// How a host call ended.
    pub fn from_result<T>(result: &Result<T, SdkError>) -> (r: Self)
        ensures
            r.ok == (result is Ok),
            r.error_code == match *result {
                Ok(_) => None::<SdkErrorCode>,
                Err(e) => Some(e.code),
            },
    {
        match result {
            Ok(_) => CallOutcome { ok: true, error_code: None },
            Err(e) => CallOutcome { ok: false, error_code: Some(e.code) },
        }
    }
}

/// A hook on plugin calls.
pub trait CallHook: Send + Sync + 'static {
    /// Name of the hook.
    fn name(&self) -> (r: &str);

    /// Decides on a call before it is made.
    fn before(&self, _ctx: &CallCtx) -> (r: CallDecision) {
        CallDecision::Allow
    }

    /// Observes a call after it was made.
    fn after(&self, _ctx: &CallCtx, _outcome: &CallOutcome) {
    }
}

/// How often hooks were consulted.
#[derive(Debug, Clone, Copy, PartialEq, Eq, Structural)]
pub struct HookStats {
    pub before_total: u64,
    pub denied_total: u64,
    pub after_total: u64,
}

impl Default for HookStats {
    /// Never.
    fn default() -> (r: Self)
        ensures
            r == (HookStats { before_total: 0, denied_total: 0, after_total: 0 }),
    {
        HookStats { before_total: 0, denied_total: 0, after_total: 0 }
    }
}

/// Whether a hook may say that it has a name.
pub open spec fn may_say_name<H: CallHook + ?Sized>(hook: &H, name: Seq<char>) -> bool {
    exists|said: &str| said@ == name && #[trigger] call_ensures(H::name, (hook,), said)
}

/// Whether a hook that is asked about a call may decide so.
pub open spec fn may_decide<H: CallHook + ?Sized>(
    hook: &H,
    ctx: CallCtx,
    decision: CallDecision,
) -> bool {
    call_ensures(H::before, (hook, &ctx), decision)
}

/// Whether a hook was told how a call ended.
pub open spec fn was_told<H: CallHook + ?Sized>(hook: &H, ctx: CallCtx, outcome: CallOutcome) -> bool {
    call_ensures(H::after, (hook, &ctx, &outcome), ())
}

fn say_name<H: CallHook + ?Sized>(hook: &H) -> (r: String)
    ensures
        may_say_name(hook, r@),
{
    let said = hook.name();
    assert(call_ensures(H::name, (hook,), said));
    said.to_owned()
}

fn ask_hook<H: CallHook + ?Sized>(hook: &H, ctx: &CallCtx) -> (r: CallDecision)
    ensures
        may_decide(hook, *ctx, r),
{
    hook.before(ctx)
}

fn tell_hook<H: CallHook + ?Sized>(hook: &H, ctx: &CallCtx, outcome: &CallOutcome)
    ensures
        was_told(hook, *ctx, *outcome),
{
    hook.after(ctx, outcome)
}

/// A hook with the pattern under which it is registered.
pub struct HookEntry<H> {
    /// Name of a plugin, or `*` for all.
    pub pattern: String,
    pub hook: H,
}

impl<H> HookEntry<H> {
    /// A hook under a pattern.
    pub fn new(pattern: &str, hook: H) -> (r: Self)
        ensures
            r.pattern@ == pattern@,
            r.hook == hook,
    {
        HookEntry { pattern: pattern.to_owned(), hook }
    }
}

/// A registered hook.
pub type RegisteredHook = HookEntry<Arc<dyn CallHook>>;

/// Whether a registered hook may say that it has a name.
pub open spec fn named(entry: RegisteredHook, name: Seq<char>) -> bool {
    may_say_name(&*entry.hook, name)
}

/// Whether a registered hook that is asked about a call may decide so.
pub open spec fn decides(entry: RegisteredHook, ctx: CallCtx, decision: CallDecision) -> bool {
    may_decide(&*entry.hook, ctx, decision)
}

/// Whether a registered hook was told how a call ended.
pub open spec fn told(entry: RegisteredHook, ctx: CallCtx, outcome: CallOutcome) -> bool {
    was_told(&*entry.hook, ctx, outcome)
}

/// Whether a hook under a pattern hears of a plugin: the plugin itself or `*`.
pub open spec fn hears(pattern: Seq<char>, plugin: Seq<char>) -> bool {
    pattern == "*"@ || pattern == plugin
}

/// Whether names are what hooks said: those under a pattern were asked, and no others.
pub open spec fn said_by(
    entries: Seq<RegisteredHook>,
    pattern: Seq<char>,
    names: Seq<Option<String>>,
) -> bool {
    &&& names.len() == entries.len()
    &&& forall|i: int|
        0 <= i < entries.len() ==> if (#[trigger] entries[i]).pattern@ == pattern {
            names[i] matches Some(name) && named(entries[i], name@)
        } else {
            names[i] is None
        }
}

/// The hooks that did not say a name, in order.
pub open spec fn without(
    entries: Seq<RegisteredHook>,
    names: Seq<Option<String>>,
    name: Seq<char>,
) -> Seq<RegisteredHook>
    decreases entries.len(),
{
    if entries.len() == 0 {
        Seq::empty()
    } else {
        let rest = without(entries.drop_last(), names, name);
        if said(names, entries.len() - 1, name) {
            rest
        } else {
            rest.push(entries.last())
        }
    }
}

/// Whether a hook said a name.
pub open spec fn said(names: Seq<Option<String>>, i: int, name: Seq<char>) -> bool {
    0 <= i < names.len() && (names[i] matches Some(n) && n@ == name)
}

/// Reason that a plugin gets of a refusal: the hook's name and its reason.
pub open spec fn refusal_text(hook: Seq<char>, reason: Seq<char>) -> Seq<char> {
    hook + ": "@ + reason
}

/// Whether the hooks were consulted on a call with that result: those that hear of the plugin
/// were asked in order up to the first that refused, whose refusal is the result, with the name
/// that this hook said; where none refused, all of them were asked. `decisions` holds what each
/// of the hooks decided, and `Allow` for those that do not hear of the plugin.
pub open spec fn consulted(
    entries: Seq<RegisteredHook>,
    ctx: CallCtx,
    decisions: Seq<CallDecision>,
    result: CallDecision,
) -> bool {
    &&& decisions.len() <= entries.len()
    &&& forall|i: int|
        0 <= i < decisions.len() ==> if hears(entries[i].pattern@, ctx.plugin@) {
            decides(entries[i], ctx, #[trigger] decisions[i])
        } else {
            decisions[i] is Allow
        }
    &&& forall|i: int| 0 <= i < decisions.len() - 1 ==> (#[trigger] decisions[i]) is Allow
    &&& match result {
        CallDecision::Allow => decisions.len() == entries.len() && (decisions.len() > 0
            ==> decisions.last() is Allow),
        CallDecision::Deny(text) => decisions.len() > 0 && (decisions.last() matches
            CallDecision::Deny(reason) && exists|name: Seq<char>|
            named(entries[decisions.len() - 1], name) && text@ == #[trigger] refusal_text(
                name,
                reason@,
            )),
    }
}

/// The registered hooks.
pub struct HookRegistry {
    entries: Vec<RegisteredHook>,
    counts: HookStats,
}

impl HookRegistry {
    /// The hooks, in order of registration.
    pub closed spec fn hooks(&self) -> Seq<RegisteredHook> {
        self.entries@
    }

    /// The counters.
    pub closed spec fn counters(&self) -> HookStats {
        self.counts
    }

    /// A registry without hooks.
    pub fn new() -> (r: Self)
        ensures
            r.hooks() == Seq::<RegisteredHook>::empty(),
            r.counters() == (HookStats { before_total: 0, denied_total: 0, after_total: 0 }),
    {
        HookRegistry {
            entries: Vec::new(),
            counts: HookStats { before_total: 0, denied_total: 0, after_total: 0 },
        }
    }

    /// Registers a hook for a plugin name or `*`. A hook that says the same name under the same
    /// pattern is replaced.
    pub fn register(&mut self, plugin_pattern: &str, hook: Arc<dyn CallHook>)
        ensures
            final(self).counters() == old(self).counters(),
            exists|entry: RegisteredHook, name: Seq<char>, names: Seq<Option<String>>|
                entry.pattern@ == plugin_pattern@ && entry.hook == hook && #[trigger] named(
                    entry,
                    name,
                ) && said_by(old(self).hooks(), plugin_pattern@, names) && final(self).hooks() == (
                #[trigger] without(old(self).hooks(), names, name)).push(entry),
            final(self).hooks().len() > 0,
            final(self).hooks().last().pattern@ == plugin_pattern@,
            final(self).hooks().last().hook == hook,
            forall|other: RegisteredHook|
                other.pattern@ != plugin_pattern@ && #[trigger] old(self).hooks().contains(other)
                    ==> final(self).hooks().contains(other),
    {
        let entry = HookEntry::new(plugin_pattern, hook);
        let name = say_name(&*entry.hook);
        assert(named(entry, name@));
        let names = self.names_under(plugin_pattern);
        let ghost before = self.hooks();
        let ghost rest = without(before, names@, name@);
        self.install(entry, name.as_str(), &names);
        proof {
            assert forall|other: RegisteredHook|
                other.pattern@ != plugin_pattern@ && #[trigger] before.contains(
                    other,
                ) implies self.hooks().contains(other) by {
                law_registering_keeps_other_patterns(
                    before,
                    plugin_pattern@,
                    names@,
                    name@,
                    other,
                );
                let k = choose|k: int| 0 <= k < rest.len() && rest[k] == other;
                assert(self.hooks()[k] == other);
            }
        }
    }

    /// The names that the hooks under a pattern say they have.
    fn names_under(&self, pattern: &str) -> (r: Vec<Option<String>>)
        ensures
            said_by(self.hooks(), pattern@, r@),
    {
        let mut names: Vec<Option<String>> = Vec::new();
        let mut i: usize = 0;
        while i < self.entries.len()
            invariant
                i <= self.entries@.len(),
                said_by(self.entries@.take(i as int), pattern@, names@),
            decreases self.entries@.len() - i,
        {
            let name = if same_text(self.entries[i].pattern.as_str(), pattern) {
                Some(say_name(&*self.entries[i].hook))
            } else {
                None
            };
            let ghost before = names@;
            names.push(name);
            proof {
                let more = self.entries@.take(i + 1);
                assert forall|k: int| 0 <= k < more.len() implies if (#[trigger] more[k]).pattern@
                    == pattern@ {
                    names@[k] matches Some(n) && named(more[k], n@)
                } else {
                    names@[k] is None
                } by {
                    if k < i {
                        assert(more[k] == self.entries@.take(i as int)[k]);
                        assert(names@[k] == before[k]);
                    }
                }
            }
            i += 1;
        }
        assert(self.entries@.take(i as int) =~= self.entries@);
        names
    }

    /// Registers a hook of a name, in place of those that said that name.
    pub fn install(&mut self, entry: RegisteredHook, name: &str, names: &Vec<Option<String>>)
        ensures
            final(self).counters() == old(self).counters(),
            final(self).hooks() == without(old(self).hooks(), names@, name@).push(entry),
    {
        let ghost all = self.hooks();
        let total: usize = self.entries.len();
        let mut left: Vec<RegisteredHook> = Vec::new();
        std::mem::swap(&mut left, &mut self.entries);
        let mut rest: Vec<RegisteredHook> = Vec::new();
        let mut done: usize = 0;
        assert(rest@ =~= without(all.take(0), names@, name@));
        assert(left@ =~= all.skip(0));
        while left.len() > 0
            invariant
                0 <= done <= all.len(),
                all.len() == total,
                left@ == all.skip(done as int),
                rest@ == without(all.take(done as int), names@, name@),
            decreases left@.len(),
        {
            assert(all.take(done + 1).drop_last() =~= all.take(done as int));
            assert(all.take(done + 1).last() == all[done as int]);
            let first = left.remove(0);
            assert(left@ =~= all.skip(done + 1));
            let replaced = done < names.len() && match &names[done] {
                Some(n) => same_text(n.as_str(), name),
                None => false,
            };
            if !replaced {
                rest.push(first);
            }
            done += 1;
        }
        assert(all.take(done as int) =~= all);
        rest.push(entry);
        self.entries = rest;
    }

    /// Whether no hook is registered.
    pub fn is_empty(&self) -> (r: bool)
        ensures
            r == (self.hooks().len() == 0),
    {
        self.entries.len() == 0
    }

    /// How many hooks are registered.
    pub fn len(&self) -> (r: usize)
        ensures
            r == self.hooks().len(),
    {
        self.entries.len()
    }

    /// How often hooks were consulted.
    pub fn stats(&self) -> (r: HookStats)
        ensures
            r == self.counters(),
    {
        self.counts
    }

    /// The first hook from a position on that hears of a plugin, or the number of hooks.
    pub fn next_hearing(&self, plugin: &str, from: usize) -> (r: usize)
        requires
            from <= self.hooks().len(),
        ensures
            from <= r <= self.hooks().len(),
            r < self.hooks().len() ==> hears(self.hooks()[r as int].pattern@, plugin@),
            r < self.hooks().len() ==> self.hooks()[r as int].pattern@ == plugin@
                || self.hooks()[r as int].pattern@ == "*"@,
            forall|k: int| from <= k < r ==> !hears(#[trigger] self.hooks()[k].pattern@, plugin@),
            forall|k: int|
                from <= k < r ==> (#[trigger] self.hooks()[k]).pattern@ != plugin@
                    && self.hooks()[k].pattern@ != "*"@,
    {
        let mut i: usize = from;
        while i < self.entries.len()
            invariant
                from <= i <= self.entries@.len(),
                forall|k: int| from <= k < i ==> !hears(#[trigger] self.hooks()[k].pattern@, plugin@),
            decreases self.entries@.len() - i,
        {
            let pattern = self.entries[i].pattern.as_str();
            if same_text(pattern, "*") || same_text(pattern, plugin) {
                return i;
            }
            i += 1;
        }
        i
    }

    /// Takes in what the hook of a name decided: a refusal is counted and ends the consultation.
    pub fn on_decision(&mut self, name: &str, decision: CallDecision) -> (r: Option<CallDecision>)
        ensures
            final(self).hooks() == old(self).hooks(),
            match decision {
                CallDecision::Allow => r is None && final(self).counters() == old(self).counters(),
                CallDecision::Deny(reason) => {
                    &&& r matches Some(CallDecision::Deny(text)) && text@ == refusal_text(
                        name@,
                        reason@,
                    )
                    &&& final(self).counters() == (HookStats {
                        denied_total: old(self).counters().denied_total.wrapping_add(1),
                        ..old(self).counters()
                    })
                },
            },
    {
        match decision {
            CallDecision::Allow => None,
            CallDecision::Deny(reason) => {
                self.counts.denied_total = self.counts.denied_total.wrapping_add(1);
                let mut s = name.to_owned();
                s.append(": ");
                s.append(reason.as_str());
                Some(CallDecision::Deny(s))
            },
        }
    }

    /// Asks the hooks that hear of the plugin, in order. The first refusal counts and keeps the
    /// later hooks from being asked.
    pub fn before(&mut self, ctx: &CallCtx) -> (r: CallDecision)
        ensures
            final(self).hooks() == old(self).hooks(),
            exists|decisions: Seq<CallDecision>| #[trigger]
                consulted(old(self).hooks(), *ctx, decisions, r),
            final(self).counters() == (HookStats {
                before_total: old(self).counters().before_total.wrapping_add(1),
                denied_total: if r is Deny {
                    old(self).counters().denied_total.wrapping_add(1)
                } else {
                    old(self).counters().denied_total
                },
                ..old(self).counters()
            }),
    {
        let ghost all = self.hooks();
        self.counts.before_total = self.counts.before_total.wrapping_add(1);
        let ghost counted = self.counters();
        let mut i: usize = 0;
        while i < self.entries.len()
            invariant
                i <= all.len(),
                self.hooks() == all,
                all == old(self).hooks(),
                self.counters() == counted,
                counted == (HookStats {
                    before_total: old(self).counters().before_total.wrapping_add(1),
                    ..old(self).counters()
                }),
                forall|k: int|
                    0 <= k < i && hears((#[trigger] all[k]).pattern@, ctx.plugin@) ==> decides(
                        all[k],
                        *ctx,
                        CallDecision::Allow,
                    ),
            decreases all.len() - i,
        {
            i = self.next_hearing(ctx.plugin.as_str(), i);
            if i < self.entries.len() {
                let decision = ask_hook(&*self.entries[i].hook, ctx);
                assert(decides(all[i as int], *ctx, decision));
                let ghost decisions = Seq::new(i as nat, |k: int| CallDecision::Allow).push(decision);
                if let CallDecision::Deny(_) = &decision {
                    let name = say_name(&*self.entries[i].hook);
                    assert(named(all[i as int], name@));
                    if let Some(refusal) = self.on_decision(name.as_str(), decision) {
                        assert(consulted(all, *ctx, decisions, refusal));
                        return refusal;
                    }
                }
                i += 1;
            }
        }
        proof {
            let decisions = Seq::new(all.len(), |k: int| CallDecision::Allow);
            assert(consulted(all, *ctx, decisions, CallDecision::Allow));
        }
        CallDecision::Allow
    }

    /// Tells the hooks that hear of the plugin how a call ended.
    pub fn after(&mut self, ctx: &CallCtx, outcome: &CallOutcome)
        ensures
            final(self).hooks() == old(self).hooks(),
            forall|k: int|
                0 <= k < old(self).hooks().len() && hears(
                    (#[trigger] old(self).hooks()[k]).pattern@,
                    ctx.plugin@,
                ) ==> told(old(self).hooks()[k], *ctx, *outcome),
            final(self).counters() == (HookStats {
                after_total: old(self).counters().after_total.wrapping_add(1),
                ..old(self).counters()
            }),
    {
        let ghost all = self.hooks();
        self.counts.after_total = self.counts.after_total.wrapping_add(1);
        let mut i: usize = 0;
        while i < self.entries.len()
            invariant
                i <= all.len(),
                self.hooks() == all,
                all == old(self).hooks(),
                self.counters() == (HookStats {
                    after_total: old(self).counters().after_total.wrapping_add(1),
                    ..old(self).counters()
                }),
                forall|k: int|
                    0 <= k < i && hears((#[trigger] all[k]).pattern@, ctx.plugin@) ==> told(
                        all[k],
                        *ctx,
                        *outcome,
                    ),
            decreases all.len() - i,
        {
            i = self.next_hearing(ctx.plugin.as_str(), i);
            if i < self.entries.len() {
                tell_hook(&*self.entries[i].hook, ctx, outcome);
                assert(told(all[i as int], *ctx, *outcome));
                i += 1;
            }
        }
    }
}

impl Default for HookRegistry {
    /// A registry without hooks.
    fn default() -> (r: Self)
        ensures
            r.hooks() == Seq::<RegisteredHook>::empty(),
            r.counters() == (HookStats { before_total: 0, denied_total: 0, after_total: 0 }),
    {
        HookRegistry::new()
    }
}

/// Hooks fail closed: a call is allowed only where every hook that hears of the plugin allowed it,
/// and one that was asked and refused has the call refused.
pub proof fn law_one_refusal_refuses_the_call(
    entries: Seq<RegisteredHook>,
    ctx: CallCtx,
    decisions: Seq<CallDecision>,
    result: CallDecision,
)
    requires
        consulted(entries, ctx, decisions, result),
    ensures
        result is Allow ==> forall|i: int|
            0 <= i < entries.len() && hears((#[trigger] entries[i]).pattern@, ctx.plugin@) ==> decides(
                entries[i],
                ctx,
                CallDecision::Allow,
            ),
        forall|i: int|
            0 <= i < decisions.len() && (#[trigger] decisions[i]) is Deny ==> result is Deny,
{
    if result is Allow {
        assert forall|i: int|
            0 <= i < entries.len() && hears((#[trigger] entries[i]).pattern@, ctx.plugin@) implies decides(
            entries[i],
            ctx,
            CallDecision::Allow,
        ) by {
            assert(decisions[i] is Allow);
        }
    }
}

/// What a hook may decide, may say and was told is what its own methods may answer.
pub proof fn law_hooks_speak_for_themselves<H: CallHook + ?Sized>(
    hook: &H,
    ctx: CallCtx,
    outcome: CallOutcome,
    decision: CallDecision,
    name: Seq<char>,
)
    ensures
        may_decide(hook, ctx, decision) ==> call_ensures(H::before, (hook, &ctx), decision),
        was_told(hook, ctx, outcome) ==> call_ensures(H::after, (hook, &ctx, &outcome), ()),
        may_say_name(hook, name) ==> exists|said: &str|
            said@ == name && #[trigger] call_ensures(H::name, (hook,), said),
{
}

/// A hook whose pattern is the name of the calling plugin, or `*`, is asked before the call unless
/// an earlier one refused: a call that is let through was let through by each of them.
pub proof fn law_hooks_of_the_plugin_are_asked(
    registry: &mut HookRegistry,
    ctx: CallCtx,
    result: CallDecision,
    i: int,
)
    requires
        call_ensures(HookRegistry::before, (registry, &ctx), result),
        0 <= i < old(registry).hooks().len(),
        old(registry).hooks()[i].pattern@ == ctx.plugin@ || old(registry).hooks()[i].pattern@ == "*"@,
    ensures
        result is Allow ==> may_decide(&*old(registry).hooks()[i].hook, ctx, CallDecision::Allow),
        final(registry).hooks() == old(registry).hooks(),
{
    let entries = old(registry).hooks();
    let decisions = choose|decisions: Seq<CallDecision>| #[trigger]
        consulted(entries, ctx, decisions, result);
    law_one_refusal_refuses_the_call(entries, ctx, decisions, result);
    assert(hears(entries[i].pattern@, ctx.plugin@));
    if result is Allow {
        assert(decides(entries[i], ctx, CallDecision::Allow));
    }
}

/// A refused call was refused by a hook whose pattern is the name of the calling plugin, or `*`:
/// the reason that the plugin gets is the name of that hook and its reason, and those before it
/// had let the call through.
pub proof fn law_a_refusal_names_its_hook(
    registry: &mut HookRegistry,
    ctx: CallCtx,
    text: String,
) -> (r: (int, Seq<char>, String))
    requires
        call_ensures(HookRegistry::before, (registry, &ctx), CallDecision::Deny(text)),
    ensures
        ({
            let (i, name, reason) = r;
            let entries = old(registry).hooks();
            &&& 0 <= i < entries.len()
            &&& entries[i].pattern@ == ctx.plugin@ || entries[i].pattern@ == "*"@
            &&& may_decide(&*entries[i].hook, ctx, CallDecision::Deny(reason))
            &&& may_say_name(&*entries[i].hook, name)
            &&& text@ == name + ": "@ + reason@
            &&& forall|k: int|
                0 <= k < i && ((#[trigger] entries[k]).pattern@ == ctx.plugin@ || entries[k].pattern@
                    == "*"@) ==> may_decide(&*entries[k].hook, ctx, CallDecision::Allow)
        }),
{
    let entries = old(registry).hooks();
    let result = CallDecision::Deny(text);
    let decisions = choose|decisions: Seq<CallDecision>| #[trigger]
        consulted(entries, ctx, decisions, result);
    let i = decisions.len() - 1;
    let reason = decisions[i]->Deny_0;
    let name = choose|name: Seq<char>|
        named(entries[i], name) && text@ == #[trigger] refusal_text(name, reason@);
    assert(decides(entries[i], ctx, decisions[i]));
    assert forall|k: int|
        0 <= k < i && ((#[trigger] entries[k]).pattern@ == ctx.plugin@ || entries[k].pattern@
            == "*"@) implies may_decide(&*entries[k].hook, ctx, CallDecision::Allow) by {
        assert(decisions[k] is Allow);
        assert(decides(entries[k], ctx, decisions[k]));
    }
    (i, name, reason)
}

/// A hook whose pattern is the name of the calling plugin, or `*`, is told how the call ended.
pub proof fn law_hooks_of_the_plugin_are_told(
    registry: &mut HookRegistry,
    ctx: CallCtx,
    outcome: CallOutcome,
    i: int,
)
    requires
        call_ensures(HookRegistry::after, (registry, &ctx, &outcome), ()),
        0 <= i < old(registry).hooks().len(),
        old(registry).hooks()[i].pattern@ == ctx.plugin@ || old(registry).hooks()[i].pattern@ == "*"@,
    ensures
        was_told(&*old(registry).hooks()[i].hook, ctx, outcome),
        final(registry).hooks() == old(registry).hooks(),
{
    let entries = old(registry).hooks();
    assert(hears(entries[i].pattern@, ctx.plugin@));
    assert(told(entries[i], ctx, outcome));
}

/// Every call that hooks are consulted on is counted once, and once more where it is refused.
pub proof fn law_consultations_are_counted(registry: &mut HookRegistry, ctx: CallCtx, result: CallDecision)
    requires
        call_ensures(HookRegistry::before, (registry, &ctx), result),
        old(registry).counters().before_total < u64::MAX,
        old(registry).counters().denied_total < u64::MAX,
    ensures
        final(registry).counters().before_total == old(registry).counters().before_total + 1,
        final(registry).counters().denied_total == old(registry).counters().denied_total + (
        if result is Deny {
            1int
        } else {
            0int
        }),
        final(registry).counters().after_total == old(registry).counters().after_total,
{
}

/// A registered hook leaves those under another pattern alone, and brings none back.
pub proof fn law_registering_keeps_other_patterns(
    entries: Seq<RegisteredHook>,
    pattern: Seq<char>,
    names: Seq<Option<String>>,
    name: Seq<char>,
    other: RegisteredHook,
)
    requires
        said_by(entries, pattern, names),
    ensures
        entries.contains(other) && other.pattern@ != pattern ==> without(
            entries,
            names,
            name,
        ).contains(other),
        without(entries, names, name).contains(other) ==> entries.contains(other),
{
    law_registering_replaces(entries, names, name, other);
    if entries.contains(other) && other.pattern@ != pattern {
        let i = choose|i: int| 0 <= i < entries.len() && entries[i] == other;
        assert(entries[i].pattern@ != pattern);
        assert(!said(names, i, name));
    }
}

/// Registering replaces exactly the hooks that said the name: the others stay, in their order.
pub proof fn law_registering_replaces(
    entries: Seq<RegisteredHook>,
    names: Seq<Option<String>>,
    name: Seq<char>,
    other: RegisteredHook,
)
    ensures
        without(entries, names, name).contains(other) <==> exists|i: int|
            0 <= i < entries.len() && entries[i] == other && !(#[trigger] said(names, i, name)),
    decreases entries.len(),
{
    if entries.len() > 0 {
        let init = entries.drop_last();
        let last = entries.len() - 1;
        let rest = without(init, names, name);
        let out = without(entries, names, name);
        law_registering_replaces(init, names, name, other);
        assert(out == rest || out == rest.push(entries.last()));
        if out.contains(other) {
            let k = choose|k: int| 0 <= k < out.len() && out[k] == other;
            if k < rest.len() {
                assert(rest[k] == other);
                let i = choose|i: int|
                    0 <= i < init.len() && init[i] == other && !(#[trigger] said(names, i, name));
                assert(entries[i] == other);
            } else {
                assert(!said(names, last, name));
            }
        }
        if exists|i: int|
            0 <= i < entries.len() && entries[i] == other && !(#[trigger] said(names, i, name)) {
            let i = choose|i: int|
                0 <= i < entries.len() && entries[i] == other && !(#[trigger] said(names, i, name));
            if i < last {
                assert(init[i] == other);
                let k = choose|k: int| 0 <= k < rest.len() && rest[k] == other;
                assert(out[k] == other);
            } else {
                assert(out[out.len() - 1] == other);
            }
        }
    }
}

/// Whether a hook never says two names.
pub open spec fn keeps_its_name(entry: RegisteredHook) -> bool {
    forall|a: Seq<char>, b: Seq<char>| #[trigger] named(entry, a) && #[trigger] named(entry, b) ==> a == b
}

/// Where hooks keep their names, of a pattern and name there is one hook after a registration: the
/// new one.
pub proof fn law_one_hook_of_a_name(
    entries: Seq<RegisteredHook>,
    pattern: Seq<char>,
    names: Seq<Option<String>>,
    name: Seq<char>,
    other: RegisteredHook,
)
    requires
        said_by(entries, pattern, names),
        without(entries, names, name).contains(other),
        keeps_its_name(other),
        other.pattern@ == pattern,
    ensures
        !named(other, name),
{
    law_registering_replaces(entries, names, name, other);
    let i = choose|i: int|
        0 <= i < entries.len() && entries[i] == other && !(#[trigger] said(names, i, name));
    assert(entries[i].pattern@ == pattern);
}

/// Operations are named alike for hooks, counts and audits, and those that change something are told
/// apart from those that only read or keep alive.
pub proof fn law_operations_have_names(op: CallOp, name: &'static str, write: bool)
    requires
        call_ensures(CallOp::as_str, (op,), name),
        call_ensures(CallOp::is_write, (op,), write),
    ensures
        op is KvPut ==> name@ == "kv_put"@ && write,
        op is KvCreate ==> name@ == "kv_create"@ && write,
        op is KvDelete ==> name@ == "kv_delete"@ && write,
        op is KvGet ==> name@ == "kv_get"@ && !write,
        op is KvRange ==> name@ == "kv_range"@ && !write,
        op is Txn ==> name@ == "txn"@ && write,
        op is LeaseGrant ==> name@ == "lease_grant"@ && write,
        op is LeaseRevoke ==> name@ == "lease_revoke"@ && write,
        op is LeaseKeepAlive ==> name@ == "lease_keepalive"@ && !write,
        op is StoragePut ==> name@ == "storage_put"@ && write,
        op is StorageDelete ==> name@ == "storage_delete"@ && write,
        op is StorageGet ==> name@ == "storage_get"@ && !write,
{
}

/// A call ended well exactly where it has an answer, and otherwise with the class of its failure.
pub proof fn law_outcomes_tell_how_a_call_ended<T>(result: Result<T, SdkError>, r: CallOutcome)
    requires
        call_ensures(CallOutcome::from_result::<T>, (&result,), r),
    ensures
        r.ok <==> result is Ok,
        result is Ok ==> r.error_code is None,
        result matches Err(e) ==> r.error_code == Some(e.code),
{
}

/// A hook's refusal is counted, and the caller learns which hook refused and why.
pub proof fn law_refusals_are_counted(
    registry: &mut HookRegistry,
    name: &str,
    decision: CallDecision,
    r: Option<CallDecision>,
    before: HookRegistry,
    after: HookRegistry,
    was: HookStats,
    now: HookStats,
)
    requires
        call_ensures(HookRegistry::on_decision, (registry, name, decision), r),
        before == *old(registry),
        after == *final(registry),
        call_ensures(HookRegistry::stats, (&before,), was),
        call_ensures(HookRegistry::stats, (&after,), now),
    ensures
        decision is Allow ==> r is None && now == was,
        decision matches CallDecision::Deny(why) ==> (r matches Some(d) && (d matches CallDecision::Deny(
            text,
        ) && text@ == name@ + ": "@ + why@)) && now.denied_total == was.denied_total.wrapping_add(1),
{
}

} // verus!
