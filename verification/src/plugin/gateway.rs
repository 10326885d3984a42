//! The gateway in front of all requests: watched paths, hooks and refusals.
use crate::name_map::NameMap;
use crate::status::{CallStatus, StatusCode};
use crate::text::{same_text, to_ascii_lowercase};
use std::sync::Arc;
use vstd::prelude::*;

verus! {

/// Who a request comes from.
#[derive(Debug, PartialEq, Eq)]
pub struct GatewayIdentity {
    pub subject: String,
    pub roles: Vec<String>,
}

impl Clone for GatewayIdentity {
    fn clone(&self) -> (r: Self)
        ensures
            r.subject == self.subject,
            r.roles@ == self.roles@,
    {
        let mut roles: Vec<String> = Vec::new();
        let mut i: usize = 0;
        while i < self.roles.len()
            invariant
                i <= self.roles@.len(),
                roles@ == self.roles@.take(i as int),
            decreases self.roles@.len() - i,
        {
            roles.push(self.roles[i].clone());
            assert(self.roles@.take(i + 1) =~= self.roles@.take(i as int).push(
                self.roles@[i as int],
            ));
            i += 1;
        }
        assert(roles@ =~= self.roles@);
        GatewayIdentity { subject: self.subject.clone(), roles }
    }
}

impl Default for GatewayIdentity {
    /// Nobody, with no roles.
    fn default() -> (r: Self)
        ensures
            r.subject@ == Seq::<char>::empty(),
            r.roles@ == Seq::<String>::empty(),
    {
        GatewayIdentity { subject: String::new(), roles: Vec::new() }
    }
}

/// A request as hooks see it.
#[derive(Debug, Clone)]
pub struct GatewayRequestCtx {
    /// Path of the method, such as `/coord.kv.KV/Put`.
    pub path: String,
    pub method: String,
    /// Headers with lower-case names.
    pub headers: Vec<(String, String)>,
    /// The body, where it was buffered.
    pub body_prefix: Option<Vec<u8>>,
    pub identity: GatewayIdentity,
}

/// Whether a header of that name stands at a position, and none before it.
pub open spec fn first_header(headers: Seq<(String, String)>, name: Seq<char>, i: int) -> bool {
    &&& 0 <= i < headers.len()
    &&& headers[i].0@ == name
    &&& forall|k: int| 0 <= k < i ==> (#[trigger] headers[k]).0@ != name
}

impl GatewayRequestCtx {
    /// The first header of a name.
    pub fn header(&self, name: &str) -> (r: Option<&str>)
        ensures
            match r {
                Some(v) => exists|i: int|
                    #[trigger] first_header(self.headers@, name@, i) && v@ == self.headers@[i].1@,
                None => forall|i: int|
                    0 <= i < self.headers@.len() ==> (#[trigger] self.headers@[i]).0@ != name@,
            },
    {
        let mut i: usize = 0;
        while i < self.headers.len()
            invariant
                i <= self.headers@.len(),
                forall|k: int| 0 <= k < i ==> (#[trigger] self.headers@[k]).0@ != name@,
            decreases self.headers@.len() - i,
        {
            if same_text(self.headers[i].0.as_str(), name) {
                assert(first_header(self.headers@, name@, i as int));
                return Some(self.headers[i].1.as_str());
            }
            i += 1;
        }
        None
    }

    /// Length of the buffered body; 0 where none was buffered.
    pub fn body_len(&self) -> (r: usize)
        ensures
            r == match self.body_prefix {
                Some(b) => b@.len(),
                None => 0,
            },
    {
        match &self.body_prefix {
            Some(b) => b.len(),
            None => 0,
        }
    }
}

impl Default for GatewayRequestCtx {
    /// A request without anything, from nobody.
    fn default() -> (r: Self)
        ensures
            r.path@ == Seq::<char>::empty(),
            r.method@ == Seq::<char>::empty(),
            r.headers@ == Seq::<(String, String)>::empty(),
            r.body_prefix is None,
            r.identity.subject@ == Seq::<char>::empty(),
            r.identity.roles@ == Seq::<String>::empty(),
    {
        GatewayRequestCtx {
            path: String::new(),
            method: String::new(),
            headers: Vec::new(),
            body_prefix: None,
            identity: GatewayIdentity::default(),
        }
    }
}

/// Parts of a request before they are put into a context: a header's value is missing where it
/// is not text, and the identity where nobody was authenticated.
#[derive(Debug)]
pub struct RequestParts {
    pub path: String,
    pub method: String,
    pub headers: Vec<(String, Option<String>)>,
    pub identity: Option<GatewayIdentity>,
}

/// The context of a request.
pub fn ctx_from_parts(parts: RequestParts, body: Option<Vec<u8>>) -> (r: GatewayRequestCtx)
    ensures
        r.path == parts.path,
        r.method == parts.method,
        r.body_prefix == body,
        r.headers@.len() == parts.headers@.len(),
        forall|i: int|
            0 <= i < r.headers@.len() ==> (#[trigger] r.headers@[i]).0@
                == crate::text::ascii_lowercase(parts.headers@[i].0@) && r.headers@[i].1@
                == match parts.headers@[i].1 {
                Some(v) => v@,
                None => Seq::<char>::empty(),
            },
        match parts.identity {
            Some(id) => r.identity == id,
            None => r.identity.subject@.len() == 0 && r.identity.roles@.len() == 0,
        },
{
    let mut headers: Vec<(String, String)> = Vec::new();
    let mut i: usize = 0;
    while i < parts.headers.len()
        invariant
            i <= parts.headers@.len(),
            headers@.len() == i,
            forall|k: int|
                0 <= k < i ==> (#[trigger] headers@[k]).0@ == crate::text::ascii_lowercase(
                    parts.headers@[k].0@,
                ) && headers@[k].1@ == match parts.headers@[k].1 {
                    Some(v) => v@,
                    None => Seq::<char>::empty(),
                },
        decreases parts.headers@.len() - i,
    {
        let name = to_ascii_lowercase(parts.headers[i].0.as_str());
        let value = match &parts.headers[i].1 {
            Some(v) => v.clone(),
            None => String::new(),
        };
        headers.push((name, value));
        i += 1;
    }
    let identity = match parts.identity {
        Some(id) => id,
        None => GatewayIdentity::default(),
    };
    GatewayRequestCtx {
        path: parts.path,
        method: parts.method,
        headers,
        body_prefix: body,
        identity,
    }
}

/// What a gateway hook decides.
#[derive(Debug, Clone, PartialEq, Eq)]
pub enum GatewayDecision {
    Allow,
    /// Refused; without a code the request is answered as not permitted.
    Deny { reason: String, code: Option<StatusCode> },
}

impl GatewayDecision {
    /// A refusal as not permitted.
    pub fn deny(reason: &str) -> (r: Self)
        ensures
            r matches GatewayDecision::Deny { reason: text, code } && text@ == reason@ && code is None,
    {
        GatewayDecision::Deny { reason: reason.to_owned(), code: None }
    }

    /// A refusal with a code.
    pub fn deny_with(code: StatusCode, reason: &str) -> (r: Self)
        ensures
            r matches GatewayDecision::Deny { reason: text, code: given } && text@ == reason@ && given
                == Some(code),
    {
        GatewayDecision::Deny { reason: reason.to_owned(), code: Some(code) }
    }
}

/// A hook on requests.
pub trait GatewayHook: Send + Sync + 'static {
    /// Name of the hook.
    fn name(&self) -> (r: &str);

    /// Whether the hook looks at the body.
    fn wants_body(&self) -> (r: bool) {
        false
    }

    /// Decides on a request before it is routed.
    fn before(&self, _ctx: &GatewayRequestCtx) -> (r: GatewayDecision) {
        GatewayDecision::Allow
    }

    /// Observes the status of a response.
    fn after(&self, _ctx: &GatewayRequestCtx, _status: u16) {
    }
}

/// Whether a hook may say that it has a name.
pub open spec fn may_say_name<H: GatewayHook + ?Sized>(hook: &H, name: Seq<char>) -> bool {
    exists|said: &str| said@ == name && #[trigger] call_ensures(H::name, (hook,), said)
}

/// Whether a hook may say so of its interest in the body.
pub open spec fn may_want<H: GatewayHook + ?Sized>(hook: &H, body: bool) -> bool {
    call_ensures(H::wants_body, (hook,), body)
}

/// Whether a hook that is asked about a request may decide so.
pub open spec fn may_decide<H: GatewayHook + ?Sized>(
    hook: &H,
    ctx: GatewayRequestCtx,
    decision: GatewayDecision,
) -> bool {
    call_ensures(H::before, (hook, &ctx), decision)
}

/// Whether a hook was told the status of a response.
pub open spec fn was_told<H: GatewayHook + ?Sized>(
    hook: &H,
    ctx: GatewayRequestCtx,
    status: u16,
) -> bool {
    call_ensures(H::after, (hook, &ctx, status), ())
}

fn say_name<H: GatewayHook + ?Sized>(hook: &H) -> (r: String)
    ensures
        may_say_name(hook, r@),
{
    let said = hook.name();
    assert(call_ensures(H::name, (hook,), said));
    said.to_owned()
}

fn looks_at_body<H: GatewayHook + ?Sized>(hook: &H) -> (r: bool)
    ensures
        may_want(hook, r),
{
    hook.wants_body()
}

fn ask_hook<H: GatewayHook + ?Sized>(hook: &H, ctx: &GatewayRequestCtx) -> (r: GatewayDecision)
    ensures
        may_decide(hook, *ctx, r),
{
    hook.before(ctx)
}

fn tell_hook<H: GatewayHook + ?Sized>(hook: &H, ctx: &GatewayRequestCtx, status: u16)
    ensures
        was_told(hook, *ctx, status),
{
    hook.after(ctx, status)
}

/// A hook in the list of hooks.
pub struct HookEntry<H> {
    pub hook: H,
}

impl<H> HookEntry<H> {
    /// A hook for the list.
    pub fn new(hook: H) -> (r: Self)
        ensures
            r.hook == hook,
    {
        HookEntry { hook }
    }
}

/// A registered gateway hook.
pub type RegisteredGatewayHook = HookEntry<Arc<dyn GatewayHook>>;

/// Whether a registered hook may say that it has a name.
pub open spec fn named(hook: RegisteredGatewayHook, name: Seq<char>) -> bool {
    may_say_name(&*hook.hook, name)
}

/// Whether a registered hook may say so of its interest in the body.
pub open spec fn wants(hook: RegisteredGatewayHook, body: bool) -> bool {
    may_want(&*hook.hook, body)
}

/// Whether a registered hook that is asked about a request may decide so.
pub open spec fn decides(
    hook: RegisteredGatewayHook,
    ctx: GatewayRequestCtx,
    decision: GatewayDecision,
) -> bool {
    may_decide(&*hook.hook, ctx, decision)
}

/// Whether a registered hook was told the status of a response.
pub open spec fn told(hook: RegisteredGatewayHook, ctx: GatewayRequestCtx, status: u16) -> bool {
    was_told(&*hook.hook, ctx, status)
}

/// Whether the hooks answered so whether some of them looks at the body: one did, or none.
pub open spec fn body_wanted(hooks: Seq<RegisteredGatewayHook>, body: bool) -> bool {
    if body {
        exists|i: int| 0 <= i < hooks.len() && wants(#[trigger] hooks[i], true)
    } else {
        forall|i: int| 0 <= i < hooks.len() ==> wants(#[trigger] hooks[i], false)
    }
}

/// Whether the hooks were consulted on a request with that result: they were asked in order up
/// to the first that refused, whose refusal is the result; where none refused, all were asked.
pub open spec fn consulted(
    hooks: Seq<RegisteredGatewayHook>,
    ctx: GatewayRequestCtx,
    decisions: Seq<GatewayDecision>,
    result: GatewayDecision,
) -> bool {
    &&& decisions.len() <= hooks.len()
    &&& forall|i: int|
        0 <= i < decisions.len() ==> decides(hooks[i], ctx, #[trigger] decisions[i])
    &&& forall|i: int| 0 <= i < decisions.len() - 1 ==> (#[trigger] decisions[i]) is Allow
    &&& match result {
        GatewayDecision::Allow => decisions.len() == hooks.len() && (decisions.len() > 0
            ==> decisions.last() is Allow),
        GatewayDecision::Deny { .. } => decisions.len() > 0 && decisions.last() == result,
    }
}

/// Whether names are what hooks said, one each.
pub open spec fn said_by(hooks: Seq<RegisteredGatewayHook>, names: Seq<String>) -> bool {
    &&& names.len() == hooks.len()
    &&& forall|i: int| 0 <= i < hooks.len() ==> named(#[trigger] hooks[i], names[i]@)
}

/// Whether a hook said a name.
pub open spec fn said(names: Seq<String>, i: int, name: Seq<char>) -> bool {
    0 <= i < names.len() && names[i]@ == name
}

/// The hooks that did not say a name, in order.
pub open spec fn without(
    hooks: Seq<RegisteredGatewayHook>,
    names: Seq<String>,
    name: Seq<char>,
) -> Seq<RegisteredGatewayHook>
    decreases hooks.len(),
{
    if hooks.len() == 0 {
        Seq::empty()
    } else {
        let rest = without(hooks.drop_last(), names, name);
        if said(names, hooks.len() - 1, name) {
            rest
        } else {
            rest.push(hooks.last())
        }
    }
}

/// Counters of the gateway.
#[derive(Debug, Clone, Copy, PartialEq, Eq, Structural)]
pub struct GatewayCounts {
    pub requests_total: u64,
    pub denied_total: u64,
}

/// What becomes of a request at the gateway.
#[derive(Debug, Clone, Copy, PartialEq, Eq, Structural)]
pub enum GatewayRoute {
    /// Straight through: nothing is counted and nobody is asked.
    Passthrough,
    /// Counted and passed on.
    Observe,
    /// Buffered first, as a hook looks at the body, and then judged.
    Buffer,
    /// Judged as it is.
    Judge,
}

/// Whether hooks hear of the response to a request that was passed on.
pub open spec fn response_observed(route: GatewayRoute) -> bool {
    !(route is Passthrough)
}

/// The answer to a judged request.
#[derive(Debug, PartialEq, Eq)]
pub enum GatewayVerdict {
    /// Pass it on.
    Forward,
    /// Answer it with a status.
    Refuse(CallStatus),
}

/// Counts of watched paths after a request for a path.
pub open spec fn counted(paths: Map<Seq<char>, u64>, path: Seq<char>) -> Map<Seq<char>, u64> {
    if paths.dom().contains(path) {
        paths.insert(path, paths[path].wrapping_add(1))
    } else {
        paths
    }
}

/// Registry and counters of the gateway.
pub struct PluginGateway {
    hooks: Vec<RegisteredGatewayHook>,
    paths: NameMap<u64>,
    counts: GatewayCounts,
}

impl PluginGateway {
    /// The hooks, in order of registration.
    pub closed spec fn hook_list(&self) -> Seq<RegisteredGatewayHook> {
        self.hooks@
    }

    /// Requests per watched path.
    pub closed spec fn watched(&self) -> Map<Seq<char>, u64> {
        self.paths@
    }

    /// The counters.
    pub closed spec fn counters(&self) -> GatewayCounts {
        self.counts
    }

    /// A gateway that lets everything through.
    pub fn new() -> (r: Self)
        ensures
            r.hook_list() == Seq::<RegisteredGatewayHook>::empty(),
            r.watched() == Map::<Seq<char>, u64>::empty(),
            r.counters() == (GatewayCounts { requests_total: 0, denied_total: 0 }),
    {
        PluginGateway {
            hooks: Vec::new(),
            paths: NameMap::new(),
            counts: GatewayCounts { requests_total: 0, denied_total: 0 },
        }
    }

    /// Registers a hook, in place of those that say the same name.
    pub fn register_hook(&mut self, hook: Arc<dyn GatewayHook>)
        ensures
            final(self).counters() == old(self).counters(),
            final(self).watched() == old(self).watched(),
            exists|entry: RegisteredGatewayHook, name: Seq<char>, names: Seq<String>|
                entry.hook == hook && #[trigger] named(entry, name) && said_by(
                    old(self).hook_list(),
                    names,
                ) && final(self).hook_list() == (#[trigger] without(
                    old(self).hook_list(),
                    names,
                    name,
                )).push(entry),
            final(self).hook_list().len() > 0,
            final(self).hook_list().last().hook == hook,
    {
        let entry = HookEntry::new(hook);
        let name = say_name(&*entry.hook);
        assert(named(entry, name@));
        let names = self.hook_names();
        self.install_hook(entry, name.as_str(), &names);
    }

    /// The names that the hooks say they have.
    fn hook_names(&self) -> (r: Vec<String>)
        ensures
            said_by(self.hook_list(), r@),
    {
        let mut names: Vec<String> = Vec::new();
        let mut i: usize = 0;
        while i < self.hooks.len()
            invariant
                i <= self.hooks@.len(),
                names@.len() == i,
                forall|k: int| 0 <= k < i ==> named(#[trigger] self.hooks@[k], names@[k]@),
            decreases self.hooks@.len() - i,
        {
            names.push(say_name(&*self.hooks[i].hook));
            assert(named(self.hooks@[i as int], names@[i as int]@));
            i += 1;
        }
        names
    }

    /// Registers a hook of a name, in place of those that said that name.
    pub fn install_hook(&mut self, entry: RegisteredGatewayHook, name: &str, names: &Vec<String>)
        ensures
            final(self).counters() == old(self).counters(),
            final(self).watched() == old(self).watched(),
            final(self).hook_list() == without(old(self).hook_list(), names@, name@).push(entry),
    {
        let ghost all = self.hook_list();
        let total: usize = self.hooks.len();
        let mut left: Vec<RegisteredGatewayHook> = Vec::new();
        std::mem::swap(&mut left, &mut self.hooks);
        let mut rest: Vec<RegisteredGatewayHook> = Vec::new();
        let mut done: usize = 0;
        assert(rest@ =~= without(all.take(0), names@, name@));
        assert(left@ =~= all.skip(0));
        while left.len() > 0
            invariant
                0 <= done <= all.len(),
                all.len() == total,
                left@ == all.skip(done as int),
                rest@ == without(all.take(done as int), names@, name@),
            decreases left@.len(),
        {
            assert(all.take(done + 1).drop_last() =~= all.take(done as int));
            assert(all.take(done + 1).last() == all[done as int]);
            let first = left.remove(0);
            assert(left@ =~= all.skip(done + 1));
            if !(done < names.len() && same_text(names[done].as_str(), name)) {
                rest.push(first);
            }
            done += 1;
        }
        assert(all.take(done as int) =~= all);
        rest.push(entry);
        self.hooks = rest;
    }

    /// How many hooks are registered.
    pub fn hook_count(&self) -> (r: usize)
        ensures
            r == self.hook_list().len(),
    {
        self.hooks.len()
    }

    /// Whether requests go straight through: no hook and no watched path.
    pub fn is_passthrough(&self) -> (r: bool)
        ensures
            r == (self.hook_list().len() == 0 && self.watched() == Map::<Seq<char>, u64>::empty()),
    {
        proof {
            use_type_invariant(&self.paths);
            self.paths.lemma_listing();
            if self.paths.keys().len() == 0 {
                assert(self.watched() =~= Map::<Seq<char>, u64>::empty());
            } else {
                assert(self.watched().dom().contains(self.paths.keys()[0]));
            }
        }
        self.hooks.len() == 0 && self.paths.is_empty()
    }

    /// Watches a path. A path that is watched keeps its count.
    pub fn watch_path(&mut self, path: &str)
        ensures
            final(self).counters() == old(self).counters(),
            final(self).hook_list() == old(self).hook_list(),
            final(self).watched() == if old(self).watched().dom().contains(path@) {
                old(self).watched()
            } else {
                old(self).watched().insert(path@, 0)
            },
    {
        if !self.paths.contains(path) {
            let _ = self.paths.insert(path.to_owned(), 0);
        }
    }

    /// Requests that were counted.
    pub fn requests_total(&self) -> (r: u64)
        ensures
            r == self.counters().requests_total,
    {
        self.counts.requests_total
    }

    /// Requests that hooks refused.
    pub fn denied_total(&self) -> (r: u64)
        ensures
            r == self.counters().denied_total,
    {
        self.counts.denied_total
    }

    /// Requests for a watched path.
    pub fn path_count(&self, path: &str) -> (r: Option<u64>)
        ensures
            r is Some <==> self.watched().dom().contains(path@),
            r matches Some(n) ==> n == self.watched()[path@],
    {
        match self.paths.get(path) {
            Some(n) => Some(*n),
            None => None,
        }
    }

    /// Whether some hook looks at the body.
    pub fn needs_body(&self) -> (r: bool)
        ensures
            body_wanted(self.hook_list(), r),
    {
        let mut i: usize = 0;
        while i < self.hooks.len()
            invariant
                i <= self.hooks@.len(),
                forall|k: int| 0 <= k < i ==> wants(#[trigger] self.hook_list()[k], false),
            decreases self.hooks@.len() - i,
        {
            let body: bool = looks_at_body(&*self.hooks[i].hook);
            assert(wants(self.hook_list()[i as int], body));
            if body {
                return true;
            }
            i += 1;
        }
        false
    }

    /// Counts a request.
    pub fn note_request(&mut self, path: &str)
        ensures
            final(self).hook_list() == old(self).hook_list(),
            final(self).watched() == counted(old(self).watched(), path@),
            final(self).counters() == (GatewayCounts {
                requests_total: old(self).counters().requests_total.wrapping_add(1),
                ..old(self).counters()
            }),
    {
        self.counts.requests_total = self.counts.requests_total.wrapping_add(1);
        let count: Option<u64> = self.path_count(path);
        if let Some(n) = count {
            let _ = self.paths.insert(path.to_owned(), n.wrapping_add(1));
        }
    }

    /// Takes a request in. `wants_body` says whether some hook looks at the body.
    pub fn route(&mut self, path: &str, wants_body: bool) -> (r: GatewayRoute)
        ensures
            final(self).hook_list() == old(self).hook_list(),
            ({
                let straight = old(self).hook_list().len() == 0 && old(self).watched()
                    == Map::<Seq<char>, u64>::empty();
                if straight {
                    r is Passthrough && *final(self) == *old(self)
                } else {
                    &&& final(self).watched() == counted(old(self).watched(), path@)
                    &&& final(self).counters() == (GatewayCounts {
                        requests_total: old(self).counters().requests_total.wrapping_add(1),
                        ..old(self).counters()
                    })
                    &&& r == if old(self).hook_list().len() == 0 {
                        GatewayRoute::Observe
                    } else if wants_body {
                        GatewayRoute::Buffer
                    } else {
                        GatewayRoute::Judge
                    }
                }
            }),
    {
        if self.is_passthrough() {
            return GatewayRoute::Passthrough;
        }
        self.note_request(path);
        if self.hooks.len() == 0 {
            GatewayRoute::Observe
        } else if wants_body {
            GatewayRoute::Buffer
        } else {
            GatewayRoute::Judge
        }
    }

    /// Takes a request in.
    pub fn call(&mut self, path: &str) -> (r: GatewayRoute)
        ensures
            final(self).hook_list() == old(self).hook_list(),
            r is Passthrough <==> old(self).hook_list().len() == 0 && old(self).watched()
                == Map::<Seq<char>, u64>::empty(),
            r is Passthrough ==> *final(self) == *old(self),
            r is Observe <==> old(self).hook_list().len() == 0 && old(self).watched()
                != Map::<Seq<char>, u64>::empty(),
            r is Buffer ==> body_wanted(old(self).hook_list(), true),
            r is Judge ==> body_wanted(old(self).hook_list(), false),
            !(r is Passthrough) ==> final(self).watched() == counted(old(self).watched(), path@),
            !(r is Passthrough) ==> final(self).counters() == (GatewayCounts {
                requests_total: old(self).counters().requests_total.wrapping_add(1),
                ..old(self).counters()
            }),
    {
        let wants_body = self.needs_body();
        self.route(path, wants_body)
    }

    /// Takes in what a hook decided: a refusal is counted and ends the consultation.
    pub fn on_decision(&mut self, decision: &GatewayDecision) -> (r: bool)
        ensures
            r == (*decision is Deny),
            final(self).hook_list() == old(self).hook_list(),
            final(self).watched() == old(self).watched(),
            final(self).counters() == if *decision is Deny {
                GatewayCounts {
                    denied_total: old(self).counters().denied_total.wrapping_add(1),
                    ..old(self).counters()
                }
            } else {
                old(self).counters()
            },
    {
        match decision {
            GatewayDecision::Allow => false,
            GatewayDecision::Deny { .. } => {
                self.counts.denied_total = self.counts.denied_total.wrapping_add(1);
                true
            },
        }
    }

    /// Asks the hooks in order. The first refusal counts and keeps the later hooks from being
    /// asked.
    pub fn evaluate_before(&mut self, ctx: &GatewayRequestCtx) -> (r: GatewayDecision)
        ensures
            final(self).hook_list() == old(self).hook_list(),
            final(self).watched() == old(self).watched(),
            final(self).counters() == if r is Deny {
                GatewayCounts {
                    denied_total: old(self).counters().denied_total.wrapping_add(1),
                    ..old(self).counters()
                }
            } else {
                old(self).counters()
            },
            exists|decisions: Seq<GatewayDecision>| #[trigger]
                consulted(old(self).hook_list(), *ctx, decisions, r),
    {
        let ghost all = self.hook_list();
        let mut i: usize = 0;
        while i < self.hooks.len()
            invariant
                i <= all.len(),
                all == old(self).hook_list(),
                self.hook_list() == all,
                self.watched() == old(self).watched(),
                self.counters() == old(self).counters(),
                forall|k: int|
                    0 <= k < i ==> decides(#[trigger] all[k], *ctx, GatewayDecision::Allow),
            decreases all.len() - i,
        {
            let decision = ask_hook(&*self.hooks[i].hook, ctx);
            assert(decides(all[i as int], *ctx, decision));
            if self.on_decision(&decision) {
                proof {
                    let decisions = Seq::new(i as nat, |k: int| GatewayDecision::Allow).push(decision);
                    assert(consulted(all, *ctx, decisions, decision));
                }
                return decision;
            }
            i += 1;
        }
        proof {
            let decisions = Seq::new(all.len(), |k: int| GatewayDecision::Allow);
            assert(consulted(all, *ctx, decisions, GatewayDecision::Allow));
        }
        GatewayDecision::Allow
    }

    /// Tells all hooks the status of a response.
    pub fn note_after(&self, ctx: &GatewayRequestCtx, status: u16)
        ensures
            forall|k: int|
                0 <= k < self.hook_list().len() ==> told(#[trigger] self.hook_list()[k], *ctx, status),
            forall|k: int|
                0 <= k < self.hook_list().len() ==> was_told(
                    &*(#[trigger] self.hook_list()[k]).hook,
                    *ctx,
                    status,
                ),
    {
        let mut i: usize = 0;
        while i < self.hooks.len()
            invariant
                i <= self.hooks@.len(),
                forall|k: int| 0 <= k < i ==> told(#[trigger] self.hook_list()[k], *ctx, status),
            decreases self.hooks@.len() - i,
        {
            tell_hook(&*self.hooks[i].hook, ctx, status);
            assert(told(self.hook_list()[i as int], *ctx, status));
            i += 1;
        }
    }
}

impl Default for PluginGateway {
    /// A gateway that lets everything through.
    fn default() -> (r: Self)
        ensures
            r.hook_list() == Seq::<RegisteredGatewayHook>::empty(),
            r.watched() == Map::<Seq<char>, u64>::empty(),
            r.counters() == (GatewayCounts { requests_total: 0, denied_total: 0 }),
    {
        PluginGateway::new()
    }
}

/// What a decision answers: an allowed request is passed on, a refused one gets the hook's code,
/// or is answered as not permitted.
pub fn judge(decision: GatewayDecision) -> (r: GatewayVerdict)
    ensures
        match decision {
            GatewayDecision::Allow => r is Forward,
            GatewayDecision::Deny { reason, code } => r matches GatewayVerdict::Refuse(s) && s@
                == crate::status::status(
                match code {
                    Some(c) => c,
                    None => StatusCode::PermissionDenied,
                },
                reason@,
            ),
        },
{
    match decision {
        GatewayDecision::Allow => GatewayVerdict::Forward,
        GatewayDecision::Deny { reason, code } => {
            let code = match code {
                Some(c) => c,
                None => StatusCode::PermissionDenied,
            };
            GatewayVerdict::Refuse(CallStatus::new(code, reason.as_str()))
        },
    }
}

/// The status of a request whose body could not be buffered.
pub fn unbuffered_status(error: &str) -> (r: CallStatus)
    ensures
        r@ == crate::status::status(
            StatusCode::Internal,
            "plugin gateway could not buffer request body: "@ + error@,
        ),
{
    let mut s = "plugin gateway could not buffer request body: ".to_owned();
    s.append(error);
    CallStatus::new(StatusCode::Internal, s.as_str())
}

impl GatewayRoute {
    /// Whether hooks hear of the response to a request that was passed on.
    pub fn observes_response(self) -> (r: bool)
        ensures
            r == response_observed(self),
    {
        match self {
            GatewayRoute::Passthrough => false,
            _ => true,
        }
    }
}

/// The gateway fails closed: a request is allowed only where every hook allowed it, and one hook
/// that was asked and refused has the request refused.
pub proof fn law_one_refusal_refuses_the_request(
    hooks: Seq<RegisteredGatewayHook>,
    ctx: GatewayRequestCtx,
    decisions: Seq<GatewayDecision>,
    result: GatewayDecision,
)
    requires
        consulted(hooks, ctx, decisions, result),
    ensures
        result is Allow ==> forall|i: int|
            0 <= i < hooks.len() ==> decides(#[trigger] hooks[i], ctx, GatewayDecision::Allow),
        forall|i: int|
            0 <= i < decisions.len() && (#[trigger] decisions[i]) is Deny ==> result is Deny,
{
    if result is Allow {
        assert forall|i: int| 0 <= i < hooks.len() implies decides(
            #[trigger] hooks[i],
            ctx,
            GatewayDecision::Allow,
        ) by {
            assert(decisions[i] is Allow);
        }
    }
}

/// Registering replaces exactly the hooks that said the name: the others stay, in their order.
pub proof fn law_registering_replaces(
    hooks: Seq<RegisteredGatewayHook>,
    names: Seq<String>,
    name: Seq<char>,
    other: RegisteredGatewayHook,
)
    ensures
        without(hooks, names, name).contains(other) <==> exists|i: int|
            0 <= i < hooks.len() && hooks[i] == other && !(#[trigger] said(names, i, name)),
    decreases hooks.len(),
{
    if hooks.len() > 0 {
        let init = hooks.drop_last();
        let last = hooks.len() - 1;
        let rest = without(init, names, name);
        let out = without(hooks, names, name);
        law_registering_replaces(init, names, name, other);
        assert(out == rest || out == rest.push(hooks.last()));
        if out.contains(other) {
            let k = choose|k: int| 0 <= k < out.len() && out[k] == other;
            if k < rest.len() {
                assert(rest[k] == other);
                let i = choose|i: int|
                    0 <= i < init.len() && init[i] == other && !(#[trigger] said(names, i, name));
                assert(hooks[i] == other);
            } else {
                assert(!said(names, last, name));
            }
        }
        if exists|i: int|
            0 <= i < hooks.len() && hooks[i] == other && !(#[trigger] said(names, i, name)) {
            let i = choose|i: int|
                0 <= i < hooks.len() && hooks[i] == other && !(#[trigger] said(names, i, name));
            if i < last {
                assert(init[i] == other);
                let k = choose|k: int| 0 <= k < rest.len() && rest[k] == other;
                assert(out[k] == other);
            } else {
                assert(out[out.len() - 1] == other);
            }
        }
    }
}

/// Whether a hook never says two names.
pub open spec fn keeps_its_name(hook: RegisteredGatewayHook) -> bool {
    forall|a: Seq<char>, b: Seq<char>| #[trigger] named(hook, a) && #[trigger] named(hook, b) ==> a == b
}

/// Where hooks keep their names, no two of them have the same: after a registration only the new
/// hook has its name.
pub proof fn law_hook_names_are_unique(
    hooks: Seq<RegisteredGatewayHook>,
    names: Seq<String>,
    name: Seq<char>,
    other: RegisteredGatewayHook,
)
    requires
        said_by(hooks, names),
        without(hooks, names, name).contains(other),
        keeps_its_name(other),
    ensures
        !named(other, name),
{
    law_registering_replaces(hooks, names, name, other);
    let i = choose|i: int|
        0 <= i < hooks.len() && hooks[i] == other && !(#[trigger] said(names, i, name));
    assert(named(hooks[i], names[i]@));
}

} // verus!
