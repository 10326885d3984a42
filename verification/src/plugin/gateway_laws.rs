//! What the gateway amounts to: who is asked about a request, who hears of its response, and what
//! is counted.
use crate::plugin::gateway;
use crate::plugin::gateway::{
    ctx_from_parts, judge, unbuffered_status, GatewayDecision, GatewayHook, GatewayRequestCtx,
    GatewayRoute, GatewayVerdict, PluginGateway, RequestParts,
};
use crate::status::CallStatus;
use crate::text;
use vstd::prelude::*;

verus! {

// ---- requests as hooks see them ----

/// Hooks see a request as it came: its path, its method, the body that was buffered, who it comes
/// from, and every header in its place, by its name in lower case.
pub proof fn law_hooks_see_the_request(parts: RequestParts, body: Option<Vec<u8>>, ctx: GatewayRequestCtx)
    requires
        call_ensures(ctx_from_parts, (parts, body), ctx),
    ensures
        ctx.path@ == parts.path@,
        ctx.method@ == parts.method@,
        ctx.body_prefix == body,
        ctx.headers@.len() == parts.headers@.len(),
        forall|i: int|
            0 <= i < parts.headers@.len() ==> {
                let header = #[trigger] ctx.headers@[i];
                &&& header.0@ == text::ascii_lowercase(parts.headers@[i].0@)
                &&& parts.headers@[i].1 matches Some(v) ==> header.1@ == v@
                &&& parts.headers@[i].1 is None ==> header.1@.len() == 0
            },
        parts.identity matches Some(who) ==> ctx.identity == who,
        parts.identity is None ==> ctx.identity.subject@.len() == 0 && ctx.identity.roles@.len() == 0,
{
}

/// A header is found by its name: the first one, and none only where there is none.
pub proof fn law_headers_are_found_by_name(
    ctx: GatewayRequestCtx,
    name: &str,
    r: Option<&str>,
    i: int,
)
    requires
        call_ensures(GatewayRequestCtx::header, (&ctx, name), r),
        0 <= i < ctx.headers@.len(),
        ctx.headers@[i].0@ == name@,
        forall|k: int| 0 <= k < i ==> (#[trigger] ctx.headers@[k]).0@ != name@,
    ensures
        r matches Some(v) && v@ == ctx.headers@[i].1@,
{
    if r is None {
        assert(ctx.headers@[i].0@ != name@);
    } else {
        let j = choose|j: int|
            #[trigger] gateway::first_header(ctx.headers@, name@, j) && (r->0)@ == ctx.headers@[j].1@;
        if j < i {
            assert(ctx.headers@[j].0@ != name@);
        } else if i < j {
            assert(ctx.headers@[i].0@ != name@);
        }
    }
}

// ---- hooks ----

/// What a hook may decide, may say, may want and was told is what its own methods may answer.
pub proof fn law_gateway_hooks_speak_for_themselves<H: GatewayHook + ?Sized>(
    hook: &H,
    ctx: GatewayRequestCtx,
    decision: GatewayDecision,
    status: u16,
    body: bool,
    name: Seq<char>,
)
    ensures
        gateway::may_decide(hook, ctx, decision) ==> call_ensures(H::before, (hook, &ctx), decision),
        gateway::was_told(hook, ctx, status) ==> call_ensures(H::after, (hook, &ctx, status), ()),
        gateway::may_want(hook, body) ==> call_ensures(H::wants_body, (hook,), body),
        gateway::may_say_name(hook, name) ==> exists|said: &str|
            said@ == name && #[trigger] call_ensures(H::name, (hook,), said),
{
}

/// A request that is let through was let through by every hook, and letting it through counts for
/// nothing.
pub proof fn law_every_hook_lets_a_request_through(
    gw: &mut PluginGateway,
    ctx: GatewayRequestCtx,
    i: int,
)
    requires
        call_ensures(PluginGateway::evaluate_before, (gw, &ctx), GatewayDecision::Allow),
        0 <= i < old(gw).hook_list().len(),
    ensures
        gateway::may_decide(&*old(gw).hook_list()[i].hook, ctx, GatewayDecision::Allow),
        final(gw).counters() == old(gw).counters(),
        final(gw).hook_list() == old(gw).hook_list(),
{
    let hooks = old(gw).hook_list();
    let decisions = choose|decisions: Seq<GatewayDecision>| #[trigger]
        gateway::consulted(hooks, ctx, decisions, GatewayDecision::Allow);
    gateway::law_one_refusal_refuses_the_request(hooks, ctx, decisions, GatewayDecision::Allow);
    assert(gateway::decides(hooks[i], ctx, GatewayDecision::Allow));
}

/// A refused request was refused so by one of the hooks, after those before it had let it through,
/// and that is counted.
pub proof fn law_a_request_is_refused_by_a_hook(
    gw: &mut PluginGateway,
    ctx: GatewayRequestCtx,
    decision: GatewayDecision,
) -> (i: int)
    requires
        call_ensures(PluginGateway::evaluate_before, (gw, &ctx), decision),
        decision is Deny,
        old(gw).counters().denied_total < u64::MAX,
    ensures
        0 <= i < old(gw).hook_list().len(),
        gateway::may_decide(&*old(gw).hook_list()[i].hook, ctx, decision),
        forall|k: int|
            0 <= k < i ==> gateway::may_decide(
                &*(#[trigger] old(gw).hook_list()[k]).hook,
                ctx,
                GatewayDecision::Allow,
            ),
        final(gw).counters().denied_total == old(gw).counters().denied_total + 1,
        final(gw).counters().requests_total == old(gw).counters().requests_total,
        final(gw).hook_list() == old(gw).hook_list(),
{
    let hooks = old(gw).hook_list();
    let decisions = choose|decisions: Seq<GatewayDecision>| #[trigger]
        gateway::consulted(hooks, ctx, decisions, decision);
    let i = decisions.len() - 1;
    assert(gateway::decides(hooks[i], ctx, decisions[i]));
    assert forall|k: int| 0 <= k < i implies gateway::may_decide(
        &*(#[trigger] hooks[k]).hook,
        ctx,
        GatewayDecision::Allow,
    ) by {
        assert(gateway::decides(hooks[k], ctx, decisions[k]));
        assert(decisions[k] is Allow);
    }
    i
}

/// A registered hook that was told the status of a response was told it by a call of its own.
pub proof fn law_hooks_hear_of_the_response(
    entry: gateway::RegisteredGatewayHook,
    ctx: GatewayRequestCtx,
    status: u16,
)
    requires
        gateway::told(entry, ctx, status),
    ensures
        gateway::was_told(&*entry.hook, ctx, status),
{
}

/// The body is wanted exactly where a hook says that it looks at it; where it is not, none does.
pub proof fn law_the_body_is_wanted_where_a_hook_wants_it(gw: PluginGateway, r: bool)
    requires
        call_ensures(PluginGateway::needs_body, (&gw,), r),
    ensures
        r ==> exists|i: int|
            0 <= i < gw.hook_list().len() && gateway::may_want(
                &*(#[trigger] gw.hook_list()[i]).hook,
                true,
            ),
        !r ==> forall|i: int|
            0 <= i < gw.hook_list().len() ==> gateway::may_want(
                &*(#[trigger] gw.hook_list()[i]).hook,
                false,
            ),
{
    let hooks = gw.hook_list();
    if r {
        let i = choose|i: int| 0 <= i < hooks.len() && gateway::wants(#[trigger] hooks[i], true);
        assert(gateway::may_want(&*hooks[i].hook, true));
    } else {
        assert forall|i: int| 0 <= i < hooks.len() implies gateway::may_want(
            &*(#[trigger] hooks[i]).hook,
            false,
        ) by {
            assert(gateway::wants(hooks[i], false));
        }
    }
}

// ---- routes and counts ----

/// Where there is neither a hook nor a watched path, requests go straight through and nothing
/// changes. Otherwise each is counted once, and once more for its path where that is watched; no
/// other path is counted. With hooks it is judged, after its body was buffered where one is wanted.
pub proof fn law_requests_are_counted_and_judged(
    gw: &mut PluginGateway,
    path: &str,
    wants_body: bool,
    r: GatewayRoute,
    other: Seq<char>,
)
    requires
        call_ensures(PluginGateway::route, (gw, path, wants_body), r),
        old(gw).counters().requests_total < u64::MAX,
        old(gw).watched().dom().contains(path@) ==> old(gw).watched()[path@] < u64::MAX,
    ensures
        ({
            let straight = old(gw).hook_list().len() == 0 && (forall|p: Seq<char>|
                !#[trigger] old(gw).watched().dom().contains(p));
            &&& final(gw).hook_list() == old(gw).hook_list()
            &&& final(gw).watched().dom() == old(gw).watched().dom()
            &&& final(gw).counters().denied_total == old(gw).counters().denied_total
            &&& r is Passthrough <==> straight
            &&& straight ==> final(gw).counters() == old(gw).counters()
            &&& !straight ==> {
                &&& final(gw).counters().requests_total == old(gw).counters().requests_total + 1
                &&& old(gw).watched().dom().contains(path@) ==> final(gw).watched()[path@]
                    == old(gw).watched()[path@] + 1
                &&& other != path@ && old(gw).watched().dom().contains(other)
                    ==> final(gw).watched()[other] == old(gw).watched()[other]
            }
            &&& old(gw).hook_list().len() > 0 && wants_body ==> r is Buffer
            &&& old(gw).hook_list().len() > 0 && !wants_body ==> r is Judge
            &&& old(gw).hook_list().len() == 0 && !straight ==> r is Observe
        }),
{
    let paths = old(gw).watched();
    if paths == Map::<Seq<char>, u64>::empty() {
        assert(forall|p: Seq<char>| !#[trigger] paths.dom().contains(p));
    } else if forall|p: Seq<char>| !#[trigger] paths.dom().contains(p) {
        assert(paths =~= Map::<Seq<char>, u64>::empty());
    }
    assert(final(gw).watched().dom() =~= old(gw).watched().dom());
}

/// A path is watched from zero on, and one that is watched keeps its count.
pub proof fn law_watched_paths_keep_their_count(gw: &mut PluginGateway, path: &str, other: Seq<char>)
    requires
        call_ensures(PluginGateway::watch_path, (gw, path), ()),
    ensures
        final(gw).watched().dom().contains(path@),
        !old(gw).watched().dom().contains(path@) ==> final(gw).watched()[path@] == 0,
        old(gw).watched().dom().contains(path@) ==> final(gw).watched()[path@]
            == old(gw).watched()[path@],
        other != path@ ==> (final(gw).watched().dom().contains(other)
            == old(gw).watched().dom().contains(other)),
{
}

/// A request that is let through is passed on. A refused one is answered with the reason, and with
/// the code that the hook gave, or as not permitted where it gave none.
pub proof fn law_refusals_are_answered_with_their_reason(decision: GatewayDecision, r: GatewayVerdict)
    requires
        call_ensures(judge, (decision,), r),
    ensures
        decision is Allow <==> r is Forward,
        decision matches GatewayDecision::Deny { reason, code } ==> (r matches GatewayVerdict::Refuse(
            s,
        ) && s.message@ == reason@ && (code matches Some(c) ==> s.code == c) && (code is None
            ==> s.code is PermissionDenied)),
{
}

/// Hooks hear of the response to every request but those that went straight through.
pub proof fn law_responses_are_heard_of(route: GatewayRoute, r: bool)
    requires
        call_ensures(GatewayRoute::observes_response, (route,), r),
    ensures
        r <==> !(route is Passthrough),
{
}

/// A body that could not be buffered is an internal failure, with the reason.
pub proof fn law_unbuffered_bodies_are_internal_failures(error: &str, r: CallStatus)
    requires
        call_ensures(unbuffered_status, (error,), r),
    ensures
        r.code is Internal,
        r.message@ == "plugin gateway could not buffer request body: "@ + error@,
{
}

/// Every request that does not go straight through is counted, and so is every request for a watched
/// path; requests go straight through exactly where there is no hook and no watched path.
pub proof fn law_requests_are_counted_once(
    gateway: &mut PluginGateway,
    path: &str,
    route: GatewayRoute,
    before: PluginGateway,
    after: PluginGateway,
    hooks: usize,
    total: (u64, u64),
    denied: (u64, u64),
    here: (Option<u64>, Option<u64>),
    other: &str,
    there: (Option<u64>, Option<u64>),
)
    requires
        call_ensures(PluginGateway::call, (gateway, path), route),
        before == *old(gateway),
        after == *final(gateway),
        call_ensures(PluginGateway::hook_count, (&before,), hooks),
        call_ensures(PluginGateway::requests_total, (&before,), total.0),
        call_ensures(PluginGateway::requests_total, (&after,), total.1),
        call_ensures(PluginGateway::denied_total, (&before,), denied.0),
        call_ensures(PluginGateway::denied_total, (&after,), denied.1),
        call_ensures(PluginGateway::path_count, (&before, path), here.0),
        call_ensures(PluginGateway::path_count, (&after, path), here.1),
        call_ensures(PluginGateway::path_count, (&before, other), there.0),
        call_ensures(PluginGateway::path_count, (&after, other), there.1),
    ensures
        hooks > 0 || here.0 is Some || there.0 is Some ==> !(route is Passthrough),
        hooks > 0 ==> route is Buffer || route is Judge,
        hooks == 0 ==> route is Passthrough || route is Observe,
        !(route is Passthrough) ==> total.1 == total.0.wrapping_add(1),
        route is Passthrough ==> total.1 == total.0,
        denied.1 == denied.0,
        here.0 matches Some(n) ==> here.1 == Some(n.wrapping_add(1)),
        here.0 is None ==> here.1 is None,
        other@ != path@ ==> there.0 == there.1,
{
}

/// A refusal is counted and ends the consultation; leave goes on to the next hook.
pub proof fn law_refusals_are_counted_once(
    gateway: &mut PluginGateway,
    decision: GatewayDecision,
    r: bool,
    before: PluginGateway,
    after: PluginGateway,
    denied: (u64, u64),
    total: (u64, u64),
)
    requires
        call_ensures(PluginGateway::on_decision, (gateway, &decision), r),
        before == *old(gateway),
        after == *final(gateway),
        call_ensures(PluginGateway::denied_total, (&before,), denied.0),
        call_ensures(PluginGateway::denied_total, (&after,), denied.1),
        call_ensures(PluginGateway::requests_total, (&before,), total.0),
        call_ensures(PluginGateway::requests_total, (&after,), total.1),
    ensures
        r <==> decision is Deny,
        r ==> denied.1 == denied.0.wrapping_add(1),
        !r ==> denied.1 == denied.0,
        total.1 == total.0,
{
}

} // verus!
