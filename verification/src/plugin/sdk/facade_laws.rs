//! What the host functions of plugins amount to: what a create does to the keys, which rights each
//! call takes, and when a call goes on.
use crate::plugin::hooks;
use crate::plugin::hooks::{CallCtx, CallDecision, CallOp, CallOutcome, HookRegistry};
use crate::plugin::manifest::PluginCapability;
use crate::plugin::sdk::backend;
use crate::plugin::sdk::backend::{
    key_resource, CompareOp, CompareView, GrantView, KvDelete, KvPut, KvRange, KvRangeOut,
    PluginScope, SdkError, SdkErrorCode, SdkResult, TxnOp, TxnOpView, TxnOut, TxnReq,
    TxnReqView,
};
use crate::plugin::sdk::facade;
use crate::plugin::sdk::facade::{
    after_call, before_call, create_outcome, create_request, get_outcome, get_request,
    hook_verdict, CallPlan, HookedCall, PluginSdk,
};
use crate::text;
use vstd::prelude::*;
use vstd::utf8::*;

verus! {

// ---- keys and their values ----

/// What is stored under a key.
pub struct Stored {
    pub value: Seq<u8>,
    pub lease_id: i64,
    /// How often the key was written since it was created.
    pub version: int,
}

/// The keys of a cluster.
pub type Store = Map<Seq<u8>, Stored>;

/// Version of a key; a key that is not there has version 0.
pub open spec fn version_of(store: Store, key: Seq<u8>) -> int {
    if store.dom().contains(key) {
        store[key].version
    } else {
        0
    }
}

/// Whether a condition on a version holds.
pub open spec fn version_holds(store: Store, c: CompareView) -> bool {
    let version = version_of(store, c.key);
    match c.op {
        CompareOp::Equal => version == c.int_value,
        CompareOp::NotEqual => version != c.int_value,
        CompareOp::Greater => version > c.int_value,
        CompareOp::Less => version < c.int_value,
    }
}

/// The keys after an operation on one key.
pub open spec fn after_op(store: Store, op: TxnOpView) -> Store {
    match op {
        TxnOpView::Put(p) => store.insert(
            p.key,
            Stored {
                value: p.value,
                lease_id: p.lease_id,
                version: version_of(store, p.key) + 1,
            },
        ),
        TxnOpView::Delete(d) => store.remove(d.key),
        TxnOpView::Range(_) => store,
    }
}

/// The keys after operations, one after the other.
pub open spec fn after_ops(store: Store, ops: Seq<TxnOpView>) -> Store
    decreases ops.len(),
{
    if ops.len() == 0 {
        store
    } else {
        after_op(after_ops(store, ops.drop_last()), ops.last())
    }
}

/// Whether all conditions of a transaction are on versions.
pub open spec fn on_versions(req: TxnReqView) -> bool {
    forall|i: int| 0 <= i < req.compares.len() ==> (#[trigger] req.compares[i]).target is Version
}

/// The keys after a transaction whose conditions are on versions: the first branch where all of
/// them hold, the second one otherwise.
pub open spec fn after_txn(store: Store, req: TxnReqView) -> Store {
    if forall|i: int| 0 <= i < req.compares.len() ==> version_holds(store, #[trigger] req.compares[i]) {
        after_ops(store, req.success)
    } else {
        after_ops(store, req.failure)
    }
}

/// A create asks for one write of the given key, value and lease, on the one condition that the
/// version of the key is 0, and for nothing where that does not hold.
pub proof fn law_a_create_is_one_guarded_write(key: Vec<u8>, value: Vec<u8>, lease_id: i64, req: TxnReq)
    requires
        call_ensures(create_request, (key, value, lease_id), req),
    ensures
        req.compares@.len() == 1,
        req.compares@[0].op is Equal,
        req.compares@[0].target is Version,
        req.compares@[0].key@ == key@,
        req.compares@[0].int_value == 0,
        req.success@.len() == 1,
        req.success@[0] matches TxnOp::Put(p) && p.key@ == key@ && p.value@ == value@ && p.lease_id
            == lease_id && !p.prev_kv && p.request_id@.len() == 0,
        req.failure@.len() == 0,
        req.request_id@.len() == 0,
{
    let want = facade::create_txn(key@, value@, lease_id);
    assert(req@.compares.len() == want.compares.len());
    assert(req@.compares[0] == req.compares@[0]@);
    assert(req@.success.len() == want.success.len());
    assert(req@.success[0] == req.success@[0]@);
    assert(req@.failure.len() == want.failure.len());
}

/// Carried out on keys among which the given one is not, a create leaves it with the given value
/// and lease beside all others; carried out on keys among which it is, it changes nothing.
pub proof fn law_a_create_writes_only_what_was_not_there(
    store: Store,
    key: Vec<u8>,
    value: Vec<u8>,
    lease_id: i64,
    req: TxnReq,
)
    requires
        call_ensures(create_request, (key, value, lease_id), req),
        forall|k: Seq<u8>| #[trigger] store.dom().contains(k) ==> store[k].version > 0,
    ensures
        on_versions(req@),
        after_txn(store, req@) == if store.dom().contains(key@) {
            store
        } else {
            store.insert(key@, Stored { value: value@, lease_id, version: 1 })
        },
{
    law_a_create_is_one_guarded_write(key, value, lease_id, req);
    let r = req@;
    assert(r.compares[0] == req.compares@[0]@);
    assert(r.success[0] == req.success@[0]@);
    assert(r.success.drop_last() =~= Seq::<TxnOpView>::empty());
    reveal_with_fuel(after_ops, 2);
    if store.dom().contains(key@) {
        assert(!version_holds(store, r.compares[0]));
        assert(r.failure =~= Seq::<TxnOpView>::empty());
    } else {
        assert(version_holds(store, r.compares[0]));
        assert(forall|i: int|
            0 <= i < r.compares.len() ==> version_holds(store, #[trigger] r.compares[i]));
    }
}

/// A create that the cluster took is answered with the revision of its write; one that met an
/// existing key is a conflict that names the key.
pub proof fn law_a_create_answers_with_its_write(out: TxnOut, resource: &str, r: SdkResult<i64>, i: int)
    requires
        call_ensures(create_outcome, (&out, resource), r),
    ensures
        r is Ok <==> out.succeeded,
        !out.succeeded ==> (r matches Err(e) && e.code is Conflict && e.message@ == "key '"@
            + resource@ + "' already exists"@),
        out.succeeded && 0 <= i < out.responses@.len() && out.responses@[i] is Put && (forall|k: int|
            i < k < out.responses@.len() ==> !(#[trigger] out.responses@[k] is Put)) ==> r == Ok::<
            i64,
            SdkError,
        >(out.responses@[i]->Put_0.revision),
        out.succeeded && (forall|k: int|
            0 <= k < out.responses@.len() ==> !(#[trigger] out.responses@[k] is Put)) ==> r == Ok::<
            i64,
            SdkError,
        >(out.revision),
{
    let all = out@.responses;
    assert(all.len() == out.responses@.len());
    assert forall|k: int| 0 <= k < all.len() implies #[trigger] all[k] == out.responses@[k]@ by {}
    if out.succeeded && 0 <= i < all.len() && out.responses@[i] is Put && (forall|k: int|
        i < k < out.responses@.len() ==> !(#[trigger] out.responses@[k] is Put)) {
        assert forall|k: int| i < k < all.len() implies !(#[trigger] all[k] is Put) by {
            assert(!(out.responses@[k] is Put));
        }
        lemma_last_write(all, out.revision, i);
    }
    if out.succeeded && (forall|k: int|
        0 <= k < out.responses@.len() ==> !(#[trigger] out.responses@[k] is Put)) {
        assert forall|k: int| 0 <= k < all.len() implies !(#[trigger] all[k] is Put) by {
            assert(!(out.responses@[k] is Put));
        }
        lemma_no_write(all, out.revision);
    }
}

proof fn lemma_last_write(responses: Seq<backend::TxnOpOutView>, default: i64, i: int)
    requires
        0 <= i < responses.len(),
        responses[i] is Put,
        forall|k: int| i < k < responses.len() ==> !(#[trigger] responses[k] is Put),
    ensures
        facade::last_write(responses, default) == responses[i]->Put_0.revision,
    decreases responses.len(),
{
    if i < responses.len() - 1 {
        assert(!(responses[responses.len() - 1] is Put));
        assert forall|k: int| i < k < responses.len() - 1 implies !(
        #[trigger] responses.drop_last()[k] is Put) by {
            assert(!(responses[k] is Put));
        }
        lemma_last_write(responses.drop_last(), default, i);
    }
}

proof fn lemma_no_write(responses: Seq<backend::TxnOpOutView>, default: i64)
    requires
        forall|k: int| 0 <= k < responses.len() ==> !(#[trigger] responses[k] is Put),
    ensures
        facade::last_write(responses, default) == default,
    decreases responses.len(),
{
    if responses.len() > 0 {
        assert(!(responses[responses.len() - 1] is Put));
        assert forall|k: int| 0 <= k < responses.len() - 1 implies !(
        #[trigger] responses.drop_last()[k] is Put) by {
            assert(!(responses[k] is Put));
        }
        lemma_no_write(responses.drop_last(), default);
    }
}

/// A get reads the latest value of its key alone, and gives back the value that was found: a key
/// without one is not found.
pub proof fn law_a_get_gives_back_the_value(
    key: Vec<u8>,
    req: KvRange,
    out: KvRangeOut,
    r: SdkResult<Vec<u8>>,
)
    requires
        call_ensures(get_request, (key,), req),
        call_ensures(get_outcome, (out,), r),
    ensures
        req.key@ == key@,
        req.range_end@.len() == 0,
        req.limit == 1,
        req.revision == 0,
        !req.keys_only,
        !req.count_only,
        out.kvs@.len() > 0 ==> (r matches Ok(v) && v@ == out.kvs@[0].value@),
        out.kvs@.len() == 0 ==> (r matches Err(e) && e.code is NotFound && e.message@
            == "key not found"@),
{
}

// ---- rights ----

/// Whether a declared capability allows something: its id names the capability or is `*`, and its
/// scope is empty or covers the resource.
pub open spec fn allows(grants: Seq<GrantView>, capability: Seq<char>, covering: Seq<bool>, i: int) -> bool {
    &&& 0 <= i < grants.len()
    &&& grants[i].id == capability || grants[i].id == "*"@
    &&& grants[i].scope.len() == 0 || (i < covering.len() && covering[i])
}

/// Whether one of the declared capabilities allows something.
pub open spec fn allowed(grants: Seq<GrantView>, capability: Seq<char>, covering: Seq<bool>) -> bool {
    exists|i: int| allows(grants, capability, covering, i)
}

proof fn lemma_allowed(grants: Seq<GrantView>, capability: Seq<char>, covering: Seq<bool>)
    ensures
        allowed(grants, capability, covering) == backend::covered(grants, capability, covering),
{
    if backend::covered(grants, capability, covering) {
        let i = choose|i: int|
            0 <= i < grants.len() && backend::answers_for((#[trigger] grants[i]).id, capability)
                && backend::lets_through(grants, covering, i);
        assert(allows(grants, capability, covering, i));
    }
    if allowed(grants, capability, covering) {
        let i = choose|i: int| allows(grants, capability, covering, i);
        assert(backend::answers_for(grants[i].id, capability));
        assert(backend::lets_through(grants, covering, i));
    }
}

/// A check passes exactly where a declared capability of that id, or `*`, has an empty scope or
/// one that covers the resource. What is refused is forbidden: with the resource where a
/// capability of that id is declared at all, and without it otherwise.
pub proof fn law_a_check_passes_where_a_grant_allows_it(
    scope: PluginScope,
    capability: &str,
    resource: &str,
    matched: &[bool],
    r: SdkResult<()>,
)
    requires
        call_ensures(PluginScope::check, (&scope, capability, resource, matched), r),
    ensures
        r is Ok <==> allowed(scope.grants(), capability@, matched@),
        r matches Err(e) ==> {
            &&& e.code is Forbidden
            &&& e.message@ == if exists|i: int|
                0 <= i < scope.grants().len() && ((#[trigger] scope.grants()[i]).id == capability@
                    || scope.grants()[i].id == "*"@) {
                "plugin '"@ + scope.plugin_name() + "' resource '"@ + resource@
                    + "' is outside the declared scope of capability '"@ + capability@ + "'"@
            } else {
                "plugin '"@ + scope.plugin_name() + "' does not declare capability '"@ + capability@
                    + "'"@
            }
        },
{
    lemma_allowed(scope.grants(), capability@, matched@);
    let grants = scope.grants();
    if exists|i: int|
        0 <= i < grants.len() && ((#[trigger] grants[i]).id == capability@ || grants[i].id == "*"@) {
        let i = choose|i: int|
            0 <= i < grants.len() && ((#[trigger] grants[i]).id == capability@ || grants[i].id
                == "*"@);
        assert(backend::answers_for(grants[i].id, capability@));
    }
    if backend::declared(grants, capability@) {
        let i = choose|i: int|
            0 <= i < grants.len() && backend::answers_for((#[trigger] grants[i]).id, capability@);
        assert(grants[i].id == capability@ || grants[i].id == "*"@);
    }
}

/// The declared capabilities are those of the manifest, in order, each with its scope.
pub proof fn law_grants_are_those_declared(
    plugin: &str,
    capabilities: &[PluginCapability],
    sdk: PluginSdk,
    i: int,
)
    requires
        call_ensures(PluginSdk::new, (plugin, capabilities), sdk),
    ensures
        sdk.plugin_name() == plugin@,
        sdk.grants().len() == capabilities@.len(),
        0 <= i < capabilities@.len() ==> sdk.grants()[i].id == capabilities@[i].id@
            && sdk.grants()[i].scope == capabilities@[i].scope@,
{
}

/// What is said of the scopes that cover the resource of an access; nothing where nothing is.
spec fn covering(matched: Seq<Vec<bool>>, i: int) -> Seq<bool> {
    if i < matched.len() {
        matched[i]@
    } else {
        Seq::empty()
    }
}

proof fn lemma_all_allowed(
    plugin: Seq<char>,
    grants: Seq<GrantView>,
    accesses: Seq<facade::AccessView>,
    matched: Seq<Vec<bool>>,
    from: int,
)
    requires
        0 <= from <= accesses.len(),
        forall|i: int|
            from <= i < accesses.len() ==> allowed(
                grants,
                (#[trigger] accesses[i]).capability,
                covering(matched, i),
            ),
    ensures
        facade::first_refusal(plugin, grants, accesses, matched, from) is None,
    decreases accesses.len() - from,
{
    if from < accesses.len() {
        lemma_allowed(grants, accesses[from].capability, covering(matched, from));
        assert(allowed(grants, accesses[from].capability, covering(matched, from)));
        lemma_all_allowed(plugin, grants, accesses, matched, from + 1);
    }
}

proof fn lemma_refusal_is_forbidden(
    plugin: Seq<char>,
    grants: Seq<GrantView>,
    accesses: Seq<facade::AccessView>,
    matched: Seq<Vec<bool>>,
    from: int,
)
    requires
        0 <= from,
    ensures
        facade::first_refusal(plugin, grants, accesses, matched, from) matches Some(e)
            ==> e.code is Forbidden,
    decreases accesses.len() - from,
{
    if from < accesses.len() {
        lemma_refusal_is_forbidden(plugin, grants, accesses, matched, from + 1);
    }
}

/// A planned call goes on exactly where each of its accesses is allowed by a declared capability
/// and nothing else refuses it. An access that is not allowed makes it forbidden; where all are
/// allowed, the refusal that follows is what is answered.
pub proof fn law_a_call_goes_on_where_all_accesses_are_allowed(
    sdk: PluginSdk,
    plan: CallPlan,
    matched: Vec<Vec<bool>>,
    r: SdkResult<()>,
)
    requires
        call_ensures(PluginSdk::authorize, (&sdk, &plan, &matched), r),
    ensures
        ({
            let all = forall|i: int|
                0 <= i < plan.accesses@.len() ==> allowed(
                    sdk.grants(),
                    (#[trigger] plan.accesses@[i]).capability@,
                    if i < matched@.len() {
                        matched@[i]@
                    } else {
                        Seq::empty()
                    },
                );
            &&& r is Ok <==> all && plan.refusal is None
            &&& !all ==> (r matches Err(e) && e.code is Forbidden)
            &&& all ==> (plan.refusal matches Some(why) ==> (r matches Err(e) && e.code == why.code
                && e.message@ == why.message@))
        }),
{
    let accesses = plan@.accesses;
    let grants = sdk.grants();
    let name = sdk.plugin_name();
    assert(accesses.len() == plan.accesses@.len());
    assert forall|i: int| 0 <= i < accesses.len() implies #[trigger] accesses[i]
        == plan.accesses@[i]@ by {}
    lemma_refusal_is_forbidden(name, grants, accesses, matched@, 0);
    if facade::first_refusal(name, grants, accesses, matched@, 0) is None {
        assert forall|i: int| 0 <= i < plan.accesses@.len() implies allowed(
            grants,
            (#[trigger] plan.accesses@[i]).capability@,
            covering(matched@, i),
        ) by {
            facade::lemma_no_refusal(name, grants, accesses, matched@, 0, i);
            lemma_allowed(grants, accesses[i].capability, covering(matched@, i));
        }
    }
    if forall|i: int|
        0 <= i < plan.accesses@.len() ==> allowed(
            grants,
            (#[trigger] plan.accesses@[i]).capability@,
            covering(matched@, i),
        ) {
        assert forall|i: int| 0 <= i < accesses.len() implies allowed(
            grants,
            (#[trigger] accesses[i]).capability,
            covering(matched@, i),
        ) by {
            assert(accesses[i] == plan.accesses@[i]@);
        }
        lemma_all_allowed(name, grants, accesses, matched@, 0);
    }
}

/// Whether a plan takes these rights on a key and nothing else, and has hooks hear of it. A key
/// that is not text is refused instead.
pub open spec fn takes_on_key(
    plan: CallPlan,
    key: Seq<u8>,
    capabilities: Seq<Seq<char>>,
    op: CallOp,
    bytes: nat,
) -> bool {
    if valid_utf8(key) {
        &&& plan.refusal is None
        &&& plan.accesses@.len() == capabilities.len()
        &&& forall|i: int|
            0 <= i < capabilities.len() ==> (#[trigger] plan.accesses@[i]).capability@
                == capabilities[i] && plan.accesses@[i].resource@ == decode_utf8(key)
        &&& plan.call matches Some(call) && call.op == op && call.resource@ == decode_utf8(key) && (
        bytes <= usize::MAX ==> call.payload_bytes == bytes)
    } else {
        &&& plan.refusal matches Some(e) && e.code is Forbidden
        &&& plan.call is None
    }
}

proof fn lemma_takes_on_key(
    plan: CallPlan,
    key: Seq<u8>,
    capabilities: Seq<Seq<char>>,
    op: CallOp,
    size: usize,
    bytes: nat,
)
    requires
        plan@ == facade::key_plan(key, capabilities, op, size),
        bytes <= usize::MAX ==> size == bytes,
    ensures
        takes_on_key(plan, key, capabilities, op, bytes),
{
    if valid_utf8(key) {
        assert(plan@.accesses.len() == capabilities.len());
        assert forall|i: int| 0 <= i < capabilities.len() implies (#[trigger] plan.accesses@[i]).capability@
            == capabilities[i] && plan.accesses@[i].resource@ == decode_utf8(key) by {
            assert(plan@.accesses[i] == plan.accesses@[i]@);
        }
    }
}

/// A write takes the right to write its key, and the right to read it where the previous record
/// is wanted.
pub proof fn law_a_write_takes_the_right_to_write(sdk: PluginSdk, req: KvPut, plan: CallPlan)
    requires
        call_ensures(PluginSdk::kv_put, (&sdk, &req), plan),
    ensures
        takes_on_key(
            plan,
            req.key@,
            if req.prev_kv {
                seq!["data:kv:write"@, "data:kv:read"@]
            } else {
                seq!["data:kv:write"@]
            },
            CallOp::KvPut,
            req.key@.len() + req.value@.len(),
        ),
{
    let caps = if req.prev_kv {
        seq!["data:kv:write"@, "data:kv:read"@]
    } else {
        seq!["data:kv:write"@]
    };
    lemma_takes_on_key(
        plan,
        req.key@,
        caps,
        CallOp::KvPut,
        facade::size_sum(req.key@.len(), req.value@.len()),
        req.key@.len() + req.value@.len(),
    );
}

/// A read takes the right to read its key.
pub proof fn law_a_read_takes_the_right_to_read(
    sdk: PluginSdk,
    req: KvRange,
    range: CallPlan,
    key: Vec<u8>,
    get: CallPlan,
)
    requires
        call_ensures(PluginSdk::kv_range, (&sdk, &req), range),
        call_ensures(PluginSdk::kv_get, (&sdk, &key), get),
        key@.len() <= usize::MAX,
    ensures
        takes_on_key(
            range,
            req.key@,
            seq!["data:kv:read"@],
            CallOp::KvRange,
            req.key@.len() + req.range_end@.len(),
        ),
        takes_on_key(get, key@, seq!["data:kv:read"@], CallOp::KvGet, key@.len()),
{
    lemma_takes_on_key(
        range,
        req.key@,
        seq!["data:kv:read"@],
        CallOp::KvRange,
        facade::size_sum(req.key@.len(), req.range_end@.len()),
        req.key@.len() + req.range_end@.len(),
    );
    lemma_takes_on_key(
        get,
        key@,
        seq!["data:kv:read"@],
        CallOp::KvGet,
        key@.len() as usize,
        key@.len(),
    );
}

/// A delete takes the right to delete its key, and the right to read it where the previous
/// records are wanted.
pub proof fn law_a_delete_takes_the_right_to_delete(sdk: PluginSdk, req: KvDelete, plan: CallPlan)
    requires
        call_ensures(PluginSdk::kv_delete, (&sdk, &req), plan),
    ensures
        takes_on_key(
            plan,
            req.key@,
            if req.prev_kv {
                seq!["data:kv:delete"@, "data:kv:read"@]
            } else {
                seq!["data:kv:delete"@]
            },
            CallOp::KvDelete,
            req.key@.len() + req.range_end@.len(),
        ),
{
    let caps = if req.prev_kv {
        seq!["data:kv:delete"@, "data:kv:read"@]
    } else {
        seq!["data:kv:delete"@]
    };
    lemma_takes_on_key(
        plan,
        req.key@,
        caps,
        CallOp::KvDelete,
        facade::size_sum(req.key@.len(), req.range_end@.len()),
        req.key@.len() + req.range_end@.len(),
    );
}

/// A create takes the right to execute a transaction and the rights to read and to write its key;
/// a key that is not text is refused.
pub proof fn law_a_create_takes_three_rights(sdk: PluginSdk, key: Vec<u8>, value: Vec<u8>, plan: CallPlan)
    requires
        call_ensures(PluginSdk::kv_create, (&sdk, &key, &value), plan),
    ensures
        valid_utf8(key@) ==> {
            &&& plan.refusal is None
            &&& plan.accesses@.len() == 3
            &&& plan.accesses@[0].capability@ == "data:txn:execute"@
            &&& plan.accesses@[1].capability@ == "data:kv:read"@
            &&& plan.accesses@[2].capability@ == "data:kv:write"@
            &&& plan.accesses@[0].resource@.len() == 0
            &&& plan.accesses@[1].resource@ == decode_utf8(key@)
            &&& plan.accesses@[2].resource@ == decode_utf8(key@)
            &&& plan.call matches Some(call) && call.op is KvCreate && call.resource@ == decode_utf8(
                key@,
            ) && (key@.len() + value@.len() <= usize::MAX ==> call.payload_bytes == key@.len()
                + value@.len())
        },
        !valid_utf8(key@) ==> (plan.refusal matches Some(e) && e.code is Forbidden) && plan.call is None,
{
    if valid_utf8(key@) {
        let accesses = plan@.accesses;
        assert(accesses.len() == 3);
        assert(accesses[0] == plan.accesses@[0]@);
        assert(accesses[1] == plan.accesses@[1]@);
        assert(accesses[2] == plan.accesses@[2]@);
    }
}

/// Whether a plan takes one right that is not tied to a resource.
pub open spec fn takes_one(plan: CallPlan, capability: Seq<char>) -> bool {
    &&& plan.accesses@.len() == 1
    &&& plan.accesses@[0].capability@ == capability
    &&& plan.accesses@[0].resource@.len() == 0
}

/// Whether hooks hear of a planned call, and of this one.
pub open spec fn heard(plan: CallPlan, op: CallOp, resource: Seq<char>, bytes: int) -> bool {
    plan.call matches Some(call) && call.op == op && call.resource@ == resource
        && call.payload_bytes == bytes
}

/// Whether a planned call is refused for an argument.
pub open spec fn bad_argument(plan: CallPlan, message: Seq<char>) -> bool {
    plan.refusal matches Some(e) && e.code is InvalidArgument && e.message@ == message
}

proof fn lemma_takes_one(
    plan: CallPlan,
    capability: Seq<char>,
    refusal: Option<backend::SdkErrorView>,
    call: Option<facade::HookedCallView>,
)
    requires
        plan@ == facade::bare_plan(capability, refusal, call),
    ensures
        takes_one(plan, capability),
        plan.refusal is None <==> refusal is None,
        plan.refusal is Some ==> plan.refusal->0@ == refusal->0,
        refusal is None ==> (plan.call is None <==> call is None),
        refusal is None && call is Some ==> plan.call->0@ == call->0,
{
    assert(plan@.accesses.len() == 1);
    assert(plan@.accesses[0] == plan.accesses@[0]@);
}

/// Leases: each call on one takes its own right and goes by its number, and a time to live that is
/// not positive is refused.
pub proof fn law_lease_calls_take_lease_rights(
    sdk: PluginSdk,
    ttl: i64,
    id: i64,
    grant: CallPlan,
    revoke: CallPlan,
    keep: CallPlan,
    stop: CallPlan,
)
    requires
        call_ensures(PluginSdk::lease_grant, (&sdk, ttl, id), grant),
        call_ensures(PluginSdk::lease_revoke, (&sdk, id), revoke),
        call_ensures(PluginSdk::lease_keep_alive, (&sdk, id), keep),
        call_ensures(PluginSdk::lease_stop_keep_alive, (&sdk,), stop),
    ensures
        takes_one(grant, "data:lease:grant"@),
        ttl <= 0 ==> bad_argument(grant, "lease ttl must be > 0"@),
        ttl > 0 ==> grant.refusal is None && heard(
            grant,
            CallOp::LeaseGrant,
            "lease:"@ + text::decimal_int(id as int),
            0,
        ),
        takes_one(revoke, "data:lease:revoke"@),
        revoke.refusal is None,
        heard(revoke, CallOp::LeaseRevoke, "lease:"@ + text::decimal_int(id as int), 0),
        takes_one(keep, "data:lease:keepalive"@),
        keep.refusal is None,
        heard(keep, CallOp::LeaseKeepAlive, "lease:"@ + text::decimal_int(id as int), 0),
        takes_one(stop, "data:lease:keepalive"@),
        stop.refusal is None,
        stop.call is None,
{
    let name = "lease:"@ + text::decimal_int(id as int);
    lemma_takes_one(
        grant,
        "data:lease:grant"@,
        facade::refuse_if(ttl <= 0, "lease ttl must be > 0"@),
        facade::hooked(CallOp::LeaseGrant, name, 0),
    );
    lemma_takes_one(
        revoke,
        "data:lease:revoke"@,
        None,
        facade::hooked(CallOp::LeaseRevoke, name, 0),
    );
    lemma_takes_one(
        keep,
        "data:lease:keepalive"@,
        None,
        facade::hooked(CallOp::LeaseKeepAlive, name, 0),
    );
    lemma_takes_one(stop, "data:lease:keepalive"@, None, None);
}

/// A subscription takes the right to subscribe, and hooks do not hear of it.
pub proof fn law_subscriptions_take_the_right_to_subscribe(sdk: PluginSdk, plan: CallPlan)
    requires
        call_ensures(PluginSdk::watch_subscribe, (&sdk,), plan),
    ensures
        takes_one(plan, "data:watch:subscribe"@),
        plan.refusal is None,
        plan.call is None,
{
    lemma_takes_one(plan, "data:watch:subscribe"@, None, None);
}

/// Whatever writes objects takes the right to write them; a bucket has a name, and a chunk holds
/// something.
pub proof fn law_object_writes_take_the_right_to_write(
    sdk: PluginSdk,
    bucket: &str,
    size: usize,
    id: u64,
    put: CallPlan,
    delete: CallPlan,
    open: CallPlan,
    chunk: CallPlan,
    commit: CallPlan,
    abort: CallPlan,
)
    requires
        call_ensures(PluginSdk::storage_put, (&sdk, bucket, size), put),
        call_ensures(PluginSdk::storage_delete, (&sdk, bucket), delete),
        call_ensures(PluginSdk::storage_open_write, (&sdk, bucket), open),
        call_ensures(PluginSdk::storage_write_chunk, (&sdk, id, size), chunk),
        call_ensures(PluginSdk::storage_commit_write, (&sdk, id), commit),
        call_ensures(PluginSdk::storage_abort_write, (&sdk,), abort),
    ensures
        takes_one(put, "data:storage:write"@),
        takes_one(delete, "data:storage:write"@),
        takes_one(open, "data:storage:write"@),
        takes_one(chunk, "data:storage:write"@),
        takes_one(commit, "data:storage:write"@),
        takes_one(abort, "data:storage:write"@),
        bucket@.len() == 0 ==> bad_argument(put, "bucket must not be empty"@) && bad_argument(
            open,
            "bucket must not be empty"@,
        ),
        bucket@.len() > 0 ==> {
            &&& put.refusal is None
            &&& heard(put, CallOp::StoragePut, "bucket:"@ + bucket@, size as int)
            &&& open.refusal is None
            &&& heard(open, CallOp::StoragePut, "bucket:"@ + bucket@, 0)
        },
        delete.refusal is None,
        heard(delete, CallOp::StorageDelete, "bucket:"@ + bucket@, 0),
        size == 0 ==> bad_argument(chunk, "chunk must not be empty"@),
        size > 0 ==> chunk.refusal is None && heard(
            chunk,
            CallOp::StoragePut,
            "session:"@ + text::decimal(id as nat),
            size as int,
        ),
        commit.refusal is None,
        heard(commit, CallOp::StoragePut, "session:"@ + text::decimal(id as nat), 0),
        abort.refusal is None,
        abort.call is None,
{
    let write = "data:storage:write"@;
    let place = "bucket:"@ + bucket@;
    let session = "session:"@ + text::decimal(id as nat);
    let unnamed = facade::refuse_if(bucket@.len() == 0, "bucket must not be empty"@);
    lemma_takes_one(put, write, unnamed, facade::hooked(CallOp::StoragePut, place, size));
    lemma_takes_one(delete, write, None, facade::hooked(CallOp::StorageDelete, place, 0));
    lemma_takes_one(open, write, unnamed, facade::hooked(CallOp::StoragePut, place, 0));
    lemma_takes_one(
        chunk,
        write,
        facade::refuse_if(size == 0, "chunk must not be empty"@),
        facade::hooked(CallOp::StoragePut, session, size),
    );
    lemma_takes_one(commit, write, None, facade::hooked(CallOp::StoragePut, session, 0));
    lemma_takes_one(abort, write, None, None);
}

/// Whatever reads objects takes the right to read them.
pub proof fn law_object_reads_take_the_right_to_read(
    sdk: PluginSdk,
    bucket: &str,
    id: u64,
    get: CallPlan,
    stat: CallPlan,
    open: CallPlan,
    chunk: CallPlan,
    reader_stat: CallPlan,
)
    requires
        call_ensures(PluginSdk::storage_get, (&sdk, bucket), get),
        call_ensures(PluginSdk::storage_stat, (&sdk,), stat),
        call_ensures(PluginSdk::storage_open_read, (&sdk, bucket), open),
        call_ensures(PluginSdk::storage_read_chunk, (&sdk, id), chunk),
        call_ensures(PluginSdk::storage_reader_stat, (&sdk,), reader_stat),
    ensures
        takes_one(get, "data:storage:read"@),
        takes_one(stat, "data:storage:read"@),
        takes_one(open, "data:storage:read"@),
        takes_one(chunk, "data:storage:read"@),
        takes_one(reader_stat, "data:storage:read"@),
        get.refusal is None,
        stat.refusal is None,
        open.refusal is None,
        chunk.refusal is None,
        reader_stat.refusal is None,
        heard(get, CallOp::StorageGet, "bucket:"@ + bucket@, 0),
        stat.call is None,
        heard(open, CallOp::StorageGet, "bucket:"@ + bucket@, 0),
        heard(chunk, CallOp::StorageGet, "session:"@ + text::decimal(id as nat), 0),
        reader_stat.call is None,
{
    let read = "data:storage:read"@;
    let place = "bucket:"@ + bucket@;
    let session = "session:"@ + text::decimal(id as nat);
    lemma_takes_one(get, read, None, facade::hooked(CallOp::StorageGet, place, 0));
    lemma_takes_one(stat, read, None, None);
    lemma_takes_one(open, read, None, facade::hooked(CallOp::StorageGet, place, 0));
    lemma_takes_one(chunk, read, None, facade::hooked(CallOp::StorageGet, session, 0));
    lemma_takes_one(reader_stat, read, None, None);
}

// ---- transactions ----

/// Whether a plan takes a right on a key.
pub open spec fn takes(plan: CallPlan, capability: Seq<char>, key: Seq<u8>) -> bool {
    exists|i: int|
        0 <= i < plan.accesses@.len() && (#[trigger] plan.accesses@[i]).capability@ == capability
            && plan.accesses@[i].resource@ == decode_utf8(key)
}

/// Right that an operation takes on its key.
pub open spec fn right_of(op: TxnOp) -> Seq<char> {
    match op {
        TxnOp::Put(_) => "data:kv:write"@,
        TxnOp::Delete(_) => "data:kv:delete"@,
        TxnOp::Range(_) => "data:kv:read"@,
    }
}

/// Key of an operation.
pub open spec fn key_of(op: TxnOp) -> Seq<u8> {
    match op {
        TxnOp::Put(p) => p.key@,
        TxnOp::Delete(d) => d.key@,
        TxnOp::Range(r) => r.key@,
    }
}

/// A transaction that nothing refuses takes the right to execute it, the right to read every key
/// that it compares, and on every key of either branch the right to do what is done to it. It
/// takes no others.
pub proof fn law_a_transaction_takes_the_rights_of_its_operations(
    sdk: PluginSdk,
    req: TxnReq,
    plan: CallPlan,
)
    requires
        call_ensures(PluginSdk::txn, (&sdk, &req), plan),
        plan.refusal is None,
    ensures
        plan.accesses@.len() == 1 + req.compares@.len() + req.success@.len() + req.failure@.len(),
        plan.accesses@[0].capability@ == "data:txn:execute"@,
        forall|i: int|
            0 <= i < req.compares@.len() ==> valid_utf8((#[trigger] req.compares@[i]).key@) && takes(
                plan,
                "data:kv:read"@,
                req.compares@[i].key@,
            ),
        forall|i: int|
            0 <= i < req.success@.len() ==> valid_utf8(key_of(#[trigger] req.success@[i])) && takes(
                plan,
                right_of(req.success@[i]),
                key_of(req.success@[i]),
            ),
        forall|i: int|
            0 <= i < req.failure@.len() ==> valid_utf8(key_of(#[trigger] req.failure@[i])) && takes(
                plan,
                right_of(req.failure@[i]),
                key_of(req.failure@[i]),
            ),
        plan.call matches Some(call) && call.op is Txn && (req.compares@.len() + req.success@.len()
            + req.failure@.len() <= usize::MAX ==> call.payload_bytes == req.compares@.len()
            + req.success@.len() + req.failure@.len()) && call.resource@ == if req.compares@.len()
            > 0 {
            text::utf8_lossy(req.compares@[0].key@)
        } else {
            Seq::empty()
        },
{
    let q = req@;
    let needs = facade::txn_needs(q);
    let n = facade::text_keys(needs);
    let c = req.compares@.len();
    let s = req.success@.len();
    assert(q.compares.len() == c && q.success.len() == s && q.failure.len() == req.failure@.len());
    assert(needs.len() == c + s + req.failure@.len());
    facade::lemma_text_keys_bound(needs);
    assert(n == needs.len());
    assert(plan@.accesses.len() == plan.accesses@.len());
    assert(plan@.accesses[0] == plan.accesses@[0]@);
    assert forall|i: int| 0 <= i < needs.len() implies valid_utf8((#[trigger] needs[i]).1)
        && plan.accesses@[i + 1].capability@ == needs[i].0 && plan.accesses@[i + 1].resource@
        == decode_utf8(needs[i].1) by {
        facade::lemma_text_keys_are_text(needs, i);
        assert(plan@.accesses[i + 1] == plan.accesses@[i + 1]@);
    }
    assert forall|i: int| 0 <= i < req.compares@.len() implies valid_utf8(
        (#[trigger] req.compares@[i]).key@,
    ) && takes(plan, "data:kv:read"@, req.compares@[i].key@) by {
        assert(q.compares[i] == req.compares@[i]@);
        assert(needs[i] == ("data:kv:read"@, req.compares@[i].key@));
        assert(plan.accesses@[i + 1].capability@ == "data:kv:read"@);
    }
    assert forall|i: int| 0 <= i < req.success@.len() implies valid_utf8(
        key_of(#[trigger] req.success@[i]),
    ) && takes(plan, right_of(req.success@[i]), key_of(req.success@[i])) by {
        assert(q.success[i] == req.success@[i]@);
        assert(needs[c + i] == (right_of(req.success@[i]), key_of(req.success@[i])));
        assert(plan.accesses@[c + i + 1].capability@ == right_of(req.success@[i]));
    }
    assert forall|i: int| 0 <= i < req.failure@.len() implies valid_utf8(
        key_of(#[trigger] req.failure@[i]),
    ) && takes(plan, right_of(req.failure@[i]), key_of(req.failure@[i])) by {
        assert(q.failure[i] == req.failure@[i]@);
        assert(needs[c + s + i] == (right_of(req.failure@[i]), key_of(req.failure@[i])));
        assert(plan.accesses@[c + s + i + 1].capability@ == right_of(req.failure@[i]));
    }
    if c > 0 {
        assert(q.compares[0] == req.compares@[0]@);
    }
}

/// A transaction whose keys are all text is not refused by its plan.
pub proof fn law_a_transaction_of_text_keys_is_not_refused(sdk: PluginSdk, req: TxnReq, plan: CallPlan)
    requires
        call_ensures(PluginSdk::txn, (&sdk, &req), plan),
        forall|i: int| 0 <= i < req.compares@.len() ==> valid_utf8((#[trigger] req.compares@[i]).key@),
        forall|i: int| 0 <= i < req.success@.len() ==> valid_utf8(key_of(#[trigger] req.success@[i])),
        forall|i: int| 0 <= i < req.failure@.len() ==> valid_utf8(key_of(#[trigger] req.failure@[i])),
    ensures
        plan.refusal is None,
{
    let q = req@;
    let needs = facade::txn_needs(q);
    let c = req.compares@.len();
    let s = req.success@.len();
    assert forall|i: int| 0 <= i < needs.len() implies backend::key_resource_spec(
        (#[trigger] needs[i]).1,
    ) is Ok by {
        if i < c {
            assert(q.compares[i] == req.compares@[i]@);
            assert(valid_utf8(req.compares@[i].key@));
        } else if i < c + s {
            assert(q.success[i - c] == req.success@[i - c]@);
            assert(valid_utf8(key_of(req.success@[i - c])));
        } else {
            assert(q.failure[i - c - s] == req.failure@[i - c - s]@);
            assert(valid_utf8(key_of(req.failure@[i - c - s])));
        }
    }
    facade::lemma_text_keys(needs, needs.len());
    assert(needs.skip(needs.len() as int).len() == 0);
}

// ---- hooks around a call ----

/// A call that hooks let through goes on; one that they refuse is forbidden, with the operation,
/// the resource and their reason.
pub proof fn law_a_refusing_hook_forbids_the_call(ctx: CallCtx, decision: CallDecision, r: SdkResult<()>)
    requires
        call_ensures(hook_verdict, (&ctx, decision), r),
    ensures
        r is Ok <==> decision is Allow,
        decision matches CallDecision::Deny(reason) ==> (r matches Err(e) && e.code is Forbidden
            && e.message@ == "plugin call-face hook denied "@ + hooks::op_text(ctx.op) + " on '"@
            + ctx.resource@ + "': "@ + reason@),
{
}

/// Where a call goes on, every hook whose pattern is the calling plugin or `*` let it through, and
/// where it does not, the hooks forbid it. Without hooks every call goes on.
pub proof fn law_calls_go_on_where_hooks_let_them(
    registry: &mut HookRegistry,
    ctx: CallCtx,
    r: SdkResult<bool>,
    i: int,
)
    requires
        call_ensures(before_call, (registry, &ctx), r),
    ensures
        old(registry).hooks().len() == 0 ==> r == Ok::<bool, SdkError>(false),
        old(registry).hooks().len() > 0 ==> r == Ok::<bool, SdkError>(true) || (r matches Err(e)
            && e.code is Forbidden),
        r is Ok && 0 <= i < old(registry).hooks().len() && (old(registry).hooks()[i].pattern@
            == ctx.plugin@ || old(registry).hooks()[i].pattern@ == "*"@) ==> hooks::may_decide(
            &*old(registry).hooks()[i].hook,
            ctx,
            CallDecision::Allow,
        ),
        final(registry).hooks() == old(registry).hooks(),
{
    let entries = old(registry).hooks();
    if entries.len() > 0 {
        let decision = choose|decision: CallDecision| #[trigger]
            facade::asked(*old(registry), *final(registry), ctx, decision) && match decision {
                CallDecision::Allow => r == Ok::<bool, SdkError>(true),
                CallDecision::Deny(reason) => r matches Err(e) && e@ == backend::sdk_error(
                    SdkErrorCode::Forbidden,
                    facade::hook_refusal_text(ctx.op, ctx.resource@, reason@),
                ),
            };
        let decisions = choose|decisions: Seq<CallDecision>| #[trigger]
            hooks::consulted(entries, ctx, decisions, decision);
        if r is Ok && 0 <= i < entries.len() && (entries[i].pattern@ == ctx.plugin@
            || entries[i].pattern@ == "*"@) {
            hooks::law_one_refusal_refuses_the_call(entries, ctx, decisions, decision);
            assert(hooks::hears(entries[i].pattern@, ctx.plugin@));
            assert(hooks::decides(entries[i], ctx, CallDecision::Allow));
        }
    }
}

/// Every hook whose pattern is the calling plugin or `*` is told how a call ended: well, or with
/// the class of its error.
pub proof fn law_hooks_are_told_how_a_call_ended<T>(
    registry: &mut HookRegistry,
    ctx: CallCtx,
    result: SdkResult<T>,
    i: int,
) -> (outcome: CallOutcome)
    requires
        call_ensures(after_call::<T>, (registry, &ctx, &result), ()),
        0 <= i < old(registry).hooks().len(),
        old(registry).hooks()[i].pattern@ == ctx.plugin@ || old(registry).hooks()[i].pattern@ == "*"@,
    ensures
        outcome.ok <==> result is Ok,
        result matches Err(e) ==> outcome.error_code == Some(e.code),
        result is Ok ==> outcome.error_code is None,
        hooks::was_told(&*old(registry).hooks()[i].hook, ctx, outcome),
        final(registry).hooks() == old(registry).hooks(),
{
    let entries = old(registry).hooks();
    let outcome = choose|outcome: CallOutcome|
        outcome.ok == (result is Ok) && outcome.error_code == match result {
            Ok(_) => None::<SdkErrorCode>,
            Err(e) => Some(e.code),
        } && #[trigger] facade::all_told(entries, ctx, outcome);
    assert(hooks::hears(entries[i].pattern@, ctx.plugin@));
    assert(hooks::told(entries[i], ctx, outcome));
    outcome
}

/// What hooks see of a call is the calling plugin and what was planned for them.
pub proof fn law_hooks_see_the_planned_call(sdk: PluginSdk, call: HookedCall, ctx: CallCtx)
    requires
        call_ensures(PluginSdk::call_ctx, (&sdk, &call), ctx),
    ensures
        ctx.plugin@ == sdk.plugin_name(),
        ctx.op == call.op,
        ctx.resource@ == call.resource@,
        ctx.payload_bytes == call.payload_bytes,
{
}

/// The resource of a key is its text; a key that is not text is forbidden.
pub proof fn law_keys_are_addressed_by_their_text(key: &[u8], r: SdkResult<String>)
    requires
        call_ensures(key_resource, (key,), r),
    ensures
        valid_utf8(key@) ==> (r matches Ok(s) && s@ == decode_utf8(key@)),
        !valid_utf8(key@) ==> (r matches Err(e) && e.code is Forbidden),
{
}

} // verus!
