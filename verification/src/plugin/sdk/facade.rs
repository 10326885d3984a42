//! The face that plugins call: which capabilities a call needs, in which order they are checked,
//! and what hooks hear of it.
use crate::plugin::hooks::{CallCtx, CallDecision, CallOp, CallOutcome, HookRegistry, HookStats};
use crate::plugin::manifest::PluginCapability;
use crate::plugin::sdk::backend::{
    key_resource, Compare, CompareOp, CompareTarget, GrantView, KvDelete, KvPut, KvRange, KvRangeOut,
    PluginScope, SdkError, SdkErrorCode, SdkErrorView, SdkResult, TxnOp, TxnOpOut, TxnOpOutView,
    TxnOpView, TxnOut, TxnReq, TxnReqView, CAP_KV_DELETE, CAP_KV_READ, CAP_KV_WRITE,
    CAP_LEASE_GRANT, CAP_LEASE_KEEPALIVE, CAP_LEASE_REVOKE, CAP_STORAGE_READ, CAP_STORAGE_WRITE,
    CAP_TXN_EXECUTE, CAP_WATCH_SUBSCRIBE,
};
use crate::plugin::sdk::backend;
use crate::text;
use crate::text::{decimal_int_text, decimal_text, text_of_utf8_lossy};
use vstd::prelude::*;

verus! {

// ---- plans ----

/// A capability that a call needs on a resource.
#[derive(Debug)]
pub struct Access {
    pub capability: &'static str,
    pub resource: String,
}

/// Contents of an access.
pub struct AccessView {
    pub capability: Seq<char>,
    pub resource: Seq<char>,
}

impl View for Access {
    type V = AccessView;

    open spec fn view(&self) -> AccessView {
        AccessView { capability: self.capability@, resource: self.resource@ }
    }
}

/// What hooks hear of a call.
#[derive(Debug)]
pub struct HookedCall {
    pub op: CallOp,
    pub resource: String,
    pub payload_bytes: usize,
}

/// Contents of what hooks hear.
pub struct HookedCallView {
    pub op: CallOp,
    pub resource: Seq<char>,
    pub payload_bytes: usize,
}

impl View for HookedCall {
    type V = HookedCallView;

    open spec fn view(&self) -> HookedCallView {
        HookedCallView {
            op: self.op,
            resource: self.resource@,
            payload_bytes: self.payload_bytes,
        }
    }
}

/// What stands between a plugin and the backend: the accesses that are checked in order, a
/// refusal that follows where all of them are granted, and what hooks hear.
#[derive(Debug)]
pub struct CallPlan {
    pub accesses: Vec<Access>,
    pub refusal: Option<SdkError>,
    /// Nothing where hooks do not hear of the call.
    pub call: Option<HookedCall>,
}

/// Contents of a plan.
pub struct PlanView {
    pub accesses: Seq<AccessView>,
    pub refusal: Option<SdkErrorView>,
    pub call: Option<HookedCallView>,
}

impl View for CallPlan {
    type V = PlanView;

    open spec fn view(&self) -> PlanView {
        PlanView {
            accesses: backend::views(self.accesses@),
            refusal: backend::opt_view(self.refusal),
            call: backend::opt_view(self.call),
        }
    }
}

/// An access to a resource.
pub open spec fn access(capability: Seq<char>, resource: Seq<char>) -> AccessView {
    AccessView { capability, resource }
}

/// An access that names no resource.
pub open spec fn bare_access(capability: Seq<char>) -> AccessView {
    AccessView { capability, resource: Seq::empty() }
}

/// Sum of two sizes.
pub open spec fn size_sum(a: nat, b: nat) -> usize {
    if a + b <= usize::MAX {
        (a + b) as usize
    } else {
        usize::MAX
    }
}

/// A plan for a key: a key that is not text is refused before anything else; otherwise the
/// capabilities are checked on it.
pub open spec fn key_plan(
    key: Seq<u8>,
    capabilities: Seq<Seq<char>>,
    op: CallOp,
    bytes: usize,
) -> PlanView {
    match backend::key_resource_spec(key) {
        Err(e) => PlanView { accesses: Seq::empty(), refusal: Some(e), call: None },
        Ok(resource) => PlanView {
            accesses: Seq::new(
                capabilities.len(),
                |i: int| access(capabilities[i], resource),
            ),
            refusal: None,
            call: Some(HookedCallView { op, resource, payload_bytes: bytes }),
        },
    }
}

/// A plan for a call without a resource.
pub open spec fn bare_plan(
    capability: Seq<char>,
    refusal: Option<SdkErrorView>,
    call: Option<HookedCallView>,
) -> PlanView {
    PlanView {
        accesses: seq![bare_access(capability)],
        refusal,
        call: if refusal is Some {
            None
        } else {
            call
        },
    }
}

/// The refusal of a missing argument.
pub open spec fn refuse_if(bad: bool, message: Seq<char>) -> Option<SdkErrorView> {
    if bad {
        Some(backend::sdk_error(SdkErrorCode::InvalidArgument, message))
    } else {
        None
    }
}

/// What hooks hear of a call on a resource without a payload.
pub open spec fn hooked(op: CallOp, resource: Seq<char>, payload_bytes: usize) -> Option<
    HookedCallView,
> {
    Some(HookedCallView { op, resource, payload_bytes })
}

/// Which of the declared scopes cover the resource of an access; none where nothing is said of it.
pub open spec fn verdicts_on(matched: Seq<Vec<bool>>, i: int) -> Seq<bool> {
    if i < matched.len() {
        matched[i]@
    } else {
        Seq::empty()
    }
}

/// First error among accesses from position `i` on. `matched` says of each access which of the
/// declared scopes cover its resource.
pub open spec fn first_refusal(
    plugin: Seq<char>,
    grants: Seq<GrantView>,
    accesses: Seq<AccessView>,
    matched: Seq<Vec<bool>>,
    i: int,
) -> Option<SdkErrorView>
    decreases accesses.len() - i,
{
    if 0 <= i < accesses.len() {
        match backend::scope_verdict(
            plugin,
            grants,
            accesses[i].capability,
            accesses[i].resource,
            verdicts_on(matched, i),
        ) {
            Err(e) => Some(e),
            Ok(_) => first_refusal(plugin, grants, accesses, matched, i + 1),
        }
    } else {
        None
    }
}

/// Outcome of a plan: the first access that is not granted, or else the refusal that follows.
pub open spec fn plan_verdict(
    plugin: Seq<char>,
    grants: Seq<GrantView>,
    plan: PlanView,
    matched: Seq<Vec<bool>>,
) -> Result<(), SdkErrorView> {
    match first_refusal(plugin, grants, plan.accesses, matched, 0) {
        Some(e) => Err(e),
        None => match plan.refusal {
            Some(e) => Err(e),
            None => Ok(()),
        },
    }
}

// ---- transactions ----

/// Capability and key that an operation needs.
pub open spec fn op_need(op: TxnOpView) -> (Seq<char>, Seq<u8>) {
    match op {
        TxnOpView::Put(p) => (CAP_KV_WRITE@, p.key),
        TxnOpView::Delete(d) => (CAP_KV_DELETE@, d.key),
        TxnOpView::Range(r) => (CAP_KV_READ@, r.key),
    }
}

/// Capabilities and keys that a transaction needs, in order: the compares, then the operations
/// of the first branch, then those of the second.
pub open spec fn txn_needs(req: TxnReqView) -> Seq<(Seq<char>, Seq<u8>)> {
    Seq::new(req.compares.len(), |i: int| (CAP_KV_READ@, req.compares[i].key)) + Seq::new(
        req.success.len(),
        |i: int| op_need(req.success[i]),
    ) + Seq::new(req.failure.len(), |i: int| op_need(req.failure[i]))
}

/// How many needs come before the first key that is not text.
pub open spec fn text_keys(needs: Seq<(Seq<char>, Seq<u8>)>) -> nat
    decreases needs.len(),
{
    if needs.len() == 0 || !(backend::key_resource_spec(needs[0].1) is Ok) {
        0
    } else {
        1 + text_keys(needs.drop_first())
    }
}

/// The plan of a transaction: the right to execute it, then every need in order up to the first
/// key that is not text, which is refused.
pub open spec fn txn_plan(req: TxnReqView) -> PlanView {
    let needs = txn_needs(req);
    let n = text_keys(needs);
    let accesses = seq![bare_access(CAP_TXN_EXECUTE@)] + Seq::new(
        n,
        |i: int| access(needs[i].0, backend::key_resource_spec(needs[i].1)->Ok_0),
    );
    if n < needs.len() {
        PlanView {
            accesses,
            refusal: Some(backend::key_resource_spec(needs[n as int].1)->Err_0),
            call: None,
        }
    } else {
        PlanView {
            accesses,
            refusal: None,
            call: Some(
                HookedCallView {
                    op: CallOp::Txn,
                    resource: if req.compares.len() > 0 {
                        text::utf8_lossy(req.compares[0].key)
                    } else {
                        Seq::empty()
                    },
                    payload_bytes: size_sum(
                        size_sum(req.compares.len(), req.success.len()) as nat,
                        req.failure.len(),
                    ),
                },
            ),
        }
    }
}

// ---- small parts ----

fn access_to(capability: &'static str, resource: &str) -> (r: Access)
    ensures
        r@ == access(capability@, resource@),
{
    Access { capability, resource: resource.to_owned() }
}

fn no_resource(capability: &'static str) -> (r: Access)
    ensures
        r@ == bare_access(capability@),
{
    Access { capability, resource: String::new() }
}

fn sum_sizes(a: usize, b: usize) -> (r: usize)
    ensures
        r == size_sum(a as nat, b as nat),
{
    match a.checked_add(b) {
        Some(n) => n,
        None => usize::MAX,
    }
}

fn bare(capability: &'static str, refusal: Option<SdkError>, call: Option<HookedCall>) -> (r: CallPlan)
    ensures
        r@ == bare_plan(capability@, backend::opt_view(refusal), backend::opt_view(call)),
{
    let accesses: Vec<Access> = vec![no_resource(capability)];
    assert(backend::views(accesses@) =~= seq![bare_access(capability@)]);
    match refusal {
        Some(e) => CallPlan { accesses, refusal: Some(e), call: None },
        None => CallPlan { accesses, refusal: None, call },
    }
}

fn hooked_call(op: CallOp, resource: String, payload_bytes: usize) -> (r: Option<HookedCall>)
    ensures
        backend::opt_view(r) == hooked(op, resource@, payload_bytes),
{
    Some(HookedCall { op, resource, payload_bytes })
}

fn invalid_if(bad: bool, message: &str) -> (r: Option<SdkError>)
    ensures
        backend::opt_view(r) == refuse_if(bad, message@),
{
    if bad {
        Some(SdkError::invalid_argument(message))
    } else {
        None
    }
}

fn lease_resource(id: i64) -> (r: String)
    ensures
        r@ == "lease:"@ + text::decimal_int(id as int),
{
    let mut s = "lease:".to_owned();
    let d = decimal_int_text(id);
    s.append(d.as_str());
    s
}

fn bucket_resource(bucket: &str) -> (r: String)
    ensures
        r@ == "bucket:"@ + bucket@,
{
    let mut s = "bucket:".to_owned();
    s.append(bucket);
    s
}

fn session_resource(id: u64) -> (r: String)
    ensures
        r@ == "session:"@ + text::decimal(id as nat),
{
    let mut s = "session:".to_owned();
    let d = decimal_text(id);
    s.append(d.as_str());
    s
}

/// The plan for a key with one or two capabilities.
fn plan_for_key(
    key: &Vec<u8>,
    first: &'static str,
    second: Option<&'static str>,
    op: CallOp,
    bytes: usize,
) -> (r: CallPlan)
    ensures
        r@ == key_plan(
            key@,
            match second {
                Some(s) => seq![first@, s@],
                None => seq![first@],
            },
            op,
            bytes,
        ),
{
    match key_resource(key.as_slice()) {
        Err(e) => {
            let r = CallPlan { accesses: Vec::new(), refusal: Some(e), call: None };
            assert(r@.accesses =~= Seq::<AccessView>::empty());
            r
        },
        Ok(resource) => {
            let mut accesses: Vec<Access> = vec![access_to(first, resource.as_str())];
            if let Some(s) = second {
                accesses.push(access_to(s, resource.as_str()));
            }
            let ghost caps = match second {
                Some(s) => seq![first@, s@],
                None => seq![first@],
            };
            assert(backend::views(accesses@) =~= Seq::new(
                caps.len(),
                |i: int| access(caps[i], resource@),
            ));
            CallPlan { accesses, refusal: None, call: hooked_call(op, resource, bytes) }
        },
    }
}

// ---- the face ----

/// The host functions of one plugin.
#[derive(Debug)]
pub struct PluginSdk {
    scope: PluginScope,
}

impl PluginSdk {
    /// Name of the plugin.
    pub closed spec fn plugin_name(&self) -> Seq<char> {
        self.scope.plugin_name()
    }

    /// The declared capabilities.
    pub closed spec fn grants(&self) -> Seq<GrantView> {
        self.scope.grants()
    }

    /// The host functions of a plugin with its declared capabilities.
    pub fn new(plugin: &str, capabilities: &[PluginCapability]) -> (r: Self)
        ensures
            r.plugin_name() == plugin@,
            r.grants() == backend::grants_of(capabilities@),
    {
        PluginSdk { scope: PluginScope::new(plugin, capabilities) }
    }

    /// Name of the plugin.
    pub fn plugin(&self) -> (r: &str)
        ensures
            r@ == self.plugin_name(),
    {
        self.scope.plugin()
    }

    /// The declared scope.
    pub fn scope(&self) -> (r: &PluginScope)
        ensures
            r.plugin_name() == self.plugin_name(),
            r.grants() == self.grants(),
    {
        &self.scope
    }

    /// Decides on a plan. `matched` says of each access which of the declared scopes cover its
    /// resource.
    pub fn authorize(&self, plan: &CallPlan, matched: &Vec<Vec<bool>>) -> (r: SdkResult<()>)
        ensures
            backend::unit_view(r) == plan_verdict(
                self.plugin_name(),
                self.grants(),
                plan@,
                matched@,
            ),
    {
        let none: Vec<bool> = Vec::new();
        let mut i: usize = 0;
        while i < plan.accesses.len()
            invariant
                i <= plan.accesses@.len(),
                none@ == Seq::<bool>::empty(),
                first_refusal(self.plugin_name(), self.grants(), plan@.accesses, matched@, 0)
                    == first_refusal(
                    self.plugin_name(),
                    self.grants(),
                    plan@.accesses,
                    matched@,
                    i as int,
                ),
            decreases plan.accesses@.len() - i,
        {
            let wanted = &plan.accesses[i];
            assert(plan@.accesses[i as int] == wanted@);
            let verdicts = if i < matched.len() {
                matched[i].as_slice()
            } else {
                none.as_slice()
            };
            match self.scope.check(wanted.capability, wanted.resource.as_str(), verdicts) {
                Err(e) => {
                    return Err(e);
                },
                Ok(_) => {},
            }
            i += 1;
        }
        match &plan.refusal {
            Some(e) => Err(e.duplicate()),
            None => Ok(()),
        }
    }

    /// Write a key. Asking for the previous record takes the right to read.
    pub fn kv_put(&self, req: &KvPut) -> (r: CallPlan)
        ensures
            r@ == key_plan(
                req.key@,
                if req.prev_kv {
                    seq![CAP_KV_WRITE@, CAP_KV_READ@]
                } else {
                    seq![CAP_KV_WRITE@]
                },
                CallOp::KvPut,
                size_sum(req.key@.len(), req.value@.len()),
            ),
    {
        let second = if req.prev_kv {
            Some(CAP_KV_READ)
        } else {
            None
        };
        let bytes: usize = sum_sizes(req.key.len(), req.value.len());
        plan_for_key(&req.key, CAP_KV_WRITE, second, CallOp::KvPut, bytes)
    }

    /// Read keys.
    pub fn kv_range(&self, req: &KvRange) -> (r: CallPlan)
        ensures
            r@ == key_plan(
                req.key@,
                seq![CAP_KV_READ@],
                CallOp::KvRange,
                size_sum(req.key@.len(), req.range_end@.len()),
            ),
    {
        let bytes: usize = sum_sizes(req.key.len(), req.range_end.len());
        plan_for_key(&req.key, CAP_KV_READ, None, CallOp::KvRange, bytes)
    }

    /// Delete keys. Asking for the previous records takes the right to read.
    pub fn kv_delete(&self, req: &KvDelete) -> (r: CallPlan)
        ensures
            r@ == key_plan(
                req.key@,
                if req.prev_kv {
                    seq![CAP_KV_DELETE@, CAP_KV_READ@]
                } else {
                    seq![CAP_KV_DELETE@]
                },
                CallOp::KvDelete,
                size_sum(req.key@.len(), req.range_end@.len()),
            ),
    {
        let second = if req.prev_kv {
            Some(CAP_KV_READ)
        } else {
            None
        };
        let bytes: usize = sum_sizes(req.key.len(), req.range_end.len());
        plan_for_key(&req.key, CAP_KV_DELETE, second, CallOp::KvDelete, bytes)
    }

    /// Read one key.
    pub fn kv_get(&self, key: &Vec<u8>) -> (r: CallPlan)
        ensures
            r@ == key_plan(key@, seq![CAP_KV_READ@], CallOp::KvGet, key@.len() as usize),
    {
        plan_for_key(key, CAP_KV_READ, None, CallOp::KvGet, key.len())
    }

    /// Create a key that does not exist. It takes the right to execute a transaction, then the
    /// rights to read and to write the key; a key that is not text is refused first.
    pub fn kv_create(&self, key: &Vec<u8>, value: &Vec<u8>) -> (r: CallPlan)
        ensures
            r@ == create_plan(key@, size_sum(key@.len(), value@.len())),
    {
        match key_resource(key.as_slice()) {
            Err(e) => {
                let r = CallPlan { accesses: Vec::new(), refusal: Some(e), call: None };
                assert(r@.accesses =~= Seq::<AccessView>::empty());
                r
            },
            Ok(resource) => {
                let accesses: Vec<Access> = vec![
                    no_resource(CAP_TXN_EXECUTE),
                    access_to(CAP_KV_READ, resource.as_str()),
                    access_to(CAP_KV_WRITE, resource.as_str()),
                ];
                assert(backend::views(accesses@) =~= seq![
                    bare_access(CAP_TXN_EXECUTE@),
                    access(CAP_KV_READ@, resource@),
                    access(CAP_KV_WRITE@, resource@),
                ]);
                let bytes: usize = sum_sizes(key.len(), value.len());
                CallPlan {
                    accesses,
                    refusal: None,
                    call: hooked_call(CallOp::KvCreate, resource, bytes),
                }
            },
        }
    }

    /// Grant a lease; its time to live is positive.
    pub fn lease_grant(&self, ttl: i64, id: i64) -> (r: CallPlan)
        ensures
            r@ == bare_plan(
                CAP_LEASE_GRANT@,
                refuse_if(ttl <= 0, "lease ttl must be > 0"@),
                hooked(CallOp::LeaseGrant, "lease:"@ + text::decimal_int(id as int), 0),
            ),
    {
        bare(
            CAP_LEASE_GRANT,
            invalid_if(ttl <= 0, "lease ttl must be > 0"),
            hooked_call(CallOp::LeaseGrant, lease_resource(id), 0),
        )
    }

    /// Revoke a lease.
    pub fn lease_revoke(&self, id: i64) -> (r: CallPlan)
        ensures
            r@ == bare_plan(
                CAP_LEASE_REVOKE@,
                None,
                hooked(CallOp::LeaseRevoke, "lease:"@ + text::decimal_int(id as int), 0),
            ),
    {
        bare(CAP_LEASE_REVOKE, None, hooked_call(CallOp::LeaseRevoke, lease_resource(id), 0))
    }

    /// Keep a lease alive.
    pub fn lease_keep_alive(&self, id: i64) -> (r: CallPlan)
        ensures
            r@ == bare_plan(
                CAP_LEASE_KEEPALIVE@,
                None,
                hooked(CallOp::LeaseKeepAlive, "lease:"@ + text::decimal_int(id as int), 0),
            ),
    {
        bare(CAP_LEASE_KEEPALIVE, None, hooked_call(CallOp::LeaseKeepAlive, lease_resource(id), 0))
    }

    /// Stop keeping a lease alive; hooks do not hear of it.
    pub fn lease_stop_keep_alive(&self) -> (r: CallPlan)
        ensures
            r@ == bare_plan(CAP_LEASE_KEEPALIVE@, None, None),
    {
        bare(CAP_LEASE_KEEPALIVE, None, None)
    }

    /// Subscribe to changes; hooks do not hear of it.
    pub fn watch_subscribe(&self) -> (r: CallPlan)
        ensures
            r@ == bare_plan(CAP_WATCH_SUBSCRIBE@, None, None),
    {
        bare(CAP_WATCH_SUBSCRIBE, None, None)
    }

    /// Upload an object; its bucket has a name.
    pub fn storage_put(&self, bucket: &str, size: usize) -> (r: CallPlan)
        ensures
            r@ == bare_plan(
                CAP_STORAGE_WRITE@,
                refuse_if(bucket@.len() == 0, "bucket must not be empty"@),
                hooked(CallOp::StoragePut, "bucket:"@ + bucket@, size),
            ),
    {
        bare(
            CAP_STORAGE_WRITE,
            invalid_if(bucket.is_empty(), "bucket must not be empty"),
            hooked_call(CallOp::StoragePut, bucket_resource(bucket), size),
        )
    }

    /// Download an object.
    pub fn storage_get(&self, bucket: &str) -> (r: CallPlan)
        ensures
            r@ == bare_plan(
                CAP_STORAGE_READ@,
                None,
                hooked(CallOp::StorageGet, "bucket:"@ + bucket@, 0),
            ),
    {
        bare(CAP_STORAGE_READ, None, hooked_call(CallOp::StorageGet, bucket_resource(bucket), 0))
    }

    /// Ask about an object; hooks do not hear of it.
    pub fn storage_stat(&self) -> (r: CallPlan)
        ensures
            r@ == bare_plan(CAP_STORAGE_READ@, None, None),
    {
        bare(CAP_STORAGE_READ, None, None)
    }

    /// Delete an object.
    pub fn storage_delete(&self, bucket: &str) -> (r: CallPlan)
        ensures
            r@ == bare_plan(
                CAP_STORAGE_WRITE@,
                None,
                hooked(CallOp::StorageDelete, "bucket:"@ + bucket@, 0),
            ),
    {
        bare(CAP_STORAGE_WRITE, None, hooked_call(CallOp::StorageDelete, bucket_resource(bucket), 0))
    }

    /// Open an upload; its bucket has a name.
    pub fn storage_open_write(&self, bucket: &str) -> (r: CallPlan)
        ensures
            r@ == bare_plan(
                CAP_STORAGE_WRITE@,
                refuse_if(bucket@.len() == 0, "bucket must not be empty"@),
                hooked(CallOp::StoragePut, "bucket:"@ + bucket@, 0),
            ),
    {
        bare(
            CAP_STORAGE_WRITE,
            invalid_if(bucket.is_empty(), "bucket must not be empty"),
            hooked_call(CallOp::StoragePut, bucket_resource(bucket), 0),
        )
    }

    /// Write a chunk of an upload; it holds something.
    pub fn storage_write_chunk(&self, id: u64, size: usize) -> (r: CallPlan)
        ensures
            r@ == bare_plan(
                CAP_STORAGE_WRITE@,
                refuse_if(size == 0, "chunk must not be empty"@),
                hooked(CallOp::StoragePut, "session:"@ + text::decimal(id as nat), size),
            ),
    {
        bare(
            CAP_STORAGE_WRITE,
            invalid_if(size == 0, "chunk must not be empty"),
            hooked_call(CallOp::StoragePut, session_resource(id), size),
        )
    }

    /// Complete an upload.
    pub fn storage_commit_write(&self, id: u64) -> (r: CallPlan)
        ensures
            r@ == bare_plan(
                CAP_STORAGE_WRITE@,
                None,
                hooked(CallOp::StoragePut, "session:"@ + text::decimal(id as nat), 0),
            ),
    {
        bare(CAP_STORAGE_WRITE, None, hooked_call(CallOp::StoragePut, session_resource(id), 0))
    }

    /// Give an upload up; hooks do not hear of it.
    pub fn storage_abort_write(&self) -> (r: CallPlan)
        ensures
            r@ == bare_plan(CAP_STORAGE_WRITE@, None, None),
    {
        bare(CAP_STORAGE_WRITE, None, None)
    }

    /// Open a download.
    pub fn storage_open_read(&self, bucket: &str) -> (r: CallPlan)
        ensures
            r@ == bare_plan(
                CAP_STORAGE_READ@,
                None,
                hooked(CallOp::StorageGet, "bucket:"@ + bucket@, 0),
            ),
    {
        bare(CAP_STORAGE_READ, None, hooked_call(CallOp::StorageGet, bucket_resource(bucket), 0))
    }

    /// Read a chunk of a download.
    pub fn storage_read_chunk(&self, id: u64) -> (r: CallPlan)
        ensures
            r@ == bare_plan(
                CAP_STORAGE_READ@,
                None,
                hooked(CallOp::StorageGet, "session:"@ + text::decimal(id as nat), 0),
            ),
    {
        bare(CAP_STORAGE_READ, None, hooked_call(CallOp::StorageGet, session_resource(id), 0))
    }

    /// Ask about the object of a download; hooks do not hear of it.
    pub fn storage_reader_stat(&self) -> (r: CallPlan)
        ensures
            r@ == bare_plan(CAP_STORAGE_READ@, None, None),
    {
        bare(CAP_STORAGE_READ, None, None)
    }
}

/// The plan of a create.
pub open spec fn create_plan(key: Seq<u8>, bytes: usize) -> PlanView {
    match backend::key_resource_spec(key) {
        Err(e) => PlanView { accesses: Seq::empty(), refusal: Some(e), call: None },
        Ok(resource) => PlanView {
            accesses: seq![
                bare_access(CAP_TXN_EXECUTE@),
                access(CAP_KV_READ@, resource),
                access(CAP_KV_WRITE@, resource),
            ],
            refusal: None,
            call: hooked(CallOp::KvCreate, resource, bytes),
        },
    }
}

// ---- transactions ----

/// A capability that a transaction needs on a key.
struct Need {
    capability: &'static str,
    key: Vec<u8>,
}

spec fn need_views(v: Seq<Need>) -> Seq<(Seq<char>, Seq<u8>)> {
    Seq::new(v.len(), |i: int| (v[i].capability@, v[i].key@))
}

fn op_need_of(op: &TxnOp) -> (r: Need)
    ensures
        (r.capability@, r.key@) == op_need(op@),
{
    match op {
        TxnOp::Put(p) => Need { capability: CAP_KV_WRITE, key: p.key.clone() },
        TxnOp::Delete(d) => Need { capability: CAP_KV_DELETE, key: d.key.clone() },
        TxnOp::Range(r) => Need { capability: CAP_KV_READ, key: r.key.clone() },
    }
}

fn push_op_needs(needs: &mut Vec<Need>, ops: &Vec<TxnOp>)
    ensures
        need_views(final(needs)@) == need_views(old(needs)@) + Seq::new(
            ops@.len(),
            |i: int| op_need(ops@[i]@),
        ),
{
    let ghost all = Seq::new(ops@.len(), |i: int| op_need(ops@[i]@));
    let mut i: usize = 0;
    assert(need_views(needs@) =~= need_views(old(needs)@) + all.take(0));
    while i < ops.len()
        invariant
            i <= ops@.len(),
            all == Seq::new(ops@.len(), |i: int| op_need(ops@[i]@)),
            need_views(needs@) == need_views(old(needs)@) + all.take(i as int),
        decreases ops@.len() - i,
    {
        let ghost before = needs@;
        needs.push(op_need_of(&ops[i]));
        assert(need_views(needs@) =~= need_views(before).push(all[i as int]));
        assert(need_views(old(needs)@) + all.take(i + 1) =~= (need_views(old(needs)@) + all.take(
            i as int,
        )).push(all[i as int]));
        i += 1;
    }
    assert(all.take(all.len() as int) =~= all);
}

fn list_needs(req: &TxnReq) -> (r: Vec<Need>)
    ensures
        need_views(r@) == txn_needs(req@),
{
    let mut needs: Vec<Need> = Vec::new();
    let ghost all = Seq::new(req.compares@.len(), |i: int| (CAP_KV_READ@, req.compares@[i].key@));
    let mut i: usize = 0;
    assert(need_views(needs@) =~= all.take(0));
    while i < req.compares.len()
        invariant
            i <= req.compares@.len(),
            all == Seq::new(req.compares@.len(), |i: int| (CAP_KV_READ@, req.compares@[i].key@)),
            need_views(needs@) == all.take(i as int),
        decreases req.compares@.len() - i,
    {
        let ghost before = needs@;
        needs.push(Need { capability: CAP_KV_READ, key: req.compares[i].key.clone() });
        assert(need_views(needs@) =~= need_views(before).push(all[i as int]));
        assert(all.take(i + 1) =~= all.take(i as int).push(all[i as int]));
        i += 1;
    }
    assert(all.take(all.len() as int) =~= all);
    push_op_needs(&mut needs, &req.success);
    push_op_needs(&mut needs, &req.failure);
    assert(need_views(needs@) =~= txn_needs(req@));
    needs
}

/// Needs on text keys are counted one after the other.
pub(crate) proof fn lemma_text_keys(needs: Seq<(Seq<char>, Seq<u8>)>, k: nat)
    requires
        k <= needs.len(),
        forall|i: int| 0 <= i < k ==> backend::key_resource_spec((#[trigger] needs[i]).1) is Ok,
    ensures
        text_keys(needs) == k + text_keys(needs.skip(k as int)),
    decreases k,
{
    if k == 0 {
        assert(needs.skip(0) =~= needs);
    } else {
        let rest = needs.drop_first();
        assert forall|i: int| 0 <= i < k - 1 implies backend::key_resource_spec(
            (#[trigger] rest[i]).1,
        ) is Ok by {
            assert(rest[i] == needs[i + 1]);
        }
        assert(backend::key_resource_spec(needs[0].1) is Ok);
        lemma_text_keys(rest, (k - 1) as nat);
        assert(rest.skip(k - 1) =~= needs.skip(k as int));
    }
}

/// No more needs are counted than there are.
pub(crate) proof fn lemma_text_keys_bound(needs: Seq<(Seq<char>, Seq<u8>)>)
    ensures
        text_keys(needs) <= needs.len(),
    decreases needs.len(),
{
    if needs.len() > 0 {
        lemma_text_keys_bound(needs.drop_first());
    }
}

/// The counted needs are on text keys.
pub(crate) proof fn lemma_text_keys_are_text(needs: Seq<(Seq<char>, Seq<u8>)>, i: int)
    requires
        0 <= i < text_keys(needs),
    ensures
        i < needs.len(),
        backend::key_resource_spec(needs[i].1) is Ok,
    decreases needs.len(),
{
    if i > 0 {
        lemma_text_keys_are_text(needs.drop_first(), i - 1);
        assert(needs.drop_first()[i - 1] == needs[i]);
    }
}

impl PluginSdk {
    /// Execute a transaction: the right to do so, and then the right to every key that it
    /// compares, reads, writes or deletes in either branch.
    pub fn txn(&self, req: &TxnReq) -> (r: CallPlan)
        ensures
            r@ == txn_plan(req@),
    {
        let needs = list_needs(req);
        let ghost all = txn_needs(req@);
        let mut accesses: Vec<Access> = vec![no_resource(CAP_TXN_EXECUTE)];
        let ghost head = seq![bare_access(CAP_TXN_EXECUTE@)];
        let mut i: usize = 0;
        assert(backend::views(accesses@) =~= head + Seq::new(
            0,
            |k: int| access(all[k].0, backend::key_resource_spec(all[k].1)->Ok_0),
        ));
        while i < needs.len()
            invariant
                i <= needs@.len(),
                need_views(needs@) == all,
                all == txn_needs(req@),
                head == seq![bare_access(CAP_TXN_EXECUTE@)],
                forall|k: int| 0 <= k < i ==> backend::key_resource_spec((#[trigger] all[k]).1) is Ok,
                backend::views(accesses@) == head + Seq::new(
                    i as nat,
                    |k: int| access(all[k].0, backend::key_resource_spec(all[k].1)->Ok_0),
                ),
            decreases needs@.len() - i,
        {
            assert(all[i as int] == (needs@[i as int].capability@, needs@[i as int].key@));
            match key_resource(needs[i].key.as_slice()) {
                Err(e) => {
                    proof {
                        lemma_text_keys(all, i as nat);
                        assert(all.skip(i as int)[0] == all[i as int]);
                    }
                    return CallPlan { accesses, refusal: Some(e), call: None };
                },
                Ok(resource) => {
                    let ghost before = accesses@;
                    accesses.push(access_to(needs[i].capability, resource.as_str()));
                    assert(backend::views(accesses@) =~= backend::views(before).push(
                        access(all[i as int].0, resource@),
                    ));
                    assert(backend::views(accesses@) =~= head + Seq::new(
                        (i + 1) as nat,
                        |k: int| access(all[k].0, backend::key_resource_spec(all[k].1)->Ok_0),
                    ));
                },
            }
            i += 1;
        }
        proof {
            lemma_text_keys(all, i as nat);
            assert(all.skip(i as int).len() == 0);
        }
        let resource = if req.compares.len() > 0 {
            text_of_utf8_lossy(req.compares[0].key.as_slice())
        } else {
            String::new()
        };
        let bytes: usize = sum_sizes(
            sum_sizes(req.compares.len(), req.success.len()),
            req.failure.len(),
        );
        CallPlan { accesses, refusal: None, call: hooked_call(CallOp::Txn, resource, bytes) }
    }
}

// ---- what the backend is asked and what comes of it ----

/// The read of a single key.
pub fn get_request(key: Vec<u8>) -> (r: KvRange)
    ensures
        r.key == key,
        r.range_end@.len() == 0,
        r.limit == 1,
        r.revision == 0,
        !r.keys_only,
        !r.count_only,
{
    KvRange {
        key,
        range_end: Vec::new(),
        limit: 1,
        revision: 0,
        keys_only: false,
        count_only: false,
    }
}

/// The value that a read of a single key found.
pub fn get_outcome(out: KvRangeOut) -> (r: SdkResult<Vec<u8>>)
    ensures
        match r {
            Ok(v) => out.kvs@.len() > 0 && v == out.kvs@[0].value,
            Err(e) => out.kvs@.len() == 0 && e@ == backend::sdk_error(
                SdkErrorCode::NotFound,
                "key not found"@,
            ),
        },
{
    let mut kvs = out.kvs;
    if kvs.len() == 0 {
        Err(SdkError::not_found("key not found"))
    } else {
        let first = kvs.remove(0);
        Ok(first.value)
    }
}

/// The transaction that creates a key: it writes only where the key has version 0.
pub open spec fn create_txn(key: Seq<u8>, value: Seq<u8>, lease_id: i64) -> TxnReqView {
    TxnReqView {
        compares: seq![
            backend::CompareView {
                op: CompareOp::Equal,
                target: CompareTarget::Version,
                key,
                int_value: 0,
                bytes_value: Seq::empty(),
            },
        ],
        success: seq![
            TxnOpView::Put(
                backend::KvPutView {
                    key,
                    value,
                    lease_id,
                    prev_kv: false,
                    request_id: Seq::empty(),
                },
            ),
        ],
        failure: Seq::empty(),
        request_id: Seq::empty(),
    }
}

/// The transaction that creates a key.
pub fn create_request(key: Vec<u8>, value: Vec<u8>, lease_id: i64) -> (r: TxnReq)
    ensures
        r@ == create_txn(key@, value@, lease_id),
{
    let compares: Vec<Compare> = vec![
        Compare {
            op: CompareOp::Equal,
            target: CompareTarget::Version,
            key: key.clone(),
            int_value: 0,
            bytes_value: Vec::new(),
        },
    ];
    let success: Vec<TxnOp> = vec![
        TxnOp::Put(
            KvPut { key, value, lease_id, prev_kv: false, request_id: Vec::new() },
        ),
    ];
    let r = TxnReq { compares, success, failure: Vec::new(), request_id: Vec::new() };
    assert(r@.compares =~= create_txn(key@, value@, lease_id).compares);
    assert(r@.success =~= create_txn(key@, value@, lease_id).success);
    assert(r@.failure =~= create_txn(key@, value@, lease_id).failure);
    r
}

/// Revision of the last write among responses, or a default.
pub open spec fn last_write(responses: Seq<TxnOpOutView>, default: i64) -> i64
    decreases responses.len(),
{
    if responses.len() == 0 {
        default
    } else {
        match responses.last() {
            TxnOpOutView::Put(p) => p.revision,
            _ => last_write(responses.drop_last(), default),
        }
    }
}

/// What came of creating a key: the revision of the write, or a conflict where the key exists.
pub fn create_outcome(out: &TxnOut, resource: &str) -> (r: SdkResult<i64>)
    ensures
        match r {
            Ok(revision) => out.succeeded && revision == last_write(
                out@.responses,
                out.revision,
            ),
            Err(e) => !out.succeeded && e@ == backend::sdk_error(
                SdkErrorCode::Conflict,
                "key '"@ + resource@ + "' already exists"@,
            ),
        },
{
    if !out.succeeded {
        let mut s = "key '".to_owned();
        s.append(resource);
        s.append("' already exists");
        return Err(SdkError::conflict(s.as_str()));
    }
    let mut left: usize = out.responses.len();
    assert(out@.responses.take(left as int) =~= out@.responses);
    while left > 0
        invariant
            left <= out.responses@.len(),
            out.succeeded,
            last_write(out@.responses, out.revision) == last_write(
                out@.responses.take(left as int),
                out.revision,
            ),
        decreases left,
    {
        left -= 1;
        assert(out@.responses.take(left + 1).drop_last() =~= out@.responses.take(left as int));
        assert(out@.responses.take(left + 1).last() == out.responses@[left as int]@);
        if let TxnOpOut::Put(p) = &out.responses[left] {
            return Ok(p.revision);
        }
    }
    Ok(out.revision)
}

// ---- hooks around a call ----

/// Message of a call that a hook refused.
pub open spec fn hook_refusal_text(op: CallOp, resource: Seq<char>, reason: Seq<char>) -> Seq<char> {
    "plugin call-face hook denied "@ + crate::plugin::hooks::op_text(op) + " on '"@ + resource
        + "': "@ + reason
}

/// What a decision of the hooks makes of a call.
pub fn hook_verdict(ctx: &CallCtx, decision: CallDecision) -> (r: SdkResult<()>)
    ensures
        backend::unit_view(r) == match decision {
            CallDecision::Allow => Ok::<(), SdkErrorView>(()),
            CallDecision::Deny(reason) => Err(
                backend::sdk_error(
                    SdkErrorCode::Forbidden,
                    hook_refusal_text(ctx.op, ctx.resource@, reason@),
                ),
            ),
        },
{
    match decision {
        CallDecision::Allow => Ok(()),
        CallDecision::Deny(reason) => {
            let mut s = "plugin call-face hook denied ".to_owned();
            s.append(ctx.op.as_str());
            s.append(" on '");
            s.append(ctx.resource.as_str());
            s.append("': ");
            s.append(reason.as_str());
            Err(SdkError::forbidden(s.as_str()))
        },
    }
}

impl PluginSdk {
    /// What hooks see of a call.
    pub fn call_ctx(&self, call: &HookedCall) -> (r: CallCtx)
        ensures
            r.plugin@ == self.plugin_name(),
            r.op == call.op,
            r.resource@ == call.resource@,
            r.payload_bytes == call.payload_bytes,
    {
        CallCtx {
            plugin: self.scope.plugin().to_owned(),
            op: call.op,
            resource: call.resource.clone(),
            payload_bytes: call.payload_bytes,
        }
    }
}

/// Whether hooks were asked about a call and decided so together.
pub open spec fn asked(
    before: HookRegistry,
    after: HookRegistry,
    ctx: CallCtx,
    decision: CallDecision,
) -> bool {
    &&& exists|decisions: Seq<CallDecision>| #[trigger]
        crate::plugin::hooks::consulted(before.hooks(), ctx, decisions, decision)
    &&& after.counters() == (HookStats {
        before_total: before.counters().before_total.wrapping_add(1),
        denied_total: if decision is Deny {
            before.counters().denied_total.wrapping_add(1)
        } else {
            before.counters().denied_total
        },
        ..before.counters()
    })
}

/// Asks the hooks before a call. Without hooks nothing is counted and the call may go on;
/// `Ok(true)` says that the hooks were asked and are to hear how the call ended.
pub fn before_call(hooks: &mut HookRegistry, ctx: &CallCtx) -> (r: SdkResult<bool>)
    ensures
        final(hooks).hooks() == old(hooks).hooks(),
        if old(hooks).hooks().len() == 0 {
            r == Ok::<bool, SdkError>(false) && *final(hooks) == *old(hooks)
        } else {
            exists|decision: CallDecision| #[trigger]
                asked(*old(hooks), *final(hooks), *ctx, decision) && match decision {
                    CallDecision::Allow => r == Ok::<bool, SdkError>(true),
                    CallDecision::Deny(reason) => r matches Err(e) && e@ == backend::sdk_error(
                        SdkErrorCode::Forbidden,
                        hook_refusal_text(ctx.op, ctx.resource@, reason@),
                    ),
                }
        },
{
    if hooks.is_empty() {
        return Ok(false);
    }
    let ghost before = *hooks;
    let decision = hooks.before(ctx);
    assert(asked(before, *hooks, *ctx, decision));
    match hook_verdict(ctx, decision) {
        Ok(_) => Ok(true),
        Err(e) => Err(e),
    }
}

/// Whether every hook that hears of the plugin was told how a call ended.
pub open spec fn all_told(
    hooks: Seq<crate::plugin::hooks::RegisteredHook>,
    ctx: CallCtx,
    outcome: CallOutcome,
) -> bool {
    forall|k: int|
        0 <= k < hooks.len() && crate::plugin::hooks::hears(
            (#[trigger] hooks[k]).pattern@,
            ctx.plugin@,
        ) ==> crate::plugin::hooks::told(hooks[k], ctx, outcome)
}

/// Tells the hooks how a call ended.
pub fn after_call<T>(hooks: &mut HookRegistry, ctx: &CallCtx, result: &SdkResult<T>)
    ensures
        final(hooks).hooks() == old(hooks).hooks(),
        final(hooks).counters() == (HookStats {
            after_total: old(hooks).counters().after_total.wrapping_add(1),
            ..old(hooks).counters()
        }),
        exists|outcome: CallOutcome|
            outcome.ok == (*result is Ok) && outcome.error_code == match *result {
                Ok(_) => None::<SdkErrorCode>,
                Err(e) => Some(e.code),
            } && #[trigger] all_told(old(hooks).hooks(), *ctx, outcome),
{
    let ghost all = hooks.hooks();
    let outcome = CallOutcome::from_result(result);
    hooks.after(ctx, &outcome);
    assert(all_told(all, *ctx, outcome));
}

// ---- laws ----

pub(crate) proof fn lemma_no_refusal(
    plugin: Seq<char>,
    grants: Seq<GrantView>,
    accesses: Seq<AccessView>,
    matched: Seq<Vec<bool>>,
    from: int,
    i: int,
)
    requires
        0 <= from <= i < accesses.len(),
        first_refusal(plugin, grants, accesses, matched, from) is None,
    ensures
        backend::scope_verdict(
            plugin,
            grants,
            accesses[i].capability,
            accesses[i].resource,
            verdicts_on(matched, i),
        ) is Ok,
    decreases i - from,
{
    if from < i {
        lemma_no_refusal(plugin, grants, accesses, matched, from + 1, i);
    }
}

/// A call goes on only where every one of its accesses is granted and nothing else refuses it.
pub proof fn law_every_access_is_granted(
    plugin: Seq<char>,
    grants: Seq<GrantView>,
    plan: PlanView,
    matched: Seq<Vec<bool>>,
    i: int,
)
    requires
        plan_verdict(plugin, grants, plan, matched) is Ok,
        0 <= i < plan.accesses.len(),
    ensures
        plan.refusal is None,
        backend::covered(grants, plan.accesses[i].capability, verdicts_on(matched, i)),
{
    lemma_no_refusal(plugin, grants, plan.accesses, matched, 0, i);
}

/// A plugin that declared nothing can do nothing that takes a capability.
pub proof fn law_nothing_declared_nothing_allowed(
    plugin: Seq<char>,
    plan: PlanView,
    matched: Seq<Vec<bool>>,
)
    requires
        plan.accesses.len() > 0,
    ensures
        plan_verdict(plugin, Seq::empty(), plan, matched) is Err,
{
    if plan_verdict(plugin, Seq::empty(), plan, matched) is Ok {
        law_every_access_is_granted(plugin, Seq::empty(), plan, matched, 0);
    }
}

/// A transaction goes on only where it may be executed and every key of its compares and of
/// both branches is text and covered: a single key out of scope refuses all of it.
pub proof fn law_transaction_covers_both_branches(
    plugin: Seq<char>,
    grants: Seq<GrantView>,
    req: TxnReqView,
    matched: Seq<Vec<bool>>,
    i: int,
)
    requires
        plan_verdict(plugin, grants, txn_plan(req), matched) is Ok,
        0 <= i < txn_needs(req).len(),
    ensures
        backend::covered(grants, CAP_TXN_EXECUTE@, verdicts_on(matched, 0)),
        backend::key_resource_spec(txn_needs(req)[i].1) is Ok,
        backend::covered(grants, txn_needs(req)[i].0, verdicts_on(matched, i + 1)),
{
    let needs = txn_needs(req);
    let plan = txn_plan(req);
    let n = text_keys(needs);
    law_every_access_is_granted(plugin, grants, plan, matched, 0);
    assert(n >= needs.len());
    lemma_text_keys_are_text(needs, i);
    law_every_access_is_granted(plugin, grants, plan, matched, i + 1);
    assert(plan.accesses[i + 1] == access(
        needs[i].0,
        backend::key_resource_spec(needs[i].1)->Ok_0,
    ));
}

/// A key that is not text is never reached, whatever a plugin declared.
pub proof fn law_keys_that_are_not_text_are_refused(
    plugin: Seq<char>,
    grants: Seq<GrantView>,
    key: Seq<u8>,
    capabilities: Seq<Seq<char>>,
    op: CallOp,
    bytes: usize,
    matched: Seq<Vec<bool>>,
)
    requires
        !vstd::utf8::valid_utf8(key),
    ensures
        plan_verdict(plugin, grants, key_plan(key, capabilities, op, bytes), matched) == Err::<
            (),
            SdkErrorView,
        >(
            backend::sdk_error(
                SdkErrorCode::Forbidden,
                "non-UTF-8 keys are not addressable under a declared scope"@,
            ),
        ),
{
}

/// The transaction of a create takes no more rights than the create itself was checked for.
pub proof fn law_create_needs_what_its_transaction_needs(key: Seq<u8>, value: Seq<u8>, lease_id: i64)
    requires
        vstd::utf8::valid_utf8(key),
    ensures
        txn_plan(create_txn(key, value, lease_id)).accesses == create_plan(key, 0).accesses,
{
    let req = create_txn(key, value, lease_id);
    let needs = txn_needs(req);
    assert(needs =~= seq![(CAP_KV_READ@, key), (CAP_KV_WRITE@, key)]);
    lemma_text_keys(needs, 2);
    assert(txn_plan(req).accesses =~= create_plan(key, 0).accesses);
}

} // verus!
