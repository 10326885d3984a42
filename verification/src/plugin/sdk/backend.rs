//! Data types of the host functions, their errors, and the scope a plugin declared.
use crate::plugin::manifest::PluginCapability;
use crate::text::{same_text, text_of_utf8};
use vstd::prelude::*;
use vstd::utf8::*;

verus! {

// ---- capability ids ----

/// Read keys (range requests, compares and ranges of a transaction).
pub const CAP_KV_READ: &'static str = "data:kv:read";

/// Write keys.
pub const CAP_KV_WRITE: &'static str = "data:kv:write";

/// Delete keys.
pub const CAP_KV_DELETE: &'static str = "data:kv:delete";

/// Execute transactions.
pub const CAP_TXN_EXECUTE: &'static str = "data:txn:execute";

/// Grant leases.
pub const CAP_LEASE_GRANT: &'static str = "data:lease:grant";

/// Revoke leases.
pub const CAP_LEASE_REVOKE: &'static str = "data:lease:revoke";

/// Keep leases alive.
pub const CAP_LEASE_KEEPALIVE: &'static str = "data:lease:keepalive";

/// Subscribe to changes.
pub const CAP_WATCH_SUBSCRIBE: &'static str = "data:watch:subscribe";

/// Read objects.
pub const CAP_STORAGE_READ: &'static str = "data:storage:read";

/// Write objects.
pub const CAP_STORAGE_WRITE: &'static str = "data:storage:write";

// ---- errors ----

/// Class of a host error; it decides the exception that the plugin sees.
#[derive(Debug, Clone, Copy, PartialEq, Eq, Structural)]
pub enum SdkErrorCode {
    NotFound,
    /// The cluster is unavailable.
    Unavailable,
    /// A capability or its scope does not cover the call.
    Forbidden,
    ResourceExhausted,
    InvalidArgument,
    /// A create met an existing key.
    Conflict,
    Internal,
}

/// Exception name of an error class.
pub open spec fn exception_text(code: SdkErrorCode) -> Seq<char> {
    match code {
        SdkErrorCode::NotFound => "ErrNotFound"@,
        SdkErrorCode::Unavailable => "ErrUnavailable"@,
        SdkErrorCode::Forbidden => "ErrForbidden"@,
        SdkErrorCode::ResourceExhausted => "ErrResourceExhausted"@,
        SdkErrorCode::InvalidArgument => "ErrInvalidArgument"@,
        SdkErrorCode::Conflict => "ErrConflict"@,
        SdkErrorCode::Internal => "ErrInternal"@,
    }
}

/// Short name of an error class.
pub open spec fn code_text(code: SdkErrorCode) -> Seq<char> {
    match code {
        SdkErrorCode::NotFound => "not_found"@,
        SdkErrorCode::Unavailable => "unavailable"@,
        SdkErrorCode::Forbidden => "forbidden"@,
        SdkErrorCode::ResourceExhausted => "resource_exhausted"@,
        SdkErrorCode::InvalidArgument => "invalid_argument"@,
        SdkErrorCode::Conflict => "conflict"@,
        SdkErrorCode::Internal => "internal"@,
    }
}

impl SdkErrorCode {
    /// Every class.
    pub const ALL: [SdkErrorCode; 7] = [
        SdkErrorCode::NotFound,
        SdkErrorCode::Unavailable,
        SdkErrorCode::Forbidden,
        SdkErrorCode::ResourceExhausted,
        SdkErrorCode::InvalidArgument,
        SdkErrorCode::Conflict,
        SdkErrorCode::Internal,
    ];

    /// Name of the exception that the plugin sees.
    pub fn exception_name(self) -> (r: &'static str)
        ensures
            r@ == exception_text(self),
    {
        match self {
            SdkErrorCode::NotFound => "ErrNotFound",
            SdkErrorCode::Unavailable => "ErrUnavailable",
            SdkErrorCode::Forbidden => "ErrForbidden",
            SdkErrorCode::ResourceExhausted => "ErrResourceExhausted",
            SdkErrorCode::InvalidArgument => "ErrInvalidArgument",
            SdkErrorCode::Conflict => "ErrConflict",
            SdkErrorCode::Internal => "ErrInternal",
        }
    }

    /// Stable short name for logs and metrics.
    pub fn as_str(self) -> (r: &'static str)
        ensures
            r@ == code_text(self),
    {
        match self {
            SdkErrorCode::NotFound => "not_found",
            SdkErrorCode::Unavailable => "unavailable",
            SdkErrorCode::Forbidden => "forbidden",
            SdkErrorCode::ResourceExhausted => "resource_exhausted",
            SdkErrorCode::InvalidArgument => "invalid_argument",
            SdkErrorCode::Conflict => "conflict",
            SdkErrorCode::Internal => "internal",
        }
    }
}

/// A host error: its class and a message for the plugin's author.
#[derive(Debug, Clone, PartialEq, Eq)]
pub struct SdkError {
    pub code: SdkErrorCode,
    pub message: String,
}

/// Contents of a host error.
pub struct SdkErrorView {
    pub code: SdkErrorCode,
    pub message: Seq<char>,
}

impl View for SdkError {
    type V = SdkErrorView;

    open spec fn view(&self) -> SdkErrorView {
        SdkErrorView { code: self.code, message: self.message@ }
    }
}

/// The error of a class with a message.
pub open spec fn sdk_error(code: SdkErrorCode, message: Seq<char>) -> SdkErrorView {
    SdkErrorView { code, message }
}

/// Outcome of a host call.
pub type SdkResult<T> = Result<T, SdkError>;

impl SdkError {
    /// An error of a class with a message.
    pub fn new(code: SdkErrorCode, message: &str) -> (r: Self)
        ensures
            r@ == sdk_error(code, message@),
    {
        SdkError { code, message: message.to_owned() }
    }

    pub fn not_found(message: &str) -> (r: Self)
        ensures
            r@ == sdk_error(SdkErrorCode::NotFound, message@),
    {
        Self::new(SdkErrorCode::NotFound, message)
    }

    pub fn unavailable(message: &str) -> (r: Self)
        ensures
            r@ == sdk_error(SdkErrorCode::Unavailable, message@),
    {
        Self::new(SdkErrorCode::Unavailable, message)
    }

    pub fn forbidden(message: &str) -> (r: Self)
        ensures
            r@ == sdk_error(SdkErrorCode::Forbidden, message@),
    {
        Self::new(SdkErrorCode::Forbidden, message)
    }

    pub fn resource_exhausted(message: &str) -> (r: Self)
        ensures
            r@ == sdk_error(SdkErrorCode::ResourceExhausted, message@),
    {
        Self::new(SdkErrorCode::ResourceExhausted, message)
    }

    pub fn invalid_argument(message: &str) -> (r: Self)
        ensures
            r@ == sdk_error(SdkErrorCode::InvalidArgument, message@),
    {
        Self::new(SdkErrorCode::InvalidArgument, message)
    }

    /// A create met an existing key.
    pub fn conflict(message: &str) -> (r: Self)
        ensures
            r@ == sdk_error(SdkErrorCode::Conflict, message@),
    {
        Self::new(SdkErrorCode::Conflict, message)
    }

    pub fn internal(message: &str) -> (r: Self)
        ensures
            r@ == sdk_error(SdkErrorCode::Internal, message@),
    {
        Self::new(SdkErrorCode::Internal, message)
    }

    /// The error as one line: exception name, colon, message.
    pub fn to_text(&self) -> (r: String)
        ensures
            r@ == error_line(self@),
    {
        let mut s = self.code.exception_name().to_owned();
        s.append(": ");
        s.append(self.message.as_str());
        s
    }

    /// A copy of the error.
    pub fn duplicate(&self) -> (r: Self)
        ensures
            r == *self,
    {
        SdkError { code: self.code, message: self.message.clone() }
    }
}

/// One-line text of a host error.
pub open spec fn error_line(e: SdkErrorView) -> Seq<char> {
    exception_text(e.code) + ": "@ + e.message
}

// ---- views of sequences ----

/// The contents of each element.
pub open spec fn views<T: View>(s: Seq<T>) -> Seq<T::V> {
    Seq::new(s.len(), |i: int| s[i].view())
}

/// The contents of an optional element.
pub open spec fn opt_view<T: View>(o: Option<T>) -> Option<T::V> {
    match o {
        Some(t) => Some(t.view()),
        None => None,
    }
}

// ---- declared scope ----

/// What a plugin may do: the capabilities it declared, each with the scope it is restricted to.
///
/// An empty scope restricts nothing. Whether another scope covers a resource is decided outside of
/// this type: a check takes one verdict per declared capability, `false` where the declared scope
/// is malformed.
#[derive(Debug)]
pub struct PluginScope {
    plugin: String,
    grants: Vec<Grant>,
}

#[derive(Debug)]
struct Grant {
    id: String,
    scope: String,
}

/// A declared capability.
pub struct GrantView {
    pub id: Seq<char>,
    /// What the capability is restricted to; empty where nothing restricts it.
    pub scope: Seq<char>,
}

/// The capabilities that a manifest declares, in order.
pub open spec fn grants_of(capabilities: Seq<PluginCapability>) -> Seq<GrantView> {
    Seq::new(
        capabilities.len(),
        |i: int| GrantView { id: capabilities[i].id@, scope: capabilities[i].scope@ },
    )
}

/// Whether a declared capability id answers for a capability: the id itself or `*`.
pub open spec fn answers_for(id: Seq<char>, capability: Seq<char>) -> bool {
    id == capability || id == "*"@
}

/// Whether some declared id answers for the capability.
pub open spec fn declared(grants: Seq<GrantView>, capability: Seq<char>) -> bool {
    exists|i: int| 0 <= i < grants.len() && answers_for((#[trigger] grants[i]).id, capability)
}

/// Whether the scope at a place lets the resource through: it is empty, or it covers the resource.
pub open spec fn lets_through(grants: Seq<GrantView>, matched: Seq<bool>, i: int) -> bool {
    grants[i].scope.len() == 0 || (i < matched.len() && matched[i])
}

/// Whether some declared id answers for the capability and its scope lets the resource through.
pub open spec fn covered(grants: Seq<GrantView>, capability: Seq<char>, matched: Seq<bool>) -> bool {
    exists|i: int|
        0 <= i < grants.len() && answers_for((#[trigger] grants[i]).id, capability) && lets_through(
            grants,
            matched,
            i,
        )
}

/// Refusal of a resource outside of every declared scope.
pub open spec fn outside_scope_text(
    plugin: Seq<char>,
    capability: Seq<char>,
    resource: Seq<char>,
) -> Seq<char> {
    "plugin '"@ + plugin + "' resource '"@ + resource
        + "' is outside the declared scope of capability '"@ + capability + "'"@
}

/// Refusal of a capability that was not declared.
pub open spec fn undeclared_text(plugin: Seq<char>, capability: Seq<char>) -> Seq<char> {
    "plugin '"@ + plugin + "' does not declare capability '"@ + capability + "'"@
}

/// Outcome of a scope check: allowed exactly where a declared capability covers the resource.
pub open spec fn scope_verdict(
    plugin: Seq<char>,
    grants: Seq<GrantView>,
    capability: Seq<char>,
    resource: Seq<char>,
    matched: Seq<bool>,
) -> Result<(), SdkErrorView> {
    if covered(grants, capability, matched) {
        Ok(())
    } else if declared(grants, capability) {
        Err(sdk_error(SdkErrorCode::Forbidden, outside_scope_text(plugin, capability, resource)))
    } else {
        Err(sdk_error(SdkErrorCode::Forbidden, undeclared_text(plugin, capability)))
    }
}

/// Contents of a unit outcome.
pub open spec fn unit_view(r: SdkResult<()>) -> Result<(), SdkErrorView> {
    match r {
        Ok(_) => Ok(()),
        Err(e) => Err(e@),
    }
}

impl PluginScope {
    /// Name of the plugin.
    pub closed spec fn plugin_name(&self) -> Seq<char> {
        self.plugin@
    }

    /// The declared capabilities, in order of declaration.
    pub closed spec fn grants(&self) -> Seq<GrantView> {
        Seq::new(
            self.grants@.len(),
            |i: int| GrantView { id: self.grants@[i].id@, scope: self.grants@[i].scope@ },
        )
    }

    /// The scope of a plugin with its declared capabilities.
    pub fn new(plugin: &str, capabilities: &[PluginCapability]) -> (r: Self)
        ensures
            r.plugin_name() == plugin@,
            r.grants() == grants_of(capabilities@),
    {
        let mut grants: Vec<Grant> = Vec::new();
        let mut i: usize = 0;
        while i < capabilities.len()
            invariant
                i <= capabilities@.len(),
                grants@.len() == i,
                forall|k: int|
                    0 <= k < i ==> (#[trigger] grants@[k]).id@ == capabilities@[k].id@
                        && grants@[k].scope@ == capabilities@[k].scope@,
            decreases capabilities@.len() - i,
        {
            grants.push(
                Grant { id: capabilities[i].id.clone(), scope: capabilities[i].scope.clone() },
            );
            i += 1;
        }
        let r = PluginScope { plugin: plugin.to_owned(), grants };
        assert(r.grants() =~= grants_of(capabilities@));
        r
    }

    /// A scope without any declared capability.
    pub fn empty(plugin: &str) -> (r: Self)
        ensures
            r.plugin_name() == plugin@,
            r.grants() == Seq::<GrantView>::empty(),
    {
        let r = PluginScope { plugin: plugin.to_owned(), grants: Vec::new() };
        assert(r.grants() =~= Seq::<GrantView>::empty());
        r
    }

    /// Name of the plugin.
    pub fn plugin(&self) -> (r: &str)
        ensures
            r@ == self.plugin_name(),
    {
        self.plugin.as_str()
    }

    /// How many capabilities are declared.
    pub fn len(&self) -> (r: usize)
        ensures
            r == self.grants().len(),
    {
        self.grants.len()
    }

    pub fn is_empty(&self) -> (r: bool)
        ensures
            r == (self.grants().len() == 0),
    {
        self.grants.len() == 0
    }

    /// Checks a capability on a resource. `matched` says of each declared capability whether
    /// its scope covers the resource.
    pub fn check(&self, capability: &str, resource: &str, matched: &[bool]) -> (r: SdkResult<()>)
        ensures
            unit_view(r) == scope_verdict(
                self.plugin_name(),
                self.grants(),
                capability@,
                resource@,
                matched@,
            ),
    {
        let mut found = false;
        let mut i: usize = 0;
        while i < self.grants.len()
            invariant
                i <= self.grants@.len(),
                forall|k: int|
                    0 <= k < i && answers_for((#[trigger] self.grants()[k]).id, capability@)
                        ==> !lets_through(self.grants(), matched@, k),
                found == exists|k: int|
                    0 <= k < i && answers_for((#[trigger] self.grants()[k]).id, capability@),
            decreases self.grants@.len() - i,
        {
            let id = self.grants[i].id.as_str();
            assert(self.grants()[i as int].id == id@);
            if same_text(id, capability) || same_text(id, "*") {
                found = true;
                let unrestricted = self.grants[i].scope.as_str().is_empty();
                if unrestricted || (i < matched.len() && matched[i]) {
                    return Ok(());
                }
            }
            i += 1;
        }
        if found {
            let mut s = "plugin '".to_owned();
            s.append(self.plugin.as_str());
            s.append("' resource '");
            s.append(resource);
            s.append("' is outside the declared scope of capability '");
            s.append(capability);
            s.append("'");
            Err(SdkError::forbidden(s.as_str()))
        } else {
            let mut s = "plugin '".to_owned();
            s.append(self.plugin.as_str());
            s.append("' does not declare capability '");
            s.append(capability);
            s.append("'");
            Err(SdkError::forbidden(s.as_str()))
        }
    }
}

/// A capability that was not declared is refused whatever its resource is, and however the
/// declared scopes would match it.
pub proof fn law_undeclared_capability_is_refused(
    plugin: Seq<char>,
    grants: Seq<GrantView>,
    capability: Seq<char>,
    resource: Seq<char>,
    matched: Seq<bool>,
)
    requires
        !declared(grants, capability),
    ensures
        scope_verdict(plugin, grants, capability, resource, matched) == Err::<(), SdkErrorView>(
            sdk_error(SdkErrorCode::Forbidden, undeclared_text(plugin, capability)),
        ),
{
    assert(!covered(grants, capability, matched));
}

/// A malformed scope fails closed: where every declared scope restricts something and none
/// matches, nothing is allowed.
pub proof fn law_nothing_matched_is_refused(
    plugin: Seq<char>,
    grants: Seq<GrantView>,
    capability: Seq<char>,
    resource: Seq<char>,
    matched: Seq<bool>,
)
    requires
        forall|i: int| 0 <= i < grants.len() ==> (#[trigger] grants[i]).scope.len() > 0,
        forall|i: int| 0 <= i < matched.len() ==> !matched[i],
    ensures
        scope_verdict(plugin, grants, capability, resource, matched) is Err,
        scope_verdict(plugin, grants, capability, resource, matched)->Err_0.code
            == SdkErrorCode::Forbidden,
{
    assert(!covered(grants, capability, matched));
}

/// An empty scope never restricts: a capability that is declared with it is allowed on every
/// resource, however the declared scopes would match it.
pub proof fn law_empty_scope_never_restricts(
    plugin: Seq<char>,
    grants: Seq<GrantView>,
    capability: Seq<char>,
    resource: Seq<char>,
    matched: Seq<bool>,
    i: int,
)
    requires
        0 <= i < grants.len(),
        answers_for(grants[i].id, capability),
        grants[i].scope.len() == 0,
    ensures
        scope_verdict(plugin, grants, capability, resource, matched) is Ok,
{
    assert(lets_through(grants, matched, i));
}

/// Declaring more never takes away what a scope allows.
pub proof fn law_more_grants_allow_more(
    plugin: Seq<char>,
    grants: Seq<GrantView>,
    matched: Seq<bool>,
    extra: GrantView,
    extra_matched: bool,
    capability: Seq<char>,
    resource: Seq<char>,
)
    requires
        grants.len() == matched.len(),
        scope_verdict(plugin, grants, capability, resource, matched) is Ok,
    ensures
        scope_verdict(
            plugin,
            grants.push(extra),
            capability,
            resource,
            matched.push(extra_matched),
        ) is Ok,
{
    let i = choose|i: int|
        0 <= i < grants.len() && answers_for((#[trigger] grants[i]).id, capability) && lets_through(
            grants,
            matched,
            i,
        );
    assert(grants.push(extra)[i] == grants[i]);
    assert(lets_through(grants.push(extra), matched.push(extra_matched), i));
}

/// Outcome of turning a key into a scope resource.
pub open spec fn key_resource_spec(key: Seq<u8>) -> Result<Seq<char>, SdkErrorView> {
    if valid_utf8(key) {
        Ok(decode_utf8(key))
    } else {
        Err(
            sdk_error(
                SdkErrorCode::Forbidden,
                "non-UTF-8 keys are not addressable under a declared scope"@,
            ),
        )
    }
}

/// Contents of a textual outcome.
pub open spec fn text_view(r: SdkResult<String>) -> Result<Seq<char>, SdkErrorView> {
    match r {
        Ok(s) => Ok(s@),
        Err(e) => Err(e@),
    }
}

/// The scope resource of a key; keys that are not UTF-8 are refused.
pub fn key_resource(key: &[u8]) -> (r: SdkResult<String>)
    ensures
        text_view(r) == key_resource_spec(key@),
{
    match text_of_utf8(vstd::slice::slice_to_vec(key)) {
        Some(s) => Ok(s),
        None => Err(
            SdkError::forbidden("non-UTF-8 keys are not addressable under a declared scope"),
        ),
    }
}

// ---- keys, transactions ----

/// A key with its value, as plugins see it.
#[derive(Debug, Clone, PartialEq, Eq)]
pub struct KvRecord {
    pub key: Vec<u8>,
    pub value: Vec<u8>,
    pub lease_id: i64,
    pub version: i64,
}

/// Contents of [`KvRecord`].
pub struct KvRecordView {
    pub key: Seq<u8>,
    pub value: Seq<u8>,
    pub lease_id: i64,
    pub version: i64,
}

impl View for KvRecord {
    type V = KvRecordView;

    open spec fn view(&self) -> KvRecordView {
        KvRecordView {
            key: self.key@,
            value: self.value@,
            lease_id: self.lease_id,
            version: self.version,
        }
    }
}

/// Request to write a key.
#[derive(Debug, Clone, PartialEq, Eq)]
pub struct KvPut {
    pub key: Vec<u8>,
    pub value: Vec<u8>,
    /// Lease to bind to; 0 binds none.
    pub lease_id: i64,
    /// Whether the previous record is wanted.
    pub prev_kv: bool,
    /// Identifier that makes the request idempotent; empty for none.
    pub request_id: Vec<u8>,
}

/// Contents of [`KvPut`].
pub struct KvPutView {
    pub key: Seq<u8>,
    pub value: Seq<u8>,
    pub lease_id: i64,
    pub prev_kv: bool,
    pub request_id: Seq<u8>,
}

impl View for KvPut {
    type V = KvPutView;

    open spec fn view(&self) -> KvPutView {
        KvPutView {
            key: self.key@,
            value: self.value@,
            lease_id: self.lease_id,
            prev_kv: self.prev_kv,
            request_id: self.request_id@,
        }
    }
}

/// Outcome of a write.
#[derive(Debug, Clone, PartialEq, Eq)]
pub struct KvPutOut {
    pub prev_kv: Option<KvRecord>,
    pub revision: i64,
}

/// Contents of [`KvPutOut`].
pub struct KvPutOutView {
    pub prev_kv: Option<KvRecordView>,
    pub revision: i64,
}

impl View for KvPutOut {
    type V = KvPutOutView;

    open spec fn view(&self) -> KvPutOutView {
        KvPutOutView {
            prev_kv: opt_view(self.prev_kv),
            revision: self.revision,
        }
    }
}

/// Request to read keys.
#[derive(Debug, Clone, PartialEq, Eq)]
pub struct KvRange {
    pub key: Vec<u8>,
    /// Exclusive end; empty reads the single key.
    pub range_end: Vec<u8>,
    /// Most records to return; 0 for all.
    pub limit: i64,
    /// Revision to read at; 0 for the latest.
    pub revision: i64,
    pub keys_only: bool,
    pub count_only: bool,
}

/// Contents of [`KvRange`].
pub struct KvRangeView {
    pub key: Seq<u8>,
    pub range_end: Seq<u8>,
    pub limit: i64,
    pub revision: i64,
    pub keys_only: bool,
    pub count_only: bool,
}

impl View for KvRange {
    type V = KvRangeView;

    open spec fn view(&self) -> KvRangeView {
        KvRangeView {
            key: self.key@,
            range_end: self.range_end@,
            limit: self.limit,
            revision: self.revision,
            keys_only: self.keys_only,
            count_only: self.count_only,
        }
    }
}

/// Outcome of a read.
#[derive(Debug, Clone, PartialEq, Eq)]
pub struct KvRangeOut {
    pub kvs: Vec<KvRecord>,
    pub count: i64,
    pub revision: i64,
}

/// Contents of [`KvRangeOut`].
pub struct KvRangeOutView {
    pub kvs: Seq<KvRecordView>,
    pub count: i64,
    pub revision: i64,
}

impl View for KvRangeOut {
    type V = KvRangeOutView;

    open spec fn view(&self) -> KvRangeOutView {
        KvRangeOutView {
            kvs: views(self.kvs@),
            count: self.count,
            revision: self.revision,
        }
    }
}

/// Request to delete keys.
#[derive(Debug, Clone, PartialEq, Eq)]
pub struct KvDelete {
    pub key: Vec<u8>,
    pub range_end: Vec<u8>,
    pub prev_kv: bool,
    pub request_id: Vec<u8>,
}

/// Contents of [`KvDelete`].
pub struct KvDeleteView {
    pub key: Seq<u8>,
    pub range_end: Seq<u8>,
    pub prev_kv: bool,
    pub request_id: Seq<u8>,
}

impl View for KvDelete {
    type V = KvDeleteView;

    open spec fn view(&self) -> KvDeleteView {
        KvDeleteView {
            key: self.key@,
            range_end: self.range_end@,
            prev_kv: self.prev_kv,
            request_id: self.request_id@,
        }
    }
}

/// Outcome of a delete.
#[derive(Debug, Clone, PartialEq, Eq)]
pub struct KvDeleteOut {
    pub deleted: i64,
    pub prev_kvs: Vec<KvRecord>,
    pub revision: i64,
}

/// Contents of [`KvDeleteOut`].
pub struct KvDeleteOutView {
    pub deleted: i64,
    pub prev_kvs: Seq<KvRecordView>,
    pub revision: i64,
}

impl View for KvDeleteOut {
    type V = KvDeleteOutView;

    open spec fn view(&self) -> KvDeleteOutView {
        KvDeleteOutView {
            deleted: self.deleted,
            prev_kvs: views(self.prev_kvs@),
            revision: self.revision,
        }
    }
}

/// What a compare looks at.
#[derive(Debug, Clone, Copy, PartialEq, Eq, Structural)]
pub enum CompareTarget {
    Version,
    Value,
    ModRevision,
}

/// How a compare compares.
#[derive(Debug, Clone, Copy, PartialEq, Eq, Structural)]
pub enum CompareOp {
    Equal,
    Greater,
    Less,
    NotEqual,
}

/// One condition of a transaction.
#[derive(Debug, Clone, PartialEq, Eq)]
pub struct Compare {
    pub op: CompareOp,
    pub target: CompareTarget,
    pub key: Vec<u8>,
    /// Operand where the target is a version or a revision.
    pub int_value: i64,
    /// Operand where the target is the value.
    pub bytes_value: Vec<u8>,
}

/// Contents of [`Compare`].
pub struct CompareView {
    pub op: CompareOp,
    pub target: CompareTarget,
    pub key: Seq<u8>,
    pub int_value: i64,
    pub bytes_value: Seq<u8>,
}

impl View for Compare {
    type V = CompareView;

    open spec fn view(&self) -> CompareView {
        CompareView {
            op: self.op,
            target: self.target,
            key: self.key@,
            int_value: self.int_value,
            bytes_value: self.bytes_value@,
        }
    }
}

/// One operation of a transaction branch.
#[derive(Debug, Clone, PartialEq, Eq)]
pub enum TxnOp {
    Put(KvPut),
    Range(KvRange),
    Delete(KvDelete),
}

/// Contents of [`TxnOp`].
pub enum TxnOpView {
    Put(KvPutView),
    Range(KvRangeView),
    Delete(KvDeleteView),
}

impl View for TxnOp {
    type V = TxnOpView;

    open spec fn view(&self) -> TxnOpView {
        match *self {
            TxnOp::Put(x) => TxnOpView::Put(x@),
            TxnOp::Range(x) => TxnOpView::Range(x@),
            TxnOp::Delete(x) => TxnOpView::Delete(x@),
        }
    }
}

/// A transaction: conditions and the operations of both branches.
#[derive(Debug, Clone, PartialEq, Eq)]
pub struct TxnReq {
    pub compares: Vec<Compare>,
    pub success: Vec<TxnOp>,
    pub failure: Vec<TxnOp>,
    pub request_id: Vec<u8>,
}

/// Contents of [`TxnReq`].
pub struct TxnReqView {
    pub compares: Seq<CompareView>,
    pub success: Seq<TxnOpView>,
    pub failure: Seq<TxnOpView>,
    pub request_id: Seq<u8>,
}

impl View for TxnReq {
    type V = TxnReqView;

    open spec fn view(&self) -> TxnReqView {
        TxnReqView {
            compares: views(self.compares@),
            success: views(self.success@),
            failure: views(self.failure@),
            request_id: self.request_id@,
        }
    }
}

/// Outcome of one operation of a transaction.
#[derive(Debug, Clone, PartialEq, Eq)]
pub enum TxnOpOut {
    Put(KvPutOut),
    Range(KvRangeOut),
    Delete(KvDeleteOut),
}

/// Contents of [`TxnOpOut`].
pub enum TxnOpOutView {
    Put(KvPutOutView),
    Range(KvRangeOutView),
    Delete(KvDeleteOutView),
}

impl View for TxnOpOut {
    type V = TxnOpOutView;

    open spec fn view(&self) -> TxnOpOutView {
        match *self {
            TxnOpOut::Put(x) => TxnOpOutView::Put(x@),
            TxnOpOut::Range(x) => TxnOpOutView::Range(x@),
            TxnOpOut::Delete(x) => TxnOpOutView::Delete(x@),
        }
    }
}

/// Outcome of a transaction.
#[derive(Debug, Clone, PartialEq, Eq)]
pub struct TxnOut {
    pub succeeded: bool,
    pub revision: i64,
    pub responses: Vec<TxnOpOut>,
}

/// Contents of [`TxnOut`].
pub struct TxnOutView {
    pub succeeded: bool,
    pub revision: i64,
    pub responses: Seq<TxnOpOutView>,
}

impl View for TxnOut {
    type V = TxnOutView;

    open spec fn view(&self) -> TxnOutView {
        TxnOutView {
            succeeded: self.succeeded,
            revision: self.revision,
            responses: views(self.responses@),
        }
    }
}

// ---- watches ----

/// Request to subscribe to changes.
#[derive(Debug, Clone, PartialEq, Eq)]
pub struct WatchSubscribe {
    pub key: Vec<u8>,
    /// Exclusive end; empty watches the single key.
    pub range_end: Vec<u8>,
    /// First revision to deliver; 0 for the latest.
    pub start_revision: i64,
    /// Whether events carry the previous record.
    pub prev_kv: bool,
}

/// Contents of [`WatchSubscribe`].
pub struct WatchSubscribeView {
    pub key: Seq<u8>,
    pub range_end: Seq<u8>,
    pub start_revision: i64,
    pub prev_kv: bool,
}

impl View for WatchSubscribe {
    type V = WatchSubscribeView;

    open spec fn view(&self) -> WatchSubscribeView {
        WatchSubscribeView {
            key: self.key@,
            range_end: self.range_end@,
            start_revision: self.start_revision,
            prev_kv: self.prev_kv,
        }
    }
}

/// Kind of a change.
#[derive(Debug, Clone, Copy, PartialEq, Eq, Structural)]
pub enum WatchEventKind {
    Put,
    Delete,
    /// The server dropped events; resubscribe by revision and resynchronise.
    BufferOverflow,
    /// The history at the wanted revision is gone.
    HistoryUnavailable,
}

/// Text that plugins see for a kind of change.
pub open spec fn event_kind_text(kind: WatchEventKind) -> Seq<char> {
    match kind {
        WatchEventKind::Put => "PUT"@,
        WatchEventKind::Delete => "DELETE"@,
        WatchEventKind::BufferOverflow => "BUFFER_OVERFLOW"@,
        WatchEventKind::HistoryUnavailable => "HISTORY_UNAVAILABLE"@,
    }
}

impl WatchEventKind {
    /// Text that plugins see.
    pub fn as_str(self) -> (r: &'static str)
        ensures
            r@ == event_kind_text(self),
    {
        match self {
            WatchEventKind::Put => "PUT",
            WatchEventKind::Delete => "DELETE",
            WatchEventKind::BufferOverflow => "BUFFER_OVERFLOW",
            WatchEventKind::HistoryUnavailable => "HISTORY_UNAVAILABLE",
        }
    }
}

/// One delivered change.
#[derive(Debug, Clone, PartialEq, Eq)]
pub struct WatchEventDto {
    pub kind: WatchEventKind,
    pub kvs: Vec<KvRecord>,
    pub prev_kv: Option<KvRecord>,
    pub revision: i64,
}

/// Contents of [`WatchEventDto`].
pub struct WatchEventDtoView {
    pub kind: WatchEventKind,
    pub kvs: Seq<KvRecordView>,
    pub prev_kv: Option<KvRecordView>,
    pub revision: i64,
}

impl View for WatchEventDto {
    type V = WatchEventDtoView;

    open spec fn view(&self) -> WatchEventDtoView {
        WatchEventDtoView {
            kind: self.kind,
            kvs: views(self.kvs@),
            prev_kv: opt_view(self.prev_kv),
            revision: self.revision,
        }
    }
}

// ---- objects ----

/// What is known of a stored object.
#[derive(Debug, Clone, PartialEq, Eq)]
pub struct ObjectStatDto {
    pub bucket: String,
    pub object_id: Vec<u8>,
    pub size: i64,
    pub chunks: i64,
    pub revision: i64,
    /// False where the object is absent or deleted.
    pub exists: bool,
    /// Whether the upload was completed.
    pub committed: bool,
}

/// Contents of [`ObjectStatDto`].
pub struct ObjectStatDtoView {
    pub bucket: Seq<char>,
    pub object_id: Seq<u8>,
    pub size: i64,
    pub chunks: i64,
    pub revision: i64,
    pub exists: bool,
    pub committed: bool,
}

impl View for ObjectStatDto {
    type V = ObjectStatDtoView;

    open spec fn view(&self) -> ObjectStatDtoView {
        ObjectStatDtoView {
            bucket: self.bucket@,
            object_id: self.object_id@,
            size: self.size,
            chunks: self.chunks,
            revision: self.revision,
            exists: self.exists,
            committed: self.committed,
        }
    }
}

/// Outcome of an upload.
#[derive(Debug, Clone, PartialEq, Eq)]
pub struct ObjectPutOut {
    pub revision: i64,
    pub size: i64,
    pub chunks: i64,
}

/// Contents of [`ObjectPutOut`].
pub struct ObjectPutOutView {
    pub revision: i64,
    pub size: i64,
    pub chunks: i64,
}

impl View for ObjectPutOut {
    type V = ObjectPutOutView;

    open spec fn view(&self) -> ObjectPutOutView {
        ObjectPutOutView {
            revision: self.revision,
            size: self.size,
            chunks: self.chunks,
        }
    }
}

/// A downloaded object.
#[derive(Debug, Clone, PartialEq, Eq)]
pub struct ObjectGetOut {
    pub stat: ObjectStatDto,
    pub data: Vec<u8>,
}

/// Contents of [`ObjectGetOut`].
pub struct ObjectGetOutView {
    pub stat: ObjectStatDtoView,
    pub data: Seq<u8>,
}

impl View for ObjectGetOut {
    type V = ObjectGetOutView;

    open spec fn view(&self) -> ObjectGetOutView {
        ObjectGetOutView {
            stat: self.stat@,
            data: self.data@,
        }
    }
}

/// An error has the class that it is made for and the message that it is given, and reads as the
/// name of its exception followed by the message.
pub proof fn law_errors_say_what_they_are(
    code: SdkErrorCode,
    message: &str,
    e: SdkError,
    line: String,
    name: &'static str,
    short: &'static str,
)
    requires
        call_ensures(SdkError::new, (code, message), e),
        call_ensures(SdkError::to_text, (&e,), line),
        call_ensures(SdkErrorCode::exception_name, (code,), name),
        call_ensures(SdkErrorCode::as_str, (code,), short),
    ensures
        e.code == code && e.message@ == message@,
        line@ == name@ + ": "@ + message@,
        short@ == (match code {
            SdkErrorCode::NotFound => "not_found"@,
            SdkErrorCode::Unavailable => "unavailable"@,
            SdkErrorCode::Forbidden => "forbidden"@,
            SdkErrorCode::ResourceExhausted => "resource_exhausted"@,
            SdkErrorCode::InvalidArgument => "invalid_argument"@,
            SdkErrorCode::Conflict => "conflict"@,
            SdkErrorCode::Internal => "internal"@,
        }),
{
}

/// Each way to make an error gives the class that it is named for.
pub proof fn law_errors_are_made_by_class(
    m: &str,
    not_found: SdkError,
    unavailable: SdkError,
    forbidden: SdkError,
    resource_exhausted: SdkError,
    invalid_argument: SdkError,
    conflict: SdkError,
    internal: SdkError,
)
    requires
        call_ensures(SdkError::not_found, (m,), not_found),
        call_ensures(SdkError::unavailable, (m,), unavailable),
        call_ensures(SdkError::forbidden, (m,), forbidden),
        call_ensures(SdkError::resource_exhausted, (m,), resource_exhausted),
        call_ensures(SdkError::invalid_argument, (m,), invalid_argument),
        call_ensures(SdkError::conflict, (m,), conflict),
        call_ensures(SdkError::internal, (m,), internal),
    ensures
        not_found.code is NotFound && not_found.message@ == m@,
        unavailable.code is Unavailable && unavailable.message@ == m@,
        forbidden.code is Forbidden && forbidden.message@ == m@,
        resource_exhausted.code is ResourceExhausted && resource_exhausted.message@ == m@,
        invalid_argument.code is InvalidArgument && invalid_argument.message@ == m@,
        conflict.code is Conflict && conflict.message@ == m@,
        internal.code is Internal && internal.message@ == m@,
{
}

/// Plugins see every kind of change under a name of its own.
pub proof fn law_changes_have_names(kind: WatchEventKind, name: &'static str)
    requires
        call_ensures(WatchEventKind::as_str, (kind,), name),
    ensures
        kind is Put ==> name@ == "PUT"@,
        kind is Delete ==> name@ == "DELETE"@,
        kind is BufferOverflow ==> name@ == "BUFFER_OVERFLOW"@,
        kind is HistoryUnavailable ==> name@ == "HISTORY_UNAVAILABLE"@,
{
}

} // verus!
