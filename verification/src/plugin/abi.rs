//! The host surface as seen from each guest interface, and the error codes they share.
use crate::plugin::sdk::backend::SdkErrorCode;
use crate::plugin::sdk::backend;
use vstd::prelude::*;

verus! {

// ---- wire codes of the core interface ----

pub const ERR_FORBIDDEN: i32 = -1;

pub const ERR_NOT_FOUND: i32 = -2;

pub const ERR_INVALID: i32 = -3;

pub const ERR_UNAVAILABLE: i32 = -4;

pub const ERR_EXHAUSTED: i32 = -5;

pub const ERR_INTERNAL: i32 = -6;

/// The guest's output buffer is too small.
pub const ERR_BUFFER_TOO_SMALL: i32 = -7;

/// Guest memory could not be accessed.
pub const ERR_MEMORY: i32 = -8;

/// A create met an existing key.
pub const ERR_CONFLICT: i32 = -9;

/// Wire code of an error class.
pub open spec fn wire_code(code: SdkErrorCode) -> i32 {
    match code {
        SdkErrorCode::Forbidden => ERR_FORBIDDEN,
        SdkErrorCode::NotFound => ERR_NOT_FOUND,
        SdkErrorCode::InvalidArgument => ERR_INVALID,
        SdkErrorCode::Unavailable => ERR_UNAVAILABLE,
        SdkErrorCode::ResourceExhausted => ERR_EXHAUSTED,
        SdkErrorCode::Conflict => ERR_CONFLICT,
        SdkErrorCode::Internal => ERR_INTERNAL,
    }
}

/// Name of a wire code; an unknown code reads as an internal error.
pub open spec fn wire_name(code: i32) -> Seq<char> {
    if code == ERR_FORBIDDEN {
        "ErrForbidden"@
    } else if code == ERR_NOT_FOUND {
        "ErrNotFound"@
    } else if code == ERR_INVALID {
        "ErrInvalidArgument"@
    } else if code == ERR_UNAVAILABLE {
        "ErrUnavailable"@
    } else if code == ERR_EXHAUSTED {
        "ErrResourceExhausted"@
    } else if code == ERR_CONFLICT {
        "ErrConflict"@
    } else if code == ERR_BUFFER_TOO_SMALL {
        "ErrBufferTooSmall"@
    } else if code == ERR_MEMORY {
        "ErrMemoryAccess"@
    } else {
        "ErrInternal"@
    }
}

// ---- the ledger of host operations ----

/// Where one host operation stands in each guest interface.
#[derive(Debug, Clone, Copy)]
pub struct HostOp {
    /// Function of the component interface.
    pub wit: &'static str,
    /// Import of the core interface, where it has one.
    pub core: Option<&'static str>,
    /// Place in the script interface, where it has one.
    pub js: Option<&'static str>,
}

/// Contents of a ledger line.
pub struct HostOpView {
    pub wit: Seq<char>,
    pub core: Option<Seq<char>>,
    pub js: Option<Seq<char>>,
}

/// Contents of an optional name.
pub open spec fn name_view(o: Option<&'static str>) -> Option<Seq<char>> {
    match o {
        Some(s) => Some(s@),
        None => None,
    }
}

impl View for HostOp {
    type V = HostOpView;

    open spec fn view(&self) -> HostOpView {
        HostOpView { wit: self.wit@, core: name_view(self.core), js: name_view(self.js) }
    }
}

/// A line whose operation is offered by all three interfaces.
pub open spec fn everywhere(wit: Seq<char>, core: Seq<char>, js: Seq<char>) -> HostOpView {
    HostOpView { wit, core: Some(core), js: Some(js) }
}

/// A line whose operation the core interface leaves out.
pub open spec fn not_in_core(wit: Seq<char>, js: Seq<char>) -> HostOpView {
    HostOpView { wit, core: None, js: Some(js) }
}

/// The ledger, in the order of the component interface.
pub open spec fn host_ledger() -> Seq<HostOpView> {
    seq![
        everywhere("kv-put"@, "kv_put"@, "kv.put"@),
        everywhere("kv-get"@, "kv_get"@, "kv.get"@),
        not_in_core("kv-range"@, "kv.range"@),
        everywhere("kv-delete"@, "kv_delete"@, "kv.delete"@),
        everywhere("kv-create"@, "kv_create"@, "kv.create"@),
        not_in_core("txn"@, "txn"@),
        everywhere("lease-grant"@, "lease_grant"@, "lease.grant"@),
        everywhere("lease-revoke"@, "lease_revoke"@, "lease.revoke"@),
        not_in_core("lease-keep-alive"@, "lease.keepAlive"@),
        not_in_core("watch-subscribe"@, "watch.subscribe"@),
        not_in_core("subscription.next"@, "watch#next"@),
        not_in_core("subscription.close"@, "watch#close"@),
        not_in_core("storage-put"@, "storage.put"@),
        not_in_core("storage-get"@, "storage.get"@),
        not_in_core("storage-stat"@, "storage.stat"@),
        not_in_core("storage-delete"@, "storage.delete"@),
        not_in_core("storage-open-write"@, "storage.openWrite"@),
        not_in_core("uploader.write"@, "storage#write"@),
        not_in_core("uploader.commit"@, "storage#commit"@),
        not_in_core("uploader.abort"@, "storage#abort"@),
        not_in_core("storage-open-read"@, "storage.openRead"@),
        not_in_core("downloader.stat"@, "storage#stat"@),
        not_in_core("downloader.read"@, "storage#read"@),
        not_in_core("downloader.close"@, "storage#close"@),
        everywhere("env"@, "env"@, "env"@),
        everywhere("log"@, "log"@, "log"@),
        not_in_core("limits"@, "limits"@),
    ]
}

/// The ledger of host operations.
pub fn host_ops() -> (r: Vec<HostOp>)
    ensures
        crate::plugin::sdk::backend::views(r@) == host_ledger(),
{
    let r: Vec<HostOp> = vec![
        HostOp { wit: "kv-put", core: Some("kv_put"), js: Some("kv.put") },
        HostOp { wit: "kv-get", core: Some("kv_get"), js: Some("kv.get") },
        HostOp { wit: "kv-range", core: None, js: Some("kv.range") },
        HostOp { wit: "kv-delete", core: Some("kv_delete"), js: Some("kv.delete") },
        HostOp { wit: "kv-create", core: Some("kv_create"), js: Some("kv.create") },
        HostOp { wit: "txn", core: None, js: Some("txn") },
        HostOp { wit: "lease-grant", core: Some("lease_grant"), js: Some("lease.grant") },
        HostOp { wit: "lease-revoke", core: Some("lease_revoke"), js: Some("lease.revoke") },
        HostOp { wit: "lease-keep-alive", core: None, js: Some("lease.keepAlive") },
        HostOp { wit: "watch-subscribe", core: None, js: Some("watch.subscribe") },
        HostOp { wit: "subscription.next", core: None, js: Some("watch#next") },
        HostOp { wit: "subscription.close", core: None, js: Some("watch#close") },
        HostOp { wit: "storage-put", core: None, js: Some("storage.put") },
        HostOp { wit: "storage-get", core: None, js: Some("storage.get") },
        HostOp { wit: "storage-stat", core: None, js: Some("storage.stat") },
        HostOp { wit: "storage-delete", core: None, js: Some("storage.delete") },
        HostOp { wit: "storage-open-write", core: None, js: Some("storage.openWrite") },
        HostOp { wit: "uploader.write", core: None, js: Some("storage#write") },
        HostOp { wit: "uploader.commit", core: None, js: Some("storage#commit") },
        HostOp { wit: "uploader.abort", core: None, js: Some("storage#abort") },
        HostOp { wit: "storage-open-read", core: None, js: Some("storage.openRead") },
        HostOp { wit: "downloader.stat", core: None, js: Some("storage#stat") },
        HostOp { wit: "downloader.read", core: None, js: Some("storage#read") },
        HostOp { wit: "downloader.close", core: None, js: Some("storage#close") },
        HostOp { wit: "env", core: Some("env"), js: Some("env") },
        HostOp { wit: "log", core: Some("log"), js: Some("log") },
        HostOp { wit: "limits", core: None, js: Some("limits") },
    ];
    assert(crate::plugin::sdk::backend::views(r@) =~= host_ledger());
    r
}

/// Names of one error in each guest interface.
#[derive(Debug, Clone, Copy)]
pub struct SdkErrorSpec {
    /// Variant of the component interface.
    pub wit: &'static str,
    /// Exception of the script interface, and name of the core code.
    pub name: &'static str,
    /// Wire code of the core interface.
    pub core: i32,
}

/// Whether a ledger line describes an error class.
pub open spec fn describes(line: SdkErrorSpec, code: SdkErrorCode) -> bool {
    &&& line.wit@ == wit_variant(code)
    &&& line.name@ == backend::exception_text(code)
    &&& line.core == wire_code(code)
}

/// Variant of the component interface for an error class.
pub open spec fn wit_variant(code: SdkErrorCode) -> Seq<char> {
    match code {
        SdkErrorCode::Forbidden => "forbidden"@,
        SdkErrorCode::NotFound => "not-found"@,
        SdkErrorCode::InvalidArgument => "invalid-argument"@,
        SdkErrorCode::Unavailable => "unavailable"@,
        SdkErrorCode::ResourceExhausted => "resource-exhausted"@,
        SdkErrorCode::Conflict => "conflict"@,
        SdkErrorCode::Internal => "internal"@,
    }
}

/// Error classes in the order of the error ledger.
pub open spec fn error_order() -> Seq<SdkErrorCode> {
    seq![
        SdkErrorCode::Forbidden,
        SdkErrorCode::NotFound,
        SdkErrorCode::InvalidArgument,
        SdkErrorCode::Unavailable,
        SdkErrorCode::ResourceExhausted,
        SdkErrorCode::Conflict,
        SdkErrorCode::Internal,
    ]
}

/// The ledger of errors: one line per error class.
pub fn sdk_errors() -> (r: Vec<SdkErrorSpec>)
    ensures
        r@.len() == error_order().len(),
        forall|i: int| 0 <= i < r@.len() ==> describes(#[trigger] r@[i], error_order()[i]),
{
    vec![
        SdkErrorSpec { wit: "forbidden", name: "ErrForbidden", core: ERR_FORBIDDEN },
        SdkErrorSpec { wit: "not-found", name: "ErrNotFound", core: ERR_NOT_FOUND },
        SdkErrorSpec { wit: "invalid-argument", name: "ErrInvalidArgument", core: ERR_INVALID },
        SdkErrorSpec { wit: "unavailable", name: "ErrUnavailable", core: ERR_UNAVAILABLE },
        SdkErrorSpec { wit: "resource-exhausted", name: "ErrResourceExhausted", core: ERR_EXHAUSTED },
        SdkErrorSpec { wit: "conflict", name: "ErrConflict", core: ERR_CONFLICT },
        SdkErrorSpec { wit: "internal", name: "ErrInternal", core: ERR_INTERNAL },
    ]
}

/// Errors of the core transport, which no error class stands for.
pub fn core_transport_errors() -> (r: Vec<(&'static str, i32)>)
    ensures
        r@.len() == 2,
        r@[0].0@ == "ErrBufferTooSmall"@ && r@[0].1 == ERR_BUFFER_TOO_SMALL,
        r@[1].0@ == "ErrMemoryAccess"@ && r@[1].1 == ERR_MEMORY,
{
    vec![("ErrBufferTooSmall", ERR_BUFFER_TOO_SMALL), ("ErrMemoryAccess", ERR_MEMORY)]
}

/// Name of a wire code; an unknown code reads as an internal error.
pub fn core_err_name(code: i32) -> (r: &'static str)
    ensures
        r@ == wire_name(code),
{
    if code == ERR_FORBIDDEN {
        "ErrForbidden"
    } else if code == ERR_NOT_FOUND {
        "ErrNotFound"
    } else if code == ERR_INVALID {
        "ErrInvalidArgument"
    } else if code == ERR_UNAVAILABLE {
        "ErrUnavailable"
    } else if code == ERR_EXHAUSTED {
        "ErrResourceExhausted"
    } else if code == ERR_CONFLICT {
        "ErrConflict"
    } else if code == ERR_BUFFER_TOO_SMALL {
        "ErrBufferTooSmall"
    } else if code == ERR_MEMORY {
        "ErrMemoryAccess"
    } else {
        "ErrInternal"
    }
}

/// Wire code of an error class.
pub fn core_err_code(code: SdkErrorCode) -> (r: i32)
    ensures
        r == wire_code(code),
{
    match code {
        SdkErrorCode::Forbidden => ERR_FORBIDDEN,
        SdkErrorCode::NotFound => ERR_NOT_FOUND,
        SdkErrorCode::InvalidArgument => ERR_INVALID,
        SdkErrorCode::Unavailable => ERR_UNAVAILABLE,
        SdkErrorCode::ResourceExhausted => ERR_EXHAUSTED,
        SdkErrorCode::Conflict => ERR_CONFLICT,
        SdkErrorCode::Internal => ERR_INTERNAL,
    }
}

/// The imports of the core interface among ledger lines, in order.
pub open spec fn core_names(lines: Seq<HostOpView>) -> Seq<Seq<char>>
    decreases lines.len(),
{
    if lines.len() == 0 {
        Seq::empty()
    } else {
        let rest = core_names(lines.drop_last());
        match lines.last().core {
            Some(n) => rest.push(n),
            None => rest,
        }
    }
}

/// Contents of static names.
pub open spec fn static_views(v: Seq<&'static str>) -> Seq<Seq<char>> {
    Seq::new(v.len(), |i: int| v[i]@)
}

/// The imports of the core interface.
pub fn core_import_names() -> (r: Vec<&'static str>)
    ensures
        static_views(r@) == core_names(host_ledger()),
{
    let ops = host_ops();
    let ghost lines = host_ledger();
    let mut out: Vec<&'static str> = Vec::new();
    let mut i: usize = 0;
    assert(static_views(out@) =~= core_names(lines.take(0)));
    while i < ops.len()
        invariant
            i <= ops@.len(),
            lines == crate::plugin::sdk::backend::views(ops@),
            static_views(out@) == core_names(lines.take(i as int)),
        decreases ops@.len() - i,
    {
        let ghost before = out@;
        assert(lines.take(i + 1).drop_last() =~= lines.take(i as int));
        assert(lines.take(i + 1).last() == ops@[i as int]@);
        if let Some(name) = ops[i].core {
            out.push(name);
            assert(static_views(out@) =~= static_views(before).push(name@));
        }
        i += 1;
    }
    assert(lines.take(lines.len() as int) =~= lines);
    out
}

// ---- laws ----

/// A class keeps its name through the wire code, and no two classes share a code.
pub proof fn law_error_names_survive_the_wire(a: SdkErrorCode, b: SdkErrorCode)
    ensures
        wire_name(wire_code(a)) == backend::exception_text(a),
        wire_code(a) == wire_code(b) ==> a == b,
        wire_code(a) < 0,
{
}

/// The codes of the transport belong to no error class.
pub proof fn law_transport_codes_are_separate(code: SdkErrorCode)
    ensures
        wire_code(code) != ERR_BUFFER_TOO_SMALL,
        wire_code(code) != ERR_MEMORY,
        wire_name(ERR_BUFFER_TOO_SMALL) == "ErrBufferTooSmall"@,
        wire_name(ERR_MEMORY) == "ErrMemoryAccess"@,
{
}

/// A text with underscores written as dashes.
pub open spec fn dashed(s: Seq<char>) -> Seq<char> {
    Seq::new(s.len(), |i: int| if s[i] == '_' { '-' } else { s[i] })
}

/// The variant of the component interface is the short name with dashes.
pub proof fn law_variants_are_dashed_names(code: SdkErrorCode)
    ensures
        wit_variant(code) == dashed(backend::code_text(code)),
{
    reveal_strlit("forbidden");
    reveal_strlit("not-found");
    reveal_strlit("not_found");
    reveal_strlit("invalid-argument");
    reveal_strlit("invalid_argument");
    reveal_strlit("unavailable");
    reveal_strlit("resource-exhausted");
    reveal_strlit("resource_exhausted");
    reveal_strlit("conflict");
    reveal_strlit("internal");
    assert(wit_variant(code) =~= dashed(backend::code_text(code)));
}

/// Every error class has a line in the error ledger.
pub proof fn law_every_error_is_listed(code: SdkErrorCode)
    ensures
        error_order().contains(code),
        error_order().len() == 7,
{
    let i: int = match code {
        SdkErrorCode::Forbidden => 0,
        SdkErrorCode::NotFound => 1,
        SdkErrorCode::InvalidArgument => 2,
        SdkErrorCode::Unavailable => 3,
        SdkErrorCode::ResourceExhausted => 4,
        SdkErrorCode::Conflict => 5,
        SdkErrorCode::Internal => 6,
    };
    assert(error_order()[i] == code);
}

} // verus!
