//! The host's calls, as scripts make them: arguments of scripts become requests, answers become
//! values of scripts.
use crate::plugin::sdk::backend;
use crate::plugin::sdk::backend::{
    Compare, CompareOp, CompareTarget, CompareView, KvDelete, KvDeleteView, KvPut, KvPutView,
    KvRange, KvRangeView, TxnOp, TxnOpView, TxnReq, TxnReqView, WatchSubscribe, WatchSubscribeView,
};
use crate::plugin::sdk::js_value;
use crate::plugin::sdk::js_value::{
    elements, js_bytes, js_i64, js_is_object, js_string, obj_bool, obj_bytes, obj_i64, obj_text, opt_object,
    JsFault, JsFaultView, JsValue, JsView,
};
use crate::text;
use crate::text::{join3, same_text, text_of_utf8_lossy};
use vstd::prelude::*;

verus! {

/// Longest pause that a script can ask for, in milliseconds.
pub const MAX_SLEEP_MS: i64 = 3_600_000;

/// Contents of a request or of a failure.
pub open spec fn request_view<T: View>(r: Result<T, JsFault>) -> Result<T::V, JsFaultView> {
    match r {
        Ok(v) => Ok(v@),
        Err(e) => Err(e@),
    }
}

// ---- key-value requests ----

/// The write that a script asks for.
pub open spec fn put_request(key: JsView, value: JsView, opts: JsView) -> Result<KvPutView, JsFaultView> {
    match (js_value::bytes_of(key), js_value::bytes_of(value), js_value::options_of(opts)) {
        (Err(e), _, _) => Err(e),
        (_, Err(e), _) => Err(e),
        (_, _, Err(e)) => Err(e),
        (Ok(k), Ok(v), Ok(false)) => Ok(
            KvPutView {
                key: k,
                value: v,
                lease_id: 0,
                prev_kv: false,
                request_id: Seq::empty(),
            },
        ),
        (Ok(k), Ok(v), Ok(true)) => match js_value::bytes_of(
            js_value::field_of(opts, "requestId"@),
        ) {
            Err(e) => Err(e),
            Ok(id) => Ok(
                KvPutView {
                    key: k,
                    value: v,
                    lease_id: js_value::number_of(js_value::field_of(opts, "leaseId"@), 0),
                    prev_kv: js_value::bool_of(js_value::field_of(opts, "prevKv"@), false),
                    request_id: id,
                },
            ),
        },
    }
}

/// The write that a script asks for.
pub fn kv_put_request(key: &JsValue, value: &JsValue, opts: &JsValue) -> (r: Result<KvPut, JsFault>)
    ensures
        request_view(r) == put_request(
            js_value::js_view(*key),
            js_value::js_view(*value),
            js_value::js_view(*opts),
        ),
{
    let key = js_bytes(key)?;
    let value = js_bytes(value)?;
    if opt_object(opts)? {
        let lease_id: i64 = obj_i64(opts, "leaseId", 0);
        let prev_kv = obj_bool(opts, "prevKv", false);
        let request_id = obj_bytes(opts, "requestId")?;
        Ok(KvPut { key, value, lease_id, prev_kv, request_id })
    } else {
        let request_id: Vec<u8> = Vec::new();
        assert(request_id@ =~= Seq::<u8>::empty());
        Ok(KvPut { key, value, lease_id: 0, prev_kv: false, request_id })
    }
}

/// What a script asks for that creates a key: the options first, then key and value.
pub open spec fn create_request(key: JsView, value: JsView, opts: JsView) -> Result<
    (Seq<u8>, Seq<u8>, i64),
    JsFaultView,
> {
    match (js_value::options_of(opts), js_value::bytes_of(key), js_value::bytes_of(value)) {
        (Err(e), _, _) => Err(e),
        (_, Err(e), _) => Err(e),
        (_, _, Err(e)) => Err(e),
        (Ok(there), Ok(k), Ok(v)) => Ok(
            (
                k,
                v,
                if there {
                    js_value::number_of(js_value::field_of(opts, "leaseId"@), 0)
                } else {
                    0
                },
            ),
        ),
    }
}

/// What a script asks for that creates a key.
pub fn kv_create_request(key: &JsValue, value: &JsValue, opts: &JsValue) -> (r: Result<
    (Vec<u8>, Vec<u8>, i64),
    JsFault,
>)
    ensures
        ({
            let want = create_request(
                js_value::js_view(*key),
                js_value::js_view(*value),
                js_value::js_view(*opts),
            );
            match r {
                Ok(out) => want == Ok::<(Seq<u8>, Seq<u8>, i64), JsFaultView>(
                    (out.0@, out.1@, out.2),
                ),
                Err(e) => want == Err::<(Seq<u8>, Seq<u8>, i64), JsFaultView>(e@),
            }
        }),
{
    let lease_id: i64 = if opt_object(opts)? {
        obj_i64(opts, "leaseId", 0)
    } else {
        0
    };
    let key = js_bytes(key)?;
    let value = js_bytes(value)?;
    Ok((key, value, lease_id))
}

/// The read that a script asks for.
pub open spec fn range_request(key: JsView, opts: JsView) -> Result<KvRangeView, JsFaultView> {
    match (js_value::bytes_of(key), js_value::options_of(opts)) {
        (Err(e), _) => Err(e),
        (_, Err(e)) => Err(e),
        (Ok(k), Ok(false)) => Ok(
            KvRangeView {
                key: k,
                range_end: Seq::empty(),
                limit: 0,
                revision: 0,
                keys_only: false,
                count_only: false,
            },
        ),
        (Ok(k), Ok(true)) => match js_value::bytes_of(js_value::field_of(opts, "rangeEnd"@)) {
            Err(e) => Err(e),
            Ok(end) => Ok(
                KvRangeView {
                    key: k,
                    range_end: end,
                    limit: js_value::number_of(js_value::field_of(opts, "limit"@), 0),
                    revision: js_value::number_of(js_value::field_of(opts, "revision"@), 0),
                    keys_only: js_value::bool_of(js_value::field_of(opts, "keysOnly"@), false),
                    count_only: js_value::bool_of(js_value::field_of(opts, "countOnly"@), false),
                },
            ),
        },
    }
}

/// The read that a script asks for.
pub fn kv_range_request(key: &JsValue, opts: &JsValue) -> (r: Result<KvRange, JsFault>)
    ensures
        request_view(r) == range_request(js_value::js_view(*key), js_value::js_view(*opts)),
{
    let key = js_bytes(key)?;
    if opt_object(opts)? {
        let range_end = obj_bytes(opts, "rangeEnd")?;
        Ok(
            KvRange {
                key,
                range_end,
                limit: obj_i64(opts, "limit", 0),
                revision: obj_i64(opts, "revision", 0),
                keys_only: obj_bool(opts, "keysOnly", false),
                count_only: obj_bool(opts, "countOnly", false),
            },
        )
    } else {
        let range_end: Vec<u8> = Vec::new();
        assert(range_end@ =~= Seq::<u8>::empty());
        Ok(
            KvRange {
                key,
                range_end,
                limit: 0,
                revision: 0,
                keys_only: false,
                count_only: false,
            },
        )
    }
}

/// The delete that a script asks for.
pub open spec fn delete_request(key: JsView, opts: JsView) -> Result<KvDeleteView, JsFaultView> {
    match (js_value::bytes_of(key), js_value::options_of(opts)) {
        (Err(e), _) => Err(e),
        (_, Err(e)) => Err(e),
        (Ok(k), Ok(false)) => Ok(
            KvDeleteView {
                key: k,
                range_end: Seq::empty(),
                prev_kv: false,
                request_id: Seq::empty(),
            },
        ),
        (Ok(k), Ok(true)) => match (
            js_value::bytes_of(js_value::field_of(opts, "rangeEnd"@)),
            js_value::bytes_of(js_value::field_of(opts, "requestId"@)),
        ) {
            (Err(e), _) => Err(e),
            (_, Err(e)) => Err(e),
            (Ok(end), Ok(id)) => Ok(
                KvDeleteView {
                    key: k,
                    range_end: end,
                    prev_kv: js_value::bool_of(js_value::field_of(opts, "prevKv"@), false),
                    request_id: id,
                },
            ),
        },
    }
}

/// The delete that a script asks for.
pub fn kv_delete_request(key: &JsValue, opts: &JsValue) -> (r: Result<KvDelete, JsFault>)
    ensures
        request_view(r) == delete_request(js_value::js_view(*key), js_value::js_view(*opts)),
{
    let key = js_bytes(key)?;
    if opt_object(opts)? {
        let range_end = obj_bytes(opts, "rangeEnd")?;
        let prev_kv = obj_bool(opts, "prevKv", false);
        let request_id = obj_bytes(opts, "requestId")?;
        Ok(KvDelete { key, range_end, prev_kv, request_id })
    } else {
        let range_end: Vec<u8> = Vec::new();
        let request_id: Vec<u8> = Vec::new();
        assert(range_end@ =~= Seq::<u8>::empty());
        assert(request_id@ =~= Seq::<u8>::empty());
        Ok(KvDelete { key, range_end, prev_kv: false, request_id })
    }
}

/// The subscription that a script asks for.
pub open spec fn subscribe_request(key: JsView, opts: JsView) -> Result<WatchSubscribeView, JsFaultView> {
    match (js_value::bytes_of(key), js_value::options_of(opts)) {
        (Err(e), _) => Err(e),
        (_, Err(e)) => Err(e),
        (Ok(k), Ok(false)) => Ok(
            WatchSubscribeView {
                key: k,
                range_end: Seq::empty(),
                start_revision: 0,
                prev_kv: false,
            },
        ),
        (Ok(k), Ok(true)) => match js_value::bytes_of(js_value::field_of(opts, "rangeEnd"@)) {
            Err(e) => Err(e),
            Ok(end) => Ok(
                WatchSubscribeView {
                    key: k,
                    range_end: end,
                    start_revision: js_value::number_of(
                        js_value::field_of(opts, "startRevision"@),
                        0,
                    ),
                    prev_kv: js_value::bool_of(js_value::field_of(opts, "prevKv"@), false),
                },
            ),
        },
    }
}

/// The subscription that a script asks for.
pub fn watch_request(key: &JsValue, opts: &JsValue) -> (r: Result<WatchSubscribe, JsFault>)
    ensures
        request_view(r) == subscribe_request(js_value::js_view(*key), js_value::js_view(*opts)),
{
    let key = js_bytes(key)?;
    if opt_object(opts)? {
        let range_end = obj_bytes(opts, "rangeEnd")?;
        let start_revision: i64 = obj_i64(opts, "startRevision", 0);
        let prev_kv = obj_bool(opts, "prevKv", false);
        Ok(WatchSubscribe { key, range_end, start_revision, prev_kv })
    } else {
        let range_end: Vec<u8> = Vec::new();
        assert(range_end@ =~= Seq::<u8>::empty());
        Ok(WatchSubscribe { key, range_end, start_revision: 0, prev_kv: false })
    }
}

// ---- transactions ----

/// The target that a script names.
pub open spec fn target_of(name: Seq<char>) -> Option<CompareTarget> {
    if name == "value"@ {
        Some(CompareTarget::Value)
    } else if name == "version"@ {
        Some(CompareTarget::Version)
    } else if name == "modRevision"@ || name == "mod_revision"@ {
        Some(CompareTarget::ModRevision)
    } else {
        None
    }
}

/// The comparison that a script names.
pub open spec fn comparison_of(name: Seq<char>) -> Option<CompareOp> {
    if name == "equal"@ || name == "eq"@ || name == "=="@ {
        Some(CompareOp::Equal)
    } else if name == "notEqual"@ || name == "ne"@ || name == "!="@ {
        Some(CompareOp::NotEqual)
    } else if name == "greater"@ || name == "gt"@ || name == ">"@ {
        Some(CompareOp::Greater)
    } else if name == "less"@ || name == "lt"@ || name == "<"@ {
        Some(CompareOp::Less)
    } else {
        None
    }
}

/// Message of an unknown name.
pub open spec fn unknown_text(what: Seq<char>, name: Seq<char>) -> Seq<char> {
    "unknown "@ + what + " '"@ + name + "'"@
}

fn unknown(what: &str, name: &str) -> (r: JsFault)
    ensures
        r@ == JsFaultView::WrongKind(unknown_text(what@, name@)),
{
    JsFault::WrongKind(crate::text::join5("unknown ", what, " '", name, "'"))
}

fn target_named(name: &str) -> (r: Option<CompareTarget>)
    ensures
        r == target_of(name@),
{
    if same_text(name, "value") {
        Some(CompareTarget::Value)
    } else if same_text(name, "version") {
        Some(CompareTarget::Version)
    } else if same_text(name, "modRevision") || same_text(name, "mod_revision") {
        Some(CompareTarget::ModRevision)
    } else {
        None
    }
}

fn comparison_named(name: &str) -> (r: Option<CompareOp>)
    ensures
        r == comparison_of(name@),
{
    if same_text(name, "equal") || same_text(name, "eq") || same_text(name, "==") {
        Some(CompareOp::Equal)
    } else if same_text(name, "notEqual") || same_text(name, "ne") || same_text(name, "!=") {
        Some(CompareOp::NotEqual)
    } else if same_text(name, "greater") || same_text(name, "gt") || same_text(name, ">") {
        Some(CompareOp::Greater)
    } else if same_text(name, "less") || same_text(name, "lt") || same_text(name, "<") {
        Some(CompareOp::Less)
    } else {
        None
    }
}

/// The condition that a script names; only the operand that the target calls for is read.
pub open spec fn compare_of(v: JsView) -> Result<CompareView, JsFaultView> {
    if !js_value::is_object(v) {
        Err(JsFaultView::WrongKind("txn compare must be an object"@))
    } else {
        match (js_value::text_field(v, "target"@), js_value::text_field(v, "op"@)) {
            (Err(e), _) => Err(e),
            (_, Err(e)) => Err(e),
            (Ok(target_name), Ok(op_name)) => match (
                target_of(target_name),
                comparison_of(op_name),
            ) {
                (None, _) => Err(
                    JsFaultView::WrongKind(unknown_text("compare target"@, target_name)),
                ),
                (_, None) => Err(JsFaultView::WrongKind(unknown_text("compare op"@, op_name))),
                (Some(target), Some(op)) => match js_value::bytes_of(
                    js_value::field_of(v, "key"@),
                ) {
                    Err(e) => Err(e),
                    Ok(key) => match target {
                        CompareTarget::Value => match js_value::bytes_of(
                            js_value::field_of(v, "value"@),
                        ) {
                            Err(e) => Err(e),
                            Ok(bytes) => Ok(
                                CompareView { op, target, key, int_value: 0, bytes_value: bytes },
                            ),
                        },
                        CompareTarget::Version => Ok(
                            CompareView {
                                op,
                                target,
                                key,
                                int_value: js_value::number_of(
                                    js_value::field_of(v, "version"@),
                                    0,
                                ),
                                bytes_value: Seq::empty(),
                            },
                        ),
                        CompareTarget::ModRevision => Ok(
                            CompareView {
                                op,
                                target,
                                key,
                                int_value: js_value::number_of(
                                    js_value::field_of(v, "modRevision"@),
                                    0,
                                ),
                                bytes_value: Seq::empty(),
                            },
                        ),
                    },
                },
            },
        }
    }
}

/// The condition that a script names.
pub fn parse_compare(v: &JsValue) -> (r: Result<Compare, JsFault>)
    ensures
        request_view(r) == compare_of(js_value::js_view(*v)),
{
    if !js_is_object(v) {
        return Err(JsFault::WrongKind("txn compare must be an object".to_owned()));
    }
    let target_name = obj_text(v, "target")?;
    let op_name = obj_text(v, "op")?;
    let target = match target_named(target_name) {
        Some(t) => t,
        None => {
            return Err(unknown("compare target", target_name));
        },
    };
    let op = match comparison_named(op_name) {
        Some(o) => o,
        None => {
            return Err(unknown("compare op", op_name));
        },
    };
    let key = obj_bytes(v, "key")?;
    let none: Vec<u8> = Vec::new();
    assert(none@ =~= Seq::<u8>::empty());
    match target {
        CompareTarget::Value => {
            let bytes_value = obj_bytes(v, "value")?;
            Ok(Compare { op, target, key, int_value: 0, bytes_value })
        },
        CompareTarget::Version => Ok(
            Compare {
                op,
                target,
                key,
                int_value: obj_i64(v, "version", 0),
                bytes_value: none,
            },
        ),
        CompareTarget::ModRevision => Ok(
            Compare {
                op,
                target,
                key,
                int_value: obj_i64(v, "modRevision", 0),
                bytes_value: none,
            },
        ),
    }
}

/// The operation that a script names.
pub open spec fn op_of(v: JsView) -> Result<TxnOpView, JsFaultView> {
    if !js_value::is_object(v) {
        Err(JsFaultView::WrongKind("txn op must be an object"@))
    } else {
        match js_value::text_field(v, "type"@) {
            Err(e) => Err(e),
            Ok(kind) => if kind == "put"@ {
                match (
                    js_value::bytes_of(js_value::field_of(v, "key"@)),
                    js_value::bytes_of(js_value::field_of(v, "value"@)),
                    js_value::bytes_of(js_value::field_of(v, "requestId"@)),
                ) {
                    (Err(e), _, _) => Err(e),
                    (_, Err(e), _) => Err(e),
                    (_, _, Err(e)) => Err(e),
                    (Ok(key), Ok(value), Ok(request_id)) => Ok(
                        TxnOpView::Put(
                            KvPutView {
                                key,
                                value,
                                lease_id: js_value::number_of(
                                    js_value::field_of(v, "leaseId"@),
                                    0,
                                ),
                                prev_kv: js_value::bool_of(
                                    js_value::field_of(v, "prevKv"@),
                                    false,
                                ),
                                request_id,
                            },
                        ),
                    ),
                }
            } else if kind == "range"@ {
                match (
                    js_value::bytes_of(js_value::field_of(v, "key"@)),
                    js_value::bytes_of(js_value::field_of(v, "rangeEnd"@)),
                ) {
                    (Err(e), _) => Err(e),
                    (_, Err(e)) => Err(e),
                    (Ok(key), Ok(range_end)) => Ok(
                        TxnOpView::Range(
                            KvRangeView {
                                key,
                                range_end,
                                limit: js_value::number_of(js_value::field_of(v, "limit"@), 0),
                                revision: js_value::number_of(
                                    js_value::field_of(v, "revision"@),
                                    0,
                                ),
                                keys_only: js_value::bool_of(
                                    js_value::field_of(v, "keysOnly"@),
                                    false,
                                ),
                                count_only: js_value::bool_of(
                                    js_value::field_of(v, "countOnly"@),
                                    false,
                                ),
                            },
                        ),
                    ),
                }
            } else if kind == "delete"@ {
                match (
                    js_value::bytes_of(js_value::field_of(v, "key"@)),
                    js_value::bytes_of(js_value::field_of(v, "rangeEnd"@)),
                    js_value::bytes_of(js_value::field_of(v, "requestId"@)),
                ) {
                    (Err(e), _, _) => Err(e),
                    (_, Err(e), _) => Err(e),
                    (_, _, Err(e)) => Err(e),
                    (Ok(key), Ok(range_end), Ok(request_id)) => Ok(
                        TxnOpView::Delete(
                            KvDeleteView {
                                key,
                                range_end,
                                prev_kv: js_value::bool_of(
                                    js_value::field_of(v, "prevKv"@),
                                    false,
                                ),
                                request_id,
                            },
                        ),
                    ),
                }
            } else {
                Err(JsFaultView::WrongKind(unknown_text("txn op type"@, kind)))
            },
        }
    }
}

/// The operation that a script names.
pub fn parse_txn_op(v: &JsValue) -> (r: Result<TxnOp, JsFault>)
    ensures
        request_view(r) == op_of(js_value::js_view(*v)),
{
    if !js_is_object(v) {
        return Err(JsFault::WrongKind("txn op must be an object".to_owned()));
    }
    let kind = obj_text(v, "type")?;
    if same_text(kind, "put") {
        let key = obj_bytes(v, "key")?;
        let value = obj_bytes(v, "value")?;
        let lease_id: i64 = obj_i64(v, "leaseId", 0);
        let prev_kv = obj_bool(v, "prevKv", false);
        let request_id = obj_bytes(v, "requestId")?;
        Ok(TxnOp::Put(KvPut { key, value, lease_id, prev_kv, request_id }))
    } else if same_text(kind, "range") {
        let key = obj_bytes(v, "key")?;
        let range_end = obj_bytes(v, "rangeEnd")?;
        Ok(
            TxnOp::Range(
                KvRange {
                    key,
                    range_end,
                    limit: obj_i64(v, "limit", 0),
                    revision: obj_i64(v, "revision", 0),
                    keys_only: obj_bool(v, "keysOnly", false),
                    count_only: obj_bool(v, "countOnly", false),
                },
            ),
        )
    } else if same_text(kind, "delete") {
        let key = obj_bytes(v, "key")?;
        let range_end = obj_bytes(v, "rangeEnd")?;
        let prev_kv = obj_bool(v, "prevKv", false);
        let request_id = obj_bytes(v, "requestId")?;
        Ok(TxnOp::Delete(KvDelete { key, range_end, prev_kv, request_id }))
    } else {
        Err(unknown("txn op type", kind))
    }
}

/// The conditions that a script names, up to a place; the first that cannot be read is the
/// failure.
pub open spec fn compares_upto(items: Seq<JsView>, n: int) -> Result<Seq<CompareView>, JsFaultView>
    decreases n,
{
    if n <= 0 {
        Ok(Seq::empty())
    } else {
        match compares_upto(items, n - 1) {
            Err(e) => Err(e),
            Ok(done) => match compare_of(items[n - 1]) {
                Err(e) => Err(e),
                Ok(c) => Ok(done.push(c)),
            },
        }
    }
}

/// The operations that a script names, up to a place; the first that cannot be read is the
/// failure.
pub open spec fn ops_upto(items: Seq<JsView>, n: int) -> Result<Seq<TxnOpView>, JsFaultView>
    decreases n,
{
    if n <= 0 {
        Ok(Seq::empty())
    } else {
        match ops_upto(items, n - 1) {
            Err(e) => Err(e),
            Ok(done) => match op_of(items[n - 1]) {
                Err(e) => Err(e),
                Ok(op) => Ok(done.push(op)),
            },
        }
    }
}

/// The conditions that a script names; none where they are missing.
pub open spec fn compares_of(v: JsView) -> Result<Seq<CompareView>, JsFaultView> {
    if js_value::missing(v) {
        Ok(Seq::empty())
    } else {
        match js_value::elements_of(v) {
            Some(items) => compares_upto(items, items.len() as int),
            None => Err(JsFaultView::WrongKind("txn compares must be an array"@)),
        }
    }
}

/// Message of a branch that is no list.
pub open spec fn branch_text(branch: Seq<char>) -> Seq<char> {
    "txn '"@ + branch + "' must be an array"@
}

/// The operations of a branch that a script names; none where they are missing.
pub open spec fn ops_of(v: JsView, branch: Seq<char>) -> Result<Seq<TxnOpView>, JsFaultView> {
    if js_value::missing(v) {
        Ok(Seq::empty())
    } else {
        match js_value::elements_of(v) {
            Some(items) => ops_upto(items, items.len() as int),
            None => Err(JsFaultView::WrongKind(branch_text(branch))),
        }
    }
}

/// Contents of requests or of a failure.
pub open spec fn list_view<T: View>(r: Result<Vec<T>, JsFault>) -> Result<Seq<T::V>, JsFaultView> {
    match r {
        Ok(v) => Ok(backend::views(v@)),
        Err(e) => Err(e@),
    }
}

proof fn lemma_compares_fail(items: Seq<JsView>, i: int, n: int)
    requires
        0 <= i <= n,
        compares_upto(items, i) is Err,
    ensures
        compares_upto(items, n) == compares_upto(items, i),
    decreases n,
{
    if i < n {
        lemma_compares_fail(items, i, n - 1);
    }
}

proof fn lemma_ops_fail(items: Seq<JsView>, i: int, n: int)
    requires
        0 <= i <= n,
        ops_upto(items, i) is Err,
    ensures
        ops_upto(items, n) == ops_upto(items, i),
    decreases n,
{
    if i < n {
        lemma_ops_fail(items, i, n - 1);
    }
}

/// The conditions that a script names.
pub fn parse_compares(v: &JsValue) -> (r: Result<Vec<Compare>, JsFault>)
    ensures
        list_view(r) == compares_of(js_value::js_view(*v)),
{
    let mut out: Vec<Compare> = Vec::new();
    assert(backend::views(out@) =~= Seq::<CompareView>::empty());
    if let JsValue::Undefined | JsValue::Null = v {
        return Ok(out);
    }
    match elements(v) {
        Some(items) => {
            let ghost seen = js_value::elements_of(js_value::js_view(*v))->0;
            let mut i: usize = 0;
            while i < items.len()
                invariant
                    i <= items@.len(),
                    js_value::elements_of(js_value::js_view(*v)) == Some(seen),
                    !js_value::missing(js_value::js_view(*v)),
                    seen.len() == items@.len(),
                    forall|k: int|
                        0 <= k < items@.len() ==> #[trigger] seen[k] == js_value::js_view(items@[k]),
                    compares_upto(seen, i as int) == Ok::<Seq<CompareView>, JsFaultView>(
                        backend::views(out@),
                    ),
                decreases items@.len() - i,
            {
                let ghost before = out@;
                assert(seen[i as int] == js_value::js_view(items@[i as int]));
                match parse_compare(&items[i]) {
                    Ok(c) => {
                        out.push(c);
                        assert(backend::views(out@) =~= backend::views(before).push(c@));
                    },
                    Err(e) => {
                        proof {
                            lemma_compares_fail(seen, i + 1, seen.len() as int);
                        }
                        return Err(e);
                    },
                }
                i += 1;
            }
            Ok(out)
        },
        None => Err(JsFault::WrongKind("txn compares must be an array".to_owned())),
    }
}

/// The operations of a branch that a script names.
pub fn parse_op_array(v: &JsValue, branch: &str) -> (r: Result<Vec<TxnOp>, JsFault>)
    ensures
        list_view(r) == ops_of(js_value::js_view(*v), branch@),
{
    let mut out: Vec<TxnOp> = Vec::new();
    assert(backend::views(out@) =~= Seq::<TxnOpView>::empty());
    if let JsValue::Undefined | JsValue::Null = v {
        return Ok(out);
    }
    match elements(v) {
        Some(items) => {
            let ghost seen = js_value::elements_of(js_value::js_view(*v))->0;
            let mut i: usize = 0;
            while i < items.len()
                invariant
                    i <= items@.len(),
                    js_value::elements_of(js_value::js_view(*v)) == Some(seen),
                    !js_value::missing(js_value::js_view(*v)),
                    seen.len() == items@.len(),
                    forall|k: int|
                        0 <= k < items@.len() ==> #[trigger] seen[k] == js_value::js_view(items@[k]),
                    ops_upto(seen, i as int) == Ok::<Seq<TxnOpView>, JsFaultView>(
                        backend::views(out@),
                    ),
                decreases items@.len() - i,
            {
                let ghost before = out@;
                assert(seen[i as int] == js_value::js_view(items@[i as int]));
                match parse_txn_op(&items[i]) {
                    Ok(op) => {
                        out.push(op);
                        assert(backend::views(out@) =~= backend::views(before).push(op@));
                    },
                    Err(e) => {
                        proof {
                            lemma_ops_fail(seen, i + 1, seen.len() as int);
                        }
                        return Err(e);
                    },
                }
                i += 1;
            }
            Ok(out)
        },
        None => Err(JsFault::WrongKind(join3("txn '", branch, "' must be an array"))),
    }
}

/// The transaction that a script asks for.
pub open spec fn txn_of(compares: JsView, success: JsView, failure: JsView, opts: JsView) -> Result<
    TxnReqView,
    JsFaultView,
> {
    match (
        compares_of(compares),
        ops_of(success, "success"@),
        ops_of(failure, "failure"@),
        js_value::options_of(opts),
    ) {
        (Err(e), _, _, _) => Err(e),
        (_, Err(e), _, _) => Err(e),
        (_, _, Err(e), _) => Err(e),
        (_, _, _, Err(e)) => Err(e),
        (Ok(c), Ok(s), Ok(f), Ok(false)) => Ok(
            TxnReqView { compares: c, success: s, failure: f, request_id: Seq::empty() },
        ),
        (Ok(c), Ok(s), Ok(f), Ok(true)) => match js_value::bytes_of(
            js_value::field_of(opts, "requestId"@),
        ) {
            Err(e) => Err(e),
            Ok(id) => Ok(TxnReqView { compares: c, success: s, failure: f, request_id: id }),
        },
    }
}

/// The transaction that a script asks for.
pub fn txn_request(compares: &JsValue, success: &JsValue, failure: &JsValue, opts: &JsValue) -> (r: Result<
    TxnReq,
    JsFault,
>)
    ensures
        request_view(r) == txn_of(
            js_value::js_view(*compares),
            js_value::js_view(*success),
            js_value::js_view(*failure),
            js_value::js_view(*opts),
        ),
{
    let compares = parse_compares(compares)?;
    let success = parse_op_array(success, "success")?;
    let failure = parse_op_array(failure, "failure")?;
    if opt_object(opts)? {
        let request_id = obj_bytes(opts, "requestId")?;
        Ok(TxnReq { compares, success, failure, request_id })
    } else {
        let request_id: Vec<u8> = Vec::new();
        assert(request_id@ =~= Seq::<u8>::empty());
        Ok(TxnReq { compares, success, failure, request_id })
    }
}

// ---- other arguments ----

/// How long a script pauses, in milliseconds.
pub fn sleep_ms(v: &JsValue) -> (r: u64)
    ensures
        ({
            let asked = js_value::number_of(js_value::js_view(*v), 0);
            r == if asked < 0 {
                0
            } else if asked > MAX_SLEEP_MS {
                MAX_SLEEP_MS as int
            } else {
                asked as int
            }
        }),
{
    let asked: i64 = js_i64(v, 0);
    if asked < 0 {
        0
    } else if asked > MAX_SLEEP_MS {
        MAX_SLEEP_MS as u64
    } else {
        asked as u64
    }
}

/// Whether a script's error is a refusal.
pub fn is_forbidden(v: &JsValue) -> (r: bool)
    ensures
        r == (js_value::text_field(js_value::js_view(*v), "name"@) == Ok::<
            Seq<char>,
            JsFaultView,
        >("ErrForbidden"@)),
{
    match obj_text(v, "name") {
        Ok(name) => same_text(name, "ErrForbidden"),
        Err(_) => false,
    }
}

/// The text that bytes of a script stand for.
pub fn decode(v: &JsValue) -> (r: Result<String, JsFault>)
    ensures
        match (js_value::bytes_of(js_value::js_view(*v)), r) {
            (Ok(bytes), Ok(s)) => s@ == text::utf8_lossy(bytes),
            (Err(e), Err(f)) => f@ == e,
            _ => false,
        },
{
    let bytes = js_bytes(v)?;
    Ok(text_of_utf8_lossy(bytes.as_slice()))
}

/// Length of an upload that a script declares; none or zero for an unknown one.
pub fn upload_size(total: Option<i64>) -> (r: Result<u64, JsFault>)
    ensures
        match total {
            None => r == Ok::<u64, JsFault>(0),
            Some(n) => if n < 0 {
                r matches Err(e) && e@ == JsFaultView::WrongKind(
                    "'totalSize' must be >= 0 (0 or omitted = unknown length)"@,
                )
            } else {
                r matches Ok(size) && size == n
            },
        },
{
    match total {
        None => Ok(0),
        Some(n) => {
            if n < 0 {
                Err(
                    JsFault::WrongKind(
                        "'totalSize' must be >= 0 (0 or omitted = unknown length)".to_owned(),
                    ),
                )
            } else {
                Ok(n as u64)
            }
        },
    }
}

/// Most bytes that a script wants to read at once.
pub fn read_size(v: &JsValue) -> (r: Result<u64, JsFault>)
    ensures
        ({
            let asked = js_value::number_of(js_value::js_view(*v), 0);
            match r {
                Ok(n) => asked > 0 && n == asked,
                Err(e) => asked <= 0 && e@ == JsFaultView::WrongKind(
                    "'maxLen' must be a positive integer"@,
                ),
            }
        }),
{
    let asked: i64 = js_i64(v, 0);
    if asked <= 0 {
        Err(JsFault::WrongKind("'maxLen' must be a positive integer".to_owned()))
    } else {
        Ok(asked as u64)
    }
}

/// The object that a script names: its bucket must be text.
pub open spec fn object_of(bucket: JsView, object_id: JsView) -> Result<(Seq<char>, Seq<u8>), JsFaultView> {
    match bucket {
        JsView::Text(b) => match js_value::bytes_of(object_id) {
            Ok(id) => Ok((b, id)),
            Err(e) => Err(e),
        },
        _ => Err(JsFaultView::WrongKind(js_value::must_be_text("bucket"@))),
    }
}

/// The object that a script names.
pub fn object_request(bucket: &JsValue, object_id: &JsValue) -> (r: Result<(String, Vec<u8>), JsFault>)
    ensures
        ({
            let want = object_of(js_value::js_view(*bucket), js_value::js_view(*object_id));
            match r {
                Ok(o) => want == Ok::<(Seq<char>, Seq<u8>), JsFaultView>((o.0@, o.1@)),
                Err(e) => want == Err::<(Seq<char>, Seq<u8>), JsFaultView>(e@),
            }
        }),
{
    let bucket = js_string(bucket, "bucket")?;
    let object_id = js_bytes(object_id)?;
    Ok((bucket, object_id))
}

/// The upload that a script begins: the object first, then its length.
pub fn upload_request(bucket: &JsValue, object_id: &JsValue, total: Option<i64>) -> (r: Result<
    (String, Vec<u8>, u64),
    JsFault,
>)
    ensures
        match (object_of(js_value::js_view(*bucket), js_value::js_view(*object_id)), r) {
            (Err(e), Err(f)) => f@ == e,
            (Ok(_), Err(f)) => (total matches Some(n) && n < 0) && f@ == JsFaultView::WrongKind(
                "'totalSize' must be >= 0 (0 or omitted = unknown length)"@,
            ),
            (Ok(o), Ok(out)) => out.0@ == o.0 && out.1@ == o.1 && match total {
                Some(n) => n >= 0 && out.2 == n,
                None => out.2 == 0,
            },
            (Err(_), Ok(_)) => false,
        },
{
    let (bucket, object_id) = object_request(bucket, object_id)?;
    let size: u64 = upload_size(total)?;
    Ok((bucket, object_id, size))
}

/// The declared length of an upload, as its handle shows it: null where it is unknown.
pub fn declared_size_to_js(total: u64) -> (r: JsValue)
    requires
        total <= i64::MAX,
    ensures
        js_value::js_view(r) == if total == 0 {
            JsView::Null
        } else {
            JsView::Number(total as i64)
        },
{
    if total == 0 {
        JsValue::Null
    } else {
        JsValue::Number(total as i64)
    }
}

// ---- what scripts find ----

/// A function that scripts find below `coord`.
#[derive(Debug, Clone, Copy, PartialEq, Eq, Structural)]
pub enum ScriptCall {
    KvPut,
    KvGet,
    KvRange,
    KvDelete,
    KvCreate,
    Txn,
    LeaseGrant,
    LeaseRevoke,
    LeaseKeepAlive,
    WatchSubscribe,
    StoragePut,
    StorageGet,
    StorageStat,
    StorageDelete,
    StorageOpenWrite,
    StorageOpenRead,
    Log,
    Env,
    Encode,
    Decode,
    IsForbidden,
    Sleep,
}

/// Place of a function below `coord`.
pub open spec fn script_place(call: ScriptCall) -> Seq<char> {
    match call {
        ScriptCall::KvPut => "kv.put"@,
        ScriptCall::KvGet => "kv.get"@,
        ScriptCall::KvRange => "kv.range"@,
        ScriptCall::KvDelete => "kv.delete"@,
        ScriptCall::KvCreate => "kv.create"@,
        ScriptCall::Txn => "txn"@,
        ScriptCall::LeaseGrant => "lease.grant"@,
        ScriptCall::LeaseRevoke => "lease.revoke"@,
        ScriptCall::LeaseKeepAlive => "lease.keepAlive"@,
        ScriptCall::WatchSubscribe => "watch.subscribe"@,
        ScriptCall::StoragePut => "storage.put"@,
        ScriptCall::StorageGet => "storage.get"@,
        ScriptCall::StorageStat => "storage.stat"@,
        ScriptCall::StorageDelete => "storage.delete"@,
        ScriptCall::StorageOpenWrite => "storage.openWrite"@,
        ScriptCall::StorageOpenRead => "storage.openRead"@,
        ScriptCall::Log => "log"@,
        ScriptCall::Env => "env"@,
        ScriptCall::Encode => "util.encode"@,
        ScriptCall::Decode => "util.decode"@,
        ScriptCall::IsForbidden => "util.isForbidden"@,
        ScriptCall::Sleep => "util.sleep"@,
    }
}

impl ScriptCall {
    /// Place of the function below `coord`.
    pub fn place(self) -> (r: &'static str)
        ensures
            r@ == script_place(self),
    {
        match self {
            ScriptCall::KvPut => "kv.put",
            ScriptCall::KvGet => "kv.get",
            ScriptCall::KvRange => "kv.range",
            ScriptCall::KvDelete => "kv.delete",
            ScriptCall::KvCreate => "kv.create",
            ScriptCall::Txn => "txn",
            ScriptCall::LeaseGrant => "lease.grant",
            ScriptCall::LeaseRevoke => "lease.revoke",
            ScriptCall::LeaseKeepAlive => "lease.keepAlive",
            ScriptCall::WatchSubscribe => "watch.subscribe",
            ScriptCall::StoragePut => "storage.put",
            ScriptCall::StorageGet => "storage.get",
            ScriptCall::StorageStat => "storage.stat",
            ScriptCall::StorageDelete => "storage.delete",
            ScriptCall::StorageOpenWrite => "storage.openWrite",
            ScriptCall::StorageOpenRead => "storage.openRead",
            ScriptCall::Log => "log",
            ScriptCall::Env => "env",
            ScriptCall::Encode => "util.encode",
            ScriptCall::Decode => "util.decode",
            ScriptCall::IsForbidden => "util.isForbidden",
            ScriptCall::Sleep => "util.sleep",
        }
    }
}

/// The functions that are installed, in the order of their installation.
pub open spec fn script_surface() -> Seq<ScriptCall> {
    seq![
        ScriptCall::KvPut,
        ScriptCall::KvGet,
        ScriptCall::KvRange,
        ScriptCall::KvDelete,
        ScriptCall::KvCreate,
        ScriptCall::Txn,
        ScriptCall::LeaseGrant,
        ScriptCall::LeaseRevoke,
        ScriptCall::LeaseKeepAlive,
        ScriptCall::WatchSubscribe,
        ScriptCall::StoragePut,
        ScriptCall::StorageGet,
        ScriptCall::StorageStat,
        ScriptCall::StorageDelete,
        ScriptCall::StorageOpenWrite,
        ScriptCall::StorageOpenRead,
        ScriptCall::Log,
        ScriptCall::Env,
        ScriptCall::Encode,
        ScriptCall::Decode,
        ScriptCall::IsForbidden,
        ScriptCall::Sleep,
    ]
}

/// The functions that are installed.
pub fn install() -> (r: Vec<ScriptCall>)
    ensures
        r@ == script_surface(),
{
    let r: Vec<ScriptCall> = vec![
        ScriptCall::KvPut,
        ScriptCall::KvGet,
        ScriptCall::KvRange,
        ScriptCall::KvDelete,
        ScriptCall::KvCreate,
        ScriptCall::Txn,
        ScriptCall::LeaseGrant,
        ScriptCall::LeaseRevoke,
        ScriptCall::LeaseKeepAlive,
        ScriptCall::WatchSubscribe,
        ScriptCall::StoragePut,
        ScriptCall::StorageGet,
        ScriptCall::StorageStat,
        ScriptCall::StorageDelete,
        ScriptCall::StorageOpenWrite,
        ScriptCall::StorageOpenRead,
        ScriptCall::Log,
        ScriptCall::Env,
        ScriptCall::Encode,
        ScriptCall::Decode,
        ScriptCall::IsForbidden,
        ScriptCall::Sleep,
    ];
    assert(r@ =~= script_surface());
    r
}

/// Functions that hang on a handle and not below `coord`: the ledger marks them with a `#`.
pub open spec fn on_handle(place: Seq<char>) -> bool {
    place.contains('#')
}

/// Scripts find everything that the ledger of host operations lists for them: each place is that
/// of an installed function, hangs on a handle, or is the object of limits.
pub proof fn law_scripts_find_what_the_ledger_lists(i: int)
    requires
        0 <= i < crate::plugin::abi::host_ledger().len(),
    ensures
        crate::plugin::abi::host_ledger()[i].js matches Some(place) && (on_handle(place) || place
            == "limits"@ || exists|call: ScriptCall|
            #[trigger] script_surface().contains(call) && script_place(call) == place),
{
    let surface = script_surface();
    let place = crate::plugin::abi::host_ledger()[i].js->0;
    let at: int = if i < 10 {
        i
    } else if 12 <= i < 17 {
        i - 2
    } else if i == 20 {
        15
    } else if i == 25 {
        16
    } else {
        17
    };
    if i == 10 || i == 11 || 17 <= i < 20 || 21 <= i < 24 {
        reveal_strlit("watch#next");
        reveal_strlit("watch#close");
        reveal_strlit("storage#write");
        reveal_strlit("storage#commit");
        reveal_strlit("storage#abort");
        reveal_strlit("storage#stat");
        reveal_strlit("storage#read");
        reveal_strlit("storage#close");
        let mark: int = if i == 10 || i == 11 {
            5
        } else {
            7
        };
        assert(place[mark] == '#');
    } else if i != 26 {
        assert(surface.contains(surface[at]));
        assert(script_place(surface[at]) == place);
    }
}

} // verus!
