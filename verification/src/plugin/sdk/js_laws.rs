//! What scripts mean by the values that they hand over, and what they find in the answers.
use crate::plugin::sdk::backend;
use crate::plugin::sdk::backend::{
    Compare, KvDelete, KvDeleteOut, KvPut, KvPutOut, KvRange, KvRangeOut, KvRecord,
    ObjectGetOut, ObjectPutOut, ObjectStatDto, SdkError, TxnOp, TxnOpOut, TxnOut, TxnReq,
    WatchEventDto, WatchSubscribe,
};
use crate::plugin::sdk::bind;
use crate::plugin::sdk::bind::{
    decode, install, is_forbidden, kv_create_request, kv_delete_request, kv_put_request, kv_range_request,
    object_request, parse_compare, parse_compares, parse_op_array, parse_txn_op, read_size, sleep_ms,
    txn_request, upload_request, watch_request, ScriptCall,
};
use crate::plugin::sdk::js_answer;
use crate::plugin::sdk::js_answer::{
    chunk_to_js, create_out_to_js, delete_out_to_js, download_to_js, event_to_js, lease_to_js,
    object_stat_to_js, put_out_to_js, range_out_to_js, record_to_js, records_to_js,
    stat_answer_to_js, throw_sdk_error, txn_op_out_to_js, txn_out_to_js, upload_out_to_js, JsError,
};
use crate::plugin::sdk::js_value;
use crate::plugin::sdk::js_value::{
    field, js_bool, js_bytes, js_i64, js_string, JsFault, JsValue, JsView,
};
use crate::text;
use vstd::prelude::*;
use vstd::utf8::*;

verus! {

// ---- what values mean ----

/// The first of fields that has a name.
pub open spec fn first_named(fields: Seq<(String, JsValue)>, name: Seq<char>) -> JsValue
    decreases fields.len(),
{
    if fields.len() == 0 {
        JsValue::Undefined
    } else if fields[0].0@ == name {
        fields[0].1
    } else {
        first_named(fields.skip(1), name)
    }
}

/// What a script reads of a value by a name; undefined where there is nothing.
pub open spec fn named(v: JsValue, name: Seq<char>) -> JsValue {
    match v {
        JsValue::Object(fields) => first_named(fields@, name),
        JsValue::Named(_, fields) => first_named(fields@, name),
        _ => JsValue::Undefined,
    }
}

/// The bytes that a value means: a text its encoding, a byte array itself, a missing value none.
pub open spec fn meant_bytes(v: JsValue) -> Option<Seq<u8>> {
    match v {
        JsValue::Undefined | JsValue::Null => Some(Seq::empty()),
        JsValue::Text(s) => Some(encode_utf8(s@)),
        JsValue::Bytes(b) => Some(b@),
        JsValue::Named(inner, _) => match *inner {
            JsValue::Bytes(b) => Some(b@),
            _ => None,
        },
        _ => None,
    }
}

/// The number that a value means; zero where it is none.
pub open spec fn meant_number(v: JsValue) -> i64 {
    match v {
        JsValue::Number(n) => n,
        _ => 0,
    }
}

/// Whether a value means yes.
pub open spec fn meant_yes(v: JsValue) -> bool {
    v == JsValue::Bool(true)
}

/// Whether a value can stand for options: it is missing, or an object of some kind.
pub open spec fn meant_options(v: JsValue) -> bool {
    match v {
        JsValue::Undefined | JsValue::Null => true,
        JsValue::Object(_) | JsValue::List(_) | JsValue::Bytes(_) | JsValue::Named(..) => true,
        JsValue::Other(object) => object,
        _ => false,
    }
}

/// The elements that a value lists, where it is a list; none where it is missing.
pub open spec fn meant_list(v: JsValue) -> Option<Seq<JsValue>> {
    match v {
        JsValue::Undefined | JsValue::Null => Some(Seq::empty()),
        JsValue::List(items) => Some(items@),
        JsValue::Named(inner, _) => match *inner {
            JsValue::List(items) => Some(items@),
            _ => None,
        },
        _ => None,
    }
}

proof fn lemma_first_named(fields: Seq<(String, JsValue)>, name: Seq<char>, from: int)
    requires
        0 <= from <= fields.len(),
    ensures
        js_value::js_view(first_named(fields.skip(from), name)) == js_value::field_from(
            js_value::fields_view(fields),
            name,
            from,
        ),
    decreases fields.len() - from,
{
    let rest = fields.skip(from);
    if from < fields.len() {
        assert(rest[0] == fields[from]);
        assert(rest.skip(1) =~= fields.skip(from + 1));
        lemma_first_named(fields, name, from + 1);
    }
}

proof fn lemma_named(v: JsValue, name: Seq<char>)
    ensures
        js_value::js_view(named(v, name)) == js_value::field_of(js_value::js_view(v), name),
{
    match v {
        JsValue::Object(fields) => {
            assert(js_value::js_view(v)->Object_0 =~= js_value::fields_view(fields@));
            assert(fields@.skip(0) =~= fields@);
            lemma_first_named(fields@, name, 0);
        },
        JsValue::Named(_, fields) => {
            assert(js_value::js_view(v)->Named_1 =~= js_value::fields_view(fields@));
            assert(fields@.skip(0) =~= fields@);
            lemma_first_named(fields@, name, 0);
        },
        _ => {},
    }
}

proof fn lemma_bytes(v: JsValue)
    ensures
        meant_bytes(v) is Some <==> js_value::bytes_of(js_value::js_view(v)) is Ok,
        meant_bytes(v) matches Some(b) ==> js_value::bytes_of(js_value::js_view(v))->Ok_0 == b,
{
    reveal_with_fuel(js_value::js_view, 2);
}

proof fn lemma_options(v: JsValue)
    ensures
        meant_options(v) <==> js_value::options_of(js_value::js_view(v)) is Ok,
        js_value::options_of(js_value::js_view(v)) == Ok::<bool, js_value::JsFaultView>(false) <==> (
        v is Undefined || v is Null),
{
}

proof fn lemma_value(v: JsValue)
    ensures
        js_value::number_of(js_value::js_view(v), 0) == meant_number(v),
        js_value::bool_of(js_value::js_view(v), false) == meant_yes(v),
{
}

/// What is read of a script's value by a name is what the script reads by it.
pub proof fn law_fields_are_found_by_name(v: JsValue, name: &str, r: Option<&JsValue>)
    requires
        call_ensures(field, (&v, name), r),
    ensures
        r matches Some(x) ==> js_value::js_view(*x) == js_value::js_view(named(v, name@)),
        r is None ==> named(v, name@) is Undefined,
{
    lemma_named(v, name@);
}

/// Texts, byte arrays and missing values mean bytes, and nothing else does.
pub proof fn law_values_mean_bytes(v: JsValue, r: Result<Vec<u8>, JsFault>)
    requires
        call_ensures(js_bytes, (&v,), r),
    ensures
        r is Ok <==> meant_bytes(v) is Some,
        r matches Ok(b) ==> meant_bytes(v) == Some(b@),
{
    lemma_bytes(v);
}

/// Numbers mean themselves, truth values too, and anything else means the default.
pub proof fn law_values_mean_themselves(v: JsValue, n: i64, number: i64, b: bool, truth: bool)
    requires
        call_ensures(js_i64, (&v, n), number),
        call_ensures(js_bool, (&v, b), truth),
    ensures
        v matches JsValue::Number(x) ==> number == x,
        !(v is Number) ==> number == n,
        v matches JsValue::Bool(x) ==> truth == x,
        !(v is Bool) ==> truth == b,
{
}

/// Only texts are texts.
pub proof fn law_only_texts_are_texts(v: JsValue, what: &str, r: Result<String, JsFault>)
    requires
        call_ensures(js_string, (&v, what), r),
    ensures
        v matches JsValue::Text(s) ==> (r matches Ok(t) && t@ == s@),
        !(v is Text) ==> r is Err,
{
}

// ---- requests ----

/// A script's write is of the key and the value that it hands over, with the lease, the wish for
/// the earlier record and the request's identifier that its options name.
pub proof fn law_scripts_write_what_they_say(
    key: JsValue,
    value: JsValue,
    opts: JsValue,
    r: Result<KvPut, JsFault>,
)
    requires
        call_ensures(kv_put_request, (&key, &value, &opts), r),
    ensures
        r is Ok <==> meant_bytes(key) is Some && meant_bytes(value) is Some && meant_options(opts)
            && meant_bytes(named(opts, "requestId"@)) is Some,
        r matches Ok(req) ==> {
            &&& Some(req.key@) == meant_bytes(key)
            &&& Some(req.value@) == meant_bytes(value)
            &&& req.lease_id == meant_number(named(opts, "leaseId"@))
            &&& req.prev_kv == meant_yes(named(opts, "prevKv"@))
            &&& Some(req.request_id@) == meant_bytes(named(opts, "requestId"@))
        },
{
    lemma_bytes(key);
    lemma_bytes(value);
    lemma_options(opts);
    lemma_named(opts, "requestId"@);
    lemma_named(opts, "leaseId"@);
    lemma_named(opts, "prevKv"@);
    lemma_bytes(named(opts, "requestId"@));
    lemma_value(named(opts, "leaseId"@));
    lemma_value(named(opts, "prevKv"@));
}

/// A script's create is of the key and the value that it hands over, with the lease that its
/// options name.
pub proof fn law_scripts_create_what_they_say(
    key: JsValue,
    value: JsValue,
    opts: JsValue,
    r: Result<(Vec<u8>, Vec<u8>, i64), JsFault>,
)
    requires
        call_ensures(kv_create_request, (&key, &value, &opts), r),
    ensures
        r is Ok <==> meant_bytes(key) is Some && meant_bytes(value) is Some && meant_options(opts),
        r matches Ok(req) ==> {
            &&& Some(req.0@) == meant_bytes(key)
            &&& Some(req.1@) == meant_bytes(value)
            &&& req.2 == meant_number(named(opts, "leaseId"@))
        },
{
    lemma_bytes(key);
    lemma_bytes(value);
    lemma_options(opts);
    lemma_named(opts, "leaseId"@);
    lemma_value(named(opts, "leaseId"@));
}

/// A script's read is of the key that it hands over, with the end, the limits and the kinds of
/// answer that its options name.
pub proof fn law_scripts_read_what_they_say(key: JsValue, opts: JsValue, r: Result<KvRange, JsFault>)
    requires
        call_ensures(kv_range_request, (&key, &opts), r),
    ensures
        r is Ok <==> meant_bytes(key) is Some && meant_options(opts) && meant_bytes(
            named(opts, "rangeEnd"@),
        ) is Some,
        r matches Ok(req) ==> {
            &&& Some(req.key@) == meant_bytes(key)
            &&& Some(req.range_end@) == meant_bytes(named(opts, "rangeEnd"@))
            &&& req.limit == meant_number(named(opts, "limit"@))
            &&& req.revision == meant_number(named(opts, "revision"@))
            &&& req.keys_only == meant_yes(named(opts, "keysOnly"@))
            &&& req.count_only == meant_yes(named(opts, "countOnly"@))
        },
{
    lemma_bytes(key);
    lemma_options(opts);
    lemma_named(opts, "rangeEnd"@);
    lemma_named(opts, "limit"@);
    lemma_named(opts, "revision"@);
    lemma_named(opts, "keysOnly"@);
    lemma_named(opts, "countOnly"@);
    lemma_bytes(named(opts, "rangeEnd"@));
    lemma_value(named(opts, "limit"@));
    lemma_value(named(opts, "revision"@));
    lemma_value(named(opts, "keysOnly"@));
    lemma_value(named(opts, "countOnly"@));
}

/// A script's delete is of the key that it hands over, with the end, the wish for the earlier
/// records and the request's identifier that its options name.
pub proof fn law_scripts_delete_what_they_say(key: JsValue, opts: JsValue, r: Result<KvDelete, JsFault>)
    requires
        call_ensures(kv_delete_request, (&key, &opts), r),
    ensures
        r is Ok <==> meant_bytes(key) is Some && meant_options(opts) && meant_bytes(
            named(opts, "rangeEnd"@),
        ) is Some && meant_bytes(named(opts, "requestId"@)) is Some,
        r matches Ok(req) ==> {
            &&& Some(req.key@) == meant_bytes(key)
            &&& Some(req.range_end@) == meant_bytes(named(opts, "rangeEnd"@))
            &&& req.prev_kv == meant_yes(named(opts, "prevKv"@))
            &&& Some(req.request_id@) == meant_bytes(named(opts, "requestId"@))
        },
{
    lemma_bytes(key);
    lemma_options(opts);
    lemma_named(opts, "rangeEnd"@);
    lemma_named(opts, "requestId"@);
    lemma_named(opts, "prevKv"@);
    lemma_bytes(named(opts, "rangeEnd"@));
    lemma_bytes(named(opts, "requestId"@));
    lemma_value(named(opts, "prevKv"@));
}

/// A script's subscription is to the key that it hands over, with the end, the first revision and
/// the wish for earlier records that its options name.
pub proof fn law_scripts_subscribe_to_what_they_say(
    key: JsValue,
    opts: JsValue,
    r: Result<WatchSubscribe, JsFault>,
)
    requires
        call_ensures(watch_request, (&key, &opts), r),
    ensures
        r is Ok <==> meant_bytes(key) is Some && meant_options(opts) && meant_bytes(
            named(opts, "rangeEnd"@),
        ) is Some,
        r matches Ok(req) ==> {
            &&& Some(req.key@) == meant_bytes(key)
            &&& Some(req.range_end@) == meant_bytes(named(opts, "rangeEnd"@))
            &&& req.start_revision == meant_number(named(opts, "startRevision"@))
            &&& req.prev_kv == meant_yes(named(opts, "prevKv"@))
        },
{
    lemma_bytes(key);
    lemma_options(opts);
    lemma_named(opts, "rangeEnd"@);
    lemma_named(opts, "startRevision"@);
    lemma_named(opts, "prevKv"@);
    lemma_bytes(named(opts, "rangeEnd"@));
    lemma_value(named(opts, "startRevision"@));
    lemma_value(named(opts, "prevKv"@));
}

/// A script names an object by the text of its bucket and by its bytes.
pub proof fn law_scripts_name_objects(
    bucket: JsValue,
    object_id: JsValue,
    r: Result<(String, Vec<u8>), JsFault>,
    total: Option<i64>,
    upload: Result<(String, Vec<u8>, u64), JsFault>,
)
    requires
        call_ensures(object_request, (&bucket, &object_id), r),
        call_ensures(upload_request, (&bucket, &object_id, total), upload),
    ensures
        r is Ok <==> bucket is Text && meant_bytes(object_id) is Some,
        r matches Ok(o) ==> o.0@ == (bucket->Text_0)@ && Some(o.1@) == meant_bytes(object_id),
        upload is Ok <==> r is Ok && (total matches Some(n) ==> n >= 0),
        upload matches Ok(u) ==> u.0@ == (bucket->Text_0)@ && Some(u.1@) == meant_bytes(object_id)
            && (total matches Some(n) ==> u.2 == n) && (total is None ==> u.2 == 0),
{
    lemma_bytes(object_id);
}

/// A script's pause is as long as it says, but never negative and never longer than an hour; a
/// read is of as many bytes as it says, at least one.
pub proof fn law_scripts_wait_and_read_as_long_as_they_say(
    v: JsValue,
    ms: u64,
    size: Result<u64, JsFault>,
)
    requires
        call_ensures(sleep_ms, (&v,), ms),
        call_ensures(read_size, (&v,), size),
    ensures
        ({
            let n = meant_number(v);
            &&& n < 0 ==> ms == 0
            &&& 0 <= n <= 3_600_000 ==> ms == n
            &&& n > 3_600_000 ==> ms == 3_600_000
            &&& size is Ok <==> n > 0
            &&& size matches Ok(s) ==> s == n
        }),
{
    lemma_value(v);
}

/// A script's error is a refusal exactly where it is named so.
pub proof fn law_refusals_go_by_their_name(v: JsValue, r: bool)
    requires
        call_ensures(is_forbidden, (&v,), r),
    ensures
        r <==> (named(v, "name"@) matches JsValue::Text(s) && s@ == "ErrForbidden"@),
{
    lemma_named(v, "name"@);
}

/// What bytes of a script decode to is their text.
pub proof fn law_scripts_decode_their_bytes(v: JsValue, r: Result<String, JsFault>)
    requires
        call_ensures(decode, (&v,), r),
    ensures
        r is Ok <==> meant_bytes(v) is Some,
        r matches Ok(s) ==> s@ == text::utf8_lossy(meant_bytes(v)->0),
{
    lemma_bytes(v);
}

// ---- transactions ----

/// Whether a value names a condition: its target, how it compares, its key, and the operand that
/// the target calls for.
pub open spec fn names_compare(v: JsValue, c: Compare) -> bool {
    &&& named(v, "target"@) matches JsValue::Text(t) && {
        &&& c.target is Value <==> t@ == "value"@
        &&& c.target is Version <==> t@ == "version"@
        &&& c.target is ModRevision <==> t@ == "modRevision"@ || t@ == "mod_revision"@
    }
    &&& named(v, "op"@) matches JsValue::Text(o) && {
        &&& c.op is Equal <==> o@ == "equal"@ || o@ == "eq"@ || o@ == "=="@
        &&& c.op is NotEqual <==> o@ == "notEqual"@ || o@ == "ne"@ || o@ == "!="@
        &&& c.op is Greater <==> o@ == "greater"@ || o@ == "gt"@ || o@ == ">"@
        &&& c.op is Less <==> o@ == "less"@ || o@ == "lt"@ || o@ == "<"@
    }
    &&& Some(c.key@) == meant_bytes(named(v, "key"@))
    &&& c.target is Value ==> Some(c.bytes_value@) == meant_bytes(named(v, "value"@))
    &&& c.target is Version ==> c.int_value == meant_number(named(v, "version"@))
    &&& c.target is ModRevision ==> c.int_value == meant_number(named(v, "modRevision"@))
    &&& c.target is Value ==> c.int_value == 0
    &&& !(c.target is Value) ==> c.bytes_value@.len() == 0
}

/// Whether a value names a condition in full: a known target, a known comparison, and bytes where
/// bytes are called for.
pub open spec fn is_compare(v: JsValue) -> bool {
    &&& named(v, "target"@) matches JsValue::Text(t) && {
        ||| t@ == "version"@ || t@ == "modRevision"@ || t@ == "mod_revision"@
        ||| t@ == "value"@ && meant_bytes(named(v, "value"@)) is Some
    }
    &&& named(v, "op"@) matches JsValue::Text(o) && {
        ||| o@ == "equal"@ || o@ == "eq"@ || o@ == "=="@
        ||| o@ == "notEqual"@ || o@ == "ne"@ || o@ == "!="@
        ||| o@ == "greater"@ || o@ == "gt"@ || o@ == ">"@
        ||| o@ == "less"@ || o@ == "lt"@ || o@ == "<"@
    }
    &&& meant_bytes(named(v, "key"@)) is Some
}

/// Whether a value names an operation in full: a known kind, and bytes where bytes are called for.
pub open spec fn is_op(v: JsValue) -> bool {
    &&& named(v, "type"@) matches JsValue::Text(kind) && {
        ||| kind@ == "put"@ && meant_bytes(named(v, "value"@)) is Some && meant_bytes(
            named(v, "requestId"@),
        ) is Some
        ||| kind@ == "range"@ && meant_bytes(named(v, "rangeEnd"@)) is Some
        ||| kind@ == "delete"@ && meant_bytes(named(v, "rangeEnd"@)) is Some && meant_bytes(
            named(v, "requestId"@),
        ) is Some
    }
    &&& meant_bytes(named(v, "key"@)) is Some
}

/// Whether a value lists conditions, each named in full.
pub open spec fn are_compares(v: JsValue) -> bool {
    meant_list(v) matches Some(items) && forall|i: int|
        0 <= i < items.len() ==> is_compare(#[trigger] items[i])
}

/// Whether a value lists operations, each named in full.
pub open spec fn are_ops(v: JsValue) -> bool {
    meant_list(v) matches Some(items) && forall|i: int|
        0 <= i < items.len() ==> is_op(#[trigger] items[i])
}

proof fn lemma_distinct_words()
    ensures
        "value"@ != "version"@,
        "value"@ != "modRevision"@,
        "value"@ != "mod_revision"@,
        "version"@ != "modRevision"@,
        "version"@ != "mod_revision"@,
        "equal"@ != "notEqual"@ && "equal"@ != "ne"@ && "equal"@ != "!="@ && "equal"@ != "greater"@
            && "equal"@ != "gt"@ && "equal"@ != ">"@ && "equal"@ != "less"@ && "equal"@ != "lt"@
            && "equal"@ != "<"@,
        "eq"@ != "notEqual"@ && "eq"@ != "ne"@ && "eq"@ != "!="@ && "eq"@ != "greater"@ && "eq"@
            != "gt"@ && "eq"@ != ">"@ && "eq"@ != "less"@ && "eq"@ != "lt"@ && "eq"@ != "<"@,
        "=="@ != "notEqual"@ && "=="@ != "ne"@ && "=="@ != "!="@ && "=="@ != "greater"@ && "=="@
            != "gt"@ && "=="@ != ">"@ && "=="@ != "less"@ && "=="@ != "lt"@ && "=="@ != "<"@,
        "notEqual"@ != "greater"@ && "notEqual"@ != "gt"@ && "notEqual"@ != ">"@ && "notEqual"@
            != "less"@ && "notEqual"@ != "lt"@ && "notEqual"@ != "<"@,
        "ne"@ != "greater"@ && "ne"@ != "gt"@ && "ne"@ != ">"@ && "ne"@ != "less"@ && "ne"@ != "lt"@
            && "ne"@ != "<"@,
        "!="@ != "greater"@ && "!="@ != "gt"@ && "!="@ != ">"@ && "!="@ != "less"@ && "!="@ != "lt"@
            && "!="@ != "<"@,
        "greater"@ != "less"@ && "greater"@ != "lt"@ && "greater"@ != "<"@,
        "gt"@ != "less"@ && "gt"@ != "lt"@ && "gt"@ != "<"@,
        ">"@ != "less"@ && ">"@ != "lt"@ && ">"@ != "<"@,
        "put"@ != "range"@ && "put"@ != "delete"@ && "range"@ != "delete"@,
{
    reveal_strlit("value");
    reveal_strlit("version");
    reveal_strlit("modRevision");
    reveal_strlit("mod_revision");
    reveal_strlit("equal");
    reveal_strlit("eq");
    reveal_strlit("==");
    reveal_strlit("notEqual");
    reveal_strlit("ne");
    reveal_strlit("!=");
    reveal_strlit("greater");
    reveal_strlit("gt");
    reveal_strlit(">");
    reveal_strlit("less");
    reveal_strlit("lt");
    reveal_strlit("<");
    reveal_strlit("put");
    reveal_strlit("range");
    reveal_strlit("delete");
    assert("value"@.len() == 5 && "version"@.len() == 7 && "modRevision"@.len() == 11
        && "mod_revision"@.len() == 12 && "equal"@.len() == 5 && "eq"@.len() == 2
        && "=="@.len() == 2 && "notEqual"@.len() == 8 && "ne"@.len() == 2 && "!="@.len() == 2
        && "greater"@.len() == 7 && "gt"@.len() == 2 && ">"@.len() == 1 && "less"@.len() == 4
        && "lt"@.len() == 2 && "<"@.len() == 1 && "put"@.len() == 3 && "range"@.len() == 5
        && "delete"@.len() == 6);
    assert("eq"@[0] != "ne"@[0] && "eq"@[0] != "!="@[0] && "eq"@[0] != "gt"@[0] && "eq"@[0] != "lt"@[0]);
    assert("=="@[0] != "ne"@[0] && "=="@[0] != "!="@[0] && "=="@[0] != "gt"@[0] && "=="@[0] != "lt"@[0]);
    assert("ne"@[0] != "gt"@[0] && "ne"@[0] != "lt"@[0]);
    assert("!="@[0] != "gt"@[0] && "!="@[0] != "lt"@[0]);
    assert("gt"@[0] != "lt"@[0]);
    assert(">"@[0] != "<"@[0]);
}

proof fn lemma_names_compare(v: JsValue, c: Compare)
    requires
        bind::compare_of(js_value::js_view(v)) == Ok::<backend::CompareView, js_value::JsFaultView>(c@),
    ensures
        names_compare(v, c),
{
    lemma_distinct_words();
    lemma_named(v, "target"@);
    lemma_named(v, "op"@);
    lemma_named(v, "key"@);
    lemma_named(v, "value"@);
    lemma_named(v, "version"@);
    lemma_named(v, "modRevision"@);
    lemma_bytes(named(v, "key"@));
    lemma_bytes(named(v, "value"@));
    lemma_value(named(v, "version"@));
    lemma_value(named(v, "modRevision"@));
}

proof fn lemma_is_compare(v: JsValue)
    ensures
        bind::compare_of(js_value::js_view(v)) is Ok <==> is_compare(v),
{
    lemma_distinct_words();
    lemma_named(v, "target"@);
    lemma_named(v, "op"@);
    lemma_named(v, "key"@);
    lemma_named(v, "value"@);
    lemma_bytes(named(v, "key"@));
    lemma_bytes(named(v, "value"@));
}

/// A script's condition is taken exactly where it is named in full, and is the one that it names.
pub proof fn law_scripts_compare_what_they_say(v: JsValue, r: Result<Compare, JsFault>)
    requires
        call_ensures(parse_compare, (&v,), r),
    ensures
        r is Ok <==> is_compare(v),
        r matches Ok(c) ==> names_compare(v, c),
{
    lemma_is_compare(v);
    if let Ok(c) = r {
        lemma_names_compare(v, c);
    }
}

/// Whether a value names an operation: its kind, and all that the kind calls for.
pub open spec fn names_op(v: JsValue, op: TxnOp) -> bool {
    &&& named(v, "type"@) matches JsValue::Text(kind) && {
        &&& op is Put <==> kind@ == "put"@
        &&& op is Range <==> kind@ == "range"@
        &&& op is Delete <==> kind@ == "delete"@
    }
    &&& op matches TxnOp::Put(p) ==> {
        &&& Some(p.key@) == meant_bytes(named(v, "key"@))
        &&& Some(p.value@) == meant_bytes(named(v, "value"@))
        &&& p.lease_id == meant_number(named(v, "leaseId"@))
        &&& p.prev_kv == meant_yes(named(v, "prevKv"@))
        &&& Some(p.request_id@) == meant_bytes(named(v, "requestId"@))
    }
    &&& op matches TxnOp::Range(r) ==> {
        &&& Some(r.key@) == meant_bytes(named(v, "key"@))
        &&& Some(r.range_end@) == meant_bytes(named(v, "rangeEnd"@))
        &&& r.limit == meant_number(named(v, "limit"@))
        &&& r.revision == meant_number(named(v, "revision"@))
        &&& r.keys_only == meant_yes(named(v, "keysOnly"@))
        &&& r.count_only == meant_yes(named(v, "countOnly"@))
    }
    &&& op matches TxnOp::Delete(d) ==> {
        &&& Some(d.key@) == meant_bytes(named(v, "key"@))
        &&& Some(d.range_end@) == meant_bytes(named(v, "rangeEnd"@))
        &&& d.prev_kv == meant_yes(named(v, "prevKv"@))
        &&& Some(d.request_id@) == meant_bytes(named(v, "requestId"@))
    }
}

proof fn lemma_names_op(v: JsValue, op: TxnOp)
    requires
        bind::op_of(js_value::js_view(v)) == Ok::<backend::TxnOpView, js_value::JsFaultView>(op@),
    ensures
        names_op(v, op),
{
    lemma_distinct_words();
    lemma_named(v, "type"@);
    lemma_named(v, "key"@);
    lemma_named(v, "value"@);
    lemma_named(v, "leaseId"@);
    lemma_named(v, "prevKv"@);
    lemma_named(v, "requestId"@);
    lemma_named(v, "rangeEnd"@);
    lemma_named(v, "limit"@);
    lemma_named(v, "revision"@);
    lemma_named(v, "keysOnly"@);
    lemma_named(v, "countOnly"@);
    lemma_bytes(named(v, "key"@));
    lemma_bytes(named(v, "value"@));
    lemma_bytes(named(v, "requestId"@));
    lemma_bytes(named(v, "rangeEnd"@));
    lemma_value(named(v, "leaseId"@));
    lemma_value(named(v, "prevKv"@));
    lemma_value(named(v, "limit"@));
    lemma_value(named(v, "revision"@));
    lemma_value(named(v, "keysOnly"@));
    lemma_value(named(v, "countOnly"@));
}

proof fn lemma_is_op(v: JsValue)
    ensures
        bind::op_of(js_value::js_view(v)) is Ok <==> is_op(v),
{
    lemma_distinct_words();
    lemma_named(v, "type"@);
    lemma_named(v, "key"@);
    lemma_named(v, "value"@);
    lemma_named(v, "requestId"@);
    lemma_named(v, "rangeEnd"@);
    lemma_bytes(named(v, "key"@));
    lemma_bytes(named(v, "value"@));
    lemma_bytes(named(v, "requestId"@));
    lemma_bytes(named(v, "rangeEnd"@));
}

/// A script's operation is taken exactly where it is named in full, and is the one that it names.
pub proof fn law_scripts_do_what_they_say(v: JsValue, r: Result<TxnOp, JsFault>)
    requires
        call_ensures(parse_txn_op, (&v,), r),
    ensures
        r is Ok <==> is_op(v),
        r matches Ok(op) ==> names_op(v, op),
{
    lemma_is_op(v);
    if let Ok(op) = r {
        lemma_names_op(v, op);
    }
}

proof fn lemma_list(v: JsValue)
    ensures
        meant_list(v) is Some <==> js_value::missing(js_value::js_view(v)) || js_value::elements_of(
            js_value::js_view(v),
        ) is Some,
        !js_value::missing(js_value::js_view(v)) ==> (meant_list(v) matches Some(items) ==> {
            let seen = js_value::elements_of(js_value::js_view(v))->0;
            &&& seen.len() == items.len()
            &&& forall|i: int|
                0 <= i < items.len() ==> #[trigger] seen[i] == js_value::js_view(items[i])
        }),
        js_value::missing(js_value::js_view(v)) ==> meant_list(v)->0.len() == 0,
{
    reveal_with_fuel(js_value::js_view, 2);
}

proof fn lemma_compares_upto(items: Seq<JsView>, n: int, i: int)
    requires
        0 <= i < n,
        bind::compares_upto(items, n) is Ok,
    ensures
        bind::compares_upto(items, n)->Ok_0.len() == n,
        bind::compare_of(items[i]) == Ok::<backend::CompareView, js_value::JsFaultView>(
            bind::compares_upto(items, n)->Ok_0[i],
        ),
    decreases n,
{
    if n == 1 {
        assert(bind::compares_upto(items, 0)->Ok_0.len() == 0);
    } else if i < n - 1 {
        lemma_compares_upto(items, n - 1, i);
    } else {
        lemma_compares_upto(items, n - 1, 0);
    }
}

proof fn lemma_ops_upto(items: Seq<JsView>, n: int, i: int)
    requires
        0 <= i < n,
        bind::ops_upto(items, n) is Ok,
    ensures
        bind::ops_upto(items, n)->Ok_0.len() == n,
        bind::op_of(items[i]) == Ok::<backend::TxnOpView, js_value::JsFaultView>(
            bind::ops_upto(items, n)->Ok_0[i],
        ),
    decreases n,
{
    if n == 1 {
        assert(bind::ops_upto(items, 0)->Ok_0.len() == 0);
    } else if i < n - 1 {
        lemma_ops_upto(items, n - 1, i);
    } else {
        lemma_ops_upto(items, n - 1, 0);
    }
}

/// Whether conditions are those that a value lists, in order.
pub open spec fn lists_compares(v: JsValue, r: Seq<Compare>) -> bool {
    &&& meant_list(v) matches Some(items) && items.len() == r.len() && forall|i: int|
        0 <= i < items.len() ==> names_compare(items[i], #[trigger] r[i])
}

/// Whether operations are those that a value lists, in order.
pub open spec fn lists_ops(v: JsValue, r: Seq<TxnOp>) -> bool {
    &&& meant_list(v) matches Some(items) && items.len() == r.len() && forall|i: int|
        0 <= i < items.len() ==> names_op(items[i], #[trigger] r[i])
}

proof fn lemma_lists_compares(v: JsValue, r: Seq<Compare>)
    requires
        bind::compares_of(js_value::js_view(v)) == Ok::<
            Seq<backend::CompareView>,
            js_value::JsFaultView,
        >(backend::views(r)),
    ensures
        lists_compares(v, r),
{
    lemma_list(v);
    let items = meant_list(v)->0;
    assert(backend::views(r).len() == r.len());
    if !js_value::missing(js_value::js_view(v)) {
        let seen = js_value::elements_of(js_value::js_view(v))->0;
        if items.len() > 0 {
            lemma_compares_upto(seen, seen.len() as int, 0);
        }
        assert forall|i: int| 0 <= i < items.len() implies names_compare(items[i], #[trigger] r[i]) by {
            lemma_compares_upto(seen, seen.len() as int, i);
            assert(seen[i] == js_value::js_view(items[i]));
            assert(backend::views(r)[i] == r[i]@);
            lemma_names_compare(items[i], r[i]);
        }
    }
}

proof fn lemma_lists_ops(v: JsValue, branch: Seq<char>, r: Seq<TxnOp>)
    requires
        bind::ops_of(js_value::js_view(v), branch) == Ok::<
            Seq<backend::TxnOpView>,
            js_value::JsFaultView,
        >(backend::views(r)),
    ensures
        lists_ops(v, r),
{
    lemma_list(v);
    let items = meant_list(v)->0;
    assert(backend::views(r).len() == r.len());
    if !js_value::missing(js_value::js_view(v)) {
        let seen = js_value::elements_of(js_value::js_view(v))->0;
        if items.len() > 0 {
            lemma_ops_upto(seen, seen.len() as int, 0);
        }
        assert forall|i: int| 0 <= i < items.len() implies names_op(items[i], #[trigger] r[i]) by {
            lemma_ops_upto(seen, seen.len() as int, i);
            assert(seen[i] == js_value::js_view(items[i]));
            assert(backend::views(r)[i] == r[i]@);
            lemma_names_op(items[i], r[i]);
        }
    }
}

proof fn lemma_compares_ok(items: Seq<JsView>, n: int)
    requires
        0 <= n,
    ensures
        bind::compares_upto(items, n) is Ok <==> forall|i: int|
            0 <= i < n ==> bind::compare_of(#[trigger] items[i]) is Ok,
    decreases n,
{
    if n > 0 {
        lemma_compares_ok(items, n - 1);
        let last = items[n - 1];
        assert(bind::compares_upto(items, n) is Ok <==> bind::compares_upto(items, n - 1) is Ok
            && bind::compare_of(last) is Ok);
    }
}

proof fn lemma_are_compares(v: JsValue)
    ensures
        bind::compares_of(js_value::js_view(v)) is Ok <==> are_compares(v),
{
    lemma_list(v);
    if !js_value::missing(js_value::js_view(v)) && meant_list(v) is Some {
        let items = meant_list(v)->0;
        let seen = js_value::elements_of(js_value::js_view(v))->0;
        lemma_compares_ok(seen, seen.len() as int);
        assert forall|i: int| 0 <= i < items.len() implies bind::compare_of(#[trigger] seen[i]) is Ok
            == is_compare(items[i]) by {
            lemma_is_compare(items[i]);
        }
        if are_compares(v) {
            assert forall|i: int| 0 <= i < seen.len() implies bind::compare_of(#[trigger] seen[i]) is Ok by {
                assert(is_compare(items[i]));
            }
        }
        if bind::compares_of(js_value::js_view(v)) is Ok {
            assert forall|i: int| 0 <= i < items.len() implies is_compare(#[trigger] items[i]) by {
                assert(bind::compare_of(seen[i]) is Ok);
            }
        }
    }
}

proof fn lemma_ops_ok(items: Seq<JsView>, n: int)
    requires
        0 <= n,
    ensures
        bind::ops_upto(items, n) is Ok <==> forall|i: int|
            0 <= i < n ==> bind::op_of(#[trigger] items[i]) is Ok,
    decreases n,
{
    if n > 0 {
        lemma_ops_ok(items, n - 1);
        let last = items[n - 1];
        assert(bind::ops_upto(items, n) is Ok <==> bind::ops_upto(items, n - 1) is Ok
            && bind::op_of(last) is Ok);
    }
}

proof fn lemma_are_ops(v: JsValue, branch: Seq<char>)
    ensures
        bind::ops_of(js_value::js_view(v), branch) is Ok <==> are_ops(v),
{
    lemma_list(v);
    if !js_value::missing(js_value::js_view(v)) && meant_list(v) is Some {
        let items = meant_list(v)->0;
        let seen = js_value::elements_of(js_value::js_view(v))->0;
        lemma_ops_ok(seen, seen.len() as int);
        assert forall|i: int| 0 <= i < items.len() implies bind::op_of(#[trigger] seen[i]) is Ok
            == is_op(items[i]) by {
            lemma_is_op(items[i]);
        }
        if are_ops(v) {
            assert forall|i: int| 0 <= i < seen.len() implies bind::op_of(#[trigger] seen[i]) is Ok by {
                assert(is_op(items[i]));
            }
        }
        if bind::ops_of(js_value::js_view(v), branch) is Ok {
            assert forall|i: int| 0 <= i < items.len() implies is_op(#[trigger] items[i]) by {
                assert(bind::op_of(seen[i]) is Ok);
            }
        }
    }
}

/// Every condition that a script lists is taken, in order, and so is every operation.
pub proof fn law_scripts_list_what_they_mean(
    v: JsValue,
    branch: &str,
    compares: Result<Vec<Compare>, JsFault>,
    ops: Result<Vec<TxnOp>, JsFault>,
)
    requires
        call_ensures(parse_compares, (&v,), compares),
        call_ensures(parse_op_array, (&v, branch), ops),
    ensures
        compares is Ok <==> are_compares(v),
        compares matches Ok(r) ==> lists_compares(v, r@),
        ops is Ok <==> are_ops(v),
        ops matches Ok(r) ==> lists_ops(v, r@),
{
    lemma_are_compares(v);
    lemma_are_ops(v, branch@);
    if let Ok(r) = compares {
        lemma_lists_compares(v, r@);
    }
    if let Ok(r) = ops {
        lemma_lists_ops(v, branch@, r@);
    }
}

/// A script's transaction has the conditions and the operations of both branches that it hands
/// over, and the request's identifier that its options name.
pub proof fn law_scripts_transact_what_they_say(
    compares: JsValue,
    success: JsValue,
    failure: JsValue,
    opts: JsValue,
    r: Result<TxnReq, JsFault>,
)
    requires
        call_ensures(txn_request, (&compares, &success, &failure, &opts), r),
    ensures
        r matches Ok(req) ==> {
            &&& lists_compares(compares, req.compares@)
            &&& lists_ops(success, req.success@)
            &&& lists_ops(failure, req.failure@)
            &&& Some(req.request_id@) == meant_bytes(named(opts, "requestId"@))
        },
        r is Ok <==> are_compares(compares) && are_ops(success) && are_ops(failure)
            && meant_options(opts) && meant_bytes(named(opts, "requestId"@)) is Some,
{
    lemma_are_compares(compares);
    lemma_are_ops(success, "success"@);
    lemma_are_ops(failure, "failure"@);
    lemma_options(opts);
    lemma_named(opts, "requestId"@);
    lemma_bytes(named(opts, "requestId"@));
    if let Ok(req) = r {
        lemma_lists_compares(compares, req.compares@);
        lemma_lists_ops(success, "success"@, req.success@);
        lemma_lists_ops(failure, "failure"@, req.failure@);
    }
}

// ---- answers ----

/// What a script reads of an answer by a name.
pub open spec fn reads(r: JsValue, name: Seq<char>) -> JsView {
    js_value::field_of(js_value::js_view(r), name)
}

/// Whether a value shows a record: key and value as bytes, lease and version as numbers.
pub open spec fn shows_record(v: JsView, rec: KvRecord) -> bool {
    &&& js_value::field_of(v, "key"@) == JsView::Bytes(rec.key@)
    &&& js_value::field_of(v, "value"@) == JsView::Bytes(rec.value@)
    &&& js_value::field_of(v, "leaseId"@) == JsView::Number(rec.lease_id)
    &&& js_value::field_of(v, "version"@) == JsView::Number(rec.version)
}

/// Whether a value shows records, each in its place.
pub open spec fn shows_records(v: JsView, recs: Seq<KvRecord>) -> bool {
    v matches JsView::List(items) && items.len() == recs.len() && forall|i: int|
        0 <= i < recs.len() ==> shows_record(#[trigger] items[i], recs[i])
}

/// Whether a value shows a record that may be missing.
pub open spec fn shows_maybe(v: JsView, rec: Option<KvRecord>) -> bool {
    match rec {
        Some(r) => shows_record(v, r),
        None => v is Undefined,
    }
}

proof fn lemma_field_at(fields: Seq<(Seq<char>, JsView)>, name: Seq<char>, from: int, k: int)
    requires
        0 <= from <= k < fields.len(),
        fields[k].0 == name,
        forall|j: int| from <= j < k ==> (#[trigger] fields[j]).0 != name,
    ensures
        js_value::field_from(fields, name, from) == fields[k].1,
    decreases k - from,
{
    if from < k {
        assert(fields[from].0 != name);
        lemma_field_at(fields, name, from + 1, k);
    }
}

proof fn lemma_no_field(fields: Seq<(Seq<char>, JsView)>, name: Seq<char>, from: int)
    requires
        0 <= from <= fields.len(),
        forall|j: int| from <= j < fields.len() ==> (#[trigger] fields[j]).0 != name,
    ensures
        js_value::field_from(fields, name, from) is Undefined,
    decreases fields.len() - from,
{
    if from < fields.len() {
        assert(fields[from].0 != name);
        lemma_no_field(fields, name, from + 1);
    }
}

/// The names under which scripts find the parts of answers are different ones.
proof fn lemma_answer_names()
    ensures
        "key"@ != "value"@ && "key"@ != "leaseId"@ && "key"@ != "version"@,
        "value"@ != "leaseId"@ && "value"@ != "version"@ && "leaseId"@ != "version"@,
        "revision"@ != "prevKv"@ && "revision"@ != "kvs"@ && "revision"@ != "count"@ && "revision"@
            != "deleted"@ && "revision"@ != "prevKvs"@ && "revision"@ != "type"@ && "revision"@
            != "succeeded"@ && "revision"@ != "responses"@,
        "kvs"@ != "count"@ && "kvs"@ != "type"@ && "kvs"@ != "prevKv"@,
        "count"@ != "type"@,
        "deleted"@ != "prevKvs"@ && "deleted"@ != "type"@,
        "prevKvs"@ != "type"@ && "prevKv"@ != "type"@ && "prevKv"@ != "prevKvs"@,
        "succeeded"@ != "responses"@,
        "bucket"@ != "objectId"@ && "bucket"@ != "size"@ && "bucket"@ != "chunks"@ && "bucket"@
            != "revision"@ && "bucket"@ != "exists"@ && "bucket"@ != "committed"@,
        "objectId"@ != "size"@ && "objectId"@ != "chunks"@ && "objectId"@ != "revision"@
            && "objectId"@ != "exists"@ && "objectId"@ != "committed"@,
        "size"@ != "chunks"@ && "size"@ != "revision"@ && "size"@ != "exists"@ && "size"@
            != "committed"@,
        "chunks"@ != "revision"@ && "chunks"@ != "exists"@ && "chunks"@ != "committed"@,
        "revision"@ != "exists"@ && "revision"@ != "committed"@ && "exists"@ != "committed"@,
        "stat"@ != "data"@ && "id"@ != "ttl"@,
{
    reveal_strlit("key");
    reveal_strlit("value");
    reveal_strlit("leaseId");
    reveal_strlit("version");
    reveal_strlit("revision");
    reveal_strlit("prevKv");
    reveal_strlit("prevKvs");
    reveal_strlit("kvs");
    reveal_strlit("count");
    reveal_strlit("deleted");
    reveal_strlit("type");
    reveal_strlit("succeeded");
    reveal_strlit("responses");
    reveal_strlit("bucket");
    reveal_strlit("objectId");
    reveal_strlit("size");
    reveal_strlit("chunks");
    reveal_strlit("exists");
    reveal_strlit("committed");
    reveal_strlit("stat");
    reveal_strlit("data");
    reveal_strlit("id");
    reveal_strlit("ttl");
    assert("key"@.len() == 3 && "value"@.len() == 5 && "leaseId"@.len() == 7
        && "version"@.len() == 7 && "revision"@.len() == 8 && "prevKv"@.len() == 6
        && "prevKvs"@.len() == 7 && "kvs"@.len() == 3 && "count"@.len() == 5
        && "deleted"@.len() == 7 && "type"@.len() == 4 && "succeeded"@.len() == 9
        && "responses"@.len() == 9 && "bucket"@.len() == 6 && "objectId"@.len() == 8
        && "size"@.len() == 4 && "chunks"@.len() == 6 && "exists"@.len() == 6
        && "committed"@.len() == 9 && "stat"@.len() == 4 && "data"@.len() == 4
        && "id"@.len() == 2 && "ttl"@.len() == 3);
    assert("leaseId"@[0] != "version"@[0]);
    assert("deleted"@[0] != "prevKvs"@[0]);
    assert("succeeded"@[0] != "responses"@[0]);
    assert("bucket"@[0] != "chunks"@[0] && "bucket"@[0] != "exists"@[0]);
    assert("objectId"@[0] != "revision"@[0]);
    assert("chunks"@[0] != "exists"@[0]);
    assert("stat"@[0] != "data"@[0]);
}

proof fn lemma_shows_record(v: JsView, rec: KvRecord)
    requires
        v == js_answer::js_record(rec@),
    ensures
        shows_record(v, rec),
{
    lemma_answer_names();
    let f = v->Object_0;
    lemma_field_at(f, "key"@, 0, 0);
    lemma_field_at(f, "value"@, 0, 1);
    lemma_field_at(f, "leaseId"@, 0, 2);
    lemma_field_at(f, "version"@, 0, 3);
}

proof fn lemma_shows_records(v: JsView, recs: Seq<KvRecord>)
    requires
        v == js_answer::js_records(backend::views(recs)),
    ensures
        shows_records(v, recs),
{
    let items = v->List_0;
    assert(backend::views(recs).len() == recs.len());
    assert forall|i: int| 0 <= i < recs.len() implies shows_record(#[trigger] items[i], recs[i]) by {
        assert(backend::views(recs)[i] == recs[i]@);
        lemma_shows_record(items[i], recs[i]);
    }
}

/// A record shows its key, its value, its lease and its version; records are shown one and all.
pub proof fn law_scripts_see_records(rec: KvRecord, one: JsValue, recs: Vec<KvRecord>, all: JsValue)
    requires
        call_ensures(record_to_js, (&rec,), one),
        call_ensures(records_to_js, (&recs,), all),
    ensures
        shows_record(js_value::js_view(one), rec),
        shows_records(js_value::js_view(all), recs@),
{
    lemma_shows_record(js_value::js_view(one), rec);
    lemma_shows_records(js_value::js_view(all), recs@);
}

/// The answer to a write shows its revision, and the earlier record where there is one.
pub proof fn law_scripts_see_what_a_write_did(out: KvPutOut, r: JsValue)
    requires
        call_ensures(put_out_to_js, (&out,), r),
    ensures
        reads(r, "revision"@) == JsView::Number(out.revision),
        shows_maybe(reads(r, "prevKv"@), out.prev_kv),
{
    lemma_answer_names();
    let f = js_value::js_view(r)->Object_0;
    lemma_field_at(f, "revision"@, 0, 0);
    match out.prev_kv {
        Some(p) => {
            lemma_field_at(f, "prevKv"@, 0, 1);
            lemma_shows_record(reads(r, "prevKv"@), p);
        },
        None => {
            lemma_no_field(f, "prevKv"@, 0);
        },
    }
}

/// The answer to a read shows every record, the count and the revision.
pub proof fn law_scripts_see_what_a_read_found(out: KvRangeOut, r: JsValue)
    requires
        call_ensures(range_out_to_js, (&out,), r),
    ensures
        shows_records(reads(r, "kvs"@), out.kvs@),
        reads(r, "count"@) == JsView::Number(out.count),
        reads(r, "revision"@) == JsView::Number(out.revision),
{
    lemma_answer_names();
    let f = js_value::js_view(r)->Object_0;
    lemma_field_at(f, "kvs"@, 0, 0);
    lemma_field_at(f, "count"@, 0, 1);
    lemma_field_at(f, "revision"@, 0, 2);
    lemma_shows_records(reads(r, "kvs"@), out.kvs@);
}

/// The answer to a delete shows how many keys went, every earlier record, and the revision.
pub proof fn law_scripts_see_what_a_delete_did(out: KvDeleteOut, r: JsValue)
    requires
        call_ensures(delete_out_to_js, (&out,), r),
    ensures
        reads(r, "deleted"@) == JsView::Number(out.deleted),
        shows_records(reads(r, "prevKvs"@), out.prev_kvs@),
        reads(r, "revision"@) == JsView::Number(out.revision),
{
    lemma_answer_names();
    let f = js_value::js_view(r)->Object_0;
    lemma_field_at(f, "deleted"@, 0, 0);
    lemma_field_at(f, "prevKvs"@, 0, 1);
    lemma_field_at(f, "revision"@, 0, 2);
    lemma_shows_records(reads(r, "prevKvs"@), out.prev_kvs@);
}

/// The answer to a create shows its revision, and a granted lease its number and its time to live.
pub proof fn law_scripts_see_revisions_and_leases(
    revision: i64,
    created: JsValue,
    id: i64,
    ttl: i64,
    lease: JsValue,
)
    requires
        call_ensures(create_out_to_js, (revision,), created),
        call_ensures(lease_to_js, (id, ttl), lease),
    ensures
        reads(created, "revision"@) == JsView::Number(revision),
        reads(lease, "id"@) == JsView::Number(id),
        reads(lease, "ttl"@) == JsView::Number(ttl),
{
    lemma_answer_names();
    lemma_field_at(js_value::js_view(created)->Object_0, "revision"@, 0, 0);
    lemma_field_at(js_value::js_view(lease)->Object_0, "id"@, 0, 0);
    lemma_field_at(js_value::js_view(lease)->Object_0, "ttl"@, 0, 1);
}

/// Whether a value shows the answer to an operation: its kind, and all that the kind has.
pub open spec fn shows_op(v: JsView, out: TxnOpOut) -> bool {
    match out {
        TxnOpOut::Put(p) => {
            &&& js_value::field_of(v, "type"@) == JsView::Text("put"@)
            &&& js_value::field_of(v, "revision"@) == JsView::Number(p.revision)
            &&& shows_maybe(js_value::field_of(v, "prevKv"@), p.prev_kv)
        },
        TxnOpOut::Range(x) => {
            &&& js_value::field_of(v, "type"@) == JsView::Text("range"@)
            &&& shows_records(js_value::field_of(v, "kvs"@), x.kvs@)
            &&& js_value::field_of(v, "count"@) == JsView::Number(x.count)
            &&& js_value::field_of(v, "revision"@) == JsView::Number(x.revision)
        },
        TxnOpOut::Delete(d) => {
            &&& js_value::field_of(v, "type"@) == JsView::Text("delete"@)
            &&& js_value::field_of(v, "deleted"@) == JsView::Number(d.deleted)
            &&& shows_records(js_value::field_of(v, "prevKvs"@), d.prev_kvs@)
            &&& js_value::field_of(v, "revision"@) == JsView::Number(d.revision)
        },
    }
}

proof fn lemma_shows_op(v: JsView, out: TxnOpOut)
    requires
        v == js_answer::js_op_out(out@),
    ensures
        shows_op(v, out),
{
    lemma_answer_names();
    let f = v->Object_0;
    lemma_field_at(f, "type"@, 0, 0);
    match out {
        TxnOpOut::Put(p) => {
            lemma_field_at(f, "revision"@, 0, 1);
            match p.prev_kv {
                Some(prev) => {
                    lemma_field_at(f, "prevKv"@, 0, 2);
                    lemma_shows_record(f[2].1, prev);
                },
                None => {
                    lemma_no_field(f, "prevKv"@, 0);
                },
            }
        },
        TxnOpOut::Range(x) => {
            lemma_field_at(f, "kvs"@, 0, 1);
            lemma_field_at(f, "count"@, 0, 2);
            lemma_field_at(f, "revision"@, 0, 3);
            lemma_shows_records(f[1].1, x.kvs@);
        },
        TxnOpOut::Delete(d) => {
            lemma_field_at(f, "deleted"@, 0, 1);
            lemma_field_at(f, "prevKvs"@, 0, 2);
            lemma_field_at(f, "revision"@, 0, 3);
            lemma_shows_records(f[2].1, d.prev_kvs@);
        },
    }
}

/// The answer to a transaction shows whether it succeeded, the revision, and the answer to every
/// operation, in order.
pub proof fn law_scripts_see_what_a_transaction_did(op: TxnOpOut, one: JsValue, out: TxnOut, r: JsValue)
    requires
        call_ensures(txn_op_out_to_js, (&op,), one),
        call_ensures(txn_out_to_js, (&out,), r),
    ensures
        shows_op(js_value::js_view(one), op),
        reads(r, "succeeded"@) == JsView::Bool(out.succeeded),
        reads(r, "revision"@) == JsView::Number(out.revision),
        reads(r, "responses"@) matches JsView::List(items) && items.len() == out.responses@.len()
            && forall|i: int|
            0 <= i < items.len() ==> shows_op(#[trigger] items[i], out.responses@[i]),
{
    lemma_answer_names();
    lemma_shows_op(js_value::js_view(one), op);
    let f = js_value::js_view(r)->Object_0;
    lemma_field_at(f, "succeeded"@, 0, 0);
    lemma_field_at(f, "revision"@, 0, 1);
    lemma_field_at(f, "responses"@, 0, 2);
    let items = f[2].1->List_0;
    assert(out@.responses.len() == out.responses@.len());
    assert forall|i: int| 0 <= i < items.len() implies shows_op(
        #[trigger] items[i],
        out.responses@[i],
    ) by {
        assert(out@.responses[i] == out.responses@[i]@);
        lemma_shows_op(items[i], out.responses@[i]);
    }
}

/// Whether a value shows what is known of an object.
pub open spec fn shows_stat(v: JsView, stat: ObjectStatDto) -> bool {
    &&& js_value::field_of(v, "bucket"@) == JsView::Text(stat.bucket@)
    &&& js_value::field_of(v, "objectId"@) == JsView::Bytes(stat.object_id@)
    &&& js_value::field_of(v, "size"@) == JsView::Number(stat.size)
    &&& js_value::field_of(v, "chunks"@) == JsView::Number(stat.chunks)
    &&& js_value::field_of(v, "revision"@) == JsView::Number(stat.revision)
    &&& js_value::field_of(v, "exists"@) == JsView::Bool(stat.exists)
    &&& js_value::field_of(v, "committed"@) == JsView::Bool(stat.committed)
}

proof fn lemma_shows_stat(v: JsView, stat: ObjectStatDto)
    requires
        v == js_answer::js_object_stat(stat@),
    ensures
        shows_stat(v, stat),
{
    lemma_answer_names();
    let f = v->Object_0;
    lemma_field_at(f, "bucket"@, 0, 0);
    lemma_field_at(f, "objectId"@, 0, 1);
    lemma_field_at(f, "size"@, 0, 2);
    lemma_field_at(f, "chunks"@, 0, 3);
    lemma_field_at(f, "revision"@, 0, 4);
    lemma_field_at(f, "exists"@, 0, 5);
    lemma_field_at(f, "committed"@, 0, 6);
}

/// Scripts see of an object all that is known of it, and null where there is none; of a download
/// its bytes too; of an upload what was stored; and of a part its bytes, and null at the end.
pub proof fn law_scripts_see_objects(
    stat: ObjectStatDto,
    one: JsValue,
    maybe: Option<ObjectStatDto>,
    found: JsValue,
    got: ObjectGetOut,
    download: JsValue,
    put: ObjectPutOut,
    upload: JsValue,
    chunk: Option<Vec<u8>>,
    part: JsValue,
)
    requires
        call_ensures(object_stat_to_js, (&stat,), one),
        call_ensures(stat_answer_to_js, (&maybe,), found),
        call_ensures(download_to_js, (&got,), download),
        call_ensures(upload_out_to_js, (&put,), upload),
        call_ensures(chunk_to_js, (chunk,), part),
    ensures
        shows_stat(js_value::js_view(one), stat),
        maybe matches Some(s) ==> shows_stat(js_value::js_view(found), s),
        maybe is None ==> found is Null,
        shows_stat(reads(download, "stat"@), got.stat),
        reads(download, "data"@) == JsView::Bytes(got.data@),
        reads(upload, "revision"@) == JsView::Number(put.revision),
        reads(upload, "size"@) == JsView::Number(put.size),
        reads(upload, "chunks"@) == JsView::Number(put.chunks),
        chunk matches Some(b) ==> js_value::js_view(part) == JsView::Bytes(b@),
        chunk is None ==> part is Null,
{
    lemma_answer_names();
    lemma_shows_stat(js_value::js_view(one), stat);
    if let Some(s) = maybe {
        lemma_shows_stat(js_value::js_view(found), s);
    }
    let d = js_value::js_view(download)->Object_0;
    lemma_field_at(d, "stat"@, 0, 0);
    lemma_field_at(d, "data"@, 0, 1);
    lemma_shows_stat(d[0].1, got.stat);
    let u = js_value::js_view(upload)->Object_0;
    lemma_field_at(u, "revision"@, 0, 0);
    lemma_field_at(u, "size"@, 0, 1);
    lemma_field_at(u, "chunks"@, 0, 2);
}

/// Scripts see of a change its kind, its revision, every record, and the earlier record where there
/// is one; null is the end of the stream.
pub proof fn law_scripts_see_changes(event: Option<WatchEventDto>, r: JsValue)
    requires
        call_ensures(event_to_js, (&event,), r),
    ensures
        event is None ==> r is Null,
        event matches Some(ev) ==> {
            &&& ev.kind is Put ==> reads(r, "type"@) == JsView::Text("PUT"@)
            &&& ev.kind is Delete ==> reads(r, "type"@) == JsView::Text("DELETE"@)
            &&& ev.kind is BufferOverflow ==> reads(r, "type"@) == JsView::Text("BUFFER_OVERFLOW"@)
            &&& ev.kind is HistoryUnavailable ==> reads(r, "type"@) == JsView::Text(
                "HISTORY_UNAVAILABLE"@,
            )
            &&& reads(r, "revision"@) == JsView::Number(ev.revision)
            &&& shows_records(reads(r, "kvs"@), ev.kvs@)
            &&& shows_maybe(reads(r, "prevKv"@), ev.prev_kv)
        },
{
    lemma_answer_names();
    if let Some(ev) = event {
        let f = js_value::js_view(r)->Object_0;
        lemma_field_at(f, "type"@, 0, 0);
        lemma_field_at(f, "revision"@, 0, 1);
        lemma_field_at(f, "kvs"@, 0, 2);
        lemma_shows_records(f[2].1, ev.kvs@);
        match ev.prev_kv {
            Some(p) => {
                lemma_field_at(f, "prevKv"@, 0, 3);
                lemma_shows_record(f[3].1, p);
            },
            None => {
                lemma_no_field(f, "prevKv"@, 0);
            },
        }
    }
}

/// Scripts catch a failure under the name of its class, with the short name of the class, and with
/// a line that has both the name and the message.
pub proof fn law_scripts_catch_failures_by_name(e: SdkError, r: JsError)
    requires
        call_ensures(throw_sdk_error, (&e,), r),
    ensures
        r.message@ == r.name@ + ": "@ + e.message@,
        e.code is NotFound ==> r.name@ == "ErrNotFound"@ && r.code@ == "not_found"@,
        e.code is Unavailable ==> r.name@ == "ErrUnavailable"@ && r.code@ == "unavailable"@,
        e.code is Forbidden ==> r.name@ == "ErrForbidden"@ && r.code@ == "forbidden"@,
        e.code is ResourceExhausted ==> r.name@ == "ErrResourceExhausted"@ && r.code@
            == "resource_exhausted"@,
        e.code is InvalidArgument ==> r.name@ == "ErrInvalidArgument"@ && r.code@
            == "invalid_argument"@,
        e.code is Conflict ==> r.name@ == "ErrConflict"@ && r.code@ == "conflict"@,
        e.code is Internal ==> r.name@ == "ErrInternal"@ && r.code@ == "internal"@,
{
}

/// Every function is installed once, below `coord` at the place where scripts look for it.
pub proof fn law_scripts_find_their_functions(call: ScriptCall, place: &'static str, all: Vec<ScriptCall>)
    requires
        call_ensures(ScriptCall::place, (call,), place),
        call_ensures(install, (), all),
    ensures
        call is KvPut ==> place@ == "kv.put"@,
        call is KvGet ==> place@ == "kv.get"@,
        call is KvRange ==> place@ == "kv.range"@,
        call is KvDelete ==> place@ == "kv.delete"@,
        call is KvCreate ==> place@ == "kv.create"@,
        call is Txn ==> place@ == "txn"@,
        call is LeaseGrant ==> place@ == "lease.grant"@,
        call is LeaseRevoke ==> place@ == "lease.revoke"@,
        call is LeaseKeepAlive ==> place@ == "lease.keepAlive"@,
        call is WatchSubscribe ==> place@ == "watch.subscribe"@,
        call is StoragePut ==> place@ == "storage.put"@,
        call is StorageGet ==> place@ == "storage.get"@,
        call is StorageStat ==> place@ == "storage.stat"@,
        call is StorageDelete ==> place@ == "storage.delete"@,
        call is StorageOpenWrite ==> place@ == "storage.openWrite"@,
        call is StorageOpenRead ==> place@ == "storage.openRead"@,
        call is Log ==> place@ == "log"@,
        call is Env ==> place@ == "env"@,
        call is Encode ==> place@ == "util.encode"@,
        call is Decode ==> place@ == "util.decode"@,
        call is IsForbidden ==> place@ == "util.isForbidden"@,
        call is Sleep ==> place@ == "util.sleep"@,
        all@.contains(call),
        all@.no_duplicates(),
{
    let at: int = match call {
        ScriptCall::KvPut => 0,
        ScriptCall::KvGet => 1,
        ScriptCall::KvRange => 2,
        ScriptCall::KvDelete => 3,
        ScriptCall::KvCreate => 4,
        ScriptCall::Txn => 5,
        ScriptCall::LeaseGrant => 6,
        ScriptCall::LeaseRevoke => 7,
        ScriptCall::LeaseKeepAlive => 8,
        ScriptCall::WatchSubscribe => 9,
        ScriptCall::StoragePut => 10,
        ScriptCall::StorageGet => 11,
        ScriptCall::StorageStat => 12,
        ScriptCall::StorageDelete => 13,
        ScriptCall::StorageOpenWrite => 14,
        ScriptCall::StorageOpenRead => 15,
        ScriptCall::Log => 16,
        ScriptCall::Env => 17,
        ScriptCall::Encode => 18,
        ScriptCall::Decode => 19,
        ScriptCall::IsForbidden => 20,
        ScriptCall::Sleep => 21,
    };
    assert(all@[at] == call);
}

/// A script that hands over a value of the wrong kind is told what was expected.
pub proof fn law_scripts_are_told_what_is_wrong(
    v: JsValue,
    what: &str,
    text: Result<String, JsFault>,
    bytes: Result<Vec<u8>, JsFault>,
)
    requires
        call_ensures(js_string, (&v, what), text),
        call_ensures(js_bytes, (&v,), bytes),
    ensures
        text matches Err(e) ==> (e matches JsFault::WrongKind(m) && m@ == "'"@ + what@
            + "' must be a string"@),
        bytes matches Err(e) ==> e is WrongKind,
{
}

} // verus!
