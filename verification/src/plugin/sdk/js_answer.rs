//! Answers of the host, as scripts see them.
use crate::plugin::sdk::backend;
use crate::plugin::sdk::backend::{
    KvDeleteOut, KvDeleteOutView, KvPutOut, KvPutOutView, KvRangeOut, KvRangeOutView, KvRecord,
    KvRecordView, ObjectGetOut, ObjectGetOutView, ObjectPutOut, ObjectPutOutView, ObjectStatDto,
    ObjectStatDtoView, SdkError, TxnOpOut, TxnOpOutView, TxnOut, TxnOutView, WatchEventDto,
    WatchEventDtoView,
};
use crate::plugin::sdk::js_value;
use crate::plugin::sdk::js_value::{JsValue, JsView};
use vstd::prelude::*;

verus! {

/// Fields of an object.
pub type FieldsView = Seq<(Seq<char>, JsView)>;

struct Fields {
    fields: Vec<(String, JsValue)>,
}

spec fn fields_view(v: Seq<(String, JsValue)>) -> FieldsView {
    Seq::new(v.len(), |i: int| (v[i].0@, js_value::js_view(v[i].1)))
}

impl Fields {
    spec fn view(&self) -> FieldsView {
        fields_view(self.fields@)
    }

    fn new() -> (r: Self)
        ensures
            r@ == FieldsView::empty(),
    {
        let r = Fields { fields: Vec::new() };
        assert(r@ =~= FieldsView::empty());
        r
    }

    fn set(&mut self, name: &str, value: JsValue)
        ensures
            final(self)@ == old(self)@.push((name@, js_value::js_view(value))),
    {
        self.fields.push((name.to_owned(), value));
        assert(self@ =~= old(self)@.push((name@, js_value::js_view(value))));
    }

    fn set_number(&mut self, name: &str, n: i64)
        ensures
            final(self)@ == old(self)@.push((name@, JsView::Number(n))),
    {
        self.set(name, JsValue::Number(n));
    }

    fn set_bool(&mut self, name: &str, b: bool)
        ensures
            final(self)@ == old(self)@.push((name@, JsView::Bool(b))),
    {
        self.set(name, JsValue::Bool(b));
    }

    fn set_text(&mut self, name: &str, s: &str)
        ensures
            final(self)@ == old(self)@.push((name@, JsView::Text(s@))),
    {
        self.set(name, JsValue::Text(s.to_owned()));
    }

    fn set_bytes(&mut self, name: &str, b: &Vec<u8>)
        ensures
            final(self)@ == old(self)@.push((name@, JsView::Bytes(b@))),
    {
        self.set(name, JsValue::Bytes(b.clone()));
    }

    fn into_value(self) -> (r: JsValue)
        ensures
            js_value::js_view(r) == JsView::Object(self@),
    {
        let ghost want = self@;
        let r = JsValue::Object(self.fields);
        proof {
            let got = js_value::js_view(r)->Object_0;
            assert(got =~= want);
        }
        r
    }
}

fn list(items: Vec<JsValue>) -> (r: JsValue)
    ensures
        js_value::js_view(r) == JsView::List(
            Seq::new(items@.len(), |i: int| js_value::js_view(items@[i])),
        ),
{
    let ghost want = Seq::new(items@.len(), |i: int| js_value::js_view(items@[i]));
    let r = JsValue::List(items);
    proof {
        let got = js_value::js_view(r)->List_0;
        assert(got =~= want);
    }
    r
}

// ---- records ----

/// A record, as a script sees it.
pub open spec fn js_record(rec: KvRecordView) -> JsView {
    JsView::Object(
        seq![
            ("key"@, JsView::Bytes(rec.key)),
            ("value"@, JsView::Bytes(rec.value)),
            ("leaseId"@, JsView::Number(rec.lease_id)),
            ("version"@, JsView::Number(rec.version)),
        ],
    )
}

/// Records, as a script sees them.
pub open spec fn js_records(recs: Seq<KvRecordView>) -> JsView {
    JsView::List(Seq::new(recs.len(), |i: int| js_record(recs[i])))
}

/// A record, as a script sees it.
pub fn record_to_js(rec: &KvRecord) -> (r: JsValue)
    ensures
        js_value::js_view(r) == js_record(rec@),
{
    let mut o = Fields::new();
    o.set_bytes("key", &rec.key);
    o.set_bytes("value", &rec.value);
    o.set_number("leaseId", rec.lease_id);
    o.set_number("version", rec.version);
    assert(o@ =~= js_record(rec@)->Object_0);
    o.into_value()
}

/// Records, as a script sees them.
pub fn records_to_js(recs: &Vec<KvRecord>) -> (r: JsValue)
    ensures
        js_value::js_view(r) == js_records(backend::views(recs@)),
{
    let mut items: Vec<JsValue> = Vec::new();
    let mut i: usize = 0;
    while i < recs.len()
        invariant
            i <= recs@.len(),
            items@.len() == i,
            forall|k: int|
                0 <= k < i ==> js_value::js_view(#[trigger] items@[k]) == js_record(recs@[k]@),
        decreases recs@.len() - i,
    {
        items.push(record_to_js(&recs[i]));
        i += 1;
    }
    let r = list(items);
    assert(js_value::js_view(r)->List_0 =~= js_records(backend::views(recs@))->List_0);
    r
}

/// A field that is there only where there is a record.
pub open spec fn prev_field(prev: Option<KvRecordView>) -> FieldsView {
    match prev {
        Some(p) => seq![("prevKv"@, js_record(p))],
        None => Seq::empty(),
    }
}

// ---- answers ----

/// Answer to a write.
pub open spec fn js_put_out(out: KvPutOutView) -> JsView {
    JsView::Object(
        seq![("revision"@, JsView::Number(out.revision))] + prev_field(out.prev_kv),
    )
}

/// Answer to a write, as a script sees it.
pub fn put_out_to_js(out: &KvPutOut) -> (r: JsValue)
    ensures
        js_value::js_view(r) == js_put_out(out@),
{
    let mut o = Fields::new();
    o.set_number("revision", out.revision);
    if let Some(prev) = &out.prev_kv {
        o.set("prevKv", record_to_js(prev));
    }
    assert(o@ =~= js_put_out(out@)->Object_0);
    o.into_value()
}

/// Answer to a read.
pub open spec fn js_range_out(out: KvRangeOutView) -> JsView {
    JsView::Object(
        seq![
            ("kvs"@, js_records(out.kvs)),
            ("count"@, JsView::Number(out.count)),
            ("revision"@, JsView::Number(out.revision)),
        ],
    )
}

/// Answer to a read, as a script sees it.
pub fn range_out_to_js(out: &KvRangeOut) -> (r: JsValue)
    ensures
        js_value::js_view(r) == js_range_out(out@),
{
    let mut o = Fields::new();
    o.set("kvs", records_to_js(&out.kvs));
    o.set_number("count", out.count);
    o.set_number("revision", out.revision);
    assert(o@ =~= js_range_out(out@)->Object_0);
    o.into_value()
}

/// Answer to a delete.
pub open spec fn js_delete_out(out: KvDeleteOutView) -> JsView {
    JsView::Object(
        seq![
            ("deleted"@, JsView::Number(out.deleted)),
            ("prevKvs"@, js_records(out.prev_kvs)),
            ("revision"@, JsView::Number(out.revision)),
        ],
    )
}

/// Answer to a delete, as a script sees it.
pub fn delete_out_to_js(out: &KvDeleteOut) -> (r: JsValue)
    ensures
        js_value::js_view(r) == js_delete_out(out@),
{
    let mut o = Fields::new();
    o.set_number("deleted", out.deleted);
    o.set("prevKvs", records_to_js(&out.prev_kvs));
    o.set_number("revision", out.revision);
    assert(o@ =~= js_delete_out(out@)->Object_0);
    o.into_value()
}

/// Answer to a create: the revision.
pub fn create_out_to_js(revision: i64) -> (r: JsValue)
    ensures
        js_value::js_view(r) == JsView::Object(seq![("revision"@, JsView::Number(revision))]),
{
    let mut o = Fields::new();
    o.set_number("revision", revision);
    assert(o@ =~= seq![("revision"@, JsView::Number(revision))]);
    o.into_value()
}

/// Answer to an operation of a transaction: its kind first.
pub open spec fn js_op_out(out: TxnOpOutView) -> JsView {
    match out {
        TxnOpOutView::Put(p) => JsView::Object(
            seq![("type"@, JsView::Text("put"@)), ("revision"@, JsView::Number(p.revision))]
                + prev_field(p.prev_kv),
        ),
        TxnOpOutView::Range(x) => JsView::Object(
            seq![
                ("type"@, JsView::Text("range"@)),
                ("kvs"@, js_records(x.kvs)),
                ("count"@, JsView::Number(x.count)),
                ("revision"@, JsView::Number(x.revision)),
            ],
        ),
        TxnOpOutView::Delete(d) => JsView::Object(
            seq![
                ("type"@, JsView::Text("delete"@)),
                ("deleted"@, JsView::Number(d.deleted)),
                ("prevKvs"@, js_records(d.prev_kvs)),
                ("revision"@, JsView::Number(d.revision)),
            ],
        ),
    }
}

/// Answer to an operation of a transaction, as a script sees it.
pub fn txn_op_out_to_js(out: &TxnOpOut) -> (r: JsValue)
    ensures
        js_value::js_view(r) == js_op_out(out@),
{
    let mut o = Fields::new();
    match out {
        TxnOpOut::Put(p) => {
            o.set_text("type", "put");
            o.set_number("revision", p.revision);
            if let Some(prev) = &p.prev_kv {
                o.set("prevKv", record_to_js(prev));
            }
        },
        TxnOpOut::Range(x) => {
            o.set_text("type", "range");
            o.set("kvs", records_to_js(&x.kvs));
            o.set_number("count", x.count);
            o.set_number("revision", x.revision);
        },
        TxnOpOut::Delete(d) => {
            o.set_text("type", "delete");
            o.set_number("deleted", d.deleted);
            o.set("prevKvs", records_to_js(&d.prev_kvs));
            o.set_number("revision", d.revision);
        },
    }
    assert(o@ =~= js_op_out(out@)->Object_0);
    o.into_value()
}

/// Answer to a transaction.
pub open spec fn js_txn_out(out: TxnOutView) -> JsView {
    JsView::Object(
        seq![
            ("succeeded"@, JsView::Bool(out.succeeded)),
            ("revision"@, JsView::Number(out.revision)),
            (
                "responses"@,
                JsView::List(Seq::new(out.responses.len(), |i: int| js_op_out(out.responses[i]))),
            ),
        ],
    )
}

/// Answer to a transaction, as a script sees it.
pub fn txn_out_to_js(out: &TxnOut) -> (r: JsValue)
    ensures
        js_value::js_view(r) == js_txn_out(out@),
{
    let mut items: Vec<JsValue> = Vec::new();
    let mut i: usize = 0;
    while i < out.responses.len()
        invariant
            i <= out.responses@.len(),
            items@.len() == i,
            forall|k: int|
                0 <= k < i ==> js_value::js_view(#[trigger] items@[k]) == js_op_out(
                    out.responses@[k]@,
                ),
        decreases out.responses@.len() - i,
    {
        items.push(txn_op_out_to_js(&out.responses[i]));
        i += 1;
    }
    let responses = list(items);
    assert(js_value::js_view(responses)->List_0 =~= Seq::new(
        out@.responses.len(),
        |i: int| js_op_out(out@.responses[i]),
    ));
    let mut o = Fields::new();
    o.set_bool("succeeded", out.succeeded);
    o.set_number("revision", out.revision);
    o.set("responses", responses);
    assert(o@ =~= js_txn_out(out@)->Object_0);
    o.into_value()
}

/// A granted lease, as a script sees it.
pub fn lease_to_js(id: i64, ttl: i64) -> (r: JsValue)
    ensures
        js_value::js_view(r) == JsView::Object(
            seq![("id"@, JsView::Number(id)), ("ttl"@, JsView::Number(ttl))],
        ),
{
    let mut o = Fields::new();
    o.set_number("id", id);
    o.set_number("ttl", ttl);
    assert(o@ =~= seq![("id"@, JsView::Number(id)), ("ttl"@, JsView::Number(ttl))]);
    o.into_value()
}

/// What is known of an object.
pub open spec fn js_object_stat(stat: ObjectStatDtoView) -> JsView {
    JsView::Object(
        seq![
            ("bucket"@, JsView::Text(stat.bucket)),
            ("objectId"@, JsView::Bytes(stat.object_id)),
            ("size"@, JsView::Number(stat.size)),
            ("chunks"@, JsView::Number(stat.chunks)),
            ("revision"@, JsView::Number(stat.revision)),
            ("exists"@, JsView::Bool(stat.exists)),
            ("committed"@, JsView::Bool(stat.committed)),
        ],
    )
}

/// What is known of an object, as a script sees it.
pub fn object_stat_to_js(stat: &ObjectStatDto) -> (r: JsValue)
    ensures
        js_value::js_view(r) == js_object_stat(stat@),
{
    let mut o = Fields::new();
    o.set_text("bucket", stat.bucket.as_str());
    o.set_bytes("objectId", &stat.object_id);
    o.set_number("size", stat.size);
    o.set_number("chunks", stat.chunks);
    o.set_number("revision", stat.revision);
    o.set_bool("exists", stat.exists);
    o.set_bool("committed", stat.committed);
    assert(o@ =~= js_object_stat(stat@)->Object_0);
    o.into_value()
}

/// What is known of an object, or null where there is none.
pub fn stat_answer_to_js(stat: &Option<ObjectStatDto>) -> (r: JsValue)
    ensures
        js_value::js_view(r) == match *stat {
            Some(s) => js_object_stat(s@),
            None => JsView::Null,
        },
{
    match stat {
        Some(s) => object_stat_to_js(s),
        None => JsValue::Null,
    }
}

/// Answer to an upload.
pub open spec fn js_upload_out(out: ObjectPutOutView) -> JsView {
    JsView::Object(
        seq![
            ("revision"@, JsView::Number(out.revision)),
            ("size"@, JsView::Number(out.size)),
            ("chunks"@, JsView::Number(out.chunks)),
        ],
    )
}

/// Answer to an upload, as a script sees it.
pub fn upload_out_to_js(out: &ObjectPutOut) -> (r: JsValue)
    ensures
        js_value::js_view(r) == js_upload_out(out@),
{
    let mut o = Fields::new();
    o.set_number("revision", out.revision);
    o.set_number("size", out.size);
    o.set_number("chunks", out.chunks);
    assert(o@ =~= js_upload_out(out@)->Object_0);
    o.into_value()
}

/// A downloaded object.
pub open spec fn js_download(out: ObjectGetOutView) -> JsView {
    JsView::Object(
        seq![("stat"@, js_object_stat(out.stat)), ("data"@, JsView::Bytes(out.data))],
    )
}

/// A downloaded object, as a script sees it.
pub fn download_to_js(out: &ObjectGetOut) -> (r: JsValue)
    ensures
        js_value::js_view(r) == js_download(out@),
{
    let mut o = Fields::new();
    o.set("stat", object_stat_to_js(&out.stat));
    o.set_bytes("data", &out.data);
    assert(o@ =~= js_download(out@)->Object_0);
    o.into_value()
}

/// A part of a download, or null at its end.
pub fn chunk_to_js(chunk: Option<Vec<u8>>) -> (r: JsValue)
    ensures
        js_value::js_view(r) == match chunk {
            Some(b) => JsView::Bytes(b@),
            None => JsView::Null,
        },
{
    match chunk {
        Some(b) => JsValue::Bytes(b),
        None => JsValue::Null,
    }
}

/// A change.
pub open spec fn js_event(ev: WatchEventDtoView) -> JsView {
    JsView::Object(
        seq![
            ("type"@, JsView::Text(backend::event_kind_text(ev.kind))),
            ("revision"@, JsView::Number(ev.revision)),
            ("kvs"@, js_records(ev.kvs)),
        ] + prev_field(ev.prev_kv),
    )
}

/// A change, as a script sees it; null at the end of the stream.
pub fn event_to_js(event: &Option<WatchEventDto>) -> (r: JsValue)
    ensures
        js_value::js_view(r) == match *event {
            Some(ev) => js_event(ev@),
            None => JsView::Null,
        },
{
    match event {
        None => JsValue::Null,
        Some(ev) => {
            let mut o = Fields::new();
            o.set_text("type", ev.kind.as_str());
            o.set_number("revision", ev.revision);
            o.set("kvs", records_to_js(&ev.kvs));
            if let Some(prev) = &ev.prev_kv {
                o.set("prevKv", record_to_js(prev));
            }
            assert(o@ =~= js_event(ev@)->Object_0);
            o.into_value()
        },
    }
}

/// An error that a script can catch.
#[derive(Debug, PartialEq, Eq)]
pub struct JsError {
    pub name: String,
    pub code: String,
    pub message: String,
}

/// The error that a script catches of a failure: its class by name and by code, and the whole
/// error line.
pub fn throw_sdk_error(e: &SdkError) -> (r: JsError)
    ensures
        r.name@ == backend::exception_text(e@.code),
        r.code@ == backend::code_text(e@.code),
        r.message@ == backend::error_line(e@),
{
    JsError {
        name: e.code.exception_name().to_owned(),
        code: e.code.as_str().to_owned(),
        message: e.to_text(),
    }
}

/// A script recognises a refusal by the name of the error that it catches, and no other failure
/// by it.
pub proof fn law_scripts_recognise_refusals(code: backend::SdkErrorCode)
    ensures
        backend::exception_text(code) == "ErrForbidden"@ <==> code is Forbidden,
{
    reveal_strlit("ErrForbidden");
    reveal_strlit("ErrNotFound");
    reveal_strlit("ErrUnavailable");
    reveal_strlit("ErrResourceExhausted");
    reveal_strlit("ErrInvalidArgument");
    reveal_strlit("ErrConflict");
    reveal_strlit("ErrInternal");
    let x = backend::exception_text(code);
    let y = "ErrForbidden"@;
    if code !is Forbidden {
        assert(x.len() != y.len() || x[3] != y[3]);
    }
}

} // verus!
