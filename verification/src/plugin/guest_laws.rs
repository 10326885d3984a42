//! What crosses the boundary between the host and its guests: memory, requests, answers, codes, and
//! the interruption of scripts.
use crate::name_map::NameMap;
use crate::plugin::abi::{
    core_err_code, core_err_name, core_import_names, core_transport_errors, host_ops, sdk_errors,
    HostOp, SdkErrorSpec,
};
use crate::plugin::abi;
use crate::plugin::engine::{AfterCall, Execution, TrapClass};
use crate::plugin::js_engine::{
    after_script, epoch_ms, format_caught, hook_slot, hook_source, init_failure, HookSource,
    InterruptCtl, Thrown,
};
use crate::plugin::sdk::backend::{KvDelete, KvPut, SdkErrorCode, SdkResult};
use crate::plugin::sdk::backend;
use crate::plugin::wasm_engine;
use crate::plugin::wasm_engine::{
    answer_bytes, answer_number, answer_unit, classify_trap, delete_request, env_value, i64_le,
    init_outcome, put_request, read_answer, read_guest, request_place, request_size, write_guest,
    write_request, write_without_memory, RequestPlace, TrapKind, WasmInvokeError,
};
use crate::text;
use vstd::bytes::*;
use vstd::prelude::*;
use vstd::utf8::*;

verus! {

// ---- guest memory ----

/// A read gives the bytes that stand at the place, exactly where the place lies in the memory and is
/// no larger than four mebibytes.
pub proof fn law_reads_give_what_stands_there(
    memory: Option<&[u8]>,
    ptr: i32,
    len: i32,
    r: Result<Vec<u8>, i32>,
)
    requires
        call_ensures(read_guest, (memory, ptr, len), r),
    ensures
        r is Ok <==> 0 <= ptr && 0 <= len <= 4 * 1024 * 1024 && (memory matches Some(m) && ptr + len
            <= m@.len()),
        r matches Ok(bytes) ==> bytes@.len() == len && forall|i: int|
            0 <= i < len ==> bytes@[i] == memory->0@[ptr + i],
        ptr < 0 || len < 0 || len > 4 * 1024 * 1024 ==> (r matches Err(c) && c == -3),
        0 <= ptr && 0 <= len <= 4 * 1024 * 1024 && r is Err ==> (r matches Err(c) && c == -8),
{
}

/// A write puts all bytes at the place, exactly where they fit in what the guest offers and in its
/// memory; nothing else changes, and a failed write changes nothing.
pub proof fn law_writes_put_what_was_given(
    memory: &mut [u8],
    ptr: i32,
    cap: i32,
    bytes: &[u8],
    r: i32,
)
    requires
        call_ensures(write_guest, (memory, ptr, cap, bytes), r),
    ensures
        final(memory)@.len() == old(memory)@.len(),
        r >= 0 <==> 0 <= ptr && 0 <= cap && bytes@.len() <= cap && bytes@.len() <= 4 * 1024 * 1024
            && ptr + bytes@.len() <= old(memory)@.len(),
        r >= 0 ==> r == bytes@.len(),
        r >= 0 ==> forall|i: int| 0 <= i < bytes@.len() ==> final(memory)@[ptr + i] == bytes@[i],
        forall|i: int|
            0 <= i < old(memory)@.len() && (r < 0 || i < ptr || i >= ptr + bytes@.len())
                ==> final(memory)@[i] == old(memory)@[i],
        ptr < 0 || cap < 0 ==> r == -3,
        0 <= ptr && 0 <= cap < bytes@.len() ==> r == -7,
        0 <= ptr && bytes@.len() <= cap && bytes@.len() > 4 * 1024 * 1024 ==> r == -3,
        0 <= ptr && bytes@.len() <= cap && bytes@.len() <= 4 * 1024 * 1024 && ptr + bytes@.len()
            > old(memory)@.len() ==> r == -8,
{
}

/// A guest without memory is written nothing.
pub proof fn law_nothing_is_written_without_memory(ptr: i32, cap: i32, len: usize, r: i32)
    requires
        call_ensures(write_without_memory, (ptr, cap, len), r),
    ensures
        r < 0,
        0 <= ptr && len <= cap && len <= 4 * 1024 * 1024 ==> r == -8,
        0 <= ptr && 0 <= cap < len ==> r == -7,
        ptr < 0 || cap < 0 ==> r == -3,
{
}

/// A guest reads back the number that the host wrote.
pub proof fn law_numbers_are_read_back(n: i64, r: Vec<u8>)
    requires
        call_ensures(i64_le, (n,), r),
    ensures
        r@.len() == 8,
        spec_u64_from_le_bytes(r@) as i64 == n,
{
    wasm_engine::law_numbers_cross_the_boundary(n);
}

/// A guest's write is of its key and its value, without a lease; its delete is of a single key.
pub proof fn law_guests_write_and_delete_what_they_say(
    key: Vec<u8>,
    value: Vec<u8>,
    put: KvPut,
    delete: KvDelete,
)
    requires
        call_ensures(put_request, (key, value), put),
        call_ensures(delete_request, (key,), delete),
    ensures
        put.key@ == key@ && put.value@ == value@ && put.lease_id == 0 && !put.prev_kv
            && put.request_id@.len() == 0,
        delete.key@ == key@ && delete.range_end@.len() == 0 && !delete.prev_kv
            && delete.request_id@.len() == 0,
{
}

/// The code by which a guest knows an error class.
pub open spec fn known_code(code: SdkErrorCode) -> int {
    match code {
        SdkErrorCode::Forbidden => -1,
        SdkErrorCode::NotFound => -2,
        SdkErrorCode::InvalidArgument => -3,
        SdkErrorCode::Unavailable => -4,
        SdkErrorCode::ResourceExhausted => -5,
        SdkErrorCode::Internal => -6,
        SdkErrorCode::Conflict => -9,
    }
}

/// A guest gets the answer of a call, and the code of its class where it failed.
pub proof fn law_guests_get_the_answer_of_their_call(
    bytes: SdkResult<Vec<u8>>,
    b: Result<Vec<u8>, i32>,
    number: SdkResult<i64>,
    n: Result<Vec<u8>, i32>,
    unit: SdkResult<()>,
    u: i32,
    code: SdkErrorCode,
    wire: i32,
)
    requires
        call_ensures(answer_bytes, (bytes,), b),
        call_ensures(answer_number, (number,), n),
        call_ensures(answer_unit, (unit,), u),
        call_ensures(core_err_code, (code,), wire),
    ensures
        wire == known_code(code),
        bytes matches Ok(x) ==> b matches Ok(y) && y@ == x@,
        bytes matches Err(e) ==> (b matches Err(c) && c == known_code(e.code)),
        number matches Ok(x) ==> n matches Ok(y) && y@.len() == 8 && spec_u64_from_le_bytes(y@) as i64
            == x,
        number matches Err(e) ==> (n matches Err(c) && c == known_code(e.code)),
        unit is Ok ==> u == 0,
        unit matches Err(e) ==> u == known_code(e.code),
{
    if let Ok(x) = number {
        wasm_engine::law_numbers_cross_the_boundary(x);
    }
}

/// A guest finds in its environment what stands there under the name.
pub proof fn law_guests_look_up_their_environment(
    env: NameMap<String>,
    key: Vec<u8>,
    r: Result<Vec<u8>, i32>,
)
    requires
        call_ensures(env_value, (&env, key), r),
    ensures
        !valid_utf8(key@) ==> (r matches Err(c) && c == -3),
        valid_utf8(key@) && !env@.dom().contains(decode_utf8(key@)) ==> (r matches Err(c) && c == -2),
        valid_utf8(key@) && env@.dom().contains(decode_utf8(key@)) ==> (r matches Ok(b) && b@
            == encode_utf8(env@[decode_utf8(key@)]@)),
{
}

// ---- requests and answers ----

/// A request is sent where method and payload together are no larger than four mebibytes and the
/// guest offers a place in its memory; the payload stands right behind the method.
pub proof fn law_requests_have_their_place(
    method: usize,
    payload: usize,
    size: Result<usize, WasmInvokeError>,
    base: i32,
    total: usize,
    memory: usize,
    place: Result<RequestPlace, WasmInvokeError>,
)
    requires
        call_ensures(request_size, (method, payload), size),
        call_ensures(request_place, (base, method, total, memory), place),
    ensures
        size is Ok <==> method + payload <= 4 * 1024 * 1024,
        size matches Ok(n) ==> n == method + payload,
        size matches Err(e) ==> e.trap is None,
        place is Ok <==> base > 0 && base + total <= memory,
        place matches Ok(p) ==> p.method == base && p.payload == base + method,
        place matches Err(e) ==> e.trap is None && (base == 0 ==> e.message@
            == "guest alloc() failed (out of memory)"@) && (base != 0 ==> e.message@
            == "guest alloc() returned an out-of-bounds pointer"@),
{
}

/// A guest finds the method and the payload of a request at their places, and the rest of its memory
/// as it was.
pub proof fn law_guests_find_their_request(
    memory: &mut [u8],
    place: RequestPlace,
    method: &str,
    payload: &[u8],
)
    requires
        call_ensures(write_request, (memory, place, method, payload), ()),
        place.payload == place.method + encode_utf8(method@).len(),
        place.payload + payload@.len() <= old(memory)@.len(),
    ensures
        final(memory)@.len() == old(memory)@.len(),
        final(memory)@.subrange(place.method as int, place.payload as int) == encode_utf8(method@),
        final(memory)@.subrange(place.payload as int, place.payload + payload@.len()) == payload@,
        forall|i: int|
            0 <= i < old(memory)@.len() && (i < place.method || i >= place.payload + payload@.len())
                ==> final(memory)@[i] == old(memory)@[i],
{
    assert(final(memory)@.subrange(place.method as int, place.payload as int) =~= encode_utf8(method@));
    assert(final(memory)@.subrange(place.payload as int, place.payload + payload@.len()) =~= payload@);
}

/// A guest is answered for with the bytes at the place that it names, wherever that lies in its
/// memory and is no larger than four mebibytes; a negative code is handed on.
pub proof fn law_answers_are_what_the_guest_named(
    memory: &[u8],
    ptr: u32,
    len: u32,
    r: Result<Execution, WasmInvokeError>,
)
    requires
        call_ensures(
            read_answer,
            ((((ptr as u64) << 32) | (len as u64)) as i64, memory),
            r,
        ),
        memory@.len() <= usize::MAX,
    ensures
        0 < len <= 4 * 1024 * 1024 && ptr + len <= memory@.len() ==> (r matches Ok(x) && (
        x matches Execution::Answered(b) && b@ == memory@.subrange(ptr as int, ptr + len))),
        len == 0 ==> (r matches Ok(x) && (x matches Execution::Answered(b) && b@.len() == 0)),
        ptr == 0 && (len as i32) < 0 ==> r == Ok::<Execution, WasmInvokeError>(
            Execution::Code(len as i32),
        ),
        !(ptr == 0 && (len as i32) < 0) && (len > 4 * 1024 * 1024 || (len > 0 && ptr + len
            > memory@.len())) ==> (r matches Err(e) && e.trap is None),
{
    wasm_engine::lemma_packed(ptr, len);
    assert((0u32 as i32) == 0);
    if ptr == 0 && 0 < len <= 4 * 1024 * 1024 {
        assert((len as i32) >= 0) by (bit_vector)
            requires
                0 < len <= 4 * 1024 * 1024,
        ;
    }
}

/// A guest came up exactly where it reports zero.
pub proof fn law_guests_come_up_with_zero(code: i32, r: Result<(), String>)
    requires
        call_ensures(init_outcome, (code,), r),
    ensures
        r is Ok <==> code == 0,
        r matches Err(e) ==> e@ == "plugin init() returned failure code "@ + text::decimal_int(
            code as int,
        ),
{
}

/// Interruptions are told apart by what ran out.
pub proof fn law_interruptions_are_told_apart(trap: TrapKind, r: TrapClass, m: String, e: WasmInvokeError)
    requires
        call_ensures(classify_trap, (trap,), r),
        call_ensures(WasmInvokeError::trapped, (r, m), e),
    ensures
        r is Fuel <==> trap is OutOfFuel,
        r is Epoch <==> trap is Interrupt,
        r is Memory <==> trap is MemoryOutOfBounds || trap is StackOverflow,
        r is Other <==> trap is Other,
        e.message@ == m@ && e.trap == Some(r),
{
}

/// A failed call broke off with its message and its class; a failure of the host has no class.
pub proof fn law_failed_calls_break_off(
    m: String,
    e: WasmInvokeError,
    failed: WasmInvokeError,
    r: Execution,
)
    requires
        call_ensures(WasmInvokeError::host, (m,), e),
        call_ensures(WasmInvokeError::into_execution, (failed,), r),
    ensures
        e.message@ == m@ && e.trap is None,
        r matches Execution::Broken { message, trap } && message@ == failed.message@ && trap
            == failed.trap,
{
}

// ---- names and codes ----

/// A guest reads a code by the name of its exception; no two error classes share a code or a name.
pub proof fn law_codes_have_names(
    a: SdkErrorCode,
    b: SdkErrorCode,
    x: i32,
    y: i32,
    name: &'static str,
    other: &'static str,
    exception: &'static str,
)
    requires
        call_ensures(core_err_code, (a,), x),
        call_ensures(core_err_code, (b,), y),
        call_ensures(core_err_name, (x,), name),
        call_ensures(core_err_name, (y,), other),
        call_ensures(SdkErrorCode::exception_name, (a,), exception),
    ensures
        x < 0,
        x == y ==> a == b,
        name@ == exception@,
        name@ == other@ ==> a == b,
        exception@ == (match a {
            SdkErrorCode::NotFound => "ErrNotFound"@,
            SdkErrorCode::Unavailable => "ErrUnavailable"@,
            SdkErrorCode::Forbidden => "ErrForbidden"@,
            SdkErrorCode::ResourceExhausted => "ErrResourceExhausted"@,
            SdkErrorCode::InvalidArgument => "ErrInvalidArgument"@,
            SdkErrorCode::Conflict => "ErrConflict"@,
            SdkErrorCode::Internal => "ErrInternal"@,
        }),
{
    reveal_strlit("ErrNotFound");
    reveal_strlit("ErrUnavailable");
    reveal_strlit("ErrForbidden");
    reveal_strlit("ErrResourceExhausted");
    reveal_strlit("ErrInvalidArgument");
    reveal_strlit("ErrConflict");
    reveal_strlit("ErrInternal");
    assert("ErrNotFound"@.len() == 11 && "ErrUnavailable"@.len() == 14 && "ErrForbidden"@.len() == 12
        && "ErrResourceExhausted"@.len() == 20 && "ErrInvalidArgument"@.len() == 18
        && "ErrConflict"@.len() == 11 && "ErrInternal"@.len() == 11);
    assert("ErrNotFound"@[3] != "ErrConflict"@[3] && "ErrNotFound"@[3] != "ErrInternal"@[3]
        && "ErrConflict"@[3] != "ErrInternal"@[3]);
}

/// A code of no class reads as an internal error, but for those of the transport.
pub proof fn law_unknown_codes_are_internal(code: i32, name: &'static str, transport: Vec<(&'static str, i32)>)
    requires
        call_ensures(core_err_name, (code,), name),
        call_ensures(core_transport_errors, (), transport),
    ensures
        code >= 0 || code < -9 ==> name@ == "ErrInternal"@,
        code == -7 ==> name@ == "ErrBufferTooSmall"@,
        code == -8 ==> name@ == "ErrMemoryAccess"@,
        transport@.len() == 2,
        forall|i: int| 0 <= i < 2 ==> (#[trigger] transport@[i]).1 == -7 - i,
        transport@[0].0@ == "ErrBufferTooSmall"@ && transport@[1].0@ == "ErrMemoryAccess"@,
{
}

/// Every error class has one line in the ledger of errors, with its name, its code and its variant.
pub proof fn law_every_class_has_a_line(
    code: SdkErrorCode,
    lines: Vec<SdkErrorSpec>,
    name: &'static str,
    short: &'static str,
)
    requires
        call_ensures(sdk_errors, (), lines),
        call_ensures(SdkErrorCode::exception_name, (code,), name),
        call_ensures(SdkErrorCode::as_str, (code,), short),
    ensures
        lines@.len() == 7,
        exists|i: int|
            0 <= i < 7 && (#[trigger] lines@[i]).core == known_code(code) && lines@[i].name@ == name@
                && lines@[i].wit@ == abi::dashed(short@),
        forall|i: int, j: int|
            0 <= i < j < 7 ==> (#[trigger] lines@[i]).core != (#[trigger] lines@[j]).core,
{
    abi::law_every_error_is_listed(code);
    abi::law_variants_are_dashed_names(code);
    let i = choose|i: int| 0 <= i < abi::error_order().len() && abi::error_order()[i] == code;
    assert(abi::describes(lines@[i], code));
    assert(lines@[i].core == known_code(code));
    assert forall|i: int, j: int| 0 <= i < j < 7 implies (#[trigger] lines@[i]).core != (
    #[trigger] lines@[j]).core by {
        let order = abi::error_order();
        assert(abi::describes(lines@[i], order[i]) && abi::describes(lines@[j], order[j]));
        abi::law_error_names_survive_the_wire(order[i], order[j]);
        assert(order[i] != order[j]);
    }
}

/// Modules import exactly the operations that the ledger offers to them, each under the ledger's
/// name, which is that of the component interface with underscores; scripts have them all.
pub proof fn law_imports_come_from_the_ledger(ops: Vec<HostOp>, names: Vec<&'static str>)
    requires
        call_ensures(host_ops, (), ops),
        call_ensures(core_import_names, (), names),
    ensures
        ops@.len() == 27,
        forall|i: int| 0 <= i < ops@.len() ==> (#[trigger] ops@[i]).js is Some,
        forall|i: int|
            0 <= i < ops@.len() ==> ((#[trigger] ops@[i]).core matches Some(n) ==> offers(names@, n@)),
        forall|k: int|
            0 <= k < names@.len() ==> exists|i: int|
                0 <= i < ops@.len() && ((#[trigger] ops@[i]).core matches Some(n) && n@ == (
                #[trigger] names@[k])@),
        forall|i: int|
            0 <= i < ops@.len() ==> ((#[trigger] ops@[i]).core matches Some(n) ==> abi::dashed(n@)
                == ops@[i].wit@),
{
    let lines = backend::views(ops@);
    let seen = abi::static_views(names@);
    assert(lines.len() == ops@.len());
    lemma_core_names(lines, lines.len() as int);
    assert(lines.take(lines.len() as int) =~= lines);
    assert forall|i: int| 0 <= i < ops@.len() implies {
        &&& (#[trigger] ops@[i]).js is Some
        &&& ops@[i].core matches Some(n) ==> offers(names@, n@) && abi::dashed(n@) == ops@[i].wit@
    } by {
        assert(lines[i] == ops@[i]@);
        lemma_lines(i);
        if let Some(n) = ops@[i].core {
            assert(seen.contains(n@));
            let k = choose|k: int| 0 <= k < seen.len() && seen[k] == n@;
            assert(names@[k]@ == n@);
        }
    }
    assert forall|k: int| 0 <= k < names@.len() implies exists|i: int|
        0 <= i < ops@.len() && ((#[trigger] ops@[i]).core matches Some(n) && n@ == (
        #[trigger] names@[k])@) by {
        assert(seen[k] == names@[k]@);
        assert(seen.contains(names@[k]@));
        let i = choose|i: int|
            0 <= i < lines.len() && (#[trigger] lines[i]).core == Some(names@[k]@);
        assert(lines[i] == ops@[i]@);
        assert(ops@[i].core is Some);
    }
}

/// Whether a name is among others.
pub open spec fn offers(names: Seq<&'static str>, name: Seq<char>) -> bool {
    exists|k: int| 0 <= k < names.len() && (#[trigger] names[k])@ == name
}

proof fn lemma_lines(i: int)
    requires
        0 <= i < abi::host_ledger().len(),
    ensures
        abi::host_ledger()[i].js is Some,
        abi::host_ledger()[i].core matches Some(n) ==> abi::dashed(n) == abi::host_ledger()[i].wit,
{
    reveal_strlit("kv_put");
    reveal_strlit("kv-put");
    reveal_strlit("kv_get");
    reveal_strlit("kv-get");
    reveal_strlit("kv_delete");
    reveal_strlit("kv-delete");
    reveal_strlit("kv_create");
    reveal_strlit("kv-create");
    reveal_strlit("lease_grant");
    reveal_strlit("lease-grant");
    reveal_strlit("lease_revoke");
    reveal_strlit("lease-revoke");
    reveal_strlit("env");
    reveal_strlit("log");
    if let Some(n) = abi::host_ledger()[i].core {
        assert(abi::dashed(n) =~= abi::host_ledger()[i].wit);
    }
}

proof fn lemma_core_names(lines: Seq<abi::HostOpView>, n: int)
    requires
        0 <= n <= lines.len(),
    ensures
        forall|i: int|
            0 <= i < n ==> ((#[trigger] lines[i]).core matches Some(name) ==> abi::core_names(
                lines.take(n),
            ).contains(name)),
        forall|name: Seq<char>| #[trigger]
            abi::core_names(lines.take(n)).contains(name) ==> exists|i: int|
                0 <= i < n && (#[trigger] lines[i]).core == Some(name),
    decreases n,
{
    if n > 0 {
        lemma_core_names(lines, n - 1);
        assert(lines.take(n).drop_last() =~= lines.take(n - 1));
        assert(lines.take(n).last() == lines[n - 1]);
        let rest = abi::core_names(lines.take(n - 1));
        assert forall|i: int| 0 <= i < n implies ((#[trigger] lines[i]).core matches Some(name)
            ==> abi::core_names(lines.take(n)).contains(name)) by {
            if let Some(name) = lines[i].core {
                if let Some(last) = lines[n - 1].core {
                    text::lemma_push_contains(rest, last, name);
                }
            }
        }
        assert forall|name: Seq<char>| #[trigger]
            abi::core_names(lines.take(n)).contains(name) implies exists|i: int|
            0 <= i < n && (#[trigger] lines[i]).core == Some(name) by {
            if let Some(last) = lines[n - 1].core {
                text::lemma_push_contains(rest, last, name);
                if last == name {
                    assert(lines[n - 1].core == Some(name));
                }
            }
            if rest.contains(name) {
                let i = choose|i: int| 0 <= i < n - 1 && (#[trigger] lines[i]).core == Some(name);
                assert(lines[i].core == Some(name));
            }
        }
    } else {
        assert(lines.take(0) =~= Seq::empty());
    }
}

// ---- scripts ----

/// A call of a script is interrupted exactly when its time is up, and stays marked so until the next
/// call begins.
pub proof fn law_scripts_are_interrupted_when_their_time_is_up(
    ctl: &mut InterruptCtl,
    now: u64,
    max: u64,
    armed: InterruptCtl,
    other: &mut InterruptCtl,
    later: u64,
    over: bool,
    after: InterruptCtl,
    tripped: bool,
)
    requires
        now == 0 || now + max <= u64::MAX,
        call_ensures(InterruptCtl::arm, (ctl, now, max), ()),
        armed == *final(ctl),
        *old(other) == armed,
        call_ensures(InterruptCtl::expired, (other, later), over),
        after == *final(other),
        call_ensures(InterruptCtl::was_tripped, (&after,), tripped),
    ensures
        now != 0 && now + max > 0 && later != 0 ==> (over <==> later >= now + max),
        now == 0 || later == 0 ==> !over,
        tripped == over,
{
}

/// A call that is over is not interrupted any more, but whether it was is still known.
pub proof fn law_calls_that_are_over_are_not_interrupted(
    ctl: &mut InterruptCtl,
    before: InterruptCtl,
    was: bool,
    other: &mut InterruptCtl,
    later: u64,
    over: bool,
    after: InterruptCtl,
    tripped: bool,
)
    requires
        before == *old(ctl),
        call_ensures(InterruptCtl::disarm, (ctl,), ()),
        *old(other) == *final(ctl),
        call_ensures(InterruptCtl::was_tripped, (&before,), was),
        call_ensures(InterruptCtl::expired, (other, later), over),
        after == *final(other),
        call_ensures(InterruptCtl::was_tripped, (&after,), tripped),
    ensures
        !over,
        tripped == was,
{
}

/// The clock is that of the milliseconds since the epoch, and unknown where they do not fit.
pub proof fn law_clocks_are_known_or_not(since: Option<u128>, r: u64)
    requires
        call_ensures(epoch_ms, (since,), r),
    ensures
        since matches Some(ms) && ms <= u64::MAX ==> r == since->0,
        since is None || since->0 > u64::MAX ==> r == 0,
{
}

/// A script that was interrupted is discarded, and its caller gets what came of the call.
pub proof fn law_interrupted_scripts_are_discarded(
    reply: Result<Vec<u8>, String>,
    tripped: bool,
    r: AfterCall,
)
    requires
        call_ensures(after_script, (reply, tripped), r),
    ensures
        r.discard == tripped,
        r.reply == reply,
        r.trap is None,
{
}

/// A hook that a script exports goes before one that it declares globally.
pub proof fn law_exports_go_before_globals(exported: bool, global: bool, r: Option<HookSource>)
    requires
        call_ensures(hook_source, (exported, global), r),
    ensures
        exported ==> r == Some(HookSource::Export),
        !exported && global ==> r == Some(HookSource::Global),
        r is None <==> !exported && !global,
{
}

/// Hooks are kept under names of their own, and what a script threw is reported in its words.
pub proof fn law_scripts_report_what_they_threw(
    a: &str,
    b: &str,
    x: String,
    y: String,
    thrown: Thrown,
    r: String,
    failed: String,
)
    requires
        call_ensures(hook_slot, (a,), x),
        call_ensures(hook_slot, (b,), y),
        call_ensures(format_caught, (&thrown,), r),
        call_ensures(init_failure, (a, b), failed),
    ensures
        x@ == "__coord_hook_"@ + a@,
        x@ == y@ <==> a@ == b@,
        thrown matches Thrown::Text(s) ==> r@ == s@,
        thrown matches Thrown::Shown(s) ==> r@ == s@,
        thrown matches Thrown::Error { name: Some(n), message } ==> r@ == n@ + ": "@ + message@,
        thrown matches Thrown::Error { name: None, message } ==> r@ == "Error"@ + ": "@ + message@,
        failed@ == "plugin '"@ + a@ + "' init failed: "@ + b@,
{
    let head = "__coord_hook_"@;
    assert((head + a@).skip(head.len() as int) =~= a@);
    assert((head + b@).skip(head.len() as int) =~= b@);
}

} // verus!
