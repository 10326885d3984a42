//! WebAssembly modules: how requests and answers cross the boundary of a guest's memory.
use crate::name_map::NameMap;
use crate::plugin::abi;
use crate::plugin::abi::{
    core_err_code, ERR_BUFFER_TOO_SMALL, ERR_INVALID, ERR_MEMORY, ERR_NOT_FOUND,
};
use crate::plugin::engine::{Execution, TrapClass};
use crate::plugin::sdk::backend::{KvDelete, KvDeleteView, KvPut, KvPutView, SdkResult};
use crate::text;
use crate::text::{decimal_int_text, decimal_text, join5, text_of_utf8};
use vstd::bytes::*;
use vstd::prelude::*;
use vstd::utf8::*;

verus! {

/// Name of the module from which guests import.
pub const HOST_MODULE: &'static str = "coord";

/// What guests can import from it.
pub const HOST_IMPORTS: [&'static str; 8] = [
    "kv_get",
    "kv_put",
    "kv_create",
    "kv_delete",
    "lease_grant",
    "lease_revoke",
    "env",
    "log",
];

/// Most bytes that are read or written at once.
pub const MAX_IO_BYTES: usize = 4_194_304;

// ---- guest memory ----

/// What a read of guest memory gives: the bytes, or the error code.
pub open spec fn guest_read(memory: Option<Seq<u8>>, ptr: i32, len: i32) -> Result<Seq<u8>, i32> {
    if len < 0 || ptr < 0 || len > MAX_IO_BYTES {
        Err(ERR_INVALID)
    } else {
        match memory {
            None => Err(ERR_MEMORY),
            Some(m) => if ptr + len > m.len() {
                Err(ERR_MEMORY)
            } else {
                Ok(m.subrange(ptr as int, ptr + len))
            },
        }
    }
}

/// Contents of an optional memory.
pub open spec fn memory_view(memory: Option<&[u8]>) -> Option<Seq<u8>> {
    match memory {
        Some(m) => Some(m@),
        None => None,
    }
}

/// Reads guest memory; nothing beyond it is ever read.
pub fn read_guest(memory: Option<&[u8]>, ptr: i32, len: i32) -> (r: Result<Vec<u8>, i32>)
    ensures
        match r {
            Ok(bytes) => guest_read(memory_view(memory), ptr, len) == Ok::<Seq<u8>, i32>(bytes@),
            Err(code) => guest_read(memory_view(memory), ptr, len) == Err::<Seq<u8>, i32>(code),
        },
{
    if len < 0 || ptr < 0 {
        return Err(ERR_INVALID);
    }
    if len as usize > MAX_IO_BYTES {
        return Err(ERR_INVALID);
    }
    match memory {
        None => Err(ERR_MEMORY),
        Some(m) => {
            let start: usize = ptr as usize;
            let end: usize = start + len as usize;
            if end > m.len() {
                return Err(ERR_MEMORY);
            }
            let part = vstd::slice::slice_subrange(m, start, end);
            Ok(vstd::slice::slice_to_vec(part))
        },
    }
}

/// What a write to guest memory returns: how many bytes it wrote, or the error code.
pub open spec fn guest_write(memory: Option<int>, ptr: i32, cap: i32, len: int) -> i32 {
    if ptr < 0 || cap < 0 {
        ERR_INVALID
    } else if len > cap {
        ERR_BUFFER_TOO_SMALL
    } else if len > MAX_IO_BYTES {
        ERR_INVALID
    } else {
        match memory {
            None => ERR_MEMORY,
            Some(size) => if ptr + len > size {
                ERR_MEMORY
            } else {
                len as i32
            },
        }
    }
}

/// Memory after bytes were written to a place.
pub open spec fn overwritten(memory: Seq<u8>, at: int, bytes: Seq<u8>) -> Seq<u8> {
    memory.take(at) + bytes + memory.skip(at + bytes.len())
}

/// Puts bytes in the place of as many bytes from a place on; the rest stays.
fn copy_to(memory: &mut [u8], at: usize, bytes: &[u8])
    requires
        at + bytes@.len() <= old(memory)@.len(),
    ensures
        final(memory)@ == overwritten(old(memory)@, at as int, bytes@),
{
    let ghost before = memory@;
    let total: usize = memory.len();
    let mut i: usize = 0;
    assert(memory@ =~= overwritten(before, at as int, bytes@.take(0)));
    while i < bytes.len()
        invariant
            i <= bytes@.len(),
            at + bytes@.len() <= before.len() == total,
            memory@ == overwritten(before, at as int, bytes@.take(i as int)),
        decreases bytes@.len() - i,
    {
        memory[at + i] = bytes[i];
        i += 1;
        assert(memory@ =~= overwritten(before, at as int, bytes@.take(i as int)));
    }
    assert(bytes@.take(i as int) =~= bytes@);
}

/// Writes to guest memory: all bytes or none, and none beyond the place that the guest offers.
pub fn write_guest(memory: &mut [u8], ptr: i32, cap: i32, bytes: &[u8]) -> (r: i32)
    ensures
        r == guest_write(Some(old(memory)@.len() as int), ptr, cap, bytes@.len() as int),
        final(memory)@ == if r >= 0 {
            overwritten(old(memory)@, ptr as int, bytes@)
        } else {
            old(memory)@
        },
{
    if ptr < 0 || cap < 0 {
        return ERR_INVALID;
    }
    if bytes.len() > cap as usize {
        return ERR_BUFFER_TOO_SMALL;
    }
    if bytes.len() > MAX_IO_BYTES {
        return ERR_INVALID;
    }
    let start: usize = ptr as usize;
    if start + bytes.len() > memory.len() {
        return ERR_MEMORY;
    }
    copy_to(memory, start, bytes);
    bytes.len() as i32
}

/// What a write returns where the guest has no memory.
pub fn write_without_memory(ptr: i32, cap: i32, len: usize) -> (r: i32)
    ensures
        r == guest_write(None, ptr, cap, len as int),
{
    if ptr < 0 || cap < 0 {
        ERR_INVALID
    } else if len > cap as usize {
        ERR_BUFFER_TOO_SMALL
    } else if len > MAX_IO_BYTES {
        ERR_INVALID
    } else {
        ERR_MEMORY
    }
}

/// What was written is what is read back, and nothing else changed.
pub proof fn law_guest_memory_gives_back_what_was_written(
    memory: Seq<u8>,
    ptr: i32,
    cap: i32,
    bytes: Seq<u8>,
)
    requires
        guest_write(Some(memory.len() as int), ptr, cap, bytes.len() as int) >= 0,
    ensures
        ({
            let after = overwritten(memory, ptr as int, bytes);
            &&& after.len() == memory.len()
            &&& guest_read(Some(after), ptr, bytes.len() as i32) == Ok::<Seq<u8>, i32>(bytes)
            &&& forall|i: int|
                0 <= i < memory.len() && !(ptr <= i < ptr + bytes.len()) ==> after[i] == memory[i]
        }),
{
    let after = overwritten(memory, ptr as int, bytes);
    assert(after.subrange(ptr as int, ptr + bytes.len()) =~= bytes);
}

/// A write never reaches beyond the place that the guest offers, and a failed one changes nothing
/// and reports a negative code.
pub proof fn law_guest_writes_stay_in_their_place(memory: int, ptr: i32, cap: i32, len: int)
    requires
        0 <= memory,
        0 <= len,
    ensures
        ({
            let r = guest_write(Some(memory), ptr, cap, len);
            &&& r >= 0 ==> r == len && 0 <= ptr && len <= cap && ptr + len <= memory
            &&& r < 0 ==> r == ERR_INVALID || r == ERR_BUFFER_TOO_SMALL || r == ERR_MEMORY
        }),
{
}

// ---- host calls ----

/// Little-endian bytes of a number.
pub open spec fn number_bytes(n: i64) -> Seq<u8> {
    spec_u64_to_le_bytes(n as u64)
}

/// Little-endian bytes of a number.
pub fn i64_le(n: i64) -> (r: Vec<u8>)
    ensures
        r@ == number_bytes(n),
        r@.len() == 8,
{
    proof {
        lemma_auto_spec_u64_to_from_le_bytes();
    }
    u64_to_le_bytes(n as u64)
}

/// A guest reads the number back from its bytes.
pub proof fn law_numbers_cross_the_boundary(n: i64)
    ensures
        number_bytes(n).len() == 8,
        spec_u64_from_le_bytes(number_bytes(n)) as i64 == n,
{
    lemma_auto_spec_u64_to_from_le_bytes();
    assert((n as u64) as i64 == n) by (bit_vector);
}

/// The write that a guest asks for.
pub fn put_request(key: Vec<u8>, value: Vec<u8>) -> (r: KvPut)
    ensures
        r@ == (KvPutView {
            key: key@,
            value: value@,
            lease_id: 0,
            prev_kv: false,
            request_id: Seq::empty(),
        }),
{
    let request_id: Vec<u8> = Vec::new();
    assert(request_id@ =~= Seq::<u8>::empty());
    KvPut { key, value, lease_id: 0, prev_kv: false, request_id }
}

/// The delete that a guest asks for: a single key.
pub fn delete_request(key: Vec<u8>) -> (r: KvDelete)
    ensures
        r@ == (KvDeleteView {
            key: key@,
            range_end: Seq::empty(),
            prev_kv: false,
            request_id: Seq::empty(),
        }),
{
    let range_end: Vec<u8> = Vec::new();
    let request_id: Vec<u8> = Vec::new();
    assert(range_end@ =~= Seq::<u8>::empty());
    assert(request_id@ =~= Seq::<u8>::empty());
    KvDelete { key, range_end, prev_kv: false, request_id }
}

/// What is written back of an answer in bytes, or the code of the failure.
pub fn answer_bytes(result: SdkResult<Vec<u8>>) -> (r: Result<Vec<u8>, i32>)
    ensures
        match result {
            Ok(bytes) => r == Ok::<Vec<u8>, i32>(bytes),
            Err(e) => r == Err::<Vec<u8>, i32>(abi::wire_code(e.code)),
        },
{
    match result {
        Ok(bytes) => Ok(bytes),
        Err(e) => Err(core_err_code(e.code)),
    }
}

/// What is written back of a number, or the code of the failure.
pub fn answer_number(result: SdkResult<i64>) -> (r: Result<Vec<u8>, i32>)
    ensures
        match result {
            Ok(n) => r matches Ok(bytes) && bytes@ == number_bytes(n),
            Err(e) => r == Err::<Vec<u8>, i32>(abi::wire_code(e.code)),
        },
{
    match result {
        Ok(n) => Ok(i64_le(n)),
        Err(e) => Err(core_err_code(e.code)),
    }
}

/// What is returned of a call without an answer.
pub fn answer_unit(result: SdkResult<()>) -> (r: i32)
    ensures
        r == match result {
            Ok(_) => 0,
            Err(e) => abi::wire_code(e.code),
        },
{
    match result {
        Ok(_) => 0,
        Err(e) => core_err_code(e.code),
    }
}

/// What a guest's environment holds under a name.
pub fn env_value(env: &NameMap<String>, key: Vec<u8>) -> (r: Result<Vec<u8>, i32>)
    ensures
        if !valid_utf8(key@) {
            r == Err::<Vec<u8>, i32>(ERR_INVALID)
        } else if !env@.dom().contains(decode_utf8(key@)) {
            r == Err::<Vec<u8>, i32>(ERR_NOT_FOUND)
        } else {
            r matches Ok(bytes) && bytes@ == encode_utf8(env@[decode_utf8(key@)]@)
        },
{
    match text_of_utf8(key) {
        None => Err(ERR_INVALID),
        Some(name) => match env.get(name.as_str()) {
            None => Err(ERR_NOT_FOUND),
            Some(value) => Ok(vstd::slice::slice_to_vec(value.as_str().as_bytes())),
        },
    }
}

// ---- calls of guests ----

/// Failure of a call: its message, and the class of the interruption where there was one.
#[derive(Debug, PartialEq, Eq)]
pub struct WasmInvokeError {
    pub message: String,
    pub trap: Option<TrapClass>,
}

impl WasmInvokeError {
    /// A failure on the side of the host.
    pub fn host(message: String) -> (r: Self)
        ensures
            r.message == message,
            r.trap is None,
    {
        WasmInvokeError { message, trap: None }
    }

    /// An interruption of the guest.
    pub fn trapped(class: TrapClass, message: String) -> (r: Self)
        ensures
            r.message == message,
            r.trap == Some(class),
    {
        WasmInvokeError { message, trap: Some(class) }
    }

    /// What the call came to.
    pub fn into_execution(self) -> (r: Execution)
        ensures
            r == (Execution::Broken { message: self.message, trap: self.trap }),
    {
        Execution::Broken { message: self.message, trap: self.trap }
    }
}

/// How a guest was interrupted.
#[derive(Debug, Clone, Copy, PartialEq, Eq, Structural)]
pub enum TrapKind {
    OutOfFuel,
    Interrupt,
    MemoryOutOfBounds,
    StackOverflow,
    Other,
}

/// Class of an interruption.
pub fn classify_trap(trap: TrapKind) -> (r: TrapClass)
    ensures
        r == match trap {
            TrapKind::OutOfFuel => TrapClass::Fuel,
            TrapKind::Interrupt => TrapClass::Epoch,
            TrapKind::MemoryOutOfBounds | TrapKind::StackOverflow => TrapClass::Memory,
            TrapKind::Other => TrapClass::Other,
        },
{
    match trap {
        TrapKind::OutOfFuel => TrapClass::Fuel,
        TrapKind::Interrupt => TrapClass::Epoch,
        TrapKind::MemoryOutOfBounds => TrapClass::Memory,
        TrapKind::StackOverflow => TrapClass::Memory,
        TrapKind::Other => TrapClass::Other,
    }
}

/// Message of too many bytes.
pub open spec fn too_large_text(what: Seq<char>, bytes: nat) -> Seq<char> {
    what + " too large ("@ + text::decimal(bytes) + " bytes > "@ + text::decimal(MAX_IO_BYTES as nat)
        + ")"@
}

fn too_large(what: &str, bytes: usize) -> (r: String)
    ensures
        r@ == too_large_text(what@, bytes as nat),
{
    let n = decimal_text(bytes as u64);
    let limit = decimal_text(MAX_IO_BYTES as u64);
    let mut text = join5(what, " too large (", n.as_str(), " bytes > ", limit.as_str());
    text.append(")");
    text
}

/// How many bytes of guest memory a request takes.
pub fn request_size(method: usize, payload: usize) -> (r: Result<usize, WasmInvokeError>)
    requires
        method + payload <= usize::MAX,
    ensures
        match r {
            Ok(total) => total == method + payload && total <= MAX_IO_BYTES,
            Err(e) => method + payload > MAX_IO_BYTES && e.trap is None && e.message@
                == too_large_text("request"@, (method + payload) as nat),
        },
{
    let total: usize = method + payload;
    if total > MAX_IO_BYTES {
        return Err(WasmInvokeError::host(too_large("request", total)));
    }
    Ok(total)
}

/// Where a request stands in guest memory: the method first, the payload right behind it.
#[derive(Debug, Clone, Copy, PartialEq, Eq, Structural)]
pub struct RequestPlace {
    pub method: usize,
    pub payload: usize,
}

/// Why a place that a guest offers cannot hold a request.
pub open spec fn place_defect(base: i32, total: int, memory: int) -> Option<Seq<char>> {
    if base == 0 {
        Some("guest alloc() failed (out of memory)"@)
    } else if base < 0 || base + total > memory {
        Some("guest alloc() returned an out-of-bounds pointer"@)
    } else {
        None
    }
}

/// Where a request stands in guest memory, at the place that the guest offers.
pub fn request_place(base: i32, method: usize, total: usize, memory: usize) -> (r: Result<
    RequestPlace,
    WasmInvokeError,
>)
    requires
        method <= total <= MAX_IO_BYTES,
    ensures
        match r {
            Ok(place) => place_defect(base, total as int, memory as int) is None && place.method
                == base && place.payload == base + method,
            Err(e) => e.trap is None && place_defect(base, total as int, memory as int) == Some(
                e.message@,
            ),
        },
{
    if base == 0 {
        return Err(WasmInvokeError::host("guest alloc() failed (out of memory)".to_owned()));
    }
    if base < 0 || base as usize + total > memory {
        return Err(
            WasmInvokeError::host("guest alloc() returned an out-of-bounds pointer".to_owned()),
        );
    }
    Ok(RequestPlace { method: base as usize, payload: base as usize + method })
}

/// Guest memory with a request at its place.
pub open spec fn with_request(memory: Seq<u8>, base: int, method: Seq<u8>, payload: Seq<u8>) -> Seq<u8> {
    overwritten(memory, base, method + payload)
}

/// Writes a request to its place in guest memory.
pub fn write_request(memory: &mut [u8], place: RequestPlace, method: &str, payload: &[u8])
    requires
        place.payload == place.method + encode_utf8(method@).len(),
        place.payload + payload@.len() <= old(memory)@.len(),
    ensures
        final(memory)@ == with_request(
            old(memory)@,
            place.method as int,
            encode_utf8(method@),
            payload@,
        ),
{
    let ghost before = memory@;
    let bytes = method.as_bytes();
    copy_to(memory, place.method, bytes);
    copy_to(memory, place.payload, payload);
    assert(memory@ =~= with_request(
        before,
        place.method as int,
        encode_utf8(method@),
        payload@,
    ));
}

/// High half of a packed answer: where it stands.
pub open spec fn packed_ptr(packed: i64) -> u32 {
    ((packed as u64) >> 32) as u32
}

/// Low half of a packed answer: its length, or an error code.
pub open spec fn packed_len(packed: i64) -> u32 {
    (packed as u64) as u32
}

/// What a guest's answer means.
pub enum AnswerView {
    Response(Seq<u8>),
    Code(i32),
    Fault(Seq<char>),
}

/// What a packed answer means: an error code where only a negative low half is set, else a place
/// in guest memory.
pub open spec fn answer_of(packed: i64, memory: Seq<u8>) -> AnswerView {
    let ptr = packed_ptr(packed);
    let len = packed_len(packed);
    if ptr == 0 && (len as i32) < 0 {
        AnswerView::Code(len as i32)
    } else if len > MAX_IO_BYTES {
        AnswerView::Fault(too_large_text("response"@, len as nat))
    } else if len == 0 {
        AnswerView::Response(Seq::empty())
    } else if ptr + len > usize::MAX {
        AnswerView::Fault("response pointer overflow"@)
    } else if ptr + len > memory.len() {
        AnswerView::Fault("response pointer out of bounds"@)
    } else {
        AnswerView::Response(memory.subrange(ptr as int, ptr + len))
    }
}

/// What a guest's answer means; nothing beyond the guest's memory is read.
pub fn read_answer(packed: i64, memory: &[u8]) -> (r: Result<Execution, WasmInvokeError>)
    ensures
        match answer_of(packed, memory@) {
            AnswerView::Response(bytes) => r matches Ok(Execution::Answered(answer)) && answer@
                == bytes,
            AnswerView::Code(code) => r == Ok::<Execution, WasmInvokeError>(Execution::Code(code)),
            AnswerView::Fault(text) => r matches Err(e) && e.message@ == text && e.trap is None,
        },
{
    let ptr: u32 = ((packed as u64) >> 32) as u32;
    let len: u32 = (packed as u64) as u32;
    if ptr == 0 && (len as i32) < 0 {
        return Ok(Execution::Code(len as i32));
    }
    if len as usize > MAX_IO_BYTES {
        return Err(WasmInvokeError::host(too_large("response", len as usize)));
    }
    if len == 0 {
        let none: Vec<u8> = Vec::new();
        assert(none@ =~= Seq::<u8>::empty());
        return Ok(Execution::Answered(none));
    }
    match (ptr as usize).checked_add(len as usize) {
        None => Err(WasmInvokeError::host("response pointer overflow".to_owned())),
        Some(end) => {
            if end > memory.len() {
                return Err(WasmInvokeError::host("response pointer out of bounds".to_owned()));
            }
            let part = vstd::slice::slice_subrange(memory, ptr as usize, end);
            Ok(Execution::Answered(vstd::slice::slice_to_vec(part)))
        },
    }
}

/// A guest packs the place of its answer into one number.
pub open spec fn packed(ptr: u32, len: u32) -> i64 {
    (((ptr as u64) << 32) | (len as u64)) as i64
}

/// A packed answer is taken apart again: its bytes are found at the place that the guest named.
pub proof fn law_packed_answers_are_found(memory: Seq<u8>, ptr: u32, len: u32)
    requires
        0 < len <= MAX_IO_BYTES,
        ptr + len <= memory.len() <= usize::MAX,
    ensures
        packed_ptr(packed(ptr, len)) == ptr,
        packed_len(packed(ptr, len)) == len,
        answer_of(packed(ptr, len), memory) == AnswerView::Response(
            memory.subrange(ptr as int, ptr + len),
        ),
{
    lemma_packed(ptr, len);
    assert(len <= 4_194_304u32 ==> (len as i32) >= 0) by (bit_vector);
}

pub(crate) proof fn lemma_packed(ptr: u32, len: u32)
    ensures
        packed_ptr(packed(ptr, len)) == ptr,
        packed_len(packed(ptr, len)) == len,
{
    assert(((((((ptr as u64) << 32) | (len as u64)) as i64) as u64) >> 32) as u32 == ptr)
        by (bit_vector);
    assert((((((ptr as u64) << 32) | (len as u64)) as i64) as u64) as u32 == len) by (bit_vector);
}

/// A guest answers with an error code by leaving the place empty.
pub proof fn law_packed_codes_are_found(memory: Seq<u8>, code: i32)
    requires
        code < 0,
    ensures
        answer_of(packed(0, code as u32), memory) == AnswerView::Code(code),
{
    lemma_packed(0, code as u32);
    assert((code as u32) as i32 == code) by (bit_vector);
}

/// Why a guest's initialisation failed, where it did: it reports zero for success.
pub fn init_outcome(code: i32) -> (r: Result<(), String>)
    ensures
        match r {
            Ok(_) => code == 0,
            Err(e) => code != 0 && e@ == "plugin init() returned failure code "@
                + text::decimal_int(code as int),
        },
{
    if code == 0 {
        return Ok(());
    }
    let number = decimal_int_text(code as i64);
    let mut text = "plugin init() returned failure code ".to_owned();
    text.append(number.as_str());
    Err(text)
}

/// Guests can import what the ledger of host operations lists for them, and nothing else: each
/// line's import is there, and each import has a line.
pub proof fn law_imports_are_those_of_the_ledger(i: int, k: int)
    requires
        0 <= i < abi::host_ledger().len(),
        0 <= k < 8,
    ensures
        abi::host_ledger()[i].core matches Some(name) ==> exists|n: int|
            0 <= n < 8 && (#[trigger] HOST_IMPORTS[n])@ == name,
        exists|j: int|
            0 <= j < abi::host_ledger().len() && (#[trigger] abi::host_ledger()[j]).core == Some(
                HOST_IMPORTS[k]@,
            ),
{
    let n: int = if i == 0 {
        1
    } else if i == 1 {
        0
    } else if i == 3 {
        3
    } else if i == 4 {
        2
    } else if i == 6 {
        4
    } else if i == 7 {
        5
    } else if i == 24 {
        6
    } else {
        7
    };
    if let Some(name) = abi::host_ledger()[i].core {
        assert(HOST_IMPORTS[n]@ == name);
    }
    let j: int = if k == 0 {
        1
    } else if k == 1 {
        0
    } else if k == 2 {
        4
    } else if k == 3 {
        3
    } else if k == 4 {
        6
    } else if k == 5 {
        7
    } else if k == 6 {
        24
    } else {
        25
    };
    assert(abi::host_ledger()[j].core == Some(HOST_IMPORTS[k]@));
}

} // verus!
