//! The store behind the SDK: what each call asks of the client, what it answers, and the handles
//! that calls leave open.
use crate::core_error;
use crate::core_error::{map_core_error, CoreError, CoreErrorKind};
use crate::handles;
use crate::handles::{HandleKey, HandleTable};
use crate::plugin::sdk::backend;
use crate::plugin::sdk::backend::{
    KvDelete, KvDeleteOut, KvPut, KvPutOut, KvPutOutView, KvRange, KvRangeOut, KvRangeOutView,
    KvDeleteOutView, KvRecord, ObjectPutOut, SdkError, SdkErrorCode, SdkErrorView, SdkResult,
    WatchEventDto,
};
use crate::plugin::sdk::wire;
use crate::plugin::sdk::wire::{record_from, records_from, watch_event_to_dto, KvRow, WatchEvent};
use crate::text;
use crate::text::{decimal_text, join3, join5};
use vstd::prelude::*;

verus! {

/// Contents of an answer or of a failure.
pub open spec fn result_view<T: View>(r: SdkResult<T>) -> Result<T::V, SdkErrorView> {
    match r {
        Ok(v) => Ok(v@),
        Err(e) => Err(e@),
    }
}

/// What a plugin sees of a client failure.
pub open spec fn failure_of(e: CoreError) -> SdkErrorView {
    backend::sdk_error(core_error::sdk_class(e.kind), e.text@)
}

// ---- writes that report what they replace ----

/// The read that precedes a write which asks for the replaced record.
pub fn previous_read(req: &KvPut) -> (r: Option<KvRange>)
    ensures
        match r {
            Some(read) => req.prev_kv && read@ == (backend::KvRangeView {
                key: req.key@,
                range_end: Seq::empty(),
                limit: 1,
                revision: 0,
                keys_only: false,
                count_only: false,
            }),
            None => !req.prev_kv,
        },
{
    if req.prev_kv {
        let range_end: Vec<u8> = Vec::new();
        assert(range_end@ =~= Seq::<u8>::empty());
        Some(
            KvRange {
                key: req.key.clone(),
                range_end,
                limit: 1,
                revision: 0,
                keys_only: false,
                count_only: false,
            },
        )
    } else {
        None
    }
}

/// The record that a single-key read found.
pub fn previous_record(rows: Result<Vec<KvRow>, CoreError>) -> (r: SdkResult<Option<KvRecord>>)
    ensures
        match (rows, r) {
            (Err(e), Err(f)) => f@ == failure_of(e),
            (Ok(found), Ok(prev)) => backend::opt_view(prev) == (if found@.len() == 0 {
                None
            } else {
                Some(wire::row_record(found@[0]))
            }),
            _ => false,
        },
{
    match rows {
        Err(e) => Err(map_core_error(&e)),
        Ok(mut found) => {
            if found.len() == 0 {
                Ok(None)
            } else {
                Ok(Some(record_from(found.remove(0))))
            }
        },
    }
}

/// Answer to a write: the record read before it and its revision.
pub fn put_outcome(prev: Option<KvRecord>, written: Result<u64, CoreError>) -> (r: SdkResult<KvPutOut>)
    ensures
        result_view(r) == match written {
            Ok(revision) => Ok(
                KvPutOutView { prev_kv: backend::opt_view(prev), revision: revision as i64 },
            ),
            Err(e) => Err(failure_of(e)),
        },
{
    match written {
        Ok(revision) => Ok(KvPutOut { prev_kv: prev, revision: revision as i64 }),
        Err(e) => Err(map_core_error(&e)),
    }
}

/// Answer to a read.
pub fn range_outcome(read: Result<(Vec<KvRow>, i64, i64), CoreError>) -> (r: SdkResult<KvRangeOut>)
    ensures
        result_view(r) == match read {
            Ok((rows, count, revision)) => Ok(
                KvRangeOutView { kvs: wire::row_records(rows@), count, revision },
            ),
            Err(e) => Err(failure_of(e)),
        },
{
    match read {
        Ok((rows, count, revision)) => Ok(KvRangeOut { kvs: records_from(rows), count, revision }),
        Err(e) => Err(map_core_error(&e)),
    }
}

/// The read that precedes a delete which asks for the deleted records: the same keys, no limit.
pub fn deleted_read(req: &KvDelete) -> (r: Option<KvRange>)
    ensures
        match r {
            Some(read) => req.prev_kv && read@ == (backend::KvRangeView {
                key: req.key@,
                range_end: req.range_end@,
                limit: 0,
                revision: 0,
                keys_only: false,
                count_only: false,
            }),
            None => !req.prev_kv,
        },
{
    if req.prev_kv {
        Some(
            KvRange {
                key: req.key.clone(),
                range_end: req.range_end.clone(),
                limit: 0,
                revision: 0,
                keys_only: false,
                count_only: false,
            },
        )
    } else {
        None
    }
}

/// Answer to a delete: the records read before it, how many keys went, and its revision.
pub fn delete_outcome(prev: Vec<KvRecord>, deleted: Result<(i64, i64), CoreError>) -> (r: SdkResult<
    KvDeleteOut,
>)
    ensures
        result_view(r) == match deleted {
            Ok((count, revision)) => Ok(
                KvDeleteOutView { deleted: count, prev_kvs: backend::views(prev@), revision },
            ),
            Err(e) => Err(failure_of(e)),
        },
{
    match deleted {
        Ok((count, revision)) => Ok(KvDeleteOut { deleted: count, prev_kvs: prev, revision }),
        Err(e) => Err(map_core_error(&e)),
    }
}

/// Answer to an upload.
pub fn upload_outcome(done: Result<(u64, u64, u64), CoreError>) -> (r: SdkResult<ObjectPutOut>)
    ensures
        result_view(r) == match done {
            Ok((revision, size, chunks)) => Ok(
                backend::ObjectPutOutView {
                    revision: revision as i64,
                    size: size as i64,
                    chunks: chunks as i64,
                },
            ),
            Err(e) => Err(failure_of(e)),
        },
{
    match done {
        Ok((revision, size, chunks)) => Ok(
            ObjectPutOut { revision: revision as i64, size: size as i64, chunks: chunks as i64 },
        ),
        Err(e) => Err(map_core_error(&e)),
    }
}

/// Length of an upload, as the client is told.
#[derive(Debug, Clone, Copy, PartialEq, Eq, Structural)]
pub enum UploadLength {
    /// Fixed by the bytes that arrive.
    Unknown,
    /// Declared beforehand.
    Declared(u64),
}

/// Length of an upload: zero stands for an unknown length.
pub fn upload_length(total_size: u64) -> (r: UploadLength)
    ensures
        r == if total_size == 0 {
            UploadLength::Unknown
        } else {
            UploadLength::Declared(total_size)
        },
{
    if total_size == 0 {
        UploadLength::Unknown
    } else {
        UploadLength::Declared(total_size)
    }
}

// ---- watches ----

/// What a subscription yields.
pub open spec fn watch_yield(received: Option<Result<WatchEvent, CoreError>>) -> Result<
    Option<WatchEvent>,
    SdkErrorView,
> {
    match received {
        None => Ok(None),
        Some(Ok(event)) => Ok(Some(event)),
        Some(Err(e)) => Err(
            match e.kind {
                CoreErrorKind::Backpressure(msg) => backend::sdk_error(
                    SdkErrorCode::ResourceExhausted,
                    "watch buffer overflow: "@ + msg@,
                ),
                _ => failure_of(e),
            },
        ),
    }
}

/// What a plugin sees of what a subscription received; the end of the stream is no failure, and
/// an overflow of the client's buffer tells the plugin to subscribe anew.
pub fn watch_outcome(received: Option<Result<WatchEvent, CoreError>>) -> (r: SdkResult<
    Option<WatchEventDto>,
>)
    ensures
        match (watch_yield(received), r) {
            (Err(e), Err(f)) => f@ == e,
            (Ok(None), Ok(None)) => true,
            (Ok(Some(event)), Ok(Some(seen))) => seen@ == wire::event_view(event),
            _ => false,
        },
{
    match received {
        None => Ok(None),
        Some(Ok(event)) => Ok(Some(watch_event_to_dto(event))),
        Some(Err(e)) => {
            if let CoreErrorKind::Backpressure(msg) = &e.kind {
                let mut text = "watch buffer overflow: ".to_owned();
                text.append(msg.as_str());
                return Err(SdkError::resource_exhausted(text.as_str()));
            }
            Err(map_core_error(&e))
        },
    }
}

// ---- downloads ----

/// Bytes of a download that were fetched and not yet handed out.
pub struct ReadBuffer {
    pending: Vec<u8>,
}

impl View for ReadBuffer {
    type V = Seq<u8>;

    closed spec fn view(&self) -> Seq<u8> {
        self.pending@
    }
}

/// What a read hands out of bytes at hand: as many as fit.
pub open spec fn served(bytes: Seq<u8>, max_len: u64) -> Seq<u8> {
    if bytes.len() <= max_len {
        bytes
    } else {
        bytes.take(max_len as int)
    }
}

/// What a read leaves of bytes at hand.
pub open spec fn kept(bytes: Seq<u8>, max_len: u64) -> Seq<u8> {
    if bytes.len() <= max_len {
        Seq::empty()
    } else {
        bytes.skip(max_len as int)
    }
}

impl ReadBuffer {
    /// An empty buffer.
    pub fn new() -> (r: Self)
        ensures
            r@ == Seq::<u8>::empty(),
    {
        let r = ReadBuffer { pending: Vec::new() };
        assert(r@ =~= Seq::<u8>::empty());
        r
    }

    /// Hands out bytes that wait, before anything is fetched; nothing where none wait.
    pub fn take(&mut self, max_len: u64) -> (r: Option<Vec<u8>>)
        ensures
            match r {
                Some(bytes) => old(self)@.len() > 0 && bytes@ == served(old(self)@, max_len)
                    && final(self)@ == kept(old(self)@, max_len),
                None => old(self)@.len() == 0 && final(self)@ == old(self)@,
            },
    {
        if self.pending.len() == 0 {
            return None;
        }
        let mut waiting: Vec<u8> = Vec::new();
        std::mem::swap(&mut waiting, &mut self.pending);
        Some(self.cut(waiting, max_len))
    }

    /// Hands out what was fetched: a chunk, or the end of the object. A failure leaves the buffer
    /// as it is.
    pub fn fetched(&mut self, received: Result<Option<Vec<u8>>, CoreError>, max_len: u64) -> (r:
        SdkResult<Option<Vec<u8>>>)
        requires
            old(self)@.len() == 0,
        ensures
            match (received, r) {
                (Err(e), Err(f)) => f@ == failure_of(e) && final(self)@ == old(self)@,
                (Ok(None), Ok(None)) => final(self)@ == old(self)@,
                (Ok(Some(c)), Ok(Some(bytes))) => bytes@ == served(c@, max_len) && final(self)@
                    == kept(c@, max_len),
                _ => false,
            },
    {
        match received {
            Err(e) => Err(map_core_error(&e)),
            Ok(None) => Ok(None),
            Ok(Some(c)) => Ok(Some(self.cut(c, max_len))),
        }
    }

    fn cut(&mut self, bytes: Vec<u8>, max_len: u64) -> (r: Vec<u8>)
        requires
            old(self)@.len() == 0,
        ensures
            r@ == served(bytes@, max_len),
            final(self)@ == kept(bytes@, max_len),
    {
        let mut head = bytes;
        if head.len() as u64 <= max_len {
            assert(self@ =~= Seq::<u8>::empty());
            return head;
        }
        let ghost all = head@;
        let rest = head.split_off(max_len as usize);
        assert(head@ =~= all.take(max_len as int));
        assert(rest@ =~= all.skip(max_len as int));
        self.pending = rest;
        head
    }
}

/// A read of no bytes is refused.
pub fn check_read_length(max_len: u64) -> (r: SdkResult<()>)
    ensures
        backend::unit_view(r) == if max_len == 0 {
            Err(backend::sdk_error(SdkErrorCode::InvalidArgument, "max_len must be > 0"@))
        } else {
            Ok(())
        },
{
    if max_len == 0 {
        Err(SdkError::invalid_argument("max_len must be > 0"))
    } else {
        Ok(())
    }
}

/// Bytes in a row.
pub open spec fn concatenated(parts: Seq<Seq<u8>>) -> Seq<u8>
    decreases parts.len(),
{
    if parts.len() == 0 {
        Seq::empty()
    } else {
        concatenated(parts.drop_last()) + parts.last()
    }
}

/// What successive reads of the given lengths hand out, what then waits, and the chunks not yet
/// fetched: a read takes of what waits, and fetches the next chunk where nothing waits; at the end
/// of the object it hands out nothing.
pub open spec fn reads_of(pending: Seq<u8>, chunks: Seq<Seq<u8>>, lens: Seq<u64>) -> (
    Seq<Seq<u8>>,
    Seq<u8>,
    Seq<Seq<u8>>,
)
    decreases lens.len(),
{
    if lens.len() == 0 {
        (Seq::empty(), pending, chunks)
    } else {
        let (out, waiting, left) = reads_of(pending, chunks, lens.drop_last());
        let max_len = lens.last();
        if waiting.len() > 0 {
            (out.push(served(waiting, max_len)), kept(waiting, max_len), left)
        } else if left.len() > 0 {
            (out.push(served(left[0], max_len)), kept(left[0], max_len), left.skip(1))
        } else {
            (out, waiting, left)
        }
    }
}

/// The first part stands first.
pub proof fn lemma_concatenated_front(parts: Seq<Seq<u8>>)
    requires
        parts.len() > 0,
    ensures
        concatenated(parts) == parts[0] + concatenated(parts.skip(1)),
    decreases parts.len(),
{
    if parts.len() == 1 {
        assert(parts.drop_last() =~= Seq::<Seq<u8>>::empty());
        assert(parts.skip(1) =~= Seq::<Seq<u8>>::empty());
        assert(concatenated(parts.drop_last()) =~= Seq::<u8>::empty());
        assert(concatenated(parts) =~= parts[0] + concatenated(parts.skip(1)));
    } else {
        lemma_concatenated_front(parts.drop_last());
        assert(parts.drop_last().skip(1) =~= parts.skip(1).drop_last());
        assert(parts.skip(1).last() == parts.last());
        assert(concatenated(parts) =~= parts[0] + concatenated(parts.skip(1)));
    }
}

/// Successive reads give back the object byte for byte, whatever their lengths: what was handed
/// out, what waits and what is still to be fetched make up the whole, and no read hands out more
/// than it asked for. Once a read finds the end, all of the object was handed out. Where no chunk
/// and no length is empty, every read before the end hands out something.
pub proof fn law_reads_give_back_the_object(chunks: Seq<Seq<u8>>, lens: Seq<u64>)
    ensures
        ({
            let (out, waiting, left) = reads_of(Seq::empty(), chunks, lens);
            &&& concatenated(out) + waiting + concatenated(left) == concatenated(chunks)
            &&& out.len() <= lens.len()
            &&& out.len() < lens.len() ==> concatenated(out) == concatenated(chunks)
            &&& forall|i: int|
                0 <= i < out.len() ==> (#[trigger] out[i]).len() <= lens[i]
            &&& none_empty(chunks) && (forall|i: int| 0 <= i < lens.len() ==> #[trigger] lens[i] > 0)
                ==> none_empty(out) && none_empty(left)
        }),
    decreases lens.len(),
{
    lemma_reads_do_not_pile_up(chunks, lens);
    if lens.len() == 0 {
        assert(concatenated(Seq::<Seq<u8>>::empty()) + Seq::<u8>::empty() + concatenated(chunks)
            =~= concatenated(chunks));
    } else {
        let before = lens.drop_last();
        law_reads_give_back_the_object(chunks, before);
        let (out, waiting, left) = reads_of(Seq::empty(), chunks, before);
        let max_len = lens.last();
        lemma_reads_do_not_pile_up(chunks, before);
        assert forall|i: int| 0 <= i < before.len() implies #[trigger] before[i] == lens[i] by {}
        assert forall|i: int| 0 <= i < out.len() implies (#[trigger] out[i]).len() <= lens[i] by {
            assert(before[i] == lens[i]);
        }
        if waiting.len() > 0 {
            let next = out.push(served(waiting, max_len));
            assert(next.drop_last() =~= out);
            assert(served(waiting, max_len) + kept(waiting, max_len) =~= waiting);
            assert(concatenated(next) + kept(waiting, max_len) + concatenated(left)
                =~= concatenated(out) + waiting + concatenated(left));
        } else if left.len() > 0 {
            let next = out.push(served(left[0], max_len));
            assert(next.drop_last() =~= out);
            assert(served(left[0], max_len) + kept(left[0], max_len) =~= left[0]);
            lemma_concatenated_front(left);
            assert(concatenated(next) + kept(left[0], max_len) + concatenated(left.skip(1))
                =~= concatenated(out) + waiting + concatenated(left));
        }
        assert(lens[lens.len() - 1] == max_len);
    }
    let (out, waiting, left) = reads_of(Seq::empty(), chunks, lens);
    if out.len() < lens.len() {
        assert(waiting =~= Seq::<u8>::empty());
        assert(concatenated(left) =~= Seq::<u8>::empty());
        assert(concatenated(out) + waiting + concatenated(left) =~= concatenated(out));
    }
}

/// Whether no part is empty.
pub open spec fn none_empty(parts: Seq<Seq<u8>>) -> bool {
    forall|i: int| 0 <= i < parts.len() ==> (#[trigger] parts[i]).len() > 0
}

proof fn lemma_reads_do_not_pile_up(chunks: Seq<Seq<u8>>, lens: Seq<u64>)
    ensures
        ({
            let (out, waiting, left) = reads_of(Seq::empty(), chunks, lens);
            waiting.len() > 0 || left.len() > 0 ==> out.len() == lens.len()
        }),
    decreases lens.len(),
{
    if lens.len() > 0 {
        lemma_reads_do_not_pile_up(chunks, lens.drop_last());
    }
}

// ---- handles ----

/// A revocation that the cluster may be asked for: the lease's renewals have ended. It comes from
/// [`CoordSdkBackend::lease_revoke`] alone.
#[derive(Debug)]
pub struct LeaseRevocation {
    lease: i64,
}

impl LeaseRevocation {
    /// The lease to revoke.
    pub closed spec fn lease(&self) -> i64 {
        self.lease
    }

    /// The lease to revoke.
    pub fn id(&self) -> (r: i64)
        ensures
            r == self.lease(),
    {
        self.lease
    }

    /// Answer to the revocation.
    pub fn answer(self, revoked: Result<(), CoreError>) -> (r: SdkResult<()>)
        ensures
            backend::unit_view(r) == match revoked {
                Ok(_) => Ok(()),
                Err(e) => Err(failure_of(e)),
            },
    {
        match revoked {
            Ok(_) => Ok(()),
            Err(e) => Err(map_core_error(&e)),
        }
    }
}

/// Handles that the calls of plugins leave open: lease keep-alives, watches, uploads and
/// downloads. Uploads and downloads share one numbering.
pub struct CoordSdkBackend<K, W, U, R> {
    keepers: HandleTable<K>,
    watches: HandleTable<W>,
    next_watch_id: u64,
    uploads: HandleTable<U>,
    reads: HandleTable<R>,
    next_session_id: u64,
}

/// Key under which the keep-alive of a lease is held.
pub open spec fn lease_key(plugin: Seq<char>, id: i64) -> HandleKey {
    (plugin, id as u64)
}

/// Every open handle has a number that was given out before.
pub open spec fn numbered_below<T>(open: Map<HandleKey, T>, next: u64) -> bool {
    forall|k: HandleKey| #[trigger] open.dom().contains(k) ==> k.1 < next
}

/// The number after this one; after the last comes zero.
pub open spec fn number_after(n: u64) -> u64 {
    if n == u64::MAX {
        0
    } else {
        (n + 1) as u64
    }
}

fn successor(n: u64) -> (r: u64)
    ensures
        r == number_after(n),
{
    if n == u64::MAX {
        0
    } else {
        n + 1
    }
}

/// Why a watch cannot be read.
pub open spec fn no_watch_text(plugin: Seq<char>, id: u64) -> Seq<char> {
    "watch subscription "@ + text::decimal(id as nat) + " not found for plugin '"@ + plugin + "'"@
}

/// Why an upload cannot go on.
pub open spec fn no_upload_text(id: u64) -> Seq<char> {
    "storage upload session "@ + text::decimal(id as nat) + " not found"@
}

/// Why a download cannot go on.
pub open spec fn no_download_text(id: u64) -> Seq<char> {
    "storage download session "@ + text::decimal(id as nat) + " not found"@
}

/// The failure of a call on an upload that is already committed or aborted.
pub fn upload_finished(id: u64) -> (r: SdkError)
    ensures
        r@ == backend::sdk_error(
            SdkErrorCode::NotFound,
            "storage upload session "@ + text::decimal(id as nat) + " is already finished"@,
        ),
{
    let number = decimal_text(id);
    let text = join3("storage upload session ", number.as_str(), " is already finished");
    SdkError::not_found(text.as_str())
}

fn no_upload(id: u64) -> (r: SdkError)
    ensures
        r@ == backend::sdk_error(SdkErrorCode::NotFound, no_upload_text(id)),
{
    let number = decimal_text(id);
    let text = join3("storage upload session ", number.as_str(), " not found");
    SdkError::not_found(text.as_str())
}

impl<K, W, U, R> CoordSdkBackend<K, W, U, R> {
    /// Open keep-alives.
    pub closed spec fn keepers(&self) -> Map<HandleKey, K> {
        self.keepers@
    }

    /// Open watches.
    pub closed spec fn watches(&self) -> Map<HandleKey, W> {
        self.watches@
    }

    /// Open uploads.
    pub closed spec fn uploads(&self) -> Map<HandleKey, U> {
        self.uploads@
    }

    /// Open downloads.
    pub closed spec fn reads(&self) -> Map<HandleKey, R> {
        self.reads@
    }

    /// Number of the next watch.
    pub closed spec fn next_watch(&self) -> u64 {
        self.next_watch_id
    }

    /// Number of the next upload or download.
    pub closed spec fn next_session(&self) -> u64 {
        self.next_session_id
    }

    /// Nothing open; numbers start at one.
    pub fn new() -> (r: Self)
        ensures
            r.keepers() == Map::<HandleKey, K>::empty(),
            r.watches() == Map::<HandleKey, W>::empty(),
            r.uploads() == Map::<HandleKey, U>::empty(),
            r.reads() == Map::<HandleKey, R>::empty(),
            r.next_watch() == 1,
            r.next_session() == 1,
    {
        CoordSdkBackend {
            keepers: HandleTable::new(),
            watches: HandleTable::new(),
            next_watch_id: 1,
            uploads: HandleTable::new(),
            reads: HandleTable::new(),
            next_session_id: 1,
        }
    }

    /// How many keep-alives are open.
    pub fn keeper_count(&self) -> (r: usize)
        ensures
            self.keepers().dom().finite(),
            r == self.keepers().dom().len(),
    {
        self.keepers.len()
    }

    /// How many watches are open.
    pub fn watch_count(&self) -> (r: usize)
        ensures
            self.watches().dom().finite(),
            r == self.watches().dom().len(),
    {
        self.watches.len()
    }

    /// How many uploads and downloads are open.
    pub fn storage_session_count(&self) -> (r: usize)
        requires
            self.uploads().dom().len() + self.reads().dom().len() <= usize::MAX,
        ensures
            self.uploads().dom().finite(),
            self.reads().dom().finite(),
            r == self.uploads().dom().len() + self.reads().dom().len(),
    {
        self.uploads.len() + self.reads.len()
    }

    /// Whether a lease is kept alive; only where it is not is a keep-alive started.
    pub fn keeps_alive(&self, plugin: &str, id: i64) -> (r: bool)
        ensures
            r == self.keepers().dom().contains(lease_key(plugin@, id)),
    {
        self.keepers.contains(plugin, id as u64)
    }

    /// Keeps a started keep-alive, or hands it back where one came first: one per lease stays.
    pub fn keep(&mut self, plugin: &str, id: i64, keeper: K) -> (r: Option<K>)
        ensures
            final(self).watches() == old(self).watches(),
            final(self).uploads() == old(self).uploads(),
            final(self).reads() == old(self).reads(),
            final(self).next_watch() == old(self).next_watch(),
            final(self).next_session() == old(self).next_session(),
            if old(self).keepers().dom().contains(lease_key(plugin@, id)) {
                r == Some(keeper) && final(self).keepers() == old(self).keepers()
            } else {
                r is None && final(self).keepers() == old(self).keepers().insert(
                    lease_key(plugin@, id),
                    keeper,
                )
            },
    {
        if self.keepers.contains(plugin, id as u64) {
            return Some(keeper);
        }
        self.keepers.open(plugin, id as u64, keeper);
        None
    }

    /// Takes the keep-alive of a lease out, so that dropping it ends the renewals.
    pub fn lease_stop_keep_alive(&mut self, plugin: &str, id: i64) -> (r: Option<K>)
        ensures
            final(self).watches() == old(self).watches(),
            final(self).uploads() == old(self).uploads(),
            final(self).reads() == old(self).reads(),
            final(self).next_watch() == old(self).next_watch(),
            final(self).next_session() == old(self).next_session(),
            final(self).keepers() == old(self).keepers().remove(lease_key(plugin@, id)),
            r is Some <==> old(self).keepers().dom().contains(lease_key(plugin@, id)),
            r matches Some(k) ==> k == old(self).keepers()[lease_key(plugin@, id)],
    {
        self.keepers.close(plugin, id as u64)
    }

    /// Begins to revoke a lease: its keep-alive is taken out first, so that dropping it ends the
    /// renewals, and the revocation that the cluster is asked for comes after that.
    pub fn lease_revoke(&mut self, plugin: &str, id: i64) -> (r: (Option<K>, LeaseRevocation))
        ensures
            final(self).watches() == old(self).watches(),
            final(self).uploads() == old(self).uploads(),
            final(self).reads() == old(self).reads(),
            final(self).next_watch() == old(self).next_watch(),
            final(self).next_session() == old(self).next_session(),
            final(self).keepers() == old(self).keepers().remove(lease_key(plugin@, id)),
            !final(self).keepers().dom().contains(lease_key(plugin@, id)),
            r.0 is Some <==> old(self).keepers().dom().contains(lease_key(plugin@, id)),
            r.0 matches Some(k) ==> k == old(self).keepers()[lease_key(plugin@, id)],
            r.1.lease() == id,
    {
        let keeper = self.lease_stop_keep_alive(plugin, id);
        (keeper, LeaseRevocation { lease: id })
    }

    /// Holds a started watch under the next number.
    pub fn watch_opened(&mut self, plugin: &str, watch: W) -> (r: u64)
        ensures
            final(self).keepers() == old(self).keepers(),
            final(self).uploads() == old(self).uploads(),
            final(self).reads() == old(self).reads(),
            final(self).next_session() == old(self).next_session(),
            r == old(self).next_watch(),
            final(self).next_watch() == number_after(r),
            final(self).watches() == old(self).watches().insert((plugin@, r), watch),
    {
        let id: u64 = self.next_watch_id;
        self.next_watch_id = successor(id);
        self.watches.open(plugin, id, watch);
        id
    }

    /// The watch to read from.
    pub fn watch(&self, plugin: &str, id: u64) -> (r: SdkResult<&W>)
        ensures
            match r {
                Ok(w) => self.watches().dom().contains((plugin@, id)) && *w == self.watches()[(
                    plugin@,
                    id,
                )],
                Err(e) => !self.watches().dom().contains((plugin@, id)) && e@
                    == backend::sdk_error(SdkErrorCode::NotFound, no_watch_text(plugin@, id)),
            },
    {
        match self.watches.get(plugin, id) {
            Some(w) => Ok(w),
            None => {
                let number = decimal_text(id);
                let text = join5(
                    "watch subscription ",
                    number.as_str(),
                    " not found for plugin '",
                    plugin,
                    "'",
                );
                Err(SdkError::not_found(text.as_str()))
            },
        }
    }

    /// Takes a watch out; nothing where there is none.
    pub fn watch_close(&mut self, plugin: &str, id: u64) -> (r: Option<W>)
        ensures
            final(self).keepers() == old(self).keepers(),
            final(self).uploads() == old(self).uploads(),
            final(self).reads() == old(self).reads(),
            final(self).next_watch() == old(self).next_watch(),
            final(self).next_session() == old(self).next_session(),
            final(self).watches() == old(self).watches().remove((plugin@, id)),
            r is Some <==> old(self).watches().dom().contains((plugin@, id)),
            r matches Some(w) ==> w == old(self).watches()[(plugin@, id)],
    {
        self.watches.close(plugin, id)
    }

    /// Holds a started upload under the next number.
    pub fn upload_opened(&mut self, plugin: &str, upload: U) -> (r: u64)
        ensures
            final(self).keepers() == old(self).keepers(),
            final(self).watches() == old(self).watches(),
            final(self).reads() == old(self).reads(),
            final(self).next_watch() == old(self).next_watch(),
            r == old(self).next_session(),
            final(self).next_session() == number_after(r),
            final(self).uploads() == old(self).uploads().insert((plugin@, r), upload),
    {
        let id: u64 = self.next_session_id;
        self.next_session_id = successor(id);
        self.uploads.open(plugin, id, upload);
        id
    }

    /// The upload to write to.
    pub fn upload_session(&self, plugin: &str, id: u64) -> (r: SdkResult<&U>)
        ensures
            match r {
                Ok(u) => self.uploads().dom().contains((plugin@, id)) && *u == self.uploads()[(
                    plugin@,
                    id,
                )],
                Err(e) => !self.uploads().dom().contains((plugin@, id)) && e@
                    == backend::sdk_error(SdkErrorCode::NotFound, no_upload_text(id)),
            },
    {
        match self.uploads.get(plugin, id) {
            Some(u) => Ok(u),
            None => Err(no_upload(id)),
        }
    }

    /// Takes the upload out that is to be committed.
    pub fn take_upload_session(&mut self, plugin: &str, id: u64) -> (r: SdkResult<U>)
        ensures
            final(self).keepers() == old(self).keepers(),
            final(self).watches() == old(self).watches(),
            final(self).reads() == old(self).reads(),
            final(self).next_watch() == old(self).next_watch(),
            final(self).next_session() == old(self).next_session(),
            final(self).uploads() == old(self).uploads().remove((plugin@, id)),
            match r {
                Ok(u) => old(self).uploads().dom().contains((plugin@, id)) && u
                    == old(self).uploads()[(plugin@, id)],
                Err(e) => !old(self).uploads().dom().contains((plugin@, id)) && e@
                    == backend::sdk_error(SdkErrorCode::NotFound, no_upload_text(id)),
            },
    {
        match self.uploads.close(plugin, id) {
            Some(u) => Ok(u),
            None => Err(no_upload(id)),
        }
    }

    /// Takes the upload out that is to be aborted; nothing where it is committed or aborted.
    pub fn storage_abort_write(&mut self, plugin: &str, id: u64) -> (r: Option<U>)
        ensures
            final(self).keepers() == old(self).keepers(),
            final(self).watches() == old(self).watches(),
            final(self).reads() == old(self).reads(),
            final(self).next_watch() == old(self).next_watch(),
            final(self).next_session() == old(self).next_session(),
            final(self).uploads() == old(self).uploads().remove((plugin@, id)),
            r is Some <==> old(self).uploads().dom().contains((plugin@, id)),
            r matches Some(u) ==> u == old(self).uploads()[(plugin@, id)],
    {
        self.uploads.close(plugin, id)
    }

    /// Holds a started download under the next number.
    pub fn read_opened(&mut self, plugin: &str, read: R) -> (r: u64)
        ensures
            final(self).keepers() == old(self).keepers(),
            final(self).watches() == old(self).watches(),
            final(self).uploads() == old(self).uploads(),
            final(self).next_watch() == old(self).next_watch(),
            r == old(self).next_session(),
            final(self).next_session() == number_after(r),
            final(self).reads() == old(self).reads().insert((plugin@, r), read),
    {
        let id: u64 = self.next_session_id;
        self.next_session_id = successor(id);
        self.reads.open(plugin, id, read);
        id
    }

    /// The download to read from.
    pub fn read_session(&self, plugin: &str, id: u64) -> (r: SdkResult<&R>)
        ensures
            match r {
                Ok(d) => self.reads().dom().contains((plugin@, id)) && *d == self.reads()[(
                    plugin@,
                    id,
                )],
                Err(e) => !self.reads().dom().contains((plugin@, id)) && e@ == backend::sdk_error(
                    SdkErrorCode::NotFound,
                    no_download_text(id),
                ),
            },
    {
        match self.reads.get(plugin, id) {
            Some(d) => Ok(d),
            None => {
                let number = decimal_text(id);
                let text = join3("storage download session ", number.as_str(), " not found");
                Err(SdkError::not_found(text.as_str()))
            },
        }
    }

    /// The download that a read takes from. A read of no bytes is refused, and so is one of a
    /// download that is not open.
    pub fn storage_read_chunk(&self, plugin: &str, id: u64, max_len: u64) -> (r: SdkResult<&R>)
        ensures
            match r {
                Ok(d) => max_len > 0 && self.reads().dom().contains((plugin@, id)) && *d
                    == self.reads()[(plugin@, id)],
                Err(e) => if max_len == 0 {
                    e@ == backend::sdk_error(SdkErrorCode::InvalidArgument, "max_len must be > 0"@)
                } else {
                    !self.reads().dom().contains((plugin@, id)) && e@ == backend::sdk_error(
                        SdkErrorCode::NotFound,
                        no_download_text(id),
                    )
                },
            },
    {
        match check_read_length(max_len) {
            Err(e) => Err(e),
            Ok(_) => self.read_session(plugin, id),
        }
    }

    /// Takes a download out; nothing where it is closed.
    pub fn storage_close_read(&mut self, plugin: &str, id: u64) -> (r: Option<R>)
        ensures
            final(self).keepers() == old(self).keepers(),
            final(self).watches() == old(self).watches(),
            final(self).uploads() == old(self).uploads(),
            final(self).next_watch() == old(self).next_watch(),
            final(self).next_session() == old(self).next_session(),
            final(self).reads() == old(self).reads().remove((plugin@, id)),
            r is Some <==> old(self).reads().dom().contains((plugin@, id)),
            r matches Some(d) ==> d == old(self).reads()[(plugin@, id)],
    {
        self.reads.close(plugin, id)
    }

    /// Closes everything that a plugin left open and nothing else, and returns how many
    /// keep-alives, watches, uploads and downloads there were.
    pub fn release_plugin(&mut self, plugin: &str) -> (r: (usize, usize, usize, usize))
        ensures
            final(self).keepers() == handles::owned_by_others(old(self).keepers(), plugin@),
            final(self).watches() == handles::owned_by_others(old(self).watches(), plugin@),
            final(self).uploads() == handles::owned_by_others(old(self).uploads(), plugin@),
            final(self).reads() == handles::owned_by_others(old(self).reads(), plugin@),
            final(self).next_watch() == old(self).next_watch(),
            final(self).next_session() == old(self).next_session(),
            old(self).keepers().dom().len() == final(self).keepers().dom().len() + r.0,
            old(self).watches().dom().len() == final(self).watches().dom().len() + r.1,
            old(self).uploads().dom().len() == final(self).uploads().dom().len() + r.2,
            old(self).reads().dom().len() == final(self).reads().dom().len() + r.3,
    {
        let keepers: usize = self.keepers.close_all(plugin);
        let watches: usize = self.watches.close_all(plugin);
        let uploads: usize = self.uploads.close_all(plugin);
        let reads: usize = self.reads.close_all(plugin);
        (keepers, watches, uploads, reads)
    }
}

/// A handle gets a number that no open handle has, and the numbers keep growing, as long as the
/// numbers do not run out.
pub proof fn law_handle_numbers_are_fresh<T>(
    open: Map<HandleKey, T>,
    next: u64,
    owner: Seq<char>,
    value: T,
)
    requires
        numbered_below(open, next),
        next < u64::MAX,
    ensures
        !open.dom().contains((owner, next)),
        numbered_below(open.insert((owner, next), value), number_after(next)),
        forall|k: HandleKey| numbered_below(#[trigger] open.remove(k), next),
{
}

/// Two leases of a plugin never share a keep-alive.
pub proof fn law_leases_are_told_apart(plugin: Seq<char>, a: i64, b: i64)
    ensures
        lease_key(plugin, a) == lease_key(plugin, b) <==> a == b,
{
    assert(a as u64 == b as u64 ==> a == b) by (bit_vector);
}

} // verus!
