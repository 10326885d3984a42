//! WebAssembly components: which binaries are components, and the handles that they hold.
use crate::plugin::sdk::backend::SdkErrorCode;
use crate::plugin::wit::{HostError, HostErrorView};
use vstd::prelude::*;
use wasmtime::component::{Resource, ResourceTable, ResourceTableError};

verus! {

/// First bytes of a component.
pub const COMPONENT_LAYER: [u8; 8] = [0x00, 0x61, 0x73, 0x6d, 0x0d, 0x00, 0x01, 0x00];

/// Whether a binary is a component and not a plain module: its first bytes say so.
pub fn is_component_binary(bytes: &[u8]) -> (r: bool)
    ensures
        r == (bytes@.len() >= 8 && bytes@.take(8) == COMPONENT_LAYER@),
{
    if bytes.len() < 8 {
        return false;
    }
    let head = vstd::slice::slice_subrange(bytes, 0, 8);
    let layer = COMPONENT_LAYER;
    let mut i: usize = 0;
    while i < 8
        invariant
            i <= 8,
            bytes@.len() >= 8,
            head@ == bytes@.subrange(0, 8),
            layer == COMPONENT_LAYER,
            forall|k: int| 0 <= k < i ==> head@[k] == layer@[k],
        decreases 8 - i,
    {
        if head[i] != layer[i] {
            assert(bytes@.take(8)[i as int] == head@[i as int]);
            return false;
        }
        i += 1;
    }
    assert(bytes@.take(8) =~= COMPONENT_LAYER@);
    true
}

// ---- handles ----

/// A watch that a component holds.
#[derive(Debug, Clone, Copy, PartialEq, Eq, Structural)]
pub struct WatchSubscription {
    pub id: u64,
    pub closed: bool,
}

/// An upload that a component holds.
#[derive(Debug, PartialEq, Eq)]
pub struct StorageUploader {
    pub id: u64,
    pub bucket: String,
    pub object_id: Vec<u8>,
    pub finished: bool,
}

/// A download that a component holds.
#[derive(Debug, Clone, Copy, PartialEq, Eq, Structural)]
pub struct StorageDownloader {
    pub id: u64,
    pub closed: bool,
}

/// Something that a component holds.
#[derive(Debug, PartialEq, Eq)]
pub enum HostHandle {
    Subscription(WatchSubscription),
    Uploader(StorageUploader),
    Downloader(StorageDownloader),
}

/// Fault of the table of handles.
#[derive(Debug, Clone, Copy, PartialEq, Eq, Structural)]
pub enum TableFault {
    Full,
    NotPresent,
    WrongType,
    HasChildren,
}

/// Text of a fault.
pub open spec fn fault_text(fault: TableFault) -> Seq<char> {
    match fault {
        TableFault::Full => "resource table has no free keys"@,
        TableFault::NotPresent => "resource not present"@,
        TableFault::WrongType => "resource is of another type"@,
        TableFault::HasChildren => "resource has children"@,
    }
}

impl TableFault {
    /// Text of the fault.
    pub fn as_str(self) -> (r: &'static str)
        ensures
            r@ == fault_text(self),
    {
        match self {
            TableFault::Full => "resource table has no free keys",
            TableFault::NotPresent => "resource not present",
            TableFault::WrongType => "resource is of another type",
            TableFault::HasChildren => "resource has children",
        }
    }
}

/// A table of handles by number.
#[verifier::external_type_specification]
#[verifier::external_body]
pub struct ExResourceTable(wasmtime::component::ResourceTable);

/// The [`HostHandle`]s of a table by number.
pub uninterp spec fn table_handles(table: ResourceTable) -> Map<u32, HostHandle>;

/// How many [`HostHandle`]s a table can hold at once: the larger of its capacity and the places
/// it already has, without those that other values occupy.
pub uninterp spec fn table_room(table: ResourceTable) -> nat;

/// The numbers of a table that hold other values, or under which other entries hang.
pub uninterp spec fn table_foreign(table: ResourceTable) -> Set<u32>;

/// No handles.
pub open spec fn no_handles() -> Map<u32, HostHandle> {
    Map::empty()
}

/// `wasmtime::component::ResourceTable::new` with `set_max_capacity`: an empty table that holds
/// at most so many values.
#[verifier::external_body]
fn new_table(max: usize) -> (r: ResourceTable)
    ensures
        table_handles(r) == no_handles(),
        table_room(r) == max,
        table_foreign(r) == Set::<u32>::empty(),
{
    let mut table = ResourceTable::new();
    table.set_max_capacity(max);
    table
}

/// `wasmtime::component::ResourceTable::push`: takes a value in under a number that is free, unless
/// the table is full or the numbers have run out.
#[verifier::external_body]
fn table_push(table: &mut ResourceTable, handle: HostHandle) -> (r: Result<u32, TableFault>)
    ensures
        table_room(*final(table)) == table_room(*old(table)),
        table_foreign(*final(table)) == table_foreign(*old(table)),
        match r {
            Ok(rep) => !table_handles(*old(table)).dom().contains(rep) && table_handles(
                *final(table),
            ) == table_handles(*old(table)).insert(rep, handle) && table_room(*old(table))
                > table_handles(*old(table)).dom().len(),
            Err(fault) => fault == TableFault::Full && table_handles(*final(table))
                == table_handles(*old(table)) && (table_handles(*old(table)).dom().len()
                >= table_room(*old(table)) || table_handles(*old(table)).dom().len() > u32::MAX),
        },
{
    match table.push(handle) {
        Ok(resource) => Ok(resource.rep()),
        Err(ResourceTableError::Full) => Err(TableFault::Full),
        Err(ResourceTableError::NotPresent) => Err(TableFault::NotPresent),
        Err(ResourceTableError::WrongType) => Err(TableFault::WrongType),
        Err(ResourceTableError::HasChildren) => Err(TableFault::HasChildren),
    }
}

/// `wasmtime::component::ResourceTable::get`: the value under a number; a number without one, or
/// with a value of another type, is refused.
#[verifier::external_body]
fn table_get(table: &ResourceTable, rep: u32) -> (r: Result<&HostHandle, TableFault>)
    ensures
        match r {
            Ok(handle) => table_handles(*table).dom().contains(rep) && *handle == table_handles(
                *table,
            )[rep],
            Err(fault) => !table_handles(*table).dom().contains(rep) && fault == if table_foreign(
                *table,
            ).contains(rep) {
                TableFault::WrongType
            } else {
                TableFault::NotPresent
            },
        },
{
    match table.get(&Resource::<HostHandle>::new_borrow(rep)) {
        Ok(handle) => Ok(handle),
        Err(ResourceTableError::Full) => Err(TableFault::Full),
        Err(ResourceTableError::NotPresent) => Err(TableFault::NotPresent),
        Err(ResourceTableError::WrongType) => Err(TableFault::WrongType),
        Err(ResourceTableError::HasChildren) => Err(TableFault::HasChildren),
    }
}

/// `wasmtime::component::ResourceTable::get_mut`, with a new value put in the place of the one
/// under a number; a number without one, or with a value of another type, is refused.
#[verifier::external_body]
fn table_replace(table: &mut ResourceTable, rep: u32, handle: HostHandle) -> (r: Result<
    HostHandle,
    TableFault,
>)
    ensures
        table_room(*final(table)) == table_room(*old(table)),
        table_foreign(*final(table)) == table_foreign(*old(table)),
        match r {
            Ok(earlier) => table_handles(*old(table)).dom().contains(rep) && earlier
                == table_handles(*old(table))[rep] && table_handles(*final(table))
                == table_handles(*old(table)).insert(rep, handle),
            Err(fault) => !table_handles(*old(table)).dom().contains(rep) && table_handles(
                *final(table),
            ) == table_handles(*old(table)) && fault == if table_foreign(*old(table)).contains(
                rep,
            ) {
                TableFault::WrongType
            } else {
                TableFault::NotPresent
            },
        },
{
    match table.get_mut(&Resource::<HostHandle>::new_borrow(rep)) {
        Ok(slot) => Ok(std::mem::replace(slot, handle)),
        Err(ResourceTableError::Full) => Err(TableFault::Full),
        Err(ResourceTableError::NotPresent) => Err(TableFault::NotPresent),
        Err(ResourceTableError::WrongType) => Err(TableFault::WrongType),
        Err(ResourceTableError::HasChildren) => Err(TableFault::HasChildren),
    }
}

/// `wasmtime::component::ResourceTable::delete`: takes the value under a number out, unless other
/// entries hang under it.
#[verifier::external_body]
fn table_delete(table: &mut ResourceTable, rep: u32) -> (r: Result<HostHandle, TableFault>)
    requires
        table_handles(*old(table)).dom().contains(rep),
    ensures
        table_room(*final(table)) == table_room(*old(table)),
        table_foreign(*final(table)).subset_of(table_foreign(*old(table))),
        match r {
            Ok(handle) => !table_foreign(*old(table)).contains(rep) && handle == table_handles(
                *old(table),
            )[rep] && table_handles(*final(table)) == table_handles(*old(table)).remove(rep),
            Err(fault) => table_foreign(*old(table)).contains(rep) && fault
                == TableFault::HasChildren && table_handles(*final(table)) == table_handles(
                *old(table),
            ),
        },
{
    match table.delete(Resource::<HostHandle>::new_own(rep)) {
        Ok(handle) => Ok(handle),
        Err(ResourceTableError::Full) => Err(TableFault::Full),
        Err(ResourceTableError::NotPresent) => Err(TableFault::NotPresent),
        Err(ResourceTableError::WrongType) => Err(TableFault::WrongType),
        Err(ResourceTableError::HasChildren) => Err(TableFault::HasChildren),
    }
}

// ---- the handles of a component ----

/// The handles that a component holds, by number.
pub struct ComponentHandles {
    table: ResourceTable,
    order: Vec<u32>,
    max_objects: u32,
}

/// Handles by number.
pub type Handles = Map<u32, HostHandle>;

/// Whether numbers are those of some handles, in ascending order.
pub open spec fn listed(order: Seq<u32>, m: Handles) -> bool {
    &&& forall|i: int, j: int| 0 <= i < j < order.len() ==> order[i] < order[j]
    &&& forall|rep: u32| #[trigger] order.contains(rep) <==> m.dom().contains(rep)
}

/// Ascending numbers with one more.
pub open spec fn with_number(order: Seq<u32>, rep: u32) -> Seq<u32>
    decreases order.len(),
{
    if order.len() == 0 || order.last() < rep {
        order.push(rep)
    } else {
        with_number(order.drop_last(), rep).push(order.last())
    }
}

/// A handle that needs no release any more: a watch or a download is closed, an upload finished.
pub open spec fn shut(handle: HostHandle) -> HostHandle {
    match handle {
        HostHandle::Subscription(s) => HostHandle::Subscription(
            WatchSubscription { id: s.id, closed: true },
        ),
        HostHandle::Uploader(u) => HostHandle::Uploader(StorageUploader { finished: true, ..u }),
        HostHandle::Downloader(d) => HostHandle::Downloader(
            StorageDownloader { id: d.id, closed: true },
        ),
    }
}

/// Handles of which none needs a release any more.
pub open spec fn all_shut(m: Handles) -> Handles {
    Map::new(|rep: u32| m.dom().contains(rep), |rep: u32| shut(m[rep]))
}

/// A handle that cannot be used.
pub open spec fn invalid_handle(what: Seq<char>, fault: TableFault) -> HostErrorView {
    HostErrorView {
        code: SdkErrorCode::InvalidArgument,
        message: what + " handle is not valid: "@ + fault_text(fault),
    }
}

/// A handle that cannot be taken in.
pub open spec fn table_full(what: Seq<char>) -> HostErrorView {
    HostErrorView {
        code: SdkErrorCode::ResourceExhausted,
        message: what + " handle table is full (max_objects): "@ + fault_text(TableFault::Full),
    }
}

/// A watch that is already closed.
pub open spec fn watch_closed() -> HostErrorView {
    HostErrorView {
        code: SdkErrorCode::InvalidArgument,
        message: "watch subscription is already closed"@,
    }
}

/// An upload that is already committed or aborted.
pub open spec fn upload_finished() -> HostErrorView {
    HostErrorView {
        code: SdkErrorCode::NotFound,
        message: "upload session is already finished"@,
    }
}

/// A download that is already closed.
pub open spec fn download_closed() -> HostErrorView {
    HostErrorView {
        code: SdkErrorCode::InvalidArgument,
        message: "download session is already closed"@,
    }
}

/// The watch under a number.
pub open spec fn subscription_at(m: Handles, rep: u32) -> Result<WatchSubscription, TableFault> {
    if !m.dom().contains(rep) {
        Err(TableFault::NotPresent)
    } else {
        match m[rep] {
            HostHandle::Subscription(s) => Ok(s),
            _ => Err(TableFault::WrongType),
        }
    }
}

/// The upload under a number.
pub open spec fn uploader_at(m: Handles, rep: u32) -> Result<StorageUploader, TableFault> {
    if !m.dom().contains(rep) {
        Err(TableFault::NotPresent)
    } else {
        match m[rep] {
            HostHandle::Uploader(u) => Ok(u),
            _ => Err(TableFault::WrongType),
        }
    }
}

/// The download under a number.
pub open spec fn downloader_at(m: Handles, rep: u32) -> Result<StorageDownloader, TableFault> {
    if !m.dom().contains(rep) {
        Err(TableFault::NotPresent)
    } else {
        match m[rep] {
            HostHandle::Downloader(d) => Ok(d),
            _ => Err(TableFault::WrongType),
        }
    }
}

/// Ids of the watches that are still open, in the order of the given numbers.
pub open spec fn live_subscriptions(m: Handles, order: Seq<u32>) -> Seq<u64>
    decreases order.len(),
{
    if order.len() == 0 {
        Seq::empty()
    } else {
        let rest = live_subscriptions(m, order.drop_last());
        match subscription_at(m, order.last()) {
            Ok(s) => if s.closed {
                rest
            } else {
                rest.push(s.id)
            },
            Err(_) => rest,
        }
    }
}

/// Ids of the uploads that are not finished, in the order of the given numbers.
pub open spec fn live_uploads(m: Handles, order: Seq<u32>) -> Seq<u64>
    decreases order.len(),
{
    if order.len() == 0 {
        Seq::empty()
    } else {
        let rest = live_uploads(m, order.drop_last());
        match uploader_at(m, order.last()) {
            Ok(u) => if u.finished {
                rest
            } else {
                rest.push(u.id)
            },
            Err(_) => rest,
        }
    }
}

/// Ids of the downloads that are still open, in the order of the given numbers.
pub open spec fn live_downloads(m: Handles, order: Seq<u32>) -> Seq<u64>
    decreases order.len(),
{
    if order.len() == 0 {
        Seq::empty()
    } else {
        let rest = live_downloads(m, order.drop_last());
        match downloader_at(m, order.last()) {
            Ok(d) => if d.closed {
                rest
            } else {
                rest.push(d.id)
            },
            Err(_) => rest,
        }
    }
}

fn invalid(what: &str, fault: TableFault) -> (r: HostError)
    ensures
        r@ == invalid_handle(what@, fault),
{
    HostError::InvalidArgument(
        crate::text::join3(what, " handle is not valid: ", fault.as_str()),
    )
}

impl ComponentHandles {
    /// The handles by number.
    pub closed spec fn view(&self) -> Handles {
        table_handles(self.table)
    }

    /// The numbers of the handles, in ascending order.
    pub closed spec fn order(&self) -> Seq<u32> {
        self.order@
    }

    /// How many handles there can be.
    pub closed spec fn room(&self) -> nat {
        table_room(self.table)
    }

    #[verifier::type_invariant]
    closed spec fn wf(&self) -> bool {
        &&& table_foreign(self.table) == Set::<u32>::empty()
        &&& table_room(self.table) == self.max_objects
        &&& listed(self.order@, table_handles(self.table))
    }

    /// No handles, and room for so many.
    pub fn new(max_objects: u32) -> (r: Self)
        ensures
            r@ == no_handles(),
            r.order() == Seq::<u32>::empty(),
            r.room() == max_objects,
            listed(r.order(), r@),
    {
        let table = new_table(max_objects as usize);
        let order: Vec<u32> = Vec::new();
        assert(order@ =~= Seq::<u32>::empty());
        ComponentHandles { table, order, max_objects }
    }

    fn push(&mut self, handle: HostHandle) -> (r: Option<u32>)
        ensures
            final(self).room() == old(self).room(),
            listed(final(self).order(), final(self)@),
            match r {
                Some(rep) => old(self).order().len() < old(self).room() && !old(
                    self,
                )@.dom().contains(rep) && final(self)@ == old(self)@.insert(rep, handle)
                    && final(self).order() == with_number(old(self).order(), rep),
                None => old(self).order().len() >= old(self).room() && final(self)@ == old(self)@
                    && final(self).order() == old(self).order(),
            },
    {
        proof {
            use_type_invariant(&*self);
        }
        let ghost before = *self;
        let mut held = ComponentHandles::new(0);
        std::mem::swap(&mut held, self);
        let ComponentHandles { mut table, mut order, max_objects } = held;
        proof {
            lemma_listed_len(before.order@, table_handles(before.table));
        }
        match table_push(&mut table, handle) {
            Ok(rep) => {
                let mut i: usize = order.len();
                while i > 0 && order[i - 1] > rep
                    invariant
                        i <= order@.len(),
                        order@ == before.order@,
                        forall|k: int| i <= k < order@.len() ==> #[trigger] order@[k] > rep,
                    decreases i,
                {
                    i -= 1;
                }
                proof {
                    if i > 0 {
                        assert(before.order@.contains(before.order@[i - 1]));
                    }
                    lemma_inserted(before.order@, table_handles(before.table), rep, i as int, handle);
                }
                order.insert(i, rep);
                *self = ComponentHandles { table, order, max_objects };
                Some(rep)
            },
            Err(_) => {
                *self = ComponentHandles { table, order, max_objects };
                None
            },
        }
    }

    fn replace(&mut self, rep: u32, handle: HostHandle) -> (r: Option<HostHandle>)
        requires
            old(self)@.dom().contains(rep),
        ensures
            r == Some(old(self)@[rep]),
            final(self)@ == old(self)@.insert(rep, handle),
            final(self).order() == old(self).order(),
            final(self).room() == old(self).room(),
            listed(final(self).order(), final(self)@),
    {
        proof {
            use_type_invariant(&*self);
        }
        let mut held = ComponentHandles::new(0);
        std::mem::swap(&mut held, self);
        let ComponentHandles { mut table, order, max_objects } = held;
        let ghost before = table_handles(table);
        let earlier = table_replace(&mut table, rep, handle);
        assert(before.insert(rep, handle).dom() =~= before.dom());
        *self = ComponentHandles { table, order, max_objects };
        earlier.ok()
    }

    /// Takes a handle out, whatever its kind.
    fn delete(&mut self, rep: u32) -> (r: Option<HostHandle>)
        ensures
            r == if old(self)@.dom().contains(rep) {
                Some(old(self)@[rep])
            } else {
                None
            },
            final(self)@ == old(self)@.remove(rep),
            final(self).order() == old(self).order().remove_value(rep),
            final(self).room() == old(self).room(),
            listed(final(self).order(), final(self)@),
    {
        proof {
            use_type_invariant(&*self);
        }
        let ghost before = *self;
        let mut i: usize = 0;
        while i < self.order.len() && self.order[i] != rep
            invariant
                *self == before,
                i <= before.order@.len(),
                forall|k: int| 0 <= k < i ==> before.order@[k] != rep,
            decreases before.order@.len() - i,
        {
            i += 1;
        }
        if i == self.order.len() {
            proof {
                assert(!before.order@.contains(rep));
                before.order@.index_of_first_ensures(rep);
                assert(before@.remove(rep) =~= before@);
            }
            return None;
        }
        proof {
            assert(before.order@.contains(before.order@[i as int]));
            lemma_removed(before.order@, table_handles(before.table), i as int);
        }
        let mut held = ComponentHandles::new(0);
        std::mem::swap(&mut held, self);
        let ComponentHandles { mut table, mut order, max_objects } = held;
        let _ = order.remove(i);
        let gone = table_delete(&mut table, rep);
        assert(table_foreign(table) =~= Set::<u32>::empty());
        *self = ComponentHandles { table, order, max_objects };
        gone.ok()
    }

    // ---- watches ----

    /// Takes a watch in.
    pub fn add_subscription(&mut self, id: u64) -> (r: Result<u32, HostError>)
        ensures
            final(self).room() == old(self).room(),
            listed(final(self).order(), final(self)@),
            match r {
                Ok(rep) => old(self).order().len() < old(self).room() && !old(
                    self,
                )@.dom().contains(rep) && final(self)@ == old(self)@.insert(
                    rep,
                    HostHandle::Subscription(WatchSubscription { id, closed: false }),
                ) && final(self).order() == with_number(old(self).order(), rep),
                Err(e) => old(self).order().len() >= old(self).room() && e@ == table_full("watch"@)
                    && final(self)@ == old(self)@ && final(self).order() == old(self).order(),
            },
    {
        match self.push(HostHandle::Subscription(WatchSubscription { id, closed: false })) {
            Some(rep) => Ok(rep),
            None => Err(
                HostError::ResourceExhausted(
                    crate::text::join3(
                        "watch",
                        " handle table is full (max_objects): ",
                        TableFault::Full.as_str(),
                    ),
                ),
            ),
        }
    }

    fn subscription(&self, rep: u32) -> (r: Result<WatchSubscription, TableFault>)
        ensures
            r == subscription_at(self@, rep),
    {
        proof {
            use_type_invariant(self);
        }
        match table_get(&self.table, rep) {
            Ok(HostHandle::Subscription(s)) => Ok(*s),
            Ok(_) => Err(TableFault::WrongType),
            Err(fault) => Err(fault),
        }
    }

    /// Id of the watch to read from.
    pub fn next_subscription(&self, rep: u32) -> (r: Result<u64, HostError>)
        ensures
            match subscription_at(self@, rep) {
                Ok(s) => if s.closed {
                    r matches Err(e) && e@ == watch_closed()
                } else {
                    r == Ok::<u64, HostError>(s.id)
                },
                Err(fault) => r matches Err(e) && e@ == invalid_handle(
                    "watch subscription"@,
                    fault,
                ),
            },
    {
        match self.subscription(rep) {
            Ok(s) => {
                if s.closed {
                    Err(
                        HostError::InvalidArgument(
                            "watch subscription is already closed".to_owned(),
                        ),
                    )
                } else {
                    Ok(s.id)
                }
            },
            Err(fault) => Err(invalid("watch subscription", fault)),
        }
    }

    /// Closes a watch, and returns its id where it has to be released; closing it again is
    /// harmless.
    pub fn close_subscription(&mut self, rep: u32) -> (r: Result<Option<u64>, HostError>)
        ensures
            final(self).room() == old(self).room(),
            listed(final(self).order(), final(self)@),
            final(self).order() == old(self).order(),
            match subscription_at(old(self)@, rep) {
                Ok(s) => if s.closed {
                    r == Ok::<Option<u64>, HostError>(None) && final(self)@ == old(self)@
                } else {
                    r == Ok::<Option<u64>, HostError>(Some(s.id)) && final(self)@ == old(
                        self,
                    )@.insert(
                        rep,
                        HostHandle::Subscription(WatchSubscription { id: s.id, closed: true }),
                    )
                },
                Err(fault) => (r matches Err(e) && e@ == invalid_handle(
                    "watch subscription"@,
                    fault,
                )) && final(self)@ == old(self)@,
            },
    {
        proof {
            use_type_invariant(&*self);
        }
        match self.subscription(rep) {
            Ok(s) => {
                if s.closed {
                    Ok(None)
                } else {
                    let _ = self.replace(
                        rep,
                        HostHandle::Subscription(WatchSubscription { id: s.id, closed: true }),
                    );
                    Ok(Some(s.id))
                }
            },
            Err(fault) => Err(invalid("watch subscription", fault)),
        }
    }

    /// Drops a watch, and returns its id where it has to be released. A handle of another kind
    /// under that number is taken out too, and nothing is released for it.
    pub fn drop_subscription(&mut self, rep: u32) -> (r: Option<u64>)
        ensures
            final(self).room() == old(self).room(),
            listed(final(self).order(), final(self)@),
            final(self)@ == old(self)@.remove(rep),
            final(self).order() == old(self).order().remove_value(rep),
            r == match subscription_at(old(self)@, rep) {
                Ok(s) => if s.closed {
                    None
                } else {
                    Some(s.id)
                },
                Err(_) => None,
            },
    {
        match self.delete(rep) {
            Some(HostHandle::Subscription(s)) => {
                if s.closed {
                    None
                } else {
                    Some(s.id)
                }
            },
            _ => None,
        }
    }

    // ---- uploads ----

    /// Takes an upload in.
    pub fn add_uploader(&mut self, id: u64, bucket: String, object_id: Vec<u8>) -> (r: Result<
        u32,
        HostError,
    >)
        ensures
            final(self).room() == old(self).room(),
            listed(final(self).order(), final(self)@),
            match r {
                Ok(rep) => old(self).order().len() < old(self).room() && !old(
                    self,
                )@.dom().contains(rep) && final(self)@ == old(self)@.insert(
                    rep,
                    HostHandle::Uploader(
                        StorageUploader { id, bucket, object_id, finished: false },
                    ),
                ) && final(self).order() == with_number(old(self).order(), rep),
                Err(e) => old(self).order().len() >= old(self).room() && e@ == table_full(
                    "storage"@,
                ) && final(self)@ == old(self)@ && final(self).order() == old(self).order(),
            },
    {
        match self.push(
            HostHandle::Uploader(StorageUploader { id, bucket, object_id, finished: false }),
        ) {
            Some(rep) => Ok(rep),
            None => Err(
                HostError::ResourceExhausted(
                    crate::text::join3(
                        "storage",
                        " handle table is full (max_objects): ",
                        TableFault::Full.as_str(),
                    ),
                ),
            ),
        }
    }

    fn uploader(&self, rep: u32) -> (r: Result<&StorageUploader, TableFault>)
        ensures
            match r {
                Ok(u) => uploader_at(self@, rep) == Ok::<StorageUploader, TableFault>(*u),
                Err(fault) => uploader_at(self@, rep) == Err::<StorageUploader, TableFault>(fault),
            },
    {
        proof {
            use_type_invariant(self);
        }
        match table_get(&self.table, rep) {
            Ok(HostHandle::Uploader(u)) => Ok(u),
            Ok(_) => Err(TableFault::WrongType),
            Err(fault) => Err(fault),
        }
    }

    /// Id of the upload to write to.
    pub fn write_uploader(&self, rep: u32) -> (r: Result<u64, HostError>)
        ensures
            match uploader_at(self@, rep) {
                Ok(u) => if u.finished {
                    r matches Err(e) && e@ == upload_finished()
                } else {
                    r == Ok::<u64, HostError>(u.id)
                },
                Err(fault) => r matches Err(e) && e@ == invalid_handle("upload"@, fault),
            },
    {
        match self.uploader(rep) {
            Ok(u) => {
                if u.finished {
                    Err(HostError::NotFound("upload session is already finished".to_owned()))
                } else {
                    Ok(u.id)
                }
            },
            Err(fault) => Err(invalid("upload", fault)),
        }
    }

    /// Marks an upload as finished and hands its id and its object out.
    fn finish(&mut self, rep: u32) -> (r: Option<(u64, String, Vec<u8>)>)
        requires
            uploader_at(old(self)@, rep) is Ok,
        ensures
            final(self).room() == old(self).room(),
            listed(final(self).order(), final(self)@),
            final(self).order() == old(self).order(),
            final(self)@ == finished_at(old(self)@, rep),
            ({
                let u = uploader_at(old(self)@, rep)->Ok_0;
                r matches Some(out) && out.0 == u.id && out.1@ == u.bucket@ && out.2@ == u.object_id@
            }),
    {
        let ghost before = self@;
        let taken = self.replace(
            rep,
            HostHandle::Subscription(WatchSubscription { id: 0, closed: true }),
        );
        match taken {
            Some(HostHandle::Uploader(u)) => {
                let out = (u.id, u.bucket.clone(), u.object_id.clone());
                let done = StorageUploader {
                    id: u.id,
                    bucket: u.bucket,
                    object_id: u.object_id,
                    finished: true,
                };
                let _ = self.replace(rep, HostHandle::Uploader(done));
                assert(self@ =~= finished_at(before, rep));
                Some(out)
            },
            _ => None,
        }
    }

    /// Commits an upload: its id and its object are handed out, once.
    pub fn commit_uploader(&mut self, rep: u32) -> (r: Result<(u64, String, Vec<u8>), HostError>)
        ensures
            final(self).room() == old(self).room(),
            listed(final(self).order(), final(self)@),
            final(self).order() == old(self).order(),
            match uploader_at(old(self)@, rep) {
                Ok(u) => if u.finished {
                    (r matches Err(e) && e@ == upload_finished()) && final(self)@ == old(self)@
                } else {
                    (r matches Ok(out) && out.0 == u.id && out.1@ == u.bucket@ && out.2@
                        == u.object_id@) && final(self)@ == finished_at(old(self)@, rep)
                },
                Err(fault) => (r matches Err(e) && e@ == invalid_handle("upload"@, fault))
                    && final(self)@ == old(self)@,
            },
    {
        proof {
            use_type_invariant(&*self);
        }
        let _ = self.write_uploader(rep)?;
        match self.finish(rep) {
            Some(out) => Ok(out),
            None => Err(HostError::NotFound("upload session is already finished".to_owned())),
        }
    }

    /// Aborts an upload, and returns its id where it has to be aborted; aborting it again is
    /// harmless.
    pub fn abort_uploader(&mut self, rep: u32) -> (r: Result<Option<u64>, HostError>)
        ensures
            final(self).room() == old(self).room(),
            listed(final(self).order(), final(self)@),
            final(self).order() == old(self).order(),
            match uploader_at(old(self)@, rep) {
                Ok(u) => if u.finished {
                    r == Ok::<Option<u64>, HostError>(None) && final(self)@ == old(self)@
                } else {
                    r == Ok::<Option<u64>, HostError>(Some(u.id)) && final(self)@ == finished_at(
                        old(self)@,
                        rep,
                    )
                },
                Err(fault) => (r matches Err(e) && e@ == invalid_handle("upload"@, fault))
                    && final(self)@ == old(self)@,
            },
    {
        proof {
            use_type_invariant(&*self);
        }
        let finished = match self.uploader(rep) {
            Ok(u) => u.finished,
            Err(fault) => {
                return Err(invalid("upload", fault));
            },
        };
        if finished {
            return Ok(None);
        }
        match self.finish(rep) {
            Some(out) => Ok(Some(out.0)),
            None => Ok(None),
        }
    }

    /// Drops an upload, and returns its id where it has to be aborted. A handle of another kind
    /// under that number is taken out too, and nothing is released for it.
    pub fn drop_uploader(&mut self, rep: u32) -> (r: Option<u64>)
        ensures
            final(self).room() == old(self).room(),
            listed(final(self).order(), final(self)@),
            final(self)@ == old(self)@.remove(rep),
            final(self).order() == old(self).order().remove_value(rep),
            r == match uploader_at(old(self)@, rep) {
                Ok(u) => if u.finished {
                    None
                } else {
                    Some(u.id)
                },
                Err(_) => None,
            },
    {
        match self.delete(rep) {
            Some(HostHandle::Uploader(u)) => {
                if u.finished {
                    None
                } else {
                    Some(u.id)
                }
            },
            _ => None,
        }
    }

    // ---- downloads ----

    /// Takes a download in.
    pub fn add_downloader(&mut self, id: u64) -> (r: Result<u32, HostError>)
        ensures
            final(self).room() == old(self).room(),
            listed(final(self).order(), final(self)@),
            match r {
                Ok(rep) => old(self).order().len() < old(self).room() && !old(
                    self,
                )@.dom().contains(rep) && final(self)@ == old(self)@.insert(
                    rep,
                    HostHandle::Downloader(StorageDownloader { id, closed: false }),
                ) && final(self).order() == with_number(old(self).order(), rep),
                Err(e) => old(self).order().len() >= old(self).room() && e@ == table_full(
                    "storage"@,
                ) && final(self)@ == old(self)@ && final(self).order() == old(self).order(),
            },
    {
        match self.push(HostHandle::Downloader(StorageDownloader { id, closed: false })) {
            Some(rep) => Ok(rep),
            None => Err(
                HostError::ResourceExhausted(
                    crate::text::join3(
                        "storage",
                        " handle table is full (max_objects): ",
                        TableFault::Full.as_str(),
                    ),
                ),
            ),
        }
    }

    fn downloader(&self, rep: u32) -> (r: Result<StorageDownloader, TableFault>)
        ensures
            r == downloader_at(self@, rep),
    {
        proof {
            use_type_invariant(self);
        }
        match table_get(&self.table, rep) {
            Ok(HostHandle::Downloader(d)) => Ok(*d),
            Ok(_) => Err(TableFault::WrongType),
            Err(fault) => Err(fault),
        }
    }

    /// Id of the download to read from.
    pub fn read_downloader(&self, rep: u32) -> (r: Result<u64, HostError>)
        ensures
            match downloader_at(self@, rep) {
                Ok(d) => if d.closed {
                    r matches Err(e) && e@ == download_closed()
                } else {
                    r == Ok::<u64, HostError>(d.id)
                },
                Err(fault) => r matches Err(e) && e@ == invalid_handle("download"@, fault),
            },
    {
        match self.downloader(rep) {
            Ok(d) => {
                if d.closed {
                    Err(HostError::InvalidArgument("download session is already closed".to_owned()))
                } else {
                    Ok(d.id)
                }
            },
            Err(fault) => Err(invalid("download", fault)),
        }
    }

    /// Closes a download, and returns its id where it has to be closed; closing it again is
    /// harmless.
    pub fn close_downloader(&mut self, rep: u32) -> (r: Result<Option<u64>, HostError>)
        ensures
            final(self).room() == old(self).room(),
            listed(final(self).order(), final(self)@),
            final(self).order() == old(self).order(),
            match downloader_at(old(self)@, rep) {
                Ok(d) => if d.closed {
                    r == Ok::<Option<u64>, HostError>(None) && final(self)@ == old(self)@
                } else {
                    r == Ok::<Option<u64>, HostError>(Some(d.id)) && final(self)@ == old(
                        self,
                    )@.insert(
                        rep,
                        HostHandle::Downloader(StorageDownloader { id: d.id, closed: true }),
                    )
                },
                Err(fault) => (r matches Err(e) && e@ == invalid_handle("download"@, fault))
                    && final(self)@ == old(self)@,
            },
    {
        proof {
            use_type_invariant(&*self);
        }
        match self.downloader(rep) {
            Ok(d) => {
                if d.closed {
                    Ok(None)
                } else {
                    let _ = self.replace(
                        rep,
                        HostHandle::Downloader(StorageDownloader { id: d.id, closed: true }),
                    );
                    Ok(Some(d.id))
                }
            },
            Err(fault) => Err(invalid("download", fault)),
        }
    }

    /// Drops a download, and returns its id where it has to be closed. A handle of another kind
    /// under that number is taken out too, and nothing is released for it.
    pub fn drop_downloader(&mut self, rep: u32) -> (r: Option<u64>)
        ensures
            final(self).room() == old(self).room(),
            listed(final(self).order(), final(self)@),
            final(self)@ == old(self)@.remove(rep),
            final(self).order() == old(self).order().remove_value(rep),
            r == match downloader_at(old(self)@, rep) {
                Ok(d) => if d.closed {
                    None
                } else {
                    Some(d.id)
                },
                Err(_) => None,
            },
    {
        match self.delete(rep) {
            Some(HostHandle::Downloader(d)) => {
                if d.closed {
                    None
                } else {
                    Some(d.id)
                }
            },
            _ => None,
        }
    }

    // ---- the end of a component ----

    /// Ids of the watches, uploads and downloads that are still open, by ascending number. All of
    /// them are marked as closed or finished, so that a later drop does not release them again.
    pub fn live_handle_ids(&mut self) -> (r: (Vec<u64>, Vec<u64>, Vec<u64>))
        ensures
            listed(old(self).order(), old(self)@),
            forall|rep: u32, id: u64| #[trigger]
                open_subscription(old(self)@, rep, id) ==> r.0@.contains(id),
            forall|rep: u32, id: u64| #[trigger]
                open_upload(old(self)@, rep, id) ==> r.1@.contains(id),
            forall|rep: u32, id: u64| #[trigger]
                open_download(old(self)@, rep, id) ==> r.2@.contains(id),
            r.0@ == live_subscriptions(old(self)@, old(self).order()),
            r.1@ == live_uploads(old(self)@, old(self).order()),
            r.2@ == live_downloads(old(self)@, old(self).order()),
            final(self)@ == all_shut(old(self)@),
            final(self)@.dom() == old(self)@.dom(),
            final(self).order() == old(self).order(),
            final(self).room() == old(self).room(),
            listed(final(self).order(), final(self)@),
    {
        let mut subs: Vec<u64> = Vec::new();
        let mut uploads: Vec<u64> = Vec::new();
        let mut downloads: Vec<u64> = Vec::new();
        let mut i: usize = 0;
        let ghost all = self.order();
        let ghost m = self@;
        proof {
            use_type_invariant(&*self);
        }
        while i < self.order.len()
            invariant
                i <= all.len(),
                all == self.order(),
                self.room() == old(self).room(),
                listed(all, m),
                self@.dom() == m.dom(),
                forall|k: int| 0 <= k < i ==> self@[#[trigger] all[k]] == shut(m[all[k]]),
                forall|k: int| i <= k < all.len() ==> self@[#[trigger] all[k]] == m[all[k]],
                subs@ == live_subscriptions(m, all.take(i as int)),
                uploads@ == live_uploads(m, all.take(i as int)),
                downloads@ == live_downloads(m, all.take(i as int)),
            decreases all.len() - i,
        {
            let rep: u32 = self.order[i];
            assert(all.take(i + 1).drop_last() =~= all.take(i as int));
            assert(all.take(i + 1).last() == rep);
            assert(all[i as int] == rep);
            assert(all.contains(rep));
            let ghost before = self@;
            if let Ok(Some(id)) = self.close_subscription(rep) {
                subs.push(id);
            } else if let Ok(Some(id)) = self.abort_uploader(rep) {
                uploads.push(id);
            } else if let Ok(Some(id)) = self.close_downloader(rep) {
                downloads.push(id);
            }
            assert(self@.dom() =~= m.dom());
            assert(self@[rep] == shut(m[rep]));
            assert forall|k: int| 0 <= k < all.len() && k != i implies self@[#[trigger] all[k]]
                == before[all[k]] by {
                assert(all[k] != rep);
            }
            i += 1;
        }
        proof {
            assert(all.take(all.len() as int) =~= all);
            assert forall|rep: u32| m.dom().contains(rep) implies #[trigger] self@[rep] == shut(
                m[rep],
            ) by {
                assert(all.contains(rep));
                let k = choose|k: int| 0 <= k < all.len() && all[k] == rep;
                assert(self@[all[k]] == shut(m[all[k]]));
            }
            assert(self@ =~= all_shut(m));
            law_nothing_outlives_a_component(m, all);
        }
        (subs, uploads, downloads)
    }

    /// Empties the table and hands the ids out that have to be released: those that the component
    /// did not release itself.
    pub fn release_handles(&mut self) -> (r: (Vec<u64>, Vec<u64>, Vec<u64>))
        ensures
            listed(old(self).order(), old(self)@),
            forall|rep: u32, id: u64| #[trigger]
                open_subscription(old(self)@, rep, id) ==> r.0@.contains(id),
            forall|rep: u32, id: u64| #[trigger]
                open_upload(old(self)@, rep, id) ==> r.1@.contains(id),
            forall|rep: u32, id: u64| #[trigger]
                open_download(old(self)@, rep, id) ==> r.2@.contains(id),
            r.0@ == live_subscriptions(old(self)@, old(self).order()),
            r.1@ == live_uploads(old(self)@, old(self).order()),
            r.2@ == live_downloads(old(self)@, old(self).order()),
            final(self)@ == no_handles(),
            final(self).order() == Seq::<u32>::empty(),
            final(self).room() == old(self).room(),
            listed(final(self).order(), final(self)@),
    {
        let ids = self.live_handle_ids();
        proof {
            use_type_invariant(&*self);
        }
        *self = ComponentHandles::new(self.max_objects);
        ids
    }
}

/// Handles with an upload marked as finished.
pub open spec fn finished_at(m: Handles, rep: u32) -> Handles {
    let u = uploader_at(m, rep)->Ok_0;
    m.insert(
        rep,
        HostHandle::Uploader(
            StorageUploader {
                id: u.id,
                bucket: u.bucket,
                object_id: u.object_id,
                finished: true,
            },
        ),
    )
}

proof fn lemma_listed_len(order: Seq<u32>, m: Handles)
    requires
        listed(order, m),
    ensures
        m.dom().len() == order.len(),
        m.dom().finite(),
{
    order.unique_seq_to_set();
    assert(order.to_set() =~= m.dom());
}

proof fn lemma_inserted(order: Seq<u32>, m: Handles, rep: u32, at: int, handle: HostHandle)
    requires
        listed(order, m),
        !m.dom().contains(rep),
        0 <= at <= order.len(),
        at > 0 ==> order[at - 1] < rep,
        forall|k: int| at <= k < order.len() ==> #[trigger] order[k] > rep,
    ensures
        order.insert(at, rep) == with_number(order, rep),
        listed(order.insert(at, rep), m.insert(rep, handle)),
{
    let after = order.insert(at, rep);
    lemma_place(order, rep, at);
    assert forall|x: u32| #[trigger] after.contains(x) <==> m.insert(rep, handle).dom().contains(
        x,
    ) by {
        if after.contains(x) && x != rep {
            let i = choose|i: int| 0 <= i < after.len() && after[i] == x;
            let k = if i < at {
                i
            } else {
                i - 1
            };
            assert(order[k] == x);
            assert(order.contains(x));
        }
        if order.contains(x) {
            let k = choose|k: int| 0 <= k < order.len() && order[k] == x;
            let i = if k < at {
                k
            } else {
                k + 1
            };
            assert(after[i] == x);
        }
        assert(after[at] == rep);
    }
}

proof fn lemma_place(order: Seq<u32>, rep: u32, at: int)
    requires
        0 <= at <= order.len(),
        at > 0 ==> order[at - 1] < rep,
        forall|k: int| at <= k < order.len() ==> #[trigger] order[k] > rep,
    ensures
        order.insert(at, rep) == with_number(order, rep),
    decreases order.len(),
{
    if at == order.len() {
        assert(order.insert(at, rep) =~= order.push(rep));
    } else {
        lemma_place(order.drop_last(), rep, at);
        assert(order.insert(at, rep) =~= order.drop_last().insert(at, rep).push(order.last()));
    }
}

proof fn lemma_removed(order: Seq<u32>, m: Handles, at: int)
    requires
        listed(order, m),
        0 <= at < order.len(),
    ensures
        order.remove(at) == order.remove_value(order[at]),
        listed(order.remove(at), m.remove(order[at])),
{
    let rep = order[at];
    let after = order.remove(at);
    order.index_of_first_ensures(rep);
    assert(order.index_of_first(rep) == Some(at));
    assert(order.remove_value(rep) =~= after);
    assert forall|x: u32| #[trigger] after.contains(x) <==> m.remove(rep).dom().contains(x) by {
        if after.contains(x) {
            let i = choose|i: int| 0 <= i < after.len() && after[i] == x;
            let k = if i < at {
                i
            } else {
                i + 1
            };
            assert(order[k] == x);
            assert(order.contains(x));
        }
        if order.contains(x) && x != rep {
            let k = choose|k: int| 0 <= k < order.len() && order[k] == x;
            let i = if k < at {
                k
            } else {
                k - 1
            };
            assert(after[i] == x);
        }
    }
}

/// The numbers of handles are determined by the handles: there is one way to list them.
pub proof fn law_handles_have_one_listing(a: Seq<u32>, b: Seq<u32>, m: Handles)
    requires
        listed(a, m),
        listed(b, m),
    ensures
        a == b,
    decreases a.len(),
{
    lemma_listed_len(a, m);
    lemma_listed_len(b, m);
    if a.len() > 0 {
        assert(a.contains(a.last()) && b.contains(b.last()));
        let i = choose|i: int| 0 <= i < a.len() && a[i] == b.last();
        let j = choose|j: int| 0 <= j < b.len() && b[j] == a.last();
        assert(a.contains(b.last()) && b.contains(a.last()));
        assert(a.last() == b.last());
        lemma_removed(a, m, a.len() - 1);
        lemma_removed(b, m, b.len() - 1);
        assert(a.remove(a.len() - 1) =~= a.drop_last());
        assert(b.remove(b.len() - 1) =~= b.drop_last());
        law_handles_have_one_listing(a.drop_last(), b.drop_last(), m.remove(a.last()));
        assert(a =~= a.drop_last().push(a.last()));
        assert(b =~= b.drop_last().push(b.last()));
    }
}

/// What was listed for release is not listed again: a second listing finds nothing open.
pub proof fn law_nothing_is_listed_twice(m: Handles, order: Seq<u32>)
    ensures
        live_subscriptions(all_shut(m), order) == Seq::<u64>::empty(),
        live_uploads(all_shut(m), order) == Seq::<u64>::empty(),
        live_downloads(all_shut(m), order) == Seq::<u64>::empty(),
    decreases order.len(),
{
    if order.len() > 0 {
        law_nothing_is_listed_twice(m, order.drop_last());
    }
}

/// What a component leaves open when it ends is released: the listing of its handles misses none.
pub proof fn law_nothing_outlives_a_component(m: Handles, order: Seq<u32>)
    requires
        listed(order, m),
    ensures
        forall|rep: u32, id: u64| #[trigger]
            open_subscription(m, rep, id) ==> live_subscriptions(m, order).contains(id),
        forall|rep: u32, id: u64| #[trigger]
            open_upload(m, rep, id) ==> live_uploads(m, order).contains(id),
        forall|rep: u32, id: u64| #[trigger]
            open_download(m, rep, id) ==> live_downloads(m, order).contains(id),
{
    assert forall|rep: u32, id: u64| #[trigger] open_subscription(m, rep, id) implies live_subscriptions(
        m,
        order,
    ).contains(id) by {
        assert(order.contains(rep));
        lemma_released(m, order, rep);
    }
    assert forall|rep: u32, id: u64| #[trigger] open_upload(m, rep, id) implies live_uploads(
        m,
        order,
    ).contains(id) by {
        assert(order.contains(rep));
        lemma_released(m, order, rep);
    }
    assert forall|rep: u32, id: u64| #[trigger] open_download(m, rep, id) implies live_downloads(
        m,
        order,
    ).contains(id) by {
        assert(order.contains(rep));
        lemma_released(m, order, rep);
    }
}

proof fn lemma_released(m: Handles, order: Seq<u32>, rep: u32)
    requires
        order.contains(rep),
    ensures
        subscription_at(m, rep) matches Ok(s) ==> !s.closed ==> live_subscriptions(
            m,
            order,
        ).contains(s.id),
        uploader_at(m, rep) matches Ok(u) ==> !u.finished ==> live_uploads(m, order).contains(u.id),
        downloader_at(m, rep) matches Ok(d) ==> !d.closed ==> live_downloads(m, order).contains(
            d.id,
        ),
    decreases order.len(),
{
    broadcast use vstd::seq_lib::group_seq_properties;

    let init = order.drop_last();
    if order.last() == rep {
        if let Ok(s) = subscription_at(m, rep) {
            if !s.closed {
                assert(live_subscriptions(m, order).last() == s.id);
            }
        }
        if let Ok(u) = uploader_at(m, rep) {
            if !u.finished {
                assert(live_uploads(m, order).last() == u.id);
            }
        }
        if let Ok(d) = downloader_at(m, rep) {
            if !d.closed {
                assert(live_downloads(m, order).last() == d.id);
            }
        }
    } else {
        let i = choose|i: int| 0 <= i < order.len() && order[i] == rep;
        assert(init[i] == rep);
        lemma_released(m, init, rep);
    }
}

/// Whether a handle is an open watch with an id.
pub open spec fn open_subscription(m: Handles, rep: u32, id: u64) -> bool {
    subscription_at(m, rep) matches Ok(s) && s.id == id && !s.closed
}

/// Whether a handle is an unfinished upload with an id.
pub open spec fn open_upload(m: Handles, rep: u32, id: u64) -> bool {
    uploader_at(m, rep) matches Ok(u) && u.id == id && !u.finished
}

/// Whether a handle is an open download with an id.
pub open spec fn open_download(m: Handles, rep: u32, id: u64) -> bool {
    downloader_at(m, rep) matches Ok(d) && d.id == id && !d.closed
}

/// What a component closed, committed or aborted is not released a second time: every id that is
/// released belongs to a handle that is still open.
pub proof fn law_nothing_is_released_twice(m: Handles, order: Seq<u32>, id: u64)
    ensures
        live_subscriptions(m, order).contains(id) ==> exists|rep: u32|
            order.contains(rep) && #[trigger] open_subscription(m, rep, id),
        live_uploads(m, order).contains(id) ==> exists|rep: u32|
            order.contains(rep) && #[trigger] open_upload(m, rep, id),
        live_downloads(m, order).contains(id) ==> exists|rep: u32|
            order.contains(rep) && #[trigger] open_download(m, rep, id),
    decreases order.len(),
{
    if order.len() > 0 {
        let init = order.drop_last();
        let last = order.last();
        law_nothing_is_released_twice(m, init, id);
        assert(order[order.len() - 1] == last);
        assert forall|rep: u32| #[trigger] init.contains(rep) implies order.contains(rep) by {
            let i = choose|i: int| 0 <= i < init.len() && init[i] == rep;
            assert(order[i] == rep);
        }
        if live_subscriptions(m, order).contains(id) {
            lemma_pushed_or_before(
                live_subscriptions(m, init),
                live_subscriptions(m, order),
                id,
            );
            if !live_subscriptions(m, init).contains(id) {
                assert(open_subscription(m, last, id));
            }
        }
        if live_uploads(m, order).contains(id) {
            lemma_pushed_or_before(live_uploads(m, init), live_uploads(m, order), id);
            if !live_uploads(m, init).contains(id) {
                assert(open_upload(m, last, id));
            }
        }
        if live_downloads(m, order).contains(id) {
            lemma_pushed_or_before(live_downloads(m, init), live_downloads(m, order), id);
            if !live_downloads(m, init).contains(id) {
                assert(open_download(m, last, id));
            }
        }
    }
}

proof fn lemma_pushed_or_before(before: Seq<u64>, after: Seq<u64>, id: u64)
    requires
        after.contains(id),
        after == before || (after.len() == before.len() + 1 && after.drop_last() =~= before),
    ensures
        before.contains(id) || (after.len() == before.len() + 1 && after.last() == id),
{
    let i = choose|i: int| 0 <= i < after.len() && after[i] == id;
    if i < before.len() {
        if after != before {
            assert(after.drop_last()[i] == id);
        }
        assert(before[i] == id);
    }
}

} // verus!
