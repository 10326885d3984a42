//! What plugins leave open with the cluster: it is found by its plugin alone, ended once, and released
//! with the plugin.
use crate::plugin::sdk::backend::{SdkError, SdkResult};
use crate::plugin::sdk::bind::{declared_size_to_js, upload_size};
use crate::plugin::sdk::coord::{
    law_leases_are_told_apart, upload_finished, CoordSdkBackend, LeaseRevocation,
};
use crate::plugin::sdk::js_value::{JsFault, JsValue};
use crate::text;
use vstd::prelude::*;

verus! {

/// Whether two look-ups found the same, or both nothing.
pub open spec fn same_find<T>(a: SdkResult<&T>, b: SdkResult<&T>) -> bool {
    match (a, b) {
        (Ok(x), Ok(y)) => *x == *y,
        (Err(_), Err(_)) => true,
        _ => false,
    }
}

/// A watch is found by the plugin that opened it, under the number that it got; no other one is
/// touched. The next watch gets the next number.
pub proof fn law_opened_watches_are_found<K, W, U, R>(
    b: &mut CoordSdkBackend<K, W, U, R>,
    plugin: &str,
    held: W,
    id: u64,
    before: CoordSdkBackend<K, W, U, R>,
    after: CoordSdkBackend<K, W, U, R>,
    found: SdkResult<&W>,
    other: &str,
    number: u64,
    was: SdkResult<&W>,
    now: SdkResult<&W>,
    again: &mut CoordSdkBackend<K, W, U, R>,
    more: W,
    next: u64,
)
    requires
        call_ensures(CoordSdkBackend::<K, W, U, R>::watch_opened, (b, plugin, held), id),
        before == *old(b),
        after == *final(b),
        call_ensures(CoordSdkBackend::<K, W, U, R>::watch, (&after, plugin, id), found),
        call_ensures(CoordSdkBackend::<K, W, U, R>::watch, (&before, other, number), was),
        call_ensures(CoordSdkBackend::<K, W, U, R>::watch, (&after, other, number), now),
        *old(again) == after,
        call_ensures(CoordSdkBackend::<K, W, U, R>::watch_opened, (again, other, more), next),
    ensures
        found matches Ok(x) && *x == held,
        other@ != plugin@ || number != id ==> same_find(was, now),
        id < u64::MAX ==> next == id + 1,
        id == u64::MAX ==> next == 0,
{
}

/// A watch is ended once: it is handed out, and after that it is not found any more; no other one is
/// touched.
pub proof fn law_watches_are_ended_once<K, W, U, R>(
    b: &mut CoordSdkBackend<K, W, U, R>,
    plugin: &str,
    id: u64,
    r: Option<W>,
    before: CoordSdkBackend<K, W, U, R>,
    had: SdkResult<&W>,
    after: CoordSdkBackend<K, W, U, R>,
    found: SdkResult<&W>,
    other: &str,
    number: u64,
    was: SdkResult<&W>,
    now: SdkResult<&W>,
)
    requires
        call_ensures(CoordSdkBackend::<K, W, U, R>::watch_close, (b, plugin, id), r),
        before == *old(b),
        after == *final(b),
        call_ensures(CoordSdkBackend::<K, W, U, R>::watch, (&before, plugin, id), had),
        call_ensures(CoordSdkBackend::<K, W, U, R>::watch, (&after, plugin, id), found),
        call_ensures(CoordSdkBackend::<K, W, U, R>::watch, (&before, other, number), was),
        call_ensures(CoordSdkBackend::<K, W, U, R>::watch, (&after, other, number), now),
    ensures
        had matches Ok(x) ==> r == Some(*x),
        had is Err ==> r is None,
        found matches Err(e) && e.code is NotFound && e.message@ == "watch subscription "@ + text::decimal(
            id as nat,
        ) + " not found for plugin '"@ + plugin@ + "'"@,
        other@ != plugin@ || number != id ==> same_find(was, now),
{
}

/// An upload is found by the plugin that opened it, under the number that it got; no other one is
/// touched. The next upload gets the next number.
pub proof fn law_opened_uploads_are_found<K, W, U, R>(
    b: &mut CoordSdkBackend<K, W, U, R>,
    plugin: &str,
    held: U,
    id: u64,
    before: CoordSdkBackend<K, W, U, R>,
    after: CoordSdkBackend<K, W, U, R>,
    found: SdkResult<&U>,
    other: &str,
    number: u64,
    was: SdkResult<&U>,
    now: SdkResult<&U>,
    again: &mut CoordSdkBackend<K, W, U, R>,
    more: U,
    next: u64,
)
    requires
        call_ensures(CoordSdkBackend::<K, W, U, R>::upload_opened, (b, plugin, held), id),
        before == *old(b),
        after == *final(b),
        call_ensures(CoordSdkBackend::<K, W, U, R>::upload_session, (&after, plugin, id), found),
        call_ensures(CoordSdkBackend::<K, W, U, R>::upload_session, (&before, other, number), was),
        call_ensures(CoordSdkBackend::<K, W, U, R>::upload_session, (&after, other, number), now),
        *old(again) == after,
        call_ensures(CoordSdkBackend::<K, W, U, R>::upload_opened, (again, other, more), next),
    ensures
        found matches Ok(x) && *x == held,
        other@ != plugin@ || number != id ==> same_find(was, now),
        id < u64::MAX ==> next == id + 1,
        id == u64::MAX ==> next == 0,
{
}

/// An upload is ended once: it is handed out, and after that it is not found any more; no other one is
/// touched.
pub proof fn law_uploads_are_ended_once<K, W, U, R>(
    b: &mut CoordSdkBackend<K, W, U, R>,
    plugin: &str,
    id: u64,
    r: Option<U>,
    before: CoordSdkBackend<K, W, U, R>,
    had: SdkResult<&U>,
    after: CoordSdkBackend<K, W, U, R>,
    found: SdkResult<&U>,
    other: &str,
    number: u64,
    was: SdkResult<&U>,
    now: SdkResult<&U>,
)
    requires
        call_ensures(CoordSdkBackend::<K, W, U, R>::storage_abort_write, (b, plugin, id), r),
        before == *old(b),
        after == *final(b),
        call_ensures(CoordSdkBackend::<K, W, U, R>::upload_session, (&before, plugin, id), had),
        call_ensures(CoordSdkBackend::<K, W, U, R>::upload_session, (&after, plugin, id), found),
        call_ensures(CoordSdkBackend::<K, W, U, R>::upload_session, (&before, other, number), was),
        call_ensures(CoordSdkBackend::<K, W, U, R>::upload_session, (&after, other, number), now),
    ensures
        had matches Ok(x) ==> r == Some(*x),
        had is Err ==> r is None,
        found matches Err(e) && e.code is NotFound && e.message@ == "storage upload session "@ + text::decimal(
            id as nat,
        ) + " not found"@,
        other@ != plugin@ || number != id ==> same_find(was, now),
{
}

/// A download is found by the plugin that opened it, under the number that it got; no other one is
/// touched. The next download gets the next number.
pub proof fn law_opened_downloads_are_found<K, W, U, R>(
    b: &mut CoordSdkBackend<K, W, U, R>,
    plugin: &str,
    held: R,
    id: u64,
    before: CoordSdkBackend<K, W, U, R>,
    after: CoordSdkBackend<K, W, U, R>,
    found: SdkResult<&R>,
    other: &str,
    number: u64,
    was: SdkResult<&R>,
    now: SdkResult<&R>,
    again: &mut CoordSdkBackend<K, W, U, R>,
    more: R,
    next: u64,
)
    requires
        call_ensures(CoordSdkBackend::<K, W, U, R>::read_opened, (b, plugin, held), id),
        before == *old(b),
        after == *final(b),
        call_ensures(CoordSdkBackend::<K, W, U, R>::read_session, (&after, plugin, id), found),
        call_ensures(CoordSdkBackend::<K, W, U, R>::read_session, (&before, other, number), was),
        call_ensures(CoordSdkBackend::<K, W, U, R>::read_session, (&after, other, number), now),
        *old(again) == after,
        call_ensures(CoordSdkBackend::<K, W, U, R>::read_opened, (again, other, more), next),
    ensures
        found matches Ok(x) && *x == held,
        other@ != plugin@ || number != id ==> same_find(was, now),
        id < u64::MAX ==> next == id + 1,
        id == u64::MAX ==> next == 0,
{
}

/// A download is ended once: it is handed out, and after that it is not found any more; no other one is
/// touched.
pub proof fn law_downloads_are_ended_once<K, W, U, R>(
    b: &mut CoordSdkBackend<K, W, U, R>,
    plugin: &str,
    id: u64,
    r: Option<R>,
    before: CoordSdkBackend<K, W, U, R>,
    had: SdkResult<&R>,
    after: CoordSdkBackend<K, W, U, R>,
    found: SdkResult<&R>,
    other: &str,
    number: u64,
    was: SdkResult<&R>,
    now: SdkResult<&R>,
)
    requires
        call_ensures(CoordSdkBackend::<K, W, U, R>::storage_close_read, (b, plugin, id), r),
        before == *old(b),
        after == *final(b),
        call_ensures(CoordSdkBackend::<K, W, U, R>::read_session, (&before, plugin, id), had),
        call_ensures(CoordSdkBackend::<K, W, U, R>::read_session, (&after, plugin, id), found),
        call_ensures(CoordSdkBackend::<K, W, U, R>::read_session, (&before, other, number), was),
        call_ensures(CoordSdkBackend::<K, W, U, R>::read_session, (&after, other, number), now),
    ensures
        had matches Ok(x) ==> r == Some(*x),
        had is Err ==> r is None,
        found matches Err(e) && e.code is NotFound && e.message@ == "storage download session "@ + text::decimal(
            id as nat,
        ) + " not found"@,
        other@ != plugin@ || number != id ==> same_find(was, now),
{
}

/// An upload that is committed is handed out once, and after that it is not found any more.
pub proof fn law_uploads_are_taken_once<K, W, U, R>(
    b: &mut CoordSdkBackend<K, W, U, R>,
    plugin: &str,
    id: u64,
    r: SdkResult<U>,
    before: CoordSdkBackend<K, W, U, R>,
    had: SdkResult<&U>,
    after: CoordSdkBackend<K, W, U, R>,
    found: SdkResult<&U>,
    finished: SdkError,
)
    requires
        call_ensures(CoordSdkBackend::<K, W, U, R>::take_upload_session, (b, plugin, id), r),
        before == *old(b),
        after == *final(b),
        call_ensures(CoordSdkBackend::<K, W, U, R>::upload_session, (&before, plugin, id), had),
        call_ensures(CoordSdkBackend::<K, W, U, R>::upload_session, (&after, plugin, id), found),
        call_ensures(upload_finished, (id,), finished),
    ensures
        had matches Ok(x) ==> r == Ok::<U, SdkError>(*x),
        had matches Err(e) ==> r matches Err(f) && f.code == e.code && f.message@ == e.message@,
        found is Err,
        finished.code is NotFound && finished.message@ == "storage upload session "@ + text::decimal(
            id as nat,
        ) + " is already finished"@,
{
}

/// A read takes from the open download, and is refused where it asks for no bytes.
pub proof fn law_reads_take_from_open_downloads<K, W, U, R>(
    b: CoordSdkBackend<K, W, U, R>,
    plugin: &str,
    id: u64,
    max_len: u64,
    found: SdkResult<&R>,
    r: SdkResult<&R>,
)
    requires
        call_ensures(CoordSdkBackend::<K, W, U, R>::read_session, (&b, plugin, id), found),
        call_ensures(
            CoordSdkBackend::<K, W, U, R>::storage_read_chunk,
            (&b, plugin, id, max_len),
            r,
        ),
    ensures
        max_len > 0 ==> same_find(r, found),
        max_len == 0 ==> (r matches Err(e) && e.code is InvalidArgument && e.message@
            == "max_len must be > 0"@),
{
}

/// A lease has one keep-alive: the first stays, and a later one is handed back.
pub proof fn law_leases_have_one_keep_alive<K, W, U, R>(
    b: &mut CoordSdkBackend<K, W, U, R>,
    plugin: &str,
    id: i64,
    keeper: K,
    r: Option<K>,
    before: CoordSdkBackend<K, W, U, R>,
    had: bool,
    after: CoordSdkBackend<K, W, U, R>,
    stays: bool,
    other: &str,
    lease: i64,
    was: bool,
    now: bool,
)
    requires
        call_ensures(CoordSdkBackend::<K, W, U, R>::keep, (b, plugin, id, keeper), r),
        before == *old(b),
        after == *final(b),
        call_ensures(CoordSdkBackend::<K, W, U, R>::keeps_alive, (&before, plugin, id), had),
        call_ensures(CoordSdkBackend::<K, W, U, R>::keeps_alive, (&after, plugin, id), stays),
        call_ensures(CoordSdkBackend::<K, W, U, R>::keeps_alive, (&before, other, lease), was),
        call_ensures(CoordSdkBackend::<K, W, U, R>::keeps_alive, (&after, other, lease), now),
    ensures
        stays,
        had ==> r == Some(keeper),
        !had ==> r is None,
        other@ != plugin@ || lease != id ==> was == now,
{
    law_leases_are_told_apart(plugin@, lease, id);
}

/// The keep-alive of a lease ends before the lease is revoked: it is handed out, the lease is not kept
/// alive any more, and the revocation is that of the lease.
pub proof fn law_revoked_leases_are_not_kept_alive<K, W, U, R>(
    b: &mut CoordSdkBackend<K, W, U, R>,
    plugin: &str,
    id: i64,
    r: (Option<K>, LeaseRevocation),
    before: CoordSdkBackend<K, W, U, R>,
    had: bool,
    after: CoordSdkBackend<K, W, U, R>,
    stays: bool,
    number: i64,
    other: &str,
    lease: i64,
    was: bool,
    now: bool,
)
    requires
        call_ensures(CoordSdkBackend::<K, W, U, R>::lease_revoke, (b, plugin, id), r),
        before == *old(b),
        after == *final(b),
        call_ensures(CoordSdkBackend::<K, W, U, R>::keeps_alive, (&before, plugin, id), had),
        call_ensures(CoordSdkBackend::<K, W, U, R>::keeps_alive, (&after, plugin, id), stays),
        call_ensures(LeaseRevocation::id, (&r.1,), number),
        call_ensures(CoordSdkBackend::<K, W, U, R>::keeps_alive, (&before, other, lease), was),
        call_ensures(CoordSdkBackend::<K, W, U, R>::keeps_alive, (&after, other, lease), now),
    ensures
        !stays,
        r.0 is Some <==> had,
        number == id,
        other@ != plugin@ || lease != id ==> was == now,
{
    law_leases_are_told_apart(plugin@, lease, id);
}

/// A keep-alive that is stopped is the one that was kept, and the lease is not kept alive any more.
pub proof fn law_stopped_keep_alives_are_handed_out<K, W, U, R>(
    b: &mut CoordSdkBackend<K, W, U, R>,
    plugin: &str,
    id: i64,
    keeper: K,
    r: Option<K>,
    kept: &mut CoordSdkBackend<K, W, U, R>,
    before: CoordSdkBackend<K, W, U, R>,
    had: bool,
    back: Option<K>,
    after: CoordSdkBackend<K, W, U, R>,
    stays: bool,
)
    requires
        before == *old(kept),
        call_ensures(CoordSdkBackend::<K, W, U, R>::keeps_alive, (&before, plugin, id), had),
        call_ensures(CoordSdkBackend::<K, W, U, R>::keep, (kept, plugin, id, keeper), back),
        *old(b) == *final(kept),
        call_ensures(CoordSdkBackend::<K, W, U, R>::lease_stop_keep_alive, (b, plugin, id), r),
        after == *final(b),
        call_ensures(CoordSdkBackend::<K, W, U, R>::keeps_alive, (&after, plugin, id), stays),
    ensures
        r is Some,
        !had ==> r == Some(keeper),
        !stays,
{
}

/// A plugin that is released has nothing left open, and every other plugin all that it had.
pub proof fn law_released_plugins_leave_nothing<K, W, U, R>(
    b: &mut CoordSdkBackend<K, W, U, R>,
    plugin: &str,
    r: (usize, usize, usize, usize),
    before: CoordSdkBackend<K, W, U, R>,
    after: CoordSdkBackend<K, W, U, R>,
    owner: &str,
    id: u64,
    lease: i64,
    watch: (SdkResult<&W>, SdkResult<&W>),
    upload: (SdkResult<&U>, SdkResult<&U>),
    read: (SdkResult<&R>, SdkResult<&R>),
    keeps: (bool, bool),
)
    requires
        call_ensures(CoordSdkBackend::<K, W, U, R>::release_plugin, (b, plugin), r),
        before == *old(b),
        after == *final(b),
        call_ensures(CoordSdkBackend::<K, W, U, R>::watch, (&before, owner, id), watch.0),
        call_ensures(CoordSdkBackend::<K, W, U, R>::watch, (&after, owner, id), watch.1),
        call_ensures(CoordSdkBackend::<K, W, U, R>::upload_session, (&before, owner, id), upload.0),
        call_ensures(CoordSdkBackend::<K, W, U, R>::upload_session, (&after, owner, id), upload.1),
        call_ensures(CoordSdkBackend::<K, W, U, R>::read_session, (&before, owner, id), read.0),
        call_ensures(CoordSdkBackend::<K, W, U, R>::read_session, (&after, owner, id), read.1),
        call_ensures(CoordSdkBackend::<K, W, U, R>::keeps_alive, (&before, owner, lease), keeps.0),
        call_ensures(CoordSdkBackend::<K, W, U, R>::keeps_alive, (&after, owner, lease), keeps.1),
    ensures
        owner@ == plugin@ ==> watch.1 is Err && upload.1 is Err && read.1 is Err && !keeps.1,
        owner@ != plugin@ ==> same_find(watch.0, watch.1) && same_find(upload.0, upload.1)
            && same_find(read.0, read.1) && keeps.0 == keeps.1,
{
}

/// The length that a script declares for an upload is its own, never negative, and unknown where it
/// declares none.
pub proof fn law_scripts_declare_the_length_of_uploads(
    total: Option<i64>,
    r: Result<u64, JsFault>,
    declared: u64,
    shown: JsValue,
)
    requires
        call_ensures(upload_size, (total,), r),
        call_ensures(declared_size_to_js, (declared,), shown),
    ensures
        r is Ok <==> (total matches Some(n) ==> n >= 0),
        total matches Some(n) && n >= 0 ==> r == Ok::<u64, JsFault>(total->0 as u64),
        total is None ==> r == Ok::<u64, JsFault>(0),
        declared == 0 ==> shown is Null,
        0 < declared <= i64::MAX ==> shown == JsValue::Number(declared as i64),
{
}

} // verus!
