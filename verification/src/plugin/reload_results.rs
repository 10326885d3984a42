//! What a reload comes to for each plugin: what is registered afterwards, and what is reported.
use crate::name_map;
use crate::plugin::manifest;
use crate::plugin::manifest::PluginManifest;
use crate::plugin::registry::PluginManager;
use crate::plugin::reload;
use crate::plugin::reload::{ReloadEvent, ReloadRun};
use crate::plugin::reload_laws;
use crate::text;
use vstd::prelude::*;

verus! {

use crate::plugin::registry::Registry;
use crate::plugin::reload::{ReportView, RunView, Wanted};
use crate::plugin::reload_laws::{Outcomes, Settled};

// ---- one look at a registered plugin ----

/// A registered plugin makes way for the wanted one where its version is another one, whatever
/// the fingerprints are; where both fingerprints are known and differ, whatever the versions are;
/// and where it failed and can be loaded anew. Otherwise it stays as it is, and nothing is
/// reported of it.
pub proof fn law_changed_plugins_make_way(
    run: ReloadRun,
    manager: &mut PluginManager,
    fingerprint: Option<String>,
    failed: bool,
    after: ReloadRun,
)
    requires
        run@.phase is Checking,
        reload::in_range(run@),
        old(manager).registry().dom().contains(run@.wanted[run@.index].name),
        call_ensures(
            ReloadRun::advance,
            (run, manager, ReloadEvent::Fingerprinted { fingerprint, failed }),
            after,
        ),
    ensures
        ({
            let wanted = run@.wanted[run@.index];
            let record = old(manager).registry()[wanted.name];
            let upgraded = record.version@ != wanted.version;
            let rewritten = fingerprint is Some && record.fingerprint is Some && (fingerprint->0)@
                != (record.fingerprint->0)@;
            let broken = (failed || old(manager).marks().dom().contains(wanted.name)) && run@.loader;
            if upgraded || rewritten || broken {
                &&& after@.phase is Replacing
                &&& after@.index == run@.index
                &&& final(manager).registry() == old(manager).registry().remove(wanted.name)
            } else {
                &&& after@.index == run@.index + 1
                &&& after@.report == run@.report
                &&& final(manager).registry() == old(manager).registry()
            }
        }),
{
}

// ---- a whole reload ----

/// Whether what is loaded for a name goes by that name.
pub open spec fn loads_keep_names(o: Outcomes) -> bool {
    forall|n: Seq<char>| (#[trigger] (o.load)(n)) matches Ok(record) ==> record.name@ == n
}

/// Whether registry and report say the same of a name.
spec fn same_about(a: Settled, b: Settled, name: Seq<char>) -> bool {
    &&& a.0.dom().contains(name) == b.0.dom().contains(name)
    &&& a.0.dom().contains(name) ==> a.0[name] == b.0[name]
    &&& a.1.added.contains(name) == b.1.added.contains(name)
    &&& a.1.removed.contains(name) == b.1.removed.contains(name)
    &&& a.1.replaced.contains(name) == b.1.replaced.contains(name)
    &&& a.1.deferred.contains(name) == b.1.deferred.contains(name)
    &&& forall|why: Seq<char>| #[trigger] a.1.failed.contains((name, why)) == b.1.failed.contains((name, why))
}

proof fn lemma_report_grows(r: ReportView, name: Seq<char>, why: Seq<char>, replacing: bool, other: Seq<char>)
    ensures
        ({
            let failed = reload::report_failed(r, name, why);
            let done = reload::report_done(r, name, replacing);
            &&& forall|reason: Seq<char>| #[trigger]
                failed.failed.contains((other, reason)) == (r.failed.contains((other, reason)) || (
                other == name && reason == why))
            &&& done.added.contains(other) == (r.added.contains(other) || (other == name && !replacing))
            &&& done.replaced.contains(other) == (r.replaced.contains(other) || (other == name
                && replacing))
            &&& r.deferred.push(name).contains(other) == (r.deferred.contains(other) || other == name)
            &&& r.removed.push(name).contains(other) == (r.removed.contains(other) || other == name)
        }),
{
    let failed = reload::report_failed(r, name, why);
    assert forall|reason: Seq<char>| #[trigger] failed.failed.contains((other, reason)) == (
    r.failed.contains((other, reason)) || (other == name && reason == why)) by {
        text::lemma_push_contains(r.failed, (name, why), (other, reason));
    }
    text::lemma_push_contains(r.added, name, other);
    text::lemma_push_contains(r.replaced, name, other);
    text::lemma_push_contains(r.deferred, name, other);
    text::lemma_push_contains(r.removed, name, other);
}

/// The reason that is noted where a wanted plugin cannot be put in service.
spec fn noted_reason(w: Wanted, o: Outcomes) -> Seq<char> {
    match (o.load)(w.name) {
        Err(e) => e,
        Ok(_) => match (o.init)(w.name) {
            Some(e) => "init failed: "@ + e,
            None => match (o.start)(w.name) {
                Some(e) => "start failed: "@ + e,
                None => Seq::empty(),
            },
        },
    }
}

proof fn lemma_one_leaves_others(s: Settled, w: Wanted, loader: bool, o: Outcomes, name: Seq<char>)
    requires
        loads_keep_names(o),
        w.name != name,
    ensures
        same_about(reload_laws::settle_one(s, w, loader, o), s, name),
{
    let known = s.0.dom().contains(w.name);
    lemma_report_grows(s.1, w.name, noted_reason(w, o), known, name);
    assert((o.load)(w.name) matches Ok(record) ==> record.name@ == w.name);
}

proof fn lemma_rest_leaves_others(
    s: Settled,
    wanted: Seq<Wanted>,
    i: int,
    loader: bool,
    o: Outcomes,
    name: Seq<char>,
)
    requires
        0 <= i,
        loads_keep_names(o),
        forall|k: int| i <= k < wanted.len() ==> (#[trigger] wanted[k]).name != name,
    ensures
        same_about(reload_laws::settle_wanted(s, wanted, i, loader, o), s, name),
    decreases wanted.len() - i,
{
    if i < wanted.len() {
        assert(wanted[i].name != name);
        lemma_one_leaves_others(s, wanted[i], loader, o, name);
        lemma_rest_leaves_others(
            reload_laws::settle_one(s, wanted[i], loader, o),
            wanted,
            i + 1,
            loader,
            o,
            name,
        );
    }
}

proof fn lemma_one_looks_at_its_name(s: Settled, t: Settled, w: Wanted, loader: bool, o: Outcomes)
    requires
        loads_keep_names(o),
        same_about(s, t, w.name),
    ensures
        same_about(
            reload_laws::settle_one(s, w, loader, o),
            reload_laws::settle_one(t, w, loader, o),
            w.name,
        ),
{
    let known = s.0.dom().contains(w.name);
    lemma_report_grows(s.1, w.name, noted_reason(w, o), known, w.name);
    lemma_report_grows(t.1, w.name, noted_reason(w, o), known, w.name);
    assert((o.load)(w.name) matches Ok(record) ==> record.name@ == w.name);
}

proof fn lemma_names_differ(wanted: Seq<Wanted>, i: int, k: int)
    requires
        name_map::ascending(reload::wanted_names(wanted)),
        0 <= i < k < wanted.len(),
    ensures
        wanted[i].name != wanted[k].name,
{
    assert(text::text_lt(reload::wanted_names(wanted)[i], reload::wanted_names(wanted)[k]));
    text::lemma_text_order(wanted[i].name, wanted[k].name, wanted[i].name);
}

proof fn lemma_each_is_settled_by_itself(
    s: Settled,
    wanted: Seq<Wanted>,
    i: int,
    loader: bool,
    o: Outcomes,
    k: int,
)
    requires
        0 <= i <= k < wanted.len(),
        name_map::ascending(reload::wanted_names(wanted)),
        loads_keep_names(o),
    ensures
        same_about(
            reload_laws::settle_wanted(s, wanted, i, loader, o),
            reload_laws::settle_one(s, wanted[k], loader, o),
            wanted[k].name,
        ),
    decreases k - i,
{
    let next = reload_laws::settle_one(s, wanted[i], loader, o);
    if i == k {
        assert forall|j: int| k + 1 <= j < wanted.len() implies (#[trigger] wanted[j]).name
            != wanted[k].name by {
            lemma_names_differ(wanted, k, j);
        }
        lemma_rest_leaves_others(next, wanted, i + 1, loader, o, wanted[k].name);
    } else {
        lemma_names_differ(wanted, i, k);
        lemma_one_leaves_others(s, wanted[i], loader, o, wanted[k].name);
        lemma_each_is_settled_by_itself(next, wanted, i + 1, loader, o, k);
        lemma_one_looks_at_its_name(next, s, wanted[k], loader, o);
    }
}

proof fn lemma_removals_about(s: Settled, removals: Seq<Seq<char>>, i: int, o: Outcomes, name: Seq<char>)
    requires
        0 <= i,
    ensures
        ({
            let t = reload_laws::settle_removals(s, removals, i, o);
            let hit = exists|k: int| i <= k < removals.len() && removals[k] == name;
            if hit && s.0.dom().contains(name) {
                &&& !t.0.dom().contains(name)
                &&& t.1.removed.contains(name)
                &&& (o.stop)(name) matches Some(e) ==> t.1.failed.contains((name, "stop failed: "@ + e))
                &&& t.1.added == s.1.added
                &&& t.1.replaced == s.1.replaced
                &&& t.1.deferred == s.1.deferred
            } else {
                same_about(t, s, name)
            }
        }),
        reload_laws::settle_removals(s, removals, i, o).1.added == s.1.added,
        reload_laws::settle_removals(s, removals, i, o).1.replaced == s.1.replaced,
        reload_laws::settle_removals(s, removals, i, o).1.deferred == s.1.deferred,
        forall|why: Seq<char>| #[trigger]
            s.1.failed.contains((name, why)) ==> reload_laws::settle_removals(
                s,
                removals,
                i,
                o,
            ).1.failed.contains((name, why)),
        s.1.removed.contains(name) ==> reload_laws::settle_removals(
            s,
            removals,
            i,
            o,
        ).1.removed.contains(name),
    decreases removals.len() - i,
{
    if i < removals.len() {
        let (registry, report) = s;
        let at = removals[i];
        if registry.dom().contains(at) {
            let noted = match (o.stop)(at) {
                Some(e) => reload::report_failed(report, at, "stop failed: "@ + e),
                None => report,
            };
            let next = (
                registry.remove(at),
                ReportView { removed: noted.removed.push(at), ..noted },
            );
            let why = match (o.stop)(at) {
                Some(e) => "stop failed: "@ + e,
                None => Seq::empty(),
            };
            lemma_report_grows(report, at, why, false, name);
            lemma_removals_about(next, removals, i + 1, o, name);
            assert forall|reason: Seq<char>| #[trigger]
                report.failed.contains((name, reason)) implies next.1.failed.contains(
                (name, reason),
            ) by {
                if (o.stop)(at) is Some {
                    text::lemma_push_contains(report.failed, (at, why), (name, reason));
                }
            }
            if name == at {
                assert(removals[i] == name);
                if let Some(e) = (o.stop)(at) {
                    assert(next.1.failed.contains((name, "stop failed: "@ + e)));
                }
            } else {
                assert(same_about(next, s, name));
                if exists|k: int| i <= k < removals.len() && removals[k] == name {
                    let k = choose|k: int| i <= k < removals.len() && removals[k] == name;
                    assert(i + 1 <= k < removals.len() && removals[k] == name);
                }
            }
        } else {
            lemma_removals_about(s, removals, i + 1, o, name);
            if name != at && exists|k: int| i <= k < removals.len() && removals[k] == name {
                let k = choose|k: int| i <= k < removals.len() && removals[k] == name;
                assert(i + 1 <= k < removals.len() && removals[k] == name);
            }
        }
    }
}

/// Whether a manifest counts for its name: it is well formed, and no later one of that name is.
pub open spec fn counts(desired: Seq<PluginManifest>, j: int) -> bool {
    &&& 0 <= j < desired.len()
    &&& manifest::well_formed_manifest(desired[j])
    &&& forall|k: int|
        j < k < desired.len() && (#[trigger] desired[k]).name@ == desired[j].name@
            ==> !manifest::well_formed_manifest(desired[k])
}

proof fn lemma_counted_is_wanted(
    run: RunView,
    before: Registry,
    listing: Seq<Seq<char>>,
    desired: Seq<PluginManifest>,
    j: int,
) -> (k: int)
    requires
        reload::planned(run, before, listing, desired, run.loader),
        counts(desired, j),
        !(before.dom().contains(desired[j].name@) && before[desired[j].name@].builtin),
    ensures
        0 <= k < run.wanted.len(),
        run.wanted[k].name == desired[j].name@,
        run.wanted[k].version == desired[j].version@,
        !run.removals.contains(desired[j].name@),
{
    let name = desired[j].name@;
    reload::lemma_well_formed_by_name(desired, name);
    let by_name = reload::well_formed_by_name(desired);
    assert(by_name.dom().contains(name));
    assert(by_name[name] == j);
    assert(reload::wanted_name(before, desired, name));
    assert(reload::wanted_names(run.wanted).contains(name));
    let k = choose|k: int| 0 <= k < run.wanted.len() && reload::wanted_names(run.wanted)[k] == name;
    assert(run.wanted[k].name == name);
    k
}

/// What a reload comes to for a configured plugin whose name no builtin one holds. It stays as it
/// is exactly where it was registered with the configured version, its content did not visibly
/// change, and it did not fail where it could be loaded anew. In all other cases the instance
/// that was there goes, and what the loader gives is registered in its place: reported as
/// replaced or added where it could be initialised and started, and as failed, with the reason,
/// where a step failed. Without a loader it is put off.
pub proof fn law_reload_brings_each_plugin_up_to_date(
    run: RunView,
    before: Registry,
    after: Registry,
    listing: Seq<Seq<char>>,
    desired: Seq<PluginManifest>,
    o: Outcomes,
    j: int,
)
    requires
        reload::planned(run, before, listing, desired, run.loader),
        (run, after) == reload::enter_removal(run, before, 0),
        loads_keep_names(o),
        counts(desired, j),
        !(before.dom().contains(desired[j].name@) && before[desired[j].name@].builtin),
    ensures
        ({
            let name = desired[j].name@;
            let (end, registry) = reload_laws::reload_end(run, after, o);
            let known = before.dom().contains(name);
            let stays = known && before[name].version@ == desired[j].version@ && !((o.fingerprint)(
                name,
            ) is Some && before[name].fingerprint is Some && ((o.fingerprint)(name)->0) != (
            before[name].fingerprint->0)@) && !((o.failed)(name) && run.loader);
            let loaded = (o.load)(name);
            let serves = loaded is Ok && (o.init)(name) is None && (o.start)(name) is None;
            &&& end.phase is Done
            &&& registry.dom().contains(name) <==> stays || (run.loader && loaded is Ok)
            &&& stays ==> registry[name] == before[name]
            &&& !stays && run.loader ==> (loaded matches Ok(record) ==> registry[name] == record)
            &&& end.report.added.contains(name) <==> !known && run.loader && serves
            &&& end.report.replaced.contains(name) <==> known && !stays && run.loader && serves
            &&& end.report.deferred.contains(name) <==> !stays && !run.loader
            &&& !end.report.removed.contains(name)
            &&& !stays && run.loader ==> {
                &&& loaded matches Err(e) ==> end.report.failed.contains((name, e))
                &&& loaded is Ok ==> ((o.init)(name) matches Some(e) ==> end.report.failed.contains(
                    (name, "init failed: "@ + e),
                ))
                &&& loaded is Ok && (o.init)(name) is None ==> ((o.start)(name) matches Some(e)
                    ==> end.report.failed.contains((name, "start failed: "@ + e)))
            }
        }),
{
    let name = desired[j].name@;
    let k = lemma_counted_is_wanted(run, before, listing, desired, j);
    let w = run.wanted[k];
    let first = (before, run.report);
    let cleared = reload_laws::settle_removals(first, run.removals, 0, o);
    reload_laws::law_reload_settles_every_plugin(run, before, after, o);
    lemma_removals_about(first, run.removals, 0, o, name);
    assert(!exists|i: int| 0 <= i < run.removals.len() && run.removals[i] == name) by {
        if exists|i: int| 0 <= i < run.removals.len() && run.removals[i] == name {
            let i = choose|i: int| 0 <= i < run.removals.len() && run.removals[i] == name;
            assert(run.removals.contains(run.removals[i]));
        }
    }
    assert(same_about(cleared, first, name));
    lemma_each_is_settled_by_itself(cleared, run.wanted, 0, run.loader, o, k);
    lemma_one_looks_at_its_name(cleared, first, w, run.loader, o);
    let known = before.dom().contains(name);
    lemma_report_grows(run.report, name, noted_reason(w, o), known, name);
    assert((o.load)(name) matches Ok(record) ==> record.name@ == name);
    assert(!run.report.added.contains(name));
    assert(!run.report.replaced.contains(name));
    assert(!run.report.deferred.contains(name));
    assert(!run.report.removed.contains(name));
}

/// After a reload in which every plugin loads as its manifest says, initialises and starts, every
/// configured plugin is registered with the version of its manifest, and no plugin is put off.
pub proof fn law_reload_installs_the_configured_versions(
    run: RunView,
    before: Registry,
    after: Registry,
    listing: Seq<Seq<char>>,
    desired: Seq<PluginManifest>,
    o: Outcomes,
    j: int,
)
    requires
        reload::planned(run, before, listing, desired, true),
        (run, after) == reload::enter_removal(run, before, 0),
        counts(desired, j),
        !(before.dom().contains(desired[j].name@) && before[desired[j].name@].builtin),
        loads_keep_names(o),
        forall|i: int|
            counts(desired, i) ==> ((o.load)((#[trigger] desired[i]).name@) matches Ok(record)
                && record.version@ == desired[i].version@),
        forall|n: Seq<char>| (#[trigger] (o.init)(n)) is None,
        forall|n: Seq<char>| (#[trigger] (o.start)(n)) is None,
    ensures
        ({
            let name = desired[j].name@;
            let (end, registry) = reload_laws::reload_end(run, after, o);
            &&& registry.dom().contains(name)
            &&& registry[name].version@ == desired[j].version@
            &&& before.dom().contains(name) && before[name].version@ != desired[j].version@
                ==> end.report.replaced.contains(name)
            &&& !before.dom().contains(name) ==> end.report.added.contains(name)
            &&& !end.report.deferred.contains(name)
        }),
{
    law_reload_brings_each_plugin_up_to_date(run, before, after, listing, desired, o, j);
}

/// A registered plugin that is neither built in nor configured any more goes: it is no longer
/// registered, and it is reported as removed, with the reason where it could not be stopped.
pub proof fn law_reload_removes_what_is_no_longer_configured(
    run: RunView,
    before: Registry,
    after: Registry,
    listing: Seq<Seq<char>>,
    desired: Seq<PluginManifest>,
    o: Outcomes,
    name: Seq<char>,
)
    requires
        reload::planned(run, before, listing, desired, run.loader),
        (run, after) == reload::enter_removal(run, before, 0),
        loads_keep_names(o),
        before.dom().contains(name),
        forall|k: int|
            0 <= k < desired.len() && (#[trigger] desired[k]).name@ == name
                ==> !manifest::well_formed_manifest(desired[k]),
    ensures
        ({
            let (end, registry) = reload_laws::reload_end(run, after, o);
            if before[name].builtin {
                &&& registry.dom().contains(name)
                &&& registry[name] == before[name]
                &&& !end.report.removed.contains(name)
            } else {
                &&& !registry.dom().contains(name)
                &&& end.report.removed.contains(name)
                &&& (o.stop)(name) matches Some(e) ==> end.report.failed.contains(
                    (name, "stop failed: "@ + e),
                )
            }
        }),
{
    reload::lemma_well_formed_by_name(desired, name);
    assert(!reload::wanted_name(before, desired, name)) by {
        if reload::well_formed_by_name(desired).dom().contains(name) {
            let i = reload::well_formed_by_name(desired)[name];
            assert(desired[i].name@ == name);
        }
    }
    let first = (before, run.report);
    let cleared = reload_laws::settle_removals(first, run.removals, 0, o);
    reload_laws::law_reload_settles_every_plugin(run, before, after, o);
    lemma_removals_about(first, run.removals, 0, o, name);
    assert(!reload::wanted_names(run.wanted).contains(name));
    assert forall|k: int| 0 <= k < run.wanted.len() implies (#[trigger] run.wanted[k]).name
        != name by {
        assert(reload::wanted_names(run.wanted)[k] == run.wanted[k].name);
    }
    lemma_rest_leaves_others(cleared, run.wanted, 0, run.loader, o, name);
    if before[name].builtin {
        assert(!run.removals.contains(name));
        assert(!exists|i: int| 0 <= i < run.removals.len() && run.removals[i] == name) by {
            if exists|i: int| 0 <= i < run.removals.len() && run.removals[i] == name {
                let i = choose|i: int| 0 <= i < run.removals.len() && run.removals[i] == name;
                assert(run.removals.contains(run.removals[i]));
            }
        }
        assert(!run.report.removed.contains(name));
    } else {
        assert(run.removals.contains(name));
        let k = choose|k: int| 0 <= k < run.removals.len() && run.removals[k] == name;
        assert(0 <= k < run.removals.len() && run.removals[k] == name);
        if let Some(e) = (o.stop)(name) {
            assert(cleared.1.failed.contains((name, "stop failed: "@ + e)));
        }
    }
}

/// A manifest that is not well formed is reported as failed from the start, with its defect.
pub proof fn law_malformed_manifests_are_reported(
    run: RunView,
    before: Registry,
    listing: Seq<Seq<char>>,
    desired: Seq<PluginManifest>,
    loader: bool,
    j: int,
)
    requires
        reload::planned(run, before, listing, desired, loader),
        0 <= j < desired.len(),
        manifest::manifest_defect(desired[j]) is Some,
    ensures
        run.report.failed.contains((desired[j].name@, manifest::manifest_defect(desired[j])->0)),
{
    lemma_malformed(desired, j);
    let bad = reload::malformed(desired);
    let hit = (desired[j].name@, manifest::manifest_defect(desired[j])->0);
    let i = choose|i: int| 0 <= i < bad.len() && bad[i] == hit;
    assert(run.report.failed[i] == hit);
}

proof fn lemma_malformed(desired: Seq<PluginManifest>, j: int)
    requires
        0 <= j < desired.len(),
        manifest::manifest_defect(desired[j]) is Some,
    ensures
        reload::malformed(desired).contains(
            (desired[j].name@, manifest::manifest_defect(desired[j])->0),
        ),
    decreases desired.len(),
{
    let hit = (desired[j].name@, manifest::manifest_defect(desired[j])->0);
    let rest = reload::malformed(desired.drop_last());
    if j == desired.len() - 1 {
        text::lemma_push_contains(rest, hit, hit);
    } else {
        assert(desired.drop_last()[j] == desired[j]);
        lemma_malformed(desired.drop_last(), j);
        if let Some(why) = manifest::manifest_defect(desired.last()) {
            text::lemma_push_contains(rest, (desired.last().name@, why), hit);
        }
    }
}

/// A plugin whose initialisation or start fails in a reload is marked as failed, with the reason; one
/// that starts, or that leaves the registry, is not marked for it, and no other plugin is touched.
pub proof fn law_reloads_mark_what_fails(
    run: ReloadRun,
    manager: &mut PluginManager,
    outcome: Result<(), String>,
    after: ReloadRun,
    other: Seq<char>,
)
    requires
        run@.phase is Initialising || run@.phase is Starting,
        reload::in_range(run@),
        call_ensures(ReloadRun::advance, (run, manager, ReloadEvent::Ran(outcome)), after),
    ensures
        ({
            let name = run@.wanted[run@.index].name;
            let marks = final(manager).marks();
            let there = final(manager).registry().dom().contains(name);
            &&& outcome is Err && there ==> marks.dom().contains(name)
            &&& outcome is Err && there && run@.phase is Starting ==> marks[name] == "start failed: "@ + (
            outcome->Err_0)@
            &&& outcome is Err && there && run@.phase is Initialising ==> marks[name] == "init failed: "@
                + (outcome->Err_0)@
            &&& !there ==> !marks.dom().contains(name)
            &&& outcome is Ok && there ==> (marks.dom().contains(name) <==> old(
                manager,
            ).marks().dom().contains(name))
            &&& other != name && final(manager).registry().dom().contains(other) ==> (
            marks.dom().contains(other) <==> old(manager).marks().dom().contains(other))
        }),
{
}

/// A reload wants every configured plugin whose manifest counts and whose name no builtin one holds,
/// with all that its manifest says, and what it does not want any more it takes out of the registry.
pub proof fn law_reloads_want_what_is_configured(
    manager: &mut PluginManager,
    desired: &[PluginManifest],
    loader: bool,
    run: ReloadRun,
    j: int,
    name: Seq<char>,
)
    requires
        call_ensures(PluginManager::reload, (manager, desired, loader), run),
        counts(desired@, j),
        !(old(manager).registry().dom().contains(desired@[j].name@) && old(
            manager,
        ).registry()[desired@[j].name@].builtin),
    ensures
        run@.loader == loader,
        exists|k: int|
            0 <= k < run.manifests().len() && run@.wanted[k].name == desired@[j].name@
                && run@.wanted[k].version == desired@[j].version@ && manifest::same_manifest(
                #[trigger] run.manifests()[k],
                desired@[j],
            ),
        !run@.removals.contains(desired@[j].name@),
        old(manager).registry().dom().contains(name) && old(manager).registry()[name].builtin
            ==> !run@.removals.contains(name),
        final(manager).settings() == old(manager).settings(),
{
    let k = lemma_counted_is_wanted(
        run@,
        old(manager).registry(),
        old(manager).listing(),
        desired@,
        j,
    );
    reload::lemma_well_formed_by_name(desired@, desired@[j].name@);
    assert(manifest::same_manifest(run.manifests()[k], desired@[j]));
}

} // verus!
