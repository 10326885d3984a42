//! What a whole reload amounts to, and what it leaves alone.
use crate::plugin::manifest::PluginManifest;
use crate::plugin::registry::PluginRecord;
use crate::name_map;
use crate::plugin::registry;
use crate::plugin::reload;
use crate::text;
use vstd::prelude::*;

verus! {

use crate::plugin::registry::Registry;
use crate::plugin::reload::{EventView, ReloadPhase, ReportView, RunState, RunView, Wanted};

/// How the surroundings answer during one reload: the error of stopping, initialising or
/// starting a plugin, its fingerprint, whether it failed before, and what loading it gives.
pub struct Outcomes {
    pub stop: spec_fn(Seq<char>) -> Option<Seq<char>>,
    pub fingerprint: spec_fn(Seq<char>) -> Option<Seq<char>>,
    pub failed: spec_fn(Seq<char>) -> bool,
    pub load: spec_fn(Seq<char>) -> Result<PluginRecord, Seq<char>>,
    pub init: spec_fn(Seq<char>) -> Option<Seq<char>>,
    pub start: spec_fn(Seq<char>) -> Option<Seq<char>>,
}

/// The event with which the surroundings answer the action of a run.
pub open spec fn answer(run: RunView, o: Outcomes) -> EventView {
    match run.phase {
        ReloadPhase::Removing => EventView::Stopped((o.stop)(run.removals[run.index])),
        ReloadPhase::Checking => EventView::Fingerprinted(
            (o.fingerprint)(run.wanted[run.index].name),
            (o.failed)(run.wanted[run.index].name),
        ),
        ReloadPhase::Replacing => EventView::Stopped((o.stop)(run.wanted[run.index].name)),
        ReloadPhase::Loading => EventView::Loaded((o.load)(run.wanted[run.index].name)),
        ReloadPhase::Initialising => EventView::Ran((o.init)(run.wanted[run.index].name)),
        ReloadPhase::Starting => EventView::Ran((o.start)(run.wanted[run.index].name)),
        ReloadPhase::Done => EventView::Ran(None),
    }
}

/// Steps that are left at most.
pub open spec fn steps_left(run: RunView) -> int {
    match run.phase {
        ReloadPhase::Removing => 6 * run.wanted.len() + 1 + run.removals.len() - run.index,
        ReloadPhase::Checking => 6 * (run.wanted.len() - run.index),
        ReloadPhase::Replacing => 6 * (run.wanted.len() - run.index) - 1,
        ReloadPhase::Loading => 6 * (run.wanted.len() - run.index) - 2,
        ReloadPhase::Initialising => 6 * (run.wanted.len() - run.index) - 3,
        ReloadPhase::Starting => 6 * (run.wanted.len() - run.index) - 4,
        ReloadPhase::Done => 0,
    }
}

proof fn lemma_enter_removal_shrinks(run: RunView, registry: Registry, i: int)
    requires
        0 <= i <= run.removals.len(),
    ensures
        reload::in_range(reload::enter_removal(run, registry, i).0),
        steps_left(reload::enter_removal(run, registry, i).0) <= 6 * run.wanted.len() + 1
            + run.removals.len() - i,
        reload::enter_removal(run, registry, i).0.removals == run.removals,
        reload::enter_removal(run, registry, i).0.wanted == run.wanted,
        reload::enter_removal(run, registry, i).0.loader == run.loader,
        reload::enter_removal(run, registry, i).0.report == run.report,
    decreases run.removals.len() - i,
{
    if i < run.removals.len() && !registry.dom().contains(run.removals[i]) {
        lemma_enter_removal_shrinks(run, registry, i + 1);
    }
}

/// Every answered action brings a reload nearer to its end.
pub proof fn law_reload_makes_progress(run: RunView, registry: Registry, o: Outcomes)
    requires
        reload::in_range(run),
        !(run.phase is Done),
    ensures
        reload::in_range(reload::reload_next(run, registry, answer(run, o)).0),
        0 <= steps_left(reload::reload_next(run, registry, answer(run, o)).0) < steps_left(run),
{
    if run.phase is Removing {
        let name = run.removals[run.index];
        let noted = match (o.stop)(name) {
            Some(e) => reload::report_failed(run.report, name, "stop failed: "@ + e),
            None => run.report,
        };
        let report = ReportView { removed: noted.removed.push(name), ..noted };
        lemma_enter_removal_shrinks(RunView { report, ..run }, registry, run.index + 1);
    }
}

/// The end of a reload under given answers.
pub open spec fn reload_end(run: RunView, registry: Registry, o: Outcomes) -> RunState
    decreases steps_left(run),
{
    if run.phase is Done || !reload::in_range(run) {
        (run, registry)
    } else {
        proof {
            law_reload_makes_progress(run, registry, o);
        }
        let (next, after) = reload::reload_next(run, registry, answer(run, o));
        reload_end(next, after, o)
    }
}

/// Registry and report together.
pub type Settled = (Registry, ReportView);

/// Whether a registered plugin is replaced.
pub open spec fn stale(record: PluginRecord, wanted: Wanted, loader: bool, o: Outcomes) -> bool {
    reload::replaceable(
        record,
        wanted,
        (o.fingerprint)(wanted.name),
        (o.failed)(wanted.name),
        loader,
    )
}

/// What one wanted plugin comes to.
pub open spec fn settle_one(s: Settled, wanted: Wanted, loader: bool, o: Outcomes) -> Settled {
    let (registry, report) = s;
    let known = registry.dom().contains(wanted.name);
    if known && !stale(registry[wanted.name], wanted, loader, o) {
        s
    } else {
        let cleared = if known {
            registry.remove(wanted.name)
        } else {
            registry
        };
        if !loader {
            (cleared, ReportView { deferred: report.deferred.push(wanted.name), ..report })
        } else {
            match (o.load)(wanted.name) {
                Err(e) => (cleared, reload::report_failed(report, wanted.name, e)),
                Ok(record) => if cleared.dom().contains(record.name@) {
                    (
                        cleared,
                        reload::report_failed(report, wanted.name, registry::already_registered_text(record.name@)),
                    )
                } else {
                    let after = cleared.insert(record.name@, record);
                    if !after.dom().contains(wanted.name) {
                        (after, reload::report_done(report, wanted.name, known))
                    } else {
                        match ((o.init)(wanted.name), (o.start)(wanted.name)) {
                            (Some(e), _) => (
                                after,
                                reload::report_failed(report, wanted.name, "init failed: "@ + e),
                            ),
                            (None, Some(e)) => (
                                after,
                                reload::report_failed(report, wanted.name, "start failed: "@ + e),
                            ),
                            (None, None) => (after, reload::report_done(report, wanted.name, known)),
                        }
                    }
                },
            }
        }
    }
}

/// What the wanted plugins from position `i` on come to.
pub open spec fn settle_wanted(
    s: Settled,
    wanted: Seq<Wanted>,
    i: int,
    loader: bool,
    o: Outcomes,
) -> Settled
    decreases wanted.len() - i,
{
    if 0 <= i < wanted.len() {
        settle_wanted(settle_one(s, wanted[i], loader, o), wanted, i + 1, loader, o)
    } else {
        s
    }
}

/// What the removals from position `i` on come to.
pub open spec fn settle_removals(s: Settled, removals: Seq<Seq<char>>, i: int, o: Outcomes) -> Settled
    decreases removals.len() - i,
{
    if 0 <= i < removals.len() {
        let (registry, report) = s;
        let name = removals[i];
        if registry.dom().contains(name) {
            let noted = match (o.stop)(name) {
                Some(e) => reload::report_failed(report, name, "stop failed: "@ + e),
                None => report,
            };
            settle_removals(
                (registry.remove(name), ReportView { removed: noted.removed.push(name), ..noted }),
                removals,
                i + 1,
                o,
            )
        } else {
            settle_removals(s, removals, i + 1, o)
        }
    } else {
        s
    }
}

/// Whether a run is over with that registry and report.
pub open spec fn ends_with(end: RunState, s: Settled) -> bool {
    end.0.phase is Done && end.1 == s.0 && end.0.report == s.1
}

proof fn lemma_wanted_end(run: RunView, registry: Registry, i: int, o: Outcomes)
    requires
        0 <= i <= run.wanted.len(),
    ensures
        ends_with(
            reload_end(reload::enter_check(run, registry, i).0, registry, o),
            settle_wanted((registry, run.report), run.wanted, i, run.loader, o),
        ),
    decreases run.wanted.len() - i,
{
    if i < run.wanted.len() {
        let w = run.wanted[i];
        let known = registry.dom().contains(w.name);
        let r0 = RunView { phase: ReloadPhase::Checking, index: i, replacing: false, ..run };
        let settled = settle_one((registry, run.report), w, run.loader, o);
        let done = RunView { report: settled.1, ..run };
        lemma_wanted_end(done, settled.0, i + 1, o);
        let target = reload::enter_check(done, settled.0, i + 1).0;
        if known && !stale(registry[w.name], w, run.loader, o) {
            assert(reload::reload_next(r0, registry, answer(r0, o)) == (target, registry));
        } else {
            let (r1, g1) = if known {
                (RunView { phase: ReloadPhase::Replacing, replacing: true, ..r0 }, registry.remove(w.name))
            } else {
                (r0, registry)
            };
            if known {
                assert(reload::reload_next(r0, registry, answer(r0, o)) == (r1, g1));
                assert(reload_end(r0, registry, o) == reload_end(r1, g1, o));
            }
            if !run.loader {
                assert(reload::reload_next(r1, g1, answer(r1, o)) == (target, g1));
            } else {
                let r2 = RunView { phase: ReloadPhase::Loading, ..r1 };
                assert(reload::reload_next(r1, g1, answer(r1, o)) == (r2, g1));
                assert(reload_end(r1, g1, o) == reload_end(r2, g1, o));
                match (o.load)(w.name) {
                    Err(e) => {
                        assert(reload::reload_next(r2, g1, answer(r2, o)) == (target, g1));
                    },
                    Ok(record) => {
                        if g1.dom().contains(record.name@) {
                            assert(reload::reload_next(r2, g1, answer(r2, o)) == (target, g1));
                        } else {
                            let g2 = g1.insert(record.name@, record);
                            if !g2.dom().contains(w.name) {
                                assert(reload::reload_next(r2, g1, answer(r2, o)) == (target, g2));
                            } else {
                                let r3 = RunView { phase: ReloadPhase::Initialising, ..r2 };
                                assert(reload::reload_next(r2, g1, answer(r2, o)) == (r3, g2));
                                assert(reload_end(r2, g1, o) == reload_end(r3, g2, o));
                                if (o.init)(w.name) is Some {
                                    assert(reload::reload_next(r3, g2, answer(r3, o)) == (target, g2));
                                } else {
                                    let r4 = RunView { phase: ReloadPhase::Starting, ..r3 };
                                    assert(reload::reload_next(r3, g2, answer(r3, o)) == (r4, g2));
                                    assert(reload_end(r3, g2, o) == reload_end(r4, g2, o));
                                    assert(reload::reload_next(r4, g2, answer(r4, o)) == (target, g2));
                                }
                            }
                        }
                    },
                }
            }
        }
    }
}

proof fn lemma_removals_end(run: RunView, registry: Registry, i: int, o: Outcomes)
    requires
        0 <= i <= run.removals.len(),
    ensures
        ({
            let (r0, g0) = reload::enter_removal(run, registry, i);
            let s = settle_removals((registry, run.report), run.removals, i, o);
            ends_with(
                reload_end(r0, g0, o),
                settle_wanted(s, run.wanted, 0, run.loader, o),
            )
        }),
    decreases run.removals.len() - i,
{
    if i < run.removals.len() {
        let name = run.removals[i];
        if registry.dom().contains(name) {
            let r0 = RunView { phase: ReloadPhase::Removing, index: i, replacing: false, ..run };
            let g0 = registry.remove(name);
            let noted = match (o.stop)(name) {
                Some(e) => reload::report_failed(run.report, name, "stop failed: "@ + e),
                None => run.report,
            };
            let report = ReportView { removed: noted.removed.push(name), ..noted };
            let r1 = RunView { report, ..r0 };
            lemma_removals_end(r1, g0, i + 1, o);
            assert(reload::reload_next(r0, g0, answer(r0, o)) == reload::enter_removal(r1, g0, i + 1));
            law_reload_makes_progress(r0, g0, o);
        } else {
            lemma_removals_end(run, registry, i + 1, o);
        }
    } else {
        lemma_wanted_end(run, registry, 0, o);
    }
}

/// A reload ends, and its end is that of removing what is no longer wanted and then settling
/// the wanted plugins one after the other: no failure keeps the rest from being treated.
pub proof fn law_reload_settles_every_plugin(run: RunView, before: Registry, after: Registry, o: Outcomes)
    requires
        (run, after) == reload::enter_removal(run, before, 0),
    ensures
        ends_with(
            reload_end(run, after, o),
            settle_wanted(
                settle_removals((before, run.report), run.removals, 0, o),
                run.wanted,
                0,
                run.loader,
                o,
            ),
        ),
{
    lemma_removals_end(run, before, 0, o);
}

// ---- what a reload leaves alone ----

proof fn lemma_enter_removal_keeps(run: RunView, registry: Registry, i: int, name: Seq<char>)
    requires
        registry.dom().contains(name),
        !run.removals.contains(name),
        0 <= i,
    ensures
        reload::enter_removal(run, registry, i).1.dom().contains(name),
        reload::enter_removal(run, registry, i).1[name] == registry[name],
        reload::enter_removal(run, registry, i).0.removals == run.removals,
        reload::enter_removal(run, registry, i).0.wanted == run.wanted,
    decreases run.removals.len() - i,
{
    if i < run.removals.len() {
        assert(run.removals.contains(run.removals[i]));
        if !registry.dom().contains(run.removals[i]) {
            lemma_enter_removal_keeps(run, registry, i + 1, name);
        }
    }
}

/// Whatever happens, a step of a reload keeps every plugin that is neither to be removed nor
/// wanted.
pub proof fn law_reload_keeps_other_plugins(
    run: RunView,
    registry: Registry,
    event: EventView,
    name: Seq<char>,
)
    requires
        reload::in_range(run),
        registry.dom().contains(name),
        !run.removals.contains(name),
        !reload::wanted_names(run.wanted).contains(name),
    ensures
        reload::reload_next(run, registry, event).1.dom().contains(name),
        reload::reload_next(run, registry, event).1[name] == registry[name],
        reload::reload_next(run, registry, event).0.removals == run.removals,
        reload::reload_next(run, registry, event).0.wanted == run.wanted,
{
    if !(run.phase is Removing) && !(run.phase is Done) {
        assert(reload::wanted_names(run.wanted)[run.index] == run.wanted[run.index].name);
    }
    match (run.phase, event) {
        (ReloadPhase::Removing, EventView::Stopped(error)) => {
            let at = run.removals[run.index];
            let noted = match error {
                Some(e) => reload::report_failed(run.report, at, "stop failed: "@ + e),
                None => run.report,
            };
            let report = ReportView { removed: noted.removed.push(at), ..noted };
            lemma_enter_removal_keeps(RunView { report, ..run }, registry, run.index + 1, name);
        },
        _ => {},
    }
}

/// Builtin plugins are outside of every reload: they are neither removed nor replaced when it
/// begins, and they are among those that each step keeps.
pub proof fn law_reload_preserves_builtins(
    run: RunView,
    before: Registry,
    after: Registry,
    listing: Seq<Seq<char>>,
    desired: Seq<PluginManifest>,
    loader: bool,
    name: Seq<char>,
)
    requires
        reload::planned(run, before, listing, desired, loader),
        (run, after) == reload::enter_removal(run, before, 0),
        reload::held_by_builtin(before, name),
    ensures
        !run.removals.contains(name),
        !reload::wanted_names(run.wanted).contains(name),
        after.dom().contains(name),
        after[name] == before[name],
{
    assert(!reload::wanted_name(before, desired, name));
    lemma_enter_removal_keeps(run, before, 0, name);
}

/// A configured plugin under the name of a builtin one is refused with a failure.
pub proof fn law_builtin_collision_is_reported(
    builtins: Seq<Seq<char>>,
    wanted: Map<Seq<char>, int>,
    name: Seq<char>,
)
    requires
        builtins.contains(name),
        wanted.dom().contains(name),
    ensures
        reload::collisions(builtins, wanted).contains((name, reload::collision_text())),
    decreases builtins.len(),
{
    let rest = reload::collisions(builtins.drop_last(), wanted);
    let out = reload::collisions(builtins, wanted);
    if builtins.last() == name {
        assert(out[out.len() - 1] == (name, reload::collision_text()));
    } else {
        let i = choose|i: int| 0 <= i < builtins.len() && builtins[i] == name;
        assert(builtins.drop_last()[i] == name);
        law_builtin_collision_is_reported(builtins.drop_last(), wanted, name);
        let k = choose|k: int| 0 <= k < rest.len() && rest[k] == (name, reload::collision_text());
        assert(out[k] == (name, reload::collision_text()));
    }
}

/// Whether every wanted plugin is registered as wanted and, where it could be loaded anew, did not
/// fail.
pub open spec fn up_to_date(
    registry: Registry,
    wanted: Seq<Wanted>,
    loader: bool,
    o: Outcomes,
) -> bool {
    forall|i: int|
        0 <= i < wanted.len() ==> registry.dom().contains((#[trigger] wanted[i]).name) && !stale(
            registry[wanted[i].name],
            wanted[i],
            loader,
            o,
        )
}

proof fn lemma_up_to_date_settles(s: Settled, wanted: Seq<Wanted>, i: int, loader: bool, o: Outcomes)
    requires
        up_to_date(s.0, wanted, loader, o),
        0 <= i,
    ensures
        settle_wanted(s, wanted, i, loader, o) == s,
    decreases wanted.len() - i,
{
    if i < wanted.len() {
        assert(settle_one(s, wanted[i], loader, o) == s);
        lemma_up_to_date_settles(s, wanted, i + 1, loader, o);
    }
}

/// Reloading the configuration that is already in place changes nothing: the same versions with
/// the same content, or with a content that cannot be compared, stay as they are, unless they
/// failed.
pub proof fn law_reload_of_same_set_is_noop(run: RunView, registry: Registry, after: Registry, o: Outcomes)
    requires
        (run, after) == reload::enter_removal(run, registry, 0),
        run.removals.len() == 0,
        up_to_date(registry, run.wanted, run.loader, o),
    ensures
        ends_with(reload_end(run, after, o), (registry, run.report)),
{
    law_reload_settles_every_plugin(run, registry, after, o);
    lemma_up_to_date_settles((registry, run.report), run.wanted, 0, run.loader, o);
}

/// A plugin that failed is tried again at the next reload, whatever its version and content are:
/// its instance is taken out, and what follows is its stop and its load.
pub proof fn law_failed_plugins_are_tried_again(
    run: RunView,
    registry: Registry,
    fingerprint: Option<Seq<char>>,
    error: Option<Seq<char>>,
)
    requires
        run.phase is Checking,
        reload::in_range(run),
        run.loader,
        registry.dom().contains(run.wanted[run.index].name),
    ensures
        ({
            let name = run.wanted[run.index].name;
            let (stopping, without) = reload::reload_next(
                run,
                registry,
                EventView::Fingerprinted(fingerprint, true),
            );
            let (loading, after) = reload::reload_next(
                stopping,
                without,
                EventView::Stopped(error),
            );
            &&& stopping.phase is Replacing
            &&& without == registry.remove(name)
            &&& loading.phase is Loading
            &&& loading.wanted[loading.index].name == name
            &&& after == without
        }),
{
}

// ---- a reload that succeeds ----

/// Whether loading gives each wanted plugin under its name.
pub open spec fn loads_by_name(wanted: Seq<Wanted>, o: Outcomes) -> bool {
    forall|i: int|
        0 <= i < wanted.len() ==> ((o.load)((#[trigger] wanted[i]).name) matches Ok(record)
            && record.name@ == wanted[i].name)
}

proof fn lemma_settle_keeps(
    s: Settled,
    wanted: Seq<Wanted>,
    i: int,
    loader: bool,
    o: Outcomes,
    name: Seq<char>,
)
    requires
        0 <= i,
        loads_by_name(wanted, o),
        forall|k: int| i <= k < wanted.len() ==> (#[trigger] wanted[k]).name != name,
    ensures
        settle_wanted(s, wanted, i, loader, o).0.dom().contains(name) == s.0.dom().contains(name),
        s.0.dom().contains(name) ==> settle_wanted(s, wanted, i, loader, o).0[name] == s.0[name],
    decreases wanted.len() - i,
{
    if i < wanted.len() {
        let next = settle_one(s, wanted[i], loader, o);
        assert(wanted[i].name != name);
        lemma_settle_keeps(next, wanted, i + 1, loader, o, name);
    }
}

proof fn lemma_settle_registers(
    s: Settled,
    wanted: Seq<Wanted>,
    i: int,
    o: Outcomes,
    k: int,
)
    requires
        0 <= i <= k < wanted.len(),
        name_map::ascending(reload::wanted_names(wanted)),
        loads_by_name(wanted, o),
    ensures
        settle_wanted(s, wanted, i, true, o).0.dom().contains(wanted[k].name),
    decreases wanted.len() - i,
{
    let next = settle_one(s, wanted[i], true, o);
    if i == k {
        assert(next.0.dom().contains(wanted[k].name));
        assert forall|j: int| k + 1 <= j < wanted.len() implies (#[trigger] wanted[j]).name
            != wanted[k].name by {
            assert(text::text_lt(reload::wanted_names(wanted)[k], reload::wanted_names(wanted)[j]));
            text::lemma_text_order(wanted[k].name, wanted[j].name, wanted[k].name);
        }
        lemma_settle_keeps(next, wanted, i + 1, true, o, wanted[k].name);
    } else {
        lemma_settle_registers(next, wanted, i + 1, o, k);
    }
}

proof fn lemma_removals_clear(s: Settled, removals: Seq<Seq<char>>, i: int, o: Outcomes, name: Seq<char>)
    requires
        0 <= i,
    ensures
        settle_removals(s, removals, i, o).0.dom().contains(name) ==> s.0.dom().contains(name),
        (exists|k: int| i <= k < removals.len() && removals[k] == name) ==> !settle_removals(
            s,
            removals,
            i,
            o,
        ).0.dom().contains(name),
    decreases removals.len() - i,
{
    if i < removals.len() {
        let (registry, report) = s;
        let at = removals[i];
        if registry.dom().contains(at) {
            let noted = match (o.stop)(at) {
                Some(e) => reload::report_failed(report, at, "stop failed: "@ + e),
                None => report,
            };
            let next = (
                registry.remove(at),
                ReportView { removed: noted.removed.push(at), ..noted },
            );
            lemma_removals_clear(next, removals, i + 1, o, name);
        } else {
            lemma_removals_clear(s, removals, i + 1, o, name);
        }
    }
}

/// Where plugins load under their names, a reload leaves exactly the wanted set beside the
/// builtin plugins: every wanted plugin is registered, and none of those to be removed is.
pub proof fn law_reload_reaches_the_wanted_set(
    run: RunView,
    before: Registry,
    after: Registry,
    listing: Seq<Seq<char>>,
    desired: Seq<PluginManifest>,
    o: Outcomes,
    name: Seq<char>,
)
    requires
        reload::planned(run, before, listing, desired, true),
        (run, after) == reload::enter_removal(run, before, 0),
        loads_by_name(run.wanted, o),
    ensures
        reload_end(run, after, o).1.dom().contains(name) <==> reload::wanted_name(before, desired, name)
            || reload::held_by_builtin(before, name),
{
    law_reload_settles_every_plugin(run, before, after, o);
    let s = settle_removals((before, run.report), run.removals, 0, o);
    lemma_removals_clear((before, run.report), run.removals, 0, o, name);
    if reload::wanted_name(before, desired, name) {
        assert(reload::wanted_names(run.wanted).contains(name));
        let k = choose|k: int| 0 <= k < run.wanted.len() && reload::wanted_names(run.wanted)[k] == name;
        lemma_settle_registers(s, run.wanted, 0, o, k);
    } else {
        assert(!reload::wanted_names(run.wanted).contains(name));
        assert forall|k: int| 0 <= k < run.wanted.len() implies (#[trigger] run.wanted[k]).name
            != name by {
            assert(reload::wanted_names(run.wanted)[k] == run.wanted[k].name);
        }
        lemma_settle_keeps(s, run.wanted, 0, true, o, name);
        if reload::held_by_builtin(before, name) {
            assert(!run.removals.contains(name));
            lemma_removals_keep((before, run.report), run.removals, 0, o, name);
        } else if before.dom().contains(name) {
            assert(run.removals.contains(name));
            let k = choose|k: int| 0 <= k < run.removals.len() && run.removals[k] == name;
            assert(0 <= k < run.removals.len() && run.removals[k] == name);
        }
    }
}

proof fn lemma_removals_keep(s: Settled, removals: Seq<Seq<char>>, i: int, o: Outcomes, name: Seq<char>)
    requires
        0 <= i,
        !removals.contains(name),
    ensures
        settle_removals(s, removals, i, o).0.dom().contains(name) == s.0.dom().contains(name),
    decreases removals.len() - i,
{
    if i < removals.len() {
        let (registry, report) = s;
        let at = removals[i];
        assert(removals.contains(at));
        if registry.dom().contains(at) {
            let noted = match (o.stop)(at) {
                Some(e) => reload::report_failed(report, at, "stop failed: "@ + e),
                None => report,
            };
            let next = (
                registry.remove(at),
                ReportView { removed: noted.removed.push(at), ..noted },
            );
            lemma_removals_keep(next, removals, i + 1, o, name);
        } else {
            lemma_removals_keep(s, removals, i + 1, o, name);
        }
    }
}

} // verus!
