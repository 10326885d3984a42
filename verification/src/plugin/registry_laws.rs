//! What the registry of plugins tells of what was put into it, and how runs over it are read.
use crate::counters::Count;
use crate::name_map;
use crate::plugin::lifecycle::{StartAction, StartRun};
use crate::plugin::manifest::PluginManifest;
use crate::plugin::registry;
use crate::plugin::registry::{PluginManager, PluginRecord, PluginStatus, Registry};
use crate::plugin::reload;
use crate::plugin::reload::{PluginReloadReport, ReloadAction, ReloadRun, RunView};
use crate::text;
use vstd::prelude::*;

verus! {

/// Whether two look-ups found the same record, or both none.
pub open spec fn same_record(a: Option<&PluginRecord>, b: Option<&PluginRecord>) -> bool {
    match (a, b) {
        (Some(x), Some(y)) => *x == *y,
        (None, None) => true,
        _ => false,
    }
}

/// A plugin that is registered is found under its name, and not marked as failed; no other one is
/// touched.
pub proof fn law_registered_plugins_are_found(
    manager: &mut PluginManager,
    plugin: PluginRecord,
    r: Result<(), String>,
    before: PluginManager,
    after: PluginManager,
    name: &str,
    had: Option<&PluginRecord>,
    found: Option<&PluginRecord>,
    other: &str,
    was: Option<&PluginRecord>,
    now: Option<&PluginRecord>,
)
    requires
        name@ == plugin.name@,
        call_ensures(PluginManager::register, (manager, plugin), r),
        before == *old(manager),
        after == *final(manager),
        call_ensures(PluginManager::get, (&before, name), had),
        call_ensures(PluginManager::get, (&after, name), found),
        call_ensures(PluginManager::get, (&before, other), was),
        call_ensures(PluginManager::get, (&after, other), now),
    ensures
        r is Ok <==> had is None,
        r is Ok ==> (found matches Some(x) && *x == plugin),
        r matches Err(e) ==> same_record(had, found) && e@ == "plugin '"@ + name@
            + "' is already registered"@,
        other@ != name@ ==> same_record(was, now),
{
}

/// A plugin that is taken out is handed out, and is not found, nor marked, any more; no other one is
/// touched.
pub proof fn law_unregistered_plugins_are_gone(
    manager: &mut PluginManager,
    name: &str,
    r: Option<PluginRecord>,
    before: PluginManager,
    after: PluginManager,
    had: Option<&PluginRecord>,
    found: Option<&PluginRecord>,
    failed: bool,
    other: &str,
    was: (Option<&PluginRecord>, bool),
    now: (Option<&PluginRecord>, bool),
)
    requires
        call_ensures(PluginManager::unregister, (manager, name), r),
        before == *old(manager),
        after == *final(manager),
        call_ensures(PluginManager::get, (&before, name), had),
        call_ensures(PluginManager::get, (&after, name), found),
        call_ensures(PluginManager::is_failed, (&after, name), failed),
        call_ensures(PluginManager::get, (&before, other), was.0),
        call_ensures(PluginManager::is_failed, (&before, other), was.1),
        call_ensures(PluginManager::get, (&after, other), now.0),
        call_ensures(PluginManager::is_failed, (&after, other), now.1),
    ensures
        had matches Some(x) ==> r == Some(*x),
        had is None ==> r is None,
        found is None && !failed,
        other@ != name@ ==> same_record(was.0, now.0) && was.1 == now.1,
{
}

/// A plugin that is marked as failed counts as failed for that reason, whatever it reports, until the
/// mark is taken away; no other plugin is marked.
pub proof fn law_marked_plugins_are_failed(
    manager: &mut PluginManager,
    name: &str,
    reason: String,
    before: PluginManager,
    after: PluginManager,
    known: Option<&PluginRecord>,
    reported: PluginStatus,
    state: Option<PluginStatus>,
    failed: bool,
    clearing: &mut PluginManager,
    cleared: PluginManager,
    then: Option<PluginStatus>,
    other: &str,
    was: bool,
    now: bool,
)
    requires
        call_ensures(PluginManager::mark_failed, (manager, name, reason), ()),
        before == *old(manager),
        after == *final(manager),
        call_ensures(PluginManager::get, (&before, name), known),
        call_ensures(PluginManager::status_of, (&after, name, reported), state),
        call_ensures(PluginManager::is_failed, (&after, name), failed),
        *old(clearing) == after,
        call_ensures(PluginManager::clear_failure, (clearing, name), ()),
        cleared == *final(clearing),
        call_ensures(PluginManager::status_of, (&cleared, name, reported), then),
        call_ensures(PluginManager::is_failed, (&before, other), was),
        call_ensures(PluginManager::is_failed, (&after, other), now),
    ensures
        known is Some ==> failed && (state matches Some(s) && (s matches PluginStatus::Failed(why)
            && why@ == reason@)) && then == Some(reported),
        known is None ==> !failed && state is None && then is None,
        other@ != name@ ==> was == now,
{
    after.lemma_marks();
}

/// The names that are listed are those that are found, each once and in order; the builtin ones are
/// those among them that carry the marker.
pub proof fn law_listed_plugins_are_found(
    manager: PluginManager,
    names: Vec<String>,
    builtins: Vec<String>,
    count: usize,
    empty: bool,
    name: &str,
    found: Option<&PluginRecord>,
)
    requires
        call_ensures(PluginManager::names, (&manager,), names),
        call_ensures(PluginManager::builtin_names, (&manager,), builtins),
        call_ensures(PluginManager::len, (&manager,), count),
        call_ensures(PluginManager::is_empty, (&manager,), empty),
        call_ensures(PluginManager::get, (&manager, name), found),
    ensures
        found is Some <==> exists|i: int| 0 <= i < names@.len() && (#[trigger] names@[i])@ == name@,
        (found matches Some(x) && x.builtin) <==> exists|i: int|
            0 <= i < builtins@.len() && (#[trigger] builtins@[i])@ == name@,
        forall|i: int, j: int|
            0 <= i < j < names@.len() ==> text::text_lt((#[trigger] names@[i])@, (#[trigger] names@[j])@),
        forall|i: int, j: int|
            0 <= i < j < builtins@.len() ==> text::text_lt(
                (#[trigger] builtins@[i])@,
                (#[trigger] builtins@[j])@,
            ),
        count == names@.len(),
        empty <==> count == 0,
{
    let all = name_map::text_views(names@);
    let own = name_map::text_views(builtins@);
    assert(all.len() == names@.len() && own.len() == builtins@.len());
    if all.contains(name@) {
        let i = choose|i: int| 0 <= i < all.len() && all[i] == name@;
        assert(names@[i]@ == name@);
    }
    if exists|i: int| 0 <= i < names@.len() && (#[trigger] names@[i])@ == name@ {
        let i = choose|i: int| 0 <= i < names@.len() && (#[trigger] names@[i])@ == name@;
        assert(all[i] == name@);
    }
    if own.contains(name@) {
        let i = choose|i: int| 0 <= i < own.len() && own[i] == name@;
        assert(builtins@[i]@ == name@);
    }
    if exists|i: int| 0 <= i < builtins@.len() && (#[trigger] builtins@[i])@ == name@ {
        let i = choose|i: int| 0 <= i < builtins@.len() && (#[trigger] builtins@[i])@ == name@;
        assert(own[i] == name@);
    }
    assert forall|i: int, j: int| 0 <= i < j < names@.len() implies text::text_lt(
        (#[trigger] names@[i])@,
        (#[trigger] names@[j])@,
    ) by {
        assert(text::text_lt(all[i], all[j]));
    }
    assert forall|i: int, j: int| 0 <= i < j < builtins@.len() implies text::text_lt(
        (#[trigger] builtins@[i])@,
        (#[trigger] builtins@[j])@,
    ) by {
        assert(text::text_lt(own[i], own[j]));
    }
}

/// States are named, and only a started plugin is started, only a failed one failed.
pub proof fn law_states_are_told_apart(state: PluginStatus, name: &'static str, started: bool, failed: bool)
    requires
        call_ensures(PluginStatus::as_str, (&state,), name),
        call_ensures(PluginStatus::is_started, (&state,), started),
        call_ensures(PluginStatus::is_failed, (&state,), failed),
    ensures
        state is Loaded ==> name@ == "loaded"@,
        state is Started ==> name@ == "started"@,
        state is Stopped ==> name@ == "stopped"@,
        state is Failed ==> name@ == "failed"@,
        started <==> state is Started,
        failed <==> state is Failed,
{
}

// ---- reloads ----

/// A configured plugin whose name a builtin one holds is reported as failed from the start, and is
/// never wanted.
pub proof fn law_builtin_names_cannot_be_taken(
    run: RunView,
    before: Registry,
    listing: Seq<Seq<char>>,
    desired: Seq<PluginManifest>,
    loader: bool,
    j: int,
)
    requires
        reload::planned(run, before, listing, desired, loader),
        name_map::lists(listing, before),
        0 <= j < desired.len(),
        crate::plugin::manifest::well_formed_manifest(desired[j]),
        before.dom().contains(desired[j].name@),
        before[desired[j].name@].builtin,
    ensures
        run.report.failed.contains(
            (
                desired[j].name@,
                "name collides with a builtin plugin (native service); rename the entry"@,
            ),
        ),
        !reload::wanted_names(run.wanted).contains(desired[j].name@),
        !run.removals.contains(desired[j].name@),
{
    let name = desired[j].name@;
    let by_name = reload::well_formed_by_name(desired);
    let builtins = registry::builtin_among(before, listing);
    lemma_well_formed_is_listed(desired, j);
    assert(listing.contains(name));
    registry::lemma_builtin_among(before, listing, name);
    lemma_collision(builtins, by_name, name);
    let bad = reload::malformed(desired);
    let hits = reload::collisions(builtins, by_name);
    let hit = (name, reload::collision_text());
    let i = choose|i: int| 0 <= i < hits.len() && hits[i] == hit;
    assert(run.report.failed[bad.len() + i] == hit);
}

proof fn lemma_well_formed_is_listed(desired: Seq<PluginManifest>, j: int)
    requires
        0 <= j < desired.len(),
        crate::plugin::manifest::well_formed_manifest(desired[j]),
    ensures
        reload::well_formed_by_name(desired).dom().contains(desired[j].name@),
    decreases desired.len(),
{
    if j < desired.len() - 1 {
        assert(desired.drop_last()[j] == desired[j]);
        lemma_well_formed_is_listed(desired.drop_last(), j);
    }
}

proof fn lemma_collision(builtins: Seq<Seq<char>>, wanted: Map<Seq<char>, int>, name: Seq<char>)
    requires
        builtins.contains(name),
        wanted.dom().contains(name),
    ensures
        reload::collisions(builtins, wanted).contains((name, reload::collision_text())),
    decreases builtins.len(),
{
    let rest = reload::collisions(builtins.drop_last(), wanted);
    let hit = (name, reload::collision_text());
    let last = builtins.last();
    if last == name {
        text::lemma_push_contains(rest, hit, hit);
    } else {
        let i = choose|i: int| 0 <= i < builtins.len() && builtins[i] == name;
        assert(builtins.drop_last()[i] == name);
        lemma_collision(builtins.drop_last(), wanted, name);
        if wanted.dom().contains(last) {
            text::lemma_push_contains(rest, (last, reload::collision_text()), hit);
        }
    }
}

/// A reload acts on the plugin whose turn it is: it stops what goes, and takes the fingerprint of,
/// loads, initialises and starts what is wanted.
pub proof fn law_reloads_act_on_the_plugin_at_hand(run: ReloadRun, r: ReloadAction)
    requires
        call_ensures(ReloadRun::action, (&run,), r),
    ensures
        run@.phase is Removing ==> (r matches ReloadAction::Stop(n) && n@ == run@.removals[run@.index]),
        run@.phase is Checking ==> (r matches ReloadAction::Fingerprint(i) && i == run@.index),
        run@.phase is Replacing ==> (r matches ReloadAction::Stop(n) && n@
            == run@.wanted[run@.index].name),
        run@.phase is Loading ==> (r matches ReloadAction::Load(i) && i == run@.index),
        run@.phase is Initialising ==> (r matches ReloadAction::Init(n) && n@
            == run@.wanted[run@.index].name),
        run@.phase is Starting ==> (r matches ReloadAction::Start(n) && n@
            == run@.wanted[run@.index].name),
        run@.phase is Done ==> r is Finished,
{
}

/// Whether texts are those of some strings, in order.
pub open spec fn spells(v: Seq<String>, texts: Seq<Seq<char>>) -> bool {
    v.len() == texts.len() && forall|i: int| 0 <= i < v.len() ==> (#[trigger] v[i])@ == texts[i]
}

/// The report of a reload is the one that the run has gathered, and every failure in it counts; a
/// reload came to nothing where it added, removed and replaced nothing.
pub proof fn law_reports_say_what_was_done(
    run: ReloadRun,
    r: PluginReloadReport,
    counts: Vec<Count>,
    noop: bool,
    i: int,
)
    requires
        call_ensures(ReloadRun::into_report, (run,), r),
        call_ensures(PluginReloadReport::counts, (&r,), counts),
        call_ensures(PluginReloadReport::is_noop, (&r,), noop),
    ensures
        spells(r.added@, run@.report.added),
        spells(r.removed@, run@.report.removed),
        spells(r.replaced@, run@.report.replaced),
        spells(r.deferred@, run@.report.deferred),
        r.failed@.len() == run@.report.failed.len(),
        0 <= i < r.failed@.len() ==> (r.failed@[i].0@, r.failed@[i].1@) == run@.report.failed[i],
        counts@.len() == r.failed@.len(),
        0 <= i < counts@.len() ==> (counts@[i] matches Count::LoadFailure { plugin } && plugin@
            == r.failed@[i].0@),
        noop <==> r.added@.len() == 0 && r.removed@.len() == 0 && r.replaced@.len() == 0,
{
    lemma_spells(r.added@);
    lemma_spells(r.removed@);
    lemma_spells(r.replaced@);
    lemma_spells(r.deferred@);
    let seen = reload::failure_views(r.failed@);
    assert(seen.len() == r.failed@.len());
    let counted = crate::counters::count_views(counts@);
    assert(counted.len() == counts@.len());
    if 0 <= i < r.failed@.len() {
        assert(seen[i] == (r.failed@[i].0@, r.failed@[i].1@));
        assert(counted[i] == counts@[i]@);
    }
}

proof fn lemma_spells(v: Seq<String>)
    ensures
        spells(v, name_map::text_views(v)),
{
}

// ---- starts ----

/// A start initialises the plugin whose turn it is and then starts it, and hands out in the end which
/// failed and why; each failure counts.
pub proof fn law_starts_act_on_the_plugin_at_hand(
    run: StartRun,
    r: StartAction,
    i: usize,
    name: &str,
    counts: Vec<Count>,
    failures: Vec<(String, String)>,
    k: int,
)
    requires
        call_ensures(StartRun::action, (&run,), r),
        i < run@.names.len(),
        call_ensures(StartRun::name, (&run, i), name),
        call_ensures(StartRun::counts, (&run,), counts),
        call_ensures(StartRun::into_failures, (run,), failures),
    ensures
        r matches StartAction::Init(at) ==> at == run@.at && !run@.starting,
        r matches StartAction::Start(at) ==> at == run@.at && run@.starting,
        r is Done <==> run@.at == run@.names.len(),
        name@ == run@.names[i as int],
        failures@.len() == run@.failures.len() && counts@.len() == failures@.len(),
        0 <= k < failures@.len() ==> (failures@[k].0@, failures@[k].1@) == run@.failures[k] && (
        counts@[k] matches Count::LoadFailure { plugin } && plugin@ == failures@[k].0@),
{
    let seen = reload::failure_views(failures@);
    assert(seen.len() == failures@.len());
    let counted = crate::counters::count_views(counts@);
    assert(counted.len() == counts@.len());
    if 0 <= k < failures@.len() {
        assert(seen[k] == (failures@[k].0@, failures@[k].1@));
        assert(counted[k] == counts@[k]@);
    }
}

} // verus!
