//! Applying a changed plugin configuration: what is removed, replaced, added or put off.
//!
//! The decisions are made here, one step at a time. The surroundings stop, load, initialise and
//! start plugins as they are told and hand back what came of it.
use crate::counters;
use crate::counters::Count;
use crate::name_map::NameMap;
use crate::plugin::manifest::PluginManifest;
use crate::plugin::registry::{PluginManager, PluginRecord};
use crate::text::same_text;
use crate::name_map;
use crate::plugin::manifest;
use crate::plugin::registry;
use crate::text;
use vstd::prelude::*;

verus! {

use crate::plugin::registry::{FailureMarks, Registry};

// ---- report ----

/// What a reload did.
#[derive(Debug)]
pub struct PluginReloadReport {
    /// Newly loaded and started.
    pub added: Vec<String>,
    /// Stopped and taken out.
    pub removed: Vec<String>,
    /// Stopped, loaded anew and started.
    pub replaced: Vec<String>,
    /// Put off because nothing can load them.
    pub deferred: Vec<String>,
    /// Failed, each with its reason.
    pub failed: Vec<(String, String)>,
}

/// A plugin name with the reason of its failure.
pub type Failure = (Seq<char>, Seq<char>);

/// Contents of a report.
pub struct ReportView {
    pub added: Seq<Seq<char>>,
    pub removed: Seq<Seq<char>>,
    pub replaced: Seq<Seq<char>>,
    pub deferred: Seq<Seq<char>>,
    pub failed: Seq<Failure>,
}

/// Contents of a list of failures.
pub open spec fn failure_views(v: Seq<(String, String)>) -> Seq<Failure> {
    Seq::new(v.len(), |i: int| (v[i].0@, v[i].1@))
}

impl View for PluginReloadReport {
    type V = ReportView;

    open spec fn view(&self) -> ReportView {
        ReportView {
            added: name_map::text_views(self.added@),
            removed: name_map::text_views(self.removed@),
            replaced: name_map::text_views(self.replaced@),
            deferred: name_map::text_views(self.deferred@),
            failed: failure_views(self.failed@),
        }
    }
}

/// A report of nothing.
pub open spec fn empty_report() -> ReportView {
    ReportView {
        added: Seq::empty(),
        removed: Seq::empty(),
        replaced: Seq::empty(),
        deferred: Seq::empty(),
        failed: Seq::empty(),
    }
}

impl Default for PluginReloadReport {
    /// A report of nothing.
    fn default() -> (r: Self)
        ensures
            r@ == empty_report(),
    {
        PluginReloadReport::new()
    }
}

impl PluginReloadReport {
    /// What the failures of the reload count for.
    pub fn counts(&self) -> (r: Vec<Count>)
        ensures
            counters::count_views(r@) == counters::failure_counts(self@.failed),
    {
        counters::load_failures(self.failed.as_slice())
    }

    /// A report of nothing.
    pub fn new() -> (r: Self)
        ensures
            r@ == empty_report(),
    {
        let r = PluginReloadReport {
            added: Vec::new(),
            removed: Vec::new(),
            replaced: Vec::new(),
            deferred: Vec::new(),
            failed: Vec::new(),
        };
        assert(r@.added =~= Seq::<Seq<char>>::empty());
        assert(r@.removed =~= Seq::<Seq<char>>::empty());
        assert(r@.replaced =~= Seq::<Seq<char>>::empty());
        assert(r@.deferred =~= Seq::<Seq<char>>::empty());
        assert(r@.failed =~= Seq::<Failure>::empty());
        r
    }

    /// Whether nothing took effect.
    pub fn is_noop(&self) -> (r: bool)
        ensures
            r == (self@.added.len() == 0 && self@.removed.len() == 0 && self@.replaced.len() == 0),
    {
        self.added.len() == 0 && self.removed.len() == 0 && self.replaced.len() == 0
    }

    fn note_failed(&mut self, name: &str, reason: String)
        ensures
            final(self)@ == report_failed(old(self)@, name@, reason@),
    {
        let ghost before = self.failed@;
        self.failed.push((name.to_owned(), reason));
        assert(failure_views(self.failed@) =~= failure_views(before).push((name@, reason@)));
    }

    fn note_removed(&mut self, name: &str)
        ensures
            final(self)@ == (ReportView { removed: old(self)@.removed.push(name@), ..old(self)@ }),
    {
        let ghost before = self.removed@;
        self.removed.push(name.to_owned());
        assert(name_map::text_views(self.removed@) =~= name_map::text_views(before).push(name@));
    }

    fn note_deferred(&mut self, name: &str)
        ensures
            final(self)@ == (ReportView { deferred: old(self)@.deferred.push(name@), ..old(self)@ }),
    {
        let ghost before = self.deferred@;
        self.deferred.push(name.to_owned());
        assert(name_map::text_views(self.deferred@) =~= name_map::text_views(before).push(name@));
    }

    fn note_done(&mut self, name: &str, replacing: bool)
        ensures
            final(self)@ == report_done(old(self)@, name@, replacing),
    {
        if replacing {
            let ghost before = self.replaced@;
            self.replaced.push(name.to_owned());
            assert(name_map::text_views(self.replaced@) =~= name_map::text_views(before).push(name@));
        } else {
            let ghost before = self.added@;
            self.added.push(name.to_owned());
            assert(name_map::text_views(self.added@) =~= name_map::text_views(before).push(name@));
        }
    }
}

/// A report with one more failure.
pub open spec fn report_failed(r: ReportView, name: Seq<char>, reason: Seq<char>) -> ReportView {
    ReportView { failed: r.failed.push((name, reason)), ..r }
}

/// A report with one more plugin in service.
pub open spec fn report_done(r: ReportView, name: Seq<char>, replacing: bool) -> ReportView {
    if replacing {
        ReportView { replaced: r.replaced.push(name), ..r }
    } else {
        ReportView { added: r.added.push(name), ..r }
    }
}

// ---- which plugins are wanted ----

/// Failures of the manifests that are not well formed, in configuration order.
pub open spec fn malformed(desired: Seq<PluginManifest>) -> Seq<Failure>
    decreases desired.len(),
{
    if desired.len() == 0 {
        Seq::empty()
    } else {
        let rest = malformed(desired.drop_last());
        match manifest::manifest_defect(desired.last()) {
            Some(why) => rest.push((desired.last().name@, why)),
            None => rest,
        }
    }
}

/// The well-formed manifests by name; a later one stands in for an earlier one.
pub open spec fn well_formed_by_name(desired: Seq<PluginManifest>) -> Map<Seq<char>, int>
    decreases desired.len(),
{
    if desired.len() == 0 {
        Map::empty()
    } else {
        let rest = well_formed_by_name(desired.drop_last());
        if manifest::well_formed_manifest(desired.last()) {
            rest.insert(desired.last().name@, desired.len() - 1)
        } else {
            rest
        }
    }
}

/// Reason of a configured plugin whose name a builtin plugin holds.
pub open spec fn collision_text() -> Seq<char> {
    "name collides with a builtin plugin (native service); rename the entry"@
}

/// Failures of the wanted plugins whose name a builtin plugin holds, in name order.
pub open spec fn collisions(builtins: Seq<Seq<char>>, wanted: Map<Seq<char>, int>) -> Seq<Failure>
    decreases builtins.len(),
{
    if builtins.len() == 0 {
        Seq::empty()
    } else {
        let rest = collisions(builtins.drop_last(), wanted);
        if wanted.dom().contains(builtins.last()) {
            rest.push((builtins.last(), collision_text()))
        } else {
            rest
        }
    }
}

/// Whether a name is both configured and free for configuration.
pub open spec fn wanted_name(registry: Registry, desired: Seq<PluginManifest>, name: Seq<char>) -> bool {
    well_formed_by_name(desired).dom().contains(name) && !held_by_builtin(registry, name)
}

/// Whether a builtin plugin holds a name.
pub open spec fn held_by_builtin(registry: Registry, name: Seq<char>) -> bool {
    registry.dom().contains(name) && registry[name].builtin
}

/// The index at which a name was last configured well is an index of such a manifest, and no
/// later manifest of that name is well formed.
pub proof fn lemma_well_formed_by_name(desired: Seq<PluginManifest>, name: Seq<char>)
    ensures
        well_formed_by_name(desired).dom().contains(name) ==> ({
            let i = well_formed_by_name(desired)[name];
            &&& 0 <= i < desired.len()
            &&& desired[i].name@ == name
            &&& manifest::well_formed_manifest(desired[i])
            &&& forall|j: int|
                i < j < desired.len() && (#[trigger] desired[j]).name@ == name
                    ==> !manifest::well_formed_manifest(desired[j])
        }),
        !well_formed_by_name(desired).dom().contains(name) ==> forall|j: int|
            0 <= j < desired.len() && (#[trigger] desired[j]).name@ == name
                ==> !manifest::well_formed_manifest(desired[j]),
    decreases desired.len(),
{
    if desired.len() > 0 {
        let init = desired.drop_last();
        lemma_well_formed_by_name(init, name);
        assert forall|j: int| 0 <= j < init.len() implies init[j] == #[trigger] desired[j] by {}
    }
}

// ---- the run ----

/// Where a reload stands.
#[derive(Debug, Clone, Copy, PartialEq, Eq, Structural)]
pub enum ReloadPhase {
    /// A plugin that is no longer wanted is being stopped.
    Removing,
    /// The content of a wanted plugin is being looked at.
    Checking,
    /// The old instance of a wanted plugin is being stopped.
    Replacing,
    /// A wanted plugin is being loaded.
    Loading,
    /// A loaded plugin is being initialised.
    Initialising,
    /// An initialised plugin is being started.
    Starting,
    Done,
}

/// What the surroundings do next.
#[derive(Debug)]
pub enum ReloadAction {
    /// Stop the plugin of that name, which has left the registry.
    Stop(String),
    /// Take the fingerprint of the content that the wanted manifest points to (without a loader
    /// there is none), and see whether the plugin of that name reports that it failed.
    Fingerprint(usize),
    /// Load the wanted manifest.
    Load(usize),
    /// Initialise the registered plugin of that name.
    Init(String),
    /// Start the registered plugin of that name.
    Start(String),
    /// Nothing is left to do.
    Finished,
}

/// What came of an action.
#[derive(Debug)]
pub enum ReloadEvent {
    Stopped(Result<(), String>),
    Fingerprinted { fingerprint: Option<String>, failed: bool },
    Loaded(Result<PluginRecord, String>),
    /// Outcome of initialising or starting.
    Ran(Result<(), String>),
}

/// Contents of an event; an outcome is its error, if any.
pub enum EventView {
    Stopped(Option<Seq<char>>),
    Fingerprinted(Option<Seq<char>>, bool),
    Loaded(Result<PluginRecord, Seq<char>>),
    Ran(Option<Seq<char>>),
}

/// The error of an outcome.
pub open spec fn outcome_error(r: Result<(), String>) -> Option<Seq<char>> {
    match r {
        Ok(_) => None,
        Err(e) => Some(e@),
    }
}

/// Contents of an optional text.
pub open spec fn opt_text(o: Option<String>) -> Option<Seq<char>> {
    match o {
        Some(s) => Some(s@),
        None => None,
    }
}

impl View for ReloadEvent {
    type V = EventView;

    open spec fn view(&self) -> EventView {
        match *self {
            ReloadEvent::Stopped(r) => EventView::Stopped(outcome_error(r)),
            ReloadEvent::Fingerprinted { fingerprint, failed } => EventView::Fingerprinted(
                opt_text(fingerprint),
                failed,
            ),
            ReloadEvent::Loaded(Ok(p)) => EventView::Loaded(Ok(p)),
            ReloadEvent::Loaded(Err(e)) => EventView::Loaded(Err(e@)),
            ReloadEvent::Ran(r) => EventView::Ran(outcome_error(r)),
        }
    }
}

/// A wanted plugin.
pub struct Wanted {
    pub name: Seq<char>,
    pub version: Seq<char>,
}

/// State of a reload.
pub struct RunView {
    /// Registered plugins that are no longer wanted, in name order.
    pub removals: Seq<Seq<char>>,
    /// Wanted plugins, in name order.
    pub wanted: Seq<Wanted>,
    /// Whether plugins can be loaded at all.
    pub loader: bool,
    pub phase: ReloadPhase,
    /// Position in the removals or in the wanted plugins.
    pub index: int,
    /// Whether the wanted plugin at hand had an instance before.
    pub replacing: bool,
    pub report: ReportView,
}

/// State of a reload together with the registry.
pub type RunState = (RunView, Registry);

/// Looks at the wanted plugin at `i`, or ends.
pub open spec fn enter_check(run: RunView, registry: Registry, i: int) -> RunState {
    if i < run.wanted.len() {
        (RunView { phase: ReloadPhase::Checking, index: i, replacing: false, ..run }, registry)
    } else {
        (RunView { phase: ReloadPhase::Done, index: i, replacing: false, ..run }, registry)
    }
}

/// Takes out the next plugin that is no longer wanted and still registered, from position `i`
/// on, or goes on to the wanted ones.
pub open spec fn enter_removal(run: RunView, registry: Registry, i: int) -> RunState
    decreases run.removals.len() - i,
{
    if 0 <= i < run.removals.len() {
        if registry.dom().contains(run.removals[i]) {
            (
                RunView { phase: ReloadPhase::Removing, index: i, replacing: false, ..run },
                registry.remove(run.removals[i]),
            )
        } else {
            enter_removal(run, registry, i + 1)
        }
    } else {
        enter_check(run, registry, 0)
    }
}

/// Loads the wanted plugin at hand, or puts it off where nothing can load it.
pub open spec fn enter_load(run: RunView, registry: Registry) -> RunState {
    if run.loader {
        (RunView { phase: ReloadPhase::Loading, ..run }, registry)
    } else {
        let report = ReportView {
            deferred: run.report.deferred.push(run.wanted[run.index].name),
            ..run.report
        };
        enter_check(RunView { report, ..run }, registry, run.index + 1)
    }
}

/// Records a failure of the wanted plugin at hand and goes on to the next.
pub open spec fn fail_current(run: RunView, registry: Registry, reason: Seq<char>) -> RunState {
    let report = report_failed(run.report, run.wanted[run.index].name, reason);
    enter_check(RunView { report, ..run }, registry, run.index + 1)
}

/// Records that the wanted plugin at hand is in service and goes on to the next.
pub open spec fn finish_current(run: RunView, registry: Registry) -> RunState {
    let report = report_done(run.report, run.wanted[run.index].name, run.replacing);
    enter_check(RunView { report, ..run }, registry, run.index + 1)
}

/// Whether both fingerprints are known and differ.
pub open spec fn content_changed(desired: Option<Seq<char>>, loaded: Option<Seq<char>>) -> bool {
    desired is Some && loaded is Some && desired->0 != loaded->0
}

/// Whether a registered plugin has to give way to the wanted one.
pub open spec fn outdated(record: PluginRecord, wanted: Wanted, desired: Option<Seq<char>>) -> bool {
    record.version@ != wanted.version || content_changed(desired, opt_text(record.fingerprint))
}

/// Whether a registered plugin is replaced: it is outdated, or it failed and can be loaded anew.
pub open spec fn replaceable(
    record: PluginRecord,
    wanted: Wanted,
    desired: Option<Seq<char>>,
    failed: bool,
    loader: bool,
) -> bool {
    outdated(record, wanted, desired) || (failed && loader)
}

/// An event as a reload takes it: a plugin that is marked as failed has failed, whatever it
/// reports.
pub open spec fn seen(run: RunView, marks: FailureMarks, event: EventView) -> EventView {
    match (run.phase, event) {
        (ReloadPhase::Checking, EventView::Fingerprinted(f, failed)) => EventView::Fingerprinted(
            f,
            failed || marks.dom().contains(run.wanted[run.index].name),
        ),
        _ => event,
    }
}

/// The failure marks after an event: those of plugins that left are gone, and a plugin whose
/// initialisation or start failed is marked.
pub open spec fn reload_marks(
    run: RunView,
    marks: FailureMarks,
    event: EventView,
    after: Registry,
) -> FailureMarks {
    let kept = marks.restrict(after.dom());
    match (run.phase, event) {
        (ReloadPhase::Initialising, EventView::Ran(Some(e))) => marked(
            kept,
            after,
            run.wanted[run.index].name,
            "init failed: "@ + e,
        ),
        (ReloadPhase::Starting, EventView::Ran(Some(e))) => marked(
            kept,
            after,
            run.wanted[run.index].name,
            "start failed: "@ + e,
        ),
        _ => kept,
    }
}

/// Failure marks with one more, where the plugin is registered.
pub open spec fn marked(
    marks: FailureMarks,
    registry: Registry,
    name: Seq<char>,
    reason: Seq<char>,
) -> FailureMarks {
    if registry.dom().contains(name) {
        marks.insert(name, reason)
    } else {
        marks
    }
}

/// State after an event. An event that the state does not wait for changes nothing.
pub open spec fn reload_next(run: RunView, registry: Registry, event: EventView) -> RunState {
    match (run.phase, event) {
        (ReloadPhase::Removing, EventView::Stopped(error)) => {
            let name = run.removals[run.index];
            let noted = match error {
                Some(e) => report_failed(run.report, name, "stop failed: "@ + e),
                None => run.report,
            };
            let report = ReportView { removed: noted.removed.push(name), ..noted };
            enter_removal(RunView { report, ..run }, registry, run.index + 1)
        },
        (ReloadPhase::Checking, EventView::Fingerprinted(fingerprint, failed)) => {
            let wanted = run.wanted[run.index];
            if !registry.dom().contains(wanted.name) {
                enter_load(run, registry)
            } else if replaceable(registry[wanted.name], wanted, fingerprint, failed, run.loader) {
                (
                    RunView { phase: ReloadPhase::Replacing, replacing: true, ..run },
                    registry.remove(wanted.name),
                )
            } else {
                enter_check(run, registry, run.index + 1)
            }
        },
        (ReloadPhase::Replacing, EventView::Stopped(_)) => enter_load(run, registry),
        (ReloadPhase::Loading, EventView::Loaded(Err(e))) => fail_current(run, registry, e),
        (ReloadPhase::Loading, EventView::Loaded(Ok(record))) => {
            if registry.dom().contains(record.name@) {
                fail_current(run, registry, registry::already_registered_text(record.name@))
            } else {
                let after = registry.insert(record.name@, record);
                if after.dom().contains(run.wanted[run.index].name) {
                    (RunView { phase: ReloadPhase::Initialising, ..run }, after)
                } else {
                    finish_current(run, after)
                }
            }
        },
        (ReloadPhase::Initialising, EventView::Ran(Some(e))) => fail_current(
            run,
            registry,
            "init failed: "@ + e,
        ),
        (ReloadPhase::Initialising, EventView::Ran(None)) => (
            RunView { phase: ReloadPhase::Starting, ..run },
            registry,
        ),
        (ReloadPhase::Starting, EventView::Ran(Some(e))) => fail_current(
            run,
            registry,
            "start failed: "@ + e,
        ),
        (ReloadPhase::Starting, EventView::Ran(None)) => finish_current(run, registry),
        _ => (run, registry),
    }
}

/// A reload in progress.
#[derive(Debug)]
pub struct ReloadRun {
    removals: Vec<String>,
    wanted: Vec<PluginManifest>,
    loader: bool,
    phase: ReloadPhase,
    index: usize,
    replacing: bool,
    report: PluginReloadReport,
}

/// Names and versions of manifests.
pub open spec fn wanted_views(v: Seq<PluginManifest>) -> Seq<Wanted> {
    Seq::new(v.len(), |i: int| Wanted { name: v[i].name@, version: v[i].version@ })
}

/// Names of wanted plugins.
pub open spec fn wanted_names(v: Seq<Wanted>) -> Seq<Seq<char>> {
    Seq::new(v.len(), |i: int| v[i].name)
}

/// Whether the position of a run is in range.
pub open spec fn in_range(run: RunView) -> bool {
    &&& run.phase is Removing ==> 0 <= run.index < run.removals.len()
    &&& !(run.phase is Removing) && !(run.phase is Done) ==> 0 <= run.index < run.wanted.len()
}

impl ReloadRun {
    /// The wanted manifests in name order.
    pub closed spec fn manifests(&self) -> Seq<PluginManifest> {
        self.wanted@
    }

    /// State of the run.
    pub closed spec fn view(&self) -> RunView {
        RunView {
            removals: name_map::text_views(self.removals@),
            wanted: wanted_views(self.wanted@),
            loader: self.loader,
            phase: self.phase,
            index: self.index as int,
            replacing: self.replacing,
            report: self.report@,
        }
    }

    /// The position stays in range.
    #[verifier::type_invariant]
    pub closed spec fn wf(&self) -> bool {
        in_range(self@)
    }
}

/// Position after the wanted plugins before `i`.
fn settle_check(total: usize, i: usize) -> (r: ReloadPhase)
    ensures
        r == if i < total {
            ReloadPhase::Checking
        } else {
            ReloadPhase::Done
        },
{
    if i < total {
        ReloadPhase::Checking
    } else {
        ReloadPhase::Done
    }
}

/// Takes out the next plugin that is no longer wanted, from position `from` on.
fn settle_removal(
    manager: &mut PluginManager,
    removals: &Vec<String>,
    total: usize,
    from: usize,
    Ghost(run): Ghost<RunView>,
) -> (r: (ReloadPhase, usize))
    requires
        from <= removals@.len(),
        run.removals == name_map::text_views(removals@),
        run.wanted.len() == total,
    ensures
        final(manager).settings() == old(manager).settings(),
        final(manager).marks() == old(manager).marks().restrict(final(manager).registry().dom()),
        r.0 is Removing ==> r.1 < removals@.len(),
        r.0 is Checking ==> r.1 < total,
        r.0 is Removing || r.0 is Checking || r.0 is Done,
        enter_removal(run, old(manager).registry(), from as int) == (
            RunView { phase: r.0, index: r.1 as int, replacing: false, ..run },
            final(manager).registry(),
        ),
{
    let mut i: usize = from;
    while i < removals.len()
        invariant
            i <= removals@.len(),
            run.removals == name_map::text_views(removals@),
            manager.settings() == old(manager).settings(),
            manager.marks() == old(manager).marks(),
            manager.registry() == old(manager).registry(),
            enter_removal(run, old(manager).registry(), from as int) == enter_removal(
                run,
                old(manager).registry(),
                i as int,
            ),
        decreases removals@.len() - i,
    {
        assert(run.removals[i as int] == removals@[i as int]@);
        proof {
            manager.lemma_marks();
        }
        if manager.unregister(removals[i].as_str()).is_some() {
            assert(manager.marks() =~= old(manager).marks().restrict(manager.registry().dom()));
            return (ReloadPhase::Removing, i);
        }
        assert(manager.registry() =~= old(manager).registry());
        assert(manager.marks() =~= old(manager).marks());
        i += 1;
    }
    proof {
        manager.lemma_marks();
    }
    (settle_check(total, 0), 0)
}

/// A text in front of a reason.
fn because(what: &str, reason: &str) -> (r: String)
    ensures
        r@ == what@ + reason@,
{
    let mut s = what.to_owned();
    s.append(reason);
    s
}

/// Whether both fingerprints are known and differ.
fn fingerprints_differ(desired: &Option<String>, loaded: &Option<String>) -> (r: bool)
    ensures
        r == content_changed(opt_text(*desired), opt_text(*loaded)),
{
    match (desired, loaded) {
        (Some(d), Some(l)) => !same_text(d.as_str(), l.as_str()),
        _ => false,
    }
}

impl ReloadRun {
    /// The report so far.
    pub fn report(&self) -> (r: &PluginReloadReport)
        ensures
            r@ == self@.report,
    {
        &self.report
    }

    /// Ends the run and hands over its report.
    pub fn into_report(self) -> (r: PluginReloadReport)
        ensures
            r@ == self@.report,
    {
        self.report
    }

    /// How many plugins are wanted.
    pub fn wanted_len(&self) -> (r: usize)
        ensures
            r == self.manifests().len(),
            r == self@.wanted.len(),
    {
        self.wanted.len()
    }

    /// A wanted manifest.
    pub fn wanted_manifest(&self, i: usize) -> (r: &PluginManifest)
        requires
            i < self.manifests().len(),
        ensures
            *r == self.manifests()[i as int],
    {
        &self.wanted[i]
    }

    /// What the surroundings do next.
    pub fn action(&self) -> (r: ReloadAction)
        ensures
            match self@.phase {
                ReloadPhase::Removing => r matches ReloadAction::Stop(n) && n@
                    == self@.removals[self@.index],
                ReloadPhase::Checking => r matches ReloadAction::Fingerprint(i) && i == self@.index
                    && i < self.manifests().len(),
                ReloadPhase::Replacing => r matches ReloadAction::Stop(n) && n@
                    == self@.wanted[self@.index].name,
                ReloadPhase::Loading => r matches ReloadAction::Load(i) && i == self@.index
                    && i < self.manifests().len(),
                ReloadPhase::Initialising => r matches ReloadAction::Init(n) && n@
                    == self@.wanted[self@.index].name,
                ReloadPhase::Starting => r matches ReloadAction::Start(n) && n@
                    == self@.wanted[self@.index].name,
                ReloadPhase::Done => r is Finished,
            },
    {
        proof {
            use_type_invariant(self);
        }
        match self.phase {
            ReloadPhase::Removing => ReloadAction::Stop(self.removals[self.index].clone()),
            ReloadPhase::Checking => ReloadAction::Fingerprint(self.index),
            ReloadPhase::Replacing => ReloadAction::Stop(self.wanted[self.index].name.clone()),
            ReloadPhase::Loading => ReloadAction::Load(self.index),
            ReloadPhase::Initialising => ReloadAction::Init(self.wanted[self.index].name.clone()),
            ReloadPhase::Starting => ReloadAction::Start(self.wanted[self.index].name.clone()),
            ReloadPhase::Done => ReloadAction::Finished,
        }
    }

    /// Takes in what came of the last action.
    pub fn advance(self, manager: &mut PluginManager, event: ReloadEvent) -> (r: ReloadRun)
        ensures
            (r@, final(manager).registry()) == reload_next(
                self@,
                old(manager).registry(),
                seen(self@, old(manager).marks(), event@),
            ),
            final(manager).settings() == old(manager).settings(),
            final(manager).marks() == reload_marks(
                self@,
                old(manager).marks(),
                event@,
                final(manager).registry(),
            ),
            r.manifests() == self.manifests(),
    {
        proof {
            use_type_invariant(&self);
            manager.lemma_marks();
        }
        let ghost before = self@;
        let ghost noted = manager.marks();
        let ghost given = event@;
        let ReloadRun { removals, wanted, loader, phase, index, replacing, mut report } = self;
        let total: usize = wanted.len();
        let count: usize = removals.len();
        let mut next: ReloadPhase = phase;
        let mut at: usize = index;
        let mut again: bool = replacing;
        match (phase, event) {
            (ReloadPhase::Removing, ReloadEvent::Stopped(outcome)) => {
                let name = removals[index].clone();
                assert(before.removals[index as int] == name@);
                if let Err(e) = outcome {
                    report.note_failed(name.as_str(), because("stop failed: ", e.as_str()));
                }
                report.note_removed(name.as_str());
                let ghost run = RunView { report: report@, ..before };
                let (p, i) = settle_removal(manager, &removals, total, index + 1, Ghost(run));
                next = p;
                at = i;
                again = false;
            },
            (ReloadPhase::Checking, ReloadEvent::Fingerprinted { fingerprint, failed }) => {
                let name = wanted[index].name.clone();
                assert(before.wanted[index as int].name == name@);
                let failed = failed || manager.is_failed(name.as_str());
                let (known, replaced) = match manager.get(name.as_str()) {
                    None => (false, false),
                    Some(record) => (
                        true,
                        !same_text(record.version.as_str(), wanted[index].version.as_str())
                            || fingerprints_differ(&fingerprint, &record.fingerprint) || (failed
                            && loader),
                    ),
                };
                if known && replaced {
                    let _ = manager.unregister(name.as_str());
                    next = ReloadPhase::Replacing;
                    again = true;
                } else if known {
                    next = settle_check(total, index + 1);
                    at = index + 1;
                    again = false;
                } else if loader {
                    next = ReloadPhase::Loading;
                } else {
                    report.note_deferred(name.as_str());
                    next = settle_check(total, index + 1);
                    at = index + 1;
                    again = false;
                }
            },
            (ReloadPhase::Replacing, ReloadEvent::Stopped(_)) => {
                if loader {
                    next = ReloadPhase::Loading;
                } else {
                    let name = wanted[index].name.clone();
                    assert(before.wanted[index as int].name == name@);
                    report.note_deferred(name.as_str());
                    next = settle_check(total, index + 1);
                    at = index + 1;
                    again = false;
                }
            },
            (ReloadPhase::Loading, ReloadEvent::Loaded(outcome)) => {
                let name = wanted[index].name.clone();
                assert(before.wanted[index as int].name == name@);
                match outcome {
                    Err(e) => {
                        report.note_failed(name.as_str(), e);
                        next = settle_check(total, index + 1);
                        at = index + 1;
                        again = false;
                    },
                    Ok(record) => match manager.register(record) {
                        Err(e) => {
                            report.note_failed(name.as_str(), e);
                            next = settle_check(total, index + 1);
                            at = index + 1;
                            again = false;
                        },
                        Ok(_) => {
                            if manager.get(name.as_str()).is_some() {
                                next = ReloadPhase::Initialising;
                            } else {
                                report.note_done(name.as_str(), replacing);
                                next = settle_check(total, index + 1);
                                at = index + 1;
                                again = false;
                            }
                        },
                    },
                }
            },
            (ReloadPhase::Initialising, ReloadEvent::Ran(outcome)) => {
                match outcome {
                    Ok(_) => {
                        next = ReloadPhase::Starting;
                    },
                    Err(e) => {
                        let name = wanted[index].name.clone();
                        assert(before.wanted[index as int].name == name@);
                        let reason = because("init failed: ", e.as_str());
                        manager.mark_failed(name.as_str(), reason.clone());
                        report.note_failed(name.as_str(), reason);
                        next = settle_check(total, index + 1);
                        at = index + 1;
                        again = false;
                    },
                }
            },
            (ReloadPhase::Starting, ReloadEvent::Ran(outcome)) => {
                let name = wanted[index].name.clone();
                assert(before.wanted[index as int].name == name@);
                match outcome {
                    Ok(_) => report.note_done(name.as_str(), replacing),
                    Err(e) => {
                        let reason = because("start failed: ", e.as_str());
                        manager.mark_failed(name.as_str(), reason.clone());
                        report.note_failed(name.as_str(), reason);
                    },
                }
                next = settle_check(total, index + 1);
                at = index + 1;
                again = false;
            },
            _ => {},
        }
        assert(manager.marks() =~= reload_marks(before, noted, given, manager.registry()));
        ReloadRun { removals, wanted, loader, phase: next, index: at, replacing: again, report }
    }
}

/// What a reload starts from: which plugins it removes, which it wants and what it already
/// knows to be wrong.
pub open spec fn planned(
    run: RunView,
    registry: Registry,
    listing: Seq<Seq<char>>,
    desired: Seq<PluginManifest>,
    loader: bool,
) -> bool {
    &&& run.loader == loader
    &&& name_map::ascending(wanted_names(run.wanted))
    &&& forall|n: Seq<char>|
        #[trigger] wanted_names(run.wanted).contains(n) <==> wanted_name(registry, desired, n)
    &&& forall|i: int|
        0 <= i < run.wanted.len() ==> (#[trigger] run.wanted[i]).version
            == desired[well_formed_by_name(desired)[run.wanted[i].name]].version@
    &&& name_map::ascending(run.removals)
    &&& forall|n: Seq<char>|
        #[trigger] run.removals.contains(n) <==> registry.dom().contains(n) && !registry[n].builtin
            && !wanted_name(registry, desired, n)
    &&& run.report == (ReportView {
        failed: malformed(desired) + collisions(
            registry::builtin_among(registry, listing),
            well_formed_by_name(desired),
        ),
        ..empty_report()
    })
}

/// The well-formed manifests by name, with the failures of the others.
fn sort_desired(desired: &[PluginManifest], report: &mut PluginReloadReport) -> (r: NameMap<usize>)
    requires
        old(report)@ == empty_report(),
    ensures
        final(report)@ == (ReportView { failed: malformed(desired@), ..empty_report() }),
        index_map(r@) == well_formed_by_name(desired@),
{
    let mut by_name: NameMap<usize> = NameMap::new();
    let mut i: usize = 0;
    assert(desired@.take(0) =~= Seq::<PluginManifest>::empty());
    assert(index_map(by_name@) =~= well_formed_by_name(desired@.take(0)));
    while i < desired.len()
        invariant
            i <= desired@.len(),
            report@ == (ReportView { failed: malformed(desired@.take(i as int)), ..empty_report() }),
            index_map(by_name@) == well_formed_by_name(desired@.take(i as int)),
        decreases desired@.len() - i,
    {
        assert(desired@.take(i + 1).drop_last() =~= desired@.take(i as int));
        assert(desired@.take(i + 1).last() == desired@[i as int]);
        let ghost before = by_name@;
        match desired[i].validate() {
            Err(e) => report.note_failed(desired[i].name.as_str(), e),
            Ok(_) => {
                let _ = by_name.insert(desired[i].name.clone(), i);
                assert(index_map(by_name@) =~= index_map(before).insert(
                    desired@[i as int].name@,
                    i as int,
                ));
            },
        }
        i += 1;
    }
    assert(desired@.take(desired@.len() as int) =~= desired@);
    by_name
}

/// Positions as integers.
pub open spec fn index_map(m: Map<Seq<char>, usize>) -> Map<Seq<char>, int> {
    Map::new(|k: Seq<char>| m.dom().contains(k), |k: Seq<char>| m[k] as int)
}

/// Drops the names that builtin plugins hold, with a failure for each.
fn drop_collisions(
    builtins: &Vec<String>,
    by_name: &mut NameMap<usize>,
    report: &mut PluginReloadReport,
)
    requires
        name_map::ascending(name_map::text_views(builtins@)),
    ensures
        final(report)@ == (ReportView {
            failed: old(report)@.failed + collisions(
                name_map::text_views(builtins@),
                index_map(old(by_name)@),
            ),
            ..old(report)@
        }),
        forall|n: Seq<char>|
            #[trigger] final(by_name)@.dom().contains(n) <==> old(by_name)@.dom().contains(n)
                && !name_map::text_views(builtins@).contains(n),
        forall|n: Seq<char>|
            #[trigger] final(by_name)@.dom().contains(n) ==> final(by_name)@[n] == old(by_name)@[n],
{
    let ghost names = name_map::text_views(builtins@);
    let ghost all = index_map(by_name@);
    proof {
        crate::name_map::lemma_ascending_distinct(names);
    }
    let mut i: usize = 0;
    assert(names.take(0) =~= Seq::<Seq<char>>::empty());
    assert(report@.failed + collisions(names.take(0), all) =~= report@.failed);
    while i < builtins.len()
        invariant
            i <= builtins@.len(),
            names == name_map::text_views(builtins@),
            names.no_duplicates(),
            all == index_map(old(by_name)@),
            report@ == (ReportView {
                failed: old(report)@.failed + collisions(names.take(i as int), all),
                ..old(report)@
            }),
            forall|n: Seq<char>|
                #[trigger] by_name@.dom().contains(n) <==> old(by_name)@.dom().contains(n)
                    && !names.take(i as int).contains(n),
            forall|n: Seq<char>| #[trigger] by_name@.dom().contains(n) ==> by_name@[n]
                == old(by_name)@[n],
        decreases builtins@.len() - i,
    {
        let name = builtins[i].as_str();
        assert(names[i as int] == name@);
        assert(names.take(i + 1).drop_last() =~= names.take(i as int));
        assert(names.take(i + 1).last() == name@);
        assert(!names.take(i as int).contains(name@));
        let ghost failed = report@.failed;
        let ghost held = by_name@;
        if by_name.remove(name).is_some() {
            report.note_failed(
                name,
                "name collides with a builtin plugin (native service); rename the entry".to_owned(),
            );
            assert(report@.failed =~= old(report)@.failed + collisions(names.take(i + 1), all));
        }
        assert forall|n: Seq<char>| #[trigger] by_name@.dom().contains(n)
            <==> old(by_name)@.dom().contains(n) && !names.take(i + 1).contains(n) by {
            assert(names.take(i + 1) =~= names.take(i as int).push(name@));
            lemma_push_contains(names.take(i as int), name@, n);
        }
        i += 1;
    }
    assert(names.take(names.len() as int) =~= names);
}

/// Copies of the wanted manifests, in name order.
fn take_wanted(desired: &[PluginManifest], by_name: &NameMap<usize>) -> (r: Vec<PluginManifest>)
    requires
        forall|n: Seq<char>|
            #[trigger] by_name@.dom().contains(n) ==> by_name@[n] < desired@.len()
                && desired@[by_name@[n] as int].name@ == n,
    ensures
        wanted_names(wanted_views(r@)) == by_name.keys(),
        forall|i: int|
            0 <= i < r@.len() ==> manifest::same_manifest(
                #[trigger] r@[i],
                desired@[by_name@[by_name.keys()[i]] as int],
            ),
{
    proof {
        use_type_invariant(by_name);
        by_name.lemma_listing();
    }
    let mut out: Vec<PluginManifest> = Vec::new();
    let mut i: usize = 0;
    while i < by_name.len()
        invariant
            i <= by_name.keys().len(),
            by_name.keys().len() == by_name.vals().len(),
            out@.len() == i,
            forall|n: Seq<char>|
                #[trigger] by_name@.dom().contains(n) ==> by_name@[n] < desired@.len()
                    && desired@[by_name@[n] as int].name@ == n,
            forall|k: int|
                0 <= k < by_name.keys().len() ==> by_name@.dom().contains(#[trigger] by_name.keys()[k])
                    && by_name@[by_name.keys()[k]] == by_name.vals()[k],
            forall|k: int|
                0 <= k < i ==> manifest::same_manifest(
                    #[trigger] out@[k],
                    desired@[by_name@[by_name.keys()[k]] as int],
                ) && out@[k].name@ == by_name.keys()[k],
        decreases by_name.keys().len() - i,
    {
        let at: usize = *by_name.value_at(i);
        assert(by_name@.dom().contains(by_name.keys()[i as int]));
        out.push(desired[at].clone());
        i += 1;
    }
    assert(wanted_names(wanted_views(out@)) =~= by_name.keys());
    out
}

/// The registered plugins that are neither built in nor wanted, in name order.
fn find_removals(manager: &PluginManager, by_name: &NameMap<usize>) -> (r: Vec<String>)
    ensures
        name_map::ascending(name_map::text_views(r@)),
        forall|n: Seq<char>|
            #[trigger] name_map::text_views(r@).contains(n) <==> manager.registry().dom().contains(n)
                && !manager.registry()[n].builtin && !by_name@.dom().contains(n),
{
    let names = manager.names();
    let ghost all = name_map::text_views(names@);
    proof {
        crate::name_map::lemma_ascending_distinct(all);
    }
    let mut out: Vec<String> = Vec::new();
    let mut i: usize = 0;
    while i < names.len()
        invariant
            i <= names@.len(),
            all == name_map::text_views(names@),
            name_map::ascending(all),
            forall|n: Seq<char>| #[trigger] manager.registry().dom().contains(n) <==> all.contains(n),
            name_map::ascending(name_map::text_views(out@)),
            forall|k: int| 0 <= k < out@.len() ==> #[trigger] name_map::text_views(out@)[k] == out@[k]@,
            forall|k: int, j: int|
                0 <= k < out@.len() && i <= j < all.len() ==> text::text_lt(
                    #[trigger] name_map::text_views(out@)[k],
                    #[trigger] all[j],
                ),
            forall|n: Seq<char>|
                #[trigger] name_map::text_views(out@).contains(n) <==> all.take(i as int).contains(n)
                    && !manager.registry()[n].builtin && !by_name@.dom().contains(n),
        decreases names@.len() - i,
    {
        let name = names[i].as_str();
        let ghost before = out@;
        assert(all[i as int] == name@);
        assert(all.contains(name@));
        assert(manager.registry().dom().contains(name@));
        let builtin = match manager.get(name) {
            Some(record) => record.builtin,
            None => false,
        };
        let keep = !builtin && !by_name.contains(name);
        if keep {
            out.push(names[i].clone());
            assert(name_map::text_views(out@) =~= name_map::text_views(before).push(name@));
        }
        assert(all.take(i + 1) =~= all.take(i as int).push(name@));
        assert forall|n: Seq<char>| #[trigger] name_map::text_views(out@).contains(n) <==> all.take(
            i + 1,
        ).contains(n) && !manager.registry()[n].builtin && !by_name@.dom().contains(n) by {
            lemma_push_contains(all.take(i as int), name@, n);
            if keep {
                lemma_push_contains(name_map::text_views(before), name@, n);
            }
        }
        i += 1;
    }
    assert(all.take(all.len() as int) =~= all);
    out
}

/// What a longer sequence holds.
proof fn lemma_push_contains(s: Seq<Seq<char>>, x: Seq<char>, y: Seq<char>)
    ensures
        s.push(x).contains(y) <==> s.contains(y) || x == y,
{
    text::lemma_push_contains(s, x, y);
}

impl PluginManager {
    /// Begins to apply a changed configuration. `loader` says whether plugins can be loaded.
    pub fn reload(&mut self, desired: &[PluginManifest], loader: bool) -> (r: ReloadRun)
        ensures
            planned(r@, old(self).registry(), old(self).listing(), desired@, loader),
            (r@, final(self).registry()) == enter_removal(r@, old(self).registry(), 0),
            final(self).settings() == old(self).settings(),
            final(self).marks() == old(self).marks().restrict(final(self).registry().dom()),
            forall|i: int|
                0 <= i < r.manifests().len() ==> manifest::same_manifest(
                    #[trigger] r.manifests()[i],
                    desired@[well_formed_by_name(desired@)[r@.wanted[i].name]],
                ),
            r.manifests().len() == r@.wanted.len(),
    {
        let ghost registry = self.registry();
        let mut report = PluginReloadReport::new();
        let mut by_name = sort_desired(desired, &mut report);
        let ghost all = by_name@;
        let builtins = self.builtin_names();
        drop_collisions(&builtins, &mut by_name, &mut report);
        proof {
            assert forall|n: Seq<char>| #[trigger] by_name@.dom().contains(n) implies by_name@[n]
                < desired@.len() && desired@[by_name@[n] as int].name@ == n by {
                lemma_well_formed_by_name(desired@, n);
                assert(index_map(all).dom().contains(n));
            }
            assert forall|n: Seq<char>| #[trigger] by_name@.dom().contains(n) <==> wanted_name(
                registry,
                desired@,
                n,
            ) by {
                assert(index_map(all).dom().contains(n) <==> all.dom().contains(n));
                assert(name_map::text_views(builtins@).contains(n) <==> held_by_builtin(registry, n));
            }
        }
        let wanted = take_wanted(desired, &by_name);
        let removals = find_removals(&*self, &by_name);
        let ghost run = RunView {
            removals: name_map::text_views(removals@),
            wanted: wanted_views(wanted@),
            loader,
            phase: ReloadPhase::Done,
            index: 0,
            replacing: false,
            report: report@,
        };
        proof {
            use_type_invariant(&by_name);
            by_name.lemma_listing();
        }
        let total: usize = wanted.len();
        let (phase, index) = settle_removal(self, &removals, total, 0, Ghost(run));
        let r = ReloadRun { removals, wanted, loader, phase, index, replacing: false, report };
        proof {
            lemma_enter_removal_forgets(run, r@, registry, 0);
            assert(wanted_names(r@.wanted) == by_name.keys());
            assert(r@.report.failed =~= malformed(desired@) + collisions(
                registry::builtin_among(registry, old(self).listing()),
                well_formed_by_name(desired@),
            ));
            assert forall|n: Seq<char>| #[trigger] wanted_names(r@.wanted).contains(n)
                <==> wanted_name(registry, desired@, n) by {
                assert(by_name@.dom().contains(n) <==> by_name.keys().contains(n));
            }
            assert forall|n: Seq<char>| #[trigger] r@.removals.contains(n)
                <==> registry.dom().contains(n) && !registry[n].builtin && !wanted_name(
                registry,
                desired@,
                n,
            ) by {
                assert(by_name@.dom().contains(n) <==> wanted_name(registry, desired@, n));
            }
            assert forall|i: int| 0 <= i < r@.wanted.len() implies (#[trigger] r@.wanted[i]).version
                == desired@[well_formed_by_name(desired@)[r@.wanted[i].name]].version@ by {
                let n = by_name.keys()[i];
                assert(wanted_names(r@.wanted)[i] == n);
                assert(by_name@.dom().contains(n));
                assert(index_map(all)[n] == by_name@[n]);
                assert(manifest::same_manifest(r.manifests()[i], desired@[by_name@[n] as int]));
            }
            assert forall|i: int| 0 <= i < r.manifests().len() implies manifest::same_manifest(
                #[trigger] r.manifests()[i],
                desired@[well_formed_by_name(desired@)[r@.wanted[i].name]],
            ) by {
                let n = by_name.keys()[i];
                assert(wanted_names(r@.wanted)[i] == n);
                assert(by_name@.dom().contains(n));
                assert(index_map(all)[n] == by_name@[n]);
            }
        }
        r
    }
}

/// Where the removals start does not depend on where a run stood before.
proof fn lemma_enter_removal_forgets(a: RunView, b: RunView, registry: Registry, i: int)
    requires
        a.removals == b.removals,
        a.wanted == b.wanted,
        a.loader == b.loader,
        a.report == b.report,
    ensures
        enter_removal(a, registry, i) == enter_removal(b, registry, i),
    decreases a.removals.len() - i,
{
    if 0 <= i < a.removals.len() && !registry.dom().contains(a.removals[i]) {
        lemma_enter_removal_forgets(a, b, registry, i + 1);
    }
}

} // verus!
