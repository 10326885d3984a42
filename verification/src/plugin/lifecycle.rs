//! Starting plugins: each is initialised and started, and one that fails does not hold up the rest.
use crate::counters;
use crate::counters::Count;
use crate::name_map;
use crate::plugin::grpc::AgentGrpcService;
use crate::plugin::registry::{FailureMarks, PluginManager, PluginStatus, Registry};
use crate::plugin::reload;
use crate::plugin::reload::Failure;
use vstd::prelude::*;

verus! {

/// What is to be done next.
#[derive(Debug, Clone, Copy, PartialEq, Eq, Structural)]
pub enum StartAction {
    /// Initialise the plugin at this place.
    Init(usize),
    /// Start the plugin at this place.
    Start(usize),
    Done,
}

/// A start of plugins under way.
#[derive(Debug)]
pub struct StartRun {
    names: Vec<String>,
    at: usize,
    starting: bool,
    failures: Vec<(String, String)>,
}

/// Contents of [`StartRun`].
pub struct StartView {
    /// The plugins in the order of their start.
    pub names: Seq<Seq<char>>,
    /// Place of the plugin whose turn it is.
    pub at: int,
    /// Whether that plugin is initialised.
    pub starting: bool,
    /// The plugins that failed so far, with the reason.
    pub failures: Seq<Failure>,
}

/// Reason of a failed step.
pub open spec fn step_failure(starting: bool, error: Seq<char>) -> Seq<char> {
    if starting {
        "start failed: "@ + error
    } else {
        "init failed: "@ + error
    }
}

/// The run after a step succeeded (no error) or failed.
pub open spec fn start_next(run: StartView, error: Option<Seq<char>>) -> StartView {
    if run.at >= run.names.len() {
        run
    } else {
        match error {
            Some(e) => StartView {
                at: run.at + 1,
                starting: false,
                failures: run.failures.push((run.names[run.at], step_failure(run.starting, e))),
                ..run
            },
            None => if run.starting {
                StartView { at: run.at + 1, starting: false, ..run }
            } else {
                StartView { starting: true, ..run }
            },
        }
    }
}

/// The failure marks after a step succeeded (no error) or failed.
pub open spec fn marks_next(
    run: StartView,
    registry: Registry,
    marks: FailureMarks,
    error: Option<Seq<char>>,
) -> FailureMarks {
    if run.at >= run.names.len() {
        marks
    } else {
        let name = run.names[run.at];
        match error {
            Some(e) => if registry.dom().contains(name) {
                marks.insert(name, step_failure(run.starting, e))
            } else {
                marks
            },
            None => if run.starting {
                marks.remove(name)
            } else {
                marks
            },
        }
    }
}

impl View for StartRun {
    type V = StartView;

    closed spec fn view(&self) -> StartView {
        StartView {
            names: name_map::text_views(self.names@),
            at: self.at as int,
            starting: self.starting,
            failures: reload::failure_views(self.failures@),
        }
    }
}

impl StartRun {
    #[verifier::type_invariant]
    closed spec fn wf(&self) -> bool {
        self.at <= self.names@.len()
    }

    /// What is to be done next.
    pub fn action(&self) -> (r: StartAction)
        ensures
            match r {
                StartAction::Init(i) => i < self@.names.len() && i == self@.at && !self@.starting,
                StartAction::Start(i) => i < self@.names.len() && i == self@.at && self@.starting,
                StartAction::Done => self@.at == self@.names.len(),
            },
    {
        proof {
            use_type_invariant(self);
        }
        if self.at >= self.names.len() {
            StartAction::Done
        } else if self.starting {
            StartAction::Start(self.at)
        } else {
            StartAction::Init(self.at)
        }
    }

    /// The plugin at a place.
    pub fn name(&self, i: usize) -> (r: &str)
        requires
            i < self@.names.len(),
        ensures
            r@ == self@.names[i as int],
    {
        self.names[i].as_str()
    }

    /// The run after the step that was to be done. A plugin that failed is marked so, and one that
    /// started is not marked any more.
    pub fn advance(self, manager: &mut PluginManager, outcome: Result<(), String>) -> (r: StartRun)
        ensures
            r@ == start_next(self@, reload::outcome_error(outcome)),
            final(manager).registry() == old(manager).registry(),
            final(manager).listing() == old(manager).listing(),
            final(manager).settings() == old(manager).settings(),
            final(manager).marks() == marks_next(
                self@,
                old(manager).registry(),
                old(manager).marks(),
                reload::outcome_error(outcome),
            ),
    {
        proof {
            use_type_invariant(&self);
        }
        let StartRun { names, at, starting, mut failures } = self;
        if at >= names.len() {
            return StartRun { names, at, starting, failures };
        }
        match outcome {
            Err(e) => {
                let mut reason = if starting {
                    "start failed: ".to_owned()
                } else {
                    "init failed: ".to_owned()
                };
                reason.append(e.as_str());
                let ghost before = failures@;
                manager.mark_failed(names[at].as_str(), reason.clone());
                failures.push((names[at].clone(), reason));
                assert(reload::failure_views(failures@) =~= reload::failure_views(before).push(
                    (names@[at as int]@, step_failure(starting, e@)),
                ));
                StartRun { names, at: at + 1, starting: false, failures }
            },
            Ok(_) => {
                if starting {
                    manager.clear_failure(names[at].as_str());
                    StartRun { names, at: at + 1, starting: false, failures }
                } else {
                    StartRun { names, at, starting: true, failures }
                }
            },
        }
    }

    /// What the failures so far count for.
    pub fn counts(&self) -> (r: Vec<Count>)
        ensures
            counters::count_views(r@) == counters::failure_counts(self@.failures),
    {
        counters::load_failures(self.failures.as_slice())
    }

    /// The plugins that failed, with the reason; none where all started.
    pub fn into_failures(self) -> (r: Vec<(String, String)>)
        ensures
            reload::failure_views(r@) == self@.failures,
    {
        self.failures
    }
}

/// A start of plugins before its first step.
pub open spec fn fresh_start(names: Seq<Seq<char>>) -> StartView {
    StartView { names, at: 0, starting: false, failures: Seq::empty() }
}

impl PluginManager {
    /// Starts all registered plugins, in the order of their names.
    pub fn start_all(&self) -> (r: StartRun)
        ensures
            r@ == fresh_start(self.listing()),
            name_map::lists(self.listing(), self.registry()),
    {
        let names = self.names();
        let failures: Vec<(String, String)> = Vec::new();
        assert(reload::failure_views(failures@) =~= Seq::<Failure>::empty());
        StartRun { names, at: 0, starting: false, failures }
    }

    /// The call surfaces to mount, in the order of the plugins' names: those of plugins that are
    /// started and have one.
    pub fn grpc_services(&self, states: &[(PluginStatus, Option<AgentGrpcService>)]) -> (r: Vec<
        AgentGrpcService,
    >)
        requires
            states@.len() == self.listing().len(),
        ensures
            r@ == mounted(states@),
    {
        let mut out: Vec<AgentGrpcService> = Vec::new();
        let mut i: usize = 0;
        while i < states.len()
            invariant
                i <= states@.len(),
                out@ == mounted(states@.take(i as int)),
            decreases states@.len() - i,
        {
            assert(states@.take(i + 1).drop_last() =~= states@.take(i as int));
            if states[i].0.is_started() {
                if let Some(service) = states[i].1 {
                    out.push(service);
                }
            }
            i += 1;
        }
        assert(states@.take(states@.len() as int) =~= states@);
        out
    }
}

/// The call surfaces of started plugins, in order.
pub open spec fn mounted(states: Seq<(PluginStatus, Option<AgentGrpcService>)>) -> Seq<AgentGrpcService>
    decreases states.len(),
{
    if states.len() == 0 {
        Seq::empty()
    } else {
        let rest = mounted(states.drop_last());
        match states.last() {
            (PluginStatus::Started, Some(service)) => rest.push(service),
            _ => rest,
        }
    }
}

/// A plugin that is not started mounts nothing: the surfaces are those without it.
pub proof fn law_unstarted_plugins_mount_nothing(
    states: Seq<(PluginStatus, Option<AgentGrpcService>)>,
    i: int,
)
    requires
        0 <= i < states.len(),
        states[i].0 !is Started,
    ensures
        mounted(states) == mounted(states.remove(i)),
    decreases states.len(),
{
    if i == states.len() - 1 {
        assert(states.remove(i) =~= states.drop_last());
    } else {
        let without = states.remove(i);
        law_unstarted_plugins_mount_nothing(states.drop_last(), i);
        assert(states.drop_last().remove(i) =~= without.drop_last());
        assert(without.last() == states.last());
    }
}

// ---- what a start comes to ----

/// How the steps of each plugin turn out: the error, where there is one.
pub struct StartOutcomes {
    pub init: spec_fn(Seq<char>) -> Option<Seq<char>>,
    pub start: spec_fn(Seq<char>) -> Option<Seq<char>>,
}

/// How the step at hand turns out.
pub open spec fn step_outcome(run: StartView, o: StartOutcomes) -> Option<Seq<char>> {
    let name = run.names[run.at];
    if run.starting {
        (o.start)(name)
    } else {
        (o.init)(name)
    }
}

/// Steps still to be done, at most.
pub open spec fn start_steps_left(run: StartView) -> int {
    2 * (run.names.len() - run.at) - (if run.starting {
        1int
    } else {
        0int
    })
}

/// The run when nothing is left to be done.
pub open spec fn start_end(run: StartView, o: StartOutcomes) -> StartView
    decreases start_steps_left(run),
{
    if run.at >= run.names.len() || run.at < 0 {
        run
    } else {
        start_end(start_next(run, step_outcome(run, o)), o)
    }
}

/// Why a plugin does not come up, where it does not.
pub open spec fn start_failure(name: Seq<char>, o: StartOutcomes) -> Option<Seq<char>> {
    match (o.init)(name) {
        Some(e) => Some(step_failure(false, e)),
        None => match (o.start)(name) {
            Some(e) => Some(step_failure(true, e)),
            None => None,
        },
    }
}

/// The plugins that do not come up, in order, with the reason.
pub open spec fn start_failures(names: Seq<Seq<char>>, o: StartOutcomes) -> Seq<Failure>
    decreases names.len(),
{
    if names.len() == 0 {
        Seq::empty()
    } else {
        let rest = start_failures(names.drop_last(), o);
        match start_failure(names.last(), o) {
            Some(e) => rest.push((names.last(), e)),
            None => rest,
        }
    }
}

proof fn lemma_start_end(run: StartView, o: StartOutcomes)
    requires
        0 <= run.at <= run.names.len(),
        !run.starting,
        run.failures == start_failures(run.names.take(run.at), o),
    ensures
        start_end(run, o) == (StartView {
            at: run.names.len() as int,
            starting: false,
            failures: start_failures(run.names, o),
            ..run
        }),
    decreases run.names.len() - run.at,
{
    if run.at == run.names.len() {
        assert(run.names.take(run.at) =~= run.names);
    } else {
        let name = run.names[run.at];
        let upto = run.names.take(run.at + 1);
        assert(upto.drop_last() =~= run.names.take(run.at));
        assert(upto.last() == name);
        let next = start_next(run, (o.init)(name));
        assert(start_end(run, o) == start_end(next, o));
        if (o.init)(name) is Some {
            lemma_start_end(next, o);
        } else {
            let after = start_next(next, (o.start)(name));
            assert(start_end(next, o) == start_end(after, o));
            lemma_start_end(after, o);
        }
    }
}

/// Every plugin gets its turn, whatever the others do: the failures are exactly those of the
/// plugins whose own initialisation or start fails, each with its own reason.
pub proof fn law_start_isolates_failures(names: Seq<Seq<char>>, o: StartOutcomes)
    ensures
        start_end(fresh_start(names), o).at == names.len(),
        start_end(fresh_start(names), o).failures == start_failures(names, o),
        forall|f: Failure|
            #[trigger] start_failures(names, o).contains(f) <==> names.contains(f.0)
                && start_failure(f.0, o) == Some(f.1),
{
    assert(names.take(0) =~= Seq::<Seq<char>>::empty());
    lemma_start_end(fresh_start(names), o);
    assert forall|f: Failure| #[trigger] start_failures(names, o).contains(f) <==> names.contains(f.0)
        && start_failure(f.0, o) == Some(f.1) by {
        lemma_start_failures(names, o, f);
    }
}

/// The failure marks when nothing is left to be done.
pub open spec fn marks_end(
    run: StartView,
    registry: Registry,
    marks: FailureMarks,
    o: StartOutcomes,
) -> FailureMarks
    decreases start_steps_left(run),
{
    if run.at >= run.names.len() || run.at < 0 {
        marks
    } else {
        let error = step_outcome(run, o);
        marks_end(start_next(run, error), registry, marks_next(run, registry, marks, error), o)
    }
}

/// The failure marks that a start leaves: a plugin that does not come up is marked with the reason,
/// one that comes up is not marked, and the others keep their marks.
pub open spec fn marked_as_failed(
    names: Seq<Seq<char>>,
    before: FailureMarks,
    after: FailureMarks,
    o: StartOutcomes,
) -> bool {
    forall|n: Seq<char>|
        #![trigger after.dom().contains(n)]
        if names.contains(n) {
            match start_failure(n, o) {
                Some(e) => after.dom().contains(n) && after[n] == e,
                None => !after.dom().contains(n),
            }
        } else {
            after.dom().contains(n) == before.dom().contains(n) && (before.dom().contains(n)
                ==> after[n] == before[n])
        }
}

proof fn lemma_marks_end(
    run: StartView,
    registry: Registry,
    before: FailureMarks,
    marks: FailureMarks,
    o: StartOutcomes,
)
    requires
        0 <= run.at <= run.names.len(),
        !run.starting,
        forall|n: Seq<char>| #[trigger] run.names.contains(n) ==> registry.dom().contains(n),
        marked_as_failed(run.names.take(run.at), before, marks, o),
    ensures
        marked_as_failed(run.names, before, marks_end(run, registry, marks, o), o),
    decreases run.names.len() - run.at,
{
    if run.at == run.names.len() {
        assert(run.names.take(run.at) =~= run.names);
    } else {
        let name = run.names[run.at];
        let upto = run.names.take(run.at + 1);
        assert(run.names.contains(name));
        assert(upto =~= run.names.take(run.at).push(name));
        assert forall|n: Seq<char>| #[trigger] upto.contains(n) <==> run.names.take(
            run.at,
        ).contains(n) || n == name by {
            if upto.contains(n) && n != name {
                let i = choose|i: int| 0 <= i < upto.len() && upto[i] == n;
                assert(run.names.take(run.at)[i] == n);
            }
            if run.names.take(run.at).contains(n) {
                let i = choose|i: int| 0 <= i < run.at && run.names.take(run.at)[i] == n;
                assert(upto[i] == n);
            }
            assert(upto[run.at] == name);
        }
        let next = start_next(run, (o.init)(name));
        let marks1 = marks_next(run, registry, marks, (o.init)(name));
        assert(marks_end(run, registry, marks, o) == marks_end(next, registry, marks1, o));
        if (o.init)(name) is Some {
            assert(marked_as_failed(upto, before, marks1, o));
            lemma_marks_end(next, registry, before, marks1, o);
        } else {
            let after = start_next(next, (o.start)(name));
            let marks2 = marks_next(next, registry, marks1, (o.start)(name));
            assert(marks_end(next, registry, marks1, o) == marks_end(after, registry, marks2, o));
            assert(marked_as_failed(upto, before, marks2, o));
            lemma_marks_end(after, registry, before, marks2, o);
        }
    }
}

/// After a start of all registered plugins exactly those that did not come up are marked as failed,
/// each with its own reason.
pub proof fn law_start_marks_failures(
    names: Seq<Seq<char>>,
    registry: Registry,
    marks: FailureMarks,
    o: StartOutcomes,
)
    requires
        name_map::lists(names, registry),
    ensures
        marked_as_failed(names, marks, marks_end(fresh_start(names), registry, marks, o), o),
{
    assert(names.take(0) =~= Seq::<Seq<char>>::empty());
    lemma_marks_end(fresh_start(names), registry, marks, marks, o);
}

proof fn lemma_start_failures(names: Seq<Seq<char>>, o: StartOutcomes, f: Failure)
    ensures
        start_failures(names, o).contains(f) <==> names.contains(f.0) && start_failure(f.0, o)
            == Some(f.1),
    decreases names.len(),
{
    broadcast use vstd::seq_lib::group_seq_properties;

    if names.len() > 0 {
        let init = names.drop_last();
        let rest = start_failures(init, o);
        lemma_start_failures(init, o, f);
        assert(names =~= init.push(names.last()));
    }
}

/// Once every plugin had its turn, one is among the failures exactly where its own initialisation
/// failed, or its start after that, and the reason says which; whatever the others do.
pub proof fn law_each_plugin_fails_for_itself(names: Seq<Seq<char>>, o: StartOutcomes, n: Seq<char>, why: Seq<char>)
    requires
        names.contains(n),
    ensures
        ({
            let end = start_end(fresh_start(names), o);
            &&& end.at == names.len()
            &&& (o.init)(n) matches Some(e) ==> (end.failures.contains((n, why)) <==> why
                == "init failed: "@ + e)
            &&& (o.init)(n) is None ==> ((o.start)(n) matches Some(e) ==> (end.failures.contains(
                (n, why),
            ) <==> why == "start failed: "@ + e))
            &&& (o.init)(n) is None && (o.start)(n) is None ==> !end.failures.contains((n, why))
        }),
{
    law_start_isolates_failures(names, o);
    assert(start_failures(names, o).contains((n, why)) <==> names.contains(n) && start_failure(n, o)
        == Some(why));
}

/// A start goes over all registered plugins, and each is initialised before it is started: a step
/// that succeeds leads from the one to the other and then to the next plugin, and one that fails
/// leads to the next plugin at once, with the failure noted and the plugin marked.
pub proof fn law_a_start_goes_step_by_step(
    run: StartRun,
    manager: &mut PluginManager,
    outcome: Result<(), String>,
    next: StartRun,
)
    requires
        call_ensures(StartRun::advance, (run, manager, outcome), next),
        0 <= run@.at < run@.names.len(),
        old(manager).registry().dom().contains(run@.names[run@.at]),
    ensures
        ({
            let name = run@.names[run@.at];
            &&& next@.names == run@.names
            &&& final(manager).registry() == old(manager).registry()
            &&& outcome is Ok && !run@.starting ==> {
                &&& next@.at == run@.at
                &&& next@.starting
                &&& next@.failures == run@.failures
                &&& final(manager).marks() == old(manager).marks()
            }
            &&& outcome is Ok && run@.starting ==> {
                &&& next@.at == run@.at + 1
                &&& !next@.starting
                &&& next@.failures == run@.failures
                &&& !final(manager).marks().dom().contains(name)
            }
            &&& outcome matches Err(e) ==> {
                let why = if run@.starting {
                    "start failed: "@ + e@
                } else {
                    "init failed: "@ + e@
                };
                &&& next@.at == run@.at + 1
                &&& !next@.starting
                &&& next@.failures == run@.failures.push((name, why))
                &&& final(manager).marks().dom().contains(name)
                &&& final(manager).marks()[name] == why
            }
        }),
{
}

/// A start of all plugins begins with the first of those registered, without failures.
pub proof fn law_a_start_begins_with_all_plugins(manager: PluginManager, run: StartRun, n: Seq<char>)
    requires
        call_ensures(PluginManager::start_all, (&manager,), run),
    ensures
        run@.at == 0,
        !run@.starting,
        run@.failures.len() == 0,
        run@.names.contains(n) <==> manager.registry().dom().contains(n),
        run@.names.no_duplicates(),
{
    crate::name_map::lemma_ascending_distinct(manager.listing());
}

proof fn lemma_mounted(states: Seq<(PluginStatus, Option<AgentGrpcService>)>, service: AgentGrpcService)
    ensures
        mounted(states).contains(service) <==> exists|i: int|
            0 <= i < states.len() && (#[trigger] states[i]).0 is Started && states[i].1 == Some(
                service,
            ),
    decreases states.len(),
{
    if states.len() > 0 {
        let init = states.drop_last();
        let last = states.len() - 1;
        lemma_mounted(init, service);
        if let (PluginStatus::Started, Some(s)) = states.last() {
            crate::text::lemma_push_contains(mounted(init), s, service);
        }
        if exists|i: int|
            0 <= i < init.len() && (#[trigger] init[i]).0 is Started && init[i].1 == Some(service) {
            let i = choose|i: int|
                0 <= i < init.len() && (#[trigger] init[i]).0 is Started && init[i].1 == Some(service);
            assert(states[i].0 is Started);
        }
        if exists|i: int|
            0 <= i < states.len() && (#[trigger] states[i]).0 is Started && states[i].1 == Some(
                service,
            ) {
            let i = choose|i: int|
                0 <= i < states.len() && (#[trigger] states[i]).0 is Started && states[i].1 == Some(
                    service,
                );
            if i < last {
                assert(init[i].0 is Started);
            }
        }
        if states.last().0 is Started && states.last().1 == Some(service) {
            assert(states[last].0 is Started);
        }
    }
}

/// A call surface is mounted exactly where a started plugin has it.
pub proof fn law_started_plugins_mount_their_surfaces(
    manager: PluginManager,
    states: &[(PluginStatus, Option<AgentGrpcService>)],
    r: Vec<AgentGrpcService>,
    service: AgentGrpcService,
)
    requires
        states@.len() == manager.listing().len(),
        call_ensures(PluginManager::grpc_services, (&manager, states), r),
    ensures
        r@.contains(service) <==> exists|i: int|
            0 <= i < states@.len() && (#[trigger] states@[i]).0 is Started && states@[i].1 == Some(
                service,
            ),
{
    lemma_mounted(states@, service);
}

} // verus!
