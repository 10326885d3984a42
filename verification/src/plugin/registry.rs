//! The registry of plugins: who is registered, who is built in, who is healthy.
use crate::name_map::NameMap;
use crate::plugin::manifest::{plugin_text, PluginEngineConfig};
use crate::name_map;
use crate::text;
use vstd::prelude::*;

verus! {

/// State of a plugin's life.
#[derive(Debug, PartialEq, Eq)]
pub enum PluginStatus {
    /// Loaded and not started.
    Loaded,
    Started,
    Stopped,
    /// Failed, with the reason.
    Failed(String),
}

impl Clone for PluginStatus {
    fn clone(&self) -> (r: Self)
        ensures
            r == *self,
    {
        match self {
            PluginStatus::Loaded => PluginStatus::Loaded,
            PluginStatus::Started => PluginStatus::Started,
            PluginStatus::Stopped => PluginStatus::Stopped,
            PluginStatus::Failed(reason) => PluginStatus::Failed(reason.clone()),
        }
    }
}

/// Name of a state.
pub open spec fn status_text(status: PluginStatus) -> Seq<char> {
    match status {
        PluginStatus::Loaded => "loaded"@,
        PluginStatus::Started => "started"@,
        PluginStatus::Stopped => "stopped"@,
        PluginStatus::Failed(_) => "failed"@,
    }
}

impl PluginStatus {
    /// Name of the state.
    pub fn as_str(&self) -> (r: &'static str)
        ensures
            r@ == status_text(*self),
    {
        match self {
            PluginStatus::Loaded => "loaded",
            PluginStatus::Started => "started",
            PluginStatus::Stopped => "stopped",
            PluginStatus::Failed(_) => "failed",
        }
    }

    /// Whether the plugin failed.
    pub fn is_failed(&self) -> (r: bool)
        ensures
            r == (*self is Failed),
    {
        match self {
            PluginStatus::Failed(_) => true,
            _ => false,
        }
    }

    /// Whether the plugin serves calls.
    pub fn is_started(&self) -> (r: bool)
        ensures
            r == (*self is Started),
    {
        match self {
            PluginStatus::Started => true,
            _ => false,
        }
    }
}

/// What the registry knows of a plugin.
#[derive(Debug)]
pub struct PluginRecord {
    pub name: String,
    pub version: String,
    /// A service of the agent itself; configuration neither adds nor removes it.
    pub builtin: bool,
    /// Fingerprint of the loaded content, where the plugin has one.
    pub fingerprint: Option<String>,
}

impl Clone for PluginRecord {
    fn clone(&self) -> (r: Self)
        ensures
            r == *self,
    {
        PluginRecord {
            name: self.name.clone(),
            version: self.version.clone(),
            builtin: self.builtin,
            fingerprint: self.fingerprint.clone(),
        }
    }
}

/// The registered plugins by name.
pub type Registry = Map<Seq<char>, PluginRecord>;

/// Message of a registration under a name that is taken.
pub open spec fn already_registered_text(name: Seq<char>) -> Seq<char> {
    "plugin '"@ + name + "' is already registered"@
}

/// Message of a builtin registration without the marker.
pub open spec fn not_builtin_text(name: Seq<char>) -> Seq<char> {
    "plugin '"@ + name + "' is not marked as builtin"@
}

/// The builtin plugins among names, in order.
pub open spec fn builtin_among(registry: Registry, names: Seq<Seq<char>>) -> Seq<Seq<char>>
    decreases names.len(),
{
    if names.len() == 0 {
        Seq::empty()
    } else {
        let rest = builtin_among(registry, names.drop_last());
        if registry[names.last()].builtin {
            rest.push(names.last())
        } else {
            rest
        }
    }
}

/// A name is among the builtin ones exactly where it is listed and its plugin is built in.
pub proof fn lemma_builtin_among(registry: Registry, names: Seq<Seq<char>>, name: Seq<char>)
    ensures
        builtin_among(registry, names).contains(name) <==> names.contains(name)
            && registry[name].builtin,
    decreases names.len(),
{
    if names.len() > 0 {
        let init = names.drop_last();
        let last = names.last();
        let rest = builtin_among(registry, init);
        lemma_builtin_among(registry, init, name);
        assert(names =~= init.push(last));
        if names.contains(name) {
            let i = choose|i: int| 0 <= i < names.len() && names[i] == name;
            if i < init.len() {
                assert(init[i] == name);
            }
        }
        if init.contains(name) {
            let i = choose|i: int| 0 <= i < init.len() && init[i] == name;
            assert(names[i] == name);
        }
        if last == name {
            assert(names[names.len() - 1] == name);
        }
        if registry[last].builtin {
            let out = rest.push(last);
            if out.contains(name) {
                let i = choose|i: int| 0 <= i < out.len() && out[i] == name;
                if i < rest.len() {
                    assert(rest[i] == name);
                }
            }
            if rest.contains(name) {
                let i = choose|i: int| 0 <= i < rest.len() && rest[i] == name;
                assert(out[i] == name);
            }
            if last == name {
                assert(out[out.len() - 1] == name);
            }
        }
    }
}

/// Builtin plugins are listed in the order of all plugins.
pub proof fn lemma_builtin_among_ascends(registry: Registry, names: Seq<Seq<char>>)
    requires
        name_map::ascending(names),
    ensures
        name_map::ascending(builtin_among(registry, names)),
    decreases names.len(),
{
    if names.len() > 0 {
        let init = names.drop_last();
        let rest = builtin_among(registry, init);
        lemma_builtin_among_ascends(registry, init);
        let out = builtin_among(registry, names);
        assert forall|i: int, j: int| 0 <= i < j < out.len() implies text::text_lt(
            #[trigger] out[i],
            #[trigger] out[j],
        ) by {
            if j == rest.len() {
                lemma_builtin_among(registry, init, out[i]);
                assert(rest[i] == out[i]);
                let k = choose|k: int| 0 <= k < init.len() && init[k] == out[i];
                assert(names[k] == out[i]);
                assert(out[j] == names[names.len() - 1]);
            } else {
                assert(rest[i] == out[i]);
                assert(rest[j] == out[j]);
            }
        }
    }
}

/// The names at whose position the answer is negative, in order.
pub open spec fn refused(names: Seq<Seq<char>>, answers: Seq<bool>) -> Seq<Seq<char>>
    decreases names.len(),
{
    if names.len() == 0 {
        Seq::empty()
    } else {
        let rest = refused(names.drop_last(), answers);
        let i = names.len() - 1;
        if i < answers.len() && answers[i] {
            rest
        } else {
            rest.push(names.last())
        }
    }
}

/// Registry and configuration of plugins.
#[derive(Debug)]
pub struct PluginManager {
    plugins: NameMap<PluginRecord>,
    /// Why plugins did not start.
    failed: NameMap<String>,
    config: PluginEngineConfig,
}

/// Why registered plugins did not start, by name.
pub type FailureMarks = Map<Seq<char>, Seq<char>>;

impl PluginManager {
    /// The registered plugins.
    pub closed spec fn registry(&self) -> Registry {
        self.plugins@
    }

    /// The registered names in order.
    pub closed spec fn listing(&self) -> Seq<Seq<char>> {
        self.plugins.keys()
    }

    /// The registered plugins that are marked as failed, with the reason.
    pub closed spec fn marks(&self) -> FailureMarks {
        Map::new(
            |n: Seq<char>| self.failed@.dom().contains(n) && self.plugins@.dom().contains(n),
            |n: Seq<char>| self.failed@[n]@,
        )
    }

    /// Only registered plugins are marked.
    pub proof fn lemma_marks(&self)
        ensures
            self.marks().dom().subset_of(self.registry().dom()),
            self.marks().restrict(self.registry().dom()) == self.marks(),
    {
        assert(self.marks().restrict(self.registry().dom()) =~= self.marks());
    }

    /// The configuration.
    pub closed spec fn settings(&self) -> PluginEngineConfig {
        self.config
    }

    /// A registry without plugins.
    pub fn new(config: PluginEngineConfig) -> (r: Self)
        ensures
            r.registry() == Registry::empty(),
            r.listing() == Seq::<Seq<char>>::empty(),
            r.marks() == FailureMarks::empty(),
            r.settings() == config,
    {
        let r = PluginManager { plugins: NameMap::new(), failed: NameMap::new(), config };
        assert(r.marks() =~= FailureMarks::empty());
        r
    }

    /// The configuration.
    pub fn config(&self) -> (r: &PluginEngineConfig)
        ensures
            *r == self.settings(),
    {
        &self.config
    }

    /// Whether the plugin engine is switched on.
    pub fn is_enabled(&self) -> (r: bool)
        ensures
            r == self.settings().enabled,
    {
        self.config.enabled
    }

    /// Registers a plugin; a name that is taken is refused.
    pub fn register(&mut self, plugin: PluginRecord) -> (r: Result<(), String>)
        ensures
            final(self).settings() == old(self).settings(),
            final(self).marks() == old(self).marks(),
            match r {
                Ok(_) => !old(self).registry().dom().contains(plugin.name@) && final(self).registry()
                    == old(self).registry().insert(plugin.name@, plugin) && name_map::lists(
                    final(self).listing(),
                    final(self).registry(),
                ),
                Err(e) => old(self).registry().dom().contains(plugin.name@)
                    && *final(self) == *old(self) && e@ == already_registered_text(plugin.name@),
            },
    {
        if self.plugins.contains(plugin.name.as_str()) {
            return Err(plugin_text(plugin.name.as_str(), "' is already registered"));
        }
        let name = plugin.name.clone();
        let _ = self.failed.remove(plugin.name.as_str());
        let _ = self.plugins.insert(name, plugin);
        proof {
            use_type_invariant(&self.plugins);
            self.plugins.lemma_listing();
            assert(self.marks() =~= old(self).marks());
        }
        Ok(())
    }

    /// Registers a service of the agent itself; it must carry the builtin marker.
    pub fn register_builtin(&mut self, plugin: PluginRecord) -> (r: Result<(), String>)
        ensures
            final(self).settings() == old(self).settings(),
            final(self).marks() == old(self).marks(),
            match r {
                Ok(_) => plugin.builtin && !old(self).registry().dom().contains(plugin.name@)
                    && final(self).registry() == old(self).registry().insert(plugin.name@, plugin)
                    && name_map::lists(final(self).listing(), final(self).registry()),
                Err(e) => *final(self) == *old(self) && if !plugin.builtin {
                    e@ == not_builtin_text(plugin.name@)
                } else {
                    old(self).registry().dom().contains(plugin.name@) && e@
                        == already_registered_text(plugin.name@)
                },
            },
    {
        if !plugin.builtin {
            return Err(plugin_text(plugin.name.as_str(), "' is not marked as builtin"));
        }
        self.register(plugin)
    }

    /// Takes a plugin out of the registry.
    pub fn unregister(&mut self, name: &str) -> (r: Option<PluginRecord>)
        ensures
            final(self).settings() == old(self).settings(),
            final(self).registry() == old(self).registry().remove(name@),
            name_map::lists(final(self).listing(), final(self).registry()),
            final(self).marks() == old(self).marks().remove(name@),
            r is Some <==> old(self).registry().dom().contains(name@),
            r matches Some(p) ==> p == old(self).registry()[name@],
    {
        let gone = self.plugins.remove(name);
        proof {
            use_type_invariant(&self.plugins);
            self.plugins.lemma_listing();
            assert(self.marks() =~= old(self).marks().remove(name@));
        }
        gone
    }

    /// Marks a registered plugin as failed, with the reason.
    pub fn mark_failed(&mut self, name: &str, reason: String)
        ensures
            final(self).settings() == old(self).settings(),
            final(self).registry() == old(self).registry(),
            final(self).listing() == old(self).listing(),
            final(self).marks() == if old(self).registry().dom().contains(name@) {
                old(self).marks().insert(name@, reason@)
            } else {
                old(self).marks()
            },
    {
        let ghost why = reason@;
        let _ = self.failed.insert(name.to_owned(), reason);
        assert(self.registry().dom().contains(name@) ==> self.marks() =~= old(self).marks().insert(
            name@,
            why,
        ));
        assert(!self.registry().dom().contains(name@) ==> self.marks() =~= old(self).marks());
    }

    /// Takes the mark of a plugin away.
    pub fn clear_failure(&mut self, name: &str)
        ensures
            final(self).settings() == old(self).settings(),
            final(self).registry() == old(self).registry(),
            final(self).listing() == old(self).listing(),
            final(self).marks() == old(self).marks().remove(name@),
    {
        let _ = self.failed.remove(name);
        assert(self.marks() =~= old(self).marks().remove(name@));
    }

    /// Whether a registered plugin is marked as failed.
    pub fn is_failed(&self, name: &str) -> (r: bool)
        ensures
            r == self.marks().dom().contains(name@),
    {
        self.failed.contains(name) && self.plugins.contains(name)
    }

    /// State of a registered plugin: failed where it is marked so, and otherwise what the plugin
    /// itself reports.
    pub fn status_of(&self, name: &str, reported: PluginStatus) -> (r: Option<PluginStatus>)
        ensures
            r is Some <==> self.registry().dom().contains(name@),
            r matches Some(status) ==> if self.marks().dom().contains(name@) {
                status matches PluginStatus::Failed(why) && why@ == self.marks()[name@]
            } else {
                status == reported
            },
    {
        if !self.plugins.contains(name) {
            return None;
        }
        match self.failed.get(name) {
            Some(why) => Some(PluginStatus::Failed(why.clone())),
            None => Some(reported),
        }
    }

    /// Names of the builtin plugins, in order.
    pub fn builtin_names(&self) -> (r: Vec<String>)
        ensures
            name_map::text_views(r@) == builtin_among(self.registry(), self.listing()),
            name_map::ascending(name_map::text_views(r@)),
            forall|n: Seq<char>|
                #[trigger] name_map::text_views(r@).contains(n) <==> self.registry().dom().contains(n)
                    && self.registry()[n].builtin,
    {
        proof {
            use_type_invariant(&self.plugins);
            self.plugins.lemma_listing();
        }
        let ghost names = self.plugins.keys();
        let mut out: Vec<String> = Vec::new();
        let mut i: usize = 0;
        assert(name_map::text_views(out@) =~= builtin_among(self.registry(), names.take(0)));
        while i < self.plugins.len()
            invariant
                i <= names.len(),
                names == self.plugins.keys(),
                names.len() == self.plugins.vals().len(),
                forall|k: int|
                    0 <= k < names.len() ==> self.plugins@.dom().contains(#[trigger] names[k])
                        && self.plugins@[names[k]] == self.plugins.vals()[k],
                name_map::text_views(out@) == builtin_among(self.registry(), names.take(i as int)),
            decreases names.len() - i,
        {
            let ghost before = out@;
            assert(names.take(i + 1).drop_last() =~= names.take(i as int));
            assert(names.take(i + 1).last() == names[i as int]);
            if self.plugins.value_at(i).builtin {
                out.push(self.plugins.name_at(i).clone());
                assert(name_map::text_views(out@) =~= name_map::text_views(before).push(names[i as int]));
            }
            i += 1;
        }
        assert(names.take(names.len() as int) =~= names);
        proof {
            lemma_builtin_among_ascends(self.registry(), names);
            assert forall|n: Seq<char>| #[trigger] name_map::text_views(out@).contains(n)
                <==> self.registry().dom().contains(n) && self.registry()[n].builtin by {
                lemma_builtin_among(self.registry(), names, n);
            }
        }
        out
    }

    /// Names of all plugins, in order.
    pub fn names(&self) -> (r: Vec<String>)
        ensures
            name_map::text_views(r@) == self.listing(),
            name_map::ascending(name_map::text_views(r@)),
            forall|n: Seq<char>|
                #[trigger] self.registry().dom().contains(n) <==> name_map::text_views(r@).contains(n),
    {
        self.plugins.names()
    }

    /// How many plugins are registered.
    pub fn len(&self) -> (r: usize)
        ensures
            r == self.listing().len(),
    {
        self.plugins.len()
    }

    pub fn is_empty(&self) -> (r: bool)
        ensures
            r == (self.listing().len() == 0),
    {
        self.len() == 0
    }

    /// What is known of a plugin.
    pub fn get(&self, name: &str) -> (r: Option<&PluginRecord>)
        ensures
            r is Some <==> self.registry().dom().contains(name@),
            r matches Some(p) ==> *p == self.registry()[name@],
    {
        self.plugins.get(name)
    }

    /// Names of all plugins in the order in which they are stopped: the last name first. What is
    /// stopped is no longer marked as failed.
    pub fn stop_all(&mut self) -> (r: Vec<String>)
        ensures
            name_map::text_views(r@) == old(self).listing().reverse(),
            name_map::lists(old(self).listing(), old(self).registry()),
            final(self).listing() == old(self).listing(),
            final(self).registry() == old(self).registry(),
            final(self).settings() == old(self).settings(),
            final(self).marks() == FailureMarks::empty(),
    {
        self.failed = NameMap::new();
        assert(self.marks() =~= FailureMarks::empty());
        let names = self.plugins.names();
        let ghost listed = names@;
        let mut out: Vec<String> = Vec::new();
        let mut left: usize = names.len();
        while left > 0
            invariant
                left <= names@.len(),
                out@.len() == names@.len() - left,
                forall|k: int| 0 <= k < out@.len() ==> #[trigger] out@[k] == names@[names@.len() - 1 - k],
            decreases left,
        {
            left -= 1;
            out.push(names[left].clone());
        }
        assert(name_map::text_views(out@) =~= name_map::text_views(names@).reverse());
        out
    }

    /// Health of all plugins: how many are healthy, how many there are, and the names of the
    /// others. `healthy` holds the answer of each plugin, in name order.
    pub fn health_check_all(&self, healthy: &[bool]) -> (r: (usize, usize, Vec<String>))
        ensures
            r.1 == self.listing().len(),
            name_map::text_views(r.2@) == refused(self.listing(), healthy@),
            r.0 + r.2@.len() == r.1,
    {
        let ghost names = self.plugins.keys();
        let mut good: usize = 0;
        let mut bad: Vec<String> = Vec::new();
        let mut i: usize = 0;
        assert(name_map::text_views(bad@) =~= refused(names.take(0), healthy@));
        while i < self.plugins.len()
            invariant
                i <= names.len(),
                names == self.plugins.keys(),
                good + bad@.len() == i,
                name_map::text_views(bad@) == refused(names.take(i as int), healthy@),
            decreases names.len() - i,
        {
            let ghost before = bad@;
            assert(names.take(i + 1).drop_last() =~= names.take(i as int));
            assert(names.take(i + 1).last() == names[i as int]);
            if i < healthy.len() && healthy[i] {
                good += 1;
            } else {
                bad.push(self.plugins.name_at(i).clone());
                assert(name_map::text_views(bad@) =~= name_map::text_views(before).push(names[i as int]));
            }
            i += 1;
        }
        assert(names.take(names.len() as int) =~= names);
        (good, self.plugins.len(), bad)
    }
}

/// A registration holds its name, and taking the name out again undoes the registration.
pub proof fn law_unregistering_undoes_registering(registry: Registry, plugin: PluginRecord)
    requires
        !registry.dom().contains(plugin.name@),
    ensures
        registry.insert(plugin.name@, plugin).dom().contains(plugin.name@),
        registry.insert(plugin.name@, plugin).remove(plugin.name@) == registry,
{
    assert(registry.insert(plugin.name@, plugin).remove(plugin.name@) =~= registry);
}

/// Every plugin is either healthy or listed as unhealthy.
pub proof fn law_health_is_complete(names: Seq<Seq<char>>, healthy: Seq<bool>, i: int)
    requires
        0 <= i < names.len(),
        i >= healthy.len() || !healthy[i],
    ensures
        refused(names, healthy).contains(names[i]),
    decreases names.len(),
{
    let rest = refused(names.drop_last(), healthy);
    if i == names.len() - 1 {
        let out = rest.push(names.last());
        assert(out[out.len() - 1] == names[i]);
    } else {
        law_health_is_complete(names.drop_last(), healthy, i);
        let k = choose|k: int| 0 <= k < rest.len() && rest[k] == names.drop_last()[i];
        assert(refused(names, healthy)[k] == names[i]);
    }
}

proof fn lemma_refused(names: Seq<Seq<char>>, healthy: Seq<bool>, name: Seq<char>)
    ensures
        refused(names, healthy).contains(name) <==> exists|i: int|
            0 <= i < names.len() && #[trigger] names[i] == name && !(i < healthy.len() && healthy[i]),
    decreases names.len(),
{
    if names.len() > 0 {
        let init = names.drop_last();
        let last = names.len() - 1;
        let rest = refused(init, healthy);
        lemma_refused(init, healthy, name);
        text::lemma_push_contains(rest, names.last(), name);
        if exists|i: int|
            0 <= i < init.len() && #[trigger] init[i] == name && !(i < healthy.len() && healthy[i]) {
            let i = choose|i: int|
                0 <= i < init.len() && #[trigger] init[i] == name && !(i < healthy.len()
                    && healthy[i]);
            assert(names[i] == name);
        }
        if exists|i: int|
            0 <= i < names.len() && #[trigger] names[i] == name && !(i < healthy.len() && healthy[i]) {
            let i = choose|i: int|
                0 <= i < names.len() && #[trigger] names[i] == name && !(i < healthy.len()
                    && healthy[i]);
            if i < last {
                assert(init[i] == name);
            }
        }
        if names.last() == name && !(last < healthy.len() && healthy[last]) {
            assert(names[last] == name);
        }
    }
}

/// A health check speaks of all plugins: those that answered well are counted, and the others, those
/// that gave no answer among them, are named.
pub proof fn law_a_health_check_names_the_unhealthy(
    manager: PluginManager,
    healthy: &[bool],
    r: (usize, usize, Vec<String>),
    i: int,
)
    requires
        call_ensures(PluginManager::health_check_all, (&manager, healthy), r),
        0 <= i < manager.listing().len(),
        manager.listing().no_duplicates(),
    ensures
        r.1 == manager.listing().len(),
        r.0 + r.2@.len() == r.1,
        (exists|k: int| 0 <= k < r.2@.len() && (#[trigger] r.2@[k])@ == manager.listing()[i]) <==> !(i
            < healthy@.len() && healthy@[i]),
{
    let names = manager.listing();
    let bad = name_map::text_views(r.2@);
    lemma_refused(names, healthy@, names[i]);
    assert(bad.len() == r.2@.len());
    if exists|k: int| 0 <= k < r.2@.len() && (#[trigger] r.2@[k])@ == names[i] {
        let k = choose|k: int| 0 <= k < r.2@.len() && (#[trigger] r.2@[k])@ == names[i];
        assert(bad[k] == names[i]);
        assert(bad.contains(names[i]));
        let j = choose|j: int|
            0 <= j < names.len() && #[trigger] names[j] == names[i] && !(j < healthy@.len()
                && healthy@[j]);
        assert(j == i);
    }
    if !(i < healthy@.len() && healthy@[i]) {
        assert(names[i] == names[i]);
        assert(bad.contains(names[i]));
        let k = choose|k: int| 0 <= k < bad.len() && bad[k] == names[i];
        assert(r.2@[k]@ == names[i]);
    }
}

/// Plugins are stopped in the reverse of the order in which they are listed, every one of them, and
/// none stays marked as failed.
pub proof fn law_plugins_stop_last_first(manager: &mut PluginManager, r: Vec<String>, i: int)
    requires
        call_ensures(PluginManager::stop_all, (manager,), r),
    ensures
        r@.len() == old(manager).listing().len(),
        0 <= i < r@.len() ==> r@[i]@ == old(manager).listing()[r@.len() - 1 - i],
        final(manager).registry() == old(manager).registry(),
        forall|n: Seq<char>| !#[trigger] final(manager).marks().dom().contains(n),
{
    let names = name_map::text_views(r@);
    assert(names.len() == r@.len());
    if 0 <= i < r@.len() {
        assert(names[i] == r@[i]@);
    }
}

/// A free name is registered with what was given and no other plugin is touched; a taken one is
/// refused, and nothing changes.
pub proof fn law_a_name_is_registered_once(
    manager: &mut PluginManager,
    plugin: PluginRecord,
    r: Result<(), String>,
    other: Seq<char>,
)
    requires
        call_ensures(PluginManager::register, (manager, plugin), r),
    ensures
        r is Ok <==> !old(manager).registry().dom().contains(plugin.name@),
        r is Ok ==> final(manager).registry().dom().contains(plugin.name@)
            && final(manager).registry()[plugin.name@] == plugin,
        r matches Err(e) ==> e@ == "plugin '"@ + plugin.name@ + "' is already registered"@
            && final(manager).registry() == old(manager).registry(),
        other != plugin.name@ ==> (final(manager).registry().dom().contains(other)
            == old(manager).registry().dom().contains(other)),
        other != plugin.name@ && old(manager).registry().dom().contains(other)
            ==> final(manager).registry()[other] == old(manager).registry()[other],
{
}

/// Only what carries the marker is registered as built in.
pub proof fn law_builtin_plugins_carry_the_marker(
    manager: &mut PluginManager,
    plugin: PluginRecord,
    r: Result<(), String>,
)
    requires
        call_ensures(PluginManager::register_builtin, (manager, plugin), r),
    ensures
        r is Ok <==> plugin.builtin && !old(manager).registry().dom().contains(plugin.name@),
        r is Ok ==> final(manager).registry().dom().contains(plugin.name@)
            && final(manager).registry()[plugin.name@] == plugin,
        r is Err ==> final(manager).registry() == old(manager).registry(),
        !plugin.builtin ==> (r matches Err(e) && e@ == "plugin '"@ + plugin.name@
            + "' is not marked as builtin"@),
{
}

/// A plugin that is marked as failed is reported so with the reason, whatever it says of itself;
/// any other registered plugin is reported as it says.
pub proof fn law_marked_plugins_are_reported_as_failed(
    manager: PluginManager,
    name: &str,
    reported: PluginStatus,
    r: Option<PluginStatus>,
)
    requires
        call_ensures(PluginManager::status_of, (&manager, name, reported), r),
    ensures
        r is Some <==> manager.registry().dom().contains(name@),
        r is Some && manager.marks().dom().contains(name@) ==> (r->0 matches PluginStatus::Failed(why)
            && why@ == manager.marks()[name@]),
        r is Some && !manager.marks().dom().contains(name@) ==> r->0 == reported,
{
}

} // verus!
