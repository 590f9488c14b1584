//! The simulator facade for downstream experiment crates: capture settings,
//! artifact sinks, the registry of engines that a suite may name, and the
//! checks a route-visible suite must pass before it runs.
use vstd::prelude::*;
use crate::scenario::{HostSpec, JacquardScenario, ScriptedEnvironmentModel};
use crate::replay::{engine_label, normalized_engine_id, ReducedReplayView, ReducedRound, RoutingEngineId};
use crate::text::{chars_lt, decimal, decimal_string, lemma_chars_lt_transitive, lemma_chars_lt_trichotomy, str_eq, str_lt};

verus! {

/// Version of the route-visible artifact schema.
pub const EXTERNAL_ROUTE_ARTIFACT_SCHEMA_VERSION: u32 = 1;

/// How much of a run the simulator keeps.
#[derive(Clone, Copy, Debug, PartialEq, Eq, Structural)]
pub enum SimulationCaptureLevel {
    FullReplay,
    ReducedReplay,
    SummaryOnly,
}

/// Settings of the simulator that a runner drives.
#[derive(Clone, Copy, Debug, PartialEq, Eq, Structural)]
pub struct SimulatorConfig {
    pub capture_level: SimulationCaptureLevel,
}

impl Default for SimulatorConfig {
    /// Reduced replays are captured by default.
    fn default() -> (r: Self)
        ensures
            r.capture_level == SimulationCaptureLevel::ReducedReplay,
    {
        SimulatorConfig { capture_level: SimulationCaptureLevel::ReducedReplay }
    }
}

/// Where a suite's artifacts go: a directory (by its path) or nowhere.
#[derive(Clone, Debug)]
pub enum ArtifactSink {
    Directory(String),
    Disabled,
}

impl ArtifactSink {
    /// A sink that writes under `path`.
    pub fn directory(path: String) -> (r: Self)
        ensures
            r matches ArtifactSink::Directory(p) && p@ == path@,
    {
        ArtifactSink::Directory(path)
    }

    /// A sink that writes nothing.
    pub fn disabled() -> (r: Self)
        ensures
            r is Disabled,
    {
        ArtifactSink::Disabled
    }

    /// The directory that artifacts go to, if the sink writes any.
    pub fn output_dir(&self) -> (r: Option<&String>)
        ensures
            match self {
                ArtifactSink::Directory(p) => r == Some(p),
                ArtifactSink::Disabled => r is None,
            },
    {
        match self {
            ArtifactSink::Directory(path) => Some(path),
            ArtifactSink::Disabled => None,
        }
    }
}

/// What an engine exposes to the harness.
#[derive(Clone, Copy, Debug, PartialEq, Eq, Structural)]
pub enum EngineRouteShape {
    RouteVisible,
    Diffusion,
    ModelOnly,
    EnginePrivateDiagnostics,
}

/// One engine known to the registry.
#[derive(Clone, Debug)]
pub struct EngineRegistryEntry {
    pub engine_id: String,
    pub route_shape: EngineRouteShape,
    pub report_label: String,
    pub enabled_by_default: bool,
}

/// The engines a suite may name, keyed by engine id.
#[derive(Debug)]
pub struct EngineRegistry {
    entries: Vec<EngineRegistryEntry>,
}

/// Entries in strictly ascending engine-id order (so each id occurs once).
pub open spec fn entries_sorted(entries: Seq<EngineRegistryEntry>) -> bool {
    forall|i: int, j: int|
        0 <= i < j < entries.len() ==> chars_lt(#[trigger] entries[i].engine_id@, #[trigger] entries[j].engine_id@)
}

/// The registry as a map from engine id to entry.
pub open spec fn entries_map(entries: Seq<EngineRegistryEntry>) -> Map<Seq<char>, EngineRegistryEntry>
    decreases entries.len(),
{
    if entries.len() == 0 {
        Map::empty()
    } else {
        entries_map(entries.drop_last()).insert(entries.last().engine_id@, entries.last())
    }
}

proof fn lemma_entries_map(entries: Seq<EngineRegistryEntry>)
    requires
        entries_sorted(entries),
    ensures
        forall|k: Seq<char>| #[trigger] entries_map(entries).dom().contains(k) <==> exists|i: int|
            0 <= i < entries.len() && entries[i].engine_id@ == k,
        forall|i: int| 0 <= i < entries.len() ==> entries_map(entries)[#[trigger] entries[i].engine_id@] == entries[i],
    decreases entries.len(),
{
    if entries.len() > 0 {
        let init = entries.drop_last();
        assert forall|i: int, j: int| 0 <= i < j < init.len() implies chars_lt(#[trigger] init[i].engine_id@, #[trigger] init[j].engine_id@) by {
            assert(init[i] == entries[i]);
            assert(init[j] == entries[j]);
        }
        lemma_entries_map(init);
        assert forall|k: Seq<char>| #[trigger] entries_map(entries).dom().contains(k) <==> exists|i: int|
            0 <= i < entries.len() && entries[i].engine_id@ == k by {
            if entries_map(entries).dom().contains(k) && k != entries.last().engine_id@ {
                assert(entries_map(init).dom().contains(k));
                let i = choose|i: int| 0 <= i < init.len() && init[i].engine_id@ == k;
                assert(entries[i] == init[i]);
            }
            if exists|i: int| 0 <= i < entries.len() && entries[i].engine_id@ == k {
                let i = choose|i: int| 0 <= i < entries.len() && entries[i].engine_id@ == k;
                if i < init.len() {
                    assert(init[i] == entries[i]);
                    assert(entries_map(init).dom().contains(k));
                }
            }
        }
        assert forall|i: int| 0 <= i < entries.len() implies entries_map(entries)[#[trigger] entries[i].engine_id@] == entries[i] by {
            if i < init.len() {
                assert(init[i] == entries[i]);
                assert(chars_lt(entries[i].engine_id@, entries[entries.len() - 1].engine_id@));
                lemma_chars_lt_trichotomy(entries[i].engine_id@, entries.last().engine_id@);
                assert(entries_map(init)[init[i].engine_id@] == init[i]);
                assert(entries_map(entries) == entries_map(init).insert(entries.last().engine_id@, entries.last()));
            } else {
                assert(entries[i] == entries.last());
            }
        }
    }
}

impl View for EngineRegistry {
    type V = Map<Seq<char>, EngineRegistryEntry>;

    closed spec fn view(&self) -> Map<Seq<char>, EngineRegistryEntry> {
        entries_map(self.entries@)
    }
}

/// Every entry is stored under its own engine id.
pub open spec fn keyed_by_id(m: Map<Seq<char>, EngineRegistryEntry>) -> bool {
    forall|k: Seq<char>| #[trigger] m.dom().contains(k) ==> m[k].engine_id@ == k
}

proof fn lemma_entries_keyed(entries: Seq<EngineRegistryEntry>)
    requires
        entries_sorted(entries),
    ensures
        keyed_by_id(entries_map(entries)),
{
    lemma_entries_map(entries);
    assert forall|k: Seq<char>| #[trigger] entries_map(entries).dom().contains(k) implies entries_map(entries)[k].engine_id@ == k by {
        let i = choose|i: int| 0 <= i < entries.len() && entries[i].engine_id@ == k;
        assert(entries_map(entries)[entries[i].engine_id@] == entries[i]);
    }
}

impl EngineRegistry {
    /// Entries are kept in strictly ascending engine-id order.
    #[verifier::type_invariant]
    spec fn sorted_entries(self) -> bool {
        entries_sorted(self.entries@)
    }


    /// An empty registry.
    pub fn empty() -> (r: Self)
        ensures
            r@ == Map::<Seq<char>, EngineRegistryEntry>::empty(),
            keyed_by_id(r@),
    {
        EngineRegistry { entries: Vec::new() }
    }

    /// Adds `entry` under its engine id, replacing any entry with that id.
    pub fn insert(&mut self, entry: EngineRegistryEntry)
        ensures
            final(self)@ == old(self)@.insert(entry.engine_id@, entry),
            keyed_by_id(final(self)@),
    {
        proof {
            use_type_invariant(&*self);
        }
        let mut entries: Vec<EngineRegistryEntry> = Vec::new();
        std::mem::swap(&mut entries, &mut self.entries);
        let ghost before = entries@;
        proof {
            lemma_entries_map(before);
        }
        let n = entries.len();
        let mut p: usize = 0;
        while p < n && str_lt(entries[p].engine_id.as_str(), entry.engine_id.as_str())
            invariant
                n == entries@.len(),
                entries@ == before,
                p <= n,
                forall|i: int| 0 <= i < p ==> chars_lt(#[trigger] before[i].engine_id@, entry.engine_id@),
            decreases n - p,
        {
            p = p + 1;
        }
        let replace = p < n && str_eq(entries[p].engine_id.as_str(), entry.engine_id.as_str());
        let ghost k = entry.engine_id@;
        let ghost e = entry;
        if replace {
            entries.set(p, entry);
        } else {
            entries.insert(p, entry);
        }
        proof {
            let after = entries@;
            if replace {
                assert(after == before.update(p as int, e));
            } else {
                assert(after == before.insert(p as int, e));
                if p < n {
                    lemma_chars_lt_trichotomy(before[p as int].engine_id@, k);
                }
            }
            assert forall|i: int, j: int| 0 <= i < j < after.len() implies chars_lt(#[trigger] after[i].engine_id@, #[trigger] after[j].engine_id@) by {
                if replace {
                    if i == p {
                        lemma_chars_lt_trichotomy(before[p as int].engine_id@, k);
                    } else if j == p {
                        assert(after[i] == before[i]);
                    }
                } else {
                    if j < p {
                        assert(after[i] == before[i] && after[j] == before[j]);
                    } else if j == p {
                        assert(after[i] == before[i]);
                    } else if i == p {
                        assert(after[j] == before[j - 1]);
                        if j - 1 > p {
                            lemma_chars_lt_transitive(k, before[p as int].engine_id@, before[j - 1].engine_id@);
                        }
                    } else if i < p {
                        assert(after[i] == before[i] && after[j] == before[j - 1]);
                        if j - 1 != i {
                            assert(chars_lt(before[i].engine_id@, before[j - 1].engine_id@));
                        }
                    } else {
                        assert(after[i] == before[i - 1] && after[j] == before[j - 1]);
                    }
                }
            }
            lemma_entries_map(after);
            assert(after[p as int].engine_id@ == k);
            assert(entries_map(after).dom().contains(k));
            assert forall|key: Seq<char>| #[trigger] entries_map(after).dom().contains(key) <==> entries_map(before).insert(k, e).dom().contains(key) by {
                if key != k {
                    if entries_map(before).dom().contains(key) {
                        let i = choose|i: int| 0 <= i < before.len() && before[i].engine_id@ == key;
                        if replace {
                            assert(i != p);
                            assert(after[i] == before[i]);
                        } else if i < p {
                            assert(after[i] == before[i]);
                        } else {
                            assert(after[i + 1] == before[i]);
                        }
                        assert(entries_map(after).dom().contains(key));
                    }
                    if entries_map(after).dom().contains(key) {
                        let i = choose|i: int| 0 <= i < after.len() && after[i].engine_id@ == key;
                        if replace {
                            assert(after[i] == before[i]);
                        } else if i < p {
                            assert(after[i] == before[i]);
                        } else {
                            assert(after[i] == before[i - 1]);
                        }
                        assert(entries_map(before).dom().contains(key));
                    }
                }
            }
            assert forall|key: Seq<char>| #[trigger] entries_map(after).dom().contains(key) implies entries_map(after)[key]
                == entries_map(before).insert(k, e)[key] by {
                let i = choose|i: int| 0 <= i < after.len() && after[i].engine_id@ == key;
                if key != k {
                    if replace {
                        assert(after[i] == before[i]);
                    } else if i < p {
                        assert(after[i] == before[i]);
                    } else {
                        assert(after[i] == before[i - 1]);
                    }
                }
            }
            assert(entries_map(after) =~= entries_map(before).insert(k, e));
            lemma_entries_keyed(after);
        }
        self.entries = entries;
    }

    /// The entry registered under `engine_id`, if any.
    pub fn get(&self, engine_id: &str) -> (r: Option<&EngineRegistryEntry>)
        ensures
            match r {
                Some(e) => self@.dom().contains(engine_id@) && *e == self@[engine_id@] && e.engine_id@ == engine_id@,
                None => !self@.dom().contains(engine_id@),
            },
    {
        proof {
            use_type_invariant(self);
            lemma_entries_map(self.entries@);
        }
        let mut i: usize = 0;
        while i < self.entries.len()
            invariant
                entries_sorted(self.entries@),
                i <= self.entries@.len(),
                forall|j: int| 0 <= j < i ==> (#[trigger] self.entries@[j]).engine_id@ != engine_id@,
            decreases self.entries@.len() - i,
        {
            if str_eq(self.entries[i].engine_id.as_str(), engine_id) {
                proof {
                    lemma_entries_map(self.entries@);
                    assert(entries_map(self.entries@)[self.entries@[i as int].engine_id@] == self.entries@[i as int]);
                }
                return Some(&self.entries[i]);
            }
            i = i + 1;
        }
        proof {
            lemma_entries_map(self.entries@);
        }
        None
    }

    /// The registered engine ids in ascending order.
    pub fn engine_ids(&self) -> (r: Vec<String>)
        ensures
            forall|i: int, j: int| 0 <= i < j < r@.len() ==> chars_lt(#[trigger] r@[i]@, #[trigger] r@[j]@),
            forall|k: Seq<char>| #[trigger] self@.dom().contains(k) <==> exists|i: int| 0 <= i < r@.len() && r@[i]@ == k,
    {
        proof {
            use_type_invariant(self);
            lemma_entries_map(self.entries@);
        }
        let mut out: Vec<String> = Vec::new();
        let mut i: usize = 0;
        while i < self.entries.len()
            invariant
                entries_sorted(self.entries@),
                i <= self.entries@.len(),
                out@.len() == i,
                forall|j: int| 0 <= j < i ==> (#[trigger] out@[j])@ == self.entries@[j].engine_id@,
            decreases self.entries@.len() - i,
        {
            out.push(self.entries[i].engine_id.clone());
            i = i + 1;
        }
        proof {
            assert forall|k: Seq<char>| #[trigger] self@.dom().contains(k) <==> exists|i: int| 0 <= i < out@.len() && out@[i]@ == k by {
                if exists|i: int| 0 <= i < out@.len() && out@[i]@ == k {
                    let i = choose|i: int| 0 <= i < out@.len() && out@[i]@ == k;
                    assert(self.entries@[i].engine_id@ == k);
                }
                if self@.dom().contains(k) {
                    let i = choose|i: int| 0 <= i < self.entries@.len() && self.entries@[i].engine_id@ == k;
                    assert(out@[i]@ == k);
                }
            }
        }
        out
    }
}

/// The label of each engine that a route-visible registry knows by default.
pub open spec fn route_visible_default_label(k: Seq<char>) -> Option<Seq<char>> {
    if k == "batman-classic"@ {
        Some("BATMAN Classic"@)
    } else if k == "batman-bellman"@ {
        Some("BATMAN Bellman"@)
    } else if k == "babel"@ {
        Some("Babel"@)
    } else if k == "olsrv2"@ {
        Some("OLSRv2"@)
    } else if k == "scatter"@ {
        Some("Scatter"@)
    } else if k == "mercator"@ {
        Some("Mercator"@)
    } else if k == "pathway"@ {
        Some("Pathway"@)
    } else if k == "pathway-batman-bellman"@ {
        Some("Pathway + BATMAN Bellman"@)
    } else {
        None
    }
}

fn route_visible_entry(engine_id: &str, label: &str) -> (r: EngineRegistryEntry)
    ensures
        r.engine_id@ == engine_id@,
        r.report_label@ == label@,
        r.route_shape == EngineRouteShape::RouteVisible,
        r.enabled_by_default,
{
    EngineRegistryEntry {
        engine_id: engine_id.to_string(),
        route_shape: EngineRouteShape::RouteVisible,
        report_label: label.to_string(),
        enabled_by_default: true,
    }
}

impl EngineRegistry {
    /// The registry of the route-visible engines, each enabled by default.
    pub fn route_visible_defaults() -> (r: Self)
        ensures
            keyed_by_id(r@),
            forall|k: Seq<char>| #[trigger] r@.dom().contains(k) <==> route_visible_default_label(k) is Some,
            forall|k: Seq<char>| #[trigger] r@.dom().contains(k) ==> {
                &&& r@[k].engine_id@ == k
                &&& r@[k].route_shape == EngineRouteShape::RouteVisible
                &&& r@[k].enabled_by_default
                &&& route_visible_default_label(k) == Some(r@[k].report_label@)
            },
    {
        proof {
            reveal_strlit("batman-classic");
            reveal_strlit("batman-bellman");
            reveal_strlit("babel");
            reveal_strlit("olsrv2");
            reveal_strlit("scatter");
            reveal_strlit("mercator");
            reveal_strlit("pathway");
            reveal_strlit("pathway-batman-bellman");
            assert("batman-classic"@[7] != "batman-bellman"@[7]);
            assert("batman-classic"@ != "batman-bellman"@);
            assert("batman-classic"@.len() != "babel"@.len());
            assert("batman-classic"@ != "babel"@);
            assert("batman-classic"@.len() != "olsrv2"@.len());
            assert("batman-classic"@ != "olsrv2"@);
            assert("batman-classic"@.len() != "scatter"@.len());
            assert("batman-classic"@ != "scatter"@);
            assert("batman-classic"@.len() != "mercator"@.len());
            assert("batman-classic"@ != "mercator"@);
            assert("batman-classic"@.len() != "pathway"@.len());
            assert("batman-classic"@ != "pathway"@);
            assert("batman-classic"@.len() != "pathway-batman-bellman"@.len());
            assert("batman-classic"@ != "pathway-batman-bellman"@);
            assert("batman-bellman"@.len() != "babel"@.len());
            assert("batman-bellman"@ != "babel"@);
            assert("batman-bellman"@.len() != "olsrv2"@.len());
            assert("batman-bellman"@ != "olsrv2"@);
            assert("batman-bellman"@.len() != "scatter"@.len());
            assert("batman-bellman"@ != "scatter"@);
            assert("batman-bellman"@.len() != "mercator"@.len());
            assert("batman-bellman"@ != "mercator"@);
            assert("batman-bellman"@.len() != "pathway"@.len());
            assert("batman-bellman"@ != "pathway"@);
            assert("batman-bellman"@.len() != "pathway-batman-bellman"@.len());
            assert("batman-bellman"@ != "pathway-batman-bellman"@);
            assert("babel"@.len() != "olsrv2"@.len());
            assert("babel"@ != "olsrv2"@);
            assert("babel"@.len() != "scatter"@.len());
            assert("babel"@ != "scatter"@);
            assert("babel"@.len() != "mercator"@.len());
            assert("babel"@ != "mercator"@);
            assert("babel"@.len() != "pathway"@.len());
            assert("babel"@ != "pathway"@);
            assert("babel"@.len() != "pathway-batman-bellman"@.len());
            assert("babel"@ != "pathway-batman-bellman"@);
            assert("olsrv2"@.len() != "scatter"@.len());
            assert("olsrv2"@ != "scatter"@);
            assert("olsrv2"@.len() != "mercator"@.len());
            assert("olsrv2"@ != "mercator"@);
            assert("olsrv2"@.len() != "pathway"@.len());
            assert("olsrv2"@ != "pathway"@);
            assert("olsrv2"@.len() != "pathway-batman-bellman"@.len());
            assert("olsrv2"@ != "pathway-batman-bellman"@);
            assert("scatter"@.len() != "mercator"@.len());
            assert("scatter"@ != "mercator"@);
            assert("scatter"@[0] != "pathway"@[0]);
            assert("scatter"@ != "pathway"@);
            assert("scatter"@.len() != "pathway-batman-bellman"@.len());
            assert("scatter"@ != "pathway-batman-bellman"@);
            assert("mercator"@.len() != "pathway"@.len());
            assert("mercator"@ != "pathway"@);
            assert("mercator"@.len() != "pathway-batman-bellman"@.len());
            assert("mercator"@ != "pathway-batman-bellman"@);
            assert("pathway"@.len() != "pathway-batman-bellman"@.len());
            assert("pathway"@ != "pathway-batman-bellman"@);
        }
        let mut registry = EngineRegistry::empty();
        let e0 = route_visible_entry("batman-classic", "BATMAN Classic");
        let ghost g0 = e0;
        registry.insert(e0);
        let e1 = route_visible_entry("batman-bellman", "BATMAN Bellman");
        let ghost g1 = e1;
        registry.insert(e1);
        let e2 = route_visible_entry("babel", "Babel");
        let ghost g2 = e2;
        registry.insert(e2);
        let e3 = route_visible_entry("olsrv2", "OLSRv2");
        let ghost g3 = e3;
        registry.insert(e3);
        let e4 = route_visible_entry("scatter", "Scatter");
        let ghost g4 = e4;
        registry.insert(e4);
        let e5 = route_visible_entry("mercator", "Mercator");
        let ghost g5 = e5;
        registry.insert(e5);
        let e6 = route_visible_entry("pathway", "Pathway");
        let ghost g6 = e6;
        registry.insert(e6);
        let e7 = route_visible_entry("pathway-batman-bellman", "Pathway + BATMAN Bellman");
        let ghost g7 = e7;
        registry.insert(e7);
        proof {
            let m = Map::<Seq<char>, EngineRegistryEntry>::empty().insert("batman-classic"@, g0).insert("batman-bellman"@, g1).insert("babel"@, g2).insert("olsrv2"@, g3).insert("scatter"@, g4).insert("mercator"@, g5).insert("pathway"@, g6).insert("pathway-batman-bellman"@, g7);
            assert(registry@ == m);
            assert forall|k: Seq<char>| #[trigger] registry@.dom().contains(k) implies {
                &&& registry@[k].engine_id@ == k
                &&& registry@[k].route_shape == EngineRouteShape::RouteVisible
                &&& registry@[k].enabled_by_default
                &&& route_visible_default_label(k) == Some(registry@[k].report_label@)
            } by {
                if k == "batman-classic"@ {
                    assert(registry@[k] == g0);
                } else if k == "batman-bellman"@ {
                    assert(registry@[k] == g1);
                } else if k == "babel"@ {
                    assert(registry@[k] == g2);
                } else if k == "olsrv2"@ {
                    assert(registry@[k] == g3);
                } else if k == "scatter"@ {
                    assert(registry@[k] == g4);
                } else if k == "mercator"@ {
                    assert(registry@[k] == g5);
                } else if k == "pathway"@ {
                    assert(registry@[k] == g6);
                } else if k == "pathway-batman-bellman"@ {
                    assert(registry@[k] == g7);
                }
            }
        }
        registry
    }
}

/// A runner of experiment suites: simulator settings and the engine registry
/// that suites are checked against.
#[derive(Debug)]
pub struct ExperimentRunner {
    config: SimulatorConfig,
    engine_registry: EngineRegistry,
}

impl ExperimentRunner {
    /// The settings the runner was made with.
    pub closed spec fn config_view(&self) -> SimulatorConfig {
        self.config
    }

    /// The registry the runner checks suites against.
    pub closed spec fn registry_view(&self) -> Map<Seq<char>, EngineRegistryEntry> {
        self.engine_registry@
    }

    /// A runner with `config` and the default route-visible registry.
    pub fn new(config: SimulatorConfig) -> (r: Self)
        ensures
            r.config_view() == config,
            forall|k: Seq<char>| #[trigger] r.registry_view().dom().contains(k) <==> route_visible_default_label(k) is Some,
            forall|k: Seq<char>| #[trigger] r.registry_view().dom().contains(k) ==> {
                &&& r.registry_view()[k].engine_id@ == k
                &&& r.registry_view()[k].route_shape == EngineRouteShape::RouteVisible
                &&& r.registry_view()[k].enabled_by_default
                &&& route_visible_default_label(k) == Some(r.registry_view()[k].report_label@)
            },
    {
        ExperimentRunner { config, engine_registry: EngineRegistry::route_visible_defaults() }
    }

    /// The same runner checking suites against `engine_registry` instead.
    pub fn with_engine_registry(self, engine_registry: EngineRegistry) -> (r: Self)
        ensures
            r.config_view() == self.config_view(),
            r.registry_view() == engine_registry@,
    {
        ExperimentRunner { config: self.config, engine_registry }
    }

    /// The simulator settings.
    pub fn config(&self) -> (r: &SimulatorConfig)
        ensures
            *r == self.config_view(),
    {
        &self.config
    }

    /// The engine registry.
    pub fn engine_registry(&self) -> (r: &EngineRegistry)
        ensures
            r@ == self.registry_view(),
    {
        &self.engine_registry
    }
}

impl Default for ExperimentRunner {
    /// A runner with the default settings and registry.
    fn default() -> (r: Self)
        ensures
            r.config_view().capture_level == SimulationCaptureLevel::ReducedReplay,
            forall|k: Seq<char>| #[trigger] r.registry_view().dom().contains(k) <==> route_visible_default_label(k) is Some,
    {
        ExperimentRunner::new(SimulatorConfig::default())
    }
}

/// The engines that a host runs.
#[derive(Clone, Copy, Debug, PartialEq, Eq, Structural)]
pub enum EngineLane {
    Pathway,
    BatmanBellman,
    BatmanClassic,
    Babel,
    OlsrV2,
    Scatter,
    Mercator,
    PathwayAndBatmanBellman,
    PathwayAndBabel,
    PathwayAndOlsrV2,
    BabelAndBatmanBellman,
    OlsrV2AndBatmanBellman,
    RouteVisibleEngines,
    AllEngines,
    Field,
    PathwayAndField,
    FieldAndBatmanBellman,
}

/// The registry ids that a host lane needs.
pub open spec fn lane_engine_ids(lane: EngineLane) -> Seq<Seq<char>> {
    match lane {
        EngineLane::Pathway => seq!["pathway"@],
        EngineLane::BatmanBellman => seq!["batman-bellman"@],
        EngineLane::BatmanClassic => seq!["batman-classic"@],
        EngineLane::Babel => seq!["babel"@],
        EngineLane::OlsrV2 => seq!["olsrv2"@],
        EngineLane::Scatter => seq!["scatter"@],
        EngineLane::Mercator => seq!["mercator"@],
        EngineLane::PathwayAndBatmanBellman => seq!["pathway"@, "batman-bellman"@],
        EngineLane::PathwayAndBabel => seq!["pathway"@, "babel"@],
        EngineLane::PathwayAndOlsrV2 => seq!["pathway"@, "olsrv2"@],
        EngineLane::BabelAndBatmanBellman => seq!["babel"@, "batman-bellman"@],
        EngineLane::OlsrV2AndBatmanBellman => seq!["olsrv2"@, "batman-bellman"@],
        EngineLane::RouteVisibleEngines => seq!["batman-classic"@, "batman-bellman"@, "babel"@, "olsrv2"@, "scatter"@, "mercator"@, "pathway"@],
        EngineLane::AllEngines => seq!["field"@],
        EngineLane::Field => seq!["field"@],
        EngineLane::PathwayAndField => seq!["field"@],
        EngineLane::FieldAndBatmanBellman => seq!["field"@],
    }
}

/// The registry ids that hosts of `lane` need.
pub fn engine_ids_for_lane(lane: EngineLane) -> (r: Vec<&'static str>)
    ensures
        r@.map_values(|s: &str| s@) == lane_engine_ids(lane),
{
    let r: Vec<&'static str> = match lane {
        EngineLane::Pathway => vec!["pathway"],
        EngineLane::BatmanBellman => vec!["batman-bellman"],
        EngineLane::BatmanClassic => vec!["batman-classic"],
        EngineLane::Babel => vec!["babel"],
        EngineLane::OlsrV2 => vec!["olsrv2"],
        EngineLane::Scatter => vec!["scatter"],
        EngineLane::Mercator => vec!["mercator"],
        EngineLane::PathwayAndBatmanBellman => vec!["pathway", "batman-bellman"],
        EngineLane::PathwayAndBabel => vec!["pathway", "babel"],
        EngineLane::PathwayAndOlsrV2 => vec!["pathway", "olsrv2"],
        EngineLane::BabelAndBatmanBellman => vec!["babel", "batman-bellman"],
        EngineLane::OlsrV2AndBatmanBellman => vec!["olsrv2", "batman-bellman"],
        EngineLane::RouteVisibleEngines => vec!["batman-classic", "batman-bellman", "babel", "olsrv2", "scatter", "mercator", "pathway"],
        EngineLane::AllEngines => vec!["field"],
        EngineLane::Field => vec!["field"],
        EngineLane::PathwayAndField => vec!["field"],
        EngineLane::FieldAndBatmanBellman => vec!["field"],
    };
    assert(r@.map_values(|s: &str| s@) =~= lane_engine_ids(lane));
    r
}

/// Why a route-visible suite was refused, or why artifacts could not go out.
#[derive(Clone, Debug)]
pub enum ExternalExperimentError {
    EmptyId { kind: String },
    InvalidId { kind: String, id: String },
    EmptySuite { suite_id: String },
    DuplicateRunId { suite_id: String, run_id: String },
    DuplicateRunTuple { suite_id: String, family_id: String, config_id: String, seed: u64 },
    UnknownEngine { suite_id: String, family_id: String, config_id: String, engine_id: String },
    UnsupportedEngineShape {
        suite_id: String,
        family_id: String,
        config_id: String,
        engine_id: String,
        route_shape: EngineRouteShape,
    },
    MissingHostLaneEngine { suite_id: String, run_id: String, lane: EngineLane, engine_id: String },
    ArtifactSinkDisabled { suite_id: String, artifact_kind: String },
}

/// An [`ExternalExperimentError`] with its texts as character sequences.
pub enum SuiteFault {
    EmptyId(Seq<char>),
    InvalidId(Seq<char>, Seq<char>),
    EmptySuite(Seq<char>),
    DuplicateRunId(Seq<char>, Seq<char>),
    DuplicateRunTuple(Seq<char>, Seq<char>, Seq<char>, u64),
    UnknownEngine(Seq<char>, Seq<char>, Seq<char>, Seq<char>),
    UnsupportedEngineShape(Seq<char>, Seq<char>, Seq<char>, Seq<char>, EngineRouteShape),
    MissingHostLaneEngine(Seq<char>, Seq<char>, EngineLane, Seq<char>),
    ArtifactSinkDisabled(Seq<char>, Seq<char>),
}

impl View for ExternalExperimentError {
    type V = SuiteFault;

    open spec fn view(&self) -> SuiteFault {
        match self {
            ExternalExperimentError::EmptyId { kind } => SuiteFault::EmptyId(kind@),
            ExternalExperimentError::InvalidId { kind, id } => SuiteFault::InvalidId(kind@, id@),
            ExternalExperimentError::EmptySuite { suite_id } => SuiteFault::EmptySuite(suite_id@),
            ExternalExperimentError::DuplicateRunId { suite_id, run_id } => SuiteFault::DuplicateRunId(suite_id@, run_id@),
            ExternalExperimentError::DuplicateRunTuple { suite_id, family_id, config_id, seed } =>
                SuiteFault::DuplicateRunTuple(suite_id@, family_id@, config_id@, *seed),
            ExternalExperimentError::UnknownEngine { suite_id, family_id, config_id, engine_id } =>
                SuiteFault::UnknownEngine(suite_id@, family_id@, config_id@, engine_id@),
            ExternalExperimentError::UnsupportedEngineShape { suite_id, family_id, config_id, engine_id, route_shape } =>
                SuiteFault::UnsupportedEngineShape(suite_id@, family_id@, config_id@, engine_id@, *route_shape),
            ExternalExperimentError::MissingHostLaneEngine { suite_id, run_id, lane, engine_id } =>
                SuiteFault::MissingHostLaneEngine(suite_id@, run_id@, *lane, engine_id@),
            ExternalExperimentError::ArtifactSinkDisabled { suite_id, artifact_kind } =>
                SuiteFault::ArtifactSinkDisabled(suite_id@, artifact_kind@),
        }
    }
}

/// Identifiers use ASCII letters and digits, `-`, `_` and `.`.
pub open spec fn id_char_ok(c: char) -> bool {
    ('a' <= c && c <= 'z') || ('A' <= c && c <= 'Z') || ('0' <= c && c <= '9') || c == '-' || c == '_' || c == '.'
}

/// What is wrong with the identifier `id` of the given kind, if anything.
pub open spec fn id_fault(kind: Seq<char>, id: Seq<char>) -> Option<SuiteFault> {
    if id.len() == 0 {
        Some(SuiteFault::EmptyId(kind))
    } else if exists|i: int| 0 <= i < id.len() && !id_char_ok(#[trigger] id[i]) {
        Some(SuiteFault::InvalidId(kind, id))
    } else {
        None
    }
}

/// Checks that `id` is non-empty and uses only identifier characters.
pub fn validate_id(kind: &str, id: &str) -> (r: Result<(), ExternalExperimentError>)
    ensures
        match r {
            Ok(_) => id_fault(kind@, id@) is None,
            Err(e) => id_fault(kind@, id@) == Some(e@),
        },
{
    let n = id.unicode_len();
    if n == 0 {
        return Err(ExternalExperimentError::EmptyId { kind: kind.to_string() });
    }
    let mut i: usize = 0;
    while i < n
        invariant
            n == id@.len(),
            i <= n,
            forall|j: int| 0 <= j < i ==> id_char_ok(#[trigger] id@[j]),
        decreases n - i,
    {
        let c = id.get_char(i);
        let ok = ('a' <= c && c <= 'z') || ('A' <= c && c <= 'Z') || ('0' <= c && c <= '9') || c == '-' || c == '_'
            || c == '.';
        if !ok {
            assert(!id_char_ok(id@[i as int]));
            return Err(ExternalExperimentError::InvalidId { kind: kind.to_string(), id: id.to_string() });
        }
        i = i + 1;
    }
    Ok(())
}

/// One route-visible run of a custom suite: its ids, its seed, and the
/// scenario and scripted environment that it runs.
#[derive(Clone, Debug)]
pub struct RouteVisibleRunSpec {
    pub run_id: String,
    pub family_id: String,
    pub engine_family: String,
    pub seed: u64,
    pub scenario: JacquardScenario,
    pub environment: ScriptedEnvironmentModel,
}

impl RouteVisibleRunSpec {
    /// A run of `scenario` under `environment`.
    pub fn new(
        run_id: String,
        family_id: String,
        engine_family: String,
        seed: u64,
        scenario: JacquardScenario,
        environment: ScriptedEnvironmentModel,
    ) -> (r: Self)
        ensures
            r.run_id@ == run_id@,
            r.family_id@ == family_id@,
            r.engine_family@ == engine_family@,
            r.seed == seed,
            r.scenario == scenario,
            r.environment == environment,
    {
        RouteVisibleRunSpec { run_id, family_id, engine_family, seed, scenario, environment }
    }
}

/// The engine lane of each host of the run's scenario, in host order.
pub open spec fn host_lanes(run: RouteVisibleRunSpec) -> Seq<EngineLane> {
    run.scenario.hosts@.map_values(|h: HostSpec| h.lane)
}

/// A custom suite of route-visible runs.
#[derive(Clone, Debug)]
pub struct ExperimentSuiteSpec {
    pub suite_id: String,
    pub route_visible_runs: Vec<RouteVisibleRunSpec>,
}

impl ExperimentSuiteSpec {
    /// A route-visible suite.
    pub fn route_visible(suite_id: String, route_visible_runs: Vec<RouteVisibleRunSpec>) -> (r: Self)
        ensures
            r.suite_id@ == suite_id@,
            r.route_visible_runs@ == route_visible_runs@,
    {
        ExperimentSuiteSpec { suite_id, route_visible_runs }
    }

    /// Number of runs in the suite.
    pub fn run_count(&self) -> (r: usize)
        ensures
            r == self.route_visible_runs@.len(),
    {
        self.route_visible_runs.len()
    }
}

/// The first registry id needed by the lanes `lanes[h..]` that `reg` lacks,
/// with its lane (the lanes in order, each lane's ids in order).
pub open spec fn missing_lane_engine(
    lanes: Seq<EngineLane>,
    reg: Map<Seq<char>, EngineRegistryEntry>,
    h: int,
) -> Option<(EngineLane, Seq<char>)>
    decreases lanes.len() - h,
{
    if h < 0 || h >= lanes.len() {
        None
    } else if exists|e: int| 0 <= e < lane_engine_ids(lanes[h]).len() && !reg.dom().contains(#[trigger] lane_engine_ids(lanes[h])[e]) {
        let e = choose|e: int| {
            &&& 0 <= e < lane_engine_ids(lanes[h]).len()
            &&& !reg.dom().contains(#[trigger] lane_engine_ids(lanes[h])[e])
            &&& forall|f: int| 0 <= f < e ==> reg.dom().contains(#[trigger] lane_engine_ids(lanes[h])[f])
        };
        Some((lanes[h], lane_engine_ids(lanes[h])[e]))
    } else {
        missing_lane_engine(lanes, reg, h + 1)
    }
}

/// What is wrong with run `i` of a suite whose earlier runs all passed.
pub open spec fn run_fault(
    suite_id: Seq<char>,
    runs: Seq<RouteVisibleRunSpec>,
    reg: Map<Seq<char>, EngineRegistryEntry>,
    i: int,
) -> Option<SuiteFault> {
    let run = runs[i];
    if id_fault("run"@, run.run_id@) is Some {
        id_fault("run"@, run.run_id@)
    } else if id_fault("family"@, run.family_id@) is Some {
        id_fault("family"@, run.family_id@)
    } else if id_fault("engine"@, run.engine_family@) is Some {
        id_fault("engine"@, run.engine_family@)
    } else if exists|j: int| 0 <= j < i && (#[trigger] runs[j]).run_id@ == run.run_id@ {
        Some(SuiteFault::DuplicateRunId(suite_id, run.run_id@))
    } else if exists|j: int|
        0 <= j < i && (#[trigger] runs[j]).family_id@ == run.family_id@ && runs[j].engine_family@ == run.engine_family@
            && runs[j].seed == run.seed {
        Some(SuiteFault::DuplicateRunTuple(suite_id, run.family_id@, run.engine_family@, run.seed))
    } else if !reg.dom().contains(run.engine_family@) {
        Some(SuiteFault::UnknownEngine(suite_id, run.family_id@, run.run_id@, run.engine_family@))
    } else if reg[run.engine_family@].route_shape != EngineRouteShape::RouteVisible {
        Some(SuiteFault::UnsupportedEngineShape(
            suite_id,
            run.family_id@,
            run.run_id@,
            run.engine_family@,
            reg[run.engine_family@].route_shape,
        ))
    } else {
        match missing_lane_engine(host_lanes(run), reg, 0) {
            Some((lane, engine_id)) => Some(SuiteFault::MissingHostLaneEngine(suite_id, run.run_id@, lane, engine_id)),
            None => None,
        }
    }
}

/// The fault of the first failing run among `runs[i..]`.
pub open spec fn first_run_fault(
    suite_id: Seq<char>,
    runs: Seq<RouteVisibleRunSpec>,
    reg: Map<Seq<char>, EngineRegistryEntry>,
    i: int,
) -> Option<SuiteFault>
    decreases runs.len() - i,
{
    if i < 0 || i >= runs.len() {
        None
    } else if run_fault(suite_id, runs, reg, i) is Some {
        run_fault(suite_id, runs, reg, i)
    } else {
        first_run_fault(suite_id, runs, reg, i + 1)
    }
}

/// Why a suite is refused against the registry `reg`, if it is: a bad suite
/// id, no runs, or the first failing run's fault.
pub open spec fn suite_fault(suite: ExperimentSuiteSpec, reg: Map<Seq<char>, EngineRegistryEntry>) -> Option<SuiteFault> {
    if id_fault("suite"@, suite.suite_id@) is Some {
        id_fault("suite"@, suite.suite_id@)
    } else if suite.route_visible_runs@.len() == 0 {
        Some(SuiteFault::EmptySuite(suite.suite_id@))
    } else {
        first_run_fault(suite.suite_id@, suite.route_visible_runs@, reg, 0)
    }
}

impl EngineRegistry {
    /// Checks that the run's engine is registered and route-visible.
    fn require_route_visible(&self, suite_id: &str, run: &RouteVisibleRunSpec) -> (r: Result<(), ExternalExperimentError>)
        ensures
            match r {
                Ok(_) => self@.dom().contains(run.engine_family@) && self@[run.engine_family@].route_shape
                    == EngineRouteShape::RouteVisible,
                Err(e) => if !self@.dom().contains(run.engine_family@) {
                    e@ == SuiteFault::UnknownEngine(suite_id@, run.family_id@, run.run_id@, run.engine_family@)
                } else {
                    &&& self@[run.engine_family@].route_shape != EngineRouteShape::RouteVisible
                    &&& e@ == SuiteFault::UnsupportedEngineShape(
                        suite_id@,
                        run.family_id@,
                        run.run_id@,
                        run.engine_family@,
                        self@[run.engine_family@].route_shape,
                    )
                },
            },
    {
        match self.get(run.engine_family.as_str()) {
            None => Err(ExternalExperimentError::UnknownEngine {
                suite_id: suite_id.to_string(),
                family_id: run.family_id.clone(),
                config_id: run.run_id.clone(),
                engine_id: run.engine_family.clone(),
            }),
            Some(entry) => {
                if entry.route_shape != EngineRouteShape::RouteVisible {
                    Err(ExternalExperimentError::UnsupportedEngineShape {
                        suite_id: suite_id.to_string(),
                        family_id: run.family_id.clone(),
                        config_id: run.run_id.clone(),
                        engine_id: run.engine_family.clone(),
                        route_shape: entry.route_shape,
                    })
                } else {
                    Ok(())
                }
            },
        }
    }
}

proof fn lemma_missing_lane_engine_here(
    lanes: Seq<EngineLane>,
    reg: Map<Seq<char>, EngineRegistryEntry>,
    h: int,
    e: int,
)
    requires
        0 <= h < lanes.len(),
        0 <= e < lane_engine_ids(lanes[h]).len(),
        !reg.dom().contains(lane_engine_ids(lanes[h])[e]),
        forall|f: int| 0 <= f < e ==> reg.dom().contains(#[trigger] lane_engine_ids(lanes[h])[f]),
    ensures
        missing_lane_engine(lanes, reg, h) == Some((lanes[h], lane_engine_ids(lanes[h])[e])),
{
    let ids = lane_engine_ids(lanes[h]);
    assert(exists|x: int| 0 <= x < ids.len() && !reg.dom().contains(#[trigger] ids[x]));
    let c = choose|x: int| {
        &&& 0 <= x < ids.len()
        &&& !reg.dom().contains(#[trigger] ids[x])
        &&& forall|f: int| 0 <= f < x ==> reg.dom().contains(#[trigger] ids[f])
    };
    assert(0 <= c < ids.len() && !reg.dom().contains(ids[c]) && forall|f: int| 0 <= f < c ==> reg.dom().contains(#[trigger] ids[f]));
    if c < e {
        assert(reg.dom().contains(ids[c]));
    }
    if c > e {
        assert(reg.dom().contains(ids[e]));
    }
}

/// Checks that every engine that the run's host lanes need is registered.
fn validate_host_lanes(suite_id: &str, run: &RouteVisibleRunSpec, registry: &EngineRegistry) -> (r: Result<(), ExternalExperimentError>)
    ensures
        match r {
            Ok(_) => missing_lane_engine(host_lanes(*run), registry@, 0) is None,
            Err(e) => match missing_lane_engine(host_lanes(*run), registry@, 0) {
                Some((lane, engine_id)) => e@ == SuiteFault::MissingHostLaneEngine(suite_id@, run.run_id@, lane, engine_id),
                None => false,
            },
        },
{
    let ghost lanes = host_lanes(*run);
    let ghost reg = registry@;
    let mut h: usize = 0;
    while h < run.scenario.hosts.len()
        invariant
            lanes == host_lanes(*run),
            reg == registry@,
            h <= lanes.len(),
            missing_lane_engine(lanes, reg, 0) == missing_lane_engine(lanes, reg, h as int),
        decreases lanes.len() - h,
    {
        let lane = run.scenario.hosts[h].lane;
        let ids = engine_ids_for_lane(lane);
        let ghost want = lane_engine_ids(lane);
        let mut e: usize = 0;
        while e < ids.len()
            invariant
                lanes == host_lanes(*run),
                reg == registry@,
                h < lanes.len(),
                lane == lanes[h as int],
                want == lane_engine_ids(lane),
                ids@.map_values(|s: &str| s@) == want,
                e <= ids@.len(),
                missing_lane_engine(lanes, reg, 0) == missing_lane_engine(lanes, reg, h as int),
                forall|f: int| 0 <= f < e ==> reg.dom().contains(#[trigger] want[f]),
            decreases ids@.len() - e,
        {
            let engine_id = ids[e];
            assert(want[e as int] == engine_id@);
            if registry.get(engine_id).is_none() {
                proof {
                    lemma_missing_lane_engine_here(lanes, reg, h as int, e as int);
                }
                return Err(ExternalExperimentError::MissingHostLaneEngine {
                    suite_id: suite_id.to_string(),
                    run_id: run.run_id.clone(),
                    lane,
                    engine_id: engine_id.to_string(),
                });
            }
            e = e + 1;
        }
        proof {
            assert(!(exists|x: int| 0 <= x < want.len() && !reg.dom().contains(#[trigger] want[x])));
            assert(missing_lane_engine(lanes, reg, h as int) == missing_lane_engine(lanes, reg, h + 1));
        }
        h = h + 1;
    }
    Ok(())
}

impl ExperimentRunner {
    /// Checks run `i` of `suite`, assuming the earlier runs passed.
    fn check_run(&self, suite: &ExperimentSuiteSpec, i: usize) -> (r: Result<(), ExternalExperimentError>)
        requires
            i < suite.route_visible_runs@.len(),
        ensures
            match r {
                Ok(_) => run_fault(suite.suite_id@, suite.route_visible_runs@, self.registry_view(), i as int) is None,
                Err(e) => run_fault(suite.suite_id@, suite.route_visible_runs@, self.registry_view(), i as int) == Some(e@),
            },
    {
        let ghost runs = suite.route_visible_runs@;
        let run = &suite.route_visible_runs[i];
        match validate_id("run", run.run_id.as_str()) {
            Err(e) => return Err(e),
            Ok(_) => {},
        }
        match validate_id("family", run.family_id.as_str()) {
            Err(e) => return Err(e),
            Ok(_) => {},
        }
        match validate_id("engine", run.engine_family.as_str()) {
            Err(e) => return Err(e),
            Ok(_) => {},
        }
        let mut j: usize = 0;
        while j < i
            invariant
                runs == suite.route_visible_runs@,
                i < runs.len(),
                *run == runs[i as int],
                id_fault("run"@, run.run_id@) is None,
                id_fault("family"@, run.family_id@) is None,
                id_fault("engine"@, run.engine_family@) is None,
                j <= i,
                forall|k: int| 0 <= k < j ==> (#[trigger] runs[k]).run_id@ != run.run_id@,
            decreases i - j,
        {
            if suite.route_visible_runs[j].run_id == run.run_id {
                assert(runs[j as int].run_id@ == run.run_id@);
                return Err(ExternalExperimentError::DuplicateRunId {
                    suite_id: suite.suite_id.clone(),
                    run_id: run.run_id.clone(),
                });
            }
            j = j + 1;
        }
        let mut j: usize = 0;
        while j < i
            invariant
                runs == suite.route_visible_runs@,
                i < runs.len(),
                *run == runs[i as int],
                id_fault("run"@, run.run_id@) is None,
                id_fault("family"@, run.family_id@) is None,
                id_fault("engine"@, run.engine_family@) is None,
                forall|k: int| 0 <= k < i ==> (#[trigger] runs[k]).run_id@ != run.run_id@,
                j <= i,
                forall|k: int|
                    0 <= k < j ==> !((#[trigger] runs[k]).family_id@ == run.family_id@ && runs[k].engine_family@
                        == run.engine_family@ && runs[k].seed == run.seed),
            decreases i - j,
        {
            let other = &suite.route_visible_runs[j];
            if other.family_id == run.family_id && other.engine_family == run.engine_family && other.seed == run.seed {
                assert(runs[j as int] == *other);
                return Err(ExternalExperimentError::DuplicateRunTuple {
                    suite_id: suite.suite_id.clone(),
                    family_id: run.family_id.clone(),
                    config_id: run.engine_family.clone(),
                    seed: run.seed,
                });
            }
            j = j + 1;
        }
        match self.engine_registry.require_route_visible(suite.suite_id.as_str(), run) {
            Err(e) => return Err(e),
            Ok(_) => {},
        }
        validate_host_lanes(suite.suite_id.as_str(), run, &self.engine_registry)
    }

    /// Checks a custom route-visible suite before it runs: the suite id, at
    /// least one run, and for each run in order its ids, that no earlier run
    /// shares its run id or its (family, engine, seed), that its engine is a
    /// registered route-visible engine, and that every engine its host lanes
    /// need is registered. The first fault found is returned.
    pub fn validate_route_visible_suite(&self, suite: &ExperimentSuiteSpec) -> (r: Result<(), ExternalExperimentError>)
        ensures
            match r {
                Ok(_) => suite_fault(*suite, self.registry_view()) is None,
                Err(e) => suite_fault(*suite, self.registry_view()) == Some(e@),
            },
    {
        match validate_id("suite", suite.suite_id.as_str()) {
            Err(e) => return Err(e),
            Ok(_) => {},
        }
        if suite.route_visible_runs.len() == 0 {
            return Err(ExternalExperimentError::EmptySuite { suite_id: suite.suite_id.clone() });
        }
        let ghost runs = suite.route_visible_runs@;
        let ghost reg = self.registry_view();
        let ghost sid = suite.suite_id@;
        let n = suite.route_visible_runs.len();
        let mut i: usize = 0;
        while i < n
            invariant
                n == runs.len(),
                runs == suite.route_visible_runs@,
                reg == self.registry_view(),
                sid == suite.suite_id@,
                id_fault("suite"@, sid) is None,
                n > 0,
                i <= n,
                first_run_fault(sid, runs, reg, 0) == first_run_fault(sid, runs, reg, i as int),
            decreases n - i,
        {
            match self.check_run(suite, i) {
                Err(e) => {
                    assert(first_run_fault(sid, runs, reg, i as int) == Some(e@));
                    return Err(e);
                },
                Ok(_) => {},
            }
            assert(first_run_fault(sid, runs, reg, i as int) == first_run_fault(sid, runs, reg, i + 1));
            i = i + 1;
        }
        Ok(())
    }
}

/// The directory a suite's artifacts go to; refused when the sink is disabled.
pub fn artifact_output_dir<'a>(sink: &'a ArtifactSink, suite_id: &str, artifact_kind: &str) -> (r: Result<&'a String, ExternalExperimentError>)
    ensures
        match sink {
            ArtifactSink::Directory(p) => r == Ok::<&String, ExternalExperimentError>(p),
            ArtifactSink::Disabled => r matches Err(e) && e@ == SuiteFault::ArtifactSinkDisabled(suite_id@, artifact_kind@),
        },
{
    match sink.output_dir() {
        Some(dir) => Ok(dir),
        None => Err(ExternalExperimentError::ArtifactSinkDisabled {
            suite_id: suite_id.to_string(),
            artifact_kind: artifact_kind.to_string(),
        }),
    }
}

/// The last `n` bytes of `x`, most significant first.
pub open spec fn be_bytes(x: u128, n: nat) -> Seq<u8>
    decreases n,
{
    if n == 0 {
        Seq::empty()
    } else {
        be_bytes(x / 256, (n - 1) as nat).push((x % 256) as u8)
    }
}

fn be_bytes_of(x: u128, n: usize) -> (r: Vec<u8>)
    ensures
        r@ == be_bytes(x, n as nat),
    decreases n,
{
    if n == 0 {
        Vec::new()
    } else {
        let mut v = be_bytes_of(x / 256, n - 1);
        v.push((x % 256) as u8);
        v
    }
}

/// The bytes in decimal, separated by a comma and a space.
pub open spec fn list_body(bytes: Seq<u8>) -> Seq<char>
    decreases bytes.len(),
{
    if bytes.len() == 0 {
        Seq::empty()
    } else if bytes.len() == 1 {
        decimal(bytes[0] as nat)
    } else {
        list_body(bytes.drop_last()) + ", "@ + decimal(bytes.last() as nat)
    }
}

/// The report label of an engine: the built-in label, or else its contract
/// bytes rendered as a bracketed decimal list.
pub open spec fn engine_id_label_chars(engine_id: RoutingEngineId) -> Seq<char> {
    match engine_id {
        RoutingEngineId::Other(x) => "["@ + list_body(be_bytes(x, 16)) + "]"@,
        _ => engine_label(engine_id),
    }
}

/// The label under which route-visible artifacts report an engine.
pub fn engine_id_label(engine_id: RoutingEngineId) -> (r: String)
    ensures
        r@ == engine_id_label_chars(engine_id),
{
    match engine_id {
        RoutingEngineId::Other(x) => {
            proof {
                reveal_strlit("[");
                reveal_strlit("]");
                reveal_strlit(", ");
            }
            let bytes = be_bytes_of(x, 16);
            let mut out = String::from_str("[");
            let mut k: usize = 0;
            while k < bytes.len()
                invariant
                    k <= bytes@.len(),
                    out@ == "["@ + list_body(bytes@.take(k as int)),
                decreases bytes@.len() - k,
            {
                let ghost before = out@;
                if k > 0 {
                    out.append(", ");
                }
                out.append(decimal_string(bytes[k] as u64).as_str());
                proof {
                    let t = bytes@.take(k + 1);
                    assert(t.drop_last() =~= bytes@.take(k as int));
                    assert(t.last() == bytes@[k as int]);
                    if k == 0 {
                        assert(list_body(bytes@.take(0)) =~= Seq::<char>::empty());
                        assert(t.len() == 1);
                    }
                    assert(out@ =~= "["@ + list_body(t));
                }
                k = k + 1;
            }
            assert(bytes@.take(k as int) =~= bytes@);
            out.append("]");
            out
        },
        RoutingEngineId::Mercator => String::from_str("mercator"),
        _ => normalized_engine_id(engine_id).to_string(),
    }
}

/// The manifest of a route-visible suite.
#[derive(Clone, Debug)]
pub struct ExternalExperimentManifest {
    pub schema_version: u32,
    pub suite_id: String,
    pub artifact_kind: String,
    pub generated_at_unix_seconds: u64,
    pub run_count: u32,
}

/// What a route-visible run reports.
#[derive(Clone, Debug)]
pub struct RouteVisibleRunSummary {
    pub schema_version: u32,
    pub suite_id: String,
    pub run_id: String,
    pub family_id: String,
    pub scenario_name: String,
    pub engine_family: String,
    pub seed: u64,
    pub round_count: u32,
    pub distinct_engine_ids: Vec<String>,
    pub active_route_round_count: u32,
    pub driver_status_event_count: u32,
    pub failure_summary_count: u32,
}

/// A finished route-visible suite: where its artifacts went, if anywhere, its
/// manifest and its run summaries.
#[derive(Clone, Debug)]
pub struct RouteVisibleArtifacts {
    pub output_dir: Option<String>,
    pub manifest: ExternalExperimentManifest,
    pub runs: Vec<RouteVisibleRunSummary>,
}

/// `n` as a `u32`, or `u32::MAX` when it does not fit.
pub open spec fn saturate(n: nat) -> u32 {
    if n > u32::MAX { u32::MAX } else { n as u32 }
}

/// Number of rounds in which some route was active.
pub open spec fn active_round_total(rounds: Seq<ReducedRound>) -> nat
    decreases rounds.len(),
{
    if rounds.len() == 0 {
        0
    } else {
        active_round_total(rounds.drop_last()) + if rounds.last().active_routes@.len() > 0 { 1nat } else { 0nat }
    }
}

/// `r` is the summary row of the route-visible run `run` of suite `suite_id`
/// read from its reduced replay.
pub open spec fn run_row(r: RouteVisibleRunSummary, suite_id: Seq<char>, run: RouteVisibleRunSpec, reduced: ReducedReplayView) -> bool {
    &&& r.schema_version == EXTERNAL_ROUTE_ARTIFACT_SCHEMA_VERSION
    &&& r.suite_id@ == suite_id
    &&& r.run_id@ == run.run_id@
    &&& r.family_id@ == run.family_id@
    &&& r.scenario_name@ == run.scenario.name@
    &&& r.engine_family@ == run.engine_family@
    &&& r.seed == run.seed
    &&& r.round_count == reduced.round_count
    &&& r.distinct_engine_ids@.len() == reduced.distinct_engine_ids@.len()
    &&& forall|k: int| 0 <= k < r.distinct_engine_ids@.len() ==> (#[trigger] r.distinct_engine_ids@[k])@
        == engine_id_label_chars(reduced.distinct_engine_ids@[k])
    &&& r.active_route_round_count == saturate(active_round_total(reduced.rounds@))
    &&& r.driver_status_event_count == saturate(reduced.driver_status_event_count as nat)
    &&& r.failure_summary_count == saturate(reduced.failure_summary_count as nat)
}

/// The summary row of one route-visible run from its reduced replay.
pub fn route_visible_run_summary(suite_id: &str, run: &RouteVisibleRunSpec, reduced: &ReducedReplayView) -> (r: RouteVisibleRunSummary)
    ensures
        run_row(r, suite_id@, *run, *reduced),
{
    let mut active: usize = 0;
    let mut k: usize = 0;
    while k < reduced.rounds.len()
        invariant
            k <= reduced.rounds@.len(),
            active == active_round_total(reduced.rounds@.take(k as int)),
            active <= k,
        decreases reduced.rounds@.len() - k,
    {
        assert(reduced.rounds@.take(k + 1).drop_last() =~= reduced.rounds@.take(k as int));
        if reduced.rounds[k].active_routes.len() > 0 {
            active = active + 1;
        }
        k = k + 1;
    }
    assert(reduced.rounds@.take(k as int) =~= reduced.rounds@);
    let mut labels: Vec<String> = Vec::new();
    let mut j: usize = 0;
    while j < reduced.distinct_engine_ids.len()
        invariant
            j <= reduced.distinct_engine_ids@.len(),
            labels@.len() == j,
            forall|t: int| 0 <= t < j ==> (#[trigger] labels@[t])@ == engine_id_label_chars(reduced.distinct_engine_ids@[t]),
        decreases reduced.distinct_engine_ids@.len() - j,
    {
        labels.push(engine_id_label(reduced.distinct_engine_ids[j]));
        j = j + 1;
    }
    RouteVisibleRunSummary {
        schema_version: EXTERNAL_ROUTE_ARTIFACT_SCHEMA_VERSION,
        suite_id: suite_id.to_string(),
        run_id: run.run_id.clone(),
        family_id: run.family_id.clone(),
        scenario_name: run.scenario.name.clone(),
        engine_family: run.engine_family.clone(),
        seed: run.seed,
        round_count: reduced.round_count,
        distinct_engine_ids: labels,
        active_route_round_count: if active > u32::MAX as usize { u32::MAX } else { active as u32 },
        driver_status_event_count: if reduced.driver_status_event_count > u32::MAX as usize {
            u32::MAX
        } else {
            reduced.driver_status_event_count as u32
        },
        failure_summary_count: if reduced.failure_summary_count > u32::MAX as usize {
            u32::MAX
        } else {
            reduced.failure_summary_count as u32
        },
    }
}

/// `m` is the manifest of the route-visible suite `suite_id` with `n` runs.
pub open spec fn manifest_of(m: ExternalExperimentManifest, suite_id: Seq<char>, n: nat) -> bool {
    &&& m.schema_version == EXTERNAL_ROUTE_ARTIFACT_SCHEMA_VERSION
    &&& m.suite_id@ == suite_id
    &&& m.artifact_kind@ == "route-visible"@
    &&& m.generated_at_unix_seconds == 0
    &&& m.run_count == saturate(n)
}

/// The manifest of a route-visible suite with the given runs.
pub fn route_visible_manifest(suite_id: &str, runs: &Vec<RouteVisibleRunSummary>) -> (r: ExternalExperimentManifest)
    ensures
        manifest_of(r, suite_id@, runs@.len()),
{
    ExternalExperimentManifest {
        schema_version: EXTERNAL_ROUTE_ARTIFACT_SCHEMA_VERSION,
        suite_id: suite_id.to_string(),
        artifact_kind: String::from_str("route-visible"),
        generated_at_unix_seconds: 0,
        run_count: if runs.len() > u32::MAX as usize { u32::MAX } else { runs.len() as u32 },
    }
}

/// Registering an entry makes it what a lookup of its id gives back, and
/// leaves every other id as it was.
pub proof fn lemma_registry_read_after_write(
    before: Map<Seq<char>, EngineRegistryEntry>,
    entry: EngineRegistryEntry,
    other: Seq<char>,
)
    ensures
        before.insert(entry.engine_id@, entry).dom().contains(entry.engine_id@),
        before.insert(entry.engine_id@, entry)[entry.engine_id@] == entry,
        other != entry.engine_id@ ==> (before.insert(entry.engine_id@, entry).dom().contains(other) == before.dom().contains(other)),
        other != entry.engine_id@ && before.dom().contains(other) ==> before.insert(entry.engine_id@, entry)[other] == before[other],
{
}

proof fn lemma_no_run_fault_from(
    suite_id: Seq<char>,
    runs: Seq<RouteVisibleRunSpec>,
    reg: Map<Seq<char>, EngineRegistryEntry>,
    i: int,
    j: int,
)
    requires
        0 <= i <= j < runs.len(),
        first_run_fault(suite_id, runs, reg, i) is None,
    ensures
        run_fault(suite_id, runs, reg, j) is None,
    decreases j - i,
{
    if i < j {
        lemma_no_run_fault_from(suite_id, runs, reg, i + 1, j);
    }
}

/// A suite that validation accepts has a valid id and at least one run; its
/// runs have valid ids, distinct run ids and distinct (family, engine, seed)
/// tuples; each names a registered route-visible engine; and every engine
/// that a host lane of a run needs is registered.
pub proof fn lemma_accepted_suite(suite: ExperimentSuiteSpec, reg: Map<Seq<char>, EngineRegistryEntry>)
    requires
        suite_fault(suite, reg) is None,
    ensures
        id_fault("suite"@, suite.suite_id@) is None,
        suite.route_visible_runs@.len() > 0,
        forall|i: int| 0 <= i < suite.route_visible_runs@.len() ==> {
            let run = #[trigger] suite.route_visible_runs@[i];
            &&& id_fault("run"@, run.run_id@) is None
            &&& id_fault("family"@, run.family_id@) is None
            &&& id_fault("engine"@, run.engine_family@) is None
            &&& reg.dom().contains(run.engine_family@)
            &&& reg[run.engine_family@].route_shape == EngineRouteShape::RouteVisible
            &&& missing_lane_engine(host_lanes(run), reg, 0) is None
        },
        forall|i: int, j: int| 0 <= i < j < suite.route_visible_runs@.len() ==> {
            &&& (#[trigger] suite.route_visible_runs@[i]).run_id@ != (#[trigger] suite.route_visible_runs@[j]).run_id@
            &&& !(suite.route_visible_runs@[i].family_id@ == suite.route_visible_runs@[j].family_id@
                && suite.route_visible_runs@[i].engine_family@ == suite.route_visible_runs@[j].engine_family@
                && suite.route_visible_runs@[i].seed == suite.route_visible_runs@[j].seed)
        },
{
    let runs = suite.route_visible_runs@;
    let sid = suite.suite_id@;
    assert forall|i: int| 0 <= i < runs.len() implies {
        let run = #[trigger] runs[i];
        &&& id_fault("run"@, run.run_id@) is None
        &&& id_fault("family"@, run.family_id@) is None
        &&& id_fault("engine"@, run.engine_family@) is None
        &&& reg.dom().contains(run.engine_family@)
        &&& reg[run.engine_family@].route_shape == EngineRouteShape::RouteVisible
        &&& missing_lane_engine(host_lanes(run), reg, 0) is None
    } by {
        lemma_no_run_fault_from(sid, runs, reg, 0, i);
        assert(run_fault(sid, runs, reg, i) is None);
    }
    assert forall|i: int, j: int| 0 <= i < j < runs.len() implies {
        &&& (#[trigger] runs[i]).run_id@ != (#[trigger] runs[j]).run_id@
        &&& !(runs[i].family_id@ == runs[j].family_id@ && runs[i].engine_family@ == runs[j].engine_family@
            && runs[i].seed == runs[j].seed)
    } by {
        lemma_no_run_fault_from(sid, runs, reg, 0, j);
        assert(run_fault(sid, runs, reg, j) is None);
    }
}


/// Finishes a route-visible suite whose runs were simulated elsewhere, one
/// reduced replay per run in suite order: a suite that validation refuses is
/// refused with its fault; otherwise each run is summarised from its replay,
/// the manifest counts the runs, and the artifacts go to the sink's directory
/// (none for a disabled sink).
pub fn finish_route_visible_runs(
    runner: &ExperimentRunner,
    suite: &ExperimentSuiteSpec,
    replays: &Vec<ReducedReplayView>,
    sink: &ArtifactSink,
) -> (r: Result<RouteVisibleArtifacts, ExternalExperimentError>)
    requires
        replays@.len() == suite.route_visible_runs@.len(),
    ensures
        match r {
            Err(e) => suite_fault(*suite, runner.registry_view()) == Some(e@),
            Ok(a) => {
                &&& suite_fault(*suite, runner.registry_view()) is None
                &&& a.runs@.len() == replays@.len()
                &&& forall|k: int| 0 <= k < a.runs@.len() ==> run_row(
                    #[trigger] a.runs@[k],
                    suite.suite_id@,
                    suite.route_visible_runs@[k],
                    replays@[k],
                )
                &&& manifest_of(a.manifest, suite.suite_id@, replays@.len())
                &&& a.output_dir == match sink {
                    ArtifactSink::Directory(p) => Some(*p),
                    ArtifactSink::Disabled => None::<String>,
                }
            },
        },
{
    match runner.validate_route_visible_suite(suite) {
        Err(e) => return Err(e),
        Ok(_) => {},
    }
    let mut runs: Vec<RouteVisibleRunSummary> = Vec::new();
    let mut k: usize = 0;
    while k < replays.len()
        invariant
            replays@.len() == suite.route_visible_runs@.len(),
            k <= replays@.len(),
            runs@.len() == k,
            forall|j: int| 0 <= j < k ==> run_row(#[trigger] runs@[j], suite.suite_id@, suite.route_visible_runs@[j], replays@[j]),
        decreases replays@.len() - k,
    {
        runs.push(route_visible_run_summary(suite.suite_id.as_str(), &suite.route_visible_runs[k], &replays[k]));
        k = k + 1;
    }
    let manifest = route_visible_manifest(suite.suite_id.as_str(), &runs);
    let output_dir = match sink.output_dir() {
        Some(p) => Some(p.clone()),
        None => None,
    };
    Ok(RouteVisibleArtifacts { output_dir, manifest, runs })
}


/// Law: an identifier is accepted exactly when it is non-empty and each of its
/// characters is an ASCII letter (either case), an ASCII digit, `-`, `_` or
/// `.`; an empty one is refused as empty, and any other as invalid.
pub proof fn lemma_id_accepted(kind: Seq<char>, id: Seq<char>)
    ensures
        id_fault(kind, id) is None <==> (id.len() > 0 && forall|i: int| 0 <= i < id.len() ==> {
            let c = #[trigger] id[i];
            ('a' <= c && c <= 'z') || ('A' <= c && c <= 'Z') || ('0' <= c && c <= '9') || c == '-' || c == '_' || c == '.'
        }),
        id.len() == 0 ==> id_fault(kind, id) == Some(SuiteFault::EmptyId(kind)),
        id.len() > 0 && id_fault(kind, id) is Some ==> id_fault(kind, id) == Some(SuiteFault::InvalidId(kind, id)),
{
    if id.len() > 0 && id_fault(kind, id) is Some {
        let i = choose|i: int| 0 <= i < id.len() && !id_char_ok(#[trigger] id[i]);
        assert(!(('a' <= id[i] && id[i] <= 'z') || ('A' <= id[i] && id[i] <= 'Z') || ('0' <= id[i] && id[i] <= '9')
            || id[i] == '-' || id[i] == '_' || id[i] == '.'));
    }
}

proof fn lemma_active_rounds_counted(rounds: Seq<ReducedRound>)
    ensures
        active_round_total(rounds) == rounds.filter(|round: ReducedRound| round.active_routes@.len() > 0).len(),
        rounds.filter(|round: ReducedRound| round.active_routes@.len() > 0).len() <= rounds.len(),
    decreases rounds.len(),
{
    reveal_with_fuel(Seq::filter, 1);
    if rounds.len() > 0 {
        lemma_active_rounds_counted(rounds.drop_last());
    }
}

/// Law: the active-route round count of a route-visible run row is the number
/// of rounds of its replay in which at least one route was active (saturating
/// at `u32::MAX`), so it never exceeds the number of rounds; a round with
/// several active routes counts once.
pub proof fn lemma_active_route_rounds(r: RouteVisibleRunSummary, suite_id: Seq<char>, run: RouteVisibleRunSpec, reduced: ReducedReplayView)
    requires
        run_row(r, suite_id, run, reduced),
    ensures
        r.active_route_round_count == saturate(reduced.rounds@.filter(|round: ReducedRound| round.active_routes@.len() > 0).len()),
        r.active_route_round_count <= reduced.rounds@.len(),
{
    lemma_active_rounds_counted(reduced.rounds@);
}

proof fn lemma_missing_lane_none(lanes: Seq<EngineLane>, reg: Map<Seq<char>, EngineRegistryEntry>, h: int)
    requires
        0 <= h <= lanes.len(),
    ensures
        missing_lane_engine(lanes, reg, h) is None <==> forall|l: int, e: int|
            h <= l < lanes.len() && 0 <= e < lane_engine_ids(lanes[l]).len() ==> reg.dom().contains(
                #[trigger] lane_engine_ids(lanes[l])[e],
            ),
    decreases lanes.len() - h,
{
    if h < lanes.len() {
        lemma_missing_lane_none(lanes, reg, h + 1);
    }
}

/// A suite is acceptable against the registry `reg`: its id is valid and it
/// has runs; each run has valid ids, names a registered route-visible engine,
/// and every engine that a lane of one of its hosts needs is registered; no
/// two runs share a run id or a (family, engine, seed) tuple.
pub open spec fn suite_acceptable(suite: ExperimentSuiteSpec, reg: Map<Seq<char>, EngineRegistryEntry>) -> bool {
    let runs = suite.route_visible_runs@;
    &&& id_fault("suite"@, suite.suite_id@) is None
    &&& runs.len() > 0
    &&& forall|i: int| 0 <= i < runs.len() ==> {
        let run = #[trigger] runs[i];
        &&& id_fault("run"@, run.run_id@) is None
        &&& id_fault("family"@, run.family_id@) is None
        &&& id_fault("engine"@, run.engine_family@) is None
        &&& reg.dom().contains(run.engine_family@)
        &&& reg[run.engine_family@].route_shape == EngineRouteShape::RouteVisible
        &&& forall|l: int, e: int|
            0 <= l < run.scenario.hosts@.len() && 0 <= e < lane_engine_ids(run.scenario.hosts@[l].lane).len()
                ==> reg.dom().contains(#[trigger] lane_engine_ids(run.scenario.hosts@[l].lane)[e])
    }
    &&& forall|i: int, j: int| 0 <= i < j < runs.len() ==> {
        &&& (#[trigger] runs[i]).run_id@ != (#[trigger] runs[j]).run_id@
        &&& !(runs[i].family_id@ == runs[j].family_id@ && runs[i].engine_family@ == runs[j].engine_family@
            && runs[i].seed == runs[j].seed)
    }
}

proof fn lemma_host_lanes_needed(run: RouteVisibleRunSpec, reg: Map<Seq<char>, EngineRegistryEntry>)
    ensures
        missing_lane_engine(host_lanes(run), reg, 0) is None <==> forall|l: int, e: int|
            0 <= l < run.scenario.hosts@.len() && 0 <= e < lane_engine_ids(run.scenario.hosts@[l].lane).len()
                ==> reg.dom().contains(#[trigger] lane_engine_ids(run.scenario.hosts@[l].lane)[e]),
{
    let lanes = host_lanes(run);
    lemma_missing_lane_none(lanes, reg, 0);
    assert forall|l: int| 0 <= l < run.scenario.hosts@.len() implies lanes[l] == run.scenario.hosts@[l].lane by {}
    assert(lanes.len() == run.scenario.hosts@.len());
    if missing_lane_engine(lanes, reg, 0) is None {
        assert forall|l: int, e: int|
            0 <= l < run.scenario.hosts@.len() && 0 <= e < lane_engine_ids(run.scenario.hosts@[l].lane).len()
                implies reg.dom().contains(#[trigger] lane_engine_ids(run.scenario.hosts@[l].lane)[e]) by {
            assert(lanes[l] == run.scenario.hosts@[l].lane);
            assert(reg.dom().contains(lane_engine_ids(lanes[l])[e]));
        }
    } else {
        let (l, e) = choose|l: int, e: int|
            0 <= l < lanes.len() && 0 <= e < lane_engine_ids(lanes[l]).len() && !reg.dom().contains(
                #[trigger] lane_engine_ids(lanes[l])[e],
            );
        assert(lanes[l] == run.scenario.hosts@[l].lane);
        assert(!reg.dom().contains(lane_engine_ids(run.scenario.hosts@[l].lane)[e]));
    }
}

proof fn lemma_first_run_fault_none(suite_id: Seq<char>, runs: Seq<RouteVisibleRunSpec>, reg: Map<Seq<char>, EngineRegistryEntry>, i: int)
    requires
        0 <= i <= runs.len(),
        forall|j: int| i <= j < runs.len() ==> #[trigger] run_fault(suite_id, runs, reg, j) is None,
    ensures
        first_run_fault(suite_id, runs, reg, i) is None,
    decreases runs.len() - i,
{
    if i < runs.len() {
        assert(run_fault(suite_id, runs, reg, i) is None);
        lemma_first_run_fault_none(suite_id, runs, reg, i + 1);
    }
}

/// Validation accepts a suite exactly when it is acceptable.
pub proof fn lemma_suite_fault_none_iff(suite: ExperimentSuiteSpec, reg: Map<Seq<char>, EngineRegistryEntry>)
    ensures
        suite_fault(suite, reg) is None <==> suite_acceptable(suite, reg),
{
    let runs = suite.route_visible_runs@;
    let sid = suite.suite_id@;
    if suite_fault(suite, reg) is None {
        lemma_accepted_suite(suite, reg);
        assert forall|i: int| 0 <= i < runs.len() implies {
            let run = #[trigger] runs[i];
            forall|l: int, e: int|
                0 <= l < run.scenario.hosts@.len() && 0 <= e < lane_engine_ids(run.scenario.hosts@[l].lane).len()
                    ==> reg.dom().contains(#[trigger] lane_engine_ids(run.scenario.hosts@[l].lane)[e])
        } by {
            lemma_host_lanes_needed(runs[i], reg);
        }
    }
    if suite_acceptable(suite, reg) {
        assert forall|j: int| 0 <= j < runs.len() implies #[trigger] run_fault(sid, runs, reg, j) is None by {
            lemma_host_lanes_needed(runs[j], reg);
            assert(!exists|k: int| 0 <= k < j && (#[trigger] runs[k]).run_id@ == runs[j].run_id@);
            assert(!exists|k: int|
                0 <= k < j && (#[trigger] runs[k]).family_id@ == runs[j].family_id@ && runs[k].engine_family@ == runs[j].engine_family@
                    && runs[k].seed == runs[j].seed);
        }
        lemma_first_run_fault_none(sid, runs, reg, 0);
    }
}

} // verus!
