//! Scenarios as the experiments build them: the hosts with the engines they
//! run and the knobs they override, the objectives bound to owners, the
//! initial configuration, and the scripted environment hooks.
use vstd::prelude::*;
use crate::external::EngineLane;
use crate::params::{
    decay_window_of, field_search_config_of, pathway_search_config_of, ComparisonEngineSet, DecayWindow,
    ExperimentParameterSet, FieldSearchConfig, ParameterSetView, PathwaySearchConfig,
};
use crate::replay::{DestinationId, DestinationView};
use crate::topology::{topology_node, Configuration, DirectedLink, Link, MediumEnvironment, NodeEngines, NodeId, TopologyNode};

verus! {

/// How hard the router tries to keep a route.
#[derive(Clone, Copy, Debug, PartialEq, Eq, Structural)]
pub enum RouteRepairClass {
    BestEffort,
    Repairable,
}

/// Whether a route must stay connected or may ride out partitions.
#[derive(Clone, Copy, Debug, PartialEq, Eq, Structural)]
pub enum RoutePartitionClass {
    ConnectedOnly,
    PartitionTolerant,
}

/// Repair and partition posture of a route.
#[derive(Clone, Copy, Debug, PartialEq, Eq, Structural)]
pub struct ConnectivityPosture {
    pub repair: RouteRepairClass,
    pub partition: RoutePartitionClass,
}

/// The routing parameters that a host selects for its routes. Every profile
/// the experiments select is link-protected, dense-interactive, has a
/// diversity floor of one and allows engine fallback and route replacement.
#[derive(Clone, Copy, Debug, PartialEq, Eq, Structural)]
pub struct SelectedRoutingParameters {
    pub selected_connectivity: ConnectivityPosture,
    pub diversity_floor: u8,
    pub routing_engine_fallback_allowed: bool,
    pub route_replacement_allowed: bool,
}

/// The profile of a host content with best-effort connected routes.
pub fn best_effort_connected_profile() -> (r: SelectedRoutingParameters)
    ensures
        r.selected_connectivity == (ConnectivityPosture {
            repair: RouteRepairClass::BestEffort,
            partition: RoutePartitionClass::ConnectedOnly,
        }),
        r.diversity_floor == 1,
        r.routing_engine_fallback_allowed,
        r.route_replacement_allowed,
{
    SelectedRoutingParameters {
        selected_connectivity: ConnectivityPosture {
            repair: RouteRepairClass::BestEffort,
            partition: RoutePartitionClass::ConnectedOnly,
        },
        diversity_floor: 1,
        routing_engine_fallback_allowed: true,
        route_replacement_allowed: true,
    }
}

/// The profile of a host that wants repairable connected routes.
pub fn repairable_connected_profile() -> (r: SelectedRoutingParameters)
    ensures
        r.selected_connectivity == (ConnectivityPosture {
            repair: RouteRepairClass::Repairable,
            partition: RoutePartitionClass::ConnectedOnly,
        }),
        r.diversity_floor == 1,
        r.routing_engine_fallback_allowed,
        r.route_replacement_allowed,
{
    SelectedRoutingParameters {
        selected_connectivity: ConnectivityPosture {
            repair: RouteRepairClass::Repairable,
            partition: RoutePartitionClass::ConnectedOnly,
        },
        diversity_floor: 1,
        routing_engine_fallback_allowed: true,
        route_replacement_allowed: true,
    }
}

/// What an owner asks of a route: where to, with which connectivity, within
/// which latency budget and priorities. Objectives move traffic and are
/// link-protected.
#[derive(Clone, Debug)]
pub struct RoutingObjective {
    pub destination: DestinationId,
    pub target_connectivity: ConnectivityPosture,
    pub latency_budget_ms: u32,
    pub protection_priority: u32,
    pub connectivity_priority: u32,
}

/// A best-effort, connected-only route to `destination`.
pub fn connected_objective(destination: NodeId) -> (r: RoutingObjective)
    ensures
        r.destination@ == DestinationView::Node(destination.0),
        r.target_connectivity == (ConnectivityPosture {
            repair: RouteRepairClass::BestEffort,
            partition: RoutePartitionClass::ConnectedOnly,
        }),
        r.latency_budget_ms == 250,
        r.protection_priority == 10,
        r.connectivity_priority == 20,
{
    RoutingObjective {
        destination: DestinationId::Node(destination),
        target_connectivity: ConnectivityPosture {
            repair: RouteRepairClass::BestEffort,
            partition: RoutePartitionClass::ConnectedOnly,
        },
        latency_budget_ms: 250,
        protection_priority: 10,
        connectivity_priority: 20,
    }
}

/// An objective bound to the node that owns it, activated at a round.
#[derive(Clone, Debug)]
pub struct BoundObjective {
    pub owner_node_id: NodeId,
    pub objective: RoutingObjective,
    pub activate_at_round: u32,
}

/// `objective` owned by `owner`, activated at `round`.
pub fn bound_objective(owner: NodeId, objective: RoutingObjective, round: u32) -> (r: BoundObjective)
    ensures
        r.owner_node_id == owner,
        r.objective == objective,
        r.activate_at_round == round,
{
    BoundObjective { owner_node_id: owner, objective, activate_at_round: round }
}

/// Evidence that seeds a Field host: a neighbor through which the destination
/// was reached with the given support and hop bounds, observed at tick one of
/// epoch one, optionally with reverse feedback.
#[derive(Clone, Debug)]
pub struct FieldBootstrapSummary {
    pub destination: DestinationId,
    pub from_neighbor: NodeId,
    pub delivery_support: u16,
    pub min_hops: u8,
    pub max_hops: u8,
    pub reverse_feedback: Option<u16>,
}

/// A bootstrap summary as plain values.
pub struct BootstrapView {
    pub destination: DestinationView,
    pub from_neighbor: u8,
    pub delivery_support: u16,
    pub min_hops: u8,
    pub max_hops: u8,
    pub reverse_feedback: Option<u16>,
}

impl View for FieldBootstrapSummary {
    type V = BootstrapView;

    open spec fn view(&self) -> BootstrapView {
        BootstrapView {
            destination: self.destination@,
            from_neighbor: self.from_neighbor.0,
            delivery_support: self.delivery_support,
            min_hops: self.min_hops,
            max_hops: self.max_hops,
            reverse_feedback: self.reverse_feedback,
        }
    }
}

/// A bootstrap seed: neighbor, delivery support, min and max hops, reverse feedback.
pub type FieldBootstrapSeed = (NodeId, u16, u8, u8, Option<u16>);

/// The summary that a seed stands for, toward `destination`.
pub open spec fn seed_view(destination: DestinationView, seed: FieldBootstrapSeed) -> BootstrapView {
    BootstrapView {
        destination,
        from_neighbor: seed.0.0,
        delivery_support: seed.1,
        min_hops: seed.2,
        max_hops: seed.3,
        reverse_feedback: seed.4,
    }
}

/// Clones a destination.
pub fn copy_destination(d: &DestinationId) -> (r: DestinationId)
    ensures
        r@ == d@,
{
    match d {
        DestinationId::Node(n) => DestinationId::Node(*n),
        DestinationId::Gateway(g) => DestinationId::Gateway(*g),
        DestinationId::Service(s) => DestinationId::Service(s.clone()),
    }
}

/// The bootstrap summary toward `destination` through `from_neighbor`.
pub fn field_bootstrap_summary(
    destination: DestinationId,
    from_neighbor: NodeId,
    delivery_support: u16,
    min_hops: u8,
    max_hops: u8,
    reverse_feedback: Option<u16>,
) -> (r: FieldBootstrapSummary)
    ensures
        r@ == seed_view(destination@, (from_neighbor, delivery_support, min_hops, max_hops, reverse_feedback)),
{
    FieldBootstrapSummary { destination, from_neighbor, delivery_support, min_hops, max_hops, reverse_feedback }
}

/// The knobs a host overrides on its engines.
#[derive(Clone, Debug)]
pub struct HostOverrides {
    pub routing_profile: Option<SelectedRoutingParameters>,
    pub field_bootstrap_summaries: Vec<FieldBootstrapSummary>,
    pub batman_bellman_decay_window: Option<DecayWindow>,
    pub batman_classic_decay_window: Option<DecayWindow>,
    pub babel_decay_window: Option<DecayWindow>,
    pub olsrv2_decay_window: Option<DecayWindow>,
    pub pathway_search_config: Option<PathwaySearchConfig>,
    pub field_search_config: Option<FieldSearchConfig>,
}

/// One simulated host: its node, the engines it runs, and its overrides.
#[derive(Clone, Debug)]
pub struct HostSpec {
    pub local_node_id: NodeId,
    pub lane: EngineLane,
    pub overrides: HostOverrides,
}

/// The bootstrap summaries of a host as plain values.
pub open spec fn bootstrap_views(host: HostSpec) -> Seq<BootstrapView> {
    host.overrides.field_bootstrap_summaries@.map_values(|s: FieldBootstrapSummary| s@)
}

/// The host has no overrides.
pub open spec fn plain_overrides(o: HostOverrides) -> bool {
    &&& o.routing_profile is None
    &&& o.field_bootstrap_summaries@.len() == 0
    &&& o.batman_bellman_decay_window is None
    &&& o.batman_classic_decay_window is None
    &&& o.babel_decay_window is None
    &&& o.olsrv2_decay_window is None
    &&& o.pathway_search_config is None
    &&& o.field_search_config is None
}

impl HostSpec {
    /// A host on `node` running the engines of `lane`, overriding nothing.
    pub fn new(local_node_id: NodeId, lane: EngineLane) -> (r: Self)
        ensures
            r.local_node_id == local_node_id,
            r.lane == lane,
            plain_overrides(r.overrides),
    {
        HostSpec {
            local_node_id,
            lane,
            overrides: HostOverrides {
                routing_profile: None,
                field_bootstrap_summaries: Vec::new(),
                batman_bellman_decay_window: None,
                batman_classic_decay_window: None,
                babel_decay_window: None,
                olsrv2_decay_window: None,
                pathway_search_config: None,
                field_search_config: None,
            },
        }
    }

    /// The same host selecting `profile` for its routes.
    pub fn with_profile(self, profile: SelectedRoutingParameters) -> (r: Self)
        ensures
            r.local_node_id == self.local_node_id,
            r.lane == self.lane,
            r.overrides == (HostOverrides { routing_profile: Some(profile), ..self.overrides }),
    {
        let mut host = self;
        host.overrides.routing_profile = Some(profile);
        host
    }

    /// The same host with one more Field bootstrap summary.
    pub fn with_field_bootstrap_summary(self, summary: FieldBootstrapSummary) -> (r: Self)
        ensures
            r.local_node_id == self.local_node_id,
            r.lane == self.lane,
            r.overrides.field_bootstrap_summaries@ == self.overrides.field_bootstrap_summaries@.push(summary),
            r.overrides == (HostOverrides { field_bootstrap_summaries: r.overrides.field_bootstrap_summaries, ..self.overrides }),
    {
        let mut host = self;
        host.overrides.field_bootstrap_summaries.push(summary);
        host
    }
}

/// The engines of each comparison engine set; without a set, hosts run every engine.
pub open spec fn comparison_lane(set: Option<ComparisonEngineSet>) -> EngineLane {
    match set {
        Some(ComparisonEngineSet::BatmanBellman) => EngineLane::BatmanBellman,
        Some(ComparisonEngineSet::BatmanClassic) => EngineLane::BatmanClassic,
        Some(ComparisonEngineSet::Babel) => EngineLane::Babel,
        Some(ComparisonEngineSet::OlsrV2) => EngineLane::OlsrV2,
        Some(ComparisonEngineSet::Scatter) => EngineLane::Scatter,
        Some(ComparisonEngineSet::Mercator) => EngineLane::Mercator,
        Some(ComparisonEngineSet::Pathway) => EngineLane::Pathway,
        Some(ComparisonEngineSet::Field) => EngineLane::Field,
        Some(ComparisonEngineSet::PathwayAndBatmanBellman) => EngineLane::PathwayAndBatmanBellman,
        None => EngineLane::AllEngines,
    }
}

/// The engines that a configuration node of each comparison engine set advertises.
pub open spec fn comparison_node_engines(set: Option<ComparisonEngineSet>) -> NodeEngines {
    match set {
        Some(ComparisonEngineSet::BatmanBellman) => NodeEngines::BatmanBellman,
        Some(ComparisonEngineSet::BatmanClassic) => NodeEngines::BatmanClassic,
        Some(ComparisonEngineSet::Babel) => NodeEngines::Babel,
        Some(ComparisonEngineSet::OlsrV2) => NodeEngines::OlsrV2,
        Some(ComparisonEngineSet::Scatter) => NodeEngines::Scatter,
        Some(ComparisonEngineSet::Mercator) => NodeEngines::Mercator,
        Some(ComparisonEngineSet::Pathway) => NodeEngines::Pathway,
        Some(ComparisonEngineSet::Field) => NodeEngines::Field,
        Some(ComparisonEngineSet::PathwayAndBatmanBellman) => NodeEngines::PathwayAndBatmanBellman,
        None => NodeEngines::AllEngines,
    }
}

/// A configuration node for a comparison run.
pub fn comparison_topology_node(node_byte: u8, comparison_engine_set: Option<ComparisonEngineSet>) -> (r: TopologyNode)
    ensures
        r.node_id.0 == node_byte,
        r.engines == comparison_node_engines(comparison_engine_set),
        r.hold_capacity_available_bytes is None,
        r.relay_utilization_permille is None,
{
    let engines = match comparison_engine_set {
        Some(ComparisonEngineSet::BatmanBellman) => NodeEngines::BatmanBellman,
        Some(ComparisonEngineSet::BatmanClassic) => NodeEngines::BatmanClassic,
        Some(ComparisonEngineSet::Babel) => NodeEngines::Babel,
        Some(ComparisonEngineSet::OlsrV2) => NodeEngines::OlsrV2,
        Some(ComparisonEngineSet::Scatter) => NodeEngines::Scatter,
        Some(ComparisonEngineSet::Mercator) => NodeEngines::Mercator,
        Some(ComparisonEngineSet::Pathway) => NodeEngines::Pathway,
        Some(ComparisonEngineSet::Field) => NodeEngines::Field,
        Some(ComparisonEngineSet::PathwayAndBatmanBellman) => NodeEngines::PathwayAndBatmanBellman,
        None => NodeEngines::AllEngines,
    };
    topology_node(node_byte, engines)
}

/// A host for a comparison run, running the engines of the set.
pub fn comparison_host_spec(local_node_id: NodeId, comparison_engine_set: Option<ComparisonEngineSet>) -> (r: HostSpec)
    ensures
        r.local_node_id == local_node_id,
        r.lane == comparison_lane(comparison_engine_set),
        plain_overrides(r.overrides),
{
    let lane = match comparison_engine_set {
        Some(ComparisonEngineSet::BatmanBellman) => EngineLane::BatmanBellman,
        Some(ComparisonEngineSet::BatmanClassic) => EngineLane::BatmanClassic,
        Some(ComparisonEngineSet::Babel) => EngineLane::Babel,
        Some(ComparisonEngineSet::OlsrV2) => EngineLane::OlsrV2,
        Some(ComparisonEngineSet::Scatter) => EngineLane::Scatter,
        Some(ComparisonEngineSet::Mercator) => EngineLane::Mercator,
        Some(ComparisonEngineSet::Pathway) => EngineLane::Pathway,
        Some(ComparisonEngineSet::Field) => EngineLane::Field,
        Some(ComparisonEngineSet::PathwayAndBatmanBellman) => EngineLane::PathwayAndBatmanBellman,
        None => EngineLane::AllEngines,
    };
    HostSpec::new(local_node_id, lane)
}

/// The host seeded with one bootstrap summary toward `destination` per seed.
pub fn with_field_bootstrap_summaries(host: HostSpec, destination: &DestinationId, summaries: &Vec<FieldBootstrapSeed>) -> (r: HostSpec)
    ensures
        r.local_node_id == host.local_node_id,
        r.lane == host.lane,
        r.overrides == (HostOverrides { field_bootstrap_summaries: r.overrides.field_bootstrap_summaries, ..host.overrides }),
        bootstrap_views(r) == bootstrap_views(host) + summaries@.map_values(|seed: FieldBootstrapSeed| seed_view(destination@, seed)),
{
    let mut out = host;
    let mut i: usize = 0;
    while i < summaries.len()
        invariant
            i <= summaries@.len(),
            out.local_node_id == host.local_node_id,
            out.lane == host.lane,
            out.overrides == (HostOverrides { field_bootstrap_summaries: out.overrides.field_bootstrap_summaries, ..host.overrides }),
            bootstrap_views(out) == bootstrap_views(host) + summaries@.take(i as int).map_values(|seed: FieldBootstrapSeed| seed_view(destination@, seed)),
        decreases summaries@.len() - i,
    {
        let seed = summaries[i];
        let summary = field_bootstrap_summary(copy_destination(destination), seed.0, seed.1, seed.2, seed.3, seed.4);
        let ghost before = bootstrap_views(out);
        out = out.with_field_bootstrap_summary(summary);
        assert(bootstrap_views(out) =~= before.push(summary@));
        assert(summaries@.take(i + 1).map_values(|seed: FieldBootstrapSeed| seed_view(destination@, seed))
            =~= summaries@.take(i as int).map_values(|seed: FieldBootstrapSeed| seed_view(destination@, seed)).push(seed_view(destination@, seed)));
        i = i + 1;
    }
    assert(summaries@.take(i as int) =~= summaries@);
    out
}

/// The host, seeded for `destination` only when the comparison runs Field alone.
pub fn seed_standalone_field_bootstrap(
    host: HostSpec,
    comparison_engine_set: Option<ComparisonEngineSet>,
    destination: &DestinationId,
    summaries: &Vec<FieldBootstrapSeed>,
) -> (r: HostSpec)
    ensures
        r.local_node_id == host.local_node_id,
        r.lane == host.lane,
        r.overrides == (HostOverrides { field_bootstrap_summaries: r.overrides.field_bootstrap_summaries, ..host.overrides }),
        bootstrap_views(r) == if comparison_engine_set == Some(ComparisonEngineSet::Field) {
            bootstrap_views(host) + summaries@.map_values(|seed: FieldBootstrapSeed| seed_view(destination@, seed))
        } else {
            bootstrap_views(host)
        },
{
    match comparison_engine_set {
        Some(ComparisonEngineSet::Field) => with_field_bootstrap_summaries(host, destination, summaries),
        _ => host,
    }
}

/// A scheduled change to the environment.
#[derive(Clone, Debug)]
pub enum EnvironmentHook {
    ReplaceTopology { configuration: Configuration },
    MobilityRelink { left: NodeId, from_right: NodeId, to_right: NodeId, link: Link },
    IntrinsicLimit { node_id: NodeId, connection_count_max: u32, hold_capacity_bytes_max: u64 },
    MediumDegradation { left: NodeId, right: NodeId, confidence: u16, loss: u16 },
    AsymmetricDegradation {
        left: NodeId,
        right: NodeId,
        forward_confidence: u16,
        forward_loss: u16,
        reverse_confidence: u16,
        reverse_loss: u16,
    },
    CascadePartition { cuts: Vec<(NodeId, NodeId)> },
    Partition { left: NodeId, right: NodeId },
}

/// A hook and the tick it fires at.
#[derive(Clone, Debug)]
pub struct ScheduledEnvironmentHook {
    pub at_tick: u64,
    pub hook: EnvironmentHook,
}

/// The scripted environment of a run: its hooks in schedule order.
#[derive(Clone, Debug)]
pub struct ScriptedEnvironmentModel {
    pub hooks: Vec<ScheduledEnvironmentHook>,
}

/// Degrades the link from `left` to `right` and its reverse differently.
pub fn asymmetric_degradation_hook(
    round_index: u64,
    left: NodeId,
    right: NodeId,
    forward_confidence: u16,
    forward_loss: u16,
    reverse_confidence: u16,
    reverse_loss: u16,
) -> (r: ScheduledEnvironmentHook)
    ensures
        r.at_tick == round_index,
        r.hook matches EnvironmentHook::AsymmetricDegradation { left: l, right: rr, forward_confidence: fc, forward_loss: fl, reverse_confidence: rc, reverse_loss: rl }
            && l == left && rr == right && fc == forward_confidence && fl == forward_loss && rc == reverse_confidence && rl == reverse_loss,
{
    ScheduledEnvironmentHook {
        at_tick: round_index,
        hook: EnvironmentHook::AsymmetricDegradation {
            left,
            right,
            forward_confidence,
            forward_loss,
            reverse_confidence,
            reverse_loss,
        },
    }
}

/// Caps the connections and held bytes of `node_id`.
pub fn intrinsic_limit_hook(round_index: u64, node_id: NodeId, connection_count_max: u32, hold_capacity_bytes_max: u64) -> (r: ScheduledEnvironmentHook)
    ensures
        r.at_tick == round_index,
        r.hook matches EnvironmentHook::IntrinsicLimit { node_id: n, connection_count_max: c, hold_capacity_bytes_max: h }
            && n == node_id && c == connection_count_max && h == hold_capacity_bytes_max,
{
    ScheduledEnvironmentHook {
        at_tick: round_index,
        hook: EnvironmentHook::IntrinsicLimit { node_id, connection_count_max, hold_capacity_bytes_max },
    }
}

/// Degrades the medium between `left` and `right` in both directions.
pub fn medium_degradation_hook(round_index: u64, left: NodeId, right: NodeId, confidence: u16, loss: u16) -> (r: ScheduledEnvironmentHook)
    ensures
        r.at_tick == round_index,
        r.hook matches EnvironmentHook::MediumDegradation { left: l, right: rr, confidence: c, loss: lo }
            && l == left && rr == right && c == confidence && lo == loss,
{
    ScheduledEnvironmentHook { at_tick: round_index, hook: EnvironmentHook::MediumDegradation { left, right, confidence, loss } }
}

/// The operating mode that a scenario asks of its hosts.
#[derive(Clone, Copy, Debug, PartialEq, Eq, Structural)]
pub enum OperatingMode {
    DenseInteractive,
    FieldPartitionTolerant,
}

/// A scenario: its name and seed, its operating mode, the initial
/// configuration, the hosts, the objectives bound to owners, the round limit,
/// and the broker nodes whose participation the summaries measure.
#[derive(Clone, Debug)]
pub struct JacquardScenario {
    pub name: String,
    pub seed: u64,
    pub operating_mode: OperatingMode,
    pub initial_configuration: Configuration,
    pub hosts: Vec<HostSpec>,
    pub bound_objectives: Vec<BoundObjective>,
    pub round_limit: u32,
    pub broker_nodes: Vec<NodeId>,
}

impl JacquardScenario {
    /// A scenario without broker nodes.
    pub fn new(
        name: String,
        seed: u64,
        operating_mode: OperatingMode,
        initial_configuration: Configuration,
        hosts: Vec<HostSpec>,
        bound_objectives: Vec<BoundObjective>,
        round_limit: u32,
    ) -> (r: Self)
        ensures
            r.name@ == name@,
            r.seed == seed,
            r.operating_mode == operating_mode,
            r.initial_configuration == initial_configuration,
            r.hosts@ == hosts@,
            r.bound_objectives@ == bound_objectives@,
            r.round_limit == round_limit,
            r.broker_nodes@.len() == 0,
    {
        JacquardScenario { name, seed, operating_mode, initial_configuration, hosts, bound_objectives, round_limit, broker_nodes: Vec::new() }
    }

    /// The same scenario measuring participation of `broker_nodes`.
    pub fn with_broker_nodes(self, broker_nodes: Vec<NodeId>) -> (r: Self)
        ensures
            r == (JacquardScenario { broker_nodes, ..self }),
    {
        let mut scenario = self;
        scenario.broker_nodes = broker_nodes;
        scenario
    }
}

/// The host sets none of the engine knobs that a parameter set can override.
pub open spec fn no_engine_overrides(h: HostSpec) -> bool {
    &&& h.overrides.batman_bellman_decay_window is None
    &&& h.overrides.batman_classic_decay_window is None
    &&& h.overrides.babel_decay_window is None
    &&& h.overrides.olsrv2_decay_window is None
    &&& h.overrides.pathway_search_config is None
    &&& h.overrides.field_search_config is None
}

/// No host sets an engine knob.
pub open spec fn knob_free(hosts: Seq<HostSpec>) -> bool {
    forall|k: int| 0 <= k < hosts.len() ==> no_engine_overrides(#[trigger] hosts[k])
}

/// The engine knobs are exactly those that the parameter set `p` sets: its
/// decay windows and search configurations where it gives them, none otherwise.
pub open spec fn sweep_knobs(o: HostOverrides, p: ParameterSetView) -> bool {
    &&& o.batman_bellman_decay_window == decay_window_of(p.batman_bellman_stale_after_ticks, p.batman_bellman_next_refresh_within_ticks)
    &&& o.batman_classic_decay_window == decay_window_of(p.batman_classic_stale_after_ticks, p.batman_classic_next_refresh_within_ticks)
    &&& o.babel_decay_window == decay_window_of(p.babel_stale_after_ticks, p.babel_next_refresh_within_ticks)
    &&& o.olsrv2_decay_window == decay_window_of(p.olsrv2_stale_after_ticks, p.olsrv2_next_refresh_within_ticks)
    &&& o.pathway_search_config == pathway_search_config_of(p)
    &&& o.field_search_config == field_search_config_of(p)
}

/// Every host carries the engine knobs of the sweep point `p`, and no others.
pub open spec fn swept_hosts(hosts: Seq<HostSpec>, p: ParameterSetView) -> bool {
    forall|k: int| 0 <= k < hosts.len() ==> sweep_knobs(#[trigger] hosts[k].overrides, p)
}

/// `o` with the knobs that the parameter set `p` overrides.
pub open spec fn overridden(o: HostOverrides, p: ParameterSetView) -> HostOverrides {
    HostOverrides {
        batman_bellman_decay_window: match decay_window_of(p.batman_bellman_stale_after_ticks, p.batman_bellman_next_refresh_within_ticks) {
            Some(w) => Some(w),
            None => o.batman_bellman_decay_window,
        },
        batman_classic_decay_window: match decay_window_of(p.batman_classic_stale_after_ticks, p.batman_classic_next_refresh_within_ticks) {
            Some(w) => Some(w),
            None => o.batman_classic_decay_window,
        },
        babel_decay_window: match decay_window_of(p.babel_stale_after_ticks, p.babel_next_refresh_within_ticks) {
            Some(w) => Some(w),
            None => o.babel_decay_window,
        },
        olsrv2_decay_window: match decay_window_of(p.olsrv2_stale_after_ticks, p.olsrv2_next_refresh_within_ticks) {
            Some(w) => Some(w),
            None => o.olsrv2_decay_window,
        },
        pathway_search_config: match pathway_search_config_of(p) {
            Some(c) => Some(c),
            None => o.pathway_search_config,
        },
        field_search_config: match field_search_config_of(p) {
            Some(c) => Some(c),
            None => o.field_search_config,
        },
        ..o
    }
}

/// The host with the knobs of the parameter set applied.
pub fn override_host(host: HostSpec, parameters: &ExperimentParameterSet) -> (r: HostSpec)
    ensures
        r.local_node_id == host.local_node_id,
        r.lane == host.lane,
        r.overrides == overridden(host.overrides, parameters@),
{
    let mut h = host;
    match parameters.batman_bellman_decay_window() {
        Some(w) => { h.overrides.batman_bellman_decay_window = Some(w); },
        None => {},
    }
    match parameters.batman_classic_decay_window() {
        Some(w) => { h.overrides.batman_classic_decay_window = Some(w); },
        None => {},
    }
    match parameters.babel_decay_window() {
        Some(w) => { h.overrides.babel_decay_window = Some(w); },
        None => {},
    }
    match parameters.olsrv2_decay_window() {
        Some(w) => { h.overrides.olsrv2_decay_window = Some(w); },
        None => {},
    }
    match parameters.pathway_search_config() {
        Some(c) => { h.overrides.pathway_search_config = Some(c); },
        None => {},
    }
    match parameters.field_search_config() {
        Some(c) => { h.overrides.field_search_config = Some(c); },
        None => {},
    }
    h
}

/// The scenario rebuilt with every host overriding the knobs of the
/// parameter set (broker nodes are not carried over).
pub fn apply_overrides(scenario: JacquardScenario, parameters: &ExperimentParameterSet) -> (r: JacquardScenario)
    ensures
        r.name@ == scenario.name@,
        r.seed == scenario.seed,
        r.operating_mode == scenario.operating_mode,
        r.initial_configuration == scenario.initial_configuration,
        r.bound_objectives@ == scenario.bound_objectives@,
        r.round_limit == scenario.round_limit,
        r.broker_nodes@.len() == 0,
        r.hosts@.len() == scenario.hosts@.len(),
        knob_free(scenario.hosts@) ==> swept_hosts(r.hosts@, parameters@),
        forall|k: int| 0 <= k < r.hosts@.len() ==> {
            &&& (#[trigger] r.hosts@[k]).local_node_id == scenario.hosts@[k].local_node_id
            &&& r.hosts@[k].lane == scenario.hosts@[k].lane
            &&& r.hosts@[k].overrides == overridden(scenario.hosts@[k].overrides, parameters@)
        },
{
    let JacquardScenario { name, seed, operating_mode, initial_configuration, hosts, bound_objectives, round_limit, broker_nodes: _ } = scenario;
    let ghost old_hosts = hosts@;
    let mut pending = hosts;
    let mut out: Vec<HostSpec> = Vec::new();
    while pending.len() > 0
        invariant
            out@.len() <= old_hosts.len(),
            pending@ == old_hosts.skip(out@.len() as int),
            forall|k: int| 0 <= k < out@.len() ==> {
                &&& (#[trigger] out@[k]).local_node_id == old_hosts[k].local_node_id
                &&& out@[k].lane == old_hosts[k].lane
                &&& out@[k].overrides == overridden(old_hosts[k].overrides, parameters@)
            },
        decreases pending@.len(),
    {
        let ghost n: int = out@.len() as int;
        let host = pending.remove(0);
        assert(host == old_hosts[n]);
        assert(pending@ =~= old_hosts.skip(n + 1));
        out.push(override_host(host, parameters));
    }
    assert(out@.len() == old_hosts.len());
    JacquardScenario::new(name, seed, operating_mode, initial_configuration, out, bound_objectives, round_limit)
}

/// Cuts the listed directed links.
pub fn cascade_partition_hook(round_index: u64, cuts: Vec<(NodeId, NodeId)>) -> (r: ScheduledEnvironmentHook)
    ensures
        r.at_tick == round_index,
        r.hook matches EnvironmentHook::CascadePartition { cuts: c } && c@ == cuts@,
{
    ScheduledEnvironmentHook { at_tick: round_index, hook: EnvironmentHook::CascadePartition { cuts } }
}

/// Cuts the link from `left` to `right`.
pub fn partition_hook(round_index: u64, left: NodeId, right: NodeId) -> (r: ScheduledEnvironmentHook)
    ensures
        r.at_tick == round_index,
        r.hook matches EnvironmentHook::Partition { left: l, right: rr } && l == left && rr == right,
{
    ScheduledEnvironmentHook { at_tick: round_index, hook: EnvironmentHook::Partition { left, right } }
}

/// Moves the link of `left` from `from_right` to `to_right`.
pub fn mobility_relink_hook(round_index: u64, left: NodeId, from_right: NodeId, to_right: NodeId, link: Link) -> (r: ScheduledEnvironmentHook)
    ensures
        r.at_tick == round_index,
        r.hook matches EnvironmentHook::MobilityRelink { left: l, from_right: f, to_right: t, link: k }
            && l == left && f == from_right && t == to_right && k == link,
{
    ScheduledEnvironmentHook { at_tick: round_index, hook: EnvironmentHook::MobilityRelink { left, from_right, to_right, link } }
}

/// Replaces the whole configuration.
pub fn replace_topology_hook(round_index: u64, configuration: Configuration) -> (r: ScheduledEnvironmentHook)
    ensures
        r.at_tick == round_index,
        r.hook matches EnvironmentHook::ReplaceTopology { configuration: c } && c == configuration,
{
    ScheduledEnvironmentHook { at_tick: round_index, hook: EnvironmentHook::ReplaceTopology { configuration } }
}


/// A configuration as plain values.
pub struct ConfigurationView {
    pub epoch: u64,
    pub nodes: Seq<TopologyNode>,
    pub links: Seq<DirectedLink>,
    pub environment: MediumEnvironment,
}

pub open spec fn configuration_view(c: Configuration) -> ConfigurationView {
    ConfigurationView { epoch: c.epoch, nodes: c.nodes@, links: c.links@, environment: c.environment }
}

/// A scripted environment change as plain values, nodes by their bytes.
pub enum HookView {
    ReplaceTopology(ConfigurationView),
    MobilityRelink { left: u8, from_right: u8, to_right: u8, link: Link },
    IntrinsicLimit { node: u8, connection_count_max: u32, hold_capacity_bytes_max: u64 },
    MediumDegradation { left: u8, right: u8, confidence: u16, loss: u16 },
    AsymmetricDegradation {
        left: u8,
        right: u8,
        forward_confidence: u16,
        forward_loss: u16,
        reverse_confidence: u16,
        reverse_loss: u16,
    },
    CascadePartition(Seq<(u8, u8)>),
    Partition { left: u8, right: u8 },
}

/// The cut links as pairs of node bytes.
pub open spec fn cut_bytes(cuts: Seq<(NodeId, NodeId)>) -> Seq<(u8, u8)> {
    cuts.map_values(|c: (NodeId, NodeId)| (c.0.0, c.1.0))
}

pub open spec fn hook_view(h: EnvironmentHook) -> HookView {
    match h {
        EnvironmentHook::ReplaceTopology { configuration } => HookView::ReplaceTopology(configuration_view(configuration)),
        EnvironmentHook::MobilityRelink { left, from_right, to_right, link } => HookView::MobilityRelink {
            left: left.0,
            from_right: from_right.0,
            to_right: to_right.0,
            link,
        },
        EnvironmentHook::IntrinsicLimit { node_id, connection_count_max, hold_capacity_bytes_max } => HookView::IntrinsicLimit {
            node: node_id.0,
            connection_count_max,
            hold_capacity_bytes_max,
        },
        EnvironmentHook::MediumDegradation { left, right, confidence, loss } => HookView::MediumDegradation {
            left: left.0,
            right: right.0,
            confidence,
            loss,
        },
        EnvironmentHook::AsymmetricDegradation {
            left,
            right,
            forward_confidence,
            forward_loss,
            reverse_confidence,
            reverse_loss,
        } => HookView::AsymmetricDegradation {
            left: left.0,
            right: right.0,
            forward_confidence,
            forward_loss,
            reverse_confidence,
            reverse_loss,
        },
        EnvironmentHook::CascadePartition { cuts } => HookView::CascadePartition(cut_bytes(cuts@)),
        EnvironmentHook::Partition { left, right } => HookView::Partition { left: left.0, right: right.0 },
    }
}

/// Each scripted hook as its round and its change, in schedule order.
pub open spec fn hook_views(env: ScriptedEnvironmentModel) -> Seq<(u64, HookView)> {
    env.hooks@.map_values(|h: ScheduledEnvironmentHook| (h.at_tick, hook_view(h.hook)))
}

} // verus!
