//! Comparison families with several concurrent flows over a shared corridor:
//! their configurations, hosts, objectives, broker nodes and scripted
//! environments, for a mixed deployment and for each comparison engine set.
use vstd::prelude::*;
use crate::external::EngineLane;
use crate::params::{ComparisonEngineSet, ExperimentParameterSet, ParameterSetView};
use crate::replay::{DestinationId, DestinationView};
use crate::scenario::{OperatingMode, no_engine_overrides, knob_free, swept_hosts, 
    hook_views, HookView,
    apply_overrides, asymmetric_degradation_hook, best_effort_connected_profile, bootstrap_views, bound_objective,
    comparison_host_spec, comparison_lane, comparison_node_engines, comparison_topology_node, connected_objective,
    copy_destination, intrinsic_limit_hook, medium_degradation_hook, plain_overrides, repairable_connected_profile,
    seed_standalone_field_bootstrap, seed_view, BootstrapView, BoundObjective, ConnectivityPosture, FieldBootstrapSeed, HostSpec,
    JacquardScenario, RoutePartitionClass, RouteRepairClass, RoutingObjective, ScheduledEnvironmentHook,
    ScriptedEnvironmentModel, SelectedRoutingParameters,
};
use crate::topology::{
    has_link, insert_link, link_at, links_keyed, node_id, topology_link, topology_node, Configuration,
    DirectedLink, Link, MediumEnvironment, NodeEngines, NodeId, TopologyNode,
};

verus! {

/// A fresh link to `to`, as the topology builders make them.
pub open spec fn plain_link(to: u8) -> Link {
    Link {
        endpoint: NodeId(to),
        loss_permille: 0,
        delivery_confidence_permille: None,
        transfer_rate_bytes_per_sec: None,
        stability_horizon_ms: None,
    }
}

/// One of `edges` joins `x` and `y`, in either direction.
pub open spec fn edge_between(edges: Seq<(u8, u8)>, x: u8, y: u8) -> bool {
    exists|e: int| 0 <= e < edges.len() && (#[trigger] edges[e] == (x, y) || edges[e] == (y, x))
}

/// The links of `links` are exactly the two directions of each edge, each a fresh link.
pub open spec fn links_of_edges(links: Seq<DirectedLink>, edges: Seq<(u8, u8)>) -> bool {
    &&& links_keyed(links)
    &&& forall|x: u8, y: u8| #[trigger] has_link(links, x, y) <==> edge_between(edges, x, y)
    &&& forall|x: u8, y: u8| #[trigger] has_link(links, x, y) ==> link_at(links, x, y) == Some(plain_link(y))
}

/// A configuration of epoch one over `nodes` with a link each way along each
/// of `edges` and a quiet medium reaching `reachable_neighbor_count` neighbors.
pub fn topology_from_byte_nodes_and_edges(nodes: Vec<TopologyNode>, edges: &Vec<(u8, u8)>, reachable_neighbor_count: u32) -> (r: Configuration)
    ensures
        r.epoch == 1,
        r.nodes@ == nodes@,
        r.environment == (MediumEnvironment { reachable_neighbor_count, churn_permille: 0, contention_permille: 0 }),
        links_of_edges(r.links@, edges@),
{
    let mut links: Vec<DirectedLink> = Vec::new();
    let mut i: usize = 0;
    while i < edges.len()
        invariant
            i <= edges@.len(),
            links_of_edges(links@, edges@.take(i as int)),
        decreases edges@.len() - i,
    {
        let (a, b) = edges[i];
        let ghost before = links@;
        insert_link(&mut links, node_id(a), node_id(b), topology_link(b));
        let ghost mid = links@;
        insert_link(&mut links, node_id(b), node_id(a), topology_link(a));
        proof {
            let pre = edges@.take(i as int);
            let post = edges@.take(i + 1);
            assert forall|x: u8, y: u8| #[trigger] has_link(links@, x, y) <==> edge_between(post, x, y) by {
                if edge_between(pre, x, y) {
                    let e = choose|e: int| 0 <= e < pre.len() && (#[trigger] pre[e] == (x, y) || pre[e] == (y, x));
                    assert(post[e] == pre[e]);
                }
                if edge_between(post, x, y) {
                    let e = choose|e: int| 0 <= e < post.len() && (#[trigger] post[e] == (x, y) || post[e] == (y, x));
                    if e < i {
                        assert(pre[e] == post[e]);
                        assert(edge_between(pre, x, y));
                    } else {
                        assert(post[e] == (a, b));
                    }
                }
                assert(post[i as int] == (a, b));
                if (x == b && y == a) || (x == a && y == b) {
                    assert(has_link(links@, x, y));
                    assert(edge_between(post, x, y));
                } else {
                    assert(has_link(links@, x, y) == has_link(mid, x, y));
                    assert(has_link(mid, x, y) == has_link(before, x, y));
                    assert(has_link(before, x, y) == edge_between(pre, x, y));
                }
            }
            assert forall|x: u8, y: u8| #[trigger] has_link(links@, x, y) implies link_at(links@, x, y) == Some(plain_link(y)) by {
                if !(x == b && y == a) && !(x == a && y == b) {
                    assert(has_link(before, x, y));
                }
            }
        }
        assert(edges@.take(i + 1) == edges@.take(i + 1));
        i = i + 1;
    }
    assert(edges@.take(i as int) =~= edges@);
    Configuration {
        epoch: 1,
        nodes,
        links,
        environment: MediumEnvironment { reachable_neighbor_count, churn_permille: 0, contention_permille: 0 },
    }
}

/// Comparison configuration nodes for the given bytes, in order.
pub fn comparison_topology_nodes_for_bytes(bytes: &Vec<u8>, comparison_engine_set: Option<ComparisonEngineSet>) -> (r: Vec<TopologyNode>)
    ensures
        r@.len() == bytes@.len(),
        forall|k: int| 0 <= k < r@.len() ==> (#[trigger] r@[k]).node_id.0 == bytes@[k]
            && r@[k].engines == comparison_node_engines(comparison_engine_set)
            && r@[k].hold_capacity_available_bytes is None
            && r@[k].relay_utilization_permille is None,
{
    let mut out: Vec<TopologyNode> = Vec::new();
    let mut i: usize = 0;
    while i < bytes.len()
        invariant
            i <= bytes@.len(),
            out@.len() == i,
            forall|k: int| 0 <= k < i ==> (#[trigger] out@[k]).node_id.0 == bytes@[k]
                && out@[k].engines == comparison_node_engines(comparison_engine_set)
                && out@[k].hold_capacity_available_bytes is None
                && out@[k].relay_utilization_permille is None,
        decreases bytes@.len() - i,
    {
        out.push(comparison_topology_node(bytes[i], comparison_engine_set));
        i = i + 1;
    }
    out
}

/// Delivery confidence of a link with the given loss: 950 less half the loss.
pub open spec fn confidence_for_loss(loss_permille: u16) -> u16 {
    if 950 >= loss_permille / 2 { (950 - loss_permille / 2) as u16 } else { 0 }
}

/// Sets the medium (no churn) and gives every link `loss_permille` with the
/// matching delivery confidence.
pub fn set_environment(topology: &mut Configuration, reachable_neighbor_count: u32, contention_permille: u16, loss_permille: u16)
    ensures
        final(topology).epoch == old(topology).epoch,
        final(topology).nodes@ == old(topology).nodes@,
        final(topology).environment == (MediumEnvironment { reachable_neighbor_count, churn_permille: 0, contention_permille }),
        final(topology).links@.len() == old(topology).links@.len(),
        links_keyed(old(topology).links@) ==> links_keyed(final(topology).links@),
        forall|k: int| 0 <= k < final(topology).links@.len() ==> #[trigger] final(topology).links@[k] == (DirectedLink {
            link: Link {
                loss_permille,
                delivery_confidence_permille: Some(confidence_for_loss(loss_permille)),
                ..old(topology).links@[k].link
            },
            ..old(topology).links@[k]
        }),
{
    topology.environment = MediumEnvironment { reachable_neighbor_count, churn_permille: 0, contention_permille };
    let confidence = 950u16.saturating_sub(loss_permille / 2);
    let ghost before = topology.links@;
    let mut k: usize = 0;
    while k < topology.links.len()
        invariant
            topology.epoch == old(topology).epoch,
            topology.nodes@ == old(topology).nodes@,
            topology.environment == (MediumEnvironment { reachable_neighbor_count, churn_permille: 0, contention_permille }),
            before == old(topology).links@,
            topology.links@.len() == before.len(),
            k <= before.len(),
            confidence == confidence_for_loss(loss_permille),
            forall|j: int| 0 <= j < k ==> #[trigger] topology.links@[j] == (DirectedLink {
                link: Link { loss_permille, delivery_confidence_permille: Some(confidence), ..before[j].link },
                ..before[j]
            }),
            forall|j: int| k <= j < before.len() ==> #[trigger] topology.links@[j] == before[j],
        decreases before.len() - k,
    {
        let old_entry = topology.links[k];
        let entry = DirectedLink {
            link: Link { loss_permille, delivery_confidence_permille: Some(confidence), ..old_entry.link },
            ..old_entry
        };
        topology.links.set(k, entry);
        k = k + 1;
    }
    proof {
        if links_keyed(before) {
            assert forall|i: int, j: int| 0 <= i < j < topology.links@.len() implies !(#[trigger] topology.links@[i].from
                == #[trigger] topology.links@[j].from && topology.links@[i].to == topology.links@[j].to) by {
                assert(topology.links@[i].from == before[i].from && topology.links@[i].to == before[i].to);
                assert(topology.links@[j].from == before[j].from && topology.links@[j].to == before[j].to);
            }
        }
    }
}

/// The sixteen-byte service id made of `byte` repeated.
pub fn service_id(byte: u8) -> (r: Vec<u8>)
    ensures
        r@ == Seq::new(16, |i: int| byte),
{
    let mut out: Vec<u8> = Vec::new();
    let mut i: usize = 0;
    while i < 16
        invariant
            i <= 16,
            out@ == Seq::new(i as nat, |k: int| byte),
        decreases 16 - i,
    {
        out.push(byte);
        assert(out@ =~= Seq::new((i + 1) as nat, |k: int| byte));
        i = i + 1;
    }
    out
}

/// A repairable, connected-only route to the service `service_id`.
pub fn service_objective(service_id: Vec<u8>) -> (r: RoutingObjective)
    ensures
        r.destination@ == DestinationView::Service(service_id@),
        r.target_connectivity == (ConnectivityPosture {
            repair: RouteRepairClass::Repairable,
            partition: RoutePartitionClass::ConnectedOnly,
        }),
        r.latency_budget_ms == 250,
        r.protection_priority == 10,
        r.connectivity_priority == 20,
{
    RoutingObjective {
        destination: DestinationId::Service(service_id),
        target_connectivity: ConnectivityPosture {
            repair: RouteRepairClass::Repairable,
            partition: RoutePartitionClass::ConnectedOnly,
        },
        latency_budget_ms: 250,
        protection_priority: 10,
        connectivity_priority: 20,
    }
}

/// An owner's flow: its node, its destination, and the seeds of its Field bootstrap.
pub type OwnerBootstrap = (NodeId, DestinationId, Vec<FieldBootstrapSeed>);

/// Position of the first entry of `obs` at or after `j` whose owner is `b`.
pub open spec fn owner_position(obs: Seq<OwnerBootstrap>, b: u8, j: int) -> Option<int>
    decreases obs.len() - j,
{
    if j < 0 || j >= obs.len() {
        None
    } else if obs[j].0.0 == b {
        Some(j)
    } else {
        owner_position(obs, b, j + 1)
    }
}


/// `h` is the multi-flow host on node `b`: an owner selects `profile` and,
/// when the comparison runs Field alone, is seeded toward its destination;
/// other hosts override nothing.
pub open spec fn multi_flow_host(
    h: HostSpec,
    b: u8,
    set: Option<ComparisonEngineSet>,
    obs: Seq<OwnerBootstrap>,
    profile: SelectedRoutingParameters,
) -> bool {
    &&& h.local_node_id.0 == b
    &&& h.lane == comparison_lane(set)
    &&& match owner_position(obs, b, 0) {
        None => plain_overrides(h.overrides),
        Some(j) => {
            &&& h.overrides.routing_profile == Some(profile)
            &&& bootstrap_views(h) == if set == Some(ComparisonEngineSet::Field) {
                obs[j].2@.map_values(|seed: FieldBootstrapSeed| seed_view(obs[j].1@, seed))
            } else {
                Seq::empty()
            }
        },
    }
}

/// One host per byte; the owners among them select `owner_profile` and are
/// seeded for Field when the comparison runs Field alone.
pub fn multi_flow_comparison_hosts_for_bytes(
    bytes: &Vec<u8>,
    comparison_engine_set: Option<ComparisonEngineSet>,
    owner_bootstraps: &Vec<OwnerBootstrap>,
    owner_profile: SelectedRoutingParameters,
) -> (r: Vec<HostSpec>)
    ensures
        knob_free(r@),
        r@.len() == bytes@.len(),
        forall|k: int| 0 <= k < r@.len() ==> multi_flow_host(#[trigger] r@[k], bytes@[k], comparison_engine_set, owner_bootstraps@, owner_profile)
            && no_engine_overrides(r@[k]),
{
    let ghost obs = owner_bootstraps@;
    let mut out: Vec<HostSpec> = Vec::new();
    let mut i: usize = 0;
    while i < bytes.len()
        invariant
            obs == owner_bootstraps@,
            i <= bytes@.len(),
            out@.len() == i,
            forall|k: int| 0 <= k < i ==> multi_flow_host(#[trigger] out@[k], bytes@[k], comparison_engine_set, obs, owner_profile)
                && no_engine_overrides(out@[k]),
        decreases bytes@.len() - i,
    {
        let byte = bytes[i];
        let local = node_id(byte);
        let mut j: usize = 0;
        while j < owner_bootstraps.len() && owner_bootstraps[j].0.0 != byte
            invariant
                obs == owner_bootstraps@,
                j <= obs.len(),
                owner_position(obs, byte, 0) == owner_position(obs, byte, j as int),
            decreases obs.len() - j,
        {
            j = j + 1;
        }
        let host = comparison_host_spec(local, comparison_engine_set);
        let ghost before = out@;
        if j < owner_bootstraps.len() {
            let entry = &owner_bootstraps[j];
            let profiled = host.with_profile(owner_profile);
            assert(bootstrap_views(profiled) =~= Seq::<crate::scenario::BootstrapView>::empty());
            let seeded = seed_standalone_field_bootstrap(profiled, comparison_engine_set, &entry.1, &entry.2);
            proof {
                assert(owner_position(obs, byte, j as int) == Some(j as int));
                assert(obs[j as int] == *entry);
                if comparison_engine_set == Some(ComparisonEngineSet::Field) {
                    assert(bootstrap_views(seeded) =~= entry.2@.map_values(|seed: FieldBootstrapSeed| seed_view(entry.1@, seed)));
                }
                assert(multi_flow_host(seeded, byte, comparison_engine_set, obs, owner_profile));
            }
            out.push(seeded);
        } else {
            proof {
                assert(owner_position(obs, byte, j as int) == None::<int>);
                assert(multi_flow_host(host, byte, comparison_engine_set, obs, owner_profile));
            }
            out.push(host);
        }
        assert forall|k: int| 0 <= k < i + 1 implies multi_flow_host(#[trigger] out@[k], bytes@[k], comparison_engine_set, obs, owner_profile)
            && no_engine_overrides(out@[k]) by {
            if k < i {
                assert(out@[k] == before[k]);
            }
        }
        i = i + 1;
    }
    out
}

/// The objectives as (owner, destination, activation round).
pub open spec fn objective_list(objectives: Seq<BoundObjective>) -> Seq<(u8, DestinationView, u32)> {
    objectives.map_values(|o: BoundObjective| (o.owner_node_id.0, o.objective.destination@, o.activate_at_round))
}

/// The node bytes of a list of nodes.
pub open spec fn node_bytes(nodes: Seq<NodeId>) -> Seq<u8> {
    nodes.map_values(|n: NodeId| n.0)
}

/// The ticks of the scripted hooks, in order.
pub open spec fn hook_ticks(env: ScriptedEnvironmentModel) -> Seq<u64> {
    env.hooks@.map_values(|h: ScheduledEnvironmentHook| h.at_tick)
}

/// Every objective's owner has a host that selects a routing profile.
pub open spec fn owners_profiled(s: JacquardScenario) -> bool {
    forall|i: int| #![trigger s.bound_objectives@[i]] 0 <= i < s.bound_objectives@.len() ==> exists|k: int|
        #![trigger s.hosts@[k]]
        0 <= k < s.hosts@.len() && s.hosts@[k].local_node_id == s.bound_objectives@[i].owner_node_id
            && s.hosts@[k].overrides.routing_profile is Some
}

/// Every objective's owner has a host seeded with Field bootstrap evidence
/// toward the objective's destination.
pub open spec fn owners_seeded(s: JacquardScenario) -> bool {
    forall|i: int| #![trigger s.bound_objectives@[i]] 0 <= i < s.bound_objectives@.len() ==> exists|k: int, m: int|
        #![trigger bootstrap_views(s.hosts@[k])[m]]
        0 <= k < s.hosts@.len() && s.hosts@[k].local_node_id == s.bound_objectives@[i].owner_node_id
            && 0 <= m < bootstrap_views(s.hosts@[k]).len()
            && bootstrap_views(s.hosts@[k])[m].destination == s.bound_objectives@[i].objective.destination@
}

/// The parts of a route-visible scenario before the parameter set is applied.
pub struct RouteVisibleScenarioTemplate {
    pub scenario_name: String,
    pub seed: u64,
    pub operating_mode: OperatingMode,
    pub topology: Configuration,
    pub hosts: Vec<HostSpec>,
    pub objectives: Vec<BoundObjective>,
    pub round_limit: u32,
}

impl RouteVisibleScenarioTemplate {
    /// The scenario, with the parameter set applied to every host.
    pub fn into_scenario(self, parameters: &ExperimentParameterSet) -> (r: JacquardScenario)
        ensures
            r.name@ == self.scenario_name@,
            r.seed == self.seed,
            r.operating_mode == self.operating_mode,
            r.initial_configuration == self.topology,
            r.bound_objectives@ == self.objectives@,
            r.round_limit == self.round_limit,
            r.broker_nodes@.len() == 0,
            r.hosts@.len() == self.hosts@.len(),
            knob_free(self.hosts@) ==> swept_hosts(r.hosts@, parameters@),
            forall|k: int| 0 <= k < r.hosts@.len() ==> {
                &&& (#[trigger] r.hosts@[k]).local_node_id == self.hosts@[k].local_node_id
                &&& r.hosts@[k].lane == self.hosts@[k].lane
                &&& r.hosts@[k].overrides == crate::scenario::overridden(self.hosts@[k].overrides, parameters@)
            },
    {
        apply_overrides(
            JacquardScenario::new(self.scenario_name, self.seed, self.operating_mode, self.topology, self.hosts, self.objectives, self.round_limit),
            parameters,
        )
    }
}

/// The objective's owner is among `bytes` and owns a flow of `obs` toward the
/// objective's destination, with some bootstrap seed.
pub open spec fn owner_covered(bytes: Seq<u8>, obs: Seq<OwnerBootstrap>, o: BoundObjective) -> bool {
    &&& exists|k: int| 0 <= k < bytes.len() && bytes[k] == o.owner_node_id.0
    &&& match owner_position(obs, o.owner_node_id.0, 0) {
        Some(j) => 0 <= j < obs.len() && obs[j].1@ == o.objective.destination@ && obs[j].2@.len() > 0,
        None => false,
    }
}

proof fn lemma_owner_position_in_range(obs: Seq<OwnerBootstrap>, b: u8, j: int)
    ensures
        owner_position(obs, b, j) matches Some(p) ==> 0 <= p < obs.len() && obs[p].0.0 == b,
    decreases obs.len() - j,
{
    if 0 <= j < obs.len() && obs[j].0.0 != b {
        lemma_owner_position_in_range(obs, b, j + 1);
    }
}

/// In a scenario whose hosts are the multi-flow hosts of `bytes` (with the
/// parameter set applied), owners that own a seeded flow select a profile
/// and, under a Field-only comparison, are seeded toward their destinations.
proof fn lemma_multi_flow_owners(
    s: JacquardScenario,
    pre: Seq<HostSpec>,
    bytes: Seq<u8>,
    set: Option<ComparisonEngineSet>,
    obs: Seq<OwnerBootstrap>,
    profile: SelectedRoutingParameters,
    p: crate::params::ParameterSetView,
)
    requires
        s.hosts@.len() == pre.len(),
        pre.len() == bytes.len(),
        forall|k: int| 0 <= k < pre.len() ==> multi_flow_host(#[trigger] pre[k], bytes[k], set, obs, profile),
        forall|k: int| 0 <= k < pre.len() ==> (#[trigger] s.hosts@[k]).local_node_id == pre[k].local_node_id
            && s.hosts@[k].overrides == crate::scenario::overridden(pre[k].overrides, p),
        forall|i: int| 0 <= i < s.bound_objectives@.len() ==> owner_covered(bytes, obs, #[trigger] s.bound_objectives@[i]),
    ensures
        owners_profiled(s),
        set == Some(ComparisonEngineSet::Field) ==> owners_seeded(s),
{
    assert forall|i: int| #![trigger s.bound_objectives@[i]] 0 <= i < s.bound_objectives@.len() implies exists|k: int|
        #![trigger s.hosts@[k]]
        0 <= k < s.hosts@.len() && s.hosts@[k].local_node_id == s.bound_objectives@[i].owner_node_id
            && s.hosts@[k].overrides.routing_profile is Some by {
        let o = s.bound_objectives@[i];
        assert(owner_covered(bytes, obs, o));
        let k = choose|k: int| 0 <= k < bytes.len() && bytes[k] == o.owner_node_id.0;
        assert(multi_flow_host(pre[k], bytes[k], set, obs, profile));
        assert(s.hosts@[k].local_node_id == pre[k].local_node_id);
    }
    if set == Some(ComparisonEngineSet::Field) {
        assert forall|i: int| #![trigger s.bound_objectives@[i]] 0 <= i < s.bound_objectives@.len() implies exists|k: int, m: int|
            #![trigger bootstrap_views(s.hosts@[k])[m]]
            0 <= k < s.hosts@.len() && s.hosts@[k].local_node_id == s.bound_objectives@[i].owner_node_id
                && 0 <= m < bootstrap_views(s.hosts@[k]).len()
                && bootstrap_views(s.hosts@[k])[m].destination == s.bound_objectives@[i].objective.destination@ by {
            let o = s.bound_objectives@[i];
            assert(owner_covered(bytes, obs, o));
            let k = choose|k: int| 0 <= k < bytes.len() && bytes[k] == o.owner_node_id.0;
            assert(multi_flow_host(pre[k], bytes[k], set, obs, profile));
            let j = owner_position(obs, o.owner_node_id.0, 0)->0;
            assert(bootstrap_views(s.hosts@[k]) == bootstrap_views(pre[k]));
            assert(bootstrap_views(s.hosts@[k])[0].destination == obs[j].1@);
        }
    }
}

/// An owner's flow as plain values: its node, its destination, and its seeds.
pub type OwnerSeeds = (u8, DestinationView, Seq<FieldBootstrapSeed>);

/// The owner list as plain values.
pub open spec fn owner_plan(obs: Seq<OwnerBootstrap>) -> Seq<OwnerSeeds> {
    obs.map_values(|o: OwnerBootstrap| (o.0.0, o.1@, o.2@))
}

/// Position of the first entry of `plan` at or after `j` whose owner is `b`.
pub open spec fn plan_position(plan: Seq<OwnerSeeds>, b: u8, j: int) -> Option<int>
    decreases plan.len() - j,
{
    if j < 0 || j >= plan.len() {
        None
    } else if plan[j].0 == b {
        Some(j)
    } else {
        plan_position(plan, b, j + 1)
    }
}

/// The bootstrap views that the owner plan puts on the host of each byte:
/// an owner's seeds toward its destination when the comparison runs Field
/// alone, nothing otherwise.
pub open spec fn planned_seeds(bytes: Seq<u8>, set: Option<ComparisonEngineSet>, plan: Seq<OwnerSeeds>) -> Seq<Seq<BootstrapView>> {
    bytes.map_values(|b: u8| match plan_position(plan, b, 0) {
        Some(j) => if set == Some(ComparisonEngineSet::Field) {
            plan[j].2.map_values(|seed: FieldBootstrapSeed| seed_view(plan[j].1, seed))
        } else {
            Seq::empty()
        },
        None => Seq::empty(),
    })
}

/// The bootstrap views of each host, in host order.
pub open spec fn host_seeds(hosts: Seq<HostSpec>) -> Seq<Seq<BootstrapView>> {
    hosts.map_values(|h: HostSpec| bootstrap_views(h))
}

proof fn lemma_plan_position(obs: Seq<OwnerBootstrap>, b: u8, j: int)
    ensures
        plan_position(owner_plan(obs), b, j) == owner_position(obs, b, j),
        owner_position(obs, b, j) matches Some(m) ==> 0 <= m < obs.len(),
    decreases obs.len() - j,
{
    if 0 <= j < obs.len() {
        lemma_plan_position(obs, b, j + 1);
    }
}

/// The hosts built from an owner list and carried into a scenario hold
/// exactly the planned seeds, and only the owners select a routing profile.
proof fn lemma_multi_flow_seeds(
    s: JacquardScenario,
    pre: Seq<HostSpec>,
    bytes: Seq<u8>,
    set: Option<ComparisonEngineSet>,
    obs: Seq<OwnerBootstrap>,
    profile: SelectedRoutingParameters,
    p: crate::params::ParameterSetView,
)
    requires
        s.hosts@.len() == pre.len(),
        pre.len() == bytes.len(),
        forall|k: int| 0 <= k < pre.len() ==> multi_flow_host(#[trigger] pre[k], bytes[k], set, obs, profile),
        forall|k: int| 0 <= k < pre.len() ==> (#[trigger] s.hosts@[k]).local_node_id == pre[k].local_node_id
            && s.hosts@[k].overrides == crate::scenario::overridden(pre[k].overrides, p),
    ensures
        host_seeds(s.hosts@) == planned_seeds(bytes, set, owner_plan(obs)),
        forall|k: int| 0 <= k < s.hosts@.len() ==> ((#[trigger] s.hosts@[k]).overrides.routing_profile is Some
            <==> owner_position(obs, bytes[k], 0) is Some),
{
    let plan = owner_plan(obs);
    assert forall|k: int| 0 <= k < s.hosts@.len() implies #[trigger] host_seeds(s.hosts@)[k] == planned_seeds(bytes, set, plan)[k] by {
        assert(multi_flow_host(pre[k], bytes[k], set, obs, profile));
        assert(bootstrap_views(s.hosts@[k]) == bootstrap_views(pre[k]));
        lemma_plan_position(obs, bytes[k], 0);
        match owner_position(obs, bytes[k], 0) {
            Some(j) => {
                assert(plan[j] == (obs[j].0.0, obs[j].1@, obs[j].2@));
            },
            None => {},
        }
    }
    assert(host_seeds(s.hosts@) =~= planned_seeds(bytes, set, plan));
    assert forall|k: int| 0 <= k < s.hosts@.len() implies ((#[trigger] s.hosts@[k]).overrides.routing_profile is Some
        <==> owner_position(obs, bytes[k], 0) is Some) by {
        assert(multi_flow_host(pre[k], bytes[k], set, obs, profile));
    }
}

/// The hosts as (node, lane) pairs.
pub open spec fn host_plan(hosts: Seq<HostSpec>) -> Seq<(u8, crate::external::EngineLane)> {
    hosts.map_values(|h: HostSpec| (h.local_node_id.0, h.lane))
}

/// The Pathway branch that carries the service flow of the mixed families:
/// nodes one to five, the first preferring best-effort connected routes.
pub fn pathway_service_budget_branch_hosts() -> (r: Vec<HostSpec>)
    ensures
        knob_free(r@),
        host_plan(r@) == seq![
            (1u8, EngineLane::Pathway),
            (2u8, EngineLane::Pathway),
            (3u8, EngineLane::Pathway),
            (4u8, EngineLane::Pathway),
            (5u8, EngineLane::Pathway),
        ],
        r@[0].overrides.routing_profile is Some,
{
    let r = vec![
        HostSpec::new(node_id(1), EngineLane::Pathway).with_profile(best_effort_connected_profile()),
        HostSpec::new(node_id(2), EngineLane::Pathway),
        HostSpec::new(node_id(3), EngineLane::Pathway),
        HostSpec::new(node_id(4), EngineLane::Pathway),
        HostSpec::new(node_id(5), EngineLane::Pathway),
    ];
    assert(host_plan(r@) =~= seq![
        (1u8, EngineLane::Pathway),
        (2u8, EngineLane::Pathway),
        (3u8, EngineLane::Pathway),
        (4u8, EngineLane::Pathway),
        (5u8, EngineLane::Pathway),
    ]);
    r
}

/// Puts back the link each way between nodes one and five of the Pathway branch.
pub fn restore_pathway_service_budget_branch(topology: &mut Configuration)
    requires
        links_keyed(old(topology).links@),
    ensures
        final(topology).epoch == old(topology).epoch,
        final(topology).nodes@ == old(topology).nodes@,
        final(topology).environment == old(topology).environment,
        links_keyed(final(topology).links@),
        link_at(final(topology).links@, 1, 5) == Some(plain_link(5)),
        link_at(final(topology).links@, 5, 1) == Some(plain_link(1)),
        forall|x: u8, y: u8|
            !(x == 1 && y == 5) && !(x == 5 && y == 1) ==> has_link(final(topology).links@, x, y) == has_link(old(topology).links@, x, y)
                && link_at(final(topology).links@, x, y) == link_at(old(topology).links@, x, y),
{
    insert_link(&mut topology.links, node_id(1), node_id(5), topology_link(5));
    insert_link(&mut topology.links, node_id(5), node_id(1), topology_link(1));
}

/// Hosts of the given bytes for a comparison run (or, without a set, every engine).
pub fn comparison_hosts_of(bytes: &Vec<u8>, comparison_engine_set: Option<ComparisonEngineSet>) -> (r: Vec<HostSpec>)
    ensures
        knob_free(r@),
        r@.len() == bytes@.len(),
        forall|k: int| 0 <= k < r@.len() ==> (#[trigger] r@[k]).local_node_id.0 == bytes@[k]
            && r@[k].lane == comparison_lane(comparison_engine_set) && plain_overrides(r@[k].overrides),
{
    let mut out: Vec<HostSpec> = Vec::new();
    let mut i: usize = 0;
    while i < bytes.len()
        invariant
            i <= bytes@.len(),
            out@.len() == i,
            forall|k: int| 0 <= k < i ==> (#[trigger] out@[k]).local_node_id.0 == bytes@[k]
                && out@[k].lane == comparison_lane(comparison_engine_set) && plain_overrides(out@[k].overrides),
        decreases bytes@.len() - i,
    {
        out.push(comparison_host_spec(node_id(bytes[i]), comparison_engine_set));
        i = i + 1;
    }
    out
}

/// Nodes with the given engines, one per byte.
pub fn nodes_of(bytes: &Vec<u8>, engines: NodeEngines) -> (r: Vec<TopologyNode>)
    ensures
        r@.len() == bytes@.len(),
        forall|k: int| 0 <= k < r@.len() ==> (#[trigger] r@[k]).node_id.0 == bytes@[k] && r@[k].engines == engines,
{
    let mut out: Vec<TopologyNode> = Vec::new();
    let mut i: usize = 0;
    while i < bytes.len()
        invariant
            i <= bytes@.len(),
            out@.len() == i,
            forall|k: int| 0 <= k < i ==> (#[trigger] out@[k]).node_id.0 == bytes@[k] && out@[k].engines == engines,
        decreases bytes@.len() - i,
    {
        out.push(topology_node(bytes[i], engines));
        i = i + 1;
    }
    out
}

/// The mixed shared-corridor configuration: the Pathway branch one to five
/// (one linked to five) beside the shifted corridor ten to seventeen through
/// thirteen and fourteen, on a medium with some contention.
pub fn mixed_multi_flow_shared_corridor_topology() -> (r: Configuration)
    ensures
        r.epoch == 1,
        r.environment == (MediumEnvironment { reachable_neighbor_count: 3, churn_permille: 0, contention_permille: 110 }),
        links_of_edges(r.links@, seq![(1u8, 5u8), (10, 13), (11, 13), (12, 13), (13, 14), (14, 15), (14, 16), (14, 17)]),
        r.nodes@.len() == 13,
{
    let mut nodes = nodes_of(&vec![1u8, 2, 3, 4, 5], NodeEngines::Pathway);
    let mut shifted = nodes_of(&vec![10u8, 11, 12, 13, 14, 15, 16, 17], NodeEngines::AllEngines);
    nodes.append(&mut shifted);
    let edges: Vec<(u8, u8)> = vec![(1, 5), (10, 13), (11, 13), (12, 13), (13, 14), (14, 15), (14, 16), (14, 17)];
    let mut topology = topology_from_byte_nodes_and_edges(nodes, &edges, 3);
    topology.environment = MediumEnvironment { reachable_neighbor_count: 3, churn_permille: 0, contention_permille: 110 };
    topology
}

/// Hosts of the mixed shared-corridor family.
pub fn mixed_multi_flow_shared_corridor_hosts() -> (r: Vec<HostSpec>)
    ensures
        knob_free(r@),
        host_plan(r@) == seq![
            (1u8, EngineLane::Pathway), (2u8, EngineLane::Pathway), (3u8, EngineLane::Pathway), (4u8, EngineLane::Pathway),
            (5u8, EngineLane::Pathway), (10u8, EngineLane::AllEngines), (11u8, EngineLane::AllEngines),
            (12u8, EngineLane::AllEngines), (13u8, EngineLane::AllEngines), (14u8, EngineLane::AllEngines),
            (15u8, EngineLane::AllEngines), (16u8, EngineLane::AllEngines), (17u8, EngineLane::AllEngines),
        ],
{
    let r = vec![
        HostSpec::new(node_id(1), EngineLane::Pathway).with_profile(best_effort_connected_profile()),
        HostSpec::new(node_id(2), EngineLane::Pathway),
        HostSpec::new(node_id(3), EngineLane::Pathway),
        HostSpec::new(node_id(4), EngineLane::Pathway),
        HostSpec::new(node_id(5), EngineLane::Pathway),
        comparison_host_spec(node_id(10), None).with_profile(repairable_connected_profile()),
        comparison_host_spec(node_id(11), None),
        comparison_host_spec(node_id(12), None),
        comparison_host_spec(node_id(13), None),
        comparison_host_spec(node_id(14), None),
        comparison_host_spec(node_id(15), None),
        comparison_host_spec(node_id(16), None),
        comparison_host_spec(node_id(17), None),
    ];
    assert(host_plan(r@) =~= seq![
        (1u8, EngineLane::Pathway), (2u8, EngineLane::Pathway), (3u8, EngineLane::Pathway), (4u8, EngineLane::Pathway),
        (5u8, EngineLane::Pathway), (10u8, EngineLane::AllEngines), (11u8, EngineLane::AllEngines),
        (12u8, EngineLane::AllEngines), (13u8, EngineLane::AllEngines), (14u8, EngineLane::AllEngines),
        (15u8, EngineLane::AllEngines), (16u8, EngineLane::AllEngines), (17u8, EngineLane::AllEngines),
    ]);
    r
}

/// The service destination made of `byte` repeated.
pub open spec fn service_view(byte: u8) -> DestinationView {
    DestinationView::Service(Seq::new(16, |i: int| byte))
}

/// Objectives of the mixed shared-corridor family.
pub fn mixed_multi_flow_shared_corridor_objectives() -> (r: Vec<BoundObjective>)
    ensures
        objective_list(r@) == seq![
            (1u8, service_view(31), 2u32),
            (10u8, DestinationView::Node(15), 2u32),
            (11u8, DestinationView::Node(16), 2u32),
            (12u8, DestinationView::Node(17), 3u32),
        ],
{
    let r = vec![
        bound_objective(node_id(1), service_objective(service_id(31)), 2),
        bound_objective(node_id(10), connected_objective(node_id(15)), 2),
        bound_objective(node_id(11), connected_objective(node_id(16)), 2),
        bound_objective(node_id(12), connected_objective(node_id(17)), 3),
    ];
    assert(objective_list(r@) =~= seq![
        (1u8, service_view(31), 2u32),
        (10u8, DestinationView::Node(15), 2u32),
        (11u8, DestinationView::Node(16), 2u32),
        (12u8, DestinationView::Node(17), 3u32),
    ]);
    r
}

/// The shared-corridor configuration: three sources one to three feed node
/// four, which reaches five, which fans out to six, seven and eight.
pub fn multi_flow_shared_corridor_topology(comparison_engine_set: Option<ComparisonEngineSet>) -> (r: Configuration)
    ensures
        r.epoch == 1,
        r.environment == (MediumEnvironment { reachable_neighbor_count: 3, churn_permille: 0, contention_permille: 0 }),
        links_of_edges(r.links@, seq![(1u8, 4u8), (2, 4), (3, 4), (4, 5), (5, 6), (5, 7), (5, 8)]),
        r.nodes@.len() == 8,
        forall|k: int| 0 <= k < 8 ==> (#[trigger] r.nodes@[k]).node_id.0 == k + 1
            && r.nodes@[k].engines == comparison_node_engines(comparison_engine_set),
{
    let edges: Vec<(u8, u8)> = vec![(1, 4), (2, 4), (3, 4), (4, 5), (5, 6), (5, 7), (5, 8)];
    let bytes: Vec<u8> = vec![1, 2, 3, 4, 5, 6, 7, 8];
    let r = topology_from_byte_nodes_and_edges(comparison_topology_nodes_for_bytes(&bytes, comparison_engine_set), &edges, 3);
    assert(edges@ =~= seq![(1u8, 4u8), (2, 4), (3, 4), (4, 5), (5, 6), (5, 7), (5, 8)]);
    r
}

/// What `build_comparison_multi_flow_shared_corridor` returns for the parameter set `parameters` and `seed`.
pub open spec fn shared_corridor_family(parameters: ParameterSetView, seed: u64, r: (JacquardScenario, ScriptedEnvironmentModel)) -> bool {
    &&& swept_hosts(r.0.hosts@, parameters)
    &&& (r.0.name@ == "comparison-multi-flow-shared-corridor-"@ + parameters.config_id)
    &&& (r.0.seed == seed)
    &&& (r.0.round_limit == 16)
    &&& (r.0.initial_configuration.environment == (MediumEnvironment { reachable_neighbor_count: 3, churn_permille: 0, contention_permille: 180 }))
    &&& (hook_ticks(r.1) == seq![6u64, 10])
    &&& (parameters.comparison_engine_set is None ==> {
                &&& objective_list(r.0.bound_objectives@) == seq![
                    (1u8, service_view(31), 2u32),
                    (10u8, DestinationView::Node(15), 2u32),
                    (11u8, DestinationView::Node(16), 2u32),
                    (12u8, DestinationView::Node(17), 3u32),
                ]
                &&& node_bytes(r.0.broker_nodes@) == seq![13u8, 14, 15]
                &&& r.0.hosts@.len() == 13
                &&& host_plan(r.0.hosts@) == seq![(1u8, EngineLane::Pathway), (2u8, EngineLane::Pathway), (3u8, EngineLane::Pathway), (4u8, EngineLane::Pathway), (5u8, EngineLane::Pathway), (10u8, EngineLane::AllEngines), (11u8, EngineLane::AllEngines), (12u8, EngineLane::AllEngines), (13u8, EngineLane::AllEngines), (14u8, EngineLane::AllEngines), (15u8, EngineLane::AllEngines), (16u8, EngineLane::AllEngines), (17u8, EngineLane::AllEngines)]
                &&& links_follow(r.0.initial_configuration.links@, seq![(1u8, 5u8), (10, 13), (11, 13), (12, 13), (13, 14), (14, 15), (14, 16), (14, 17)], 110)
                &&& hook_views(r.1) == seq![(6u64, HookView::AsymmetricDegradation { left: 13, right: 14, forward_confidence: 520, forward_loss: 320, reverse_confidence: 680, reverse_loss: 180 }), (10u64, HookView::IntrinsicLimit { node: 14, connection_count_max: 2, hold_capacity_bytes_max: 320 })]
            })
    &&& (parameters.comparison_engine_set is Some ==> {
                &&& objective_list(r.0.bound_objectives@) == seq![
                    (1u8, DestinationView::Node(6), 2u32),
                    (2u8, DestinationView::Node(7), 2u32),
                    (3u8, DestinationView::Node(8), 3u32),
                ]
                &&& node_bytes(r.0.broker_nodes@) == seq![4u8, 5, 6]
                &&& r.0.hosts@.len() == 8
                &&& forall|k: int| 0 <= k < 8 ==> (#[trigger] r.0.hosts@[k]).local_node_id.0 == k + 1
                    && r.0.hosts@[k].lane == comparison_lane(parameters.comparison_engine_set)
                &&& owners_profiled(r.0)
                &&& parameters.comparison_engine_set == Some(ComparisonEngineSet::Field) ==> owners_seeded(r.0)
                &&& host_seeds(r.0.hosts@) == planned_seeds(seq![1u8, 2u8, 3u8, 4u8, 5u8, 6u8, 7u8, 8u8], parameters.comparison_engine_set, seq![(1u8, DestinationView::Node(6), seq![(NodeId(4), 900u16, 2u8, 3u8, Some(840u16))]), (2u8, DestinationView::Node(7), seq![(NodeId(4), 880u16, 2u8, 3u8, Some(820u16))]), (3u8, DestinationView::Node(8), seq![(NodeId(4), 900u16, 2u8, 3u8, Some(840u16)), (NodeId(5), 820u16, 1u8, 2u8, Some(760u16))])])
                &&& forall|k: int| 0 <= k < 8 ==> ((#[trigger] r.0.hosts@[k]).overrides.routing_profile is Some <==> k < 3)
                &&& links_follow(r.0.initial_configuration.links@, seq![(1u8, 4u8), (2, 4), (3, 4), (4, 5), (5, 6), (5, 7), (5, 8)], 110)
                &&& hook_views(r.1) == seq![(6u64, HookView::AsymmetricDegradation { left: 4, right: 5, forward_confidence: 520, forward_loss: 320, reverse_confidence: 680, reverse_loss: 180 }), (10u64, HookView::IntrinsicLimit { node: 5, connection_count_max: 2, hold_capacity_bytes_max: 320 })]
            })
}

/// The shared-corridor family: three concurrent flows through one corridor
/// whose middle degrades asymmetrically at round six and loses capacity at
/// round ten. Without a comparison engine set, a shifted mixed deployment
/// runs beside a Pathway service branch.
pub fn build_comparison_multi_flow_shared_corridor(parameters: &ExperimentParameterSet, seed: u64) -> (r: (JacquardScenario, ScriptedEnvironmentModel))
    ensures
        r.0.operating_mode == OperatingMode::DenseInteractive,
        swept_hosts(r.0.hosts@, parameters@),
        shared_corridor_family(parameters@, seed, r),
{
    let name = crate::text::join2("comparison-multi-flow-shared-corridor-", parameters.config_id.as_str());
    let comparison_engine_set = parameters.comparison_engine_set;
    if comparison_engine_set.is_none() {
        let mut topology = mixed_multi_flow_shared_corridor_topology();
        let ghost built = topology.links@;
        set_environment(&mut topology, 3, 180, 110);
        proof {
            lemma_environment_links(built, topology.links@, seq![(1u8, 5u8), (10, 13), (11, 13), (12, 13), (13, 14), (14, 15), (14, 16), (14, 17)], 110);
        }
        let hosts = mixed_multi_flow_shared_corridor_hosts();
        let ghost template_hosts = hosts@;
        assert(hosts@.len() == host_plan(hosts@).len());
        let objectives = mixed_multi_flow_shared_corridor_objectives();
        let template = RouteVisibleScenarioTemplate { operating_mode: OperatingMode::DenseInteractive, scenario_name: name, seed, topology, hosts, objectives, round_limit: 16 };
        let brokers = vec![node_id(13), node_id(14), node_id(15)];
        assert(node_bytes(brokers@) =~= seq![13u8, 14, 15]);
        let scenario = template.into_scenario(parameters).with_broker_nodes(brokers);
        assert(host_plan(scenario.hosts@) =~= host_plan(template_hosts));
        let environment = ScriptedEnvironmentModel {
            hooks: vec![
                asymmetric_degradation_hook(6, node_id(13), node_id(14), 520, 320, 680, 180),
                intrinsic_limit_hook(10, node_id(14), 2, 320),
            ],
        };
        assert(hook_ticks(environment) =~= seq![6u64, 10]);
        assert(hook_views(environment) =~~= seq![(6u64, HookView::AsymmetricDegradation { left: 13, right: 14, forward_confidence: 520, forward_loss: 320, reverse_confidence: 680, reverse_loss: 180 }), (10u64, HookView::IntrinsicLimit { node: 14, connection_count_max: 2, hold_capacity_bytes_max: 320 })]);
        return (scenario, environment);
    }
    let mut topology = multi_flow_shared_corridor_topology(comparison_engine_set);
    let ghost built = topology.links@;
    set_environment(&mut topology, 3, 180, 110);
    proof {
        lemma_environment_links(built, topology.links@, seq![(1u8, 4u8), (2, 4), (3, 4), (4, 5), (5, 6), (5, 7), (5, 8)], 110);
    }
    let bytes: Vec<u8> = vec![1, 2, 3, 4, 5, 6, 7, 8];
    let owners: Vec<OwnerBootstrap> = vec![
        (node_id(1), DestinationId::Node(node_id(6)), vec![(node_id(4), 900, 2, 3, Some(840))]),
        (node_id(2), DestinationId::Node(node_id(7)), vec![(node_id(4), 880, 2, 3, Some(820))]),
        (node_id(3), DestinationId::Node(node_id(8)), vec![(node_id(4), 900, 2, 3, Some(840)), (node_id(5), 820, 1, 2, Some(760))]),
    ];
    let ghost obs = owners@;
    let profile = repairable_connected_profile();
    let hosts = multi_flow_comparison_hosts_for_bytes(&bytes, comparison_engine_set, &owners, profile);
    let ghost pre = hosts@;
    let objectives = vec![
        bound_objective(node_id(1), connected_objective(node_id(6)), 2),
        bound_objective(node_id(2), connected_objective(node_id(7)), 2),
        bound_objective(node_id(3), connected_objective(node_id(8)), 3),
    ];
    let template = RouteVisibleScenarioTemplate { operating_mode: OperatingMode::DenseInteractive, scenario_name: name, seed, topology, hosts, objectives, round_limit: 16 };
    let brokers = vec![node_id(4), node_id(5), node_id(6)];
    assert(node_bytes(brokers@) =~= seq![4u8, 5, 6]);
    let scenario = template.into_scenario(parameters).with_broker_nodes(brokers);
    let environment = ScriptedEnvironmentModel {
        hooks: vec![
            asymmetric_degradation_hook(6, node_id(4), node_id(5), 520, 320, 680, 180),
            intrinsic_limit_hook(10, node_id(5), 2, 320),
        ],
    };
    assert(hook_ticks(environment) =~= seq![6u64, 10]);
    proof {
        let objs = scenario.bound_objectives@;
        assert(objective_list(objs) =~= seq![
            (1u8, DestinationView::Node(6), 2u32),
            (2u8, DestinationView::Node(7), 2u32),
            (3u8, DestinationView::Node(8), 3u32),
        ]);
        assert(owner_position(obs, 1, 0) == Some(0int));
        assert(owner_position(obs, 2, 1) == Some(1int));
        assert(owner_position(obs, 2, 0) == Some(1int));
        assert(owner_position(obs, 3, 2) == Some(2int));
        assert(owner_position(obs, 3, 1) == Some(2int));
        assert(owner_position(obs, 3, 0) == Some(2int));
        assert(bytes@[0] == 1 && bytes@[1] == 2 && bytes@[2] == 3);
        assert forall|i: int| 0 <= i < objs.len() implies owner_covered(bytes@, obs, #[trigger] objs[i]) by {
            assert(bytes@[i] == objs[i].owner_node_id.0);
        }
        lemma_multi_flow_owners(scenario, pre, bytes@, comparison_engine_set, obs, profile, parameters@);
        lemma_multi_flow_seeds(scenario, pre, bytes@, comparison_engine_set, obs, profile, parameters@);
        assert(bytes@ =~= seq![1u8, 2u8, 3u8, 4u8, 5u8, 6u8, 7u8, 8u8]);
        assert(obs[0].0.0 == 1u8 && obs[0].1@ == DestinationView::Node(6));
        assert(obs[0].2@ =~= seq![(NodeId(4), 900u16, 2u8, 3u8, Some(840u16))]);
        assert(obs[1].0.0 == 2u8 && obs[1].1@ == DestinationView::Node(7));
        assert(obs[1].2@ =~= seq![(NodeId(4), 880u16, 2u8, 3u8, Some(820u16))]);
        assert(obs[2].0.0 == 3u8 && obs[2].1@ == DestinationView::Node(8));
        assert(obs[2].2@ =~= seq![(NodeId(4), 900u16, 2u8, 3u8, Some(840u16)), (NodeId(5), 820u16, 1u8, 2u8, Some(760u16))]);
        assert(owner_plan(obs) =~= seq![(1u8, DestinationView::Node(6), seq![(NodeId(4), 900u16, 2u8, 3u8, Some(840u16))]), (2u8, DestinationView::Node(7), seq![(NodeId(4), 880u16, 2u8, 3u8, Some(820u16))]), (3u8, DestinationView::Node(8), seq![(NodeId(4), 900u16, 2u8, 3u8, Some(840u16)), (NodeId(5), 820u16, 1u8, 2u8, Some(760u16))])]);
        reveal_with_fuel(owner_position, 5);
        assert forall|k: int| 0 <= k < 8 implies ((#[trigger] scenario.hosts@[k]).overrides.routing_profile is Some <==> k < 3) by {
            assert(bytes@[k] == k + 1);
        }
        assert forall|k: int| 0 <= k < 8 implies (#[trigger] scenario.hosts@[k]).local_node_id.0 == k + 1
            && scenario.hosts@[k].lane == comparison_lane(comparison_engine_set) by {
            assert(multi_flow_host(pre[k], bytes@[k], comparison_engine_set, obs, profile));
        }
    }
    assert(hook_views(environment) =~~= seq![(6u64, HookView::AsymmetricDegradation { left: 4, right: 5, forward_confidence: 520, forward_loss: 320, reverse_confidence: 680, reverse_loss: 180 }), (10u64, HookView::IntrinsicLimit { node: 5, connection_count_max: 2, hold_capacity_bytes_max: 320 })]);
    (scenario, environment)
}

/// The mixed asymmetric-demand configuration: the shifted corridor ten to eighteen, with the long branch through fifteen to eighteen, beside the Pathway branch one to five.
pub fn mixed_multi_flow_asymmetric_demand_topology() -> (r: Configuration)
    ensures
        r.epoch == 1,
        r.environment == (MediumEnvironment { reachable_neighbor_count: 3, churn_permille: 0, contention_permille: 0 }),
        links_of_edges(r.links@, seq![(10u8, 13u8), (11, 13), (12, 13), (13, 14), (14, 15), (15, 18), (14, 16), (14, 17), (1, 5)]),
        r.nodes@.len() == 14,
{
    let mut nodes = comparison_topology_nodes_for_bytes(&vec![10u8, 11, 12, 13, 14, 15, 16, 17, 18], None);
    let mut branch = nodes_of(&vec![1u8, 2, 3, 4, 5], NodeEngines::Pathway);
    nodes.append(&mut branch);
    let edges: Vec<(u8, u8)> = vec![(10, 13), (11, 13), (12, 13), (13, 14), (14, 15), (15, 18), (14, 16), (14, 17), (1, 5)];
    let r = topology_from_byte_nodes_and_edges(nodes, &edges, 3);
    assert(edges@ =~= seq![(10u8, 13u8), (11, 13), (12, 13), (13, 14), (14, 15), (15, 18), (14, 16), (14, 17), (1, 5)]);
    r
}

/// Hosts of the mixed asymmetric-demand family: the Pathway branch, then every engine on ten to eighteen.
pub fn mixed_multi_flow_asymmetric_demand_hosts() -> (r: Vec<HostSpec>)
    ensures
        knob_free(r@),
        r@.len() == 14,
        host_plan(r@) == seq![(1u8, EngineLane::Pathway), (2u8, EngineLane::Pathway), (3u8, EngineLane::Pathway), (4u8, EngineLane::Pathway), (5u8, EngineLane::Pathway), (10u8, EngineLane::AllEngines), (11u8, EngineLane::AllEngines), (12u8, EngineLane::AllEngines), (13u8, EngineLane::AllEngines), (14u8, EngineLane::AllEngines), (15u8, EngineLane::AllEngines), (16u8, EngineLane::AllEngines), (17u8, EngineLane::AllEngines), (18u8, EngineLane::AllEngines)],
{
    let mut hosts = pathway_service_budget_branch_hosts();
    let mut shifted = comparison_hosts_of(&vec![10u8, 11, 12, 13, 14, 15, 16, 17, 18], None);
    let ghost branch = hosts@;
    let ghost rest = shifted@;
    hosts.append(&mut shifted);
    assert(host_plan(branch).len() == 5);
    assert(host_plan(hosts@) =~= seq![(1u8, EngineLane::Pathway), (2u8, EngineLane::Pathway), (3u8, EngineLane::Pathway), (4u8, EngineLane::Pathway), (5u8, EngineLane::Pathway), (10u8, EngineLane::AllEngines), (11u8, EngineLane::AllEngines), (12u8, EngineLane::AllEngines), (13u8, EngineLane::AllEngines), (14u8, EngineLane::AllEngines), (15u8, EngineLane::AllEngines), (16u8, EngineLane::AllEngines), (17u8, EngineLane::AllEngines), (18u8, EngineLane::AllEngines)]);
    hosts
}

/// Objectives of the mixed asymmetric-demand family.
pub fn mixed_multi_flow_asymmetric_demand_objectives() -> (r: Vec<BoundObjective>)
    ensures
        objective_list(r@) == seq![(1u8, service_view(33), 3u32), (10u8, DestinationView::Node(18), 2u32), (11u8, DestinationView::Node(17), 2u32), (12u8, DestinationView::Node(16), 4u32)],
{
    let r = vec![bound_objective(node_id(1), service_objective(service_id(33)), 3), bound_objective(node_id(10), connected_objective(node_id(18)), 2), bound_objective(node_id(11), connected_objective(node_id(17)), 2), bound_objective(node_id(12), connected_objective(node_id(16)), 4)];
    assert(objective_list(r@) =~= seq![(1u8, service_view(33), 3u32), (10u8, DestinationView::Node(18), 2u32), (11u8, DestinationView::Node(17), 2u32), (12u8, DestinationView::Node(16), 4u32)]);
    r
}

/// The asymmetric-demand configuration: the shared corridor with one flow stretched through six to nine.
pub fn multi_flow_asymmetric_demand_topology(comparison_engine_set: Option<ComparisonEngineSet>) -> (r: Configuration)
    ensures
        r.epoch == 1,
        r.environment == (MediumEnvironment { reachable_neighbor_count: 3, churn_permille: 0, contention_permille: 0 }),
        links_of_edges(r.links@, seq![(1u8, 4u8), (2, 4), (3, 4), (4, 5), (5, 6), (6, 9), (5, 7), (5, 8)]),
        r.nodes@.len() == 9,
        forall|k: int| 0 <= k < 9 ==> (#[trigger] r.nodes@[k]).node_id.0 == k + 1
            && r.nodes@[k].engines == comparison_node_engines(comparison_engine_set),
{
    let edges: Vec<(u8, u8)> = vec![(1, 4), (2, 4), (3, 4), (4, 5), (5, 6), (6, 9), (5, 7), (5, 8)];
    let bytes: Vec<u8> = vec![1, 2, 3, 4, 5, 6, 7, 8, 9];
    let r = topology_from_byte_nodes_and_edges(comparison_topology_nodes_for_bytes(&bytes, comparison_engine_set), &edges, 3);
    assert(edges@ =~= seq![(1u8, 4u8), (2, 4), (3, 4), (4, 5), (5, 6), (6, 9), (5, 7), (5, 8)]);
    r
}

/// The mixed detour configuration: the shifted corridor ten to nineteen with the detour eleven, eighteen, nineteen, sixteen, beside the Pathway branch one to five.
pub fn mixed_multi_flow_detour_topology() -> (r: Configuration)
    ensures
        r.epoch == 1,
        r.environment == (MediumEnvironment { reachable_neighbor_count: 3, churn_permille: 0, contention_permille: 0 }),
        links_of_edges(r.links@, seq![(10u8, 13u8), (11, 13), (12, 13), (13, 14), (14, 15), (14, 16), (14, 17), (11, 18), (18, 19), (19, 16), (12, 19), (1, 5)]),
        r.nodes@.len() == 15,
{
    let mut nodes = comparison_topology_nodes_for_bytes(&vec![10u8, 11, 12, 13, 14, 15, 16, 17, 18, 19], None);
    let mut branch = nodes_of(&vec![1u8, 2, 3, 4, 5], NodeEngines::Pathway);
    nodes.append(&mut branch);
    let edges: Vec<(u8, u8)> = vec![(10, 13), (11, 13), (12, 13), (13, 14), (14, 15), (14, 16), (14, 17), (11, 18), (18, 19), (19, 16), (12, 19), (1, 5)];
    let r = topology_from_byte_nodes_and_edges(nodes, &edges, 3);
    assert(edges@ =~= seq![(10u8, 13u8), (11, 13), (12, 13), (13, 14), (14, 15), (14, 16), (14, 17), (11, 18), (18, 19), (19, 16), (12, 19), (1, 5)]);
    r
}

/// Hosts of the mixed detour family: the Pathway branch, then every engine on ten to nineteen.
pub fn mixed_multi_flow_detour_hosts() -> (r: Vec<HostSpec>)
    ensures
        knob_free(r@),
        r@.len() == 15,
        host_plan(r@) == seq![(1u8, EngineLane::Pathway), (2u8, EngineLane::Pathway), (3u8, EngineLane::Pathway), (4u8, EngineLane::Pathway), (5u8, EngineLane::Pathway), (10u8, EngineLane::AllEngines), (11u8, EngineLane::AllEngines), (12u8, EngineLane::AllEngines), (13u8, EngineLane::AllEngines), (14u8, EngineLane::AllEngines), (15u8, EngineLane::AllEngines), (16u8, EngineLane::AllEngines), (17u8, EngineLane::AllEngines), (18u8, EngineLane::AllEngines), (19u8, EngineLane::AllEngines)],
{
    let mut hosts = pathway_service_budget_branch_hosts();
    let mut shifted = comparison_hosts_of(&vec![10u8, 11, 12, 13, 14, 15, 16, 17, 18, 19], None);
    let ghost branch = hosts@;
    let ghost rest = shifted@;
    hosts.append(&mut shifted);
    assert(host_plan(branch).len() == 5);
    assert(host_plan(hosts@) =~= seq![(1u8, EngineLane::Pathway), (2u8, EngineLane::Pathway), (3u8, EngineLane::Pathway), (4u8, EngineLane::Pathway), (5u8, EngineLane::Pathway), (10u8, EngineLane::AllEngines), (11u8, EngineLane::AllEngines), (12u8, EngineLane::AllEngines), (13u8, EngineLane::AllEngines), (14u8, EngineLane::AllEngines), (15u8, EngineLane::AllEngines), (16u8, EngineLane::AllEngines), (17u8, EngineLane::AllEngines), (18u8, EngineLane::AllEngines), (19u8, EngineLane::AllEngines)]);
    hosts
}

/// Objectives of the mixed detour family.
pub fn mixed_multi_flow_detour_objectives() -> (r: Vec<BoundObjective>)
    ensures
        objective_list(r@) == seq![(1u8, service_view(34), 3u32), (10u8, DestinationView::Node(15), 2u32), (11u8, DestinationView::Node(16), 2u32), (12u8, DestinationView::Node(17), 2u32)],
{
    let r = vec![bound_objective(node_id(1), service_objective(service_id(34)), 3), bound_objective(node_id(10), connected_objective(node_id(15)), 2), bound_objective(node_id(11), connected_objective(node_id(16)), 2), bound_objective(node_id(12), connected_objective(node_id(17)), 2)];
    assert(objective_list(r@) =~= seq![(1u8, service_view(34), 3u32), (10u8, DestinationView::Node(15), 2u32), (11u8, DestinationView::Node(16), 2u32), (12u8, DestinationView::Node(17), 2u32)]);
    r
}

/// The detour configuration: the shared corridor plus a detour two, nine, ten, seven that three also reaches.
pub fn multi_flow_detour_topology(comparison_engine_set: Option<ComparisonEngineSet>) -> (r: Configuration)
    ensures
        r.epoch == 1,
        r.environment == (MediumEnvironment { reachable_neighbor_count: 3, churn_permille: 0, contention_permille: 0 }),
        links_of_edges(r.links@, seq![(1u8, 4u8), (2, 4), (3, 4), (4, 5), (5, 6), (5, 7), (5, 8), (2, 9), (9, 10), (10, 7), (3, 10)]),
        r.nodes@.len() == 10,
        forall|k: int| 0 <= k < 10 ==> (#[trigger] r.nodes@[k]).node_id.0 == k + 1
            && r.nodes@[k].engines == comparison_node_engines(comparison_engine_set),
{
    let edges: Vec<(u8, u8)> = vec![(1, 4), (2, 4), (3, 4), (4, 5), (5, 6), (5, 7), (5, 8), (2, 9), (9, 10), (10, 7), (3, 10)];
    let bytes: Vec<u8> = vec![1, 2, 3, 4, 5, 6, 7, 8, 9, 10];
    let r = topology_from_byte_nodes_and_edges(comparison_topology_nodes_for_bytes(&bytes, comparison_engine_set), &edges, 3);
    assert(edges@ =~= seq![(1u8, 4u8), (2, 4), (3, 4), (4, 5), (5, 6), (5, 7), (5, 8), (2, 9), (9, 10), (10, 7), (3, 10)]);
    r
}

/// What `build_comparison_multi_flow_asymmetric_demand` returns for the parameter set `parameters` and `seed`.
pub open spec fn asymmetric_demand_family(parameters: ParameterSetView, seed: u64, r: (JacquardScenario, ScriptedEnvironmentModel)) -> bool {
    &&& swept_hosts(r.0.hosts@, parameters)
    &&& (r.0.name@ == "comparison-multi-flow-asymmetric-demand-"@ + parameters.config_id)
    &&& (r.0.seed == seed)
    &&& (r.0.round_limit == 32)
    &&& (r.0.initial_configuration.environment == (MediumEnvironment { reachable_neighbor_count: 3, churn_permille: 0, contention_permille: 200 }))
    &&& (parameters.comparison_engine_set is None ==> {
                &&& objective_list(r.0.bound_objectives@) == seq![(1u8, service_view(33), 3u32), (10u8, DestinationView::Node(18), 2u32), (11u8, DestinationView::Node(17), 2u32), (12u8, DestinationView::Node(16), 4u32)]
                &&& node_bytes(r.0.broker_nodes@) == seq![13u8, 14, 18]
                &&& hook_ticks(r.1) == seq![10u64, 16]
                &&& r.0.hosts@.len() == 14
                &&& host_plan(r.0.hosts@) == seq![(1u8, EngineLane::Pathway), (2u8, EngineLane::Pathway), (3u8, EngineLane::Pathway), (4u8, EngineLane::Pathway), (5u8, EngineLane::Pathway), (10u8, EngineLane::AllEngines), (11u8, EngineLane::AllEngines), (12u8, EngineLane::AllEngines), (13u8, EngineLane::AllEngines), (14u8, EngineLane::AllEngines), (15u8, EngineLane::AllEngines), (16u8, EngineLane::AllEngines), (17u8, EngineLane::AllEngines), (18u8, EngineLane::AllEngines)]
                &&& links_follow_with_branch(r.0.initial_configuration.links@, seq![(10u8, 13u8), (11, 13), (12, 13), (13, 14), (14, 15), (15, 18), (14, 16), (14, 17), (1, 5)], 140)
                &&& hook_views(r.1) == seq![(10u64, HookView::AsymmetricDegradation { left: 14, right: 15, forward_confidence: 520, forward_loss: 320, reverse_confidence: 700, reverse_loss: 180 }), (16u64, HookView::IntrinsicLimit { node: 14, connection_count_max: 2, hold_capacity_bytes_max: 320 })]
            })
    &&& (parameters.comparison_engine_set is Some ==> {
                &&& objective_list(r.0.bound_objectives@) == seq![(1u8, DestinationView::Node(9), 2u32), (2u8, DestinationView::Node(8), 2u32), (3u8, DestinationView::Node(7), 4u32)]
                &&& node_bytes(r.0.broker_nodes@) == seq![4u8, 5, 9, 10]
                &&& hook_ticks(r.1) == seq![10u64, 16]
                &&& r.0.hosts@.len() == 9
                &&& forall|k: int| 0 <= k < 9 ==> (#[trigger] r.0.hosts@[k]).local_node_id.0 == k + 1
                    && r.0.hosts@[k].lane == comparison_lane(parameters.comparison_engine_set)
                &&& owners_profiled(r.0)
                &&& parameters.comparison_engine_set == Some(ComparisonEngineSet::Field) ==> owners_seeded(r.0)
                &&& host_seeds(r.0.hosts@) == planned_seeds(seq![1u8, 2u8, 3u8, 4u8, 5u8, 6u8, 7u8, 8u8, 9u8], parameters.comparison_engine_set, seq![(1u8, DestinationView::Node(9), seq![(NodeId(4), 900u16, 4u8, 4u8, Some(840u16))]), (2u8, DestinationView::Node(8), seq![(NodeId(4), 860u16, 3u8, 3u8, Some(800u16))]), (3u8, DestinationView::Node(7), seq![(NodeId(4), 820u16, 3u8, 3u8, Some(760u16))])])
                &&& forall|k: int| 0 <= k < 9 ==> ((#[trigger] r.0.hosts@[k]).overrides.routing_profile is Some <==> k < 3)
                &&& links_follow(r.0.initial_configuration.links@, seq![(1u8, 4u8), (2, 4), (3, 4), (4, 5), (5, 6), (6, 9), (5, 7), (5, 8)], 140)
                &&& hook_views(r.1) == seq![(10u64, HookView::AsymmetricDegradation { left: 5, right: 6, forward_confidence: 520, forward_loss: 320, reverse_confidence: 700, reverse_loss: 180 }), (16u64, HookView::IntrinsicLimit { node: 5, connection_count_max: 2, hold_capacity_bytes_max: 320 })]
            })
}

/// The asymmetric-demand family: three flows of unequal length over one corridor, degraded asymmetrically at round ten and capacity-limited at round sixteen.
pub fn build_comparison_multi_flow_asymmetric_demand(parameters: &ExperimentParameterSet, seed: u64) -> (r: (JacquardScenario, ScriptedEnvironmentModel))
    ensures
        r.0.operating_mode == OperatingMode::DenseInteractive,
        swept_hosts(r.0.hosts@, parameters@),
        asymmetric_demand_family(parameters@, seed, r),
{
    let name = crate::text::join2("comparison-multi-flow-asymmetric-demand-", parameters.config_id.as_str());
    let comparison_engine_set = parameters.comparison_engine_set;
    if comparison_engine_set.is_none() {
        let mut topology = mixed_multi_flow_asymmetric_demand_topology();
        let ghost built = topology.links@;
        set_environment(&mut topology, 3, 200, 140);
        proof {
            lemma_environment_links(built, topology.links@, seq![(10u8, 13u8), (11, 13), (12, 13), (13, 14), (14, 15), (15, 18), (14, 16), (14, 17), (1, 5)], 140);
        }
        let ghost lossy = topology.links@;
        restore_pathway_service_budget_branch(&mut topology);
        proof {
            assert(seq![(10u8, 13u8), (11, 13), (12, 13), (13, 14), (14, 15), (15, 18), (14, 16), (14, 17), (1, 5)][8] == (1u8, 5u8));
            lemma_restored_branch(lossy, topology.links@, seq![(10u8, 13u8), (11, 13), (12, 13), (13, 14), (14, 15), (15, 18), (14, 16), (14, 17), (1, 5)], 140);
        }
        let hosts = mixed_multi_flow_asymmetric_demand_hosts();
        let ghost template_hosts = hosts@;
        let objectives = mixed_multi_flow_asymmetric_demand_objectives();
        let template = RouteVisibleScenarioTemplate { operating_mode: OperatingMode::DenseInteractive, scenario_name: name, seed, topology, hosts, objectives, round_limit: 32 };
        let brokers = vec![node_id(13), node_id(14), node_id(18)];
        assert(node_bytes(brokers@) =~= seq![13u8, 14, 18]);
        let scenario = template.into_scenario(parameters).with_broker_nodes(brokers);
        assert(host_plan(scenario.hosts@) =~= host_plan(template_hosts));
        let environment = ScriptedEnvironmentModel { hooks: vec![asymmetric_degradation_hook(10, node_id(14), node_id(15), 520, 320, 700, 180), intrinsic_limit_hook(16, node_id(14), 2, 320)] };
        assert(hook_ticks(environment) =~= seq![10u64, 16]);
        assert(hook_views(environment) =~~= seq![(10u64, HookView::AsymmetricDegradation { left: 14, right: 15, forward_confidence: 520, forward_loss: 320, reverse_confidence: 700, reverse_loss: 180 }), (16u64, HookView::IntrinsicLimit { node: 14, connection_count_max: 2, hold_capacity_bytes_max: 320 })]);
        return (scenario, environment);
    }
    let mut topology = multi_flow_asymmetric_demand_topology(comparison_engine_set);
    let ghost built = topology.links@;
    set_environment(&mut topology, 3, 200, 140);
    proof {
        lemma_environment_links(built, topology.links@, seq![(1u8, 4u8), (2, 4), (3, 4), (4, 5), (5, 6), (6, 9), (5, 7), (5, 8)], 140);
    }
    let bytes: Vec<u8> = vec![1, 2, 3, 4, 5, 6, 7, 8, 9];
    let owners: Vec<OwnerBootstrap> = vec![
        (node_id(1), DestinationId::Node(node_id(9)), vec![(node_id(4), 900, 4, 4, Some(840))]),
        (node_id(2), DestinationId::Node(node_id(8)), vec![(node_id(4), 860, 3, 3, Some(800))]),
        (node_id(3), DestinationId::Node(node_id(7)), vec![(node_id(4), 820, 3, 3, Some(760))]),
    ];
    let ghost obs = owners@;
    let profile = repairable_connected_profile();
    let hosts = multi_flow_comparison_hosts_for_bytes(&bytes, comparison_engine_set, &owners, profile);
    let ghost pre = hosts@;
    let objectives = vec![bound_objective(node_id(1), connected_objective(node_id(9)), 2), bound_objective(node_id(2), connected_objective(node_id(8)), 2), bound_objective(node_id(3), connected_objective(node_id(7)), 4)];
    let template = RouteVisibleScenarioTemplate { operating_mode: OperatingMode::DenseInteractive, scenario_name: name, seed, topology, hosts, objectives, round_limit: 32 };
    let brokers = vec![node_id(4), node_id(5), node_id(9), node_id(10)];
    assert(node_bytes(brokers@) =~= seq![4u8, 5, 9, 10]);
    let scenario = template.into_scenario(parameters).with_broker_nodes(brokers);
    let environment = ScriptedEnvironmentModel { hooks: vec![asymmetric_degradation_hook(10, node_id(5), node_id(6), 520, 320, 700, 180), intrinsic_limit_hook(16, node_id(5), 2, 320)] };
    assert(hook_ticks(environment) =~= seq![10u64, 16]);
    proof {
        let objs = scenario.bound_objectives@;
        assert(objective_list(objs) =~= seq![(1u8, DestinationView::Node(9), 2u32), (2u8, DestinationView::Node(8), 2u32), (3u8, DestinationView::Node(7), 4u32)]);
        assert(owner_position(obs, 1, 0) == Some(0int));
        assert(owner_position(obs, 2, 1) == Some(1int));
        assert(owner_position(obs, 2, 0) == Some(1int));
        assert(owner_position(obs, 3, 2) == Some(2int));
        assert(owner_position(obs, 3, 1) == Some(2int));
        assert(owner_position(obs, 3, 0) == Some(2int));
        assert(bytes@[0] == 1 && bytes@[1] == 2 && bytes@[2] == 3);
        assert forall|i: int| 0 <= i < objs.len() implies owner_covered(bytes@, obs, #[trigger] objs[i]) by {
            assert(bytes@[i] == objs[i].owner_node_id.0);
        }
        lemma_multi_flow_owners(scenario, pre, bytes@, comparison_engine_set, obs, profile, parameters@);
        lemma_multi_flow_seeds(scenario, pre, bytes@, comparison_engine_set, obs, profile, parameters@);
        assert(bytes@ =~= seq![1u8, 2u8, 3u8, 4u8, 5u8, 6u8, 7u8, 8u8, 9u8]);
        assert(obs[0].0.0 == 1u8 && obs[0].1@ == DestinationView::Node(9));
        assert(obs[0].2@ =~= seq![(NodeId(4), 900u16, 4u8, 4u8, Some(840u16))]);
        assert(obs[1].0.0 == 2u8 && obs[1].1@ == DestinationView::Node(8));
        assert(obs[1].2@ =~= seq![(NodeId(4), 860u16, 3u8, 3u8, Some(800u16))]);
        assert(obs[2].0.0 == 3u8 && obs[2].1@ == DestinationView::Node(7));
        assert(obs[2].2@ =~= seq![(NodeId(4), 820u16, 3u8, 3u8, Some(760u16))]);
        assert(owner_plan(obs) =~= seq![(1u8, DestinationView::Node(9), seq![(NodeId(4), 900u16, 4u8, 4u8, Some(840u16))]), (2u8, DestinationView::Node(8), seq![(NodeId(4), 860u16, 3u8, 3u8, Some(800u16))]), (3u8, DestinationView::Node(7), seq![(NodeId(4), 820u16, 3u8, 3u8, Some(760u16))])]);
        reveal_with_fuel(owner_position, 5);
        assert forall|k: int| 0 <= k < 9 implies ((#[trigger] scenario.hosts@[k]).overrides.routing_profile is Some <==> k < 3) by {
            assert(bytes@[k] == k + 1);
        }
        assert forall|k: int| 0 <= k < 9 implies (#[trigger] scenario.hosts@[k]).local_node_id.0 == k + 1
            && scenario.hosts@[k].lane == comparison_lane(comparison_engine_set) by {
            assert(multi_flow_host(pre[k], bytes@[k], comparison_engine_set, obs, profile));
        }
    }
    assert(hook_views(environment) =~~= seq![(10u64, HookView::AsymmetricDegradation { left: 5, right: 6, forward_confidence: 520, forward_loss: 320, reverse_confidence: 700, reverse_loss: 180 }), (16u64, HookView::IntrinsicLimit { node: 5, connection_count_max: 2, hold_capacity_bytes_max: 320 })]);
    (scenario, environment)
}

/// What `build_comparison_multi_flow_detour_choice` returns for the parameter set `parameters` and `seed`.
pub open spec fn detour_choice_family(parameters: ParameterSetView, seed: u64, r: (JacquardScenario, ScriptedEnvironmentModel)) -> bool {
    &&& swept_hosts(r.0.hosts@, parameters)
    &&& (r.0.name@ == "comparison-multi-flow-detour-choice-"@ + parameters.config_id)
    &&& (r.0.seed == seed)
    &&& (r.0.round_limit == 30)
    &&& (r.0.initial_configuration.environment == (MediumEnvironment { reachable_neighbor_count: 3, churn_permille: 0, contention_permille: 190 }))
    &&& (parameters.comparison_engine_set is None ==> {
                &&& objective_list(r.0.bound_objectives@) == seq![(1u8, service_view(34), 3u32), (10u8, DestinationView::Node(15), 2u32), (11u8, DestinationView::Node(16), 2u32), (12u8, DestinationView::Node(17), 2u32)]
                &&& node_bytes(r.0.broker_nodes@) == seq![13u8, 14, 18, 19]
                &&& hook_ticks(r.1) == seq![9u64, 12, 18]
                &&& r.0.hosts@.len() == 15
                &&& host_plan(r.0.hosts@) == seq![(1u8, EngineLane::Pathway), (2u8, EngineLane::Pathway), (3u8, EngineLane::Pathway), (4u8, EngineLane::Pathway), (5u8, EngineLane::Pathway), (10u8, EngineLane::AllEngines), (11u8, EngineLane::AllEngines), (12u8, EngineLane::AllEngines), (13u8, EngineLane::AllEngines), (14u8, EngineLane::AllEngines), (15u8, EngineLane::AllEngines), (16u8, EngineLane::AllEngines), (17u8, EngineLane::AllEngines), (18u8, EngineLane::AllEngines), (19u8, EngineLane::AllEngines)]
                &&& links_follow_with_branch(r.0.initial_configuration.links@, seq![(10u8, 13u8), (11, 13), (12, 13), (13, 14), (14, 15), (14, 16), (14, 17), (11, 18), (18, 19), (19, 16), (12, 19), (1, 5)], 120)
                &&& hook_views(r.1) == seq![(9u64, HookView::AsymmetricDegradation { left: 13, right: 14, forward_confidence: 500, forward_loss: 340, reverse_confidence: 680, reverse_loss: 190 }), (12u64, HookView::IntrinsicLimit { node: 14, connection_count_max: 1, hold_capacity_bytes_max: 256 }), (18u64, HookView::MediumDegradation { left: 18, right: 19, confidence: 620, loss: 220 })]
            })
    &&& (parameters.comparison_engine_set is Some ==> {
                &&& objective_list(r.0.bound_objectives@) == seq![(1u8, DestinationView::Node(6), 2u32), (2u8, DestinationView::Node(7), 2u32), (3u8, DestinationView::Node(8), 2u32)]
                &&& node_bytes(r.0.broker_nodes@) == seq![4u8, 5, 9, 10]
                &&& hook_ticks(r.1) == seq![9u64, 12, 18]
                &&& r.0.hosts@.len() == 10
                &&& forall|k: int| 0 <= k < 10 ==> (#[trigger] r.0.hosts@[k]).local_node_id.0 == k + 1
                    && r.0.hosts@[k].lane == comparison_lane(parameters.comparison_engine_set)
                &&& owners_profiled(r.0)
                &&& parameters.comparison_engine_set == Some(ComparisonEngineSet::Field) ==> owners_seeded(r.0)
                &&& host_seeds(r.0.hosts@) == planned_seeds(seq![1u8, 2u8, 3u8, 4u8, 5u8, 6u8, 7u8, 8u8, 9u8, 10u8], parameters.comparison_engine_set, seq![(1u8, DestinationView::Node(6), seq![(NodeId(4), 900u16, 3u8, 4u8, Some(840u16))]), (2u8, DestinationView::Node(7), seq![(NodeId(4), 820u16, 2u8, 3u8, Some(760u16)), (NodeId(9), 780u16, 2u8, 3u8, Some(720u16))]), (3u8, DestinationView::Node(8), seq![(NodeId(4), 800u16, 2u8, 3u8, Some(740u16)), (NodeId(10), 760u16, 2u8, 3u8, Some(700u16))])])
                &&& forall|k: int| 0 <= k < 10 ==> ((#[trigger] r.0.hosts@[k]).overrides.routing_profile is Some <==> k < 3)
                &&& links_follow(r.0.initial_configuration.links@, seq![(1u8, 4u8), (2, 4), (3, 4), (4, 5), (5, 6), (5, 7), (5, 8), (2, 9), (9, 10), (10, 7), (3, 10)], 120)
                &&& hook_views(r.1) == seq![(9u64, HookView::AsymmetricDegradation { left: 4, right: 5, forward_confidence: 500, forward_loss: 340, reverse_confidence: 680, reverse_loss: 190 }), (12u64, HookView::IntrinsicLimit { node: 5, connection_count_max: 1, hold_capacity_bytes_max: 256 }), (18u64, HookView::MediumDegradation { left: 9, right: 10, confidence: 620, loss: 220 })]
            })
}

/// The detour family: three flows share a corridor that degrades at round nine and loses capacity at round twelve, with one viable detour that degrades at round eighteen.
pub fn build_comparison_multi_flow_detour_choice(parameters: &ExperimentParameterSet, seed: u64) -> (r: (JacquardScenario, ScriptedEnvironmentModel))
    ensures
        r.0.operating_mode == OperatingMode::DenseInteractive,
        swept_hosts(r.0.hosts@, parameters@),
        detour_choice_family(parameters@, seed, r),
{
    let name = crate::text::join2("comparison-multi-flow-detour-choice-", parameters.config_id.as_str());
    let comparison_engine_set = parameters.comparison_engine_set;
    if comparison_engine_set.is_none() {
        let mut topology = mixed_multi_flow_detour_topology();
        let ghost built = topology.links@;
        set_environment(&mut topology, 3, 190, 120);
        proof {
            lemma_environment_links(built, topology.links@, seq![(10u8, 13u8), (11, 13), (12, 13), (13, 14), (14, 15), (14, 16), (14, 17), (11, 18), (18, 19), (19, 16), (12, 19), (1, 5)], 120);
        }
        let ghost lossy = topology.links@;
        restore_pathway_service_budget_branch(&mut topology);
        proof {
            assert(seq![(10u8, 13u8), (11, 13), (12, 13), (13, 14), (14, 15), (14, 16), (14, 17), (11, 18), (18, 19), (19, 16), (12, 19), (1, 5)][11] == (1u8, 5u8));
            lemma_restored_branch(lossy, topology.links@, seq![(10u8, 13u8), (11, 13), (12, 13), (13, 14), (14, 15), (14, 16), (14, 17), (11, 18), (18, 19), (19, 16), (12, 19), (1, 5)], 120);
        }
        let hosts = mixed_multi_flow_detour_hosts();
        let ghost template_hosts = hosts@;
        let objectives = mixed_multi_flow_detour_objectives();
        let template = RouteVisibleScenarioTemplate { operating_mode: OperatingMode::DenseInteractive, scenario_name: name, seed, topology, hosts, objectives, round_limit: 30 };
        let brokers = vec![node_id(13), node_id(14), node_id(18), node_id(19)];
        assert(node_bytes(brokers@) =~= seq![13u8, 14, 18, 19]);
        let scenario = template.into_scenario(parameters).with_broker_nodes(brokers);
        assert(host_plan(scenario.hosts@) =~= host_plan(template_hosts));
        let environment = ScriptedEnvironmentModel { hooks: vec![asymmetric_degradation_hook(9, node_id(13), node_id(14), 500, 340, 680, 190), intrinsic_limit_hook(12, node_id(14), 1, 256), medium_degradation_hook(18, node_id(18), node_id(19), 620, 220)] };
        assert(hook_ticks(environment) =~= seq![9u64, 12, 18]);
        assert(hook_views(environment) =~~= seq![(9u64, HookView::AsymmetricDegradation { left: 13, right: 14, forward_confidence: 500, forward_loss: 340, reverse_confidence: 680, reverse_loss: 190 }), (12u64, HookView::IntrinsicLimit { node: 14, connection_count_max: 1, hold_capacity_bytes_max: 256 }), (18u64, HookView::MediumDegradation { left: 18, right: 19, confidence: 620, loss: 220 })]);
        return (scenario, environment);
    }
    let mut topology = multi_flow_detour_topology(comparison_engine_set);
    let ghost built = topology.links@;
    set_environment(&mut topology, 3, 190, 120);
    proof {
        lemma_environment_links(built, topology.links@, seq![(1u8, 4u8), (2, 4), (3, 4), (4, 5), (5, 6), (5, 7), (5, 8), (2, 9), (9, 10), (10, 7), (3, 10)], 120);
    }
    let bytes: Vec<u8> = vec![1, 2, 3, 4, 5, 6, 7, 8, 9, 10];
    let owners: Vec<OwnerBootstrap> = vec![
        (node_id(1), DestinationId::Node(node_id(6)), vec![(node_id(4), 900, 3, 4, Some(840))]),
        (node_id(2), DestinationId::Node(node_id(7)), vec![(node_id(4), 820, 2, 3, Some(760)), (node_id(9), 780, 2, 3, Some(720))]),
        (node_id(3), DestinationId::Node(node_id(8)), vec![(node_id(4), 800, 2, 3, Some(740)), (node_id(10), 760, 2, 3, Some(700))]),
    ];
    let ghost obs = owners@;
    let profile = repairable_connected_profile();
    let hosts = multi_flow_comparison_hosts_for_bytes(&bytes, comparison_engine_set, &owners, profile);
    let ghost pre = hosts@;
    let objectives = vec![bound_objective(node_id(1), connected_objective(node_id(6)), 2), bound_objective(node_id(2), connected_objective(node_id(7)), 2), bound_objective(node_id(3), connected_objective(node_id(8)), 2)];
    let template = RouteVisibleScenarioTemplate { operating_mode: OperatingMode::DenseInteractive, scenario_name: name, seed, topology, hosts, objectives, round_limit: 30 };
    let brokers = vec![node_id(4), node_id(5), node_id(9), node_id(10)];
    assert(node_bytes(brokers@) =~= seq![4u8, 5, 9, 10]);
    let scenario = template.into_scenario(parameters).with_broker_nodes(brokers);
    let environment = ScriptedEnvironmentModel { hooks: vec![asymmetric_degradation_hook(9, node_id(4), node_id(5), 500, 340, 680, 190), intrinsic_limit_hook(12, node_id(5), 1, 256), medium_degradation_hook(18, node_id(9), node_id(10), 620, 220)] };
    assert(hook_ticks(environment) =~= seq![9u64, 12, 18]);
    proof {
        let objs = scenario.bound_objectives@;
        assert(objective_list(objs) =~= seq![(1u8, DestinationView::Node(6), 2u32), (2u8, DestinationView::Node(7), 2u32), (3u8, DestinationView::Node(8), 2u32)]);
        assert(owner_position(obs, 1, 0) == Some(0int));
        assert(owner_position(obs, 2, 1) == Some(1int));
        assert(owner_position(obs, 2, 0) == Some(1int));
        assert(owner_position(obs, 3, 2) == Some(2int));
        assert(owner_position(obs, 3, 1) == Some(2int));
        assert(owner_position(obs, 3, 0) == Some(2int));
        assert(bytes@[0] == 1 && bytes@[1] == 2 && bytes@[2] == 3);
        assert forall|i: int| 0 <= i < objs.len() implies owner_covered(bytes@, obs, #[trigger] objs[i]) by {
            assert(bytes@[i] == objs[i].owner_node_id.0);
        }
        lemma_multi_flow_owners(scenario, pre, bytes@, comparison_engine_set, obs, profile, parameters@);
        lemma_multi_flow_seeds(scenario, pre, bytes@, comparison_engine_set, obs, profile, parameters@);
        assert(bytes@ =~= seq![1u8, 2u8, 3u8, 4u8, 5u8, 6u8, 7u8, 8u8, 9u8, 10u8]);
        assert(obs[0].0.0 == 1u8 && obs[0].1@ == DestinationView::Node(6));
        assert(obs[0].2@ =~= seq![(NodeId(4), 900u16, 3u8, 4u8, Some(840u16))]);
        assert(obs[1].0.0 == 2u8 && obs[1].1@ == DestinationView::Node(7));
        assert(obs[1].2@ =~= seq![(NodeId(4), 820u16, 2u8, 3u8, Some(760u16)), (NodeId(9), 780u16, 2u8, 3u8, Some(720u16))]);
        assert(obs[2].0.0 == 3u8 && obs[2].1@ == DestinationView::Node(8));
        assert(obs[2].2@ =~= seq![(NodeId(4), 800u16, 2u8, 3u8, Some(740u16)), (NodeId(10), 760u16, 2u8, 3u8, Some(700u16))]);
        assert(owner_plan(obs) =~= seq![(1u8, DestinationView::Node(6), seq![(NodeId(4), 900u16, 3u8, 4u8, Some(840u16))]), (2u8, DestinationView::Node(7), seq![(NodeId(4), 820u16, 2u8, 3u8, Some(760u16)), (NodeId(9), 780u16, 2u8, 3u8, Some(720u16))]), (3u8, DestinationView::Node(8), seq![(NodeId(4), 800u16, 2u8, 3u8, Some(740u16)), (NodeId(10), 760u16, 2u8, 3u8, Some(700u16))])]);
        reveal_with_fuel(owner_position, 5);
        assert forall|k: int| 0 <= k < 10 implies ((#[trigger] scenario.hosts@[k]).overrides.routing_profile is Some <==> k < 3) by {
            assert(bytes@[k] == k + 1);
        }
        assert forall|k: int| 0 <= k < 10 implies (#[trigger] scenario.hosts@[k]).local_node_id.0 == k + 1
            && scenario.hosts@[k].lane == comparison_lane(comparison_engine_set) by {
            assert(multi_flow_host(pre[k], bytes@[k], comparison_engine_set, obs, profile));
        }
    }
    assert(hook_views(environment) =~~= seq![(9u64, HookView::AsymmetricDegradation { left: 4, right: 5, forward_confidence: 500, forward_loss: 340, reverse_confidence: 680, reverse_loss: 190 }), (12u64, HookView::IntrinsicLimit { node: 5, connection_count_max: 1, hold_capacity_bytes_max: 256 }), (18u64, HookView::MediumDegradation { left: 9, right: 10, confidence: 620, loss: 220 })]);
    (scenario, environment)
}


/// A link to `to` that drops `loss_permille` with the matching confidence.
pub open spec fn lossy_link(to: u8, loss_permille: u16) -> Link {
    Link {
        endpoint: NodeId(to),
        loss_permille,
        delivery_confidence_permille: Some(confidence_for_loss(loss_permille)),
        transfer_rate_bytes_per_sec: None,
        stability_horizon_ms: None,
    }
}

/// The links are exactly the two directions of each edge, each dropping `loss_permille`.
pub open spec fn links_follow(links: Seq<DirectedLink>, edges: Seq<(u8, u8)>, loss_permille: u16) -> bool {
    &&& links_keyed(links)
    &&& forall|x: u8, y: u8| #[trigger] has_link(links, x, y) <==> edge_between(edges, x, y)
    &&& forall|x: u8, y: u8| #[trigger] has_link(links, x, y) ==> link_at(links, x, y) == Some(lossy_link(y, loss_permille))
}

/// Setting the medium over links made from `edges` leaves the same links,
/// each dropping the new loss.
pub proof fn lemma_environment_links(before: Seq<DirectedLink>, after: Seq<DirectedLink>, edges: Seq<(u8, u8)>, loss_permille: u16)
    requires
        links_of_edges(before, edges),
        after.len() == before.len(),
        forall|k: int| 0 <= k < after.len() ==> #[trigger] after[k] == (DirectedLink {
            link: Link {
                loss_permille,
                delivery_confidence_permille: Some(confidence_for_loss(loss_permille)),
                ..before[k].link
            },
            ..before[k]
        }),
    ensures
        links_follow(after, edges, loss_permille),
{
    assert forall|i: int, j: int| 0 <= i < j < after.len() implies !(#[trigger] after[i].from == #[trigger] after[j].from
        && after[i].to == after[j].to) by {
        assert(after[i].from == before[i].from && after[i].to == before[i].to);
        assert(after[j].from == before[j].from && after[j].to == before[j].to);
    }
    assert forall|x: u8, y: u8| #[trigger] has_link(after, x, y) == has_link(before, x, y) by {
        if has_link(after, x, y) {
            let k = choose|k: int| 0 <= k < after.len() && after[k].from.0 == x && after[k].to.0 == y;
            assert(before[k].from.0 == x && before[k].to.0 == y);
        }
        if has_link(before, x, y) {
            let k = choose|k: int| 0 <= k < before.len() && before[k].from.0 == x && before[k].to.0 == y;
            assert(after[k].from.0 == x && after[k].to.0 == y);
        }
    }
    assert forall|x: u8, y: u8| #[trigger] has_link(after, x, y) implies link_at(after, x, y) == Some(lossy_link(y, loss_permille)) by {
        let k = choose|k: int| 0 <= k < after.len() && after[k].from.0 == x && after[k].to.0 == y;
        let j = choose|j: int| 0 <= j < before.len() && before[j].from.0 == x && before[j].to.0 == y;
        assert(has_link(before, x, y));
        assert(link_at(before, x, y) == Some(before[j].link));
        assert(before[j].link == plain_link(y));
        if j != k {
            assert(before[k].from.0 == x && before[k].to.0 == y);
            if j < k {
                assert(before[j].from == before[k].from);
            } else {
                assert(before[k].from == before[j].from);
            }
        }
        assert(after[k].link == lossy_link(y, loss_permille));
    }
}


/// As `links_follow`, except that the Pathway branch link each way between
/// nodes one and five is a fresh link.
pub open spec fn links_follow_with_branch(links: Seq<DirectedLink>, edges: Seq<(u8, u8)>, loss_permille: u16) -> bool {
    &&& links_keyed(links)
    &&& forall|x: u8, y: u8| #[trigger] has_link(links, x, y) <==> edge_between(edges, x, y)
    &&& forall|x: u8, y: u8| #[trigger] has_link(links, x, y) ==> link_at(links, x, y) == if (x == 1 && y == 5) || (x == 5 && y == 1) {
        Some(plain_link(y))
    } else {
        Some(lossy_link(y, loss_permille))
    }
}

/// Putting the Pathway branch back after setting the medium gives the links
/// of `links_follow_with_branch`.
pub proof fn lemma_restored_branch(before: Seq<DirectedLink>, after: Seq<DirectedLink>, edges: Seq<(u8, u8)>, loss_permille: u16)
    requires
        links_follow(before, edges, loss_permille),
        edge_between(edges, 1, 5),
        links_keyed(after),
        link_at(after, 1, 5) == Some(plain_link(5)),
        link_at(after, 5, 1) == Some(plain_link(1)),
        forall|x: u8, y: u8|
            !(x == 1 && y == 5) && !(x == 5 && y == 1) ==> has_link(after, x, y) == has_link(before, x, y)
                && link_at(after, x, y) == link_at(before, x, y),
    ensures
        links_follow_with_branch(after, edges, loss_permille),
{
    assert(has_link(after, 1, 5));
    assert(has_link(after, 5, 1));
    assert(edge_between(edges, 5, 1));
    assert forall|x: u8, y: u8| #[trigger] has_link(after, x, y) <==> edge_between(edges, x, y) by {
        if !(x == 1 && y == 5) && !(x == 5 && y == 1) {
            assert(has_link(after, x, y) == has_link(before, x, y));
        }
    }
    assert forall|x: u8, y: u8| #[trigger] has_link(after, x, y) implies link_at(after, x, y) == if (x == 1 && y == 5) || (x == 5 && y == 1) {
        Some(plain_link(y))
    } else {
        Some(lossy_link(y, loss_permille))
    } by {
        if !(x == 1 && y == 5) && !(x == 5 && y == 1) {
            assert(has_link(before, x, y));
        }
    }
}

} // verus!
