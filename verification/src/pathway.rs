//! Pathway families: service fanout and mesh scenarios under search-budget
//! pressure, contention, churn and bridge failure, each on Pathway-only hosts.
use vstd::prelude::*;
use crate::comparison::{
    hook_ticks, host_plan, lemma_environment_links, links_follow, links_of_edges, objective_list, plain_link, service_id, service_objective, service_view,
    set_environment, topology_from_byte_nodes_and_edges, RouteVisibleScenarioTemplate,
};
use crate::external::EngineLane;
use crate::params::{ExperimentParameterSet, ParameterSetView};
use crate::replay::DestinationView;
use crate::scenario::{OperatingMode, swept_hosts,
    configuration_view, cut_bytes, hook_views, HookView,
    best_effort_connected_profile, bound_objective, cascade_partition_hook, connected_objective, intrinsic_limit_hook,
    medium_degradation_hook, mobility_relink_hook, partition_hook, replace_topology_hook, HostSpec, JacquardScenario,
    ScriptedEnvironmentModel,
};
use crate::topology::{node_id, NodeId, topology_link, topology_node, Configuration, DirectedLink, MediumEnvironment, NodeEngines, TopologyNode};

verus! {

/// A copy of a configuration.
pub fn copy_configuration(c: &Configuration) -> (r: Configuration)
    ensures
        r.epoch == c.epoch,
        r.nodes@ == c.nodes@,
        r.links@ == c.links@,
        r.environment == c.environment,
{
    let mut nodes: Vec<TopologyNode> = Vec::new();
    let mut i: usize = 0;
    while i < c.nodes.len()
        invariant
            i <= c.nodes@.len(),
            nodes@ == c.nodes@.take(i as int),
        decreases c.nodes@.len() - i,
    {
        nodes.push(c.nodes[i]);
        assert(nodes@ =~= c.nodes@.take(i + 1));
        i = i + 1;
    }
    let mut links: Vec<DirectedLink> = Vec::new();
    let mut j: usize = 0;
    while j < c.links.len()
        invariant
            j <= c.links@.len(),
            links@ == c.links@.take(j as int),
        decreases c.links@.len() - j,
    {
        links.push(c.links[j]);
        assert(links@ =~= c.links@.take(j + 1));
        j = j + 1;
    }
    assert(nodes@ =~= c.nodes@);
    assert(links@ =~= c.links@);
    Configuration { epoch: c.epoch, nodes, links, environment: c.environment }
}

/// Three nodes in a line, one to two to three.
pub fn bidirectional_line_topology(node_a: TopologyNode, node_b: TopologyNode, node_c: TopologyNode) -> (r: Configuration)
    ensures
        r.epoch == 1,
        r.nodes@ == seq![node_a, node_b, node_c],
        r.environment == (MediumEnvironment { reachable_neighbor_count: 2, churn_permille: 0, contention_permille: 0 }),
        links_of_edges(r.links@, seq![(1u8, 2u8), (2, 3)]),
{
    let edges: Vec<(u8, u8)> = vec![(1, 2), (2, 3)];
    let r = topology_from_byte_nodes_and_edges(vec![node_a, node_b, node_c], &edges, 2);
    assert(edges@ =~= seq![(1u8, 2u8), (2, 3)]);
    r
}

/// Four nodes in a ring, one to two to three to four and back to one.
pub fn ring_topology(node_a: TopologyNode, node_b: TopologyNode, node_c: TopologyNode, node_d: TopologyNode) -> (r: Configuration)
    ensures
        r.epoch == 1,
        r.nodes@ == seq![node_a, node_b, node_c, node_d],
        r.environment == (MediumEnvironment { reachable_neighbor_count: 2, churn_permille: 0, contention_permille: 0 }),
        links_of_edges(r.links@, seq![(1u8, 2u8), (2, 3), (3, 4), (4, 1)]),
{
    let edges: Vec<(u8, u8)> = vec![(1, 2), (2, 3), (3, 4), (4, 1)];
    let r = topology_from_byte_nodes_and_edges(vec![node_a, node_b, node_c, node_d], &edges, 2);
    assert(edges@ =~= seq![(1u8, 2u8), (2, 3), (3, 4), (4, 1)]);
    r
}

/// Four nodes, each linked to every other.
pub fn full_mesh_topology(node_a: TopologyNode, node_b: TopologyNode, node_c: TopologyNode, node_d: TopologyNode) -> (r: Configuration)
    ensures
        r.epoch == 1,
        r.nodes@ == seq![node_a, node_b, node_c, node_d],
        r.environment == (MediumEnvironment { reachable_neighbor_count: 3, churn_permille: 0, contention_permille: 0 }),
        links_of_edges(r.links@, seq![(1u8, 2u8), (1, 3), (1, 4), (2, 3), (2, 4), (3, 4)]),
{
    let edges: Vec<(u8, u8)> = vec![(1, 2), (1, 3), (1, 4), (2, 3), (2, 4), (3, 4)];
    let r = topology_from_byte_nodes_and_edges(vec![node_a, node_b, node_c, node_d], &edges, 3);
    assert(edges@ =~= seq![(1u8, 2u8), (1, 3), (1, 4), (2, 3), (2, 4), (3, 4)]);
    r
}

/// Four nodes in a line whose middle link two to three bridges two clusters.
pub fn bridge_cluster_topology(node_a: TopologyNode, node_b: TopologyNode, node_c: TopologyNode, node_d: TopologyNode) -> (r: Configuration)
    ensures
        r.epoch == 1,
        r.nodes@ == seq![node_a, node_b, node_c, node_d],
        r.environment == (MediumEnvironment { reachable_neighbor_count: 1, churn_permille: 0, contention_permille: 0 }),
        links_of_edges(r.links@, seq![(1u8, 2u8), (2, 3), (3, 4)]),
{
    let edges: Vec<(u8, u8)> = vec![(1, 2), (2, 3), (3, 4)];
    let r = topology_from_byte_nodes_and_edges(vec![node_a, node_b, node_c, node_d], &edges, 1);
    assert(edges@ =~= seq![(1u8, 2u8), (2, 3), (3, 4)]);
    r
}

/// Node one linked to each of nodes two to four.
pub fn fanout_service_topology4(node_a: TopologyNode, node_b: TopologyNode, node_c: TopologyNode, node_d: TopologyNode) -> (r: Configuration)
    ensures
        r.epoch == 1,
        r.nodes@ == seq![node_a, node_b, node_c, node_d],
        r.environment == (MediumEnvironment { reachable_neighbor_count: 3, churn_permille: 0, contention_permille: 0 }),
        links_of_edges(r.links@, seq![(1u8, 2u8), (1, 3), (1, 4)]),
{
    let edges: Vec<(u8, u8)> = vec![(1, 2), (1, 3), (1, 4)];
    let r = topology_from_byte_nodes_and_edges(vec![node_a, node_b, node_c, node_d], &edges, 3);
    assert(edges@ =~= seq![(1u8, 2u8), (1, 3), (1, 4)]);
    r
}

/// Node one linked to each of nodes two to five.
pub fn fanout_service_topology5(node_a: TopologyNode, node_b: TopologyNode, node_c: TopologyNode, node_d: TopologyNode, node_e: TopologyNode) -> (r: Configuration)
    ensures
        r.epoch == 1,
        r.nodes@ == seq![node_a, node_b, node_c, node_d, node_e],
        r.environment == (MediumEnvironment { reachable_neighbor_count: 4, churn_permille: 0, contention_permille: 0 }),
        links_of_edges(r.links@, seq![(1u8, 2u8), (1, 3), (1, 4), (1, 5)]),
{
    let edges: Vec<(u8, u8)> = vec![(1, 2), (1, 3), (1, 4), (1, 5)];
    let r = topology_from_byte_nodes_and_edges(vec![node_a, node_b, node_c, node_d, node_e], &edges, 4);
    assert(edges@ =~= seq![(1u8, 2u8), (1, 3), (1, 4), (1, 5)]);
    r
}

/// What `build_pathway_sparse_service_fanout` returns for the parameter set `parameters` and `seed`.
pub open spec fn sparse_service_fanout_family(parameters: ParameterSetView, seed: u64, r: (JacquardScenario, ScriptedEnvironmentModel)) -> bool {
    &&& swept_hosts(r.0.hosts@, parameters)
    &&& (r.0.name@ == "pathway-sparse-service-fanout-"@ + parameters.config_id)
    &&& (r.0.seed == seed)
    &&& (r.0.round_limit == 18)
    &&& (r.0.initial_configuration.environment == (MediumEnvironment { reachable_neighbor_count: 3, churn_permille: 0, contention_permille: 0 }))
    &&& (objective_list(r.0.bound_objectives@) == seq![(1u8, service_view(9), 2u32)])
    &&& (host_plan(r.0.hosts@) == seq![(1u8, EngineLane::Pathway), (2u8, EngineLane::Pathway), (3u8, EngineLane::Pathway), (4u8, EngineLane::Pathway)])
    &&& (r.0.broker_nodes@.len() == 0)
    &&& (hook_ticks(r.1) == Seq::<u64>::empty())
    &&& (links_follow(r.0.initial_configuration.links@, seq![(1u8, 2u8), (1, 3), (1, 4)], 20))
    &&& (hook_views(r.1) == Seq::<(u64, HookView)>::empty())
}

/// A service reached through a sparse fanout on a clean medium.
pub fn build_pathway_sparse_service_fanout(parameters: &ExperimentParameterSet, seed: u64) -> (r: (JacquardScenario, ScriptedEnvironmentModel))
    ensures
        r.0.operating_mode == OperatingMode::DenseInteractive,
        swept_hosts(r.0.hosts@, parameters@),
        sparse_service_fanout_family(parameters@, seed, r),
{
    let mut topology = fanout_service_topology4(topology_node(1, NodeEngines::Pathway), topology_node(2, NodeEngines::Pathway), topology_node(3, NodeEngines::Pathway), topology_node(4, NodeEngines::Pathway));
    let ghost built = topology.links@;
    set_environment(&mut topology, 3, 0, 20);
    proof {
        lemma_environment_links(built, topology.links@, seq![(1u8, 2u8), (1, 3), (1, 4)], 20);
    }
    let hosts = vec![HostSpec::new(node_id(1), EngineLane::Pathway).with_profile(best_effort_connected_profile()), HostSpec::new(node_id(2), EngineLane::Pathway), HostSpec::new(node_id(3), EngineLane::Pathway), HostSpec::new(node_id(4), EngineLane::Pathway)];
    let ghost pre_hosts = hosts@;
    assert(host_plan(hosts@) =~= seq![(1u8, EngineLane::Pathway), (2u8, EngineLane::Pathway), (3u8, EngineLane::Pathway), (4u8, EngineLane::Pathway)]);
    let objectives = vec![bound_objective(node_id(1), service_objective(service_id(9)), 2)];
    assert(objective_list(objectives@) =~= seq![(1u8, service_view(9), 2u32)]);
    let template = RouteVisibleScenarioTemplate { operating_mode: OperatingMode::DenseInteractive,
        scenario_name: crate::text::join2("pathway-sparse-service-fanout-", parameters.config_id.as_str()),
        seed,
        topology,
        hosts,
        objectives,
        round_limit: 18,
    };
    let scenario = template.into_scenario(parameters);
    assert(host_plan(scenario.hosts@) =~= host_plan(pre_hosts));
    let environment = ScriptedEnvironmentModel { hooks: vec![] };
    assert(hook_ticks(environment) =~= Seq::<u64>::empty());
    assert(hook_views(environment) =~~= Seq::<(u64, HookView)>::empty());
    (scenario, environment)
}

/// What `build_pathway_search_budget_pressure` returns for the parameter set `parameters` and `seed`.
pub open spec fn search_budget_pressure_family(parameters: ParameterSetView, seed: u64, r: (JacquardScenario, ScriptedEnvironmentModel)) -> bool {
    &&& swept_hosts(r.0.hosts@, parameters)
    &&& (r.0.name@ == "pathway-search-budget-pressure-"@ + parameters.config_id)
    &&& (r.0.seed == seed)
    &&& (r.0.round_limit == 10)
    &&& (r.0.initial_configuration.environment == (MediumEnvironment { reachable_neighbor_count: 3, churn_permille: 0, contention_permille: 20 }))
    &&& (objective_list(r.0.bound_objectives@) == seq![(1u8, service_view(14), 2u32)])
    &&& (host_plan(r.0.hosts@) == seq![(1u8, EngineLane::Pathway), (2u8, EngineLane::Pathway), (3u8, EngineLane::Pathway), (4u8, EngineLane::Pathway)])
    &&& (r.0.broker_nodes@.len() == 0)
    &&& (hook_ticks(r.1) == seq![4u64])
    &&& (links_follow(r.0.initial_configuration.links@, seq![(1u8, 2u8), (1, 3), (1, 4)], 40))
    &&& (hook_views(r.1) == seq![(4u64, HookView::CascadePartition(seq![(1u8, 2u8), (2u8, 1u8)]))])
}

/// A service on a fanout whose first branch is cut at round four, so search budget decides recovery.
pub fn build_pathway_search_budget_pressure(parameters: &ExperimentParameterSet, seed: u64) -> (r: (JacquardScenario, ScriptedEnvironmentModel))
    ensures
        r.0.operating_mode == OperatingMode::DenseInteractive,
        swept_hosts(r.0.hosts@, parameters@),
        search_budget_pressure_family(parameters@, seed, r),
{
    let mut topology = fanout_service_topology4(topology_node(1, NodeEngines::Pathway), topology_node(2, NodeEngines::Pathway), topology_node(3, NodeEngines::Pathway), topology_node(4, NodeEngines::Pathway));
    let ghost built = topology.links@;
    set_environment(&mut topology, 3, 20, 40);
    proof {
        lemma_environment_links(built, topology.links@, seq![(1u8, 2u8), (1, 3), (1, 4)], 40);
    }
    let hosts = vec![HostSpec::new(node_id(1), EngineLane::Pathway).with_profile(best_effort_connected_profile()), HostSpec::new(node_id(2), EngineLane::Pathway), HostSpec::new(node_id(3), EngineLane::Pathway), HostSpec::new(node_id(4), EngineLane::Pathway)];
    let ghost pre_hosts = hosts@;
    assert(host_plan(hosts@) =~= seq![(1u8, EngineLane::Pathway), (2u8, EngineLane::Pathway), (3u8, EngineLane::Pathway), (4u8, EngineLane::Pathway)]);
    let objectives = vec![bound_objective(node_id(1), service_objective(service_id(14)), 2)];
    assert(objective_list(objectives@) =~= seq![(1u8, service_view(14), 2u32)]);
    let template = RouteVisibleScenarioTemplate { operating_mode: OperatingMode::DenseInteractive,
        scenario_name: crate::text::join2("pathway-search-budget-pressure-", parameters.config_id.as_str()),
        seed,
        topology,
        hosts,
        objectives,
        round_limit: 10,
    };
    let scenario = template.into_scenario(parameters);
    assert(host_plan(scenario.hosts@) =~= host_plan(pre_hosts));
    let cuts0: Vec<(NodeId, NodeId)> = vec![(node_id(1), node_id(2)), (node_id(2), node_id(1))];
    assert(cut_bytes(cuts0@) =~= seq![(1u8, 2u8), (2u8, 1u8)]);
    let environment = ScriptedEnvironmentModel { hooks: vec![cascade_partition_hook(4, cuts0)] };
    assert(hook_ticks(environment) =~= seq![4u64]);
    assert(hook_views(environment) =~~= seq![(4u64, HookView::CascadePartition(seq![(1u8, 2u8), (2u8, 1u8)]))]);
    (scenario, environment)
}

/// What `build_pathway_medium_service_mesh` returns for the parameter set `parameters` and `seed`.
pub open spec fn medium_service_mesh_family(parameters: ParameterSetView, seed: u64, r: (JacquardScenario, ScriptedEnvironmentModel)) -> bool {
    &&& swept_hosts(r.0.hosts@, parameters)
    &&& (r.0.name@ == "pathway-medium-service-mesh-"@ + parameters.config_id)
    &&& (r.0.seed == seed)
    &&& (r.0.round_limit == 18)
    &&& (r.0.initial_configuration.environment == (MediumEnvironment { reachable_neighbor_count: 3, churn_permille: 0, contention_permille: 140 }))
    &&& (objective_list(r.0.bound_objectives@) == seq![(1u8, service_view(10), 2u32)])
    &&& (host_plan(r.0.hosts@) == seq![(1u8, EngineLane::Pathway), (2u8, EngineLane::Pathway), (3u8, EngineLane::Pathway), (4u8, EngineLane::Pathway)])
    &&& (r.0.broker_nodes@.len() == 0)
    &&& (hook_ticks(r.1) == Seq::<u64>::empty())
    &&& (links_follow(r.0.initial_configuration.links@, seq![(1u8, 2u8), (1, 3), (1, 4), (2, 3), (2, 4), (3, 4)], 40))
    &&& (hook_views(r.1) == Seq::<(u64, HookView)>::empty())
}

/// A service over a full mesh with moderate contention.
pub fn build_pathway_medium_service_mesh(parameters: &ExperimentParameterSet, seed: u64) -> (r: (JacquardScenario, ScriptedEnvironmentModel))
    ensures
        r.0.operating_mode == OperatingMode::DenseInteractive,
        swept_hosts(r.0.hosts@, parameters@),
        medium_service_mesh_family(parameters@, seed, r),
{
    let mut topology = full_mesh_topology(topology_node(1, NodeEngines::Pathway), topology_node(2, NodeEngines::Pathway), topology_node(3, NodeEngines::Pathway), topology_node(4, NodeEngines::Pathway));
    let ghost built = topology.links@;
    set_environment(&mut topology, 3, 140, 40);
    proof {
        lemma_environment_links(built, topology.links@, seq![(1u8, 2u8), (1, 3), (1, 4), (2, 3), (2, 4), (3, 4)], 40);
    }
    let hosts = vec![HostSpec::new(node_id(1), EngineLane::Pathway).with_profile(best_effort_connected_profile()), HostSpec::new(node_id(2), EngineLane::Pathway), HostSpec::new(node_id(3), EngineLane::Pathway), HostSpec::new(node_id(4), EngineLane::Pathway)];
    let ghost pre_hosts = hosts@;
    assert(host_plan(hosts@) =~= seq![(1u8, EngineLane::Pathway), (2u8, EngineLane::Pathway), (3u8, EngineLane::Pathway), (4u8, EngineLane::Pathway)]);
    let objectives = vec![bound_objective(node_id(1), service_objective(service_id(10)), 2)];
    assert(objective_list(objectives@) =~= seq![(1u8, service_view(10), 2u32)]);
    let template = RouteVisibleScenarioTemplate { operating_mode: OperatingMode::DenseInteractive,
        scenario_name: crate::text::join2("pathway-medium-service-mesh-", parameters.config_id.as_str()),
        seed,
        topology,
        hosts,
        objectives,
        round_limit: 18,
    };
    let scenario = template.into_scenario(parameters);
    assert(host_plan(scenario.hosts@) =~= host_plan(pre_hosts));
    let environment = ScriptedEnvironmentModel { hooks: vec![] };
    assert(hook_ticks(environment) =~= Seq::<u64>::empty());
    assert(hook_views(environment) =~~= Seq::<(u64, HookView)>::empty());
    (scenario, environment)
}

/// What `build_pathway_dense_contention_service` returns for the parameter set `parameters` and `seed`.
pub open spec fn dense_contention_service_family(parameters: ParameterSetView, seed: u64, r: (JacquardScenario, ScriptedEnvironmentModel)) -> bool {
    &&& swept_hosts(r.0.hosts@, parameters)
    &&& (r.0.name@ == "pathway-dense-contention-service-"@ + parameters.config_id)
    &&& (r.0.seed == seed)
    &&& (r.0.round_limit == 20)
    &&& (r.0.initial_configuration.environment == (MediumEnvironment { reachable_neighbor_count: 3, churn_permille: 0, contention_permille: 320 }))
    &&& (objective_list(r.0.bound_objectives@) == seq![(1u8, service_view(11), 2u32)])
    &&& (host_plan(r.0.hosts@) == seq![(1u8, EngineLane::Pathway), (2u8, EngineLane::Pathway), (3u8, EngineLane::Pathway), (4u8, EngineLane::Pathway)])
    &&& (r.0.broker_nodes@.len() == 0)
    &&& (hook_ticks(r.1) == seq![8u64, 12])
    &&& (links_follow(r.0.initial_configuration.links@, seq![(1u8, 2u8), (1, 3), (1, 4), (2, 3), (2, 4), (3, 4)], 140))
    &&& (hook_views(r.1) == seq![(8u64, HookView::MediumDegradation { left: 1, right: 2, confidence: 700, loss: 250 }), (12u64, HookView::MediumDegradation { left: 1, right: 3, confidence: 660, loss: 300 })])
}

/// A service over a contended full mesh whose links from node one degrade at rounds eight and twelve.
pub fn build_pathway_dense_contention_service(parameters: &ExperimentParameterSet, seed: u64) -> (r: (JacquardScenario, ScriptedEnvironmentModel))
    ensures
        r.0.operating_mode == OperatingMode::DenseInteractive,
        swept_hosts(r.0.hosts@, parameters@),
        dense_contention_service_family(parameters@, seed, r),
{
    let mut topology = full_mesh_topology(topology_node(1, NodeEngines::Pathway), topology_node(2, NodeEngines::Pathway), topology_node(3, NodeEngines::Pathway), topology_node(4, NodeEngines::Pathway));
    let ghost built = topology.links@;
    set_environment(&mut topology, 3, 320, 140);
    proof {
        lemma_environment_links(built, topology.links@, seq![(1u8, 2u8), (1, 3), (1, 4), (2, 3), (2, 4), (3, 4)], 140);
    }
    let hosts = vec![HostSpec::new(node_id(1), EngineLane::Pathway).with_profile(best_effort_connected_profile()), HostSpec::new(node_id(2), EngineLane::Pathway), HostSpec::new(node_id(3), EngineLane::Pathway), HostSpec::new(node_id(4), EngineLane::Pathway)];
    let ghost pre_hosts = hosts@;
    assert(host_plan(hosts@) =~= seq![(1u8, EngineLane::Pathway), (2u8, EngineLane::Pathway), (3u8, EngineLane::Pathway), (4u8, EngineLane::Pathway)]);
    let objectives = vec![bound_objective(node_id(1), service_objective(service_id(11)), 2)];
    assert(objective_list(objectives@) =~= seq![(1u8, service_view(11), 2u32)]);
    let template = RouteVisibleScenarioTemplate { operating_mode: OperatingMode::DenseInteractive,
        scenario_name: crate::text::join2("pathway-dense-contention-service-", parameters.config_id.as_str()),
        seed,
        topology,
        hosts,
        objectives,
        round_limit: 20,
    };
    let scenario = template.into_scenario(parameters);
    assert(host_plan(scenario.hosts@) =~= host_plan(pre_hosts));
    let environment = ScriptedEnvironmentModel { hooks: vec![medium_degradation_hook(8, node_id(1), node_id(2), 700, 250), medium_degradation_hook(12, node_id(1), node_id(3), 660, 300)] };
    assert(hook_ticks(environment) =~= seq![8u64, 12]);
    assert(hook_views(environment) =~~= seq![(8u64, HookView::MediumDegradation { left: 1, right: 2, confidence: 700, loss: 250 }), (12u64, HookView::MediumDegradation { left: 1, right: 3, confidence: 660, loss: 300 })]);
    (scenario, environment)
}

/// What `build_pathway_high_fanout_budget_pressure` returns for the parameter set `parameters` and `seed`.
pub open spec fn high_fanout_budget_pressure_family(parameters: ParameterSetView, seed: u64, r: (JacquardScenario, ScriptedEnvironmentModel)) -> bool {
    &&& swept_hosts(r.0.hosts@, parameters)
    &&& (r.0.name@ == "pathway-high-fanout-budget-pressure-"@ + parameters.config_id)
    &&& (r.0.seed == seed)
    &&& (r.0.round_limit == 12)
    &&& (r.0.initial_configuration.environment == (MediumEnvironment { reachable_neighbor_count: 4, churn_permille: 0, contention_permille: 120 }))
    &&& (objective_list(r.0.bound_objectives@) == seq![(1u8, service_view(15), 2u32)])
    &&& (host_plan(r.0.hosts@) == seq![(1u8, EngineLane::Pathway), (2u8, EngineLane::Pathway), (3u8, EngineLane::Pathway), (4u8, EngineLane::Pathway), (5u8, EngineLane::Pathway)])
    &&& (r.0.broker_nodes@.len() == 0)
    &&& (hook_ticks(r.1) == seq![4u64, 5, 6])
    &&& (links_follow(r.0.initial_configuration.links@, seq![(1u8, 2u8), (1, 3), (1, 4), (1, 5)], 80))
    &&& (hook_views(r.1) == seq![(4u64, HookView::CascadePartition(seq![(1u8, 2u8), (2u8, 1u8)])), (5u64, HookView::MediumDegradation { left: 1, right: 3, confidence: 680, loss: 240 }), (6u64, HookView::MediumDegradation { left: 1, right: 4, confidence: 700, loss: 180 })])
}

/// A service on a wide fanout that loses its first branch at round four and degrades two more at rounds five and six.
pub fn build_pathway_high_fanout_budget_pressure(parameters: &ExperimentParameterSet, seed: u64) -> (r: (JacquardScenario, ScriptedEnvironmentModel))
    ensures
        r.0.operating_mode == OperatingMode::DenseInteractive,
        swept_hosts(r.0.hosts@, parameters@),
        high_fanout_budget_pressure_family(parameters@, seed, r),
{
    let mut topology = fanout_service_topology5(topology_node(1, NodeEngines::Pathway), topology_node(2, NodeEngines::Pathway), topology_node(3, NodeEngines::Pathway), topology_node(4, NodeEngines::Pathway), topology_node(5, NodeEngines::Pathway));
    let ghost built = topology.links@;
    set_environment(&mut topology, 4, 120, 80);
    proof {
        lemma_environment_links(built, topology.links@, seq![(1u8, 2u8), (1, 3), (1, 4), (1, 5)], 80);
    }
    let hosts = vec![HostSpec::new(node_id(1), EngineLane::Pathway).with_profile(best_effort_connected_profile()), HostSpec::new(node_id(2), EngineLane::Pathway), HostSpec::new(node_id(3), EngineLane::Pathway), HostSpec::new(node_id(4), EngineLane::Pathway), HostSpec::new(node_id(5), EngineLane::Pathway)];
    let ghost pre_hosts = hosts@;
    assert(host_plan(hosts@) =~= seq![(1u8, EngineLane::Pathway), (2u8, EngineLane::Pathway), (3u8, EngineLane::Pathway), (4u8, EngineLane::Pathway), (5u8, EngineLane::Pathway)]);
    let objectives = vec![bound_objective(node_id(1), service_objective(service_id(15)), 2)];
    assert(objective_list(objectives@) =~= seq![(1u8, service_view(15), 2u32)]);
    let template = RouteVisibleScenarioTemplate { operating_mode: OperatingMode::DenseInteractive,
        scenario_name: crate::text::join2("pathway-high-fanout-budget-pressure-", parameters.config_id.as_str()),
        seed,
        topology,
        hosts,
        objectives,
        round_limit: 12,
    };
    let scenario = template.into_scenario(parameters);
    assert(host_plan(scenario.hosts@) =~= host_plan(pre_hosts));
    let cuts0: Vec<(NodeId, NodeId)> = vec![(node_id(1), node_id(2)), (node_id(2), node_id(1))];
    assert(cut_bytes(cuts0@) =~= seq![(1u8, 2u8), (2u8, 1u8)]);
    let environment = ScriptedEnvironmentModel { hooks: vec![cascade_partition_hook(4, cuts0), medium_degradation_hook(5, node_id(1), node_id(3), 680, 240), medium_degradation_hook(6, node_id(1), node_id(4), 700, 180)] };
    assert(hook_ticks(environment) =~= seq![4u64, 5, 6]);
    assert(hook_views(environment) =~~= seq![(4u64, HookView::CascadePartition(seq![(1u8, 2u8), (2u8, 1u8)])), (5u64, HookView::MediumDegradation { left: 1, right: 3, confidence: 680, loss: 240 }), (6u64, HookView::MediumDegradation { left: 1, right: 4, confidence: 700, loss: 180 })]);
    (scenario, environment)
}

/// What `build_pathway_churn_replacement` returns for the parameter set `parameters` and `seed`.
pub open spec fn churn_replacement_family(parameters: ParameterSetView, seed: u64, r: (JacquardScenario, ScriptedEnvironmentModel)) -> bool {
    &&& swept_hosts(r.0.hosts@, parameters)
    &&& (r.0.name@ == "pathway-churn-replacement-"@ + parameters.config_id)
    &&& (r.0.seed == seed)
    &&& (r.0.round_limit == 22)
    &&& (r.0.initial_configuration.environment == (MediumEnvironment { reachable_neighbor_count: 2, churn_permille: 0, contention_permille: 200 }))
    &&& (objective_list(r.0.bound_objectives@) == seq![(1u8, DestinationView::Node(3), 2u32)])
    &&& (host_plan(r.0.hosts@) == seq![(1u8, EngineLane::Pathway), (2u8, EngineLane::Pathway), (3u8, EngineLane::Pathway), (4u8, EngineLane::Pathway)])
    &&& (r.0.broker_nodes@.len() == 0)
    &&& (hook_ticks(r.1) == seq![9u64, 14])
    &&& (links_follow(r.0.initial_configuration.links@, seq![(1u8, 2u8), (2, 3), (3, 4), (4, 1)], 80))
    &&& (hook_views(r.1) == seq![(9u64, HookView::CascadePartition(seq![(2u8, 3u8), (3u8, 2u8)])), (14u64, HookView::MobilityRelink { left: 1, from_right: 2, to_right: 4, link: plain_link(4) })])
}

/// An explicit path around a ring that is cut at round nine and relinked at round fourteen.
pub fn build_pathway_churn_replacement(parameters: &ExperimentParameterSet, seed: u64) -> (r: (JacquardScenario, ScriptedEnvironmentModel))
    ensures
        r.0.operating_mode == OperatingMode::DenseInteractive,
        swept_hosts(r.0.hosts@, parameters@),
        churn_replacement_family(parameters@, seed, r),
{
    let mut topology = ring_topology(topology_node(1, NodeEngines::Pathway), topology_node(2, NodeEngines::Pathway), topology_node(3, NodeEngines::Pathway), topology_node(4, NodeEngines::Pathway));
    let ghost built = topology.links@;
    set_environment(&mut topology, 2, 200, 80);
    proof {
        lemma_environment_links(built, topology.links@, seq![(1u8, 2u8), (2, 3), (3, 4), (4, 1)], 80);
    }
    let hosts = vec![HostSpec::new(node_id(1), EngineLane::Pathway).with_profile(best_effort_connected_profile()), HostSpec::new(node_id(2), EngineLane::Pathway), HostSpec::new(node_id(3), EngineLane::Pathway), HostSpec::new(node_id(4), EngineLane::Pathway)];
    let ghost pre_hosts = hosts@;
    assert(host_plan(hosts@) =~= seq![(1u8, EngineLane::Pathway), (2u8, EngineLane::Pathway), (3u8, EngineLane::Pathway), (4u8, EngineLane::Pathway)]);
    let objectives = vec![bound_objective(node_id(1), connected_objective(node_id(3)), 2)];
    assert(objective_list(objectives@) =~= seq![(1u8, DestinationView::Node(3), 2u32)]);
    let template = RouteVisibleScenarioTemplate { operating_mode: OperatingMode::DenseInteractive,
        scenario_name: crate::text::join2("pathway-churn-replacement-", parameters.config_id.as_str()),
        seed,
        topology,
        hosts,
        objectives,
        round_limit: 22,
    };
    let scenario = template.into_scenario(parameters);
    assert(host_plan(scenario.hosts@) =~= host_plan(pre_hosts));
    let cuts0: Vec<(NodeId, NodeId)> = vec![(node_id(2), node_id(3)), (node_id(3), node_id(2))];
    assert(cut_bytes(cuts0@) =~= seq![(2u8, 3u8), (3u8, 2u8)]);
    let environment = ScriptedEnvironmentModel { hooks: vec![cascade_partition_hook(9, cuts0), mobility_relink_hook(14, node_id(1), node_id(2), node_id(4), topology_link(4))] };
    assert(hook_ticks(environment) =~= seq![9u64, 14]);
    assert(hook_views(environment) =~~= seq![(9u64, HookView::CascadePartition(seq![(2u8, 3u8), (3u8, 2u8)])), (14u64, HookView::MobilityRelink { left: 1, from_right: 2, to_right: 4, link: plain_link(4) })]);
    (scenario, environment)
}

/// What `build_pathway_bridge_failure_service` returns for the parameter set `parameters` and `seed`.
pub open spec fn bridge_failure_service_family(parameters: ParameterSetView, seed: u64, r: (JacquardScenario, ScriptedEnvironmentModel)) -> bool {
    &&& swept_hosts(r.0.hosts@, parameters)
    &&& (r.0.name@ == "pathway-bridge-failure-service-"@ + parameters.config_id)
    &&& (r.0.seed == seed)
    &&& (r.0.round_limit == 24)
    &&& (r.0.initial_configuration.environment == (MediumEnvironment { reachable_neighbor_count: 1, churn_permille: 0, contention_permille: 180 }))
    &&& (objective_list(r.0.bound_objectives@) == seq![(1u8, service_view(12), 2u32)])
    &&& (host_plan(r.0.hosts@) == seq![(1u8, EngineLane::Pathway), (2u8, EngineLane::Pathway), (3u8, EngineLane::Pathway), (4u8, EngineLane::Pathway)])
    &&& (r.0.broker_nodes@.len() == 0)
    &&& (hook_ticks(r.1) == seq![8u64, 9, 10, 16])
    &&& (links_follow(r.0.initial_configuration.links@, seq![(1u8, 2u8), (2, 3), (3, 4)], 120))
    &&& (hook_views(r.1) == seq![(8u64, HookView::Partition { left: 2, right: 3 }), (9u64, HookView::Partition { left: 3, right: 2 }), (10u64, HookView::IntrinsicLimit { node: 2, connection_count_max: 1, hold_capacity_bytes_max: 384 }), (16u64, HookView::ReplaceTopology(configuration_view(r.0.initial_configuration)))])
}

/// A service across a bridge that fails in both directions at rounds eight and nine, with node two limited at round ten and the configuration restored at round sixteen.
pub fn build_pathway_bridge_failure_service(parameters: &ExperimentParameterSet, seed: u64) -> (r: (JacquardScenario, ScriptedEnvironmentModel))
    ensures
        r.0.operating_mode == OperatingMode::DenseInteractive,
        swept_hosts(r.0.hosts@, parameters@),
        bridge_failure_service_family(parameters@, seed, r),
{
    let mut topology = bridge_cluster_topology(topology_node(1, NodeEngines::Pathway), topology_node(2, NodeEngines::Pathway), topology_node(3, NodeEngines::Pathway), topology_node(4, NodeEngines::Pathway));
    let ghost built = topology.links@;
    set_environment(&mut topology, 1, 180, 120);
    proof {
        lemma_environment_links(built, topology.links@, seq![(1u8, 2u8), (2, 3), (3, 4)], 120);
    }
    let restore = copy_configuration(&topology);
    let hosts = vec![HostSpec::new(node_id(1), EngineLane::Pathway).with_profile(best_effort_connected_profile()), HostSpec::new(node_id(2), EngineLane::Pathway), HostSpec::new(node_id(3), EngineLane::Pathway), HostSpec::new(node_id(4), EngineLane::Pathway)];
    let ghost pre_hosts = hosts@;
    assert(host_plan(hosts@) =~= seq![(1u8, EngineLane::Pathway), (2u8, EngineLane::Pathway), (3u8, EngineLane::Pathway), (4u8, EngineLane::Pathway)]);
    let objectives = vec![bound_objective(node_id(1), service_objective(service_id(12)), 2)];
    assert(objective_list(objectives@) =~= seq![(1u8, service_view(12), 2u32)]);
    let template = RouteVisibleScenarioTemplate { operating_mode: OperatingMode::DenseInteractive,
        scenario_name: crate::text::join2("pathway-bridge-failure-service-", parameters.config_id.as_str()),
        seed,
        topology,
        hosts,
        objectives,
        round_limit: 24,
    };
    let scenario = template.into_scenario(parameters);
    assert(host_plan(scenario.hosts@) =~= host_plan(pre_hosts));
    let environment = ScriptedEnvironmentModel { hooks: vec![partition_hook(8, node_id(2), node_id(3)), partition_hook(9, node_id(3), node_id(2)), intrinsic_limit_hook(10, node_id(2), 1, 384), replace_topology_hook(16, restore)] };
    assert(hook_ticks(environment) =~= seq![8u64, 9, 10, 16]);
    assert(hook_views(environment) =~~= seq![(8u64, HookView::Partition { left: 2, right: 3 }), (9u64, HookView::Partition { left: 3, right: 2 }), (10u64, HookView::IntrinsicLimit { node: 2, connection_count_max: 1, hold_capacity_bytes_max: 384 }), (16u64, HookView::ReplaceTopology(configuration_view(scenario.initial_configuration)))]);
    (scenario, environment)
}

} // verus!
