//! BATMAN Bellman, BATMAN Classic, Babel and OLSRv2 families: lines, rings
//! and bridges under loss, contention, asymmetry, relinking, partitions and
//! recovery, each run on hosts of one engine.
use vstd::prelude::*;
use crate::comparison::{
    hook_ticks, host_plan, lemma_environment_links, links_follow, links_of_edges, objective_list, plain_link, set_environment,
    RouteVisibleScenarioTemplate,
};
use crate::external::EngineLane;
use crate::params::ExperimentParameterSet;
use crate::pathway::{bidirectional_line_topology, bridge_cluster_topology, copy_configuration, ring_topology};
use crate::replay::DestinationView;
use crate::scenario::{OperatingMode, swept_hosts,
    configuration_view, cut_bytes, hook_views, HookView,
    asymmetric_degradation_hook, bound_objective, cascade_partition_hook, connected_objective, intrinsic_limit_hook,
    medium_degradation_hook, mobility_relink_hook, replace_topology_hook, HostSpec, JacquardScenario,
    ScriptedEnvironmentModel,
};
use crate::topology::{node_id, NodeId, topology_link, topology_node, MediumEnvironment, NodeEngines};

verus! {

/// A three-node line with little loss and no disruption.
pub fn build_batman_bellman_sparse_line_low_loss(parameters: &ExperimentParameterSet, seed: u64) -> (r: (JacquardScenario, ScriptedEnvironmentModel))
    ensures
        r.0.operating_mode == OperatingMode::DenseInteractive,
        swept_hosts(r.0.hosts@, parameters@),
        r.0.name@ == "batman-bellman-sparse-line-low-loss-"@ + parameters.config_id@,
        r.0.seed == seed,
        r.0.round_limit == 18,
        r.0.initial_configuration.environment == (MediumEnvironment { reachable_neighbor_count: 2, churn_permille: 0, contention_permille: 0 }),
        objective_list(r.0.bound_objectives@) == seq![(1u8, DestinationView::Node(3), 2u32)],
        host_plan(r.0.hosts@) == seq![(1u8, EngineLane::BatmanBellman), (2u8, EngineLane::BatmanBellman), (3u8, EngineLane::BatmanBellman)],
        r.0.broker_nodes@.len() == 0,
        hook_ticks(r.1) == Seq::<u64>::empty(),
        links_follow(r.0.initial_configuration.links@, seq![(1u8, 2u8), (2, 3)], 20),
        hook_views(r.1) == Seq::<(u64, HookView)>::empty(),
{
    let mut topology = bidirectional_line_topology(topology_node(1, NodeEngines::BatmanBellman), topology_node(2, NodeEngines::BatmanBellman), topology_node(3, NodeEngines::BatmanBellman));
    let ghost built = topology.links@;
    set_environment(&mut topology, 2, 0, 20);
    proof {
        lemma_environment_links(built, topology.links@, seq![(1u8, 2u8), (2, 3)], 20);
    }
    let hosts = vec![HostSpec::new(node_id(1), EngineLane::BatmanBellman), HostSpec::new(node_id(2), EngineLane::BatmanBellman), HostSpec::new(node_id(3), EngineLane::BatmanBellman)];
    let ghost pre_hosts = hosts@;
    assert(host_plan(hosts@) =~= seq![(1u8, EngineLane::BatmanBellman), (2u8, EngineLane::BatmanBellman), (3u8, EngineLane::BatmanBellman)]);
    let objectives = vec![bound_objective(node_id(1), connected_objective(node_id(3)), 2)];
    assert(objective_list(objectives@) =~= seq![(1u8, DestinationView::Node(3), 2u32)]);
    let template = RouteVisibleScenarioTemplate { operating_mode: OperatingMode::DenseInteractive,
        scenario_name: crate::text::join2("batman-bellman-sparse-line-low-loss-", parameters.config_id.as_str()),
        seed,
        topology,
        hosts,
        objectives,
        round_limit: 18,
    };
    let scenario = template.into_scenario(parameters);
    assert(host_plan(scenario.hosts@) =~= host_plan(pre_hosts));
    let environment = ScriptedEnvironmentModel { hooks: vec![] };
    assert(hook_ticks(environment) =~= Seq::<u64>::empty());
    assert(hook_views(environment) =~~= Seq::<(u64, HookView)>::empty());
    (scenario, environment)
}

/// A line whose far link is cut at round ten and restored at round eighteen.
pub fn build_batman_bellman_partition_recovery(parameters: &ExperimentParameterSet, seed: u64) -> (r: (JacquardScenario, ScriptedEnvironmentModel))
    ensures
        r.0.operating_mode == OperatingMode::DenseInteractive,
        swept_hosts(r.0.hosts@, parameters@),
        r.0.name@ == "batman-bellman-partition-recovery-"@ + parameters.config_id@,
        r.0.seed == seed,
        r.0.round_limit == 26,
        r.0.initial_configuration.environment == (MediumEnvironment { reachable_neighbor_count: 2, churn_permille: 0, contention_permille: 40 }),
        objective_list(r.0.bound_objectives@) == seq![(1u8, DestinationView::Node(3), 2u32)],
        host_plan(r.0.hosts@) == seq![(1u8, EngineLane::BatmanBellman), (2u8, EngineLane::BatmanBellman), (3u8, EngineLane::BatmanBellman)],
        r.0.broker_nodes@.len() == 0,
        hook_ticks(r.1) == seq![10u64, 18],
        links_follow(r.0.initial_configuration.links@, seq![(1u8, 2u8), (2, 3)], 150),
        hook_views(r.1) == seq![(10u64, HookView::CascadePartition(seq![(2u8, 3u8), (3u8, 2u8)])), (18u64, HookView::ReplaceTopology(configuration_view(r.0.initial_configuration)))],
{
    let mut topology = bidirectional_line_topology(topology_node(1, NodeEngines::BatmanBellman), topology_node(2, NodeEngines::BatmanBellman), topology_node(3, NodeEngines::BatmanBellman));
    let ghost built = topology.links@;
    set_environment(&mut topology, 2, 40, 150);
    proof {
        lemma_environment_links(built, topology.links@, seq![(1u8, 2u8), (2, 3)], 150);
    }
    let restore = copy_configuration(&topology);
    let hosts = vec![HostSpec::new(node_id(1), EngineLane::BatmanBellman), HostSpec::new(node_id(2), EngineLane::BatmanBellman), HostSpec::new(node_id(3), EngineLane::BatmanBellman)];
    let ghost pre_hosts = hosts@;
    assert(host_plan(hosts@) =~= seq![(1u8, EngineLane::BatmanBellman), (2u8, EngineLane::BatmanBellman), (3u8, EngineLane::BatmanBellman)]);
    let objectives = vec![bound_objective(node_id(1), connected_objective(node_id(3)), 2)];
    assert(objective_list(objectives@) =~= seq![(1u8, DestinationView::Node(3), 2u32)]);
    let template = RouteVisibleScenarioTemplate { operating_mode: OperatingMode::DenseInteractive,
        scenario_name: crate::text::join2("batman-bellman-partition-recovery-", parameters.config_id.as_str()),
        seed,
        topology,
        hosts,
        objectives,
        round_limit: 26,
    };
    let scenario = template.into_scenario(parameters);
    assert(host_plan(scenario.hosts@) =~= host_plan(pre_hosts));
    let cuts0: Vec<(NodeId, NodeId)> = vec![(node_id(2), node_id(3)), (node_id(3), node_id(2))];
    assert(cut_bytes(cuts0@) =~= seq![(2u8, 3u8), (3u8, 2u8)]);
    let environment = ScriptedEnvironmentModel { hooks: vec![cascade_partition_hook(10, cuts0), replace_topology_hook(18, copy_configuration(&restore))] };
    assert(hook_ticks(environment) =~= seq![10u64, 18]);
    assert(hook_views(environment) =~~= seq![(10u64, HookView::CascadePartition(seq![(2u8, 3u8), (3u8, 2u8)])), (18u64, HookView::ReplaceTopology(configuration_view(scenario.initial_configuration)))]);
    (scenario, environment)
}

/// A quiet line activated late, cut at round fourteen and restored at round twenty-six, so decay windows decide what survives.
pub fn build_batman_bellman_decay_window_pressure(parameters: &ExperimentParameterSet, seed: u64) -> (r: (JacquardScenario, ScriptedEnvironmentModel))
    ensures
        r.0.operating_mode == OperatingMode::DenseInteractive,
        swept_hosts(r.0.hosts@, parameters@),
        r.0.name@ == "batman-bellman-decay-window-pressure-"@ + parameters.config_id@,
        r.0.seed == seed,
        r.0.round_limit == 36,
        r.0.initial_configuration.environment == (MediumEnvironment { reachable_neighbor_count: 2, churn_permille: 0, contention_permille: 0 }),
        objective_list(r.0.bound_objectives@) == seq![(1u8, DestinationView::Node(3), 6u32)],
        host_plan(r.0.hosts@) == seq![(1u8, EngineLane::BatmanBellman), (2u8, EngineLane::BatmanBellman), (3u8, EngineLane::BatmanBellman)],
        r.0.broker_nodes@.len() == 0,
        hook_ticks(r.1) == seq![14u64, 26],
        links_of_edges(r.0.initial_configuration.links@, seq![(1u8, 2u8), (2, 3)]),
        hook_views(r.1) == seq![(14u64, HookView::CascadePartition(seq![(2u8, 3u8), (3u8, 2u8)])), (26u64, HookView::ReplaceTopology(configuration_view(r.0.initial_configuration)))],
{
    let topology = bidirectional_line_topology(topology_node(1, NodeEngines::BatmanBellman), topology_node(2, NodeEngines::BatmanBellman), topology_node(3, NodeEngines::BatmanBellman));
    let restore = copy_configuration(&topology);
    let hosts = vec![HostSpec::new(node_id(1), EngineLane::BatmanBellman), HostSpec::new(node_id(2), EngineLane::BatmanBellman), HostSpec::new(node_id(3), EngineLane::BatmanBellman)];
    let ghost pre_hosts = hosts@;
    assert(host_plan(hosts@) =~= seq![(1u8, EngineLane::BatmanBellman), (2u8, EngineLane::BatmanBellman), (3u8, EngineLane::BatmanBellman)]);
    let objectives = vec![bound_objective(node_id(1), connected_objective(node_id(3)), 6)];
    assert(objective_list(objectives@) =~= seq![(1u8, DestinationView::Node(3), 6u32)]);
    let template = RouteVisibleScenarioTemplate { operating_mode: OperatingMode::DenseInteractive,
        scenario_name: crate::text::join2("batman-bellman-decay-window-pressure-", parameters.config_id.as_str()),
        seed,
        topology,
        hosts,
        objectives,
        round_limit: 36,
    };
    let scenario = template.into_scenario(parameters);
    assert(host_plan(scenario.hosts@) =~= host_plan(pre_hosts));
    let cuts0: Vec<(NodeId, NodeId)> = vec![(node_id(2), node_id(3)), (node_id(3), node_id(2))];
    assert(cut_bytes(cuts0@) =~= seq![(2u8, 3u8), (3u8, 2u8)]);
    let environment = ScriptedEnvironmentModel { hooks: vec![cascade_partition_hook(14, cuts0), replace_topology_hook(26, copy_configuration(&restore))] };
    assert(hook_ticks(environment) =~= seq![14u64, 26]);
    assert(hook_views(environment) =~~= seq![(14u64, HookView::CascadePartition(seq![(2u8, 3u8), (3u8, 2u8)])), (26u64, HookView::ReplaceTopology(configuration_view(scenario.initial_configuration)))]);
    (scenario, environment)
}

/// A contended ring with no scripted disruption.
pub fn build_batman_bellman_medium_ring_contention(parameters: &ExperimentParameterSet, seed: u64) -> (r: (JacquardScenario, ScriptedEnvironmentModel))
    ensures
        r.0.operating_mode == OperatingMode::DenseInteractive,
        swept_hosts(r.0.hosts@, parameters@),
        r.0.name@ == "batman-bellman-medium-ring-contention-"@ + parameters.config_id@,
        r.0.seed == seed,
        r.0.round_limit == 20,
        r.0.initial_configuration.environment == (MediumEnvironment { reachable_neighbor_count: 2, churn_permille: 0, contention_permille: 150 }),
        objective_list(r.0.bound_objectives@) == seq![(1u8, DestinationView::Node(3), 2u32)],
        host_plan(r.0.hosts@) == seq![(1u8, EngineLane::BatmanBellman), (2u8, EngineLane::BatmanBellman), (3u8, EngineLane::BatmanBellman), (4u8, EngineLane::BatmanBellman)],
        r.0.broker_nodes@.len() == 0,
        hook_ticks(r.1) == Seq::<u64>::empty(),
        links_follow(r.0.initial_configuration.links@, seq![(1u8, 2u8), (2, 3), (3, 4), (4, 1)], 100),
        hook_views(r.1) == Seq::<(u64, HookView)>::empty(),
{
    let mut topology = ring_topology(topology_node(1, NodeEngines::BatmanBellman), topology_node(2, NodeEngines::BatmanBellman), topology_node(3, NodeEngines::BatmanBellman), topology_node(4, NodeEngines::BatmanBellman));
    let ghost built = topology.links@;
    set_environment(&mut topology, 2, 150, 100);
    proof {
        lemma_environment_links(built, topology.links@, seq![(1u8, 2u8), (2, 3), (3, 4), (4, 1)], 100);
    }
    let hosts = vec![HostSpec::new(node_id(1), EngineLane::BatmanBellman), HostSpec::new(node_id(2), EngineLane::BatmanBellman), HostSpec::new(node_id(3), EngineLane::BatmanBellman), HostSpec::new(node_id(4), EngineLane::BatmanBellman)];
    let ghost pre_hosts = hosts@;
    assert(host_plan(hosts@) =~= seq![(1u8, EngineLane::BatmanBellman), (2u8, EngineLane::BatmanBellman), (3u8, EngineLane::BatmanBellman), (4u8, EngineLane::BatmanBellman)]);
    let objectives = vec![bound_objective(node_id(1), connected_objective(node_id(3)), 2)];
    assert(objective_list(objectives@) =~= seq![(1u8, DestinationView::Node(3), 2u32)]);
    let template = RouteVisibleScenarioTemplate { operating_mode: OperatingMode::DenseInteractive,
        scenario_name: crate::text::join2("batman-bellman-medium-ring-contention-", parameters.config_id.as_str()),
        seed,
        topology,
        hosts,
        objectives,
        round_limit: 20,
    };
    let scenario = template.into_scenario(parameters);
    assert(host_plan(scenario.hosts@) =~= host_plan(pre_hosts));
    let environment = ScriptedEnvironmentModel { hooks: vec![] };
    assert(hook_ticks(environment) =~= Seq::<u64>::empty());
    assert(hook_views(environment) =~~= Seq::<(u64, HookView)>::empty());
    (scenario, environment)
}

/// A bridge that degrades asymmetrically at round six.
pub fn build_batman_bellman_asymmetric_bridge(parameters: &ExperimentParameterSet, seed: u64) -> (r: (JacquardScenario, ScriptedEnvironmentModel))
    ensures
        r.0.operating_mode == OperatingMode::DenseInteractive,
        swept_hosts(r.0.hosts@, parameters@),
        r.0.name@ == "batman-bellman-asymmetric-bridge-"@ + parameters.config_id@,
        r.0.seed == seed,
        r.0.round_limit == 22,
        r.0.initial_configuration.environment == (MediumEnvironment { reachable_neighbor_count: 1, churn_permille: 0, contention_permille: 200 }),
        objective_list(r.0.bound_objectives@) == seq![(1u8, DestinationView::Node(4), 2u32)],
        host_plan(r.0.hosts@) == seq![(1u8, EngineLane::BatmanBellman), (2u8, EngineLane::BatmanBellman), (3u8, EngineLane::BatmanBellman), (4u8, EngineLane::BatmanBellman)],
        r.0.broker_nodes@.len() == 0,
        hook_ticks(r.1) == seq![6u64],
        links_follow(r.0.initial_configuration.links@, seq![(1u8, 2u8), (2, 3), (3, 4)], 80),
        hook_views(r.1) == seq![(6u64, HookView::AsymmetricDegradation { left: 2, right: 3, forward_confidence: 520, forward_loss: 380, reverse_confidence: 760, reverse_loss: 180 })],
{
    let mut topology = bridge_cluster_topology(topology_node(1, NodeEngines::BatmanBellman), topology_node(2, NodeEngines::BatmanBellman), topology_node(3, NodeEngines::BatmanBellman), topology_node(4, NodeEngines::BatmanBellman));
    let ghost built = topology.links@;
    set_environment(&mut topology, 1, 200, 80);
    proof {
        lemma_environment_links(built, topology.links@, seq![(1u8, 2u8), (2, 3), (3, 4)], 80);
    }
    let hosts = vec![HostSpec::new(node_id(1), EngineLane::BatmanBellman), HostSpec::new(node_id(2), EngineLane::BatmanBellman), HostSpec::new(node_id(3), EngineLane::BatmanBellman), HostSpec::new(node_id(4), EngineLane::BatmanBellman)];
    let ghost pre_hosts = hosts@;
    assert(host_plan(hosts@) =~= seq![(1u8, EngineLane::BatmanBellman), (2u8, EngineLane::BatmanBellman), (3u8, EngineLane::BatmanBellman), (4u8, EngineLane::BatmanBellman)]);
    let objectives = vec![bound_objective(node_id(1), connected_objective(node_id(4)), 2)];
    assert(objective_list(objectives@) =~= seq![(1u8, DestinationView::Node(4), 2u32)]);
    let template = RouteVisibleScenarioTemplate { operating_mode: OperatingMode::DenseInteractive,
        scenario_name: crate::text::join2("batman-bellman-asymmetric-bridge-", parameters.config_id.as_str()),
        seed,
        topology,
        hosts,
        objectives,
        round_limit: 22,
    };
    let scenario = template.into_scenario(parameters);
    assert(host_plan(scenario.hosts@) =~= host_plan(pre_hosts));
    let environment = ScriptedEnvironmentModel { hooks: vec![asymmetric_degradation_hook(6, node_id(2), node_id(3), 520, 380, 760, 180)] };
    assert(hook_ticks(environment) =~= seq![6u64]);
    assert(hook_views(environment) =~~= seq![(6u64, HookView::AsymmetricDegradation { left: 2, right: 3, forward_confidence: 520, forward_loss: 380, reverse_confidence: 760, reverse_loss: 180 })]);
    (scenario, environment)
}

/// A bridge that degrades asymmetrically, with node one relinking from two to three and back.
pub fn build_batman_bellman_asymmetry_relink_transition(parameters: &ExperimentParameterSet, seed: u64) -> (r: (JacquardScenario, ScriptedEnvironmentModel))
    ensures
        r.0.operating_mode == OperatingMode::DenseInteractive,
        swept_hosts(r.0.hosts@, parameters@),
        r.0.name@ == "batman-bellman-asymmetry-relink-transition-"@ + parameters.config_id@,
        r.0.seed == seed,
        r.0.round_limit == 24,
        r.0.initial_configuration.environment == (MediumEnvironment { reachable_neighbor_count: 1, churn_permille: 0, contention_permille: 120 }),
        objective_list(r.0.bound_objectives@) == seq![(1u8, DestinationView::Node(4), 2u32)],
        host_plan(r.0.hosts@) == seq![(1u8, EngineLane::BatmanBellman), (2u8, EngineLane::BatmanBellman), (3u8, EngineLane::BatmanBellman), (4u8, EngineLane::BatmanBellman)],
        r.0.broker_nodes@.len() == 0,
        hook_ticks(r.1) == seq![6u64, 10, 15],
        links_follow(r.0.initial_configuration.links@, seq![(1u8, 2u8), (2, 3), (3, 4)], 140),
        hook_views(r.1) == seq![(6u64, HookView::AsymmetricDegradation { left: 2, right: 3, forward_confidence: 560, forward_loss: 260, reverse_confidence: 740, reverse_loss: 140 }), (10u64, HookView::MobilityRelink { left: 1, from_right: 2, to_right: 3, link: plain_link(3) }), (15u64, HookView::MobilityRelink { left: 1, from_right: 3, to_right: 2, link: plain_link(2) })],
{
    let mut topology = bridge_cluster_topology(topology_node(1, NodeEngines::BatmanBellman), topology_node(2, NodeEngines::BatmanBellman), topology_node(3, NodeEngines::BatmanBellman), topology_node(4, NodeEngines::BatmanBellman));
    let ghost built = topology.links@;
    set_environment(&mut topology, 1, 120, 140);
    proof {
        lemma_environment_links(built, topology.links@, seq![(1u8, 2u8), (2, 3), (3, 4)], 140);
    }
    let hosts = vec![HostSpec::new(node_id(1), EngineLane::BatmanBellman), HostSpec::new(node_id(2), EngineLane::BatmanBellman), HostSpec::new(node_id(3), EngineLane::BatmanBellman), HostSpec::new(node_id(4), EngineLane::BatmanBellman)];
    let ghost pre_hosts = hosts@;
    assert(host_plan(hosts@) =~= seq![(1u8, EngineLane::BatmanBellman), (2u8, EngineLane::BatmanBellman), (3u8, EngineLane::BatmanBellman), (4u8, EngineLane::BatmanBellman)]);
    let objectives = vec![bound_objective(node_id(1), connected_objective(node_id(4)), 2)];
    assert(objective_list(objectives@) =~= seq![(1u8, DestinationView::Node(4), 2u32)]);
    let template = RouteVisibleScenarioTemplate { operating_mode: OperatingMode::DenseInteractive,
        scenario_name: crate::text::join2("batman-bellman-asymmetry-relink-transition-", parameters.config_id.as_str()),
        seed,
        topology,
        hosts,
        objectives,
        round_limit: 24,
    };
    let scenario = template.into_scenario(parameters);
    assert(host_plan(scenario.hosts@) =~= host_plan(pre_hosts));
    let environment = ScriptedEnvironmentModel { hooks: vec![asymmetric_degradation_hook(6, node_id(2), node_id(3), 560, 260, 740, 140), mobility_relink_hook(10, node_id(1), node_id(2), node_id(3), topology_link(3)), mobility_relink_hook(15, node_id(1), node_id(3), node_id(2), topology_link(2))] };
    assert(hook_ticks(environment) =~= seq![6u64, 10, 15]);
    assert(hook_views(environment) =~~= seq![(6u64, HookView::AsymmetricDegradation { left: 2, right: 3, forward_confidence: 560, forward_loss: 260, reverse_confidence: 740, reverse_loss: 140 }), (10u64, HookView::MobilityRelink { left: 1, from_right: 2, to_right: 3, link: plain_link(3) }), (15u64, HookView::MobilityRelink { left: 1, from_right: 3, to_right: 2, link: plain_link(2) })]);
    (scenario, environment)
}

/// A ring whose node two is capacity-limited at round eight while node one relinks twice.
pub fn build_batman_bellman_churn_intrinsic_limit(parameters: &ExperimentParameterSet, seed: u64) -> (r: (JacquardScenario, ScriptedEnvironmentModel))
    ensures
        r.0.operating_mode == OperatingMode::DenseInteractive,
        swept_hosts(r.0.hosts@, parameters@),
        r.0.name@ == "batman-bellman-churn-intrinsic-limit-"@ + parameters.config_id@,
        r.0.seed == seed,
        r.0.round_limit == 24,
        r.0.initial_configuration.environment == (MediumEnvironment { reachable_neighbor_count: 2, churn_permille: 0, contention_permille: 50 }),
        objective_list(r.0.bound_objectives@) == seq![(1u8, DestinationView::Node(3), 3u32)],
        host_plan(r.0.hosts@) == seq![(1u8, EngineLane::BatmanBellman), (2u8, EngineLane::BatmanBellman), (3u8, EngineLane::BatmanBellman), (4u8, EngineLane::BatmanBellman)],
        r.0.broker_nodes@.len() == 0,
        hook_ticks(r.1) == seq![8u64, 10, 14],
        links_follow(r.0.initial_configuration.links@, seq![(1u8, 2u8), (2, 3), (3, 4), (4, 1)], 50),
        hook_views(r.1) == seq![(8u64, HookView::IntrinsicLimit { node: 2, connection_count_max: 1, hold_capacity_bytes_max: 256 }), (10u64, HookView::MobilityRelink { left: 1, from_right: 2, to_right: 3, link: plain_link(3) }), (14u64, HookView::MobilityRelink { left: 1, from_right: 3, to_right: 2, link: plain_link(2) })],
{
    let mut topology = ring_topology(topology_node(1, NodeEngines::BatmanBellman), topology_node(2, NodeEngines::BatmanBellman), topology_node(3, NodeEngines::BatmanBellman), topology_node(4, NodeEngines::BatmanBellman));
    let ghost built = topology.links@;
    set_environment(&mut topology, 2, 50, 50);
    proof {
        lemma_environment_links(built, topology.links@, seq![(1u8, 2u8), (2, 3), (3, 4), (4, 1)], 50);
    }
    let hosts = vec![HostSpec::new(node_id(1), EngineLane::BatmanBellman), HostSpec::new(node_id(2), EngineLane::BatmanBellman), HostSpec::new(node_id(3), EngineLane::BatmanBellman), HostSpec::new(node_id(4), EngineLane::BatmanBellman)];
    let ghost pre_hosts = hosts@;
    assert(host_plan(hosts@) =~= seq![(1u8, EngineLane::BatmanBellman), (2u8, EngineLane::BatmanBellman), (3u8, EngineLane::BatmanBellman), (4u8, EngineLane::BatmanBellman)]);
    let objectives = vec![bound_objective(node_id(1), connected_objective(node_id(3)), 3)];
    assert(objective_list(objectives@) =~= seq![(1u8, DestinationView::Node(3), 3u32)]);
    let template = RouteVisibleScenarioTemplate { operating_mode: OperatingMode::DenseInteractive,
        scenario_name: crate::text::join2("batman-bellman-churn-intrinsic-limit-", parameters.config_id.as_str()),
        seed,
        topology,
        hosts,
        objectives,
        round_limit: 24,
    };
    let scenario = template.into_scenario(parameters);
    assert(host_plan(scenario.hosts@) =~= host_plan(pre_hosts));
    let environment = ScriptedEnvironmentModel { hooks: vec![intrinsic_limit_hook(8, node_id(2), 1, 256), mobility_relink_hook(10, node_id(1), node_id(2), node_id(3), topology_link(3)), mobility_relink_hook(14, node_id(1), node_id(3), node_id(2), topology_link(2))] };
    assert(hook_ticks(environment) =~= seq![8u64, 10, 14]);
    assert(hook_views(environment) =~~= seq![(8u64, HookView::IntrinsicLimit { node: 2, connection_count_max: 1, hold_capacity_bytes_max: 256 }), (10u64, HookView::MobilityRelink { left: 1, from_right: 2, to_right: 3, link: plain_link(3) }), (14u64, HookView::MobilityRelink { left: 1, from_right: 3, to_right: 2, link: plain_link(2) })]);
    (scenario, environment)
}

/// A lossy line with a late-activated one-hop route and no disruption.
pub fn build_batman_classic_decay_window_pressure(parameters: &ExperimentParameterSet, seed: u64) -> (r: (JacquardScenario, ScriptedEnvironmentModel))
    ensures
        r.0.operating_mode == OperatingMode::DenseInteractive,
        swept_hosts(r.0.hosts@, parameters@),
        r.0.name@ == "batman-classic-decay-window-pressure-"@ + parameters.config_id@,
        r.0.seed == seed,
        r.0.round_limit == 50,
        r.0.initial_configuration.environment == (MediumEnvironment { reachable_neighbor_count: 2, churn_permille: 0, contention_permille: 40 }),
        objective_list(r.0.bound_objectives@) == seq![(1u8, DestinationView::Node(2), 12u32)],
        host_plan(r.0.hosts@) == seq![(1u8, EngineLane::BatmanClassic), (2u8, EngineLane::BatmanClassic), (3u8, EngineLane::BatmanClassic)],
        r.0.broker_nodes@.len() == 0,
        hook_ticks(r.1) == Seq::<u64>::empty(),
        links_follow(r.0.initial_configuration.links@, seq![(1u8, 2u8), (2, 3)], 100),
        hook_views(r.1) == Seq::<(u64, HookView)>::empty(),
{
    let mut topology = bidirectional_line_topology(topology_node(1, NodeEngines::BatmanClassic), topology_node(2, NodeEngines::BatmanClassic), topology_node(3, NodeEngines::BatmanClassic));
    let ghost built = topology.links@;
    set_environment(&mut topology, 2, 40, 100);
    proof {
        lemma_environment_links(built, topology.links@, seq![(1u8, 2u8), (2, 3)], 100);
    }
    let hosts = vec![HostSpec::new(node_id(1), EngineLane::BatmanClassic), HostSpec::new(node_id(2), EngineLane::BatmanClassic), HostSpec::new(node_id(3), EngineLane::BatmanClassic)];
    let ghost pre_hosts = hosts@;
    assert(host_plan(hosts@) =~= seq![(1u8, EngineLane::BatmanClassic), (2u8, EngineLane::BatmanClassic), (3u8, EngineLane::BatmanClassic)]);
    let objectives = vec![bound_objective(node_id(1), connected_objective(node_id(2)), 12)];
    assert(objective_list(objectives@) =~= seq![(1u8, DestinationView::Node(2), 12u32)]);
    let template = RouteVisibleScenarioTemplate { operating_mode: OperatingMode::DenseInteractive,
        scenario_name: crate::text::join2("batman-classic-decay-window-pressure-", parameters.config_id.as_str()),
        seed,
        topology,
        hosts,
        objectives,
        round_limit: 50,
    };
    let scenario = template.into_scenario(parameters);
    assert(host_plan(scenario.hosts@) =~= host_plan(pre_hosts));
    let environment = ScriptedEnvironmentModel { hooks: vec![] };
    assert(hook_ticks(environment) =~= Seq::<u64>::empty());
    assert(hook_views(environment) =~~= Seq::<(u64, HookView)>::empty());
    (scenario, environment)
}

/// A line whose first link is cut at round thirty and restored at round forty-five.
pub fn build_batman_classic_partition_recovery(parameters: &ExperimentParameterSet, seed: u64) -> (r: (JacquardScenario, ScriptedEnvironmentModel))
    ensures
        r.0.operating_mode == OperatingMode::DenseInteractive,
        swept_hosts(r.0.hosts@, parameters@),
        r.0.name@ == "batman-classic-partition-recovery-"@ + parameters.config_id@,
        r.0.seed == seed,
        r.0.round_limit == 60,
        r.0.initial_configuration.environment == (MediumEnvironment { reachable_neighbor_count: 2, churn_permille: 0, contention_permille: 40 }),
        objective_list(r.0.bound_objectives@) == seq![(1u8, DestinationView::Node(2), 12u32)],
        host_plan(r.0.hosts@) == seq![(1u8, EngineLane::BatmanClassic), (2u8, EngineLane::BatmanClassic), (3u8, EngineLane::BatmanClassic)],
        r.0.broker_nodes@.len() == 0,
        hook_ticks(r.1) == seq![30u64, 45],
        links_follow(r.0.initial_configuration.links@, seq![(1u8, 2u8), (2, 3)], 150),
        hook_views(r.1) == seq![(30u64, HookView::CascadePartition(seq![(1u8, 2u8), (2u8, 1u8)])), (45u64, HookView::ReplaceTopology(configuration_view(r.0.initial_configuration)))],
{
    let mut topology = bidirectional_line_topology(topology_node(1, NodeEngines::BatmanClassic), topology_node(2, NodeEngines::BatmanClassic), topology_node(3, NodeEngines::BatmanClassic));
    let ghost built = topology.links@;
    set_environment(&mut topology, 2, 40, 150);
    proof {
        lemma_environment_links(built, topology.links@, seq![(1u8, 2u8), (2, 3)], 150);
    }
    let restore = copy_configuration(&topology);
    let hosts = vec![HostSpec::new(node_id(1), EngineLane::BatmanClassic), HostSpec::new(node_id(2), EngineLane::BatmanClassic), HostSpec::new(node_id(3), EngineLane::BatmanClassic)];
    let ghost pre_hosts = hosts@;
    assert(host_plan(hosts@) =~= seq![(1u8, EngineLane::BatmanClassic), (2u8, EngineLane::BatmanClassic), (3u8, EngineLane::BatmanClassic)]);
    let objectives = vec![bound_objective(node_id(1), connected_objective(node_id(2)), 12)];
    assert(objective_list(objectives@) =~= seq![(1u8, DestinationView::Node(2), 12u32)]);
    let template = RouteVisibleScenarioTemplate { operating_mode: OperatingMode::DenseInteractive,
        scenario_name: crate::text::join2("batman-classic-partition-recovery-", parameters.config_id.as_str()),
        seed,
        topology,
        hosts,
        objectives,
        round_limit: 60,
    };
    let scenario = template.into_scenario(parameters);
    assert(host_plan(scenario.hosts@) =~= host_plan(pre_hosts));
    let cuts0: Vec<(NodeId, NodeId)> = vec![(node_id(1), node_id(2)), (node_id(2), node_id(1))];
    assert(cut_bytes(cuts0@) =~= seq![(1u8, 2u8), (2u8, 1u8)]);
    let environment = ScriptedEnvironmentModel { hooks: vec![cascade_partition_hook(30, cuts0), replace_topology_hook(45, copy_configuration(&restore))] };
    assert(hook_ticks(environment) =~= seq![30u64, 45]);
    assert(hook_views(environment) =~~= seq![(30u64, HookView::CascadePartition(seq![(1u8, 2u8), (2u8, 1u8)])), (45u64, HookView::ReplaceTopology(configuration_view(scenario.initial_configuration)))]);
    (scenario, environment)
}

/// A bridge that degrades asymmetrically, with node one relinking from two to three and back.
pub fn build_batman_classic_asymmetry_relink_transition(parameters: &ExperimentParameterSet, seed: u64) -> (r: (JacquardScenario, ScriptedEnvironmentModel))
    ensures
        r.0.operating_mode == OperatingMode::DenseInteractive,
        swept_hosts(r.0.hosts@, parameters@),
        r.0.name@ == "batman-classic-asymmetry-relink-transition-"@ + parameters.config_id@,
        r.0.seed == seed,
        r.0.round_limit == 24,
        r.0.initial_configuration.environment == (MediumEnvironment { reachable_neighbor_count: 1, churn_permille: 0, contention_permille: 120 }),
        objective_list(r.0.bound_objectives@) == seq![(1u8, DestinationView::Node(4), 2u32)],
        host_plan(r.0.hosts@) == seq![(1u8, EngineLane::BatmanClassic), (2u8, EngineLane::BatmanClassic), (3u8, EngineLane::BatmanClassic), (4u8, EngineLane::BatmanClassic)],
        r.0.broker_nodes@.len() == 0,
        hook_ticks(r.1) == seq![6u64, 10, 15],
        links_follow(r.0.initial_configuration.links@, seq![(1u8, 2u8), (2, 3), (3, 4)], 140),
        hook_views(r.1) == seq![(6u64, HookView::AsymmetricDegradation { left: 2, right: 3, forward_confidence: 560, forward_loss: 260, reverse_confidence: 740, reverse_loss: 140 }), (10u64, HookView::MobilityRelink { left: 1, from_right: 2, to_right: 3, link: plain_link(3) }), (15u64, HookView::MobilityRelink { left: 1, from_right: 3, to_right: 2, link: plain_link(2) })],
{
    let mut topology = bridge_cluster_topology(topology_node(1, NodeEngines::BatmanClassic), topology_node(2, NodeEngines::BatmanClassic), topology_node(3, NodeEngines::BatmanClassic), topology_node(4, NodeEngines::BatmanClassic));
    let ghost built = topology.links@;
    set_environment(&mut topology, 1, 120, 140);
    proof {
        lemma_environment_links(built, topology.links@, seq![(1u8, 2u8), (2, 3), (3, 4)], 140);
    }
    let hosts = vec![HostSpec::new(node_id(1), EngineLane::BatmanClassic), HostSpec::new(node_id(2), EngineLane::BatmanClassic), HostSpec::new(node_id(3), EngineLane::BatmanClassic), HostSpec::new(node_id(4), EngineLane::BatmanClassic)];
    let ghost pre_hosts = hosts@;
    assert(host_plan(hosts@) =~= seq![(1u8, EngineLane::BatmanClassic), (2u8, EngineLane::BatmanClassic), (3u8, EngineLane::BatmanClassic), (4u8, EngineLane::BatmanClassic)]);
    let objectives = vec![bound_objective(node_id(1), connected_objective(node_id(4)), 2)];
    assert(objective_list(objectives@) =~= seq![(1u8, DestinationView::Node(4), 2u32)]);
    let template = RouteVisibleScenarioTemplate { operating_mode: OperatingMode::DenseInteractive,
        scenario_name: crate::text::join2("batman-classic-asymmetry-relink-transition-", parameters.config_id.as_str()),
        seed,
        topology,
        hosts,
        objectives,
        round_limit: 24,
    };
    let scenario = template.into_scenario(parameters);
    assert(host_plan(scenario.hosts@) =~= host_plan(pre_hosts));
    let environment = ScriptedEnvironmentModel { hooks: vec![asymmetric_degradation_hook(6, node_id(2), node_id(3), 560, 260, 740, 140), mobility_relink_hook(10, node_id(1), node_id(2), node_id(3), topology_link(3)), mobility_relink_hook(15, node_id(1), node_id(3), node_id(2), topology_link(2))] };
    assert(hook_ticks(environment) =~= seq![6u64, 10, 15]);
    assert(hook_views(environment) =~~= seq![(6u64, HookView::AsymmetricDegradation { left: 2, right: 3, forward_confidence: 560, forward_loss: 260, reverse_confidence: 740, reverse_loss: 140 }), (10u64, HookView::MobilityRelink { left: 1, from_right: 2, to_right: 3, link: plain_link(3) }), (15u64, HookView::MobilityRelink { left: 1, from_right: 3, to_right: 2, link: plain_link(2) })]);
    (scenario, environment)
}

/// A line whose far link degrades at round eight, is cut at round twelve and restored at round twenty.
pub fn build_babel_decay_window_pressure(parameters: &ExperimentParameterSet, seed: u64) -> (r: (JacquardScenario, ScriptedEnvironmentModel))
    ensures
        r.0.operating_mode == OperatingMode::DenseInteractive,
        swept_hosts(r.0.hosts@, parameters@),
        r.0.name@ == "babel-decay-window-pressure-"@ + parameters.config_id@,
        r.0.seed == seed,
        r.0.round_limit == 26,
        r.0.initial_configuration.environment == (MediumEnvironment { reachable_neighbor_count: 2, churn_permille: 0, contention_permille: 40 }),
        objective_list(r.0.bound_objectives@) == seq![(1u8, DestinationView::Node(3), 2u32)],
        host_plan(r.0.hosts@) == seq![(1u8, EngineLane::Babel), (2u8, EngineLane::Babel), (3u8, EngineLane::Babel)],
        r.0.broker_nodes@.len() == 0,
        hook_ticks(r.1) == seq![8u64, 12, 20],
        links_follow(r.0.initial_configuration.links@, seq![(1u8, 2u8), (2, 3)], 100),
        hook_views(r.1) == seq![(8u64, HookView::MediumDegradation { left: 2, right: 3, confidence: 600, loss: 250 }), (12u64, HookView::CascadePartition(seq![(2u8, 3u8), (3u8, 2u8)])), (20u64, HookView::ReplaceTopology(configuration_view(r.0.initial_configuration)))],
{
    let mut topology = bidirectional_line_topology(topology_node(1, NodeEngines::Babel), topology_node(2, NodeEngines::Babel), topology_node(3, NodeEngines::Babel));
    let ghost built = topology.links@;
    set_environment(&mut topology, 2, 40, 100);
    proof {
        lemma_environment_links(built, topology.links@, seq![(1u8, 2u8), (2, 3)], 100);
    }
    let restore = copy_configuration(&topology);
    let hosts = vec![HostSpec::new(node_id(1), EngineLane::Babel), HostSpec::new(node_id(2), EngineLane::Babel), HostSpec::new(node_id(3), EngineLane::Babel)];
    let ghost pre_hosts = hosts@;
    assert(host_plan(hosts@) =~= seq![(1u8, EngineLane::Babel), (2u8, EngineLane::Babel), (3u8, EngineLane::Babel)]);
    let objectives = vec![bound_objective(node_id(1), connected_objective(node_id(3)), 2)];
    assert(objective_list(objectives@) =~= seq![(1u8, DestinationView::Node(3), 2u32)]);
    let template = RouteVisibleScenarioTemplate { operating_mode: OperatingMode::DenseInteractive,
        scenario_name: crate::text::join2("babel-decay-window-pressure-", parameters.config_id.as_str()),
        seed,
        topology,
        hosts,
        objectives,
        round_limit: 26,
    };
    let scenario = template.into_scenario(parameters);
    assert(host_plan(scenario.hosts@) =~= host_plan(pre_hosts));
    let cuts0: Vec<(NodeId, NodeId)> = vec![(node_id(2), node_id(3)), (node_id(3), node_id(2))];
    assert(cut_bytes(cuts0@) =~= seq![(2u8, 3u8), (3u8, 2u8)]);
    let environment = ScriptedEnvironmentModel { hooks: vec![medium_degradation_hook(8, node_id(2), node_id(3), 600, 250), cascade_partition_hook(12, cuts0), replace_topology_hook(20, copy_configuration(&restore))] };
    assert(hook_ticks(environment) =~= seq![8u64, 12, 20]);
    assert(hook_views(environment) =~~= seq![(8u64, HookView::MediumDegradation { left: 2, right: 3, confidence: 600, loss: 250 }), (12u64, HookView::CascadePartition(seq![(2u8, 3u8), (3u8, 2u8)])), (20u64, HookView::ReplaceTopology(configuration_view(scenario.initial_configuration)))]);
    (scenario, environment)
}

/// A bridge that degrades asymmetrically at round six, is cut at round fourteen and restored at round twenty-two.
pub fn build_babel_asymmetry_cost_penalty(parameters: &ExperimentParameterSet, seed: u64) -> (r: (JacquardScenario, ScriptedEnvironmentModel))
    ensures
        r.0.operating_mode == OperatingMode::DenseInteractive,
        swept_hosts(r.0.hosts@, parameters@),
        r.0.name@ == "babel-asymmetry-cost-penalty-"@ + parameters.config_id@,
        r.0.seed == seed,
        r.0.round_limit == 30,
        r.0.initial_configuration.environment == (MediumEnvironment { reachable_neighbor_count: 1, churn_permille: 0, contention_permille: 200 }),
        objective_list(r.0.bound_objectives@) == seq![(1u8, DestinationView::Node(4), 2u32)],
        host_plan(r.0.hosts@) == seq![(1u8, EngineLane::Babel), (2u8, EngineLane::Babel), (3u8, EngineLane::Babel), (4u8, EngineLane::Babel)],
        r.0.broker_nodes@.len() == 0,
        hook_ticks(r.1) == seq![6u64, 14, 22],
        links_follow(r.0.initial_configuration.links@, seq![(1u8, 2u8), (2, 3), (3, 4)], 80),
        hook_views(r.1) == seq![(6u64, HookView::AsymmetricDegradation { left: 2, right: 3, forward_confidence: 520, forward_loss: 380, reverse_confidence: 760, reverse_loss: 180 }), (14u64, HookView::CascadePartition(seq![(2u8, 3u8), (3u8, 2u8)])), (22u64, HookView::ReplaceTopology(configuration_view(r.0.initial_configuration)))],
{
    let mut topology = bridge_cluster_topology(topology_node(1, NodeEngines::Babel), topology_node(2, NodeEngines::Babel), topology_node(3, NodeEngines::Babel), topology_node(4, NodeEngines::Babel));
    let ghost built = topology.links@;
    set_environment(&mut topology, 1, 200, 80);
    proof {
        lemma_environment_links(built, topology.links@, seq![(1u8, 2u8), (2, 3), (3, 4)], 80);
    }
    let restore = copy_configuration(&topology);
    let hosts = vec![HostSpec::new(node_id(1), EngineLane::Babel), HostSpec::new(node_id(2), EngineLane::Babel), HostSpec::new(node_id(3), EngineLane::Babel), HostSpec::new(node_id(4), EngineLane::Babel)];
    let ghost pre_hosts = hosts@;
    assert(host_plan(hosts@) =~= seq![(1u8, EngineLane::Babel), (2u8, EngineLane::Babel), (3u8, EngineLane::Babel), (4u8, EngineLane::Babel)]);
    let objectives = vec![bound_objective(node_id(1), connected_objective(node_id(4)), 2)];
    assert(objective_list(objectives@) =~= seq![(1u8, DestinationView::Node(4), 2u32)]);
    let template = RouteVisibleScenarioTemplate { operating_mode: OperatingMode::DenseInteractive,
        scenario_name: crate::text::join2("babel-asymmetry-cost-penalty-", parameters.config_id.as_str()),
        seed,
        topology,
        hosts,
        objectives,
        round_limit: 30,
    };
    let scenario = template.into_scenario(parameters);
    assert(host_plan(scenario.hosts@) =~= host_plan(pre_hosts));
    let cuts0: Vec<(NodeId, NodeId)> = vec![(node_id(2), node_id(3)), (node_id(3), node_id(2))];
    assert(cut_bytes(cuts0@) =~= seq![(2u8, 3u8), (3u8, 2u8)]);
    let environment = ScriptedEnvironmentModel { hooks: vec![asymmetric_degradation_hook(6, node_id(2), node_id(3), 520, 380, 760, 180), cascade_partition_hook(14, cuts0), replace_topology_hook(22, copy_configuration(&restore))] };
    assert(hook_ticks(environment) =~= seq![6u64, 14, 22]);
    assert(hook_views(environment) =~~= seq![(6u64, HookView::AsymmetricDegradation { left: 2, right: 3, forward_confidence: 520, forward_loss: 380, reverse_confidence: 760, reverse_loss: 180 }), (14u64, HookView::CascadePartition(seq![(2u8, 3u8), (3u8, 2u8)])), (22u64, HookView::ReplaceTopology(configuration_view(scenario.initial_configuration)))]);
    (scenario, environment)
}

/// A line whose far link is cut at round ten and restored at round eighteen.
pub fn build_babel_partition_feasibility_recovery(parameters: &ExperimentParameterSet, seed: u64) -> (r: (JacquardScenario, ScriptedEnvironmentModel))
    ensures
        r.0.operating_mode == OperatingMode::DenseInteractive,
        swept_hosts(r.0.hosts@, parameters@),
        r.0.name@ == "babel-partition-feasibility-recovery-"@ + parameters.config_id@,
        r.0.seed == seed,
        r.0.round_limit == 36,
        r.0.initial_configuration.environment == (MediumEnvironment { reachable_neighbor_count: 2, churn_permille: 0, contention_permille: 40 }),
        objective_list(r.0.bound_objectives@) == seq![(1u8, DestinationView::Node(3), 2u32)],
        host_plan(r.0.hosts@) == seq![(1u8, EngineLane::Babel), (2u8, EngineLane::Babel), (3u8, EngineLane::Babel)],
        r.0.broker_nodes@.len() == 0,
        hook_ticks(r.1) == seq![10u64, 18],
        links_follow(r.0.initial_configuration.links@, seq![(1u8, 2u8), (2, 3)], 150),
        hook_views(r.1) == seq![(10u64, HookView::CascadePartition(seq![(2u8, 3u8), (3u8, 2u8)])), (18u64, HookView::ReplaceTopology(configuration_view(r.0.initial_configuration)))],
{
    let mut topology = bidirectional_line_topology(topology_node(1, NodeEngines::Babel), topology_node(2, NodeEngines::Babel), topology_node(3, NodeEngines::Babel));
    let ghost built = topology.links@;
    set_environment(&mut topology, 2, 40, 150);
    proof {
        lemma_environment_links(built, topology.links@, seq![(1u8, 2u8), (2, 3)], 150);
    }
    let restore = copy_configuration(&topology);
    let hosts = vec![HostSpec::new(node_id(1), EngineLane::Babel), HostSpec::new(node_id(2), EngineLane::Babel), HostSpec::new(node_id(3), EngineLane::Babel)];
    let ghost pre_hosts = hosts@;
    assert(host_plan(hosts@) =~= seq![(1u8, EngineLane::Babel), (2u8, EngineLane::Babel), (3u8, EngineLane::Babel)]);
    let objectives = vec![bound_objective(node_id(1), connected_objective(node_id(3)), 2)];
    assert(objective_list(objectives@) =~= seq![(1u8, DestinationView::Node(3), 2u32)]);
    let template = RouteVisibleScenarioTemplate { operating_mode: OperatingMode::DenseInteractive,
        scenario_name: crate::text::join2("babel-partition-feasibility-recovery-", parameters.config_id.as_str()),
        seed,
        topology,
        hosts,
        objectives,
        round_limit: 36,
    };
    let scenario = template.into_scenario(parameters);
    assert(host_plan(scenario.hosts@) =~= host_plan(pre_hosts));
    let cuts0: Vec<(NodeId, NodeId)> = vec![(node_id(2), node_id(3)), (node_id(3), node_id(2))];
    assert(cut_bytes(cuts0@) =~= seq![(2u8, 3u8), (3u8, 2u8)]);
    let environment = ScriptedEnvironmentModel { hooks: vec![cascade_partition_hook(10, cuts0), replace_topology_hook(18, copy_configuration(&restore))] };
    assert(hook_ticks(environment) =~= seq![10u64, 18]);
    assert(hook_views(environment) =~~= seq![(10u64, HookView::CascadePartition(seq![(2u8, 3u8), (3u8, 2u8)])), (18u64, HookView::ReplaceTopology(configuration_view(scenario.initial_configuration)))]);
    (scenario, environment)
}

/// A line degraded link by link and restored after each, so topology changes must propagate.
pub fn build_olsrv2_topology_propagation_latency(parameters: &ExperimentParameterSet, seed: u64) -> (r: (JacquardScenario, ScriptedEnvironmentModel))
    ensures
        r.0.operating_mode == OperatingMode::DenseInteractive,
        swept_hosts(r.0.hosts@, parameters@),
        r.0.name@ == "olsrv2-topology-propagation-latency-"@ + parameters.config_id@,
        r.0.seed == seed,
        r.0.round_limit == 24,
        r.0.initial_configuration.environment == (MediumEnvironment { reachable_neighbor_count: 2, churn_permille: 0, contention_permille: 40 }),
        objective_list(r.0.bound_objectives@) == seq![(1u8, DestinationView::Node(3), 2u32)],
        host_plan(r.0.hosts@) == seq![(1u8, EngineLane::OlsrV2), (2u8, EngineLane::OlsrV2), (3u8, EngineLane::OlsrV2)],
        r.0.broker_nodes@.len() == 0,
        hook_ticks(r.1) == seq![6u64, 10, 14, 18],
        links_follow(r.0.initial_configuration.links@, seq![(1u8, 2u8), (2, 3)], 90),
        hook_views(r.1) == seq![(6u64, HookView::MediumDegradation { left: 1, right: 2, confidence: 640, loss: 200 }), (10u64, HookView::ReplaceTopology(configuration_view(r.0.initial_configuration))), (14u64, HookView::MediumDegradation { left: 2, right: 3, confidence: 600, loss: 240 }), (18u64, HookView::ReplaceTopology(configuration_view(r.0.initial_configuration)))],
{
    let mut topology = bidirectional_line_topology(topology_node(1, NodeEngines::OlsrV2), topology_node(2, NodeEngines::OlsrV2), topology_node(3, NodeEngines::OlsrV2));
    let ghost built = topology.links@;
    set_environment(&mut topology, 2, 40, 90);
    proof {
        lemma_environment_links(built, topology.links@, seq![(1u8, 2u8), (2, 3)], 90);
    }
    let restore = copy_configuration(&topology);
    let hosts = vec![HostSpec::new(node_id(1), EngineLane::OlsrV2), HostSpec::new(node_id(2), EngineLane::OlsrV2), HostSpec::new(node_id(3), EngineLane::OlsrV2)];
    let ghost pre_hosts = hosts@;
    assert(host_plan(hosts@) =~= seq![(1u8, EngineLane::OlsrV2), (2u8, EngineLane::OlsrV2), (3u8, EngineLane::OlsrV2)]);
    let objectives = vec![bound_objective(node_id(1), connected_objective(node_id(3)), 2)];
    assert(objective_list(objectives@) =~= seq![(1u8, DestinationView::Node(3), 2u32)]);
    let template = RouteVisibleScenarioTemplate { operating_mode: OperatingMode::DenseInteractive,
        scenario_name: crate::text::join2("olsrv2-topology-propagation-latency-", parameters.config_id.as_str()),
        seed,
        topology,
        hosts,
        objectives,
        round_limit: 24,
    };
    let scenario = template.into_scenario(parameters);
    assert(host_plan(scenario.hosts@) =~= host_plan(pre_hosts));
    let environment = ScriptedEnvironmentModel { hooks: vec![medium_degradation_hook(6, node_id(1), node_id(2), 640, 200), replace_topology_hook(10, copy_configuration(&restore)), medium_degradation_hook(14, node_id(2), node_id(3), 600, 240), replace_topology_hook(18, copy_configuration(&restore))] };
    assert(hook_ticks(environment) =~= seq![6u64, 10, 14, 18]);
    assert(hook_views(environment) =~~= seq![(6u64, HookView::MediumDegradation { left: 1, right: 2, confidence: 640, loss: 200 }), (10u64, HookView::ReplaceTopology(configuration_view(scenario.initial_configuration))), (14u64, HookView::MediumDegradation { left: 2, right: 3, confidence: 600, loss: 240 }), (18u64, HookView::ReplaceTopology(configuration_view(scenario.initial_configuration)))]);
    (scenario, environment)
}

/// A line whose far link is cut at round ten and restored at round eighteen.
pub fn build_olsrv2_partition_recovery(parameters: &ExperimentParameterSet, seed: u64) -> (r: (JacquardScenario, ScriptedEnvironmentModel))
    ensures
        r.0.operating_mode == OperatingMode::DenseInteractive,
        swept_hosts(r.0.hosts@, parameters@),
        r.0.name@ == "olsrv2-partition-recovery-"@ + parameters.config_id@,
        r.0.seed == seed,
        r.0.round_limit == 34,
        r.0.initial_configuration.environment == (MediumEnvironment { reachable_neighbor_count: 2, churn_permille: 0, contention_permille: 40 }),
        objective_list(r.0.bound_objectives@) == seq![(1u8, DestinationView::Node(3), 2u32)],
        host_plan(r.0.hosts@) == seq![(1u8, EngineLane::OlsrV2), (2u8, EngineLane::OlsrV2), (3u8, EngineLane::OlsrV2)],
        r.0.broker_nodes@.len() == 0,
        hook_ticks(r.1) == seq![10u64, 18],
        links_follow(r.0.initial_configuration.links@, seq![(1u8, 2u8), (2, 3)], 120),
        hook_views(r.1) == seq![(10u64, HookView::CascadePartition(seq![(2u8, 3u8), (3u8, 2u8)])), (18u64, HookView::ReplaceTopology(configuration_view(r.0.initial_configuration)))],
{
    let mut topology = bidirectional_line_topology(topology_node(1, NodeEngines::OlsrV2), topology_node(2, NodeEngines::OlsrV2), topology_node(3, NodeEngines::OlsrV2));
    let ghost built = topology.links@;
    set_environment(&mut topology, 2, 40, 120);
    proof {
        lemma_environment_links(built, topology.links@, seq![(1u8, 2u8), (2, 3)], 120);
    }
    let restore = copy_configuration(&topology);
    let hosts = vec![HostSpec::new(node_id(1), EngineLane::OlsrV2), HostSpec::new(node_id(2), EngineLane::OlsrV2), HostSpec::new(node_id(3), EngineLane::OlsrV2)];
    let ghost pre_hosts = hosts@;
    assert(host_plan(hosts@) =~= seq![(1u8, EngineLane::OlsrV2), (2u8, EngineLane::OlsrV2), (3u8, EngineLane::OlsrV2)]);
    let objectives = vec![bound_objective(node_id(1), connected_objective(node_id(3)), 2)];
    assert(objective_list(objectives@) =~= seq![(1u8, DestinationView::Node(3), 2u32)]);
    let template = RouteVisibleScenarioTemplate { operating_mode: OperatingMode::DenseInteractive,
        scenario_name: crate::text::join2("olsrv2-partition-recovery-", parameters.config_id.as_str()),
        seed,
        topology,
        hosts,
        objectives,
        round_limit: 34,
    };
    let scenario = template.into_scenario(parameters);
    assert(host_plan(scenario.hosts@) =~= host_plan(pre_hosts));
    let cuts0: Vec<(NodeId, NodeId)> = vec![(node_id(2), node_id(3)), (node_id(3), node_id(2))];
    assert(cut_bytes(cuts0@) =~= seq![(2u8, 3u8), (3u8, 2u8)]);
    let environment = ScriptedEnvironmentModel { hooks: vec![cascade_partition_hook(10, cuts0), replace_topology_hook(18, copy_configuration(&restore))] };
    assert(hook_ticks(environment) =~= seq![10u64, 18]);
    assert(hook_views(environment) =~~= seq![(10u64, HookView::CascadePartition(seq![(2u8, 3u8), (3u8, 2u8)])), (18u64, HookView::ReplaceTopology(configuration_view(scenario.initial_configuration)))]);
    (scenario, environment)
}

/// A ring that degrades at round seven, relinks node one at round twelve and is restored at round eighteen.
pub fn build_olsrv2_mpr_flooding_stability(parameters: &ExperimentParameterSet, seed: u64) -> (r: (JacquardScenario, ScriptedEnvironmentModel))
    ensures
        r.0.operating_mode == OperatingMode::DenseInteractive,
        swept_hosts(r.0.hosts@, parameters@),
        r.0.name@ == "olsrv2-mpr-flooding-stability-"@ + parameters.config_id@,
        r.0.seed == seed,
        r.0.round_limit == 26,
        r.0.initial_configuration.environment == (MediumEnvironment { reachable_neighbor_count: 2, churn_permille: 0, contention_permille: 150 }),
        objective_list(r.0.bound_objectives@) == seq![(1u8, DestinationView::Node(3), 2u32)],
        host_plan(r.0.hosts@) == seq![(1u8, EngineLane::OlsrV2), (2u8, EngineLane::OlsrV2), (3u8, EngineLane::OlsrV2), (4u8, EngineLane::OlsrV2)],
        r.0.broker_nodes@.len() == 0,
        hook_ticks(r.1) == seq![7u64, 12, 18],
        links_follow(r.0.initial_configuration.links@, seq![(1u8, 2u8), (2, 3), (3, 4), (4, 1)], 110),
        hook_views(r.1) == seq![(7u64, HookView::MediumDegradation { left: 2, right: 3, confidence: 630, loss: 190 }), (12u64, HookView::MobilityRelink { left: 1, from_right: 2, to_right: 4, link: plain_link(4) }), (18u64, HookView::ReplaceTopology(configuration_view(r.0.initial_configuration)))],
{
    let mut topology = ring_topology(topology_node(1, NodeEngines::OlsrV2), topology_node(2, NodeEngines::OlsrV2), topology_node(3, NodeEngines::OlsrV2), topology_node(4, NodeEngines::OlsrV2));
    let ghost built = topology.links@;
    set_environment(&mut topology, 2, 150, 110);
    proof {
        lemma_environment_links(built, topology.links@, seq![(1u8, 2u8), (2, 3), (3, 4), (4, 1)], 110);
    }
    let restore = copy_configuration(&topology);
    let hosts = vec![HostSpec::new(node_id(1), EngineLane::OlsrV2), HostSpec::new(node_id(2), EngineLane::OlsrV2), HostSpec::new(node_id(3), EngineLane::OlsrV2), HostSpec::new(node_id(4), EngineLane::OlsrV2)];
    let ghost pre_hosts = hosts@;
    assert(host_plan(hosts@) =~= seq![(1u8, EngineLane::OlsrV2), (2u8, EngineLane::OlsrV2), (3u8, EngineLane::OlsrV2), (4u8, EngineLane::OlsrV2)]);
    let objectives = vec![bound_objective(node_id(1), connected_objective(node_id(3)), 2)];
    assert(objective_list(objectives@) =~= seq![(1u8, DestinationView::Node(3), 2u32)]);
    let template = RouteVisibleScenarioTemplate { operating_mode: OperatingMode::DenseInteractive,
        scenario_name: crate::text::join2("olsrv2-mpr-flooding-stability-", parameters.config_id.as_str()),
        seed,
        topology,
        hosts,
        objectives,
        round_limit: 26,
    };
    let scenario = template.into_scenario(parameters);
    assert(host_plan(scenario.hosts@) =~= host_plan(pre_hosts));
    let environment = ScriptedEnvironmentModel { hooks: vec![medium_degradation_hook(7, node_id(2), node_id(3), 630, 190), mobility_relink_hook(12, node_id(1), node_id(2), node_id(4), topology_link(4)), replace_topology_hook(18, copy_configuration(&restore))] };
    assert(hook_ticks(environment) =~= seq![7u64, 12, 18]);
    assert(hook_views(environment) =~~= seq![(7u64, HookView::MediumDegradation { left: 2, right: 3, confidence: 630, loss: 190 }), (12u64, HookView::MobilityRelink { left: 1, from_right: 2, to_right: 4, link: plain_link(4) }), (18u64, HookView::ReplaceTopology(configuration_view(scenario.initial_configuration)))]);
    (scenario, environment)
}

/// A bridge that degrades asymmetrically at round six, is cut at round ten and restored at round sixteen.
pub fn build_olsrv2_asymmetric_relink_transition(parameters: &ExperimentParameterSet, seed: u64) -> (r: (JacquardScenario, ScriptedEnvironmentModel))
    ensures
        r.0.operating_mode == OperatingMode::DenseInteractive,
        swept_hosts(r.0.hosts@, parameters@),
        r.0.name@ == "olsrv2-asymmetric-relink-transition-"@ + parameters.config_id@,
        r.0.seed == seed,
        r.0.round_limit == 24,
        r.0.initial_configuration.environment == (MediumEnvironment { reachable_neighbor_count: 1, churn_permille: 0, contention_permille: 120 }),
        objective_list(r.0.bound_objectives@) == seq![(1u8, DestinationView::Node(4), 2u32)],
        host_plan(r.0.hosts@) == seq![(1u8, EngineLane::OlsrV2), (2u8, EngineLane::OlsrV2), (3u8, EngineLane::OlsrV2), (4u8, EngineLane::OlsrV2)],
        r.0.broker_nodes@.len() == 0,
        hook_ticks(r.1) == seq![6u64, 10, 16],
        links_follow(r.0.initial_configuration.links@, seq![(1u8, 2u8), (2, 3), (3, 4)], 130),
        hook_views(r.1) == seq![(6u64, HookView::AsymmetricDegradation { left: 2, right: 3, forward_confidence: 540, forward_loss: 320, reverse_confidence: 760, reverse_loss: 160 }), (10u64, HookView::CascadePartition(seq![(2u8, 3u8), (3u8, 2u8)])), (16u64, HookView::ReplaceTopology(configuration_view(r.0.initial_configuration)))],
{
    let mut topology = bridge_cluster_topology(topology_node(1, NodeEngines::OlsrV2), topology_node(2, NodeEngines::OlsrV2), topology_node(3, NodeEngines::OlsrV2), topology_node(4, NodeEngines::OlsrV2));
    let ghost built = topology.links@;
    set_environment(&mut topology, 1, 120, 130);
    proof {
        lemma_environment_links(built, topology.links@, seq![(1u8, 2u8), (2, 3), (3, 4)], 130);
    }
    let restore = copy_configuration(&topology);
    let hosts = vec![HostSpec::new(node_id(1), EngineLane::OlsrV2), HostSpec::new(node_id(2), EngineLane::OlsrV2), HostSpec::new(node_id(3), EngineLane::OlsrV2), HostSpec::new(node_id(4), EngineLane::OlsrV2)];
    let ghost pre_hosts = hosts@;
    assert(host_plan(hosts@) =~= seq![(1u8, EngineLane::OlsrV2), (2u8, EngineLane::OlsrV2), (3u8, EngineLane::OlsrV2), (4u8, EngineLane::OlsrV2)]);
    let objectives = vec![bound_objective(node_id(1), connected_objective(node_id(4)), 2)];
    assert(objective_list(objectives@) =~= seq![(1u8, DestinationView::Node(4), 2u32)]);
    let template = RouteVisibleScenarioTemplate { operating_mode: OperatingMode::DenseInteractive,
        scenario_name: crate::text::join2("olsrv2-asymmetric-relink-transition-", parameters.config_id.as_str()),
        seed,
        topology,
        hosts,
        objectives,
        round_limit: 24,
    };
    let scenario = template.into_scenario(parameters);
    assert(host_plan(scenario.hosts@) =~= host_plan(pre_hosts));
    let cuts0: Vec<(NodeId, NodeId)> = vec![(node_id(2), node_id(3)), (node_id(3), node_id(2))];
    assert(cut_bytes(cuts0@) =~= seq![(2u8, 3u8), (3u8, 2u8)]);
    let environment = ScriptedEnvironmentModel { hooks: vec![asymmetric_degradation_hook(6, node_id(2), node_id(3), 540, 320, 760, 160), cascade_partition_hook(10, cuts0), replace_topology_hook(16, copy_configuration(&restore))] };
    assert(hook_ticks(environment) =~= seq![6u64, 10, 16]);
    assert(hook_views(environment) =~~= seq![(6u64, HookView::AsymmetricDegradation { left: 2, right: 3, forward_confidence: 540, forward_loss: 320, reverse_confidence: 760, reverse_loss: 160 }), (10u64, HookView::CascadePartition(seq![(2u8, 3u8), (3u8, 2u8)])), (16u64, HookView::ReplaceTopology(configuration_view(scenario.initial_configuration)))]);
    (scenario, environment)
}

} // verus!
