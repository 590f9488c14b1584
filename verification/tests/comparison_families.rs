use jacquard_simulator::comparison_families::{
    build_comparison_bridge_transition, build_comparison_concurrent_mixed, build_comparison_connected_high_loss,
    build_comparison_connected_low_loss, build_comparison_partial_observability_bridge,
    build_comparison_pathway_budget_boundary, build_scatter_conservative_constrained_threshold,
    build_scatter_low_rate_transfer_threshold, build_scatter_stability_window_threshold, default_objective,
};
use jacquard_simulator::external::EngineLane;
use jacquard_simulator::params::{ComparisonEngineSet, ExperimentParameterSet, PathwaySearchHeuristicMode};
use jacquard_simulator::replay::{same_destination, DestinationId};
use jacquard_simulator::scenario::{EnvironmentHook, RoutePartitionClass, RouteRepairClass};
use jacquard_simulator::topology::node_id;

fn mixed() -> ExperimentParameterSet {
    ExperimentParameterSet::comparison(4, 2, 4, PathwaySearchHeuristicMode::HopLowerBound)
}

fn field() -> ExperimentParameterSet {
    ExperimentParameterSet::head_to_head_field_low_churn()
}

fn hook_ticks(environment: &jacquard_simulator::scenario::ScriptedEnvironmentModel) -> Vec<u64> {
    environment.hooks.iter().map(|hook| hook.at_tick).collect()
}

#[test]
fn connected_low_loss_runs_a_quiet_ring() {
    let parameters = ExperimentParameterSet::head_to_head(ComparisonEngineSet::Babel, None, None, None);
    let (scenario, environment) = build_comparison_connected_low_loss(&parameters, 41);
    assert_eq!(scenario.name, format!("comparison-connected-low-loss-{}", parameters.config_id));
    assert_eq!(scenario.round_limit, 18);
    assert_eq!(scenario.initial_configuration.links.len(), 8);
    assert_eq!(scenario.initial_configuration.environment.reachable_neighbor_count, 2);
    assert_eq!(scenario.initial_configuration.environment.contention_permille, 30);
    assert!(scenario.initial_configuration.links.iter().all(|entry| entry.link.loss_permille == 20));
    assert!(scenario.hosts.iter().all(|host| host.lane == EngineLane::Babel));
    assert!(scenario.hosts[0].overrides.routing_profile.is_some());
    assert!(environment.hooks.is_empty());
}

#[test]
fn connected_high_loss_mixed_and_seeded_variants() {
    let (mixed_scenario, mixed_environment) = build_comparison_connected_high_loss(&mixed(), 41);
    assert_eq!(mixed_scenario.hosts.len(), 9);
    assert_eq!(mixed_scenario.bound_objectives[0].owner_node_id, node_id(10));
    assert_eq!(mixed_scenario.broker_nodes, vec![node_id(13), node_id(14), node_id(18), node_id(19)]);
    assert_eq!(hook_ticks(&mixed_environment), vec![7, 12]);
    assert!(matches!(mixed_environment.hooks[1].hook, EnvironmentHook::MobilityRelink { .. }));

    let (field_scenario, field_environment) = build_comparison_connected_high_loss(&field(), 41);
    assert_eq!(field_scenario.hosts.len(), 4);
    assert!(field_scenario.hosts.iter().all(|host| host.lane == EngineLane::Field));
    assert_eq!(field_scenario.hosts[0].overrides.field_bootstrap_summaries.len(), 2);
    assert!(same_destination(
        &field_scenario.hosts[0].overrides.field_bootstrap_summaries[0].destination,
        &DestinationId::Node(node_id(4))
    ));
    assert_eq!(field_scenario.broker_nodes, vec![node_id(4), node_id(5), node_id(9), node_id(10)]);
    assert_eq!(hook_ticks(&field_environment), vec![7, 12]);

    let babel = ExperimentParameterSet::head_to_head(ComparisonEngineSet::Babel, None, None, None);
    let (babel_scenario, _) = build_comparison_connected_high_loss(&babel, 41);
    assert!(babel_scenario.hosts[0].overrides.field_bootstrap_summaries.is_empty());
}

#[test]
fn bridge_transition_restores_the_initial_bridge() {
    let (scenario, environment) = build_comparison_bridge_transition(&field(), 7);
    assert_eq!(scenario.round_limit, 24);
    assert_eq!(hook_ticks(&environment), vec![7, 11, 16]);
    match &environment.hooks[2].hook {
        EnvironmentHook::ReplaceTopology { configuration } => {
            assert_eq!(configuration.links, scenario.initial_configuration.links);
        },
        other => panic!("unexpected hook {other:?}"),
    }
    assert!(matches!(&environment.hooks[1].hook, EnvironmentHook::CascadePartition { cuts } if cuts.len() == 2));
}

#[test]
fn partial_observability_bridge_seeds_every_comparison_owner() {
    let babel = ExperimentParameterSet::head_to_head(ComparisonEngineSet::Babel, None, None, None);
    let (scenario, environment) = build_comparison_partial_observability_bridge(&babel, 41);
    assert_eq!(scenario.hosts[0].overrides.field_bootstrap_summaries.len(), 2);
    assert_eq!(scenario.broker_nodes, vec![node_id(4), node_id(5)]);
    assert_eq!(scenario.bound_objectives[0].activate_at_round, 3);
    assert_eq!(
        scenario.bound_objectives[0].objective.target_connectivity.partition,
        RoutePartitionClass::PartitionTolerant
    );
    assert_eq!(hook_ticks(&environment), vec![8, 16]);
    let (mixed_scenario, _) = build_comparison_partial_observability_bridge(&mixed(), 41);
    assert_eq!(mixed_scenario.bound_objectives.len(), 2);
    assert_eq!(mixed_scenario.broker_nodes, vec![node_id(12), node_id(13)]);
}

#[test]
fn default_objective_is_repairable_and_partition_tolerant() {
    let objective = default_objective(node_id(7));
    assert!(same_destination(&objective.destination, &DestinationId::Node(node_id(7))));
    assert_eq!(objective.target_connectivity.repair, RouteRepairClass::Repairable);
    assert_eq!(objective.latency_budget_ms, 250);
}

#[test]
fn concurrent_mixed_pairs_a_connected_and_a_service_flow() {
    let (mixed_scenario, environment) = build_comparison_concurrent_mixed(&mixed(), 41);
    assert_eq!(mixed_scenario.hosts.len(), 5);
    assert_eq!(mixed_scenario.hosts[1].lane, EngineLane::Pathway);
    assert_eq!(mixed_scenario.initial_configuration.links.len(), 4);
    assert_eq!(hook_ticks(&environment), vec![9, 12]);
    let (field_scenario, _) = build_comparison_concurrent_mixed(&field(), 41);
    assert_eq!(field_scenario.hosts.len(), 4);
    assert_eq!(field_scenario.initial_configuration.links.len(), 12);
    assert_eq!(field_scenario.hosts[1].overrides.field_bootstrap_summaries.len(), 2);
    assert!(field_scenario.hosts[0].overrides.field_bootstrap_summaries.is_empty());
}

#[test]
fn pathway_budget_boundary_offers_only_the_service_branch() {
    let (scenario, environment) = build_comparison_pathway_budget_boundary(&mixed(), 3);
    assert_eq!(scenario.round_limit, 10);
    assert_eq!(scenario.initial_configuration.links.len(), 2);
    assert!(scenario.hosts.iter().all(|host| host.lane == EngineLane::Pathway));
    assert!(environment.hooks.is_empty());
}

#[test]
fn scatter_thresholds_shape_links_and_node_state() {
    let scatter = ExperimentParameterSet::scatter("balanced");
    let (low_rate, _) = build_scatter_low_rate_transfer_threshold(&scatter, 41);
    assert_eq!(low_rate.name, "scatter-low-rate-transfer-threshold-scatter-balanced");
    assert!(low_rate
        .initial_configuration
        .links
        .iter()
        .all(|entry| entry.link.transfer_rate_bytes_per_sec == Some(80) && entry.link.stability_horizon_ms == Some(2_500)));
    assert_eq!(low_rate.initial_configuration.nodes[0].relay_utilization_permille, Some(760));
    assert_eq!(low_rate.initial_configuration.nodes[3].hold_capacity_available_bytes, Some(4_096));
    let (stability, _) = build_scatter_stability_window_threshold(&scatter, 41);
    assert!(stability.initial_configuration.links.iter().all(|entry| entry.link.stability_horizon_ms == Some(300)));
    let (constrained, _) = build_scatter_conservative_constrained_threshold(&scatter, 41);
    assert_eq!(constrained.hosts.len(), 6);
    assert_eq!(constrained.initial_configuration.nodes[4].relay_utilization_permille, Some(448));
    assert_eq!(constrained.initial_configuration.nodes[5].hold_capacity_available_bytes, None);
    assert!(constrained.hosts.iter().all(|host| host.lane == EngineLane::Scatter));
}
