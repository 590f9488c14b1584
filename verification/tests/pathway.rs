use jacquard_simulator::external::EngineLane;
use jacquard_simulator::params::{ExperimentParameterSet, PathwaySearchHeuristicMode};
use jacquard_simulator::pathway::{
    build_pathway_bridge_failure_service, build_pathway_churn_replacement, build_pathway_high_fanout_budget_pressure,
    build_pathway_search_budget_pressure, build_pathway_sparse_service_fanout, full_mesh_topology,
};
use jacquard_simulator::replay::{same_destination, DestinationId};
use jacquard_simulator::scenario::EnvironmentHook;
use jacquard_simulator::topology::{configuration_path_exists, node_id, topology_node, NodeEngines};

#[test]
fn pathway_families_bind_one_objective_on_pathway_hosts() {
    let parameters = ExperimentParameterSet::pathway(4, PathwaySearchHeuristicMode::HopLowerBound);
    let (scenario, environment) = build_pathway_sparse_service_fanout(&parameters, 41);
    assert_eq!(scenario.name, "pathway-sparse-service-fanout-pathway-4-hop-lower-bound");
    assert_eq!(scenario.round_limit, 18);
    assert_eq!(scenario.hosts.len(), 4);
    assert!(scenario.hosts.iter().all(|host| host.lane == EngineLane::Pathway));
    assert!(scenario.hosts[0].overrides.routing_profile.is_some());
    let search = scenario.hosts[1].overrides.pathway_search_config.expect("search override applied");
    assert_eq!(search.per_objective_query_budget, 4);
    assert!(environment.hooks.is_empty());
    let objective = &scenario.bound_objectives[0];
    assert_eq!(objective.activate_at_round, 2);
    assert!(same_destination(&objective.objective.destination, &DestinationId::Service(vec![9; 16])));
    assert_eq!(scenario.initial_configuration.environment.contention_permille, 0);
    assert!(scenario.initial_configuration.links.iter().all(|entry| entry.link.loss_permille == 20));
    assert!(scenario.initial_configuration.links.iter().all(|entry| entry.link.delivery_confidence_permille == Some(940)));
}

#[test]
fn pathway_families_schedule_their_hooks() {
    let parameters = ExperimentParameterSet::pathway(2, PathwaySearchHeuristicMode::Zero);
    let (_, pressure) = build_pathway_search_budget_pressure(&parameters, 41);
    assert_eq!(pressure.hooks.iter().map(|h| h.at_tick).collect::<Vec<_>>(), vec![4]);
    let (_, fanout) = build_pathway_high_fanout_budget_pressure(&parameters, 41);
    assert_eq!(fanout.hooks.iter().map(|h| h.at_tick).collect::<Vec<_>>(), vec![4, 5, 6]);
    let (churn, relink) = build_pathway_churn_replacement(&parameters, 41);
    assert_eq!(churn.round_limit, 22);
    assert!(matches!(relink.hooks[1].hook, EnvironmentHook::MobilityRelink { .. }));
    let (bridge, recovery) = build_pathway_bridge_failure_service(&parameters, 41);
    assert_eq!(recovery.hooks.iter().map(|h| h.at_tick).collect::<Vec<_>>(), vec![8, 9, 10, 16]);
    match &recovery.hooks[3].hook {
        EnvironmentHook::ReplaceTopology { configuration } => {
            assert_eq!(configuration.links.len(), bridge.initial_configuration.links.len());
        },
        other => panic!("unexpected hook {other:?}"),
    }
}

#[test]
fn full_mesh_links_every_pair_both_ways() {
    let mesh = full_mesh_topology(
        topology_node(1, NodeEngines::Pathway),
        topology_node(2, NodeEngines::Pathway),
        topology_node(3, NodeEngines::Pathway),
        topology_node(4, NodeEngines::Pathway),
    );
    assert_eq!(mesh.links.len(), 12);
    assert!(configuration_path_exists(&mesh, node_id(4), node_id(1)));
}
