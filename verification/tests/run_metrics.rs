use jacquard_simulator::replay::{EnvironmentHookCounts, FailureClassCounts,
    ActiveRouteSummary, DestinationId, ReachabilityState, ReducedReplayView, ReducedRound, RoutingEngineId,
};
use jacquard_simulator::run_metrics::{
    add_broker_usage, broker_figures, concurrent_route_round_count, no_route_round_count, objective_figures,
    round_has_usable_route, scatter_runtime_counts, stale_persistence_round, usable_route_timing, ObjectiveMeasures,
};
use jacquard_simulator::scenario::{bound_objective, connected_objective};
use jacquard_simulator::topology::{
    node_id, topology_link, topology_node, Configuration, DirectedLink, MediumEnvironment, NodeEngines,
};

fn route(owner: u8, destination: u8, engine_id: RoutingEngineId) -> ActiveRouteSummary {
    ActiveRouteSummary {
        owner_node_id: node_id(owner),
        destination: DestinationId::Node(node_id(destination)),
        engine_id,
        next_hop_node_id: Some(node_id(destination)),
        hop_count_hint: Some(1),
        reachability_state: ReachabilityState::Reachable,
        stability_score: 900,
        scatter_current_regime: None,
        scatter_last_action: None,
        scatter_retained_message_count: None,
        scatter_delivered_message_count: None,
    }
}

fn scatter_route(regime: &str, action: &str, retained: u32, delivered: u32) -> ActiveRouteSummary {
    ActiveRouteSummary {
        scatter_current_regime: Some(regime.to_string()),
        scatter_last_action: Some(action.to_string()),
        scatter_retained_message_count: Some(retained),
        scatter_delivered_message_count: Some(delivered),
        ..route(1, 2, RoutingEngineId::Scatter)
    }
}

fn replay(rounds: Vec<Vec<ActiveRouteSummary>>) -> ReducedReplayView {
    let round_count = rounds.len() as u32;
    ReducedReplayView {
        scenario_name: "run-metrics".to_string(),
        round_count,
        rounds: rounds
            .into_iter()
            .enumerate()
            .map(|(index, active_routes)| ReducedRound { round_index: index as u32, active_routes })
            .collect(),
        distinct_engine_ids: vec![RoutingEngineId::Scatter],
        driver_status_event_count: 0,
        failure_summary_count: 0,
        route_observations: Vec::new(),
        environment_change_rounds: Vec::new(),
        objective_replays: Vec::new(),
        field_replays: Vec::new(),
        hook_counts: EnvironmentHookCounts::default(),
        failure_counts: FailureClassCounts::default(),
        maintenance_failure_count: 0,
    }
}

#[test]
fn scatter_runtime_counts_track_regimes_actions_and_peaks() {
    let reduced = replay(vec![
        vec![scatter_route("Sparse", "Replicate", 3, 1)],
        vec![scatter_route("Dense", "KeepCarrying", 5, 2)],
        vec![scatter_route("Bridging", "PreferentialHandoff", 4, 6)],
        vec![scatter_route("Constrained", "Replicate", 2, 4)],
    ]);
    let counts = scatter_runtime_counts(&reduced);
    assert_eq!(counts.sparse_rounds, 1);
    assert_eq!(counts.dense_rounds, 1);
    assert_eq!(counts.bridging_rounds, 1);
    assert_eq!(counts.constrained_rounds, 1);
    assert_eq!(counts.replicate_rounds, 2);
    assert_eq!(counts.handoff_rounds, 1);
    assert_eq!(counts.retained_message_peak, Some(5));
    assert_eq!(counts.delivered_message_peak, Some(6));
}

#[test]
fn scatter_runtime_counts_ignore_other_engines() {
    let mut pathway = scatter_route("Sparse", "Replicate", 9, 9);
    pathway.engine_id = RoutingEngineId::Pathway;
    let reduced = replay(vec![vec![pathway.clone()], vec![pathway, scatter_route("Dense", "Replicate", 1, 0)]]);
    let counts = scatter_runtime_counts(&reduced);
    assert_eq!(counts.sparse_rounds, 0);
    assert_eq!(counts.dense_rounds, 1);
    assert_eq!(counts.replicate_rounds, 1);
    assert_eq!(counts.retained_message_peak, Some(1));
    assert_eq!(counts.delivered_message_peak, Some(0));
    let empty = scatter_runtime_counts(&replay(vec![vec![]]));
    assert_eq!(empty.retained_message_peak, None);
}

#[test]
fn concurrent_and_routeless_rounds_are_counted_per_round() {
    let objectives = vec![
        bound_objective(node_id(1), connected_objective(node_id(2)), 0),
        bound_objective(node_id(3), connected_objective(node_id(4)), 0),
    ];
    let reduced = replay(vec![
        vec![],
        vec![route(1, 2, RoutingEngineId::Pathway)],
        vec![route(1, 2, RoutingEngineId::Pathway), route(3, 4, RoutingEngineId::Babel)],
        vec![route(3, 4, RoutingEngineId::Babel), route(1, 2, RoutingEngineId::Field)],
        vec![],
    ]);
    assert_eq!(concurrent_route_round_count(&reduced, &objectives), 2);
    assert_eq!(no_route_round_count(&reduced), 2);
}

#[test]
fn stale_persistence_runs_from_disruption_to_loss() {
    assert_eq!(stale_persistence_round(Some(2), Some(3)), Some(1));
    assert_eq!(stale_persistence_round(Some(5), Some(3)), Some(0));
    assert_eq!(stale_persistence_round(None, Some(3)), None);
    assert_eq!(stale_persistence_round(Some(2), None), None);
}

#[test]
fn usable_route_timing_finds_loss_and_recovery() {
    let rounds = vec![(0, false), (1, true), (2, true), (3, false), (4, false), (5, true)];
    assert_eq!(usable_route_timing(&rounds), (Some(3), Some(2)));
    let never_back = vec![(0, true), (1, false), (2, false)];
    assert_eq!(usable_route_timing(&never_back), (Some(1), None));
    let never_usable = vec![(0, false), (1, false)];
    assert_eq!(usable_route_timing(&never_usable), (None, None));
}

#[test]
fn usable_routes_need_reachability_and_a_path() {
    let configuration = Configuration {
        epoch: 1,
        nodes: vec![topology_node(1, NodeEngines::Pathway), topology_node(2, NodeEngines::Pathway)],
        links: vec![DirectedLink { from: node_id(1), to: node_id(2), link: topology_link(2) }],
        environment: MediumEnvironment { reachable_neighbor_count: 1, churn_permille: 0, contention_permille: 0 },
    };
    let destination = DestinationId::Node(node_id(2));
    let routes = vec![route(1, 2, RoutingEngineId::Pathway)];
    assert!(round_has_usable_route(&routes, node_id(1), &destination, &configuration));
    let mut unreachable = route(1, 2, RoutingEngineId::Pathway);
    unreachable.reachability_state = ReachabilityState::Unreachable;
    assert!(!round_has_usable_route(&vec![unreachable], node_id(1), &destination, &configuration));
    assert!(!round_has_usable_route(&vec![route(2, 1, RoutingEngineId::Pathway)], node_id(2), &DestinationId::Node(node_id(1)), &configuration));
}

#[test]
fn broker_figures_need_brokers_and_visible_hops() {
    assert_eq!(broker_figures(2, 2, 2, 1, 1), (Some(1000), Some(500), Some(1)));
    assert_eq!(broker_figures(1, 3, 3, 3, 0), (Some(1000), Some(1000), Some(0)));
    assert_eq!(broker_figures(0, 3, 3, 3, 0), (None, None, None));
    assert_eq!(broker_figures(2, 0, 0, 0, 0), (None, None, None));
    let brokers = vec![node_id(3), node_id(4)];
    let mut totals = vec![0, 0];
    add_broker_usage(&mut totals, &brokers, &vec![(node_id(3), 1)]);
    add_broker_usage(&mut totals, &brokers, &vec![(node_id(3), 2), (node_id(4), 5)]);
    assert_eq!(totals, vec![3, 5]);
}

fn recovered_objective() -> ObjectiveMeasures {
    ObjectiveMeasures {
        presence_permille: 600,
        present_round_count: 3,
        route_seen: true,
        first_route_round: Some(1),
        first_disruption_round: Some(2),
        first_loss_round: Some(3),
        recovery_round: Some(2),
        churn_count: 1,
        handoff_count: 0,
        observation_count: 2,
    }
}

#[test]
fn objective_figures_match_a_hand_checked_recovery() {
    let figures = objective_figures(&vec![recovered_objective()], 6);
    assert_eq!(figures.objective_count, 1);
    assert_eq!(figures.activation_success_permille, 1000);
    assert_eq!(figures.activation_failure_count, 0);
    assert_eq!(figures.route_present_permille, 600);
    assert_eq!(figures.route_present_total_window_permille, 500);
    assert_eq!(figures.first_materialization_round_mean, Some(1));
    assert_eq!(figures.first_disruption_round_mean, Some(2));
    assert_eq!(figures.first_loss_round_mean, Some(3));
    assert_eq!(figures.stale_persistence_round_mean, Some(1));
    assert_eq!(figures.recovery_round_mean, Some(2));
    assert_eq!(figures.recovery_success_permille, 1000);
    assert_eq!(figures.unrecovered_after_loss_count, 0);
    assert_eq!(figures.route_churn_count, 1);
    assert_eq!(figures.route_observation_count, 2);
}

#[test]
fn objective_figures_count_starved_and_unrecovered_objectives() {
    let starved = ObjectiveMeasures {
        presence_permille: 0,
        present_round_count: 0,
        route_seen: false,
        first_route_round: None,
        first_disruption_round: Some(4),
        first_loss_round: None,
        recovery_round: None,
        churn_count: 0,
        handoff_count: 0,
        observation_count: 0,
    };
    let lost = ObjectiveMeasures { recovery_round: None, presence_permille: 200, ..recovered_objective() };
    let figures = objective_figures(&vec![recovered_objective(), starved, lost], 4);
    assert_eq!(figures.objective_count, 3);
    assert_eq!(figures.activation_success_permille, 666);
    assert_eq!(figures.activation_failure_count, 1);
    assert_eq!(figures.objective_starvation_count, 1);
    assert_eq!(figures.unrecovered_after_loss_count, 1);
    assert_eq!(figures.recovery_success_permille, 333);
    assert_eq!(figures.objective_route_presence_min_permille, 0);
    assert_eq!(figures.objective_route_presence_max_permille, 600);
    assert_eq!(figures.objective_route_presence_spread, 600);
    assert_eq!(figures.route_present_permille, 266);
    assert_eq!(figures.route_present_total_window_permille, 500);
    assert_eq!(figures.first_disruption_round_mean, Some(2));
    let empty = objective_figures(&vec![], 0);
    assert_eq!(empty.objective_count, 0);
    assert_eq!(empty.recovery_success_permille, 0);
    assert_eq!(empty.first_loss_round_mean, None);
}
