use jacquard_simulator::params::ExperimentParameterSet;
use jacquard_simulator::replay::{
    ActiveRouteSummary, DestinationId, EnvironmentHookCounts, FailureClassCounts, FieldReplaySummary, ObjectiveReplay,
    ReachabilityState, ReducedReplayView, ReducedRound, ReducedRouteObservation, RoutingEngineId,
};
use jacquard_simulator::breakdown::summarize_breakdowns;
use jacquard_simulator::run_summary::{ascending_node_set, measure_objective, summarize_run};
use jacquard_simulator::summary::aggregate_runs;
use jacquard_simulator::external::EngineLane;
use jacquard_simulator::scenario::{
    bound_objective, connected_objective, HostSpec, JacquardScenario, OperatingMode, ScriptedEnvironmentModel,
};
use jacquard_simulator::suite::{ExperimentRunSpec, RegimeDescriptor};
use jacquard_simulator::topology::{node_id, Configuration, MediumEnvironment, NodeId};

fn synthetic_scenario() -> JacquardScenario {
    let configuration = Configuration {
        epoch: 1,
        nodes: vec![],
        links: vec![],
        environment: MediumEnvironment { reachable_neighbor_count: 1, churn_permille: 0, contention_permille: 0 },
    };
    JacquardScenario::new(
        "summary-synthetic-recovery".to_string(),
        41,
        OperatingMode::DenseInteractive,
        configuration,
        vec![HostSpec::new(node_id(1), EngineLane::Pathway), HostSpec::new(node_id(2), EngineLane::Pathway)],
        vec![bound_objective(node_id(1), connected_objective(node_id(2)), 1)],
        6,
    )
}

fn synthetic_summary_spec(scenario: &JacquardScenario, parameters: ExperimentParameterSet) -> ExperimentRunSpec {
    ExperimentRunSpec {
        run_id: "summary-synthetic-recovery".to_string(),
        suite_id: "summary-synthetic".to_string(),
        family_id: "summary-synthetic-recovery".to_string(),
        engine_family: parameters.engine_family.clone(),
        seed: 41,
        regime: RegimeDescriptor {
            density: "sparse".to_string(),
            loss: "low".to_string(),
            interference: "low".to_string(),
            asymmetry: "none".to_string(),
            churn: "low".to_string(),
            node_pressure: "low".to_string(),
            objective_regime: "repairable-connected".to_string(),
            stress_score: 10,
        },
        parameters,
        scenario: scenario.clone(),
        environment: ScriptedEnvironmentModel { hooks: vec![] },
    }
}

fn route(engine_id: RoutingEngineId, next_hop: u8, stability: u16) -> ActiveRouteSummary {
    ActiveRouteSummary {
        owner_node_id: node_id(1),
        destination: DestinationId::Node(node_id(2)),
        engine_id,
        next_hop_node_id: Some(node_id(next_hop)),
        hop_count_hint: Some(2),
        reachability_state: ReachabilityState::Reachable,
        stability_score: stability,
        scatter_current_regime: None,
        scatter_last_action: None,
        scatter_retained_message_count: None,
        scatter_delivered_message_count: None,
    }
}

fn scatter_route(regime: &str, action: &str, retained: u32, delivered: u32, stability: u16) -> ActiveRouteSummary {
    ActiveRouteSummary {
        scatter_current_regime: Some(regime.to_string()),
        scatter_last_action: Some(action.to_string()),
        scatter_retained_message_count: Some(retained),
        scatter_delivered_message_count: Some(delivered),
        ..route(RoutingEngineId::Scatter, 2, stability)
    }
}

fn replay(name: &str, rounds: Vec<Vec<ActiveRouteSummary>>, engine: RoutingEngineId) -> ReducedReplayView {
    ReducedReplayView {
        scenario_name: name.to_string(),
        round_count: rounds.len() as u32,
        rounds: rounds
            .into_iter()
            .enumerate()
            .map(|(index, active_routes)| ReducedRound { round_index: index as u32, active_routes })
            .collect(),
        distinct_engine_ids: vec![engine],
        driver_status_event_count: 0,
        failure_summary_count: 0,
        route_observations: Vec::new(),
        environment_change_rounds: Vec::new(),
        objective_replays: Vec::new(),
        field_replays: Vec::new(),
        hook_counts: EnvironmentHookCounts::default(),
        failure_counts: FailureClassCounts::default(),
        maintenance_failure_count: 0,
    }
}

fn objective_replay(present_rounds: Vec<u32>, usable_rounds: Vec<(u32, bool)>) -> ObjectiveReplay {
    ObjectiveReplay {
        owner_node_id: node_id(1),
        destination: DestinationId::Node(node_id(2)),
        first_route_round: present_rounds.first().copied(),
        route_seen: !present_rounds.is_empty(),
        present_rounds,
        usable_rounds,
        hop_counts: vec![2, 2, 2],
        stability_scores: vec![900, 700, 800],
        commitment_resolution: None,
        last_outcome: Some("Repaired".to_string()),
        continuity_band: None,
        promotion_decision: None,
        promotion_blocker: None,
        continuation_shift_count: 0,
    }
}

#[test]
fn summarize_run_counts_broker_churn_inside_continuous_route_lifetime() {
    let scenario = synthetic_scenario().with_broker_nodes(vec![node_id(3), node_id(4)]);
    let spec = synthetic_summary_spec(&scenario, ExperimentParameterSet::pathway(4, jacquard_simulator::params::PathwaySearchHeuristicMode::Zero));
    let reduced = replay(
        "summary-synthetic-broker-churn",
        vec![vec![route(RoutingEngineId::Pathway, 3, 900)], vec![route(RoutingEngineId::Pathway, 4, 900)]],
        RoutingEngineId::Pathway,
    );

    let summary = summarize_run(&spec, &scenario, &reduced, "full-stack");
    assert_eq!(summary.broker_participation_permille, Some(1000));
    assert_eq!(summary.broker_concentration_permille, Some(500));
    assert_eq!(summary.broker_route_churn_count, Some(1));
}

#[test]
fn summarize_run_tracks_scatter_runtime_regimes_actions_and_peaks() {
    let scenario = synthetic_scenario();
    let spec = synthetic_summary_spec(&scenario, ExperimentParameterSet::scatter("balanced"));
    let reduced = replay(
        "summary-synthetic-scatter",
        vec![
            vec![scatter_route("Sparse", "Replicate", 3, 1, 900)],
            vec![scatter_route("Dense", "KeepCarrying", 5, 2, 910)],
            vec![scatter_route("Bridging", "PreferentialHandoff", 4, 6, 920)],
            vec![scatter_route("Constrained", "Replicate", 2, 4, 930)],
        ],
        RoutingEngineId::Scatter,
    );

    let summary = summarize_run(&spec, &scenario, &reduced, "full-stack");
    assert_eq!(summary.scatter_selected_rounds, 4);
    assert_eq!(summary.scatter_sparse_rounds, 1);
    assert_eq!(summary.scatter_dense_rounds, 1);
    assert_eq!(summary.scatter_bridging_rounds, 1);
    assert_eq!(summary.scatter_constrained_rounds, 1);
    assert_eq!(summary.scatter_replicate_rounds, 2);
    assert_eq!(summary.scatter_handoff_rounds, 1);
    assert_eq!(summary.scatter_retained_message_peak, Some(5));
    assert_eq!(summary.scatter_delivered_message_peak, Some(6));
}

fn synthetic_reduced_replay() -> ReducedReplayView {
    let mut reduced = replay(
        "summary-synthetic-recovery",
        vec![
            vec![],
            vec![route(RoutingEngineId::Pathway, 2, 900)],
            vec![route(RoutingEngineId::Pathway, 2, 700)],
            vec![],
            vec![],
            vec![route(RoutingEngineId::Pathway, 2, 800)],
        ],
        RoutingEngineId::Pathway,
    );
    reduced.objective_replays = vec![objective_replay(
        vec![1, 2, 5],
        vec![(0, false), (1, true), (2, true), (3, false), (4, false), (5, true)],
    )];
    reduced.environment_change_rounds = vec![0, 2];
    reduced.route_observations = vec![
        ReducedRouteObservation {
            owner_node_id: node_id(1),
            destination: DestinationId::Node(node_id(2)),
            engine_id: RoutingEngineId::Pathway,
            first_seen_round: 1,
            last_seen_round: 2,
        },
        ReducedRouteObservation {
            owner_node_id: node_id(1),
            destination: DestinationId::Node(node_id(2)),
            engine_id: RoutingEngineId::Pathway,
            first_seen_round: 5,
            last_seen_round: 5,
        },
    ];
    reduced
}

fn synthetic_recovery_scenario() -> JacquardScenario {
    synthetic_scenario().with_broker_nodes(vec![node_id(2)])
}

#[test]
fn summarize_run_reports_hand_checked_stale_repair_metrics() {
    let scenario = synthetic_recovery_scenario();
    let spec = synthetic_summary_spec(&scenario, ExperimentParameterSet::pathway(4, jacquard_simulator::params::PathwaySearchHeuristicMode::Zero));
    let summary = summarize_run(&spec, &scenario, &synthetic_reduced_replay(), "full-stack");

    assert_eq!(summary.first_disruption_round_mean, Some(2));
    assert_eq!(summary.first_loss_round_mean, Some(3));
    assert_eq!(summary.stale_persistence_round_mean, Some(1));
    assert_eq!(summary.recovery_round_mean, Some(2));
    assert_eq!(summary.recovery_success_permille, 1000);
    assert_eq!(summary.unrecovered_after_loss_count, 0);
    assert_eq!(summary.broker_participation_permille, Some(1000));
    assert_eq!(summary.broker_concentration_permille, Some(1000));
    assert_eq!(summary.broker_route_churn_count, Some(0));
    assert_eq!(summary.route_present_permille, 600);
    assert_eq!(summary.route_present_total_window_permille, 500);
    assert_eq!(summary.route_churn_count, 1);
    assert_eq!(summary.route_observation_count, 2);
}

#[test]
fn summarize_run_separates_activation_attempt_failures_from_terminal_failures() {
    let scenario = synthetic_recovery_scenario();
    let spec = synthetic_summary_spec(&scenario, ExperimentParameterSet::pathway(4, jacquard_simulator::params::PathwaySearchHeuristicMode::Zero));
    let mut reduced = synthetic_reduced_replay();
    // The replay classified one failed activation attempt; a generic harness
    // note is not a failure class.
    reduced.failure_counts.activation_failure = 1;

    let summary = summarize_run(&spec, &scenario, &reduced, "full-stack");
    assert_eq!(summary.failure_summary_count, 1);
    assert_eq!(summary.activation_attempt_failure_count, 1);
    assert_eq!(summary.activation_failure_count, 0);
    assert_eq!(summary.activation_success_permille, 1000);
}

#[test]
fn summarize_run_reads_objective_replay_hooks_and_failures() {
    let scenario = synthetic_scenario();
    let spec = synthetic_summary_spec(&scenario, ExperimentParameterSet::pathway(4, jacquard_simulator::params::PathwaySearchHeuristicMode::Zero));
    let mut reduced = synthetic_reduced_replay();
    reduced.hook_counts.partition = 2;
    reduced.failure_counts.lost_reachability = 1;
    reduced.failure_counts.other = 3;
    reduced.maintenance_failure_count = 1;

    let summary = summarize_run(&spec, &scenario, &reduced, "full-stack");
    assert_eq!(summary.run_id, "summary-synthetic-recovery");
    assert_eq!(summary.execution_lane, "full-stack");
    assert_eq!(summary.scenario_name, "summary-synthetic-recovery");
    assert_eq!(summary.objective_count, 1);
    assert_eq!(summary.activation_success_permille, 1000);
    // Three present rounds over the five rounds from activation.
    assert_eq!(summary.route_present_permille, 600);
    // Three present rounds over all six rounds of the run.
    assert_eq!(summary.route_present_total_window_permille, 500);
    assert_eq!(summary.first_materialization_round_mean, Some(1));
    assert_eq!(summary.first_disruption_round_mean, Some(2));
    assert_eq!(summary.first_loss_round_mean, Some(3));
    assert_eq!(summary.stale_persistence_round_mean, Some(1));
    assert_eq!(summary.recovery_round_mean, Some(2));
    assert_eq!(summary.recovery_success_permille, 1000);
    assert_eq!(summary.unrecovered_after_loss_count, 0);
    assert_eq!(summary.route_churn_count, 1);
    assert_eq!(summary.engine_handoff_count, 0);
    assert_eq!(summary.route_observation_count, 2);
    assert_eq!(summary.pathway_selected_rounds, 3);
    assert_eq!(summary.no_route_rounds, 3);
    assert_eq!(summary.dominant_engine.as_deref(), Some("pathway"));
    assert_eq!(summary.active_route_hop_count_mean, Some(2));
    assert_eq!(summary.stability_min, Some(700));
    assert_eq!(summary.stability_first, Some(900));
    assert_eq!(summary.stability_last, Some(800));
    assert_eq!(summary.stability_median, Some(800));
    assert_eq!(summary.stability_max, Some(900));
    assert_eq!(summary.stability_total, 2400);
    assert_eq!(summary.partition_count, 2);
    assert_eq!(summary.failure_summary_count, 4);
    assert_eq!(summary.lost_reachability_count, 1);
    assert_eq!(summary.maintenance_failure_count, 1);
    assert_eq!(summary.field_last_outcome.as_deref(), Some("Repaired"));
    assert_eq!(summary.broker_participation_permille, None);
    assert_eq!(summary.model_artifact_count, 0);
}

#[test]
fn summarize_run_reads_field_replays_of_objective_owners_only() {
    let scenario = synthetic_scenario();
    let spec = synthetic_summary_spec(&scenario, ExperimentParameterSet::pathway(4, jacquard_simulator::params::PathwaySearchHeuristicMode::Zero));
    let mut reduced = replay("summary-synthetic-field", vec![vec![], vec![]], RoutingEngineId::Field);
    let summary_of = |owner: u8, band: Option<&str>, activations: u32, degraded_rounds: u32| FieldReplaySummary {
        owner_node_id: node_id(owner),
        selected_result_present: true,
        search_reconfiguration_present: false,
        bootstrap_active: owner == 1,
        continuity_band: band.map(str::to_string),
        last_continuity_transition: None,
        last_promotion_decision: None,
        last_promotion_blocker: None,
        bootstrap_activation_count: activations,
        bootstrap_hold_count: 0,
        bootstrap_narrow_count: 0,
        bootstrap_upgrade_count: 0,
        bootstrap_withdraw_count: 0,
        degraded_steady_entry_count: 0,
        degraded_steady_recovery_count: 0,
        degraded_to_bootstrap_count: 0,
        degraded_steady_round_count: degraded_rounds,
        service_retention_carry_forward_count: 0,
        asymmetric_shift_success_count: 0,
        protocol_reconfiguration_count: 7,
        route_bound_reconfiguration_count: 0,
        continuation_shift_count: 0,
        corridor_narrow_count: 0,
        checkpoint_restore_count: 0,
    };
    reduced.field_replays = vec![
        summary_of(2, Some("ignored"), 9, 9),
        summary_of(1, None, 1, 1),
        summary_of(1, Some("Steady"), 0, 0),
    ];

    let summary = summarize_run(&spec, &scenario, &reduced, "full-stack");
    assert_eq!(summary.field_selected_result_rounds, 2);
    assert_eq!(summary.field_bootstrap_active_rounds, 2);
    assert_eq!(summary.field_search_reconfiguration_rounds, 0);
    assert_eq!(summary.field_continuity_band.as_deref(), Some("Steady"));
    assert_eq!(summary.field_bootstrap_activation_permille, 1000);
    // One degraded round over one objective times two rounds.
    assert_eq!(summary.field_degraded_steady_round_permille, 500);
    assert_eq!(summary.field_protocol_reconfiguration_count, 7);
}

#[test]
fn measure_objective_without_a_record_shows_nothing() {
    let scenario = synthetic_scenario();
    let reduced = replay("summary-synthetic-empty", vec![vec![], vec![]], RoutingEngineId::Pathway);
    let measures = measure_objective(&reduced, &scenario.bound_objectives[0]);
    assert_eq!(measures.presence_permille, 0);
    assert!(!measures.route_seen);
    assert_eq!(measures.first_loss_round, None);
    assert_eq!(measures.observation_count, 0);
}

#[test]
fn ascending_node_set_sorts_and_dedups() {
    let nodes: Vec<NodeId> = vec![node_id(4), node_id(2), node_id(4), node_id(1)];
    assert_eq!(ascending_node_set(&nodes), vec![node_id(1), node_id(2), node_id(4)]);
    assert!(ascending_node_set(&vec![]).is_empty());
}

#[test]
fn aggregate_runs_uses_window_normalized_route_presence_for_acceptance() {
    let scenario = synthetic_recovery_scenario();
    let spec = synthetic_summary_spec(&scenario, ExperimentParameterSet::pathway(4, jacquard_simulator::params::PathwaySearchHeuristicMode::Zero));
    let mut run = summarize_run(&spec, &scenario, &synthetic_reduced_replay(), "full-stack");
    run.route_present_permille = 600;
    run.route_present_total_window_permille = 400;
    let aggregate = aggregate_runs(&vec![run]).into_iter().next().expect("single run should yield one aggregate");

    assert_eq!(aggregate.route_present_permille_mean, 600);
    assert_eq!(aggregate.route_present_total_window_permille_mean, 400);
    assert!(!aggregate.acceptable);
}

#[test]
fn summarize_breakdowns_reports_route_presence_from_normalized_window_metric() {
    let scenario = synthetic_recovery_scenario();
    let spec = synthetic_summary_spec(&scenario, ExperimentParameterSet::pathway(4, jacquard_simulator::params::PathwaySearchHeuristicMode::Zero));
    let mut run = summarize_run(&spec, &scenario, &synthetic_reduced_replay(), "full-stack");
    run.route_present_permille = 600;
    run.route_present_total_window_permille = 400;
    let aggregate = aggregate_runs(&vec![run]).into_iter().next().expect("single run should yield one aggregate");
    let breakdown =
        summarize_breakdowns(&vec![aggregate]).into_iter().next().expect("single aggregate should yield one breakdown");

    assert_eq!(breakdown.breakdown_reason.as_deref(), Some("route-presence"));
}
