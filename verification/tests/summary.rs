use jacquard_simulator::breakdown::summarize_breakdowns;
use jacquard_simulator::replay::active_window_route_presence_permille;
use jacquard_simulator::stats::ratio_permille;
use jacquard_simulator::summary::{aggregate_runs, ExperimentRunSummary};

fn blank_run(run_id: &str, family_id: &str, stress_score: u32) -> ExperimentRunSummary {
    ExperimentRunSummary {
        run_id: run_id.to_string(),
        suite_id: "suite".to_string(),
        family_id: family_id.to_string(),
        scenario_name: format!("{family_id}-scenario"),
        engine_family: "pathway".to_string(),
        execution_lane: "full-stack".to_string(),
        config_id: "pathway-2-zero".to_string(),
        comparison_engine_set: None,
        batman_bellman_stale_after_ticks: None,
        batman_bellman_next_refresh_within_ticks: None,
        batman_classic_stale_after_ticks: None,
        batman_classic_next_refresh_within_ticks: None,
        babel_stale_after_ticks: None,
        babel_next_refresh_within_ticks: None,
        olsrv2_stale_after_ticks: None,
        olsrv2_next_refresh_within_ticks: None,
        pathway_query_budget: None,
        pathway_heuristic_mode: None,
        scatter_profile_id: None,
        field_query_budget: None,
        field_heuristic_mode: None,
        field_service_publication_neighbor_limit: None,
        field_service_freshness_weight: None,
        field_service_narrowing_bias: None,
        field_node_bootstrap_support_floor: None,
        field_node_bootstrap_top_mass_floor: None,
        field_node_bootstrap_entropy_ceiling: None,
        field_node_discovery_enabled: None,
        seed: 0,
        density: String::new(),
        loss: String::new(),
        interference: String::new(),
        asymmetry: String::new(),
        churn: String::new(),
        node_pressure: String::new(),
        objective_regime: String::new(),
        stress_score: stress_score,
        objective_count: 0,
        activation_success_permille: 1000,
        route_present_permille: 1000,
        route_present_total_window_permille: 1000,
        objective_route_presence_min_permille: 0,
        objective_route_presence_max_permille: 0,
        objective_route_presence_spread: 0,
        objective_starvation_count: 0,
        concurrent_route_round_count: 0,
        first_materialization_round_mean: None,
        first_disruption_round_mean: None,
        first_loss_round_mean: None,
        stale_persistence_round_mean: None,
        recovery_round_mean: None,
        recovery_success_permille: 0,
        unrecovered_after_loss_count: 0,
        broker_participation_permille: None,
        broker_concentration_permille: None,
        broker_route_churn_count: None,
        active_route_hop_count_mean: None,
        route_churn_count: 0,
        engine_handoff_count: 0,
        route_observation_count: 0,
        batman_bellman_selected_rounds: 0,
        batman_classic_selected_rounds: 0,
        babel_selected_rounds: 0,
        olsrv2_selected_rounds: 0,
        pathway_selected_rounds: 0,
        scatter_selected_rounds: 0,
        scatter_sparse_rounds: 0,
        scatter_dense_rounds: 0,
        scatter_bridging_rounds: 0,
        scatter_constrained_rounds: 0,
        scatter_replicate_rounds: 0,
        scatter_handoff_rounds: 0,
        scatter_retained_message_peak: None,
        scatter_delivered_message_peak: None,
        field_selected_rounds: 0,
        field_selected_result_rounds: 0,
        field_search_reconfiguration_rounds: 0,
        field_bootstrap_active_rounds: 0,
        field_continuity_band: None,
        field_commitment_resolution: None,
        field_last_outcome: None,
        field_last_continuity_transition: None,
        field_last_promotion_decision: None,
        field_last_promotion_blocker: None,
        field_bootstrap_activation_permille: 0,
        field_bootstrap_hold_permille: 0,
        field_bootstrap_narrow_permille: 0,
        field_bootstrap_upgrade_permille: 0,
        field_bootstrap_withdraw_permille: 0,
        field_degraded_steady_entry_permille: 0,
        field_degraded_steady_recovery_permille: 0,
        field_degraded_to_bootstrap_permille: 0,
        field_degraded_steady_round_permille: 0,
        field_service_retention_carry_forward_permille: 0,
        field_asymmetric_shift_success_permille: 0,
        field_protocol_reconfiguration_count: 0,
        field_route_bound_reconfiguration_count: 0,
        field_continuation_shift_count: 0,
        field_corridor_narrow_count: 0,
        field_checkpoint_restore_count: 0,
        no_route_rounds: 0,
        dominant_engine: None,
        stability_min: None,
        stability_first: None,
        stability_last: None,
        stability_median: None,
        stability_max: None,
        stability_total: 0,
        maintenance_failure_count: 0,
        failure_summary_count: 0,
        no_candidate_count: 0,
        inadmissible_candidate_count: 0,
        lost_reachability_count: 0,
        replacement_loop_count: 0,
        activation_attempt_failure_count: 0,
        activation_failure_count: 0,
        persistent_degraded_count: 0,
        other_failure_count: 0,
        replace_topology_count: 0,
        medium_degradation_count: 0,
        asymmetric_degradation_count: 0,
        partition_count: 0,
        cascade_partition_count: 0,
        mobility_relink_count: 0,
        intrinsic_limit_count: 0,
        model_artifact_count: 0,
        equivalence_passed: None,
    }
}

#[test]
fn active_window_route_presence_reaches_full_score_after_delayed_activation() {
    let present_rounds = (2..18).collect::<Vec<u32>>();

    assert_eq!(active_window_route_presence_permille(&present_rounds, 2, 18), 1000);
    assert_eq!(ratio_permille(16, 18), 888);
}

#[test]
fn active_window_route_presence_ignores_pre_activation_dead_time() {
    let present_rounds = vec![3, 4, 5, 6, 7];

    assert_eq!(active_window_route_presence_permille(&present_rounds, 3, 8), 1000);
}

#[test]
fn active_window_route_presence_counts_only_rounds_inside_the_window() {
    // Rounds 0 and 1 precede activation at round 2; 5 of the 8 window rounds are present.
    let present_rounds = vec![0, 1, 2, 3, 4, 8, 9];
    assert_eq!(active_window_route_presence_permille(&present_rounds, 2, 10), 625);
}

#[test]
fn active_window_route_presence_is_zero_without_a_window() {
    assert_eq!(active_window_route_presence_permille(&vec![5, 6], 12, 10), 0);
}

#[test]
fn aggregate_runs_groups_seeds_of_one_configuration_and_averages_them() {
    let mut first = blank_run("suite-family-a-41", "family-a", 10);
    first.activation_success_permille = 800;
    first.route_present_total_window_permille = 700;
    let mut second = blank_run("suite-family-a-43", "family-a", 10);
    second.activation_success_permille = 1000;
    second.route_present_total_window_permille = 900;
    let aggregates = aggregate_runs(&vec![first, second]);

    assert_eq!(aggregates.len(), 1);
    assert_eq!(aggregates[0].run_count, 2);
    assert_eq!(aggregates[0].activation_success_permille_mean, 900);
    assert_eq!(aggregates[0].route_present_total_window_permille_mean, 800);
    assert!(aggregates[0].acceptable);
}

#[test]
fn aggregate_runs_orders_groups_by_key() {
    let runs = vec![
        blank_run("suite-family-c-41", "family-c", 30),
        blank_run("suite-family-a-41", "family-a", 10),
        blank_run("suite-family-b-41", "family-b", 20),
        blank_run("suite-family-a-43", "family-a", 10),
    ];
    let aggregates = aggregate_runs(&runs);
    let families = aggregates.iter().map(|a| a.family_id.clone()).collect::<Vec<_>>();
    assert_eq!(families, vec!["family-a", "family-b", "family-c"]);
    assert_eq!(aggregates[0].run_count, 2);
}

#[test]
fn aggregate_runs_of_nothing_is_empty() {
    assert!(aggregate_runs(&Vec::new()).is_empty());
}

#[test]
fn summarize_breakdowns_finds_the_first_failure_in_stress_order() {
    let easy = blank_run("suite-easy-41", "easy", 10);
    let mut lossy = blank_run("suite-lossy-41", "lossy", 30);
    lossy.lost_reachability_count = 2;
    let mut sparse = blank_run("suite-sparse-41", "sparse", 20);
    sparse.activation_success_permille = 500;
    let aggregates = aggregate_runs(&vec![easy, lossy, sparse]);
    let breakdowns = summarize_breakdowns(&aggregates);

    assert_eq!(breakdowns.len(), 1);
    let row = &breakdowns[0];
    assert_eq!(row.suite_id, "suite");
    assert_eq!(row.engine_family, "pathway");
    assert_eq!(row.config_id, "pathway-2-zero");
    assert_eq!(row.max_sustained_stress_score, 10);
    assert_eq!(row.first_failed_family_id.as_deref(), Some("sparse"));
    assert_eq!(row.first_failed_stress_score, Some(20));
    assert_eq!(row.breakdown_reason.as_deref(), Some("activation-success"));
}

#[test]
fn summarize_breakdowns_without_failures_has_no_reason() {
    let aggregates = aggregate_runs(&vec![blank_run("suite-a-41", "a", 10), blank_run("suite-b-41", "b", 40)]);
    let breakdowns = summarize_breakdowns(&aggregates);
    assert_eq!(breakdowns.len(), 1);
    assert_eq!(breakdowns[0].max_sustained_stress_score, 40);
    assert_eq!(breakdowns[0].first_failed_family_id, None);
    assert_eq!(breakdowns[0].first_failed_stress_score, None);
    assert_eq!(breakdowns[0].breakdown_reason, None);
}

#[test]
fn summarize_breakdowns_names_each_failure_reason() {
    let cases: Vec<(fn(&mut ExperimentRunSummary), &str)> = vec![
        (|r| r.activation_success_permille = 899, "activation-success"),
        (|r| r.route_present_total_window_permille = 499, "route-presence"),
        (|r| r.lost_reachability_count = 1, "lost-reachability"),
        (|r| r.maintenance_failure_count = 1, "maintenance-failure"),
    ];
    for (degrade, reason) in cases {
        let mut run = blank_run("suite-x-41", "x", 5);
        degrade(&mut run);
        let aggregates = aggregate_runs(&vec![run]);
        let breakdowns = summarize_breakdowns(&aggregates);
        assert_eq!(breakdowns[0].breakdown_reason.as_deref(), Some(reason));
    }
}

#[test]
fn summarize_breakdowns_keeps_one_row_per_configuration() {
    let mut other = blank_run("suite-a-41", "a", 10);
    other.config_id = "pathway-4-zero".to_string();
    let aggregates = aggregate_runs(&vec![blank_run("suite-a-41", "a", 10), other]);
    let breakdowns = summarize_breakdowns(&aggregates);
    let configs = breakdowns.iter().map(|b| b.config_id.clone()).collect::<Vec<_>>();
    assert_eq!(configs, vec!["pathway-2-zero", "pathway-4-zero"]);
}

#[test]
fn aggregate_runs_does_not_depend_on_run_order() {
    let mut runs = Vec::new();
    for (index, (family, activation, presence)) in
        [("family-a", 800, 700), ("family-b", 950, 400), ("family-a", 1000, 900), ("family-a", 600, 650)].iter().enumerate()
    {
        let mut run = blank_run(&format!("suite-{family}-{index}"), family, 10);
        run.activation_success_permille = *activation;
        run.route_present_total_window_permille = *presence;
        runs.push(run);
    }
    let mut reversed = runs.clone();
    reversed.reverse();
    let forward = aggregate_runs(&runs);
    let backward = aggregate_runs(&reversed);
    assert_eq!(forward.len(), backward.len());
    for (a, b) in forward.iter().zip(backward.iter()) {
        assert_eq!(a.family_id, b.family_id);
        assert_eq!(a.run_count, b.run_count);
        assert_eq!(a.activation_success_permille_mean, b.activation_success_permille_mean);
        assert_eq!(a.activation_success_permille_min, b.activation_success_permille_min);
        assert_eq!(a.activation_success_permille_max, b.activation_success_permille_max);
        assert_eq!(a.route_present_total_window_permille_mean, b.route_present_total_window_permille_mean);
        assert_eq!(a.acceptable, b.acceptable);
    }
    for row in &forward {
        assert!(row.activation_success_permille_min <= row.activation_success_permille_mean);
        assert!(row.activation_success_permille_mean <= row.activation_success_permille_max);
    }
    assert_eq!(forward[0].activation_success_permille_mean, 800);
    assert_eq!(forward[0].activation_success_permille_min, 600);
}
