//! Report rows: the per-run summary schema, the per-(family, configuration)
//! aggregates that average runs, and the breakdown rows that locate where a
//! configuration stops being acceptable.
use vstd::prelude::*;
use crate::params::opt_chars;
use crate::stats::{
    average_option_u32, average_u32, clamp_u32, is_mode, mean_option_u32, mean_u32, min_max_spread,
    min_max_spread_u32, mode,
};
use crate::text::{chars_lt, lemma_chars_lt_transitive, lemma_chars_lt_trichotomy, str_lt};

verus! {

/// A copy of an optional string.
pub fn clone_opt_string(o: &Option<String>) -> (r: Option<String>)
    ensures
        r == *o,
{
    match o {
        Some(s) => Some(s.clone()),
        None => None,
    }
}

/// The acceptance thresholds of an aggregate: at least 900 permille of
/// objectives activated, routes present for at least 500 permille of the
/// observation window, and no lost reachability or maintenance failure.
pub open spec fn acceptable_means(activation: u32, presence: u32, lost: u32, maintenance: u32) -> bool {
    activation >= 900 && presence >= 500 && lost == 0 && maintenance == 0
}

/// The per-run report row.
#[derive(Clone, Debug)]
pub struct ExperimentRunSummary {
    pub run_id: String,
    pub suite_id: String,
    pub family_id: String,
    pub scenario_name: String,
    pub engine_family: String,
    pub execution_lane: String,
    pub config_id: String,
    pub comparison_engine_set: Option<String>,
    pub batman_bellman_stale_after_ticks: Option<u32>,
    pub batman_bellman_next_refresh_within_ticks: Option<u32>,
    pub batman_classic_stale_after_ticks: Option<u32>,
    pub batman_classic_next_refresh_within_ticks: Option<u32>,
    pub babel_stale_after_ticks: Option<u32>,
    pub babel_next_refresh_within_ticks: Option<u32>,
    pub olsrv2_stale_after_ticks: Option<u32>,
    pub olsrv2_next_refresh_within_ticks: Option<u32>,
    pub pathway_query_budget: Option<usize>,
    pub pathway_heuristic_mode: Option<String>,
    pub scatter_profile_id: Option<String>,
    pub field_query_budget: Option<usize>,
    pub field_heuristic_mode: Option<String>,
    pub field_service_publication_neighbor_limit: Option<usize>,
    pub field_service_freshness_weight: Option<u16>,
    pub field_service_narrowing_bias: Option<u16>,
    pub field_node_bootstrap_support_floor: Option<u16>,
    pub field_node_bootstrap_top_mass_floor: Option<u16>,
    pub field_node_bootstrap_entropy_ceiling: Option<u16>,
    pub field_node_discovery_enabled: Option<bool>,
    pub seed: u64,
    pub density: String,
    pub loss: String,
    pub interference: String,
    pub asymmetry: String,
    pub churn: String,
    pub node_pressure: String,
    pub objective_regime: String,
    pub stress_score: u32,
    pub objective_count: u32,
    pub activation_success_permille: u32,
    pub route_present_permille: u32,
    pub route_present_total_window_permille: u32,
    pub objective_route_presence_min_permille: u32,
    pub objective_route_presence_max_permille: u32,
    pub objective_route_presence_spread: u32,
    pub objective_starvation_count: u32,
    pub concurrent_route_round_count: u32,
    pub first_materialization_round_mean: Option<u32>,
    pub first_disruption_round_mean: Option<u32>,
    pub first_loss_round_mean: Option<u32>,
    pub stale_persistence_round_mean: Option<u32>,
    pub recovery_round_mean: Option<u32>,
    pub recovery_success_permille: u32,
    pub unrecovered_after_loss_count: u32,
    pub broker_participation_permille: Option<u32>,
    pub broker_concentration_permille: Option<u32>,
    pub broker_route_churn_count: Option<u32>,
    pub active_route_hop_count_mean: Option<u32>,
    pub route_churn_count: u32,
    pub engine_handoff_count: u32,
    pub route_observation_count: u32,
    pub batman_bellman_selected_rounds: u32,
    pub batman_classic_selected_rounds: u32,
    pub babel_selected_rounds: u32,
    pub olsrv2_selected_rounds: u32,
    pub pathway_selected_rounds: u32,
    pub scatter_selected_rounds: u32,
    pub scatter_sparse_rounds: u32,
    pub scatter_dense_rounds: u32,
    pub scatter_bridging_rounds: u32,
    pub scatter_constrained_rounds: u32,
    pub scatter_replicate_rounds: u32,
    pub scatter_handoff_rounds: u32,
    pub scatter_retained_message_peak: Option<u32>,
    pub scatter_delivered_message_peak: Option<u32>,
    pub field_selected_rounds: u32,
    pub field_selected_result_rounds: u32,
    pub field_search_reconfiguration_rounds: u32,
    pub field_bootstrap_active_rounds: u32,
    pub field_continuity_band: Option<String>,
    pub field_commitment_resolution: Option<String>,
    pub field_last_outcome: Option<String>,
    pub field_last_continuity_transition: Option<String>,
    pub field_last_promotion_decision: Option<String>,
    pub field_last_promotion_blocker: Option<String>,
    pub field_bootstrap_activation_permille: u32,
    pub field_bootstrap_hold_permille: u32,
    pub field_bootstrap_narrow_permille: u32,
    pub field_bootstrap_upgrade_permille: u32,
    pub field_bootstrap_withdraw_permille: u32,
    pub field_degraded_steady_entry_permille: u32,
    pub field_degraded_steady_recovery_permille: u32,
    pub field_degraded_to_bootstrap_permille: u32,
    pub field_degraded_steady_round_permille: u32,
    pub field_service_retention_carry_forward_permille: u32,
    pub field_asymmetric_shift_success_permille: u32,
    pub field_protocol_reconfiguration_count: u32,
    pub field_route_bound_reconfiguration_count: u32,
    pub field_continuation_shift_count: u32,
    pub field_corridor_narrow_count: u32,
    pub field_checkpoint_restore_count: u32,
    pub no_route_rounds: u32,
    pub dominant_engine: Option<String>,
    pub stability_min: Option<u32>,
    pub stability_first: Option<u32>,
    pub stability_last: Option<u32>,
    pub stability_median: Option<u32>,
    pub stability_max: Option<u32>,
    pub stability_total: u32,
    pub maintenance_failure_count: u32,
    pub failure_summary_count: u32,
    pub no_candidate_count: u32,
    pub inadmissible_candidate_count: u32,
    pub lost_reachability_count: u32,
    pub replacement_loop_count: u32,
    pub activation_attempt_failure_count: u32,
    pub activation_failure_count: u32,
    pub persistent_degraded_count: u32,
    pub other_failure_count: u32,
    pub replace_topology_count: u32,
    pub medium_degradation_count: u32,
    pub asymmetric_degradation_count: u32,
    pub partition_count: u32,
    pub cascade_partition_count: u32,
    pub mobility_relink_count: u32,
    pub intrinsic_limit_count: u32,
    pub model_artifact_count: u32,
    pub equivalence_passed: Option<bool>,
}

/// The per-(family, configuration) report row that averages its runs.
#[derive(Clone, Debug)]
pub struct ExperimentAggregateSummary {
    pub suite_id: String,
    pub family_id: String,
    pub engine_family: String,
    pub execution_lane: String,
    pub config_id: String,
    pub comparison_engine_set: Option<String>,
    pub batman_bellman_stale_after_ticks: Option<u32>,
    pub batman_bellman_next_refresh_within_ticks: Option<u32>,
    pub batman_classic_stale_after_ticks: Option<u32>,
    pub batman_classic_next_refresh_within_ticks: Option<u32>,
    pub babel_stale_after_ticks: Option<u32>,
    pub babel_next_refresh_within_ticks: Option<u32>,
    pub olsrv2_stale_after_ticks: Option<u32>,
    pub olsrv2_next_refresh_within_ticks: Option<u32>,
    pub pathway_query_budget: Option<usize>,
    pub pathway_heuristic_mode: Option<String>,
    pub scatter_profile_id: Option<String>,
    pub field_query_budget: Option<usize>,
    pub field_heuristic_mode: Option<String>,
    pub field_service_publication_neighbor_limit: Option<usize>,
    pub field_service_freshness_weight: Option<u16>,
    pub field_service_narrowing_bias: Option<u16>,
    pub field_node_bootstrap_support_floor: Option<u16>,
    pub field_node_bootstrap_top_mass_floor: Option<u16>,
    pub field_node_bootstrap_entropy_ceiling: Option<u16>,
    pub field_node_discovery_enabled: Option<bool>,
    pub density: String,
    pub loss: String,
    pub interference: String,
    pub asymmetry: String,
    pub churn: String,
    pub node_pressure: String,
    pub objective_regime: String,
    pub stress_score: u32,
    pub run_count: u32,
    pub activation_success_permille_mean: u32,
    pub activation_success_permille_min: u32,
    pub activation_success_permille_max: u32,
    pub activation_success_permille_spread: u32,
    pub route_present_permille_mean: u32,
    pub route_present_permille_min: u32,
    pub route_present_permille_max: u32,
    pub route_present_permille_spread: u32,
    pub route_present_total_window_permille_mean: u32,
    pub objective_route_presence_min_permille_mean: u32,
    pub objective_route_presence_max_permille_mean: u32,
    pub objective_route_presence_spread_mean: u32,
    pub objective_starvation_count_mean: u32,
    pub concurrent_route_round_count_mean: u32,
    pub recovery_success_permille_mean: u32,
    pub unrecovered_after_loss_count_mean: u32,
    pub route_churn_count_mean: u32,
    pub engine_handoff_count_mean: u32,
    pub route_observation_count_mean: u32,
    pub batman_bellman_selected_rounds_mean: u32,
    pub batman_classic_selected_rounds_mean: u32,
    pub babel_selected_rounds_mean: u32,
    pub olsrv2_selected_rounds_mean: u32,
    pub pathway_selected_rounds_mean: u32,
    pub scatter_selected_rounds_mean: u32,
    pub scatter_sparse_rounds_mean: u32,
    pub scatter_dense_rounds_mean: u32,
    pub scatter_bridging_rounds_mean: u32,
    pub scatter_constrained_rounds_mean: u32,
    pub scatter_replicate_rounds_mean: u32,
    pub scatter_handoff_rounds_mean: u32,
    pub field_selected_rounds_mean: u32,
    pub field_selected_result_rounds_mean: u32,
    pub field_search_reconfiguration_rounds_mean: u32,
    pub field_bootstrap_active_rounds_mean: u32,
    pub field_bootstrap_activation_permille_mean: u32,
    pub field_bootstrap_hold_permille_mean: u32,
    pub field_bootstrap_narrow_permille_mean: u32,
    pub field_bootstrap_upgrade_permille_mean: u32,
    pub field_bootstrap_withdraw_permille_mean: u32,
    pub field_degraded_steady_entry_permille_mean: u32,
    pub field_degraded_steady_recovery_permille_mean: u32,
    pub field_degraded_to_bootstrap_permille_mean: u32,
    pub field_degraded_steady_round_permille_mean: u32,
    pub field_service_retention_carry_forward_permille_mean: u32,
    pub field_asymmetric_shift_success_permille_mean: u32,
    pub field_protocol_reconfiguration_count_mean: u32,
    pub field_route_bound_reconfiguration_count_mean: u32,
    pub field_continuation_shift_count_mean: u32,
    pub field_corridor_narrow_count_mean: u32,
    pub field_checkpoint_restore_count_mean: u32,
    pub stability_total_mean: u32,
    pub maintenance_failure_count_mean: u32,
    pub failure_summary_count_mean: u32,
    pub no_candidate_count_mean: u32,
    pub inadmissible_candidate_count_mean: u32,
    pub lost_reachability_count_mean: u32,
    pub replacement_loop_count_mean: u32,
    pub activation_attempt_failure_count_mean: u32,
    pub activation_failure_count_mean: u32,
    pub persistent_degraded_count_mean: u32,
    pub other_failure_count_mean: u32,
    pub cascade_partition_count_mean: u32,
    pub intrinsic_limit_count_mean: u32,
    pub model_artifact_count_mean: u32,
    pub first_materialization_round_mean: Option<u32>,
    pub first_disruption_round_mean: Option<u32>,
    pub first_loss_round_mean: Option<u32>,
    pub stale_persistence_round_mean: Option<u32>,
    pub recovery_round_mean: Option<u32>,
    pub broker_participation_permille_mean: Option<u32>,
    pub broker_concentration_permille_mean: Option<u32>,
    pub broker_route_churn_count_mean: Option<u32>,
    pub active_route_hop_count_mean: Option<u32>,
    pub scatter_retained_message_peak_mean: Option<u32>,
    pub scatter_delivered_message_peak_mean: Option<u32>,
    pub stability_first_mean: Option<u32>,
    pub stability_last_mean: Option<u32>,
    pub stability_median_mean: Option<u32>,
    pub dominant_engine: Option<String>,
    pub field_continuity_band_mode: Option<String>,
    pub field_commitment_resolution_mode: Option<String>,
    pub field_last_outcome_mode: Option<String>,
    pub field_last_continuity_transition_mode: Option<String>,
    pub field_last_promotion_decision_mode: Option<String>,
    pub field_last_promotion_blocker_mode: Option<String>,
    pub equivalence_pass_count: u32,
    pub acceptable: bool,
}

/// A counter of the run row that aggregates average.
#[derive(Clone, Copy, Debug, PartialEq, Eq, Structural)]
pub enum RunCounter {
    ActivationSuccessPermille,
    RoutePresentPermille,
    RoutePresentTotalWindowPermille,
    ObjectiveRoutePresenceMinPermille,
    ObjectiveRoutePresenceMaxPermille,
    ObjectiveRoutePresenceSpread,
    ObjectiveStarvationCount,
    ConcurrentRouteRoundCount,
    RecoverySuccessPermille,
    UnrecoveredAfterLossCount,
    RouteChurnCount,
    EngineHandoffCount,
    RouteObservationCount,
    BatmanBellmanSelectedRounds,
    BatmanClassicSelectedRounds,
    BabelSelectedRounds,
    Olsrv2SelectedRounds,
    PathwaySelectedRounds,
    ScatterSelectedRounds,
    ScatterSparseRounds,
    ScatterDenseRounds,
    ScatterBridgingRounds,
    ScatterConstrainedRounds,
    ScatterReplicateRounds,
    ScatterHandoffRounds,
    FieldSelectedRounds,
    FieldSelectedResultRounds,
    FieldSearchReconfigurationRounds,
    FieldBootstrapActiveRounds,
    FieldBootstrapActivationPermille,
    FieldBootstrapHoldPermille,
    FieldBootstrapNarrowPermille,
    FieldBootstrapUpgradePermille,
    FieldBootstrapWithdrawPermille,
    FieldDegradedSteadyEntryPermille,
    FieldDegradedSteadyRecoveryPermille,
    FieldDegradedToBootstrapPermille,
    FieldDegradedSteadyRoundPermille,
    FieldServiceRetentionCarryForwardPermille,
    FieldAsymmetricShiftSuccessPermille,
    FieldProtocolReconfigurationCount,
    FieldRouteBoundReconfigurationCount,
    FieldContinuationShiftCount,
    FieldCorridorNarrowCount,
    FieldCheckpointRestoreCount,
    StabilityTotal,
    MaintenanceFailureCount,
    FailureSummaryCount,
    NoCandidateCount,
    InadmissibleCandidateCount,
    LostReachabilityCount,
    ReplacementLoopCount,
    ActivationAttemptFailureCount,
    ActivationFailureCount,
    PersistentDegradedCount,
    OtherFailureCount,
    CascadePartitionCount,
    IntrinsicLimitCount,
    ModelArtifactCount,
}

pub open spec fn counter_value(run: ExperimentRunSummary, c: RunCounter) -> u32 {
    match c {
        RunCounter::ActivationSuccessPermille => run.activation_success_permille,
        RunCounter::RoutePresentPermille => run.route_present_permille,
        RunCounter::RoutePresentTotalWindowPermille => run.route_present_total_window_permille,
        RunCounter::ObjectiveRoutePresenceMinPermille => run.objective_route_presence_min_permille,
        RunCounter::ObjectiveRoutePresenceMaxPermille => run.objective_route_presence_max_permille,
        RunCounter::ObjectiveRoutePresenceSpread => run.objective_route_presence_spread,
        RunCounter::ObjectiveStarvationCount => run.objective_starvation_count,
        RunCounter::ConcurrentRouteRoundCount => run.concurrent_route_round_count,
        RunCounter::RecoverySuccessPermille => run.recovery_success_permille,
        RunCounter::UnrecoveredAfterLossCount => run.unrecovered_after_loss_count,
        RunCounter::RouteChurnCount => run.route_churn_count,
        RunCounter::EngineHandoffCount => run.engine_handoff_count,
        RunCounter::RouteObservationCount => run.route_observation_count,
        RunCounter::BatmanBellmanSelectedRounds => run.batman_bellman_selected_rounds,
        RunCounter::BatmanClassicSelectedRounds => run.batman_classic_selected_rounds,
        RunCounter::BabelSelectedRounds => run.babel_selected_rounds,
        RunCounter::Olsrv2SelectedRounds => run.olsrv2_selected_rounds,
        RunCounter::PathwaySelectedRounds => run.pathway_selected_rounds,
        RunCounter::ScatterSelectedRounds => run.scatter_selected_rounds,
        RunCounter::ScatterSparseRounds => run.scatter_sparse_rounds,
        RunCounter::ScatterDenseRounds => run.scatter_dense_rounds,
        RunCounter::ScatterBridgingRounds => run.scatter_bridging_rounds,
        RunCounter::ScatterConstrainedRounds => run.scatter_constrained_rounds,
        RunCounter::ScatterReplicateRounds => run.scatter_replicate_rounds,
        RunCounter::ScatterHandoffRounds => run.scatter_handoff_rounds,
        RunCounter::FieldSelectedRounds => run.field_selected_rounds,
        RunCounter::FieldSelectedResultRounds => run.field_selected_result_rounds,
        RunCounter::FieldSearchReconfigurationRounds => run.field_search_reconfiguration_rounds,
        RunCounter::FieldBootstrapActiveRounds => run.field_bootstrap_active_rounds,
        RunCounter::FieldBootstrapActivationPermille => run.field_bootstrap_activation_permille,
        RunCounter::FieldBootstrapHoldPermille => run.field_bootstrap_hold_permille,
        RunCounter::FieldBootstrapNarrowPermille => run.field_bootstrap_narrow_permille,
        RunCounter::FieldBootstrapUpgradePermille => run.field_bootstrap_upgrade_permille,
        RunCounter::FieldBootstrapWithdrawPermille => run.field_bootstrap_withdraw_permille,
        RunCounter::FieldDegradedSteadyEntryPermille => run.field_degraded_steady_entry_permille,
        RunCounter::FieldDegradedSteadyRecoveryPermille => run.field_degraded_steady_recovery_permille,
        RunCounter::FieldDegradedToBootstrapPermille => run.field_degraded_to_bootstrap_permille,
        RunCounter::FieldDegradedSteadyRoundPermille => run.field_degraded_steady_round_permille,
        RunCounter::FieldServiceRetentionCarryForwardPermille => run.field_service_retention_carry_forward_permille,
        RunCounter::FieldAsymmetricShiftSuccessPermille => run.field_asymmetric_shift_success_permille,
        RunCounter::FieldProtocolReconfigurationCount => run.field_protocol_reconfiguration_count,
        RunCounter::FieldRouteBoundReconfigurationCount => run.field_route_bound_reconfiguration_count,
        RunCounter::FieldContinuationShiftCount => run.field_continuation_shift_count,
        RunCounter::FieldCorridorNarrowCount => run.field_corridor_narrow_count,
        RunCounter::FieldCheckpointRestoreCount => run.field_checkpoint_restore_count,
        RunCounter::StabilityTotal => run.stability_total,
        RunCounter::MaintenanceFailureCount => run.maintenance_failure_count,
        RunCounter::FailureSummaryCount => run.failure_summary_count,
        RunCounter::NoCandidateCount => run.no_candidate_count,
        RunCounter::InadmissibleCandidateCount => run.inadmissible_candidate_count,
        RunCounter::LostReachabilityCount => run.lost_reachability_count,
        RunCounter::ReplacementLoopCount => run.replacement_loop_count,
        RunCounter::ActivationAttemptFailureCount => run.activation_attempt_failure_count,
        RunCounter::ActivationFailureCount => run.activation_failure_count,
        RunCounter::PersistentDegradedCount => run.persistent_degraded_count,
        RunCounter::OtherFailureCount => run.other_failure_count,
        RunCounter::CascadePartitionCount => run.cascade_partition_count,
        RunCounter::IntrinsicLimitCount => run.intrinsic_limit_count,
        RunCounter::ModelArtifactCount => run.model_artifact_count,
    }
}

/// Reads a counter of a run row.
pub fn read_counter(run: &ExperimentRunSummary, c: RunCounter) -> (r: u32)
    ensures
        r == counter_value(*run, c),
{
    match c {
        RunCounter::ActivationSuccessPermille => run.activation_success_permille,
        RunCounter::RoutePresentPermille => run.route_present_permille,
        RunCounter::RoutePresentTotalWindowPermille => run.route_present_total_window_permille,
        RunCounter::ObjectiveRoutePresenceMinPermille => run.objective_route_presence_min_permille,
        RunCounter::ObjectiveRoutePresenceMaxPermille => run.objective_route_presence_max_permille,
        RunCounter::ObjectiveRoutePresenceSpread => run.objective_route_presence_spread,
        RunCounter::ObjectiveStarvationCount => run.objective_starvation_count,
        RunCounter::ConcurrentRouteRoundCount => run.concurrent_route_round_count,
        RunCounter::RecoverySuccessPermille => run.recovery_success_permille,
        RunCounter::UnrecoveredAfterLossCount => run.unrecovered_after_loss_count,
        RunCounter::RouteChurnCount => run.route_churn_count,
        RunCounter::EngineHandoffCount => run.engine_handoff_count,
        RunCounter::RouteObservationCount => run.route_observation_count,
        RunCounter::BatmanBellmanSelectedRounds => run.batman_bellman_selected_rounds,
        RunCounter::BatmanClassicSelectedRounds => run.batman_classic_selected_rounds,
        RunCounter::BabelSelectedRounds => run.babel_selected_rounds,
        RunCounter::Olsrv2SelectedRounds => run.olsrv2_selected_rounds,
        RunCounter::PathwaySelectedRounds => run.pathway_selected_rounds,
        RunCounter::ScatterSelectedRounds => run.scatter_selected_rounds,
        RunCounter::ScatterSparseRounds => run.scatter_sparse_rounds,
        RunCounter::ScatterDenseRounds => run.scatter_dense_rounds,
        RunCounter::ScatterBridgingRounds => run.scatter_bridging_rounds,
        RunCounter::ScatterConstrainedRounds => run.scatter_constrained_rounds,
        RunCounter::ScatterReplicateRounds => run.scatter_replicate_rounds,
        RunCounter::ScatterHandoffRounds => run.scatter_handoff_rounds,
        RunCounter::FieldSelectedRounds => run.field_selected_rounds,
        RunCounter::FieldSelectedResultRounds => run.field_selected_result_rounds,
        RunCounter::FieldSearchReconfigurationRounds => run.field_search_reconfiguration_rounds,
        RunCounter::FieldBootstrapActiveRounds => run.field_bootstrap_active_rounds,
        RunCounter::FieldBootstrapActivationPermille => run.field_bootstrap_activation_permille,
        RunCounter::FieldBootstrapHoldPermille => run.field_bootstrap_hold_permille,
        RunCounter::FieldBootstrapNarrowPermille => run.field_bootstrap_narrow_permille,
        RunCounter::FieldBootstrapUpgradePermille => run.field_bootstrap_upgrade_permille,
        RunCounter::FieldBootstrapWithdrawPermille => run.field_bootstrap_withdraw_permille,
        RunCounter::FieldDegradedSteadyEntryPermille => run.field_degraded_steady_entry_permille,
        RunCounter::FieldDegradedSteadyRecoveryPermille => run.field_degraded_steady_recovery_permille,
        RunCounter::FieldDegradedToBootstrapPermille => run.field_degraded_to_bootstrap_permille,
        RunCounter::FieldDegradedSteadyRoundPermille => run.field_degraded_steady_round_permille,
        RunCounter::FieldServiceRetentionCarryForwardPermille => run.field_service_retention_carry_forward_permille,
        RunCounter::FieldAsymmetricShiftSuccessPermille => run.field_asymmetric_shift_success_permille,
        RunCounter::FieldProtocolReconfigurationCount => run.field_protocol_reconfiguration_count,
        RunCounter::FieldRouteBoundReconfigurationCount => run.field_route_bound_reconfiguration_count,
        RunCounter::FieldContinuationShiftCount => run.field_continuation_shift_count,
        RunCounter::FieldCorridorNarrowCount => run.field_corridor_narrow_count,
        RunCounter::FieldCheckpointRestoreCount => run.field_checkpoint_restore_count,
        RunCounter::StabilityTotal => run.stability_total,
        RunCounter::MaintenanceFailureCount => run.maintenance_failure_count,
        RunCounter::FailureSummaryCount => run.failure_summary_count,
        RunCounter::NoCandidateCount => run.no_candidate_count,
        RunCounter::InadmissibleCandidateCount => run.inadmissible_candidate_count,
        RunCounter::LostReachabilityCount => run.lost_reachability_count,
        RunCounter::ReplacementLoopCount => run.replacement_loop_count,
        RunCounter::ActivationAttemptFailureCount => run.activation_attempt_failure_count,
        RunCounter::ActivationFailureCount => run.activation_failure_count,
        RunCounter::PersistentDegradedCount => run.persistent_degraded_count,
        RunCounter::OtherFailureCount => run.other_failure_count,
        RunCounter::CascadePartitionCount => run.cascade_partition_count,
        RunCounter::IntrinsicLimitCount => run.intrinsic_limit_count,
        RunCounter::ModelArtifactCount => run.model_artifact_count,
    }
}

/// An optional measurement of the run row that aggregates average over the
/// runs that have it.
#[derive(Clone, Copy, Debug, PartialEq, Eq, Structural)]
pub enum RunMeasure {
    FirstMaterializationRoundMean,
    FirstDisruptionRoundMean,
    FirstLossRoundMean,
    StalePersistenceRoundMean,
    RecoveryRoundMean,
    BrokerParticipationPermille,
    BrokerConcentrationPermille,
    BrokerRouteChurnCount,
    ActiveRouteHopCountMean,
    ScatterRetainedMessagePeak,
    ScatterDeliveredMessagePeak,
    StabilityFirst,
    StabilityLast,
    StabilityMedian,
}

pub open spec fn measure_value(run: ExperimentRunSummary, c: RunMeasure) -> Option<u32> {
    match c {
        RunMeasure::FirstMaterializationRoundMean => run.first_materialization_round_mean,
        RunMeasure::FirstDisruptionRoundMean => run.first_disruption_round_mean,
        RunMeasure::FirstLossRoundMean => run.first_loss_round_mean,
        RunMeasure::StalePersistenceRoundMean => run.stale_persistence_round_mean,
        RunMeasure::RecoveryRoundMean => run.recovery_round_mean,
        RunMeasure::BrokerParticipationPermille => run.broker_participation_permille,
        RunMeasure::BrokerConcentrationPermille => run.broker_concentration_permille,
        RunMeasure::BrokerRouteChurnCount => run.broker_route_churn_count,
        RunMeasure::ActiveRouteHopCountMean => run.active_route_hop_count_mean,
        RunMeasure::ScatterRetainedMessagePeak => run.scatter_retained_message_peak,
        RunMeasure::ScatterDeliveredMessagePeak => run.scatter_delivered_message_peak,
        RunMeasure::StabilityFirst => run.stability_first,
        RunMeasure::StabilityLast => run.stability_last,
        RunMeasure::StabilityMedian => run.stability_median,
    }
}

/// Reads an optional measurement of a run row.
pub fn read_measure(run: &ExperimentRunSummary, c: RunMeasure) -> (r: Option<u32>)
    ensures
        r == measure_value(*run, c),
{
    match c {
        RunMeasure::FirstMaterializationRoundMean => run.first_materialization_round_mean,
        RunMeasure::FirstDisruptionRoundMean => run.first_disruption_round_mean,
        RunMeasure::FirstLossRoundMean => run.first_loss_round_mean,
        RunMeasure::StalePersistenceRoundMean => run.stale_persistence_round_mean,
        RunMeasure::RecoveryRoundMean => run.recovery_round_mean,
        RunMeasure::BrokerParticipationPermille => run.broker_participation_permille,
        RunMeasure::BrokerConcentrationPermille => run.broker_concentration_permille,
        RunMeasure::BrokerRouteChurnCount => run.broker_route_churn_count,
        RunMeasure::ActiveRouteHopCountMean => run.active_route_hop_count_mean,
        RunMeasure::ScatterRetainedMessagePeak => run.scatter_retained_message_peak,
        RunMeasure::ScatterDeliveredMessagePeak => run.scatter_delivered_message_peak,
        RunMeasure::StabilityFirst => run.stability_first,
        RunMeasure::StabilityLast => run.stability_last,
        RunMeasure::StabilityMedian => run.stability_median,
    }
}

/// A label of the run row whose modal value aggregates report.
#[derive(Clone, Copy, Debug, PartialEq, Eq, Structural)]
pub enum RunLabel {
    DominantEngine,
    FieldContinuityBand,
    FieldCommitmentResolution,
    FieldLastOutcome,
    FieldLastContinuityTransition,
    FieldLastPromotionDecision,
    FieldLastPromotionBlocker,
}

pub open spec fn label_value(run: ExperimentRunSummary, c: RunLabel) -> Option<String> {
    match c {
        RunLabel::DominantEngine => run.dominant_engine,
        RunLabel::FieldContinuityBand => run.field_continuity_band,
        RunLabel::FieldCommitmentResolution => run.field_commitment_resolution,
        RunLabel::FieldLastOutcome => run.field_last_outcome,
        RunLabel::FieldLastContinuityTransition => run.field_last_continuity_transition,
        RunLabel::FieldLastPromotionDecision => run.field_last_promotion_decision,
        RunLabel::FieldLastPromotionBlocker => run.field_last_promotion_blocker,
    }
}

/// Reads a label of a run row.
pub fn read_label(run: &ExperimentRunSummary, c: RunLabel) -> (r: Option<String>)
    ensures
        r == label_value(*run, c),
{
    match c {
        RunLabel::DominantEngine => run.dominant_engine.clone(),
        RunLabel::FieldContinuityBand => run.field_continuity_band.clone(),
        RunLabel::FieldCommitmentResolution => run.field_commitment_resolution.clone(),
        RunLabel::FieldLastOutcome => run.field_last_outcome.clone(),
        RunLabel::FieldLastContinuityTransition => run.field_last_continuity_transition.clone(),
        RunLabel::FieldLastPromotionDecision => run.field_last_promotion_decision.clone(),
        RunLabel::FieldLastPromotionBlocker => run.field_last_promotion_blocker.clone(),
    }
}

/// `agg` is the aggregate of the non-empty run group `group`: identity,
/// parameter and regime fields come from the first run, counters are means,
/// optional measurements are means over the runs that have them, labels are
/// modal, and the acceptance verdict follows the thresholds.
pub open spec fn aggregate_matches(agg: ExperimentAggregateSummary, group: Seq<ExperimentRunSummary>) -> bool {
    let first = group[0];
    &&& agg.suite_id@ == first.suite_id@
    &&& agg.family_id@ == first.family_id@
    &&& agg.engine_family@ == first.engine_family@
    &&& agg.execution_lane@ == first.execution_lane@
    &&& agg.config_id@ == first.config_id@
    &&& opt_chars(agg.comparison_engine_set) == opt_chars(first.comparison_engine_set)
    &&& agg.batman_bellman_stale_after_ticks == first.batman_bellman_stale_after_ticks
    &&& agg.batman_bellman_next_refresh_within_ticks == first.batman_bellman_next_refresh_within_ticks
    &&& agg.batman_classic_stale_after_ticks == first.batman_classic_stale_after_ticks
    &&& agg.batman_classic_next_refresh_within_ticks == first.batman_classic_next_refresh_within_ticks
    &&& agg.babel_stale_after_ticks == first.babel_stale_after_ticks
    &&& agg.babel_next_refresh_within_ticks == first.babel_next_refresh_within_ticks
    &&& agg.olsrv2_stale_after_ticks == first.olsrv2_stale_after_ticks
    &&& agg.olsrv2_next_refresh_within_ticks == first.olsrv2_next_refresh_within_ticks
    &&& agg.pathway_query_budget == first.pathway_query_budget
    &&& opt_chars(agg.pathway_heuristic_mode) == opt_chars(first.pathway_heuristic_mode)
    &&& opt_chars(agg.scatter_profile_id) == opt_chars(first.scatter_profile_id)
    &&& agg.field_query_budget == first.field_query_budget
    &&& opt_chars(agg.field_heuristic_mode) == opt_chars(first.field_heuristic_mode)
    &&& agg.field_service_publication_neighbor_limit == first.field_service_publication_neighbor_limit
    &&& agg.field_service_freshness_weight == first.field_service_freshness_weight
    &&& agg.field_service_narrowing_bias == first.field_service_narrowing_bias
    &&& agg.field_node_bootstrap_support_floor == first.field_node_bootstrap_support_floor
    &&& agg.field_node_bootstrap_top_mass_floor == first.field_node_bootstrap_top_mass_floor
    &&& agg.field_node_bootstrap_entropy_ceiling == first.field_node_bootstrap_entropy_ceiling
    &&& agg.field_node_discovery_enabled == first.field_node_discovery_enabled
    &&& agg.density@ == first.density@
    &&& agg.loss@ == first.loss@
    &&& agg.interference@ == first.interference@
    &&& agg.asymmetry@ == first.asymmetry@
    &&& agg.churn@ == first.churn@
    &&& agg.node_pressure@ == first.node_pressure@
    &&& agg.objective_regime@ == first.objective_regime@
    &&& agg.stress_score == first.stress_score
    &&& agg.run_count == clamp_u32(group.len() as int)
    &&& (agg.activation_success_permille_min, agg.activation_success_permille_max, agg.activation_success_permille_spread) == min_max_spread(counter_series(group, RunCounter::ActivationSuccessPermille))
    &&& (agg.route_present_permille_min, agg.route_present_permille_max, agg.route_present_permille_spread) == min_max_spread(counter_series(group, RunCounter::RoutePresentPermille))
    &&& agg.activation_success_permille_mean == mean_u32(counter_series(group, RunCounter::ActivationSuccessPermille))
    &&& agg.route_present_permille_mean == mean_u32(counter_series(group, RunCounter::RoutePresentPermille))
    &&& agg.route_present_total_window_permille_mean == mean_u32(counter_series(group, RunCounter::RoutePresentTotalWindowPermille))
    &&& agg.objective_route_presence_min_permille_mean == mean_u32(counter_series(group, RunCounter::ObjectiveRoutePresenceMinPermille))
    &&& agg.objective_route_presence_max_permille_mean == mean_u32(counter_series(group, RunCounter::ObjectiveRoutePresenceMaxPermille))
    &&& agg.objective_route_presence_spread_mean == mean_u32(counter_series(group, RunCounter::ObjectiveRoutePresenceSpread))
    &&& agg.objective_starvation_count_mean == mean_u32(counter_series(group, RunCounter::ObjectiveStarvationCount))
    &&& agg.concurrent_route_round_count_mean == mean_u32(counter_series(group, RunCounter::ConcurrentRouteRoundCount))
    &&& agg.recovery_success_permille_mean == mean_u32(counter_series(group, RunCounter::RecoverySuccessPermille))
    &&& agg.unrecovered_after_loss_count_mean == mean_u32(counter_series(group, RunCounter::UnrecoveredAfterLossCount))
    &&& agg.route_churn_count_mean == mean_u32(counter_series(group, RunCounter::RouteChurnCount))
    &&& agg.engine_handoff_count_mean == mean_u32(counter_series(group, RunCounter::EngineHandoffCount))
    &&& agg.route_observation_count_mean == mean_u32(counter_series(group, RunCounter::RouteObservationCount))
    &&& agg.batman_bellman_selected_rounds_mean == mean_u32(counter_series(group, RunCounter::BatmanBellmanSelectedRounds))
    &&& agg.batman_classic_selected_rounds_mean == mean_u32(counter_series(group, RunCounter::BatmanClassicSelectedRounds))
    &&& agg.babel_selected_rounds_mean == mean_u32(counter_series(group, RunCounter::BabelSelectedRounds))
    &&& agg.olsrv2_selected_rounds_mean == mean_u32(counter_series(group, RunCounter::Olsrv2SelectedRounds))
    &&& agg.pathway_selected_rounds_mean == mean_u32(counter_series(group, RunCounter::PathwaySelectedRounds))
    &&& agg.scatter_selected_rounds_mean == mean_u32(counter_series(group, RunCounter::ScatterSelectedRounds))
    &&& agg.scatter_sparse_rounds_mean == mean_u32(counter_series(group, RunCounter::ScatterSparseRounds))
    &&& agg.scatter_dense_rounds_mean == mean_u32(counter_series(group, RunCounter::ScatterDenseRounds))
    &&& agg.scatter_bridging_rounds_mean == mean_u32(counter_series(group, RunCounter::ScatterBridgingRounds))
    &&& agg.scatter_constrained_rounds_mean == mean_u32(counter_series(group, RunCounter::ScatterConstrainedRounds))
    &&& agg.scatter_replicate_rounds_mean == mean_u32(counter_series(group, RunCounter::ScatterReplicateRounds))
    &&& agg.scatter_handoff_rounds_mean == mean_u32(counter_series(group, RunCounter::ScatterHandoffRounds))
    &&& agg.field_selected_rounds_mean == mean_u32(counter_series(group, RunCounter::FieldSelectedRounds))
    &&& agg.field_selected_result_rounds_mean == mean_u32(counter_series(group, RunCounter::FieldSelectedResultRounds))
    &&& agg.field_search_reconfiguration_rounds_mean == mean_u32(counter_series(group, RunCounter::FieldSearchReconfigurationRounds))
    &&& agg.field_bootstrap_active_rounds_mean == mean_u32(counter_series(group, RunCounter::FieldBootstrapActiveRounds))
    &&& agg.field_bootstrap_activation_permille_mean == mean_u32(counter_series(group, RunCounter::FieldBootstrapActivationPermille))
    &&& agg.field_bootstrap_hold_permille_mean == mean_u32(counter_series(group, RunCounter::FieldBootstrapHoldPermille))
    &&& agg.field_bootstrap_narrow_permille_mean == mean_u32(counter_series(group, RunCounter::FieldBootstrapNarrowPermille))
    &&& agg.field_bootstrap_upgrade_permille_mean == mean_u32(counter_series(group, RunCounter::FieldBootstrapUpgradePermille))
    &&& agg.field_bootstrap_withdraw_permille_mean == mean_u32(counter_series(group, RunCounter::FieldBootstrapWithdrawPermille))
    &&& agg.field_degraded_steady_entry_permille_mean == mean_u32(counter_series(group, RunCounter::FieldDegradedSteadyEntryPermille))
    &&& agg.field_degraded_steady_recovery_permille_mean == mean_u32(counter_series(group, RunCounter::FieldDegradedSteadyRecoveryPermille))
    &&& agg.field_degraded_to_bootstrap_permille_mean == mean_u32(counter_series(group, RunCounter::FieldDegradedToBootstrapPermille))
    &&& agg.field_degraded_steady_round_permille_mean == mean_u32(counter_series(group, RunCounter::FieldDegradedSteadyRoundPermille))
    &&& agg.field_service_retention_carry_forward_permille_mean == mean_u32(counter_series(group, RunCounter::FieldServiceRetentionCarryForwardPermille))
    &&& agg.field_asymmetric_shift_success_permille_mean == mean_u32(counter_series(group, RunCounter::FieldAsymmetricShiftSuccessPermille))
    &&& agg.field_protocol_reconfiguration_count_mean == mean_u32(counter_series(group, RunCounter::FieldProtocolReconfigurationCount))
    &&& agg.field_route_bound_reconfiguration_count_mean == mean_u32(counter_series(group, RunCounter::FieldRouteBoundReconfigurationCount))
    &&& agg.field_continuation_shift_count_mean == mean_u32(counter_series(group, RunCounter::FieldContinuationShiftCount))
    &&& agg.field_corridor_narrow_count_mean == mean_u32(counter_series(group, RunCounter::FieldCorridorNarrowCount))
    &&& agg.field_checkpoint_restore_count_mean == mean_u32(counter_series(group, RunCounter::FieldCheckpointRestoreCount))
    &&& agg.stability_total_mean == mean_u32(counter_series(group, RunCounter::StabilityTotal))
    &&& agg.maintenance_failure_count_mean == mean_u32(counter_series(group, RunCounter::MaintenanceFailureCount))
    &&& agg.failure_summary_count_mean == mean_u32(counter_series(group, RunCounter::FailureSummaryCount))
    &&& agg.no_candidate_count_mean == mean_u32(counter_series(group, RunCounter::NoCandidateCount))
    &&& agg.inadmissible_candidate_count_mean == mean_u32(counter_series(group, RunCounter::InadmissibleCandidateCount))
    &&& agg.lost_reachability_count_mean == mean_u32(counter_series(group, RunCounter::LostReachabilityCount))
    &&& agg.replacement_loop_count_mean == mean_u32(counter_series(group, RunCounter::ReplacementLoopCount))
    &&& agg.activation_attempt_failure_count_mean == mean_u32(counter_series(group, RunCounter::ActivationAttemptFailureCount))
    &&& agg.activation_failure_count_mean == mean_u32(counter_series(group, RunCounter::ActivationFailureCount))
    &&& agg.persistent_degraded_count_mean == mean_u32(counter_series(group, RunCounter::PersistentDegradedCount))
    &&& agg.other_failure_count_mean == mean_u32(counter_series(group, RunCounter::OtherFailureCount))
    &&& agg.cascade_partition_count_mean == mean_u32(counter_series(group, RunCounter::CascadePartitionCount))
    &&& agg.intrinsic_limit_count_mean == mean_u32(counter_series(group, RunCounter::IntrinsicLimitCount))
    &&& agg.model_artifact_count_mean == mean_u32(counter_series(group, RunCounter::ModelArtifactCount))
    &&& agg.first_materialization_round_mean == mean_option_u32(measure_series(group, RunMeasure::FirstMaterializationRoundMean))
    &&& agg.first_disruption_round_mean == mean_option_u32(measure_series(group, RunMeasure::FirstDisruptionRoundMean))
    &&& agg.first_loss_round_mean == mean_option_u32(measure_series(group, RunMeasure::FirstLossRoundMean))
    &&& agg.stale_persistence_round_mean == mean_option_u32(measure_series(group, RunMeasure::StalePersistenceRoundMean))
    &&& agg.recovery_round_mean == mean_option_u32(measure_series(group, RunMeasure::RecoveryRoundMean))
    &&& agg.broker_participation_permille_mean == mean_option_u32(measure_series(group, RunMeasure::BrokerParticipationPermille))
    &&& agg.broker_concentration_permille_mean == mean_option_u32(measure_series(group, RunMeasure::BrokerConcentrationPermille))
    &&& agg.broker_route_churn_count_mean == mean_option_u32(measure_series(group, RunMeasure::BrokerRouteChurnCount))
    &&& agg.active_route_hop_count_mean == mean_option_u32(measure_series(group, RunMeasure::ActiveRouteHopCountMean))
    &&& agg.scatter_retained_message_peak_mean == mean_option_u32(measure_series(group, RunMeasure::ScatterRetainedMessagePeak))
    &&& agg.scatter_delivered_message_peak_mean == mean_option_u32(measure_series(group, RunMeasure::ScatterDeliveredMessagePeak))
    &&& agg.stability_first_mean == mean_option_u32(measure_series(group, RunMeasure::StabilityFirst))
    &&& agg.stability_last_mean == mean_option_u32(measure_series(group, RunMeasure::StabilityLast))
    &&& agg.stability_median_mean == mean_option_u32(measure_series(group, RunMeasure::StabilityMedian))
    &&& label_mode_matches(agg.dominant_engine, group, RunLabel::DominantEngine)
    &&& label_mode_matches(agg.field_continuity_band_mode, group, RunLabel::FieldContinuityBand)
    &&& label_mode_matches(agg.field_commitment_resolution_mode, group, RunLabel::FieldCommitmentResolution)
    &&& label_mode_matches(agg.field_last_outcome_mode, group, RunLabel::FieldLastOutcome)
    &&& label_mode_matches(agg.field_last_continuity_transition_mode, group, RunLabel::FieldLastContinuityTransition)
    &&& label_mode_matches(agg.field_last_promotion_decision_mode, group, RunLabel::FieldLastPromotionDecision)
    &&& label_mode_matches(agg.field_last_promotion_blocker_mode, group, RunLabel::FieldLastPromotionBlocker)
    &&& agg.equivalence_pass_count == clamp_u32(equivalence_passes(group) as int)
    &&& agg.acceptable == acceptable_means(agg.activation_success_permille_mean, agg.route_present_total_window_permille_mean, agg.lost_reachability_count_mean, agg.maintenance_failure_count_mean)
}

fn aggregate_group(runs: &Vec<ExperimentRunSummary>, members: &Vec<usize>) -> (agg: ExperimentAggregateSummary)
    requires
        members@.len() > 0,
        forall|k: int| 0 <= k < members@.len() ==> #[trigger] members@[k] < runs@.len(),
    ensures
        aggregate_matches(agg, member_runs(runs@, members@)),
{
    let first = &runs[members[0]];
    let run_count: u32 = if members.len() > u32::MAX as usize { u32::MAX } else { members.len() as u32 };
    let (activation_success_permille_min, activation_success_permille_max, activation_success_permille_spread) = min_max_spread_u32(&counter_column(runs, members, RunCounter::ActivationSuccessPermille));
    let (route_present_permille_min, route_present_permille_max, route_present_permille_spread) = min_max_spread_u32(&counter_column(runs, members, RunCounter::RoutePresentPermille));
    let activation_success_permille_mean = average_u32(&counter_column(runs, members, RunCounter::ActivationSuccessPermille));
    let route_present_permille_mean = average_u32(&counter_column(runs, members, RunCounter::RoutePresentPermille));
    let route_present_total_window_permille_mean = average_u32(&counter_column(runs, members, RunCounter::RoutePresentTotalWindowPermille));
    let objective_route_presence_min_permille_mean = average_u32(&counter_column(runs, members, RunCounter::ObjectiveRoutePresenceMinPermille));
    let objective_route_presence_max_permille_mean = average_u32(&counter_column(runs, members, RunCounter::ObjectiveRoutePresenceMaxPermille));
    let objective_route_presence_spread_mean = average_u32(&counter_column(runs, members, RunCounter::ObjectiveRoutePresenceSpread));
    let objective_starvation_count_mean = average_u32(&counter_column(runs, members, RunCounter::ObjectiveStarvationCount));
    let concurrent_route_round_count_mean = average_u32(&counter_column(runs, members, RunCounter::ConcurrentRouteRoundCount));
    let recovery_success_permille_mean = average_u32(&counter_column(runs, members, RunCounter::RecoverySuccessPermille));
    let unrecovered_after_loss_count_mean = average_u32(&counter_column(runs, members, RunCounter::UnrecoveredAfterLossCount));
    let route_churn_count_mean = average_u32(&counter_column(runs, members, RunCounter::RouteChurnCount));
    let engine_handoff_count_mean = average_u32(&counter_column(runs, members, RunCounter::EngineHandoffCount));
    let route_observation_count_mean = average_u32(&counter_column(runs, members, RunCounter::RouteObservationCount));
    let batman_bellman_selected_rounds_mean = average_u32(&counter_column(runs, members, RunCounter::BatmanBellmanSelectedRounds));
    let batman_classic_selected_rounds_mean = average_u32(&counter_column(runs, members, RunCounter::BatmanClassicSelectedRounds));
    let babel_selected_rounds_mean = average_u32(&counter_column(runs, members, RunCounter::BabelSelectedRounds));
    let olsrv2_selected_rounds_mean = average_u32(&counter_column(runs, members, RunCounter::Olsrv2SelectedRounds));
    let pathway_selected_rounds_mean = average_u32(&counter_column(runs, members, RunCounter::PathwaySelectedRounds));
    let scatter_selected_rounds_mean = average_u32(&counter_column(runs, members, RunCounter::ScatterSelectedRounds));
    let scatter_sparse_rounds_mean = average_u32(&counter_column(runs, members, RunCounter::ScatterSparseRounds));
    let scatter_dense_rounds_mean = average_u32(&counter_column(runs, members, RunCounter::ScatterDenseRounds));
    let scatter_bridging_rounds_mean = average_u32(&counter_column(runs, members, RunCounter::ScatterBridgingRounds));
    let scatter_constrained_rounds_mean = average_u32(&counter_column(runs, members, RunCounter::ScatterConstrainedRounds));
    let scatter_replicate_rounds_mean = average_u32(&counter_column(runs, members, RunCounter::ScatterReplicateRounds));
    let scatter_handoff_rounds_mean = average_u32(&counter_column(runs, members, RunCounter::ScatterHandoffRounds));
    let field_selected_rounds_mean = average_u32(&counter_column(runs, members, RunCounter::FieldSelectedRounds));
    let field_selected_result_rounds_mean = average_u32(&counter_column(runs, members, RunCounter::FieldSelectedResultRounds));
    let field_search_reconfiguration_rounds_mean = average_u32(&counter_column(runs, members, RunCounter::FieldSearchReconfigurationRounds));
    let field_bootstrap_active_rounds_mean = average_u32(&counter_column(runs, members, RunCounter::FieldBootstrapActiveRounds));
    let field_bootstrap_activation_permille_mean = average_u32(&counter_column(runs, members, RunCounter::FieldBootstrapActivationPermille));
    let field_bootstrap_hold_permille_mean = average_u32(&counter_column(runs, members, RunCounter::FieldBootstrapHoldPermille));
    let field_bootstrap_narrow_permille_mean = average_u32(&counter_column(runs, members, RunCounter::FieldBootstrapNarrowPermille));
    let field_bootstrap_upgrade_permille_mean = average_u32(&counter_column(runs, members, RunCounter::FieldBootstrapUpgradePermille));
    let field_bootstrap_withdraw_permille_mean = average_u32(&counter_column(runs, members, RunCounter::FieldBootstrapWithdrawPermille));
    let field_degraded_steady_entry_permille_mean = average_u32(&counter_column(runs, members, RunCounter::FieldDegradedSteadyEntryPermille));
    let field_degraded_steady_recovery_permille_mean = average_u32(&counter_column(runs, members, RunCounter::FieldDegradedSteadyRecoveryPermille));
    let field_degraded_to_bootstrap_permille_mean = average_u32(&counter_column(runs, members, RunCounter::FieldDegradedToBootstrapPermille));
    let field_degraded_steady_round_permille_mean = average_u32(&counter_column(runs, members, RunCounter::FieldDegradedSteadyRoundPermille));
    let field_service_retention_carry_forward_permille_mean = average_u32(&counter_column(runs, members, RunCounter::FieldServiceRetentionCarryForwardPermille));
    let field_asymmetric_shift_success_permille_mean = average_u32(&counter_column(runs, members, RunCounter::FieldAsymmetricShiftSuccessPermille));
    let field_protocol_reconfiguration_count_mean = average_u32(&counter_column(runs, members, RunCounter::FieldProtocolReconfigurationCount));
    let field_route_bound_reconfiguration_count_mean = average_u32(&counter_column(runs, members, RunCounter::FieldRouteBoundReconfigurationCount));
    let field_continuation_shift_count_mean = average_u32(&counter_column(runs, members, RunCounter::FieldContinuationShiftCount));
    let field_corridor_narrow_count_mean = average_u32(&counter_column(runs, members, RunCounter::FieldCorridorNarrowCount));
    let field_checkpoint_restore_count_mean = average_u32(&counter_column(runs, members, RunCounter::FieldCheckpointRestoreCount));
    let stability_total_mean = average_u32(&counter_column(runs, members, RunCounter::StabilityTotal));
    let maintenance_failure_count_mean = average_u32(&counter_column(runs, members, RunCounter::MaintenanceFailureCount));
    let failure_summary_count_mean = average_u32(&counter_column(runs, members, RunCounter::FailureSummaryCount));
    let no_candidate_count_mean = average_u32(&counter_column(runs, members, RunCounter::NoCandidateCount));
    let inadmissible_candidate_count_mean = average_u32(&counter_column(runs, members, RunCounter::InadmissibleCandidateCount));
    let lost_reachability_count_mean = average_u32(&counter_column(runs, members, RunCounter::LostReachabilityCount));
    let replacement_loop_count_mean = average_u32(&counter_column(runs, members, RunCounter::ReplacementLoopCount));
    let activation_attempt_failure_count_mean = average_u32(&counter_column(runs, members, RunCounter::ActivationAttemptFailureCount));
    let activation_failure_count_mean = average_u32(&counter_column(runs, members, RunCounter::ActivationFailureCount));
    let persistent_degraded_count_mean = average_u32(&counter_column(runs, members, RunCounter::PersistentDegradedCount));
    let other_failure_count_mean = average_u32(&counter_column(runs, members, RunCounter::OtherFailureCount));
    let cascade_partition_count_mean = average_u32(&counter_column(runs, members, RunCounter::CascadePartitionCount));
    let intrinsic_limit_count_mean = average_u32(&counter_column(runs, members, RunCounter::IntrinsicLimitCount));
    let model_artifact_count_mean = average_u32(&counter_column(runs, members, RunCounter::ModelArtifactCount));
    let first_materialization_round_mean = average_option_u32(&measure_column(runs, members, RunMeasure::FirstMaterializationRoundMean));
    let first_disruption_round_mean = average_option_u32(&measure_column(runs, members, RunMeasure::FirstDisruptionRoundMean));
    let first_loss_round_mean = average_option_u32(&measure_column(runs, members, RunMeasure::FirstLossRoundMean));
    let stale_persistence_round_mean = average_option_u32(&measure_column(runs, members, RunMeasure::StalePersistenceRoundMean));
    let recovery_round_mean = average_option_u32(&measure_column(runs, members, RunMeasure::RecoveryRoundMean));
    let broker_participation_permille_mean = average_option_u32(&measure_column(runs, members, RunMeasure::BrokerParticipationPermille));
    let broker_concentration_permille_mean = average_option_u32(&measure_column(runs, members, RunMeasure::BrokerConcentrationPermille));
    let broker_route_churn_count_mean = average_option_u32(&measure_column(runs, members, RunMeasure::BrokerRouteChurnCount));
    let active_route_hop_count_mean = average_option_u32(&measure_column(runs, members, RunMeasure::ActiveRouteHopCountMean));
    let scatter_retained_message_peak_mean = average_option_u32(&measure_column(runs, members, RunMeasure::ScatterRetainedMessagePeak));
    let scatter_delivered_message_peak_mean = average_option_u32(&measure_column(runs, members, RunMeasure::ScatterDeliveredMessagePeak));
    let stability_first_mean = average_option_u32(&measure_column(runs, members, RunMeasure::StabilityFirst));
    let stability_last_mean = average_option_u32(&measure_column(runs, members, RunMeasure::StabilityLast));
    let stability_median_mean = average_option_u32(&measure_column(runs, members, RunMeasure::StabilityMedian));
    let dominant_engine = label_mode(runs, members, RunLabel::DominantEngine);
    let field_continuity_band_mode = label_mode(runs, members, RunLabel::FieldContinuityBand);
    let field_commitment_resolution_mode = label_mode(runs, members, RunLabel::FieldCommitmentResolution);
    let field_last_outcome_mode = label_mode(runs, members, RunLabel::FieldLastOutcome);
    let field_last_continuity_transition_mode = label_mode(runs, members, RunLabel::FieldLastContinuityTransition);
    let field_last_promotion_decision_mode = label_mode(runs, members, RunLabel::FieldLastPromotionDecision);
    let field_last_promotion_blocker_mode = label_mode(runs, members, RunLabel::FieldLastPromotionBlocker);
    let equivalence_pass_count = count_equivalence_passes(runs, members);
    let acceptable = activation_success_permille_mean >= 900 && route_present_total_window_permille_mean >= 500
        && lost_reachability_count_mean == 0 && maintenance_failure_count_mean == 0;
    ExperimentAggregateSummary {
        suite_id: first.suite_id.clone(),
        family_id: first.family_id.clone(),
        engine_family: first.engine_family.clone(),
        execution_lane: first.execution_lane.clone(),
        config_id: first.config_id.clone(),
        comparison_engine_set: clone_opt_string(&first.comparison_engine_set),
        batman_bellman_stale_after_ticks: first.batman_bellman_stale_after_ticks,
        batman_bellman_next_refresh_within_ticks: first.batman_bellman_next_refresh_within_ticks,
        batman_classic_stale_after_ticks: first.batman_classic_stale_after_ticks,
        batman_classic_next_refresh_within_ticks: first.batman_classic_next_refresh_within_ticks,
        babel_stale_after_ticks: first.babel_stale_after_ticks,
        babel_next_refresh_within_ticks: first.babel_next_refresh_within_ticks,
        olsrv2_stale_after_ticks: first.olsrv2_stale_after_ticks,
        olsrv2_next_refresh_within_ticks: first.olsrv2_next_refresh_within_ticks,
        pathway_query_budget: first.pathway_query_budget,
        pathway_heuristic_mode: clone_opt_string(&first.pathway_heuristic_mode),
        scatter_profile_id: clone_opt_string(&first.scatter_profile_id),
        field_query_budget: first.field_query_budget,
        field_heuristic_mode: clone_opt_string(&first.field_heuristic_mode),
        field_service_publication_neighbor_limit: first.field_service_publication_neighbor_limit,
        field_service_freshness_weight: first.field_service_freshness_weight,
        field_service_narrowing_bias: first.field_service_narrowing_bias,
        field_node_bootstrap_support_floor: first.field_node_bootstrap_support_floor,
        field_node_bootstrap_top_mass_floor: first.field_node_bootstrap_top_mass_floor,
        field_node_bootstrap_entropy_ceiling: first.field_node_bootstrap_entropy_ceiling,
        field_node_discovery_enabled: first.field_node_discovery_enabled,
        density: first.density.clone(),
        loss: first.loss.clone(),
        interference: first.interference.clone(),
        asymmetry: first.asymmetry.clone(),
        churn: first.churn.clone(),
        node_pressure: first.node_pressure.clone(),
        objective_regime: first.objective_regime.clone(),
        stress_score: first.stress_score,
        run_count,
        activation_success_permille_mean,
        activation_success_permille_min,
        activation_success_permille_max,
        activation_success_permille_spread,
        route_present_permille_mean,
        route_present_permille_min,
        route_present_permille_max,
        route_present_permille_spread,
        route_present_total_window_permille_mean,
        objective_route_presence_min_permille_mean,
        objective_route_presence_max_permille_mean,
        objective_route_presence_spread_mean,
        objective_starvation_count_mean,
        concurrent_route_round_count_mean,
        recovery_success_permille_mean,
        unrecovered_after_loss_count_mean,
        route_churn_count_mean,
        engine_handoff_count_mean,
        route_observation_count_mean,
        batman_bellman_selected_rounds_mean,
        batman_classic_selected_rounds_mean,
        babel_selected_rounds_mean,
        olsrv2_selected_rounds_mean,
        pathway_selected_rounds_mean,
        scatter_selected_rounds_mean,
        scatter_sparse_rounds_mean,
        scatter_dense_rounds_mean,
        scatter_bridging_rounds_mean,
        scatter_constrained_rounds_mean,
        scatter_replicate_rounds_mean,
        scatter_handoff_rounds_mean,
        field_selected_rounds_mean,
        field_selected_result_rounds_mean,
        field_search_reconfiguration_rounds_mean,
        field_bootstrap_active_rounds_mean,
        field_bootstrap_activation_permille_mean,
        field_bootstrap_hold_permille_mean,
        field_bootstrap_narrow_permille_mean,
        field_bootstrap_upgrade_permille_mean,
        field_bootstrap_withdraw_permille_mean,
        field_degraded_steady_entry_permille_mean,
        field_degraded_steady_recovery_permille_mean,
        field_degraded_to_bootstrap_permille_mean,
        field_degraded_steady_round_permille_mean,
        field_service_retention_carry_forward_permille_mean,
        field_asymmetric_shift_success_permille_mean,
        field_protocol_reconfiguration_count_mean,
        field_route_bound_reconfiguration_count_mean,
        field_continuation_shift_count_mean,
        field_corridor_narrow_count_mean,
        field_checkpoint_restore_count_mean,
        stability_total_mean,
        maintenance_failure_count_mean,
        failure_summary_count_mean,
        no_candidate_count_mean,
        inadmissible_candidate_count_mean,
        lost_reachability_count_mean,
        replacement_loop_count_mean,
        activation_attempt_failure_count_mean,
        activation_failure_count_mean,
        persistent_degraded_count_mean,
        other_failure_count_mean,
        cascade_partition_count_mean,
        intrinsic_limit_count_mean,
        model_artifact_count_mean,
        first_materialization_round_mean,
        first_disruption_round_mean,
        first_loss_round_mean,
        stale_persistence_round_mean,
        recovery_round_mean,
        broker_participation_permille_mean,
        broker_concentration_permille_mean,
        broker_route_churn_count_mean,
        active_route_hop_count_mean,
        scatter_retained_message_peak_mean,
        scatter_delivered_message_peak_mean,
        stability_first_mean,
        stability_last_mean,
        stability_median_mean,
        dominant_engine,
        field_continuity_band_mode,
        field_commitment_resolution_mode,
        field_last_outcome_mode,
        field_last_continuity_transition_mode,
        field_last_promotion_decision_mode,
        field_last_promotion_blocker_mode,
        equivalence_pass_count,
        acceptable,
    }
}

/// The runs at the given positions.
pub open spec fn member_runs(runs: Seq<ExperimentRunSummary>, members: Seq<usize>) -> Seq<ExperimentRunSummary> {
    members.map_values(|i: usize| runs[i as int])
}

pub open spec fn counter_series(group: Seq<ExperimentRunSummary>, c: RunCounter) -> Seq<u32> {
    group.map_values(|r: ExperimentRunSummary| counter_value(r, c))
}

pub open spec fn measure_series(group: Seq<ExperimentRunSummary>, c: RunMeasure) -> Seq<Option<u32>> {
    group.map_values(|r: ExperimentRunSummary| measure_value(r, c))
}

/// The labels that the runs carry, in run order.
pub open spec fn label_list(group: Seq<ExperimentRunSummary>, c: RunLabel) -> Seq<String>
    decreases group.len(),
{
    if group.len() == 0 {
        Seq::empty()
    } else {
        let rest = label_list(group.drop_last(), c);
        match label_value(group.last(), c) {
            Some(s) => rest.push(s),
            None => rest,
        }
    }
}

pub open spec fn label_mode_matches(r: Option<String>, group: Seq<ExperimentRunSummary>, c: RunLabel) -> bool {
    is_mode(label_list(group, c), r)
}

/// Number of runs whose equivalence check passed.
pub open spec fn equivalence_passes(group: Seq<ExperimentRunSummary>) -> nat
    decreases group.len(),
{
    if group.len() == 0 {
        0
    } else {
        equivalence_passes(group.drop_last()) + if group.last().equivalence_passed == Some(true) { 1nat } else { 0nat }
    }
}

fn counter_column(runs: &Vec<ExperimentRunSummary>, members: &Vec<usize>, c: RunCounter) -> (r: Vec<u32>)
    requires
        forall|k: int| 0 <= k < members@.len() ==> #[trigger] members@[k] < runs@.len(),
    ensures
        r@ == counter_series(member_runs(runs@, members@), c),
{
    let mut out: Vec<u32> = Vec::new();
    let mut k: usize = 0;
    while k < members.len()
        invariant
            k <= members@.len(),
            forall|j: int| 0 <= j < members@.len() ==> #[trigger] members@[j] < runs@.len(),
            out@ == counter_series(member_runs(runs@, members@.take(k as int)), c),
        decreases members@.len() - k,
    {
        let ghost before = out@;
        out.push(read_counter(&runs[members[k]], c));
        assert(out@ =~= counter_series(member_runs(runs@, members@.take(k + 1)), c)) by {
            assert(members@.take(k + 1) =~= members@.take(k as int).push(members@[k as int]));
        }
        k = k + 1;
    }
    assert(members@.take(members@.len() as int) =~= members@);
    out
}

fn measure_column(runs: &Vec<ExperimentRunSummary>, members: &Vec<usize>, c: RunMeasure) -> (r: Vec<Option<u32>>)
    requires
        forall|k: int| 0 <= k < members@.len() ==> #[trigger] members@[k] < runs@.len(),
    ensures
        r@ == measure_series(member_runs(runs@, members@), c),
{
    let mut out: Vec<Option<u32>> = Vec::new();
    let mut k: usize = 0;
    while k < members.len()
        invariant
            k <= members@.len(),
            forall|j: int| 0 <= j < members@.len() ==> #[trigger] members@[j] < runs@.len(),
            out@ == measure_series(member_runs(runs@, members@.take(k as int)), c),
        decreases members@.len() - k,
    {
        out.push(read_measure(&runs[members[k]], c));
        assert(out@ =~= measure_series(member_runs(runs@, members@.take(k + 1)), c)) by {
            assert(members@.take(k + 1) =~= members@.take(k as int).push(members@[k as int]));
        }
        k = k + 1;
    }
    assert(members@.take(members@.len() as int) =~= members@);
    out
}

fn label_mode(runs: &Vec<ExperimentRunSummary>, members: &Vec<usize>, c: RunLabel) -> (r: Option<String>)
    requires
        forall|k: int| 0 <= k < members@.len() ==> #[trigger] members@[k] < runs@.len(),
    ensures
        label_mode_matches(r, member_runs(runs@, members@), c),
{
    let mut labels: Vec<String> = Vec::new();
    let mut k: usize = 0;
    while k < members.len()
        invariant
            k <= members@.len(),
            forall|j: int| 0 <= j < members@.len() ==> #[trigger] members@[j] < runs@.len(),
            labels@ == label_list(member_runs(runs@, members@.take(k as int)), c),
            labels@.len() <= k,
        decreases members@.len() - k,
    {
        let ghost prefix = member_runs(runs@, members@.take(k as int));
        assert(member_runs(runs@, members@.take(k + 1)).drop_last() =~= prefix);
        assert(member_runs(runs@, members@.take(k + 1)).last() == runs@[members@[k as int] as int]);
        match read_label(&runs[members[k]], c) {
            Some(s) => labels.push(s),
            None => {},
        }
        k = k + 1;
    }
    assert(members@.take(members@.len() as int) =~= members@);
    mode(&labels)
}

fn count_equivalence_passes(runs: &Vec<ExperimentRunSummary>, members: &Vec<usize>) -> (r: u32)
    requires
        forall|k: int| 0 <= k < members@.len() ==> #[trigger] members@[k] < runs@.len(),
    ensures
        r == clamp_u32(equivalence_passes(member_runs(runs@, members@)) as int),
{
    let mut n: usize = 0;
    let mut k: usize = 0;
    while k < members.len()
        invariant
            k <= members@.len(),
            forall|j: int| 0 <= j < members@.len() ==> #[trigger] members@[j] < runs@.len(),
            n == equivalence_passes(member_runs(runs@, members@.take(k as int))),
            n <= k,
        decreases members@.len() - k,
    {
        let ghost prefix = member_runs(runs@, members@.take(k as int));
        assert(member_runs(runs@, members@.take(k + 1)).drop_last() =~= prefix);
        assert(member_runs(runs@, members@.take(k + 1)).last() == runs@[members@[k as int] as int]);
        if runs[members[k]].equivalence_passed == Some(true) {
            n = n + 1;
        }
        k = k + 1;
    }
    assert(members@.take(members@.len() as int) =~= members@);
    if n > u32::MAX as usize { u32::MAX } else { n as u32 }
}

/// The grouping key of a run: engine family, family, execution lane, engine
/// set, configuration.
pub type RunKey = (Seq<char>, Seq<char>, Seq<char>, Option<Seq<char>>, Seq<char>);

pub open spec fn run_key(r: ExperimentRunSummary) -> RunKey {
    (r.engine_family@, r.family_id@, r.execution_lane@, opt_chars(r.comparison_engine_set), r.config_id@)
}

pub open spec fn aggregate_key(a: ExperimentAggregateSummary) -> RunKey {
    (a.engine_family@, a.family_id@, a.execution_lane@, opt_chars(a.comparison_engine_set), a.config_id@)
}

/// `None` sorts before any label; labels sort lexicographically.
pub open spec fn opt_chars_lt(a: Option<Seq<char>>, b: Option<Seq<char>>) -> bool {
    match (a, b) {
        (None, Some(_)) => true,
        (Some(x), Some(y)) => chars_lt(x, y),
        _ => false,
    }
}

/// Lexicographic order on run keys, component by component.
pub open spec fn key_lt(a: RunKey, b: RunKey) -> bool {
    if a.0 != b.0 {
        chars_lt(a.0, b.0)
    } else if a.1 != b.1 {
        chars_lt(a.1, b.1)
    } else if a.2 != b.2 {
        chars_lt(a.2, b.2)
    } else if a.3 != b.3 {
        opt_chars_lt(a.3, b.3)
    } else {
        chars_lt(a.4, b.4)
    }
}

proof fn lemma_opt_chars_lt_trichotomy(a: Option<Seq<char>>, b: Option<Seq<char>>)
    ensures
        opt_chars_lt(a, b) || opt_chars_lt(b, a) || a == b,
        !(opt_chars_lt(a, b) && opt_chars_lt(b, a)),
{
    match (a, b) {
        (Some(x), Some(y)) => lemma_chars_lt_trichotomy(x, y),
        _ => {},
    }
}

pub proof fn lemma_key_lt_trichotomy(a: RunKey, b: RunKey)
    ensures
        key_lt(a, b) || key_lt(b, a) || a == b,
        !(key_lt(a, b) && key_lt(b, a)),
{
    lemma_chars_lt_trichotomy(a.0, b.0);
    lemma_chars_lt_trichotomy(a.1, b.1);
    lemma_chars_lt_trichotomy(a.2, b.2);
    lemma_opt_chars_lt_trichotomy(a.3, b.3);
    lemma_chars_lt_trichotomy(a.4, b.4);
}

proof fn lemma_chars_lt_irreflexive(a: Seq<char>)
    ensures
        !chars_lt(a, a),
{
    lemma_chars_lt_trichotomy(a, a);
}

pub proof fn lemma_key_lt_transitive(a: RunKey, b: RunKey, c: RunKey)
    requires
        key_lt(a, b),
        key_lt(b, c),
    ensures
        key_lt(a, c),
{
    lemma_key_lt_trichotomy(a, b);
    lemma_key_lt_trichotomy(b, c);
    lemma_key_lt_trichotomy(a, c);
    lemma_chars_lt_trichotomy(a.0, b.0);
    lemma_chars_lt_trichotomy(b.0, c.0);
    lemma_chars_lt_trichotomy(a.0, c.0);
    lemma_chars_lt_trichotomy(a.1, c.1);
    lemma_chars_lt_trichotomy(a.2, c.2);
    lemma_chars_lt_trichotomy(a.4, c.4);
    lemma_opt_chars_lt_trichotomy(a.3, c.3);
    if a.0 != b.0 && b.0 != c.0 {
        lemma_chars_lt_transitive(a.0, b.0, c.0);
    } else if a.0 == b.0 && b.0 == c.0 {
        if a.1 != b.1 && b.1 != c.1 {
            lemma_chars_lt_transitive(a.1, b.1, c.1);
        } else if a.1 == b.1 && b.1 == c.1 {
            if a.2 != b.2 && b.2 != c.2 {
                lemma_chars_lt_transitive(a.2, b.2, c.2);
            } else if a.2 == b.2 && b.2 == c.2 {
                if a.3 != b.3 && b.3 != c.3 {
                    match (a.3, b.3, c.3) {
                        (Some(x), Some(y), Some(z)) => lemma_chars_lt_transitive(x, y, z),
                        _ => {},
                    }
                } else if a.3 == b.3 && b.3 == c.3 {
                    lemma_chars_lt_transitive(a.4, b.4, c.4);
                }
            }
        }
    }
}

fn opt_string_eq(a: &Option<String>, b: &Option<String>) -> (r: bool)
    ensures
        r == (opt_chars(*a) == opt_chars(*b)),
{
    match (a, b) {
        (Some(x), Some(y)) => *x == *y,
        (None, None) => true,
        _ => false,
    }
}

fn opt_string_lt(a: &Option<String>, b: &Option<String>) -> (r: bool)
    ensures
        r == opt_chars_lt(opt_chars(*a), opt_chars(*b)),
{
    match (a, b) {
        (None, Some(_)) => true,
        (Some(x), Some(y)) => str_lt(x.as_str(), y.as_str()),
        _ => false,
    }
}

fn run_key_eq(a: &ExperimentRunSummary, b: &ExperimentRunSummary) -> (r: bool)
    ensures
        r == (run_key(*a) == run_key(*b)),
{
    a.engine_family == b.engine_family && a.family_id == b.family_id && a.execution_lane == b.execution_lane
        && opt_string_eq(&a.comparison_engine_set, &b.comparison_engine_set) && a.config_id == b.config_id
}

fn run_key_lt(a: &ExperimentRunSummary, b: &ExperimentRunSummary) -> (r: bool)
    ensures
        r == key_lt(run_key(*a), run_key(*b)),
{
    if a.engine_family != b.engine_family {
        str_lt(a.engine_family.as_str(), b.engine_family.as_str())
    } else if a.family_id != b.family_id {
        str_lt(a.family_id.as_str(), b.family_id.as_str())
    } else if a.execution_lane != b.execution_lane {
        str_lt(a.execution_lane.as_str(), b.execution_lane.as_str())
    } else if !opt_string_eq(&a.comparison_engine_set, &b.comparison_engine_set) {
        opt_string_lt(&a.comparison_engine_set, &b.comparison_engine_set)
    } else {
        str_lt(a.config_id.as_str(), b.config_id.as_str())
    }
}

/// Positions among the first `i` runs whose key is `k`, ascending.
pub open spec fn indices_with_key(runs: Seq<ExperimentRunSummary>, k: RunKey, i: int) -> Seq<usize>
    decreases i,
{
    if i <= 0 {
        Seq::empty()
    } else {
        let rest = indices_with_key(runs, k, i - 1);
        if run_key(runs[i - 1]) == k { rest.push((i - 1) as usize) } else { rest }
    }
}

/// The runs with key `k`, in input order.
pub open spec fn runs_with_key(runs: Seq<ExperimentRunSummary>, k: RunKey) -> Seq<ExperimentRunSummary> {
    member_runs(runs, indices_with_key(runs, k, runs.len() as int))
}

proof fn lemma_indices_with_key(runs: Seq<ExperimentRunSummary>, k: RunKey, i: int)
    requires
        0 <= i <= runs.len(),
        runs.len() <= usize::MAX,
    ensures
        indices_with_key(runs, k, i).len() > 0 <==> exists|j: int| 0 <= j < i && run_key(runs[j]) == k,
        forall|m: int| 0 <= m < indices_with_key(runs, k, i).len() ==> #[trigger] indices_with_key(runs, k, i)[m] < i
            && run_key(runs[indices_with_key(runs, k, i)[m] as int]) == k,
    decreases i,
{
    if i > 0 {
        lemma_indices_with_key(runs, k, i - 1);
        let rest = indices_with_key(runs, k, i - 1);
        if run_key(runs[i - 1]) != k {
            assert(indices_with_key(runs, k, i) == rest);
        }
        if run_key(runs[i - 1]) == k {
            assert(indices_with_key(runs, k, i) == rest.push((i - 1) as usize));
            assert forall|m: int| 0 <= m < indices_with_key(runs, k, i).len() implies #[trigger] indices_with_key(runs, k, i)[m] < i
                && run_key(runs[indices_with_key(runs, k, i)[m] as int]) == k by {
                if m < rest.len() {
                    assert(indices_with_key(runs, k, i)[m] == rest[m]);
                } else {
                    assert(indices_with_key(runs, k, i)[m] == (i - 1) as usize);
                    assert(((i - 1) as usize) as int == i - 1);
                }
            }
        }
        if exists|j: int| 0 <= j < i && run_key(runs[j]) == k {
            let j = choose|j: int| 0 <= j < i && run_key(runs[j]) == k;
            if j < i - 1 {
                assert(exists|jj: int| 0 <= jj < i - 1 && run_key(runs[jj]) == k);
            }
        }
    }
}

/// The key of the group whose members are at `members`.
pub open spec fn group_key(runs: Seq<ExperimentRunSummary>, members: Seq<usize>) -> RunKey {
    run_key(runs[members[0] as int])
}

/// `groups` partitions the first `i` runs by key, in ascending key order.
pub open spec fn groups_ok(runs: Seq<ExperimentRunSummary>, groups: Seq<Vec<usize>>, i: int) -> bool {
    &&& 0 <= i <= runs.len()
    &&& forall|g: int| 0 <= g < groups.len() ==> (#[trigger] groups[g])@.len() > 0
    &&& forall|g: int, k: int| 0 <= g < groups.len() && 0 <= k < groups[g]@.len() ==> #[trigger] groups[g]@[k] < i
    &&& forall|g: int|
        0 <= g < groups.len() ==> groups[g]@ == indices_with_key(runs, #[trigger] group_key(runs, groups[g]@), i)
    &&& forall|g: int, h: int|
        0 <= g < h < groups.len() ==> key_lt(
            #[trigger] group_key(runs, groups[g]@),
            #[trigger] group_key(runs, groups[h]@),
        )
    &&& forall|j: int|
        0 <= j < i ==> exists|g: int| 0 <= g < groups.len() && #[trigger] group_key(runs, groups[g]@) == run_key(#[trigger] runs[j])
}

/// The group that holds the key of run `j`.
proof fn lemma_group_of(runs: Seq<ExperimentRunSummary>, groups: Seq<Vec<usize>>, i: int, j: int) -> (gg: int)
    requires
        groups_ok(runs, groups, i),
        0 <= j < i,
    ensures
        0 <= gg < groups.len(),
        group_key(runs, groups[gg]@) == run_key(runs[j]),
{
    let r = runs[j];
    choose|gg: int| 0 <= gg < groups.len() && #[trigger] group_key(runs, groups[gg]@) == run_key(runs[j])
}

fn add_to_group(runs: &Vec<ExperimentRunSummary>, groups: &mut Vec<Vec<usize>>, g: usize, i: usize)
    requires
        groups_ok(runs@, old(groups)@, i as int),
        i < runs@.len(),
        g < old(groups)@.len(),
        group_key(runs@, old(groups)@[g as int]@) == run_key(runs@[i as int]),
    ensures
        groups_ok(runs@, final(groups)@, i + 1),
{
    let ghost old_groups = groups@;
    let mut members = groups.remove(g);
    members.push(i);
    groups.insert(g, members);
    proof {
        assert forall|h: int| 0 <= h < groups@.len() implies (#[trigger] groups@[h])@.len() > 0 by {
            if h != g {
                assert(groups@[h] == old_groups[h]);
            }
        }
        assert forall|h: int| 0 <= h < groups@.len() implies #[trigger] group_key(runs@, groups@[h]@) == group_key(runs@, old_groups[h]@) by {
            if h == g {
                assert(groups@[h]@[0] == old_groups[h]@[0]);
            } else {
                assert(groups@[h] == old_groups[h]);
            }
        }
        assert forall|h: int| 0 <= h < groups@.len() implies groups@[h]@
            == indices_with_key(runs@, #[trigger] group_key(runs@, groups@[h]@), i + 1) by {
            let kh = group_key(runs@, old_groups[h]@);
            assert(group_key(runs@, groups@[h]@) == kh);
            if h == g {
                assert(groups@[h]@ == old_groups[h]@.push(i));
                assert(indices_with_key(runs@, kh, i + 1) == indices_with_key(runs@, kh, i as int).push(i));
            } else {
                assert(groups@[h] == old_groups[h]);
                let kg = group_key(runs@, old_groups[g as int]@);
                lemma_key_lt_trichotomy(kh, kh);
                lemma_key_lt_trichotomy(kg, kg);
                if h < g {
                    assert(key_lt(kh, kg));
                } else {
                    assert(key_lt(kg, kh));
                }
                assert(indices_with_key(runs@, kh, i + 1) == indices_with_key(runs@, kh, i as int));
            }
        }
        assert forall|j: int| 0 <= j < i + 1 implies exists|gg: int|
            0 <= gg < groups@.len() && #[trigger] group_key(runs@, groups@[gg]@) == run_key(#[trigger] runs@[j]) by {
            if j == i {
                assert(group_key(runs@, groups@[g as int]@) == group_key(runs@, old_groups[g as int]@));
            } else {
                let gg = choose|gg: int| 0 <= gg < old_groups.len() && #[trigger] group_key(runs@, old_groups[gg]@) == run_key(runs@[j]);
                assert(group_key(runs@, groups@[gg]@) == group_key(runs@, old_groups[gg]@));
            }
        }
        assert forall|h: int, k: int| 0 <= h < groups@.len() && 0 <= k < groups@[h]@.len() implies #[trigger] groups@[h]@[k] < i + 1 by {
            if h == g {
                if k < old_groups[h]@.len() {
                    assert(groups@[h]@[k] == old_groups[h]@[k]);
                }
            } else {
                assert(groups@[h] == old_groups[h]);
            }
        }
        assert forall|a: int, b: int| 0 <= a < b < groups@.len() implies key_lt(
            #[trigger] group_key(runs@, groups@[a]@),
            #[trigger] group_key(runs@, groups@[b]@),
        ) by {
            assert(group_key(runs@, groups@[a]@) == group_key(runs@, old_groups[a]@));
            assert(group_key(runs@, groups@[b]@) == group_key(runs@, old_groups[b]@));
        }
    }
}

fn open_group(runs: &Vec<ExperimentRunSummary>, groups: &mut Vec<Vec<usize>>, p: usize, i: usize)
    requires
        groups_ok(runs@, old(groups)@, i as int),
        i < runs@.len(),
        p <= old(groups)@.len(),
        forall|h: int| 0 <= h < old(groups)@.len() ==> #[trigger] group_key(runs@, old(groups)@[h]@) != run_key(runs@[i as int]),
        forall|h: int| 0 <= h < p ==> !key_lt(run_key(runs@[i as int]), #[trigger] group_key(runs@, old(groups)@[h]@)),
        p < old(groups)@.len() ==> key_lt(run_key(runs@[i as int]), group_key(runs@, old(groups)@[p as int]@)),
    ensures
        groups_ok(runs@, final(groups)@, i + 1),
{
    let ghost old_groups = groups@;
    let ghost ki = run_key(runs@[i as int]);
    let mut fresh: Vec<usize> = Vec::new();
    fresh.push(i);
    groups.insert(p, fresh);
    proof {
        assert(groups@[p as int]@[0] == i);
        assert(group_key(runs@, groups@[p as int]@) == ki);
        assert forall|h: int| 0 <= h < groups@.len() && h != p implies #[trigger] group_key(runs@, groups@[h]@)
            == group_key(runs@, old_groups[if h < p { h } else { h - 1 }]@) by {
            if h < p {
                assert(groups@[h] == old_groups[h]);
            } else {
                assert(groups@[h] == old_groups[h - 1]);
            }
        }
        assert forall|h: int| 0 <= h < groups@.len() implies (#[trigger] groups@[h])@.len() > 0 by {
            if h < p {
                assert(groups@[h] == old_groups[h]);
            } else if h > p {
                assert(groups@[h] == old_groups[h - 1]);
            }
        }
        assert forall|h: int| 0 <= h < groups@.len() implies groups@[h]@
            == indices_with_key(runs@, #[trigger] group_key(runs@, groups@[h]@), i + 1) by {
            if h == p {
                assert(runs@.len() == runs.len());
                lemma_indices_with_key(runs@, ki, i as int);
                if indices_with_key(runs@, ki, i as int).len() > 0 {
                    let j = choose|j: int| 0 <= j < i && run_key(runs@[j]) == ki;
                    let gg = choose|gg: int| 0 <= gg < old_groups.len() && #[trigger] group_key(runs@, old_groups[gg]@) == run_key(runs@[j]);
                    assert(group_key(runs@, old_groups[gg]@) != ki);
                }
                assert(groups@[h]@ =~= seq![i]);
                assert(indices_with_key(runs@, ki, i as int) =~= Seq::<usize>::empty());
                assert(indices_with_key(runs@, ki, i + 1) == indices_with_key(runs@, ki, i as int).push(i));
            } else if h < p {
                assert(groups@[h] == old_groups[h]);
                let kh = group_key(runs@, old_groups[h]@);
                assert(kh != ki);
                assert(indices_with_key(runs@, kh, i + 1) == indices_with_key(runs@, kh, i as int));
            } else {
                assert(groups@[h] == old_groups[h - 1]);
                let kh = group_key(runs@, old_groups[h - 1]@);
                assert(kh != ki);
                assert(indices_with_key(runs@, kh, i + 1) == indices_with_key(runs@, kh, i as int));
            }
        }
        assert forall|j: int| 0 <= j < i + 1 implies exists|gg: int|
            0 <= gg < groups@.len() && #[trigger] group_key(runs@, groups@[gg]@) == run_key(#[trigger] runs@[j]) by {
            if j == i {
                assert(group_key(runs@, groups@[p as int]@) == ki);
            } else {
                let gg = choose|gg: int| 0 <= gg < old_groups.len() && #[trigger] group_key(runs@, old_groups[gg]@) == run_key(runs@[j]);
                if gg < p {
                    assert(group_key(runs@, groups@[gg]@) == group_key(runs@, old_groups[gg]@));
                } else {
                    assert(group_key(runs@, groups@[gg + 1]@) == group_key(runs@, old_groups[gg]@));
                }
            }
        }
        assert forall|h: int, k: int| 0 <= h < groups@.len() && 0 <= k < groups@[h]@.len() implies #[trigger] groups@[h]@[k] < i + 1 by {
            if h < p {
                assert(groups@[h] == old_groups[h]);
            } else if h > p {
                assert(groups@[h] == old_groups[h - 1]);
            }
        }
        assert forall|a: int, b: int| 0 <= a < b < groups@.len() implies key_lt(
            #[trigger] group_key(runs@, groups@[a]@),
            #[trigger] group_key(runs@, groups@[b]@),
        ) by {
            let ka = group_key(runs@, groups@[a]@);
            let kb = group_key(runs@, groups@[b]@);
            if a < p && b < p {
                assert(ka == group_key(runs@, old_groups[a]@));
                assert(kb == group_key(runs@, old_groups[b]@));
            } else if a < p && b == p {
                assert(ka == group_key(runs@, old_groups[a]@));
                lemma_key_lt_trichotomy(ka, ki);
            } else if a < p && b > p {
                assert(ka == group_key(runs@, old_groups[a]@));
                assert(kb == group_key(runs@, old_groups[b - 1]@));
            } else if a == p {
                assert(kb == group_key(runs@, old_groups[b - 1]@));
                let kp = group_key(runs@, old_groups[p as int]@);
                if b - 1 > p {
                    assert(key_lt(kp, kb));
                    lemma_key_lt_transitive(ki, kp, kb);
                }
            } else {
                assert(ka == group_key(runs@, old_groups[a - 1]@));
                assert(kb == group_key(runs@, old_groups[b - 1]@));
            }
        }
    }
}

/// Some aggregate in `aggs` carries the key `k`.
pub open spec fn has_aggregate_for(aggs: Seq<ExperimentAggregateSummary>, k: RunKey) -> bool {
    exists|g: int| 0 <= g < aggs.len() && aggregate_key(#[trigger] aggs[g]) == k
}

/// `aggs` are the aggregate rows of `runs`: one per distinct key, in
/// ascending key order, each averaging the runs with its key.
pub open spec fn aggregated(runs: Seq<ExperimentRunSummary>, aggs: Seq<ExperimentAggregateSummary>) -> bool {
    &&& forall|g: int|
        0 <= g < aggs.len() ==> runs_with_key(runs, aggregate_key(#[trigger] aggs[g])).len() > 0
            && aggregate_matches(aggs[g], runs_with_key(runs, aggregate_key(aggs[g])))
    &&& forall|g: int, h: int|
        0 <= g < h < aggs.len() ==> key_lt(aggregate_key(#[trigger] aggs[g]), aggregate_key(#[trigger] aggs[h]))
    &&& forall|i: int| 0 <= i < runs.len() ==> #[trigger] has_aggregate_for(aggs, run_key(runs[i]))
}

/// Groups runs by engine family, family, execution lane, engine set and
/// configuration, and averages each group. Aggregates come in ascending key
/// order, one per distinct key.
pub fn aggregate_runs(runs: &Vec<ExperimentRunSummary>) -> (r: Vec<ExperimentAggregateSummary>)
    ensures
        aggregated(runs@, r@),
{
    let n = runs.len();
    let mut groups: Vec<Vec<usize>> = Vec::new();
    let mut i: usize = 0;
    while i < n
        invariant
            n == runs@.len(),
            groups_ok(runs@, groups@, i as int),
        decreases n - i,
    {
        let mut g: usize = 0;
        while g < groups.len() && !run_key_eq(&runs[groups[g][0]], &runs[i])
            invariant
                groups_ok(runs@, groups@, i as int),
                i < n,
                n == runs@.len(),
                g <= groups@.len(),
                forall|h: int| 0 <= h < g ==> #[trigger] group_key(runs@, groups@[h]@) != run_key(runs@[i as int]),
            decreases groups@.len() - g,
        {
            g = g + 1;
        }
        if g < groups.len() {
            add_to_group(runs, &mut groups, g, i);
        } else {
            let mut p: usize = 0;
            while p < groups.len() && !run_key_lt(&runs[i], &runs[groups[p][0]])
                invariant
                    groups_ok(runs@, groups@, i as int),
                    i < n,
                    n == runs@.len(),
                    p <= groups@.len(),
                    forall|h: int| 0 <= h < p ==> !key_lt(run_key(runs@[i as int]), #[trigger] group_key(runs@, groups@[h]@)),
                decreases groups@.len() - p,
            {
                p = p + 1;
            }
            open_group(runs, &mut groups, p, i);
        }
        i = i + 1;
    }
    let mut out: Vec<ExperimentAggregateSummary> = Vec::new();
    let mut g: usize = 0;
    while g < groups.len()
        invariant
            n == runs@.len(),
            groups_ok(runs@, groups@, n as int),
            out@.len() == g,
            g <= groups@.len(),
            forall|h: int|
                0 <= h < g ==> aggregate_key(#[trigger] out@[h]) == group_key(runs@, groups@[h]@)
                    && aggregate_matches(out@[h], member_runs(runs@, groups@[h]@)),
        decreases groups@.len() - g,
    {
        let agg = aggregate_group(runs, &groups[g]);
        proof {
            let members = groups@[g as int]@;
            assert(member_runs(runs@, members)[0] == runs@[members[0] as int]);
        }
        out.push(agg);
        g = g + 1;
    }
    proof {
        assert forall|h: int| 0 <= h < out@.len() implies runs_with_key(runs@, aggregate_key(#[trigger] out@[h])).len() > 0
            && aggregate_matches(out@[h], runs_with_key(runs@, aggregate_key(out@[h]))) by {
            assert(groups@[h]@ == indices_with_key(runs@, group_key(runs@, groups@[h]@), n as int));
            assert(member_runs(runs@, groups@[h]@).len() > 0);
        }
        assert forall|a: int, b: int| 0 <= a < b < out@.len() implies key_lt(aggregate_key(#[trigger] out@[a]), aggregate_key(#[trigger] out@[b])) by {
            assert(key_lt(group_key(runs@, groups@[a]@), group_key(runs@, groups@[b]@)));
        }
        assert forall|k: int| 0 <= k < runs@.len() implies #[trigger] has_aggregate_for(out@, run_key(runs@[k])) by {
            let gg = lemma_group_of(runs@, groups@, n as int, k);
            assert(aggregate_key(out@[gg]) == group_key(runs@, groups@[gg]@));
        }
    }
    out
}

} // verus!
