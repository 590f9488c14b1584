use jacquard_simulator::comparison::{
    build_comparison_multi_flow_asymmetric_demand, build_comparison_multi_flow_detour_choice,
    build_comparison_multi_flow_shared_corridor,
};
use jacquard_simulator::comparison_families::{
    build_comparison_bridge_transition, build_comparison_concurrent_mixed, build_comparison_connected_high_loss,
    build_comparison_connected_low_loss, build_comparison_partial_observability_bridge,
};
use jacquard_simulator::params::{ComparisonEngineSet, ExperimentParameterSet};
use jacquard_simulator::replay::same_destination;
use jacquard_simulator::scenario::{EnvironmentHook, JacquardScenario, ScriptedEnvironmentModel};

type Builder = fn(&ExperimentParameterSet, u64) -> (JacquardScenario, ScriptedEnvironmentModel);

#[test]
fn head_to_head_multi_flow_owners_are_primary_profiled_and_field_seeded() {
    let builders: [Builder; 3] = [
        build_comparison_multi_flow_shared_corridor,
        build_comparison_multi_flow_asymmetric_demand,
        build_comparison_multi_flow_detour_choice,
    ];
    for build in builders {
        let pathway_parameters =
            ExperimentParameterSet::head_to_head(ComparisonEngineSet::Pathway, None, None, None);
        let (pathway_scenario, _) = build(&pathway_parameters, 41);
        for binding in &pathway_scenario.bound_objectives {
            let host = pathway_scenario
                .hosts
                .iter()
                .find(|host| host.local_node_id == binding.owner_node_id)
                .expect("multi-flow owner should have a host");
            assert!(
                host.overrides.routing_profile.is_some(),
                "{} owner {:?} should use the primary routing profile",
                pathway_scenario.name,
                binding.owner_node_id
            );
        }

        let field_parameters = ExperimentParameterSet::head_to_head_field_low_churn();
        let (field_scenario, _) = build(&field_parameters, 41);
        for binding in &field_scenario.bound_objectives {
            let host = field_scenario
                .hosts
                .iter()
                .find(|host| host.local_node_id == binding.owner_node_id)
                .expect("multi-flow owner should have a host");
            assert!(
                host.overrides
                    .field_bootstrap_summaries
                    .iter()
                    .any(|summary| same_destination(&summary.destination, &binding.objective.destination)),
                "{} owner {:?} should be seeded for {:?}",
                field_scenario.name,
                binding.owner_node_id,
                binding.objective.destination
            );
        }
    }
}

#[test]
fn multi_flow_families_shift_to_the_mixed_deployment_without_an_engine_set() {
    let parameters = ExperimentParameterSet::comparison(4, 2, 3, jacquard_simulator::params::PathwaySearchHeuristicMode::Zero);
    assert!(parameters.comparison_engine_set.is_none());
    let (scenario, environment) = build_comparison_multi_flow_shared_corridor(&parameters, 41);
    assert_eq!(scenario.name, "comparison-multi-flow-shared-corridor-comparison-b4-2-p3-zero");
    assert_eq!(scenario.round_limit, 16);
    assert_eq!(scenario.hosts.len(), 13);
    assert_eq!(scenario.broker_nodes.iter().map(|n| n.0).collect::<Vec<_>>(), vec![13, 14, 15]);
    assert_eq!(environment.hooks.iter().map(|h| h.at_tick).collect::<Vec<_>>(), vec![6, 10]);
    let owners = scenario.bound_objectives.iter().map(|o| (o.owner_node_id.0, o.activate_at_round)).collect::<Vec<_>>();
    assert_eq!(owners, vec![(1, 2), (10, 2), (11, 2), (12, 3)]);
    let (detour, detour_environment) = build_comparison_multi_flow_detour_choice(&parameters, 41);
    assert_eq!(detour.hosts.len(), 15);
    assert_eq!(detour.round_limit, 30);
    assert_eq!(detour_environment.hooks.iter().map(|h| h.at_tick).collect::<Vec<_>>(), vec![9, 12, 18]);
}

#[test]
fn multi_flow_families_seed_field_owners_only_under_field() {
    let babel = ExperimentParameterSet::head_to_head(ComparisonEngineSet::Babel, Some((4, 2)), None, None);
    let (scenario, _) = build_comparison_multi_flow_asymmetric_demand(&babel, 41);
    assert_eq!(scenario.hosts.len(), 9);
    assert!(scenario.hosts.iter().all(|h| h.overrides.field_bootstrap_summaries.is_empty()));
    assert!(scenario.hosts.iter().all(|h| h.overrides.babel_decay_window.is_none()));
    assert!(scenario.hosts.iter().all(|h| h.overrides.batman_bellman_decay_window.is_some()));
    assert_eq!(scenario.broker_nodes.iter().map(|n| n.0).collect::<Vec<_>>(), vec![4, 5, 9, 10]);
    let field = ExperimentParameterSet::head_to_head_field_low_churn();
    let (seeded, _) = build_comparison_multi_flow_asymmetric_demand(&field, 41);
    let owner = &seeded.hosts[0];
    assert_eq!(owner.overrides.field_bootstrap_summaries.len(), 1);
    assert_eq!(owner.overrides.field_bootstrap_summaries[0].from_neighbor.0, 4);
    assert_eq!(owner.overrides.field_bootstrap_summaries[0].delivery_support, 900);
    assert!(seeded.hosts[5].overrides.field_bootstrap_summaries.is_empty());
}

#[test]
fn comparison_families_document_activation_rounds_and_active_windows() {
    let parameters = ExperimentParameterSet::head_to_head(ComparisonEngineSet::Babel, Some((4, 2)), None, None);
    let seed = 41;
    let cases: Vec<(JacquardScenario, Vec<u32>, u32)> = vec![
        (build_comparison_connected_low_loss(&parameters, seed).0, vec![2], 18),
        (build_comparison_connected_high_loss(&parameters, seed).0, vec![2], 24),
        (build_comparison_bridge_transition(&parameters, seed).0, vec![2], 24),
        (build_comparison_partial_observability_bridge(&parameters, seed).0, vec![3], 24),
        (build_comparison_concurrent_mixed(&parameters, seed).0, vec![2, 4], 20),
        (build_comparison_multi_flow_shared_corridor(&parameters, seed).0, vec![2, 2, 3], 16),
        (build_comparison_multi_flow_asymmetric_demand(&parameters, seed).0, vec![2, 2, 4], 32),
        (build_comparison_multi_flow_detour_choice(&parameters, seed).0, vec![2, 2, 2], 30),
    ];

    for (scenario, expected_activations, expected_round_limit) in cases {
        let activations = scenario.bound_objectives.iter().map(|binding| binding.activate_at_round).collect::<Vec<_>>();
        assert_eq!(activations, expected_activations, "{}", scenario.name);
        assert_eq!(scenario.round_limit, expected_round_limit, "{}", scenario.name);
        let active_windows =
            activations.iter().map(|activation| expected_round_limit.saturating_sub(*activation)).collect::<Vec<_>>();
        assert!(active_windows.iter().all(|active_rounds| *active_rounds > 0), "{} active windows: {active_windows:?}", scenario.name);
    }
}

#[test]
fn mixed_shared_corridor_degrades_the_corridor_then_limits_its_broker() {
    let parameters = ExperimentParameterSet::pathway(4, jacquard_simulator::params::PathwaySearchHeuristicMode::Zero);
    let (scenario, environment) = build_comparison_multi_flow_shared_corridor(&parameters, 41);
    assert_eq!(scenario.round_limit, 16);
    assert_eq!(environment.hooks.len(), 2);
    assert_eq!(environment.hooks[0].at_tick, 6);
    match &environment.hooks[0].hook {
        jacquard_simulator::scenario::EnvironmentHook::AsymmetricDegradation {
            left,
            right,
            forward_confidence,
            forward_loss,
            reverse_confidence,
            reverse_loss,
        } => {
            assert_eq!((left.0, right.0), (13, 14));
            assert_eq!((*forward_confidence, *forward_loss, *reverse_confidence, *reverse_loss), (520, 320, 680, 180));
        }
        other => panic!("unexpected first hook {other:?}"),
    }
    match &environment.hooks[1].hook {
        jacquard_simulator::scenario::EnvironmentHook::IntrinsicLimit { node_id, connection_count_max, hold_capacity_bytes_max } => {
            assert_eq!((node_id.0, *connection_count_max, *hold_capacity_bytes_max), (14, 2, 320));
        }
        other => panic!("unexpected second hook {other:?}"),
    }
    assert_eq!(scenario.broker_nodes.iter().map(|n| n.0).collect::<Vec<_>>(), vec![13, 14, 15]);
}

#[test]
fn partial_observability_bridge_runs_partition_tolerant_and_others_dense_interactive() {
    let parameters = ExperimentParameterSet::head_to_head(ComparisonEngineSet::Babel, Some((4, 2)), None, None);
    let (partial, _) = build_comparison_partial_observability_bridge(&parameters, 41);
    assert_eq!(partial.operating_mode, jacquard_simulator::scenario::OperatingMode::FieldPartitionTolerant);
    let (connected, _) = build_comparison_connected_low_loss(&parameters, 41);
    assert_eq!(connected.operating_mode, jacquard_simulator::scenario::OperatingMode::DenseInteractive);
}

#[test]
fn mixed_multi_flow_hosts_carry_the_sweep_point() {
    let parameters = ExperimentParameterSet::pathway(6, jacquard_simulator::params::PathwaySearchHeuristicMode::Zero);
    for builder in [
        build_comparison_multi_flow_shared_corridor as Builder,
        build_comparison_multi_flow_asymmetric_demand,
        build_comparison_multi_flow_detour_choice,
    ] {
        let (scenario, _) = builder(&parameters, 41);
        let expected = parameters.pathway_search_config();
        assert!(expected.is_some());
        for host in &scenario.hosts {
            assert_eq!(host.overrides.pathway_search_config, expected, "{}", scenario.name);
            assert!(host.overrides.babel_decay_window.is_none(), "{}", scenario.name);
            assert!(host.overrides.field_search_config.is_none(), "{}", scenario.name);
        }
        let lanes = scenario.hosts.iter().map(|h| (h.local_node_id.0, h.lane)).collect::<Vec<_>>();
        assert!(lanes[..5].iter().all(|(_, lane)| *lane == jacquard_simulator::external::EngineLane::Pathway));
        assert!(lanes[5..].iter().all(|(_, lane)| *lane == jacquard_simulator::external::EngineLane::AllEngines));
    }
}

fn applied_hook_labels(environment: &ScriptedEnvironmentModel) -> Vec<(u64, &'static str)> {
    environment
        .hooks
        .iter()
        .map(|scheduled| {
            let label = match &scheduled.hook {
                EnvironmentHook::ReplaceTopology { .. } => "replace-topology",
                EnvironmentHook::MobilityRelink { .. } => "mobility-relink",
                EnvironmentHook::IntrinsicLimit { .. } => "intrinsic-limit",
                EnvironmentHook::MediumDegradation { .. } => "medium-degradation",
                EnvironmentHook::AsymmetricDegradation { .. } => "asymmetric-degradation",
                EnvironmentHook::CascadePartition { .. } => "cascade-partition",
                EnvironmentHook::Partition { .. } => "partition",
            };
            (scheduled.at_tick, label)
        })
        .collect()
}

#[test]
fn comparison_family_environment_hooks_fire_on_documented_rounds() {
    let parameters = ExperimentParameterSet::head_to_head(ComparisonEngineSet::Babel, Some((4, 2)), None, None);
    let seed = 41;
    let cases: Vec<(Builder, Vec<(u64, &str)>)> = vec![
        (build_comparison_connected_high_loss, vec![(7, "asymmetric-degradation"), (12, "mobility-relink")]),
        (
            build_comparison_bridge_transition,
            vec![(7, "asymmetric-degradation"), (11, "cascade-partition"), (16, "replace-topology")],
        ),
        (build_comparison_partial_observability_bridge, vec![(8, "asymmetric-degradation"), (16, "replace-topology")]),
        (build_comparison_concurrent_mixed, vec![(9, "intrinsic-limit"), (12, "cascade-partition")]),
        (build_comparison_multi_flow_shared_corridor, vec![(6, "asymmetric-degradation"), (10, "intrinsic-limit")]),
        (build_comparison_multi_flow_asymmetric_demand, vec![(10, "asymmetric-degradation"), (16, "intrinsic-limit")]),
        (
            build_comparison_multi_flow_detour_choice,
            vec![(9, "asymmetric-degradation"), (12, "intrinsic-limit"), (18, "medium-degradation")],
        ),
    ];
    for (builder, expected) in cases {
        let (scenario, environment) = builder(&parameters, seed);
        assert_eq!(applied_hook_labels(&environment), expected, "{}", scenario.name);
    }
}

#[test]
fn field_multi_flow_owners_carry_their_documented_bootstrap_seeds() {
    let parameters = ExperimentParameterSet::head_to_head(ComparisonEngineSet::Field, None, None, None);
    let (scenario, _) = build_comparison_multi_flow_shared_corridor(&parameters, 41);
    let seeds = |k: usize| {
        scenario.hosts[k]
            .overrides
            .field_bootstrap_summaries
            .iter()
            .map(|s| (s.from_neighbor.0, s.delivery_support, s.min_hops, s.max_hops, s.reverse_feedback))
            .collect::<Vec<_>>()
    };
    assert_eq!(seeds(0), vec![(4, 900, 2, 3, Some(840))]);
    assert_eq!(seeds(1), vec![(4, 880, 2, 3, Some(820))]);
    assert_eq!(seeds(2), vec![(4, 900, 2, 3, Some(840)), (5, 820, 1, 2, Some(760))]);
    for k in 3..8 {
        assert!(seeds(k).is_empty());
        assert!(scenario.hosts[k].overrides.routing_profile.is_none());
    }
    let babel = ExperimentParameterSet::head_to_head(ComparisonEngineSet::Babel, Some((4, 2)), None, None);
    let (unseeded, _) = build_comparison_multi_flow_detour_choice(&babel, 41);
    assert!(unseeded.hosts.iter().all(|h| h.overrides.field_bootstrap_summaries.is_empty()));
}
