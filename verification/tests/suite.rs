use jacquard_simulator::params::{ExperimentParameterSet, PathwaySearchHeuristicMode};
use jacquard_simulator::suite::{
    comparison_configs, expand_runs, head_to_head_configs, regime, scatter_parameter_sets, suite_artifacts,
    ComparativeSuiteScale, ExperimentSuite, FamilyBuilder, FamilyEntry, build_pathway_runs,
};

#[test]
fn comparative_sweeps_grow_from_smoke_to_full() {
    let smoke = scatter_parameter_sets(ComparativeSuiteScale::Smoke);
    let full = scatter_parameter_sets(ComparativeSuiteScale::Full);
    assert_eq!(smoke.iter().map(|p| p.config_id.clone()).collect::<Vec<_>>(), vec!["scatter-balanced", "scatter-degraded-network"]);
    assert_eq!(
        full.iter().map(|p| p.config_id.clone()).collect::<Vec<_>>(),
        vec!["scatter-balanced", "scatter-conservative", "scatter-degraded-network"]
    );
    assert_eq!(comparison_configs(ComparativeSuiteScale::Smoke).len(), 1);
    let full_comparison = comparison_configs(ComparativeSuiteScale::Full);
    assert_eq!(full_comparison[0].config_id, "comparison-b4-2-p3-zero");
    assert_eq!(full_comparison[1].config_id, "comparison-b6-3-p4-hop-lower-bound");
}

#[test]
fn head_to_head_configs_cover_each_engine_set() {
    let ids = head_to_head_configs().iter().map(|p| p.config_id.clone()).collect::<Vec<_>>();
    assert_eq!(
        ids,
        vec![
            "head-to-head-batman-bellman-1-1",
            "head-to-head-batman-classic-4-2",
            "head-to-head-babel-4-2",
            "head-to-head-olsrv2-4-2",
            "head-to-head-scatter",
            "head-to-head-pathway-6-hop-lower-bound",
            "head-to-head-field-6-zero-p1-f140-n180",
            "head-to-head-pathway-batman-b6-3-p6-hop-lower-bound",
        ]
    );
}

#[test]
fn expand_runs_nests_families_parameter_sets_and_seeds() {
    let families = vec![
        FamilyEntry {
            family_id: "comparison-multi-flow-shared-corridor".to_string(),
            regime: regime(("high", "moderate", "moderate", "moderate", "low", "moderate", "multi-flow", 40)),
            family: FamilyBuilder::MultiFlowSharedCorridor,
        },
        FamilyEntry {
            family_id: "comparison-multi-flow-detour-choice".to_string(),
            regime: regime(("high", "moderate", "high", "moderate", "low", "high", "multi-flow", 55)),
            family: FamilyBuilder::MultiFlowDetourChoice,
        },
    ];
    let parameter_sets = vec![
        ExperimentParameterSet::comparison(4, 2, 3, PathwaySearchHeuristicMode::Zero),
        ExperimentParameterSet::comparison(6, 3, 4, PathwaySearchHeuristicMode::HopLowerBound),
    ];
    let runs = expand_runs("local", "comparison", &vec![41, 43, 47], &parameter_sets, &families);
    assert_eq!(runs.len(), 12);
    assert_eq!(runs[0].run_id, "local-comparison-multi-flow-shared-corridor-comparison-b4-2-p3-zero-41");
    assert_eq!(runs[4].run_id, "local-comparison-multi-flow-shared-corridor-comparison-b6-3-p4-hop-lower-bound-43");
    assert_eq!(runs[11].run_id, "local-comparison-multi-flow-detour-choice-comparison-b6-3-p4-hop-lower-bound-47");
    assert_eq!(runs[11].scenario.name, "comparison-multi-flow-detour-choice-comparison-b6-3-p4-hop-lower-bound");
    assert_eq!(runs[6].regime.stress_score, 55);
    assert_eq!(runs[6].engine_family, "comparison");
    let suite = ExperimentSuite { suite_id: "local".to_string(), runs };
    assert_eq!(suite.suite_id(), "local");
    assert_eq!(suite.run_count(), 12);
}

#[test]
fn suite_artifacts_count_what_they_hold() {
    let artifacts = suite_artifacts("local", "out".to_string(), Vec::new());
    assert_eq!(artifacts.manifest.suite_id, "local");
    assert_eq!(artifacts.manifest.run_count, 0);
    assert_eq!(artifacts.manifest.aggregate_count, 0);
    assert_eq!(artifacts.manifest.breakdown_count, 0);
    assert_eq!(artifacts.output_dir, "out");
}

#[test]
fn pathway_runs_sweep_every_family_configuration_and_seed() {
    let smoke = build_pathway_runs("smoke", &vec![41], true);
    assert_eq!(smoke.len(), 14);
    assert_eq!(smoke[0].run_id, "smoke-pathway-search-budget-pressure-pathway-1-zero-41");
    assert_eq!(smoke[1].run_id, "smoke-pathway-search-budget-pressure-pathway-4-zero-41");
    assert_eq!(smoke[13].family_id, "pathway-bridge-failure-service");
    assert_eq!(smoke[13].regime.stress_score, 58);
    assert_eq!(smoke[13].scenario.name, "pathway-bridge-failure-service-pathway-4-zero");
    let local = build_pathway_runs("local", &vec![41, 43], false);
    assert_eq!(local.len(), 7 * 7 * 2);
    assert_eq!(local[13].parameters.config_id, "pathway-4-hop-lower-bound");
    assert!(local.iter().all(|run| run.engine_family == "pathway"));
}
