use jacquard_simulator::external::{
    artifact_output_dir, engine_id_label, finish_route_visible_runs, engine_ids_for_lane, route_visible_manifest, route_visible_run_summary,
    validate_id, ArtifactSink, EngineLane, EngineRegistry, EngineRegistryEntry, EngineRouteShape,
    ExperimentRunner, ExperimentSuiteSpec, ExternalExperimentError, RouteVisibleRunSpec, SimulationCaptureLevel,
    SimulatorConfig, EXTERNAL_ROUTE_ARTIFACT_SCHEMA_VERSION,
};
use jacquard_simulator::replay::{EnvironmentHookCounts, FailureClassCounts, ReducedReplayView, ReducedRound, RoutingEngineId};
use jacquard_simulator::scenario::{HostSpec, JacquardScenario, OperatingMode, ScriptedEnvironmentModel};
use jacquard_simulator::topology::{node_id, Configuration, MediumEnvironment};

fn run(run_id: &str, family_id: &str, engine: &str, seed: u64, lanes: Vec<EngineLane>) -> RouteVisibleRunSpec {
    let hosts = lanes
        .into_iter()
        .enumerate()
        .map(|(index, lane)| HostSpec::new(node_id(index as u8 + 1), lane))
        .collect();
    let configuration = Configuration {
        epoch: 1,
        nodes: vec![],
        links: vec![],
        environment: MediumEnvironment { reachable_neighbor_count: 1, churn_permille: 0, contention_permille: 0 },
    };
    let scenario = JacquardScenario::new(format!("{family_id}-scenario"), seed, OperatingMode::DenseInteractive, configuration, hosts, vec![], 12);
    RouteVisibleRunSpec::new(
        run_id.to_string(),
        family_id.to_string(),
        engine.to_string(),
        seed,
        scenario,
        ScriptedEnvironmentModel { hooks: vec![] },
    )
}

fn suite(runs: Vec<RouteVisibleRunSpec>) -> ExperimentSuiteSpec {
    ExperimentSuiteSpec::route_visible("custom-suite".to_string(), runs)
}

fn entry(engine_id: &str, shape: EngineRouteShape) -> EngineRegistryEntry {
    EngineRegistryEntry {
        engine_id: engine_id.to_string(),
        route_shape: shape,
        report_label: engine_id.to_uppercase(),
        enabled_by_default: false,
    }
}

#[test]
fn default_registry_lists_route_visible_engines_in_id_order() {
    let registry = EngineRegistry::route_visible_defaults();
    assert_eq!(
        registry.engine_ids(),
        vec![
            "babel",
            "batman-bellman",
            "batman-classic",
            "mercator",
            "olsrv2",
            "pathway",
            "pathway-batman-bellman",
            "scatter"
        ]
    );
    let babel = registry.get("babel").expect("babel is registered");
    assert_eq!(babel.report_label, "Babel");
    assert_eq!(babel.route_shape, EngineRouteShape::RouteVisible);
    assert!(babel.enabled_by_default);
    assert_eq!(registry.get("pathway-batman-bellman").map(|e| e.report_label.as_str()), Some("Pathway + BATMAN Bellman"));
    assert!(registry.get("field").is_none());
}

#[test]
fn registry_insert_replaces_and_reads_back() {
    let mut registry = EngineRegistry::empty();
    registry.insert(entry("zeta", EngineRouteShape::Diffusion));
    registry.insert(entry("alpha", EngineRouteShape::ModelOnly));
    registry.insert(entry("zeta", EngineRouteShape::RouteVisible));
    assert_eq!(registry.engine_ids(), vec!["alpha", "zeta"]);
    assert_eq!(registry.get("zeta").map(|e| e.route_shape), Some(EngineRouteShape::RouteVisible));
    assert_eq!(registry.get("alpha").map(|e| e.route_shape), Some(EngineRouteShape::ModelOnly));
    assert!(registry.get("beta").is_none());
}

#[test]
fn runner_defaults_capture_reduced_replays() {
    let runner = ExperimentRunner::new(SimulatorConfig::default());
    assert_eq!(runner.config().capture_level, SimulationCaptureLevel::ReducedReplay);
    assert!(runner.engine_registry().get("olsrv2").is_some());
    let custom = runner.with_engine_registry(EngineRegistry::empty());
    assert!(custom.engine_registry().engine_ids().is_empty());
}

#[test]
fn validate_id_accepts_identifier_characters_only() {
    assert!(validate_id("run", "run-1_a.b").is_ok());
    assert!(matches!(validate_id("run", ""), Err(ExternalExperimentError::EmptyId { ref kind }) if kind == "run"));
    assert!(matches!(
        validate_id("family", "bad id"),
        Err(ExternalExperimentError::InvalidId { ref kind, ref id }) if kind == "family" && id == "bad id"
    ));
}

#[test]
fn route_visible_suite_validation_accepts_a_well_formed_suite() {
    let runner = ExperimentRunner::new(SimulatorConfig::default());
    let suite = suite(vec![
        run("r1", "family-a", "pathway", 41, vec![EngineLane::Pathway, EngineLane::PathwayAndBatmanBellman]),
        run("r2", "family-a", "pathway", 43, vec![EngineLane::RouteVisibleEngines]),
    ]);
    assert_eq!(suite.run_count(), 2);
    assert!(runner.validate_route_visible_suite(&suite).is_ok());
}

#[test]
fn route_visible_suite_validation_reports_each_fault() {
    let runner = ExperimentRunner::new(SimulatorConfig::default());
    let empty = ExperimentSuiteSpec::route_visible("custom-suite".to_string(), Vec::new());
    assert!(matches!(runner.validate_route_visible_suite(&empty), Err(ExternalExperimentError::EmptySuite { .. })));

    let bad_suite_id = ExperimentSuiteSpec::route_visible("bad suite".to_string(), vec![run("r1", "f", "pathway", 1, vec![])]);
    assert!(matches!(
        runner.validate_route_visible_suite(&bad_suite_id),
        Err(ExternalExperimentError::InvalidId { ref kind, .. }) if kind == "suite"
    ));

    let duplicate_id = suite(vec![run("r1", "f", "pathway", 1, vec![]), run("r1", "g", "pathway", 2, vec![])]);
    assert!(matches!(
        runner.validate_route_visible_suite(&duplicate_id),
        Err(ExternalExperimentError::DuplicateRunId { ref run_id, .. }) if run_id == "r1"
    ));

    let duplicate_tuple = suite(vec![run("r1", "f", "pathway", 1, vec![]), run("r2", "f", "pathway", 1, vec![])]);
    assert!(matches!(
        runner.validate_route_visible_suite(&duplicate_tuple),
        Err(ExternalExperimentError::DuplicateRunTuple { ref family_id, ref config_id, seed: 1, .. })
            if family_id == "f" && config_id == "pathway"
    ));

    let unknown = suite(vec![run("r1", "f", "field", 1, vec![])]);
    assert!(matches!(
        runner.validate_route_visible_suite(&unknown),
        Err(ExternalExperimentError::UnknownEngine { ref engine_id, ref config_id, .. }) if engine_id == "field" && config_id == "r1"
    ));

    let mut registry = EngineRegistry::route_visible_defaults();
    registry.insert(entry("diffuse", EngineRouteShape::Diffusion));
    let runner_with_diffusion = ExperimentRunner::new(SimulatorConfig::default()).with_engine_registry(registry);
    let unsupported = suite(vec![run("r1", "f", "diffuse", 1, vec![])]);
    assert!(matches!(
        runner_with_diffusion.validate_route_visible_suite(&unsupported),
        Err(ExternalExperimentError::UnsupportedEngineShape { route_shape: EngineRouteShape::Diffusion, .. })
    ));

    let missing_lane = suite(vec![run("r1", "f", "pathway", 1, vec![EngineLane::Pathway, EngineLane::PathwayAndField])]);
    assert!(matches!(
        runner.validate_route_visible_suite(&missing_lane),
        Err(ExternalExperimentError::MissingHostLaneEngine { lane: EngineLane::PathwayAndField, ref engine_id, ref run_id, .. })
            if engine_id == "field" && run_id == "r1"
    ));

    let bad_run_id = suite(vec![run("r 1", "f", "pathway", 1, vec![])]);
    assert!(matches!(
        runner.validate_route_visible_suite(&bad_run_id),
        Err(ExternalExperimentError::InvalidId { ref kind, .. }) if kind == "run"
    ));
}

#[test]
fn lanes_name_the_engines_their_hosts_need() {
    assert_eq!(engine_ids_for_lane(EngineLane::PathwayAndOlsrV2), vec!["pathway", "olsrv2"]);
    assert_eq!(engine_ids_for_lane(EngineLane::AllEngines), vec!["field"]);
    assert_eq!(engine_ids_for_lane(EngineLane::RouteVisibleEngines).len(), 7);
}

#[test]
fn artifact_output_dir_refuses_disabled_sinks() {
    let sink = ArtifactSink::directory("out/dir".to_string());
    assert_eq!(artifact_output_dir(&sink, "s", "tuning").ok().map(|d| d.as_str()), Some("out/dir"));
    let disabled = ArtifactSink::disabled();
    assert!(matches!(
        artifact_output_dir(&disabled, "s", "diffusion"),
        Err(ExternalExperimentError::ArtifactSinkDisabled { ref suite_id, ref artifact_kind }) if suite_id == "s" && artifact_kind == "diffusion"
    ));
}

#[test]
fn engine_labels_render_unknown_contracts_as_byte_lists() {
    assert_eq!(engine_id_label(RoutingEngineId::Mercator), "mercator");
    assert_eq!(
        engine_id_label(RoutingEngineId::Other(0x0102)),
        "[0, 0, 0, 0, 0, 0, 0, 0, 0, 0, 0, 0, 0, 0, 1, 2]"
    );
}

#[test]
fn route_visible_run_summary_counts_active_rounds() {
    let spec = run("r1", "family-a", "pathway", 41, vec![EngineLane::Pathway]);
    let reduced = ReducedReplayView {
        scenario_name: "family-a-scenario".to_string(),
        round_count: 3,
        rounds: vec![
            ReducedRound { round_index: 0, active_routes: Vec::new() },
            ReducedRound { round_index: 1, active_routes: Vec::new() },
            ReducedRound { round_index: 2, active_routes: Vec::new() },
        ],
        distinct_engine_ids: vec![RoutingEngineId::Pathway, RoutingEngineId::Babel],
        driver_status_event_count: 2,
        failure_summary_count: 1,
        route_observations: Vec::new(),
        environment_change_rounds: Vec::new(),
        objective_replays: Vec::new(),
        field_replays: Vec::new(),
        hook_counts: EnvironmentHookCounts::default(),
        failure_counts: FailureClassCounts::default(),
        maintenance_failure_count: 0,
    };
    let summary = route_visible_run_summary("custom-suite", &spec, &reduced);
    assert_eq!(summary.schema_version, EXTERNAL_ROUTE_ARTIFACT_SCHEMA_VERSION);
    assert_eq!(summary.run_id, "r1");
    assert_eq!(summary.round_count, 3);
    assert_eq!(summary.active_route_round_count, 0);
    assert_eq!(summary.distinct_engine_ids, vec!["pathway", "babel"]);
    assert_eq!(summary.driver_status_event_count, 2);
    assert_eq!(summary.failure_summary_count, 1);
    let manifest = route_visible_manifest("custom-suite", &vec![summary]);
    assert_eq!(manifest.artifact_kind, "route-visible");
    assert_eq!(manifest.run_count, 1);
    assert_eq!(manifest.generated_at_unix_seconds, 0);
}

fn empty_replay(name: &str, rounds: u32) -> ReducedReplayView {
    ReducedReplayView {
        scenario_name: name.to_string(),
        round_count: rounds,
        rounds: (0..rounds).map(|index| ReducedRound { round_index: index, active_routes: Vec::new() }).collect(),
        distinct_engine_ids: vec![RoutingEngineId::Mercator],
        driver_status_event_count: 0,
        failure_summary_count: 0,
        route_observations: Vec::new(),
        environment_change_rounds: Vec::new(),
        objective_replays: Vec::new(),
        field_replays: Vec::new(),
        hook_counts: EnvironmentHookCounts::default(),
        failure_counts: FailureClassCounts::default(),
        maintenance_failure_count: 0,
    }
}

#[test]
fn finish_route_visible_runs_summarises_each_run_in_suite_order() {
    let runner = ExperimentRunner::new(SimulatorConfig::default());
    let suite = suite(vec![
        run("r1", "family-a", "pathway", 41, vec![EngineLane::Pathway]),
        run("r2", "family-a", "pathway", 43, vec![EngineLane::Pathway]),
    ]);
    let replays = vec![empty_replay("family-a-scenario", 2), empty_replay("family-a-scenario", 5)];
    let artifacts = finish_route_visible_runs(&runner, &suite, &replays, &ArtifactSink::Directory("out".to_string()))
        .expect("a valid suite is finished");
    assert_eq!(artifacts.output_dir.as_deref(), Some("out"));
    assert_eq!(artifacts.manifest.run_count, 2);
    assert_eq!(artifacts.manifest.suite_id, "custom-suite");
    assert_eq!(artifacts.runs.iter().map(|r| r.run_id.as_str()).collect::<Vec<_>>(), vec!["r1", "r2"]);
    assert_eq!(artifacts.runs[1].round_count, 5);
    assert_eq!(artifacts.runs[0].distinct_engine_ids, vec!["mercator"]);

    let disabled = finish_route_visible_runs(&runner, &suite, &replays, &ArtifactSink::Disabled).expect("still finished");
    assert_eq!(disabled.output_dir, None);
}

#[test]
fn finish_route_visible_runs_refuses_an_empty_suite() {
    let runner = ExperimentRunner::new(SimulatorConfig::default());
    let empty = suite(vec![]);
    assert!(matches!(
        finish_route_visible_runs(&runner, &empty, &Vec::new(), &ArtifactSink::Disabled),
        Err(ExternalExperimentError::EmptySuite { .. })
    ));
}
