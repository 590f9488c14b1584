use jacquard_simulator::batman::{
    build_babel_asymmetry_cost_penalty, build_babel_decay_window_pressure, build_batman_bellman_partition_recovery,
    build_batman_bellman_sparse_line_low_loss, build_olsrv2_mpr_flooding_stability,
};
use jacquard_simulator::external::EngineLane;
use jacquard_simulator::params::ExperimentParameterSet;
use jacquard_simulator::replay::{same_destination, DestinationId};
use jacquard_simulator::scenario::EnvironmentHook;
use jacquard_simulator::topology::node_id;

#[test]
fn batman_bellman_line_binds_one_objective_across_the_line() {
    let parameters = ExperimentParameterSet::batman_bellman(4, 2);
    let (scenario, environment) = build_batman_bellman_sparse_line_low_loss(&parameters, 41);
    assert_eq!(scenario.name, "batman-bellman-sparse-line-low-loss-batman-bellman-4-2");
    assert_eq!(scenario.seed, 41);
    assert_eq!(scenario.round_limit, 18);
    assert_eq!(scenario.hosts.len(), 3);
    assert!(scenario.hosts.iter().all(|host| host.lane == EngineLane::BatmanBellman));
    let window = scenario.hosts[0].overrides.batman_bellman_decay_window.expect("decay window applied");
    assert_eq!(window.stale_after_ticks, 4);
    assert_eq!(window.next_refresh_within_ticks, 2);
    assert!(scenario.broker_nodes.is_empty());
    assert!(environment.hooks.is_empty());
    assert_eq!(scenario.bound_objectives.len(), 1);
    let objective = &scenario.bound_objectives[0];
    assert_eq!(objective.owner_node_id, node_id(1));
    assert_eq!(objective.activate_at_round, 2);
    assert!(same_destination(&objective.objective.destination, &DestinationId::Node(node_id(3))));
    assert_eq!(scenario.initial_configuration.environment.reachable_neighbor_count, 2);
}

#[test]
fn batman_bellman_partition_is_cut_then_restored() {
    let parameters = ExperimentParameterSet::batman_bellman(6, 3);
    let (scenario, environment) = build_batman_bellman_partition_recovery(&parameters, 7);
    assert_eq!(scenario.round_limit, 26);
    assert_eq!(scenario.initial_configuration.environment.contention_permille, 40);
    assert_eq!(environment.hooks.iter().map(|h| h.at_tick).collect::<Vec<_>>(), vec![10, 18]);
    assert!(matches!(environment.hooks[0].hook, EnvironmentHook::CascadePartition { .. }));
    match &environment.hooks[1].hook {
        EnvironmentHook::ReplaceTopology { configuration } => {
            assert_eq!(configuration.links.len(), scenario.initial_configuration.links.len());
        },
        other => panic!("unexpected hook {other:?}"),
    }
}

#[test]
fn babel_families_schedule_degradation_before_the_cut() {
    let parameters = ExperimentParameterSet::babel(8, 4);
    let (window, decay) = build_babel_decay_window_pressure(&parameters, 41);
    assert_eq!(window.name, "babel-decay-window-pressure-babel-8-4");
    assert!(window.hosts.iter().all(|host| host.lane == EngineLane::Babel));
    assert_eq!(decay.hooks.iter().map(|h| h.at_tick).collect::<Vec<_>>(), vec![8, 12, 20]);
    assert!(matches!(decay.hooks[0].hook, EnvironmentHook::MediumDegradation { .. }));
    let (bridge, asymmetry) = build_babel_asymmetry_cost_penalty(&parameters, 41);
    assert_eq!(bridge.hosts.len(), 4);
    assert_eq!(bridge.initial_configuration.environment.reachable_neighbor_count, 1);
    assert_eq!(bridge.initial_configuration.environment.contention_permille, 200);
    assert_eq!(asymmetry.hooks.iter().map(|h| h.at_tick).collect::<Vec<_>>(), vec![6, 14, 22]);
    assert!(matches!(asymmetry.hooks[0].hook, EnvironmentHook::AsymmetricDegradation { .. }));
}

#[test]
fn olsrv2_flooding_family_runs_on_olsrv2_hosts() {
    let parameters = ExperimentParameterSet::olsrv2(4, 2);
    let (scenario, _) = build_olsrv2_mpr_flooding_stability(&parameters, 3);
    assert!(scenario.name.starts_with("olsrv2-mpr-flooding-stability-"));
    assert!(scenario.hosts.iter().all(|host| host.lane == EngineLane::OlsrV2));
    assert_eq!(scenario.seed, 3);
}
