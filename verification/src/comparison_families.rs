//! Single-owner comparison families: connected flows under low and high loss,
//! bridges that degrade and recover, partial observability, the scatter
//! transfer thresholds, a concurrent mixed pair of flows and the Pathway
//! candidate-budget boundary.
use vstd::prelude::*;
use crate::comparison::{
    comparison_topology_nodes_for_bytes, edge_between, hook_ticks, host_plan, links_of_edges, node_bytes, nodes_of, objective_list, owners_profiled, owners_seeded,
    pathway_service_budget_branch_hosts, restore_pathway_service_budget_branch, service_id, service_objective,
    service_view, set_environment, topology_from_byte_nodes_and_edges, RouteVisibleScenarioTemplate,
    lemma_environment_links, lemma_restored_branch, links_follow, links_follow_with_branch, plain_link,
};
use crate::external::EngineLane;
use crate::params::{ComparisonEngineSet, ExperimentParameterSet};
use crate::pathway::{bridge_cluster_topology, copy_configuration, full_mesh_topology, ring_topology};
use crate::replay::{DestinationId, DestinationView};
use crate::scenario::{OperatingMode, knob_free, no_engine_overrides, swept_hosts,
    configuration_view, cut_bytes, hook_views, HookView,
    asymmetric_degradation_hook, best_effort_connected_profile, cascade_partition_hook, intrinsic_limit_hook, replace_topology_hook, bootstrap_views, bound_objective, comparison_host_spec,
    comparison_lane, comparison_node_engines, comparison_topology_node, connected_objective, mobility_relink_hook, plain_overrides,
    repairable_connected_profile, seed_standalone_field_bootstrap, seed_view, with_field_bootstrap_summaries,
    BootstrapView, ConnectivityPosture, EnvironmentHook, FieldBootstrapSeed, HostOverrides, HostSpec, JacquardScenario,
    RoutePartitionClass, RouteRepairClass, RoutingObjective, ScriptedEnvironmentModel,
};
use crate::topology::{
    find_link, has_link, insert_link, link_at, links_keyed, node_id, topology_link, topology_node, Configuration,
    DirectedLink, Link, MediumEnvironment, NodeEngines, NodeId, TopologyNode,
};

verus! {

/// When every objective belongs to the first host and that host's first
/// bootstrap summary points at every objective's destination, every owner is
/// seeded toward its destination.
proof fn lemma_first_host_seeded(s: JacquardScenario)
    requires
        s.hosts@.len() > 0,
        bootstrap_views(s.hosts@[0]).len() > 0,
        forall|i: int| 0 <= i < s.bound_objectives@.len() ==> (#[trigger] s.bound_objectives@[i]).owner_node_id == s.hosts@[0].local_node_id
            && s.bound_objectives@[i].objective.destination@ == bootstrap_views(s.hosts@[0])[0].destination,
    ensures
        owners_seeded(s),
{
    assert forall|i: int| #![trigger s.bound_objectives@[i]] 0 <= i < s.bound_objectives@.len() implies exists|k: int, m: int|
        #![trigger bootstrap_views(s.hosts@[k])[m]]
        0 <= k < s.hosts@.len() && s.hosts@[k].local_node_id == s.bound_objectives@[i].owner_node_id
            && 0 <= m < bootstrap_views(s.hosts@[k]).len()
            && bootstrap_views(s.hosts@[k])[m].destination == s.bound_objectives@[i].objective.destination@ by {
        assert(bootstrap_views(s.hosts@[0])[0].destination == s.bound_objectives@[i].objective.destination@);
    }
}

/// The primary host followed by a comparison host on each peer node.
pub fn host_specs_with_primary(primary: HostSpec, peers: &Vec<u8>, comparison_engine_set: Option<ComparisonEngineSet>) -> (r: Vec<HostSpec>)
    requires
        no_engine_overrides(primary),
    ensures
        knob_free(r@),
        r@.len() == peers@.len() + 1,
        r@[0] == primary,
        forall|k: int| 1 <= k < r@.len() ==> (#[trigger] r@[k]).local_node_id.0 == peers@[k - 1]
            && r@[k].lane == comparison_lane(comparison_engine_set) && plain_overrides(r@[k].overrides),
{
    let mut out: Vec<HostSpec> = vec![primary];
    let mut i: usize = 0;
    while i < peers.len()
        invariant
            i <= peers@.len(),
            out@.len() == i + 1,
            out@[0] == primary,
            forall|k: int| 1 <= k < out@.len() ==> (#[trigger] out@[k]).local_node_id.0 == peers@[k - 1]
                && out@[k].lane == comparison_lane(comparison_engine_set) && plain_overrides(out@[k].overrides),
        decreases peers@.len() - i,
    {
        out.push(comparison_host_spec(node_id(peers[i]), comparison_engine_set));
        i = i + 1;
    }
    assert(forall|k: int| 1 <= k < out@.len() ==> plain_overrides((#[trigger] out@[k]).overrides));
    out
}

/// A ring of four under little loss; node one wants a connected route to
/// node three from round two.
pub fn build_comparison_connected_low_loss(parameters: &ExperimentParameterSet, seed: u64) -> (r: (JacquardScenario, ScriptedEnvironmentModel))
    ensures
        r.0.operating_mode == OperatingMode::DenseInteractive,
        swept_hosts(r.0.hosts@, parameters@),
        r.0.name@ == "comparison-connected-low-loss-"@ + parameters.config_id@,
        r.0.seed == seed,
        r.0.round_limit == 18,
        r.0.initial_configuration.environment == (MediumEnvironment { reachable_neighbor_count: 2, churn_permille: 0, contention_permille: 30 }),
        objective_list(r.0.bound_objectives@) == seq![(1u8, DestinationView::Node(3), 2u32)],
        host_plan(r.0.hosts@) == seq![
            (1u8, comparison_lane(parameters.comparison_engine_set)),
            (2u8, comparison_lane(parameters.comparison_engine_set)),
            (3u8, comparison_lane(parameters.comparison_engine_set)),
            (4u8, comparison_lane(parameters.comparison_engine_set)),
        ],
        r.0.broker_nodes@.len() == 0,
        hook_ticks(r.1) == Seq::<u64>::empty(),
        links_follow(r.0.initial_configuration.links@, seq![(1u8, 2u8), (2, 3), (3, 4), (4, 1)], 20),
        hook_views(r.1) == Seq::<(u64, HookView)>::empty(),
        owners_profiled(r.0),
{
    let set = parameters.comparison_engine_set;
    let mut topology = ring_topology(
        comparison_topology_node(1, set),
        comparison_topology_node(2, set),
        comparison_topology_node(3, set),
        comparison_topology_node(4, set),
    );
    let ghost built = topology.links@;
    set_environment(&mut topology, 2, 30, 20);
    proof {
        lemma_environment_links(built, topology.links@, seq![(1u8, 2u8), (2, 3), (3, 4), (4, 1)], 20);
    }
    let hosts = host_specs_with_primary(comparison_host_spec(node_id(1), set).with_profile(best_effort_connected_profile()), &vec![2u8, 3, 4], set);
    let ghost pre = hosts@;
    assert(host_plan(pre) =~= seq![(1u8, comparison_lane(set)), (2u8, comparison_lane(set)), (3u8, comparison_lane(set)), (4u8, comparison_lane(set))]) by {
        assert(pre[1].local_node_id.0 == 2u8);
        assert(pre[2].local_node_id.0 == 3u8);
        assert(pre[3].local_node_id.0 == 4u8);
    }
    let objectives = vec![bound_objective(node_id(1), connected_objective(node_id(3)), 2)];
    assert(objective_list(objectives@) =~= seq![(1u8, DestinationView::Node(3), 2u32)]);
    let template = RouteVisibleScenarioTemplate { operating_mode: OperatingMode::DenseInteractive,
        scenario_name: crate::text::join2("comparison-connected-low-loss-", parameters.config_id.as_str()),
        seed,
        topology,
        hosts,
        objectives,
        round_limit: 18,
    };
    let scenario = template.into_scenario(parameters);
    assert(host_plan(scenario.hosts@) =~= host_plan(pre));
    proof {
        lemma_owners_at(scenario, 0, 0);
    }
    let environment = ScriptedEnvironmentModel { hooks: vec![] };
    assert(hook_ticks(environment) =~= Seq::<u64>::empty());
    assert(hook_views(environment) =~~= Seq::<(u64, HookView)>::empty());
    (scenario, environment)
}

/// A repairable, partition-tolerant route to `destination`.
pub fn default_objective(destination: NodeId) -> (r: RoutingObjective)
    ensures
        r.destination@ == DestinationView::Node(destination.0),
        r.target_connectivity == (ConnectivityPosture {
            repair: RouteRepairClass::Repairable,
            partition: RoutePartitionClass::PartitionTolerant,
        }),
        r.latency_budget_ms == 250,
        r.protection_priority == 10,
        r.connectivity_priority == 20,
{
    RoutingObjective {
        destination: DestinationId::Node(destination),
        target_connectivity: ConnectivityPosture {
            repair: RouteRepairClass::Repairable,
            partition: RoutePartitionClass::PartitionTolerant,
        },
        latency_budget_ms: 250,
        protection_priority: 10,
        connectivity_priority: 20,
    }
}

/// The primary host seeded toward `destination` with `summaries`, followed by
/// a comparison host on each peer node.
pub fn comparison_hosts_with_bootstrap(
    comparison_engine_set: Option<ComparisonEngineSet>,
    destination: &DestinationId,
    summaries: &Vec<FieldBootstrapSeed>,
    primary_host: HostSpec,
    peers: &Vec<u8>,
) -> (r: Vec<HostSpec>)
    requires
        no_engine_overrides(primary_host),
    ensures
        knob_free(r@),
        r@.len() == peers@.len() + 1,
        r@[0].local_node_id == primary_host.local_node_id,
        r@[0].lane == primary_host.lane,
        r@[0].overrides == (HostOverrides { field_bootstrap_summaries: r@[0].overrides.field_bootstrap_summaries, ..primary_host.overrides }),
        bootstrap_views(r@[0]) == bootstrap_views(primary_host) + summaries@.map_values(|seed: FieldBootstrapSeed| seed_view(destination@, seed)),
        forall|k: int| 1 <= k < r@.len() ==> (#[trigger] r@[k]).local_node_id.0 == peers@[k - 1]
            && r@[k].lane == comparison_lane(comparison_engine_set) && plain_overrides(r@[k].overrides),
{
    let primary = with_field_bootstrap_summaries(primary_host, destination, summaries);
    host_specs_with_primary(primary, peers, comparison_engine_set)
}

/// The Pathway branch one to five (one linked to five) beside the corridor
/// ten to thirteen of hosts running every engine, on a quiet medium.
pub fn mixed_connected_high_loss_topology() -> (r: Configuration)
    ensures
        r.epoch == 1,
        r.environment == (MediumEnvironment { reachable_neighbor_count: 1, churn_permille: 0, contention_permille: 0 }),
        links_of_edges(r.links@, seq![(1u8, 5u8), (10, 11), (11, 12), (12, 13)]),
        r.nodes@.len() == 9,
{
    let mut nodes = nodes_of(&vec![1u8, 2, 3, 4, 5], NodeEngines::Pathway);
    let mut corridor = nodes_of(&vec![10u8, 11, 12, 13], NodeEngines::AllEngines);
    nodes.append(&mut corridor);
    let edges: Vec<(u8, u8)> = vec![(1, 5), (10, 11), (11, 12), (12, 13)];
    let r = topology_from_byte_nodes_and_edges(nodes, &edges, 1);
    assert(edges@ =~= seq![(1u8, 5u8), (10, 11), (11, 12), (12, 13)]);
    r
}

/// The Pathway branch hosts one to five, then hosts ten to thirteen running
/// every engine, ten wanting repairable connected routes.
pub fn mixed_connected_high_loss_hosts() -> (r: Vec<HostSpec>)
    ensures
        knob_free(r@),
        host_plan(r@) == seq![
            (1u8, EngineLane::Pathway), (2u8, EngineLane::Pathway), (3u8, EngineLane::Pathway),
            (4u8, EngineLane::Pathway), (5u8, EngineLane::Pathway),
            (10u8, EngineLane::AllEngines), (11u8, EngineLane::AllEngines), (12u8, EngineLane::AllEngines),
            (13u8, EngineLane::AllEngines),
        ],
        r@[0].overrides.routing_profile is Some,
        r@[5].overrides.routing_profile is Some,
{
    let mut r = pathway_service_budget_branch_hosts();
    let ghost branch = r@;
    r.push(comparison_host_spec(node_id(10), None).with_profile(repairable_connected_profile()));
    r.push(comparison_host_spec(node_id(11), None));
    r.push(comparison_host_spec(node_id(12), None));
    r.push(comparison_host_spec(node_id(13), None));
    assert(host_plan(r@) =~= host_plan(branch) + seq![
        (10u8, EngineLane::AllEngines), (11u8, EngineLane::AllEngines), (12u8, EngineLane::AllEngines),
        (13u8, EngineLane::AllEngines),
    ]);
    assert(r@[0] == branch[0]);
    r
}

/// Degrades the link between the two given nodes asymmetrically at round
/// seven, then moves the edge node's link from the first to the second at
/// round twelve.
pub fn connected_high_loss_environment(left_edge_node: NodeId, degradation_left_node: NodeId, degradation_right_node: NodeId) -> (r: ScriptedEnvironmentModel)
    ensures
        hook_ticks(r) == seq![7u64, 12],
        hook_views(r) == seq![
            (7u64, HookView::AsymmetricDegradation {
                left: degradation_left_node.0,
                right: degradation_right_node.0,
                forward_confidence: 600,
                forward_loss: 280,
                reverse_confidence: 680,
                reverse_loss: 220,
            }),
            (12u64, HookView::MobilityRelink {
                left: left_edge_node.0,
                from_right: degradation_left_node.0,
                to_right: degradation_right_node.0,
                link: plain_link(3),
            }),
        ],
        r.hooks@[0].hook == (EnvironmentHook::AsymmetricDegradation {
            left: degradation_left_node,
            right: degradation_right_node,
            forward_confidence: 600,
            forward_loss: 280,
            reverse_confidence: 680,
            reverse_loss: 220,
        }),
        r.hooks@[1].hook matches EnvironmentHook::MobilityRelink { left: l, from_right: f, to_right: t, link: k }
            && l == left_edge_node && f == degradation_left_node && t == degradation_right_node && k.endpoint.0 == 3,
{
    let r = ScriptedEnvironmentModel {
        hooks: vec![
            asymmetric_degradation_hook(7, degradation_left_node, degradation_right_node, 600, 280, 680, 220),
            mobility_relink_hook(12, left_edge_node, degradation_left_node, degradation_right_node, topology_link(3)),
        ],
    };
    assert(hook_ticks(r) =~= seq![7u64, 12]);
    assert(hook_views(r) =~~= seq![
        (7u64, HookView::AsymmetricDegradation {
            left: degradation_left_node.0,
            right: degradation_right_node.0,
            forward_confidence: 600,
            forward_loss: 280,
            reverse_confidence: 680,
            reverse_loss: 220,
        }),
        (12u64, HookView::MobilityRelink {
            left: left_edge_node.0,
            from_right: degradation_left_node.0,
            to_right: degradation_right_node.0,
            link: plain_link(3),
        }),
    ]);
    r
}

/// When the objectives' owners are the hosts at `a` or `b`, both selecting a
/// routing profile, every owner selects one.
proof fn lemma_owners_at(s: JacquardScenario, a: int, b: int)
    requires
        0 <= a < s.hosts@.len(),
        0 <= b < s.hosts@.len(),
        s.hosts@[a].overrides.routing_profile is Some,
        s.hosts@[b].overrides.routing_profile is Some,
        forall|i: int| 0 <= i < s.bound_objectives@.len() ==> (#[trigger] s.bound_objectives@[i]).owner_node_id == s.hosts@[a].local_node_id
            || s.bound_objectives@[i].owner_node_id == s.hosts@[b].local_node_id,
    ensures
        owners_profiled(s),
{
    assert forall|i: int| #![trigger s.bound_objectives@[i]] 0 <= i < s.bound_objectives@.len() implies exists|k: int|
        #![trigger s.hosts@[k]]
        0 <= k < s.hosts@.len() && s.hosts@[k].local_node_id == s.bound_objectives@[i].owner_node_id
            && s.hosts@[k].overrides.routing_profile is Some by {
        if s.bound_objectives@[i].owner_node_id == s.hosts@[a].local_node_id {
            assert(s.hosts@[a].local_node_id == s.bound_objectives@[i].owner_node_id);
        } else {
            assert(s.hosts@[b].local_node_id == s.bound_objectives@[i].owner_node_id);
        }
    }
}

/// A connected flow under heavy loss whose middle link degrades at round
/// seven before the edge node relinks at round twelve. Without a comparison
/// engine set, the corridor ten to thirteen runs beside a Pathway service
/// branch; with one, a seeded bridge of four carries the flow.
pub fn build_comparison_connected_high_loss(parameters: &ExperimentParameterSet, seed: u64) -> (r: (JacquardScenario, ScriptedEnvironmentModel))
    ensures
        r.0.operating_mode == OperatingMode::DenseInteractive,
        swept_hosts(r.0.hosts@, parameters@),
        r.0.name@ == "comparison-connected-high-loss-"@ + parameters.config_id@,
        r.0.seed == seed,
        r.0.round_limit == 24,
        r.0.initial_configuration.environment == (MediumEnvironment { reachable_neighbor_count: 1, churn_permille: 0, contention_permille: 220 }),
        hook_ticks(r.1) == seq![7u64, 12],
        owners_profiled(r.0),
        parameters.comparison_engine_set is None ==> {
            &&& links_follow_with_branch(r.0.initial_configuration.links@, seq![(1u8, 5u8), (10, 11), (11, 12), (12, 13)], 220)
            &&& hook_views(r.1) == seq![(7u64, HookView::AsymmetricDegradation { left: 11, right: 12, forward_confidence: 600, forward_loss: 280, reverse_confidence: 680, reverse_loss: 220 }), (12u64, HookView::MobilityRelink { left: 10, from_right: 11, to_right: 12, link: plain_link(3) })]
            &&& objective_list(r.0.bound_objectives@) == seq![(10u8, DestinationView::Node(13), 2u32), (1u8, service_view(23), 4u32)]
            &&& node_bytes(r.0.broker_nodes@) == seq![13u8, 14, 18, 19]
            &&& host_plan(r.0.hosts@) == seq![
                (1u8, EngineLane::Pathway), (2u8, EngineLane::Pathway), (3u8, EngineLane::Pathway),
                (4u8, EngineLane::Pathway), (5u8, EngineLane::Pathway),
                (10u8, EngineLane::AllEngines), (11u8, EngineLane::AllEngines), (12u8, EngineLane::AllEngines),
                (13u8, EngineLane::AllEngines),
            ]
        },
        parameters.comparison_engine_set is Some ==> {
            &&& links_follow(r.0.initial_configuration.links@, seq![(1u8, 2u8), (2, 3), (3, 4)], 220)
            &&& hook_views(r.1) == seq![(7u64, HookView::AsymmetricDegradation { left: 2, right: 3, forward_confidence: 600, forward_loss: 280, reverse_confidence: 680, reverse_loss: 220 }), (12u64, HookView::MobilityRelink { left: 1, from_right: 2, to_right: 3, link: plain_link(3) })]
            &&& objective_list(r.0.bound_objectives@) == seq![(1u8, DestinationView::Node(4), 2u32)]
            &&& node_bytes(r.0.broker_nodes@) == seq![4u8, 5, 9, 10]
            &&& host_plan(r.0.hosts@) == seq![
                (1u8, comparison_lane(parameters.comparison_engine_set)),
                (2u8, comparison_lane(parameters.comparison_engine_set)),
                (3u8, comparison_lane(parameters.comparison_engine_set)),
                (4u8, comparison_lane(parameters.comparison_engine_set)),
            ]
            &&& parameters.comparison_engine_set == Some(ComparisonEngineSet::Field) ==> owners_seeded(r.0)
        },
{
    let name = crate::text::join2("comparison-connected-high-loss-", parameters.config_id.as_str());
    let set = parameters.comparison_engine_set;
    if set.is_none() {
        let mut topology = mixed_connected_high_loss_topology();
        let ghost built = topology.links@;
        set_environment(&mut topology, 1, 220, 220);
        proof {
            lemma_environment_links(built, topology.links@, seq![(1u8, 5u8), (10, 11), (11, 12), (12, 13)], 220);
        }
        let ghost lossy = topology.links@;
        restore_pathway_service_budget_branch(&mut topology);
        proof {
            assert(seq![(1u8, 5u8), (10, 11), (11, 12), (12, 13)][0] == (1u8, 5u8));
            lemma_restored_branch(lossy, topology.links@, seq![(1u8, 5u8), (10, 11), (11, 12), (12, 13)], 220);
        }
        let hosts = mixed_connected_high_loss_hosts();
        let ghost pre = hosts@;
        let objectives = vec![
            bound_objective(node_id(10), connected_objective(node_id(13)), 2),
            bound_objective(node_id(1), service_objective(service_id(23)), 4),
        ];
        assert(objective_list(objectives@) =~= seq![(10u8, DestinationView::Node(13), 2u32), (1u8, service_view(23), 4u32)]);
        let template = RouteVisibleScenarioTemplate { operating_mode: OperatingMode::DenseInteractive, scenario_name: name, seed, topology, hosts, objectives, round_limit: 24 };
        let brokers = vec![node_id(13), node_id(14), node_id(18), node_id(19)];
        assert(node_bytes(brokers@) =~= seq![13u8, 14, 18, 19]);
        let scenario = template.into_scenario(parameters).with_broker_nodes(brokers);
        assert(host_plan(scenario.hosts@) =~= host_plan(pre));
        proof {
            assert(pre[5].local_node_id.0 == host_plan(pre)[5].0);
            assert(pre[0].local_node_id.0 == host_plan(pre)[0].0);
            assert(scenario.hosts@[0].local_node_id == pre[0].local_node_id);
            assert(scenario.hosts@[5].local_node_id == pre[5].local_node_id);
            lemma_owners_at(scenario, 5, 0);
        }
        let environment = connected_high_loss_environment(node_id(10), node_id(11), node_id(12));
        return (scenario, environment);
    }
    let destination = DestinationId::Node(node_id(4));
    let bootstrap: Vec<FieldBootstrapSeed> = vec![(node_id(2), 760, 2, 4, Some(680)), (node_id(3), 820, 2, 4, Some(760))];
    let mut topology = bridge_cluster_topology(
        comparison_topology_node(1, set),
        comparison_topology_node(2, set),
        comparison_topology_node(3, set),
        comparison_topology_node(4, set),
    );
    let ghost built = topology.links@;
    set_environment(&mut topology, 1, 220, 220);
    proof {
        lemma_environment_links(built, topology.links@, seq![(1u8, 2u8), (2, 3), (3, 4)], 220);
    }
    let primary = seed_standalone_field_bootstrap(
        comparison_host_spec(node_id(1), set).with_profile(repairable_connected_profile()),
        set,
        &destination,
        &bootstrap,
    );
    let hosts = host_specs_with_primary(primary, &vec![2u8, 3, 4], set);
    let ghost pre = hosts@;
    assert(host_plan(pre) =~= seq![(1u8, comparison_lane(set)), (2u8, comparison_lane(set)), (3u8, comparison_lane(set)), (4u8, comparison_lane(set))]);
    let objectives = vec![bound_objective(node_id(1), connected_objective(node_id(4)), 2)];
    assert(objective_list(objectives@) =~= seq![(1u8, DestinationView::Node(4), 2u32)]);
    let template = RouteVisibleScenarioTemplate { operating_mode: OperatingMode::DenseInteractive, scenario_name: name, seed, topology, hosts, objectives, round_limit: 24 };
    let brokers = vec![node_id(4), node_id(5), node_id(9), node_id(10)];
    assert(node_bytes(brokers@) =~= seq![4u8, 5, 9, 10]);
    let scenario = template.into_scenario(parameters).with_broker_nodes(brokers);
    assert(host_plan(scenario.hosts@) =~= host_plan(pre));
    proof {
        lemma_owners_at(scenario, 0, 0);
        if set == Some(ComparisonEngineSet::Field) {
            assert(bootstrap_views(scenario.hosts@[0]) == bootstrap_views(pre[0]));
            assert(bootstrap_views(pre[0])[0].destination == destination@);
            lemma_first_host_seeded(scenario);
        }
    }
    let environment = connected_high_loss_environment(node_id(1), node_id(2), node_id(3));
    (scenario, environment)
}

/// The hook puts back exactly the configuration `c`.
pub open spec fn restores(hook: EnvironmentHook, c: Configuration) -> bool {
    hook matches EnvironmentHook::ReplaceTopology { configuration: x } && x.epoch == c.epoch && x.nodes@ == c.nodes@
        && x.links@ == c.links@ && x.environment == c.environment
}

/// A seeded bridge of four whose middle degrades asymmetrically at round
/// seven, is cut both ways at round eleven and is restored at round sixteen.
pub fn build_comparison_bridge_transition(parameters: &ExperimentParameterSet, seed: u64) -> (r: (JacquardScenario, ScriptedEnvironmentModel))
    ensures
        r.0.operating_mode == OperatingMode::DenseInteractive,
        swept_hosts(r.0.hosts@, parameters@),
        r.0.name@ == "comparison-bridge-transition-"@ + parameters.config_id@,
        r.0.seed == seed,
        r.0.round_limit == 24,
        r.0.initial_configuration.environment == (MediumEnvironment { reachable_neighbor_count: 1, churn_permille: 0, contention_permille: 140 }),
        objective_list(r.0.bound_objectives@) == seq![(1u8, DestinationView::Node(4), 2u32)],
        host_plan(r.0.hosts@) == seq![
            (1u8, comparison_lane(parameters.comparison_engine_set)),
            (2u8, comparison_lane(parameters.comparison_engine_set)),
            (3u8, comparison_lane(parameters.comparison_engine_set)),
            (4u8, comparison_lane(parameters.comparison_engine_set)),
        ],
        r.0.broker_nodes@.len() == 0,
        hook_ticks(r.1) == seq![7u64, 11, 16],
        links_follow(r.0.initial_configuration.links@, seq![(1u8, 2u8), (2, 3), (3, 4)], 140),
        hook_views(r.1) == seq![(7u64, HookView::AsymmetricDegradation { left: 2, right: 3, forward_confidence: 620, forward_loss: 220, reverse_confidence: 720, reverse_loss: 160 }), (11u64, HookView::CascadePartition(seq![(2u8, 3u8), (3u8, 2u8)])), (16u64, HookView::ReplaceTopology(configuration_view(r.0.initial_configuration)))],
        restores(r.1.hooks@[2].hook, r.0.initial_configuration),
        owners_profiled(r.0),
        parameters.comparison_engine_set == Some(ComparisonEngineSet::Field) ==> owners_seeded(r.0),
{
    let set = parameters.comparison_engine_set;
    let destination = DestinationId::Node(node_id(4));
    let bootstrap: Vec<FieldBootstrapSeed> = vec![(node_id(2), 820, 2, 4, Some(760)), (node_id(3), 720, 2, 4, Some(680))];
    let mut topology = bridge_cluster_topology(
        comparison_topology_node(1, set),
        comparison_topology_node(2, set),
        comparison_topology_node(3, set),
        comparison_topology_node(4, set),
    );
    let ghost built = topology.links@;
    set_environment(&mut topology, 1, 140, 140);
    proof {
        lemma_environment_links(built, topology.links@, seq![(1u8, 2u8), (2, 3), (3, 4)], 140);
    }
    let restore = copy_configuration(&topology);
    let primary = seed_standalone_field_bootstrap(
        comparison_host_spec(node_id(1), set).with_profile(repairable_connected_profile()),
        set,
        &destination,
        &bootstrap,
    );
    let hosts = host_specs_with_primary(primary, &vec![2u8, 3, 4], set);
    let ghost pre = hosts@;
    assert(host_plan(pre) =~= seq![(1u8, comparison_lane(set)), (2u8, comparison_lane(set)), (3u8, comparison_lane(set)), (4u8, comparison_lane(set))]);
    let objectives = vec![bound_objective(node_id(1), connected_objective(node_id(4)), 2)];
    assert(objective_list(objectives@) =~= seq![(1u8, DestinationView::Node(4), 2u32)]);
    let template = RouteVisibleScenarioTemplate { operating_mode: OperatingMode::DenseInteractive,
        scenario_name: crate::text::join2("comparison-bridge-transition-", parameters.config_id.as_str()),
        seed,
        topology,
        hosts,
        objectives,
        round_limit: 24,
    };
    let scenario = template.into_scenario(parameters);
    assert(host_plan(scenario.hosts@) =~= host_plan(pre));
    proof {
        lemma_owners_at(scenario, 0, 0);
        if set == Some(ComparisonEngineSet::Field) {
            assert(bootstrap_views(scenario.hosts@[0]) == bootstrap_views(pre[0]));
            assert(bootstrap_views(pre[0])[0].destination == destination@);
            lemma_first_host_seeded(scenario);
        }
    }
    let cuts: Vec<(NodeId, NodeId)> = vec![(node_id(2), node_id(3)), (node_id(3), node_id(2))];
    assert(cut_bytes(cuts@) =~= seq![(2u8, 3u8), (3u8, 2u8)]);
    let environment = ScriptedEnvironmentModel {
        hooks: vec![
            asymmetric_degradation_hook(7, node_id(2), node_id(3), 620, 220, 720, 160),
            cascade_partition_hook(11, cuts),
            replace_topology_hook(16, restore),
        ],
    };
    assert(hook_ticks(environment) =~= seq![7u64, 11, 16]);
    assert(hook_views(environment) =~~= seq![(7u64, HookView::AsymmetricDegradation { left: 2, right: 3, forward_confidence: 620, forward_loss: 220, reverse_confidence: 720, reverse_loss: 160 }), (11u64, HookView::CascadePartition(seq![(2u8, 3u8), (3u8, 2u8)])), (16u64, HookView::ReplaceTopology(configuration_view(scenario.initial_configuration)))]);
    (scenario, environment)
}

/// Partial observability across a bridge: its middle degrades asymmetrically
/// at round eight and the configuration is restored at round sixteen; the
/// owner wants a repairable, partition-tolerant route from round three.
/// Without a comparison engine set the mixed layout of the high-loss family
/// is used, with a Pathway service flow beside it; with one, the owner of a
/// bridge of four is seeded toward the far end.
pub fn build_comparison_partial_observability_bridge(parameters: &ExperimentParameterSet, seed: u64) -> (r: (JacquardScenario, ScriptedEnvironmentModel))
    ensures
        r.0.operating_mode == OperatingMode::FieldPartitionTolerant,
        swept_hosts(r.0.hosts@, parameters@),
        r.0.name@ == "comparison-partial-observability-bridge-"@ + parameters.config_id@,
        r.0.seed == seed,
        r.0.round_limit == 24,
        r.0.initial_configuration.environment == (MediumEnvironment { reachable_neighbor_count: 1, churn_permille: 0, contention_permille: 120 }),
        hook_ticks(r.1) == seq![8u64, 16],
        restores(r.1.hooks@[1].hook, r.0.initial_configuration),
        owners_profiled(r.0),
        parameters.comparison_engine_set is None ==> {
            &&& links_follow_with_branch(r.0.initial_configuration.links@, seq![(1u8, 5u8), (10, 11), (11, 12), (12, 13)], 150)
            &&& hook_views(r.1) == seq![(8u64, HookView::AsymmetricDegradation { left: 11, right: 12, forward_confidence: 640, forward_loss: 210, reverse_confidence: 780, reverse_loss: 130 }), (16u64, HookView::ReplaceTopology(configuration_view(r.0.initial_configuration)))]
            &&& objective_list(r.0.bound_objectives@) == seq![(10u8, DestinationView::Node(13), 3u32), (1u8, service_view(25), 4u32)]
            &&& node_bytes(r.0.broker_nodes@) == seq![12u8, 13]
            &&& host_plan(r.0.hosts@) == seq![
                (1u8, EngineLane::Pathway), (2u8, EngineLane::Pathway), (3u8, EngineLane::Pathway),
                (4u8, EngineLane::Pathway), (5u8, EngineLane::Pathway),
                (10u8, EngineLane::AllEngines), (11u8, EngineLane::AllEngines), (12u8, EngineLane::AllEngines),
                (13u8, EngineLane::AllEngines),
            ]
        },
        parameters.comparison_engine_set is Some ==> {
            &&& links_follow(r.0.initial_configuration.links@, seq![(1u8, 2u8), (2, 3), (3, 4)], 150)
            &&& hook_views(r.1) == seq![(8u64, HookView::AsymmetricDegradation { left: 2, right: 3, forward_confidence: 640, forward_loss: 210, reverse_confidence: 780, reverse_loss: 130 }), (16u64, HookView::ReplaceTopology(configuration_view(r.0.initial_configuration)))]
            &&& objective_list(r.0.bound_objectives@) == seq![(1u8, DestinationView::Node(4), 3u32)]
            &&& node_bytes(r.0.broker_nodes@) == seq![4u8, 5]
            &&& host_plan(r.0.hosts@) == seq![
                (1u8, comparison_lane(parameters.comparison_engine_set)),
                (2u8, comparison_lane(parameters.comparison_engine_set)),
                (3u8, comparison_lane(parameters.comparison_engine_set)),
                (4u8, comparison_lane(parameters.comparison_engine_set)),
            ]
            &&& owners_seeded(r.0)
        },
{
    let name = crate::text::join2("comparison-partial-observability-bridge-", parameters.config_id.as_str());
    let set = parameters.comparison_engine_set;
    if set.is_none() {
        let mut topology = mixed_connected_high_loss_topology();
        let ghost built = topology.links@;
        set_environment(&mut topology, 1, 120, 150);
        proof {
            lemma_environment_links(built, topology.links@, seq![(1u8, 5u8), (10, 11), (11, 12), (12, 13)], 150);
        }
        let ghost lossy = topology.links@;
        restore_pathway_service_budget_branch(&mut topology);
        proof {
            assert(seq![(1u8, 5u8), (10, 11), (11, 12), (12, 13)][0] == (1u8, 5u8));
            lemma_restored_branch(lossy, topology.links@, seq![(1u8, 5u8), (10, 11), (11, 12), (12, 13)], 150);
        }
        let restore = copy_configuration(&topology);
        let hosts = mixed_connected_high_loss_hosts();
        let ghost pre = hosts@;
        let objectives = vec![
            bound_objective(node_id(10), default_objective(node_id(13)), 3),
            bound_objective(node_id(1), service_objective(service_id(25)), 4),
        ];
        assert(objective_list(objectives@) =~= seq![(10u8, DestinationView::Node(13), 3u32), (1u8, service_view(25), 4u32)]);
        let template = RouteVisibleScenarioTemplate { operating_mode: OperatingMode::FieldPartitionTolerant, scenario_name: name, seed, topology, hosts, objectives, round_limit: 24 };
        let brokers = vec![node_id(12), node_id(13)];
        assert(node_bytes(brokers@) =~= seq![12u8, 13]);
        let scenario = template.into_scenario(parameters).with_broker_nodes(brokers);
        assert(host_plan(scenario.hosts@) =~= host_plan(pre));
        proof {
            assert(pre[5].local_node_id.0 == host_plan(pre)[5].0);
            assert(pre[0].local_node_id.0 == host_plan(pre)[0].0);
            assert(scenario.hosts@[0].local_node_id == pre[0].local_node_id);
            assert(scenario.hosts@[5].local_node_id == pre[5].local_node_id);
            lemma_owners_at(scenario, 5, 0);
        }
        let environment = ScriptedEnvironmentModel {
            hooks: vec![
                asymmetric_degradation_hook(8, node_id(11), node_id(12), 640, 210, 780, 130),
                replace_topology_hook(16, restore),
            ],
        };
        assert(hook_ticks(environment) =~= seq![8u64, 16]);
        assert(hook_views(environment) =~~= seq![(8u64, HookView::AsymmetricDegradation { left: 11, right: 12, forward_confidence: 640, forward_loss: 210, reverse_confidence: 780, reverse_loss: 130 }), (16u64, HookView::ReplaceTopology(configuration_view(scenario.initial_configuration)))]);
        return (scenario, environment);
    }
    let destination = DestinationId::Node(node_id(4));
    let bootstrap: Vec<FieldBootstrapSeed> = vec![(node_id(2), 900, 2, 3, Some(860)), (node_id(3), 780, 2, 4, Some(720))];
    let mut topology = bridge_cluster_topology(
        comparison_topology_node(1, set),
        comparison_topology_node(2, set),
        comparison_topology_node(3, set),
        comparison_topology_node(4, set),
    );
    let ghost built = topology.links@;
    set_environment(&mut topology, 1, 120, 150);
    proof {
        lemma_environment_links(built, topology.links@, seq![(1u8, 2u8), (2, 3), (3, 4)], 150);
    }
    let restore = copy_configuration(&topology);
    let hosts = comparison_hosts_with_bootstrap(
        set,
        &destination,
        &bootstrap,
        comparison_host_spec(node_id(1), set).with_profile(repairable_connected_profile()),
        &vec![2u8, 3, 4],
    );
    let ghost pre = hosts@;
    assert(host_plan(pre) =~= seq![(1u8, comparison_lane(set)), (2u8, comparison_lane(set)), (3u8, comparison_lane(set)), (4u8, comparison_lane(set))]);
    let objectives = vec![bound_objective(node_id(1), default_objective(node_id(4)), 3)];
    assert(objective_list(objectives@) =~= seq![(1u8, DestinationView::Node(4), 3u32)]);
    let template = RouteVisibleScenarioTemplate { operating_mode: OperatingMode::FieldPartitionTolerant, scenario_name: name, seed, topology, hosts, objectives, round_limit: 24 };
    let brokers = vec![node_id(4), node_id(5)];
    assert(node_bytes(brokers@) =~= seq![4u8, 5]);
    let scenario = template.into_scenario(parameters).with_broker_nodes(brokers);
    assert(host_plan(scenario.hosts@) =~= host_plan(pre));
    proof {
        lemma_owners_at(scenario, 0, 0);
        assert(bootstrap_views(scenario.hosts@[0]) == bootstrap_views(pre[0]));
        assert(bootstrap_views(pre[0])[0].destination == destination@);
        lemma_first_host_seeded(scenario);
    }
    let environment = ScriptedEnvironmentModel {
        hooks: vec![
            asymmetric_degradation_hook(8, node_id(2), node_id(3), 640, 210, 780, 130),
            replace_topology_hook(16, restore),
        ],
    };
    assert(hook_ticks(environment) =~= seq![8u64, 16]);
    assert(hook_views(environment) =~~= seq![(8u64, HookView::AsymmetricDegradation { left: 2, right: 3, forward_confidence: 640, forward_loss: 210, reverse_confidence: 780, reverse_loss: 130 }), (16u64, HookView::ReplaceTopology(configuration_view(scenario.initial_configuration)))]);
    (scenario, environment)
}

/// The Pathway branch alone, node one linked to five on a medium with little
/// contention: node one wants service twenty-one from round two, where only
/// lower-priority candidates are reachable.
pub fn build_comparison_pathway_budget_boundary(parameters: &ExperimentParameterSet, seed: u64) -> (r: (JacquardScenario, ScriptedEnvironmentModel))
    ensures
        r.0.operating_mode == OperatingMode::DenseInteractive,
        swept_hosts(r.0.hosts@, parameters@),
        r.0.name@ == "comparison-pathway-budget-boundary-"@ + parameters.config_id@,
        r.0.seed == seed,
        r.0.round_limit == 10,
        r.0.initial_configuration.environment == (MediumEnvironment { reachable_neighbor_count: 1, churn_permille: 0, contention_permille: 20 }),
        links_of_edges(r.0.initial_configuration.links@, seq![(1u8, 5u8)]),
        objective_list(r.0.bound_objectives@) == seq![(1u8, service_view(21), 2u32)],
        host_plan(r.0.hosts@) == seq![
            (1u8, EngineLane::Pathway), (2u8, EngineLane::Pathway), (3u8, EngineLane::Pathway),
            (4u8, EngineLane::Pathway), (5u8, EngineLane::Pathway),
        ],
        r.0.broker_nodes@.len() == 0,
        hook_ticks(r.1) == Seq::<u64>::empty(),
        hook_views(r.1) == Seq::<(u64, HookView)>::empty(),
        owners_profiled(r.0),
{
    let edges: Vec<(u8, u8)> = vec![(1, 5)];
    let mut topology = topology_from_byte_nodes_and_edges(nodes_of(&vec![1u8, 2, 3, 4, 5], NodeEngines::Pathway), &edges, 1);
    assert(edges@ =~= seq![(1u8, 5u8)]);
    topology.environment = MediumEnvironment { reachable_neighbor_count: 1, churn_permille: 0, contention_permille: 20 };
    let hosts = pathway_service_budget_branch_hosts();
    let ghost pre = hosts@;
    let objectives = vec![bound_objective(node_id(1), service_objective(service_id(21)), 2)];
    assert(objective_list(objectives@) =~= seq![(1u8, service_view(21), 2u32)]);
    let template = RouteVisibleScenarioTemplate { operating_mode: OperatingMode::DenseInteractive,
        scenario_name: crate::text::join2("comparison-pathway-budget-boundary-", parameters.config_id.as_str()),
        seed,
        topology,
        hosts,
        objectives,
        round_limit: 10,
    };
    let scenario = template.into_scenario(parameters);
    assert(host_plan(scenario.hosts@) =~= host_plan(pre));
    proof {
        assert(pre[0].local_node_id.0 == host_plan(pre)[0].0);
        assert(scenario.hosts@[0].local_node_id == pre[0].local_node_id);
        lemma_owners_at(scenario, 0, 0);
    }
    let environment = ScriptedEnvironmentModel { hooks: vec![] };
    assert(hook_ticks(environment) =~= Seq::<u64>::empty());
    assert(hook_views(environment) =~~= Seq::<(u64, HookView)>::empty());
    (scenario, environment)
}

/// The concurrent mixed configuration: with a comparison engine set a full
/// mesh of four; without one, nodes one, three and four run every engine and
/// two and five run Pathway, with links one to four and two to five.
pub fn comparison_concurrent_mixed_topology(comparison_engine_set: Option<ComparisonEngineSet>) -> (r: Configuration)
    ensures
        r.epoch == 1,
        comparison_engine_set is Some ==> links_of_edges(r.links@, seq![(1u8, 2u8), (1, 3), (1, 4), (2, 3), (2, 4), (3, 4)]),
        comparison_engine_set is None ==> {
            &&& links_of_edges(r.links@, seq![(1u8, 4u8), (2, 5)])
            &&& r.environment == (MediumEnvironment { reachable_neighbor_count: 1, churn_permille: 0, contention_permille: 90 })
            &&& r.nodes@.len() == 5
        },
{
    if comparison_engine_set.is_some() {
        return full_mesh_topology(
            comparison_topology_node(1, comparison_engine_set),
            comparison_topology_node(2, comparison_engine_set),
            comparison_topology_node(3, comparison_engine_set),
            comparison_topology_node(4, comparison_engine_set),
        );
    }
    let nodes = vec![
        comparison_topology_node(1, comparison_engine_set),
        topology_node(2, NodeEngines::Pathway),
        comparison_topology_node(3, comparison_engine_set),
        comparison_topology_node(4, comparison_engine_set),
        topology_node(5, NodeEngines::Pathway),
    ];
    let edges: Vec<(u8, u8)> = vec![(1, 4), (2, 5)];
    let mut topology = topology_from_byte_nodes_and_edges(nodes, &edges, 1);
    assert(edges@ =~= seq![(1u8, 4u8), (2, 5)]);
    topology.environment = MediumEnvironment { reachable_neighbor_count: 1, churn_permille: 0, contention_permille: 90 };
    topology
}

/// Hosts of the concurrent mixed family: node one and node two select
/// best-effort connected routes; under a Field-only comparison node two is
/// seeded toward the service. Without a set, node two and node five run
/// Pathway.
pub fn comparison_concurrent_mixed_hosts(
    comparison_engine_set: Option<ComparisonEngineSet>,
    service_destination: &DestinationId,
    service_bootstrap: &Vec<FieldBootstrapSeed>,
) -> (r: Vec<HostSpec>)
    ensures
        knob_free(r@),
        r@.len() >= 2,
        r@[0].overrides.routing_profile is Some,
        r@[1].overrides.routing_profile is Some,
        comparison_engine_set is None ==> host_plan(r@) == seq![
            (1u8, EngineLane::AllEngines), (2u8, EngineLane::Pathway), (3u8, EngineLane::AllEngines),
            (4u8, EngineLane::AllEngines), (5u8, EngineLane::Pathway),
        ],
        comparison_engine_set is Some ==> host_plan(r@) == seq![
            (1u8, comparison_lane(comparison_engine_set)), (2u8, comparison_lane(comparison_engine_set)),
            (3u8, comparison_lane(comparison_engine_set)), (4u8, comparison_lane(comparison_engine_set)),
        ],
        comparison_engine_set == Some(ComparisonEngineSet::Field) ==> bootstrap_views(r@[1])
            == service_bootstrap@.map_values(|seed: FieldBootstrapSeed| seed_view(service_destination@, seed)),
{
    if comparison_engine_set.is_none() {
        let r = vec![
            comparison_host_spec(node_id(1), comparison_engine_set).with_profile(best_effort_connected_profile()),
            HostSpec::new(node_id(2), EngineLane::Pathway).with_profile(best_effort_connected_profile()),
            comparison_host_spec(node_id(3), comparison_engine_set),
            comparison_host_spec(node_id(4), comparison_engine_set),
            HostSpec::new(node_id(5), EngineLane::Pathway),
        ];
        assert(host_plan(r@) =~= seq![
            (1u8, EngineLane::AllEngines), (2u8, EngineLane::Pathway), (3u8, EngineLane::AllEngines),
            (4u8, EngineLane::AllEngines), (5u8, EngineLane::Pathway),
        ]);
        return r;
    }
    let second = comparison_host_spec(node_id(2), comparison_engine_set).with_profile(best_effort_connected_profile());
    proof {
        assert(bootstrap_views(second) =~= Seq::<BootstrapView>::empty());
    }
    let r = vec![
        comparison_host_spec(node_id(1), comparison_engine_set).with_profile(best_effort_connected_profile()),
        seed_standalone_field_bootstrap(second, comparison_engine_set, service_destination, service_bootstrap),
        comparison_host_spec(node_id(3), comparison_engine_set),
        comparison_host_spec(node_id(4), comparison_engine_set),
    ];
    assert(host_plan(r@) =~= seq![
        (1u8, comparison_lane(comparison_engine_set)), (2u8, comparison_lane(comparison_engine_set)),
        (3u8, comparison_lane(comparison_engine_set)), (4u8, comparison_lane(comparison_engine_set)),
    ]);
    r
}

/// Two concurrent flows, a connected route from node one to four from round
/// two and a service route from node two from round four, over a contended
/// medium; node three is limited to one connection at round nine and the
/// link between one and four is cut both ways at round twelve.
pub fn build_comparison_concurrent_mixed(parameters: &ExperimentParameterSet, seed: u64) -> (r: (JacquardScenario, ScriptedEnvironmentModel))
    ensures
        r.0.operating_mode == OperatingMode::DenseInteractive,
        swept_hosts(r.0.hosts@, parameters@),
        r.0.name@ == "comparison-concurrent-mixed-"@ + parameters.config_id@,
        r.0.seed == seed,
        r.0.round_limit == 20,
        r.0.initial_configuration.environment == (MediumEnvironment { reachable_neighbor_count: 3, churn_permille: 0, contention_permille: 160 }),
        objective_list(r.0.bound_objectives@) == seq![(1u8, DestinationView::Node(4), 2u32), (2u8, service_view(13), 4u32)],
        r.0.broker_nodes@.len() == 0,
        hook_ticks(r.1) == seq![9u64, 12],
        hook_views(r.1) == seq![(9u64, HookView::IntrinsicLimit { node: 3, connection_count_max: 1, hold_capacity_bytes_max: 384 }), (12u64, HookView::CascadePartition(seq![(1u8, 4u8), (4u8, 1u8)]))],
        parameters.comparison_engine_set is None ==> links_follow(r.0.initial_configuration.links@, seq![(1u8, 4u8), (2, 5)], 90),
        parameters.comparison_engine_set is Some ==> links_follow(r.0.initial_configuration.links@, seq![(1u8, 2u8), (1, 3), (1, 4), (2, 3), (2, 4), (3, 4)], 90),
        r.1.hooks@[0].hook == (EnvironmentHook::IntrinsicLimit { node_id: NodeId(3), connection_count_max: 1, hold_capacity_bytes_max: 384 }),
        owners_profiled(r.0),
        parameters.comparison_engine_set is None ==> host_plan(r.0.hosts@) == seq![
            (1u8, EngineLane::AllEngines), (2u8, EngineLane::Pathway), (3u8, EngineLane::AllEngines),
            (4u8, EngineLane::AllEngines), (5u8, EngineLane::Pathway),
        ],
        parameters.comparison_engine_set is Some ==> host_plan(r.0.hosts@) == seq![
            (1u8, comparison_lane(parameters.comparison_engine_set)), (2u8, comparison_lane(parameters.comparison_engine_set)),
            (3u8, comparison_lane(parameters.comparison_engine_set)), (4u8, comparison_lane(parameters.comparison_engine_set)),
        ],
        parameters.comparison_engine_set == Some(ComparisonEngineSet::Field) ==> bootstrap_views(r.0.hosts@[1]).len() == 2
            && bootstrap_views(r.0.hosts@[1])[0].destination == service_view(13),
{
    let set = parameters.comparison_engine_set;
    let service_destination = DestinationId::Service(service_id(13));
    let service_bootstrap: Vec<FieldBootstrapSeed> = vec![(node_id(3), 860, 1, 1, Some(810)), (node_id(4), 800, 1, 1, Some(760))];
    let mut topology = comparison_concurrent_mixed_topology(set);
    let ghost built = topology.links@;
    set_environment(&mut topology, 3, 160, 90);
    proof {
        if set is Some {
            lemma_environment_links(built, topology.links@, seq![(1u8, 2u8), (1, 3), (1, 4), (2, 3), (2, 4), (3, 4)], 90);
        } else {
            lemma_environment_links(built, topology.links@, seq![(1u8, 4u8), (2, 5)], 90);
        }
    }
    let hosts = comparison_concurrent_mixed_hosts(set, &service_destination, &service_bootstrap);
    let ghost pre = hosts@;
    let objectives = vec![
        bound_objective(node_id(1), connected_objective(node_id(4)), 2),
        bound_objective(node_id(2), service_objective(service_id(13)), 4),
    ];
    assert(objective_list(objectives@) =~= seq![(1u8, DestinationView::Node(4), 2u32), (2u8, service_view(13), 4u32)]);
    let template = RouteVisibleScenarioTemplate { operating_mode: OperatingMode::DenseInteractive,
        scenario_name: crate::text::join2("comparison-concurrent-mixed-", parameters.config_id.as_str()),
        seed,
        topology,
        hosts,
        objectives,
        round_limit: 20,
    };
    let scenario = template.into_scenario(parameters);
    assert(host_plan(scenario.hosts@) =~= host_plan(pre));
    proof {
        assert(pre[0].local_node_id.0 == host_plan(pre)[0].0);
        assert(pre[1].local_node_id.0 == host_plan(pre)[1].0);
        assert(scenario.hosts@[0].local_node_id == pre[0].local_node_id);
        assert(scenario.hosts@[1].local_node_id == pre[1].local_node_id);
        lemma_owners_at(scenario, 0, 1);
        assert(bootstrap_views(scenario.hosts@[1]) == bootstrap_views(pre[1]));
    }
    let cuts: Vec<(NodeId, NodeId)> = vec![(node_id(1), node_id(4)), (node_id(4), node_id(1))];
    assert(cut_bytes(cuts@) =~= seq![(1u8, 4u8), (4u8, 1u8)]);
    let environment = ScriptedEnvironmentModel {
        hooks: vec![
            intrinsic_limit_hook(9, node_id(3), 1, 384),
            cascade_partition_hook(12, cuts),
        ],
    };
    assert(hook_ticks(environment) =~= seq![9u64, 12]);
    assert(hook_views(environment) =~~= seq![(9u64, HookView::IntrinsicLimit { node: 3, connection_count_max: 1, hold_capacity_bytes_max: 384 }), (12u64, HookView::CascadePartition(seq![(1u8, 4u8), (4u8, 1u8)]))]);
    (scenario, environment)
}

/// The link with a certain transfer rate and stability horizon.
pub open spec fn with_transport_window(l: Link, rate: u32, horizon_ms: u32) -> Link {
    Link { transfer_rate_bytes_per_sec: Some(rate), stability_horizon_ms: Some(horizon_ms), ..l }
}

/// The pair `(x, y)` is among `pairs`.
pub open spec fn pair_listed(pairs: Seq<(NodeId, NodeId)>, x: u8, y: u8) -> bool {
    exists|k: int| 0 <= k < pairs.len() && (#[trigger] pairs[k]).0.0 == x && pairs[k].1.0 == y
}

proof fn lemma_link_at_index(links: Seq<DirectedLink>, k: int)
    requires
        links_keyed(links),
        0 <= k < links.len(),
    ensures
        link_at(links, links[k].from.0, links[k].to.0) == Some(links[k].link),
{
    let a = links[k].from.0;
    let b = links[k].to.0;
    assert(has_link(links, a, b));
    let j = choose|j: int| 0 <= j < links.len() && links[j].from.0 == a && links[j].to.0 == b;
    if j != k {
        if j < k {
            assert(links[j].from == links[k].from);
        } else {
            assert(links[k].from == links[j].from);
        }
    }
}

/// Gives each listed directed link that exists the transfer rate and
/// stability horizon; other links and pairs without a link are left alone.
pub fn set_scatter_transport_window(topology: &mut Configuration, directed_edges: &Vec<(NodeId, NodeId)>, rate: u32, horizon_ms: u32)
    requires
        links_keyed(old(topology).links@),
    ensures
        final(topology).epoch == old(topology).epoch,
        final(topology).nodes@ == old(topology).nodes@,
        final(topology).environment == old(topology).environment,
        links_keyed(final(topology).links@),
        forall|x: u8, y: u8| #[trigger] has_link(final(topology).links@, x, y) == has_link(old(topology).links@, x, y),
        forall|x: u8, y: u8| #[trigger] link_at(final(topology).links@, x, y) == if pair_listed(directed_edges@, x, y)
            && has_link(old(topology).links@, x, y) {
            Some(with_transport_window(link_at(old(topology).links@, x, y)->0, rate, horizon_ms))
        } else {
            link_at(old(topology).links@, x, y)
        },
{
    let ghost before = topology.links@;
    let mut i: usize = 0;
    while i < directed_edges.len()
        invariant
            topology.epoch == old(topology).epoch,
            topology.nodes@ == old(topology).nodes@,
            topology.environment == old(topology).environment,
            before == old(topology).links@,
            i <= directed_edges@.len(),
            links_keyed(topology.links@),
            forall|x: u8, y: u8| #[trigger] has_link(topology.links@, x, y) == has_link(before, x, y),
            forall|x: u8, y: u8| #[trigger] link_at(topology.links@, x, y) == if pair_listed(directed_edges@.take(i as int), x, y)
                && has_link(before, x, y) {
                Some(with_transport_window(link_at(before, x, y)->0, rate, horizon_ms))
            } else {
                link_at(before, x, y)
            },
        decreases directed_edges@.len() - i,
    {
        let (a, b) = directed_edges[i];
        let ghost prefix = directed_edges@.take(i as int);
        let ghost next = directed_edges@.take(i + 1);
        assert forall|x: u8, y: u8| #[trigger] pair_listed(next, x, y) == (pair_listed(prefix, x, y) || (x == a.0 && y == b.0)) by {
            if pair_listed(next, x, y) {
                let k = choose|k: int| 0 <= k < next.len() && (#[trigger] next[k]).0.0 == x && next[k].1.0 == y;
                if k < i {
                    assert(prefix[k] == next[k]);
                }
            }
            if pair_listed(prefix, x, y) {
                let k = choose|k: int| 0 <= k < prefix.len() && (#[trigger] prefix[k]).0.0 == x && prefix[k].1.0 == y;
                assert(next[k] == prefix[k]);
            }
            if x == a.0 && y == b.0 {
                assert(next[i as int] == (a, b));
            }
        }
        match find_link(&topology.links, a, b) {
            Some(k) => {
                let ghost current = topology.links@;
                proof {
                    lemma_link_at_index(current, k as int);
                }
                let updated = Link {
                    transfer_rate_bytes_per_sec: Some(rate),
                    stability_horizon_ms: Some(horizon_ms),
                    ..topology.links[k].link
                };
                insert_link(&mut topology.links, a, b, updated);
            },
            None => {},
        }
        i = i + 1;
    }
    assert(directed_edges@.take(i as int) =~= directed_edges@);
}

/// Gives the node its hold capacity and relay utilization.
pub fn set_scatter_node_state(topology: &mut Configuration, node: NodeId, hold_capacity_available_bytes: u64, relay_utilization_permille: u16)
    ensures
        final(topology).epoch == old(topology).epoch,
        final(topology).links@ == old(topology).links@,
        final(topology).environment == old(topology).environment,
        final(topology).nodes@.len() == old(topology).nodes@.len(),
        forall|k: int| 0 <= k < final(topology).nodes@.len() ==> #[trigger] final(topology).nodes@[k] == if old(topology).nodes@[k].node_id == node {
            TopologyNode {
                hold_capacity_available_bytes: Some(hold_capacity_available_bytes),
                relay_utilization_permille: Some(relay_utilization_permille),
                ..old(topology).nodes@[k]
            }
        } else {
            old(topology).nodes@[k]
        },
{
    let ghost before = topology.nodes@;
    let mut k: usize = 0;
    while k < topology.nodes.len()
        invariant
            topology.epoch == old(topology).epoch,
            topology.links@ == old(topology).links@,
            topology.environment == old(topology).environment,
            before == old(topology).nodes@,
            topology.nodes@.len() == before.len(),
            k <= before.len(),
            forall|j: int| 0 <= j < k ==> #[trigger] topology.nodes@[j] == if before[j].node_id == node {
                TopologyNode {
                    hold_capacity_available_bytes: Some(hold_capacity_available_bytes),
                    relay_utilization_permille: Some(relay_utilization_permille),
                    ..before[j]
                }
            } else {
                before[j]
            },
            forall|j: int| k <= j < before.len() ==> #[trigger] topology.nodes@[j] == before[j],
        decreases before.len() - k,
    {
        let current = topology.nodes[k];
        if current.node_id.0 == node.0 {
            let updated = TopologyNode {
                hold_capacity_available_bytes: Some(hold_capacity_available_bytes),
                relay_utilization_permille: Some(relay_utilization_permille),
                ..current
            };
            topology.nodes.set(k, updated);
        }
        k = k + 1;
    }
}

/// Each node's id, hold capacity and relay utilization.
pub open spec fn node_states(nodes: Seq<TopologyNode>) -> Seq<(u8, Option<u64>, Option<u16>)> {
    nodes.map_values(|n: TopologyNode| (n.node_id.0, n.hold_capacity_available_bytes, n.relay_utilization_permille))
}

proof fn lemma_same_keys(a: Seq<DirectedLink>, b: Seq<DirectedLink>)
    requires
        a.len() == b.len(),
        forall|k: int| 0 <= k < a.len() ==> (#[trigger] a[k]).from == b[k].from && a[k].to == b[k].to,
    ensures
        forall|x: u8, y: u8| #[trigger] has_link(a, x, y) == has_link(b, x, y),
{
    assert forall|x: u8, y: u8| #[trigger] has_link(a, x, y) == has_link(b, x, y) by {
        if has_link(a, x, y) {
            let k = choose|k: int| 0 <= k < a.len() && a[k].from.0 == x && a[k].to.0 == y;
            assert(b[k].from.0 == x && b[k].to.0 == y);
        }
        if has_link(b, x, y) {
            let k = choose|k: int| 0 <= k < b.len() && b[k].from.0 == x && b[k].to.0 == y;
            assert(a[k].from.0 == x && a[k].to.0 == y);
        }
    }
}

/// Every link of the configuration carries the given transfer window.
pub open spec fn all_links_windowed(links: Seq<DirectedLink>, rate: u32, horizon_ms: u32) -> bool {
    forall|x: u8, y: u8| #[trigger] has_link(links, x, y) ==> (link_at(links, x, y) matches Some(l)
        && l.transfer_rate_bytes_per_sec == Some(rate) && l.stability_horizon_ms == Some(horizon_ms))
}

/// The line one to four with a transfer window on each of its six directed
/// links, node one busy relaying with little room to hold and the others idle.
fn scatter_line(comparison_engine_set: Option<ComparisonEngineSet>, contention_permille: u16, loss_permille: u16, rate: u32, horizon_ms: u32) -> (r: Configuration)
    ensures
        r.epoch == 1,
        r.environment == (MediumEnvironment { reachable_neighbor_count: 1, churn_permille: 0, contention_permille }),
        links_keyed(r.links@),
        forall|x: u8, y: u8| #[trigger] has_link(r.links@, x, y) == edge_between(seq![(1u8, 2u8), (2, 3), (3, 4)], x, y),
        all_links_windowed(r.links@, rate, horizon_ms),
        node_states(r.nodes@) == seq![
            (1u8, Some(1024u64), Some(760u16)),
            (2u8, Some(4096u64), Some(0u16)),
            (3u8, Some(4096u64), Some(0u16)),
            (4u8, Some(4096u64), Some(0u16)),
        ],
        forall|k: int| 0 <= k < r.nodes@.len() ==> (#[trigger] r.nodes@[k]).engines == comparison_node_engines(comparison_engine_set),
{
    let edges: Vec<(u8, u8)> = vec![(1, 2), (2, 3), (3, 4)];
    let bytes: Vec<u8> = vec![1, 2, 3, 4];
    let mut topology = topology_from_byte_nodes_and_edges(comparison_topology_nodes_for_bytes(&bytes, comparison_engine_set), &edges, 1);
    assert(edges@ =~= seq![(1u8, 2u8), (2, 3), (3, 4)]);
    let ghost built = topology.links@;
    set_environment(&mut topology, 1, contention_permille, loss_permille);
    let ghost plain = topology.links@;
    proof {
        lemma_same_keys(plain, built);
    }
    let pairs = vec![
        (node_id(1), node_id(2)),
        (node_id(2), node_id(1)),
        (node_id(2), node_id(3)),
        (node_id(3), node_id(2)),
        (node_id(3), node_id(4)),
        (node_id(4), node_id(3)),
    ];
    set_scatter_transport_window(&mut topology, &pairs, rate, horizon_ms);
    let ghost windowed = topology.links@;
    proof {
        let es = seq![(1u8, 2u8), (2u8, 3u8), (3u8, 4u8)];
        assert forall|x: u8, y: u8| #[trigger] has_link(windowed, x, y) implies (link_at(windowed, x, y) matches Some(l)
            && l.transfer_rate_bytes_per_sec == Some(rate) && l.stability_horizon_ms == Some(horizon_ms)) by {
            assert(edge_between(es, x, y));
            let e = choose|e: int| 0 <= e < es.len() && (#[trigger] es[e] == (x, y) || es[e] == (y, x));
            if e == 0 {
                if x == 1 { assert(pairs@[0].0.0 == x && pairs@[0].1.0 == y); } else { assert(pairs@[1].0.0 == x && pairs@[1].1.0 == y); }
            } else if e == 1 {
                if x == 2 { assert(pairs@[2].0.0 == x && pairs@[2].1.0 == y); } else { assert(pairs@[3].0.0 == x && pairs@[3].1.0 == y); }
            } else {
                if x == 3 { assert(pairs@[4].0.0 == x && pairs@[4].1.0 == y); } else { assert(pairs@[5].0.0 == x && pairs@[5].1.0 == y); }
            }
            assert(pair_listed(pairs@, x, y));
        }
    }
    set_scatter_node_state(&mut topology, node_id(1), 1024, 760);
    set_scatter_node_state(&mut topology, node_id(2), 4096, 0);
    set_scatter_node_state(&mut topology, node_id(3), 4096, 0);
    set_scatter_node_state(&mut topology, node_id(4), 4096, 0);
    topology
}

/// A line of four for the scatter thresholds: node one wants a connected
/// route to node four from round two.
fn scatter_threshold_scenario(
    parameters: &ExperimentParameterSet,
    seed: u64,
    name: String,
    topology: Configuration,
) -> (r: JacquardScenario)
    ensures
        r.name@ == name@,
        r.seed == seed,
        r.operating_mode == OperatingMode::DenseInteractive,
        r.round_limit == 18,
        swept_hosts(r.hosts@, parameters@),
        r.initial_configuration == topology,
        objective_list(r.bound_objectives@) == seq![(1u8, DestinationView::Node(4), 2u32)],
        host_plan(r.hosts@) == seq![
            (1u8, comparison_lane(parameters.comparison_engine_set)),
            (2u8, comparison_lane(parameters.comparison_engine_set)),
            (3u8, comparison_lane(parameters.comparison_engine_set)),
            (4u8, comparison_lane(parameters.comparison_engine_set)),
        ],
        r.broker_nodes@.len() == 0,
        owners_profiled(r),
{
    let set = parameters.comparison_engine_set;
    let hosts = host_specs_with_primary(comparison_host_spec(node_id(1), set).with_profile(repairable_connected_profile()), &vec![2u8, 3, 4], set);
    let ghost pre = hosts@;
    assert(host_plan(pre) =~= seq![(1u8, comparison_lane(set)), (2u8, comparison_lane(set)), (3u8, comparison_lane(set)), (4u8, comparison_lane(set))]);
    let objectives = vec![bound_objective(node_id(1), connected_objective(node_id(4)), 2)];
    assert(objective_list(objectives@) =~= seq![(1u8, DestinationView::Node(4), 2u32)]);
    let template = RouteVisibleScenarioTemplate { operating_mode: OperatingMode::DenseInteractive, scenario_name: name, seed, topology, hosts, objectives, round_limit: 18 };
    let scenario = template.into_scenario(parameters);
    assert(host_plan(scenario.hosts@) =~= host_plan(pre));
    proof {
        lemma_owners_at(scenario, 0, 0);
    }
    scenario
}

/// A line of four whose links carry only eighty bytes a second over a
/// two-and-a-half-second stability window, from a busy node one.
pub fn build_scatter_low_rate_transfer_threshold(parameters: &ExperimentParameterSet, seed: u64) -> (r: (JacquardScenario, ScriptedEnvironmentModel))
    ensures
        r.0.operating_mode == OperatingMode::DenseInteractive,
        swept_hosts(r.0.hosts@, parameters@),
        r.0.name@ == "scatter-low-rate-transfer-threshold-"@ + parameters.config_id@,
        r.0.seed == seed,
        r.0.round_limit == 18,
        r.0.initial_configuration.environment == (MediumEnvironment { reachable_neighbor_count: 1, churn_permille: 0, contention_permille: 80 }),
        all_links_windowed(r.0.initial_configuration.links@, 80, 2500),
        node_states(r.0.initial_configuration.nodes@) == seq![
            (1u8, Some(1024u64), Some(760u16)),
            (2u8, Some(4096u64), Some(0u16)),
            (3u8, Some(4096u64), Some(0u16)),
            (4u8, Some(4096u64), Some(0u16)),
        ],
        objective_list(r.0.bound_objectives@) == seq![(1u8, DestinationView::Node(4), 2u32)],
        host_plan(r.0.hosts@) == seq![
            (1u8, comparison_lane(parameters.comparison_engine_set)),
            (2u8, comparison_lane(parameters.comparison_engine_set)),
            (3u8, comparison_lane(parameters.comparison_engine_set)),
            (4u8, comparison_lane(parameters.comparison_engine_set)),
        ],
        r.0.broker_nodes@.len() == 0,
        hook_ticks(r.1) == Seq::<u64>::empty(),
        hook_views(r.1) == Seq::<(u64, HookView)>::empty(),
        forall|x: u8, y: u8| #[trigger] has_link(r.0.initial_configuration.links@, x, y) == edge_between(seq![(1u8, 2u8), (2, 3), (3, 4)], x, y),
        owners_profiled(r.0),
{
    let topology = scatter_line(parameters.comparison_engine_set, 80, 40, 80, 2500);
    let name = crate::text::join2("scatter-low-rate-transfer-threshold-", parameters.config_id.as_str());
    let scenario = scatter_threshold_scenario(parameters, seed, name, topology);
    let environment = ScriptedEnvironmentModel { hooks: vec![] };
    assert(hook_ticks(environment) =~= Seq::<u64>::empty());
    assert(hook_views(environment) =~~= Seq::<(u64, HookView)>::empty());
    (scenario, environment)
}

/// A line of four whose links are fast but stable for only three hundred
/// milliseconds, from a busy node one.
pub fn build_scatter_stability_window_threshold(parameters: &ExperimentParameterSet, seed: u64) -> (r: (JacquardScenario, ScriptedEnvironmentModel))
    ensures
        r.0.operating_mode == OperatingMode::DenseInteractive,
        swept_hosts(r.0.hosts@, parameters@),
        r.0.name@ == "scatter-stability-window-threshold-"@ + parameters.config_id@,
        r.0.seed == seed,
        r.0.round_limit == 18,
        r.0.initial_configuration.environment == (MediumEnvironment { reachable_neighbor_count: 1, churn_permille: 0, contention_permille: 60 }),
        all_links_windowed(r.0.initial_configuration.links@, 2048, 300),
        node_states(r.0.initial_configuration.nodes@) == seq![
            (1u8, Some(1024u64), Some(760u16)),
            (2u8, Some(4096u64), Some(0u16)),
            (3u8, Some(4096u64), Some(0u16)),
            (4u8, Some(4096u64), Some(0u16)),
        ],
        objective_list(r.0.bound_objectives@) == seq![(1u8, DestinationView::Node(4), 2u32)],
        host_plan(r.0.hosts@) == seq![
            (1u8, comparison_lane(parameters.comparison_engine_set)),
            (2u8, comparison_lane(parameters.comparison_engine_set)),
            (3u8, comparison_lane(parameters.comparison_engine_set)),
            (4u8, comparison_lane(parameters.comparison_engine_set)),
        ],
        r.0.broker_nodes@.len() == 0,
        hook_ticks(r.1) == Seq::<u64>::empty(),
        hook_views(r.1) == Seq::<(u64, HookView)>::empty(),
        forall|x: u8, y: u8| #[trigger] has_link(r.0.initial_configuration.links@, x, y) == edge_between(seq![(1u8, 2u8), (2, 3), (3, 4)], x, y),
        owners_profiled(r.0),
{
    let topology = scatter_line(parameters.comparison_engine_set, 60, 35, 2048, 300);
    let name = crate::text::join2("scatter-stability-window-threshold-", parameters.config_id.as_str());
    let scenario = scatter_threshold_scenario(parameters, seed, name, topology);
    let environment = ScriptedEnvironmentModel { hooks: vec![] };
    assert(hook_ticks(environment) =~= Seq::<u64>::empty());
    assert(hook_views(environment) =~~= Seq::<(u64, HookView)>::empty());
    (scenario, environment)
}

/// A star around node one, which holds plenty but relays heavily, with node
/// five leading on to node six; the leaves have little room and are half
/// busy. Node one wants a connected route to node six from round two.
pub fn build_scatter_conservative_constrained_threshold(parameters: &ExperimentParameterSet, seed: u64) -> (r: (JacquardScenario, ScriptedEnvironmentModel))
    ensures
        r.0.operating_mode == OperatingMode::DenseInteractive,
        swept_hosts(r.0.hosts@, parameters@),
        r.0.name@ == "scatter-conservative-constrained-threshold-"@ + parameters.config_id@,
        r.0.seed == seed,
        r.0.round_limit == 18,
        r.0.initial_configuration.environment == (MediumEnvironment { reachable_neighbor_count: 4, churn_permille: 0, contention_permille: 120 }),
        forall|x: u8, y: u8| #[trigger] has_link(r.0.initial_configuration.links@, x, y)
            == edge_between(seq![(1u8, 2u8), (1, 3), (1, 4), (1, 5), (5, 6)], x, y),
        node_states(r.0.initial_configuration.nodes@) == seq![
            (1u8, Some(4096u64), Some(700u16)),
            (2u8, Some(1024u64), Some(448u16)),
            (3u8, Some(1024u64), Some(448u16)),
            (4u8, Some(1024u64), Some(448u16)),
            (5u8, Some(1024u64), Some(448u16)),
            (6u8, None::<u64>, None::<u16>),
        ],
        objective_list(r.0.bound_objectives@) == seq![(1u8, DestinationView::Node(6), 2u32)],
        host_plan(r.0.hosts@) == seq![
            (1u8, comparison_lane(parameters.comparison_engine_set)),
            (2u8, comparison_lane(parameters.comparison_engine_set)),
            (3u8, comparison_lane(parameters.comparison_engine_set)),
            (4u8, comparison_lane(parameters.comparison_engine_set)),
            (5u8, comparison_lane(parameters.comparison_engine_set)),
            (6u8, comparison_lane(parameters.comparison_engine_set)),
        ],
        r.0.broker_nodes@.len() == 0,
        hook_ticks(r.1) == Seq::<u64>::empty(),
        hook_views(r.1) == Seq::<(u64, HookView)>::empty(),
        owners_profiled(r.0),
{
    let set = parameters.comparison_engine_set;
    let edges: Vec<(u8, u8)> = vec![(1, 2), (1, 3), (1, 4), (1, 5), (5, 6)];
    let bytes: Vec<u8> = vec![1, 2, 3, 4, 5, 6];
    let mut topology = topology_from_byte_nodes_and_edges(comparison_topology_nodes_for_bytes(&bytes, set), &edges, 4);
    assert(edges@ =~= seq![(1u8, 2u8), (1, 3), (1, 4), (1, 5), (5, 6)]);
    let ghost built = topology.links@;
    set_environment(&mut topology, 4, 120, 30);
    proof {
        lemma_same_keys(topology.links@, built);
    }
    set_scatter_node_state(&mut topology, node_id(1), 4096, 700);
    set_scatter_node_state(&mut topology, node_id(2), 1024, 448);
    set_scatter_node_state(&mut topology, node_id(3), 1024, 448);
    set_scatter_node_state(&mut topology, node_id(4), 1024, 448);
    set_scatter_node_state(&mut topology, node_id(5), 1024, 448);
    assert(node_states(topology.nodes@) =~= seq![
        (1u8, Some(4096u64), Some(700u16)),
        (2u8, Some(1024u64), Some(448u16)),
        (3u8, Some(1024u64), Some(448u16)),
        (4u8, Some(1024u64), Some(448u16)),
        (5u8, Some(1024u64), Some(448u16)),
        (6u8, None::<u64>, None::<u16>),
    ]);
    let hosts = host_specs_with_primary(comparison_host_spec(node_id(1), set).with_profile(repairable_connected_profile()), &vec![2u8, 3, 4, 5, 6], set);
    let ghost pre = hosts@;
    assert(host_plan(pre) =~= seq![
        (1u8, comparison_lane(set)), (2u8, comparison_lane(set)), (3u8, comparison_lane(set)),
        (4u8, comparison_lane(set)), (5u8, comparison_lane(set)), (6u8, comparison_lane(set)),
    ]);
    let objectives = vec![bound_objective(node_id(1), connected_objective(node_id(6)), 2)];
    assert(objective_list(objectives@) =~= seq![(1u8, DestinationView::Node(6), 2u32)]);
    let template = RouteVisibleScenarioTemplate { operating_mode: OperatingMode::DenseInteractive,
        scenario_name: crate::text::join2("scatter-conservative-constrained-threshold-", parameters.config_id.as_str()),
        seed,
        topology,
        hosts,
        objectives,
        round_limit: 18,
    };
    let scenario = template.into_scenario(parameters);
    assert(host_plan(scenario.hosts@) =~= host_plan(pre));
    proof {
        lemma_owners_at(scenario, 0, 0);
    }
    let environment = ScriptedEnvironmentModel { hooks: vec![] };
    assert(hook_ticks(environment) =~= Seq::<u64>::empty());
    assert(hook_views(environment) =~~= Seq::<(u64, HookView)>::empty());
    (scenario, environment)
}

} // verus!
