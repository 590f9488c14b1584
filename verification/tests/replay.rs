use jacquard_simulator::replay::{EnvironmentHookCounts, FailureClassCounts,
    active_routes_for, broker_active_route_counts_for, broker_route_churn_count_for, dominant_engine,
    engine_handoff_count_for, engine_round_counts, normalized_engine_id, objective_active_round_count,
    route_churn_count_for, route_usable_in_configuration, same_destination, ActiveRouteSummary, DestinationId,
    ReachabilityState, ReducedReplayView, ReducedRouteObservation, ReducedRound, RoutingEngineId,
};
use jacquard_simulator::topology::{
    insert_link, node_id, topology_link, topology_node, Configuration, MediumEnvironment, NodeEngines, NodeId,
};

fn route(owner: u8, destination: DestinationId, engine_id: RoutingEngineId, next_hop: Option<u8>) -> ActiveRouteSummary {
    ActiveRouteSummary {
        owner_node_id: node_id(owner),
        destination,
        engine_id,
        next_hop_node_id: next_hop.map(node_id),
        hop_count_hint: Some(2),
        reachability_state: ReachabilityState::Reachable,
        stability_score: 900,
        scatter_current_regime: None,
        scatter_last_action: None,
        scatter_retained_message_count: None,
        scatter_delivered_message_count: None,
    }
}

fn observation(owner: u8, destination: u8, engine_id: RoutingEngineId, first: u32, last: u32) -> ReducedRouteObservation {
    ReducedRouteObservation {
        owner_node_id: node_id(owner),
        destination: DestinationId::Node(node_id(destination)),
        engine_id,
        first_seen_round: first,
        last_seen_round: last,
    }
}

fn replay(rounds: Vec<ReducedRound>) -> ReducedReplayView {
    ReducedReplayView {
        scenario_name: "synthetic".to_string(),
        round_count: rounds.len() as u32,
        rounds,
        distinct_engine_ids: Vec::new(),
        driver_status_event_count: 0,
        failure_summary_count: 0,
        route_observations: Vec::new(),
        environment_change_rounds: Vec::new(),
        objective_replays: Vec::new(),
        field_replays: Vec::new(),
        hook_counts: EnvironmentHookCounts::default(),
        failure_counts: FailureClassCounts::default(),
        maintenance_failure_count: 0,
    }
}

#[test]
fn broker_route_churn_counts_only_broker_identity_changes() {
    let broker_a = node_id(3);
    let broker_b = node_id(4);
    let destination = DestinationId::Node(node_id(9));
    let routes = [
        route(1, destination.clone(), RoutingEngineId::Pathway, Some(broker_a.0)),
        route(1, destination, RoutingEngineId::Pathway, Some(broker_b.0)),
    ];

    let refs = routes.iter().collect::<Vec<_>>();
    let brokers = vec![broker_a, broker_b];
    assert_eq!(broker_route_churn_count_for(&refs, &brokers), 1);
}

#[test]
fn broker_route_churn_ignores_non_broker_hops() {
    let destination = DestinationId::Node(node_id(9));
    let routes = [
        route(1, destination.clone(), RoutingEngineId::Pathway, Some(5)),
        route(1, destination.clone(), RoutingEngineId::Pathway, Some(6)),
        route(1, destination.clone(), RoutingEngineId::Pathway, Some(3)),
        route(1, destination.clone(), RoutingEngineId::Pathway, Some(3)),
        route(1, destination, RoutingEngineId::Pathway, None),
    ];
    let refs = routes.iter().collect::<Vec<_>>();
    // 5 -> 6: neither is a broker; 6 -> 3: enters broker 3; 3 -> 3: same; 3 -> none: leaves.
    assert_eq!(broker_route_churn_count_for(&refs, &vec![node_id(3)]), 2);
    assert_eq!(broker_route_churn_count_for(&Vec::new(), &vec![node_id(3)]), 0);
}

#[test]
fn broker_counts_split_visible_and_brokered_routes() {
    let destination = DestinationId::Node(node_id(9));
    let routes = [
        route(1, destination.clone(), RoutingEngineId::Pathway, Some(3)),
        route(1, destination.clone(), RoutingEngineId::Pathway, Some(4)),
        route(1, destination.clone(), RoutingEngineId::Pathway, Some(3)),
        route(1, destination.clone(), RoutingEngineId::Pathway, Some(7)),
        route(1, destination, RoutingEngineId::Pathway, None),
    ];
    let refs = routes.iter().collect::<Vec<_>>();
    let (visible, brokered, usage) = broker_active_route_counts_for(&refs, &vec![node_id(3), node_id(4), node_id(5)]);
    assert_eq!(visible, 4);
    assert_eq!(brokered, 3);
    assert_eq!(usage, vec![(node_id(3), 2), (node_id(4), 1)]);
}

#[test]
fn route_churn_counts_observations_after_the_first() {
    let observations = vec![
        observation(1, 2, RoutingEngineId::Pathway, 2, 4),
        observation(1, 2, RoutingEngineId::BatmanBellman, 5, 6),
        observation(1, 3, RoutingEngineId::Pathway, 2, 9),
        observation(1, 2, RoutingEngineId::Pathway, 7, 9),
    ];
    let destination = DestinationId::Node(node_id(2));
    assert_eq!(route_churn_count_for(&observations, node_id(1), &destination), 2);
    assert_eq!(engine_handoff_count_for(&observations, node_id(1), &destination), 1);
    let unseen = DestinationId::Node(node_id(8));
    assert_eq!(route_churn_count_for(&observations, node_id(1), &unseen), 0);
    assert_eq!(engine_handoff_count_for(&observations, node_id(1), &unseen), 0);
}

#[test]
fn objective_active_round_count_saturates_at_zero() {
    assert_eq!(objective_active_round_count(18, 2), 16);
    assert_eq!(objective_active_round_count(2, 18), 0);
}

#[test]
fn active_routes_for_follows_round_order() {
    let wanted = DestinationId::Node(node_id(6));
    let other = DestinationId::Node(node_id(7));
    let view = replay(vec![
        ReducedRound { round_index: 0, active_routes: vec![route(1, other.clone(), RoutingEngineId::Babel, Some(2))] },
        ReducedRound {
            round_index: 1,
            active_routes: vec![
                route(1, wanted.clone(), RoutingEngineId::Babel, Some(3)),
                route(2, wanted.clone(), RoutingEngineId::Babel, Some(3)),
            ],
        },
        ReducedRound { round_index: 2, active_routes: vec![route(1, wanted.clone(), RoutingEngineId::Field, Some(4))] },
    ]);
    let routes = active_routes_for(&view, node_id(1), &wanted);
    let hops = routes.iter().map(|r| r.next_hop_node_id).collect::<Vec<_>>();
    assert_eq!(hops, vec![Some(node_id(3)), Some(node_id(4))]);
}

#[test]
fn engine_round_counts_count_rounds_not_routes() {
    let d = DestinationId::Node(node_id(6));
    let view = replay(vec![
        ReducedRound {
            round_index: 0,
            active_routes: vec![route(1, d.clone(), RoutingEngineId::Pathway, None), route(2, d.clone(), RoutingEngineId::Pathway, None)],
        },
        ReducedRound {
            round_index: 1,
            active_routes: vec![route(1, d.clone(), RoutingEngineId::Scatter, None), route(2, d.clone(), RoutingEngineId::Other(7), None)],
        },
        ReducedRound { round_index: 2, active_routes: vec![route(1, d.clone(), RoutingEngineId::Pathway, None)] },
        ReducedRound { round_index: 3, active_routes: Vec::new() },
    ]);
    let counts = engine_round_counts(&view);
    assert_eq!(
        counts,
        vec![("other".to_string(), 1), ("pathway".to_string(), 2), ("scatter".to_string(), 1)]
    );
    assert_eq!(dominant_engine(&counts), Some("pathway".to_string()));
}

#[test]
fn dominant_engine_breaks_ties_by_label() {
    let counts = vec![("babel".to_string(), 3), ("field".to_string(), 3), ("olsrv2".to_string(), 1)];
    assert_eq!(dominant_engine(&counts), Some("field".to_string()));
    assert_eq!(dominant_engine(&Vec::new()), None);
}

#[test]
fn normalized_engine_ids_use_report_labels() {
    assert_eq!(normalized_engine_id(RoutingEngineId::BatmanBellman), "batman-bellman");
    assert_eq!(normalized_engine_id(RoutingEngineId::BatmanClassic), "batman-classic");
    assert_eq!(normalized_engine_id(RoutingEngineId::Babel), "babel");
    assert_eq!(normalized_engine_id(RoutingEngineId::OlsrV2), "olsrv2");
    assert_eq!(normalized_engine_id(RoutingEngineId::Pathway), "pathway");
    assert_eq!(normalized_engine_id(RoutingEngineId::Field), "field");
    assert_eq!(normalized_engine_id(RoutingEngineId::Scatter), "scatter");
    assert_eq!(normalized_engine_id(RoutingEngineId::Mercator), "other");
    assert_eq!(normalized_engine_id(RoutingEngineId::Other(1)), "other");
}

#[test]
fn destinations_compare_by_kind_and_id() {
    assert!(same_destination(&DestinationId::Service(vec![13; 16]), &DestinationId::Service(vec![13; 16])));
    assert!(!same_destination(&DestinationId::Service(vec![13; 16]), &DestinationId::Service(vec![14; 16])));
    assert!(!same_destination(&DestinationId::Node(node_id(1)), &DestinationId::Gateway(1)));
    assert!(same_destination(&DestinationId::Gateway(9), &DestinationId::Gateway(9)));
}

fn line_configuration() -> Configuration {
    let mut links = Vec::new();
    insert_link(&mut links, node_id(1), node_id(2), topology_link(2));
    insert_link(&mut links, node_id(2), node_id(3), topology_link(3));
    Configuration {
        epoch: 1,
        nodes: vec![
            topology_node(1, NodeEngines::Pathway),
            topology_node(2, NodeEngines::Pathway),
            topology_node(3, NodeEngines::Pathway),
        ],
        links,
        environment: MediumEnvironment { reachable_neighbor_count: 1, churn_permille: 0, contention_permille: 0 },
    }
}

#[test]
fn route_usable_needs_reachability_and_a_path() {
    let configuration = line_configuration();
    let forward = route(1, DestinationId::Node(node_id(3)), RoutingEngineId::Pathway, Some(2));
    assert!(route_usable_in_configuration(&forward, &configuration));
    let backward = route(3, DestinationId::Node(node_id(1)), RoutingEngineId::Pathway, Some(2));
    assert!(!route_usable_in_configuration(&backward, &configuration));
    let mut unreachable = route(1, DestinationId::Node(node_id(3)), RoutingEngineId::Pathway, Some(2));
    unreachable.reachability_state = ReachabilityState::Unreachable;
    assert!(!route_usable_in_configuration(&unreachable, &configuration));
    let service = route(3, DestinationId::Service(vec![1; 16]), RoutingEngineId::Pathway, None);
    assert!(route_usable_in_configuration(&service, &configuration));
    let _ = NodeId(0);
}

#[test]
fn engine_round_counts_count_mercator_rounds_as_other() {
    let d = DestinationId::Node(node_id(6));
    let view = replay(vec![
        ReducedRound { round_index: 0, active_routes: vec![route(1, d.clone(), RoutingEngineId::Mercator, None)] },
        ReducedRound { round_index: 1, active_routes: vec![route(1, d.clone(), RoutingEngineId::Mercator, None)] },
        ReducedRound { round_index: 2, active_routes: vec![route(1, d.clone(), RoutingEngineId::Pathway, None)] },
    ]);
    let counts = engine_round_counts(&view);
    assert_eq!(counts, vec![("other".to_string(), 2), ("pathway".to_string(), 1)]);
    assert_eq!(dominant_engine(&counts), Some("other".to_string()));
}
