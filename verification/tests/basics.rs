use jacquard_simulator::params::{
    field_heuristic_mode_from_str, field_heuristic_mode_label, heuristic_mode_from_str, heuristic_mode_label,
    ComparisonEngineSet, DecayWindow, ExperimentParameterSet, FieldSearchHeuristicMode, PathwaySearchHeuristicMode,
};
use jacquard_simulator::stats::{average_option_u32, average_u32, median_u32, min_max_spread_u32, mode, ratio_permille};
use jacquard_simulator::text::{decimal_string, hyphenate, str_lt};
use jacquard_simulator::topology::{
    configuration_path_exists, find_link, insert_link, node_id, remove_link, topology_link, topology_node,
    Configuration, MediumEnvironment, NodeEngines,
};

#[test]
fn ratio_permille_rounds_down_and_guards_zero() {
    assert_eq!(ratio_permille(1, 3), 333);
    assert_eq!(ratio_permille(5, 0), 0);
    assert_eq!(ratio_permille(u32::MAX, 1), u32::MAX);
}

#[test]
fn averages_truncate_and_skip_missing_values() {
    assert_eq!(average_u32(&vec![1, 2, 4]), 2);
    assert_eq!(average_u32(&Vec::new()), 0);
    assert_eq!(average_option_u32(&vec![Some(10), None, Some(21)]), Some(15));
    assert_eq!(average_option_u32(&vec![None, None]), None);
}

#[test]
fn median_takes_the_upper_middle() {
    assert_eq!(median_u32(&vec![9, 1, 5, 3]), Some(5));
    assert_eq!(median_u32(&vec![7]), Some(7));
    assert_eq!(median_u32(&Vec::new()), None);
}

#[test]
fn min_max_spread_of_values() {
    assert_eq!(min_max_spread_u32(&vec![400, 1000, 650]), (400, 1000, 600));
    assert_eq!(min_max_spread_u32(&Vec::new()), (0, 0, 0));
}

#[test]
fn mode_prefers_the_count_then_the_greater_label() {
    let labels = vec!["pathway".to_string(), "babel".to_string(), "babel".to_string(), "pathway".to_string()];
    assert_eq!(mode(&labels), Some("pathway".to_string()));
    assert_eq!(mode(&vec!["field".to_string(), "babel".to_string(), "babel".to_string()]), Some("babel".to_string()));
    assert_eq!(mode(&Vec::new()), None);
}

#[test]
fn text_helpers_render_decimal_and_order_strings() {
    assert_eq!(decimal_string(0), "0");
    assert_eq!(decimal_string(18446744073709551615), "18446744073709551615");
    assert_eq!(hyphenate("head", "to"), "head-to");
    assert!(str_lt("batman-bellman", "batman-classic"));
    assert!(str_lt("pathway", "pathway-batman-bellman"));
    assert!(!str_lt("scatter", "scatter"));
}

#[test]
fn heuristic_labels_round_trip() {
    for mode in [PathwaySearchHeuristicMode::Zero, PathwaySearchHeuristicMode::HopLowerBound] {
        assert_eq!(heuristic_mode_from_str(heuristic_mode_label(mode)), mode);
    }
    for mode in [FieldSearchHeuristicMode::Zero, FieldSearchHeuristicMode::HopLowerBound] {
        assert_eq!(field_heuristic_mode_from_str(field_heuristic_mode_label(mode)), mode);
    }
    assert_eq!(heuristic_mode_from_str("unknown"), PathwaySearchHeuristicMode::Zero);
}

#[test]
fn parameter_sets_name_their_configurations() {
    let bellman = ExperimentParameterSet::batman_bellman(4, 2);
    assert_eq!(bellman.config_id, "batman-bellman-4-2");
    assert_eq!(
        bellman.batman_bellman_decay_window(),
        Some(DecayWindow { stale_after_ticks: 4, next_refresh_within_ticks: 2 })
    );
    assert_eq!(bellman.babel_decay_window(), None);
    assert_eq!(ExperimentParameterSet::babel(8, 4).config_id, "babel-8-4");
    assert_eq!(ExperimentParameterSet::olsrv2(8, 4).config_id, "olsrv2-8-4");
    let pathway = ExperimentParameterSet::pathway(6, PathwaySearchHeuristicMode::HopLowerBound);
    let search = pathway.pathway_search_config().expect("pathway sets a budget");
    assert_eq!(search.per_objective_query_budget, 6);
    assert_eq!(search.heuristic_mode, PathwaySearchHeuristicMode::HopLowerBound);
    let head = ExperimentParameterSet::head_to_head(ComparisonEngineSet::Babel, Some((4, 2)), None, None);
    assert_eq!(head.config_id, "head-to-head-babel-4-2");
    assert_eq!(head.comparison_engine_set_label(), Some("babel"));
    let low_churn = ExperimentParameterSet::head_to_head_field_low_churn();
    let field = low_churn.field_search_config().expect("field sets a budget");
    assert_eq!(field.per_objective_query_budget, 6);
    assert_eq!(field.service_publication_neighbor_limit, 1);
    assert!(field.node_discovery_enabled);
}

fn configuration(links: &[(u8, u8)]) -> Configuration {
    let mut stored = Vec::new();
    for (a, b) in links {
        insert_link(&mut stored, node_id(*a), node_id(*b), topology_link(*b));
    }
    Configuration {
        epoch: 1,
        nodes: (1..=5).map(|b| topology_node(b, NodeEngines::AllEngines)).collect(),
        links: stored,
        environment: MediumEnvironment { reachable_neighbor_count: 2, churn_permille: 0, contention_permille: 0 },
    }
}

#[test]
fn link_edits_behave_like_a_map() {
    let mut links = Vec::new();
    insert_link(&mut links, node_id(1), node_id(2), topology_link(2));
    let mut replacement = topology_link(2);
    replacement.loss_permille = 300;
    insert_link(&mut links, node_id(1), node_id(2), replacement);
    assert_eq!(links.len(), 1);
    assert_eq!(links[find_link(&links, node_id(1), node_id(2)).unwrap()].link.loss_permille, 300);
    remove_link(&mut links, node_id(1), node_id(2));
    assert_eq!(find_link(&links, node_id(1), node_id(2)), None);
    remove_link(&mut links, node_id(1), node_id(2));
    assert!(links.is_empty());
}

#[test]
fn paths_follow_directed_links() {
    let config = configuration(&[(1, 2), (2, 3), (3, 4), (5, 4)]);
    assert!(configuration_path_exists(&config, node_id(1), node_id(4)));
    assert!(configuration_path_exists(&config, node_id(2), node_id(2)));
    assert!(!configuration_path_exists(&config, node_id(4), node_id(1)));
    assert!(!configuration_path_exists(&config, node_id(1), node_id(5)));
}
