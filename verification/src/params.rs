//! Experiment parameter sets: the engine-family sweeps, their configuration
//! ids, and the engine settings that they stand for.
use vstd::prelude::*;
use crate::text::{decimal, decimal_string, hyphenate, join2};

verus! {

/// The search heuristic of the Pathway engine.
#[derive(Clone, Copy, Debug, PartialEq, Eq, Structural)]
pub enum PathwaySearchHeuristicMode {
    Zero,
    HopLowerBound,
}

/// The search heuristic of the Field engine.
#[derive(Clone, Copy, Debug, PartialEq, Eq, Structural)]
pub enum FieldSearchHeuristicMode {
    Zero,
    HopLowerBound,
}

/// Which engines a head-to-head or scatter comparison runs.
#[derive(Clone, Copy, Debug, PartialEq, Eq, Structural)]
pub enum ComparisonEngineSet {
    BatmanBellman,
    BatmanClassic,
    Babel,
    OlsrV2,
    Scatter,
    Mercator,
    Pathway,
    Field,
    PathwayAndBatmanBellman,
}

pub open spec fn comparison_engine_set_chars(set: ComparisonEngineSet) -> Seq<char> {
    match set {
        ComparisonEngineSet::BatmanBellman => "batman-bellman"@,
        ComparisonEngineSet::BatmanClassic => "batman-classic"@,
        ComparisonEngineSet::Babel => "babel"@,
        ComparisonEngineSet::OlsrV2 => "olsrv2"@,
        ComparisonEngineSet::Scatter => "scatter"@,
        ComparisonEngineSet::Mercator => "mercator"@,
        ComparisonEngineSet::Pathway => "pathway"@,
        ComparisonEngineSet::Field => "field"@,
        ComparisonEngineSet::PathwayAndBatmanBellman => "pathway-batman-bellman"@,
    }
}

impl ComparisonEngineSet {
    /// The report label of the engine set.
    pub fn label(&self) -> (r: &'static str)
        ensures
            r@ == comparison_engine_set_chars(*self),
    {
        match self {
            ComparisonEngineSet::BatmanBellman => "batman-bellman",
            ComparisonEngineSet::BatmanClassic => "batman-classic",
            ComparisonEngineSet::Babel => "babel",
            ComparisonEngineSet::OlsrV2 => "olsrv2",
            ComparisonEngineSet::Scatter => "scatter",
            ComparisonEngineSet::Mercator => "mercator",
            ComparisonEngineSet::Pathway => "pathway",
            ComparisonEngineSet::Field => "field",
            ComparisonEngineSet::PathwayAndBatmanBellman => "pathway-batman-bellman",
        }
    }
}

pub open spec fn pathway_mode_chars(mode: PathwaySearchHeuristicMode) -> Seq<char> {
    match mode {
        PathwaySearchHeuristicMode::Zero => "zero"@,
        PathwaySearchHeuristicMode::HopLowerBound => "hop-lower-bound"@,
    }
}

pub open spec fn field_mode_chars(mode: FieldSearchHeuristicMode) -> Seq<char> {
    match mode {
        FieldSearchHeuristicMode::Zero => "zero"@,
        FieldSearchHeuristicMode::HopLowerBound => "hop-lower-bound"@,
    }
}

/// The label of a Pathway heuristic.
pub fn heuristic_mode_label(mode: PathwaySearchHeuristicMode) -> (r: &'static str)
    ensures
        r@ == pathway_mode_chars(mode),
{
    match mode {
        PathwaySearchHeuristicMode::Zero => "zero",
        PathwaySearchHeuristicMode::HopLowerBound => "hop-lower-bound",
    }
}

/// Reads a Pathway heuristic label; anything but `hop-lower-bound` is `Zero`.
pub fn heuristic_mode_from_str(label: &str) -> (r: PathwaySearchHeuristicMode)
    ensures
        r == (if label@ == "hop-lower-bound"@ {
            PathwaySearchHeuristicMode::HopLowerBound
        } else {
            PathwaySearchHeuristicMode::Zero
        }),
{
    if crate::text::str_eq(label, "hop-lower-bound") {
        PathwaySearchHeuristicMode::HopLowerBound
    } else {
        PathwaySearchHeuristicMode::Zero
    }
}

/// The label of a Field heuristic.
pub fn field_heuristic_mode_label(mode: FieldSearchHeuristicMode) -> (r: &'static str)
    ensures
        r@ == field_mode_chars(mode),
{
    match mode {
        FieldSearchHeuristicMode::Zero => "zero",
        FieldSearchHeuristicMode::HopLowerBound => "hop-lower-bound",
    }
}

/// Reads a Field heuristic label; anything but `hop-lower-bound` is `Zero`.
pub fn field_heuristic_mode_from_str(label: &str) -> (r: FieldSearchHeuristicMode)
    ensures
        r == (if label@ == "hop-lower-bound"@ {
            FieldSearchHeuristicMode::HopLowerBound
        } else {
            FieldSearchHeuristicMode::Zero
        }),
{
    if crate::text::str_eq(label, "hop-lower-bound") {
        FieldSearchHeuristicMode::HopLowerBound
    } else {
        FieldSearchHeuristicMode::Zero
    }
}

/// Law: reading back the label of a heuristic gives the heuristic.
pub proof fn lemma_heuristic_labels_round_trip(p: PathwaySearchHeuristicMode, f: FieldSearchHeuristicMode)
    ensures
        (if pathway_mode_chars(p) == "hop-lower-bound"@ {
            PathwaySearchHeuristicMode::HopLowerBound
        } else {
            PathwaySearchHeuristicMode::Zero
        }) == p,
        (if field_mode_chars(f) == "hop-lower-bound"@ {
            FieldSearchHeuristicMode::HopLowerBound
        } else {
            FieldSearchHeuristicMode::Zero
        }) == f,
{
    reveal_strlit("zero");
    reveal_strlit("hop-lower-bound");
    assert("zero"@ != "hop-lower-bound"@) by {
        assert("zero"@.len() != "hop-lower-bound"@.len());
    }
}

pub open spec fn opt_chars(o: Option<String>) -> Option<Seq<char>> {
    match o {
        Some(s) => Some(s@),
        None => None,
    }
}

/// `a`, a hyphen, `b`.
pub open spec fn dash(a: Seq<char>, b: Seq<char>) -> Seq<char> {
    a + seq!['-'] + b
}

/// The decimal rendering of a number.
pub open spec fn dec(n: int) -> Seq<char> {
    decimal(n as nat)
}

/// A run configuration: which engine family it exercises and the knobs that
/// the experiment overrides on every host.
#[derive(Clone, Debug)]
pub struct ExperimentParameterSet {
    pub engine_family: String,
    pub config_id: String,
    pub comparison_engine_set: Option<ComparisonEngineSet>,
    pub batman_bellman_stale_after_ticks: Option<u32>,
    pub batman_bellman_next_refresh_within_ticks: Option<u32>,
    pub batman_classic_stale_after_ticks: Option<u32>,
    pub batman_classic_next_refresh_within_ticks: Option<u32>,
    pub babel_stale_after_ticks: Option<u32>,
    pub babel_next_refresh_within_ticks: Option<u32>,
    pub olsrv2_stale_after_ticks: Option<u32>,
    pub olsrv2_next_refresh_within_ticks: Option<u32>,
    pub pathway_query_budget: Option<usize>,
    pub pathway_heuristic_mode: Option<String>,
    pub scatter_profile_id: Option<String>,
    pub field_query_budget: Option<usize>,
    pub field_heuristic_mode: Option<String>,
    pub field_service_publication_neighbor_limit: Option<usize>,
    pub field_service_freshness_weight: Option<u16>,
    pub field_service_narrowing_bias: Option<u16>,
    pub field_node_bootstrap_support_floor: Option<u16>,
    pub field_node_bootstrap_top_mass_floor: Option<u16>,
    pub field_node_bootstrap_entropy_ceiling: Option<u16>,
    pub field_node_discovery_enabled: Option<bool>,
}

/// The parameter set as plain values.
pub struct ParameterSetView {
    pub engine_family: Seq<char>,
    pub config_id: Seq<char>,
    pub comparison_engine_set: Option<ComparisonEngineSet>,
    pub batman_bellman_stale_after_ticks: Option<u32>,
    pub batman_bellman_next_refresh_within_ticks: Option<u32>,
    pub batman_classic_stale_after_ticks: Option<u32>,
    pub batman_classic_next_refresh_within_ticks: Option<u32>,
    pub babel_stale_after_ticks: Option<u32>,
    pub babel_next_refresh_within_ticks: Option<u32>,
    pub olsrv2_stale_after_ticks: Option<u32>,
    pub olsrv2_next_refresh_within_ticks: Option<u32>,
    pub pathway_query_budget: Option<usize>,
    pub pathway_heuristic_mode: Option<Seq<char>>,
    pub scatter_profile_id: Option<Seq<char>>,
    pub field_query_budget: Option<usize>,
    pub field_heuristic_mode: Option<Seq<char>>,
    pub field_service_publication_neighbor_limit: Option<usize>,
    pub field_service_freshness_weight: Option<u16>,
    pub field_service_narrowing_bias: Option<u16>,
    pub field_node_bootstrap_support_floor: Option<u16>,
    pub field_node_bootstrap_top_mass_floor: Option<u16>,
    pub field_node_bootstrap_entropy_ceiling: Option<u16>,
    pub field_node_discovery_enabled: Option<bool>,
}

impl View for ExperimentParameterSet {
    type V = ParameterSetView;

    open spec fn view(&self) -> ParameterSetView {
        ParameterSetView {
            engine_family: self.engine_family@,
            config_id: self.config_id@,
            comparison_engine_set: self.comparison_engine_set,
            batman_bellman_stale_after_ticks: self.batman_bellman_stale_after_ticks,
            batman_bellman_next_refresh_within_ticks: self.batman_bellman_next_refresh_within_ticks,
            batman_classic_stale_after_ticks: self.batman_classic_stale_after_ticks,
            batman_classic_next_refresh_within_ticks: self.batman_classic_next_refresh_within_ticks,
            babel_stale_after_ticks: self.babel_stale_after_ticks,
            babel_next_refresh_within_ticks: self.babel_next_refresh_within_ticks,
            olsrv2_stale_after_ticks: self.olsrv2_stale_after_ticks,
            olsrv2_next_refresh_within_ticks: self.olsrv2_next_refresh_within_ticks,
            pathway_query_budget: self.pathway_query_budget,
            pathway_heuristic_mode: opt_chars(self.pathway_heuristic_mode),
            scatter_profile_id: opt_chars(self.scatter_profile_id),
            field_query_budget: self.field_query_budget,
            field_heuristic_mode: opt_chars(self.field_heuristic_mode),
            field_service_publication_neighbor_limit: self.field_service_publication_neighbor_limit,
            field_service_freshness_weight: self.field_service_freshness_weight,
            field_service_narrowing_bias: self.field_service_narrowing_bias,
            field_node_bootstrap_support_floor: self.field_node_bootstrap_support_floor,
            field_node_bootstrap_top_mass_floor: self.field_node_bootstrap_top_mass_floor,
            field_node_bootstrap_entropy_ceiling: self.field_node_bootstrap_entropy_ceiling,
            field_node_discovery_enabled: self.field_node_discovery_enabled,
        }
    }
}

/// A view that sets nothing but the family and the configuration id.
pub open spec fn blank_view(engine_family: Seq<char>, config_id: Seq<char>) -> ParameterSetView {
    ParameterSetView {
        engine_family,
        config_id,
        comparison_engine_set: None,
        batman_bellman_stale_after_ticks: None,
        batman_bellman_next_refresh_within_ticks: None,
        batman_classic_stale_after_ticks: None,
        batman_classic_next_refresh_within_ticks: None,
        babel_stale_after_ticks: None,
        babel_next_refresh_within_ticks: None,
        olsrv2_stale_after_ticks: None,
        olsrv2_next_refresh_within_ticks: None,
        pathway_query_budget: None,
        pathway_heuristic_mode: None,
        scatter_profile_id: None,
        field_query_budget: None,
        field_heuristic_mode: None,
        field_service_publication_neighbor_limit: None,
        field_service_freshness_weight: None,
        field_service_narrowing_bias: None,
        field_node_bootstrap_support_floor: None,
        field_node_bootstrap_top_mass_floor: None,
        field_node_bootstrap_entropy_ceiling: None,
        field_node_discovery_enabled: None,
    }
}

/// A parameter set with only the family and the configuration id.
fn blank(engine_family: String, config_id: String) -> (r: ExperimentParameterSet)
    ensures
        r@ == blank_view(engine_family@, config_id@),
{
    ExperimentParameterSet {
        engine_family,
        config_id,
        comparison_engine_set: None,
        batman_bellman_stale_after_ticks: None,
        batman_bellman_next_refresh_within_ticks: None,
        batman_classic_stale_after_ticks: None,
        batman_classic_next_refresh_within_ticks: None,
        babel_stale_after_ticks: None,
        babel_next_refresh_within_ticks: None,
        olsrv2_stale_after_ticks: None,
        olsrv2_next_refresh_within_ticks: None,
        pathway_query_budget: None,
        pathway_heuristic_mode: None,
        scatter_profile_id: None,
        field_query_budget: None,
        field_heuristic_mode: None,
        field_service_publication_neighbor_limit: None,
        field_service_freshness_weight: None,
        field_service_narrowing_bias: None,
        field_node_bootstrap_support_floor: None,
        field_node_bootstrap_top_mass_floor: None,
        field_node_bootstrap_entropy_ceiling: None,
        field_node_discovery_enabled: None,
    }
}


/// A decay window as the distance-vector engines take it.
#[derive(Clone, Copy, Debug, PartialEq, Eq, Structural)]
pub struct DecayWindow {
    pub stale_after_ticks: u64,
    pub next_refresh_within_ticks: u64,
}

/// The Pathway search settings that an experiment overrides.
#[derive(Clone, Copy, Debug, PartialEq, Eq, Structural)]
pub struct PathwaySearchConfig {
    pub per_objective_query_budget: usize,
    pub heuristic_mode: PathwaySearchHeuristicMode,
}

/// The Field search settings that an experiment overrides.
#[derive(Clone, Copy, Debug, PartialEq, Eq, Structural)]
pub struct FieldSearchConfig {
    pub per_objective_query_budget: usize,
    pub heuristic_mode: FieldSearchHeuristicMode,
    pub service_publication_neighbor_limit: usize,
    pub service_freshness_weight: u16,
    pub service_narrowing_bias: u16,
    pub node_bootstrap_support_floor: u16,
    pub node_bootstrap_top_mass_floor: u16,
    pub node_bootstrap_entropy_ceiling: u16,
    pub node_discovery_enabled: bool,
}

pub open spec fn decay_window_of(stale: Option<u32>, refresh: Option<u32>) -> Option<DecayWindow> {
    match (stale, refresh) {
        (Some(s), Some(r)) => Some(DecayWindow { stale_after_ticks: s as u64, next_refresh_within_ticks: r as u64 }),
        _ => None,
    }
}

fn decay_window_from(stale: Option<u32>, refresh: Option<u32>) -> (r: Option<DecayWindow>)
    ensures
        r == decay_window_of(stale, refresh),
{
    match (stale, refresh) {
        (Some(s), Some(r)) => Some(DecayWindow { stale_after_ticks: s as u64, next_refresh_within_ticks: r as u64 }),
        _ => None,
    }
}

/// `prefix` followed by a decimal number, e.g. `p3`.
pub open spec fn tagged(prefix: Seq<char>, n: int) -> Seq<char> {
    prefix + dec(n)
}

fn tagged_string(prefix: &str, n: u64) -> (r: String)
    ensures
        r@ == tagged(prefix@, n as int),
{
    join2(prefix, decimal_string(n).as_str())
}

pub open spec fn decay_config_id(family: Seq<char>, stale: u32, refresh: u32) -> Seq<char> {
    dash(dash(family, dec(stale as int)), dec(refresh as int))
}

fn decay_config_string(family: &str, stale: u32, refresh: u32) -> (r: String)
    ensures
        r@ == decay_config_id(family@, stale, refresh),
{
    let first = hyphenate(family, decimal_string(stale as u64).as_str());
    hyphenate(first.as_str(), decimal_string(refresh as u64).as_str())
}

pub open spec fn batman_bellman_view(stale: u32, refresh: u32) -> ParameterSetView {
    ParameterSetView {
        batman_bellman_stale_after_ticks: Some(stale),
        batman_bellman_next_refresh_within_ticks: Some(refresh),
        ..blank_view("batman-bellman"@, decay_config_id("batman-bellman"@, stale, refresh))
    }
}

pub open spec fn batman_classic_view(stale: u32, refresh: u32) -> ParameterSetView {
    ParameterSetView {
        batman_classic_stale_after_ticks: Some(stale),
        batman_classic_next_refresh_within_ticks: Some(refresh),
        ..blank_view("batman-classic"@, decay_config_id("batman-classic"@, stale, refresh))
    }
}

pub open spec fn babel_view(stale: u32, refresh: u32) -> ParameterSetView {
    ParameterSetView {
        babel_stale_after_ticks: Some(stale),
        babel_next_refresh_within_ticks: Some(refresh),
        ..blank_view("babel"@, decay_config_id("babel"@, stale, refresh))
    }
}

pub open spec fn olsrv2_view(stale: u32, refresh: u32) -> ParameterSetView {
    ParameterSetView {
        olsrv2_stale_after_ticks: Some(stale),
        olsrv2_next_refresh_within_ticks: Some(refresh),
        ..blank_view("olsrv2"@, decay_config_id("olsrv2"@, stale, refresh))
    }
}

pub open spec fn pathway_view(budget: usize, mode: PathwaySearchHeuristicMode) -> ParameterSetView {
    ParameterSetView {
        pathway_query_budget: Some(budget),
        pathway_heuristic_mode: Some(pathway_mode_chars(mode)),
        ..blank_view("pathway"@, dash(dash("pathway"@, dec(budget as int)), pathway_mode_chars(mode)))
    }
}

pub open spec fn field_tuned_config_id(
    budget: usize,
    mode: FieldSearchHeuristicMode,
    limit: usize,
    freshness: u16,
    narrowing: u16,
) -> Seq<char> {
    dash(
        dash(
            dash(dash(dash("field"@, dec(budget as int)), field_mode_chars(mode)), tagged("p"@, limit as int)),
            tagged("f"@, freshness as int),
        ),
        tagged("n"@, narrowing as int),
    )
}

pub open spec fn field_tuned_view(
    budget: usize,
    mode: FieldSearchHeuristicMode,
    limit: usize,
    freshness: u16,
    narrowing: u16,
) -> ParameterSetView {
    ParameterSetView {
        field_query_budget: Some(budget),
        field_heuristic_mode: Some(field_mode_chars(mode)),
        field_service_publication_neighbor_limit: Some(limit),
        field_service_freshness_weight: Some(freshness),
        field_service_narrowing_bias: Some(narrowing),
        ..blank_view("field"@, field_tuned_config_id(budget, mode, limit, freshness, narrowing))
    }
}

pub open spec fn comparison_config_id(
    stale: u32,
    refresh: u32,
    budget: usize,
    mode: PathwaySearchHeuristicMode,
) -> Seq<char> {
    dash(
        dash(dash(dash("comparison"@, tagged("b"@, stale as int)), dec(refresh as int)), tagged("p"@, budget as int)),
        pathway_mode_chars(mode),
    )
}

pub open spec fn comparison_view(
    stale: u32,
    refresh: u32,
    budget: usize,
    mode: PathwaySearchHeuristicMode,
) -> ParameterSetView {
    ParameterSetView {
        batman_bellman_stale_after_ticks: Some(stale),
        batman_bellman_next_refresh_within_ticks: Some(refresh),
        batman_classic_stale_after_ticks: Some(stale),
        batman_classic_next_refresh_within_ticks: Some(refresh),
        babel_stale_after_ticks: Some(stale),
        babel_next_refresh_within_ticks: Some(refresh),
        olsrv2_stale_after_ticks: Some(stale),
        olsrv2_next_refresh_within_ticks: Some(refresh),
        pathway_query_budget: Some(budget),
        pathway_heuristic_mode: Some(pathway_mode_chars(mode)),
        field_query_budget: Some(budget),
        field_heuristic_mode: Some(field_mode_chars(FieldSearchHeuristicMode::HopLowerBound)),
        field_service_publication_neighbor_limit: Some(3),
        field_service_freshness_weight: Some(100),
        field_service_narrowing_bias: Some(100),
        ..blank_view("comparison"@, comparison_config_id(stale, refresh, budget, mode))
    }
}

pub open spec fn field_low_churn_view() -> ParameterSetView {
    ParameterSetView {
        comparison_engine_set: Some(ComparisonEngineSet::Field),
        field_query_budget: Some(6),
        field_heuristic_mode: Some(field_mode_chars(FieldSearchHeuristicMode::Zero)),
        field_service_publication_neighbor_limit: Some(1),
        field_service_freshness_weight: Some(140),
        field_service_narrowing_bias: Some(180),
        field_node_bootstrap_support_floor: Some(180),
        field_node_bootstrap_top_mass_floor: Some(180),
        field_node_bootstrap_entropy_ceiling: Some(970),
        field_node_discovery_enabled: Some(true),
        ..blank_view("head-to-head"@, "head-to-head-field-6-zero-p1-f140-n180"@)
    }
}

pub open spec fn unwrap_pair_u32(o: Option<(u32, u32)>, d: (u32, u32)) -> (u32, u32) {
    match o {
        Some(p) => p,
        None => d,
    }
}

pub open spec fn unwrap_pathway(o: Option<(usize, PathwaySearchHeuristicMode)>, d: (usize, PathwaySearchHeuristicMode)) -> (usize, PathwaySearchHeuristicMode) {
    match o {
        Some(p) => p,
        None => d,
    }
}

pub open spec fn unwrap_field(o: Option<(usize, FieldSearchHeuristicMode)>, d: (usize, FieldSearchHeuristicMode)) -> (usize, FieldSearchHeuristicMode) {
    match o {
        Some(p) => p,
        None => d,
    }
}

/// The part of a head-to-head configuration id after `head-to-head-`.
pub open spec fn head_to_head_suffix(
    set: ComparisonEngineSet,
    decay: Option<(u32, u32)>,
    pathway: Option<(usize, PathwaySearchHeuristicMode)>,
    field: Option<(usize, FieldSearchHeuristicMode)>,
) -> Seq<char> {
    match set {
        ComparisonEngineSet::BatmanBellman => {
            let w = unwrap_pair_u32(decay, (1, 1));
            decay_config_id("batman-bellman"@, w.0, w.1)
        },
        ComparisonEngineSet::BatmanClassic | ComparisonEngineSet::Babel | ComparisonEngineSet::OlsrV2 => {
            let w = unwrap_pair_u32(decay, (4, 2));
            decay_config_id(comparison_engine_set_chars(set), w.0, w.1)
        },
        ComparisonEngineSet::Pathway => {
            let p = unwrap_pathway(pathway, (2, PathwaySearchHeuristicMode::Zero));
            dash(dash("pathway"@, dec(p.0 as int)), pathway_mode_chars(p.1))
        },
        ComparisonEngineSet::Field => {
            let f = unwrap_field(field, (4, FieldSearchHeuristicMode::HopLowerBound));
            dash(dash("field"@, dec(f.0 as int)), field_mode_chars(f.1))
        },
        ComparisonEngineSet::PathwayAndBatmanBellman => {
            let w = unwrap_pair_u32(decay, (1, 1));
            let p = unwrap_pathway(pathway, (2, PathwaySearchHeuristicMode::Zero));
            dash(
                dash(dash(tagged("pathway-batman-b"@, w.0 as int), dec(w.1 as int)), tagged("p"@, p.0 as int)),
                pathway_mode_chars(p.1),
            )
        },
        _ => comparison_engine_set_chars(set),
    }
}

pub open spec fn head_to_head_view(
    set: ComparisonEngineSet,
    decay: Option<(u32, u32)>,
    pathway: Option<(usize, PathwaySearchHeuristicMode)>,
    field: Option<(usize, FieldSearchHeuristicMode)>,
) -> ParameterSetView {
    let stale = match decay { Some(w) => Some(w.0), None => None };
    let refresh = match decay { Some(w) => Some(w.1), None => None };
    ParameterSetView {
        comparison_engine_set: Some(set),
        batman_bellman_stale_after_ticks: stale,
        batman_bellman_next_refresh_within_ticks: refresh,
        olsrv2_stale_after_ticks: stale,
        olsrv2_next_refresh_within_ticks: refresh,
        pathway_query_budget: match pathway { Some(p) => Some(p.0), None => None },
        pathway_heuristic_mode: match pathway { Some(p) => Some(pathway_mode_chars(p.1)), None => None },
        field_query_budget: match field { Some(f) => Some(f.0), None => None },
        field_heuristic_mode: match field { Some(f) => Some(field_mode_chars(f.1)), None => None },
        field_service_publication_neighbor_limit: if field is Some { Some(1) } else { None },
        field_service_freshness_weight: if field is Some { Some(120) } else { None },
        field_service_narrowing_bias: if field is Some { Some(190) } else { None },
        field_node_bootstrap_support_floor: if field is Some { Some(180) } else { None },
        field_node_bootstrap_top_mass_floor: if field is Some { Some(180) } else { None },
        field_node_bootstrap_entropy_ceiling: if field is Some { Some(970) } else { None },
        field_node_discovery_enabled: if field is Some { Some(true) } else { None },
        ..blank_view("head-to-head"@, dash("head-to-head"@, head_to_head_suffix(set, decay, pathway, field)))
    }
}

pub open spec fn scatter_view(profile_id: Seq<char>) -> ParameterSetView {
    ParameterSetView {
        comparison_engine_set: Some(ComparisonEngineSet::Scatter),
        scatter_profile_id: Some(profile_id),
        ..blank_view("scatter"@, dash("scatter"@, profile_id))
    }
}

pub open spec fn pathway_search_config_of(p: ParameterSetView) -> Option<PathwaySearchConfig> {
    match p.pathway_query_budget {
        None => None,
        Some(budget) => {
            let label = match p.pathway_heuristic_mode { Some(l) => l, None => "zero"@ };
            Some(PathwaySearchConfig {
                per_objective_query_budget: budget,
                heuristic_mode: if label == "hop-lower-bound"@ {
                    PathwaySearchHeuristicMode::HopLowerBound
                } else {
                    PathwaySearchHeuristicMode::Zero
                },
            })
        },
    }
}

pub open spec fn or_u16(o: Option<u16>, d: u16) -> u16 {
    match o { Some(v) => v, None => d }
}

pub open spec fn field_search_config_of(p: ParameterSetView) -> Option<FieldSearchConfig> {
    match p.field_query_budget {
        None => None,
        Some(budget) => {
            let label = match p.field_heuristic_mode { Some(l) => l, None => "hop-lower-bound"@ };
            Some(FieldSearchConfig {
                per_objective_query_budget: budget,
                heuristic_mode: if label == "hop-lower-bound"@ {
                    FieldSearchHeuristicMode::HopLowerBound
                } else {
                    FieldSearchHeuristicMode::Zero
                },
                service_publication_neighbor_limit: match p.field_service_publication_neighbor_limit { Some(v) => v, None => 3 },
                service_freshness_weight: or_u16(p.field_service_freshness_weight, 100),
                service_narrowing_bias: or_u16(p.field_service_narrowing_bias, 100),
                node_bootstrap_support_floor: or_u16(p.field_node_bootstrap_support_floor, 220),
                node_bootstrap_top_mass_floor: or_u16(p.field_node_bootstrap_top_mass_floor, 260),
                node_bootstrap_entropy_ceiling: or_u16(p.field_node_bootstrap_entropy_ceiling, 950),
                node_discovery_enabled: match p.field_node_discovery_enabled { Some(v) => v, None => false },
            })
        },
    }
}

impl ExperimentParameterSet {
    /// A copy of the parameter set.
    pub fn duplicate(&self) -> (r: Self)
        ensures
            r@ == self@,
    {
        ExperimentParameterSet {
            engine_family: self.engine_family.clone(),
            config_id: self.config_id.clone(),
            comparison_engine_set: self.comparison_engine_set,
            batman_bellman_stale_after_ticks: self.batman_bellman_stale_after_ticks,
            batman_bellman_next_refresh_within_ticks: self.batman_bellman_next_refresh_within_ticks,
            batman_classic_stale_after_ticks: self.batman_classic_stale_after_ticks,
            batman_classic_next_refresh_within_ticks: self.batman_classic_next_refresh_within_ticks,
            babel_stale_after_ticks: self.babel_stale_after_ticks,
            babel_next_refresh_within_ticks: self.babel_next_refresh_within_ticks,
            olsrv2_stale_after_ticks: self.olsrv2_stale_after_ticks,
            olsrv2_next_refresh_within_ticks: self.olsrv2_next_refresh_within_ticks,
            pathway_query_budget: self.pathway_query_budget,
            pathway_heuristic_mode: self.pathway_heuristic_mode.clone(),
            scatter_profile_id: self.scatter_profile_id.clone(),
            field_query_budget: self.field_query_budget,
            field_heuristic_mode: self.field_heuristic_mode.clone(),
            field_service_publication_neighbor_limit: self.field_service_publication_neighbor_limit,
            field_service_freshness_weight: self.field_service_freshness_weight,
            field_service_narrowing_bias: self.field_service_narrowing_bias,
            field_node_bootstrap_support_floor: self.field_node_bootstrap_support_floor,
            field_node_bootstrap_top_mass_floor: self.field_node_bootstrap_top_mass_floor,
            field_node_bootstrap_entropy_ceiling: self.field_node_bootstrap_entropy_ceiling,
            field_node_discovery_enabled: self.field_node_discovery_enabled,
        }
    }

    fn head_to_head_config_suffix(
        comparison_engine_set: ComparisonEngineSet,
        batman_bellman_decay_window: Option<(u32, u32)>,
        pathway_search: Option<(usize, PathwaySearchHeuristicMode)>,
        field_search: Option<(usize, FieldSearchHeuristicMode)>,
    ) -> (r: String)
        ensures
            r@ == head_to_head_suffix(comparison_engine_set, batman_bellman_decay_window, pathway_search, field_search),
    {
        match comparison_engine_set {
            ComparisonEngineSet::BatmanBellman => {
                let (stale, refresh) = match batman_bellman_decay_window { Some(w) => w, None => (1, 1) };
                decay_config_string("batman-bellman", stale, refresh)
            },
            ComparisonEngineSet::BatmanClassic | ComparisonEngineSet::Babel | ComparisonEngineSet::OlsrV2 => {
                let (stale, refresh) = match batman_bellman_decay_window { Some(w) => w, None => (4, 2) };
                decay_config_string(comparison_engine_set.label(), stale, refresh)
            },
            ComparisonEngineSet::Pathway => {
                let (budget, mode) = match pathway_search { Some(p) => p, None => (2, PathwaySearchHeuristicMode::Zero) };
                let first = hyphenate("pathway", decimal_string(budget as u64).as_str());
                hyphenate(first.as_str(), heuristic_mode_label(mode))
            },
            ComparisonEngineSet::Field => {
                let (budget, mode) = match field_search { Some(f) => f, None => (4, FieldSearchHeuristicMode::HopLowerBound) };
                let first = hyphenate("field", decimal_string(budget as u64).as_str());
                hyphenate(first.as_str(), field_heuristic_mode_label(mode))
            },
            ComparisonEngineSet::PathwayAndBatmanBellman => {
                let (stale, refresh) = match batman_bellman_decay_window { Some(w) => w, None => (1, 1) };
                let (budget, mode) = match pathway_search { Some(p) => p, None => (2, PathwaySearchHeuristicMode::Zero) };
                let a = tagged_string("pathway-batman-b", stale as u64);
                let b = hyphenate(a.as_str(), decimal_string(refresh as u64).as_str());
                let c = hyphenate(b.as_str(), tagged_string("p", budget as u64).as_str());
                hyphenate(c.as_str(), heuristic_mode_label(mode))
            },
            _ => String::from_str(comparison_engine_set.label()),
        }
    }

    /// The head-to-head Field configuration tuned for low churn.
    pub fn head_to_head_field_low_churn() -> (r: Self)
        ensures
            r@ == field_low_churn_view(),
    {
        let mut r = blank(String::from_str("head-to-head"), String::from_str("head-to-head-field-6-zero-p1-f140-n180"));
        r.comparison_engine_set = Some(ComparisonEngineSet::Field);
        r.field_query_budget = Some(6);
        r.field_heuristic_mode = Some(String::from_str(field_heuristic_mode_label(FieldSearchHeuristicMode::Zero)));
        r.field_service_publication_neighbor_limit = Some(1);
        r.field_service_freshness_weight = Some(140);
        r.field_service_narrowing_bias = Some(180);
        r.field_node_bootstrap_support_floor = Some(180);
        r.field_node_bootstrap_top_mass_floor = Some(180);
        r.field_node_bootstrap_entropy_ceiling = Some(970);
        r.field_node_discovery_enabled = Some(true);
        r
    }

    /// A BATMAN Bellman sweep point.
    pub fn batman_bellman(stale_after_ticks: u32, next_refresh_within_ticks: u32) -> (r: Self)
        ensures
            r@ == batman_bellman_view(stale_after_ticks, next_refresh_within_ticks),
    {
        let mut r = blank(
            String::from_str("batman-bellman"),
            decay_config_string("batman-bellman", stale_after_ticks, next_refresh_within_ticks),
        );
        r.batman_bellman_stale_after_ticks = Some(stale_after_ticks);
        r.batman_bellman_next_refresh_within_ticks = Some(next_refresh_within_ticks);
        r
    }

    /// A BATMAN Classic sweep point.
    pub fn batman_classic(stale_after_ticks: u32, next_refresh_within_ticks: u32) -> (r: Self)
        ensures
            r@ == batman_classic_view(stale_after_ticks, next_refresh_within_ticks),
    {
        let mut r = blank(
            String::from_str("batman-classic"),
            decay_config_string("batman-classic", stale_after_ticks, next_refresh_within_ticks),
        );
        r.batman_classic_stale_after_ticks = Some(stale_after_ticks);
        r.batman_classic_next_refresh_within_ticks = Some(next_refresh_within_ticks);
        r
    }

    /// A Babel sweep point.
    pub fn babel(stale_after_ticks: u32, next_refresh_within_ticks: u32) -> (r: Self)
        ensures
            r@ == babel_view(stale_after_ticks, next_refresh_within_ticks),
    {
        let mut r = blank(
            String::from_str("babel"),
            decay_config_string("babel", stale_after_ticks, next_refresh_within_ticks),
        );
        r.babel_stale_after_ticks = Some(stale_after_ticks);
        r.babel_next_refresh_within_ticks = Some(next_refresh_within_ticks);
        r
    }

    /// An OLSRv2 sweep point.
    pub fn olsrv2(stale_after_ticks: u32, next_refresh_within_ticks: u32) -> (r: Self)
        ensures
            r@ == olsrv2_view(stale_after_ticks, next_refresh_within_ticks),
    {
        let mut r = blank(
            String::from_str("olsrv2"),
            decay_config_string("olsrv2", stale_after_ticks, next_refresh_within_ticks),
        );
        r.olsrv2_stale_after_ticks = Some(stale_after_ticks);
        r.olsrv2_next_refresh_within_ticks = Some(next_refresh_within_ticks);
        r
    }

    /// A Pathway sweep point.
    pub fn pathway(per_objective_query_budget: usize, heuristic_mode: PathwaySearchHeuristicMode) -> (r: Self)
        ensures
            r@ == pathway_view(per_objective_query_budget, heuristic_mode),
    {
        let first = hyphenate("pathway", decimal_string(per_objective_query_budget as u64).as_str());
        let id = hyphenate(first.as_str(), heuristic_mode_label(heuristic_mode));
        let mut r = blank(String::from_str("pathway"), id);
        r.pathway_query_budget = Some(per_objective_query_budget);
        r.pathway_heuristic_mode = Some(String::from_str(heuristic_mode_label(heuristic_mode)));
        r
    }

    /// A Field sweep point with the default service settings.
    pub fn field(per_objective_query_budget: usize, heuristic_mode: FieldSearchHeuristicMode) -> (r: Self)
        ensures
            r@ == field_tuned_view(per_objective_query_budget, heuristic_mode, 3, 100, 100),
    {
        Self::field_tuned(per_objective_query_budget, heuristic_mode, 3, 100, 100)
    }

    /// A Field sweep point with explicit service settings.
    pub fn field_tuned(
        per_objective_query_budget: usize,
        heuristic_mode: FieldSearchHeuristicMode,
        service_publication_neighbor_limit: usize,
        service_freshness_weight: u16,
        service_narrowing_bias: u16,
    ) -> (r: Self)
        ensures
            r@ == field_tuned_view(
                per_objective_query_budget,
                heuristic_mode,
                service_publication_neighbor_limit,
                service_freshness_weight,
                service_narrowing_bias,
            ),
    {
        let a = hyphenate("field", decimal_string(per_objective_query_budget as u64).as_str());
        let b = hyphenate(a.as_str(), field_heuristic_mode_label(heuristic_mode));
        let c = hyphenate(b.as_str(), tagged_string("p", service_publication_neighbor_limit as u64).as_str());
        let d = hyphenate(c.as_str(), tagged_string("f", service_freshness_weight as u64).as_str());
        let id = hyphenate(d.as_str(), tagged_string("n", service_narrowing_bias as u64).as_str());
        let mut r = blank(String::from_str("field"), id);
        r.field_query_budget = Some(per_objective_query_budget);
        r.field_heuristic_mode = Some(String::from_str(field_heuristic_mode_label(heuristic_mode)));
        r.field_service_publication_neighbor_limit = Some(service_publication_neighbor_limit);
        r.field_service_freshness_weight = Some(service_freshness_weight);
        r.field_service_narrowing_bias = Some(service_narrowing_bias);
        r
    }

    /// A mixed-engine comparison point: every distance-vector engine shares
    /// the decay window, and Pathway and Field share the query budget.
    pub fn comparison(
        stale_after_ticks: u32,
        next_refresh_within_ticks: u32,
        per_objective_query_budget: usize,
        heuristic_mode: PathwaySearchHeuristicMode,
    ) -> (r: Self)
        ensures
            r@ == comparison_view(stale_after_ticks, next_refresh_within_ticks, per_objective_query_budget, heuristic_mode),
    {
        let a = hyphenate("comparison", tagged_string("b", stale_after_ticks as u64).as_str());
        let b = hyphenate(a.as_str(), decimal_string(next_refresh_within_ticks as u64).as_str());
        let c = hyphenate(b.as_str(), tagged_string("p", per_objective_query_budget as u64).as_str());
        let id = hyphenate(c.as_str(), heuristic_mode_label(heuristic_mode));
        let mut r = blank(String::from_str("comparison"), id);
        r.batman_bellman_stale_after_ticks = Some(stale_after_ticks);
        r.batman_bellman_next_refresh_within_ticks = Some(next_refresh_within_ticks);
        r.batman_classic_stale_after_ticks = Some(stale_after_ticks);
        r.batman_classic_next_refresh_within_ticks = Some(next_refresh_within_ticks);
        r.babel_stale_after_ticks = Some(stale_after_ticks);
        r.babel_next_refresh_within_ticks = Some(next_refresh_within_ticks);
        r.olsrv2_stale_after_ticks = Some(stale_after_ticks);
        r.olsrv2_next_refresh_within_ticks = Some(next_refresh_within_ticks);
        r.pathway_query_budget = Some(per_objective_query_budget);
        r.pathway_heuristic_mode = Some(String::from_str(heuristic_mode_label(heuristic_mode)));
        r.field_query_budget = Some(per_objective_query_budget);
        r.field_heuristic_mode = Some(String::from_str(field_heuristic_mode_label(FieldSearchHeuristicMode::HopLowerBound)));
        r.field_service_publication_neighbor_limit = Some(3);
        r.field_service_freshness_weight = Some(100);
        r.field_service_narrowing_bias = Some(100);
        r
    }

    /// A head-to-head point for one engine set; a given decay window applies to
    /// BATMAN Bellman and OLSRv2, and a given Field search brings the tuned
    /// service and bootstrap settings.
    pub fn head_to_head(
        comparison_engine_set: ComparisonEngineSet,
        batman_bellman_decay_window: Option<(u32, u32)>,
        pathway_search: Option<(usize, PathwaySearchHeuristicMode)>,
        field_search: Option<(usize, FieldSearchHeuristicMode)>,
    ) -> (r: Self)
        ensures
            r@ == head_to_head_view(comparison_engine_set, batman_bellman_decay_window, pathway_search, field_search),
    {
        let suffix = Self::head_to_head_config_suffix(
            comparison_engine_set,
            batman_bellman_decay_window,
            pathway_search,
            field_search,
        );
        let mut r = blank(String::from_str("head-to-head"), hyphenate("head-to-head", suffix.as_str()));
        r.comparison_engine_set = Some(comparison_engine_set);
        match batman_bellman_decay_window {
            Some((stale, refresh)) => {
                r.batman_bellman_stale_after_ticks = Some(stale);
                r.batman_bellman_next_refresh_within_ticks = Some(refresh);
                r.olsrv2_stale_after_ticks = Some(stale);
                r.olsrv2_next_refresh_within_ticks = Some(refresh);
            },
            None => {},
        }
        match pathway_search {
            Some((budget, mode)) => {
                r.pathway_query_budget = Some(budget);
                r.pathway_heuristic_mode = Some(String::from_str(heuristic_mode_label(mode)));
            },
            None => {},
        }
        match field_search {
            Some((budget, mode)) => {
                r.field_query_budget = Some(budget);
                r.field_heuristic_mode = Some(String::from_str(field_heuristic_mode_label(mode)));
                r.field_service_publication_neighbor_limit = Some(1);
                r.field_service_freshness_weight = Some(120);
                r.field_service_narrowing_bias = Some(190);
                r.field_node_bootstrap_support_floor = Some(180);
                r.field_node_bootstrap_top_mass_floor = Some(180);
                r.field_node_bootstrap_entropy_ceiling = Some(970);
                r.field_node_discovery_enabled = Some(true);
            },
            None => {},
        }
        r
    }

    /// A Scatter point for a named engine profile.
    pub fn scatter(profile_id: &str) -> (r: Self)
        ensures
            r@ == scatter_view(profile_id@),
    {
        let mut r = blank(String::from_str("scatter"), hyphenate("scatter", profile_id));
        r.comparison_engine_set = Some(ComparisonEngineSet::Scatter);
        r.scatter_profile_id = Some(String::from_str(profile_id));
        r
    }

    /// The label of the engine set under comparison, if any.
    pub fn comparison_engine_set_label(&self) -> (r: Option<&'static str>)
        ensures
            match self.comparison_engine_set {
                Some(set) => r is Some && r->0@ == comparison_engine_set_chars(set),
                None => r is None,
            },
    {
        match self.comparison_engine_set {
            Some(set) => Some(set.label()),
            None => None,
        }
    }

    /// The BATMAN Bellman decay window, when both of its bounds are set.
    pub fn batman_bellman_decay_window(&self) -> (r: Option<DecayWindow>)
        ensures
            r == decay_window_of(self.batman_bellman_stale_after_ticks, self.batman_bellman_next_refresh_within_ticks),
    {
        decay_window_from(self.batman_bellman_stale_after_ticks, self.batman_bellman_next_refresh_within_ticks)
    }

    /// The BATMAN Classic decay window, when both of its bounds are set.
    pub fn batman_classic_decay_window(&self) -> (r: Option<DecayWindow>)
        ensures
            r == decay_window_of(self.batman_classic_stale_after_ticks, self.batman_classic_next_refresh_within_ticks),
    {
        decay_window_from(self.batman_classic_stale_after_ticks, self.batman_classic_next_refresh_within_ticks)
    }

    /// The Babel decay window, when both of its bounds are set.
    pub fn babel_decay_window(&self) -> (r: Option<DecayWindow>)
        ensures
            r == decay_window_of(self.babel_stale_after_ticks, self.babel_next_refresh_within_ticks),
    {
        decay_window_from(self.babel_stale_after_ticks, self.babel_next_refresh_within_ticks)
    }

    /// The OLSRv2 decay window, when both of its bounds are set.
    pub fn olsrv2_decay_window(&self) -> (r: Option<DecayWindow>)
        ensures
            r == decay_window_of(self.olsrv2_stale_after_ticks, self.olsrv2_next_refresh_within_ticks),
    {
        decay_window_from(self.olsrv2_stale_after_ticks, self.olsrv2_next_refresh_within_ticks)
    }

    /// The Pathway search settings, when a query budget is set (the heuristic
    /// defaults to `zero`).
    pub fn pathway_search_config(&self) -> (r: Option<PathwaySearchConfig>)
        ensures
            r == pathway_search_config_of(self@),
    {
        let budget = match self.pathway_query_budget {
            Some(b) => b,
            None => { return None; },
        };
        let heuristic_mode = match &self.pathway_heuristic_mode {
            Some(label) => heuristic_mode_from_str(label.as_str()),
            None => heuristic_mode_from_str("zero"),
        };
        Some(PathwaySearchConfig { per_objective_query_budget: budget, heuristic_mode })
    }

    /// The Field search settings, when a query budget is set; unset knobs take
    /// the engine defaults used by the experiments.
    pub fn field_search_config(&self) -> (r: Option<FieldSearchConfig>)
        ensures
            r == field_search_config_of(self@),
    {
        let budget = match self.field_query_budget {
            Some(b) => b,
            None => { return None; },
        };
        let heuristic_mode = match &self.field_heuristic_mode {
            Some(label) => field_heuristic_mode_from_str(label.as_str()),
            None => field_heuristic_mode_from_str("hop-lower-bound"),
        };
        Some(FieldSearchConfig {
            per_objective_query_budget: budget,
            heuristic_mode,
            service_publication_neighbor_limit: match self.field_service_publication_neighbor_limit { Some(v) => v, None => 3 },
            service_freshness_weight: match self.field_service_freshness_weight { Some(v) => v, None => 100 },
            service_narrowing_bias: match self.field_service_narrowing_bias { Some(v) => v, None => 100 },
            node_bootstrap_support_floor: match self.field_node_bootstrap_support_floor { Some(v) => v, None => 220 },
            node_bootstrap_top_mass_floor: match self.field_node_bootstrap_top_mass_floor { Some(v) => v, None => 260 },
            node_bootstrap_entropy_ceiling: match self.field_node_bootstrap_entropy_ceiling { Some(v) => v, None => 950 },
            node_discovery_enabled: match self.field_node_discovery_enabled { Some(v) => v, None => false },
        })
    }
}

/// Law: `field` is `field_tuned` with three publication neighbours and the
/// neutral freshness and narrowing weights.
pub proof fn lemma_field_is_default_tuned(budget: usize, mode: FieldSearchHeuristicMode)
    ensures
        field_tuned_view(budget, mode, 3, 100, 100).field_service_publication_neighbor_limit == Some(3usize),
        field_tuned_view(budget, mode, 3, 100, 100).field_service_freshness_weight == Some(100u16),
        field_tuned_view(budget, mode, 3, 100, 100).field_service_narrowing_bias == Some(100u16),
{
}

/// Law: a point built from a decay window hands the same window back to the
/// engine it configures.
pub proof fn lemma_decay_window_round_trip(stale: u32, refresh: u32)
    ensures
        decay_window_of(
            batman_bellman_view(stale, refresh).batman_bellman_stale_after_ticks,
            batman_bellman_view(stale, refresh).batman_bellman_next_refresh_within_ticks,
        ) == Some(DecayWindow { stale_after_ticks: stale as u64, next_refresh_within_ticks: refresh as u64 }),
        decay_window_of(
            olsrv2_view(stale, refresh).olsrv2_stale_after_ticks,
            olsrv2_view(stale, refresh).olsrv2_next_refresh_within_ticks,
        ) == Some(DecayWindow { stale_after_ticks: stale as u64, next_refresh_within_ticks: refresh as u64 }),
{
}

/// Law: a point built from a Pathway search hands the same search back.
pub proof fn lemma_pathway_search_round_trip(budget: usize, mode: PathwaySearchHeuristicMode)
    ensures
        pathway_search_config_of(pathway_view(budget, mode)) == Some(
            PathwaySearchConfig { per_objective_query_budget: budget, heuristic_mode: mode },
        ),
{
    lemma_heuristic_labels_round_trip(mode, FieldSearchHeuristicMode::Zero);
}

} // verus!
