//! Experiment suites: the regimes that families are filed under, the
//! parameter sets that comparative suites sweep, the expansion of families ×
//! parameter sets × seeds into runs, and what a finished suite reports.
use vstd::prelude::*;
use crate::breakdown::{summarize_breakdowns, ExperimentBreakdownSummary};
use crate::comparison::{
    build_comparison_multi_flow_asymmetric_demand, build_comparison_multi_flow_detour_choice,
    build_comparison_multi_flow_shared_corridor,
};
use crate::params::{
    pathway_view, comparison_view, field_low_churn_view, head_to_head_view, scatter_view, ComparisonEngineSet,
    ExperimentParameterSet, ParameterSetView, PathwaySearchHeuristicMode,
};
use crate::scenario::{swept_hosts, JacquardScenario, ScriptedEnvironmentModel};
use crate::summary::{aggregate_runs, ExperimentAggregateSummary, ExperimentRunSummary};
use crate::text::{decimal, decimal_string, hyphenate};

verus! {

/// How a family stresses its runs: density, loss, interference, asymmetry,
/// churn, node pressure and objective regime labels, and a stress score.
#[derive(Clone, Debug)]
pub struct RegimeDescriptor {
    pub density: String,
    pub loss: String,
    pub interference: String,
    pub asymmetry: String,
    pub churn: String,
    pub node_pressure: String,
    pub objective_regime: String,
    pub stress_score: u32,
}

/// A regime descriptor as plain values.
pub struct RegimeView {
    pub labels: Seq<Seq<char>>,
    pub stress_score: u32,
}

impl View for RegimeDescriptor {
    type V = RegimeView;

    open spec fn view(&self) -> RegimeView {
        RegimeView {
            labels: seq![
                self.density@,
                self.loss@,
                self.interference@,
                self.asymmetry@,
                self.churn@,
                self.node_pressure@,
                self.objective_regime@,
            ],
            stress_score: self.stress_score,
        }
    }
}

/// A regime from its seven labels and its stress score.
pub fn regime(fields: (&str, &str, &str, &str, &str, &str, &str, u32)) -> (r: RegimeDescriptor)
    ensures
        r@.labels == seq![fields.0@, fields.1@, fields.2@, fields.3@, fields.4@, fields.5@, fields.6@],
        r@.stress_score == fields.7,
{
    RegimeDescriptor {
        density: fields.0.to_string(),
        loss: fields.1.to_string(),
        interference: fields.2.to_string(),
        asymmetry: fields.3.to_string(),
        churn: fields.4.to_string(),
        node_pressure: fields.5.to_string(),
        objective_regime: fields.6.to_string(),
        stress_score: fields.7,
    }
}

impl RegimeDescriptor {
    /// A copy of the descriptor.
    pub fn duplicate(&self) -> (r: Self)
        ensures
            r@ == self@,
    {
        RegimeDescriptor {
            density: self.density.clone(),
            loss: self.loss.clone(),
            interference: self.interference.clone(),
            asymmetry: self.asymmetry.clone(),
            churn: self.churn.clone(),
            node_pressure: self.node_pressure.clone(),
            objective_regime: self.objective_regime.clone(),
            stress_score: self.stress_score,
        }
    }
}

/// One run of a suite: its ids, seed, regime, parameter set, and the scenario
/// and environment it runs.
#[derive(Clone, Debug)]
pub struct ExperimentRunSpec {
    pub run_id: String,
    pub suite_id: String,
    pub family_id: String,
    pub engine_family: String,
    pub seed: u64,
    pub regime: RegimeDescriptor,
    pub parameters: ExperimentParameterSet,
    pub scenario: JacquardScenario,
    pub environment: ScriptedEnvironmentModel,
}

/// A named list of runs.
#[derive(Clone, Debug)]
pub struct ExperimentSuite {
    pub suite_id: String,
    pub runs: Vec<ExperimentRunSpec>,
}

impl ExperimentSuite {
    /// The suite's id.
    pub fn suite_id(&self) -> (r: &str)
        ensures
            r@ == self.suite_id@,
    {
        self.suite_id.as_str()
    }

    /// Number of runs in the suite.
    pub fn run_count(&self) -> (r: usize)
        ensures
            r == self.runs@.len(),
    {
        self.runs.len()
    }
}

/// What a finished suite reports about itself.
#[derive(Clone, Debug)]
pub struct ExperimentManifest {
    pub suite_id: String,
    pub generated_at_unix_seconds: u64,
    pub run_count: u32,
    pub aggregate_count: u32,
    pub breakdown_count: u32,
}

/// A finished suite: where its artifacts went, its manifest, and its run,
/// aggregate and breakdown summaries.
#[derive(Clone, Debug)]
pub struct ExperimentArtifacts {
    pub output_dir: String,
    pub manifest: ExperimentManifest,
    pub runs: Vec<ExperimentRunSummary>,
    pub aggregates: Vec<ExperimentAggregateSummary>,
    pub breakdowns: Vec<ExperimentBreakdownSummary>,
}

/// `n` as a `u32`, or `u32::MAX` when it does not fit.
pub open spec fn count_u32(n: nat) -> u32 {
    if n > u32::MAX { u32::MAX } else { n as u32 }
}

fn saturating_count(n: usize) -> (r: u32)
    ensures
        r == count_u32(n as nat),
{
    if n > u32::MAX as usize { u32::MAX } else { n as u32 }
}

/// The artifacts of a finished suite under `output_dir`: its run summaries,
/// their aggregates and breakdowns, and a manifest that counts each
/// (counts saturate at `u32::MAX`; the generation time is left at zero).
pub fn suite_artifacts(suite_id: &str, output_dir: String, runs: Vec<ExperimentRunSummary>) -> (r: ExperimentArtifacts)
    ensures
        r.output_dir@ == output_dir@,
        r.runs@ == runs@,
        r.manifest.suite_id@ == suite_id@,
        r.manifest.generated_at_unix_seconds == 0,
        r.manifest.run_count == count_u32(runs@.len()),
        r.manifest.aggregate_count == count_u32(r.aggregates@.len()),
        r.manifest.breakdown_count == count_u32(r.breakdowns@.len()),
        forall|g: int|
            0 <= g < r.aggregates@.len() ==> crate::summary::runs_with_key(runs@, crate::summary::aggregate_key(#[trigger] r.aggregates@[g])).len() > 0
                && crate::summary::aggregate_matches(r.aggregates@[g], crate::summary::runs_with_key(runs@, crate::summary::aggregate_key(r.aggregates@[g]))),
        forall|g: int, h: int|
            0 <= g < h < r.aggregates@.len() ==> crate::summary::key_lt(
                crate::summary::aggregate_key(#[trigger] r.aggregates@[g]),
                crate::summary::aggregate_key(#[trigger] r.aggregates@[h]),
            ),
        forall|i: int| 0 <= i < runs@.len() ==> #[trigger] crate::summary::has_aggregate_for(r.aggregates@, crate::summary::run_key(runs@[i])),
        forall|g: int|
            0 <= g < r.breakdowns@.len() ==> crate::breakdown::aggregates_with_key(r.aggregates@, crate::breakdown::breakdown_row_key(#[trigger] r.breakdowns@[g])).len() > 0
                && crate::breakdown::breakdown_matches(r.breakdowns@[g], crate::breakdown::aggregates_with_key(r.aggregates@, crate::breakdown::breakdown_row_key(r.breakdowns@[g]))),
        forall|g: int, h: int|
            0 <= g < h < r.breakdowns@.len() ==> crate::breakdown::breakdown_key_lt(
                crate::breakdown::breakdown_row_key(#[trigger] r.breakdowns@[g]),
                crate::breakdown::breakdown_row_key(#[trigger] r.breakdowns@[h]),
            ),
        forall|i: int| 0 <= i < r.aggregates@.len() ==> #[trigger] crate::breakdown::has_breakdown_for(r.breakdowns@, crate::breakdown::breakdown_key_of(r.aggregates@[i])),
{
    let aggregates = aggregate_runs(&runs);
    let breakdowns = summarize_breakdowns(&aggregates);
    let manifest = ExperimentManifest {
        suite_id: suite_id.to_string(),
        generated_at_unix_seconds: 0,
        run_count: saturating_count(runs.len()),
        aggregate_count: saturating_count(aggregates.len()),
        breakdown_count: saturating_count(breakdowns.len()),
    };
    ExperimentArtifacts { output_dir, manifest, runs, aggregates, breakdowns }
}

/// How many configurations a comparative suite sweeps.
#[derive(Clone, Copy, Debug, PartialEq, Eq, Structural)]
pub enum ComparativeSuiteScale {
    Smoke,
    Full,
}

/// The parameter sets as plain values.
pub open spec fn parameter_views(sets: Seq<ExperimentParameterSet>) -> Seq<ParameterSetView> {
    sets.map_values(|p: ExperimentParameterSet| p@)
}

/// The Scatter profiles a suite sweeps: balanced and degraded-network, plus
/// conservative at full scale.
pub fn scatter_parameter_sets(scale: ComparativeSuiteScale) -> (r: Vec<ExperimentParameterSet>)
    ensures
        parameter_views(r@) == match scale {
            ComparativeSuiteScale::Smoke => seq![scatter_view("balanced"@), scatter_view("degraded-network"@)],
            ComparativeSuiteScale::Full => seq![
                scatter_view("balanced"@),
                scatter_view("conservative"@),
                scatter_view("degraded-network"@),
            ],
        },
{
    let r = match scale {
        ComparativeSuiteScale::Smoke => vec![
            ExperimentParameterSet::scatter("balanced"),
            ExperimentParameterSet::scatter("degraded-network"),
        ],
        ComparativeSuiteScale::Full => vec![
            ExperimentParameterSet::scatter("balanced"),
            ExperimentParameterSet::scatter("conservative"),
            ExperimentParameterSet::scatter("degraded-network"),
        ],
    };
    assert(parameter_views(r@) =~= match scale {
        ComparativeSuiteScale::Smoke => seq![scatter_view("balanced"@), scatter_view("degraded-network"@)],
        ComparativeSuiteScale::Full => seq![
            scatter_view("balanced"@),
            scatter_view("conservative"@),
            scatter_view("degraded-network"@),
        ],
    });
    r
}

/// The mixed-comparison configurations a suite sweeps.
pub fn comparison_configs(scale: ComparativeSuiteScale) -> (r: Vec<ExperimentParameterSet>)
    ensures
        parameter_views(r@) == match scale {
            ComparativeSuiteScale::Smoke => seq![comparison_view(4, 2, 3, PathwaySearchHeuristicMode::Zero)],
            ComparativeSuiteScale::Full => seq![
                comparison_view(4, 2, 3, PathwaySearchHeuristicMode::Zero),
                comparison_view(6, 3, 4, PathwaySearchHeuristicMode::HopLowerBound),
            ],
        },
{
    let r = match scale {
        ComparativeSuiteScale::Smoke => vec![ExperimentParameterSet::comparison(4, 2, 3, PathwaySearchHeuristicMode::Zero)],
        ComparativeSuiteScale::Full => vec![
            ExperimentParameterSet::comparison(4, 2, 3, PathwaySearchHeuristicMode::Zero),
            ExperimentParameterSet::comparison(6, 3, 4, PathwaySearchHeuristicMode::HopLowerBound),
        ],
    };
    assert(parameter_views(r@) =~= match scale {
        ComparativeSuiteScale::Smoke => seq![comparison_view(4, 2, 3, PathwaySearchHeuristicMode::Zero)],
        ComparativeSuiteScale::Full => seq![
            comparison_view(4, 2, 3, PathwaySearchHeuristicMode::Zero),
            comparison_view(6, 3, 4, PathwaySearchHeuristicMode::HopLowerBound),
        ],
    });
    r
}

/// The head-to-head configurations: one per engine set, with the decay
/// windows and searches that each is compared under.
pub fn head_to_head_configs() -> (r: Vec<ExperimentParameterSet>)
    ensures
        parameter_views(r@) == seq![
            head_to_head_view(ComparisonEngineSet::BatmanBellman, Some((1u32, 1u32)), None, None),
            head_to_head_view(ComparisonEngineSet::BatmanClassic, Some((4u32, 2u32)), None, None),
            head_to_head_view(ComparisonEngineSet::Babel, Some((4u32, 2u32)), None, None),
            head_to_head_view(ComparisonEngineSet::OlsrV2, Some((4u32, 2u32)), None, None),
            head_to_head_view(ComparisonEngineSet::Scatter, None, None, None),
            head_to_head_view(ComparisonEngineSet::Pathway, None, Some((6usize, PathwaySearchHeuristicMode::HopLowerBound)), None),
            field_low_churn_view(),
            head_to_head_view(
                ComparisonEngineSet::PathwayAndBatmanBellman,
                Some((6u32, 3u32)),
                Some((6usize, PathwaySearchHeuristicMode::HopLowerBound)),
                None,
            ),
        ],
{
    let r = vec![
        ExperimentParameterSet::head_to_head(ComparisonEngineSet::BatmanBellman, Some((1, 1)), None, None),
        ExperimentParameterSet::head_to_head(ComparisonEngineSet::BatmanClassic, Some((4, 2)), None, None),
        ExperimentParameterSet::head_to_head(ComparisonEngineSet::Babel, Some((4, 2)), None, None),
        ExperimentParameterSet::head_to_head(ComparisonEngineSet::OlsrV2, Some((4, 2)), None, None),
        ExperimentParameterSet::head_to_head(ComparisonEngineSet::Scatter, None, None, None),
        ExperimentParameterSet::head_to_head(
            ComparisonEngineSet::Pathway,
            None,
            Some((6, PathwaySearchHeuristicMode::HopLowerBound)),
            None,
        ),
        ExperimentParameterSet::head_to_head_field_low_churn(),
        ExperimentParameterSet::head_to_head(
            ComparisonEngineSet::PathwayAndBatmanBellman,
            Some((6, 3)),
            Some((6, PathwaySearchHeuristicMode::HopLowerBound)),
            None,
        ),
    ];
    assert(parameter_views(r@) =~= seq![
        head_to_head_view(ComparisonEngineSet::BatmanBellman, Some((1u32, 1u32)), None, None),
        head_to_head_view(ComparisonEngineSet::BatmanClassic, Some((4u32, 2u32)), None, None),
        head_to_head_view(ComparisonEngineSet::Babel, Some((4u32, 2u32)), None, None),
        head_to_head_view(ComparisonEngineSet::OlsrV2, Some((4u32, 2u32)), None, None),
        head_to_head_view(ComparisonEngineSet::Scatter, None, None, None),
        head_to_head_view(ComparisonEngineSet::Pathway, None, Some((6usize, PathwaySearchHeuristicMode::HopLowerBound)), None),
        field_low_churn_view(),
        head_to_head_view(
            ComparisonEngineSet::PathwayAndBatmanBellman,
            Some((6u32, 3u32)),
            Some((6usize, PathwaySearchHeuristicMode::HopLowerBound)),
            None,
        ),
    ]);
    r
}

/// The scenario builders that a suite can expand.
#[derive(Clone, Copy, Debug, PartialEq, Eq, Structural)]
pub enum FamilyBuilder {
    PathwaySparseServiceFanout,
    PathwaySearchBudgetPressure,
    PathwayMediumServiceMesh,
    PathwayDenseContentionService,
    PathwayHighFanoutBudgetPressure,
    PathwayChurnReplacement,
    PathwayBridgeFailureService,
    MultiFlowSharedCorridor,
    MultiFlowAsymmetricDemand,
    MultiFlowDetourChoice,
}

/// The scenario-name prefix of each family.
pub open spec fn family_prefix(family: FamilyBuilder) -> Seq<char> {
    match family {
        FamilyBuilder::PathwaySparseServiceFanout => "pathway-sparse-service-fanout-"@,
        FamilyBuilder::PathwaySearchBudgetPressure => "pathway-search-budget-pressure-"@,
        FamilyBuilder::PathwayMediumServiceMesh => "pathway-medium-service-mesh-"@,
        FamilyBuilder::PathwayDenseContentionService => "pathway-dense-contention-service-"@,
        FamilyBuilder::PathwayHighFanoutBudgetPressure => "pathway-high-fanout-budget-pressure-"@,
        FamilyBuilder::PathwayChurnReplacement => "pathway-churn-replacement-"@,
        FamilyBuilder::PathwayBridgeFailureService => "pathway-bridge-failure-service-"@,
        FamilyBuilder::MultiFlowSharedCorridor => "comparison-multi-flow-shared-corridor-"@,
        FamilyBuilder::MultiFlowAsymmetricDemand => "comparison-multi-flow-asymmetric-demand-"@,
        FamilyBuilder::MultiFlowDetourChoice => "comparison-multi-flow-detour-choice-"@,
    }
}

/// What the family's builder returns for `parameters` and `seed`.
pub open spec fn family_built(family: FamilyBuilder, parameters: ParameterSetView, seed: u64, r: (JacquardScenario, ScriptedEnvironmentModel)) -> bool {
    &&& swept_hosts(r.0.hosts@, parameters)
    &&& match family {
        FamilyBuilder::PathwaySparseServiceFanout => crate::pathway::sparse_service_fanout_family(parameters, seed, r),
        FamilyBuilder::PathwaySearchBudgetPressure => crate::pathway::search_budget_pressure_family(parameters, seed, r),
        FamilyBuilder::PathwayMediumServiceMesh => crate::pathway::medium_service_mesh_family(parameters, seed, r),
        FamilyBuilder::PathwayDenseContentionService => crate::pathway::dense_contention_service_family(parameters, seed, r),
        FamilyBuilder::PathwayHighFanoutBudgetPressure => crate::pathway::high_fanout_budget_pressure_family(parameters, seed, r),
        FamilyBuilder::PathwayChurnReplacement => crate::pathway::churn_replacement_family(parameters, seed, r),
        FamilyBuilder::PathwayBridgeFailureService => crate::pathway::bridge_failure_service_family(parameters, seed, r),
        FamilyBuilder::MultiFlowSharedCorridor => crate::comparison::shared_corridor_family(parameters, seed, r),
        FamilyBuilder::MultiFlowAsymmetricDemand => crate::comparison::asymmetric_demand_family(parameters, seed, r),
        FamilyBuilder::MultiFlowDetourChoice => crate::comparison::detour_choice_family(parameters, seed, r),
    }
}

/// The family's scenario and environment under `parameters` and `seed`.
pub fn build_family(family: FamilyBuilder, parameters: &ExperimentParameterSet, seed: u64) -> (r: (JacquardScenario, ScriptedEnvironmentModel))
    ensures
        r.0.name@ == family_prefix(family) + parameters.config_id@,
        r.0.seed == seed,
        family_built(family, parameters@, seed, r),
{
    match family {
        FamilyBuilder::PathwaySparseServiceFanout => crate::pathway::build_pathway_sparse_service_fanout(parameters, seed),
        FamilyBuilder::PathwaySearchBudgetPressure => crate::pathway::build_pathway_search_budget_pressure(parameters, seed),
        FamilyBuilder::PathwayMediumServiceMesh => crate::pathway::build_pathway_medium_service_mesh(parameters, seed),
        FamilyBuilder::PathwayDenseContentionService => crate::pathway::build_pathway_dense_contention_service(parameters, seed),
        FamilyBuilder::PathwayHighFanoutBudgetPressure => crate::pathway::build_pathway_high_fanout_budget_pressure(parameters, seed),
        FamilyBuilder::PathwayChurnReplacement => crate::pathway::build_pathway_churn_replacement(parameters, seed),
        FamilyBuilder::PathwayBridgeFailureService => crate::pathway::build_pathway_bridge_failure_service(parameters, seed),
        FamilyBuilder::MultiFlowSharedCorridor => build_comparison_multi_flow_shared_corridor(parameters, seed),
        FamilyBuilder::MultiFlowAsymmetricDemand => build_comparison_multi_flow_asymmetric_demand(parameters, seed),
        FamilyBuilder::MultiFlowDetourChoice => build_comparison_multi_flow_detour_choice(parameters, seed),
    }
}

/// A family as a suite lists it: its id, its regime and which family it builds.
#[derive(Clone, Debug)]
pub struct FamilyEntry {
    pub family_id: String,
    pub regime: RegimeDescriptor,
    pub family: FamilyBuilder,
}

/// The run id: suite, family, configuration and seed, joined by hyphens.
pub open spec fn run_id_chars(suite_id: Seq<char>, family_id: Seq<char>, config_id: Seq<char>, seed: u64) -> Seq<char> {
    suite_id + seq!['-'] + family_id + seq!['-'] + config_id + seq!['-'] + decimal(seed as nat)
}

/// A family entry as plain values: id, regime, builder.
pub type FamilyView = (Seq<char>, RegimeView, FamilyBuilder);

/// The family entries as plain values.
pub open spec fn family_views(families: Seq<FamilyEntry>) -> Seq<FamilyView> {
    families.map_values(|e: FamilyEntry| (e.family_id@, e.regime@, e.family))
}

/// `run` is the run of family `f`, parameter set `p` and seed `s`.
pub open spec fn run_of(
    run: ExperimentRunSpec,
    suite_id: Seq<char>,
    engine_family: Seq<char>,
    seeds: Seq<u64>,
    parameter_sets: Seq<ParameterSetView>,
    families: Seq<FamilyView>,
    f: int,
    p: int,
    s: int,
) -> bool {
    &&& run.run_id@ == run_id_chars(suite_id, families[f].0, parameter_sets[p].config_id, seeds[s])
    &&& run.suite_id@ == suite_id
    &&& run.family_id@ == families[f].0
    &&& run.engine_family@ == engine_family
    &&& run.seed == seeds[s]
    &&& run.regime@ == families[f].1
    &&& run.parameters@ == parameter_sets[p]
    &&& run.scenario.name@ == family_prefix(families[f].2) + parameter_sets[p].config_id
    &&& run.scenario.seed == seeds[s]
    &&& family_built(families[f].2, parameter_sets[p], seeds[s], (run.scenario, run.environment))
}

/// `run` sits at position `i` of the expansion of `families` × `parameter_sets` × `seeds`.
pub open spec fn placed(
    run: ExperimentRunSpec,
    i: int,
    suite_id: Seq<char>,
    engine_family: Seq<char>,
    seeds: Seq<u64>,
    parameter_sets: Seq<ParameterSetView>,
    families: Seq<FamilyView>,
) -> bool {
    exists|fi: int, pi: int, si: int| {
        &&& 0 <= fi < families.len()
        &&& 0 <= pi < parameter_sets.len()
        &&& 0 <= si < seeds.len()
        &&& i == (fi * parameter_sets.len() + pi) * seeds.len() + si
        &&& #[trigger] run_of(run, suite_id, engine_family, seeds, parameter_sets, families, fi, pi, si)
    }
}

proof fn lemma_next_block(a: int, b: int, c: int)
    requires
        0 <= a,
        0 <= c,
    ensures
        a * c + c == (a + 1) * c,
{
    assert(a * c + c == (a + 1) * c) by (nonlinear_arith);
}

/// Every (family, parameter set, seed) combination in that nesting order,
/// each as one run whose id joins suite, family, configuration and seed.
pub fn expand_runs(
    suite_id: &str,
    engine_family: &str,
    seeds: &Vec<u64>,
    parameter_sets: &Vec<ExperimentParameterSet>,
    families: &Vec<FamilyEntry>,
) -> (r: Vec<ExperimentRunSpec>)
    ensures
        r@.len() == families@.len() * parameter_sets@.len() * seeds@.len(),
        forall|i: int| 0 <= i < r@.len() ==> placed(#[trigger] r@[i], i, suite_id@, engine_family@, seeds@, parameter_views(parameter_sets@), family_views(families@)),
{
    let nf = families.len();
    let np = parameter_sets.len();
    let ns = seeds.len();
    let mut runs: Vec<ExperimentRunSpec> = Vec::new();
    let mut f: usize = 0;
    assert(0 * np * ns == 0) by (nonlinear_arith);
    while f < nf
        invariant
            nf == families@.len(),
            np == parameter_sets@.len(),
            ns == seeds@.len(),
            f <= nf,
            runs@.len() == f * np * ns,
            forall|i: int| 0 <= i < runs@.len() ==> placed(#[trigger] runs@[i], i, suite_id@, engine_family@, seeds@, parameter_views(parameter_sets@), family_views(families@)),
        decreases nf - f,
    {
        let entry = &families[f];
        let mut p: usize = 0;
        while p < np
            invariant
                nf == families@.len(),
                np == parameter_sets@.len(),
                ns == seeds@.len(),
                f < nf,
                *entry == families@[f as int],
                p <= np,
                runs@.len() == (f * np + p) * ns,
                forall|i: int| 0 <= i < runs@.len() ==> placed(#[trigger] runs@[i], i, suite_id@, engine_family@, seeds@, parameter_views(parameter_sets@), family_views(families@)),
            decreases np - p,
        {
            let parameters = &parameter_sets[p];
            let mut s: usize = 0;
            while s < ns
                invariant
                    nf == families@.len(),
                    np == parameter_sets@.len(),
                    ns == seeds@.len(),
                    f < nf,
                    p < np,
                    *entry == families@[f as int],
                    *parameters == parameter_sets@[p as int],
                    s <= ns,
                    runs@.len() == (f * np + p) * ns + s,
                    forall|i: int| 0 <= i < runs@.len() ==> placed(#[trigger] runs@[i], i, suite_id@, engine_family@, seeds@, parameter_views(parameter_sets@), family_views(families@)),
                decreases ns - s,
            {
                let seed = seeds[s];
                let (scenario, environment) = build_family(entry.family, parameters, seed);
                let a = hyphenate(suite_id, entry.family_id.as_str());
                let b = hyphenate(a.as_str(), parameters.config_id.as_str());
                let run_id = hyphenate(b.as_str(), decimal_string(seed).as_str());
                let run = ExperimentRunSpec {
                    run_id,
                    suite_id: suite_id.to_string(),
                    family_id: entry.family_id.clone(),
                    engine_family: engine_family.to_string(),
                    seed,
                    regime: entry.regime.duplicate(),
                    parameters: parameters.duplicate(),
                    scenario,
                    environment,
                };
                let ghost idx = runs@.len() as int;
                let ghost before = runs@;
                assert(run_of(run, suite_id@, engine_family@, seeds@, parameter_views(parameter_sets@), family_views(families@), f as int, p as int, s as int)) by {
                    assert(run.run_id@ =~= run_id_chars(suite_id@, families@[f as int].family_id@, parameter_sets@[p as int].config_id@, seeds@[s as int]));
                }
                runs.push(run);
                assert forall|i: int| 0 <= i < runs@.len() implies placed(#[trigger] runs@[i], i, suite_id@, engine_family@, seeds@, parameter_views(parameter_sets@), family_views(families@)) by {
                    if i < idx {
                        assert(runs@[i] == before[i]);
                    } else {
                        assert(runs@[i] == run);
                    }
                }
                s = s + 1;
            }
            proof {
                lemma_next_block((f * np + p) as int, 0, ns as int);
            }
            p = p + 1;
        }
        proof {
            lemma_next_block(f as int, 0, np as int);
            assert((f * np + np) * ns == (f + 1) * np * ns) by (nonlinear_arith)
                requires
                    f * np + np == (f + 1) * np;
        }
        f = f + 1;
    }
    runs
}

/// The Pathway families with their regimes, in suite order.
pub open spec fn pathway_family_views() -> Seq<FamilyView> {
    seq![
        ("pathway-search-budget-pressure"@, RegimeView { labels: seq!["sparse-fanout"@, "moderate"@, "low"@, "none"@, "partition"@, "none"@, "service"@], stress_score: 42 }, FamilyBuilder::PathwaySearchBudgetPressure),
        ("pathway-high-fanout-budget-pressure"@, RegimeView { labels: seq!["high-fanout"@, "moderate"@, "medium"@, "none"@, "partition"@, "none"@, "service"@], stress_score: 50 }, FamilyBuilder::PathwayHighFanoutBudgetPressure),
        ("pathway-sparse-service-fanout"@, RegimeView { labels: seq!["sparse-fanout"@, "low"@, "low"@, "none"@, "static"@, "none"@, "service"@], stress_score: 14 }, FamilyBuilder::PathwaySparseServiceFanout),
        ("pathway-medium-service-mesh"@, RegimeView { labels: seq!["medium-mesh"@, "low"@, "medium"@, "none"@, "static"@, "none"@, "service"@], stress_score: 24 }, FamilyBuilder::PathwayMediumServiceMesh),
        ("pathway-dense-contention-service"@, RegimeView { labels: seq!["dense-mesh"@, "moderate"@, "high"@, "none"@, "static"@, "none"@, "service"@], stress_score: 46 }, FamilyBuilder::PathwayDenseContentionService),
        ("pathway-churn-replacement"@, RegimeView { labels: seq!["medium-ring"@, "moderate"@, "medium"@, "none"@, "relink-and-replace"@, "none"@, "explicit-path"@], stress_score: 50 }, FamilyBuilder::PathwayChurnReplacement),
        ("pathway-bridge-failure-service"@, RegimeView { labels: seq!["bridge-cluster"@, "moderate"@, "medium"@, "mild"@, "partition-recovery"@, "tight-hold"@, "service"@], stress_score: 58 }, FamilyBuilder::PathwayBridgeFailureService),
    ]
}

/// The Pathway search configurations a suite sweeps: two of the coarse
/// budgets for a smoke suite, all coarse and fine budgets otherwise.
pub open spec fn pathway_parameter_views(smoke: bool) -> Seq<ParameterSetView> {
    if smoke {
        seq![pathway_view(1, PathwaySearchHeuristicMode::Zero), pathway_view(4, PathwaySearchHeuristicMode::Zero)]
    } else {
        seq![pathway_view(1, PathwaySearchHeuristicMode::Zero), pathway_view(2, PathwaySearchHeuristicMode::Zero), pathway_view(4, PathwaySearchHeuristicMode::Zero), pathway_view(6, PathwaySearchHeuristicMode::HopLowerBound), pathway_view(2, PathwaySearchHeuristicMode::HopLowerBound), pathway_view(3, PathwaySearchHeuristicMode::Zero), pathway_view(4, PathwaySearchHeuristicMode::HopLowerBound)]
    }
}

/// The runs of the Pathway families: each family under each search
/// configuration and seed.
pub fn build_pathway_runs(suite_id: &str, seeds: &Vec<u64>, smoke: bool) -> (r: Vec<ExperimentRunSpec>)
    ensures
        r@.len() == 7 * pathway_parameter_views(smoke).len() * seeds@.len(),
        forall|i: int| 0 <= i < r@.len() ==> placed(#[trigger] r@[i], i, suite_id@, "pathway"@, seeds@, pathway_parameter_views(smoke), pathway_family_views()),
{
    let coarse = vec![ExperimentParameterSet::pathway(1, PathwaySearchHeuristicMode::Zero), ExperimentParameterSet::pathway(2, PathwaySearchHeuristicMode::Zero), ExperimentParameterSet::pathway(4, PathwaySearchHeuristicMode::Zero), ExperimentParameterSet::pathway(6, PathwaySearchHeuristicMode::HopLowerBound)];
    let parameter_sets = if smoke {
        vec![coarse[0].duplicate(), coarse[2].duplicate()]
    } else {
        let mut all = coarse;
        let mut fine = vec![ExperimentParameterSet::pathway(2, PathwaySearchHeuristicMode::HopLowerBound), ExperimentParameterSet::pathway(3, PathwaySearchHeuristicMode::Zero), ExperimentParameterSet::pathway(4, PathwaySearchHeuristicMode::HopLowerBound)];
        all.append(&mut fine);
        all
    };
    assert(parameter_views(parameter_sets@) =~= pathway_parameter_views(smoke));
    let families = vec![
        FamilyEntry {
            family_id: String::from_str("pathway-search-budget-pressure"),
            regime: regime(("sparse-fanout", "moderate", "low", "none", "partition", "none", "service", 42)),
            family: FamilyBuilder::PathwaySearchBudgetPressure,
        },
        FamilyEntry {
            family_id: String::from_str("pathway-high-fanout-budget-pressure"),
            regime: regime(("high-fanout", "moderate", "medium", "none", "partition", "none", "service", 50)),
            family: FamilyBuilder::PathwayHighFanoutBudgetPressure,
        },
        FamilyEntry {
            family_id: String::from_str("pathway-sparse-service-fanout"),
            regime: regime(("sparse-fanout", "low", "low", "none", "static", "none", "service", 14)),
            family: FamilyBuilder::PathwaySparseServiceFanout,
        },
        FamilyEntry {
            family_id: String::from_str("pathway-medium-service-mesh"),
            regime: regime(("medium-mesh", "low", "medium", "none", "static", "none", "service", 24)),
            family: FamilyBuilder::PathwayMediumServiceMesh,
        },
        FamilyEntry {
            family_id: String::from_str("pathway-dense-contention-service"),
            regime: regime(("dense-mesh", "moderate", "high", "none", "static", "none", "service", 46)),
            family: FamilyBuilder::PathwayDenseContentionService,
        },
        FamilyEntry {
            family_id: String::from_str("pathway-churn-replacement"),
            regime: regime(("medium-ring", "moderate", "medium", "none", "relink-and-replace", "none", "explicit-path", 50)),
            family: FamilyBuilder::PathwayChurnReplacement,
        },
        FamilyEntry {
            family_id: String::from_str("pathway-bridge-failure-service"),
            regime: regime(("bridge-cluster", "moderate", "medium", "mild", "partition-recovery", "tight-hold", "service", 58)),
            family: FamilyBuilder::PathwayBridgeFailureService,
        },
    ];
    assert(family_views(families@) =~= pathway_family_views());
    expand_runs(suite_id, "pathway", seeds, &parameter_sets, &families)
}

} // verus!
