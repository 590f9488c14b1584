//! Why the aggregate rows do not depend on the order in which runs arrive.
use vstd::prelude::*;
use crate::params::opt_chars;
use crate::text::lemma_chars_lt_trichotomy;
use crate::stats::lemma_mean_between_extremes;
use crate::stats::{
    clamp_u32, is_mode, label_count, lemma_min_max_bounds, max_of, mean_option_u32, mean_u32, min_max_spread, min_of, present_values,
    ranks_at_least, sum_u32,
};
use crate::summary::{
    aggregate_key, aggregate_matches, aggregated, has_aggregate_for, key_lt, lemma_key_lt_trichotomy, counter_series, equivalence_passes, indices_with_key, label_list, label_mode_matches,
    label_value, measure_series, member_runs, run_key, runs_with_key, ExperimentAggregateSummary, ExperimentRunSummary,
    RunCounter, RunKey, RunLabel, RunMeasure,
};

verus! {

broadcast use vstd::seq_lib::group_to_multiset_ensures, vstd::multiset::group_multiset_axioms;

/// The runs with key `k` among the first `i` runs, counted by run.
proof fn lemma_group_counts(runs: Seq<ExperimentRunSummary>, k: RunKey, i: int, x: ExperimentRunSummary)
    requires
        0 <= i <= runs.len(),
        runs.len() <= usize::MAX,
    ensures
        member_runs(runs, indices_with_key(runs, k, i)).to_multiset().count(x) == if run_key(x) == k {
            runs.take(i).to_multiset().count(x)
        } else {
            0
        },
    decreases i,
{
    if i == 0 {
        assert(member_runs(runs, indices_with_key(runs, k, 0)) =~= Seq::<ExperimentRunSummary>::empty());
        assert(runs.take(0) =~= Seq::<ExperimentRunSummary>::empty());
    } else {
        lemma_group_counts(runs, k, i - 1, x);
        let before = indices_with_key(runs, k, i - 1);
        assert(runs.take(i) =~= runs.take(i - 1).push(runs[i - 1]));
        if run_key(runs[i - 1]) == k {
            let idx = (i - 1) as usize;
            assert(idx as int == i - 1);
            assert(member_runs(runs, before.push(idx)) =~= member_runs(runs, before).push(runs[i - 1]));
        }
    }
}

/// Two orderings of the same runs group the same runs under every key.
pub proof fn lemma_groups_permute(runs: Seq<ExperimentRunSummary>, runs2: Seq<ExperimentRunSummary>, k: RunKey)
    requires
        runs2.to_multiset() == runs.to_multiset(),
        runs.len() <= usize::MAX,
    ensures
        runs_with_key(runs2, k).to_multiset() == runs_with_key(runs, k).to_multiset(),
{
    assert(runs2.len() == runs2.to_multiset().len());
    assert(runs.len() == runs.to_multiset().len());
    assert forall|x: ExperimentRunSummary| runs_with_key(runs2, k).to_multiset().count(x) == runs_with_key(runs, k).to_multiset().count(x) by {
        lemma_group_counts(runs, k, runs.len() as int, x);
        lemma_group_counts(runs2, k, runs2.len() as int, x);
        assert(runs.take(runs.len() as int) =~= runs);
        assert(runs2.take(runs2.len() as int) =~= runs2);
    }
    assert(runs_with_key(runs2, k).to_multiset() =~= runs_with_key(runs, k).to_multiset());
}

proof fn lemma_sum_remove(s: Seq<u32>, j: int)
    requires
        0 <= j < s.len(),
    ensures
        sum_u32(s) == sum_u32(s.remove(j)) + s[j],
    decreases s.len(),
{
    if j == s.len() - 1 {
        assert(s.remove(j) =~= s.drop_last());
    } else {
        assert(s.remove(j).drop_last() =~= s.drop_last().remove(j));
        assert(s.remove(j).last() == s.last());
        lemma_sum_remove(s.drop_last(), j);
    }
}

/// The sum of a counter over runs does not depend on their order.
pub proof fn lemma_counter_sum_permutes(g1: Seq<ExperimentRunSummary>, g2: Seq<ExperimentRunSummary>, c: RunCounter)
    requires
        g1.to_multiset() == g2.to_multiset(),
    ensures
        g1.len() == g2.len(),
        sum_u32(counter_series(g1, c)) == sum_u32(counter_series(g2, c)),
    decreases g1.len(),
{
    assert(g1.len() == g1.to_multiset().len());
    assert(g2.len() == g2.to_multiset().len());
    if g1.len() > 0 {
        let x = g1.last();
        let rest = g1.drop_last();
        assert(g1 =~= rest.push(x));
        assert(g1.to_multiset() =~= rest.to_multiset().insert(x));
        assert(g2.to_multiset().count(x) > 0);
        assert(g2.contains(x));
        let j = choose|j: int| 0 <= j < g2.len() && g2[j] == x;
        let g2r = g2.remove(j);
        assert(g2r.to_multiset() == g2.to_multiset().remove(x));
        assert(rest.to_multiset() =~= g2r.to_multiset());
        lemma_counter_sum_permutes(rest, g2r, c);
        assert(counter_series(g1, c).drop_last() =~= counter_series(rest, c));
        assert(counter_series(g2, c).remove(j) =~= counter_series(g2r, c));
        lemma_sum_remove(counter_series(g2, c), j);
    }
}

/// The mean of every counter over runs does not depend on their order.
pub proof fn lemma_counter_means_permute(g1: Seq<ExperimentRunSummary>, g2: Seq<ExperimentRunSummary>)
    requires
        g1.to_multiset() == g2.to_multiset(),
    ensures
        g1.len() == g2.len(),
        forall|c: RunCounter| #[trigger] mean_u32(counter_series(g1, c)) == mean_u32(counter_series(g2, c)),
{
    assert(g1.len() == g1.to_multiset().len());
    assert(g2.len() == g2.to_multiset().len());
    assert forall|c: RunCounter| #[trigger] mean_u32(counter_series(g1, c)) == mean_u32(counter_series(g2, c)) by {
        lemma_counter_sum_permutes(g1, g2, c);
    }
}

/// Each counter value of a run of `g1` is that of some run of `g2`.
proof fn lemma_value_shared(g1: Seq<ExperimentRunSummary>, g2: Seq<ExperimentRunSummary>, c: RunCounter, v: u32)
    requires
        g1.to_multiset() == g2.to_multiset(),
        counter_series(g1, c).contains(v),
    ensures
        counter_series(g2, c).contains(v),
{
    let i = choose|i: int| 0 <= i < counter_series(g1, c).len() && counter_series(g1, c)[i] == v;
    let x = g1[i];
    assert(g1.contains(x));
    assert(g1.to_multiset().count(x) > 0);
    assert(g2.contains(x));
    let j = choose|j: int| 0 <= j < g2.len() && g2[j] == x;
    assert(counter_series(g2, c)[j] == v);
}

/// The least and greatest value of every counter over runs, and their
/// spread, do not depend on the order of the runs.
pub proof fn lemma_counter_extremes_permute(g1: Seq<ExperimentRunSummary>, g2: Seq<ExperimentRunSummary>)
    requires
        g1.to_multiset() == g2.to_multiset(),
    ensures
        forall|c: RunCounter| #[trigger] min_max_spread(counter_series(g1, c)) == min_max_spread(counter_series(g2, c)),
{
    assert(g1.len() == g1.to_multiset().len());
    assert(g2.len() == g2.to_multiset().len());
    assert forall|c: RunCounter| #[trigger] min_max_spread(counter_series(g1, c)) == min_max_spread(counter_series(g2, c)) by {
        let s1 = counter_series(g1, c);
        let s2 = counter_series(g2, c);
        if g1.len() > 0 {
            lemma_min_max_bounds(s1);
            lemma_min_max_bounds(s2);
            lemma_value_shared(g1, g2, c, min_of(s1));
            lemma_value_shared(g1, g2, c, max_of(s1));
            lemma_value_shared(g2, g1, c, min_of(s2));
            lemma_value_shared(g2, g1, c, max_of(s2));
            let a = choose|k: int| 0 <= k < s2.len() && s2[k] == min_of(s1);
            let b = choose|k: int| 0 <= k < s2.len() && s2[k] == max_of(s1);
            let c2 = choose|k: int| 0 <= k < s1.len() && s1[k] == min_of(s2);
            let d = choose|k: int| 0 <= k < s1.len() && s1[k] == max_of(s2);
            assert(min_of(s2) <= s2[a] && s2[b] <= max_of(s2));
            assert(min_of(s1) <= s1[c2] && s1[d] <= max_of(s1));
        }
    }
}

proof fn lemma_passes_remove(g: Seq<ExperimentRunSummary>, j: int)
    requires
        0 <= j < g.len(),
    ensures
        equivalence_passes(g) == equivalence_passes(g.remove(j)) + if g[j].equivalence_passed == Some(true) { 1nat } else { 0nat },
    decreases g.len(),
{
    if j == g.len() - 1 {
        assert(g.remove(j) =~= g.drop_last());
    } else {
        assert(g.remove(j).drop_last() =~= g.drop_last().remove(j));
        assert(g.remove(j).last() == g.last());
        lemma_passes_remove(g.drop_last(), j);
    }
}

/// The number of runs whose equivalence check passed does not depend on
/// their order.
pub proof fn lemma_passes_permute(g1: Seq<ExperimentRunSummary>, g2: Seq<ExperimentRunSummary>)
    requires
        g1.to_multiset() == g2.to_multiset(),
    ensures
        equivalence_passes(g1) == equivalence_passes(g2),
    decreases g1.len(),
{
    assert(g1.len() == g1.to_multiset().len());
    assert(g2.len() == g2.to_multiset().len());
    if g1.len() > 0 {
        let x = g1.last();
        let rest = g1.drop_last();
        assert(g1 =~= rest.push(x));
        assert(g1.to_multiset() =~= rest.to_multiset().insert(x));
        assert(g2.to_multiset().count(x) > 0);
        assert(g2.contains(x));
        let j = choose|j: int| 0 <= j < g2.len() && g2[j] == x;
        let g2r = g2.remove(j);
        assert(g2r.to_multiset() == g2.to_multiset().remove(x));
        assert(rest.to_multiset() =~= g2r.to_multiset());
        lemma_passes_permute(rest, g2r);
        lemma_passes_remove(g2, j);
    }
}

/// The value, or zero when absent.
pub open spec fn option_value(o: Option<u32>) -> int {
    match o {
        Some(v) => v as int,
        None => 0,
    }
}

/// One when a value is present, else zero.
pub open spec fn option_count(o: Option<u32>) -> int {
    if o is Some { 1 } else { 0 }
}

proof fn lemma_present_remove(s: Seq<Option<u32>>, j: int)
    requires
        0 <= j < s.len(),
    ensures
        sum_u32(present_values(s)) == sum_u32(present_values(s.remove(j))) + option_value(s[j]),
        present_values(s).len() == present_values(s.remove(j)).len() + option_count(s[j]),
    decreases s.len(),
{
    if s.last() is Some {
        assert(present_values(s).drop_last() =~= present_values(s.drop_last()));
    }
    if j == s.len() - 1 {
        assert(s.remove(j) =~= s.drop_last());
    } else {
        let t = s.remove(j);
        assert(t.drop_last() =~= s.drop_last().remove(j));
        assert(t.last() == s.last());
        if t.last() is Some {
            assert(present_values(t).drop_last() =~= present_values(t.drop_last()));
        }
        lemma_present_remove(s.drop_last(), j);
    }
}

/// The present values of a measure over runs add up to the same total, and
/// are as many, whatever the order of the runs.
pub proof fn lemma_measure_permutes(g1: Seq<ExperimentRunSummary>, g2: Seq<ExperimentRunSummary>, c: RunMeasure)
    requires
        g1.to_multiset() == g2.to_multiset(),
    ensures
        sum_u32(present_values(measure_series(g1, c))) == sum_u32(present_values(measure_series(g2, c))),
        present_values(measure_series(g1, c)).len() == present_values(measure_series(g2, c)).len(),
        mean_option_u32(measure_series(g1, c)) == mean_option_u32(measure_series(g2, c)),
    decreases g1.len(),
{
    assert(g1.len() == g1.to_multiset().len());
    assert(g2.len() == g2.to_multiset().len());
    if g1.len() > 0 {
        let x = g1.last();
        let rest = g1.drop_last();
        assert(g1 =~= rest.push(x));
        assert(g1.to_multiset() =~= rest.to_multiset().insert(x));
        assert(g2.to_multiset().count(x) > 0);
        assert(g2.contains(x));
        let j = choose|j: int| 0 <= j < g2.len() && g2[j] == x;
        let g2r = g2.remove(j);
        assert(g2r.to_multiset() == g2.to_multiset().remove(x));
        assert(rest.to_multiset() =~= g2r.to_multiset());
        lemma_measure_permutes(rest, g2r, c);
        let m1 = measure_series(g1, c);
        assert(m1.drop_last() =~= measure_series(rest, c));
        assert(m1.last() == measure_series(g2, c)[j]);
        if m1.last() is Some {
            assert(present_values(m1).drop_last() =~= present_values(m1.drop_last()));
        }
        assert(measure_series(g2, c).remove(j) =~= measure_series(g2r, c));
        lemma_present_remove(measure_series(g2, c), j);
    } else {
        assert(measure_series(g1, c) =~= measure_series(g2, c));
    }
}

/// One if the run carries label `v` under `c`.
pub open spec fn carries(run: ExperimentRunSummary, c: RunLabel, v: Seq<char>) -> nat {
    match label_value(run, c) {
        Some(s) => if s@ == v { 1nat } else { 0nat },
        None => 0nat,
    }
}

proof fn lemma_label_list_last(g: Seq<ExperimentRunSummary>, c: RunLabel, v: Seq<char>)
    requires
        g.len() > 0,
    ensures
        label_count(label_list(g, c), v) == label_count(label_list(g.drop_last(), c), v) + carries(g.last(), c, v),
{
    if label_value(g.last(), c) is Some {
        let l = label_list(g, c);
        assert(l.drop_last() =~= label_list(g.drop_last(), c));
    }
}

proof fn lemma_label_remove(g: Seq<ExperimentRunSummary>, c: RunLabel, v: Seq<char>, j: int)
    requires
        0 <= j < g.len(),
    ensures
        label_count(label_list(g, c), v) == label_count(label_list(g.remove(j), c), v) + carries(g[j], c, v),
    decreases g.len(),
{
    lemma_label_list_last(g, c, v);
    if j == g.len() - 1 {
        assert(g.remove(j) =~= g.drop_last());
    } else {
        let t = g.remove(j);
        assert(t.drop_last() =~= g.drop_last().remove(j));
        assert(t.last() == g.last());
        lemma_label_list_last(t, c, v);
        lemma_label_remove(g.drop_last(), c, v, j);
    }
}

/// How often each label occurs among runs does not depend on their order.
pub proof fn lemma_label_counts_permute(g1: Seq<ExperimentRunSummary>, g2: Seq<ExperimentRunSummary>, c: RunLabel, v: Seq<char>)
    requires
        g1.to_multiset() == g2.to_multiset(),
    ensures
        label_count(label_list(g1, c), v) == label_count(label_list(g2, c), v),
    decreases g1.len(),
{
    assert(g1.len() == g1.to_multiset().len());
    assert(g2.len() == g2.to_multiset().len());
    if g1.len() > 0 {
        let x = g1.last();
        let rest = g1.drop_last();
        assert(g1 =~= rest.push(x));
        assert(g1.to_multiset() =~= rest.to_multiset().insert(x));
        assert(g2.to_multiset().count(x) > 0);
        assert(g2.contains(x));
        let j = choose|j: int| 0 <= j < g2.len() && g2[j] == x;
        let g2r = g2.remove(j);
        assert(g2r.to_multiset() == g2.to_multiset().remove(x));
        assert(rest.to_multiset() =~= g2r.to_multiset());
        lemma_label_counts_permute(rest, g2r, c, v);
        lemma_label_list_last(g1, c, v);
        lemma_label_remove(g2, c, v, j);
    } else {
        assert(label_list(g1, c) =~= label_list(g2, c));
    }
}

proof fn lemma_count_positive(s: Seq<String>, i: int)
    requires
        0 <= i < s.len(),
    ensures
        label_count(s, s[i]@) > 0,
    decreases s.len(),
{
    if i < s.len() - 1 {
        assert(s.drop_last()[i] == s[i]);
        lemma_count_positive(s.drop_last(), i);
    }
}

proof fn lemma_count_witness(s: Seq<String>, v: Seq<char>)
    requires
        label_count(s, v) > 0,
    ensures
        exists|i: int| 0 <= i < s.len() && (#[trigger] s[i])@ == v,
    decreases s.len(),
{
    if s.last()@ != v {
        lemma_count_witness(s.drop_last(), v);
        let i = choose|i: int| 0 <= i < s.drop_last().len() && (#[trigger] s.drop_last()[i])@ == v;
        assert(s[i] == s.drop_last()[i]);
    } else {
        assert(s[s.len() - 1]@ == v);
    }
}

/// The modal label among runs does not depend on their order.
pub proof fn lemma_mode_permutes(
    g1: Seq<ExperimentRunSummary>,
    g2: Seq<ExperimentRunSummary>,
    c: RunLabel,
    r1: Option<String>,
    r2: Option<String>,
)
    requires
        g1.to_multiset() == g2.to_multiset(),
        label_mode_matches(r1, g1, c),
        label_mode_matches(r2, g2, c),
    ensures
        opt_chars(r1) == opt_chars(r2),
{
    let s1 = label_list(g1, c);
    let s2 = label_list(g2, c);
    assert forall|v: Seq<char>| label_count(s1, v) == label_count(s2, v) by {
        lemma_label_counts_permute(g1, g2, c, v);
    }
    if s1.len() > 0 {
        lemma_count_positive(s1, 0);
        lemma_count_witness(s2, s1[0]@);
    }
    if s2.len() > 0 {
        lemma_count_positive(s2, 0);
        lemma_count_witness(s1, s2[0]@);
    }
    if r1 is Some && r2 is Some {
        let m1 = r1->0;
        let m2 = r2->0;
        let i1 = choose|i: int| 0 <= i < s1.len() && s1[i] == m1;
        let i2 = choose|i: int| 0 <= i < s2.len() && s2[i] == m2;
        lemma_count_positive(s1, i1);
        lemma_count_positive(s2, i2);
        lemma_count_witness(s2, m1@);
        lemma_count_witness(s1, m2@);
        let k2 = choose|i: int| 0 <= i < s2.len() && (#[trigger] s2[i])@ == m1@;
        let k1 = choose|i: int| 0 <= i < s1.len() && (#[trigger] s1[i])@ == m2@;
        assert(ranks_at_least(label_count(s2, m2@), m2@, label_count(s2, s2[k2]@), s2[k2]@));
        assert(ranks_at_least(label_count(s1, m1@), m1@, label_count(s1, s1[k1]@), s1[k1]@));
        lemma_chars_lt_trichotomy(m1@, m2@);
    }
}

/// Two aggregate rows agree on everything they compute from their runs: the
/// run count, every mean, least and greatest value and spread, every modal
/// label, the passed equivalence checks and acceptance.
pub open spec fn rows_agree(a: ExperimentAggregateSummary, b: ExperimentAggregateSummary) -> bool {
    &&& a.run_count == b.run_count
    &&& a.acceptable == b.acceptable
    &&& a.equivalence_pass_count == b.equivalence_pass_count
    &&& a.activation_success_permille_mean == b.activation_success_permille_mean
    &&& a.route_present_permille_mean == b.route_present_permille_mean
    &&& a.route_present_total_window_permille_mean == b.route_present_total_window_permille_mean
    &&& a.objective_route_presence_min_permille_mean == b.objective_route_presence_min_permille_mean
    &&& a.objective_route_presence_max_permille_mean == b.objective_route_presence_max_permille_mean
    &&& a.objective_route_presence_spread_mean == b.objective_route_presence_spread_mean
    &&& a.objective_starvation_count_mean == b.objective_starvation_count_mean
    &&& a.concurrent_route_round_count_mean == b.concurrent_route_round_count_mean
    &&& a.recovery_success_permille_mean == b.recovery_success_permille_mean
    &&& a.unrecovered_after_loss_count_mean == b.unrecovered_after_loss_count_mean
    &&& a.route_churn_count_mean == b.route_churn_count_mean
    &&& a.engine_handoff_count_mean == b.engine_handoff_count_mean
    &&& a.route_observation_count_mean == b.route_observation_count_mean
    &&& a.batman_bellman_selected_rounds_mean == b.batman_bellman_selected_rounds_mean
    &&& a.batman_classic_selected_rounds_mean == b.batman_classic_selected_rounds_mean
    &&& a.babel_selected_rounds_mean == b.babel_selected_rounds_mean
    &&& a.olsrv2_selected_rounds_mean == b.olsrv2_selected_rounds_mean
    &&& a.pathway_selected_rounds_mean == b.pathway_selected_rounds_mean
    &&& a.scatter_selected_rounds_mean == b.scatter_selected_rounds_mean
    &&& a.scatter_sparse_rounds_mean == b.scatter_sparse_rounds_mean
    &&& a.scatter_dense_rounds_mean == b.scatter_dense_rounds_mean
    &&& a.scatter_bridging_rounds_mean == b.scatter_bridging_rounds_mean
    &&& a.scatter_constrained_rounds_mean == b.scatter_constrained_rounds_mean
    &&& a.scatter_replicate_rounds_mean == b.scatter_replicate_rounds_mean
    &&& a.scatter_handoff_rounds_mean == b.scatter_handoff_rounds_mean
    &&& a.field_selected_rounds_mean == b.field_selected_rounds_mean
    &&& a.field_selected_result_rounds_mean == b.field_selected_result_rounds_mean
    &&& a.field_search_reconfiguration_rounds_mean == b.field_search_reconfiguration_rounds_mean
    &&& a.field_bootstrap_active_rounds_mean == b.field_bootstrap_active_rounds_mean
    &&& a.field_bootstrap_activation_permille_mean == b.field_bootstrap_activation_permille_mean
    &&& a.field_bootstrap_hold_permille_mean == b.field_bootstrap_hold_permille_mean
    &&& a.field_bootstrap_narrow_permille_mean == b.field_bootstrap_narrow_permille_mean
    &&& a.field_bootstrap_upgrade_permille_mean == b.field_bootstrap_upgrade_permille_mean
    &&& a.field_bootstrap_withdraw_permille_mean == b.field_bootstrap_withdraw_permille_mean
    &&& a.field_degraded_steady_entry_permille_mean == b.field_degraded_steady_entry_permille_mean
    &&& a.field_degraded_steady_recovery_permille_mean == b.field_degraded_steady_recovery_permille_mean
    &&& a.field_degraded_to_bootstrap_permille_mean == b.field_degraded_to_bootstrap_permille_mean
    &&& a.field_degraded_steady_round_permille_mean == b.field_degraded_steady_round_permille_mean
    &&& a.field_service_retention_carry_forward_permille_mean == b.field_service_retention_carry_forward_permille_mean
    &&& a.field_asymmetric_shift_success_permille_mean == b.field_asymmetric_shift_success_permille_mean
    &&& a.field_protocol_reconfiguration_count_mean == b.field_protocol_reconfiguration_count_mean
    &&& a.field_route_bound_reconfiguration_count_mean == b.field_route_bound_reconfiguration_count_mean
    &&& a.field_continuation_shift_count_mean == b.field_continuation_shift_count_mean
    &&& a.field_corridor_narrow_count_mean == b.field_corridor_narrow_count_mean
    &&& a.field_checkpoint_restore_count_mean == b.field_checkpoint_restore_count_mean
    &&& a.stability_total_mean == b.stability_total_mean
    &&& a.maintenance_failure_count_mean == b.maintenance_failure_count_mean
    &&& a.failure_summary_count_mean == b.failure_summary_count_mean
    &&& a.no_candidate_count_mean == b.no_candidate_count_mean
    &&& a.inadmissible_candidate_count_mean == b.inadmissible_candidate_count_mean
    &&& a.lost_reachability_count_mean == b.lost_reachability_count_mean
    &&& a.replacement_loop_count_mean == b.replacement_loop_count_mean
    &&& a.activation_attempt_failure_count_mean == b.activation_attempt_failure_count_mean
    &&& a.activation_failure_count_mean == b.activation_failure_count_mean
    &&& a.persistent_degraded_count_mean == b.persistent_degraded_count_mean
    &&& a.other_failure_count_mean == b.other_failure_count_mean
    &&& a.cascade_partition_count_mean == b.cascade_partition_count_mean
    &&& a.intrinsic_limit_count_mean == b.intrinsic_limit_count_mean
    &&& a.model_artifact_count_mean == b.model_artifact_count_mean
    &&& a.first_materialization_round_mean == b.first_materialization_round_mean
    &&& a.first_disruption_round_mean == b.first_disruption_round_mean
    &&& a.first_loss_round_mean == b.first_loss_round_mean
    &&& a.stale_persistence_round_mean == b.stale_persistence_round_mean
    &&& a.recovery_round_mean == b.recovery_round_mean
    &&& a.broker_participation_permille_mean == b.broker_participation_permille_mean
    &&& a.broker_concentration_permille_mean == b.broker_concentration_permille_mean
    &&& a.broker_route_churn_count_mean == b.broker_route_churn_count_mean
    &&& a.active_route_hop_count_mean == b.active_route_hop_count_mean
    &&& a.scatter_retained_message_peak_mean == b.scatter_retained_message_peak_mean
    &&& a.scatter_delivered_message_peak_mean == b.scatter_delivered_message_peak_mean
    &&& a.stability_first_mean == b.stability_first_mean
    &&& a.stability_last_mean == b.stability_last_mean
    &&& a.stability_median_mean == b.stability_median_mean
    &&& a.activation_success_permille_min == b.activation_success_permille_min
    &&& a.activation_success_permille_max == b.activation_success_permille_max
    &&& a.activation_success_permille_spread == b.activation_success_permille_spread
    &&& a.route_present_permille_min == b.route_present_permille_min
    &&& a.route_present_permille_max == b.route_present_permille_max
    &&& a.route_present_permille_spread == b.route_present_permille_spread
    &&& opt_chars(a.dominant_engine) == opt_chars(b.dominant_engine)
    &&& opt_chars(a.field_continuity_band_mode) == opt_chars(b.field_continuity_band_mode)
    &&& opt_chars(a.field_commitment_resolution_mode) == opt_chars(b.field_commitment_resolution_mode)
    &&& opt_chars(a.field_last_outcome_mode) == opt_chars(b.field_last_outcome_mode)
    &&& opt_chars(a.field_last_continuity_transition_mode) == opt_chars(b.field_last_continuity_transition_mode)
    &&& opt_chars(a.field_last_promotion_decision_mode) == opt_chars(b.field_last_promotion_decision_mode)
    &&& opt_chars(a.field_last_promotion_blocker_mode) == opt_chars(b.field_last_promotion_blocker_mode)
}

/// Law: aggregating does not depend on the order of the runs. For two
/// orderings of the same runs, the rows with the same key average the same
/// runs: their run counts agree, and so do the mean, the least and greatest
/// value and the spread of every counter, the mean of every optional
/// measure, every modal label (the dominant engine among them), the number of
/// passed equivalence checks, and whether the row is acceptable.
#[verifier::rlimit(40)]
pub proof fn lemma_aggregate_order_independent(
    runs: Seq<ExperimentRunSummary>,
    runs2: Seq<ExperimentRunSummary>,
    a: ExperimentAggregateSummary,
    b: ExperimentAggregateSummary,
)
    requires
        runs.len() <= usize::MAX,
        runs2.to_multiset() == runs.to_multiset(),
        aggregate_key(a) == aggregate_key(b),
        aggregate_matches(a, runs_with_key(runs, aggregate_key(a))),
        aggregate_matches(b, runs_with_key(runs2, aggregate_key(b))),
    ensures
        forall|c: RunCounter|
            #[trigger] mean_u32(counter_series(runs_with_key(runs, aggregate_key(a)), c)) == mean_u32(
                counter_series(runs_with_key(runs2, aggregate_key(b)), c),
            ),
        forall|c: RunCounter|
            #[trigger] min_max_spread(counter_series(runs_with_key(runs, aggregate_key(a)), c)) == min_max_spread(
                counter_series(runs_with_key(runs2, aggregate_key(b)), c),
            ),
        forall|c: RunMeasure|
            #[trigger] mean_option_u32(measure_series(runs_with_key(runs, aggregate_key(a)), c)) == mean_option_u32(
                measure_series(runs_with_key(runs2, aggregate_key(b)), c),
            ),
        rows_agree(a, b),
{
    let k = aggregate_key(a);
    lemma_groups_permute(runs, runs2, k);
    lemma_counter_means_permute(runs_with_key(runs, k), runs_with_key(runs2, k));
    lemma_counter_extremes_permute(runs_with_key(runs, k), runs_with_key(runs2, k));
    lemma_passes_permute(runs_with_key(runs, k), runs_with_key(runs2, k));
    let g1 = runs_with_key(runs, k);
    let g2 = runs_with_key(runs2, k);
    lemma_mode_permutes(g1, g2, RunLabel::DominantEngine, a.dominant_engine, b.dominant_engine);
    lemma_mode_permutes(g1, g2, RunLabel::FieldContinuityBand, a.field_continuity_band_mode, b.field_continuity_band_mode);
    lemma_mode_permutes(g1, g2, RunLabel::FieldCommitmentResolution, a.field_commitment_resolution_mode, b.field_commitment_resolution_mode);
    lemma_mode_permutes(g1, g2, RunLabel::FieldLastOutcome, a.field_last_outcome_mode, b.field_last_outcome_mode);
    lemma_mode_permutes(g1, g2, RunLabel::FieldLastContinuityTransition, a.field_last_continuity_transition_mode, b.field_last_continuity_transition_mode);
    lemma_mode_permutes(g1, g2, RunLabel::FieldLastPromotionDecision, a.field_last_promotion_decision_mode, b.field_last_promotion_decision_mode);
    lemma_mode_permutes(g1, g2, RunLabel::FieldLastPromotionBlocker, a.field_last_promotion_blocker_mode, b.field_last_promotion_blocker_mode);
    assert forall|c: RunMeasure|
        #[trigger] mean_option_u32(measure_series(runs_with_key(runs, k), c)) == mean_option_u32(
            measure_series(runs_with_key(runs2, k), c),
        ) by {
        lemma_measure_permutes(runs_with_key(runs, k), runs_with_key(runs2, k), c);
    }
    assert(min_max_spread(counter_series(runs_with_key(runs, k), RunCounter::ActivationSuccessPermille)) == min_max_spread(
        counter_series(runs_with_key(runs2, k), RunCounter::ActivationSuccessPermille),
    ));
    assert(mean_u32(counter_series(runs_with_key(runs, k), RunCounter::RoutePresentTotalWindowPermille)) == mean_u32(
        counter_series(runs_with_key(runs2, k), RunCounter::RoutePresentTotalWindowPermille),
    ));
    assert(mean_u32(counter_series(runs_with_key(runs, k), RunCounter::LostReachabilityCount)) == mean_u32(
        counter_series(runs_with_key(runs2, k), RunCounter::LostReachabilityCount),
    ));
    assert(mean_u32(counter_series(runs_with_key(runs, k), RunCounter::MaintenanceFailureCount)) == mean_u32(
        counter_series(runs_with_key(runs2, k), RunCounter::MaintenanceFailureCount),
    ));
    assert(mean_u32(counter_series(runs_with_key(runs, k), RunCounter::ActivationSuccessPermille)) == mean_u32(
        counter_series(runs_with_key(runs2, k), RunCounter::ActivationSuccessPermille),
    ));
    assert(mean_u32(counter_series(runs_with_key(runs, k), RunCounter::RoutePresentPermille)) == mean_u32(
        counter_series(runs_with_key(runs2, k), RunCounter::RoutePresentPermille),
    ));
}


/// The keys of the rows, in order.
pub open spec fn row_keys(aggs: Seq<ExperimentAggregateSummary>) -> Seq<RunKey> {
    aggs.map_values(|a: ExperimentAggregateSummary| aggregate_key(a))
}

/// Two strictly ascending key lists with the same keys are the same list.
proof fn lemma_sorted_keys_equal(a: Seq<RunKey>, b: Seq<RunKey>)
    requires
        forall|g: int, h: int| 0 <= g < h < a.len() ==> key_lt(#[trigger] a[g], #[trigger] a[h]),
        forall|g: int, h: int| 0 <= g < h < b.len() ==> key_lt(#[trigger] b[g], #[trigger] b[h]),
        forall|g: int| 0 <= g < a.len() ==> b.contains(#[trigger] a[g]),
        forall|h: int| 0 <= h < b.len() ==> a.contains(#[trigger] b[h]),
    ensures
        a == b,
    decreases a.len(),
{
    if a.len() == 0 {
        if b.len() > 0 {
            assert(a.contains(b[0]));
        }
        assert(a =~= b);
    } else if b.len() == 0 {
        assert(b.contains(a[0]));
    } else {
        assert(b.contains(a[0]));
        assert(a.contains(b[0]));
        let j = choose|j: int| 0 <= j < b.len() && b[j] == a[0];
        let i = choose|i: int| 0 <= i < a.len() && a[i] == b[0];
        if i > 0 && j > 0 {
            assert(key_lt(a[0], a[i]));
            assert(key_lt(b[0], b[j]));
            lemma_key_lt_trichotomy(a[0], b[0]);
        }
        if i == 0 {
            assert(a[0] == b[0]);
        } else {
            assert(j == 0);
        }
        let ta = a.drop_first();
        let tb = b.drop_first();
        assert forall|g: int| 0 <= g < ta.len() implies tb.contains(#[trigger] ta[g]) by {
            assert(ta[g] == a[g + 1]);
            assert(b.contains(a[g + 1]));
            let m = choose|m: int| 0 <= m < b.len() && b[m] == a[g + 1];
            assert(key_lt(a[0], a[g + 1]));
            lemma_key_lt_trichotomy(a[0], a[0]);
            if m == 0 {
                assert(b[0] == a[0]);
            }
            assert(tb[m - 1] == b[m]);
        }
        assert forall|h: int| 0 <= h < tb.len() implies ta.contains(#[trigger] tb[h]) by {
            assert(tb[h] == b[h + 1]);
            assert(a.contains(b[h + 1]));
            let m = choose|m: int| 0 <= m < a.len() && a[m] == b[h + 1];
            assert(key_lt(b[0], b[h + 1]));
            lemma_key_lt_trichotomy(b[0], b[0]);
            if m == 0 {
                assert(a[0] == b[0]);
            }
            assert(ta[m - 1] == a[m]);
        }
        assert forall|g: int, h: int| 0 <= g < h < ta.len() implies key_lt(#[trigger] ta[g], #[trigger] ta[h]) by {
            assert(ta[g] == a[g + 1] && ta[h] == a[h + 1]);
        }
        assert forall|g: int, h: int| 0 <= g < h < tb.len() implies key_lt(#[trigger] tb[g], #[trigger] tb[h]) by {
            assert(tb[g] == b[g + 1] && tb[h] == b[h + 1]);
        }
        lemma_sorted_keys_equal(ta, tb);
        assert(a =~= seq![a[0]] + ta);
        assert(b =~= seq![b[0]] + tb);
    }
}

/// Each row's key is the key of some run of `runs2`, and so has a row among `aggs2`.
proof fn lemma_row_key_shared(
    runs: Seq<ExperimentRunSummary>,
    runs2: Seq<ExperimentRunSummary>,
    aggs: Seq<ExperimentAggregateSummary>,
    aggs2: Seq<ExperimentAggregateSummary>,
    g: int,
)
    requires
        runs.len() <= usize::MAX,
        runs2.to_multiset() == runs.to_multiset(),
        aggregated(runs, aggs),
        aggregated(runs2, aggs2),
        0 <= g < aggs.len(),
    ensures
        row_keys(aggs2).contains(aggregate_key(aggs[g])),
{
    let k = aggregate_key(aggs[g]);
    let grp = runs_with_key(runs, k);
    assert(runs_with_key(runs, aggregate_key(aggs[g])).len() > 0);
    let x = grp[0];
    assert(grp.contains(x));
    assert(grp.to_multiset().count(x) > 0);
    lemma_group_counts(runs, k, runs.len() as int, x);
    assert(runs.take(runs.len() as int) =~= runs);
    assert(run_key(x) == k);
    assert(runs.to_multiset().count(x) > 0);
    assert(runs2.contains(x));
    let i = choose|i: int| 0 <= i < runs2.len() && runs2[i] == x;
    assert(has_aggregate_for(aggs2, run_key(runs2[i])));
    let h = choose|h: int| 0 <= h < aggs2.len() && aggregate_key(#[trigger] aggs2[h]) == k;
    assert(row_keys(aggs2)[h] == k);
}

/// Law: the aggregate rows of two orderings of the same runs line up: there
/// are as many, the rows at each index have the same key, and they agree on
/// everything computed from their runs.
pub proof fn lemma_aggregates_align(
    runs: Seq<ExperimentRunSummary>,
    runs2: Seq<ExperimentRunSummary>,
    aggs: Seq<ExperimentAggregateSummary>,
    aggs2: Seq<ExperimentAggregateSummary>,
)
    requires
        runs.len() <= usize::MAX,
        runs2.to_multiset() == runs.to_multiset(),
        aggregated(runs, aggs),
        aggregated(runs2, aggs2),
    ensures
        aggs.len() == aggs2.len(),
        forall|g: int| 0 <= g < aggs.len() ==> aggregate_key(#[trigger] aggs[g]) == aggregate_key(aggs2[g]),
        forall|g: int| 0 <= g < aggs.len() ==> rows_agree(#[trigger] aggs[g], aggs2[g]),
{
    assert(runs.len() == runs.to_multiset().len());
    assert(runs2.len() == runs2.to_multiset().len());
    let ka = row_keys(aggs);
    let kb = row_keys(aggs2);
    assert forall|g: int| 0 <= g < ka.len() implies kb.contains(#[trigger] ka[g]) by {
        lemma_row_key_shared(runs, runs2, aggs, aggs2, g);
    }
    assert forall|h: int| 0 <= h < kb.len() implies ka.contains(#[trigger] kb[h]) by {
        lemma_row_key_shared(runs2, runs, aggs2, aggs, h);
    }
    assert forall|g: int, h: int| 0 <= g < h < ka.len() implies key_lt(#[trigger] ka[g], #[trigger] ka[h]) by {
        assert(key_lt(aggregate_key(aggs[g]), aggregate_key(aggs[h])));
    }
    assert forall|g: int, h: int| 0 <= g < h < kb.len() implies key_lt(#[trigger] kb[g], #[trigger] kb[h]) by {
        assert(key_lt(aggregate_key(aggs2[g]), aggregate_key(aggs2[h])));
    }
    lemma_sorted_keys_equal(ka, kb);
    assert forall|g: int| 0 <= g < aggs.len() implies rows_agree(#[trigger] aggs[g], aggs2[g]) by {
        assert(ka[g] == kb[g]);
        lemma_aggregate_order_independent(runs, runs2, aggs[g], aggs2[g]);
    }
    assert forall|g: int| 0 <= g < aggs.len() implies aggregate_key(#[trigger] aggs[g]) == aggregate_key(aggs2[g]) by {
        assert(ka[g] == kb[g]);
    }
}

proof fn lemma_indices_bounded(runs: Seq<ExperimentRunSummary>, k: RunKey, i: int)
    requires
        0 <= i,
    ensures
        indices_with_key(runs, k, i).len() <= i,
    decreases i,
{
    if i > 0 {
        lemma_indices_bounded(runs, k, i - 1);
    }
}

/// Law: in every aggregate row, the least value of the activation share and
/// of the route presence is at most their mean, and the mean at most the
/// greatest value.
pub proof fn lemma_aggregate_rows_bounded(runs: Seq<ExperimentRunSummary>, aggs: Seq<ExperimentAggregateSummary>)
    requires
        runs.len() <= u32::MAX,
        aggregated(runs, aggs),
    ensures
        forall|g: int| 0 <= g < aggs.len() ==> {
            &&& (#[trigger] aggs[g]).activation_success_permille_min <= aggs[g].activation_success_permille_mean
            &&& aggs[g].activation_success_permille_mean <= aggs[g].activation_success_permille_max
            &&& aggs[g].route_present_permille_min <= aggs[g].route_present_permille_mean
            &&& aggs[g].route_present_permille_mean <= aggs[g].route_present_permille_max
        },
{
    assert forall|g: int| 0 <= g < aggs.len() implies {
        &&& (#[trigger] aggs[g]).activation_success_permille_min <= aggs[g].activation_success_permille_mean
        &&& aggs[g].activation_success_permille_mean <= aggs[g].activation_success_permille_max
        &&& aggs[g].route_present_permille_min <= aggs[g].route_present_permille_mean
        &&& aggs[g].route_present_permille_mean <= aggs[g].route_present_permille_max
    } by {
        let k = aggregate_key(aggs[g]);
        let grp = runs_with_key(runs, k);
        lemma_indices_bounded(runs, k, runs.len() as int);
        assert(grp.len() > 0);
        let s1 = counter_series(grp, RunCounter::ActivationSuccessPermille);
        let s2 = counter_series(grp, RunCounter::RoutePresentPermille);
        lemma_mean_between_extremes(s1);
        lemma_mean_between_extremes(s2);
    }
}


/// The values of the present labels, in order.
pub open spec fn present_labels(s: Seq<Option<String>>) -> Seq<String>
    decreases s.len(),
{
    if s.len() == 0 {
        Seq::empty()
    } else {
        match s.last() {
            Some(x) => present_labels(s.drop_last()).push(x),
            None => present_labels(s.drop_last()),
        }
    }
}

/// What the aggregate row `a` reads from its runs `g`, field by field: the
/// run count, the mean of each counter and of each optional measure (over the
/// runs that have it), the extremes of the activation share and of the route
/// presence, the modal value of each label, the passed equivalence checks,
/// and acceptance from the means.
pub open spec fn row_reads(a: ExperimentAggregateSummary, g: Seq<ExperimentRunSummary>) -> bool {
    &&& a.run_count == clamp_u32(g.len() as int)
    &&& a.activation_success_permille_mean == mean_u32(g.map_values(|r: ExperimentRunSummary| r.activation_success_permille))
    &&& a.route_present_permille_mean == mean_u32(g.map_values(|r: ExperimentRunSummary| r.route_present_permille))
    &&& a.route_present_total_window_permille_mean == mean_u32(g.map_values(|r: ExperimentRunSummary| r.route_present_total_window_permille))
    &&& a.objective_route_presence_min_permille_mean == mean_u32(g.map_values(|r: ExperimentRunSummary| r.objective_route_presence_min_permille))
    &&& a.objective_route_presence_max_permille_mean == mean_u32(g.map_values(|r: ExperimentRunSummary| r.objective_route_presence_max_permille))
    &&& a.objective_route_presence_spread_mean == mean_u32(g.map_values(|r: ExperimentRunSummary| r.objective_route_presence_spread))
    &&& a.objective_starvation_count_mean == mean_u32(g.map_values(|r: ExperimentRunSummary| r.objective_starvation_count))
    &&& a.concurrent_route_round_count_mean == mean_u32(g.map_values(|r: ExperimentRunSummary| r.concurrent_route_round_count))
    &&& a.recovery_success_permille_mean == mean_u32(g.map_values(|r: ExperimentRunSummary| r.recovery_success_permille))
    &&& a.unrecovered_after_loss_count_mean == mean_u32(g.map_values(|r: ExperimentRunSummary| r.unrecovered_after_loss_count))
    &&& a.route_churn_count_mean == mean_u32(g.map_values(|r: ExperimentRunSummary| r.route_churn_count))
    &&& a.engine_handoff_count_mean == mean_u32(g.map_values(|r: ExperimentRunSummary| r.engine_handoff_count))
    &&& a.route_observation_count_mean == mean_u32(g.map_values(|r: ExperimentRunSummary| r.route_observation_count))
    &&& a.batman_bellman_selected_rounds_mean == mean_u32(g.map_values(|r: ExperimentRunSummary| r.batman_bellman_selected_rounds))
    &&& a.batman_classic_selected_rounds_mean == mean_u32(g.map_values(|r: ExperimentRunSummary| r.batman_classic_selected_rounds))
    &&& a.babel_selected_rounds_mean == mean_u32(g.map_values(|r: ExperimentRunSummary| r.babel_selected_rounds))
    &&& a.olsrv2_selected_rounds_mean == mean_u32(g.map_values(|r: ExperimentRunSummary| r.olsrv2_selected_rounds))
    &&& a.pathway_selected_rounds_mean == mean_u32(g.map_values(|r: ExperimentRunSummary| r.pathway_selected_rounds))
    &&& a.scatter_selected_rounds_mean == mean_u32(g.map_values(|r: ExperimentRunSummary| r.scatter_selected_rounds))
    &&& a.scatter_sparse_rounds_mean == mean_u32(g.map_values(|r: ExperimentRunSummary| r.scatter_sparse_rounds))
    &&& a.scatter_dense_rounds_mean == mean_u32(g.map_values(|r: ExperimentRunSummary| r.scatter_dense_rounds))
    &&& a.scatter_bridging_rounds_mean == mean_u32(g.map_values(|r: ExperimentRunSummary| r.scatter_bridging_rounds))
    &&& a.scatter_constrained_rounds_mean == mean_u32(g.map_values(|r: ExperimentRunSummary| r.scatter_constrained_rounds))
    &&& a.scatter_replicate_rounds_mean == mean_u32(g.map_values(|r: ExperimentRunSummary| r.scatter_replicate_rounds))
    &&& a.scatter_handoff_rounds_mean == mean_u32(g.map_values(|r: ExperimentRunSummary| r.scatter_handoff_rounds))
    &&& a.field_selected_rounds_mean == mean_u32(g.map_values(|r: ExperimentRunSummary| r.field_selected_rounds))
    &&& a.field_selected_result_rounds_mean == mean_u32(g.map_values(|r: ExperimentRunSummary| r.field_selected_result_rounds))
    &&& a.field_search_reconfiguration_rounds_mean == mean_u32(g.map_values(|r: ExperimentRunSummary| r.field_search_reconfiguration_rounds))
    &&& a.field_bootstrap_active_rounds_mean == mean_u32(g.map_values(|r: ExperimentRunSummary| r.field_bootstrap_active_rounds))
    &&& a.field_bootstrap_activation_permille_mean == mean_u32(g.map_values(|r: ExperimentRunSummary| r.field_bootstrap_activation_permille))
    &&& a.field_bootstrap_hold_permille_mean == mean_u32(g.map_values(|r: ExperimentRunSummary| r.field_bootstrap_hold_permille))
    &&& a.field_bootstrap_narrow_permille_mean == mean_u32(g.map_values(|r: ExperimentRunSummary| r.field_bootstrap_narrow_permille))
    &&& a.field_bootstrap_upgrade_permille_mean == mean_u32(g.map_values(|r: ExperimentRunSummary| r.field_bootstrap_upgrade_permille))
    &&& a.field_bootstrap_withdraw_permille_mean == mean_u32(g.map_values(|r: ExperimentRunSummary| r.field_bootstrap_withdraw_permille))
    &&& a.field_degraded_steady_entry_permille_mean == mean_u32(g.map_values(|r: ExperimentRunSummary| r.field_degraded_steady_entry_permille))
    &&& a.field_degraded_steady_recovery_permille_mean == mean_u32(g.map_values(|r: ExperimentRunSummary| r.field_degraded_steady_recovery_permille))
    &&& a.field_degraded_to_bootstrap_permille_mean == mean_u32(g.map_values(|r: ExperimentRunSummary| r.field_degraded_to_bootstrap_permille))
    &&& a.field_degraded_steady_round_permille_mean == mean_u32(g.map_values(|r: ExperimentRunSummary| r.field_degraded_steady_round_permille))
    &&& a.field_service_retention_carry_forward_permille_mean == mean_u32(g.map_values(|r: ExperimentRunSummary| r.field_service_retention_carry_forward_permille))
    &&& a.field_asymmetric_shift_success_permille_mean == mean_u32(g.map_values(|r: ExperimentRunSummary| r.field_asymmetric_shift_success_permille))
    &&& a.field_protocol_reconfiguration_count_mean == mean_u32(g.map_values(|r: ExperimentRunSummary| r.field_protocol_reconfiguration_count))
    &&& a.field_route_bound_reconfiguration_count_mean == mean_u32(g.map_values(|r: ExperimentRunSummary| r.field_route_bound_reconfiguration_count))
    &&& a.field_continuation_shift_count_mean == mean_u32(g.map_values(|r: ExperimentRunSummary| r.field_continuation_shift_count))
    &&& a.field_corridor_narrow_count_mean == mean_u32(g.map_values(|r: ExperimentRunSummary| r.field_corridor_narrow_count))
    &&& a.field_checkpoint_restore_count_mean == mean_u32(g.map_values(|r: ExperimentRunSummary| r.field_checkpoint_restore_count))
    &&& a.stability_total_mean == mean_u32(g.map_values(|r: ExperimentRunSummary| r.stability_total))
    &&& a.maintenance_failure_count_mean == mean_u32(g.map_values(|r: ExperimentRunSummary| r.maintenance_failure_count))
    &&& a.failure_summary_count_mean == mean_u32(g.map_values(|r: ExperimentRunSummary| r.failure_summary_count))
    &&& a.no_candidate_count_mean == mean_u32(g.map_values(|r: ExperimentRunSummary| r.no_candidate_count))
    &&& a.inadmissible_candidate_count_mean == mean_u32(g.map_values(|r: ExperimentRunSummary| r.inadmissible_candidate_count))
    &&& a.lost_reachability_count_mean == mean_u32(g.map_values(|r: ExperimentRunSummary| r.lost_reachability_count))
    &&& a.replacement_loop_count_mean == mean_u32(g.map_values(|r: ExperimentRunSummary| r.replacement_loop_count))
    &&& a.activation_attempt_failure_count_mean == mean_u32(g.map_values(|r: ExperimentRunSummary| r.activation_attempt_failure_count))
    &&& a.activation_failure_count_mean == mean_u32(g.map_values(|r: ExperimentRunSummary| r.activation_failure_count))
    &&& a.persistent_degraded_count_mean == mean_u32(g.map_values(|r: ExperimentRunSummary| r.persistent_degraded_count))
    &&& a.other_failure_count_mean == mean_u32(g.map_values(|r: ExperimentRunSummary| r.other_failure_count))
    &&& a.cascade_partition_count_mean == mean_u32(g.map_values(|r: ExperimentRunSummary| r.cascade_partition_count))
    &&& a.intrinsic_limit_count_mean == mean_u32(g.map_values(|r: ExperimentRunSummary| r.intrinsic_limit_count))
    &&& a.model_artifact_count_mean == mean_u32(g.map_values(|r: ExperimentRunSummary| r.model_artifact_count))
    &&& a.first_materialization_round_mean == mean_option_u32(g.map_values(|r: ExperimentRunSummary| r.first_materialization_round_mean))
    &&& a.first_disruption_round_mean == mean_option_u32(g.map_values(|r: ExperimentRunSummary| r.first_disruption_round_mean))
    &&& a.first_loss_round_mean == mean_option_u32(g.map_values(|r: ExperimentRunSummary| r.first_loss_round_mean))
    &&& a.stale_persistence_round_mean == mean_option_u32(g.map_values(|r: ExperimentRunSummary| r.stale_persistence_round_mean))
    &&& a.recovery_round_mean == mean_option_u32(g.map_values(|r: ExperimentRunSummary| r.recovery_round_mean))
    &&& a.broker_participation_permille_mean == mean_option_u32(g.map_values(|r: ExperimentRunSummary| r.broker_participation_permille))
    &&& a.broker_concentration_permille_mean == mean_option_u32(g.map_values(|r: ExperimentRunSummary| r.broker_concentration_permille))
    &&& a.broker_route_churn_count_mean == mean_option_u32(g.map_values(|r: ExperimentRunSummary| r.broker_route_churn_count))
    &&& a.active_route_hop_count_mean == mean_option_u32(g.map_values(|r: ExperimentRunSummary| r.active_route_hop_count_mean))
    &&& a.scatter_retained_message_peak_mean == mean_option_u32(g.map_values(|r: ExperimentRunSummary| r.scatter_retained_message_peak))
    &&& a.scatter_delivered_message_peak_mean == mean_option_u32(g.map_values(|r: ExperimentRunSummary| r.scatter_delivered_message_peak))
    &&& a.stability_first_mean == mean_option_u32(g.map_values(|r: ExperimentRunSummary| r.stability_first))
    &&& a.stability_last_mean == mean_option_u32(g.map_values(|r: ExperimentRunSummary| r.stability_last))
    &&& a.stability_median_mean == mean_option_u32(g.map_values(|r: ExperimentRunSummary| r.stability_median))
    &&& (a.activation_success_permille_min, a.activation_success_permille_max, a.activation_success_permille_spread) == min_max_spread(g.map_values(|r: ExperimentRunSummary| r.activation_success_permille))
    &&& (a.route_present_permille_min, a.route_present_permille_max, a.route_present_permille_spread) == min_max_spread(g.map_values(|r: ExperimentRunSummary| r.route_present_permille))
    &&& is_mode(present_labels(g.map_values(|r: ExperimentRunSummary| r.dominant_engine)), a.dominant_engine)
    &&& is_mode(present_labels(g.map_values(|r: ExperimentRunSummary| r.field_continuity_band)), a.field_continuity_band_mode)
    &&& is_mode(present_labels(g.map_values(|r: ExperimentRunSummary| r.field_commitment_resolution)), a.field_commitment_resolution_mode)
    &&& is_mode(present_labels(g.map_values(|r: ExperimentRunSummary| r.field_last_outcome)), a.field_last_outcome_mode)
    &&& is_mode(present_labels(g.map_values(|r: ExperimentRunSummary| r.field_last_continuity_transition)), a.field_last_continuity_transition_mode)
    &&& is_mode(present_labels(g.map_values(|r: ExperimentRunSummary| r.field_last_promotion_decision)), a.field_last_promotion_decision_mode)
    &&& is_mode(present_labels(g.map_values(|r: ExperimentRunSummary| r.field_last_promotion_blocker)), a.field_last_promotion_blocker_mode)
    &&& a.equivalence_pass_count == clamp_u32(g.filter(|r: ExperimentRunSummary| r.equivalence_passed == Some(true)).len() as int)
    &&& a.acceptable == (a.activation_success_permille_mean >= 900 && a.route_present_total_window_permille_mean >= 500
        && a.lost_reachability_count_mean == 0 && a.maintenance_failure_count_mean == 0)
}

/// The run carries the configuration key of the row.
pub open spec fn same_configuration(x: ExperimentRunSummary, a: ExperimentAggregateSummary) -> bool {
    &&& x.engine_family@ == a.engine_family@
    &&& x.family_id@ == a.family_id@
    &&& x.execution_lane@ == a.execution_lane@
    &&& opt_chars(x.comparison_engine_set) == opt_chars(a.comparison_engine_set)
    &&& x.config_id@ == a.config_id@
}

proof fn lemma_label_list_present(g: Seq<ExperimentRunSummary>, c: RunLabel)
    ensures
        label_list(g, c) == present_labels(g.map_values(|r: ExperimentRunSummary| label_value(r, c))),
    decreases g.len(),
{
    if g.len() > 0 {
        lemma_label_list_present(g.drop_last(), c);
        assert(g.map_values(|r: ExperimentRunSummary| label_value(r, c)).drop_last() =~= g.drop_last().map_values(|r: ExperimentRunSummary| label_value(r, c)));
    }
}

proof fn lemma_passes_filter(g: Seq<ExperimentRunSummary>)
    ensures
        equivalence_passes(g) == g.filter(|r: ExperimentRunSummary| r.equivalence_passed == Some(true)).len(),
    decreases g.len(),
{
    reveal_with_fuel(Seq::filter, 1);
    if g.len() > 0 {
        lemma_passes_filter(g.drop_last());
    }
}

#[verifier::rlimit(60)]
proof fn lemma_row_reads(a: ExperimentAggregateSummary, g: Seq<ExperimentRunSummary>)
    requires
        g.len() > 0,
        aggregate_matches(a, g),
    ensures
        row_reads(a, g),
{
    assert(counter_series(g, RunCounter::ActivationSuccessPermille) =~= g.map_values(|r: ExperimentRunSummary| r.activation_success_permille));
    assert(counter_series(g, RunCounter::RoutePresentPermille) =~= g.map_values(|r: ExperimentRunSummary| r.route_present_permille));
    assert(counter_series(g, RunCounter::RoutePresentTotalWindowPermille) =~= g.map_values(|r: ExperimentRunSummary| r.route_present_total_window_permille));
    assert(counter_series(g, RunCounter::ObjectiveRoutePresenceMinPermille) =~= g.map_values(|r: ExperimentRunSummary| r.objective_route_presence_min_permille));
    assert(counter_series(g, RunCounter::ObjectiveRoutePresenceMaxPermille) =~= g.map_values(|r: ExperimentRunSummary| r.objective_route_presence_max_permille));
    assert(counter_series(g, RunCounter::ObjectiveRoutePresenceSpread) =~= g.map_values(|r: ExperimentRunSummary| r.objective_route_presence_spread));
    assert(counter_series(g, RunCounter::ObjectiveStarvationCount) =~= g.map_values(|r: ExperimentRunSummary| r.objective_starvation_count));
    assert(counter_series(g, RunCounter::ConcurrentRouteRoundCount) =~= g.map_values(|r: ExperimentRunSummary| r.concurrent_route_round_count));
    assert(counter_series(g, RunCounter::RecoverySuccessPermille) =~= g.map_values(|r: ExperimentRunSummary| r.recovery_success_permille));
    assert(counter_series(g, RunCounter::UnrecoveredAfterLossCount) =~= g.map_values(|r: ExperimentRunSummary| r.unrecovered_after_loss_count));
    assert(counter_series(g, RunCounter::RouteChurnCount) =~= g.map_values(|r: ExperimentRunSummary| r.route_churn_count));
    assert(counter_series(g, RunCounter::EngineHandoffCount) =~= g.map_values(|r: ExperimentRunSummary| r.engine_handoff_count));
    assert(counter_series(g, RunCounter::RouteObservationCount) =~= g.map_values(|r: ExperimentRunSummary| r.route_observation_count));
    assert(counter_series(g, RunCounter::BatmanBellmanSelectedRounds) =~= g.map_values(|r: ExperimentRunSummary| r.batman_bellman_selected_rounds));
    assert(counter_series(g, RunCounter::BatmanClassicSelectedRounds) =~= g.map_values(|r: ExperimentRunSummary| r.batman_classic_selected_rounds));
    assert(counter_series(g, RunCounter::BabelSelectedRounds) =~= g.map_values(|r: ExperimentRunSummary| r.babel_selected_rounds));
    assert(counter_series(g, RunCounter::Olsrv2SelectedRounds) =~= g.map_values(|r: ExperimentRunSummary| r.olsrv2_selected_rounds));
    assert(counter_series(g, RunCounter::PathwaySelectedRounds) =~= g.map_values(|r: ExperimentRunSummary| r.pathway_selected_rounds));
    assert(counter_series(g, RunCounter::ScatterSelectedRounds) =~= g.map_values(|r: ExperimentRunSummary| r.scatter_selected_rounds));
    assert(counter_series(g, RunCounter::ScatterSparseRounds) =~= g.map_values(|r: ExperimentRunSummary| r.scatter_sparse_rounds));
    assert(counter_series(g, RunCounter::ScatterDenseRounds) =~= g.map_values(|r: ExperimentRunSummary| r.scatter_dense_rounds));
    assert(counter_series(g, RunCounter::ScatterBridgingRounds) =~= g.map_values(|r: ExperimentRunSummary| r.scatter_bridging_rounds));
    assert(counter_series(g, RunCounter::ScatterConstrainedRounds) =~= g.map_values(|r: ExperimentRunSummary| r.scatter_constrained_rounds));
    assert(counter_series(g, RunCounter::ScatterReplicateRounds) =~= g.map_values(|r: ExperimentRunSummary| r.scatter_replicate_rounds));
    assert(counter_series(g, RunCounter::ScatterHandoffRounds) =~= g.map_values(|r: ExperimentRunSummary| r.scatter_handoff_rounds));
    assert(counter_series(g, RunCounter::FieldSelectedRounds) =~= g.map_values(|r: ExperimentRunSummary| r.field_selected_rounds));
    assert(counter_series(g, RunCounter::FieldSelectedResultRounds) =~= g.map_values(|r: ExperimentRunSummary| r.field_selected_result_rounds));
    assert(counter_series(g, RunCounter::FieldSearchReconfigurationRounds) =~= g.map_values(|r: ExperimentRunSummary| r.field_search_reconfiguration_rounds));
    assert(counter_series(g, RunCounter::FieldBootstrapActiveRounds) =~= g.map_values(|r: ExperimentRunSummary| r.field_bootstrap_active_rounds));
    assert(counter_series(g, RunCounter::FieldBootstrapActivationPermille) =~= g.map_values(|r: ExperimentRunSummary| r.field_bootstrap_activation_permille));
    assert(counter_series(g, RunCounter::FieldBootstrapHoldPermille) =~= g.map_values(|r: ExperimentRunSummary| r.field_bootstrap_hold_permille));
    assert(counter_series(g, RunCounter::FieldBootstrapNarrowPermille) =~= g.map_values(|r: ExperimentRunSummary| r.field_bootstrap_narrow_permille));
    assert(counter_series(g, RunCounter::FieldBootstrapUpgradePermille) =~= g.map_values(|r: ExperimentRunSummary| r.field_bootstrap_upgrade_permille));
    assert(counter_series(g, RunCounter::FieldBootstrapWithdrawPermille) =~= g.map_values(|r: ExperimentRunSummary| r.field_bootstrap_withdraw_permille));
    assert(counter_series(g, RunCounter::FieldDegradedSteadyEntryPermille) =~= g.map_values(|r: ExperimentRunSummary| r.field_degraded_steady_entry_permille));
    assert(counter_series(g, RunCounter::FieldDegradedSteadyRecoveryPermille) =~= g.map_values(|r: ExperimentRunSummary| r.field_degraded_steady_recovery_permille));
    assert(counter_series(g, RunCounter::FieldDegradedToBootstrapPermille) =~= g.map_values(|r: ExperimentRunSummary| r.field_degraded_to_bootstrap_permille));
    assert(counter_series(g, RunCounter::FieldDegradedSteadyRoundPermille) =~= g.map_values(|r: ExperimentRunSummary| r.field_degraded_steady_round_permille));
    assert(counter_series(g, RunCounter::FieldServiceRetentionCarryForwardPermille) =~= g.map_values(|r: ExperimentRunSummary| r.field_service_retention_carry_forward_permille));
    assert(counter_series(g, RunCounter::FieldAsymmetricShiftSuccessPermille) =~= g.map_values(|r: ExperimentRunSummary| r.field_asymmetric_shift_success_permille));
    assert(counter_series(g, RunCounter::FieldProtocolReconfigurationCount) =~= g.map_values(|r: ExperimentRunSummary| r.field_protocol_reconfiguration_count));
    assert(counter_series(g, RunCounter::FieldRouteBoundReconfigurationCount) =~= g.map_values(|r: ExperimentRunSummary| r.field_route_bound_reconfiguration_count));
    assert(counter_series(g, RunCounter::FieldContinuationShiftCount) =~= g.map_values(|r: ExperimentRunSummary| r.field_continuation_shift_count));
    assert(counter_series(g, RunCounter::FieldCorridorNarrowCount) =~= g.map_values(|r: ExperimentRunSummary| r.field_corridor_narrow_count));
    assert(counter_series(g, RunCounter::FieldCheckpointRestoreCount) =~= g.map_values(|r: ExperimentRunSummary| r.field_checkpoint_restore_count));
    assert(counter_series(g, RunCounter::StabilityTotal) =~= g.map_values(|r: ExperimentRunSummary| r.stability_total));
    assert(counter_series(g, RunCounter::MaintenanceFailureCount) =~= g.map_values(|r: ExperimentRunSummary| r.maintenance_failure_count));
    assert(counter_series(g, RunCounter::FailureSummaryCount) =~= g.map_values(|r: ExperimentRunSummary| r.failure_summary_count));
    assert(counter_series(g, RunCounter::NoCandidateCount) =~= g.map_values(|r: ExperimentRunSummary| r.no_candidate_count));
    assert(counter_series(g, RunCounter::InadmissibleCandidateCount) =~= g.map_values(|r: ExperimentRunSummary| r.inadmissible_candidate_count));
    assert(counter_series(g, RunCounter::LostReachabilityCount) =~= g.map_values(|r: ExperimentRunSummary| r.lost_reachability_count));
    assert(counter_series(g, RunCounter::ReplacementLoopCount) =~= g.map_values(|r: ExperimentRunSummary| r.replacement_loop_count));
    assert(counter_series(g, RunCounter::ActivationAttemptFailureCount) =~= g.map_values(|r: ExperimentRunSummary| r.activation_attempt_failure_count));
    assert(counter_series(g, RunCounter::ActivationFailureCount) =~= g.map_values(|r: ExperimentRunSummary| r.activation_failure_count));
    assert(counter_series(g, RunCounter::PersistentDegradedCount) =~= g.map_values(|r: ExperimentRunSummary| r.persistent_degraded_count));
    assert(counter_series(g, RunCounter::OtherFailureCount) =~= g.map_values(|r: ExperimentRunSummary| r.other_failure_count));
    assert(counter_series(g, RunCounter::CascadePartitionCount) =~= g.map_values(|r: ExperimentRunSummary| r.cascade_partition_count));
    assert(counter_series(g, RunCounter::IntrinsicLimitCount) =~= g.map_values(|r: ExperimentRunSummary| r.intrinsic_limit_count));
    assert(counter_series(g, RunCounter::ModelArtifactCount) =~= g.map_values(|r: ExperimentRunSummary| r.model_artifact_count));
    assert(measure_series(g, RunMeasure::FirstMaterializationRoundMean) =~= g.map_values(|r: ExperimentRunSummary| r.first_materialization_round_mean));
    assert(measure_series(g, RunMeasure::FirstDisruptionRoundMean) =~= g.map_values(|r: ExperimentRunSummary| r.first_disruption_round_mean));
    assert(measure_series(g, RunMeasure::FirstLossRoundMean) =~= g.map_values(|r: ExperimentRunSummary| r.first_loss_round_mean));
    assert(measure_series(g, RunMeasure::StalePersistenceRoundMean) =~= g.map_values(|r: ExperimentRunSummary| r.stale_persistence_round_mean));
    assert(measure_series(g, RunMeasure::RecoveryRoundMean) =~= g.map_values(|r: ExperimentRunSummary| r.recovery_round_mean));
    assert(measure_series(g, RunMeasure::BrokerParticipationPermille) =~= g.map_values(|r: ExperimentRunSummary| r.broker_participation_permille));
    assert(measure_series(g, RunMeasure::BrokerConcentrationPermille) =~= g.map_values(|r: ExperimentRunSummary| r.broker_concentration_permille));
    assert(measure_series(g, RunMeasure::BrokerRouteChurnCount) =~= g.map_values(|r: ExperimentRunSummary| r.broker_route_churn_count));
    assert(measure_series(g, RunMeasure::ActiveRouteHopCountMean) =~= g.map_values(|r: ExperimentRunSummary| r.active_route_hop_count_mean));
    assert(measure_series(g, RunMeasure::ScatterRetainedMessagePeak) =~= g.map_values(|r: ExperimentRunSummary| r.scatter_retained_message_peak));
    assert(measure_series(g, RunMeasure::ScatterDeliveredMessagePeak) =~= g.map_values(|r: ExperimentRunSummary| r.scatter_delivered_message_peak));
    assert(measure_series(g, RunMeasure::StabilityFirst) =~= g.map_values(|r: ExperimentRunSummary| r.stability_first));
    assert(measure_series(g, RunMeasure::StabilityLast) =~= g.map_values(|r: ExperimentRunSummary| r.stability_last));
    assert(measure_series(g, RunMeasure::StabilityMedian) =~= g.map_values(|r: ExperimentRunSummary| r.stability_median));
    lemma_label_list_present(g, RunLabel::DominantEngine);
    assert(g.map_values(|r: ExperimentRunSummary| label_value(r, RunLabel::DominantEngine)) =~= g.map_values(|r: ExperimentRunSummary| r.dominant_engine));
    lemma_label_list_present(g, RunLabel::FieldContinuityBand);
    assert(g.map_values(|r: ExperimentRunSummary| label_value(r, RunLabel::FieldContinuityBand)) =~= g.map_values(|r: ExperimentRunSummary| r.field_continuity_band));
    lemma_label_list_present(g, RunLabel::FieldCommitmentResolution);
    assert(g.map_values(|r: ExperimentRunSummary| label_value(r, RunLabel::FieldCommitmentResolution)) =~= g.map_values(|r: ExperimentRunSummary| r.field_commitment_resolution));
    lemma_label_list_present(g, RunLabel::FieldLastOutcome);
    assert(g.map_values(|r: ExperimentRunSummary| label_value(r, RunLabel::FieldLastOutcome)) =~= g.map_values(|r: ExperimentRunSummary| r.field_last_outcome));
    lemma_label_list_present(g, RunLabel::FieldLastContinuityTransition);
    assert(g.map_values(|r: ExperimentRunSummary| label_value(r, RunLabel::FieldLastContinuityTransition)) =~= g.map_values(|r: ExperimentRunSummary| r.field_last_continuity_transition));
    lemma_label_list_present(g, RunLabel::FieldLastPromotionDecision);
    assert(g.map_values(|r: ExperimentRunSummary| label_value(r, RunLabel::FieldLastPromotionDecision)) =~= g.map_values(|r: ExperimentRunSummary| r.field_last_promotion_decision));
    lemma_label_list_present(g, RunLabel::FieldLastPromotionBlocker);
    assert(g.map_values(|r: ExperimentRunSummary| label_value(r, RunLabel::FieldLastPromotionBlocker)) =~= g.map_values(|r: ExperimentRunSummary| r.field_last_promotion_blocker));
    lemma_passes_filter(g);
}

/// Law: each aggregate row averages exactly the runs of its configuration,
/// and reads each figure from the run field of the same name: the runs that
/// it averages are those of the input with its configuration key (as many
/// times as they occur), and each mean, extreme, modal label, count and the
/// acceptance are taken over those runs' fields.
pub proof fn lemma_aggregate_rows_read_runs(runs: Seq<ExperimentRunSummary>, aggs: Seq<ExperimentAggregateSummary>)
    requires
        runs.len() <= usize::MAX,
        aggregated(runs, aggs),
    ensures
        forall|k: int| 0 <= k < aggs.len() ==> {
            let g = runs_with_key(runs, aggregate_key(#[trigger] aggs[k]));
            &&& g.len() > 0
            &&& row_reads(aggs[k], g)
            &&& forall|x: ExperimentRunSummary| g.to_multiset().count(x) == if same_configuration(x, aggs[k]) {
                runs.to_multiset().count(x)
            } else {
                0
            }
        },
{
    assert forall|k: int| 0 <= k < aggs.len() implies {
        let g = runs_with_key(runs, aggregate_key(#[trigger] aggs[k]));
        &&& g.len() > 0
        &&& row_reads(aggs[k], g)
        &&& forall|x: ExperimentRunSummary| g.to_multiset().count(x) == if same_configuration(x, aggs[k]) {
            runs.to_multiset().count(x)
        } else {
            0
        }
    } by {
        let key = aggregate_key(aggs[k]);
        let g = runs_with_key(runs, key);
        lemma_row_reads(aggs[k], g);
        assert forall|x: ExperimentRunSummary| g.to_multiset().count(x) == if same_configuration(x, aggs[k]) {
            runs.to_multiset().count(x)
        } else {
            0
        } by {
            lemma_group_counts(runs, key, runs.len() as int, x);
            assert(runs.take(runs.len() as int) =~= runs);
        }
    }
}

} // verus!
