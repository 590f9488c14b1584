//! Breakdown rows: for each (engine family, execution lane, configuration),
//! how far up the stress scale the configuration stays acceptable and which
//! family first breaks it, and why.
use vstd::prelude::*;
use crate::params::opt_chars;
use crate::summary::ExperimentAggregateSummary;
use crate::text::{chars_lt, lemma_chars_lt_transitive, lemma_chars_lt_trichotomy, str_lt};

verus! {

/// The breakdown row of one (engine family, execution lane, configuration):
/// how far up the stress scale the configuration stays acceptable and where
/// it first fails.
#[derive(Clone, Debug)]
pub struct ExperimentBreakdownSummary {
    pub suite_id: String,
    pub engine_family: String,
    pub execution_lane: String,
    pub config_id: String,
    pub max_sustained_stress_score: u32,
    pub first_failed_family_id: Option<String>,
    pub first_failed_stress_score: Option<u32>,
    pub breakdown_reason: Option<String>,
}

/// The key that breakdowns group aggregates by.
pub type BreakdownKey = (Seq<char>, Seq<char>, Seq<char>);

pub open spec fn breakdown_key_of(a: ExperimentAggregateSummary) -> BreakdownKey {
    (a.engine_family@, a.execution_lane@, a.config_id@)
}

pub open spec fn breakdown_row_key(b: ExperimentBreakdownSummary) -> BreakdownKey {
    (b.engine_family@, b.execution_lane@, b.config_id@)
}

pub open spec fn breakdown_key_lt(a: BreakdownKey, b: BreakdownKey) -> bool {
    if a.0 != b.0 {
        chars_lt(a.0, b.0)
    } else if a.1 != b.1 {
        chars_lt(a.1, b.1)
    } else {
        chars_lt(a.2, b.2)
    }
}

/// Positions among the first `i` aggregates whose breakdown key is `k`, ascending.
pub open spec fn breakdown_indices(s: Seq<ExperimentAggregateSummary>, k: BreakdownKey, i: int) -> Seq<usize>
    decreases i,
{
    if i <= 0 {
        Seq::empty()
    } else {
        let rest = breakdown_indices(s, k, i - 1);
        if breakdown_key_of(s[i - 1]) == k { rest.push((i - 1) as usize) } else { rest }
    }
}

/// The aggregates at the given positions.
pub open spec fn member_aggregates(s: Seq<ExperimentAggregateSummary>, idx: Seq<usize>) -> Seq<ExperimentAggregateSummary> {
    idx.map_values(|j: usize| s[j as int])
}

/// The aggregates with breakdown key `k`, in input order.
pub open spec fn aggregates_with_key(s: Seq<ExperimentAggregateSummary>, k: BreakdownKey) -> Seq<ExperimentAggregateSummary> {
    member_aggregates(s, breakdown_indices(s, k, s.len() as int))
}

proof fn lemma_breakdown_indices(s: Seq<ExperimentAggregateSummary>, k: BreakdownKey, i: int)
    requires
        0 <= i <= s.len(),
        s.len() <= usize::MAX,
    ensures
        breakdown_indices(s, k, i).len() > 0 <==> exists|j: int| 0 <= j < i && breakdown_key_of(s[j]) == k,
        forall|m: int| 0 <= m < breakdown_indices(s, k, i).len() ==> #[trigger] breakdown_indices(s, k, i)[m] < i
            && breakdown_key_of(s[breakdown_indices(s, k, i)[m] as int]) == k,
    decreases i,
{
    if i > 0 {
        lemma_breakdown_indices(s, k, i - 1);
        let rest = breakdown_indices(s, k, i - 1);
        if breakdown_key_of(s[i - 1]) == k {
            assert(breakdown_indices(s, k, i) == rest.push((i - 1) as usize));
            assert forall|m: int| 0 <= m < breakdown_indices(s, k, i).len() implies #[trigger] breakdown_indices(s, k, i)[m] < i
                && breakdown_key_of(s[breakdown_indices(s, k, i)[m] as int]) == k by {
                if m < rest.len() {
                    assert(breakdown_indices(s, k, i)[m] == rest[m]);
                } else {
                    assert(((i - 1) as usize) as int == i - 1);
                }
            }
        } else {
            assert(breakdown_indices(s, k, i) == rest);
        }
        if exists|j: int| 0 <= j < i && breakdown_key_of(s[j]) == k {
            let j = choose|j: int| 0 <= j < i && breakdown_key_of(s[j]) == k;
            if j < i - 1 {
                assert(exists|jj: int| 0 <= jj < i - 1 && breakdown_key_of(s[jj]) == k);
            }
        }
    }
}

/// `a` comes no later than `b` in the (stress score, family) order.
pub open spec fn stress_order_le(a: ExperimentAggregateSummary, b: ExperimentAggregateSummary) -> bool {
    a.stress_score < b.stress_score || (a.stress_score == b.stress_score && !chars_lt(b.family_id@, a.family_id@))
}

/// Position `j` of `gs` is the first that satisfies `pred` after a stable sort
/// by (stress score, family).
pub open spec fn first_in_stress_order(gs: Seq<ExperimentAggregateSummary>, j: int, failed_only: bool) -> bool {
    &&& 0 <= j < gs.len()
    &&& (failed_only ==> !gs[j].acceptable)
    &&& forall|k: int|
        0 <= k < gs.len() && (failed_only ==> !gs[k].acceptable) ==> stress_order_le(gs[j], #[trigger] gs[k])
            && (stress_order_le(gs[k], gs[j]) ==> j <= k)
}

/// The highest stress score among acceptable aggregates, or zero.
pub open spec fn max_acceptable_stress(gs: Seq<ExperimentAggregateSummary>) -> u32
    decreases gs.len(),
{
    if gs.len() == 0 {
        0
    } else {
        let m = max_acceptable_stress(gs.drop_last());
        if gs.last().acceptable && gs.last().stress_score > m { gs.last().stress_score } else { m }
    }
}

/// Why an aggregate failed: the first threshold that it misses, then lost
/// reachability, maintenance failures and unrecovered losses, else failure density.
pub open spec fn breakdown_reason_chars(a: ExperimentAggregateSummary) -> Seq<char> {
    if a.activation_success_permille_mean < 900 {
        "activation-success"@
    } else if a.route_present_total_window_permille_mean < 500 {
        "route-presence"@
    } else if a.lost_reachability_count_mean > 0 {
        "lost-reachability"@
    } else if a.maintenance_failure_count_mean > 0 {
        "maintenance-failure"@
    } else if a.unrecovered_after_loss_count_mean > 0 {
        "unrecovered-loss"@
    } else {
        "failure-density"@
    }
}

fn breakdown_reason(a: &ExperimentAggregateSummary) -> (r: String)
    ensures
        r@ == breakdown_reason_chars(*a),
{
    if a.activation_success_permille_mean < 900 {
        String::from_str("activation-success")
    } else if a.route_present_total_window_permille_mean < 500 {
        String::from_str("route-presence")
    } else if a.lost_reachability_count_mean > 0 {
        String::from_str("lost-reachability")
    } else if a.maintenance_failure_count_mean > 0 {
        String::from_str("maintenance-failure")
    } else if a.unrecovered_after_loss_count_mean > 0 {
        String::from_str("unrecovered-loss")
    } else {
        String::from_str("failure-density")
    }
}

/// `b` is the breakdown of the non-empty aggregate group `gs`.
pub open spec fn breakdown_matches(b: ExperimentBreakdownSummary, gs: Seq<ExperimentAggregateSummary>) -> bool {
    &&& exists|j: int| first_in_stress_order(gs, j, false) && b.suite_id@ == gs[j].suite_id@
    &&& b.max_sustained_stress_score == max_acceptable_stress(gs)
    &&& (forall|k: int| 0 <= k < gs.len() ==> (#[trigger] gs[k]).acceptable) ==> {
        &&& b.first_failed_family_id is None
        &&& b.first_failed_stress_score is None
        &&& b.breakdown_reason is None
    }
    &&& (exists|k: int| 0 <= k < gs.len() && !(#[trigger] gs[k]).acceptable) ==> exists|j: int| {
        &&& first_in_stress_order(gs, j, true)
        &&& opt_chars(b.first_failed_family_id) == Some(gs[j].family_id@)
        &&& b.first_failed_stress_score == Some(gs[j].stress_score)
        &&& opt_chars(b.breakdown_reason) == Some(breakdown_reason_chars(gs[j]))
    }
}

fn aggregate_key_eq(a: &ExperimentAggregateSummary, b: &ExperimentAggregateSummary) -> (r: bool)
    ensures
        r == (breakdown_key_of(*a) == breakdown_key_of(*b)),
{
    a.engine_family == b.engine_family && a.execution_lane == b.execution_lane && a.config_id == b.config_id
}

fn aggregate_key_lt(a: &ExperimentAggregateSummary, b: &ExperimentAggregateSummary) -> (r: bool)
    ensures
        r == breakdown_key_lt(breakdown_key_of(*a), breakdown_key_of(*b)),
{
    if a.engine_family != b.engine_family {
        str_lt(a.engine_family.as_str(), b.engine_family.as_str())
    } else if a.execution_lane != b.execution_lane {
        str_lt(a.execution_lane.as_str(), b.execution_lane.as_str())
    } else {
        str_lt(a.config_id.as_str(), b.config_id.as_str())
    }
}

fn stress_before(a: &ExperimentAggregateSummary, b: &ExperimentAggregateSummary) -> (r: bool)
    ensures
        r == (a.stress_score < b.stress_score || (a.stress_score == b.stress_score && chars_lt(a.family_id@, b.family_id@))),
{
    a.stress_score < b.stress_score || (a.stress_score == b.stress_score && str_lt(a.family_id.as_str(), b.family_id.as_str()))
}

/// `a` comes strictly before `b` in the (stress score, family) order.
pub open spec fn stress_lt(a: ExperimentAggregateSummary, b: ExperimentAggregateSummary) -> bool {
    a.stress_score < b.stress_score || (a.stress_score == b.stress_score && chars_lt(a.family_id@, b.family_id@))
}

/// The (stress score, family) order is a total preorder.
proof fn lemma_stress_order(a: ExperimentAggregateSummary, b: ExperimentAggregateSummary, c: ExperimentAggregateSummary)
    ensures
        stress_order_le(a, a),
        stress_order_le(a, b) || stress_order_le(b, a),
        stress_order_le(a, b) == !stress_lt(b, a),
        stress_order_le(a, b) && stress_order_le(b, c) ==> stress_order_le(a, c),
{
    lemma_chars_lt_trichotomy(a.family_id@, a.family_id@);
    lemma_chars_lt_trichotomy(a.family_id@, b.family_id@);
    lemma_chars_lt_trichotomy(b.family_id@, c.family_id@);
    lemma_chars_lt_trichotomy(a.family_id@, c.family_id@);
    if stress_order_le(a, b) && stress_order_le(b, c) && a.stress_score == b.stress_score
        && b.stress_score == c.stress_score && chars_lt(c.family_id@, a.family_id@) {
        if a.family_id@ != b.family_id@ {
            lemma_chars_lt_transitive(c.family_id@, a.family_id@, b.family_id@);
        }
    }
}

/// `best` is the first position of `gs[..t]` in the stable (stress, family)
/// order, among the failed aggregates only when `failed_only`.
pub open spec fn first_so_far(gs: Seq<ExperimentAggregateSummary>, best: int, t: int, failed_only: bool) -> bool {
    &&& 0 <= best < t
    &&& (failed_only ==> !gs[best].acceptable)
    &&& forall|k: int|
        0 <= k < t && (failed_only ==> !gs[k].acceptable) ==> stress_order_le(gs[best], #[trigger] gs[k])
            && (stress_order_le(gs[k], gs[best]) ==> best <= k)
}

proof fn lemma_first_step(gs: Seq<ExperimentAggregateSummary>, best: int, t: int, failed_only: bool, take: bool)
    requires
        0 <= t < gs.len(),
        first_so_far(gs, best, t, failed_only),
        take == stress_lt(gs[t], gs[best]),
        failed_only ==> !gs[t].acceptable,
    ensures
        first_so_far(gs, if take { t } else { best }, t + 1, failed_only),
{
    let nb = if take { t } else { best };
    assert forall|k: int| 0 <= k < t + 1 && (failed_only ==> !gs[k].acceptable) implies stress_order_le(gs[nb], #[trigger] gs[k])
        && (stress_order_le(gs[k], gs[nb]) ==> nb <= k) by {
        lemma_stress_order(gs[t], gs[best], gs[k]);
        lemma_stress_order(gs[best], gs[k], gs[t]);
        lemma_stress_order(gs[k], gs[t], gs[best]);
        lemma_stress_order(gs[best], gs[t], gs[k]);
        if k < t {
            assert(stress_order_le(gs[best], gs[k]));
            assert(stress_order_le(gs[k], gs[best]) ==> best <= k);
        }
    }
}

proof fn lemma_first_start(gs: Seq<ExperimentAggregateSummary>, t: int, failed_only: bool)
    requires
        0 <= t < gs.len(),
        failed_only ==> !gs[t].acceptable,
        failed_only ==> forall|k: int| 0 <= k < t ==> (#[trigger] gs[k]).acceptable,
        !failed_only ==> t == 0,
    ensures
        first_so_far(gs, t, t + 1, failed_only),
{
    assert forall|k: int| 0 <= k < t + 1 && (failed_only ==> !gs[k].acceptable) implies stress_order_le(gs[t], #[trigger] gs[k])
        && (stress_order_le(gs[k], gs[t]) ==> t <= k) by {
        lemma_stress_order(gs[t], gs[k], gs[k]);
    }
}

/// The breakdown row of one group of aggregates that share a breakdown key.
fn breakdown_of_group(aggs: &Vec<ExperimentAggregateSummary>, members: &Vec<usize>) -> (r: ExperimentBreakdownSummary)
    requires
        members@.len() > 0,
        forall|t: int| 0 <= t < members@.len() ==> #[trigger] members@[t] < aggs@.len(),
    ensures
        breakdown_row_key(r) == breakdown_key_of(aggs@[members@[0] as int]),
        breakdown_matches(r, member_aggregates(aggs@, members@)),
{
    let ghost gs = member_aggregates(aggs@, members@);
    let n = members.len();
    let mut best: usize = 0;
    let mut failed: Option<usize> = None;
    let mut max_stress: u32 = 0;
    let mut t: usize = 0;
    while t < n
        invariant
            n == members@.len(),
            n > 0,
            gs == member_aggregates(aggs@, members@),
            forall|j: int| 0 <= j < members@.len() ==> #[trigger] members@[j] < aggs@.len(),
            t <= n,
            best < n,
            t == 0 ==> best == 0,
            t > 0 ==> first_so_far(gs, best as int, t as int, false),
            match failed {
                Some(f) => first_so_far(gs, f as int, t as int, true),
                None => forall|k: int| 0 <= k < t ==> (#[trigger] gs[k]).acceptable,
            },
            max_stress == max_acceptable_stress(gs.take(t as int)),
        decreases n - t,
    {
        let a = &aggs[members[t]];
        assert(gs[t as int] == *a);
        proof {
            assert(gs.take(t + 1).drop_last() =~= gs.take(t as int));
        }
        if t == 0 {
            proof { lemma_first_start(gs, 0, false); }
            assert(first_so_far(gs, best as int, t + 1, false));
        } else {
            let take = stress_before(a, &aggs[members[best]]);
            proof { lemma_first_step(gs, best as int, t as int, false, take); }
            if take {
                best = t;
            }
            assert(first_so_far(gs, best as int, t + 1, false));
        }
        if !a.acceptable {
            match failed {
                None => {
                    proof { lemma_first_start(gs, t as int, true); }
                    failed = Some(t);
                },
                Some(f) => {
                    let take = stress_before(a, &aggs[members[f]]);
                    proof { lemma_first_step(gs, f as int, t as int, true, take); }
                    if take {
                        failed = Some(t);
                    }
                },
            }
        } else {
            proof {
                match failed {
                    Some(f) => {
                        assert forall|k: int| 0 <= k < t + 1 && !gs[k].acceptable implies stress_order_le(gs[f as int], #[trigger] gs[k])
                            && (stress_order_le(gs[k], gs[f as int]) ==> f <= k) by {
                            if k < t {
                                assert(first_so_far(gs, f as int, t as int, true));
                            }
                        }
                    },
                    None => {},
                }
            }
        }
        if a.acceptable && a.stress_score > max_stress {
            max_stress = a.stress_score;
        }
        t = t + 1;
    }
    proof {
        assert(gs.take(n as int) =~= gs);
    }
    let first = &aggs[members[best]];
    let lead = &aggs[members[0]];
    let (first_failed_family_id, first_failed_stress_score, reason) = match failed {
        Some(f) => {
            let fa = &aggs[members[f]];
            (Some(fa.family_id.clone()), Some(fa.stress_score), Some(breakdown_reason(fa)))
        },
        None => (None, None, None),
    };
    let r = ExperimentBreakdownSummary {
        suite_id: first.suite_id.clone(),
        engine_family: lead.engine_family.clone(),
        execution_lane: lead.execution_lane.clone(),
        config_id: lead.config_id.clone(),
        max_sustained_stress_score: max_stress,
        first_failed_family_id,
        first_failed_stress_score,
        breakdown_reason: reason,
    };
    proof {
        assert(first_in_stress_order(gs, best as int, false));
        match failed {
            Some(f) => {
                assert(first_in_stress_order(gs, f as int, true));
                assert(!(forall|k: int| 0 <= k < gs.len() ==> (#[trigger] gs[k]).acceptable));
            },
            None => {
                assert(!(exists|k: int| 0 <= k < gs.len() && !(#[trigger] gs[k]).acceptable));
            },
        }
    }
    r
}

proof fn lemma_breakdown_key_lt(a: BreakdownKey, b: BreakdownKey, c: BreakdownKey)
    ensures
        breakdown_key_lt(a, b) || breakdown_key_lt(b, a) || a == b,
        !(breakdown_key_lt(a, b) && breakdown_key_lt(b, a)),
        breakdown_key_lt(a, b) && breakdown_key_lt(b, c) ==> breakdown_key_lt(a, c),
{
    lemma_chars_lt_trichotomy(a.0, b.0);
    lemma_chars_lt_trichotomy(a.1, b.1);
    lemma_chars_lt_trichotomy(a.2, b.2);
    lemma_chars_lt_trichotomy(b.0, c.0);
    lemma_chars_lt_trichotomy(b.1, c.1);
    lemma_chars_lt_trichotomy(b.2, c.2);
    lemma_chars_lt_trichotomy(a.0, c.0);
    lemma_chars_lt_trichotomy(a.1, c.1);
    lemma_chars_lt_trichotomy(a.2, c.2);
    if breakdown_key_lt(a, b) && breakdown_key_lt(b, c) {
        if a.0 != b.0 && b.0 != c.0 {
            lemma_chars_lt_transitive(a.0, b.0, c.0);
        } else if a.0 == b.0 && b.0 == c.0 {
            if a.1 != b.1 && b.1 != c.1 {
                lemma_chars_lt_transitive(a.1, b.1, c.1);
            } else if a.1 == b.1 && b.1 == c.1 {
                lemma_chars_lt_transitive(a.2, b.2, c.2);
            }
        }
    }
}

/// Some representative in `reps` carries the breakdown key `k`.
pub open spec fn key_listed(s: Seq<ExperimentAggregateSummary>, reps: Seq<usize>, k: BreakdownKey) -> bool {
    exists|g: int| 0 <= g < reps.len() && breakdown_key_of(s[#[trigger] reps[g] as int]) == k
}

/// `reps` holds, in ascending key order, one position for each distinct key
/// among the first `i` aggregates.
pub open spec fn reps_ok(s: Seq<ExperimentAggregateSummary>, reps: Seq<usize>, i: int) -> bool {
    &&& 0 <= i <= s.len()
    &&& forall|g: int| 0 <= g < reps.len() ==> #[trigger] reps[g] < i
    &&& forall|g: int, h: int|
        0 <= g < h < reps.len() ==> breakdown_key_lt(
            breakdown_key_of(s[#[trigger] reps[g] as int]),
            breakdown_key_of(s[#[trigger] reps[h] as int]),
        )
    &&& forall|j: int| 0 <= j < i ==> #[trigger] key_listed(s, reps, breakdown_key_of(s[j]))
}

/// One representative position per distinct breakdown key, in ascending key order.
fn distinct_breakdown_keys(aggs: &Vec<ExperimentAggregateSummary>) -> (reps: Vec<usize>)
    ensures
        reps_ok(aggs@, reps@, aggs@.len() as int),
{
    let n = aggs.len();
    let mut reps: Vec<usize> = Vec::new();
    let mut i: usize = 0;
    while i < n
        invariant
            n == aggs@.len(),
            i <= n,
            reps_ok(aggs@, reps@, i as int),
        decreases n - i,
    {
        let ghost s = aggs@;
        let ghost ki = breakdown_key_of(s[i as int]);
        let mut g: usize = 0;
        while g < reps.len() && !aggregate_key_eq(&aggs[reps[g]], &aggs[i])
            invariant
                n == aggs@.len(),
                i < n,
                s == aggs@,
                ki == breakdown_key_of(s[i as int]),
                reps_ok(s, reps@, i as int),
                g <= reps@.len(),
                forall|h: int| 0 <= h < g ==> breakdown_key_of(s[#[trigger] reps@[h] as int]) != ki,
            decreases reps@.len() - g,
        {
            g = g + 1;
        }
        if g < reps.len() {
            proof {
                assert(breakdown_key_of(s[reps@[g as int] as int]) == ki);
                assert forall|j: int| 0 <= j < i + 1 implies #[trigger] key_listed(s, reps@, breakdown_key_of(s[j])) by {
                    if j == i {
                        assert(breakdown_key_of(s[reps@[g as int] as int]) == ki);
                    }
                }
            }
        } else {
            let mut p: usize = 0;
            while p < reps.len() && !aggregate_key_lt(&aggs[i], &aggs[reps[p]])
                invariant
                    n == aggs@.len(),
                    i < n,
                    s == aggs@,
                    ki == breakdown_key_of(s[i as int]),
                    reps_ok(s, reps@, i as int),
                    p <= reps@.len(),
                    forall|h: int| 0 <= h < reps@.len() ==> breakdown_key_of(s[#[trigger] reps@[h] as int]) != ki,
                    forall|h: int| 0 <= h < p ==> !breakdown_key_lt(ki, breakdown_key_of(s[#[trigger] reps@[h] as int])),
                decreases reps@.len() - p,
            {
                p = p + 1;
            }
            let ghost old_reps = reps@;
            reps.insert(p, i);
            proof {
                assert(reps@ == old_reps.insert(p as int, i));
                assert forall|h: int| 0 <= h < reps@.len() implies #[trigger] reps@[h] < i + 1 by {
                    if h < p {
                        assert(reps@[h] == old_reps[h]);
                    } else if h > p {
                        assert(reps@[h] == old_reps[h - 1]);
                    }
                }
                assert forall|a: int, b: int| 0 <= a < b < reps@.len() implies breakdown_key_lt(
                    breakdown_key_of(s[#[trigger] reps@[a] as int]),
                    breakdown_key_of(s[#[trigger] reps@[b] as int]),
                ) by {
                    let ka = breakdown_key_of(s[reps@[a] as int]);
                    let kb = breakdown_key_of(s[reps@[b] as int]);
                    if a < p {
                        assert(reps@[a] == old_reps[a]);
                        assert(!breakdown_key_lt(ki, ka));
                        lemma_breakdown_key_lt(ka, ki, kb);
                    }
                    if b < p {
                        assert(reps@[b] == old_reps[b]);
                        assert(reps@[a] == old_reps[a]);
                    } else if b == p {
                        assert(reps@[b] == i);
                        assert(reps@[a] == old_reps[a]);
                        assert(ka != ki);
                    } else {
                        assert(reps@[b] == old_reps[b - 1]);
                        if a == p {
                            assert(reps@[a] == i);
                            let kp = breakdown_key_of(s[old_reps[p as int] as int]);
                            assert(breakdown_key_lt(ki, kp));
                            if b - 1 > p {
                                assert(breakdown_key_lt(kp, kb));
                                lemma_breakdown_key_lt(ki, kp, kb);
                            }
                        } else if a > p {
                            assert(reps@[a] == old_reps[a - 1]);
                        } else {
                            assert(reps@[a] == old_reps[a]);
                            let kp = breakdown_key_of(s[old_reps[p as int] as int]);
                            if b - 1 > p {
                                assert(breakdown_key_lt(kp, kb));
                                lemma_breakdown_key_lt(ki, kp, kb);
                            }
                            lemma_breakdown_key_lt(ka, ki, kb);
                        }
                    }
                }
                assert forall|j: int| 0 <= j < i + 1 implies #[trigger] key_listed(s, reps@, breakdown_key_of(s[j])) by {
                    if j == i {
                        assert(reps@[p as int] == i);
                    } else {
                        assert(key_listed(s, old_reps, breakdown_key_of(s[j])));
                        let gg = choose|gg: int| 0 <= gg < old_reps.len() && breakdown_key_of(s[#[trigger] old_reps[gg] as int]) == breakdown_key_of(s[j]);
                        if gg < p {
                            assert(reps@[gg] == old_reps[gg]);
                        } else {
                            assert(reps@[gg + 1] == old_reps[gg]);
                        }
                    }
                }
            }
        }
        i = i + 1;
    }
    reps
}

/// Positions of the aggregates that share the breakdown key of `aggs[rep]`.
fn breakdown_members(aggs: &Vec<ExperimentAggregateSummary>, rep: usize) -> (m: Vec<usize>)
    requires
        rep < aggs@.len(),
    ensures
        m@ == breakdown_indices(aggs@, breakdown_key_of(aggs@[rep as int]), aggs@.len() as int),
{
    let ghost k = breakdown_key_of(aggs@[rep as int]);
    let mut m: Vec<usize> = Vec::new();
    let mut i: usize = 0;
    while i < aggs.len()
        invariant
            rep < aggs@.len(),
            k == breakdown_key_of(aggs@[rep as int]),
            i <= aggs@.len(),
            m@ == breakdown_indices(aggs@, k, i as int),
        decreases aggs@.len() - i,
    {
        if aggregate_key_eq(&aggs[i], &aggs[rep]) {
            m.push(i);
        }
        i = i + 1;
    }
    m
}

/// Some row of `rows` carries the breakdown key `k`.
pub open spec fn has_breakdown_for(rows: Seq<ExperimentBreakdownSummary>, k: BreakdownKey) -> bool {
    exists|g: int| 0 <= g < rows.len() && breakdown_row_key(#[trigger] rows[g]) == k
}

/// Groups aggregates by (engine family, execution lane, configuration) and
/// reports, per group, the highest stress score it sustains and the first
/// family (in stress order) that it fails, with the reason. Rows come in
/// ascending key order, one per distinct key.
pub fn summarize_breakdowns(aggregates: &Vec<ExperimentAggregateSummary>) -> (r: Vec<ExperimentBreakdownSummary>)
    ensures
        forall|g: int|
            0 <= g < r@.len() ==> aggregates_with_key(aggregates@, breakdown_row_key(#[trigger] r@[g])).len() > 0
                && breakdown_matches(r@[g], aggregates_with_key(aggregates@, breakdown_row_key(r@[g]))),
        forall|g: int, h: int|
            0 <= g < h < r@.len() ==> breakdown_key_lt(breakdown_row_key(#[trigger] r@[g]), breakdown_row_key(#[trigger] r@[h])),
        forall|i: int| 0 <= i < aggregates@.len() ==> #[trigger] has_breakdown_for(r@, breakdown_key_of(aggregates@[i])),
{
    let ghost s = aggregates@;
    let total = aggregates.len();
    let reps = distinct_breakdown_keys(aggregates);
    let mut out: Vec<ExperimentBreakdownSummary> = Vec::new();
    let mut g: usize = 0;
    while g < reps.len()
        invariant
            s == aggregates@,
            total == s.len(),
            reps_ok(s, reps@, s.len() as int),
            out@.len() == g,
            g <= reps@.len(),
            forall|h: int| 0 <= h < g ==> breakdown_row_key(#[trigger] out@[h]) == breakdown_key_of(s[reps@[h] as int])
                && aggregates_with_key(s, breakdown_row_key(out@[h])).len() > 0
                && breakdown_matches(out@[h], aggregates_with_key(s, breakdown_row_key(out@[h]))),
        decreases reps@.len() - g,
    {
        let rep = reps[g];
        let members = breakdown_members(aggregates, rep);
        let ghost k = breakdown_key_of(s[rep as int]);
        proof {
            lemma_breakdown_indices(s, k, s.len() as int);
            assert(breakdown_key_of(s[rep as int]) == k);
        }
        let row = breakdown_of_group(aggregates, &members);
        proof {
            assert(breakdown_key_of(s[members@[0] as int]) == k);
        }
        let ghost before = out@;
        out.push(row);
        proof {
            assert forall|h: int| 0 <= h < g + 1 implies breakdown_row_key(#[trigger] out@[h]) == breakdown_key_of(s[reps@[h] as int])
                && aggregates_with_key(s, breakdown_row_key(out@[h])).len() > 0
                && breakdown_matches(out@[h], aggregates_with_key(s, breakdown_row_key(out@[h]))) by {
                if h < g {
                    assert(out@[h] == before[h]);
                }
            }
        }
        g = g + 1;
    }
    proof {
        assert forall|a: int, b: int| 0 <= a < b < out@.len() implies breakdown_key_lt(
            breakdown_row_key(#[trigger] out@[a]),
            breakdown_row_key(#[trigger] out@[b]),
        ) by {
            assert(breakdown_key_lt(breakdown_key_of(s[reps@[a] as int]), breakdown_key_of(s[reps@[b] as int])));
        }
        assert forall|i: int| 0 <= i < s.len() implies #[trigger] has_breakdown_for(out@, breakdown_key_of(s[i])) by {
            assert(key_listed(s, reps@, breakdown_key_of(s[i])));
            let gg = choose|gg: int| 0 <= gg < reps@.len() && breakdown_key_of(s[#[trigger] reps@[gg] as int]) == breakdown_key_of(s[i]);
            assert(breakdown_row_key(out@[gg]) == breakdown_key_of(s[i]));
        }
    }
    out
}


proof fn lemma_max_acceptable_stress(gs: Seq<ExperimentAggregateSummary>)
    ensures
        forall|k: int| 0 <= k < gs.len() && (#[trigger] gs[k]).acceptable ==> gs[k].stress_score <= max_acceptable_stress(gs),
        (exists|k: int| 0 <= k < gs.len() && (#[trigger] gs[k]).acceptable) ==> exists|k: int|
            0 <= k < gs.len() && (#[trigger] gs[k]).acceptable && gs[k].stress_score == max_acceptable_stress(gs),
        !(exists|k: int| 0 <= k < gs.len() && (#[trigger] gs[k]).acceptable) ==> max_acceptable_stress(gs) == 0,
    decreases gs.len(),
{
    if gs.len() > 0 {
        let rest = gs.drop_last();
        lemma_max_acceptable_stress(rest);
        assert forall|k: int| 0 <= k < gs.len() && (#[trigger] gs[k]).acceptable implies gs[k].stress_score <= max_acceptable_stress(gs) by {
            if k < gs.len() - 1 {
                assert(gs[k] == rest[k]);
            }
        }
        if exists|k: int| 0 <= k < gs.len() && (#[trigger] gs[k]).acceptable {
            if exists|k: int| 0 <= k < rest.len() && (#[trigger] rest[k]).acceptable {
                let k = choose|k: int| 0 <= k < rest.len() && (#[trigger] rest[k]).acceptable && rest[k].stress_score == max_acceptable_stress(rest);
                assert(gs[k] == rest[k]);
                if gs.last().acceptable && gs.last().stress_score > max_acceptable_stress(rest) {
                    assert(gs[gs.len() - 1] == gs.last());
                }
            } else {
                let k = choose|k: int| 0 <= k < gs.len() && (#[trigger] gs[k]).acceptable;
                if k < gs.len() - 1 {
                    assert(gs[k] == rest[k]);
                    assert(rest[k].acceptable);
                }
                assert(gs[gs.len() - 1] == gs.last());
            }
        } else {
            assert(!(exists|k: int| 0 <= k < rest.len() && (#[trigger] rest[k]).acceptable)) by {
                if exists|k: int| 0 <= k < rest.len() && (#[trigger] rest[k]).acceptable {
                    let k = choose|k: int| 0 <= k < rest.len() && (#[trigger] rest[k]).acceptable;
                    assert(gs[k] == rest[k]);
                }
            }
            assert(gs[gs.len() - 1] == gs.last());
        }
    }
}

/// Law: the highest stress score that a breakdown row reports as sustained is
/// at least the stress score of every acceptable aggregate of its group, and
/// is the stress score of one of them; it is zero when none is acceptable.
pub proof fn lemma_max_sustained_stress(b: ExperimentBreakdownSummary, gs: Seq<ExperimentAggregateSummary>)
    requires
        breakdown_matches(b, gs),
    ensures
        forall|k: int| 0 <= k < gs.len() && (#[trigger] gs[k]).acceptable ==> gs[k].stress_score <= b.max_sustained_stress_score,
        (exists|k: int| 0 <= k < gs.len() && (#[trigger] gs[k]).acceptable) ==> exists|k: int|
            0 <= k < gs.len() && (#[trigger] gs[k]).acceptable && gs[k].stress_score == b.max_sustained_stress_score,
        !(exists|k: int| 0 <= k < gs.len() && (#[trigger] gs[k]).acceptable) ==> b.max_sustained_stress_score == 0,
{
    lemma_max_acceptable_stress(gs);
}

} // verus!
