//! The summary row of one run: the run's identity and parameter set, and the
//! measures reduced from its replay.
use vstd::prelude::*;
use crate::replay::{
    active_routes_for, active_round_count, active_window_route_presence_permille, ascending_nodes,
    broker_active_route_counts_for, broker_churn, broker_hop_count, broker_route_churn_count_for,
    engine_handoff_count_for, observation_count, observed_engines, rounds_from, route_churn_count_for,
    routes_across, same_destination, sat_u32, usage_list, visible_count,
    ActiveRouteSummary, DestinationId, DestinationView, FieldReplaySummary, ObjectiveReplay, ReducedReplayView, contains_node,
};
use crate::run_metrics::{
    broker_figures, concurrent_route_round_count, concurrent_rounds, figures_of, message_peak, no_route_round_count,
    objective_figures, action_rounds, regime_rounds, routeless_rounds, scatter_runtime_counts, ObjectiveFigures,
    add_broker_usage, timing_from, usable_route_timing, usage_of, ObjectiveMeasures, lemma_figures_read_objectives};
use crate::scenario::BoundObjective;
use crate::stats::{
    average_u32, clamp_u32, mean_u32, median_of, median_u32, min_max_spread, min_max_spread_u32, permille,
    ratio_permille, mean_option_u32, sum_u32,
};
use crate::replay::{count_entries, dominant_engine, engine_counts, engine_labels, engine_rank_le, engine_round_counts};
use crate::suite::ExperimentRunSpec;
use crate::summary::ExperimentRunSummary;
use crate::scenario::JacquardScenario;
use crate::text::str_eq;
use crate::params::opt_chars;
use crate::summary::clone_opt_string;
use crate::topology::NodeId;

verus! {

/// `s` with `n` inserted before the first node that is not below it, unless
/// that node is `n` already.
pub open spec fn insert_node(s: Seq<NodeId>, n: NodeId) -> Seq<NodeId>
    decreases s.len(),
{
    if s.len() == 0 {
        seq![n]
    } else if n.0 < s[0].0 {
        seq![n] + s
    } else if n.0 == s[0].0 {
        s
    } else {
        seq![s[0]] + insert_node(s.drop_first(), n)
    }
}

/// The distinct nodes of `nodes` in ascending order.
pub open spec fn node_set(nodes: Seq<NodeId>) -> Seq<NodeId>
    decreases nodes.len(),
{
    if nodes.len() == 0 {
        Seq::empty()
    } else {
        insert_node(node_set(nodes.drop_last()), nodes.last())
    }
}

proof fn lemma_insert_at(s: Seq<NodeId>, n: NodeId, p: int)
    requires
        0 <= p <= s.len(),
        forall|i: int| 0 <= i < p ==> (#[trigger] s[i]).0 < n.0,
        p < s.len() ==> s[p].0 >= n.0,
    ensures
        insert_node(s, n) == if p < s.len() && s[p].0 == n.0 { s } else { s.take(p) + seq![n] + s.skip(p) },
    decreases p,
{
    if p == 0 {
        assert(s.take(0) + seq![n] + s.skip(0) =~= seq![n] + s);
    } else {
        let t = s.drop_first();
        assert forall|i: int| 0 <= i < p - 1 implies (#[trigger] t[i]).0 < n.0 by {
            assert(t[i] == s[i + 1]);
        }
        if p - 1 < t.len() {
            assert(t[p - 1] == s[p]);
        }
        lemma_insert_at(t, n, p - 1);
        if p < s.len() && s[p].0 == n.0 {
            assert(seq![s[0]] + t =~= s);
        } else {
            assert(seq![s[0]] + (t.take(p - 1) + seq![n] + t.skip(p - 1)) =~= s.take(p) + seq![n] + s.skip(p));
        }
    }
}

proof fn lemma_insert_ascending(s: Seq<NodeId>, n: NodeId)
    requires
        ascending_nodes(s),
    ensures
        ascending_nodes(insert_node(s, n)),
        forall|m: NodeId| #[trigger] insert_node(s, n).contains(m) <==> (s.contains(m) || m == n),
    decreases s.len(),
{
    if s.len() > 0 && !(n.0 < s[0].0) && n.0 != s[0].0 {
        let t = s.drop_first();
        assert forall|i: int, j: int| 0 <= i < j < t.len() implies (#[trigger] t[i]).0 < (#[trigger] t[j]).0 by {
            assert(t[i] == s[i + 1] && t[j] == s[j + 1]);
        }
        lemma_insert_ascending(t, n);
        let r = insert_node(t, n);
        let whole = seq![s[0]] + r;
        assert forall|i: int, j: int| 0 <= i < j < whole.len() implies (#[trigger] whole[i]).0 < (#[trigger] whole[j]).0 by {
            if i == 0 {
                assert(r.contains(whole[j]));
                assert(t.contains(whole[j]) || whole[j] == n);
                if t.contains(whole[j]) {
                    let k = choose|k: int| 0 <= k < t.len() && t[k] == whole[j];
                    assert(t[k] == s[k + 1]);
                }
            } else {
                assert(whole[i] == r[i - 1] && whole[j] == r[j - 1]);
            }
        }
        assert forall|m: NodeId| whole.contains(m) <==> (s.contains(m) || m == n) by {
            if whole.contains(m) {
                let k = choose|k: int| 0 <= k < whole.len() && whole[k] == m;
                if k > 0 {
                    assert(r[k - 1] == m);
                    assert(r.contains(m));
                    if t.contains(m) {
                        let q = choose|q: int| 0 <= q < t.len() && t[q] == m;
                        assert(s[q + 1] == m);
                    }
                } else {
                    assert(s[0] == m);
                }
            }
            if s.contains(m) {
                let k = choose|k: int| 0 <= k < s.len() && s[k] == m;
                if k == 0 {
                    assert(whole[0] == m);
                } else {
                    assert(t[k - 1] == m);
                    assert(t.contains(m));
                    assert(r.contains(m));
                    let q = choose|q: int| 0 <= q < r.len() && r[q] == m;
                    assert(whole[q + 1] == m);
                }
            }
            if m == n {
                assert(r.contains(m));
                let q = choose|q: int| 0 <= q < r.len() && r[q] == m;
                assert(whole[q + 1] == m);
            }
        }
    } else if s.len() > 0 && n.0 < s[0].0 {
        let whole = seq![n] + s;
        assert forall|i: int, j: int| 0 <= i < j < whole.len() implies (#[trigger] whole[i]).0 < (#[trigger] whole[j]).0 by {
            if i == 0 {
                assert(whole[j] == s[j - 1]);
                if j - 1 > 0 {
                    assert(s[0].0 < s[j - 1].0);
                }
            } else {
                assert(whole[i] == s[i - 1] && whole[j] == s[j - 1]);
            }
        }
        assert forall|m: NodeId| whole.contains(m) <==> (s.contains(m) || m == n) by {
            if whole.contains(m) {
                let k = choose|k: int| 0 <= k < whole.len() && whole[k] == m;
                if k > 0 {
                    assert(s[k - 1] == m);
                }
            }
            if s.contains(m) {
                let k = choose|k: int| 0 <= k < s.len() && s[k] == m;
                assert(whole[k + 1] == m);
            }
            if m == n {
                assert(whole[0] == m);
            }
        }
    } else if s.len() > 0 {
        assert(s[0] == n);
    } else {
        assert(seq![n][0] == n);
    }
}

proof fn lemma_node_set_ascending(nodes: Seq<NodeId>)
    ensures
        ascending_nodes(node_set(nodes)),
        forall|m: NodeId| node_set(nodes).contains(m) <==> nodes.contains(m),
    decreases nodes.len(),
{
    if nodes.len() > 0 {
        lemma_node_set_ascending(nodes.drop_last());
        lemma_insert_ascending(node_set(nodes.drop_last()), nodes.last());
        assert forall|m: NodeId| node_set(nodes).contains(m) <==> nodes.contains(m) by {
            if nodes.drop_last().contains(m) {
                let k = choose|k: int| 0 <= k < nodes.drop_last().len() && nodes.drop_last()[k] == m;
                assert(nodes[k] == m);
            }
            if nodes.contains(m) && m != nodes.last() {
                let k = choose|k: int| 0 <= k < nodes.len() && nodes[k] == m;
                assert(nodes.drop_last()[k] == m);
            }
            if m == nodes.last() {
                assert(nodes[nodes.len() - 1] == m);
            }
        }
    }
}

/// The nodes as an ascending set: each distinct node once.
pub fn ascending_node_set(nodes: &Vec<NodeId>) -> (r: Vec<NodeId>)
    ensures
        r@ == node_set(nodes@),
        ascending_nodes(r@),
        forall|m: NodeId| r@.contains(m) <==> nodes@.contains(m),
{
    let mut out: Vec<NodeId> = Vec::new();
    let mut i: usize = 0;
    while i < nodes.len()
        invariant
            i <= nodes@.len(),
            out@ == node_set(nodes@.take(i as int)),
        decreases nodes@.len() - i,
    {
        let n = nodes[i];
        assert(nodes@.take(i + 1).drop_last() =~= nodes@.take(i as int));
        let mut p: usize = 0;
        while p < out.len() && out[p].0 < n.0
            invariant
                p <= out@.len(),
                forall|k: int| 0 <= k < p ==> (#[trigger] out@[k]).0 < n.0,
            decreases out@.len() - p,
        {
            p = p + 1;
        }
        proof {
            lemma_insert_at(out@, n, p as int);
        }
        if p < out.len() && out[p].0 == n.0 {
        } else {
            let ghost before = out@;
            out.insert(p, n);
            assert(out@ =~= before.take(p as int) + seq![n] + before.skip(p as int));
        }
        i = i + 1;
    }
    assert(nodes@.take(i as int) =~= nodes@);
    proof {
        lemma_node_set_ascending(nodes@);
    }
    out
}


/// Whether the record is that of `owner`'s route to `destination`.
pub open spec fn replay_matches(x: ObjectiveReplay, owner: NodeId, destination: DestinationView) -> bool {
    x.owner_node_id == owner && x.destination@ == destination
}

/// The first record of `owner`'s route to `destination`, if any.
pub open spec fn replay_for(reps: Seq<ObjectiveReplay>, owner: NodeId, destination: DestinationView) -> Option<ObjectiveReplay>
    decreases reps.len(),
{
    if reps.len() == 0 {
        None
    } else if replay_matches(reps[0], owner, destination) {
        Some(reps[0])
    } else {
        replay_for(reps.drop_first(), owner, destination)
    }
}

/// Index of the first record of `owner`'s route to `destination`.
fn find_replay(reps: &Vec<ObjectiveReplay>, owner: NodeId, destination: &DestinationId) -> (r: Option<usize>)
    ensures
        match r {
            Some(i) => i < reps@.len() && replay_for(reps@, owner, destination@) == Some(reps@[i as int]),
            None => replay_for(reps@, owner, destination@) is None,
        },
{
    let ghost all = reps@;
    let mut i: usize = 0;
    assert(all.skip(0) =~= all);
    while i < reps.len()
        invariant
            all == reps@,
            i <= all.len(),
            replay_for(all, owner, destination@) == replay_for(all.skip(i as int), owner, destination@),
        decreases all.len() - i,
    {
        assert(all.skip(i as int).drop_first() =~= all.skip(i + 1));
        assert(all.skip(i as int)[0] == all[i as int]);
        if reps[i].owner_node_id == owner && same_destination(&reps[i].destination, destination) {
            return Some(i);
        }
        i = i + 1;
    }
    None
}

pub open spec fn present_of(rep: Option<ObjectiveReplay>) -> Seq<u32> {
    match rep {
        Some(x) => x.present_rounds@,
        None => Seq::empty(),
    }
}

pub open spec fn usable_of(rep: Option<ObjectiveReplay>) -> Seq<(u32, bool)> {
    match rep {
        Some(x) => x.usable_rounds@,
        None => Seq::empty(),
    }
}

pub open spec fn hops_in(rep: Option<ObjectiveReplay>) -> Seq<u32> {
    match rep {
        Some(x) => x.hop_counts@,
        None => Seq::empty(),
    }
}

pub open spec fn stability_in(rep: Option<ObjectiveReplay>) -> Seq<u32> {
    match rep {
        Some(x) => x.stability_scores@,
        None => Seq::empty(),
    }
}

/// The first of `rounds` at or after `from`.
pub open spec fn first_at_or_after(rounds: Seq<u32>, from: u32) -> Option<u32>
    decreases rounds.len(),
{
    if rounds.len() == 0 {
        None
    } else if rounds[0] >= from {
        Some(rounds[0])
    } else {
        first_at_or_after(rounds.drop_first(), from)
    }
}

fn first_change_at_or_after(rounds: &Vec<u32>, from: u32) -> (r: Option<u32>)
    ensures
        r == first_at_or_after(rounds@, from),
{
    let ghost all = rounds@;
    let mut i: usize = 0;
    assert(all.skip(0) =~= all);
    while i < rounds.len()
        invariant
            all == rounds@,
            i <= all.len(),
            first_at_or_after(all, from) == first_at_or_after(all.skip(i as int), from),
        decreases all.len() - i,
    {
        assert(all.skip(i as int).drop_first() =~= all.skip(i + 1));
        assert(all.skip(i as int)[0] == all[i as int]);
        if rounds[i] >= from {
            return Some(rounds[i]);
        }
        i = i + 1;
    }
    None
}

/// One less than `n`, but not below zero, saturating at `u32::MAX`.
pub open spec fn less_one(n: nat) -> u32 {
    sat_u32(if n > 0 { n - 1 } else { 0 }) as u32
}

/// What objective `b` showed over the replay: its presence over its active
/// window, the rounds of its first route, first environment change after its
/// activation, first loss and recovery, and its churn, handoffs and
/// observations. An objective without a record shows nothing.
pub open spec fn objective_measures(reduced: ReducedReplayView, b: BoundObjective) -> ObjectiveMeasures {
    let d = b.objective.destination@;
    let rep = replay_for(reduced.objective_replays@, b.owner_node_id, d);
    let timing = timing_from(usable_of(rep), false, None);
    let obs = reduced.route_observations@;
    ObjectiveMeasures {
        presence_permille: permille(
            sat_u32(rounds_from(present_of(rep), b.activate_at_round) as int),
            active_round_count(reduced.round_count, b.activate_at_round),
        ) as u32,
        present_round_count: sat_u32(present_of(rep).len() as int) as u32,
        route_seen: rep matches Some(x) && x.route_seen,
        first_route_round: match rep {
            Some(x) => x.first_route_round,
            None => None,
        },
        first_disruption_round: first_at_or_after(reduced.environment_change_rounds@, b.activate_at_round),
        first_loss_round: timing.0,
        recovery_round: timing.1,
        churn_count: less_one(observation_count(obs, b.owner_node_id, d)),
        handoff_count: less_one(observed_engines(obs, b.owner_node_id, d).len()),
        observation_count: sat_u32(observation_count(obs, b.owner_node_id, d) as int) as u32,
    }
}

/// The measures of each objective, in order.
pub open spec fn measures_of(reduced: ReducedReplayView, objs: Seq<BoundObjective>) -> Seq<ObjectiveMeasures>
    decreases objs.len(),
{
    if objs.len() == 0 {
        Seq::empty()
    } else {
        measures_of(reduced, objs.drop_last()).push(objective_measures(reduced, objs.last()))
    }
}

fn observations_of(reduced: &ReducedReplayView, owner: NodeId, destination: &DestinationId) -> (r: u32)
    ensures
        r == sat_u32(observation_count(reduced.route_observations@, owner, destination@) as int),
{
    let ghost obs = reduced.route_observations@;
    let mut count: u32 = 0;
    let mut i: usize = 0;
    while i < reduced.route_observations.len()
        invariant
            obs == reduced.route_observations@,
            i <= obs.len(),
            count == sat_u32(observation_count(obs.take(i as int), owner, destination@) as int),
        decreases obs.len() - i,
    {
        assert(obs.take(i + 1).drop_last() =~= obs.take(i as int));
        let o = &reduced.route_observations[i];
        if o.owner_node_id == owner && same_destination(&o.destination, destination) {
            count = count.saturating_add(1);
        }
        i = i + 1;
    }
    assert(obs.take(i as int) =~= obs);
    count
}

/// The measures of one objective, read from the replay.
pub fn measure_objective(reduced: &ReducedReplayView, b: &BoundObjective) -> (m: ObjectiveMeasures)
    ensures
        m == objective_measures(*reduced, *b),
{
    let owner = b.owner_node_id;
    let destination = &b.objective.destination;
    let found = find_replay(&reduced.objective_replays, owner, destination);
    let empty_rounds: Vec<u32> = Vec::new();
    let empty_usable: Vec<(u32, bool)> = Vec::new();
    let (present, usable, seen, first_route) = match found {
        Some(i) => {
            let x = &reduced.objective_replays[i];
            (&x.present_rounds, &x.usable_rounds, x.route_seen, x.first_route_round)
        },
        None => (&empty_rounds, &empty_usable, false, None),
    };
    let presence = active_window_route_presence_permille(present, b.activate_at_round, reduced.round_count);
    let present_count: u32 = if present.len() > u32::MAX as usize { u32::MAX } else { present.len() as u32 };
    let (first_loss, recovery) = usable_route_timing(usable);
    ObjectiveMeasures {
        presence_permille: presence,
        present_round_count: present_count,
        route_seen: seen,
        first_route_round: first_route,
        first_disruption_round: first_change_at_or_after(&reduced.environment_change_rounds, b.activate_at_round),
        first_loss_round: first_loss,
        recovery_round: recovery,
        churn_count: route_churn_count_for(&reduced.route_observations, owner, destination),
        handoff_count: engine_handoff_count_for(&reduced.route_observations, owner, destination),
        observation_count: observations_of(reduced, owner, destination),
    }
}


/// The routes of objective `b`, round after round.
pub open spec fn objective_routes(reduced: ReducedReplayView, b: BoundObjective) -> Seq<ActiveRouteSummary> {
    routes_across(reduced.rounds@, b.owner_node_id, b.objective.destination@)
}

/// Over the objectives, the routes that name a next hop (saturating).
pub open spec fn visible_total(reduced: ReducedReplayView, objs: Seq<BoundObjective>) -> int
    decreases objs.len(),
{
    if objs.len() == 0 {
        0
    } else {
        sat_u32(visible_total(reduced, objs.drop_last()) + sat_u32(visible_count(objective_routes(reduced, objs.last())) as int))
    }
}

/// Over the objectives, the routes that go through a broker (saturating).
pub open spec fn brokered_total(reduced: ReducedReplayView, objs: Seq<BoundObjective>, brokers: Seq<NodeId>) -> int
    decreases objs.len(),
{
    if objs.len() == 0 {
        0
    } else {
        sat_u32(
            brokered_total(reduced, objs.drop_last(), brokers) + sat_u32(
                broker_hop_count(objective_routes(reduced, objs.last()), brokers) as int,
            ),
        )
    }
}

/// Over the objectives, the broker changes between consecutive routes (saturating).
pub open spec fn broker_churn_total(reduced: ReducedReplayView, objs: Seq<BoundObjective>, brokers: Seq<NodeId>) -> int
    decreases objs.len(),
{
    if objs.len() == 0 {
        0
    } else {
        sat_u32(
            broker_churn_total(reduced, objs.drop_last(), brokers) + sat_u32(
                broker_churn(objective_routes(reduced, objs.last()), brokers) as int,
            ),
        )
    }
}

/// Over the objectives, the routes through broker `b` (saturating).
pub open spec fn usage_total(reduced: ReducedReplayView, objs: Seq<BoundObjective>, brokers: Seq<NodeId>, b: NodeId) -> int
    decreases objs.len(),
{
    if objs.len() == 0 {
        0
    } else {
        sat_u32(
            usage_total(reduced, objs.drop_last(), brokers, b) + usage_of(
                usage_list(objective_routes(reduced, objs.last()), brokers),
                b,
            ),
        )
    }
}

/// The greatest of the usage totals of the brokers in `upto` (zero if none).
pub open spec fn usage_peak(reduced: ReducedReplayView, objs: Seq<BoundObjective>, brokers: Seq<NodeId>, upto: Seq<NodeId>) -> int
    decreases upto.len(),
{
    if upto.len() == 0 {
        0
    } else {
        let rest = usage_peak(reduced, objs, brokers, upto.drop_last());
        let here = usage_total(reduced, objs, brokers, upto.last());
        if here > rest { here } else { rest }
    }
}

/// The hop counts recorded for the objectives' routes, objective after objective.
pub open spec fn hops_of(reduced: ReducedReplayView, objs: Seq<BoundObjective>) -> Seq<u32>
    decreases objs.len(),
{
    if objs.len() == 0 {
        Seq::empty()
    } else {
        let b = objs.last();
        hops_of(reduced, objs.drop_last()) + hops_in(
            replay_for(reduced.objective_replays@, b.owner_node_id, b.objective.destination@),
        )
    }
}

/// The stability scores recorded for the objectives' routes, objective after objective.
pub open spec fn stability_of(reduced: ReducedReplayView, objs: Seq<BoundObjective>) -> Seq<u32>
    decreases objs.len(),
{
    if objs.len() == 0 {
        Seq::empty()
    } else {
        let b = objs.last();
        stability_of(reduced, objs.drop_last()) + stability_in(
            replay_for(reduced.objective_replays@, b.owner_node_id, b.objective.destination@),
        )
    }
}

/// What one pass over a run's objectives gathers.
pub struct ObjectivePass {
    pub measures: Vec<ObjectiveMeasures>,
    pub visible: u32,
    pub brokered: u32,
    pub usage: Vec<u32>,
    pub broker_churn: u32,
    pub hops: Vec<u32>,
    pub stability: Vec<u32>,
}

fn greatest(values: &Vec<u32>, reduced: Ghost<ReducedReplayView>, objs: Ghost<Seq<BoundObjective>>, brokers: &Vec<NodeId>) -> (r: u32)
    requires
        values@.len() == brokers@.len(),
        forall|k: int| 0 <= k < brokers@.len() ==> values@[k] == usage_total(reduced@, objs@, brokers@, #[trigger] brokers@[k]),
    ensures
        r == usage_peak(reduced@, objs@, brokers@, brokers@),
{
    let mut peak: u32 = 0;
    let mut k: usize = 0;
    while k < values.len()
        invariant
            values@.len() == brokers@.len(),
            k <= values@.len(),
            forall|j: int| 0 <= j < brokers@.len() ==> values@[j] == usage_total(reduced@, objs@, brokers@, #[trigger] brokers@[j]),
            peak == usage_peak(reduced@, objs@, brokers@, brokers@.take(k as int)),
        decreases values@.len() - k,
    {
        assert(brokers@.take(k + 1).drop_last() =~= brokers@.take(k as int));
        assert(brokers@.take(k + 1).last() == brokers@[k as int]);
        if values[k] > peak {
            peak = values[k];
        }
        k = k + 1;
    }
    assert(brokers@.take(k as int) =~= brokers@);
    peak
}

/// One pass over the objectives: each one's measures, and over all of them
/// the broker counts, the per-broker usage (in the order of `brokers`), the
/// broker churn, and the recorded hop counts and stability scores.
pub fn objective_pass(reduced: &ReducedReplayView, objectives: &Vec<BoundObjective>, brokers: &Vec<NodeId>) -> (r: ObjectivePass)
    requires
        ascending_nodes(brokers@),
    ensures
        r.measures@ == measures_of(*reduced, objectives@),
        r.visible == visible_total(*reduced, objectives@),
        r.brokered == brokered_total(*reduced, objectives@, brokers@),
        r.broker_churn == broker_churn_total(*reduced, objectives@, brokers@),
        r.usage@.len() == brokers@.len(),
        forall|k: int| 0 <= k < brokers@.len() ==> r.usage@[k] == usage_total(*reduced, objectives@, brokers@, #[trigger] brokers@[k]),
        r.hops@ == hops_of(*reduced, objectives@),
        r.stability@ == stability_of(*reduced, objectives@),
{
    let ghost objs = objectives@;
    let mut measures: Vec<ObjectiveMeasures> = Vec::new();
    let mut visible: u32 = 0;
    let mut brokered: u32 = 0;
    let mut churn: u32 = 0;
    let mut usage: Vec<u32> = Vec::new();
    let mut k: usize = 0;
    while k < brokers.len()
        invariant
            k <= brokers@.len(),
            usage@.len() == k,
            forall|j: int| 0 <= j < k ==> usage@[j] == 0,
        decreases brokers@.len() - k,
    {
        usage.push(0);
        k = k + 1;
    }
    let mut hops: Vec<u32> = Vec::new();
    let mut stability: Vec<u32> = Vec::new();
    let mut i: usize = 0;
    while i < objectives.len()
        invariant
            objs == objectives@,
            ascending_nodes(brokers@),
            i <= objs.len(),
            measures@ == measures_of(*reduced, objs.take(i as int)),
            visible == visible_total(*reduced, objs.take(i as int)),
            brokered == brokered_total(*reduced, objs.take(i as int), brokers@),
            churn == broker_churn_total(*reduced, objs.take(i as int), brokers@),
            usage@.len() == brokers@.len(),
            forall|j: int| 0 <= j < brokers@.len() ==> usage@[j] == usage_total(*reduced, objs.take(i as int), brokers@, #[trigger] brokers@[j]),
            hops@ == hops_of(*reduced, objs.take(i as int)),
            stability@ == stability_of(*reduced, objs.take(i as int)),
        decreases objs.len() - i,
    {
        let ghost next = objs.take(i + 1);
        assert(next.drop_last() =~= objs.take(i as int));
        let b = &objectives[i];
        assert(next.last() == *b);
        measures.push(measure_objective(reduced, b));
        let routes = active_routes_for(reduced, b.owner_node_id, &b.objective.destination);
        assert(crate::replay::deref_routes(routes@) =~= objective_routes(*reduced, *b));
        let (v, p, counts) = broker_active_route_counts_for(&routes, brokers);
        visible = visible.saturating_add(v);
        brokered = brokered.saturating_add(p);
        add_broker_usage(&mut usage, brokers, &counts);
        churn = churn.saturating_add(broker_route_churn_count_for(&routes, brokers));
        match find_replay(&reduced.objective_replays, b.owner_node_id, &b.objective.destination) {
            Some(x) => {
                let rep = &reduced.objective_replays[x];
                let mut h: usize = 0;
                let ghost before = hops@;
                while h < rep.hop_counts.len()
                    invariant
                        h <= rep.hop_counts@.len(),
                        hops@ == before + rep.hop_counts@.take(h as int),
                    decreases rep.hop_counts@.len() - h,
                {
                    assert(rep.hop_counts@.take(h + 1) =~= rep.hop_counts@.take(h as int).push(rep.hop_counts@[h as int]));
                    hops.push(rep.hop_counts[h]);
                    h = h + 1;
                }
                assert(rep.hop_counts@.take(h as int) =~= rep.hop_counts@);
                let mut t: usize = 0;
                let ghost before_s = stability@;
                while t < rep.stability_scores.len()
                    invariant
                        t <= rep.stability_scores@.len(),
                        stability@ == before_s + rep.stability_scores@.take(t as int),
                    decreases rep.stability_scores@.len() - t,
                {
                    assert(rep.stability_scores@.take(t + 1) =~= rep.stability_scores@.take(t as int).push(rep.stability_scores@[t as int]));
                    stability.push(rep.stability_scores[t]);
                    t = t + 1;
                }
                assert(rep.stability_scores@.take(t as int) =~= rep.stability_scores@);
            },
            None => {
                assert(hops@ =~= hops@ + Seq::<u32>::empty());
                assert(stability@ =~= stability@ + Seq::<u32>::empty());
            },
        }
        i = i + 1;
    }
    assert(objs.take(i as int) =~= objs);
    ObjectivePass { measures, visible, brokered, usage, broker_churn: churn, hops, stability }
}


/// A yes-or-no fact of a field replay summary.
#[derive(Clone, Copy, Debug)]
pub enum FieldFlag {
    SelectedResult,
    SearchReconfiguration,
    BootstrapActive,
}

/// A count of a field replay summary.
#[derive(Clone, Copy, Debug)]
pub enum FieldCount {
    BootstrapActivation,
    BootstrapHold,
    BootstrapNarrow,
    BootstrapUpgrade,
    BootstrapWithdraw,
    DegradedSteadyEntry,
    DegradedSteadyRecovery,
    DegradedToBootstrap,
    DegradedSteadyRound,
    ServiceRetentionCarryForward,
    AsymmetricShiftSuccess,
    ProtocolReconfiguration,
    RouteBoundReconfiguration,
    ContinuationShift,
    CorridorNarrow,
    CheckpointRestore,
}

/// A label of a field replay summary.
#[derive(Clone, Copy, Debug)]
pub enum FieldLabel {
    ContinuityBand,
    ContinuityTransition,
    PromotionDecision,
    PromotionBlocker,
}

pub open spec fn flag_of(f: FieldReplaySummary, g: FieldFlag) -> bool {
    match g {
        FieldFlag::SelectedResult => f.selected_result_present,
        FieldFlag::SearchReconfiguration => f.search_reconfiguration_present,
        FieldFlag::BootstrapActive => f.bootstrap_active,
    }
}

/// Count `c` of the summary; the reconfiguration counts saturate at `u32::MAX`.
pub open spec fn count_of(f: FieldReplaySummary, c: FieldCount) -> u32 {
    match c {
        FieldCount::BootstrapActivation => f.bootstrap_activation_count,
        FieldCount::BootstrapHold => f.bootstrap_hold_count,
        FieldCount::BootstrapNarrow => f.bootstrap_narrow_count,
        FieldCount::BootstrapUpgrade => f.bootstrap_upgrade_count,
        FieldCount::BootstrapWithdraw => f.bootstrap_withdraw_count,
        FieldCount::DegradedSteadyEntry => f.degraded_steady_entry_count,
        FieldCount::DegradedSteadyRecovery => f.degraded_steady_recovery_count,
        FieldCount::DegradedToBootstrap => f.degraded_to_bootstrap_count,
        FieldCount::DegradedSteadyRound => f.degraded_steady_round_count,
        FieldCount::ServiceRetentionCarryForward => f.service_retention_carry_forward_count,
        FieldCount::AsymmetricShiftSuccess => f.asymmetric_shift_success_count,
        FieldCount::ProtocolReconfiguration => sat_u32(f.protocol_reconfiguration_count as int) as u32,
        FieldCount::RouteBoundReconfiguration => sat_u32(f.route_bound_reconfiguration_count as int) as u32,
        FieldCount::ContinuationShift => f.continuation_shift_count,
        FieldCount::CorridorNarrow => f.corridor_narrow_count,
        FieldCount::CheckpointRestore => f.checkpoint_restore_count,
    }
}

pub open spec fn label_of(f: FieldReplaySummary, l: FieldLabel) -> Option<Seq<char>> {
    opt_chars(
        match l {
            FieldLabel::ContinuityBand => f.continuity_band,
            FieldLabel::ContinuityTransition => f.last_continuity_transition,
            FieldLabel::PromotionDecision => f.last_promotion_decision,
            FieldLabel::PromotionBlocker => f.last_promotion_blocker,
        },
    )
}

/// The summaries of the nodes in `owners` with flag `g` set.
pub open spec fn flag_rounds(reps: Seq<FieldReplaySummary>, owners: Seq<NodeId>, g: FieldFlag) -> nat
    decreases reps.len(),
{
    if reps.len() == 0 {
        0
    } else {
        flag_rounds(reps.drop_last(), owners, g) + if owners.contains(reps.last().owner_node_id) && flag_of(reps.last(), g) {
            1nat
        } else {
            0nat
        }
    }
}

/// The greatest count `c` among the summaries of the nodes in `owners` (zero if none).
pub open spec fn count_peak(reps: Seq<FieldReplaySummary>, owners: Seq<NodeId>, c: FieldCount) -> u32
    decreases reps.len(),
{
    if reps.len() == 0 {
        0
    } else {
        let rest = count_peak(reps.drop_last(), owners, c);
        let here = if owners.contains(reps.last().owner_node_id) { count_of(reps.last(), c) } else { 0u32 };
        if here > rest { here } else { rest }
    }
}

/// The first label `l` among the summaries of `owner`.
pub open spec fn label_for_owner(reps: Seq<FieldReplaySummary>, owner: NodeId, l: FieldLabel) -> Option<Seq<char>>
    decreases reps.len(),
{
    if reps.len() == 0 {
        None
    } else {
        match label_for_owner(reps.drop_last(), owner, l) {
            Some(x) => Some(x),
            None => if reps.last().owner_node_id == owner { label_of(reps.last(), l) } else { None },
        }
    }
}

/// The first label `l` found going through `owners` in order.
pub open spec fn first_label(reps: Seq<FieldReplaySummary>, owners: Seq<NodeId>, l: FieldLabel) -> Option<Seq<char>>
    decreases owners.len(),
{
    if owners.len() == 0 {
        None
    } else {
        match first_label(reps, owners.drop_last(), l) {
            Some(x) => Some(x),
            None => label_for_owner(reps, owners.last(), l),
        }
    }
}

fn field_flag(f: &FieldReplaySummary, g: FieldFlag) -> (r: bool)
    ensures
        r == flag_of(*f, g),
{
    match g {
        FieldFlag::SelectedResult => f.selected_result_present,
        FieldFlag::SearchReconfiguration => f.search_reconfiguration_present,
        FieldFlag::BootstrapActive => f.bootstrap_active,
    }
}

fn saturate_usize(n: usize) -> (r: u32)
    ensures
        r == sat_u32(n as int),
{
    if n > u32::MAX as usize { u32::MAX } else { n as u32 }
}

fn field_count(f: &FieldReplaySummary, c: FieldCount) -> (r: u32)
    ensures
        r == count_of(*f, c),
{
    match c {
        FieldCount::BootstrapActivation => f.bootstrap_activation_count,
        FieldCount::BootstrapHold => f.bootstrap_hold_count,
        FieldCount::BootstrapNarrow => f.bootstrap_narrow_count,
        FieldCount::BootstrapUpgrade => f.bootstrap_upgrade_count,
        FieldCount::BootstrapWithdraw => f.bootstrap_withdraw_count,
        FieldCount::DegradedSteadyEntry => f.degraded_steady_entry_count,
        FieldCount::DegradedSteadyRecovery => f.degraded_steady_recovery_count,
        FieldCount::DegradedToBootstrap => f.degraded_to_bootstrap_count,
        FieldCount::DegradedSteadyRound => f.degraded_steady_round_count,
        FieldCount::ServiceRetentionCarryForward => f.service_retention_carry_forward_count,
        FieldCount::AsymmetricShiftSuccess => f.asymmetric_shift_success_count,
        FieldCount::ProtocolReconfiguration => saturate_usize(f.protocol_reconfiguration_count),
        FieldCount::RouteBoundReconfiguration => saturate_usize(f.route_bound_reconfiguration_count),
        FieldCount::ContinuationShift => f.continuation_shift_count,
        FieldCount::CorridorNarrow => f.corridor_narrow_count,
        FieldCount::CheckpointRestore => f.checkpoint_restore_count,
    }
}

fn field_label(f: &FieldReplaySummary, l: FieldLabel) -> (r: Option<String>)
    ensures
        opt_chars(r) == label_of(*f, l),
{
    match l {
        FieldLabel::ContinuityBand => clone_opt_string(&f.continuity_band),
        FieldLabel::ContinuityTransition => clone_opt_string(&f.last_continuity_transition),
        FieldLabel::PromotionDecision => clone_opt_string(&f.last_promotion_decision),
        FieldLabel::PromotionBlocker => clone_opt_string(&f.last_promotion_blocker),
    }
}

/// Summaries of the nodes in `owners` with flag `g` set (saturating).
pub fn field_flag_rounds(reps: &Vec<FieldReplaySummary>, owners: &Vec<NodeId>, g: FieldFlag) -> (r: u32)
    ensures
        r == sat_u32(flag_rounds(reps@, owners@, g) as int),
{
    let ghost all = reps@;
    let mut count: u32 = 0;
    let mut i: usize = 0;
    while i < reps.len()
        invariant
            all == reps@,
            i <= all.len(),
            count == sat_u32(flag_rounds(all.take(i as int), owners@, g) as int),
        decreases all.len() - i,
    {
        assert(all.take(i + 1).drop_last() =~= all.take(i as int));
        if contains_node(owners, reps[i].owner_node_id) && field_flag(&reps[i], g) {
            count = count.saturating_add(1);
        }
        i = i + 1;
    }
    assert(all.take(i as int) =~= all);
    count
}

/// The greatest count `c` among the summaries of the nodes in `owners`.
pub fn field_count_peak(reps: &Vec<FieldReplaySummary>, owners: &Vec<NodeId>, c: FieldCount) -> (r: u32)
    ensures
        r == count_peak(reps@, owners@, c),
{
    let ghost all = reps@;
    let mut peak: u32 = 0;
    let mut i: usize = 0;
    while i < reps.len()
        invariant
            all == reps@,
            i <= all.len(),
            peak == count_peak(all.take(i as int), owners@, c),
        decreases all.len() - i,
    {
        assert(all.take(i + 1).drop_last() =~= all.take(i as int));
        if contains_node(owners, reps[i].owner_node_id) {
            let here = field_count(&reps[i], c);
            if here > peak {
                peak = here;
            }
        }
        i = i + 1;
    }
    assert(all.take(i as int) =~= all);
    peak
}

fn owner_label(reps: &Vec<FieldReplaySummary>, owner: NodeId, l: FieldLabel) -> (r: Option<String>)
    ensures
        opt_chars(r) == label_for_owner(reps@, owner, l),
{
    let ghost all = reps@;
    let mut i: usize = 0;
    while i < reps.len()
        invariant
            all == reps@,
            i <= all.len(),
            label_for_owner(all.take(i as int), owner, l) is None,
        decreases all.len() - i,
    {
        assert(all.take(i + 1).drop_last() =~= all.take(i as int));
        if reps[i].owner_node_id == owner {
            let found = field_label(&reps[i], l);
            if found.is_some() {
                proof {
                    lemma_label_prefix(all, owner, l, i as int + 1);
                }
                return found;
            }
        }
        i = i + 1;
    }
    assert(all.take(i as int) =~= all);
    None
}

proof fn lemma_label_prefix(reps: Seq<FieldReplaySummary>, owner: NodeId, l: FieldLabel, n: int)
    requires
        0 <= n <= reps.len(),
        label_for_owner(reps.take(n), owner, l) is Some,
    ensures
        label_for_owner(reps, owner, l) == label_for_owner(reps.take(n), owner, l),
    decreases reps.len() - n,
{
    if n < reps.len() {
        assert(reps.take(n + 1).drop_last() =~= reps.take(n));
        lemma_label_prefix(reps, owner, l, n + 1);
    } else {
        assert(reps.take(n) =~= reps);
    }
}

/// The first label `l` found going through `owners` in order, each owner's
/// summaries in order.
pub fn field_first_label(reps: &Vec<FieldReplaySummary>, owners: &Vec<NodeId>, l: FieldLabel) -> (r: Option<String>)
    ensures
        opt_chars(r) == first_label(reps@, owners@, l),
{
    let ghost all = owners@;
    let mut i: usize = 0;
    while i < owners.len()
        invariant
            all == owners@,
            i <= all.len(),
            first_label(reps@, all.take(i as int), l) is None,
        decreases all.len() - i,
    {
        assert(all.take(i + 1).drop_last() =~= all.take(i as int));
        let found = owner_label(reps, owners[i], l);
        if found.is_some() {
            proof {
                lemma_first_label_prefix(reps@, all, l, i as int + 1);
            }
            return found;
        }
        i = i + 1;
    }
    assert(all.take(i as int) =~= all);
    None
}

proof fn lemma_first_label_prefix(reps: Seq<FieldReplaySummary>, owners: Seq<NodeId>, l: FieldLabel, n: int)
    requires
        0 <= n <= owners.len(),
        first_label(reps, owners.take(n), l) is Some,
    ensures
        first_label(reps, owners, l) == first_label(reps, owners.take(n), l),
    decreases owners.len() - n,
{
    if n < owners.len() {
        assert(owners.take(n + 1).drop_last() =~= owners.take(n));
        lemma_first_label_prefix(reps, owners, l, n + 1);
    } else {
        assert(owners.take(n) =~= owners);
    }
}


/// A label that the replay records per objective.
#[derive(Clone, Copy, Debug)]
pub enum ObjectiveText {
    CommitmentResolution,
    LastOutcome,
    ContinuityBand,
    PromotionDecision,
    PromotionBlocker,
}

pub open spec fn text_of(rep: Option<ObjectiveReplay>, t: ObjectiveText) -> Option<Seq<char>> {
    match rep {
        Some(x) => opt_chars(
            match t {
                ObjectiveText::CommitmentResolution => x.commitment_resolution,
                ObjectiveText::LastOutcome => x.last_outcome,
                ObjectiveText::ContinuityBand => x.continuity_band,
                ObjectiveText::PromotionDecision => x.promotion_decision,
                ObjectiveText::PromotionBlocker => x.promotion_blocker,
            },
        ),
        None => None,
    }
}

/// The first label `t` recorded, going through the objectives in order.
pub open spec fn objective_text(reduced: ReducedReplayView, objs: Seq<BoundObjective>, t: ObjectiveText) -> Option<Seq<char>>
    decreases objs.len(),
{
    if objs.len() == 0 {
        None
    } else {
        match objective_text(reduced, objs.drop_last(), t) {
            Some(x) => Some(x),
            None => text_of(
                replay_for(reduced.objective_replays@, objs.last().owner_node_id, objs.last().objective.destination@),
                t,
            ),
        }
    }
}

/// The greatest continuation-shift count recorded for an objective (zero if none).
pub open spec fn shift_peak(reduced: ReducedReplayView, objs: Seq<BoundObjective>) -> u32
    decreases objs.len(),
{
    if objs.len() == 0 {
        0
    } else {
        let rest = shift_peak(reduced, objs.drop_last());
        let here = match replay_for(reduced.objective_replays@, objs.last().owner_node_id, objs.last().objective.destination@) {
            Some(x) => x.continuation_shift_count,
            None => 0u32,
        };
        if here > rest { here } else { rest }
    }
}

fn objective_text_of(reduced: &ReducedReplayView, objectives: &Vec<BoundObjective>, t: ObjectiveText) -> (r: Option<String>)
    ensures
        opt_chars(r) == objective_text(*reduced, objectives@, t),
{
    let ghost objs = objectives@;
    let mut i: usize = 0;
    while i < objectives.len()
        invariant
            objs == objectives@,
            i <= objs.len(),
            objective_text(*reduced, objs.take(i as int), t) is None,
        decreases objs.len() - i,
    {
        assert(objs.take(i + 1).drop_last() =~= objs.take(i as int));
        let b = &objectives[i];
        match find_replay(&reduced.objective_replays, b.owner_node_id, &b.objective.destination) {
            Some(x) => {
                let rep = &reduced.objective_replays[x];
                let found = match t {
                    ObjectiveText::CommitmentResolution => clone_opt_string(&rep.commitment_resolution),
                    ObjectiveText::LastOutcome => clone_opt_string(&rep.last_outcome),
                    ObjectiveText::ContinuityBand => clone_opt_string(&rep.continuity_band),
                    ObjectiveText::PromotionDecision => clone_opt_string(&rep.promotion_decision),
                    ObjectiveText::PromotionBlocker => clone_opt_string(&rep.promotion_blocker),
                };
                if found.is_some() {
                    proof {
                        lemma_text_prefix(*reduced, objs, t, i as int + 1);
                    }
                    return found;
                }
            },
            None => {},
        }
        i = i + 1;
    }
    assert(objs.take(i as int) =~= objs);
    None
}

proof fn lemma_text_prefix(reduced: ReducedReplayView, objs: Seq<BoundObjective>, t: ObjectiveText, n: int)
    requires
        0 <= n <= objs.len(),
        objective_text(reduced, objs.take(n), t) is Some,
    ensures
        objective_text(reduced, objs, t) == objective_text(reduced, objs.take(n), t),
    decreases objs.len() - n,
{
    if n < objs.len() {
        assert(objs.take(n + 1).drop_last() =~= objs.take(n));
        lemma_text_prefix(reduced, objs, t, n + 1);
    } else {
        assert(objs.take(n) =~= objs);
    }
}

fn objective_shift_peak(reduced: &ReducedReplayView, objectives: &Vec<BoundObjective>) -> (r: u32)
    ensures
        r == shift_peak(*reduced, objectives@),
{
    let ghost objs = objectives@;
    let mut peak: u32 = 0;
    let mut i: usize = 0;
    while i < objectives.len()
        invariant
            objs == objectives@,
            i <= objs.len(),
            peak == shift_peak(*reduced, objs.take(i as int)),
        decreases objs.len() - i,
    {
        assert(objs.take(i + 1).drop_last() =~= objs.take(i as int));
        let b = &objectives[i];
        let here: u32 = match find_replay(&reduced.objective_replays, b.owner_node_id, &b.objective.destination) {
            Some(x) => reduced.objective_replays[x].continuation_shift_count,
            None => 0,
        };
        if here > peak {
            peak = here;
        }
        i = i + 1;
    }
    assert(objs.take(i as int) =~= objs);
    peak
}

/// The count listed first under `label`, if any.
pub open spec fn lookup_count(counts: Seq<(Seq<char>, u32)>, label: Seq<char>) -> Option<u32>
    decreases counts.len(),
{
    if counts.len() == 0 {
        None
    } else if counts[0].0 == label {
        Some(counts[0].1)
    } else {
        lookup_count(counts.drop_first(), label)
    }
}

/// The rounds counted under `label`, zero when the label is not listed.
pub open spec fn rounds_under(counts: Seq<(Seq<char>, u32)>, label: Seq<char>) -> u32 {
    match lookup_count(counts, label) {
        Some(n) => n,
        None => 0,
    }
}

fn selected_rounds(counts: &Vec<(String, u32)>, label: &str) -> (r: u32)
    ensures
        r == rounds_under(count_entries(counts@), label@),
{
    let ghost all = count_entries(counts@);
    let mut i: usize = 0;
    assert(all.skip(0) =~= all);
    while i < counts.len()
        invariant
            all == count_entries(counts@),
            i <= counts@.len(),
            lookup_count(all, label@) == lookup_count(all.skip(i as int), label@),
        decreases counts@.len() - i,
    {
        assert(all.skip(i as int).drop_first() =~= all.skip(i + 1));
        assert(all.skip(i as int)[0] == all[i as int]);
        if str_eq(counts[i].0.as_str(), label) {
            return counts[i].1;
        }
        i = i + 1;
    }
    0
}

/// The broker figures: the share of routes naming a next hop that go through
/// a broker, the busiest broker's share of those, and the broker churn; none
/// unless there are brokers and some route named a next hop.
pub open spec fn broker_triple(broker_count: nat, visible: int, brokered: int, peak: int, churn: int) -> (Option<u32>, Option<u32>, Option<u32>) {
    if broker_count > 0 && visible > 0 {
        (
            Some(permille(brokered, visible) as u32),
            Some(permille(peak, if brokered >= 1 { brokered } else { 1 }) as u32),
            Some(churn as u32),
        )
    } else {
        (None, None, None)
    }
}

/// `a`, or else `b`.
pub open spec fn or_else(a: Option<Seq<char>>, b: Option<Seq<char>>) -> Option<Seq<char>> {
    match a {
        Some(x) => Some(x),
        None => b,
    }
}

/// `x`, but at least one.
pub open spec fn at_least_one(x: int) -> int {
    if x >= 1 { x } else { 1 }
}

/// Running total of the values, each step saturating at `u32::MAX`.
pub open spec fn saturating_sum(s: Seq<u32>) -> int
    decreases s.len(),
{
    if s.len() == 0 {
        0
    } else {
        sat_u32(saturating_sum(s.drop_last()) + s.last())
    }
}

fn saturating_total(values: &Vec<u32>) -> (r: u32)
    ensures
        r == saturating_sum(values@),
{
    let mut total: u32 = 0;
    let mut i: usize = 0;
    while i < values.len()
        invariant
            i <= values@.len(),
            total == saturating_sum(values@.take(i as int)),
        decreases values@.len() - i,
    {
        assert(values@.take(i + 1).drop_last() =~= values@.take(i as int));
        total = total.saturating_add(values[i]);
        i = i + 1;
    }
    assert(values@.take(i as int) =~= values@);
    total
}

/// The owners of the objectives, in order.
pub open spec fn owners_of(objs: Seq<BoundObjective>) -> Seq<NodeId> {
    objs.map_values(|b: BoundObjective| b.owner_node_id)
}

fn owner_nodes(objectives: &Vec<BoundObjective>) -> (r: Vec<NodeId>)
    ensures
        r@ == owners_of(objectives@),
{
    let mut out: Vec<NodeId> = Vec::new();
    let mut i: usize = 0;
    while i < objectives.len()
        invariant
            i <= objectives@.len(),
            out@ == owners_of(objectives@.take(i as int)),
        decreases objectives@.len() - i,
    {
        assert(owners_of(objectives@.take(i + 1)) =~= owners_of(objectives@.take(i as int)).push(objectives@[i as int].owner_node_id));
        out.push(objectives[i].owner_node_id);
        i = i + 1;
    }
    assert(objectives@.take(i as int) =~= objectives@);
    out
}


/// The run's identity, lane, parameter set and regime, copied into its row.
pub open spec fn identity_of(r: ExperimentRunSummary, spec: ExperimentRunSpec, scenario: JacquardScenario, lane: Seq<char>) -> bool {
    &&& r.run_id@ == spec.run_id@
    &&& r.suite_id@ == spec.suite_id@
    &&& r.family_id@ == spec.family_id@
    &&& r.scenario_name@ == scenario.name@
    &&& r.engine_family@ == spec.engine_family@
    &&& r.execution_lane@ == lane
    &&& r.config_id@ == spec.parameters.config_id@
    &&& opt_chars(r.comparison_engine_set) == match spec.parameters.comparison_engine_set {
        Some(set) => Some(crate::params::comparison_engine_set_chars(set)),
        None => None,
    }
    &&& r.batman_bellman_stale_after_ticks == spec.parameters.batman_bellman_stale_after_ticks
    &&& r.batman_bellman_next_refresh_within_ticks == spec.parameters.batman_bellman_next_refresh_within_ticks
    &&& r.batman_classic_stale_after_ticks == spec.parameters.batman_classic_stale_after_ticks
    &&& r.batman_classic_next_refresh_within_ticks == spec.parameters.batman_classic_next_refresh_within_ticks
    &&& r.babel_stale_after_ticks == spec.parameters.babel_stale_after_ticks
    &&& r.babel_next_refresh_within_ticks == spec.parameters.babel_next_refresh_within_ticks
    &&& r.olsrv2_stale_after_ticks == spec.parameters.olsrv2_stale_after_ticks
    &&& r.olsrv2_next_refresh_within_ticks == spec.parameters.olsrv2_next_refresh_within_ticks
    &&& r.pathway_query_budget == spec.parameters.pathway_query_budget
    &&& r.pathway_heuristic_mode == spec.parameters.pathway_heuristic_mode
    &&& r.scatter_profile_id == spec.parameters.scatter_profile_id
    &&& r.field_query_budget == spec.parameters.field_query_budget
    &&& r.field_heuristic_mode == spec.parameters.field_heuristic_mode
    &&& r.field_service_publication_neighbor_limit == spec.parameters.field_service_publication_neighbor_limit
    &&& r.field_service_freshness_weight == spec.parameters.field_service_freshness_weight
    &&& r.field_service_narrowing_bias == spec.parameters.field_service_narrowing_bias
    &&& r.field_node_bootstrap_support_floor == spec.parameters.field_node_bootstrap_support_floor
    &&& r.field_node_bootstrap_top_mass_floor == spec.parameters.field_node_bootstrap_top_mass_floor
    &&& r.field_node_bootstrap_entropy_ceiling == spec.parameters.field_node_bootstrap_entropy_ceiling
    &&& r.field_node_discovery_enabled == spec.parameters.field_node_discovery_enabled
    &&& r.seed == spec.seed
    &&& r.density@ == spec.regime.density@
    &&& r.loss@ == spec.regime.loss@
    &&& r.interference@ == spec.regime.interference@
    &&& r.asymmetry@ == spec.regime.asymmetry@
    &&& r.churn@ == spec.regime.churn@
    &&& r.node_pressure@ == spec.regime.node_pressure@
    &&& r.objective_regime@ == spec.regime.objective_regime@
    &&& r.stress_score == spec.regime.stress_score
    &&& r.model_artifact_count == 0
    &&& r.equivalence_passed is None
}

/// The objective figures that the row carries.
pub open spec fn objective_part(r: ExperimentRunSummary) -> ObjectiveFigures {
    ObjectiveFigures {
        objective_count: r.objective_count,
        activation_success_permille: r.activation_success_permille,
        activation_failure_count: r.activation_failure_count,
        route_present_permille: r.route_present_permille,
        route_present_total_window_permille: r.route_present_total_window_permille,
        objective_route_presence_min_permille: r.objective_route_presence_min_permille,
        objective_route_presence_max_permille: r.objective_route_presence_max_permille,
        objective_route_presence_spread: r.objective_route_presence_spread,
        objective_starvation_count: r.objective_starvation_count,
        first_materialization_round_mean: r.first_materialization_round_mean,
        first_disruption_round_mean: r.first_disruption_round_mean,
        first_loss_round_mean: r.first_loss_round_mean,
        stale_persistence_round_mean: r.stale_persistence_round_mean,
        recovery_round_mean: r.recovery_round_mean,
        recovery_success_permille: r.recovery_success_permille,
        unrecovered_after_loss_count: r.unrecovered_after_loss_count,
        route_churn_count: r.route_churn_count,
        engine_handoff_count: r.engine_handoff_count,
        route_observation_count: r.route_observation_count,
    }
}

/// The engine counts of the replay, by label.
pub open spec fn run_engine_counts(reduced: ReducedReplayView) -> Seq<(Seq<char>, u32)> {
    engine_counts(reduced.rounds@, engine_labels())
}

/// The dominant engine among `ec`: none when nothing was counted, else the
/// label with the most rounds (the greatest label among ties).
pub open spec fn dominant_in(ec: Seq<(Seq<char>, u32)>, d: Option<String>) -> bool {
    &&& (d is None <==> ec.len() == 0)
    &&& (d matches Some(name) ==> exists|i: int| {
        &&& 0 <= i < ec.len()
        &&& name@ == ec[i].0
        &&& forall|j: int| 0 <= j < ec.len() ==> engine_rank_le(#[trigger] ec[j], ec[i])
        &&& forall|j: int| i < j < ec.len() ==> !engine_rank_le(ec[i], #[trigger] ec[j])
    })
}

/// What the row says of the replay's rounds: concurrent and routeless rounds,
/// the scatter runtime, the engines' rounds and the dominant engine.
pub open spec fn rounds_part(r: ExperimentRunSummary, scenario: JacquardScenario, reduced: ReducedReplayView) -> bool {
    let rounds = reduced.rounds@;
    let ec = run_engine_counts(reduced);
    &&& r.concurrent_route_round_count == sat_u32(concurrent_rounds(rounds, scenario.bound_objectives@) as int)
    &&& r.no_route_rounds == sat_u32(routeless_rounds(rounds) as int)
    &&& r.scatter_sparse_rounds == sat_u32(regime_rounds(rounds, "Sparse"@) as int)
    &&& r.scatter_dense_rounds == sat_u32(regime_rounds(rounds, "Dense"@) as int)
    &&& r.scatter_bridging_rounds == sat_u32(regime_rounds(rounds, "Bridging"@) as int)
    &&& r.scatter_constrained_rounds == sat_u32(regime_rounds(rounds, "Constrained"@) as int)
    &&& r.scatter_replicate_rounds == sat_u32(action_rounds(rounds, "Replicate"@) as int)
    &&& r.scatter_handoff_rounds == sat_u32(action_rounds(rounds, "PreferentialHandoff"@) as int)
    &&& r.scatter_retained_message_peak == message_peak(rounds, false)
    &&& r.scatter_delivered_message_peak == message_peak(rounds, true)
    &&& r.batman_bellman_selected_rounds == rounds_under(ec, "batman-bellman"@)
    &&& r.batman_classic_selected_rounds == rounds_under(ec, "batman-classic"@)
    &&& r.babel_selected_rounds == rounds_under(ec, "babel"@)
    &&& r.olsrv2_selected_rounds == rounds_under(ec, "olsrv2"@)
    &&& r.pathway_selected_rounds == rounds_under(ec, "pathway"@)
    &&& r.scatter_selected_rounds == rounds_under(ec, "scatter"@)
    &&& r.field_selected_rounds == rounds_under(ec, "field"@)
    &&& dominant_in(ec, r.dominant_engine)
}

/// What the row says of the brokers, the hop counts and the stability scores.
pub open spec fn routes_part(r: ExperimentRunSummary, scenario: JacquardScenario, reduced: ReducedReplayView) -> bool {
    let objs = scenario.bound_objectives@;
    let brokers = node_set(scenario.broker_nodes@);
    let hops = hops_of(reduced, objs);
    let st = stability_of(reduced, objs);
    &&& (r.broker_participation_permille, r.broker_concentration_permille, r.broker_route_churn_count) == broker_triple(
        brokers.len(),
        visible_total(reduced, objs),
        brokered_total(reduced, objs, brokers),
        usage_peak(reduced, objs, brokers, brokers),
        broker_churn_total(reduced, objs, brokers),
    )
    &&& r.active_route_hop_count_mean == if hops.len() == 0 { None } else { Some(mean_u32(hops)) }
    &&& r.stability_min == if st.len() == 0 { None } else { Some(min_max_spread(st).0) }
    &&& r.stability_max == if st.len() == 0 { None } else { Some(min_max_spread(st).1) }
    &&& r.stability_first == if st.len() == 0 { None } else { Some(st[0]) }
    &&& r.stability_last == if st.len() == 0 { None } else { Some(st.last()) }
    &&& r.stability_median == median_of(st)
    &&& r.stability_total == saturating_sum(st)
}

/// What the row says of the failure summaries and the applied hooks.
pub open spec fn failures_part(r: ExperimentRunSummary, reduced: ReducedReplayView) -> bool {
    let f = reduced.failure_counts;
    &&& r.maintenance_failure_count == reduced.maintenance_failure_count
    &&& r.failure_summary_count == sat_u32(
        f.no_candidate + f.inadmissible_candidate + f.lost_reachability + f.replacement_loop + f.maintenance_failure
            + f.activation_failure + f.persistent_degraded + f.other,
    )
    &&& r.no_candidate_count == reduced.failure_counts.no_candidate
    &&& r.inadmissible_candidate_count == reduced.failure_counts.inadmissible_candidate
    &&& r.lost_reachability_count == reduced.failure_counts.lost_reachability
    &&& r.replacement_loop_count == reduced.failure_counts.replacement_loop
    &&& r.activation_attempt_failure_count == reduced.failure_counts.activation_failure
    &&& r.persistent_degraded_count == reduced.failure_counts.persistent_degraded
    &&& r.other_failure_count == reduced.failure_counts.other
    &&& r.replace_topology_count == reduced.hook_counts.replace_topology
    &&& r.medium_degradation_count == reduced.hook_counts.medium_degradation
    &&& r.asymmetric_degradation_count == reduced.hook_counts.asymmetric_degradation
    &&& r.partition_count == reduced.hook_counts.partition
    &&& r.cascade_partition_count == reduced.hook_counts.cascade_partition
    &&& r.mobility_relink_count == reduced.hook_counts.mobility_relink
    &&& r.intrinsic_limit_count == reduced.hook_counts.intrinsic_limit
}

/// What the row says of the field engine: over the summaries of the
/// objectives' owners, the flagged rounds, the greatest counts (as shares of
/// the objectives, the degraded steady rounds as a share of every objective's
/// rounds), and the first labels (owners in ascending order, then each
/// objective's own record).
pub open spec fn field_part(r: ExperimentRunSummary, scenario: JacquardScenario, reduced: ReducedReplayView) -> bool {
    let objs = scenario.bound_objectives@;
    let owners = node_set(owners_of(objs));
    let reps = reduced.field_replays@;
    let objective_count = sat_u32(objs.len() as int);
    let rounds_floor = if reduced.round_count >= 1 { reduced.round_count as int } else { 1 };
    &&& r.field_selected_result_rounds == sat_u32(flag_rounds(reps, owners, FieldFlag::SelectedResult) as int)
    &&& r.field_search_reconfiguration_rounds == sat_u32(flag_rounds(reps, owners, FieldFlag::SearchReconfiguration) as int)
    &&& r.field_bootstrap_active_rounds == sat_u32(flag_rounds(reps, owners, FieldFlag::BootstrapActive) as int)
    &&& r.field_bootstrap_activation_permille == permille(count_peak(reps, owners, FieldCount::BootstrapActivation) as int, at_least_one(objective_count as int))
    &&& r.field_bootstrap_hold_permille == permille(count_peak(reps, owners, FieldCount::BootstrapHold) as int, at_least_one(objective_count as int))
    &&& r.field_bootstrap_narrow_permille == permille(count_peak(reps, owners, FieldCount::BootstrapNarrow) as int, at_least_one(objective_count as int))
    &&& r.field_bootstrap_upgrade_permille == permille(count_peak(reps, owners, FieldCount::BootstrapUpgrade) as int, at_least_one(objective_count as int))
    &&& r.field_bootstrap_withdraw_permille == permille(count_peak(reps, owners, FieldCount::BootstrapWithdraw) as int, at_least_one(objective_count as int))
    &&& r.field_degraded_steady_entry_permille == permille(count_peak(reps, owners, FieldCount::DegradedSteadyEntry) as int, at_least_one(objective_count as int))
    &&& r.field_degraded_steady_recovery_permille == permille(count_peak(reps, owners, FieldCount::DegradedSteadyRecovery) as int, at_least_one(objective_count as int))
    &&& r.field_degraded_to_bootstrap_permille == permille(count_peak(reps, owners, FieldCount::DegradedToBootstrap) as int, at_least_one(objective_count as int))
    &&& r.field_service_retention_carry_forward_permille == permille(count_peak(reps, owners, FieldCount::ServiceRetentionCarryForward) as int, at_least_one(objective_count as int))
    &&& r.field_asymmetric_shift_success_permille == permille(count_peak(reps, owners, FieldCount::AsymmetricShiftSuccess) as int, at_least_one(objective_count as int))
    &&& r.field_degraded_steady_round_permille == permille(
        count_peak(reps, owners, FieldCount::DegradedSteadyRound) as int,
        at_least_one(clamp_u32(objective_count * rounds_floor)),
    )
    &&& r.field_protocol_reconfiguration_count == count_peak(reps, owners, FieldCount::ProtocolReconfiguration)
    &&& r.field_route_bound_reconfiguration_count == count_peak(reps, owners, FieldCount::RouteBoundReconfiguration)
    &&& r.field_corridor_narrow_count == count_peak(reps, owners, FieldCount::CorridorNarrow)
    &&& r.field_checkpoint_restore_count == count_peak(reps, owners, FieldCount::CheckpointRestore)
    &&& r.field_continuation_shift_count == if count_peak(reps, owners, FieldCount::ContinuationShift) >= shift_peak(reduced, objs) {
        count_peak(reps, owners, FieldCount::ContinuationShift)
    } else {
        shift_peak(reduced, objs)
    }
    &&& opt_chars(r.field_continuity_band) == or_else(
        first_label(reps, owners, FieldLabel::ContinuityBand),
        objective_text(reduced, objs, ObjectiveText::ContinuityBand),
    )
    &&& opt_chars(r.field_last_continuity_transition) == first_label(reps, owners, FieldLabel::ContinuityTransition)
    &&& opt_chars(r.field_last_promotion_decision) == or_else(
        first_label(reps, owners, FieldLabel::PromotionDecision),
        objective_text(reduced, objs, ObjectiveText::PromotionDecision),
    )
    &&& opt_chars(r.field_last_promotion_blocker) == or_else(
        first_label(reps, owners, FieldLabel::PromotionBlocker),
        objective_text(reduced, objs, ObjectiveText::PromotionBlocker),
    )
    &&& opt_chars(r.field_commitment_resolution) == objective_text(reduced, objs, ObjectiveText::CommitmentResolution)
    &&& opt_chars(r.field_last_outcome) == objective_text(reduced, objs, ObjectiveText::LastOutcome)
}


proof fn lemma_measures_len(reduced: ReducedReplayView, objs: Seq<BoundObjective>)
    ensures
        measures_of(reduced, objs).len() == objs.len(),
    decreases objs.len(),
{
    if objs.len() > 0 {
        lemma_measures_len(reduced, objs.drop_last());
    }
}

fn pick_dominant(reduced: &ReducedReplayView, counts: &Vec<(String, u32)>) -> (r: Option<String>)
    requires
        count_entries(counts@) == run_engine_counts(*reduced),
    ensures
        dominant_in(run_engine_counts(*reduced), r),
{
    let r = dominant_engine(counts);
    proof {
        let ec = run_engine_counts(*reduced);
        assert(ec.len() == counts@.len());
        if r is Some {
            let name = r->0;
            let i = choose|i: int| {
                &&& 0 <= i < counts@.len()
                &&& name@ == counts@[i].0@
                &&& forall|j: int| 0 <= j < counts@.len() ==> engine_rank_le(#[trigger] count_entries(counts@)[j], count_entries(counts@)[i])
                &&& forall|j: int| i < j < counts@.len() ==> !engine_rank_le(count_entries(counts@)[i], #[trigger] count_entries(counts@)[j])
            };
            assert(ec[i] == count_entries(counts@)[i]);
            assert(name@ == ec[i].0);
        }
    }
    r
}

/// The report row of one run: the run's identity, the lane it ran on, its
/// parameter set and regime, and the measures reduced from its replay (the
/// objective figures, the rounds and engines, the broker, hop and stability
/// figures, the failure and hook counts, and the field-engine figures).
#[verifier::rlimit(60)]
pub fn summarize_run(
    spec: &ExperimentRunSpec,
    scenario: &JacquardScenario,
    reduced: &ReducedReplayView,
    execution_lane: &str,
) -> (r: ExperimentRunSummary)
    ensures
        identity_of(r, *spec, *scenario, execution_lane@),
        figures_of(measures_of(*reduced, scenario.bound_objectives@), reduced.round_count, objective_part(r)),
        rounds_part(r, *scenario, *reduced),
        routes_part(r, *scenario, *reduced),
        failures_part(r, *reduced),
        field_part(r, *scenario, *reduced),
{
    let objectives = &scenario.bound_objectives;
    let brokers = ascending_node_set(&scenario.broker_nodes);
    let pass = objective_pass(reduced, objectives, &brokers);
    let figures = objective_figures(&pass.measures, reduced.round_count);
    proof {
        lemma_measures_len(*reduced, objectives@);
    }
    let peak = greatest(&pass.usage, Ghost(*reduced), Ghost(objectives@), &brokers);
    let (participation, concentration, broker_churn) = broker_figures(
        brokers.len(),
        pass.visible,
        pass.brokered,
        peak,
        pass.broker_churn,
    );
    let scatter = scatter_runtime_counts(reduced);
    let counts = engine_round_counts(reduced);
    assert(count_entries(counts@) == run_engine_counts(*reduced));
    let dominant = pick_dominant(reduced, &counts);
    let (stability_min, stability_max, _) = min_max_spread_u32(&pass.stability);
    let has_stability = pass.stability.len() > 0;
    let hop_mean = if pass.hops.len() > 0 { Some(average_u32(&pass.hops)) } else { None };
    let owners = ascending_node_set(&owner_nodes(objectives));
    let reps = &reduced.field_replays;
    let objective_count = figures.objective_count;
    let objective_floor: u32 = if objective_count >= 1 { objective_count } else { 1 };
    let rounds_floor: u32 = if reduced.round_count >= 1 { reduced.round_count } else { 1 };
    assert((objective_count as u64) * (rounds_floor as u64) <= 0xffff_ffffu64 * 0xffff_ffffu64) by (nonlinear_arith)
        requires
            objective_count <= 0xffff_ffffu32,
            rounds_floor <= 0xffff_ffffu32,
    ;
    let window: u64 = (objective_count as u64) * (rounds_floor as u64);
    let window_total: u32 = if window > u32::MAX as u64 { u32::MAX } else if window < 1 { 1 } else { window as u32 };
    let shift_from_fields = field_count_peak(reps, &owners, FieldCount::ContinuationShift);
    let shift_from_objectives = objective_shift_peak(reduced, objectives);
    let band = match field_first_label(reps, &owners, FieldLabel::ContinuityBand) {
        Some(x) => Some(x),
        None => objective_text_of(reduced, objectives, ObjectiveText::ContinuityBand),
    };
    let decision = match field_first_label(reps, &owners, FieldLabel::PromotionDecision) {
        Some(x) => Some(x),
        None => objective_text_of(reduced, objectives, ObjectiveText::PromotionDecision),
    };
    let blocker = match field_first_label(reps, &owners, FieldLabel::PromotionBlocker) {
        Some(x) => Some(x),
        None => objective_text_of(reduced, objectives, ObjectiveText::PromotionBlocker),
    };
    let f = reduced.failure_counts;
    let failure_total = f.no_candidate.saturating_add(f.inadmissible_candidate).saturating_add(f.lost_reachability).saturating_add(
        f.replacement_loop,
    ).saturating_add(f.maintenance_failure).saturating_add(f.activation_failure).saturating_add(f.persistent_degraded).saturating_add(
        f.other,
    );
    let comparison_engine_set = match spec.parameters.comparison_engine_set_label() {
        Some(label) => Some(String::from_str(label)),
        None => None,
    };
    ExperimentRunSummary {
        run_id: spec.run_id.clone(),
        suite_id: spec.suite_id.clone(),
        family_id: spec.family_id.clone(),
        scenario_name: scenario.name.clone(),
        engine_family: spec.engine_family.clone(),
        execution_lane: String::from_str(execution_lane),
        config_id: spec.parameters.config_id.clone(),
        comparison_engine_set,
        seed: spec.seed,
        stress_score: spec.regime.stress_score,
        batman_bellman_stale_after_ticks: spec.parameters.batman_bellman_stale_after_ticks,
        batman_bellman_next_refresh_within_ticks: spec.parameters.batman_bellman_next_refresh_within_ticks,
        batman_classic_stale_after_ticks: spec.parameters.batman_classic_stale_after_ticks,
        batman_classic_next_refresh_within_ticks: spec.parameters.batman_classic_next_refresh_within_ticks,
        babel_stale_after_ticks: spec.parameters.babel_stale_after_ticks,
        babel_next_refresh_within_ticks: spec.parameters.babel_next_refresh_within_ticks,
        olsrv2_stale_after_ticks: spec.parameters.olsrv2_stale_after_ticks,
        olsrv2_next_refresh_within_ticks: spec.parameters.olsrv2_next_refresh_within_ticks,
        pathway_query_budget: spec.parameters.pathway_query_budget,
        pathway_heuristic_mode: clone_opt_string(&spec.parameters.pathway_heuristic_mode),
        scatter_profile_id: clone_opt_string(&spec.parameters.scatter_profile_id),
        field_query_budget: spec.parameters.field_query_budget,
        field_heuristic_mode: clone_opt_string(&spec.parameters.field_heuristic_mode),
        field_service_publication_neighbor_limit: spec.parameters.field_service_publication_neighbor_limit,
        field_service_freshness_weight: spec.parameters.field_service_freshness_weight,
        field_service_narrowing_bias: spec.parameters.field_service_narrowing_bias,
        field_node_bootstrap_support_floor: spec.parameters.field_node_bootstrap_support_floor,
        field_node_bootstrap_top_mass_floor: spec.parameters.field_node_bootstrap_top_mass_floor,
        field_node_bootstrap_entropy_ceiling: spec.parameters.field_node_bootstrap_entropy_ceiling,
        field_node_discovery_enabled: spec.parameters.field_node_discovery_enabled,
        density: spec.regime.density.clone(),
        loss: spec.regime.loss.clone(),
        interference: spec.regime.interference.clone(),
        asymmetry: spec.regime.asymmetry.clone(),
        churn: spec.regime.churn.clone(),
        node_pressure: spec.regime.node_pressure.clone(),
        objective_regime: spec.regime.objective_regime.clone(),
        objective_count: figures.objective_count,
        activation_success_permille: figures.activation_success_permille,
        route_present_permille: figures.route_present_permille,
        route_present_total_window_permille: figures.route_present_total_window_permille,
        objective_route_presence_min_permille: figures.objective_route_presence_min_permille,
        objective_route_presence_max_permille: figures.objective_route_presence_max_permille,
        objective_route_presence_spread: figures.objective_route_presence_spread,
        objective_starvation_count: figures.objective_starvation_count,
        first_materialization_round_mean: figures.first_materialization_round_mean,
        first_disruption_round_mean: figures.first_disruption_round_mean,
        first_loss_round_mean: figures.first_loss_round_mean,
        stale_persistence_round_mean: figures.stale_persistence_round_mean,
        recovery_round_mean: figures.recovery_round_mean,
        recovery_success_permille: figures.recovery_success_permille,
        unrecovered_after_loss_count: figures.unrecovered_after_loss_count,
        route_churn_count: figures.route_churn_count,
        engine_handoff_count: figures.engine_handoff_count,
        route_observation_count: figures.route_observation_count,
        activation_failure_count: figures.activation_failure_count,
        batman_bellman_selected_rounds: selected_rounds(&counts, "batman-bellman"),
        batman_classic_selected_rounds: selected_rounds(&counts, "batman-classic"),
        babel_selected_rounds: selected_rounds(&counts, "babel"),
        olsrv2_selected_rounds: selected_rounds(&counts, "olsrv2"),
        pathway_selected_rounds: selected_rounds(&counts, "pathway"),
        scatter_selected_rounds: selected_rounds(&counts, "scatter"),
        field_selected_rounds: selected_rounds(&counts, "field"),
        scatter_sparse_rounds: scatter.sparse_rounds,
        scatter_dense_rounds: scatter.dense_rounds,
        scatter_bridging_rounds: scatter.bridging_rounds,
        scatter_constrained_rounds: scatter.constrained_rounds,
        scatter_replicate_rounds: scatter.replicate_rounds,
        scatter_handoff_rounds: scatter.handoff_rounds,
        scatter_retained_message_peak: scatter.retained_message_peak,
        scatter_delivered_message_peak: scatter.delivered_message_peak,
        field_selected_result_rounds: field_flag_rounds(reps, &owners, FieldFlag::SelectedResult),
        field_search_reconfiguration_rounds: field_flag_rounds(reps, &owners, FieldFlag::SearchReconfiguration),
        field_bootstrap_active_rounds: field_flag_rounds(reps, &owners, FieldFlag::BootstrapActive),
        field_bootstrap_activation_permille: ratio_permille(field_count_peak(reps, &owners, FieldCount::BootstrapActivation), objective_floor),
        field_bootstrap_hold_permille: ratio_permille(field_count_peak(reps, &owners, FieldCount::BootstrapHold), objective_floor),
        field_bootstrap_narrow_permille: ratio_permille(field_count_peak(reps, &owners, FieldCount::BootstrapNarrow), objective_floor),
        field_bootstrap_upgrade_permille: ratio_permille(field_count_peak(reps, &owners, FieldCount::BootstrapUpgrade), objective_floor),
        field_bootstrap_withdraw_permille: ratio_permille(field_count_peak(reps, &owners, FieldCount::BootstrapWithdraw), objective_floor),
        field_degraded_steady_entry_permille: ratio_permille(field_count_peak(reps, &owners, FieldCount::DegradedSteadyEntry), objective_floor),
        field_degraded_steady_recovery_permille: ratio_permille(field_count_peak(reps, &owners, FieldCount::DegradedSteadyRecovery), objective_floor),
        field_degraded_to_bootstrap_permille: ratio_permille(field_count_peak(reps, &owners, FieldCount::DegradedToBootstrap), objective_floor),
        field_service_retention_carry_forward_permille: ratio_permille(field_count_peak(reps, &owners, FieldCount::ServiceRetentionCarryForward), objective_floor),
        field_asymmetric_shift_success_permille: ratio_permille(field_count_peak(reps, &owners, FieldCount::AsymmetricShiftSuccess), objective_floor),
        field_protocol_reconfiguration_count: field_count_peak(reps, &owners, FieldCount::ProtocolReconfiguration),
        field_route_bound_reconfiguration_count: field_count_peak(reps, &owners, FieldCount::RouteBoundReconfiguration),
        field_corridor_narrow_count: field_count_peak(reps, &owners, FieldCount::CorridorNarrow),
        field_checkpoint_restore_count: field_count_peak(reps, &owners, FieldCount::CheckpointRestore),
        no_candidate_count: reduced.failure_counts.no_candidate,
        inadmissible_candidate_count: reduced.failure_counts.inadmissible_candidate,
        lost_reachability_count: reduced.failure_counts.lost_reachability,
        replacement_loop_count: reduced.failure_counts.replacement_loop,
        activation_attempt_failure_count: reduced.failure_counts.activation_failure,
        persistent_degraded_count: reduced.failure_counts.persistent_degraded,
        other_failure_count: reduced.failure_counts.other,
        replace_topology_count: reduced.hook_counts.replace_topology,
        medium_degradation_count: reduced.hook_counts.medium_degradation,
        asymmetric_degradation_count: reduced.hook_counts.asymmetric_degradation,
        partition_count: reduced.hook_counts.partition,
        cascade_partition_count: reduced.hook_counts.cascade_partition,
        mobility_relink_count: reduced.hook_counts.mobility_relink,
        intrinsic_limit_count: reduced.hook_counts.intrinsic_limit,
        concurrent_route_round_count: concurrent_route_round_count(reduced, objectives),
        broker_participation_permille: participation,
        broker_concentration_permille: concentration,
        broker_route_churn_count: broker_churn,
        active_route_hop_count_mean: hop_mean,
        field_continuity_band: band,
        field_commitment_resolution: objective_text_of(reduced, objectives, ObjectiveText::CommitmentResolution),
        field_last_outcome: objective_text_of(reduced, objectives, ObjectiveText::LastOutcome),
        field_last_continuity_transition: field_first_label(reps, &owners, FieldLabel::ContinuityTransition),
        field_last_promotion_decision: decision,
        field_last_promotion_blocker: blocker,
        field_degraded_steady_round_permille: ratio_permille(
            field_count_peak(reps, &owners, FieldCount::DegradedSteadyRound),
            window_total,
        ),
        field_continuation_shift_count: if shift_from_fields >= shift_from_objectives {
            shift_from_fields
        } else {
            shift_from_objectives
        },
        no_route_rounds: no_route_round_count(reduced),
        dominant_engine: dominant,
        stability_min: if has_stability { Some(stability_min) } else { None },
        stability_first: if has_stability { Some(pass.stability[0]) } else { None },
        stability_last: if has_stability { Some(pass.stability[pass.stability.len() - 1]) } else { None },
        stability_median: median_u32(&pass.stability),
        stability_max: if has_stability { Some(stability_max) } else { None },
        stability_total: saturating_total(&pass.stability),
        maintenance_failure_count: reduced.maintenance_failure_count,
        failure_summary_count: failure_total,
        model_artifact_count: 0,
        equivalence_passed: None,
    }
}


proof fn lemma_first_at_or_after(rounds: Seq<u32>, from: u32)
    ensures
        match first_at_or_after(rounds, from) {
            Some(x) => exists|i: int| 0 <= i < rounds.len() && rounds[i] == x && x >= from
                && forall|j: int| 0 <= j < i ==> #[trigger] rounds[j] < from,
            None => forall|j: int| 0 <= j < rounds.len() ==> #[trigger] rounds[j] < from,
        },
    decreases rounds.len(),
{
    if rounds.len() > 0 {
        let t = rounds.drop_first();
        lemma_first_at_or_after(t, from);
        if rounds[0] >= from {
            assert(rounds[0] == rounds[0]);
        } else {
            match first_at_or_after(t, from) {
                Some(x) => {
                    let i = choose|i: int| 0 <= i < t.len() && t[i] == x && x >= from
                        && forall|j: int| 0 <= j < i ==> #[trigger] t[j] < from;
                    assert(rounds[i + 1] == x);
                    assert forall|j: int| 0 <= j < i + 1 implies #[trigger] rounds[j] < from by {
                        if j > 0 {
                            assert(rounds[j] == t[j - 1]);
                        }
                    }
                },
                None => {
                    assert forall|j: int| 0 <= j < rounds.len() implies #[trigger] rounds[j] < from by {
                        if j > 0 {
                            assert(rounds[j] == t[j - 1]);
                        }
                    }
                },
            }
        }
    }
}

/// Law: an objective's first disruption is the first environment change at
/// or after its activation round: a listed change at or after activation,
/// before which every listed change comes before activation; none when every
/// change comes before activation. With the changes listed in ascending
/// order, it is the earliest change at or after activation.
pub proof fn lemma_first_disruption(reduced: ReducedReplayView, b: BoundObjective)
    ensures
        match objective_measures(reduced, b).first_disruption_round {
            Some(x) => {
                &&& x >= b.activate_at_round
                &&& exists|i: int| 0 <= i < reduced.environment_change_rounds@.len()
                    && reduced.environment_change_rounds@[i] == x
                    && forall|j: int| 0 <= j < i ==> #[trigger] reduced.environment_change_rounds@[j] < b.activate_at_round
                &&& (forall|i: int, j: int| 0 <= i < j < reduced.environment_change_rounds@.len()
                    ==> reduced.environment_change_rounds@[i] <= reduced.environment_change_rounds@[j])
                    ==> forall|j: int| 0 <= j < reduced.environment_change_rounds@.len()
                        && reduced.environment_change_rounds@[j] >= b.activate_at_round
                        ==> x <= #[trigger] reduced.environment_change_rounds@[j]
            },
            None => forall|j: int| 0 <= j < reduced.environment_change_rounds@.len()
                ==> #[trigger] reduced.environment_change_rounds@[j] < b.activate_at_round,
        },
{
    let rounds = reduced.environment_change_rounds@;
    let from = b.activate_at_round;
    lemma_first_at_or_after(rounds, from);
    match first_at_or_after(rounds, from) {
        Some(x) => {
            let i = choose|i: int| 0 <= i < rounds.len() && rounds[i] == x && x >= from
                && forall|j: int| 0 <= j < i ==> #[trigger] rounds[j] < from;
            if forall|p: int, q: int| 0 <= p < q < rounds.len() ==> rounds[p] <= rounds[q] {
                assert forall|j: int| 0 <= j < rounds.len() && rounds[j] >= from implies x <= #[trigger] rounds[j] by {
                    if j < i {
                        assert(rounds[j] < from);
                    } else if j > i {
                        assert(rounds[i] <= rounds[j]);
                    }
                }
            }
        },
        None => {},
    }
}

/// `p` is the greatest `value` among the summaries of the nodes in `owners`,
/// or zero where there is none.
pub open spec fn owned_peak(
    reps: Seq<FieldReplaySummary>,
    owners: Seq<NodeId>,
    p: u32,
    value: spec_fn(FieldReplaySummary) -> u32,
) -> bool {
    &&& forall|k: int| 0 <= k < reps.len() && owners.contains((#[trigger] reps[k]).owner_node_id) ==> value(reps[k]) <= p
    &&& p == 0 || exists|k: int| 0 <= k < reps.len() && owners.contains((#[trigger] reps[k]).owner_node_id) && value(reps[k]) == p
}

/// The field figures of a row, read off the summaries of the owners' nodes:
/// each count is the greatest among them, each share is that greatest count
/// over the objectives (the degraded steady rounds over every objective's
/// rounds), each flagged figure counts the summaries with the flag set.
pub open spec fn field_counts_read(
    r: ExperimentRunSummary,
    reps: Seq<FieldReplaySummary>,
    owners: Seq<NodeId>,
    objective_count: u32,
    rounds_floor: int,
    shift: u32,
) -> bool {
    &&& exists|p: u32|
        owned_peak(reps, owners, p, |f: FieldReplaySummary| f.bootstrap_activation_count)
            && r.field_bootstrap_activation_permille == permille(p as int, at_least_one(objective_count as int))
    &&& exists|p: u32|
        owned_peak(reps, owners, p, |f: FieldReplaySummary| f.bootstrap_hold_count)
            && r.field_bootstrap_hold_permille == permille(p as int, at_least_one(objective_count as int))
    &&& exists|p: u32|
        owned_peak(reps, owners, p, |f: FieldReplaySummary| f.bootstrap_narrow_count)
            && r.field_bootstrap_narrow_permille == permille(p as int, at_least_one(objective_count as int))
    &&& exists|p: u32|
        owned_peak(reps, owners, p, |f: FieldReplaySummary| f.bootstrap_upgrade_count)
            && r.field_bootstrap_upgrade_permille == permille(p as int, at_least_one(objective_count as int))
    &&& exists|p: u32|
        owned_peak(reps, owners, p, |f: FieldReplaySummary| f.bootstrap_withdraw_count)
            && r.field_bootstrap_withdraw_permille == permille(p as int, at_least_one(objective_count as int))
    &&& exists|p: u32|
        owned_peak(reps, owners, p, |f: FieldReplaySummary| f.degraded_steady_entry_count)
            && r.field_degraded_steady_entry_permille == permille(p as int, at_least_one(objective_count as int))
    &&& exists|p: u32|
        owned_peak(reps, owners, p, |f: FieldReplaySummary| f.degraded_steady_recovery_count)
            && r.field_degraded_steady_recovery_permille == permille(p as int, at_least_one(objective_count as int))
    &&& exists|p: u32|
        owned_peak(reps, owners, p, |f: FieldReplaySummary| f.degraded_to_bootstrap_count)
            && r.field_degraded_to_bootstrap_permille == permille(p as int, at_least_one(objective_count as int))
    &&& exists|p: u32|
        owned_peak(reps, owners, p, |f: FieldReplaySummary| f.service_retention_carry_forward_count)
            && r.field_service_retention_carry_forward_permille == permille(p as int, at_least_one(objective_count as int))
    &&& exists|p: u32|
        owned_peak(reps, owners, p, |f: FieldReplaySummary| f.asymmetric_shift_success_count)
            && r.field_asymmetric_shift_success_permille == permille(p as int, at_least_one(objective_count as int))
    &&& exists|p: u32|
        owned_peak(reps, owners, p, |f: FieldReplaySummary| f.degraded_steady_round_count)
            && r.field_degraded_steady_round_permille == #[trigger] permille(
            p as int,
            at_least_one(clamp_u32(objective_count * rounds_floor)),
        )
    &&& owned_peak(reps, owners, r.field_corridor_narrow_count, |f: FieldReplaySummary| f.corridor_narrow_count)
    &&& owned_peak(reps, owners, r.field_checkpoint_restore_count, |f: FieldReplaySummary| f.checkpoint_restore_count)
    &&& owned_peak(reps, owners, r.field_protocol_reconfiguration_count, |f: FieldReplaySummary| sat_u32(f.protocol_reconfiguration_count as int) as u32)
    &&& owned_peak(reps, owners, r.field_route_bound_reconfiguration_count, |f: FieldReplaySummary| sat_u32(f.route_bound_reconfiguration_count as int) as u32)
    &&& shift <= r.field_continuation_shift_count
    &&& forall|k: int|
        0 <= k < reps.len() && owners.contains((#[trigger] reps[k]).owner_node_id)
            ==> reps[k].continuation_shift_count <= r.field_continuation_shift_count
    &&& r.field_continuation_shift_count == shift || exists|k: int|
        0 <= k < reps.len() && owners.contains((#[trigger] reps[k]).owner_node_id)
            && reps[k].continuation_shift_count == r.field_continuation_shift_count
    &&& r.field_selected_result_rounds == sat_u32(
        reps.filter(|f: FieldReplaySummary| owners.contains(f.owner_node_id) && f.selected_result_present).len() as int,
    )
    &&& r.field_search_reconfiguration_rounds == sat_u32(
        reps.filter(|f: FieldReplaySummary| owners.contains(f.owner_node_id) && f.search_reconfiguration_present).len() as int,
    )
    &&& r.field_bootstrap_active_rounds == sat_u32(
        reps.filter(|f: FieldReplaySummary| owners.contains(f.owner_node_id) && f.bootstrap_active).len() as int,
    )
}

proof fn lemma_count_peak_is_owned_peak(reps: Seq<FieldReplaySummary>, owners: Seq<NodeId>, c: FieldCount)
    ensures
        owned_peak(reps, owners, count_peak(reps, owners, c), |f: FieldReplaySummary| count_of(f, c)),
    decreases reps.len(),
{
    if reps.len() > 0 {
        let rest = reps.drop_last();
        lemma_count_peak_is_owned_peak(rest, owners, c);
        let n = reps.len() - 1;
        assert forall|k: int| 0 <= k < rest.len() implies rest[k] == reps[k] by {}
        let p = count_peak(reps, owners, c);
        let q = count_peak(rest, owners, c);
        if p != q {
            assert(owners.contains(reps[n].owner_node_id) && count_of(reps[n], c) == p);
        } else if q != 0 {
            let k = choose|k: int| 0 <= k < rest.len() && owners.contains((#[trigger] rest[k]).owner_node_id) && count_of(rest[k], c) == q;
            assert(reps[k] == rest[k]);
        }
        assert forall|k: int| 0 <= k < reps.len() && owners.contains((#[trigger] reps[k]).owner_node_id) implies count_of(reps[k], c) <= p by {
            if k < n {
                assert(reps[k] == rest[k]);
            }
        }
    }
}

proof fn lemma_flag_rounds_filter(reps: Seq<FieldReplaySummary>, owners: Seq<NodeId>, g: FieldFlag)
    ensures
        flag_rounds(reps, owners, g) == reps.filter(|f: FieldReplaySummary| owners.contains(f.owner_node_id) && flag_of(f, g)).len(),
    decreases reps.len(),
{
    reveal_with_fuel(Seq::filter, 1);
    if reps.len() > 0 {
        lemma_flag_rounds_filter(reps.drop_last(), owners, g);
    }
}

/// Each field figure of a row reads the field summaries of the objectives'
/// owners: the counts are the greatest of each summary's own count, the
/// shares are those greatest counts over the objectives, and the flagged
/// figures count the summaries that carry the flag.
#[verifier::rlimit(60)]
pub proof fn lemma_field_figures_read_summaries(r: ExperimentRunSummary, scenario: JacquardScenario, reduced: ReducedReplayView)
    requires
        field_part(r, scenario, reduced),
    ensures
        field_counts_read(
            r,
            reduced.field_replays@,
            node_set(owners_of(scenario.bound_objectives@)),
            sat_u32(scenario.bound_objectives@.len() as int) as u32,
            if reduced.round_count >= 1 { reduced.round_count as int } else { 1 },
            shift_peak(reduced, scenario.bound_objectives@),
        ),
{
    let reps = reduced.field_replays@;
    let owners = node_set(owners_of(scenario.bound_objectives@));
    lemma_count_peak_is_owned_peak(reps, owners, FieldCount::BootstrapActivation);
    assert((|f: FieldReplaySummary| count_of(f, FieldCount::BootstrapActivation)) =~= (|f: FieldReplaySummary| f.bootstrap_activation_count));
    lemma_count_peak_is_owned_peak(reps, owners, FieldCount::BootstrapHold);
    assert((|f: FieldReplaySummary| count_of(f, FieldCount::BootstrapHold)) =~= (|f: FieldReplaySummary| f.bootstrap_hold_count));
    lemma_count_peak_is_owned_peak(reps, owners, FieldCount::BootstrapNarrow);
    assert((|f: FieldReplaySummary| count_of(f, FieldCount::BootstrapNarrow)) =~= (|f: FieldReplaySummary| f.bootstrap_narrow_count));
    lemma_count_peak_is_owned_peak(reps, owners, FieldCount::BootstrapUpgrade);
    assert((|f: FieldReplaySummary| count_of(f, FieldCount::BootstrapUpgrade)) =~= (|f: FieldReplaySummary| f.bootstrap_upgrade_count));
    lemma_count_peak_is_owned_peak(reps, owners, FieldCount::BootstrapWithdraw);
    assert((|f: FieldReplaySummary| count_of(f, FieldCount::BootstrapWithdraw)) =~= (|f: FieldReplaySummary| f.bootstrap_withdraw_count));
    lemma_count_peak_is_owned_peak(reps, owners, FieldCount::DegradedSteadyEntry);
    assert((|f: FieldReplaySummary| count_of(f, FieldCount::DegradedSteadyEntry)) =~= (|f: FieldReplaySummary| f.degraded_steady_entry_count));
    lemma_count_peak_is_owned_peak(reps, owners, FieldCount::DegradedSteadyRecovery);
    assert((|f: FieldReplaySummary| count_of(f, FieldCount::DegradedSteadyRecovery)) =~= (|f: FieldReplaySummary| f.degraded_steady_recovery_count));
    lemma_count_peak_is_owned_peak(reps, owners, FieldCount::DegradedToBootstrap);
    assert((|f: FieldReplaySummary| count_of(f, FieldCount::DegradedToBootstrap)) =~= (|f: FieldReplaySummary| f.degraded_to_bootstrap_count));
    lemma_count_peak_is_owned_peak(reps, owners, FieldCount::ServiceRetentionCarryForward);
    assert((|f: FieldReplaySummary| count_of(f, FieldCount::ServiceRetentionCarryForward)) =~= (|f: FieldReplaySummary| f.service_retention_carry_forward_count));
    lemma_count_peak_is_owned_peak(reps, owners, FieldCount::AsymmetricShiftSuccess);
    assert((|f: FieldReplaySummary| count_of(f, FieldCount::AsymmetricShiftSuccess)) =~= (|f: FieldReplaySummary| f.asymmetric_shift_success_count));
    lemma_count_peak_is_owned_peak(reps, owners, FieldCount::DegradedSteadyRound);
    assert((|f: FieldReplaySummary| count_of(f, FieldCount::DegradedSteadyRound)) =~= (|f: FieldReplaySummary| f.degraded_steady_round_count));
    lemma_count_peak_is_owned_peak(reps, owners, FieldCount::ContinuationShift);
    assert((|f: FieldReplaySummary| count_of(f, FieldCount::ContinuationShift)) =~= (|f: FieldReplaySummary| f.continuation_shift_count));
    lemma_count_peak_is_owned_peak(reps, owners, FieldCount::CorridorNarrow);
    assert((|f: FieldReplaySummary| count_of(f, FieldCount::CorridorNarrow)) =~= (|f: FieldReplaySummary| f.corridor_narrow_count));
    lemma_count_peak_is_owned_peak(reps, owners, FieldCount::CheckpointRestore);
    assert((|f: FieldReplaySummary| count_of(f, FieldCount::CheckpointRestore)) =~= (|f: FieldReplaySummary| f.checkpoint_restore_count));
    lemma_count_peak_is_owned_peak(reps, owners, FieldCount::ProtocolReconfiguration);
    assert((|f: FieldReplaySummary| count_of(f, FieldCount::ProtocolReconfiguration)) =~= (|f: FieldReplaySummary| sat_u32(f.protocol_reconfiguration_count as int) as u32));
    lemma_count_peak_is_owned_peak(reps, owners, FieldCount::RouteBoundReconfiguration);
    assert((|f: FieldReplaySummary| count_of(f, FieldCount::RouteBoundReconfiguration)) =~= (|f: FieldReplaySummary| sat_u32(f.route_bound_reconfiguration_count as int) as u32));
    lemma_flag_rounds_filter(reps, owners, FieldFlag::SelectedResult);
    assert((|f: FieldReplaySummary| owners.contains(f.owner_node_id) && flag_of(f, FieldFlag::SelectedResult))
        =~= (|f: FieldReplaySummary| owners.contains(f.owner_node_id) && f.selected_result_present));
    lemma_flag_rounds_filter(reps, owners, FieldFlag::SearchReconfiguration);
    assert((|f: FieldReplaySummary| owners.contains(f.owner_node_id) && flag_of(f, FieldFlag::SearchReconfiguration))
        =~= (|f: FieldReplaySummary| owners.contains(f.owner_node_id) && f.search_reconfiguration_present));
    lemma_flag_rounds_filter(reps, owners, FieldFlag::BootstrapActive);
    assert((|f: FieldReplaySummary| owners.contains(f.owner_node_id) && flag_of(f, FieldFlag::BootstrapActive))
        =~= (|f: FieldReplaySummary| owners.contains(f.owner_node_id) && f.bootstrap_active));
    let p_bootstrap_activation = count_peak(reps, owners, FieldCount::BootstrapActivation);
    assert(owned_peak(reps, owners, p_bootstrap_activation, |f: FieldReplaySummary| f.bootstrap_activation_count));
    let p_bootstrap_hold = count_peak(reps, owners, FieldCount::BootstrapHold);
    assert(owned_peak(reps, owners, p_bootstrap_hold, |f: FieldReplaySummary| f.bootstrap_hold_count));
    let p_bootstrap_narrow = count_peak(reps, owners, FieldCount::BootstrapNarrow);
    assert(owned_peak(reps, owners, p_bootstrap_narrow, |f: FieldReplaySummary| f.bootstrap_narrow_count));
    let p_bootstrap_upgrade = count_peak(reps, owners, FieldCount::BootstrapUpgrade);
    assert(owned_peak(reps, owners, p_bootstrap_upgrade, |f: FieldReplaySummary| f.bootstrap_upgrade_count));
    let p_bootstrap_withdraw = count_peak(reps, owners, FieldCount::BootstrapWithdraw);
    assert(owned_peak(reps, owners, p_bootstrap_withdraw, |f: FieldReplaySummary| f.bootstrap_withdraw_count));
    let p_degraded_steady_entry = count_peak(reps, owners, FieldCount::DegradedSteadyEntry);
    assert(owned_peak(reps, owners, p_degraded_steady_entry, |f: FieldReplaySummary| f.degraded_steady_entry_count));
    let p_degraded_steady_recovery = count_peak(reps, owners, FieldCount::DegradedSteadyRecovery);
    assert(owned_peak(reps, owners, p_degraded_steady_recovery, |f: FieldReplaySummary| f.degraded_steady_recovery_count));
    let p_degraded_to_bootstrap = count_peak(reps, owners, FieldCount::DegradedToBootstrap);
    assert(owned_peak(reps, owners, p_degraded_to_bootstrap, |f: FieldReplaySummary| f.degraded_to_bootstrap_count));
    let p_service_retention_carry_forward = count_peak(reps, owners, FieldCount::ServiceRetentionCarryForward);
    assert(owned_peak(reps, owners, p_service_retention_carry_forward, |f: FieldReplaySummary| f.service_retention_carry_forward_count));
    let p_asymmetric_shift_success = count_peak(reps, owners, FieldCount::AsymmetricShiftSuccess);
    assert(owned_peak(reps, owners, p_asymmetric_shift_success, |f: FieldReplaySummary| f.asymmetric_shift_success_count));
    let p_degraded_steady_round = count_peak(reps, owners, FieldCount::DegradedSteadyRound);
    assert(owned_peak(reps, owners, p_degraded_steady_round, |f: FieldReplaySummary| f.degraded_steady_round_count));
    let p_continuation_shift = count_peak(reps, owners, FieldCount::ContinuationShift);
    assert(owned_peak(reps, owners, p_continuation_shift, |f: FieldReplaySummary| f.continuation_shift_count));
}

/// `x` is the first label that `read` finds, going through `owners` in order
/// and, for each, through its summaries in order; none where no summary of a
/// node in `owners` has one.
pub open spec fn first_read(
    reps: Seq<FieldReplaySummary>,
    owners: Seq<NodeId>,
    read: spec_fn(FieldReplaySummary) -> Option<Seq<char>>,
    x: Option<Seq<char>>,
) -> bool {
    match x {
        None => forall|k: int| 0 <= k < reps.len() && owners.contains((#[trigger] reps[k]).owner_node_id) ==> read(reps[k]) is None,
        Some(_) => exists|i: int, k: int|
            #![trigger owners[i], reps[k]]
            0 <= i < owners.len() && 0 <= k < reps.len() && reps[k].owner_node_id == owners[i] && read(reps[k]) == x
                && (forall|i2: int, k2: int|
                    0 <= i2 < i && 0 <= k2 < reps.len() && (#[trigger] reps[k2]).owner_node_id == #[trigger] owners[i2]
                        ==> read(reps[k2]) is None)
                && (forall|k2: int| 0 <= k2 < k && (#[trigger] reps[k2]).owner_node_id == owners[i] ==> read(reps[k2]) is None),
    }
}

proof fn lemma_label_for_owner_first(reps: Seq<FieldReplaySummary>, o: NodeId, l: FieldLabel)
    ensures
        label_for_owner(reps, o, l) is None ==> forall|k: int|
            0 <= k < reps.len() && (#[trigger] reps[k]).owner_node_id == o ==> label_of(reps[k], l) is None,
        label_for_owner(reps, o, l) is Some ==> exists|k: int|
            0 <= k < reps.len() && (#[trigger] reps[k]).owner_node_id == o && label_of(reps[k], l) == label_for_owner(reps, o, l)
                && forall|k2: int| 0 <= k2 < k && (#[trigger] reps[k2]).owner_node_id == o ==> label_of(reps[k2], l) is None,
    decreases reps.len(),
{
    if reps.len() > 0 {
        let rest = reps.drop_last();
        lemma_label_for_owner_first(rest, o, l);
        assert forall|k: int| 0 <= k < rest.len() implies rest[k] == reps[k] by {}
        if label_for_owner(rest, o, l) is Some {
            let k = choose|k: int|
                0 <= k < rest.len() && (#[trigger] rest[k]).owner_node_id == o && label_of(rest[k], l) == label_for_owner(rest, o, l)
                    && forall|k2: int| 0 <= k2 < k && (#[trigger] rest[k2]).owner_node_id == o ==> label_of(rest[k2], l) is None;
            assert(reps[k] == rest[k]);
            assert forall|k2: int| 0 <= k2 < k && (#[trigger] reps[k2]).owner_node_id == o implies label_of(reps[k2], l) is None by {
                assert(reps[k2] == rest[k2]);
            }
        } else {
            assert forall|k: int| 0 <= k < rest.len() && (#[trigger] reps[k]).owner_node_id == o implies label_of(reps[k], l) is None by {
                assert(reps[k] == rest[k]);
            }
        }
    }
}

proof fn lemma_first_label_first(reps: Seq<FieldReplaySummary>, owners: Seq<NodeId>, l: FieldLabel)
    ensures
        first_read(reps, owners, |f: FieldReplaySummary| label_of(f, l), first_label(reps, owners, l)),
    decreases owners.len(),
{
    let read = |f: FieldReplaySummary| label_of(f, l);
    if owners.len() == 0 {
        assert forall|k: int| 0 <= k < reps.len() && owners.contains((#[trigger] reps[k]).owner_node_id) implies read(reps[k]) is None by {}
    } else {
        let front = owners.drop_last();
        let n = owners.len() - 1;
        let o = owners[n];
        lemma_first_label_first(reps, front, l);
        lemma_label_for_owner_first(reps, o, l);
        assert forall|i: int| 0 <= i < front.len() implies front[i] == owners[i] by {}
        match first_label(reps, front, l) {
            Some(x) => {
                let (i, k) = choose|i: int, k: int|
                    #![trigger front[i], reps[k]]
                    0 <= i < front.len() && 0 <= k < reps.len() && reps[k].owner_node_id == front[i] && read(reps[k]) == Some(x)
                        && (forall|i2: int, k2: int|
                            0 <= i2 < i && 0 <= k2 < reps.len() && (#[trigger] reps[k2]).owner_node_id == #[trigger] front[i2]
                                ==> read(reps[k2]) is None)
                        && (forall|k2: int| 0 <= k2 < k && (#[trigger] reps[k2]).owner_node_id == front[i] ==> read(reps[k2]) is None);
                assert(owners[i] == front[i]);
                assert forall|i2: int, k2: int|
                    0 <= i2 < i && 0 <= k2 < reps.len() && (#[trigger] reps[k2]).owner_node_id == #[trigger] owners[i2]
                        implies read(reps[k2]) is None by {
                    assert(owners[i2] == front[i2]);
                }
            },
            None => {
                assert forall|i2: int, k2: int|
                    0 <= i2 < n && 0 <= k2 < reps.len() && (#[trigger] reps[k2]).owner_node_id == #[trigger] owners[i2]
                        implies read(reps[k2]) is None by {
                    assert(owners[i2] == front[i2]);
                    assert(front.contains(reps[k2].owner_node_id));
                }
                if label_for_owner(reps, o, l) is Some {
                    let k = choose|k: int|
                        0 <= k < reps.len() && (#[trigger] reps[k]).owner_node_id == o && label_of(reps[k], l) == label_for_owner(reps, o, l)
                            && forall|k2: int| 0 <= k2 < k && (#[trigger] reps[k2]).owner_node_id == o ==> label_of(reps[k2], l) is None;
                    assert(reps[k].owner_node_id == owners[n]);
                } else {
                    assert forall|k: int| 0 <= k < reps.len() && owners.contains((#[trigger] reps[k]).owner_node_id) implies read(reps[k]) is None by {
                        let i = choose|i: int| 0 <= i < owners.len() && owners[i] == reps[k].owner_node_id;
                        if i < n {
                            assert(front[i] == owners[i]);
                            assert(front.contains(reps[k].owner_node_id));
                        }
                    }
                }
            },
        }
    }
}

/// The field labels of a row: the transition is the first that the owners'
/// summaries hold (owners in order, then summaries in order); the band, the
/// promotion decision and the blocker are likewise the first of the
/// summaries' own, and where no summary of an owner has one, the first that
/// the objectives' records hold.
pub proof fn lemma_field_labels_read_summaries(r: ExperimentRunSummary, scenario: JacquardScenario, reduced: ReducedReplayView)
    requires
        field_part(r, scenario, reduced),
    ensures
        first_read(
            reduced.field_replays@,
            node_set(owners_of(scenario.bound_objectives@)),
            |f: FieldReplaySummary| opt_chars(f.last_continuity_transition),
            opt_chars(r.field_last_continuity_transition),
        ),
        first_read(
            reduced.field_replays@,
            node_set(owners_of(scenario.bound_objectives@)),
            |f: FieldReplaySummary| opt_chars(f.continuity_band),
            opt_chars(r.field_continuity_band),
        ) || (first_read(
            reduced.field_replays@,
            node_set(owners_of(scenario.bound_objectives@)),
            |f: FieldReplaySummary| opt_chars(f.continuity_band),
            None,
        ) && opt_chars(r.field_continuity_band) == objective_text(reduced, scenario.bound_objectives@, ObjectiveText::ContinuityBand)),
        first_read(
            reduced.field_replays@,
            node_set(owners_of(scenario.bound_objectives@)),
            |f: FieldReplaySummary| opt_chars(f.last_promotion_decision),
            opt_chars(r.field_last_promotion_decision),
        ) || (first_read(
            reduced.field_replays@,
            node_set(owners_of(scenario.bound_objectives@)),
            |f: FieldReplaySummary| opt_chars(f.last_promotion_decision),
            None,
        ) && opt_chars(r.field_last_promotion_decision) == objective_text(reduced, scenario.bound_objectives@, ObjectiveText::PromotionDecision)),
        first_read(
            reduced.field_replays@,
            node_set(owners_of(scenario.bound_objectives@)),
            |f: FieldReplaySummary| opt_chars(f.last_promotion_blocker),
            opt_chars(r.field_last_promotion_blocker),
        ) || (first_read(
            reduced.field_replays@,
            node_set(owners_of(scenario.bound_objectives@)),
            |f: FieldReplaySummary| opt_chars(f.last_promotion_blocker),
            None,
        ) && opt_chars(r.field_last_promotion_blocker) == objective_text(reduced, scenario.bound_objectives@, ObjectiveText::PromotionBlocker)),
{
    let reps = reduced.field_replays@;
    let owners = node_set(owners_of(scenario.bound_objectives@));
    lemma_first_label_first(reps, owners, FieldLabel::ContinuityTransition);
    lemma_first_label_first(reps, owners, FieldLabel::ContinuityBand);
    lemma_first_label_first(reps, owners, FieldLabel::PromotionDecision);
    lemma_first_label_first(reps, owners, FieldLabel::PromotionBlocker);
    assert((|f: FieldReplaySummary| label_of(f, FieldLabel::ContinuityTransition))
        =~= (|f: FieldReplaySummary| opt_chars(f.last_continuity_transition)));
    assert((|f: FieldReplaySummary| label_of(f, FieldLabel::ContinuityBand)) =~= (|f: FieldReplaySummary| opt_chars(f.continuity_band)));
    assert((|f: FieldReplaySummary| label_of(f, FieldLabel::PromotionDecision))
        =~= (|f: FieldReplaySummary| opt_chars(f.last_promotion_decision)));
    assert((|f: FieldReplaySummary| label_of(f, FieldLabel::PromotionBlocker))
        =~= (|f: FieldReplaySummary| opt_chars(f.last_promotion_blocker)));
}

/// What `read` gives of the replay record of objective `b` (none where it has
/// no record).
pub open spec fn recorded(
    reduced: ReducedReplayView,
    b: BoundObjective,
    read: spec_fn(ObjectiveReplay) -> Option<Seq<char>>,
) -> Option<Seq<char>> {
    match replay_for(reduced.objective_replays@, b.owner_node_id, b.objective.destination@) {
        Some(x) => read(x),
        None => None,
    }
}

/// `x` is the first label that `read` finds in the objectives' records, in
/// the objectives' order; none where no record has one.
pub open spec fn first_recorded(
    reduced: ReducedReplayView,
    objs: Seq<BoundObjective>,
    read: spec_fn(ObjectiveReplay) -> Option<Seq<char>>,
    x: Option<Seq<char>>,
) -> bool {
    match x {
        None => forall|i: int| 0 <= i < objs.len() ==> recorded(reduced, #[trigger] objs[i], read) is None,
        Some(_) => exists|i: int|
            0 <= i < objs.len() && recorded(reduced, #[trigger] objs[i], read) == x
                && forall|i2: int| 0 <= i2 < i ==> recorded(reduced, #[trigger] objs[i2], read) is None,
    }
}

proof fn lemma_objective_text_first(reduced: ReducedReplayView, objs: Seq<BoundObjective>, t: ObjectiveText)
    ensures
        first_recorded(reduced, objs, |x: ObjectiveReplay| text_of(Some(x), t), objective_text(reduced, objs, t)),
    decreases objs.len(),
{
    let read = |x: ObjectiveReplay| text_of(Some(x), t);
    assert forall|b: BoundObjective| recorded(reduced, b, read)
        == text_of(replay_for(reduced.objective_replays@, b.owner_node_id, b.objective.destination@), t) by {}
    if objs.len() > 0 {
        let front = objs.drop_last();
        let n = objs.len() - 1;
        lemma_objective_text_first(reduced, front, t);
        assert forall|i: int| 0 <= i < front.len() implies front[i] == objs[i] by {}
        match objective_text(reduced, front, t) {
            Some(x) => {
                let i = choose|i: int|
                    0 <= i < front.len() && recorded(reduced, #[trigger] front[i], read) == Some(x)
                        && forall|i2: int| 0 <= i2 < i ==> recorded(reduced, #[trigger] front[i2], read) is None;
                assert(objs[i] == front[i]);
                assert forall|i2: int| 0 <= i2 < i implies recorded(reduced, #[trigger] objs[i2], read) is None by {
                    assert(objs[i2] == front[i2]);
                }
            },
            None => {
                assert forall|i2: int| 0 <= i2 < n implies recorded(reduced, #[trigger] objs[i2], read) is None by {
                    assert(objs[i2] == front[i2]);
                }
            },
        }
    }
}

/// The labels of a row that come from the objectives' own records: the
/// commitment resolution and the last outcome are the first that the records
/// hold, in the objectives' order; the band, the promotion decision and the
/// blocker are too, where no field summary of an owner has one.
pub proof fn lemma_objective_labels_read_records(r: ExperimentRunSummary, scenario: JacquardScenario, reduced: ReducedReplayView)
    requires
        field_part(r, scenario, reduced),
    ensures
        first_recorded(
            reduced,
            scenario.bound_objectives@,
            |x: ObjectiveReplay| opt_chars(x.commitment_resolution),
            opt_chars(r.field_commitment_resolution),
        ),
        first_recorded(
            reduced,
            scenario.bound_objectives@,
            |x: ObjectiveReplay| opt_chars(x.last_outcome),
            opt_chars(r.field_last_outcome),
        ),
        first_read(
            reduced.field_replays@,
            node_set(owners_of(scenario.bound_objectives@)),
            |f: FieldReplaySummary| opt_chars(f.continuity_band),
            None,
        ) ==> first_recorded(
            reduced,
            scenario.bound_objectives@,
            |x: ObjectiveReplay| opt_chars(x.continuity_band),
            opt_chars(r.field_continuity_band),
        ),
        first_read(
            reduced.field_replays@,
            node_set(owners_of(scenario.bound_objectives@)),
            |f: FieldReplaySummary| opt_chars(f.last_promotion_decision),
            None,
        ) ==> first_recorded(
            reduced,
            scenario.bound_objectives@,
            |x: ObjectiveReplay| opt_chars(x.promotion_decision),
            opt_chars(r.field_last_promotion_decision),
        ),
        first_read(
            reduced.field_replays@,
            node_set(owners_of(scenario.bound_objectives@)),
            |f: FieldReplaySummary| opt_chars(f.last_promotion_blocker),
            None,
        ) ==> first_recorded(
            reduced,
            scenario.bound_objectives@,
            |x: ObjectiveReplay| opt_chars(x.promotion_blocker),
            opt_chars(r.field_last_promotion_blocker),
        ),
{
    let objs = scenario.bound_objectives@;
    let reps = reduced.field_replays@;
    let owners = node_set(owners_of(objs));
    lemma_objective_text_first(reduced, objs, ObjectiveText::CommitmentResolution);
    assert((|x: ObjectiveReplay| text_of(Some(x), ObjectiveText::CommitmentResolution)) =~= (|x: ObjectiveReplay| opt_chars(x.commitment_resolution)));
    lemma_objective_text_first(reduced, objs, ObjectiveText::LastOutcome);
    assert((|x: ObjectiveReplay| text_of(Some(x), ObjectiveText::LastOutcome)) =~= (|x: ObjectiveReplay| opt_chars(x.last_outcome)));
    lemma_objective_text_first(reduced, objs, ObjectiveText::ContinuityBand);
    assert((|x: ObjectiveReplay| text_of(Some(x), ObjectiveText::ContinuityBand)) =~= (|x: ObjectiveReplay| opt_chars(x.continuity_band)));
    lemma_objective_text_first(reduced, objs, ObjectiveText::PromotionDecision);
    assert((|x: ObjectiveReplay| text_of(Some(x), ObjectiveText::PromotionDecision)) =~= (|x: ObjectiveReplay| opt_chars(x.promotion_decision)));
    lemma_objective_text_first(reduced, objs, ObjectiveText::PromotionBlocker);
    assert((|x: ObjectiveReplay| text_of(Some(x), ObjectiveText::PromotionBlocker)) =~= (|x: ObjectiveReplay| opt_chars(x.promotion_blocker)));
    lemma_field_labels_read_summaries(r, scenario, reduced);
    lemma_first_label_first(reps, owners, FieldLabel::ContinuityBand);
    lemma_first_label_first(reps, owners, FieldLabel::PromotionDecision);
    lemma_first_label_first(reps, owners, FieldLabel::PromotionBlocker);
    assert((|f: FieldReplaySummary| label_of(f, FieldLabel::ContinuityBand)) =~= (|f: FieldReplaySummary| opt_chars(f.continuity_band)));
    assert((|f: FieldReplaySummary| label_of(f, FieldLabel::PromotionDecision))
        =~= (|f: FieldReplaySummary| opt_chars(f.last_promotion_decision)));
    assert((|f: FieldReplaySummary| label_of(f, FieldLabel::PromotionBlocker))
        =~= (|f: FieldReplaySummary| opt_chars(f.last_promotion_blocker)));
}

proof fn lemma_measures_map(reduced: ReducedReplayView, objs: Seq<BoundObjective>)
    ensures
        measures_of(reduced, objs) =~= objs.map_values(|b: BoundObjective| objective_measures(reduced, b)),
    decreases objs.len(),
{
    if objs.len() > 0 {
        lemma_measures_map(reduced, objs.drop_last());
    }
}

/// The objective figures of a row read each objective's own measures, taken
/// in the objectives' order: the counts, sums and means that the row carries
/// are those of the measures' own fields.
pub proof fn lemma_run_row_reads_objectives(r: ExperimentRunSummary, scenario: JacquardScenario, reduced: ReducedReplayView)
    requires
        figures_of(measures_of(reduced, scenario.bound_objectives@), reduced.round_count, objective_part(r)),
    ensures
        measures_of(reduced, scenario.bound_objectives@) == scenario.bound_objectives@.map_values(
            |b: BoundObjective| objective_measures(reduced, b),
        ),
        r.activation_success_permille == permille(
            sat_u32(measures_of(reduced, scenario.bound_objectives@).filter(|m: ObjectiveMeasures| m.route_seen).len() as int),
            sat_u32(measures_of(reduced, scenario.bound_objectives@).len() as int),
        ),
        r.objective_starvation_count == sat_u32(measures_of(reduced, scenario.bound_objectives@).filter(|m: ObjectiveMeasures| m.presence_permille == 0).len() as int),
        r.recovery_success_permille == permille(
            sat_u32(measures_of(reduced, scenario.bound_objectives@).filter(|m: ObjectiveMeasures| m.recovery_round is Some).len() as int),
            if measures_of(reduced, scenario.bound_objectives@).len() >= 1 { sat_u32(measures_of(reduced, scenario.bound_objectives@).len() as int) } else { 1 },
        ),
        r.unrecovered_after_loss_count == sat_u32(
            measures_of(reduced, scenario.bound_objectives@).filter(|m: ObjectiveMeasures| m.recovery_round is None && m.first_loss_round is Some).len() as int,
        ),
        r.route_present_permille == mean_u32(measures_of(reduced, scenario.bound_objectives@).map_values(|m: ObjectiveMeasures| m.presence_permille)),
        (r.objective_route_presence_min_permille, r.objective_route_presence_max_permille, r.objective_route_presence_spread)
            == min_max_spread(measures_of(reduced, scenario.bound_objectives@).map_values(|m: ObjectiveMeasures| m.presence_permille)),
        r.route_present_total_window_permille == permille(
            sat_u32(sum_u32(measures_of(reduced, scenario.bound_objectives@).map_values(|m: ObjectiveMeasures| m.present_round_count))),
            clamp_u32(sat_u32(measures_of(reduced, scenario.bound_objectives@).len() as int) * if reduced.round_count >= 1 { reduced.round_count as int } else { 1 }),
        ),
        r.route_churn_count == sat_u32(sum_u32(measures_of(reduced, scenario.bound_objectives@).map_values(|m: ObjectiveMeasures| m.churn_count))),
        r.engine_handoff_count == sat_u32(sum_u32(measures_of(reduced, scenario.bound_objectives@).map_values(|m: ObjectiveMeasures| m.handoff_count))),
        r.route_observation_count == sat_u32(sum_u32(measures_of(reduced, scenario.bound_objectives@).map_values(|m: ObjectiveMeasures| m.observation_count))),
        r.first_materialization_round_mean == mean_option_u32(measures_of(reduced, scenario.bound_objectives@).map_values(|m: ObjectiveMeasures| m.first_route_round)),
        r.first_disruption_round_mean == mean_option_u32(measures_of(reduced, scenario.bound_objectives@).map_values(|m: ObjectiveMeasures| m.first_disruption_round)),
        r.first_loss_round_mean == mean_option_u32(measures_of(reduced, scenario.bound_objectives@).map_values(|m: ObjectiveMeasures| m.first_loss_round)),
        r.stale_persistence_round_mean == mean_option_u32(
            measures_of(reduced, scenario.bound_objectives@).map_values(
                |m: ObjectiveMeasures|
                    if m.first_disruption_round is Some && m.first_loss_round is Some {
                        let d = m.first_disruption_round->0;
                        let l = m.first_loss_round->0;
                        Some(if l >= d { (l - d) as u32 } else { 0u32 })
                    } else {
                        None
                    },
            ),
        ),
        r.recovery_round_mean == mean_option_u32(measures_of(reduced, scenario.bound_objectives@).map_values(|m: ObjectiveMeasures| m.recovery_round)),
{
    lemma_measures_map(reduced, scenario.bound_objectives@);
    lemma_figures_read_objectives(measures_of(reduced, scenario.bound_objectives@), reduced.round_count, objective_part(r));
}

/// The record of an objective is the first whose owner and destination are
/// the objective's, and none where no record is.
pub proof fn lemma_replay_for_first(reps: Seq<ObjectiveReplay>, owner: NodeId, destination: DestinationView)
    ensures
        replay_for(reps, owner, destination) is None <==> forall|k: int|
            0 <= k < reps.len() ==> !((#[trigger] reps[k]).owner_node_id == owner && reps[k].destination@ == destination),
        replay_for(reps, owner, destination) is Some ==> exists|k: int|
            0 <= k < reps.len() && (#[trigger] reps[k]).owner_node_id == owner && reps[k].destination@ == destination
                && replay_for(reps, owner, destination) == Some(reps[k])
                && forall|m: int| 0 <= m < k ==> !((#[trigger] reps[m]).owner_node_id == owner && reps[m].destination@ == destination),
    decreases reps.len(),
{
    if reps.len() > 0 {
        let rest = reps.drop_first();
        lemma_replay_for_first(rest, owner, destination);
        assert forall|k: int| 0 <= k < rest.len() implies rest[k] == reps[k + 1] by {}
        if !replay_matches(reps[0], owner, destination) {
            if replay_for(rest, owner, destination) is Some {
                let k = choose|k: int|
                    0 <= k < rest.len() && (#[trigger] rest[k]).owner_node_id == owner && rest[k].destination@ == destination
                        && replay_for(rest, owner, destination) == Some(rest[k])
                        && forall|m: int| 0 <= m < k ==> !((#[trigger] rest[m]).owner_node_id == owner && rest[m].destination@ == destination);
                assert(reps[k + 1] == rest[k]);
                assert forall|m: int| 0 <= m < k + 1 implies !((#[trigger] reps[m]).owner_node_id == owner && reps[m].destination@ == destination) by {
                    if m > 0 {
                        assert(reps[m] == rest[m - 1]);
                    }
                }
            } else {
                assert forall|k: int| 0 <= k < reps.len() implies !((#[trigger] reps[k]).owner_node_id == owner && reps[k].destination@ == destination) by {
                    if k > 0 {
                        assert(reps[k] == rest[k - 1]);
                    }
                }
            }
        }
    }
}

} // verus!
