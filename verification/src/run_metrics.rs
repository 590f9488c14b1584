//! Run measures read straight off the rounds of a reduced replay: the scatter
//! runtime's regime and action rounds and message peaks, rounds in which
//! several objectives hold routes at once, rounds without any route, and the
//! loss, recovery and broker figures that a run summary derives from them.
use vstd::prelude::*;
use crate::replay::{route_for, route_usable, route_usable_in_configuration, sat_u32, same_destination, ActiveRouteSummary, DestinationId, DestinationView, ReducedReplayView, ReducedRound, RoutingEngineId};
use crate::scenario::BoundObjective;
use crate::text::str_eq;
use crate::stats::{
    average_option_u32, average_u32, clamp_u32, lemma_mean_between_extremes, lemma_permille_of_part_is_bounded, mean_option_u32, mean_u32, min_max_spread, min_max_spread_u32, permille,
    ratio_permille, sum_u32,
};
use crate::topology::{Configuration, NodeId};

verus! {

/// Whether the route belongs to the scatter engine.
pub open spec fn is_scatter(r: ActiveRouteSummary) -> bool {
    r.engine_id == RoutingEngineId::Scatter
}

/// The regime named by the first scatter route of a round that names one.
pub open spec fn first_scatter_regime(routes: Seq<ActiveRouteSummary>) -> Option<Seq<char>>
    decreases routes.len(),
{
    if routes.len() == 0 {
        None
    } else if is_scatter(routes[0]) && routes[0].scatter_current_regime is Some {
        Some(routes[0].scatter_current_regime->0@)
    } else {
        first_scatter_regime(routes.drop_first())
    }
}

/// Whether some scatter route of a round last took `action`.
pub open spec fn scatter_action_taken(routes: Seq<ActiveRouteSummary>, action: Seq<char>) -> bool {
    exists|k: int|
        0 <= k < routes.len() && is_scatter(#[trigger] routes[k]) && routes[k].scatter_last_action is Some
            && routes[k].scatter_last_action->0@ == action
}

/// Number of rounds whose scatter regime is `regime`.
pub open spec fn regime_rounds(rounds: Seq<ReducedRound>, regime: Seq<char>) -> nat
    decreases rounds.len(),
{
    if rounds.len() == 0 {
        0
    } else {
        regime_rounds(rounds.drop_last(), regime) + if first_scatter_regime(rounds.last().active_routes@) == Some(regime) {
            1nat
        } else {
            0nat
        }
    }
}

/// Number of rounds in which some scatter route last took `action`.
pub open spec fn action_rounds(rounds: Seq<ReducedRound>, action: Seq<char>) -> nat
    decreases rounds.len(),
{
    if rounds.len() == 0 {
        0
    } else {
        action_rounds(rounds.drop_last(), action) + if scatter_action_taken(rounds.last().active_routes@, action) {
            1nat
        } else {
            0nat
        }
    }
}

/// The larger of two optional values; a missing value never wins.
pub open spec fn opt_max(a: Option<u32>, b: Option<u32>) -> Option<u32> {
    match (a, b) {
        (Some(x), Some(y)) => Some(if x >= y { x } else { y }),
        (Some(x), None) => Some(x),
        (None, y) => y,
    }
}

fn opt_max_exec(a: Option<u32>, b: Option<u32>) -> (r: Option<u32>)
    ensures
        r == opt_max(a, b),
{
    match (a, b) {
        (Some(x), Some(y)) => Some(if x >= y { x } else { y }),
        (Some(x), None) => Some(x),
        (None, y) => y,
    }
}

/// The message count that a scatter route reports: retained messages, or
/// delivered ones when `delivered`.
pub open spec fn scatter_messages(r: ActiveRouteSummary, delivered: bool) -> Option<u32> {
    if !is_scatter(r) {
        None
    } else if delivered {
        r.scatter_delivered_message_count
    } else {
        r.scatter_retained_message_count
    }
}

/// The largest message count that the scatter routes of a round report.
pub open spec fn round_message_peak(routes: Seq<ActiveRouteSummary>, delivered: bool) -> Option<u32>
    decreases routes.len(),
{
    if routes.len() == 0 {
        None
    } else {
        opt_max(round_message_peak(routes.drop_last(), delivered), scatter_messages(routes.last(), delivered))
    }
}

/// The largest message count that any scatter route reports in any round.
pub open spec fn message_peak(rounds: Seq<ReducedRound>, delivered: bool) -> Option<u32>
    decreases rounds.len(),
{
    if rounds.len() == 0 {
        None
    } else {
        opt_max(message_peak(rounds.drop_last(), delivered), round_message_peak(rounds.last().active_routes@, delivered))
    }
}

/// How the scatter runtime behaved over a run: rounds spent in each regime,
/// rounds in which it replicated or handed off, and its message peaks.
#[derive(Clone, Debug)]
pub struct ScatterRuntimeCounts {
    pub sparse_rounds: u32,
    pub dense_rounds: u32,
    pub bridging_rounds: u32,
    pub constrained_rounds: u32,
    pub replicate_rounds: u32,
    pub handoff_rounds: u32,
    pub retained_message_peak: Option<u32>,
    pub delivered_message_peak: Option<u32>,
}

/// What one round contributes: its regime, whether it replicated or handed
/// off, and its two message peaks.
struct RoundScatter {
    regime: Option<String>,
    replicate: bool,
    handoff: bool,
    retained: Option<u32>,
    delivered: Option<u32>,
}

fn round_scatter(routes: &Vec<ActiveRouteSummary>) -> (r: RoundScatter)
    ensures
        match r.regime {
            Some(s) => first_scatter_regime(routes@) == Some(s@),
            None => first_scatter_regime(routes@) is None,
        },
        r.replicate == scatter_action_taken(routes@, "Replicate"@),
        r.handoff == scatter_action_taken(routes@, "PreferentialHandoff"@),
        r.retained == round_message_peak(routes@, false),
        r.delivered == round_message_peak(routes@, true),
{
    let ghost rs = routes@;
    let mut regime: Option<String> = None;
    let mut replicate = false;
    let mut handoff = false;
    let mut retained: Option<u32> = None;
    let mut delivered: Option<u32> = None;
    let mut i: usize = 0;
    assert(rs.skip(0) =~= rs);
    assert(rs.take(0) =~= Seq::<ActiveRouteSummary>::empty());
    while i < routes.len()
        invariant
            rs == routes@,
            i <= rs.len(),
            match regime {
                Some(s) => first_scatter_regime(rs) == Some(s@),
                None => first_scatter_regime(rs) == first_scatter_regime(rs.skip(i as int)),
            },
            replicate == scatter_action_taken(rs.take(i as int), "Replicate"@),
            handoff == scatter_action_taken(rs.take(i as int), "PreferentialHandoff"@),
            retained == round_message_peak(rs.take(i as int), false),
            delivered == round_message_peak(rs.take(i as int), true),
        decreases rs.len() - i,
    {
        let route = &routes[i];
        let ghost prefix = rs.take(i as int);
        let ghost next = rs.take(i + 1);
        assert(next.drop_last() =~= prefix);
        assert(next.last() == *route);
        assert(rs.skip(i as int).drop_first() =~= rs.skip(i + 1));
        assert(rs.skip(i as int)[0] == *route);
        let scatter = route.engine_id == RoutingEngineId::Scatter;
        if scatter {
            if regime.is_none() {
                match &route.scatter_current_regime {
                    Some(s) => {
                        regime = Some(s.clone());
                    },
                    None => {},
                }
            }
            match &route.scatter_last_action {
                Some(a) => {
                    if str_eq(a.as_str(), "Replicate") {
                        replicate = true;
                    }
                    if str_eq(a.as_str(), "PreferentialHandoff") {
                        handoff = true;
                    }
                },
                None => {},
            }
            retained = opt_max_exec(retained, route.scatter_retained_message_count);
            delivered = opt_max_exec(delivered, route.scatter_delivered_message_count);
        } else {
            retained = opt_max_exec(retained, None);
            delivered = opt_max_exec(delivered, None);
        }
        proof {
            assert forall|act: Seq<char>| scatter_action_taken(next, act) == (scatter_action_taken(prefix, act) || (is_scatter(
                *route,
            ) && route.scatter_last_action is Some && route.scatter_last_action->0@ == act)) by {
                if scatter_action_taken(next, act) {
                    let k = choose|k: int|
                        0 <= k < next.len() && is_scatter(#[trigger] next[k]) && next[k].scatter_last_action is Some
                            && next[k].scatter_last_action->0@ == act;
                    if k < i {
                        assert(prefix[k] == next[k]);
                    }
                }
                if scatter_action_taken(prefix, act) {
                    let k = choose|k: int|
                        0 <= k < prefix.len() && is_scatter(#[trigger] prefix[k]) && prefix[k].scatter_last_action is Some
                            && prefix[k].scatter_last_action->0@ == act;
                    assert(next[k] == prefix[k]);
                }
                if is_scatter(*route) && route.scatter_last_action is Some && route.scatter_last_action->0@ == act {
                    assert(next[i as int] == *route);
                }
            }
        }
        i = i + 1;
    }
    assert(rs.take(i as int) =~= rs);
    proof {
        if regime is None {
            assert(rs.skip(i as int).len() == 0);
        }
    }
    RoundScatter { regime, replicate, handoff, retained, delivered }
}

fn bump(count: u32, hit: bool) -> (r: u32)
    ensures
        r == if hit { if count == u32::MAX { count as int } else { count + 1 } } else { count as int },
{
    if hit { count.saturating_add(1) } else { count }
}

/// The scatter runtime's regime rounds, action rounds and message peaks over
/// the rounds of a replay (each count saturating at `u32::MAX`). A round
/// without scatter routes contributes nothing.
pub fn scatter_runtime_counts(reduced: &ReducedReplayView) -> (r: ScatterRuntimeCounts)
    ensures
        r.sparse_rounds == sat_u32(regime_rounds(reduced.rounds@, "Sparse"@) as int),
        r.dense_rounds == sat_u32(regime_rounds(reduced.rounds@, "Dense"@) as int),
        r.bridging_rounds == sat_u32(regime_rounds(reduced.rounds@, "Bridging"@) as int),
        r.constrained_rounds == sat_u32(regime_rounds(reduced.rounds@, "Constrained"@) as int),
        r.replicate_rounds == sat_u32(action_rounds(reduced.rounds@, "Replicate"@) as int),
        r.handoff_rounds == sat_u32(action_rounds(reduced.rounds@, "PreferentialHandoff"@) as int),
        r.retained_message_peak == message_peak(reduced.rounds@, false),
        r.delivered_message_peak == message_peak(reduced.rounds@, true),
{
    let ghost rounds = reduced.rounds@;
    let mut c = ScatterRuntimeCounts {
        sparse_rounds: 0,
        dense_rounds: 0,
        bridging_rounds: 0,
        constrained_rounds: 0,
        replicate_rounds: 0,
        handoff_rounds: 0,
        retained_message_peak: None,
        delivered_message_peak: None,
    };
    let mut i: usize = 0;
    while i < reduced.rounds.len()
        invariant
            rounds == reduced.rounds@,
            i <= rounds.len(),
            c.sparse_rounds == sat_u32(regime_rounds(rounds.take(i as int), "Sparse"@) as int),
            c.dense_rounds == sat_u32(regime_rounds(rounds.take(i as int), "Dense"@) as int),
            c.bridging_rounds == sat_u32(regime_rounds(rounds.take(i as int), "Bridging"@) as int),
            c.constrained_rounds == sat_u32(regime_rounds(rounds.take(i as int), "Constrained"@) as int),
            c.replicate_rounds == sat_u32(action_rounds(rounds.take(i as int), "Replicate"@) as int),
            c.handoff_rounds == sat_u32(action_rounds(rounds.take(i as int), "PreferentialHandoff"@) as int),
            c.retained_message_peak == message_peak(rounds.take(i as int), false),
            c.delivered_message_peak == message_peak(rounds.take(i as int), true),
        decreases rounds.len() - i,
    {
        let ghost next = rounds.take(i + 1);
        assert(next.drop_last() =~= rounds.take(i as int));
        assert(next.last() == rounds[i as int]);
        let round = round_scatter(&reduced.rounds[i].active_routes);
        let (sparse, dense, bridging, constrained) = match &round.regime {
            Some(s) => (
                str_eq(s.as_str(), "Sparse"),
                str_eq(s.as_str(), "Dense"),
                str_eq(s.as_str(), "Bridging"),
                str_eq(s.as_str(), "Constrained"),
            ),
            None => (false, false, false, false),
        };
        c.sparse_rounds = bump(c.sparse_rounds, sparse);
        c.dense_rounds = bump(c.dense_rounds, dense);
        c.bridging_rounds = bump(c.bridging_rounds, bridging);
        c.constrained_rounds = bump(c.constrained_rounds, constrained);
        c.replicate_rounds = bump(c.replicate_rounds, round.replicate);
        c.handoff_rounds = bump(c.handoff_rounds, round.handoff);
        c.retained_message_peak = opt_max_exec(c.retained_message_peak, round.retained);
        c.delivered_message_peak = opt_max_exec(c.delivered_message_peak, round.delivered);
        i = i + 1;
    }
    assert(rounds.take(i as int) =~= rounds);
    c
}

/// Whether some route of the round is `owner`'s route to `destination`.
pub open spec fn holds_route(routes: Seq<ActiveRouteSummary>, owner: NodeId, destination: DestinationView) -> bool {
    exists|k: int| 0 <= k < routes.len() && route_for(#[trigger] routes[k], owner, destination)
}

/// Number of the bound objectives (counted as listed) that the round's routes serve.
pub open spec fn objectives_served(routes: Seq<ActiveRouteSummary>, objectives: Seq<BoundObjective>) -> nat
    decreases objectives.len(),
{
    if objectives.len() == 0 {
        0
    } else {
        objectives_served(routes, objectives.drop_last()) + if holds_route(
            routes,
            objectives.last().owner_node_id,
            objectives.last().objective.destination@,
        ) {
            1nat
        } else {
            0nat
        }
    }
}

/// Number of rounds in which at least two bound objectives hold a route.
pub open spec fn concurrent_rounds(rounds: Seq<ReducedRound>, objectives: Seq<BoundObjective>) -> nat
    decreases rounds.len(),
{
    if rounds.len() == 0 {
        0
    } else {
        concurrent_rounds(rounds.drop_last(), objectives) + if objectives_served(rounds.last().active_routes@, objectives) >= 2 {
            1nat
        } else {
            0nat
        }
    }
}

/// Number of rounds with no active route at all.
pub open spec fn routeless_rounds(rounds: Seq<ReducedRound>) -> nat
    decreases rounds.len(),
{
    if rounds.len() == 0 {
        0
    } else {
        routeless_rounds(rounds.drop_last()) + if rounds.last().active_routes@.len() == 0 { 1nat } else { 0nat }
    }
}

fn round_holds_route(routes: &Vec<ActiveRouteSummary>, owner: NodeId, destination: &DestinationId) -> (r: bool)
    ensures
        r == holds_route(routes@, owner, destination@),
{
    let mut k: usize = 0;
    while k < routes.len()
        invariant
            k <= routes@.len(),
            forall|j: int| 0 <= j < k ==> !route_for(#[trigger] routes@[j], owner, destination@),
        decreases routes@.len() - k,
    {
        if routes[k].owner_node_id == owner && same_destination(&routes[k].destination, destination) {
            assert(route_for(routes@[k as int], owner, destination@));
            return true;
        }
        k = k + 1;
    }
    false
}

proof fn lemma_served_bounded(routes: Seq<ActiveRouteSummary>, objectives: Seq<BoundObjective>)
    ensures
        objectives_served(routes, objectives) <= objectives.len(),
    decreases objectives.len(),
{
    if objectives.len() > 0 {
        lemma_served_bounded(routes, objectives.drop_last());
    }
}

/// Rounds in which at least two of the scenario's bound objectives hold a
/// route at once (saturating at `u32::MAX`).
pub fn concurrent_route_round_count(reduced: &ReducedReplayView, objectives: &Vec<BoundObjective>) -> (r: u32)
    ensures
        r == sat_u32(concurrent_rounds(reduced.rounds@, objectives@) as int),
{
    let ghost rounds = reduced.rounds@;
    let mut count: u32 = 0;
    let mut i: usize = 0;
    while i < reduced.rounds.len()
        invariant
            rounds == reduced.rounds@,
            i <= rounds.len(),
            count == sat_u32(concurrent_rounds(rounds.take(i as int), objectives@) as int),
        decreases rounds.len() - i,
    {
        let routes = &reduced.rounds[i].active_routes;
        let mut served: usize = 0;
        let mut j: usize = 0;
        while j < objectives.len()
            invariant
                j <= objectives@.len(),
                served == objectives_served(routes@, objectives@.take(j as int)),
            decreases objectives@.len() - j,
        {
            proof {
                assert(objectives@.take(j + 1).drop_last() =~= objectives@.take(j as int));
                lemma_served_bounded(routes@, objectives@.take(j as int));
            }
            let binding = &objectives[j];
            if round_holds_route(routes, binding.owner_node_id, &binding.objective.destination) {
                served = served + 1;
            }
            j = j + 1;
        }
        assert(objectives@.take(j as int) =~= objectives@);
        assert(rounds.take(i + 1).drop_last() =~= rounds.take(i as int));
        count = bump(count, served >= 2);
        i = i + 1;
    }
    assert(rounds.take(i as int) =~= rounds);
    count
}

/// Rounds of the replay in which no route was active (saturating at `u32::MAX`).
pub fn no_route_round_count(reduced: &ReducedReplayView) -> (r: u32)
    ensures
        r == sat_u32(routeless_rounds(reduced.rounds@) as int),
{
    let ghost rounds = reduced.rounds@;
    let mut count: u32 = 0;
    let mut i: usize = 0;
    while i < reduced.rounds.len()
        invariant
            rounds == reduced.rounds@,
            i <= rounds.len(),
            count == sat_u32(routeless_rounds(rounds.take(i as int)) as int),
        decreases rounds.len() - i,
    {
        assert(rounds.take(i + 1).drop_last() =~= rounds.take(i as int));
        count = bump(count, reduced.rounds[i].active_routes.len() == 0);
        i = i + 1;
    }
    assert(rounds.take(i as int) =~= rounds);
    count
}

/// Rounds a stale route persisted: from the first disruption to the first
/// loss, zero when the loss came first, none unless both happened.
pub fn stale_persistence_round(first_disruption_round: Option<u32>, first_loss_round: Option<u32>) -> (r: Option<u32>)
    ensures
        r == match (first_disruption_round, first_loss_round) {
            (Some(d), Some(l)) => Some(if l >= d { (l - d) as u32 } else { 0u32 }),
            _ => None::<u32>,
        },
{
    match (first_disruption_round, first_loss_round) {
        (Some(disruption), Some(loss_round)) => {
            if loss_round >= disruption {
                Some(loss_round - disruption)
            } else {
                Some(0)
            }
        },
        _ => None,
    }
}

/// When a usable route was lost and how long it took to come back, from the
/// rounds' indices and whether a usable route existed in each, scanning from
/// `seen` (a usable route was already seen) and `unusable` (the round at which
/// it was lost, if it was).
pub open spec fn timing_from(rounds: Seq<(u32, bool)>, seen: bool, unusable: Option<u32>) -> (Option<u32>, Option<u32>)
    decreases rounds.len(),
{
    if rounds.len() == 0 {
        (unusable, None)
    } else {
        let (index, usable) = rounds[0];
        if usable {
            match unusable {
                Some(u) => (Some(u), Some(if index >= u { (index - u) as u32 } else { 0u32 })),
                None => timing_from(rounds.drop_first(), true, None),
            }
        } else if seen && unusable is None {
            timing_from(rounds.drop_first(), seen, Some(index))
        } else {
            timing_from(rounds.drop_first(), seen, unusable)
        }
    }
}

/// The first round at which a once-usable route stopped being usable, and the
/// rounds until one was usable again (none if it never was). Each entry is a
/// round's index and whether the objective held a usable route in it.
pub fn usable_route_timing(rounds: &Vec<(u32, bool)>) -> (r: (Option<u32>, Option<u32>))
    ensures
        r == timing_from(rounds@, false, None),
{
    let ghost all = rounds@;
    let mut seen_usable = false;
    let mut first_unusable_round: Option<u32> = None;
    let mut i: usize = 0;
    assert(all.skip(0) =~= all);
    while i < rounds.len()
        invariant
            all == rounds@,
            i <= all.len(),
            timing_from(all, false, None) == timing_from(all.skip(i as int), seen_usable, first_unusable_round),
        decreases all.len() - i,
    {
        assert(all.skip(i as int).drop_first() =~= all.skip(i + 1));
        assert(all.skip(i as int)[0] == all[i as int]);
        let (index, usable) = rounds[i];
        if usable {
            match first_unusable_round {
                Some(unusable_round) => {
                    return (first_unusable_round, Some(index.saturating_sub(unusable_round)));
                },
                None => {},
            }
            seen_usable = true;
        } else if seen_usable && first_unusable_round.is_none() {
            first_unusable_round = Some(index);
        }
        i = i + 1;
    }
    assert(all.skip(i as int).len() == 0);
    (first_unusable_round, None)
}

/// Whether the round holds a route of `owner` to `destination` that is usable
/// in `configuration`.
pub open spec fn holds_usable_route(
    routes: Seq<ActiveRouteSummary>,
    owner: NodeId,
    destination: DestinationView,
    configuration: Configuration,
) -> bool {
    exists|k: int|
        0 <= k < routes.len() && route_for(#[trigger] routes[k], owner, destination) && route_usable(routes[k], configuration)
}

/// Whether one of the round's routes is `owner`'s route to `destination` and
/// can carry traffic in `configuration`.
pub fn round_has_usable_route(
    routes: &Vec<ActiveRouteSummary>,
    owner: NodeId,
    destination: &DestinationId,
    configuration: &Configuration,
) -> (r: bool)
    ensures
        r == holds_usable_route(routes@, owner, destination@, *configuration),
{
    let mut k: usize = 0;
    while k < routes.len()
        invariant
            k <= routes@.len(),
            forall|j: int|
                0 <= j < k ==> !(route_for(#[trigger] routes@[j], owner, destination@) && route_usable(routes@[j], *configuration)),
        decreases routes@.len() - k,
    {
        let route = &routes[k];
        if route.owner_node_id == owner && same_destination(&route.destination, destination)
            && route_usable_in_configuration(route, configuration) {
            return true;
        }
        k = k + 1;
    }
    false
}

/// The broker figures of a run: the share of routes naming a next hop that go
/// through a broker, the busiest broker's share of those, and the broker
/// churn; none of them unless the scenario names brokers and some route named
/// a next hop.
pub fn broker_figures(broker_count: usize, visible: u32, participating: u32, usage_peak: u32, churn: u32) -> (r: (
    Option<u32>,
    Option<u32>,
    Option<u32>,
))
    ensures
        (broker_count > 0 && visible > 0) ==> r == (
            Some(permille(participating as int, visible as int) as u32),
            Some(permille(usage_peak as int, if participating >= 1 { participating as int } else { 1 }) as u32),
            Some(churn),
        ),
        !(broker_count > 0 && visible > 0) ==> r == (None::<u32>, None::<u32>, None::<u32>),
{
    if broker_count > 0 && visible > 0 {
        let floor: u32 = if participating >= 1 { participating } else { 1 };
        (Some(ratio_permille(participating, visible)), Some(ratio_permille(usage_peak, floor)), Some(churn))
    } else {
        (None, None, None)
    }
}

/// Total of the counts listed for `n`.
pub open spec fn usage_of(counts: Seq<(NodeId, u32)>, n: NodeId) -> nat
    decreases counts.len(),
{
    if counts.len() == 0 {
        0
    } else {
        usage_of(counts.drop_last(), n) + if counts.last().0 == n { counts.last().1 as nat } else { 0nat }
    }
}

/// Adds one objective's per-broker route counts to the run's totals, kept in
/// the order of `brokers`; each total saturates at `u32::MAX`.
pub fn add_broker_usage(totals: &mut Vec<u32>, brokers: &Vec<NodeId>, counts: &Vec<(NodeId, u32)>)
    requires
        old(totals)@.len() == brokers@.len(),
    ensures
        final(totals)@.len() == brokers@.len(),
        forall|k: int|
            0 <= k < brokers@.len() ==> final(totals)@[k] == sat_u32(old(totals)@[k] + usage_of(counts@, #[trigger] brokers@[k])),
{
    let ghost before = totals@;
    let mut b: usize = 0;
    while b < brokers.len()
        invariant
            before.len() == brokers@.len(),
            totals@.len() == brokers@.len(),
            b <= brokers@.len(),
            forall|k: int| 0 <= k < b ==> totals@[k] == sat_u32(before[k] + usage_of(counts@, #[trigger] brokers@[k])),
            forall|k: int| b <= k < brokers@.len() ==> totals@[k] == before[k],
        decreases brokers@.len() - b,
    {
        let node = brokers[b];
        let mut sum: u32 = totals[b];
        let mut j: usize = 0;
        while j < counts.len()
            invariant
                j <= counts@.len(),
                b < brokers@.len(),
                node == brokers@[b as int],
                before.len() == brokers@.len(),
                sum == sat_u32(before[b as int] + usage_of(counts@.take(j as int), node)),
            decreases counts@.len() - j,
        {
            proof {
                assert(counts@.take(j + 1).drop_last() =~= counts@.take(j as int));
            }
            if counts[j].0 == node {
                sum = sum.saturating_add(counts[j].1);
            }
            j = j + 1;
        }
        assert(counts@.take(j as int) =~= counts@);
        totals.set(b, sum);
        b = b + 1;
    }
}

proof fn lemma_usage_prefix(counts: Seq<(NodeId, u32)>, n: NodeId, j: int)
    requires
        0 <= j <= counts.len(),
    ensures
        usage_of(counts.take(j), n) <= usage_of(counts, n),
    decreases counts.len() - j,
{
    if j < counts.len() {
        lemma_usage_prefix(counts, n, j + 1);
        assert(counts.take(j + 1).drop_last() =~= counts.take(j));
    } else {
        assert(counts.take(j) =~= counts);
    }
}

/// What one bound objective showed over a run, as the replay gives it.
#[derive(Clone, Copy, Debug)]
pub struct ObjectiveMeasures {
    /// Presence over the objective's active window, in parts per thousand.
    pub presence_permille: u32,
    /// Rounds in which the objective held a route.
    pub present_round_count: u32,
    /// Whether a route for the objective was ever seen.
    pub route_seen: bool,
    pub first_route_round: Option<u32>,
    pub first_disruption_round: Option<u32>,
    pub first_loss_round: Option<u32>,
    /// Rounds from the loss until a usable route came back.
    pub recovery_round: Option<u32>,
    pub churn_count: u32,
    pub handoff_count: u32,
    pub observation_count: u32,
}

/// What a run's objectives add up to in its summary.
#[derive(Clone, Copy, Debug)]
pub struct ObjectiveFigures {
    pub objective_count: u32,
    pub activation_success_permille: u32,
    pub activation_failure_count: u32,
    pub route_present_permille: u32,
    pub route_present_total_window_permille: u32,
    pub objective_route_presence_min_permille: u32,
    pub objective_route_presence_max_permille: u32,
    pub objective_route_presence_spread: u32,
    pub objective_starvation_count: u32,
    pub first_materialization_round_mean: Option<u32>,
    pub first_disruption_round_mean: Option<u32>,
    pub first_loss_round_mean: Option<u32>,
    pub stale_persistence_round_mean: Option<u32>,
    pub recovery_round_mean: Option<u32>,
    pub recovery_success_permille: u32,
    pub unrecovered_after_loss_count: u32,
    pub route_churn_count: u32,
    pub engine_handoff_count: u32,
    pub route_observation_count: u32,
}

/// The objectives that a figure counts.
pub enum ObjectiveClass {
    /// A route was seen.
    Activated,
    /// No presence at all in the active window.
    Starved,
    /// A usable route came back after a loss.
    Recovered,
    /// Lost and never recovered.
    Unrecovered,
}

pub open spec fn in_class(m: ObjectiveMeasures, c: ObjectiveClass) -> bool {
    match c {
        ObjectiveClass::Activated => m.route_seen,
        ObjectiveClass::Starved => m.presence_permille == 0,
        ObjectiveClass::Recovered => m.recovery_round is Some,
        ObjectiveClass::Unrecovered => m.recovery_round is None && m.first_loss_round is Some,
    }
}

/// Number of the objectives in class `c`.
pub open spec fn class_count(s: Seq<ObjectiveMeasures>, c: ObjectiveClass) -> nat
    decreases s.len(),
{
    if s.len() == 0 {
        0
    } else {
        class_count(s.drop_last(), c) + if in_class(s.last(), c) { 1nat } else { 0nat }
    }
}

/// The per-objective counts that a figure adds up.
pub enum ObjectiveTally {
    PresentRounds,
    Churn,
    Handoffs,
    Observations,
}

pub open spec fn tally_of(m: ObjectiveMeasures, t: ObjectiveTally) -> u32 {
    match t {
        ObjectiveTally::PresentRounds => m.present_round_count,
        ObjectiveTally::Churn => m.churn_count,
        ObjectiveTally::Handoffs => m.handoff_count,
        ObjectiveTally::Observations => m.observation_count,
    }
}

/// Sum of tally `t` over the objectives.
pub open spec fn tally_total(s: Seq<ObjectiveMeasures>, t: ObjectiveTally) -> nat
    decreases s.len(),
{
    if s.len() == 0 {
        0
    } else {
        tally_total(s.drop_last(), t) + tally_of(s.last(), t) as nat
    }
}

/// The per-objective rounds that a figure averages.
pub enum ObjectiveRound {
    FirstRoute,
    FirstDisruption,
    FirstLoss,
    StalePersistence,
    Recovery,
}

/// Rounds from the first disruption to the first loss (zero when the loss came
/// first), when both happened.
pub open spec fn stale_persistence(d: Option<u32>, l: Option<u32>) -> Option<u32> {
    match (d, l) {
        (Some(d), Some(l)) => Some(if l >= d { (l - d) as u32 } else { 0u32 }),
        _ => None,
    }
}

pub open spec fn round_of(m: ObjectiveMeasures, r: ObjectiveRound) -> Option<u32> {
    match r {
        ObjectiveRound::FirstRoute => m.first_route_round,
        ObjectiveRound::FirstDisruption => m.first_disruption_round,
        ObjectiveRound::FirstLoss => m.first_loss_round,
        ObjectiveRound::StalePersistence => stale_persistence(m.first_disruption_round, m.first_loss_round),
        ObjectiveRound::Recovery => m.recovery_round,
    }
}

/// Round `r` of each objective, in order.
pub open spec fn round_series(s: Seq<ObjectiveMeasures>, r: ObjectiveRound) -> Seq<Option<u32>>
    decreases s.len(),
{
    if s.len() == 0 {
        Seq::empty()
    } else {
        round_series(s.drop_last(), r).push(round_of(s.last(), r))
    }
}

/// The presence of each objective, in order.
pub open spec fn presence_series(s: Seq<ObjectiveMeasures>) -> Seq<u32>
    decreases s.len(),
{
    if s.len() == 0 {
        Seq::empty()
    } else {
        presence_series(s.drop_last()).push(s.last().presence_permille)
    }
}

proof fn lemma_class_count_bounded(s: Seq<ObjectiveMeasures>, c: ObjectiveClass)
    ensures
        class_count(s, c) <= s.len(),
    decreases s.len(),
{
    if s.len() > 0 {
        lemma_class_count_bounded(s.drop_last(), c);
    }
}

fn saturating_total(acc: u32, x: u32) -> (r: u32)
    ensures
        r == sat_u32(acc + x),
{
    acc.saturating_add(x)
}

/// The figures `r` are those of the objectives `measures` over a run of
/// `round_count` rounds.
pub open spec fn figures_of(measures: Seq<ObjectiveMeasures>, round_count: u32, r: ObjectiveFigures) -> bool {
    &&& r.objective_count == sat_u32(measures.len() as int)
    &&& r.activation_success_permille == permille(
        sat_u32(class_count(measures, ObjectiveClass::Activated) as int),
        sat_u32(measures.len() as int),
    )
    &&& r.activation_failure_count == sat_u32(measures.len() as int) - sat_u32(
        class_count(measures, ObjectiveClass::Activated) as int,
    )
    &&& r.route_present_permille == mean_u32(presence_series(measures))
    &&& r.route_present_total_window_permille == permille(
        sat_u32(tally_total(measures, ObjectiveTally::PresentRounds) as int),
        clamp_u32(sat_u32(measures.len() as int) * if round_count >= 1 { round_count as int } else { 1 }),
    )
    &&& (r.objective_route_presence_min_permille, r.objective_route_presence_max_permille, r.objective_route_presence_spread)
        == min_max_spread(presence_series(measures))
    &&& r.objective_starvation_count == sat_u32(class_count(measures, ObjectiveClass::Starved) as int)
    &&& r.first_materialization_round_mean == mean_option_u32(round_series(measures, ObjectiveRound::FirstRoute))
    &&& r.first_disruption_round_mean == mean_option_u32(round_series(measures, ObjectiveRound::FirstDisruption))
    &&& r.first_loss_round_mean == mean_option_u32(round_series(measures, ObjectiveRound::FirstLoss))
    &&& r.stale_persistence_round_mean == mean_option_u32(round_series(measures, ObjectiveRound::StalePersistence))
    &&& r.recovery_round_mean == mean_option_u32(round_series(measures, ObjectiveRound::Recovery))
    &&& r.recovery_success_permille == permille(
        sat_u32(class_count(measures, ObjectiveClass::Recovered) as int),
        if measures.len() >= 1 { sat_u32(measures.len() as int) } else { 1 },
    )
    &&& r.unrecovered_after_loss_count == sat_u32(class_count(measures, ObjectiveClass::Unrecovered) as int)
    &&& r.route_churn_count == sat_u32(tally_total(measures, ObjectiveTally::Churn) as int)
    &&& r.engine_handoff_count == sat_u32(tally_total(measures, ObjectiveTally::Handoffs) as int)
    &&& r.route_observation_count == sat_u32(tally_total(measures, ObjectiveTally::Observations) as int)
}

/// The figures of a run's objectives: counts and shares saturate at
/// `u32::MAX`, means are those of `average_u32` and `average_option_u32`, and
/// the whole-run presence is measured against every round of the run (at
/// least one) for every objective.
pub fn objective_figures(measures: &Vec<ObjectiveMeasures>, round_count: u32) -> (r: ObjectiveFigures)
    ensures
        figures_of(measures@, round_count, r),
{
    let ghost s = measures@;
    let mut objective_count: u32 = 0;
    let mut activated: u32 = 0;
    let mut starved: u32 = 0;
    let mut recovered: u32 = 0;
    let mut unrecovered: u32 = 0;
    let mut present_rounds: u32 = 0;
    let mut churn: u32 = 0;
    let mut handoffs: u32 = 0;
    let mut observations: u32 = 0;
    let mut presences: Vec<u32> = Vec::new();
    let mut first_routes: Vec<Option<u32>> = Vec::new();
    let mut disruptions: Vec<Option<u32>> = Vec::new();
    let mut losses: Vec<Option<u32>> = Vec::new();
    let mut stale: Vec<Option<u32>> = Vec::new();
    let mut recoveries: Vec<Option<u32>> = Vec::new();
    let mut i: usize = 0;
    while i < measures.len()
        invariant
            s == measures@,
            i <= s.len(),
            objective_count == sat_u32(i as int),
            activated == sat_u32(class_count(s.take(i as int), ObjectiveClass::Activated) as int),
            starved == sat_u32(class_count(s.take(i as int), ObjectiveClass::Starved) as int),
            recovered == sat_u32(class_count(s.take(i as int), ObjectiveClass::Recovered) as int),
            unrecovered == sat_u32(class_count(s.take(i as int), ObjectiveClass::Unrecovered) as int),
            present_rounds == sat_u32(tally_total(s.take(i as int), ObjectiveTally::PresentRounds) as int),
            churn == sat_u32(tally_total(s.take(i as int), ObjectiveTally::Churn) as int),
            handoffs == sat_u32(tally_total(s.take(i as int), ObjectiveTally::Handoffs) as int),
            observations == sat_u32(tally_total(s.take(i as int), ObjectiveTally::Observations) as int),
            presences@ == presence_series(s.take(i as int)),
            first_routes@ == round_series(s.take(i as int), ObjectiveRound::FirstRoute),
            disruptions@ == round_series(s.take(i as int), ObjectiveRound::FirstDisruption),
            losses@ == round_series(s.take(i as int), ObjectiveRound::FirstLoss),
            stale@ == round_series(s.take(i as int), ObjectiveRound::StalePersistence),
            recoveries@ == round_series(s.take(i as int), ObjectiveRound::Recovery),
        decreases s.len() - i,
    {
        let ghost next = s.take(i + 1);
        assert(next.drop_last() =~= s.take(i as int));
        let m = measures[i];
        assert(next.last() == m);
        objective_count = bump(objective_count, true);
        activated = bump(activated, m.route_seen);
        starved = bump(starved, m.presence_permille == 0);
        recovered = bump(recovered, m.recovery_round.is_some());
        unrecovered = bump(unrecovered, m.recovery_round.is_none() && m.first_loss_round.is_some());
        present_rounds = saturating_total(present_rounds, m.present_round_count);
        churn = saturating_total(churn, m.churn_count);
        handoffs = saturating_total(handoffs, m.handoff_count);
        observations = saturating_total(observations, m.observation_count);
        presences.push(m.presence_permille);
        first_routes.push(m.first_route_round);
        disruptions.push(m.first_disruption_round);
        losses.push(m.first_loss_round);
        stale.push(stale_persistence_round(m.first_disruption_round, m.first_loss_round));
        recoveries.push(m.recovery_round);
        i = i + 1;
    }
    assert(s.take(i as int) =~= s);
    let (lo, hi, spread) = min_max_spread_u32(&presences);
    let window_rounds: u32 = if round_count >= 1 { round_count } else { 1 };
    let recovery_floor: u32 = if objective_count >= 1 { objective_count } else { 1 };
    assert((objective_count as u64) * (window_rounds as u64) <= 0xffff_ffffu64 * 0xffff_ffffu64) by (nonlinear_arith)
        requires
            objective_count <= 0xffff_ffffu32,
            window_rounds <= 0xffff_ffffu32,
    ;
    proof {
        lemma_class_count_bounded(s, ObjectiveClass::Activated);
    }
    let window_product: u64 = (objective_count as u64) * (window_rounds as u64);
    let window_total: u32 = if window_product > u32::MAX as u64 { u32::MAX } else { window_product as u32 };
    ObjectiveFigures {
        objective_count,
        activation_success_permille: ratio_permille(activated, objective_count),
        activation_failure_count: objective_count.saturating_sub(activated),
        route_present_permille: average_u32(&presences),
        route_present_total_window_permille: ratio_permille(present_rounds, window_total),
        objective_route_presence_min_permille: lo,
        objective_route_presence_max_permille: hi,
        objective_route_presence_spread: spread,
        objective_starvation_count: starved,
        first_materialization_round_mean: average_option_u32(&first_routes),
        first_disruption_round_mean: average_option_u32(&disruptions),
        first_loss_round_mean: average_option_u32(&losses),
        stale_persistence_round_mean: average_option_u32(&stale),
        recovery_round_mean: average_option_u32(&recoveries),
        recovery_success_permille: ratio_permille(recovered, recovery_floor),
        unrecovered_after_loss_count: unrecovered,
        route_churn_count: churn,
        engine_handoff_count: handoffs,
        route_observation_count: observations,
    }
}

proof fn lemma_presence_series_len(s: Seq<ObjectiveMeasures>)
    ensures
        presence_series(s).len() == s.len(),
    decreases s.len(),
{
    if s.len() > 0 {
        lemma_presence_series_len(s.drop_last());
    }
}

/// Law: in the figures of a run's objectives, the activation and recovery
/// shares never exceed a thousand permille, and the mean presence lies
/// between that of the least and that of the most present objective.
pub proof fn lemma_objective_figures_bounded(measures: Seq<ObjectiveMeasures>)
    requires
        0 < measures.len() <= u32::MAX,
    ensures
        permille(
            sat_u32(class_count(measures, ObjectiveClass::Activated) as int),
            sat_u32(measures.len() as int),
        ) <= 1000,
        permille(
            sat_u32(class_count(measures, ObjectiveClass::Recovered) as int),
            sat_u32(measures.len() as int),
        ) <= 1000,
        min_max_spread(presence_series(measures)).0 <= mean_u32(presence_series(measures)),
        mean_u32(presence_series(measures)) <= min_max_spread(presence_series(measures)).1,
{
    lemma_class_count_bounded(measures, ObjectiveClass::Activated);
    lemma_class_count_bounded(measures, ObjectiveClass::Recovered);
    lemma_permille_of_part_is_bounded(
        class_count(measures, ObjectiveClass::Activated) as u32,
        measures.len() as u32,
    );
    lemma_permille_of_part_is_bounded(
        class_count(measures, ObjectiveClass::Recovered) as u32,
        measures.len() as u32,
    );
    lemma_presence_series_len(measures);
    lemma_mean_between_extremes(presence_series(measures));
}

/// Law: a recovery time is only ever reported together with the loss it
/// recovers from.
pub proof fn lemma_recovery_follows_loss(rounds: Seq<(u32, bool)>, seen: bool, unusable: Option<u32>)
    ensures
        timing_from(rounds, seen, unusable).1 is Some ==> timing_from(rounds, seen, unusable).0 is Some,
    decreases rounds.len(),
{
    if rounds.len() > 0 {
        let (index, usable) = rounds[0];
        if usable {
            if unusable is None {
                lemma_recovery_follows_loss(rounds.drop_first(), true, None);
            }
        } else if seen && unusable is None {
            lemma_recovery_follows_loss(rounds.drop_first(), seen, Some(index));
        } else {
            lemma_recovery_follows_loss(rounds.drop_first(), seen, unusable);
        }
    }
}

/// Law: each round counts toward at most one scatter regime, so the rounds
/// spent in distinct regimes add up to no more than the rounds of the run.
pub proof fn lemma_regime_rounds_disjoint(rounds: Seq<ReducedRound>, a: Seq<char>, b: Seq<char>, c: Seq<char>, d: Seq<char>)
    requires
        a != b && a != c && a != d && b != c && b != d && c != d,
    ensures
        regime_rounds(rounds, a) + regime_rounds(rounds, b) + regime_rounds(rounds, c) + regime_rounds(rounds, d) <= rounds.len(),
    decreases rounds.len(),
{
    if rounds.len() > 0 {
        lemma_regime_rounds_disjoint(rounds.drop_last(), a, b, c, d);
    }
}

/// Round `i` is unusable and some round before it (or before the scan, where
/// `seen`) was usable: a loss of a usable route.
pub open spec fn lost_at(rounds: Seq<(u32, bool)>, seen: bool, i: int) -> bool {
    &&& 0 <= i < rounds.len()
    &&& !rounds[i].1
    &&& seen || exists|j: int| 0 <= j < i && (#[trigger] rounds[j]).1
}

/// The rounds from the first usable one after a loss at round `u`.
proof fn lemma_timing_after_loss(rounds: Seq<(u32, bool)>, seen: bool, u: u32)
    ensures
        timing_from(rounds, seen, Some(u)).0 == Some(u),
        timing_from(rounds, seen, Some(u)).1 is None <==> forall|k: int| 0 <= k < rounds.len() ==> !(#[trigger] rounds[k]).1,
        timing_from(rounds, seen, Some(u)).1 is Some ==> exists|k: int|
            0 <= k < rounds.len() && (#[trigger] rounds[k]).1 && (forall|m: int| 0 <= m < k ==> !(#[trigger] rounds[m]).1)
                && timing_from(rounds, seen, Some(u)).1 == Some(
                    (if rounds[k].0 >= u { rounds[k].0 - u } else { 0int }) as u32,
                ),
    decreases rounds.len(),
{
    if rounds.len() > 0 {
        let rest = rounds.drop_first();
        lemma_timing_after_loss(rest, seen, u);
        if !rounds[0].1 {
            assert forall|k: int| 0 <= k < rest.len() implies rest[k] == rounds[k + 1] by {}
            if timing_from(rest, seen, Some(u)).1 is Some {
                let k = choose|k: int|
                    0 <= k < rest.len() && (#[trigger] rest[k]).1 && (forall|m: int| 0 <= m < k ==> !(#[trigger] rest[m]).1)
                        && timing_from(rest, seen, Some(u)).1 == Some(
                            (if rest[k].0 >= u { rest[k].0 - u } else { 0int }) as u32,
                        );
                assert(rounds[k + 1] == rest[k]);
                assert forall|m: int| 0 <= m < k + 1 implies !(#[trigger] rounds[m]).1 by {
                    if m > 0 {
                        assert(rounds[m] == rest[m - 1]);
                    }
                }
            } else {
                assert forall|k: int| 0 <= k < rounds.len() implies !(#[trigger] rounds[k]).1 by {
                    if k > 0 {
                        assert(rounds[k] == rest[k - 1]);
                    }
                }
            }
        }
    }
}

/// Before a loss, the scan finds the first loss and goes on from the round
/// after it.
proof fn lemma_timing_before_loss(rounds: Seq<(u32, bool)>, seen: bool)
    ensures
        timing_from(rounds, seen, None).0 is None <==> forall|i: int| !lost_at(rounds, seen, i),
        timing_from(rounds, seen, None).0 is None ==> timing_from(rounds, seen, None).1 is None,
        timing_from(rounds, seen, None).0 is Some ==> exists|i: int|
            lost_at(rounds, seen, i) && (forall|m: int| 0 <= m < i ==> !lost_at(rounds, seen, m))
                && timing_from(rounds, seen, None) == timing_from(rounds.skip(i + 1), true, Some(rounds[i].0)),
    decreases rounds.len(),
{
    if rounds.len() > 0 {
        let rest = rounds.drop_first();
        let (index, usable) = rounds[0];
        assert forall|k: int| 0 <= k < rest.len() implies rest[k] == rounds[k + 1] by {}
        if usable {
            lemma_timing_before_loss(rest, true);
            assert(!lost_at(rounds, seen, 0));
            assert forall|i: int| 0 <= i < rest.len() implies lost_at(rest, true, i) == lost_at(rounds, seen, i + 1) by {
                if !rest[i].1 {
                    assert(rounds[0].1);
                }
            }
            if timing_from(rest, true, None).0 is Some {
                let i = choose|i: int|
                    lost_at(rest, true, i) && (forall|m: int| 0 <= m < i ==> !lost_at(rest, true, m))
                        && timing_from(rest, true, None) == timing_from(rest.skip(i + 1), true, Some(rest[i].0));
                assert(rest.skip(i + 1) =~= rounds.skip(i + 2));
                assert(lost_at(rounds, seen, i + 1));
                assert forall|m: int| 0 <= m < i + 1 implies !lost_at(rounds, seen, m) by {
                    if m > 0 {
                        assert(!lost_at(rest, true, m - 1));
                    }
                }
            } else {
                assert forall|i: int| !lost_at(rounds, seen, i) by {
                    if 0 < i < rounds.len() {
                        assert(!lost_at(rest, true, i - 1));
                    }
                }
            }
        } else if seen {
            lemma_timing_after_loss(rest, seen, index);
            assert(lost_at(rounds, seen, 0));
            assert(rounds.skip(1) =~= rest);
        } else {
            lemma_timing_before_loss(rest, false);
            assert(!lost_at(rounds, seen, 0));
            assert forall|i: int| 0 <= i < rest.len() implies lost_at(rest, false, i) == lost_at(rounds, false, i + 1) by {
                if lost_at(rounds, false, i + 1) {
                    let j = choose|j: int| 0 <= j < i + 1 && (#[trigger] rounds[j]).1;
                    assert(j > 0);
                    assert(rest[j - 1] == rounds[j]);
                }
                if lost_at(rest, false, i) {
                    let j = choose|j: int| 0 <= j < i && (#[trigger] rest[j]).1;
                    assert(rounds[j + 1] == rest[j]);
                }
            }
            if timing_from(rest, false, None).0 is Some {
                let i = choose|i: int|
                    lost_at(rest, false, i) && (forall|m: int| 0 <= m < i ==> !lost_at(rest, false, m))
                        && timing_from(rest, false, None) == timing_from(rest.skip(i + 1), true, Some(rest[i].0));
                assert(rest.skip(i + 1) =~= rounds.skip(i + 2));
                assert(lost_at(rounds, seen, i + 1));
                assert forall|m: int| 0 <= m < i + 1 implies !lost_at(rounds, seen, m) by {
                    if m > 0 {
                        assert(!lost_at(rest, false, m - 1));
                    }
                }
            } else {
                assert forall|i: int| !lost_at(rounds, seen, i) by {
                    if 0 < i < rounds.len() {
                        assert(!lost_at(rest, false, i - 1));
                    }
                }
            }
        }
    }
}

/// The first loss is the earliest round without a usable route that follows
/// a round with one (none if there is no such round); the recovery is the
/// distance, saturating at zero, from that round to the first usable round
/// after it (none if no later round is usable).
pub proof fn lemma_usable_route_timing(rounds: Seq<(u32, bool)>)
    ensures
        timing_from(rounds, false, None).0 is None <==> forall|i: int| !lost_at(rounds, false, i),
        timing_from(rounds, false, None).0 is None ==> timing_from(rounds, false, None).1 is None,
        timing_from(rounds, false, None).0 is Some ==> exists|i: int|
            #![trigger rounds[i]]
            lost_at(rounds, false, i) && (forall|m: int| 0 <= m < i ==> !lost_at(rounds, false, m))
                && timing_from(rounds, false, None).0 == Some(rounds[i].0)
                && (timing_from(rounds, false, None).1 is None <==> forall|k: int| i < k < rounds.len() ==> !(#[trigger] rounds[k]).1)
                && (timing_from(rounds, false, None).1 is Some ==> exists|k: int|
                    i < k < rounds.len() && (#[trigger] rounds[k]).1 && (forall|m: int| i < m < k ==> !(#[trigger] rounds[m]).1)
                        && timing_from(rounds, false, None).1 == Some(
                            (if rounds[k].0 >= rounds[i].0 { rounds[k].0 - rounds[i].0 } else { 0int }) as u32,
                        )),
{
    lemma_timing_before_loss(rounds, false);
    if timing_from(rounds, false, None).0 is Some {
        let i = choose|i: int|
            lost_at(rounds, false, i) && (forall|m: int| 0 <= m < i ==> !lost_at(rounds, false, m))
                && timing_from(rounds, false, None) == timing_from(rounds.skip(i + 1), true, Some(rounds[i].0));
        let rest = rounds.skip(i + 1);
        let u = rounds[i].0;
        lemma_timing_after_loss(rest, true, u);
        assert forall|k: int| 0 <= k < rest.len() implies rest[k] == rounds[i + 1 + k] by {}
        if timing_from(rest, true, Some(u)).1 is Some {
            let k = choose|k: int|
                0 <= k < rest.len() && (#[trigger] rest[k]).1 && (forall|m: int| 0 <= m < k ==> !(#[trigger] rest[m]).1)
                    && timing_from(rest, true, Some(u)).1 == Some((if rest[k].0 >= u { rest[k].0 - u } else { 0int }) as u32);
            assert(rounds[i + 1 + k] == rest[k]);
            assert forall|m: int| i < m < i + 1 + k implies !(#[trigger] rounds[m]).1 by {
                assert(rounds[m] == rest[m - i - 1]);
            }
        } else {
            assert forall|k: int| i < k < rounds.len() implies !(#[trigger] rounds[k]).1 by {
                assert(rounds[k] == rest[k - i - 1]);
            }
        }
    }
}

proof fn lemma_round_series_maps(s: Seq<ObjectiveMeasures>, r: ObjectiveRound)
    ensures
        round_series(s, r) =~= s.map_values(|m: ObjectiveMeasures| round_of(m, r)),
    decreases s.len(),
{
    if s.len() > 0 {
        lemma_round_series_maps(s.drop_last(), r);
    }
}

proof fn lemma_presence_series_maps(s: Seq<ObjectiveMeasures>)
    ensures
        presence_series(s) =~= s.map_values(|m: ObjectiveMeasures| m.presence_permille),
    decreases s.len(),
{
    if s.len() > 0 {
        lemma_presence_series_maps(s.drop_last());
    }
}

proof fn lemma_tally_total_sums(s: Seq<ObjectiveMeasures>, t: ObjectiveTally)
    ensures
        tally_total(s, t) == sum_u32(s.map_values(|m: ObjectiveMeasures| tally_of(m, t))),
    decreases s.len(),
{
    if s.len() > 0 {
        lemma_tally_total_sums(s.drop_last(), t);
        assert(s.drop_last().map_values(|m: ObjectiveMeasures| tally_of(m, t))
            =~= s.map_values(|m: ObjectiveMeasures| tally_of(m, t)).drop_last());
    }
}

proof fn lemma_class_count_filters(s: Seq<ObjectiveMeasures>, c: ObjectiveClass)
    ensures
        class_count(s, c) == s.filter(|m: ObjectiveMeasures| in_class(m, c)).len(),
    decreases s.len(),
{
    reveal_with_fuel(Seq::filter, 1);
    if s.len() > 0 {
        lemma_class_count_filters(s.drop_last(), c);
    }
}

/// Each figure of a run reads the objectives' own measures: the counts are
/// the numbers of objectives that saw a route, that had no presence, that
/// recovered, and that lost a route and never got one back; the sums add each
/// objective's present rounds, churn, handoffs and observations; the means
/// average each objective's presence and its first route, first disruption,
/// first loss, stale persistence (first loss less first disruption, zero when
/// the loss came first) and recovery rounds, over the objectives that have one.
pub proof fn lemma_figures_read_objectives(measures: Seq<ObjectiveMeasures>, round_count: u32, r: ObjectiveFigures)
    requires
        figures_of(measures, round_count, r),
    ensures
        r.activation_success_permille == permille(
            sat_u32(measures.filter(|m: ObjectiveMeasures| m.route_seen).len() as int),
            sat_u32(measures.len() as int),
        ),
        r.objective_starvation_count == sat_u32(measures.filter(|m: ObjectiveMeasures| m.presence_permille == 0).len() as int),
        r.recovery_success_permille == permille(
            sat_u32(measures.filter(|m: ObjectiveMeasures| m.recovery_round is Some).len() as int),
            if measures.len() >= 1 { sat_u32(measures.len() as int) } else { 1 },
        ),
        r.unrecovered_after_loss_count == sat_u32(
            measures.filter(|m: ObjectiveMeasures| m.recovery_round is None && m.first_loss_round is Some).len() as int,
        ),
        r.route_present_permille == mean_u32(measures.map_values(|m: ObjectiveMeasures| m.presence_permille)),
        (r.objective_route_presence_min_permille, r.objective_route_presence_max_permille, r.objective_route_presence_spread)
            == min_max_spread(measures.map_values(|m: ObjectiveMeasures| m.presence_permille)),
        r.route_present_total_window_permille == permille(
            sat_u32(sum_u32(measures.map_values(|m: ObjectiveMeasures| m.present_round_count))),
            clamp_u32(sat_u32(measures.len() as int) * if round_count >= 1 { round_count as int } else { 1 }),
        ),
        r.route_churn_count == sat_u32(sum_u32(measures.map_values(|m: ObjectiveMeasures| m.churn_count))),
        r.engine_handoff_count == sat_u32(sum_u32(measures.map_values(|m: ObjectiveMeasures| m.handoff_count))),
        r.route_observation_count == sat_u32(sum_u32(measures.map_values(|m: ObjectiveMeasures| m.observation_count))),
        r.first_materialization_round_mean == mean_option_u32(measures.map_values(|m: ObjectiveMeasures| m.first_route_round)),
        r.first_disruption_round_mean == mean_option_u32(measures.map_values(|m: ObjectiveMeasures| m.first_disruption_round)),
        r.first_loss_round_mean == mean_option_u32(measures.map_values(|m: ObjectiveMeasures| m.first_loss_round)),
        r.stale_persistence_round_mean == mean_option_u32(
            measures.map_values(
                |m: ObjectiveMeasures|
                    if m.first_disruption_round is Some && m.first_loss_round is Some {
                        let d = m.first_disruption_round->0;
                        let l = m.first_loss_round->0;
                        Some(if l >= d { (l - d) as u32 } else { 0u32 })
                    } else {
                        None
                    },
            ),
        ),
        r.recovery_round_mean == mean_option_u32(measures.map_values(|m: ObjectiveMeasures| m.recovery_round)),
{
    lemma_class_count_filters(measures, ObjectiveClass::Activated);
    lemma_class_count_filters(measures, ObjectiveClass::Starved);
    lemma_class_count_filters(measures, ObjectiveClass::Recovered);
    lemma_class_count_filters(measures, ObjectiveClass::Unrecovered);
    assert((|m: ObjectiveMeasures| in_class(m, ObjectiveClass::Activated)) =~= (|m: ObjectiveMeasures| m.route_seen));
    assert((|m: ObjectiveMeasures| in_class(m, ObjectiveClass::Starved)) =~= (|m: ObjectiveMeasures| m.presence_permille == 0));
    assert((|m: ObjectiveMeasures| in_class(m, ObjectiveClass::Recovered)) =~= (|m: ObjectiveMeasures| m.recovery_round is Some));
    assert((|m: ObjectiveMeasures| in_class(m, ObjectiveClass::Unrecovered)) =~= (|m: ObjectiveMeasures| m.recovery_round is None && m.first_loss_round is Some));
    lemma_presence_series_maps(measures);
    lemma_tally_total_sums(measures, ObjectiveTally::PresentRounds);
    lemma_tally_total_sums(measures, ObjectiveTally::Churn);
    lemma_tally_total_sums(measures, ObjectiveTally::Handoffs);
    lemma_tally_total_sums(measures, ObjectiveTally::Observations);
    assert(measures.map_values(|m: ObjectiveMeasures| tally_of(m, ObjectiveTally::PresentRounds))
        =~= measures.map_values(|m: ObjectiveMeasures| m.present_round_count));
    assert(measures.map_values(|m: ObjectiveMeasures| tally_of(m, ObjectiveTally::Churn))
        =~= measures.map_values(|m: ObjectiveMeasures| m.churn_count));
    assert(measures.map_values(|m: ObjectiveMeasures| tally_of(m, ObjectiveTally::Handoffs))
        =~= measures.map_values(|m: ObjectiveMeasures| m.handoff_count));
    assert(measures.map_values(|m: ObjectiveMeasures| tally_of(m, ObjectiveTally::Observations))
        =~= measures.map_values(|m: ObjectiveMeasures| m.observation_count));
    lemma_round_series_maps(measures, ObjectiveRound::FirstRoute);
    lemma_round_series_maps(measures, ObjectiveRound::FirstDisruption);
    lemma_round_series_maps(measures, ObjectiveRound::FirstLoss);
    lemma_round_series_maps(measures, ObjectiveRound::StalePersistence);
    lemma_round_series_maps(measures, ObjectiveRound::Recovery);
    assert(measures.map_values(|m: ObjectiveMeasures| round_of(m, ObjectiveRound::FirstRoute))
        =~= measures.map_values(|m: ObjectiveMeasures| m.first_route_round));
    assert(measures.map_values(|m: ObjectiveMeasures| round_of(m, ObjectiveRound::FirstDisruption))
        =~= measures.map_values(|m: ObjectiveMeasures| m.first_disruption_round));
    assert(measures.map_values(|m: ObjectiveMeasures| round_of(m, ObjectiveRound::FirstLoss))
        =~= measures.map_values(|m: ObjectiveMeasures| m.first_loss_round));
    assert(measures.map_values(|m: ObjectiveMeasures| round_of(m, ObjectiveRound::Recovery))
        =~= measures.map_values(|m: ObjectiveMeasures| m.recovery_round));
    assert(measures.map_values(|m: ObjectiveMeasures| round_of(m, ObjectiveRound::StalePersistence))
        =~= measures.map_values(
            |m: ObjectiveMeasures|
                if m.first_disruption_round is Some && m.first_loss_round is Some {
                    let d = m.first_disruption_round->0;
                    let l = m.first_loss_round->0;
                    Some(if l >= d { (l - d) as u32 } else { 0u32 })
                } else {
                    None
                },
        ));
}

/// The rounds counted in a regime are those whose first scatter route naming a regime names it.
pub proof fn lemma_regime_rounds_counts(rounds: Seq<ReducedRound>, regime: Seq<char>)
    ensures
        regime_rounds(rounds, regime) == rounds.filter(|round: ReducedRound| first_scatter_regime(round.active_routes@) == Some(regime)).len(),
    decreases rounds.len(),
{
    reveal_with_fuel(Seq::filter, 1);
    if rounds.len() > 0 {
        lemma_regime_rounds_counts(rounds.drop_last(), regime);
    }
}

/// The rounds counted for an action are those in which some scatter route last took it.
pub proof fn lemma_action_rounds_counts(rounds: Seq<ReducedRound>, action: Seq<char>)
    ensures
        action_rounds(rounds, action) == rounds.filter(|round: ReducedRound| scatter_action_taken(round.active_routes@, action)).len(),
    decreases rounds.len(),
{
    reveal_with_fuel(Seq::filter, 1);
    if rounds.len() > 0 {
        lemma_action_rounds_counts(rounds.drop_last(), action);
    }
}

/// The objectives served in a round are those, as listed, for which the round holds a route of the owner to the destination.
pub proof fn lemma_objectives_served_counts(routes: Seq<ActiveRouteSummary>, objectives: Seq<BoundObjective>)
    ensures
        objectives_served(routes, objectives) == objectives.filter(|b: BoundObjective| holds_route(routes, b.owner_node_id, b.objective.destination@)).len(),
    decreases objectives.len(),
{
    reveal_with_fuel(Seq::filter, 1);
    if objectives.len() > 0 {
        lemma_objectives_served_counts(routes, objectives.drop_last());
    }
}

/// The concurrent rounds are those in which at least two listed objectives are served.
pub proof fn lemma_concurrent_rounds_counts(rounds: Seq<ReducedRound>, objectives: Seq<BoundObjective>)
    ensures
        concurrent_rounds(rounds, objectives) == rounds.filter(|round: ReducedRound| objectives_served(round.active_routes@, objectives) >= 2).len(),
    decreases rounds.len(),
{
    reveal_with_fuel(Seq::filter, 1);
    if rounds.len() > 0 {
        lemma_concurrent_rounds_counts(rounds.drop_last(), objectives);
    }
}

/// The routeless rounds are those with no active route.
pub proof fn lemma_routeless_rounds_counts(rounds: Seq<ReducedRound>)
    ensures
        routeless_rounds(rounds) == rounds.filter(|round: ReducedRound| round.active_routes@.len() == 0).len(),
    decreases rounds.len(),
{
    reveal_with_fuel(Seq::filter, 1);
    if rounds.len() > 0 {
        lemma_routeless_rounds_counts(rounds.drop_last());
    }
}

/// The regime of a round is that of its first scatter route that names one,
/// and none where no scatter route names one.
pub proof fn lemma_first_scatter_regime(routes: Seq<ActiveRouteSummary>)
    ensures
        first_scatter_regime(routes) is None <==> forall|k: int|
            0 <= k < routes.len() ==> !(is_scatter(#[trigger] routes[k]) && routes[k].scatter_current_regime is Some),
        first_scatter_regime(routes) is Some ==> exists|k: int|
            0 <= k < routes.len() && is_scatter(#[trigger] routes[k]) && routes[k].scatter_current_regime is Some
                && first_scatter_regime(routes) == Some(routes[k].scatter_current_regime->0@)
                && forall|m: int| 0 <= m < k ==> !(is_scatter(#[trigger] routes[m]) && routes[m].scatter_current_regime is Some),
    decreases routes.len(),
{
    if routes.len() > 0 {
        let rest = routes.drop_first();
        lemma_first_scatter_regime(rest);
        assert forall|k: int| 0 <= k < rest.len() implies rest[k] == routes[k + 1] by {}
        if !(is_scatter(routes[0]) && routes[0].scatter_current_regime is Some) {
            if first_scatter_regime(rest) is Some {
                let k = choose|k: int|
                    0 <= k < rest.len() && is_scatter(#[trigger] rest[k]) && rest[k].scatter_current_regime is Some
                        && first_scatter_regime(rest) == Some(rest[k].scatter_current_regime->0@)
                        && forall|m: int| 0 <= m < k ==> !(is_scatter(#[trigger] rest[m]) && rest[m].scatter_current_regime is Some);
                assert(routes[k + 1] == rest[k]);
                assert forall|m: int| 0 <= m < k + 1 implies !(is_scatter(#[trigger] routes[m]) && routes[m].scatter_current_regime is Some) by {
                    if m > 0 {
                        assert(routes[m] == rest[m - 1]);
                    }
                }
            } else {
                assert forall|k: int| 0 <= k < routes.len() implies !(is_scatter(#[trigger] routes[k]) && routes[k].scatter_current_regime is Some) by {
                    if k > 0 {
                        assert(routes[k] == rest[k - 1]);
                    }
                }
            }
        }
    }
}

proof fn lemma_round_message_peak(routes: Seq<ActiveRouteSummary>, delivered: bool)
    ensures
        round_message_peak(routes, delivered) is None <==> forall|k: int|
            0 <= k < routes.len() ==> scatter_messages(#[trigger] routes[k], delivered) is None,
        round_message_peak(routes, delivered) matches Some(p) ==> {
            &&& forall|k: int| 0 <= k < routes.len() && scatter_messages(#[trigger] routes[k], delivered) is Some
                ==> scatter_messages(routes[k], delivered)->0 <= p
            &&& exists|k: int| 0 <= k < routes.len() && scatter_messages(#[trigger] routes[k], delivered) == Some(p)
        },
    decreases routes.len(),
{
    if routes.len() > 0 {
        let rest = routes.drop_last();
        lemma_round_message_peak(rest, delivered);
        assert forall|k: int| 0 <= k < rest.len() implies rest[k] == routes[k] by {}
        let n = routes.len() - 1;
        if round_message_peak(rest, delivered) is Some {
            let k = choose|k: int| 0 <= k < rest.len() && scatter_messages(#[trigger] rest[k], delivered) == round_message_peak(rest, delivered);
            assert(routes[k] == rest[k]);
        }
        assert forall|k: int| 0 <= k < routes.len() && scatter_messages(#[trigger] routes[k], delivered) is Some
            implies scatter_messages(routes[k], delivered)->0 <= round_message_peak(routes, delivered)->0 by {
            if k < n {
                assert(routes[k] == rest[k]);
            }
        }
        if round_message_peak(routes, delivered) is None {
            assert forall|k: int| 0 <= k < routes.len() implies scatter_messages(#[trigger] routes[k], delivered) is None by {
                if k < n {
                    assert(routes[k] == rest[k]);
                }
            }
        }
    }
}

/// The message peak of a run is the largest count that any scatter route
/// reports in any round, and none where no scatter route reports one.
pub proof fn lemma_message_peak(rounds: Seq<ReducedRound>, delivered: bool)
    ensures
        message_peak(rounds, delivered) is None <==> forall|i: int, k: int|
            0 <= i < rounds.len() && 0 <= k < rounds[i].active_routes@.len()
                ==> scatter_messages(#[trigger] rounds[i].active_routes@[k], delivered) is None,
        message_peak(rounds, delivered) matches Some(p) ==> {
            &&& forall|i: int, k: int|
                0 <= i < rounds.len() && 0 <= k < rounds[i].active_routes@.len()
                    && scatter_messages(#[trigger] rounds[i].active_routes@[k], delivered) is Some
                    ==> scatter_messages(rounds[i].active_routes@[k], delivered)->0 <= p
            &&& exists|i: int, k: int|
                0 <= i < rounds.len() && 0 <= k < rounds[i].active_routes@.len()
                    && scatter_messages(#[trigger] rounds[i].active_routes@[k], delivered) == Some(p)
        },
    decreases rounds.len(),
{
    if rounds.len() > 0 {
        let rest = rounds.drop_last();
        let n = rounds.len() - 1;
        lemma_message_peak(rest, delivered);
        lemma_round_message_peak(rounds[n].active_routes@, delivered);
        assert forall|i: int| 0 <= i < rest.len() implies rest[i] == rounds[i] by {}
        let last = rounds[n].active_routes@;
        if message_peak(rest, delivered) is Some {
            let (i, k) = choose|i: int, k: int|
                0 <= i < rest.len() && 0 <= k < rest[i].active_routes@.len()
                    && scatter_messages(#[trigger] rest[i].active_routes@[k], delivered) == message_peak(rest, delivered);
            assert(rounds[i] == rest[i]);
        }
        if round_message_peak(last, delivered) is Some {
            let k = choose|k: int| 0 <= k < last.len() && scatter_messages(#[trigger] last[k], delivered) == round_message_peak(last, delivered);
            assert(rounds[n].active_routes@[k] == last[k]);
        }
        assert forall|i: int, k: int|
            0 <= i < rounds.len() && 0 <= k < rounds[i].active_routes@.len()
                && scatter_messages(#[trigger] rounds[i].active_routes@[k], delivered) is Some
                implies scatter_messages(rounds[i].active_routes@[k], delivered)->0 <= message_peak(rounds, delivered)->0 by {
            if i < n {
                assert(rounds[i] == rest[i]);
            } else {
                assert(last[k] == rounds[i].active_routes@[k]);
            }
        }
        if message_peak(rounds, delivered) is None {
            assert forall|i: int, k: int|
                0 <= i < rounds.len() && 0 <= k < rounds[i].active_routes@.len()
                    implies scatter_messages(#[trigger] rounds[i].active_routes@[k], delivered) is None by {
                if i < n {
                    assert(rounds[i] == rest[i]);
                } else {
                    assert(last[k] == rounds[i].active_routes@[k]);
                }
            }
        }
    }
}

} // verus!
