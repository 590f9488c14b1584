//! Reduced replays and the per-objective measures that run summaries take
//! from them: presence over the active window, churn, engine handoffs, broker
//! participation, and whether a route is usable in a configuration.
use vstd::prelude::*;
use crate::stats::{permille, ratio_permille};
use crate::text::{chars_lt, lemma_chars_lt_transitive, lemma_chars_lt_trichotomy};
use crate::topology::{configuration_path_exists, reaches, Configuration, NodeId};

verus! {

/// A routing engine, by the identity it registers with the router.
#[derive(Clone, Copy, Debug, PartialEq, Eq, Structural)]
pub enum RoutingEngineId {
    BatmanBellman,
    BatmanClassic,
    Babel,
    OlsrV2,
    Pathway,
    Field,
    Scatter,
    Mercator,
    /// Any other engine, by its sixteen contract bytes read big-endian.
    Other(u128),
}

/// The report label of an engine.
pub open spec fn engine_label(engine_id: RoutingEngineId) -> Seq<char> {
    match engine_id {
        RoutingEngineId::BatmanBellman => "batman-bellman"@,
        RoutingEngineId::BatmanClassic => "batman-classic"@,
        RoutingEngineId::Babel => "babel"@,
        RoutingEngineId::OlsrV2 => "olsrv2"@,
        RoutingEngineId::Pathway => "pathway"@,
        RoutingEngineId::Field => "field"@,
        RoutingEngineId::Scatter => "scatter"@,
        RoutingEngineId::Mercator => "mercator"@,
        RoutingEngineId::Other(_) => "other"@,
    }
}

/// The label under which run summaries count an engine's rounds: Mercator,
/// like any engine outside the counted set, counts as "other".
pub open spec fn summary_engine_label(engine_id: RoutingEngineId) -> Seq<char> {
    match engine_id {
        RoutingEngineId::Mercator => "other"@,
        _ => engine_label(engine_id),
    }
}

/// The label under which run summaries count an engine's rounds; engines
/// outside the counted set, Mercator among them, are "other".
pub fn normalized_engine_id(engine_id: RoutingEngineId) -> (r: &'static str)
    ensures
        r@ == summary_engine_label(engine_id),
{
    match engine_id {
        RoutingEngineId::BatmanBellman => "batman-bellman",
        RoutingEngineId::BatmanClassic => "batman-classic",
        RoutingEngineId::Babel => "babel",
        RoutingEngineId::OlsrV2 => "olsrv2",
        RoutingEngineId::Pathway => "pathway",
        RoutingEngineId::Field => "field",
        RoutingEngineId::Scatter => "scatter",
        RoutingEngineId::Mercator => "other",
        RoutingEngineId::Other(_) => "other",
    }
}

/// Where a route leads: a node, a gateway, or a service (by its id bytes).
#[derive(Clone, Debug)]
pub enum DestinationId {
    Node(NodeId),
    Gateway(u128),
    Service(Vec<u8>),
}

/// A destination with its service bytes as a sequence.
pub enum DestinationView {
    Node(u8),
    Gateway(u128),
    Service(Seq<u8>),
}

impl View for DestinationId {
    type V = DestinationView;

    open spec fn view(&self) -> DestinationView {
        match self {
            DestinationId::Node(n) => DestinationView::Node(n.0),
            DestinationId::Gateway(g) => DestinationView::Gateway(*g),
            DestinationId::Service(s) => DestinationView::Service(s@),
        }
    }
}

/// Whether two destinations are the same.
pub fn same_destination(a: &DestinationId, b: &DestinationId) -> (r: bool)
    ensures
        r == (a@ == b@),
{
    match (a, b) {
        (DestinationId::Node(x), DestinationId::Node(y)) => x.0 == y.0,
        (DestinationId::Gateway(x), DestinationId::Gateway(y)) => *x == *y,
        (DestinationId::Service(x), DestinationId::Service(y)) => {
            if x.len() != y.len() {
                return false;
            }
            let mut i: usize = 0;
            while i < x.len()
                invariant
                    a@ == DestinationView::Service(x@),
                    b@ == DestinationView::Service(y@),
                    x@.len() == y@.len(),
                    i <= x@.len(),
                    x@.take(i as int) == y@.take(i as int),
                decreases x@.len() - i,
            {
                if x[i] != y[i] {
                    assert(x@[i as int] != y@[i as int]);
                    assert(x@ != y@);
                    assert(a@ == DestinationView::Service(x@));
                    assert(b@ == DestinationView::Service(y@));
                    return false;
                }
                assert(x@.take(i + 1) =~= x@.take(i as int).push(x@[i as int]));
                assert(y@.take(i + 1) =~= y@.take(i as int).push(y@[i as int]));
                i = i + 1;
            }
            assert(x@ =~= x@.take(i as int));
            assert(y@ =~= y@.take(i as int));
            true
        },
        _ => false,
    }
}

/// Whether the router still holds a route as reachable.
#[derive(Clone, Copy, Debug, PartialEq, Eq, Structural)]
pub enum ReachabilityState {
    Reachable,
    Unreachable,
}

/// A route that is active at the end of a round, as the reduced replay keeps it.
#[derive(Clone, Debug)]
pub struct ActiveRouteSummary {
    pub owner_node_id: NodeId,
    pub destination: DestinationId,
    pub engine_id: RoutingEngineId,
    pub next_hop_node_id: Option<NodeId>,
    pub hop_count_hint: Option<u8>,
    pub reachability_state: ReachabilityState,
    pub stability_score: u16,
    pub scatter_current_regime: Option<String>,
    pub scatter_last_action: Option<String>,
    pub scatter_retained_message_count: Option<u32>,
    pub scatter_delivered_message_count: Option<u32>,
}

/// One round of a reduced replay: its index and the routes active in it.
#[derive(Clone, Debug)]
pub struct ReducedRound {
    pub round_index: u32,
    pub active_routes: Vec<ActiveRouteSummary>,
}

/// One stretch of rounds over which an owner held a route to a destination
/// through one engine.
#[derive(Clone, Debug)]
pub struct ReducedRouteObservation {
    pub owner_node_id: NodeId,
    pub destination: DestinationId,
    pub engine_id: RoutingEngineId,
    pub first_seen_round: u32,
    pub last_seen_round: u32,
}

/// What the replay recorded of one objective's route: the rounds in which it
/// was present, whether and when it first appeared, for each round whether a
/// usable route was held, the hop counts and stability scores of its routes,
/// and the last field-engine facts reported for it.
#[derive(Clone, Debug)]
pub struct ObjectiveReplay {
    pub owner_node_id: NodeId,
    pub destination: DestinationId,
    pub present_rounds: Vec<u32>,
    pub route_seen: bool,
    pub first_route_round: Option<u32>,
    pub usable_rounds: Vec<(u32, bool)>,
    pub hop_counts: Vec<u32>,
    pub stability_scores: Vec<u32>,
    pub commitment_resolution: Option<String>,
    pub last_outcome: Option<String>,
    pub continuity_band: Option<String>,
    pub promotion_decision: Option<String>,
    pub promotion_blocker: Option<String>,
    pub continuation_shift_count: u32,
}

/// One field-engine replay summary of a node.
#[derive(Clone, Debug)]
pub struct FieldReplaySummary {
    pub owner_node_id: NodeId,
    pub selected_result_present: bool,
    pub search_reconfiguration_present: bool,
    pub bootstrap_active: bool,
    pub continuity_band: Option<String>,
    pub last_continuity_transition: Option<String>,
    pub last_promotion_decision: Option<String>,
    pub last_promotion_blocker: Option<String>,
    pub bootstrap_activation_count: u32,
    pub bootstrap_hold_count: u32,
    pub bootstrap_narrow_count: u32,
    pub bootstrap_upgrade_count: u32,
    pub bootstrap_withdraw_count: u32,
    pub degraded_steady_entry_count: u32,
    pub degraded_steady_recovery_count: u32,
    pub degraded_to_bootstrap_count: u32,
    pub degraded_steady_round_count: u32,
    pub service_retention_carry_forward_count: u32,
    pub asymmetric_shift_success_count: u32,
    pub protocol_reconfiguration_count: usize,
    pub route_bound_reconfiguration_count: usize,
    pub continuation_shift_count: u32,
    pub corridor_narrow_count: u32,
    pub checkpoint_restore_count: u32,
}

/// How many scripted environment hooks of each kind the run applied.
#[derive(Clone, Copy, Debug, Default)]
pub struct EnvironmentHookCounts {
    pub replace_topology: u32,
    pub medium_degradation: u32,
    pub asymmetric_degradation: u32,
    pub partition: u32,
    pub cascade_partition: u32,
    pub mobility_relink: u32,
    pub intrinsic_limit: u32,
}

/// How many route failures of each class the run's failure summaries report.
#[derive(Clone, Copy, Debug, Default)]
pub struct FailureClassCounts {
    pub no_candidate: u32,
    pub inadmissible_candidate: u32,
    pub lost_reachability: u32,
    pub replacement_loop: u32,
    pub maintenance_failure: u32,
    pub activation_failure: u32,
    pub persistent_degraded: u32,
    pub other: u32,
}

/// A run reduced to what its summaries read: its rounds, its route
/// observations, the rounds in which the environment changed (ascending),
/// what was recorded per objective and per field-engine node, and the counts
/// of applied hooks and classified failures.
#[derive(Clone, Debug)]
pub struct ReducedReplayView {
    pub scenario_name: String,
    pub round_count: u32,
    pub rounds: Vec<ReducedRound>,
    pub distinct_engine_ids: Vec<RoutingEngineId>,
    pub driver_status_event_count: usize,
    pub failure_summary_count: usize,
    pub route_observations: Vec<ReducedRouteObservation>,
    pub environment_change_rounds: Vec<u32>,
    pub objective_replays: Vec<ObjectiveReplay>,
    pub field_replays: Vec<FieldReplaySummary>,
    pub hook_counts: EnvironmentHookCounts,
    pub failure_counts: FailureClassCounts,
    pub maintenance_failure_count: u32,
}

/// `x`, or `u32::MAX` when it does not fit.
pub open spec fn sat_u32(x: int) -> int {
    if x > u32::MAX { u32::MAX as int } else { x }
}

/// Rounds of the window from activation to the end of the run.
pub open spec fn active_round_count(round_count: u32, activate_at_round: u32) -> int {
    if round_count >= activate_at_round { round_count - activate_at_round } else { 0 }
}

/// Rounds between activation and the round limit (none if activation comes later).
pub fn objective_active_round_count(round_count: u32, activate_at_round: u32) -> (r: u32)
    ensures
        r == active_round_count(round_count, activate_at_round),
{
    round_count.saturating_sub(activate_at_round)
}

/// Number of the rounds in `rounds` at or after `from`.
pub open spec fn rounds_from(rounds: Seq<u32>, from: u32) -> nat
    decreases rounds.len(),
{
    if rounds.len() == 0 {
        0
    } else {
        rounds_from(rounds.drop_last(), from) + if rounds.last() >= from { 1nat } else { 0nat }
    }
}

/// Parts per thousand of the active window in which the route was present:
/// rounds before activation count neither as present nor as window.
pub fn active_window_route_presence_permille(present_rounds: &Vec<u32>, activate_at_round: u32, round_count: u32) -> (r: u32)
    ensures
        r == permille(
            sat_u32(rounds_from(present_rounds@, activate_at_round) as int),
            active_round_count(round_count, activate_at_round),
        ),
{
    let active_rounds = objective_active_round_count(round_count, activate_at_round);
    let mut count: usize = 0;
    let mut i: usize = 0;
    while i < present_rounds.len()
        invariant
            i <= present_rounds@.len(),
            count == rounds_from(present_rounds@.take(i as int), activate_at_round),
            count <= i,
        decreases present_rounds@.len() - i,
    {
        assert(present_rounds@.take(i + 1).drop_last() =~= present_rounds@.take(i as int));
        if present_rounds[i] >= activate_at_round {
            count = count + 1;
        }
        i = i + 1;
    }
    assert(present_rounds@.take(i as int) =~= present_rounds@);
    let present: u32 = if count > u32::MAX as usize { u32::MAX } else { count as u32 };
    ratio_permille(present, active_rounds)
}

/// The observation is of `owner`'s route to `destination`.
pub open spec fn observation_for(o: ReducedRouteObservation, owner: NodeId, destination: DestinationView) -> bool {
    o.owner_node_id == owner && o.destination@ == destination
}

/// Number of observations of `owner`'s route to `destination`.
pub open spec fn observation_count(obs: Seq<ReducedRouteObservation>, owner: NodeId, destination: DestinationView) -> nat
    decreases obs.len(),
{
    if obs.len() == 0 {
        0
    } else {
        observation_count(obs.drop_last(), owner, destination) + if observation_for(obs.last(), owner, destination) {
            1nat
        } else {
            0nat
        }
    }
}

/// The engines that carried `owner`'s route to `destination` among `obs`.
pub open spec fn observed_engines(obs: Seq<ReducedRouteObservation>, owner: NodeId, destination: DestinationView) -> Set<RoutingEngineId> {
    Set::new(|e: RoutingEngineId| exists|i: int| 0 <= i < obs.len() && #[trigger] observation_for(obs[i], owner, destination) && obs[i].engine_id == e)
}

/// One less than the number of observations of the route (a route that was
/// observed once has not churned).
pub fn route_churn_count_for(observations: &Vec<ReducedRouteObservation>, owner_node_id: NodeId, destination: &DestinationId) -> (r: u32)
    ensures
        r == sat_u32(if observation_count(observations@, owner_node_id, destination@) > 0 {
            observation_count(observations@, owner_node_id, destination@) - 1
        } else {
            0
        }),
{
    let mut count: usize = 0;
    let mut i: usize = 0;
    while i < observations.len()
        invariant
            i <= observations@.len(),
            count == observation_count(observations@.take(i as int), owner_node_id, destination@),
            count <= i,
        decreases observations@.len() - i,
    {
        assert(observations@.take(i + 1).drop_last() =~= observations@.take(i as int));
        let o = &observations[i];
        if o.owner_node_id == owner_node_id && same_destination(&o.destination, destination) {
            count = count + 1;
        }
        i = i + 1;
    }
    assert(observations@.take(i as int) =~= observations@);
    let churn = if count > 0 { count - 1 } else { 0 };
    if churn > u32::MAX as usize { u32::MAX } else { churn as u32 }
}

/// One less than the number of distinct engines that carried the route.
pub fn engine_handoff_count_for(observations: &Vec<ReducedRouteObservation>, owner_node_id: NodeId, destination: &DestinationId) -> (r: u32)
    ensures
        r == sat_u32(if observed_engines(observations@, owner_node_id, destination@).len() > 0 {
            observed_engines(observations@, owner_node_id, destination@).len() - 1
        } else {
            0
        }),
{
    let ghost obs = observations@;
    let ghost d = destination@;
    let mut seen: Vec<RoutingEngineId> = Vec::new();
    let mut i: usize = 0;
    while i < observations.len()
        invariant
            obs == observations@,
            d == destination@,
            i <= obs.len(),
            seen@.no_duplicates(),
            seen@.len() <= i,
            seen@.to_set() == observed_engines(obs.take(i as int), owner_node_id, d),
        decreases obs.len() - i,
    {
        let o = &observations[i];
        let ghost before = seen@;
        let matched = o.owner_node_id == owner_node_id && same_destination(&o.destination, destination);
        let mut found = false;
        if matched {
            let mut k: usize = 0;
            while k < seen.len()
                invariant
                    k <= seen@.len(),
                    found == exists|j: int| 0 <= j < k && seen@[j] == o.engine_id,
                decreases seen@.len() - k,
            {
                if seen[k] == o.engine_id {
                    found = true;
                }
                k = k + 1;
            }
            if !found {
                seen.push(o.engine_id);
            }
        }
        proof {
            let pre = obs.take(i as int);
            let post = obs.take(i + 1);
            let eng = o.engine_id;
            assert(post[i as int] == obs[i as int]);
            assert(observation_for(post[i as int], owner_node_id, d) == matched);
            assert forall|e: RoutingEngineId| observed_engines(post, owner_node_id, d).contains(e) <==> (observed_engines(pre, owner_node_id, d).contains(e)
                || (matched && e == eng)) by {
                if observed_engines(pre, owner_node_id, d).contains(e) {
                    let j = choose|j: int| 0 <= j < pre.len() && #[trigger] observation_for(pre[j], owner_node_id, d) && pre[j].engine_id == e;
                    assert(post[j] == pre[j]);
                }
                if observed_engines(post, owner_node_id, d).contains(e) {
                    let j = choose|j: int| 0 <= j < post.len() && #[trigger] observation_for(post[j], owner_node_id, d) && post[j].engine_id == e;
                    if j < i {
                        assert(pre[j] == post[j]);
                    }
                }
            }
            if matched && !found {
                assert(seen@ == before.push(eng));
                assert forall|x: RoutingEngineId| seen@.to_set().contains(x) <==> before.to_set().insert(eng).contains(x) by {
                    if seen@.to_set().contains(x) {
                        let j = choose|j: int| 0 <= j < seen@.len() && seen@[j] == x;
                        if j < before.len() {
                            assert(before[j] == x);
                        }
                    }
                    if before.to_set().contains(x) {
                        let j = choose|j: int| 0 <= j < before.len() && before[j] == x;
                        assert(seen@[j] == x);
                    }
                    if x == eng {
                        assert(seen@[before.len() as int] == eng);
                    }
                }
                assert(seen@.to_set() =~= before.to_set().insert(eng));
                assert forall|a: int, b: int| 0 <= a < b < seen@.len() implies seen@[a] != seen@[b] by {
                    if b == before.len() {
                        assert(seen@[a] == before[a]);
                    }
                }
            } else if matched {
                let j = choose|j: int| 0 <= j < before.len() && before[j] == eng;
                assert(before.to_set().contains(eng));
                assert(seen@.to_set() =~= before.to_set().insert(eng));
            }
            assert(seen@.to_set() =~= observed_engines(post, owner_node_id, d));
        }
        i = i + 1;
    }
    proof {
        assert(obs.take(i as int) =~= obs);
        seen@.unique_seq_to_set();
    }
    let distinct = seen.len();
    let handoffs = if distinct > 0 { distinct - 1 } else { 0 };
    if handoffs > u32::MAX as usize { u32::MAX } else { handoffs as u32 }
}

/// The route is `owner`'s route to `destination`.
pub open spec fn route_for(r: ActiveRouteSummary, owner: NodeId, destination: DestinationView) -> bool {
    r.owner_node_id == owner && r.destination@ == destination
}

/// The routes of `routes` that are `owner`'s to `destination`, in order.
pub open spec fn matching_routes(routes: Seq<ActiveRouteSummary>, owner: NodeId, destination: DestinationView) -> Seq<ActiveRouteSummary>
    decreases routes.len(),
{
    if routes.len() == 0 {
        Seq::empty()
    } else {
        let rest = matching_routes(routes.drop_last(), owner, destination);
        if route_for(routes.last(), owner, destination) { rest.push(routes.last()) } else { rest }
    }
}

/// `owner`'s routes to `destination` across the rounds, round by round.
pub open spec fn routes_across(rounds: Seq<ReducedRound>, owner: NodeId, destination: DestinationView) -> Seq<ActiveRouteSummary>
    decreases rounds.len(),
{
    if rounds.len() == 0 {
        Seq::empty()
    } else {
        routes_across(rounds.drop_last(), owner, destination) + matching_routes(rounds.last().active_routes@, owner, destination)
    }
}

/// The active routes of `owner` to `destination`, round after round.
pub fn active_routes_for<'a>(reduced: &'a ReducedReplayView, owner_node_id: NodeId, destination: &DestinationId) -> (r: Vec<&'a ActiveRouteSummary>)
    ensures
        r@.map_values(|x: &ActiveRouteSummary| *x) == routes_across(reduced.rounds@, owner_node_id, destination@),
{
    let ghost d = destination@;
    let mut out: Vec<&'a ActiveRouteSummary> = Vec::new();
    let mut k: usize = 0;
    while k < reduced.rounds.len()
        invariant
            d == destination@,
            k <= reduced.rounds@.len(),
            out@.map_values(|x: &ActiveRouteSummary| *x) == routes_across(reduced.rounds@.take(k as int), owner_node_id, d),
        decreases reduced.rounds@.len() - k,
    {
        let round = &reduced.rounds[k];
        let ghost base = out@.map_values(|x: &ActiveRouteSummary| *x);
        let mut j: usize = 0;
        while j < round.active_routes.len()
            invariant
                d == destination@,
                j <= round.active_routes@.len(),
                out@.map_values(|x: &ActiveRouteSummary| *x) == base + matching_routes(round.active_routes@.take(j as int), owner_node_id, d),
            decreases round.active_routes@.len() - j,
        {
            let route = &round.active_routes[j];
            assert(round.active_routes@.take(j + 1).drop_last() =~= round.active_routes@.take(j as int));
            let ghost prev = matching_routes(round.active_routes@.take(j as int), owner_node_id, d);
            if route.owner_node_id == owner_node_id && same_destination(&route.destination, destination) {
                let ghost old_out = out@;
                out.push(route);
                assert(out@ == old_out.push(route));
                assert(out@.map_values(|x: &ActiveRouteSummary| *x) =~= old_out.map_values(|x: &ActiveRouteSummary| *x).push(*route));
                assert(out@.map_values(|x: &ActiveRouteSummary| *x) =~= base + prev.push(*route));
            }
            j = j + 1;
        }
        assert(round.active_routes@.take(j as int) =~= round.active_routes@);
        assert(reduced.rounds@.take(k + 1).drop_last() =~= reduced.rounds@.take(k as int));
        k = k + 1;
    }
    assert(reduced.rounds@.take(k as int) =~= reduced.rounds@);
    out
}

/// The routes behind a list of references.
pub open spec fn deref_routes(routes: Seq<&ActiveRouteSummary>) -> Seq<ActiveRouteSummary> {
    routes.map_values(|x: &ActiveRouteSummary| *x)
}

/// Node ids in strictly ascending order (a set of nodes).
pub open spec fn ascending_nodes(nodes: Seq<NodeId>) -> bool {
    forall|i: int, j: int| 0 <= i < j < nodes.len() ==> (#[trigger] nodes[i]).0 < (#[trigger] nodes[j]).0
}

/// The route's next hop when that hop is a broker.
pub open spec fn broker_hop(r: ActiveRouteSummary, brokers: Seq<NodeId>) -> Option<NodeId> {
    match r.next_hop_node_id {
        Some(n) => if brokers.contains(n) { Some(n) } else { None },
        None => None,
    }
}

/// Number of routes that name a next hop.
pub open spec fn visible_count(rs: Seq<ActiveRouteSummary>) -> nat
    decreases rs.len(),
{
    if rs.len() == 0 { 0 } else { visible_count(rs.drop_last()) + if rs.last().next_hop_node_id is Some { 1nat } else { 0nat } }
}

/// Number of routes whose next hop is a broker.
pub open spec fn broker_hop_count(rs: Seq<ActiveRouteSummary>, brokers: Seq<NodeId>) -> nat
    decreases rs.len(),
{
    if rs.len() == 0 {
        0
    } else {
        broker_hop_count(rs.drop_last(), brokers) + if broker_hop(rs.last(), brokers) is Some { 1nat } else { 0nat }
    }
}

/// Number of routes whose next hop is `b`.
pub open spec fn hop_uses(rs: Seq<ActiveRouteSummary>, b: NodeId) -> nat
    decreases rs.len(),
{
    if rs.len() == 0 { 0 } else { hop_uses(rs.drop_last(), b) + if rs.last().next_hop_node_id == Some(b) { 1nat } else { 0nat } }
}

/// For each broker in order that some route goes through, the number of
/// routes through it (saturating at `u32::MAX`).
pub open spec fn usage_list(rs: Seq<ActiveRouteSummary>, brokers: Seq<NodeId>) -> Seq<(NodeId, u32)>
    decreases brokers.len(),
{
    if brokers.len() == 0 {
        Seq::empty()
    } else {
        let rest = usage_list(rs, brokers.drop_last());
        if hop_uses(rs, brokers.last()) > 0 { rest.push((brokers.last(), sat_u32(hop_uses(rs, brokers.last()) as int) as u32)) } else { rest }
    }
}

/// Whether `n` is one of `nodes`.
pub fn contains_node(nodes: &Vec<NodeId>, n: NodeId) -> (r: bool)
    ensures
        r == nodes@.contains(n),
{
    let mut i: usize = 0;
    while i < nodes.len()
        invariant
            i <= nodes@.len(),
            forall|j: int| 0 <= j < i ==> nodes@[j] != n,
        decreases nodes@.len() - i,
    {
        if nodes[i].0 == n.0 {
            assert(nodes@[i as int] == n);
            return true;
        }
        i = i + 1;
    }
    false
}

/// Of the routes: how many name a next hop, how many go through a broker, and
/// how many go through each broker that is used.
pub fn broker_active_route_counts_for(routes: &Vec<&ActiveRouteSummary>, broker_nodes: &Vec<NodeId>) -> (r: (u32, u32, Vec<(NodeId, u32)>))
    requires
        ascending_nodes(broker_nodes@),
    ensures
        r.0 == sat_u32(visible_count(deref_routes(routes@)) as int),
        r.1 == sat_u32(broker_hop_count(deref_routes(routes@), broker_nodes@) as int),
        r.2@ == usage_list(deref_routes(routes@), broker_nodes@),
{
    let ghost rs = deref_routes(routes@);
    let mut visible: u32 = 0;
    let mut brokered: u32 = 0;
    let mut i: usize = 0;
    while i < routes.len()
        invariant
            rs == deref_routes(routes@),
            i <= rs.len(),
            visible == sat_u32(visible_count(rs.take(i as int)) as int),
            brokered == sat_u32(broker_hop_count(rs.take(i as int), broker_nodes@) as int),
        decreases rs.len() - i,
    {
        assert(rs.take(i + 1).drop_last() =~= rs.take(i as int));
        assert(rs.take(i + 1).last() == *routes@[i as int]);
        let route = routes[i];
        match route.next_hop_node_id {
            Some(hop) => {
                visible = visible.saturating_add(1);
                if contains_node(broker_nodes, hop) {
                    brokered = brokered.saturating_add(1);
                }
            },
            None => {},
        }
        i = i + 1;
    }
    assert(rs.take(i as int) =~= rs);
    let mut usage: Vec<(NodeId, u32)> = Vec::new();
    let mut b: usize = 0;
    while b < broker_nodes.len()
        invariant
            rs == deref_routes(routes@),
            b <= broker_nodes@.len(),
            usage@ == usage_list(rs, broker_nodes@.take(b as int)),
        decreases broker_nodes@.len() - b,
    {
        let node = broker_nodes[b];
        let mut uses: u32 = 0;
        let mut k: usize = 0;
        while k < routes.len()
            invariant
                rs == deref_routes(routes@),
                k <= rs.len(),
                uses == sat_u32(hop_uses(rs.take(k as int), node) as int),
            decreases rs.len() - k,
        {
            assert(rs.take(k + 1).drop_last() =~= rs.take(k as int));
            assert(rs.take(k + 1).last() == *routes@[k as int]);
            match routes[k].next_hop_node_id {
                Some(hop) => {
                    if hop.0 == node.0 {
                        uses = uses.saturating_add(1);
                    }
                },
                None => {},
            }
            k = k + 1;
        }
        assert(rs.take(k as int) =~= rs);
        assert(broker_nodes@.take(b + 1).drop_last() =~= broker_nodes@.take(b as int));
        if uses > 0 {
            usage.push((node, uses));
        }
        b = b + 1;
    }
    assert(broker_nodes@.take(b as int) =~= broker_nodes@);
    (visible, brokered, usage)
}

/// Consecutive routes `l`, `r` change broker: at least one goes through a
/// broker and they do not go through the same one.
pub open spec fn broker_changes(l: ActiveRouteSummary, r: ActiveRouteSummary, brokers: Seq<NodeId>) -> bool {
    (broker_hop(l, brokers) is Some || broker_hop(r, brokers) is Some) && broker_hop(l, brokers) != broker_hop(r, brokers)
}

/// Number of consecutive pairs of routes that change broker.
pub open spec fn broker_churn(rs: Seq<ActiveRouteSummary>, brokers: Seq<NodeId>) -> nat
    decreases rs.len(),
{
    if rs.len() < 2 {
        0
    } else {
        broker_churn(rs.drop_last(), brokers) + if broker_changes(rs[rs.len() - 2], rs.last(), brokers) { 1nat } else { 0nat }
    }
}

fn broker_hop_of(route: &ActiveRouteSummary, broker_nodes: &Vec<NodeId>) -> (r: Option<NodeId>)
    ensures
        r == broker_hop(*route, broker_nodes@),
{
    match route.next_hop_node_id {
        Some(n) => if contains_node(broker_nodes, n) { Some(n) } else { None },
        None => None,
    }
}

/// How often the broker that the route goes through changes from one route to the next.
pub fn broker_route_churn_count_for(routes: &Vec<&ActiveRouteSummary>, broker_nodes: &Vec<NodeId>) -> (r: u32)
    ensures
        r == sat_u32(broker_churn(deref_routes(routes@), broker_nodes@) as int),
{
    let ghost rs = deref_routes(routes@);
    if routes.len() < 2 {
        return 0;
    }
    let mut count: usize = 0;
    let mut w: usize = 1;
    assert(rs.take(1).len() == 1);
    while w < routes.len()
        invariant
            rs == deref_routes(routes@),
            1 <= w <= rs.len(),
            count == broker_churn(rs.take(w as int), broker_nodes@),
            count < w,
        decreases rs.len() - w,
    {
        assert(rs.take(w + 1).drop_last() =~= rs.take(w as int));
        assert(rs.take(w + 1)[w - 1] == *routes@[w - 1]);
        assert(rs.take(w + 1).last() == *routes@[w as int]);
        let left = broker_hop_of(routes[w - 1], broker_nodes);
        let right = broker_hop_of(routes[w], broker_nodes);
        let differ = match (left, right) {
            (Some(a), Some(b)) => a.0 != b.0,
            (None, None) => false,
            _ => true,
        };
        if (left.is_some() || right.is_some()) && differ {
            count = count + 1;
        }
        w = w + 1;
    }
    assert(rs.take(w as int) =~= rs);
    if count > u32::MAX as usize { u32::MAX } else { count as u32 }
}

/// A route is usable when the router still holds it as reachable and, for a
/// node destination, the configuration has a path from its owner to that node.
pub open spec fn route_usable(route: ActiveRouteSummary, configuration: Configuration) -> bool {
    route.reachability_state != ReachabilityState::Unreachable && match route.destination {
        DestinationId::Node(n) => reaches(configuration.links@, route.owner_node_id.0, n.0),
        _ => true,
    }
}

/// Whether the route can carry traffic in the configuration.
pub fn route_usable_in_configuration(route: &ActiveRouteSummary, configuration: &Configuration) -> (r: bool)
    ensures
        r == route_usable(*route, *configuration),
{
    if route.reachability_state == ReachabilityState::Unreachable {
        return false;
    }
    match &route.destination {
        DestinationId::Node(destination_node_id) => configuration_path_exists(configuration, route.owner_node_id, *destination_node_id),
        DestinationId::Gateway(_) | DestinationId::Service(_) => true,
    }
}

/// The engine labels in ascending order.
pub open spec fn engine_labels() -> Seq<Seq<char>> {
    seq!["babel"@, "batman-bellman"@, "batman-classic"@, "field"@, "olsrv2"@, "other"@, "pathway"@, "scatter"@]
}

/// Some route of the round was carried by an engine labelled `label`.
pub open spec fn round_uses_label(round: ReducedRound, label: Seq<char>) -> bool {
    exists|j: int| 0 <= j < round.active_routes@.len() && summary_engine_label((#[trigger] round.active_routes@[j]).engine_id) == label
}

/// Number of rounds in which an engine labelled `label` carried some route.
pub open spec fn label_rounds(rounds: Seq<ReducedRound>, label: Seq<char>) -> nat
    decreases rounds.len(),
{
    if rounds.len() == 0 {
        0
    } else {
        label_rounds(rounds.drop_last(), label) + if round_uses_label(rounds.last(), label) { 1nat } else { 0nat }
    }
}

/// For each engine label among `labels` that carried a route in some round,
/// in order, the number of such rounds.
pub open spec fn engine_counts(rounds: Seq<ReducedRound>, labels: Seq<Seq<char>>) -> Seq<(Seq<char>, u32)>
    decreases labels.len(),
{
    if labels.len() == 0 {
        Seq::empty()
    } else {
        let rest = engine_counts(rounds, labels.drop_last());
        let n = label_rounds(rounds, labels.last());
        if n > 0 { rest.push((labels.last(), sat_u32(n as int) as u32)) } else { rest }
    }
}

fn round_uses(round: &ReducedRound, label: &str) -> (r: bool)
    ensures
        r == round_uses_label(*round, label@),
{
    let mut j: usize = 0;
    while j < round.active_routes.len()
        invariant
            j <= round.active_routes@.len(),
            forall|k: int| 0 <= k < j ==> summary_engine_label((#[trigger] round.active_routes@[k]).engine_id) != label@,
        decreases round.active_routes@.len() - j,
    {
        if crate::text::str_eq(normalized_engine_id(round.active_routes[j].engine_id), label) {
            return true;
        }
        j = j + 1;
    }
    false
}

/// For each engine label, in ascending order, the number of rounds in which
/// an engine with that label carried some route, saturating at `u32::MAX`
/// (labels that never did are left out).
pub fn engine_round_counts(reduced: &ReducedReplayView) -> (r: Vec<(String, u32)>)
    ensures
        r@.map_values(|p: (String, u32)| (p.0@, p.1)) == engine_counts(reduced.rounds@, engine_labels()),
{
    let labels: Vec<&'static str> = vec!["babel", "batman-bellman", "batman-classic", "field", "olsrv2", "other", "pathway", "scatter"];
    assert(labels@.map_values(|s: &str| s@) =~= engine_labels());
    let ghost rounds = reduced.rounds@;
    let mut out: Vec<(String, u32)> = Vec::new();
    let mut t: usize = 0;
    while t < labels.len()
        invariant
            rounds == reduced.rounds@,
            labels@.map_values(|s: &str| s@) == engine_labels(),
            t <= labels@.len(),
            out@.map_values(|p: (String, u32)| (p.0@, p.1)) == engine_counts(rounds, engine_labels().take(t as int)),
        decreases labels@.len() - t,
    {
        let label = labels[t];
        assert(engine_labels()[t as int] == label@);
        let mut count: u32 = 0;
        let mut k: usize = 0;
        while k < reduced.rounds.len()
            invariant
                rounds == reduced.rounds@,
                k <= rounds.len(),
                count == sat_u32(label_rounds(rounds.take(k as int), label@) as int),
            decreases rounds.len() - k,
        {
            assert(rounds.take(k + 1).drop_last() =~= rounds.take(k as int));
            if round_uses(&reduced.rounds[k], label) {
                count = count.saturating_add(1);
            }
            k = k + 1;
        }
        assert(rounds.take(k as int) =~= rounds);
        assert(engine_labels().take(t + 1).drop_last() =~= engine_labels().take(t as int));
        if count > 0 {
            let ghost before = out@;
            out.push((label.to_string(), count));
            assert(out@.map_values(|p: (String, u32)| (p.0@, p.1)) =~= before.map_values(|p: (String, u32)| (p.0@, p.1)).push((label@, count)));
        }
        t = t + 1;
    }
    assert(engine_labels().take(t as int) =~= engine_labels());
    out
}

/// `a` ranks no higher than `b`: by count, then by label.
pub open spec fn engine_rank_le(a: (Seq<char>, u32), b: (Seq<char>, u32)) -> bool {
    a.1 < b.1 || (a.1 == b.1 && !chars_lt(b.0, a.0))
}

proof fn lemma_engine_rank(a: (Seq<char>, u32), b: (Seq<char>, u32), c: (Seq<char>, u32))
    ensures
        engine_rank_le(a, a),
        engine_rank_le(a, b) || engine_rank_le(b, a),
        engine_rank_le(a, b) && engine_rank_le(b, c) ==> engine_rank_le(a, c),
{
    lemma_chars_lt_trichotomy(a.0, a.0);
    lemma_chars_lt_trichotomy(a.0, b.0);
    lemma_chars_lt_trichotomy(b.0, c.0);
    lemma_chars_lt_trichotomy(a.0, c.0);
    if engine_rank_le(a, b) && engine_rank_le(b, c) && a.1 == b.1 && b.1 == c.1 && chars_lt(c.0, a.0) {
        if a.0 != b.0 {
            lemma_chars_lt_transitive(c.0, a.0, b.0);
        }
    }
}

/// The counted entries as (label, count) pairs.
pub open spec fn count_entries(counts: Seq<(String, u32)>) -> Seq<(Seq<char>, u32)> {
    counts.map_values(|p: (String, u32)| (p.0@, p.1))
}

/// The engine with the most rounds (the greatest label among ties; the
/// last such entry if entries repeat), or `None` when nothing was counted.
pub fn dominant_engine(engine_counts: &Vec<(String, u32)>) -> (r: Option<String>)
    ensures
        engine_counts@.len() == 0 <==> r is None,
        r matches Some(name) ==> exists|i: int| {
            &&& 0 <= i < engine_counts@.len()
            &&& name@ == engine_counts@[i].0@
            &&& forall|j: int| 0 <= j < engine_counts@.len() ==> engine_rank_le(#[trigger] count_entries(engine_counts@)[j], count_entries(engine_counts@)[i])
            &&& forall|j: int| i < j < engine_counts@.len() ==> !engine_rank_le(count_entries(engine_counts@)[i], #[trigger] count_entries(engine_counts@)[j])
        },
{
    if engine_counts.len() == 0 {
        return None;
    }
    let ghost es = count_entries(engine_counts@);
    let mut best: usize = 0;
    let mut t: usize = 1;
    proof {
        lemma_engine_rank(es[0], es[0], es[0]);
    }
    while t < engine_counts.len()
        invariant
            es == count_entries(engine_counts@),
            1 <= t <= engine_counts@.len(),
            best < t,
            forall|j: int| 0 <= j < t ==> engine_rank_le(#[trigger] es[j], es[best as int]),
            forall|j: int| best < j < t ==> !engine_rank_le(es[best as int], #[trigger] es[j]),
        decreases engine_counts@.len() - t,
    {
        let a = &engine_counts[best];
        let b = &engine_counts[t];
        assert(es[best as int] == (a.0@, a.1));
        assert(es[t as int] == (b.0@, b.1));
        let takes = a.1 < b.1 || (a.1 == b.1 && !crate::text::str_lt(b.0.as_str(), a.0.as_str()));
        proof {
            assert forall|j: int| 0 <= j < t + 1 implies engine_rank_le(#[trigger] es[j], es[if takes { t as int } else { best as int }]) by {
                lemma_engine_rank(es[j], es[best as int], es[t as int]);
            }
            if !takes {
                lemma_engine_rank(es[t as int], es[best as int], es[t as int]);
            }
        }
        if takes {
            best = t;
        }
        t = t + 1;
    }
    Some(engine_counts[best].0.clone())
}

proof fn lemma_observed_engines_bounded(obs: Seq<ReducedRouteObservation>, owner: NodeId, destination: DestinationView)
    ensures
        observed_engines(obs, owner, destination).finite(),
        observed_engines(obs, owner, destination).len() <= observation_count(obs, owner, destination),
    decreases obs.len(),
{
    if obs.len() == 0 {
        assert(observed_engines(obs, owner, destination) =~= Set::<RoutingEngineId>::empty());
    } else {
        let init = obs.drop_last();
        lemma_observed_engines_bounded(init, owner, destination);
        let last = obs.last();
        assert forall|e: RoutingEngineId| observed_engines(obs, owner, destination).contains(e) <==> (observed_engines(init, owner, destination).contains(e)
            || (observation_for(last, owner, destination) && e == last.engine_id)) by {
            if observed_engines(obs, owner, destination).contains(e) {
                let i = choose|i: int| 0 <= i < obs.len() && #[trigger] observation_for(obs[i], owner, destination) && obs[i].engine_id == e;
                if i < init.len() {
                    assert(init[i] == obs[i]);
                }
            }
            if observed_engines(init, owner, destination).contains(e) {
                let i = choose|i: int| 0 <= i < init.len() && #[trigger] observation_for(init[i], owner, destination) && init[i].engine_id == e;
                assert(obs[i] == init[i]);
            }
            if observation_for(last, owner, destination) && e == last.engine_id {
                assert(obs[obs.len() - 1] == last);
            }
        }
        if observation_for(last, owner, destination) {
            assert(observed_engines(obs, owner, destination) =~= observed_engines(init, owner, destination).insert(last.engine_id));
        } else {
            assert(observed_engines(obs, owner, destination) =~= observed_engines(init, owner, destination));
        }
    }
}

/// A route cannot hand off between engines more often than it churns: the
/// handoff count never exceeds the churn count for the same owner and destination.
pub proof fn lemma_handoffs_bounded_by_churn(obs: Seq<ReducedRouteObservation>, owner: NodeId, destination: DestinationView)
    ensures
        sat_u32(if observed_engines(obs, owner, destination).len() > 0 { observed_engines(obs, owner, destination).len() - 1 } else { 0 })
            <= sat_u32(if observation_count(obs, owner, destination) > 0 { observation_count(obs, owner, destination) - 1 } else { 0 }),
{
    lemma_observed_engines_bounded(obs, owner, destination);
}

/// Presence over the active window is full when every round of the window
/// has the route: with `n` rounds from activation present and a window of
/// `n` rounds (small enough that `n` thousandths fit in a `u32`), the score
/// is one thousand.
pub proof fn lemma_full_window_presence(present_rounds: Seq<u32>, activate_at_round: u32, round_count: u32)
    requires
        rounds_from(present_rounds, activate_at_round) == active_round_count(round_count, activate_at_round),
        active_round_count(round_count, activate_at_round) > 0,
        active_round_count(round_count, activate_at_round) * 1000 <= u32::MAX,
    ensures
        permille(
            sat_u32(rounds_from(present_rounds, activate_at_round) as int),
            active_round_count(round_count, activate_at_round),
        ) == 1000,
{
    let n = active_round_count(round_count, activate_at_round);
    assert(n * 1000 / n == 1000) by (nonlinear_arith)
        requires
            n > 0;
}

/// The rounds counted from `from` are those of the list at or after it.
pub proof fn lemma_rounds_from_counts(rounds: Seq<u32>, from: u32)
    ensures
        rounds_from(rounds, from) == rounds.filter(|x: u32| x >= from).len(),
    decreases rounds.len(),
{
    reveal_with_fuel(Seq::filter, 1);
    if rounds.len() > 0 {
        lemma_rounds_from_counts(rounds.drop_last(), from);
    }
}

/// The observations counted for a route are those whose owner and destination are the route's.
pub proof fn lemma_observation_count_counts(obs: Seq<ReducedRouteObservation>, owner: NodeId, destination: DestinationView)
    ensures
        observation_count(obs, owner, destination) == obs.filter(|o: ReducedRouteObservation| o.owner_node_id == owner && o.destination@ == destination).len(),
    decreases obs.len(),
{
    reveal_with_fuel(Seq::filter, 1);
    if obs.len() > 0 {
        lemma_observation_count_counts(obs.drop_last(), owner, destination);
    }
}

/// The matching routes are, in order, those whose owner and destination are the given ones.
pub proof fn lemma_matching_routes_filter(routes: Seq<ActiveRouteSummary>, owner: NodeId, destination: DestinationView)
    ensures
        matching_routes(routes, owner, destination) == routes.filter(|r: ActiveRouteSummary| r.owner_node_id == owner && r.destination@ == destination),
    decreases routes.len(),
{
    reveal_with_fuel(Seq::filter, 1);
    if routes.len() > 0 {
        lemma_matching_routes_filter(routes.drop_last(), owner, destination);
    }
}

/// The visible routes are those that name a next hop.
pub proof fn lemma_visible_count_counts(rs: Seq<ActiveRouteSummary>)
    ensures
        visible_count(rs) == rs.filter(|r: ActiveRouteSummary| r.next_hop_node_id is Some).len(),
    decreases rs.len(),
{
    reveal_with_fuel(Seq::filter, 1);
    if rs.len() > 0 {
        lemma_visible_count_counts(rs.drop_last());
    }
}

/// The brokered routes are those whose next hop is one of the brokers.
pub proof fn lemma_broker_hop_count_counts(rs: Seq<ActiveRouteSummary>, brokers: Seq<NodeId>)
    ensures
        broker_hop_count(rs, brokers) == rs.filter(|r: ActiveRouteSummary| r.next_hop_node_id is Some && brokers.contains(r.next_hop_node_id->0)).len(),
    decreases rs.len(),
{
    reveal_with_fuel(Seq::filter, 1);
    if rs.len() > 0 {
        lemma_broker_hop_count_counts(rs.drop_last(), brokers);
    }
}

/// The uses of a hop are the routes whose next hop it is.
pub proof fn lemma_hop_uses_counts(rs: Seq<ActiveRouteSummary>, b: NodeId)
    ensures
        hop_uses(rs, b) == rs.filter(|r: ActiveRouteSummary| r.next_hop_node_id == Some(b)).len(),
    decreases rs.len(),
{
    reveal_with_fuel(Seq::filter, 1);
    if rs.len() > 0 {
        lemma_hop_uses_counts(rs.drop_last(), b);
    }
}

/// The rounds counted for a label are those in which some route was carried by an engine with that label.
pub proof fn lemma_label_rounds_counts(rounds: Seq<ReducedRound>, label: Seq<char>)
    ensures
        label_rounds(rounds, label) == rounds.filter(|round: ReducedRound| round_uses_label(round, label)).len(),
    decreases rounds.len(),
{
    reveal_with_fuel(Seq::filter, 1);
    if rounds.len() > 0 {
        lemma_label_rounds_counts(rounds.drop_last(), label);
    }
}

/// The broker usage lists, in the brokers' order, each broker that some route
/// goes through with the number of routes through it (saturating).
pub proof fn lemma_usage_list_lists_used_brokers(rs: Seq<ActiveRouteSummary>, brokers: Seq<NodeId>)
    ensures
        usage_list(rs, brokers) == brokers.filter(|b: NodeId| hop_uses(rs, b) > 0).map_values(
            |b: NodeId| (b, sat_u32(hop_uses(rs, b) as int) as u32),
        ),
    decreases brokers.len(),
{
    reveal_with_fuel(Seq::filter, 1);
    if brokers.len() > 0 {
        lemma_usage_list_lists_used_brokers(rs, brokers.drop_last());
        let f = brokers.drop_last().filter(|b: NodeId| hop_uses(rs, b) > 0);
        let g = |b: NodeId| (b, sat_u32(hop_uses(rs, b) as int) as u32);
        if hop_uses(rs, brokers.last()) > 0 {
            assert(f.push(brokers.last()).map_values(g) =~= f.map_values(g).push(g(brokers.last())));
        }
    }
}

/// The broker churn counts the consecutive pairs of routes that change broker.
pub proof fn lemma_broker_churn_counts_pairs(rs: Seq<ActiveRouteSummary>, brokers: Seq<NodeId>)
    requires
        rs.len() >= 1,
    ensures
        broker_churn(rs, brokers) == Seq::new((rs.len() - 1) as nat, |i: int| broker_changes(rs[i], rs[i + 1], brokers)).filter(
            |c: bool| c,
        ).len(),
    decreases rs.len(),
{
    reveal_with_fuel(Seq::filter, 1);
    let pairs = Seq::new((rs.len() - 1) as nat, |i: int| broker_changes(rs[i], rs[i + 1], brokers));
    if rs.len() >= 2 {
        let rest = rs.drop_last();
        lemma_broker_churn_counts_pairs(rest, brokers);
        let before = Seq::new((rest.len() - 1) as nat, |i: int| broker_changes(rest[i], rest[i + 1], brokers));
        assert(pairs.drop_last() =~= before);
    } else {
        assert(pairs =~= Seq::<bool>::empty());
    }
}

/// The engine counts list, in the labels' order, each label whose engines
/// carried a route in some round, with the number of such rounds (saturating).
pub proof fn lemma_engine_counts_list_used_labels(rounds: Seq<ReducedRound>, labels: Seq<Seq<char>>)
    ensures
        engine_counts(rounds, labels) == labels.filter(|l: Seq<char>| label_rounds(rounds, l) > 0).map_values(
            |l: Seq<char>| (l, sat_u32(label_rounds(rounds, l) as int) as u32),
        ),
    decreases labels.len(),
{
    reveal_with_fuel(Seq::filter, 1);
    if labels.len() > 0 {
        lemma_engine_counts_list_used_labels(rounds, labels.drop_last());
        let f = labels.drop_last().filter(|l: Seq<char>| label_rounds(rounds, l) > 0);
        let g = |l: Seq<char>| (l, sat_u32(label_rounds(rounds, l) as int) as u32);
        if label_rounds(rounds, labels.last()) > 0 {
            assert(f.push(labels.last()).map_values(g) =~= f.map_values(g).push(g(labels.last())));
        }
    }
}

} // verus!
