//! Observed network configurations: nodes, directed links and the shared
//! medium environment, with the link-map edits and the reachability search
//! that replay reduction relies on.
use vstd::prelude::*;

verus! {

/// A node identity. Simulated nodes are named by a single distinguishing
/// byte, which also fixes their order.
#[derive(Clone, Copy, Debug, PartialEq, Eq, Structural, Hash)]
pub struct NodeId(pub u8);

/// The node named by `byte`.
pub fn node_id(byte: u8) -> (r: NodeId)
    ensures
        r.0 == byte,
{
    NodeId(byte)
}

/// Which routing engines a node advertises.
#[derive(Clone, Copy, Debug, PartialEq, Eq, Structural)]
pub enum NodeEngines {
    AllEngines,
    BatmanBellman,
    BatmanClassic,
    Babel,
    OlsrV2,
    Pathway,
    Field,
    Scatter,
    Mercator,
    PathwayAndBatmanBellman,
}

/// A node of the configuration with the state that the experiments adjust.
#[derive(Clone, Copy, Debug, PartialEq, Eq, Structural)]
pub struct TopologyNode {
    pub node_id: NodeId,
    pub engines: NodeEngines,
    pub hold_capacity_available_bytes: Option<u64>,
    pub relay_utilization_permille: Option<u16>,
}

/// A fresh node advertising `engines`.
pub fn topology_node(byte: u8, engines: NodeEngines) -> (r: TopologyNode)
    ensures
        r.node_id.0 == byte,
        r.engines == engines,
        r.hold_capacity_available_bytes is None,
        r.relay_utilization_permille is None,
{
    TopologyNode {
        node_id: NodeId(byte),
        engines,
        hold_capacity_available_bytes: None,
        relay_utilization_permille: None,
    }
}

/// The observed state of one directed link.
#[derive(Clone, Copy, Debug, PartialEq, Eq, Structural)]
pub struct Link {
    pub endpoint: NodeId,
    pub loss_permille: u16,
    pub delivery_confidence_permille: Option<u16>,
    pub transfer_rate_bytes_per_sec: Option<u32>,
    pub stability_horizon_ms: Option<u32>,
}

/// A fresh link whose far endpoint is `byte`.
pub fn topology_link(byte: u8) -> (r: Link)
    ensures
        r.endpoint.0 == byte,
        r.loss_permille == 0,
        r.delivery_confidence_permille is None,
        r.transfer_rate_bytes_per_sec is None,
        r.stability_horizon_ms is None,
{
    Link {
        endpoint: NodeId(byte),
        loss_permille: 0,
        delivery_confidence_permille: None,
        transfer_rate_bytes_per_sec: None,
        stability_horizon_ms: None,
    }
}

/// A link keyed by its (from, to) node pair.
#[derive(Clone, Copy, Debug, PartialEq, Eq, Structural)]
pub struct DirectedLink {
    pub from: NodeId,
    pub to: NodeId,
    pub link: Link,
}

/// The shared medium as the configuration reports it.
#[derive(Clone, Copy, Debug, PartialEq, Eq, Structural)]
pub struct MediumEnvironment {
    pub reachable_neighbor_count: u32,
    pub churn_permille: u16,
    pub contention_permille: u16,
}

/// A network configuration: nodes, directed links (one per ordered pair) and
/// the medium environment.
#[derive(Clone, Debug)]
pub struct Configuration {
    pub epoch: u64,
    pub nodes: Vec<TopologyNode>,
    pub links: Vec<DirectedLink>,
    pub environment: MediumEnvironment,
}

/// No ordered pair carries two links.
pub open spec fn links_keyed(links: Seq<DirectedLink>) -> bool {
    forall|i: int, j: int|
        0 <= i < j < links.len() ==> !(#[trigger] links[i].from == #[trigger] links[j].from
            && links[i].to == links[j].to)
}

/// There is a link from `a` to `b`.
pub open spec fn has_link(links: Seq<DirectedLink>, a: u8, b: u8) -> bool {
    exists|k: int| 0 <= k < links.len() && links[k].from.0 == a && links[k].to.0 == b
}

/// The link stored for the pair `(a, b)`, if any.
pub open spec fn link_at(links: Seq<DirectedLink>, a: u8, b: u8) -> Option<Link> {
    if has_link(links, a, b) {
        Some(links[choose|k: int| 0 <= k < links.len() && links[k].from.0 == a && links[k].to.0 == b].link)
    } else {
        None
    }
}

/// Position of the link for `(a, b)`, if present.
pub fn find_link(links: &Vec<DirectedLink>, a: NodeId, b: NodeId) -> (r: Option<usize>)
    ensures
        match r {
            Some(k) => k < links@.len() && links@[k as int].from == a && links@[k as int].to == b,
            None => !has_link(links@, a.0, b.0),
        },
{
    let mut k: usize = 0;
    while k < links.len()
        invariant
            k <= links@.len(),
            forall|j: int| 0 <= j < k ==> !(links@[j].from.0 == a.0 && links@[j].to.0 == b.0),
        decreases links@.len() - k,
    {
        if links[k].from.0 == a.0 && links[k].to.0 == b.0 {
            return Some(k);
        }
        k = k + 1;
    }
    None
}

/// Sets the link for `(a, b)`, replacing any link already stored for the pair.
pub fn insert_link(links: &mut Vec<DirectedLink>, a: NodeId, b: NodeId, link: Link)
    requires
        links_keyed(old(links)@),
    ensures
        links_keyed(final(links)@),
        has_link(final(links)@, a.0, b.0),
        link_at(final(links)@, a.0, b.0) == Some(link),
        forall|x: u8, y: u8|
            !(x == a.0 && y == b.0) ==> has_link(final(links)@, x, y) == has_link(old(links)@, x, y)
                && link_at(final(links)@, x, y) == link_at(old(links)@, x, y),
{
    let entry = DirectedLink { from: a, to: b, link };
    match find_link(links, a, b) {
        Some(k) => {
            let ghost before = links@;
            links.set(k, entry);
            proof {
                assert forall|x: u8, y: u8| !(x == a.0 && y == b.0) implies has_link(links@, x, y)
                    == has_link(before, x, y) && link_at(links@, x, y) == link_at(before, x, y) by {
                    if has_link(before, x, y) {
                        let j = choose|j: int| 0 <= j < before.len() && before[j].from.0 == x && before[j].to.0 == y;
                        assert(links@[j] == before[j]);
                    }
                    if has_link(links@, x, y) {
                        let j = choose|j: int| 0 <= j < links@.len() && links@[j].from.0 == x && links@[j].to.0 == y;
                        assert(before[j] == links@[j]);
                    }
                    if has_link(links@, x, y) {
                        let j1 = choose|j: int| 0 <= j < links@.len() && links@[j].from.0 == x && links@[j].to.0 == y;
                        let j2 = choose|j: int| 0 <= j < before.len() && before[j].from.0 == x && before[j].to.0 == y;
                        if j1 != j2 {
                            if j1 < j2 {
                                assert(before[j1].from == before[j2].from);
                            } else {
                                assert(before[j2].from == before[j1].from);
                            }
                        }
                    }
                }
                assert(links@[k as int].from.0 == a.0 && links@[k as int].to.0 == b.0);
                let j = choose|j: int| 0 <= j < links@.len() && links@[j].from.0 == a.0 && links@[j].to.0 == b.0;
                if j != k {
                    if j < k {
                        assert(links@[j].from == links@[k as int].from);
                    } else {
                        assert(links@[k as int].from == links@[j].from);
                    }
                }
            }
        },
        None => {
            let ghost before = links@;
            links.push(entry);
            proof {
                assert forall|x: u8, y: u8| !(x == a.0 && y == b.0) implies has_link(links@, x, y)
                    == has_link(before, x, y) && link_at(links@, x, y) == link_at(before, x, y) by {
                    if has_link(before, x, y) {
                        let j = choose|j: int| 0 <= j < before.len() && before[j].from.0 == x && before[j].to.0 == y;
                        assert(links@[j] == before[j]);
                    }
                    if has_link(links@, x, y) {
                        let j = choose|j: int| 0 <= j < links@.len() && links@[j].from.0 == x && links@[j].to.0 == y;
                        assert(j < before.len());
                        assert(before[j] == links@[j]);
                    }
                }
                let last = (links@.len() - 1) as int;
                assert(links@[last].from.0 == a.0 && links@[last].to.0 == b.0);
                let j = choose|j: int| 0 <= j < links@.len() && links@[j].from.0 == a.0 && links@[j].to.0 == b.0;
                if j != last {
                    assert(before[j].from.0 == a.0 && before[j].to.0 == b.0);
                }
            }
        },
    }
}

/// Removes the link for `(a, b)` if there is one.
pub fn remove_link(links: &mut Vec<DirectedLink>, a: NodeId, b: NodeId)
    requires
        links_keyed(old(links)@),
    ensures
        links_keyed(final(links)@),
        !has_link(final(links)@, a.0, b.0),
        forall|x: u8, y: u8|
            !(x == a.0 && y == b.0) ==> has_link(final(links)@, x, y) == has_link(old(links)@, x, y)
                && link_at(final(links)@, x, y) == link_at(old(links)@, x, y),
{
    match find_link(links, a, b) {
        Some(k) => {
            let ghost before = links@;
            links.remove(k);
            proof {
                assert forall|x: u8, y: u8| !(x == a.0 && y == b.0) implies has_link(links@, x, y)
                    == has_link(before, x, y) && link_at(links@, x, y) == link_at(before, x, y) by {
                    if has_link(before, x, y) {
                        let j = choose|j: int| 0 <= j < before.len() && before[j].from.0 == x && before[j].to.0 == y;
                        assert(j != k);
                        if j < k {
                            assert(links@[j] == before[j]);
                        } else {
                            assert(links@[j - 1] == before[j]);
                        }
                    }
                    if has_link(links@, x, y) {
                        let j = choose|j: int| 0 <= j < links@.len() && links@[j].from.0 == x && links@[j].to.0 == y;
                        if j < k {
                            assert(before[j] == links@[j]);
                        } else {
                            assert(before[j + 1] == links@[j]);
                        }
                    }
                    if has_link(links@, x, y) {
                        let j1 = choose|j: int| 0 <= j < links@.len() && links@[j].from.0 == x && links@[j].to.0 == y;
                        let j2 = choose|j: int| 0 <= j < before.len() && before[j].from.0 == x && before[j].to.0 == y;
                        let j1b = if j1 < k { j1 } else { j1 + 1 };
                        assert(before[j1b] == links@[j1]);
                        if j1b != j2 {
                            if j1b < j2 {
                                assert(before[j1b].from == before[j2].from);
                            } else {
                                assert(before[j2].from == before[j1b].from);
                            }
                        }
                    }
                }
                if has_link(links@, a.0, b.0) {
                    let j = choose|j: int| 0 <= j < links@.len() && links@[j].from.0 == a.0 && links@[j].to.0 == b.0;
                    let jb = if j < k { j } else { j + 1 };
                    assert(before[jb] == links@[j]);
                    if jb < k {
                        assert(before[jb].from == before[k as int].from);
                    } else {
                        assert(before[k as int].from == before[jb].from);
                    }
                }
            }
        },
        None => {},
    }
}

/// `p` is a walk along links.
pub open spec fn is_walk(links: Seq<DirectedLink>, p: Seq<u8>) -> bool {
    &&& p.len() >= 1
    &&& forall|i: int| 0 <= i < p.len() - 1 ==> has_link(links, #[trigger] p[i], p[i + 1])
}

/// `dst` can be reached from `src` by following links (every node reaches itself).
pub open spec fn reaches(links: Seq<DirectedLink>, src: u8, dst: u8) -> bool {
    exists|p: Seq<u8>| #[trigger] is_walk(links, p) && p[0] == src && p.last() == dst
}

/// Number of marked entries.
pub open spec fn marked_count(s: Seq<bool>) -> nat
    decreases s.len(),
{
    if s.len() == 0 { 0 } else { marked_count(s.drop_last()) + if s.last() { 1nat } else { 0nat } }
}

proof fn lemma_marked_count_bound(s: Seq<bool>)
    ensures
        marked_count(s) <= s.len(),
    decreases s.len(),
{
    if s.len() > 0 {
        lemma_marked_count_bound(s.drop_last());
    }
}

proof fn lemma_marked_count_set(s: Seq<bool>, i: int)
    requires
        0 <= i < s.len(),
        !s[i],
    ensures
        marked_count(s.update(i, true)) == marked_count(s) + 1,
    decreases s.len(),
{
    if i == s.len() - 1 {
        assert(s.update(i, true).drop_last() =~= s.drop_last());
    } else {
        lemma_marked_count_set(s.drop_last(), i);
        assert(s.update(i, true).drop_last() =~= s.drop_last().update(i, true));
    }
}

/// A marking that contains `src` and is closed under links contains every
/// node that `src` reaches.
proof fn lemma_closed_marking_contains_reach(links: Seq<DirectedLink>, marked: Seq<bool>, src: u8, p: Seq<u8>)
    requires
        marked.len() == 256,
        marked[src as int],
        forall|a: u8, b: u8| marked[a as int] && #[trigger] has_link(links, a, b) ==> marked[b as int],
        is_walk(links, p),
        p[0] == src,
    ensures
        marked[p.last() as int],
    decreases p.len(),
{
    if p.len() > 1 {
        let q = p.drop_last();
        assert(is_walk(links, q)) by {
            assert forall|i: int| 0 <= i < q.len() - 1 implies has_link(links, #[trigger] q[i], q[i + 1]) by {
                assert(q[i] == p[i] && q[i + 1] == p[i + 1]);
            }
        }
        lemma_closed_marking_contains_reach(links, marked, src, q);
        assert(has_link(links, p[p.len() - 2], p[p.len() - 1]));
        assert(marked[p[p.len() - 2] as int]);
    }
}

/// Whether some sequence of links leads from `source` to `destination`
/// (a node always reaches itself).
pub fn configuration_path_exists(configuration: &Configuration, source: NodeId, destination: NodeId) -> (r: bool)
    ensures
        r == reaches(configuration.links@, source.0, destination.0),
{
    let links = &configuration.links;
    let ghost ls = links@;
    let mut visited: Vec<bool> = Vec::new();
    let mut b: usize = 0;
    while b < 256
        invariant
            b <= 256,
            visited@.len() == b,
            forall|k: int| 0 <= k < b ==> !visited@[k],
        decreases 256 - b,
    {
        visited.push(false);
        b = b + 1;
    }
    proof {
        assert(marked_count(visited@) == 0) by {
            lemma_no_marks(visited@);
        }
    }
    visited.set(source.0 as usize, true);
    proof {
        lemma_marked_count_set(Seq::new(256, |k: int| false), source.0 as int);
        assert(visited@ =~= Seq::new(256, |k: int| false).update(source.0 as int, true));
        assert(marked_count(Seq::new(256, |k: int| false)) == 0) by {
            lemma_no_marks(Seq::new(256, |k: int| false));
        }
        let p = seq![source.0];
        assert(is_walk(ls, p));
    }
    let mut count: usize = 1;
    let mut frontier: Vec<u8> = Vec::new();
    frontier.push(source.0);
    proof {
        assert(frontier@[0] == source.0);
        assert(frontier@.contains(source.0));
        assert forall|v: u8| #[trigger] visited@[v as int] implies v == source.0 by {
            if v != source.0 {
                assert(visited@[v as int] == Seq::new(256, |k: int| false)[v as int]);
            }
        }
    }
    while frontier.len() > 0
        invariant
            ls == configuration.links@,
            ls == links@,
            visited@.len() == 256,
            visited@[source.0 as int],
            count == marked_count(visited@),
            count <= 256,
            forall|i: int| 0 <= i < frontier@.len() ==> visited@[#[trigger] frontier@[i] as int],
            forall|i: int, j: int| 0 <= i < j < frontier@.len() ==> #[trigger] frontier@[i] != #[trigger] frontier@[j],
            forall|v: u8| #[trigger] visited@[v as int] ==> reaches(ls, source.0, v),
            forall|v: u8| #[trigger] visited@[v as int] && !frontier@.contains(v) ==> v != destination.0,
            forall|v: u8, w: u8|
                visited@[v as int] && !frontier@.contains(v) && #[trigger] has_link(ls, v, w) ==> visited@[w as int],
        decreases 2 * (256 - count) + frontier@.len(),
    {
        let ghost old_frontier = frontier@;
        let current = frontier.pop().unwrap();
        let ghost popped_frontier = frontier@;
        let ghost count0 = count;
        proof {
            assert(old_frontier =~= popped_frontier.push(current));
            assert forall|v: u8| old_frontier.contains(v) <==> (#[trigger] popped_frontier.contains(v) || v == current) by {
                if old_frontier.contains(v) {
                    let i = choose|i: int| 0 <= i < old_frontier.len() && old_frontier[i] == v;
                    if i < popped_frontier.len() {
                        assert(popped_frontier[i] == v);
                    }
                }
                if popped_frontier.contains(v) {
                    let i = choose|i: int| 0 <= i < popped_frontier.len() && popped_frontier[i] == v;
                    assert(old_frontier[i] == v);
                }
            }
        }
        if current == destination.0 {
            return true;
        }
        proof {
            assert forall|v: u8| #[trigger] frontier@.contains(v) implies v != current by {
                let i = choose|i: int| 0 <= i < frontier@.len() && frontier@[i] == v;
                assert(frontier@[i] == popped_frontier[i]);
            }
        }
        let mut k: usize = 0;
        while k < links.len()
            invariant
                ls == configuration.links@,
                ls == links@,
                k <= ls.len(),
                visited@.len() == 256,
                visited@[source.0 as int],
                visited@[current as int],
                current != destination.0,
                !frontier@.contains(current),
                count == marked_count(visited@),
                count <= 256,
                popped_frontier.len() <= frontier@.len(),
                frontier@.len() + count0 == popped_frontier.len() + count,
                count0 <= count,
                forall|i: int| 0 <= i < frontier@.len() ==> visited@[#[trigger] frontier@[i] as int],
                forall|i: int, j: int| 0 <= i < j < frontier@.len() ==> #[trigger] frontier@[i] != #[trigger] frontier@[j],
                forall|v: u8| #[trigger] visited@[v as int] ==> reaches(ls, source.0, v),
                forall|v: u8| #[trigger] visited@[v as int] && !frontier@.contains(v) && v != current ==> v != destination.0,
                forall|v: u8, w: u8|
                    visited@[v as int] && !frontier@.contains(v) && v != current && #[trigger] has_link(ls, v, w) ==> visited@[w as int],
                forall|j: int| 0 <= j < k && ls[j].from.0 == current ==> visited@[#[trigger] ls[j].to.0 as int],
                forall|i: int| 0 <= i < popped_frontier.len() ==> frontier@[i] == popped_frontier[i],
            decreases ls.len() - k,
        {
            let link = &links[k];
            if link.from.0 == current {
                let next = link.to.0;
                if !visited[next as usize] {
                    proof {
                        lemma_marked_count_set(visited@, next as int);
                        lemma_marked_count_bound(visited@.update(next as int, true));
                        let p = choose|p: Seq<u8>| #[trigger] is_walk(ls, p) && p[0] == source.0 && p.last() == current;
                        let q = p.push(next);
                        assert(has_link(ls, current, next));
                        assert(is_walk(ls, q)) by {
                            assert forall|i: int| 0 <= i < q.len() - 1 implies has_link(ls, #[trigger] q[i], q[i + 1]) by {
                                if i < p.len() - 1 {
                                    assert(q[i] == p[i] && q[i + 1] == p[i + 1]);
                                } else {
                                    assert(q[i] == current && q[i + 1] == next);
                                }
                            }
                        }
                        assert(q[0] == source.0 && q.last() == next);
                    }
                    let ghost prev_frontier = frontier@;
                    let ghost prev_visited = visited@;
                    visited.set(next as usize, true);
                    frontier.push(next);
                    count = count + 1;
                    proof {
                        assert forall|v: u8| frontier@.contains(v) <==> (#[trigger] prev_frontier.contains(v) || v == next) by {
                            if frontier@.contains(v) {
                                let i = choose|i: int| 0 <= i < frontier@.len() && frontier@[i] == v;
                                if i < prev_frontier.len() {
                                    assert(prev_frontier[i] == v);
                                }
                            }
                            if prev_frontier.contains(v) {
                                let i = choose|i: int| 0 <= i < prev_frontier.len() && prev_frontier[i] == v;
                                assert(frontier@[i] == v);
                            }
                            if v == next {
                                assert(frontier@[frontier@.len() - 1] == next);
                            }
                        }
                        assert(frontier@[frontier@.len() - 1] == next);
                        assert(frontier@.contains(next));
                        assert forall|v: u8| #[trigger] visited@[v as int] && !frontier@.contains(v) && v != current implies v != destination.0 by {
                            assert(v != next);
                            assert(prev_visited[v as int]);
                            assert(!prev_frontier.contains(v));
                        }
                        assert forall|v: u8, w: u8| visited@[v as int] && !frontier@.contains(v) && v != current && #[trigger] has_link(ls, v, w) implies visited@[w as int] by {
                            assert(v != next);
                            assert(prev_visited[v as int]);
                            assert(!prev_frontier.contains(v));
                            assert(prev_visited[w as int]);
                        }
                    }
                }
            }
            k = k + 1;
        }
        proof {
            assert forall|v: u8, w: u8|
                visited@[v as int] && !frontier@.contains(v) && #[trigger] has_link(ls, v, w) implies visited@[w as int] by {
                if v == current {
                    let j = choose|j: int| 0 <= j < ls.len() && ls[j].from.0 == v && ls[j].to.0 == w;
                    assert(visited@[ls[j].to.0 as int]);
                }
            }
        }
    }
    proof {
        if reaches(ls, source.0, destination.0) {
            let p = choose|p: Seq<u8>| #[trigger] is_walk(ls, p) && p[0] == source.0 && p.last() == destination.0;
            assert forall|a: u8, b: u8| visited@[a as int] && #[trigger] has_link(ls, a, b) implies visited@[b as int] by {
                assert(!frontier@.contains(a));
            }
            lemma_closed_marking_contains_reach(ls, visited@, source.0, p);
            assert(!frontier@.contains(destination.0));
        }
    }
    false
}

proof fn lemma_no_marks(s: Seq<bool>)
    requires
        forall|k: int| 0 <= k < s.len() ==> !s[k],
    ensures
        marked_count(s) == 0,
    decreases s.len(),
{
    if s.len() > 0 {
        lemma_no_marks(s.drop_last());
    }
}

} // verus!
