//! Walking the stored relationship graph: the edges along a traversal path
//! and the path between two entities.
//!
//! Entity ids are 128-bit values; a stored relationship row is a directed
//! edge `(source, target, relationship type)`.

use vstd::prelude::*;
use crate::text::same_text;

verus! {

/// The direction in which a traversal follows relationships.
#[derive(PartialEq, Eq, Structural, Clone, Copy, Debug)]
pub enum TraversalDirection {
    Outgoing,
    Incoming,
    Both,
}

/// A directed, typed edge between two entities.
#[derive(Clone, Debug, PartialEq)]
pub struct TraversalEdge {
    pub source_id: u128,
    pub target_id: u128,
    pub relationship_type: String,
}

impl View for TraversalEdge {
    type V = (u128, u128, Seq<char>);

    open spec fn view(&self) -> (u128, u128, Seq<char>) {
        (self.source_id, self.target_id, self.relationship_type@)
    }
}

/// The mathematical value of a list of edges.
pub open spec fn edges_view(v: Seq<TraversalEdge>) -> Seq<(u128, u128, Seq<char>)> {
    v.map_values(|e: TraversalEdge| e@)
}

/// The type of the edge `s -> t` among the stored rows: a later row for the
/// same pair replaces an earlier one.
pub open spec fn edge_type(rows: Seq<(u128, u128, Seq<char>)>, s: u128, t: u128) -> Option<Seq<char>>
    decreases rows.len(),
{
    if rows.len() == 0 {
        None
    } else if rows.last().0 == s && rows.last().1 == t {
        Some(rows.last().2)
    } else {
        edge_type(rows.drop_last(), s, t)
    }
}

/// The relationship type that a stored type text names: the text itself
/// when it is the bare name of a relationship type the store knows
/// (`References`, `HasMessage`), and `References` for any other text.
pub open spec fn edge_kind(stored: Seq<char>) -> Seq<char> {
    if stored == "References"@ || stored == "HasMessage"@ {
        stored
    } else {
        "References"@
    }
}

/// The relationship type that a stored type text names (see `edge_kind`).
pub fn relationship_kind(stored: String) -> (r: String)
    ensures
        r@ == edge_kind(stored@),
{
    if same_text(stored.as_str(), "References") || same_text(stored.as_str(), "HasMessage") {
        stored
    } else {
        "References".to_string()
    }
}

/// The edges along `path`: for each step `from -> to`, the stored edge
/// `from -> to`; failing that, when traversing in both directions, the
/// stored edge `to -> from`; a step with neither contributes nothing. Each
/// edge carries the relationship type its stored text names (`edge_kind`).
pub open spec fn path_edges(path: Seq<u128>, rows: Seq<(u128, u128, Seq<char>)>, both: bool) -> Seq<
    (u128, u128, Seq<char>),
>
    decreases path.len(),
{
    if path.len() < 2 {
        Seq::empty()
    } else {
        let prev = path_edges(path.drop_last(), rows, both);
        let from = path[path.len() - 2];
        let to = path.last();
        match edge_type(rows, from, to) {
            Some(rt) => prev.push((from, to, edge_kind(rt))),
            None => if both {
                match edge_type(rows, to, from) {
                    Some(rt) => prev.push((to, from, edge_kind(rt))),
                    None => prev,
                }
            } else {
                prev
            },
        }
    }
}

/// The type of the last stored row `s -> t`, if any.
fn find_edge_type(rows: &Vec<TraversalEdge>, s: u128, t: u128) -> (r: Option<String>)
    ensures
        opt_string_view(r) == edge_type(edges_view(rows@), s, t),
{
    let ghost rv = edges_view(rows@);
    let mut i: usize = rows.len();
    assert(rv.take(rows.len() as int) =~= rv);
    while i > 0
        invariant
            i <= rows.len(),
            rv == edges_view(rows@),
            edge_type(rv.take(i as int), s, t) == edge_type(rv, s, t),
        decreases i,
    {
        let e = &rows[i - 1];
        assert(rv.take(i as int).drop_last() =~= rv.take(i - 1));
        assert(rv.take(i as int).last() == e@);
        if e.source_id == s && e.target_id == t {
            return Some(e.relationship_type.clone());
        }
        i -= 1;
    }
    None
}

/// The text of an optional string.
pub open spec fn opt_string_view(o: Option<String>) -> Option<Seq<char>> {
    match o {
        Some(x) => Some(x@),
        None => None,
    }
}

/// The typed edges along a traversal path, looked up among the stored
/// relationship rows (see `path_edges`); only a traversal in both
/// directions may use an edge against its direction, and a stored type
/// text that names no known relationship type gives `References`.
pub fn reconstruct_edges(path: &Vec<u128>, rows: &Vec<TraversalEdge>, direction: TraversalDirection) -> (r: Vec<TraversalEdge>)
    ensures
        edges_view(r@) == path_edges(path@, edges_view(rows@), direction == TraversalDirection::Both),
{
    let ghost rv = edges_view(rows@);
    let both = direction == TraversalDirection::Both;
    let mut edges: Vec<TraversalEdge> = Vec::new();
    if path.len() <= 1 {
        assert(edges_view(edges@) =~= Seq::<(u128, u128, Seq<char>)>::empty());
        return edges;
    }
    let mut k: usize = 1;
    assert(edges_view(edges@) =~= path_edges(path@.take(1), rv, both));
    while k < path.len()
        invariant
            1 <= k <= path.len(),
            rv == edges_view(rows@),
            edges_view(edges@) == path_edges(path@.take(k as int), rv, both),
        decreases path.len() - k,
    {
        let from = path[k - 1];
        let to = path[k];
        let ghost before = edges_view(edges@);
        proof {
            let p = path@.take(k + 1);
            assert(p.drop_last() =~= path@.take(k as int));
            assert(p[p.len() - 2] == from);
            assert(p.last() == to);
        }
        match find_edge_type(rows, from, to) {
            Some(rt) => {
                let kind = relationship_kind(rt);
                edges.push(TraversalEdge { source_id: from, target_id: to, relationship_type: kind });
                assert(edges_view(edges@) =~= before.push((from, to, edge_kind(edge_type(rv, from, to)->0))));
            },
            None => {
                if both {
                    match find_edge_type(rows, to, from) {
                        Some(rt) => {
                            let kind = relationship_kind(rt);
                            edges.push(
                                TraversalEdge { source_id: to, target_id: from, relationship_type: kind },
                            );
                            assert(edges_view(edges@) =~= before.push(
                                (to, from, edge_kind(edge_type(rv, to, from)->0)),
                            ));
                        },
                        None => {},
                    }
                }
            },
        }
        k += 1;
    }
    assert(path@.take(path.len() as int) =~= path@);
    edges
}

/// Whether a stored row joins `a` and `b`, in either direction.
pub open spec fn linked(rows: Seq<(u128, u128, Seq<char>)>, a: u128, b: u128) -> bool {
    exists|i: int|
        0 <= i < rows.len() && ((#[trigger] rows[i].0 == a && rows[i].1 == b) || (rows[i].0 == b
            && rows[i].1 == a))
}

/// Step `i` of `w` follows a stored row (in either direction).
pub open spec fn step_linked(rows: Seq<(u128, u128, Seq<char>)>, w: Seq<u128>, i: int) -> bool {
    linked(rows, w[i], w[i + 1])
}

/// Whether `w` is a walk `a, ..., b` along stored rows, ignoring their direction.
pub open spec fn connects(rows: Seq<(u128, u128, Seq<char>)>, w: Seq<u128>, a: u128, b: u128) -> bool {
    &&& w.len() >= 1
    &&& w[0] == a
    &&& w.last() == b
    &&& forall|i: int| 0 <= i < w.len() - 1 ==> #[trigger] step_linked(rows, w, i)
}

/// Whether some walk along stored rows leads from `a` to `b`.
pub open spec fn reachable(rows: Seq<(u128, u128, Seq<char>)>, a: u128, b: u128) -> bool {
    exists|w: Seq<u128>| #[trigger] connects(rows, w, a, b)
}

/// The ids that a search from `start` can meet: `start` and both ends of every row.
spec fn endpoints(rows: Seq<(u128, u128, Seq<char>)>, start: u128) -> Seq<u128> {
    seq![start] + rows.map_values(|e: (u128, u128, Seq<char>)| e.0) + rows.map_values(
        |e: (u128, u128, Seq<char>)| e.1,
    )
}

/// The search tree so far: distinct nodes, the first being `start`, each
/// later one found from an earlier one (its parent) along a stored row.
spec fn search_tree(
    rows: Seq<(u128, u128, Seq<char>)>,
    start: u128,
    nodes: Seq<u128>,
    parents: Seq<usize>,
) -> bool {
    &&& nodes.len() == parents.len()
    &&& nodes.len() >= 1
    &&& nodes[0] == start
    &&& nodes.no_duplicates()
    &&& forall|j: int| 0 <= j < nodes.len() ==> endpoints(rows, start).contains(#[trigger] nodes[j])
    &&& forall|j: int|
        0 < j < nodes.len() ==> (#[trigger] parents[j]) < j && linked(
            rows,
            nodes[parents[j] as int],
            nodes[j],
        )
}

/// Every row that touches one of the first `done` nodes has its other end among the nodes.
spec fn closed_upto(rows: Seq<(u128, u128, Seq<char>)>, nodes: Seq<u128>, done: int) -> bool {
    forall|j: int, i: int|
        #![trigger rows[i], nodes[j]]
        0 <= j < done && 0 <= i < rows.len() ==> (rows[i].0 == nodes[j] ==> nodes.contains(
            rows[i].1,
        )) && (rows[i].1 == nodes[j] ==> nodes.contains(rows[i].0))
}

proof fn lemma_contains_grow(old: Seq<u128>, new: Seq<u128>)
    requires
        old.len() <= new.len(),
        forall|j: int| 0 <= j < old.len() ==> new[j] == old[j],
    ensures
        forall|y: u128| old.contains(y) ==> #[trigger] new.contains(y),
{
    assert forall|y: u128| old.contains(y) implies #[trigger] new.contains(y) by {
        let j = choose|j: int| 0 <= j < old.len() && old[j] == y;
        assert(new[j] == y);
    }
}

proof fn lemma_tree_bound(rows: Seq<(u128, u128, Seq<char>)>, start: u128, nodes: Seq<u128>, parents: Seq<usize>)
    requires
        search_tree(rows, start, nodes, parents),
    ensures
        nodes.len() <= 2 * rows.len() + 1,
{
    let u = endpoints(rows, start);
    assert(u.len() == 2 * rows.len() + 1);
    nodes.unique_seq_to_set();
    u.lemma_cardinality_of_set();
    assert(nodes.to_set().subset_of(u.to_set())) by {
        assert forall|x: u128| nodes.to_set().contains(x) implies u.to_set().contains(x) by {
            let j = choose|j: int| 0 <= j < nodes.len() && nodes[j] == x;
            assert(u.contains(nodes[j]));
        }
    }
    vstd::set_lib::lemma_len_subset(nodes.to_set(), u.to_set());
}

proof fn lemma_endpoint(rows: Seq<(u128, u128, Seq<char>)>, start: u128, i: int)
    requires
        0 <= i < rows.len(),
    ensures
        endpoints(rows, start).contains(rows[i].0),
        endpoints(rows, start).contains(rows[i].1),
{
    let u = endpoints(rows, start);
    assert(u[1 + i] == rows[i].0);
    assert(u[1 + rows.len() + i] == rows[i].1);
}

/// Adding a node `x`, not yet in the tree, found from node `p` along row `i`.
proof fn lemma_tree_push(
    rows: Seq<(u128, u128, Seq<char>)>,
    start: u128,
    nodes: Seq<u128>,
    parents: Seq<usize>,
    x: u128,
    p: usize,
    i: int,
)
    requires
        search_tree(rows, start, nodes, parents),
        !nodes.contains(x),
        p < nodes.len(),
        0 <= i < rows.len(),
        (rows[i].0 == nodes[p as int] && rows[i].1 == x) || (rows[i].1 == nodes[p as int]
            && rows[i].0 == x),
    ensures
        search_tree(rows, start, nodes.push(x), parents.push(p)),
{
    let n2 = nodes.push(x);
    let p2 = parents.push(p);
    lemma_endpoint(rows, start, i);
    assert(linked(rows, nodes[p as int], x));
    assert forall|a: int, b: int| 0 <= a < b < n2.len() implies n2[a] != n2[b] by {
        if b == nodes.len() {
            assert(nodes[a] == n2[a]);
        }
    }
    assert forall|j: int| 0 < j < n2.len() implies (#[trigger] p2[j]) < j && linked(
        rows,
        n2[p2[j] as int],
        n2[j],
    ) by {
        if j < nodes.len() {
            assert(n2[p2[j] as int] == nodes[parents[j] as int]);
        }
    }
}

/// No walk leaves a set of nodes that every row touching it stays inside.
proof fn lemma_closed_walk(rows: Seq<(u128, u128, Seq<char>)>, nodes: Seq<u128>, w: Seq<u128>, k: int)
    requires
        closed_upto(rows, nodes, nodes.len() as int),
        w.len() >= 1,
        nodes.contains(w[0]),
        forall|i: int| 0 <= i < w.len() - 1 ==> #[trigger] step_linked(rows, w, i),
        0 <= k < w.len(),
    ensures
        nodes.contains(w[k]),
    decreases k,
{
    if k > 0 {
        lemma_closed_walk(rows, nodes, w, k - 1);
        assert(step_linked(rows, w, k - 1));
        let j = choose|j: int| 0 <= j < nodes.len() && nodes[j] == w[k - 1];
        let i = choose|i: int|
            0 <= i < rows.len() && ((#[trigger] rows[i].0 == w[k - 1] && rows[i].1 == w[k]) || (
            rows[i].0 == w[k] && rows[i].1 == w[k - 1]));
        assert(rows[i].0 == nodes[j] || rows[i].1 == nodes[j]);
    }
}

/// The position of `x` among `nodes`, if it is there.
fn index_of(nodes: &Vec<u128>, x: u128) -> (r: Option<usize>)
    ensures
        r matches Some(j) ==> j < nodes.len() && nodes@[j as int] == x,
        r is None ==> !nodes@.contains(x),
{
    let mut j: usize = 0;
    while j < nodes.len()
        invariant
            j <= nodes.len(),
            forall|k: int| 0 <= k < j ==> nodes@[k] != x,
        decreases nodes.len() - j,
    {
        if nodes[j] == x {
            return Some(j);
        }
        j += 1;
    }
    None
}

/// A path from `start` to `target` through the stored relationships,
/// followed in either direction, found breadth-first: neighbours are met
/// in row order, those along outgoing rows before those along incoming
/// ones. When `target` cannot be reached the answer is just the two ends.
pub fn reconstruct_path(start: u128, target: u128, rows: &Vec<TraversalEdge>) -> (r: Vec<u128>)
    ensures
        start == target ==> r@ == seq![start],
        start != target ==> if reachable(edges_view(rows@), start, target) {
            connects(edges_view(rows@), r@, start, target)
        } else {
            r@ == seq![start, target]
        },
{
    if start == target {
        let r = vec![start];
        assert(r@ =~= seq![start]);
        return r;
    }
    let ghost rv = edges_view(rows@);
    let mut nodes: Vec<u128> = Vec::new();
    nodes.push(start);
    let mut parents: Vec<usize> = Vec::new();
    parents.push(0);
    assert(endpoints(rv, start)[0] == start);
    let mut head: usize = 0;
    while head < nodes.len()
        invariant
            rv == edges_view(rows@),
            start != target,
            rows@.len() == rv.len(),
            search_tree(rv, start, nodes@, parents@),
            head <= nodes.len(),
            forall|j: int| 0 <= j < head ==> #[trigger] nodes@[j] != target,
            closed_upto(rv, nodes@, head as int),
        decreases 2 * rows.len() + 1 - head,
    {
        proof {
            lemma_tree_bound(rv, start, nodes@, parents@);
        }
        let current = nodes[head];
        if current == target {
            return path_to(start, target, &nodes, &parents, head, Ghost(rv));
        }
        let ghost before = nodes@;
        let mut pass: usize = 0;
        while pass < 2
            invariant
                rv == edges_view(rows@),
                rows@.len() == rv.len(),
                search_tree(rv, start, nodes@, parents@),
                head < before.len() <= nodes.len(),
                forall|j: int| 0 <= j < before.len() ==> nodes@[j] == before[j],
                current == before[head as int],
                pass <= 2,
                pass >= 1 ==> forall|i: int|
                    0 <= i < rv.len() && #[trigger] rv[i].0 == current ==> nodes@.contains(rv[i].1),
                pass >= 2 ==> forall|i: int|
                    0 <= i < rv.len() && #[trigger] rv[i].1 == current ==> nodes@.contains(rv[i].0),
            decreases 2 - pass,
        {
            let ghost at_pass = nodes@;
            let mut i: usize = 0;
            while i < rows.len()
                invariant
                    rv == edges_view(rows@),
                    rows@.len() == rv.len(),
                    search_tree(rv, start, nodes@, parents@),
                    head < before.len() <= at_pass.len() <= nodes.len(),
                    forall|j: int| 0 <= j < at_pass.len() ==> nodes@[j] == at_pass[j],
                    forall|j: int| 0 <= j < before.len() ==> at_pass[j] == before[j],
                    current == before[head as int],
                    pass < 2,
                    i <= rows.len(),
                    pass >= 1 ==> forall|m: int|
                        0 <= m < rv.len() && #[trigger] rv[m].0 == current ==> at_pass.contains(
                            rv[m].1,
                        ),
                    forall|m: int|
                        0 <= m < i && pass == 0 && #[trigger] rv[m].0 == current ==> nodes@.contains(
                            rv[m].1,
                        ),
                    forall|m: int|
                        0 <= m < i && pass == 1 && #[trigger] rv[m].1 == current ==> nodes@.contains(
                            rv[m].0,
                        ),
                decreases rows.len() - i,
            {
                let e = &rows[i];
                assert(rv[i as int] == e@);
                let (from, other) = if pass == 0 {
                    (e.source_id, e.target_id)
                } else {
                    (e.target_id, e.source_id)
                };
                if from == current {
                    match index_of(&nodes, other) {
                        Some(_) => {},
                        None => {
                            proof {
                                lemma_tree_push(rv, start, nodes@, parents@, other, head, i as int);
                            }
                            let ghost old_nodes = nodes@;
                            nodes.push(other);
                            parents.push(head);
                            proof {
                                lemma_contains_grow(old_nodes, nodes@);
                                assert(nodes@[old_nodes.len() as int] == other);
                            }
                        },
                    }
                }
                i += 1;
            }
            proof {
                lemma_contains_grow(at_pass, nodes@);
            }
            pass += 1;
        }
        proof {
            lemma_contains_grow(before, nodes@);
            assert forall|j: int| 0 <= j < head + 1 implies #[trigger] nodes@[j] != target by {
                assert(nodes@[j] == before[j]);
            }
            assert forall|j: int, i: int|
                #![trigger rv[i], nodes@[j]]
                0 <= j < head + 1 && 0 <= i < rv.len() implies (rv[i].0 == nodes@[j]
                ==> nodes@.contains(rv[i].1)) && (rv[i].1 == nodes@[j] ==> nodes@.contains(
                rv[i].0,
            )) by {
                if j < head {
                    assert(before[j] == nodes@[j]);
                    if rv[i].0 == before[j] {
                        assert(before.contains(rv[i].1));
                    }
                    if rv[i].1 == before[j] {
                        assert(before.contains(rv[i].0));
                    }
                }
            }
        }
        head += 1;
    }
    proof {
        if reachable(rv, start, target) {
            let w = choose|w: Seq<u128>| #[trigger] connects(rv, w, start, target);
            assert(nodes@[0] == start);
            lemma_closed_walk(rv, nodes@, w, w.len() - 1);
        }
    }
    let r = vec![start, target];
    assert(r@ =~= seq![start, target]);
    r
}

/// The path from the root of the search tree to node `idx`, which is `target`.
fn path_to(
    start: u128,
    target: u128,
    nodes: &Vec<u128>,
    parents: &Vec<usize>,
    idx: usize,
    Ghost(rv): Ghost<Seq<(u128, u128, Seq<char>)>>,
) -> (r: Vec<u128>)
    requires
        search_tree(rv, start, nodes@, parents@),
        idx < nodes.len(),
        nodes@[idx as int] == target,
    ensures
        connects(rv, r@, start, target),
{
    let mut back: Vec<u128> = Vec::new();
    back.push(target);
    let mut k: usize = idx;
    while k != 0
        invariant
            search_tree(rv, start, nodes@, parents@),
            k < nodes.len(),
            back@.len() >= 1,
            back@[0] == target,
            back@.last() == nodes@[k as int],
            forall|i: int| 0 <= i < back@.len() - 1 ==> linked(rv, back@[i + 1], #[trigger] back@[i]),
        decreases k,
    {
        let p = parents[k];
        assert(linked(rv, nodes@[p as int], nodes@[k as int]));
        back.push(nodes[p]);
        k = p;
    }
    let mut r: Vec<u128> = Vec::new();
    let n = back.len();
    let mut m: usize = n;
    while m > 0
        invariant
            m <= n,
            n == back@.len(),
            r@.len() == n - m,
            forall|i: int| 0 <= i < r@.len() ==> r@[i] == back@[n - 1 - i],
        decreases m,
    {
        r.push(back[m - 1]);
        m -= 1;
    }
    assert forall|i: int| 0 <= i < r@.len() - 1 implies #[trigger] step_linked(rv, r@, i) by {
        let a = n - 2 - i;
        assert(linked(rv, back@[a + 1], back@[a]));
        let e = choose|e: int|
            0 <= e < rv.len() && ((#[trigger] rv[e].0 == back@[a + 1] && rv[e].1 == back@[a]) || (
            rv[e].0 == back@[a] && rv[e].1 == back@[a + 1]));
        assert(r@[i] == back@[a + 1]);
        assert(r@[i + 1] == back@[a]);
    }
    r
}

/// A node that the recursive traversal query reached: its id, its depth,
/// and the ids on the way to it, starting with the start node.
#[derive(Clone, Debug)]
pub struct ReachedNode {
    pub id: u128,
    pub depth: u32,
    pub path: Vec<u128>,
}

/// One traversal result: the path to a reached node, the typed edges
/// along that path, and the node's depth.
#[derive(Clone, Debug)]
pub struct TraversalResult {
    pub path: Vec<u128>,
    pub edges: Vec<TraversalEdge>,
    pub depth: u32,
}

/// The mathematical value of the reached nodes.
pub open spec fn reached_view(v: Seq<ReachedNode>) -> Seq<(u128, u32, Seq<u128>)> {
    v.map_values(|n: ReachedNode| (n.id, n.depth, n.path@))
}

/// The reached nodes other than the start node, in order.
pub open spec fn others(s: Seq<(u128, u32, Seq<u128>)>, start: u128) -> Seq<(u128, u32, Seq<u128>)>
    decreases s.len(),
{
    if s.len() == 0 {
        Seq::empty()
    } else if s.last().0 != start {
        others(s.drop_last(), start).push(s.last())
    } else {
        others(s.drop_last(), start)
    }
}

/// The first `n` items of `s` (all of them when there are fewer).
pub open spec fn first_n<A>(s: Seq<A>, n: nat) -> Seq<A> {
    if s.len() <= n {
        s
    } else {
        s.take(n as int)
    }
}

/// The results of a traversal from `start`: the reached nodes other than
/// `start`, at most `max_results` of them in the order reached, each with
/// its path, the typed edges along the path (see `reconstruct_edges`) and
/// its depth.
pub fn assemble_traversal(
    start: u128,
    reached: &Vec<ReachedNode>,
    max_results: usize,
    rows: &Vec<TraversalEdge>,
    direction: TraversalDirection,
) -> (r: Vec<TraversalResult>)
    ensures
        r@.len() == first_n(others(reached_view(reached@), start), max_results as nat).len(),
        forall|k: int|
            0 <= k < r@.len() ==> {
                let sel = first_n(others(reached_view(reached@), start), max_results as nat)[k];
                &&& (#[trigger] r@[k]).path@ == sel.2
                &&& r@[k].depth == sel.1
                &&& edges_view(r@[k].edges@) == path_edges(
                    sel.2,
                    edges_view(rows@),
                    direction == TraversalDirection::Both,
                )
            },
{
    let ghost rv = reached_view(reached@);
    let ghost both = direction == TraversalDirection::Both;
    let mut out: Vec<TraversalResult> = Vec::new();
    let ghost mut kept: Seq<(u128, u32, Seq<u128>)> = Seq::empty();
    let mut i: usize = 0;
    assert(rv.take(0) =~= Seq::<(u128, u32, Seq<u128>)>::empty());
    while i < reached.len()
        invariant
            i <= reached.len(),
            rv == reached_view(reached@),
            both == (direction == TraversalDirection::Both),
            kept == first_n(others(rv.take(i as int), start), max_results as nat),
            out@.len() == kept.len(),
            forall|k: int|
                0 <= k < out@.len() ==> {
                    &&& (#[trigger] out@[k]).path@ == kept[k].2
                    &&& out@[k].depth == kept[k].1
                    &&& edges_view(out@[k].edges@) == path_edges(kept[k].2, edges_view(rows@), both)
                },
        decreases reached.len() - i,
    {
        let node = &reached[i];
        let ghost item = (node.id, node.depth, node.path@);
        proof {
            assert(rv[i as int] == item);
            assert(rv.take(i + 1).drop_last() =~= rv.take(i as int));
            assert(rv.take(i + 1).last() == item);
        }
        if node.id != start && out.len() < max_results {
            let edges = reconstruct_edges(&node.path, rows, direction);
            out.push(TraversalResult { path: node.path.clone(), edges, depth: node.depth });
            proof {
                let o = others(rv.take(i as int), start);
                assert(others(rv.take(i + 1), start) == o.push(item));
                assert(o.len() <= max_results);
                assert(first_n(o.push(item), max_results as nat) =~= kept.push(item));
                kept = kept.push(item);
            }
        } else {
            proof {
                let o = others(rv.take(i as int), start);
                if node.id != start {
                    assert(others(rv.take(i + 1), start) == o.push(item));
                    assert(kept.len() >= max_results);
                    assert(first_n(o.push(item), max_results as nat) =~= first_n(o, max_results as nat));
                } else {
                    assert(others(rv.take(i + 1), start) == o);
                }
            }
        }
        i += 1;
    }
    assert(rv.take(reached.len() as int) =~= rv);
    out
}

} // verus!
