//! The animation state graph of a skeleton.
//!
//! Nodes are named animation states; an edge leads from one state to
//! another and carries a transition between their animations. Each frame
//! the current node looks for an edge whose condition holds between the
//! last and the present pose; while one does, its transition plays, and
//! when the transition's tween has completed the next node becomes
//! current. The graph decides; the caller owns the animations, the
//! transitions and the conditions, evaluates the conditions, and carries
//! out the [`GraphAction`]s that [`AnimationGraph::update`] returns.
//!
//! Nodes and edges are never freed: a node removed from the name table
//! stays reachable from the current state and from edges that lead to it,
//! and a replaced or removed edge stays reachable while it is in process.

use vstd::prelude::*;
use vstd::hash_map::StringHashMap;
use crate::text::str_eq;

verus! {

/// One state of the graph.
pub struct NodeView {
    pub name: Seq<char>,
    /// The edge whose transition is playing from this state, if any.
    pub in_process: Option<usize>,
}

/// One edge of the graph.
pub struct EdgeView {
    pub name: Seq<char>,
    /// The node the edge leaves.
    pub from: usize,
    /// The node the edge leads to.
    pub next: usize,
    /// Whether the edge is still among its node's edges.
    pub live: bool,
}

/// What an [`AnimationGraph`] holds.
pub struct GraphView {
    /// The node each name currently stands for.
    pub names: Map<Seq<char>, usize>,
    /// Every node ever added, by handle.
    pub nodes: Seq<NodeView>,
    /// Every edge ever added, by handle.
    pub edges: Seq<EdgeView>,
    /// The node whose state the skeleton is in.
    pub current: Option<usize>,
}

/// Every handle the graph holds names a node or an edge it has.
pub open spec fn graph_wf(g: GraphView) -> bool {
    &&& forall|k: Seq<char>| #[trigger] g.names.contains_key(k) ==> g.names[k] < g.nodes.len()
    &&& forall|i: int| 0 <= i < g.nodes.len() ==> match #[trigger] g.nodes[i].in_process {
        Some(e) => e < g.edges.len() && g.edges[e as int].from == i,
        None => true,
    }
    &&& forall|e: int| 0 <= e < g.edges.len() ==> #[trigger] g.edges[e].from < g.nodes.len() && g.edges[e].next < g.nodes.len()
    &&& match g.current {
        Some(c) => c < g.nodes.len(),
        None => true,
    }
}

/// `g` after a node named `name` is added: the name now stands for it.
pub open spec fn node_add_spec(g: GraphView, name: Seq<char>) -> GraphView {
    GraphView {
        names: g.names.insert(name, g.nodes.len() as usize),
        nodes: g.nodes.push(NodeView { name, in_process: None }),
        ..g
    }
}

/// `g` after the name `name` is dropped from the name table.
pub open spec fn node_remove_spec(g: GraphView, name: Seq<char>) -> GraphView {
    GraphView { names: g.names.remove(name), ..g }
}

/// `g` after the node named `name` is made current (no node at all when no
/// node has that name).
pub open spec fn current_set_spec(g: GraphView, name: Seq<char>) -> GraphView {
    GraphView {
        current: if g.names.contains_key(name) { Some(g.names[name]) } else { None },
        ..g
    }
}

/// `e` with its liveness dropped when it is a live edge of `node` named `name`.
pub open spec fn edge_dropped(e: EdgeView, node: usize, name: Seq<char>) -> EdgeView {
    if e.live && e.from == node && e.name == name {
        EdgeView { live: false, ..e }
    } else {
        e
    }
}

/// `g` after the edge `name` of node `node` is removed.
pub open spec fn drop_edge(g: GraphView, node: usize, name: Seq<char>) -> GraphView {
    GraphView { edges: g.edges.map_values(|e: EdgeView| edge_dropped(e, node, name)), ..g }
}

/// `g` after an edge `name` from the node named `a` to the node named `b`
/// is added, replacing an edge of that name: unchanged when either name
/// stands for no node.
pub open spec fn edge_add_spec(g: GraphView, a: Seq<char>, b: Seq<char>, name: Seq<char>) -> GraphView {
    if g.names.contains_key(a) && g.names.contains_key(b) {
        let from = g.names[a];
        let dropped = drop_edge(g, from, name);
        GraphView {
            edges: dropped.edges.push(EdgeView { name, from, next: g.names[b], live: true }),
            ..dropped
        }
    } else {
        g
    }
}

/// `g` after the edge `name` of the node named `node` is removed.
pub open spec fn edge_remove_spec(g: GraphView, node: Seq<char>, name: Seq<char>) -> GraphView {
    if g.names.contains_key(node) {
        drop_edge(g, g.names[node], name)
    } else {
        g
    }
}

/// Whether `e` is one of the edges of the current node.
pub open spec fn is_current_edge(g: GraphView, e: usize) -> bool {
    &&& g.current is Some
    &&& e < g.edges.len()
    &&& g.edges[e as int].live
    &&& g.edges[e as int].from == g.current->0
}

/// Something the caller does with the animations and transitions it owns.
#[derive(Clone, Copy, PartialEq, Eq, Structural, Debug)]
pub enum GraphAction {
    /// Advance the start animation of `edge`'s transition by the time
    /// `node`'s animation has played.
    StartTransitionAt { edge: usize, node: usize },
    /// Reset `node`'s animation.
    ResetAnimation { node: usize },
    /// Advance `edge`'s transition by the frame time.
    AdvanceTransition { edge: usize },
    /// Play `node`'s animation on by the frame time, restarting it first if
    /// it has completed.
    PlayAnimation { node: usize },
    /// Advance `node`'s animation by the time the end animation of `edge`'s
    /// transition has played.
    EnterAt { node: usize, edge: usize },
    /// Reset `edge`'s transition.
    ResetTransition { edge: usize },
}

/// The state and the actions of one frame. `triggered` is the edge of the
/// current node whose condition held (if any), `completed` whether that
/// edge's transition tween has completed.
pub open spec fn update_spec(g: GraphView, triggered: Option<usize>, completed: bool) -> (GraphView, Seq<GraphAction>) {
    match g.current {
        None => (g, Seq::empty()),
        Some(c) => {
            let begun = match triggered {
                Some(e) => seq![GraphAction::StartTransitionAt { edge: e, node: c }],
                None => Seq::empty(),
            }.push(GraphAction::ResetAnimation { node: c });
            let name = g.nodes[c as int].name;
            match triggered {
                None => (
                    GraphView { nodes: g.nodes.update(c as int, NodeView { name, in_process: None }), ..g },
                    begun.push(GraphAction::PlayAnimation { node: c }),
                ),
                Some(e) => if completed {
                    let n = g.edges[e as int].next;
                    (
                        GraphView {
                            nodes: g.nodes.update(c as int, NodeView { name, in_process: None }),
                            current: Some(n),
                            ..g
                        },
                        begun.push(GraphAction::EnterAt { node: n, edge: e }).push(GraphAction::ResetTransition { edge: e }),
                    )
                } else {
                    (
                        GraphView { nodes: g.nodes.update(c as int, NodeView { name, in_process: Some(e) }), ..g },
                        begun.push(GraphAction::AdvanceTransition { edge: e }),
                    )
                },
            }
        },
    }
}

/// What sets the animated nodes' transforms this frame.
#[derive(Clone, Copy, PartialEq, Eq, Structural, Debug)]
pub enum Driver {
    /// The transition of this edge.
    Transition(usize),
    /// The animation of this node.
    Animation(usize),
}

/// The transition in process from the current node, else the current
/// node's animation; nothing without a current node.
pub open spec fn driver_spec(g: GraphView) -> Option<Driver> {
    match g.current {
        None => None,
        Some(c) => match g.nodes[c as int].in_process {
            Some(e) => Some(Driver::Transition(e)),
            None => Some(Driver::Animation(c)),
        },
    }
}

struct GraphNode {
    name: String,
    in_process: Option<usize>,
}

struct GraphEdge {
    name: String,
    from: usize,
    next: usize,
    live: bool,
}

/// Directed graph that controls the animation state of a skeleton.
pub struct AnimationGraph {
    names: StringHashMap<usize>,
    nodes: Vec<GraphNode>,
    edges: Vec<GraphEdge>,
    current: Option<usize>,
}

spec fn node_view(n: GraphNode) -> NodeView {
    NodeView { name: n.name@, in_process: n.in_process }
}

spec fn edge_view(e: GraphEdge) -> EdgeView {
    EdgeView { name: e.name@, from: e.from, next: e.next, live: e.live }
}

impl View for AnimationGraph {
    type V = GraphView;

    closed spec fn view(&self) -> GraphView {
        GraphView {
            names: self.names@,
            nodes: self.nodes@.map_values(|n: GraphNode| node_view(n)),
            edges: self.edges@.map_values(|e: GraphEdge| edge_view(e)),
            current: self.current,
        }
    }
}

impl AnimationGraph {
    /// An empty graph with no current node.
    pub fn new() -> (r: Self)
        ensures
            r@ == (GraphView { names: Map::empty(), nodes: Seq::empty(), edges: Seq::empty(), current: None }),
            graph_wf(r@),
    {
        let r = AnimationGraph { names: StringHashMap::new(), nodes: Vec::new(), edges: Vec::new(), current: None };
        assert(r@.nodes =~= Seq::empty());
        assert(r@.edges =~= Seq::empty());
        r
    }

    /// The name of the current node.
    pub fn current_name_get(&self) -> (r: Option<String>)
        requires
            graph_wf(self@),
        ensures
            match (r, self@.current) {
                (Some(s), Some(c)) => s@ == self@.nodes[c as int].name,
                (None, None) => true,
                _ => false,
            },
    {
        match self.current {
            Some(c) => {
                assert(self@.nodes[c as int] == node_view(self.nodes@[c as int]));
                Some(self.nodes[c].name.clone())
            },
            None => None,
        }
    }

    /// The handle of the node named `name`.
    pub fn node_get(&self, name: &str) -> (r: Option<usize>)
        ensures
            r == (if self@.names.contains_key(name@) { Some(self@.names[name@]) } else { None }),
    {
        match self.names.get(name) {
            Some(i) => Some(*i),
            None => None,
        }
    }

    /// Makes the node named `name` current.
    pub fn current_set(&mut self, name: &str)
        requires
            graph_wf(old(self)@),
        ensures
            final(self)@ == current_set_spec(old(self)@, name@),
            graph_wf(final(self)@),
    {
        self.current = match self.names.get(name) {
            Some(i) => Some(*i),
            None => None,
        };
        assert(self@.nodes =~= old(self)@.nodes);
        assert(self@.edges =~= old(self)@.edges);
    }

    /// Adds a node named `name`, which the name then stands for, and returns
    /// its handle.
    pub fn node_add(&mut self, name: String) -> (r: usize)
        requires
            graph_wf(old(self)@),
            old(self)@.nodes.len() < usize::MAX,
        ensures
            r == old(self)@.nodes.len(),
            final(self)@ == node_add_spec(old(self)@, name@),
            graph_wf(final(self)@),
    {
        let r = self.nodes.len();
        let key = name.clone();
        self.nodes.push(GraphNode { name, in_process: None });
        self.names.insert(key, r);
        assert(self@.nodes =~= old(self)@.nodes.push(NodeView { name: key@, in_process: None }));
        assert(self@.edges =~= old(self)@.edges);
        r
    }

    /// Drops `name` from the name table; the node itself stays where the
    /// current state or edges reach it.
    pub fn node_remove(&mut self, name: &str)
        requires
            graph_wf(old(self)@),
        ensures
            final(self)@ == node_remove_spec(old(self)@, name@),
            graph_wf(final(self)@),
    {
        self.names.remove(name);
        assert(self@.nodes =~= old(self)@.nodes);
        assert(self@.edges =~= old(self)@.edges);
    }

    /// Marks the live edges of `node` named `name` as removed.
    fn drop_edges(&mut self, node: usize, name: &str)
        requires
            graph_wf(old(self)@),
        ensures
            final(self)@ == drop_edge(old(self)@, node, name@),
            graph_wf(final(self)@),
    {
        let ghost g0 = self@;
        let mut i: usize = 0;
        while i < self.edges.len()
            invariant
                i <= self.edges@.len(),
                self@.edges.len() == g0.edges.len(),
                self@.names == g0.names,
                self@.nodes == g0.nodes,
                self@.current == g0.current,
                forall|k: int| 0 <= k < i ==> #[trigger] self@.edges[k] == edge_dropped(g0.edges[k], node, name@),
                forall|k: int| i <= k < self@.edges.len() ==> #[trigger] self@.edges[k] == g0.edges[k],
            decreases self.edges.len() - i,
        {
            assert(self@.edges[i as int] == edge_view(self.edges@[i as int]));
            if self.edges[i].live && self.edges[i].from == node && str_eq(self.edges[i].name.as_str(), name) {
                let e = GraphEdge {
                    name: self.edges[i].name.clone(),
                    from: self.edges[i].from,
                    next: self.edges[i].next,
                    live: false,
                };
                let ghost before = self@;
                self.edges.set(i, e);
                assert(self@.nodes =~= before.nodes);
                assert(self@.edges =~= before.edges.update(i as int, edge_dropped(g0.edges[i as int], node, name@)));
            }
            i = i + 1;
        }
        assert(self@.edges =~= g0.edges.map_values(|e: EdgeView| edge_dropped(e, node, name@)));
    }

    /// Adds an edge `name` from the node named `a` to the node named `b`,
    /// replacing an edge of that name of `a`, and returns its handle; does
    /// nothing when either name stands for no node.
    pub fn edge_add(&mut self, a: &str, b: &str, name: String) -> (r: Option<usize>)
        requires
            graph_wf(old(self)@),
            old(self)@.edges.len() < usize::MAX,
        ensures
            final(self)@ == edge_add_spec(old(self)@, a@, b@, name@),
            graph_wf(final(self)@),
            r == (if old(self)@.names.contains_key(a@) && old(self)@.names.contains_key(b@) {
                Some(old(self)@.edges.len() as usize)
            } else {
                None
            }),
    {
        let from = match self.names.get(a) {
            Some(i) => *i,
            None => return None,
        };
        let next = match self.names.get(b) {
            Some(i) => *i,
            None => return None,
        };
        self.drop_edges(from, name.as_str());
        let ghost dropped = self@;
        let r = self.edges.len();
        let ghost view_name = name@;
        self.edges.push(GraphEdge { name, from, next, live: true });
        assert(self@.edges =~= dropped.edges.push(EdgeView { name: view_name, from, next, live: true }));
        assert(self@.nodes =~= dropped.nodes);
        Some(r)
    }

    /// Removes the edge `name` of the node named `node_name`; the edge stays
    /// reachable while it is in process.
    pub fn edge_remove(&mut self, node_name: &str, name: &str)
        requires
            graph_wf(old(self)@),
        ensures
            final(self)@ == edge_remove_spec(old(self)@, node_name@, name@),
            graph_wf(final(self)@),
    {
        match self.names.get(node_name) {
            Some(i) => {
                let n = *i;
                self.drop_edges(n, name);
            },
            None => {},
        }
    }

    /// The handles of the current node's edges, in the order they were
    /// added: the edges whose conditions the caller evaluates each frame.
    pub fn current_edges(&self) -> (r: Vec<usize>)
        requires
            graph_wf(self@),
        ensures
            forall|k: int| 0 <= k < r@.len() ==> is_current_edge(self@, #[trigger] r@[k]),
            forall|e: usize| is_current_edge(self@, e) ==> r@.contains(e),
            forall|k: int, l: int| 0 <= k < l < r@.len() ==> r@[k] < r@[l],
    {
        let mut out: Vec<usize> = Vec::new();
        let c = match self.current {
            Some(c) => c,
            None => return out,
        };
        let mut i: usize = 0;
        while i < self.edges.len()
            invariant
                self.current == Some(c),
                i <= self.edges@.len(),
                self@.edges.len() == self.edges@.len(),
                forall|k: int| 0 <= k < out@.len() ==> is_current_edge(self@, #[trigger] out@[k]) && out@[k] < i,
                forall|e: usize| e < i && is_current_edge(self@, e) ==> out@.contains(e),
                forall|k: int, l: int| 0 <= k < l < out@.len() ==> out@[k] < out@[l],
            decreases self.edges.len() - i,
        {
            assert(self@.edges[i as int] == edge_view(self.edges@[i as int]));
            if self.edges[i].live && self.edges[i].from == c {
                let ghost before = out@;
                out.push(i);
                assert forall|e: usize| e < i + 1 && is_current_edge(self@, e) implies out@.contains(e) by {
                    if e < i {
                        let k = choose|k: int| 0 <= k < before.len() && before[k] == e;
                        assert(out@[k] == e);
                    } else {
                        assert(out@[out@.len() - 1] == e);
                    }
                }
            }
            i = i + 1;
        }
        out
    }

    /// One frame of the graph. `triggered` is the first edge of
    /// [`Self::current_edges`] whose condition held between the last and the
    /// present pose, and `completed` whether that edge's transition tween
    /// has completed. Returns what the caller then does, in order.
    pub fn update(&mut self, triggered: Option<usize>, completed: bool) -> (r: Vec<GraphAction>)
        requires
            graph_wf(old(self)@),
            match triggered {
                Some(e) => is_current_edge(old(self)@, e),
                None => true,
            },
        ensures
            (final(self)@, r@) == update_spec(old(self)@, triggered, completed),
            graph_wf(final(self)@),
    {
        let mut actions: Vec<GraphAction> = Vec::new();
        let c = match self.current {
            Some(c) => c,
            None => return actions,
        };
        if let Some(e) = triggered {
            actions.push(GraphAction::StartTransitionAt { edge: e, node: c });
        }
        actions.push(GraphAction::ResetAnimation { node: c });
        assert(self@.nodes[c as int] == node_view(self.nodes@[c as int]));
        let name = self.nodes[c].name.clone();
        let ghost g0 = self@;
        match triggered {
            None => {
                self.nodes.set(c, GraphNode { name, in_process: None });
                actions.push(GraphAction::PlayAnimation { node: c });
            },
            Some(e) => {
                if completed {
                    assert(self@.edges[e as int] == edge_view(self.edges@[e as int]));
                    let n = self.edges[e].next;
                    self.nodes.set(c, GraphNode { name, in_process: None });
                    self.current = Some(n);
                    actions.push(GraphAction::EnterAt { node: n, edge: e });
                    actions.push(GraphAction::ResetTransition { edge: e });
                } else {
                    self.nodes.set(c, GraphNode { name, in_process: Some(e) });
                    actions.push(GraphAction::AdvanceTransition { edge: e });
                }
            },
        }
        let ghost expect = update_spec(g0, triggered, completed);
        assert(self@.nodes =~= expect.0.nodes);
        assert(self@.edges =~= g0.edges);
        assert(actions@ =~= expect.1);
        actions
    }

    /// What sets the animated nodes' transforms: the transition in process
    /// from the current node, else the current node's animation.
    pub fn driver(&self) -> (r: Option<Driver>)
        requires
            graph_wf(self@),
        ensures
            r == driver_spec(self@),
    {
        match self.current {
            None => None,
            Some(c) => {
                assert(self@.nodes[c as int] == node_view(self.nodes@[c as int]));
                match self.nodes[c].in_process {
                    Some(e) => Some(Driver::Transition(e)),
                    None => Some(Driver::Animation(c)),
                }
            },
        }
    }
}

/// No node has two live edges of one name.
pub open spec fn edge_names_unique(g: GraphView) -> bool {
    forall|e1: int, e2: int|
        0 <= e1 < g.edges.len() && 0 <= e2 < g.edges.len() && e1 != e2
            && #[trigger] g.edges[e1].live && #[trigger] g.edges[e2].live
            && g.edges[e1].from == g.edges[e2].from ==> g.edges[e1].name != g.edges[e2].name
}

/// A node added under a name and then made current by that name is the
/// current node, and the graph reports that name for it.
pub proof fn lemma_added_node_becomes_current(g: GraphView, name: Seq<char>)
    requires
        graph_wf(g),
        g.nodes.len() < usize::MAX,
    ensures
        ({
            let h = current_set_spec(node_add_spec(g, name), name);
            &&& h.current == Some(g.nodes.len() as usize)
            &&& h.nodes[g.nodes.len() as int].name == name
            &&& graph_wf(h)
        }),
{
    let h = current_set_spec(node_add_spec(g, name), name);
    assert(h.nodes[g.nodes.len() as int] == (NodeView { name, in_process: None }));
    assert forall|i: int| 0 <= i < h.nodes.len() implies match #[trigger] h.nodes[i].in_process {
        Some(e) => e < h.edges.len() && h.edges[e as int].from == i,
        None => true,
    } by {
        if i < g.nodes.len() {
            assert(h.nodes[i] == g.nodes[i]);
        }
    }
}

/// Adding, removing and replacing edges keep every node's edge names
/// distinct, and after an edge is removed its node has no live edge of that
/// name; nodes, names and the current node are untouched.
pub proof fn lemma_edge_names_stay_unique(g: GraphView, a: Seq<char>, b: Seq<char>, name: Seq<char>)
    requires
        graph_wf(g),
        edge_names_unique(g),
    ensures
        edge_names_unique(edge_add_spec(g, a, b, name)),
        edge_names_unique(edge_remove_spec(g, a, name)),
        g.names.contains_key(a) ==> forall|e: int|
            0 <= e < g.edges.len() ==> !(#[trigger] edge_remove_spec(g, a, name).edges[e].live
                && edge_remove_spec(g, a, name).edges[e].from == g.names[a]
                && edge_remove_spec(g, a, name).edges[e].name == name),
        edge_add_spec(g, a, b, name).names == g.names,
        edge_add_spec(g, a, b, name).nodes == g.nodes,
        edge_add_spec(g, a, b, name).current == g.current,
        edge_remove_spec(g, a, name).names == g.names,
        edge_remove_spec(g, a, name).nodes == g.nodes,
        edge_remove_spec(g, a, name).current == g.current,
{
    if g.names.contains_key(a) {
        let from = g.names[a];
        let d = drop_edge(g, from, name);
        assert forall|e1: int, e2: int|
            0 <= e1 < d.edges.len() && 0 <= e2 < d.edges.len() && e1 != e2
                && #[trigger] d.edges[e1].live && #[trigger] d.edges[e2].live
                && d.edges[e1].from == d.edges[e2].from implies d.edges[e1].name != d.edges[e2].name by {
            assert(g.edges[e1].live && g.edges[e2].live);
        }
        if g.names.contains_key(b) {
            let h = edge_add_spec(g, a, b, name);
            let last = g.edges.len() as int;
            assert forall|e1: int, e2: int|
                0 <= e1 < h.edges.len() && 0 <= e2 < h.edges.len() && e1 != e2
                    && #[trigger] h.edges[e1].live && #[trigger] h.edges[e2].live
                    && h.edges[e1].from == h.edges[e2].from implies h.edges[e1].name != h.edges[e2].name by {
                if e1 < last && e2 < last {
                    assert(h.edges[e1] == d.edges[e1] && h.edges[e2] == d.edges[e2]);
                } else if e1 < last {
                    assert(h.edges[e1] == d.edges[e1]);
                } else {
                    assert(h.edges[e2] == d.edges[e2]);
                }
            }
        }
    }
}

/// One frame keeps the edges as they are and decides what drives the
/// nodes: while the triggered edge's transition has not completed it is in
/// process and drives them; on completion its target becomes current and
/// the node left has no edge in process; with no edge triggered the
/// current node's own animation drives them.
pub proof fn lemma_update_decides_driver(g: GraphView, triggered: Option<usize>, completed: bool)
    requires
        graph_wf(g),
        g.current is Some,
        match triggered {
            Some(e) => is_current_edge(g, e),
            None => true,
        },
    ensures
        ({
            let (h, _) = update_spec(g, triggered, completed);
            let c = g.current->0;
            &&& h.edges == g.edges
            &&& h.names == g.names
            &&& graph_wf(h)
            &&& match triggered {
                None => driver_spec(h) == Some(Driver::Animation(c)),
                Some(e) => if completed {
                    &&& h.current == Some(g.edges[e as int].next)
                    &&& h.nodes[c as int].in_process is None
                } else {
                    &&& h.current == Some(c)
                    &&& driver_spec(h) == Some(Driver::Transition(e))
                },
            }
        }),
{
    let (h, _) = update_spec(g, triggered, completed);
    let c = g.current->0;
    assert forall|i: int| 0 <= i < h.nodes.len() implies match #[trigger] h.nodes[i].in_process {
        Some(e) => e < h.edges.len() && h.edges[e as int].from == i,
        None => true,
    } by {
        if i != c {
            assert(h.nodes[i] == g.nodes[i]);
        }
    }
}

} // verus!
