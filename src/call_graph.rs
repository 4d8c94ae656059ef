//! The call graph of the target modules, kept in a petgraph graph whose nodes are
//! deduplicated by function identity.

use crate::abi::MoveAbiSignatureToken;
use crate::text::{address_string, address_text, push_tokens, tokens_text};
use crate::value::MoveAddress;
use petgraph::graph::{Graph, NodeIndex};
use vstd::prelude::*;
use vstd::string::StringExecFns;

verus! {

#[verifier::external_type_specification]
#[verifier::external_body]
#[verifier::reject_recursive_types(N)]
#[verifier::reject_recursive_types(E)]
#[verifier::reject_recursive_types(Ty)]
#[verifier::reject_recursive_types(Ix)]
pub struct ExGraph<N, E, Ty, Ix>(Graph<N, E, Ty, Ix>);

#[verifier::external_type_specification]
#[verifier::external_body]
pub struct ExDirected(petgraph::Directed);

/// The node labels of a graph, in index order.
pub uninterp spec fn graph_nodes(g: Graph<String, String>) -> Seq<Seq<char>>;

/// The edges of a graph, in index order: source, target, label.
pub uninterp spec fn graph_edges(g: Graph<String, String>) -> Seq<(int, int, Seq<char>)>;

/// The Graphviz text of a graph with these nodes and edges.
pub uninterp spec fn dot_text(nodes: Seq<Seq<char>>, edges: Seq<(int, int, Seq<char>)>) -> Seq<char>;

/// Relies on petgraph's `Graph::new`: a graph with no nodes and no edges.
#[verifier::external_body]
fn empty_graph() -> (g: Graph<String, String>)
    ensures
        graph_nodes(g) == Seq::<Seq<char>>::empty(),
        graph_edges(g) == Seq::<(int, int, Seq<char>)>::empty(),
{
    Graph::new()
}

/// Relies on petgraph's `Graph::add_node`: appends a node, whose index is the
/// former node count; it panics only when the 32-bit index space is full.
#[verifier::external_body]
fn graph_add_node(g: &mut Graph<String, String>, weight: String) -> (r: usize)
    requires
        graph_nodes(*old(g)).len() < 0xFFFF_FFFF,
    ensures
        graph_nodes(*final(g)) == graph_nodes(*old(g)).push(weight@),
        graph_edges(*final(g)) == graph_edges(*old(g)),
        r == graph_nodes(*old(g)).len(),
{
    g.add_node(weight).index()
}

/// Relies on petgraph's `Graph::add_edge`: appends an edge between two existing
/// nodes; it panics only on a missing node or a full 32-bit index space.
#[verifier::external_body]
fn graph_add_edge(g: &mut Graph<String, String>, a: usize, b: usize, weight: String)
    requires
        a < graph_nodes(*old(g)).len(),
        b < graph_nodes(*old(g)).len(),
        graph_edges(*old(g)).len() < 0xFFFF_FFFF,
    ensures
        graph_nodes(*final(g)) == graph_nodes(*old(g)),
        graph_edges(*final(g)) == graph_edges(*old(g)).push((a as int, b as int, weight@)),
{
    g.add_edge(NodeIndex::new(a), NodeIndex::new(b), weight);
}

/// Relies on petgraph's `Graph::edge_count`: the number of edges.
#[verifier::external_body]
fn graph_edge_count(g: &Graph<String, String>) -> (r: usize)
    ensures
        r == graph_edges(*g).len(),
{
    g.edge_count()
}

/// Relies on petgraph's `Dot` display: the Graphviz text of the graph, which depends
/// on its nodes and edges alone.
#[verifier::external_body]
fn graph_dot(g: &Graph<String, String>) -> (r: String)
    ensures
        r@ == dot_text(graph_nodes(*g), graph_edges(*g)),
{
    petgraph::dot::Dot::new(g).to_string()
}

/// A module: its address and name.
#[derive(Debug, PartialEq, Eq)]
pub struct MoveModuleId {
    pub module_address: MoveAddress,
    pub module_name: String,
}

/// A function, as a node of the call graph.
#[derive(Debug, PartialEq, Eq)]
pub struct MoveCallGraphNode {
    pub module_id: MoveModuleId,
    pub function: String,
}

/// An edge of the call graph: the type arguments of the call.
#[derive(Debug, PartialEq, Eq)]
pub struct MoveCallGraphEdge {
    pub type_parameters: Vec<MoveAbiSignatureToken>,
}

impl MoveCallGraphEdge {
    /// The edge's label: its type arguments, separated by `, `.
    pub fn label(&self) -> (r: String)
        ensures
            r@ == edge_label(self.type_parameters@),
    {
        let mut s = String::new();
        push_tokens(&mut s, &self.type_parameters, self.type_parameters.len());
        s
    }
}

impl MoveCallGraphNode {
    /// The node's label: `address:module:function`.
    pub fn label(&self) -> (r: String)
        ensures
            r@ == node_label(self.module_id, self.function@),
    {
        node_label_string(&self.module_id, &self.function)
    }
}

fn node_label_string(m: &MoveModuleId, function: &String) -> (r: String)
    ensures
        r@ == node_label(*m, function@),
{
    let mut label = address_string(&m.module_address);
    label.append(":");
    label.append(m.module_name.as_str());
    label.append(":");
    label.append(function.as_str());
    proof {
        reveal_strlit(":");
        assert(label@ =~= node_label(*m, function@));
    }
    label
}

/// A call made by a function: the callee and its type arguments.
#[derive(Debug, PartialEq, Eq)]
pub struct CallSite {
    pub module: MoveModuleId,
    pub function: String,
    pub tys: Vec<MoveAbiSignatureToken>,
}

/// The calls that each function of one module makes.
#[derive(Debug, PartialEq, Eq)]
pub struct MoveModuleBytecodeAnalysis {
    pub module_id: MoveModuleId,
    pub calls: Vec<(String, Vec<CallSite>)>,
}

/// Whether two modules are the same.
pub open spec fn same_module(a: MoveModuleId, b: MoveModuleId) -> bool {
    a.module_address == b.module_address && a.module_name@ == b.module_name@
}

/// The label of a function node: `address:module:function`.
pub open spec fn node_label(m: MoveModuleId, function: Seq<char>) -> Seq<char> {
    address_text(m.module_address) + ":"@ + m.module_name@ + ":"@ + function
}

/// The label of a call edge: its type arguments, separated by `, `.
pub open spec fn edge_label(tys: Seq<MoveAbiSignatureToken>) -> Seq<char> {
    tokens_text(tys, tys.len() as int)
}

/// Whether two calls have the same callee and type arguments.
pub open spec fn same_call(a: CallSite, b: CallSite) -> bool {
    same_module(a.module, b.module) && a.function@ == b.function@ && edge_label(a.tys@) == edge_label(
        b.tys@,
    )
}

/// The call graph: a graph of function nodes, an index from each function to its
/// node, and the modules already added.
pub struct MoveCallGraph {
    pub graph: Graph<String, String>,
    pub functions: Vec<(MoveModuleId, String, usize)>,
    pub modules: Vec<MoveModuleId>,
}

/// Number of callers and calls in `calls`.
pub open spec fn site_count(calls: Seq<(String, Vec<CallSite>)>) -> nat
    decreases calls.len(),
{
    if calls.len() == 0 {
        0
    } else {
        site_count(calls.drop_last()) + 1 + calls.last().1@.len()
    }
}

/// Whether an edge labelled `label` goes from a node labelled `from` to a node
/// labelled `to`.
pub open spec fn has_edge(
    nodes: Seq<Seq<char>>,
    edges: Seq<(int, int, Seq<char>)>,
    from: Seq<char>,
    to: Seq<char>,
    label: Seq<char>,
) -> bool {
    exists|e: int|
        0 <= e < edges.len() && 0 <= (#[trigger] edges[e]).0 < nodes.len() && 0 <= edges[e].1 < nodes.len()
            && nodes[edges[e].0] == from && nodes[edges[e].1] == to && edges[e].2 == label
}

/// The labels of an edge: its source's, its target's, and its own.
pub open spec fn edge_triple(nodes: Seq<Seq<char>>, e: (int, int, Seq<char>)) -> (Seq<char>, Seq<char>, Seq<char>) {
    (nodes[e.0], nodes[e.1], e.2)
}

/// The edges that the first `j` calls of `caller` add, as label triples: one per
/// call that repeats no earlier one.
pub open spec fn caller_edges(m: MoveModuleId, caller: Seq<char>, calls: Seq<CallSite>, j: int) -> Seq<(Seq<char>, Seq<char>, Seq<char>)>
    decreases j,
{
    if j <= 0 || j > calls.len() {
        seq![]
    } else {
        let prev = caller_edges(m, caller, calls, j - 1);
        if exists|i: int| 0 <= i < j - 1 && same_call(#[trigger] calls[i], calls[j - 1]) {
            prev
        } else {
            prev.push((node_label(m, caller), node_label(calls[j - 1].module, calls[j - 1].function@), edge_label(calls[j - 1].tys@)))
        }
    }
}

/// The edges that the first `c` callers of an analysis of module `m` add, in order.
pub open spec fn analysis_edges(m: MoveModuleId, calls: Seq<(String, Vec<CallSite>)>, c: int) -> Seq<(Seq<char>, Seq<char>, Seq<char>)>
    decreases c,
{
    if c <= 0 || c > calls.len() {
        seq![]
    } else {
        analysis_edges(m, calls, c - 1) + caller_edges(m, calls[c - 1].0@, calls[c - 1].1@, calls[c - 1].1@.len() as int)
    }
}

/// The edges from position `start` on are exactly `expected`, by their labels.
pub open spec fn new_edges_are(nodes: Seq<Seq<char>>, edges: Seq<(int, int, Seq<char>)>, start: int, expected: Seq<(Seq<char>, Seq<char>, Seq<char>)>) -> bool {
    &&& edges.len() == start + expected.len()
    &&& forall|k: int| 0 <= k < expected.len() ==> edge_triple(nodes, #[trigger] edges[start + k]) == expected[k]
}

proof fn lemma_new_edges_kept_nodes(
    nodes: Seq<Seq<char>>,
    nodes2: Seq<Seq<char>>,
    edges: Seq<(int, int, Seq<char>)>,
    start: int,
    expected: Seq<(Seq<char>, Seq<char>, Seq<char>)>,
)
    requires
        0 <= start,
        new_edges_are(nodes, edges, start, expected),
        nodes2.len() >= nodes.len(),
        nodes2.subrange(0, nodes.len() as int) == nodes,
        forall|e: int| 0 <= e < edges.len() ==> 0 <= (#[trigger] edges[e]).0 < nodes.len() && 0 <= edges[e].1 < nodes.len(),
    ensures
        new_edges_are(nodes2, edges, start, expected),
{
    assert forall|k: int| 0 <= k < expected.len() implies edge_triple(nodes2, #[trigger] edges[start + k]) == expected[k] by {
        let e = edges[start + k];
        assert(nodes2[e.0] == nodes2.subrange(0, nodes.len() as int)[e.0]);
        assert(nodes2[e.1] == nodes2.subrange(0, nodes.len() as int)[e.1]);
        assert(edge_triple(nodes, edges[start + k]) == expected[k]);
    }
}

proof fn lemma_site_count_prefix(calls: Seq<(String, Vec<CallSite>)>, c: int)
    requires
        0 <= c <= calls.len(),
    ensures
        site_count(calls.take(c)) <= site_count(calls),
    decreases calls.len(),
{
    if c < calls.len() {
        let init = calls.drop_last();
        assert(calls.take(c) =~= init.take(c));
        lemma_site_count_prefix(init, c);
    } else {
        assert(calls.take(c) =~= calls);
    }
}

proof fn lemma_has_edge_kept(
    nodes: Seq<Seq<char>>,
    edges: Seq<(int, int, Seq<char>)>,
    nodes2: Seq<Seq<char>>,
    edges2: Seq<(int, int, Seq<char>)>,
)
    requires
        nodes2.len() >= nodes.len(),
        nodes2.subrange(0, nodes.len() as int) == nodes,
        edges2.len() >= edges.len(),
        edges2.subrange(0, edges.len() as int) == edges,
    ensures
        forall|from: Seq<char>, to: Seq<char>, label: Seq<char>|
            has_edge(nodes, edges, from, to, label) ==> #[trigger] has_edge(nodes2, edges2, from, to, label),
{
    assert forall|from: Seq<char>, to: Seq<char>, label: Seq<char>|
        has_edge(nodes, edges, from, to, label) implies #[trigger] has_edge(nodes2, edges2, from, to, label) by {
        let e = choose|e: int|
            0 <= e < edges.len() && 0 <= (#[trigger] edges[e]).0 < nodes.len() && 0 <= edges[e].1 < nodes.len()
                && nodes[edges[e].0] == from && nodes[edges[e].1] == to && edges[e].2 == label;
        assert(edges2[e] == edges2.subrange(0, edges.len() as int)[e]);
        assert(nodes2[edges[e].0] == nodes2.subrange(0, nodes.len() as int)[edges[e].0]);
        assert(nodes2[edges[e].1] == nodes2.subrange(0, nodes.len() as int)[edges[e].1]);
    }
}

proof fn lemma_same_modules(a: MoveCallGraph, b: MoveCallGraph, m: MoveModuleId)
    requires
        a.modules@ == b.modules@,
        b.has_module(m),
    ensures
        a.has_module(m),
{
    let k = choose|k: int| 0 <= k < b.modules@.len() && same_module(#[trigger] b.modules@[k], m);
    assert(a.modules@[k] == b.modules@[k]);
}

impl MoveCallGraph {
    /// Every indexed function has its own node, labelled with its identity, and no
    /// function is indexed twice.
    pub open spec fn wf(&self) -> bool {
        &&& graph_nodes(self.graph).len() == self.functions@.len()
        &&& forall|k: int|
            0 <= k < self.functions@.len() ==> (#[trigger] self.functions@[k]).2 == k && graph_nodes(
                self.graph,
            )[k] == node_label(self.functions@[k].0, self.functions@[k].1@)
        &&& forall|i: int, j: int|
            0 <= i < self.functions@.len() && 0 <= j < self.functions@.len() && i != j ==> !(
            same_module(#[trigger] self.functions@[i].0, #[trigger] self.functions@[j].0)
                && self.functions@[i].1@ == self.functions@[j].1@)
        &&& forall|e: int|
            0 <= e < graph_edges(self.graph).len() ==> 0 <= (#[trigger] graph_edges(
                self.graph,
            )[e]).0 < self.functions@.len() && 0 <= graph_edges(self.graph)[e].1
                < self.functions@.len()
        &&& forall|i: int, j: int|
            0 <= i < self.modules@.len() && 0 <= j < self.modules@.len() && i != j ==> !same_module(
                #[trigger] self.modules@[i],
                #[trigger] self.modules@[j],
            )
    }

    /// The labels of the nodes, in index order.
    pub open spec fn nodes(&self) -> Seq<Seq<char>> {
        graph_nodes(self.graph)
    }

    /// The edges, in index order.
    pub open spec fn edges(&self) -> Seq<(int, int, Seq<char>)> {
        graph_edges(self.graph)
    }

    /// Whether `m` has been added.
    pub open spec fn has_module(&self, m: MoveModuleId) -> bool {
        exists|k: int| 0 <= k < self.modules@.len() && same_module(#[trigger] self.modules@[k], m)
    }

    /// An empty call graph.
    pub fn new() -> (r: MoveCallGraph)
        ensures
            r.wf(),
            r.nodes().len() == 0,
            r.edges().len() == 0,
            forall|m: MoveModuleId| !r.has_module(m),
    {
        MoveCallGraph { graph: empty_graph(), functions: Vec::new(), modules: Vec::new() }
    }

    /// The Graphviz text of the graph.
    pub fn dot(&self) -> (r: String)
        ensures
            r@ == dot_text(self.nodes(), self.edges()),
    {
        graph_dot(&self.graph)
    }

    fn find_function(&self, m: &MoveModuleId, function: &String) -> (r: Option<usize>)
        requires
            self.wf(),
        ensures
            r is Some ==> r->Some_0 < self.functions@.len() && same_module(
                self.functions@[r->Some_0 as int].0,
                *m,
            ) && self.functions@[r->Some_0 as int].1@ == function@,
            r is None ==> forall|k: int|
                0 <= k < self.functions@.len() ==> !(same_module(
                    (#[trigger] self.functions@[k]).0,
                    *m,
                ) && self.functions@[k].1@ == function@),
    {
        let mut k: usize = 0;
        while k < self.functions.len()
            invariant
                k <= self.functions@.len(),
                forall|j: int|
                    0 <= j < k ==> !(same_module((#[trigger] self.functions@[j]).0, *m)
                        && self.functions@[j].1@ == function@),
            decreases self.functions@.len() - k,
        {
            let f = &self.functions[k];
            if f.0.module_address == m.module_address && f.0.module_name == m.module_name && f.1
                == *function {
                return Some(k);
            }
            k = k + 1;
        }
        None
    }

    /// The node of function `function` of module `m`, added when it has none.
    fn may_add_function(&mut self, m: &MoveModuleId, function: &String) -> (r: usize)
        requires
            old(self).wf(),
            old(self).functions@.len() < 0xFFFF_FFFF,
        ensures
            final(self).wf(),
            r < final(self).functions@.len(),
            same_module(final(self).functions@[r as int].0, *m),
            final(self).functions@[r as int].1@ == function@,
            final(self).nodes() == old(self).nodes() || final(self).nodes() == old(self).nodes().push(
                node_label(*m, function@),
            ),
            final(self).nodes().len() <= old(self).nodes().len() + 1,
            final(self).edges() == old(self).edges(),
            final(self).modules@ == old(self).modules@,
            forall|k: int| 0 <= k < old(self).functions@.len() ==> #[trigger] final(self).functions@[k] == old(self).functions@[k],
    {
        match self.find_function(m, function) {
            Some(k) => k,
            None => {
                let label = node_label_string(m, function);
                let idx = graph_add_node(&mut self.graph, label);
                let id = MoveModuleId { module_address: m.module_address, module_name: m.module_name.clone() };
                self.functions.push((id, function.clone(), idx));
                proof {
                    let fs = self.functions@;
                    let old_fs = old(self).functions@;
                    assert(fs[idx as int].0.module_name@ == m.module_name@);
                    assert forall|k: int| 0 <= k < fs.len() implies (#[trigger] fs[k]).2 == k && graph_nodes(
                        self.graph,
                    )[k] == node_label(fs[k].0, fs[k].1@) by {
                        if k < old_fs.len() {
                            assert(fs[k] == old_fs[k]);
                        }
                    }
                    assert forall|i: int, j: int|
                        0 <= i < fs.len() && 0 <= j < fs.len() && i != j implies !(
                        same_module(#[trigger] fs[i].0, #[trigger] fs[j].0)
                            && fs[i].1@ == fs[j].1@) by {
                        if i < old_fs.len() && j < old_fs.len() {
                            assert(fs[i] == old_fs[i] && fs[j] == old_fs[j]);
                        } else if i < old_fs.len() {
                            assert(fs[i] == old_fs[i]);
                        } else if j < old_fs.len() {
                            assert(fs[j] == old_fs[j]);
                        }
                    }
                }
                idx
            },
        }
    }

    /// Adds the calls of a module not added before: a node for each caller and
    /// callee that has none, and an edge labelled with the type arguments for each
    /// distinct call. A module added before leaves the graph as it was.
    pub fn add_bytecode_analysis(&mut self, result: &MoveModuleBytecodeAnalysis)
        requires
            old(self).wf(),
            old(self).functions@.len() + site_count(result.calls@) < 0xFFFF_FFFF,
            old(self).edges().len() + site_count(result.calls@) < 0xFFFF_FFFF,
        ensures
            final(self).wf(),
            final(self).has_module(result.module_id),
            old(self).has_module(result.module_id) ==> *final(self) == *old(self),
            !old(self).has_module(result.module_id) ==> new_edges_are(
                final(self).nodes(),
                final(self).edges(),
                old(self).edges().len() as int,
                analysis_edges(result.module_id, result.calls@, result.calls@.len() as int),
            ),
            final(self).nodes().len() >= old(self).nodes().len(),
            final(self).nodes().subrange(0, old(self).nodes().len() as int) == old(self).nodes(),
            final(self).edges().len() >= old(self).edges().len(),
            final(self).edges().subrange(0, old(self).edges().len() as int) == old(self).edges(),
            !old(self).has_module(result.module_id) ==> forall|c: int, j: int|
                0 <= c < result.calls@.len() && 0 <= j < result.calls@[c].1@.len() ==> has_edge(
                    final(self).nodes(),
                    final(self).edges(),
                    node_label(result.module_id, result.calls@[c].0@),
                    node_label(
                        (#[trigger] result.calls@[c].1@[j]).module,
                        result.calls@[c].1@[j].function@,
                    ),
                    edge_label(result.calls@[c].1@[j].tys@),
                ),
    {
        let mut known = false;
        let mut k: usize = 0;
        while k < self.modules.len()
            invariant
                k <= self.modules@.len(),
                !known ==> forall|j: int| 0 <= j < k ==> !same_module(#[trigger] self.modules@[j], result.module_id),
                known ==> self.has_module(result.module_id),
            decreases self.modules@.len() - k,
        {
            let md = &self.modules[k];
            if md.module_address == result.module_id.module_address && md.module_name == result.module_id.module_name {
                known = true;
            }
            k = k + 1;
        }
        if known {
            return;
        }
        let id = MoveModuleId {
            module_address: result.module_id.module_address,
            module_name: result.module_id.module_name.clone(),
        };
        self.modules.push(id);
        proof {
            assert(same_module(self.modules@[self.modules@.len() - 1], result.module_id));
            let ms = self.modules@;
            let om = old(self).modules@;
            assert forall|i: int, j: int|
                0 <= i < ms.len() && 0 <= j < ms.len() && i != j implies !same_module(
                    #[trigger] ms[i],
                    #[trigger] ms[j],
                ) by {
                if i < om.len() && j < om.len() {
                    assert(ms[i] == om[i] && ms[j] == om[j]);
                } else if i < om.len() {
                    assert(ms[i] == om[i]);
                    assert(!same_module(om[i], result.module_id));
                } else if j < om.len() {
                    assert(ms[j] == om[j]);
                    assert(!same_module(om[j], result.module_id));
                }
            }
        }
        let ghost start = *self;
        let ghost calls_all = result.calls@;
        proof {
            assert(!old(self).has_module(result.module_id));
            assert(start.edges() == old(self).edges());
            assert(calls_all.take(0) =~= Seq::<(String, Vec<CallSite>)>::empty());
            assert(start.nodes().subrange(0, start.nodes().len() as int) =~= start.nodes());
            assert(start.edges().subrange(0, start.edges().len() as int) =~= start.edges());
            assert(analysis_edges(result.module_id, calls_all, 0) =~= Seq::<(Seq<char>, Seq<char>, Seq<char>)>::empty());
        }
        let mut c: usize = 0;
        while c < result.calls.len()
            invariant
                self.wf(),
                c <= calls_all.len(),
                calls_all == result.calls@,
                !old(self).has_module(result.module_id),
                start.edges() == old(self).edges(),
                start.nodes() == old(self).nodes(),
                start.functions@.len() == old(self).functions@.len(),
                self.modules@ == start.modules@,
                start.has_module(result.module_id),
                start.functions@.len() + site_count(calls_all) < 0xFFFF_FFFF,
                start.edges().len() + site_count(calls_all) < 0xFFFF_FFFF,
                self.functions@.len() <= start.functions@.len() + site_count(calls_all.take(c as int)),
                self.edges().len() <= start.edges().len() + site_count(calls_all.take(c as int)),
                self.nodes().len() >= start.nodes().len(),
                self.nodes().subrange(0, start.nodes().len() as int) == start.nodes(),
                self.edges().len() >= start.edges().len(),
                self.edges().subrange(0, start.edges().len() as int) == start.edges(),
                new_edges_are(self.nodes(), self.edges(), start.edges().len() as int, analysis_edges(result.module_id, calls_all, c as int)),
                forall|cc: int, j: int|
                    0 <= cc < c && 0 <= j < calls_all[cc].1@.len() ==> has_edge(
                        self.nodes(),
                        self.edges(),
                        node_label(result.module_id, calls_all[cc].0@),
                        node_label((#[trigger] calls_all[cc].1@[j]).module, calls_all[cc].1@[j].function@),
                        edge_label(calls_all[cc].1@[j].tys@),
                    ),
            decreases calls_all.len() - c,
        {
            let caller = &result.calls[c].0;
            let calls = &result.calls[c].1;
            proof {
                lemma_site_count_prefix(calls_all, c + 1);
                assert(calls_all.take(c + 1).drop_last() =~= calls_all.take(c as int));
                assert(site_count(calls_all.take(c + 1)) == site_count(calls_all.take(c as int)) + 1 + calls@.len());
            }
            let ghost round = *self;
            let src = self.may_add_function(&result.module_id, caller);
            proof {
                assert(self.nodes().subrange(0, round.nodes().len() as int) =~= round.nodes());
                assert(self.edges().subrange(0, round.edges().len() as int) =~= round.edges());
                lemma_has_edge_kept(round.nodes(), round.edges(), self.nodes(), self.edges());
                assert(self.nodes().subrange(0, start.nodes().len() as int) =~= start.nodes());
                assert(self.nodes()[src as int] == node_label(result.module_id, caller@));
                lemma_new_edges_kept_nodes(round.nodes(), self.nodes(), self.edges(), start.edges().len() as int, analysis_edges(result.module_id, calls_all, c as int));
                assert(analysis_edges(result.module_id, calls_all, c as int) + caller_edges(result.module_id, caller@, calls@, 0) =~= analysis_edges(result.module_id, calls_all, c as int));
            }
            let mut j: usize = 0;
            while j < calls.len()
                invariant
                    self.wf(),
                    c < calls_all.len(),
                    calls_all == result.calls@,
                    *calls == calls_all[c as int].1,
                    *caller == calls_all[c as int].0,
                    j <= calls@.len(),
                    !old(self).has_module(result.module_id),
                    start.edges() == old(self).edges(),
                    start.nodes() == old(self).nodes(),
                    start.functions@.len() == old(self).functions@.len(),
                    self.modules@ == start.modules@,
                    start.has_module(result.module_id),
                    start.functions@.len() + site_count(calls_all) < 0xFFFF_FFFF,
                    start.edges().len() + site_count(calls_all) < 0xFFFF_FFFF,
                    site_count(calls_all.take(c + 1)) == site_count(calls_all.take(c as int)) + 1 + calls@.len(),
                    site_count(calls_all.take(c + 1)) <= site_count(calls_all),
                    self.functions@.len() <= start.functions@.len() + site_count(calls_all.take(c as int)) + 1 + j,
                    self.edges().len() <= start.edges().len() + site_count(calls_all.take(c as int)) + j,
                    src < self.functions@.len(),
                    self.nodes()[src as int] == node_label(result.module_id, caller@),
                    self.nodes().len() >= start.nodes().len(),
                    self.nodes().subrange(0, start.nodes().len() as int) == start.nodes(),
                    self.edges().len() >= start.edges().len(),
                    self.edges().subrange(0, start.edges().len() as int) == start.edges(),
                    new_edges_are(
                        self.nodes(),
                        self.edges(),
                        start.edges().len() as int,
                        analysis_edges(result.module_id, calls_all, c as int) + caller_edges(result.module_id, caller@, calls@, j as int),
                    ),
                    forall|cc: int, jj: int|
                        0 <= cc < c && 0 <= jj < calls_all[cc].1@.len() ==> has_edge(
                            self.nodes(),
                            self.edges(),
                            node_label(result.module_id, calls_all[cc].0@),
                            node_label((#[trigger] calls_all[cc].1@[jj]).module, calls_all[cc].1@[jj].function@),
                            edge_label(calls_all[cc].1@[jj].tys@),
                        ),
                    forall|jj: int|
                        0 <= jj < j ==> has_edge(
                            self.nodes(),
                            self.edges(),
                            node_label(result.module_id, caller@),
                            node_label((#[trigger] calls@[jj]).module, calls@[jj].function@),
                            edge_label(calls@[jj].tys@),
                        ),
                decreases calls@.len() - j,
            {
                let call = &calls[j];
                if self.seen_before(calls, j) {
                    proof {
                        let i = choose|i: int| 0 <= i < j && same_call(#[trigger] calls@[i], calls@[j as int]);
                        assert(has_edge(
                            self.nodes(),
                            self.edges(),
                            node_label(result.module_id, caller@),
                            node_label(calls@[i].module, calls@[i].function@),
                            edge_label(calls@[i].tys@),
                        ));
                        assert(node_label(calls@[i].module, calls@[i].function@) == node_label(calls@[j as int].module, calls@[j as int].function@));
                        assert(caller_edges(result.module_id, caller@, calls@, j + 1) == caller_edges(result.module_id, caller@, calls@, j as int));
                    }
                } else {
                    let ghost before = *self;
                    let dst = self.may_add_function(&call.module, &call.function);
                    let mut label = String::new();
                    push_tokens(&mut label, &call.tys, call.tys.len());
                    let ghost mid = *self;
                    graph_add_edge(&mut self.graph, src, dst, label);
                    proof {
                        let ne = self.edges();
                        let e_new = mid.edges().len() as int;
                        assert(ne[e_new] == (src as int, dst as int, label@));
                        assert(self.nodes()[dst as int] == node_label(call.module, call.function@));
                        assert(has_edge(
                            self.nodes(),
                            self.edges(),
                            node_label(result.module_id, caller@),
                            node_label(call.module, call.function@),
                            edge_label(call.tys@),
                        ));
                        assert(self.nodes().subrange(0, before.nodes().len() as int) =~= before.nodes());
                        assert(self.edges().subrange(0, before.edges().len() as int) =~= before.edges());
                        lemma_has_edge_kept(before.nodes(), before.edges(), self.nodes(), self.edges());
                        assert(self.nodes().subrange(0, start.nodes().len() as int) =~= start.nodes());
                        assert(self.edges().subrange(0, start.edges().len() as int) =~= start.edges());
                        assert(self.nodes()[src as int] == node_label(result.module_id, caller@));
                        assert forall|e: int| 0 <= e < graph_edges(self.graph).len() implies 0 <= (#[trigger] graph_edges(
                            self.graph,
                        )[e]).0 < self.functions@.len() && 0 <= graph_edges(self.graph)[e].1
                            < self.functions@.len() by {
                            if e < mid.edges().len() {
                                assert(graph_edges(self.graph)[e] == mid.edges()[e]);
                            }
                        }
                        let exp = analysis_edges(result.module_id, calls_all, c as int) + caller_edges(result.module_id, caller@, calls@, j as int);
                        lemma_new_edges_kept_nodes(before.nodes(), self.nodes(), before.edges(), start.edges().len() as int, exp);
                        let triple = (node_label(result.module_id, caller@), node_label(calls@[j as int].module, calls@[j as int].function@), edge_label(calls@[j as int].tys@));
                        assert(caller_edges(result.module_id, caller@, calls@, j + 1) == caller_edges(result.module_id, caller@, calls@, j as int).push(triple));
                        assert(edge_triple(self.nodes(), ne[e_new]) == triple);
                        assert(mid.edges() == before.edges());
                        assert forall|k: int| 0 <= k < exp.push(triple).len() implies edge_triple(self.nodes(), #[trigger] ne[start.edges().len() + k]) == exp.push(triple)[k] by {
                            if k < exp.len() {
                                assert(ne[start.edges().len() + k] == before.edges()[start.edges().len() + k]);
                            }
                        }
                        assert(exp.push(triple) =~= analysis_edges(result.module_id, calls_all, c as int) + caller_edges(result.module_id, caller@, calls@, j + 1));
                    }
                }
                j = j + 1;
            }
            proof {
                assert(analysis_edges(result.module_id, calls_all, c + 1) == analysis_edges(result.module_id, calls_all, c as int) + caller_edges(result.module_id, caller@, calls@, calls@.len() as int));
            }
            c = c + 1;
        }
        proof {
            lemma_same_modules(*self, start, result.module_id);
            assert(calls_all.take(calls_all.len() as int) =~= calls_all);
        }
    }

    /// Whether the call at `j` repeats an earlier call of `calls`: the same callee
    /// with the same type arguments.
    fn seen_before(&self, calls: &Vec<CallSite>, j: usize) -> (r: bool)
        requires
            j < calls@.len(),
        ensures
            r == exists|i: int| 0 <= i < j && same_call(#[trigger] calls@[i], calls@[j as int]),
    {
        let cj = &calls[j];
        let mut lj = String::new();
        push_tokens(&mut lj, &cj.tys, cj.tys.len());
        let mut i: usize = 0;
        while i < j
            invariant
                i <= j < calls@.len(),
                *cj == calls@[j as int],
                lj@ == edge_label(cj.tys@),
                forall|k: int| 0 <= k < i ==> !same_call(#[trigger] calls@[k], calls@[j as int]),
            decreases j - i,
        {
            let ci = &calls[i];
            let mut li = String::new();
            push_tokens(&mut li, &ci.tys, ci.tys.len());
            if ci.module.module_address == cj.module.module_address && ci.module.module_name
                == cj.module.module_name && ci.function == cj.function && li == lj {
                return true;
            }
            i = i + 1;
        }
        false
    }
}

} // verus!
