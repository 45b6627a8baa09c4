//! The decision-graph compiler.
//!
//! [`DecisionGraphBuilder::build`] turns an ordered list of
//! [`Decision`] specifications into a graph of typed nodes: a fixed
//! input sentinel node (id `request`) first, one node per decision in
//! input order, and a fixed output sentinel node (id `response`) last.
//! Edges are derived from each decision's declared `sources` and
//! `targets` by [`EdgeBuilder::build_edges`]; endpoints are not checked
//! against actual node ids — validating them is the execution engine's
//! business. A decision whose kind has no registered builder, or an
//! expression-kind decision with no inputs, makes the whole compilation
//! return a [`BuildError`]; compilation never panics and never aborts
//! the process.

use vstd::prelude::*;

use crate::context::str_eq;
use crate::errors::{BuildError, SpecBuildError};
use crate::rule::{Decision, Rule};

verus! {

/// A described input column of a decision table.
#[derive(Debug, Clone)]
pub struct DecisionTableInputField {
    /// Field id; equals the underlying key.
    pub id: String,
    /// Display name; equals the underlying key.
    pub name: String,
    /// The underlying key of the field.
    pub field: Option<String>,
}

/// A described output column of a decision table.
#[derive(Debug, Clone)]
pub struct DecisionTableOutputField {
    /// Field id; equals the underlying key.
    pub id: String,
    /// Display name; equals the underlying key.
    pub name: String,
    /// The underlying key of the field.
    pub field: String,
}

/// The rule-matching strategy of a decision table.
#[derive(Debug, Clone, Copy, PartialEq, Eq, Structural)]
pub enum HitPolicy {
    /// The first matching rule, in row order, wins.
    First,
}

/// One named expression of an expression node.
#[derive(Debug, Clone)]
pub struct ExpressionEntry {
    /// Entry id; equals the bound key.
    pub id: String,
    /// The key the expression's result is bound to.
    pub key: String,
    /// The raw expression source.
    pub value: String,
}

/// The kind-specific payload of a graph node.
#[derive(Debug, Clone)]
pub enum DecisionNodeKind {
    /// The input sentinel.
    InputNode,
    /// The output sentinel.
    OutputNode,
    /// A decision table: rule rows plus described input and output
    /// columns.
    DecisionTableNode {
        /// Rule-matching strategy; always first-match.
        hit_policy: HitPolicy,
        /// The table's rule rows, verbatim.
        rules: Vec<Rule>,
        /// Described input columns.
        inputs: Vec<DecisionTableInputField>,
        /// Described output columns.
        outputs: Vec<DecisionTableOutputField>,
    },
    /// A single named expression.
    ExpressionNode {
        /// The node's expressions; exactly one entry.
        expressions: Vec<ExpressionEntry>,
    },
    /// An opaque function body, not validated at compile time.
    FunctionNode {
        /// The raw function source.
        source: String,
    },
}

/// A node of the compiled graph.
#[derive(Debug, Clone)]
pub struct DecisionNode {
    /// Unique node id.
    pub id: String,
    /// Display name.
    pub name: String,
    /// Kind-specific payload.
    pub kind: DecisionNodeKind,
}

/// A directed edge of the compiled graph.
#[derive(Debug, Clone)]
pub struct DecisionEdge {
    /// Edge id; left empty.
    pub id: String,
    /// Id of the source node.
    pub source_id: String,
    /// Id of the target node.
    pub target_id: String,
    /// Handle label; present and empty.
    pub source_handle: Option<String>,
}

/// A compiled decision graph: nodes in order, and derived edges.
#[derive(Debug, Clone)]
pub struct DecisionGraph {
    /// The input sentinel, one node per decision, the output sentinel.
    pub nodes: Vec<DecisionNode>,
    /// The derived edges.
    pub edges: Vec<DecisionEdge>,
}

/// Whether `f` describes the input column named `name`.
pub open spec fn spec_input_field_of(name: Seq<char>, f: DecisionTableInputField) -> bool {
    &&& f.id@ == name
    &&& f.name@ == name
    &&& f.field matches Some(g) && g@ == name
}

/// Whether `f` describes the output column named `name`.
pub open spec fn spec_output_field_of(name: Seq<char>, f: DecisionTableOutputField) -> bool {
    &&& f.id@ == name
    &&& f.name@ == name
    &&& f.field@ == name
}

/// Whether `n` is the decision-table node compiled from `d`.
pub open spec fn spec_table_node(d: Decision, n: DecisionNode) -> bool {
    &&& n.id@ == d.id@
    &&& n.name@ == d.id@
    &&& n.kind matches DecisionNodeKind::DecisionTableNode { hit_policy, rules, inputs, outputs }
        && ({
        &&& hit_policy is First
        &&& rules.deep_view() == d.rules.deep_view()
        &&& inputs@.len() == d.inputs@.len()
        &&& forall|j: int|
            0 <= j < inputs@.len() ==> spec_input_field_of(d.inputs@[j]@, #[trigger] inputs@[j])
        &&& outputs@.len() == d.outputs@.len()
        &&& forall|j: int|
            0 <= j < outputs@.len() ==> spec_output_field_of(d.outputs@[j]@, #[trigger] outputs@[j])
    })
}

/// Whether `n` is the expression node compiled from `d`: a single
/// expression, keyed by the first declared input name.
pub open spec fn spec_expression_node(d: Decision, n: DecisionNode) -> bool {
    &&& n.id@ == d.id@
    &&& n.name@ == d.id@
    &&& n.kind matches DecisionNodeKind::ExpressionNode { expressions } && ({
        &&& expressions@.len() == 1
        &&& expressions@[0].id@ == d.inputs@[0]@
        &&& expressions@[0].key@ == d.inputs@[0]@
        &&& expressions@[0].value@ == d.expression@
    })
}

/// Whether `n` is the function node compiled from `d`: the function
/// source wrapped verbatim.
pub open spec fn spec_function_node(d: Decision, n: DecisionNode) -> bool {
    &&& n.id@ == d.id@
    &&& n.name@ == d.id@
    &&& n.kind matches DecisionNodeKind::FunctionNode { source } && source@ == d.function@
}

/// Whether a builder is registered for `kind`.
pub open spec fn spec_registered_kind(kind: Seq<char>) -> bool {
    kind == "table"@ || kind == "expression"@ || kind == "function"@
}

/// Whether `d` compiles: its kind is registered, and an expression-kind
/// decision declares at least one input.
pub open spec fn spec_buildable(d: Decision) -> bool {
    &&& spec_registered_kind(d.kind@)
    &&& !(d.kind@ == "expression"@ && d.inputs@.len() == 0)
}

/// The error a non-buildable decision is reported with.
pub open spec fn spec_build_error(d: Decision) -> SpecBuildError
    recommends
        !spec_buildable(d),
{
    if !spec_registered_kind(d.kind@) {
        SpecBuildError::UnknownKind(d.kind@)
    } else {
        SpecBuildError::EmptyInputs(d.id@)
    }
}

/// Whether `n` is the node compiled from `d`, by `d`'s kind.
pub open spec fn spec_built_node(d: Decision, n: DecisionNode) -> bool
    recommends
        spec_buildable(d),
{
    if d.kind@ == "table"@ {
        spec_table_node(d, n)
    } else if d.kind@ == "expression"@ {
        spec_expression_node(d, n)
    } else {
        spec_function_node(d, n)
    }
}

/// Turns field names into field descriptors, one per name, in order.
pub fn make_fields<T, F: Fn(String) -> T>(fields: Vec<String>, field_creator: F) -> (res: Vec<T>)
    requires
        forall|s: String| #[trigger] field_creator.requires((s,)),
    ensures
        res@.len() == fields@.len(),
        forall|j: int| 0 <= j < res@.len() ==> field_creator.ensures(
            (fields@[j],),
            #[trigger] res@[j],
        ),
{
    let mut res: Vec<T> = Vec::new();
    let mut i: usize = 0;
    while i < fields.len()
        invariant
            i <= fields@.len(),
            res@.len() == i,
            forall|j: int| 0 <= j < i ==> field_creator.ensures((fields@[j],), #[trigger] res@[j]),
            forall|s: String| #[trigger] field_creator.requires((s,)),
        decreases fields@.len() - i,
    {
        let name = fields[i].clone();
        let descriptor = field_creator(name);
        res.push(descriptor);
        i += 1;
    }
    res
}

/// The input-column descriptor for the field named `field_name`.
fn input_field_for(field_name: String) -> (r: DecisionTableInputField)
    ensures
        spec_input_field_of(field_name@, r),
{
    let fid = field_name.clone();
    let fname = field_name.clone();
    DecisionTableInputField { id: fid, name: fname, field: Some(field_name) }
}

/// The output-column descriptor for the field named `field_name`.
fn output_field_for(field_name: String) -> (r: DecisionTableOutputField)
    ensures
        spec_output_field_of(field_name@, r),
{
    let fid = field_name.clone();
    let fname = field_name.clone();
    DecisionTableOutputField { id: fid, name: fname, field: field_name }
}

/// Builds decision-table nodes.
pub struct DecisionTableNodeBuilder;

impl DecisionTableNodeBuilder {
    /// Wraps the decision's rule rows verbatim, describes its input and
    /// output columns, and fixes the hit policy to first-match.
    pub fn build(&self, decision: Decision) -> (n: DecisionNode)
        ensures
            spec_table_node(decision, n),
    {
        let Decision { id, rules, inputs, outputs, .. } = decision;
        let input_fields = make_fields(inputs, input_field_for);
        let output_fields = make_fields(outputs, output_field_for);
        let name = id.clone();
        DecisionNode {
            id,
            name,
            kind: DecisionNodeKind::DecisionTableNode {
                hit_policy: HitPolicy::First,
                rules,
                inputs: input_fields,
                outputs: output_fields,
            },
        }
    }
}

/// Builds expression nodes.
pub struct ExpressionNodeBuilder;

impl ExpressionNodeBuilder {
    /// Wraps the decision's expression source as a single named
    /// expression, keyed by the first declared input name. A decision
    /// with no inputs is rejected with [`BuildError::EmptyInputs`].
    pub fn build(&self, decision: Decision) -> (r: Result<DecisionNode, BuildError>)
        ensures
            decision.inputs@.len() == 0 ==> (r matches Err(e) && e@ == SpecBuildError::EmptyInputs(
                decision.id@,
            )),
            decision.inputs@.len() >= 1 ==> (r matches Ok(n) && spec_expression_node(decision, n)),
    {
        let Decision { id, expression, inputs, .. } = decision;
        if inputs.len() == 0 {
            return Err(BuildError::EmptyInputs(id));
        }
        let key = inputs[0].clone();
        let entry_id = key.clone();
        let entry = ExpressionEntry { id: entry_id, key, value: expression };
        let mut expressions: Vec<ExpressionEntry> = Vec::new();
        expressions.push(entry);
        let name = id.clone();
        Ok(DecisionNode { id, name, kind: DecisionNodeKind::ExpressionNode { expressions } })
    }
}

/// Builds function nodes.
pub struct FunctionNodeBuilder;

impl FunctionNodeBuilder {
    /// Wraps the decision's function source verbatim; its content is not
    /// validated at compile time.
    pub fn build(&self, decision: Decision) -> (n: DecisionNode)
        ensures
            spec_function_node(decision, n),
    {
        let Decision { id, function, .. } = decision;
        let name = id.clone();
        DecisionNode { id, name, kind: DecisionNodeKind::FunctionNode { source: function } }
    }
}

/// Dispatches a decision to the builder registered for its kind.
pub struct NodeFactory;

impl NodeFactory {
    /// A factory with the reference builders registered: `table`,
    /// `expression` and `function`.
    pub fn new() -> NodeFactory {
        NodeFactory
    }

    /// Compiles one decision into its node, or reports why it cannot be
    /// compiled. An unknown kind is a [`BuildError::UnknownKind`], never
    /// a panic.
    pub fn create_node(&self, decision: Decision) -> (r: Result<DecisionNode, BuildError>)
        ensures
            spec_buildable(decision) ==> (r matches Ok(n) && spec_built_node(decision, n)),
            !spec_buildable(decision) ==> (r matches Err(e) && e@ == spec_build_error(decision)),
    {
        proof {
            reveal_strlit("table");
            reveal_strlit("expression");
            reveal_strlit("function");
            assert("table"@.len() == 5);
            assert("expression"@.len() == 10);
            assert("function"@.len() == 8);
        }
        if str_eq(decision.kind.as_str(), "table") {
            Ok(DecisionTableNodeBuilder.build(decision))
        } else if str_eq(decision.kind.as_str(), "expression") {
            ExpressionNodeBuilder.build(decision)
        } else if str_eq(decision.kind.as_str(), "function") {
            Ok(FunctionNodeBuilder.build(decision))
        } else {
            let kind = decision.kind;
            Err(BuildError::UnknownKind(kind))
        }
    }
}

/// The `(source id, target id)` pairs a single decision contributes: one
/// per declared source, then one per declared target.
pub open spec fn spec_edge_pairs(d: Decision) -> Seq<(Seq<char>, Seq<char>)> {
    d.sources.deep_view().map_values(|s: Seq<char>| (s, d.id@)) + d.targets.deep_view().map_values(
        |t: Seq<char>| (d.id@, t),
    )
}

/// The `(source id, target id)` pairs of a whole specification list, in
/// input order.
pub open spec fn spec_all_edge_pairs(flow: Seq<Decision>) -> Seq<(Seq<char>, Seq<char>)>
    decreases flow.len(),
{
    if flow.len() == 0 {
        Seq::empty()
    } else {
        spec_all_edge_pairs(flow.drop_last()) + spec_edge_pairs(flow.last())
    }
}

/// Whether `e` is the edge for the pair `pair`: empty id, the pair's
/// endpoints, and an empty handle label.
pub open spec fn spec_edge_matches(pair: (Seq<char>, Seq<char>), e: DecisionEdge) -> bool {
    &&& e.id@.len() == 0
    &&& e.source_id@ == pair.0
    &&& e.target_id@ == pair.1
    &&& e.source_handle matches Some(h) && h@.len() == 0
}

/// Whether `es` holds exactly the edges for `pairs`, in order.
pub open spec fn spec_edges_match(
    pairs: Seq<(Seq<char>, Seq<char>)>,
    es: Seq<DecisionEdge>,
) -> bool {
    &&& es.len() == pairs.len()
    &&& forall|j: int| 0 <= j < pairs.len() ==> spec_edge_matches(pairs[j], #[trigger] es[j])
}

proof fn lemma_edges_match_push(
    pairs: Seq<(Seq<char>, Seq<char>)>,
    es: Seq<DecisionEdge>,
    pair: (Seq<char>, Seq<char>),
    e: DecisionEdge,
)
    requires
        spec_edges_match(pairs, es),
        spec_edge_matches(pair, e),
    ensures
        spec_edges_match(pairs.push(pair), es.push(e)),
{
    assert forall|j: int| 0 <= j < pairs.push(pair).len() implies spec_edge_matches(
        pairs.push(pair)[j],
        #[trigger] es.push(e)[j],
    ) by {
        if j < pairs.len() {
            assert(pairs.push(pair)[j] == pairs[j]);
            assert(es.push(e)[j] == es[j]);
        }
    }
}

/// Derives graph edges from the declared adjacency of each decision.
pub struct EdgeBuilder;

impl EdgeBuilder {
    /// One edge per declared source (that source to the decision) and
    /// one per declared target (the decision to that target), in input
    /// order. Endpoints are not checked against actual node ids.
    pub fn build_edges(flow: &Vec<Decision>) -> (edges: Vec<DecisionEdge>)
        ensures
            spec_edges_match(spec_all_edge_pairs(flow@), edges@),
    {
        let mut edges: Vec<DecisionEdge> = Vec::new();
        let ghost mut pairs_done: Seq<(Seq<char>, Seq<char>)> = Seq::empty();
        let mut di: usize = 0;
        proof {
            assert(spec_all_edge_pairs(flow@.take(0)) =~= Seq::<(Seq<char>, Seq<char>)>::empty());
        }
        while di < flow.len()
            invariant
                di <= flow@.len(),
                pairs_done == spec_all_edge_pairs(flow@.take(di as int)),
                spec_edges_match(pairs_done, edges@),
            decreases flow@.len() - di,
        {
            let d = &flow[di];
            let ghost dpairs = spec_edge_pairs(flow@[di as int]);
            let ghost pairs0 = pairs_done;
            let ghost nsrc = d.sources.deep_view().len();
            let mut si: usize = 0;
            proof {
                assert(dpairs.take(0) =~= Seq::<(Seq<char>, Seq<char>)>::empty());
                assert(pairs0 + dpairs.take(0) =~= pairs0);
            }
            while si < d.sources.len()
                invariant
                    si <= d.sources@.len(),
                    nsrc == d.sources.deep_view().len(),
                    nsrc == d.sources@.len(),
                    dpairs == spec_edge_pairs(flow@[di as int]),
                    di < flow@.len(),
                    d == flow@[di as int],
                    pairs_done == pairs0 + dpairs.take(si as int),
                    spec_edges_match(pairs_done, edges@),
                decreases d.sources@.len() - si,
            {
                let source = d.sources[si].clone();
                let target = d.id.clone();
                let edge = DecisionEdge {
                    id: String::new(),
                    source_id: source,
                    target_id: target,
                    source_handle: Some(String::new()),
                };
                proof {
                    assert(dpairs[si as int] == (
                        d.sources.deep_view()[si as int],
                        d.id@,
                    ));
                    assert(d.sources.deep_view()[si as int] == d.sources@[si as int]@);
                    assert(spec_edge_matches(dpairs[si as int], edge));
                    lemma_edges_match_push(pairs_done, edges@, dpairs[si as int], edge);
                    assert(dpairs.take(si + 1) =~= dpairs.take(si as int).push(dpairs[si as int]));
                    assert(pairs0 + dpairs.take(si + 1) =~= (pairs0 + dpairs.take(
                        si as int,
                    )).push(dpairs[si as int]));
                    pairs_done = pairs_done.push(dpairs[si as int]);
                }
                edges.push(edge);
                si += 1;
            }
            let mut ti: usize = 0;
            while ti < d.targets.len()
                invariant
                    ti <= d.targets@.len(),
                    nsrc == d.sources.deep_view().len(),
                    nsrc == d.sources@.len(),
                    dpairs == spec_edge_pairs(flow@[di as int]),
                    di < flow@.len(),
                    d == flow@[di as int],
                    pairs_done == pairs0 + dpairs.take(nsrc + ti),
                    spec_edges_match(pairs_done, edges@),
                decreases d.targets@.len() - ti,
            {
                let source = d.id.clone();
                let target = d.targets[ti].clone();
                let edge = DecisionEdge {
                    id: String::new(),
                    source_id: source,
                    target_id: target,
                    source_handle: Some(String::new()),
                };
                proof {
                    assert(dpairs[nsrc + ti] == (d.id@, d.targets.deep_view()[ti as int]));
                    assert(d.targets.deep_view()[ti as int] == d.targets@[ti as int]@);
                    assert(spec_edge_matches(dpairs[nsrc + ti], edge));
                    lemma_edges_match_push(pairs_done, edges@, dpairs[nsrc + ti], edge);
                    assert(dpairs.take(nsrc + ti + 1) =~= dpairs.take(nsrc + ti).push(
                        dpairs[nsrc + ti],
                    ));
                    assert(pairs0 + dpairs.take(nsrc + ti + 1) =~= (pairs0 + dpairs.take(
                        nsrc + ti,
                    )).push(dpairs[nsrc + ti]));
                    pairs_done = pairs_done.push(dpairs[nsrc + ti]);
                }
                edges.push(edge);
                ti += 1;
            }
            proof {
                assert(dpairs.take(nsrc + d.targets@.len() as int) =~= dpairs);
                assert(flow@.take(di + 1).drop_last() =~= flow@.take(di as int));
                assert(flow@.take(di + 1).last() == flow@[di as int]);
                assert(spec_all_edge_pairs(flow@.take(di + 1)) == spec_all_edge_pairs(
                    flow@.take(di as int),
                ) + dpairs);
            }
            di += 1;
        }
        proof {
            assert(flow@.take(di as int) =~= flow@);
        }
        edges
    }
}

/// Whether `n` is the input sentinel node.
pub open spec fn spec_input_sentinel(n: DecisionNode) -> bool {
    &&& n.id@ == "request"@
    &&& n.name@ == "request"@
    &&& n.kind is InputNode
}

/// Whether `n` is the output sentinel node.
pub open spec fn spec_output_sentinel(n: DecisionNode) -> bool {
    &&& n.id@ == "response"@
    &&& n.name@ == "response"@
    &&& n.kind is OutputNode
}

/// Whether every decision of the list compiles.
pub open spec fn spec_all_buildable(flow: Seq<Decision>) -> bool {
    forall|j: int| 0 <= j < flow.len() ==> spec_buildable(#[trigger] flow[j])
}

/// The error of the first decision that does not compile.
pub open spec fn spec_first_build_error(flow: Seq<Decision>) -> SpecBuildError
    recommends
        !spec_all_buildable(flow),
    decreases flow.len(),
{
    if flow.len() == 0 {
        SpecBuildError::UnknownKind(Seq::empty())
    } else if !spec_buildable(flow[0]) {
        spec_build_error(flow[0])
    } else {
        spec_first_build_error(flow.skip(1))
    }
}

proof fn lemma_first_build_error_at(flow: Seq<Decision>, i: int)
    requires
        0 <= i < flow.len(),
        forall|k: int| 0 <= k < i ==> spec_buildable(#[trigger] flow[k]),
        !spec_buildable(flow[i]),
    ensures
        spec_first_build_error(flow) == spec_build_error(flow[i]),
    decreases i,
{
    if i == 0 {
    } else {
        assert(spec_buildable(flow[0]));
        let rest = flow.skip(1);
        assert forall|k: int| 0 <= k < i - 1 implies spec_buildable(#[trigger] rest[k]) by {
            assert(rest[k] == flow[k + 1]);
        }
        assert(rest[i - 1] == flow[i]);
        lemma_first_build_error_at(rest, i - 1);
    }
}

/// Whether `nodes` is the node list compiled from `flow`: the input
/// sentinel, one node per decision in input order, the output sentinel.
pub open spec fn spec_graph_nodes(flow: Seq<Decision>, nodes: Seq<DecisionNode>) -> bool {
    &&& nodes.len() == flow.len() + 2
    &&& spec_input_sentinel(nodes[0])
    &&& spec_output_sentinel(nodes[nodes.len() - 1])
    &&& forall|j: int| 0 <= j < flow.len() ==> spec_built_node(flow[j], #[trigger] nodes[j + 1])
}

/// Whether `g` is the graph compiled from `flow`.
pub open spec fn spec_graph_of(flow: Seq<Decision>, g: DecisionGraph) -> bool {
    &&& spec_graph_nodes(flow, g.nodes@)
    &&& spec_edges_match(spec_all_edge_pairs(flow), g.edges@)
}

/// Compiles decision lists into graphs.
pub struct DecisionGraphBuilder {
    node_factory: NodeFactory,
}

impl DecisionGraphBuilder {
    /// A compiler over the reference builder registry.
    pub fn new() -> DecisionGraphBuilder {
        DecisionGraphBuilder { node_factory: NodeFactory::new() }
    }

    /// Compiles the whole list: the input sentinel first, one node per
    /// decision in input order, the output sentinel last, and the edges
    /// derived from the declared adjacency. The first decision that does
    /// not compile fails the whole batch with its error; nothing panics.
    #[verifier::loop_isolation(false)]
    pub fn build(&self, flow: Vec<Decision>) -> (r: Result<DecisionGraph, BuildError>)
        ensures
            spec_all_buildable(flow@) ==> (r matches Ok(g) && spec_graph_of(flow@, g)),
            !spec_all_buildable(flow@) ==> (r matches Err(e) && e@ == spec_first_build_error(
                flow@,
            )),
    {
        let ghost flow0 = flow@;
        let total = flow.len();
        let edges = EdgeBuilder::build_edges(&flow);
        let mut nodes: Vec<DecisionNode> = Vec::new();
        nodes.push(
            DecisionNode {
                id: String::from_str("request"),
                name: String::from_str("request"),
                kind: DecisionNodeKind::InputNode,
            },
        );
        let mut work = flow;
        let mut di: usize = 0;
        proof {
            assert(work@ =~= flow0.skip(0));
        }
        while work.len() > 0
            invariant
                di <= flow0.len(),
                flow0.len() == total,
                work@ == flow0.skip(di as int),
                nodes@.len() == di + 1,
                spec_input_sentinel(nodes@[0]),
                forall|j: int| 0 <= j < di ==> spec_built_node(
                    flow0[j],
                    #[trigger] nodes@[j + 1],
                ),
                forall|k: int| 0 <= k < di ==> spec_buildable(#[trigger] flow0[k]),
                spec_edges_match(spec_all_edge_pairs(flow0), edges@),
            decreases work@.len(),
        {
            let d = work.remove(0);
            proof {
                assert(d == flow0.skip(di as int)[0]);
                assert(d == flow0[di as int]);
                assert(work@ =~= flow0.skip(di + 1));
            }
            match self.node_factory.create_node(d) {
                Ok(node) => {
                    nodes.push(node);
                    proof {
                        assert(di < flow0.len());
                    }
                    di += 1;
                },
                Err(e) => {
                    proof {
                        assert(!spec_buildable(flow0[di as int]));
                        lemma_first_build_error_at(flow0, di as int);
                        assert(!spec_all_buildable(flow0));
                    }
                    return Err(e);
                },
            }
        }
        proof {
            assert(flow0.skip(di as int).len() == 0);
            assert(di == flow0.len());
        }
        nodes.push(
            DecisionNode {
                id: String::from_str("response"),
                name: String::from_str("response"),
                kind: DecisionNodeKind::OutputNode,
            },
        );
        let graph = DecisionGraph { nodes, edges };
        proof {
            assert(spec_graph_nodes(flow0, graph.nodes@));
        }
        Ok(graph)
    }
}

/// The number of edges the decisions declare, summed in input order: one
/// per declared source plus one per declared target.
pub open spec fn spec_declared_edge_count(flow: Seq<Decision>) -> int
    decreases flow.len(),
{
    if flow.len() == 0 {
        0
    } else {
        spec_declared_edge_count(flow.drop_last()) + flow.last().sources@.len()
            + flow.last().targets@.len()
    }
}

/// Law: the edge builder derives exactly one edge per declared source
/// and one per declared target, over the whole list.
pub proof fn lemma_edge_count(flow: Seq<Decision>)
    ensures
        spec_all_edge_pairs(flow).len() == spec_declared_edge_count(flow),
    decreases flow.len(),
{
    if flow.len() > 0 {
        lemma_edge_count(flow.drop_last());
    }
}

/// Law: when every decision declares the same number of sources and
/// targets, a list of N decisions compiles to exactly
/// N * (sources + targets) edges — in particular, 0 edges when none are
/// declared, and 2 * N edges with one source and one target each.
pub proof fn lemma_uniform_adjacency_edge_count(flow: Seq<Decision>, nsrc: int, ntgt: int)
    requires
        forall|j: int| 0 <= j < flow.len() ==> (#[trigger] flow[j]).sources@.len() == nsrc
            && flow[j].targets@.len() == ntgt,
    ensures
        spec_all_edge_pairs(flow).len() == flow.len() * (nsrc + ntgt),
    decreases flow.len(),
{
    if flow.len() == 0 {
    } else {
        let prefix = flow.drop_last();
        assert forall|j: int| 0 <= j < prefix.len() implies (#[trigger] prefix[j]).sources@.len()
            == nsrc && prefix[j].targets@.len() == ntgt by {
            assert(prefix[j] == flow[j]);
        }
        lemma_uniform_adjacency_edge_count(prefix, nsrc, ntgt);
        assert(flow.last() == flow[flow.len() - 1]);
        assert(spec_edge_pairs(flow.last()).len() == nsrc + ntgt);
        assert((flow.len() - 1) * (nsrc + ntgt) + (nsrc + ntgt) == flow.len() * (nsrc + ntgt))
            by (nonlinear_arith);
    }
}

/// Law: the shape of a compiled graph. A graph compiled from N decisions
/// always has N + 2 nodes, and when every decision declares the same
/// number of sources and targets it has exactly N * (sources + targets)
/// edges: none without declared adjacency, 2 * N with one source and one
/// target each.
pub proof fn lemma_graph_shape(flow: Seq<Decision>, g: DecisionGraph, nsrc: int, ntgt: int)
    requires
        spec_graph_of(flow, g),
        forall|j: int| 0 <= j < flow.len() ==> (#[trigger] flow[j]).sources@.len() == nsrc
            && flow[j].targets@.len() == ntgt,
    ensures
        g.nodes@.len() == flow.len() + 2,
        g.edges@.len() == flow.len() * (nsrc + ntgt),
{
    lemma_uniform_adjacency_edge_count(flow, nsrc, ntgt);
}

/// Compiles a decision list with a fresh compiler; one call, one graph.
pub fn build(flow: Vec<Decision>) -> (r: Result<DecisionGraph, BuildError>)
    ensures
        spec_all_buildable(flow@) ==> (r matches Ok(g) && spec_graph_of(flow@, g)),
        !spec_all_buildable(flow@) ==> (r matches Err(e) && e@ == spec_first_build_error(flow@)),
{
    DecisionGraphBuilder::new().build(flow)
}

} // verus!
