use flow::{build, BuildError, Decision, DecisionGraphBuilder, DecisionNodeKind, DecisionRef};
use flow::{DecisionTableNodeBuilder, EdgeBuilder, ExpressionNodeBuilder, FunctionNodeBuilder};
use flow::{HitPolicy, NodeFactory};

fn decision(id: &str, kind: &str) -> Decision {
    Decision {
        id: id.to_string(),
        kind: kind.to_string(),
        rules: vec![],
        expression: String::new(),
        function: String::new(),
        inputs: vec![],
        outputs: vec![],
        sources: vec![],
        targets: vec![],
    }
}

fn strings(names: &[&str]) -> Vec<String> {
    names.iter().map(|n| n.to_string()).collect()
}

#[test]
fn empty_flow_compiles_to_two_sentinels_and_no_edges() {
    let graph = build(vec![]).expect("an empty flow must compile");
    assert_eq!(graph.nodes.len(), 2);
    assert_eq!(graph.edges.len(), 0);
    assert_eq!(graph.nodes[0].id, "request");
    assert_eq!(graph.nodes[0].name, "request");
    assert!(matches!(graph.nodes[0].kind, DecisionNodeKind::InputNode));
    assert_eq!(graph.nodes[1].id, "response");
    assert_eq!(graph.nodes[1].name, "response");
    assert!(matches!(graph.nodes[1].kind, DecisionNodeKind::OutputNode));
}

#[test]
fn n_specs_without_adjacency_compile_to_n_plus_two_nodes_and_no_edges() {
    let flow = vec![
        decision("a", "function"),
        decision("b", "function"),
        decision("c", "function"),
    ];
    let graph = build(flow).expect("the flow must compile");
    assert_eq!(graph.nodes.len(), 5);
    assert_eq!(graph.edges.len(), 0);
    assert_eq!(graph.nodes[1].id, "a");
    assert_eq!(graph.nodes[2].id, "b");
    assert_eq!(graph.nodes[3].id, "c");
}

#[test]
fn one_source_and_one_target_each_compile_to_two_n_edges() {
    let mut flow = Vec::new();
    for id in ["a", "b", "c"] {
        let mut d = decision(id, "function");
        d.sources = strings(&["request"]);
        d.targets = strings(&["response"]);
        flow.push(d);
    }
    let graph = build(flow).expect("the flow must compile");
    assert_eq!(graph.nodes.len(), 5);
    assert_eq!(graph.edges.len(), 6);
    // Per decision: first its source edge, then its target edge.
    assert_eq!(graph.edges[0].source_id, "request");
    assert_eq!(graph.edges[0].target_id, "a");
    assert_eq!(graph.edges[1].source_id, "a");
    assert_eq!(graph.edges[1].target_id, "response");
    assert_eq!(graph.edges[2].source_id, "request");
    assert_eq!(graph.edges[2].target_id, "b");
    for edge in &graph.edges {
        assert_eq!(edge.id, "");
        assert_eq!(edge.source_handle.as_deref(), Some(""));
    }
}

#[test]
fn unknown_kind_is_a_build_error_not_a_panic() {
    let flow = vec![decision("a", "function"), decision("b", "mystery")];
    match build(flow) {
        Err(BuildError::UnknownKind(kind)) => assert_eq!(kind, "mystery"),
        other => panic!("expected an unknown-kind error, got {:?}", other),
    }
}

#[test]
fn expression_decision_without_inputs_is_a_build_error() {
    let mut d = decision("calc", "expression");
    d.expression = "price * 2".to_string();
    match build(vec![d]) {
        Err(BuildError::EmptyInputs(id)) => assert_eq!(id, "calc"),
        other => panic!("expected an empty-inputs error, got {:?}", other),
    }
}

#[test]
fn expression_node_is_keyed_by_the_first_input() {
    let mut d = decision("calc", "expression");
    d.expression = "price * 2".to_string();
    d.inputs = strings(&["price", "ignored"]);
    let node = ExpressionNodeBuilder
        .build(d)
        .expect("an expression decision with inputs must build");
    assert_eq!(node.id, "calc");
    assert_eq!(node.name, "calc");
    match node.kind {
        DecisionNodeKind::ExpressionNode { expressions } => {
            assert_eq!(expressions.len(), 1);
            assert_eq!(expressions[0].id, "price");
            assert_eq!(expressions[0].key, "price");
            assert_eq!(expressions[0].value, "price * 2");
        }
        other => panic!("expected an expression node, got {:?}", other),
    }
}

#[test]
fn table_node_wraps_rules_and_describes_fields() {
    let mut d = decision("routing", "table");
    d.rules = vec![
        vec![
            ("region".to_string(), "EU".to_string()),
            ("route".to_string(), "fast".to_string()),
        ],
        vec![
            ("region".to_string(), "US".to_string()),
            ("route".to_string(), "slow".to_string()),
        ],
    ];
    d.inputs = strings(&["region"]);
    d.outputs = strings(&["route"]);
    let node = DecisionTableNodeBuilder.build(d);
    assert_eq!(node.id, "routing");
    assert_eq!(node.name, "routing");
    match node.kind {
        DecisionNodeKind::DecisionTableNode { hit_policy, rules, inputs, outputs } => {
            assert_eq!(hit_policy, HitPolicy::First);
            assert_eq!(rules.len(), 2);
            assert_eq!(rules[0][1], ("route".to_string(), "fast".to_string()));
            assert_eq!(inputs.len(), 1);
            assert_eq!(inputs[0].id, "region");
            assert_eq!(inputs[0].name, "region");
            assert_eq!(inputs[0].field.as_deref(), Some("region"));
            assert_eq!(outputs.len(), 1);
            assert_eq!(outputs[0].id, "route");
            assert_eq!(outputs[0].name, "route");
            assert_eq!(outputs[0].field, "route");
        }
        other => panic!("expected a decision-table node, got {:?}", other),
    }
}

#[test]
fn function_node_wraps_the_source_verbatim() {
    let mut d = decision("handler", "function");
    d.function = "const handler = (input) => input;".to_string();
    let node = FunctionNodeBuilder.build(d);
    assert_eq!(node.id, "handler");
    match node.kind {
        DecisionNodeKind::FunctionNode { source } => {
            assert_eq!(source, "const handler = (input) => input;");
        }
        other => panic!("expected a function node, got {:?}", other),
    }
}

#[test]
fn factory_dispatches_by_kind() {
    let factory = NodeFactory::new();
    let table = factory.create_node(decision("t", "table")).unwrap();
    assert!(matches!(table.kind, DecisionNodeKind::DecisionTableNode { .. }));
    let function = factory.create_node(decision("f", "function")).unwrap();
    assert!(matches!(function.kind, DecisionNodeKind::FunctionNode { .. }));
    match factory.create_node(decision("x", "script")) {
        Err(BuildError::UnknownKind(kind)) => assert_eq!(kind, "script"),
        other => panic!("expected an unknown-kind error, got {:?}", other),
    }
}

#[test]
fn edge_builder_emits_sources_then_targets_per_decision() {
    let mut first = decision("a", "function");
    first.sources = strings(&["s1", "s2"]);
    first.targets = strings(&["t1"]);
    let mut second = decision("b", "function");
    second.targets = strings(&["t2"]);
    let edges = EdgeBuilder::build_edges(&vec![first, second]);
    let endpoints: Vec<(&str, &str)> = edges
        .iter()
        .map(|e| (e.source_id.as_str(), e.target_id.as_str()))
        .collect();
    assert_eq!(
        endpoints,
        vec![("s1", "a"), ("s2", "a"), ("a", "t1"), ("b", "t2")]
    );
}

#[test]
fn dangling_edge_endpoints_are_kept_unchecked() {
    let mut d = decision("a", "function");
    d.targets = strings(&["nowhere"]);
    let graph = build(vec![d]).expect("the flow must compile");
    assert_eq!(graph.edges.len(), 1);
    assert_eq!(graph.edges[0].target_id, "nowhere");
}

#[test]
fn builder_instance_compiles_like_the_free_function() {
    let builder = DecisionGraphBuilder::new();
    let graph = builder.build(vec![decision("only", "table")]).unwrap();
    assert_eq!(graph.nodes.len(), 3);
    assert_eq!(graph.nodes[1].id, "only");
}

#[test]
fn assemble_resolves_a_raw_record() {
    let raw = DecisionRef {
        id: "score".to_string(),
        kind: "expression".to_string(),
        rules: "base + bonus".to_string(),
        inputs: Some(strings(&["base"])),
        outputs: None,
        sources: strings(&["request"]),
        targets: strings(&["response"]),
    };
    let d = Decision::assemble(raw, vec![], None);
    assert_eq!(d.id, "score");
    assert_eq!(d.kind, "expression");
    assert_eq!(d.expression, "base + bonus");
    assert_eq!(d.function, "");
    assert_eq!(d.inputs, vec!["base".to_string()]);
    assert_eq!(d.outputs, Vec::<String>::new());
    assert_eq!(d.sources, vec!["request".to_string()]);
    assert_eq!(d.targets, vec!["response".to_string()]);
}

#[test]
fn assemble_keeps_function_source_only_for_function_kind() {
    let raw_function = DecisionRef {
        id: "f".to_string(),
        kind: "function".to_string(),
        rules: "handler.js".to_string(),
        inputs: None,
        outputs: None,
        sources: vec![],
        targets: vec![],
    };
    let d = Decision::assemble(raw_function, vec![], Some("body".to_string()));
    assert_eq!(d.function, "body");
    let raw_table = DecisionRef {
        id: "t".to_string(),
        kind: "table".to_string(),
        rules: "rules.csv".to_string(),
        inputs: None,
        outputs: None,
        sources: vec![],
        targets: vec![],
    };
    let d = Decision::assemble(raw_table, vec![], Some("ignored".to_string()));
    assert_eq!(d.function, "");
}
