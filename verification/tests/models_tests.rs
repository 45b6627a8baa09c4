use flow::models::BinomialTreeModel;

#[test]
fn binomial_tree_model_keeps_its_step_count() {
    let model = BinomialTreeModel::new(1000);
    assert_eq!(model.steps, 1000);
    let fine = BinomialTreeModel::new(10_000);
    assert_eq!(fine.steps, 10_000);
}
