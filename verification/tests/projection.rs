use dynamodb_expression::{
    name, names_list, ExpressionError, ExpressionNode, ProjectionBuilder,
};

#[test]
fn names_list_function_call() {
    let input = names_list(name("foo"), vec![name("bar")]);

    assert_eq!(
        input.build_tree().unwrap(),
        ExpressionNode::from_children_expression(
            vec![
                ExpressionNode::from_names(vec!["foo".to_owned()], "$n"),
                ExpressionNode::from_names(vec!["bar".to_owned()], "$n")
            ],
            "$c, $c"
        )
    );
}

#[test]
fn names_list_method_call() {
    let input = name("foo").names_list(vec![name("bar")]);

    assert_eq!(
        input.build_tree().unwrap(),
        ExpressionNode::from_children_expression(
            vec![
                ExpressionNode::from_names(vec!["foo".to_owned()], "$n"),
                ExpressionNode::from_names(vec!["bar".to_owned()], "$n"),
            ],
            "$c, $c"
        )
    );
}

#[test]
fn add_name() {
    let input = name("foo")
        .names_list(vec![name("bar")])
        .add_names(vec![name("baz"), name("qux")]);

    assert_eq!(
        input.build_tree().unwrap(),
        ExpressionNode::from_children_expression(
            vec![
                ExpressionNode::from_names(vec!["foo".to_owned()], "$n"),
                ExpressionNode::from_names(vec!["bar".to_owned()], "$n"),
                ExpressionNode::from_names(vec!["baz".to_owned()], "$n"),
                ExpressionNode::from_names(vec!["qux".to_owned()], "$n"),
            ],
            "$c, $c, $c, $c"
        )
    );
}

#[test]
fn build_projection_3() {
    let input = names_list(name("foo"), vec![name("bar"), name("baz")]);

    assert_eq!(input.build_tree().unwrap().fmt_expression, "$c, $c, $c");
}

#[test]
fn build_projection_5() {
    let input = ProjectionBuilder::default();

    assert_eq!(
        input
            .build_tree()
            .map_err(|e| e.expression_error().unwrap())
            .unwrap_err(),
        ExpressionError::UnsetParameterError(
            "buildTree".to_owned(),
            "ProjectionBuilder".to_owned()
        )
    );
}

#[test]
fn projection_build_child_nodes() {
    let input = names_list(name("foo"), vec![name("bar"), name("baz")]);

    assert_eq!(
        input.build_tree().unwrap().children,
        vec![
            ExpressionNode::from_names(vec!["foo".to_owned()], "$n"),
            ExpressionNode::from_names(vec!["bar".to_owned()], "$n"),
            ExpressionNode::from_names(vec!["baz".to_owned()], "$n"),
        ],
    );
}

#[test]
fn projection_operand_error() {
    let input = names_list(name(""), vec![]);

    assert_eq!(
        input
            .build_tree()
            .map_err(|e| e.expression_error().unwrap())
            .unwrap_err(),
        ExpressionError::UnsetParameterError(
            "BuildOperand".to_owned(),
            "NameBuilder".to_owned()
        )
    );
}
