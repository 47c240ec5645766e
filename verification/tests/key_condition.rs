use dynamodb_expression::{
    key, value, AttributeValue, ExpressionError, ExpressionNode, KeyConditionBuilder,
};

#[test]
fn key_equal() {
    let input = key("foo").equal(value(5));

    assert_eq!(
        input.build_tree().unwrap(),
        ExpressionNode::from_children_expression(
            vec![
                ExpressionNode::from_names(vec!["foo".to_owned()], "$n"),
                ExpressionNode::from_values(vec![AttributeValue::N("5".to_owned())], "$v"),
            ],
            "$c = $c"
        )
    );
}

#[test]
fn key_less_than() {
    let input = key("foo").less_than(value(5));

    assert_eq!(
        input.build_tree().unwrap(),
        ExpressionNode::from_children_expression(
            vec![
                ExpressionNode::from_names(vec!["foo".to_owned()], "$n"),
                ExpressionNode::from_values(vec![AttributeValue::N("5".to_owned())], "$v"),
            ],
            "$c < $c"
        )
    );
}

#[test]
fn key_less_than_equal() {
    let input = key("foo").less_than_equal(value(5));

    assert_eq!(
        input.build_tree().unwrap(),
        ExpressionNode::from_children_expression(
            vec![
                ExpressionNode::from_names(vec!["foo".to_owned()], "$n"),
                ExpressionNode::from_values(vec![AttributeValue::N("5".to_owned())], "$v"),
            ],
            "$c <= $c"
        )
    );
}

#[test]
fn key_greater_than() {
    let input = key("foo").greater_than(value(5));

    assert_eq!(
        input.build_tree().unwrap(),
        ExpressionNode::from_children_expression(
            vec![
                ExpressionNode::from_names(vec!["foo".to_owned()], "$n"),
                ExpressionNode::from_values(vec![AttributeValue::N("5".to_owned())], "$v"),
            ],
            "$c > $c"
        )
    );
}

#[test]
fn key_greater_than_equal() {
    let input = key("foo").greater_than_equal(value(5));

    assert_eq!(
        input.build_tree().unwrap(),
        ExpressionNode::from_children_expression(
            vec![
                ExpressionNode::from_names(vec!["foo".to_owned()], "$n"),
                ExpressionNode::from_values(vec![AttributeValue::N("5".to_owned())], "$v"),
            ],
            "$c >= $c"
        )
    );
}

#[test]
fn unset_key_condition_builder() {
    let input = KeyConditionBuilder::default();

    assert_eq!(
        input
            .build_tree()
            .map_err(|e| e.expression_error().unwrap())
            .unwrap_err(),
        ExpressionError::UnsetParameterError(
            "buildTree".to_owned(),
            "KeyConditionBuilder".to_owned()
        )
    );
}

#[test]
fn key_between() {
    let input = key("foo").between(value(5), value(10));

    assert_eq!(
        input.build_tree().unwrap(),
        ExpressionNode::from_children_expression(
            vec![
                ExpressionNode::from_names(vec!["foo".to_owned()], "$n"),
                ExpressionNode::from_values(vec![AttributeValue::N("5".to_owned())], "$v"),
                ExpressionNode::from_values(vec![AttributeValue::N("10".to_owned())], "$v"),
            ],
            "$c BETWEEN $c AND $c"
        )
    );
}

#[test]
fn key_begins_with() {
    let input = key("foo").begins_with("bar");

    assert_eq!(
        input.build_tree().unwrap(),
        ExpressionNode::from_children_expression(
            vec![
                ExpressionNode::from_names(vec!["foo".to_owned()], "$n"),
                ExpressionNode::from_values(vec![AttributeValue::S("bar".to_owned())], "$v"),
            ],
            "begins_with ($c, $c)"
        )
    );
}

#[test]
fn key_and() {
    let input = key("foo")
        .equal(value(5))
        .and(key("bar").begins_with("baz"));

    assert_eq!(
        input.build_tree().unwrap(),
        ExpressionNode::from_children_expression(
            vec![
                ExpressionNode::from_children_expression(
                    vec![
                        ExpressionNode::from_names(vec!["foo".to_owned()], "$n"),
                        ExpressionNode::from_values(
                            vec![AttributeValue::N("5".to_owned())],
                            "$v"
                        )
                    ],
                    "$c = $c",
                ),
                ExpressionNode::from_children_expression(
                    vec![
                        ExpressionNode::from_names(vec!["bar".to_owned()], "$n"),
                        ExpressionNode::from_values(
                            vec![AttributeValue::S("baz".to_owned())],
                            "$v"
                        ),
                    ],
                    "begins_with ($c, $c)",
                )
            ],
            "($c) AND ($c)"
        )
    );
}

#[test]
fn first_condition_not_equal() {
    let input = key("foo")
        .less_than(value(5))
        .and(key("bar").begins_with("baz"));

    assert_eq!(
        input.build_tree().unwrap_err().message(),
        "buildKeyCondition error: invalid key condition constructed"
    );
}

#[test]
fn more_than_one_condition() {
    let input = key("foo").equal(value(5)).and(
        key("bar")
            .equal(value(1))
            .and(key("baz").begins_with("yar")),
    );

    assert_eq!(
        input.build_tree().unwrap_err().message(),
        "buildKeyCondition error: invalid key condition constructed"
    );
}

#[test]
fn key_condition_operand_error() {
    let input = key("").equal(value("yikes".to_owned()));

    assert_eq!(
        input
            .build_tree()
            .map_err(|e| e.expression_error().unwrap())
            .unwrap_err(),
        ExpressionError::UnsetParameterError(
            "BuildOperand".to_owned(),
            "KeyBuilder".to_owned()
        )
    );
}

#[test]
fn key_condition_build_child_nodes() {
    let input = key("foo")
        .equal(value("bar"))
        .and(key("baz").less_than(value(10)));

    assert_eq!(
        input.build_child_nodes().unwrap(),
        vec![
            ExpressionNode::from_children_expression(
                vec![
                    ExpressionNode::from_names(vec!["foo".to_owned()], "$n"),
                    ExpressionNode::from_values(
                        vec![AttributeValue::S("bar".to_owned())],
                        "$v"
                    )
                ],
                "$c = $c"
            ),
            ExpressionNode::from_children_expression(
                vec![
                    ExpressionNode::from_names(vec!["baz".to_owned()], "$n"),
                    ExpressionNode::from_values(vec![AttributeValue::N("10".to_owned())], "$v")
                ],
                "$c < $c"
            ),
        ],
    );
}
