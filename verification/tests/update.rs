use dynamodb_expression::update;
use dynamodb_expression::{
    name, value, AttributeValue, ExpressionError, ExpressionNode, ListAppendBuilder,
    MinusBuilder, OperandBuilder, OperationBuilder, OperationMode, PlusBuilder, SetValueBuilder,
    UpdateBuilder,
};

#[test]
fn set_operation() {
    let input = OperationBuilder {
        name: name("foo"),
        value: Some(value(5).into_operand()),
        mode: OperationMode::Assign,
    };

    assert_eq!(
        input.build_operation().unwrap(),
        ExpressionNode::from_children_expression(
            vec![
                ExpressionNode::from_names(vec!["foo".to_owned()], "$n"),
                ExpressionNode::from_values(
                    vec![AttributeValue::N("5".to_owned())],
                    "$v"
                )
            ],
            "$c = $c"
        )
    );
}

#[test]
fn add_operation() {
    let input = OperationBuilder {
        name: name("foo"),
        value: Some(value(5).into_operand()),
        mode: OperationMode::Add,
    };

    assert_eq!(
        input.build_operation().unwrap(),
        ExpressionNode::from_children_expression(
            vec![
                ExpressionNode::from_names(vec!["foo".to_owned()], "$n"),
                ExpressionNode::from_values(
                    vec![AttributeValue::N("5".to_owned())],
                    "$v"
                )
            ],
            "$c $c"
        )
    );
}

#[test]
fn remove_operation() {
    let input = OperationBuilder {
        name: name("foo"),
        value: None,
        mode: OperationMode::Remove,
    };

    assert_eq!(
        input.build_operation().unwrap(),
        ExpressionNode::from_children_expression(
            vec![ExpressionNode::from_names(vec!["foo".to_owned()], "$n")],
            "$c"
        )
    );
}

#[test]
fn invalid_operand() {
    let input = OperationBuilder {
        name: name(""),
        value: None,
        mode: OperationMode::Remove,
    };

    assert_eq!(
        input
            .build_operation()
            .map_err(|e| e.expression_error().unwrap())
            .unwrap_err(),
        ExpressionError::UnsetParameterError(
            "BuildOperand".to_owned(),
            "NameBuilder".to_owned()
        )
    );
}

#[test]
fn set_update() {
    let input = update::set(name("foo"), value(5));

    assert_eq!(
        input.build_tree().unwrap(),
        ExpressionNode::from_children_expression(
            vec![ExpressionNode::from_children_expression(
                vec![ExpressionNode::from_children_expression(
                    vec![
                        ExpressionNode::from_names(vec!["foo".to_owned()], "$n"),
                        ExpressionNode::from_values(
                            vec![AttributeValue::N("5".to_owned())],
                            "$v"
                        ),
                    ],
                    "$c = $c"
                )],
                "$c"
            )],
            "SET $c\n"
        )
    );
}

#[test]
fn remove_update() {
    let input = update::remove(name("foo"));

    assert_eq!(
        input.build_tree().unwrap(),
        ExpressionNode::from_children_expression(
            vec![ExpressionNode::from_children_expression(
                vec![ExpressionNode::from_children_expression(
                    vec![ExpressionNode::from_names(vec!["foo".to_owned()], "$n")],
                    "$c"
                )],
                "$c"
            )],
            "REMOVE $c\n"
        )
    );
}

#[test]
fn add_update() {
    let input = update::add(name("foo"), value(5));

    assert_eq!(
        input.build_tree().unwrap(),
        ExpressionNode::from_children_expression(
            vec![ExpressionNode::from_children_expression(
                vec![ExpressionNode::from_children_expression(
                    vec![
                        ExpressionNode::from_names(vec!["foo".to_owned()], "$n"),
                        ExpressionNode::from_values(
                            vec![AttributeValue::N("5".to_owned())],
                            "$v"
                        ),
                    ],
                    "$c $c"
                )],
                "$c"
            )],
            "ADD $c\n"
        )
    );
}

#[test]
fn delete_update() {
    let input = update::delete(name("foo"), value(5));

    assert_eq!(
        input.build_tree().unwrap(),
        ExpressionNode::from_children_expression(
            vec![ExpressionNode::from_children_expression(
                vec![ExpressionNode::from_children_expression(
                    vec![
                        ExpressionNode::from_names(vec!["foo".to_owned()], "$n"),
                        ExpressionNode::from_values(
                            vec![AttributeValue::N("5".to_owned())],
                            "$v"
                        ),
                    ],
                    "$c $c"
                )],
                "$c"
            )],
            "DELETE $c\n"
        )
    );
}

#[test]
fn multiple_sets() {
    let input = update::set(name("foo"), value(5))
        .set(name("bar"), value(6))
        .set(name("baz"), name("qux"));

    assert_eq!(
        input.build_tree().unwrap(),
        ExpressionNode::from_children_expression(
            vec![ExpressionNode::from_children_expression(
                vec![
                    ExpressionNode::from_children_expression(
                        vec![
                            ExpressionNode::from_names(vec!["foo".to_owned()], "$n"),
                            ExpressionNode::from_values(
                                vec![AttributeValue::N("5".to_owned())],
                                "$v"
                            ),
                        ],
                        "$c = $c"
                    ),
                    ExpressionNode::from_children_expression(
                        vec![
                            ExpressionNode::from_names(vec!["bar".to_owned()], "$n"),
                            ExpressionNode::from_values(
                                vec![AttributeValue::N("6".to_owned())],
                                "$v"
                            ),
                        ],
                        "$c = $c"
                    ),
                    ExpressionNode::from_children_expression(
                        vec![
                            ExpressionNode::from_names(vec!["baz".to_owned()], "$n"),
                            ExpressionNode::from_names(vec!["qux".to_owned()], "$n"),
                        ],
                        "$c = $c"
                    )
                ],
                "$c, $c, $c"
            )],
            "SET $c\n"
        )
    );
}

#[test]
fn empty_update_builder() {
    let input = UpdateBuilder::default();

    assert_eq!(
        input
            .build_tree()
            .map_err(|e| e.expression_error().unwrap())
            .unwrap_err(),
        ExpressionError::UnsetParameterError(
            "buildTree".to_owned(),
            "UpdateBuilder".to_owned()
        )
    );
}

#[test]
fn name_plus_name() {
    let input = name("foo").plus(name("bar"));

    assert_eq!(
        input.build_operand().unwrap().expression_node,
        ExpressionNode::from_children_expression(
            vec![
                ExpressionNode::from_names(vec!["foo".to_owned()], "$n"),
                ExpressionNode::from_names(vec!["bar".to_owned()], "$n")
            ],
            "$c + $c"
        )
    );
}

#[test]
fn name_minus_name() {
    let input = name("foo").minus(name("bar"));

    assert_eq!(
        input.build_operand().unwrap().expression_node,
        ExpressionNode::from_children_expression(
            vec![
                ExpressionNode::from_names(vec!["foo".to_owned()], "$n"),
                ExpressionNode::from_names(vec!["bar".to_owned()], "$n")
            ],
            "$c - $c"
        )
    );
}

#[test]
fn list_append_name_and_name() {
    let input = name("foo").list_append(name("bar"));

    assert_eq!(
        input.build_operand().unwrap().expression_node,
        ExpressionNode::from_children_expression(
            vec![
                ExpressionNode::from_names(vec!["foo".to_owned()], "$n"),
                ExpressionNode::from_names(vec!["bar".to_owned()], "$n")
            ],
            "list_append($c, $c)"
        )
    );
}

#[test]
fn if_not_exists_name_and_name() {
    let input = name("foo").if_not_exists(name("bar"));

    assert_eq!(
        input.build_operand().unwrap().expression_node,
        ExpressionNode::from_children_expression(
            vec![
                ExpressionNode::from_names(vec!["foo".to_owned()], "$n"),
                ExpressionNode::from_names(vec!["bar".to_owned()], "$n")
            ],
            "if_not_exists($c, $c)"
        )
    );
}

#[test]
fn value_plus_name() {
    let input = value(5).plus(name("bar"));

    assert_eq!(
        input.build_operand().unwrap().expression_node,
        ExpressionNode::from_children_expression(
            vec![
                ExpressionNode::from_values(
                    vec![AttributeValue::N("5".to_owned())],
                    "$v"
                ),
                ExpressionNode::from_names(vec!["bar".to_owned()], "$n")
            ],
            "$c + $c"
        )
    );
}

#[test]
fn value_minus_name() {
    let input = value(5).minus(name("bar"));

    assert_eq!(
        input.build_operand().unwrap().expression_node,
        ExpressionNode::from_children_expression(
            vec![
                ExpressionNode::from_values(
                    vec![AttributeValue::N("5".to_owned())],
                    "$v"
                ),
                ExpressionNode::from_names(vec!["bar".to_owned()], "$n")
            ],
            "$c - $c"
        )
    );
}

#[test]
fn unset_set_value_builder() {
    let input = SetValueBuilder::default();

    assert_eq!(
        input
            .build_operand()
            .map_err(|e| e.expression_error().unwrap())
            .unwrap_err(),
        ExpressionError::UnsetParameterError(
            "BuildOperand".to_owned(),
            "SetValueBuilder".to_owned()
        )
    );
}

#[test]
fn invalid_operand_left() {
    let input = name("").plus(name("foo"));

    assert_eq!(
        input
            .build_operand()
            .map_err(|e| e.expression_error().unwrap())
            .unwrap_err(),
        ExpressionError::UnsetParameterError(
            "BuildOperand".to_owned(),
            "NameBuilder".to_owned()
        )
    );
}

#[test]
fn invalid_operand_right() {
    let input = name("foo").plus(name(""));

    assert_eq!(
        input
            .build_operand()
            .map_err(|e| e.expression_error().unwrap())
            .unwrap_err(),
        ExpressionError::UnsetParameterError(
            "BuildOperand".to_owned(),
            "NameBuilder".to_owned()
        )
    );
}

#[test]
fn set_operand_builder() {
    let input = vec![
        OperationBuilder {
            mode: OperationMode::Assign,
            name: name("foo"),
            value: Some(value(5).into_operand()),
        },
        OperationBuilder {
            mode: OperationMode::Assign,
            name: name("bar"),
            value: Some(value(6).into_operand()),
        },
        OperationBuilder {
            mode: OperationMode::Assign,
            name: name("baz"),
            value: Some(value(7).into_operand()),
        },
        OperationBuilder {
            mode: OperationMode::Assign,
            name: name("qux"),
            value: Some(value(8).into_operand()),
        },
    ];

    assert_eq!(
        OperationBuilder::build_child_nodes(&input).unwrap(),
        ExpressionNode::from_children_expression(
            vec![
                ExpressionNode::from_children_expression(
                    vec![
                        ExpressionNode::from_names(vec!["foo".to_owned()], "$n"),
                        ExpressionNode::from_values(
                            vec![AttributeValue::N("5".to_owned())],
                            "$v"
                        ),
                    ],
                    "$c = $c"
                ),
                ExpressionNode::from_children_expression(
                    vec![
                        ExpressionNode::from_names(vec!["bar".to_owned()], "$n"),
                        ExpressionNode::from_values(
                            vec![AttributeValue::N("6".to_owned())],
                            "$v"
                        ),
                    ],
                    "$c = $c"
                ),
                ExpressionNode::from_children_expression(
                    vec![
                        ExpressionNode::from_names(vec!["baz".to_owned()], "$n"),
                        ExpressionNode::from_values(
                            vec![AttributeValue::N("7".to_owned())],
                            "$v"
                        ),
                    ],
                    "$c = $c"
                ),
                ExpressionNode::from_children_expression(
                    vec![
                        ExpressionNode::from_names(vec!["qux".to_owned()], "$n"),
                        ExpressionNode::from_values(
                            vec![AttributeValue::N("8".to_owned())],
                            "$v"
                        ),
                    ],
                    "$c = $c"
                )
            ],
            "$c, $c, $c, $c"
        )
    );
}

#[test]
fn empty_operation_builder_list() {
    let input = vec![OperationBuilder::default()];

    assert_eq!(
        OperationBuilder::build_child_nodes(&input)
            .map_err(|e| e.expression_error().unwrap())
            .unwrap_err(),
        ExpressionError::UnsetParameterError(
            "BuildOperand".to_owned(),
            "NameBuilder".to_owned()
        )
    );
}
