use dynamodb_expression::condition::{and, equal, is_in, or};
use dynamodb_expression::key_condition::{
    key_and, key_begins_with, key_between, key_equal, key_greater_than,
    key_greater_than_equal, key_less_than, key_less_than_equal,
};
use dynamodb_expression::operand::{if_not_exists, list_append, minus, plus, size};
use dynamodb_expression::update;
use dynamodb_expression::{
    add_names, attribute_type, begins_with, between, contains, greater_than,
    greater_than_equal, key, less_than, less_than_equal, name, names_list, not_equal, value,
    AliasList, AttributeValue, BetweenBuilder, BuildError, Builder, ConditionBuilder,
    DynamoDbAttributeType, EqualBuilder, Expression, ExpressionError, ExpressionNode,
    ExpressionType, InBuilder, KeyConditionBuilder, LessThanBuilder, Operation,
    OperandBuilder, OperationBuilder, OperationMode, PlusBuilder, ProjectionBuilder, Subject,
    UpdateBuilder, ValueBuilderImpl,
};

fn names(node: &[&str], template: &str) -> ExpressionNode {
    ExpressionNode::from_names(node.iter().map(|s| s.to_string()).collect(), template)
}

fn number(text: &str) -> ExpressionNode {
    ExpressionNode::from_values(vec![AttributeValue::N(text.to_owned())], "$v")
}

fn string(text: &str) -> ExpressionNode {
    ExpressionNode::from_values(vec![AttributeValue::S(text.to_owned())], "$v")
}

fn render(node: &ExpressionNode) -> (Result<String, BuildError>, AliasList) {
    let mut aliases = AliasList::default();
    let text = node.build_expression_string(&mut aliases);
    (text, aliases)
}

#[test]
fn building_twice_gives_the_same_expression() {
    let make = || {
        Builder::new()
            .with_condition(name("a.b[3]").equal(value(5)).and(name("c").contains("x")))
            .with_filter(name("a").size().between(value(1), value(9)))
            .with_projection(names_list(name("c"), vec![name("a.b")]))
            .with_key_condition(key("k").equal(value("v")).and(key("s").begins_with("p")))
            .with_update(update::set(name("a"), name("b").plus(value(1))).remove(name("c")))
    };

    let first = make().build().unwrap();
    let second = make().build().unwrap();

    assert_eq!(first, second);
    assert_eq!(
        first.condition().unwrap(),
        "(#0.#1[3] = :0) AND (contains (#2, :1))"
    );
    assert_eq!(first.filter().unwrap(), "size (#0) BETWEEN :2 AND :3");
    assert_eq!(first.projection().unwrap(), "#2, #0.#1");
    assert_eq!(
        first.key_condition().unwrap(),
        "(#3 = :4) AND (begins_with (#4, :5))"
    );
    assert_eq!(first.update().unwrap(), "SET #0 = #1 + :6\nREMOVE #2\n");
}

#[test]
fn rendering_twice_gives_the_same_text() {
    let node = name("foo.bar[0]")
        .equal(value("x"))
        .build_tree()
        .unwrap();

    let (first, first_aliases) = render(&node);
    let (second, second_aliases) = render(&node.clone());

    assert_eq!(first.unwrap(), "#0.#1[0] = :0");
    assert_eq!(second.unwrap(), "#0.#1[0] = :0");
    assert_eq!(first_aliases, second_aliases);
}

#[test]
fn one_name_in_two_conditions_shares_its_placeholder() {
    let expression = Builder::new()
        .with_condition(name("foo").equal(value(1)))
        .with_filter(name("foo").less_than(value(2)))
        .build()
        .unwrap();

    assert_eq!(expression.condition().unwrap(), "#0 = :0");
    assert_eq!(expression.filter().unwrap(), "#0 < :1");
    assert_eq!(
        *expression.names(),
        Some(vec![("#0".to_owned(), "foo".to_owned())])
    );
}

#[test]
fn one_literal_in_two_conditions_gets_two_placeholders() {
    let expression = Builder::new()
        .with_condition(name("foo").equal(value(5)))
        .with_filter(name("bar").equal(value(5)))
        .build()
        .unwrap();

    assert_eq!(expression.condition().unwrap(), "#0 = :0");
    assert_eq!(expression.filter().unwrap(), "#1 = :1");
    assert_eq!(
        *expression.values(),
        Some(vec![
            (":0".to_owned(), AttributeValue::N("5".to_owned())),
            (":1".to_owned(), AttributeValue::N("5".to_owned())),
        ])
    );
}

#[test]
fn alias_path_keeps_the_placeholder_of_a_known_name() {
    let mut aliases = AliasList::default();

    assert_eq!(aliases.alias_path("foo"), "#0");
    assert_eq!(aliases.alias_path("bar"), "#1");
    assert_eq!(aliases.alias_path("foo".to_owned()), "#0");
    assert_eq!(aliases.alias_path("bar"), "#1");
    assert_eq!(aliases.names, vec!["foo".to_owned(), "bar".to_owned()]);
}

#[test]
fn alias_value_never_shares_a_placeholder() {
    let mut aliases = AliasList::default();

    assert_eq!(aliases.alias_value(AttributeValue::Bool(true)), ":0");
    assert_eq!(aliases.alias_value(AttributeValue::Bool(true)), ":1");
    assert_eq!(
        aliases.values,
        vec![AttributeValue::Bool(true), AttributeValue::Bool(true)]
    );
}

#[test]
fn placeholders_count_in_decimal() {
    let mut aliases = AliasList::default();
    let mut last_name = String::new();
    let mut last_value = String::new();
    for i in 0..124 {
        last_name = aliases.alias_path(format!("n{}", i));
        last_value = aliases.alias_value(AttributeValue::Null(true));
    }

    assert_eq!(last_name, "#123");
    assert_eq!(last_value, ":123");
    assert_eq!(aliases.alias_path("n10"), "#10");
    assert_eq!(aliases.alias_path("n100"), "#100");
}

#[test]
fn empty_collections_become_null() {
    assert_eq!(
        Vec::<String>::new().attribute_value(),
        AttributeValue::Null(true)
    );
    assert_eq!(
        Vec::<&str>::new().attribute_value(),
        AttributeValue::Null(true)
    );
    assert_eq!(
        Vec::<dynamodb_expression::ValueBuilder>::new().attribute_value(),
        AttributeValue::Null(true)
    );
    assert_eq!(
        Vec::<(String, dynamodb_expression::ValueBuilder)>::new().attribute_value(),
        AttributeValue::Null(true)
    );
}

#[test]
fn collections_with_members_keep_their_kind() {
    assert_eq!(
        value(vec!["a", "b"]).attribute_value(),
        AttributeValue::Ss(vec!["a".to_owned(), "b".to_owned()])
    );
    assert_eq!(
        value(vec!["a".to_owned()]).attribute_value(),
        AttributeValue::Ss(vec!["a".to_owned()])
    );
    assert_eq!(
        value(vec![value(1), value("x"), value(true)]).attribute_value(),
        AttributeValue::L(vec![
            AttributeValue::N("1".to_owned()),
            AttributeValue::S("x".to_owned()),
            AttributeValue::Bool(true),
        ])
    );
    assert_eq!(
        value(vec![
            ("k".to_owned(), value(Vec::<String>::new())),
            ("l".to_owned(), value(vec![value(2)])),
        ])
        .attribute_value(),
        AttributeValue::M(vec![
            ("k".to_owned(), AttributeValue::Null(true)),
            (
                "l".to_owned(),
                AttributeValue::L(vec![AttributeValue::N("2".to_owned())])
            ),
        ])
    );
}

#[test]
fn numbers_are_written_in_decimal() {
    assert_eq!(0i64.attribute_value(), AttributeValue::N("0".to_owned()));
    assert_eq!(7i64.attribute_value(), AttributeValue::N("7".to_owned()));
    assert_eq!(
        (-5i64).attribute_value(),
        AttributeValue::N("-5".to_owned())
    );
    assert_eq!(
        1234567890i64.attribute_value(),
        AttributeValue::N("1234567890".to_owned())
    );
    assert_eq!(
        i64::MAX.attribute_value(),
        AttributeValue::N("9223372036854775807".to_owned())
    );
    assert_eq!(
        i64::MIN.attribute_value(),
        AttributeValue::N("-9223372036854775808".to_owned())
    );
}

#[test]
fn scalars_keep_their_kind() {
    assert_eq!(true.attribute_value(), AttributeValue::Bool(true));
    assert_eq!(value(false).attribute_value(), AttributeValue::Bool(false));
    assert_eq!("a b".attribute_value(), AttributeValue::S("a b".to_owned()));
    assert_eq!(
        String::new().attribute_value(),
        AttributeValue::S(String::new())
    );
    assert_eq!(
        value(vec![0u8, 7, 255]).attribute_value(),
        AttributeValue::B(vec![0, 7, 255])
    );
    assert_eq!(
        value(Vec::<u8>::new()).attribute_value(),
        AttributeValue::B(vec![])
    );
}

#[test]
fn a_raw_attribute_value_passes_through() {
    let raw = AttributeValue::M(vec![(
        "blob".to_owned(),
        AttributeValue::Bs(vec![vec![1, 2], vec![]]),
    )]);

    assert_eq!(value(raw.clone()).attribute_value(), raw);
    assert_eq!(
        value(AttributeValue::L(vec![])).attribute_value(),
        AttributeValue::L(vec![])
    );
}

#[test]
fn unset_builders_fail_with_their_own_subject() {
    let unset = |subject: &str| {
        ExpressionError::UnsetParameterError("buildTree".to_owned(), subject.to_owned())
    };

    assert_eq!(
        ConditionBuilder::default().build_tree().unwrap_err(),
        BuildError::UnsetParameter(Operation::BuildTree, Subject::ConditionBuilder)
    );
    assert_eq!(
        Builder::new()
            .with_filter(ConditionBuilder::default())
            .build()
            .unwrap_err()
            .expression_error(),
        Some(unset("ConditionBuilder"))
    );
    assert_eq!(
        Builder::new()
            .with_key_condition(KeyConditionBuilder::default())
            .build()
            .unwrap_err()
            .expression_error(),
        Some(unset("KeyConditionBuilder"))
    );
    assert_eq!(
        Builder::new()
            .with_projection(ProjectionBuilder::default())
            .build()
            .unwrap_err()
            .expression_error(),
        Some(unset("ProjectionBuilder"))
    );
    assert_eq!(
        Builder::new()
            .with_update(UpdateBuilder::default())
            .build()
            .unwrap_err()
            .expression_error(),
        Some(unset("UpdateBuilder"))
    );
}

#[test]
fn key_and_needs_an_equality_on_the_left() {
    let input = key("a")
        .less_than(value(1))
        .and(key("b").begins_with("x"));

    assert_eq!(
        input.build_tree().unwrap_err(),
        BuildError::InvalidKeyCondition
    );
    assert_eq!(
        Builder::new()
            .with_key_condition(
                key("a")
                    .between(value(1), value(2))
                    .and(key("b").equal(value(3)))
            )
            .build()
            .unwrap_err()
            .message(),
        "buildKeyCondition error: invalid key condition constructed"
    );
}

#[test]
fn key_and_takes_no_and_on_the_right() {
    let input = key("a")
        .equal(value(1))
        .and(key("b").equal(value(2)).and(key("c").begins_with("y")));

    assert_eq!(
        input.build_tree().unwrap_err(),
        BuildError::InvalidKeyCondition
    );
}

#[test]
fn an_invalid_key_condition_stays_invalid() {
    let invalid = || key("a").less_than(value(1)).and(key("b").equal(value(2)));

    assert_eq!(
        invalid()
            .and(key("c").equal(value(3)))
            .build_tree()
            .unwrap_err(),
        BuildError::InvalidKeyCondition
    );
    assert_eq!(
        key("c")
            .equal(value(3))
            .and(invalid())
            .build_tree()
            .unwrap_err(),
        BuildError::InvalidKeyCondition
    );
    assert_eq!(
        KeyConditionBuilder::default()
            .and(KeyConditionBuilder::default())
            .build_tree()
            .unwrap_err(),
        BuildError::InvalidKeyCondition
    );
}

#[test]
fn a_legal_key_and_renders_both_sides() {
    let expression = Builder::new()
        .with_key_condition(key_and(
            key_equal(key("pk"), value("p")),
            key_between(key("sk"), value(1), value(9)),
        ))
        .build()
        .unwrap();

    assert_eq!(
        expression.key_condition().unwrap(),
        "(#0 = :0) AND (#1 BETWEEN :1 AND :2)"
    );
    assert_eq!(
        *expression.values(),
        Some(vec![
            (":0".to_owned(), AttributeValue::S("p".to_owned())),
            (":1".to_owned(), AttributeValue::N("1".to_owned())),
            (":2".to_owned(), AttributeValue::N("9".to_owned())),
        ])
    );
}

#[test]
fn key_condition_functions_build_their_templates() {
    let template = |builder: KeyConditionBuilder| builder.build_tree().unwrap().fmt_expression;

    assert_eq!(template(key_equal(key("k"), value(1))), "$c = $c");
    assert_eq!(template(key_less_than(key("k"), value(1))), "$c < $c");
    assert_eq!(template(key_less_than_equal(key("k"), value(1))), "$c <= $c");
    assert_eq!(template(key_greater_than(key("k"), value(1))), "$c > $c");
    assert_eq!(
        template(key_greater_than_equal(key("k"), value(1))),
        "$c >= $c"
    );
    assert_eq!(
        template(key_between(key("k"), value(1), value(2))),
        "$c BETWEEN $c AND $c"
    );
    assert_eq!(
        template(key_begins_with(key("k"), "p".to_owned())),
        "begins_with ($c, $c)"
    );
}

#[test]
fn a_key_is_taken_as_it_stands() {
    assert_eq!(
        key("a.b[0]").build_operand().unwrap().expression_node,
        names(&["a.b[0]"], "$n")
    );
}

#[test]
fn condition_functions_build_their_templates() {
    let template = |builder: ConditionBuilder| builder.build_tree().unwrap().fmt_expression;

    assert_eq!(template(equal(name("a"), value(1))), "$c = $c");
    assert_eq!(template(not_equal(name("a"), value(1))), "$c <> $c");
    assert_eq!(template(less_than(name("a"), value(1))), "$c < $c");
    assert_eq!(template(less_than_equal(name("a"), value(1))), "$c <= $c");
    assert_eq!(template(greater_than(name("a"), value(1))), "$c > $c");
    assert_eq!(
        template(greater_than_equal(name("a"), value(1))),
        "$c >= $c"
    );
    assert_eq!(
        template(and(equal(name("a"), value(1)), equal(name("b"), value(2)))),
        "($c) AND ($c)"
    );
    assert_eq!(
        template(or(equal(name("a"), value(1)), equal(name("b"), value(2)))),
        "($c) OR ($c)"
    );
    assert_eq!(
        template(between(name("a"), value(1), value(2))),
        "$c BETWEEN $c AND $c"
    );
    assert_eq!(
        template(is_in(name("a"), vec![value(1), value(2), value(3)])),
        "$c IN ($c, $c, $c)"
    );
    assert_eq!(
        template(attribute_type(name("a"), DynamoDbAttributeType::NumberSet)),
        "attribute_type ($c, $c)"
    );
    assert_eq!(
        template(begins_with(name("a"), "p")),
        "begins_with ($c, $c)"
    );
    assert_eq!(template(contains(name("a"), "p")), "contains ($c, $c)");
}

#[test]
fn in_with_one_candidate() {
    let input = name("a").is_in(vec![value(1)]);

    assert_eq!(
        input.build_tree().unwrap(),
        ExpressionNode::from_children_expression(
            vec![names(&["a"], "$n"), number("1")],
            "$c IN ($c)"
        )
    );
}

#[test]
fn between_keeps_the_order_of_its_bounds() {
    let expression = Builder::new()
        .with_condition(name("a").between(value(9), value(1)))
        .build()
        .unwrap();

    assert_eq!(expression.condition().unwrap(), "#0 BETWEEN :0 AND :1");
    assert_eq!(
        *expression.values(),
        Some(vec![
            (":0".to_owned(), AttributeValue::N("9".to_owned())),
            (":1".to_owned(), AttributeValue::N("1".to_owned())),
        ])
    );
}

#[test]
fn attribute_type_codes() {
    let code = |t: DynamoDbAttributeType| t.as_str().to_owned();

    assert_eq!(code(DynamoDbAttributeType::String), "S");
    assert_eq!(code(DynamoDbAttributeType::StringSet), "SS");
    assert_eq!(code(DynamoDbAttributeType::Number), "N");
    assert_eq!(code(DynamoDbAttributeType::NumberSet), "NS");
    assert_eq!(code(DynamoDbAttributeType::Binary), "B");
    assert_eq!(code(DynamoDbAttributeType::BinarySet), "BS");
    assert_eq!(code(DynamoDbAttributeType::Boolean), "BOOL");
    assert_eq!(code(DynamoDbAttributeType::Null), "NULL");
    assert_eq!(code(DynamoDbAttributeType::List), "L");
    assert_eq!(code(DynamoDbAttributeType::Mapping), "M");
    assert_eq!(
        name("a")
            .attribute_type(DynamoDbAttributeType::NumberSet)
            .build_tree()
            .unwrap()
            .children[1],
        string("NS")
    );
}

#[test]
fn the_first_failing_child_fails_the_condition() {
    assert_eq!(
        name("")
            .equal(value(1))
            .and(ConditionBuilder::default())
            .build_tree()
            .unwrap_err(),
        BuildError::UnsetParameter(Operation::BuildOperand, Subject::NameBuilder)
    );
    assert_eq!(
        ConditionBuilder::default()
            .and(name("").equal(value(1)))
            .build_tree()
            .unwrap_err(),
        BuildError::UnsetParameter(Operation::BuildTree, Subject::ConditionBuilder)
    );
    assert_eq!(
        key("").equal(value(1)).build_tree().unwrap_err(),
        BuildError::UnsetParameter(Operation::BuildOperand, Subject::KeyBuilder)
    );
    assert_eq!(
        name("a").between(key(""), name("")).build_tree().unwrap_err(),
        BuildError::UnsetParameter(Operation::BuildOperand, Subject::KeyBuilder)
    );
}

#[test]
fn name_paths_are_split_at_dots_and_indexes() {
    let node = |path: &str| name(path).build_operand().unwrap().expression_node;

    assert_eq!(node("a.b[1].c[2]"), names(&["a", "b", "c"], "$n.$n[1].$n[2]"));
    assert_eq!(node("foo[0][1]"), names(&["foo"], "$n[0][1]"));
    assert_eq!(node("foo]"), names(&["foo]"], "$n"));
    assert_eq!(node("a[b"), names(&["a[b"], "$n"));
    assert_eq!(node("a[b]c"), names(&["a[b]c"], "$n"));
    assert_eq!(node("a]b[c]"), names(&["a]b"], "$n[c]"));
    assert_eq!(node("foo.foo"), names(&["foo", "foo"], "$n.$n"));
    assert_eq!(
        name("foo".to_owned()).build_operand().unwrap().expression_node,
        names(&["foo"], "$n")
    );
}

#[test]
fn name_paths_without_a_name_in_a_segment_fail() {
    let error = BuildError::UnsetParameter(Operation::BuildOperand, Subject::NameBuilder);

    for path in ["", ".", "foo.", ".foo", "foo..bar", "[foo]", "foo.[0]", "a.b.[c].d"] {
        assert_eq!(name(path).build_operand().unwrap_err(), error, "{}", path);
    }
}

#[test]
fn size_wraps_the_fragment_of_the_name() {
    assert_eq!(
        size(name("a.b[1]")).build_operand().unwrap().expression_node,
        names(&["a", "b"], "size ($n.$n[1])")
    );
    assert_eq!(
        name("").size().build_operand().unwrap_err(),
        BuildError::UnsetParameter(Operation::BuildOperand, Subject::NameBuilder)
    );
}

#[test]
fn set_value_functions_build_their_templates() {
    let template = |builder: dynamodb_expression::SetValueBuilder| {
        builder.build_operand().unwrap().expression_node.fmt_expression
    };

    assert_eq!(template(plus(name("a"), value(1))), "$c + $c");
    assert_eq!(template(minus(name("a"), value(1))), "$c - $c");
    assert_eq!(
        template(list_append(name("a"), value(vec![value(1)]))),
        "list_append($c, $c)"
    );
    assert_eq!(
        template(if_not_exists(name("a"), value(1))),
        "if_not_exists($c, $c)"
    );
    assert_eq!(
        template(plus(minus(name("a"), value(1)), name("b"))),
        "$c + $c"
    );
}

#[test]
fn a_nested_set_value_renders_from_the_inside() {
    let expression = Builder::new()
        .with_update(update::set(
            name("total"),
            plus(if_not_exists(name("total"), value(0)), value(1)),
        ))
        .build()
        .unwrap();

    assert_eq!(
        expression.update().unwrap(),
        "SET #0 = if_not_exists(#0, :0) + :1\n"
    );
}

#[test]
fn update_clauses_come_in_a_fixed_order() {
    let input = update::add(name("a"), value(1))
        .delete(name("d"), value(vec!["x"]))
        .remove(name("r"))
        .set(name("s"), value(2))
        .remove(name("q"))
        .add(name("b"), value(3));

    let tree = input.build_tree().unwrap();
    assert_eq!(tree.fmt_expression, "SET $c\nREMOVE $c\nADD $c\nDELETE $c\n");
    assert_eq!(tree.children.len(), 4);
    assert_eq!(tree.children[0].fmt_expression, "$c");
    assert_eq!(tree.children[1].fmt_expression, "$c, $c");
    assert_eq!(tree.children[2].fmt_expression, "$c, $c");
    assert_eq!(tree.children[3].fmt_expression, "$c");

    let expression = Builder::new().with_update(input).build().unwrap();
    assert_eq!(
        expression.update().unwrap(),
        "SET #0 = :0\nREMOVE #1, #2\nADD #3 :1, #4 :2\nDELETE #5 :3\n"
    );
}

#[test]
fn update_free_functions_start_one_clause() {
    let template = |builder: UpdateBuilder| builder.build_tree().unwrap().fmt_expression;

    assert_eq!(template(update::set(name("a"), value(1))), "SET $c\n");
    assert_eq!(template(update::remove(name("a"))), "REMOVE $c\n");
    assert_eq!(template(update::add(name("a"), value(1))), "ADD $c\n");
    assert_eq!(template(update::delete(name("a"), value(1))), "DELETE $c\n");
    assert_eq!(OperationMode::Assign.as_str(), "SET");
    assert_eq!(OperationMode::Remove.as_str(), "REMOVE");
    assert_eq!(OperationMode::Add.as_str(), "ADD");
    assert_eq!(OperationMode::Delete.as_str(), "DELETE");
}

#[test]
fn remove_ignores_an_operand() {
    let input = OperationBuilder {
        name: name("foo"),
        value: Some(name("").into_operand()),
        mode: OperationMode::Remove,
    };

    assert_eq!(
        input.build_operation().unwrap(),
        ExpressionNode::from_children_expression(vec![names(&["foo"], "$n")], "$c")
    );
}

#[test]
fn an_operation_without_operand_keeps_its_template() {
    let input = OperationBuilder {
        name: name("foo"),
        value: None,
        mode: OperationMode::Delete,
    };

    let node = input.build_operation().unwrap();
    assert_eq!(
        node,
        ExpressionNode::from_children_expression(vec![names(&["foo"], "$n")], "$c $c")
    );
    assert_eq!(render(&node).0.unwrap_err(), BuildError::ChildrenOutOfRange);
}

#[test]
fn an_operand_that_fails_fails_the_operation() {
    let input = OperationBuilder {
        name: name("foo"),
        value: Some(key("").into_operand()),
        mode: OperationMode::Add,
    };

    assert_eq!(
        input.build_operation().unwrap_err(),
        BuildError::UnsetParameter(Operation::BuildOperand, Subject::KeyBuilder)
    );
}

#[test]
fn a_clause_without_operations_fails() {
    let error = OperationBuilder::build_child_nodes(&vec![]).unwrap_err();

    assert_eq!(error, BuildError::EmptyOperationList);
    assert_eq!(
        error.message(),
        "buildChildNodes error: operationBuilder list is empty"
    );
    assert_eq!(error.expression_error(), None);
}

#[test]
fn projections_keep_order_and_duplicates() {
    let input = add_names(
        names_list(name("b"), vec![name("a")]),
        vec![name("b"), name("c.d")],
    );

    let expression = Builder::new().with_projection(input).build().unwrap();
    assert_eq!(expression.projection().unwrap(), "#0, #1, #0, #2.#3");
    assert_eq!(*expression.values(), None);
}

#[test]
fn a_later_expression_of_a_kind_replaces_the_earlier() {
    let expression = Builder::new()
        .with_condition(name("a").equal(value(1)))
        .with_condition(name("b").equal(value(2)))
        .with_update(update::remove(name("x")))
        .with_update(update::remove(name("y")))
        .build()
        .unwrap();

    assert_eq!(
        expression,
        Expression {
            condition: Some("#0 = :0".to_owned()),
            update: Some("REMOVE #1\n".to_owned()),
            names: Some(vec![
                ("#0".to_owned(), "b".to_owned()),
                ("#1".to_owned(), "y".to_owned()),
            ]),
            values: Some(vec![(":0".to_owned(), AttributeValue::N("2".to_owned()))]),
            ..Default::default()
        }
    );
}

#[test]
fn an_empty_builder_builds_an_empty_expression() {
    assert_eq!(Builder::new().build().unwrap(), Expression::default());
    assert_eq!(Builder::default().build().unwrap(), Expression::default());
}

#[test]
fn the_first_kind_that_fails_fails_the_build() {
    let input = Builder::new()
        .with_update(UpdateBuilder::default())
        .with_key_condition(key("a").less_than(value(1)).and(key("b").equal(value(2))))
        .with_projection(names_list(name("x..y"), vec![]));

    assert_eq!(
        input.build().unwrap_err(),
        BuildError::UnsetParameter(Operation::BuildOperand, Subject::NameBuilder)
    );
}

#[test]
fn expression_new_takes_the_last_text_of_a_kind() {
    let input = Expression::new(vec![
        (ExpressionType::Filter, "a".to_owned()),
        (ExpressionType::Update, "b".to_owned()),
        (ExpressionType::Filter, "c".to_owned()),
    ]);

    assert_eq!(input.filter(), Some(&"c".to_owned()));
    assert_eq!(
        input.return_expression(ExpressionType::Update),
        Some(&"b".to_owned())
    );
    assert_eq!(input.return_expression(ExpressionType::Condition), None);
    assert_eq!(input.return_expression(ExpressionType::KeyCondition), None);
    assert_eq!(*input.names(), None);
    assert_eq!(*input.values(), None);
}

#[test]
fn templates_copy_what_is_no_marker() {
    let node = ExpressionNode {
        names: vec!["a".to_owned(), "b".to_owned()],
        values: vec![AttributeValue::Bool(false)],
        children: vec![names(&["b", "c"], "<$n|$n>")],
        fmt_expression: "x$ny $v, $c; $n#:é".to_owned(),
    };

    let (text, aliases) = render(&node);
    assert_eq!(text.unwrap(), "x#0y :0, <#1|#2>; #1#:é");
    assert_eq!(
        aliases,
        AliasList {
            names: vec!["a".to_owned(), "b".to_owned(), "c".to_owned()],
            values: vec![AttributeValue::Bool(false)],
        }
    );
}

#[test]
fn children_out_of_range() {
    let node = ExpressionNode::from_children_expression(vec![names(&["a"], "$n")], "$c, $c");

    let (text, aliases) = render(&node);
    let error = text.unwrap_err();
    assert_eq!(error, BuildError::ChildrenOutOfRange);
    assert_eq!(
        error.message(),
        "substituteChild error: exprNode []children out of range"
    );
    assert_eq!(aliases.names, vec!["a".to_owned()]);
}

#[test]
fn an_error_in_a_child_fails_the_parent() {
    let node = ExpressionNode::from_children_expression(
        vec![names(&["a"], "$n"), names(&["b"], "$n $x")],
        "$c $c",
    );

    let (text, aliases) = render(&node);
    assert_eq!(text.unwrap_err(), BuildError::InvalidEscapeRune('x'));
    assert_eq!(aliases.names, vec!["a".to_owned(), "b".to_owned()]);
}

#[test]
fn every_error_has_its_message() {
    let messages = [
        (
            BuildError::UnsetParameter(Operation::BuildOperand, Subject::SetValueBuilder),
            "BuildOperand error: unset parameter: SetValueBuilder",
        ),
        (
            BuildError::InvalidParameter(
                Operation::AndBuildKeyCondition,
                Subject::KeyConditionBuilder,
            ),
            "andBuildKeyCondition error: invalid parameter: KeyConditionBuilder",
        ),
        (
            BuildError::InvalidEscapeCharacter,
            "buildexprNode error: invalid escape character",
        ),
        (
            BuildError::InvalidEscapeRune('é'),
            "buildexprNode error: invalid escape rune é",
        ),
        (
            BuildError::NamesOutOfRange,
            "substitutePath error: exprNode []names out of range",
        ),
        (
            BuildError::ValuesOutOfRange,
            "substituteValue error: exprNode []values out of range",
        ),
        (
            BuildError::ChildrenOutOfRange,
            "substituteChild error: exprNode []children out of range",
        ),
        (
            BuildError::InvalidKeyCondition,
            "buildKeyCondition error: invalid key condition constructed",
        ),
        (
            BuildError::EmptyOperationList,
            "buildChildNodes error: operationBuilder list is empty",
        ),
    ];

    for (error, message) in messages {
        assert_eq!(error.message(), message);
        match error.expression_error() {
            Some(typed) => assert_eq!(typed.message(), message),
            None => assert!(!matches!(
                error,
                BuildError::UnsetParameter(..) | BuildError::InvalidParameter(..)
            )),
        }
    }
    assert_eq!(
        BuildError::InvalidParameter(
            Operation::AndBuildKeyCondition,
            Subject::KeyConditionBuilder
        )
        .expression_error(),
        Some(ExpressionError::InvalidParameterError(
            "andBuildKeyCondition".to_owned(),
            "KeyConditionBuilder".to_owned()
        ))
    );
}

#[test]
fn clones_stand_for_the_same_value() {
    let literal = AttributeValue::M(vec![
        ("a".to_owned(), AttributeValue::L(vec![AttributeValue::B(vec![0, 255])])),
        ("b".to_owned(), AttributeValue::Ns(vec!["1".to_owned()])),
        ("c".to_owned(), AttributeValue::Ss(vec![])),
    ]);
    let node = ExpressionNode {
        names: vec!["n".to_owned()],
        values: vec![literal.clone()],
        children: vec![ExpressionNode::default(), names(&["m"], "$n")],
        fmt_expression: "$n $v $c$c".to_owned(),
    };

    assert_eq!(literal.clone(), literal);
    assert_eq!(node.clone(), node);

    let name_builder = name("a.b");
    assert_eq!(
        name_builder.clone().build_operand().unwrap().expression_node,
        name_builder.build_operand().unwrap().expression_node
    );
    let operand = key("k").build_operand().unwrap();
    assert_eq!(operand.clone().expression_node, operand.expression_node);

    let expression = Builder::new()
        .with_condition(name("a").equal(value(1)))
        .build()
        .unwrap();
    assert_eq!(expression.clone(), expression);

    let mut aliases = AliasList::default();
    aliases.alias_path("a");
    aliases.alias_value(AttributeValue::Bool(true));
    assert_eq!(aliases.clone(), aliases);
}

#[test]
fn a_dollar_in_an_index_suffix_is_read_as_a_marker() {
    let node = name("a[$x]").build_operand().unwrap().expression_node;
    assert_eq!(node, names(&["a"], "$n[$x]"));
    assert_eq!(render(&node).0.unwrap_err(), BuildError::InvalidEscapeRune('x'));

    let node = name("a$b").build_operand().unwrap().expression_node;
    assert_eq!(node, names(&["a$b"], "$n"));
    assert_eq!(render(&node).0.unwrap(), "#0");

    let node = name("a[$n]").build_operand().unwrap().expression_node;
    assert_eq!(render(&node).0.unwrap_err(), BuildError::NamesOutOfRange);

    let node = name("a[$]").build_operand().unwrap().expression_node;
    assert_eq!(render(&node).0.unwrap_err(), BuildError::InvalidEscapeRune(']'));

    let node = ExpressionNode::from_names(vec![], "tail $");
    assert_eq!(render(&node).0.unwrap_err(), BuildError::InvalidEscapeCharacter);
}

#[test]
fn trees_of_plain_names_render() {
    let trees = vec![
        name("a.b[1]").equal(name("c").size()).build_tree().unwrap(),
        name("a")
            .is_in(vec![value(1), value(2), value(3), value(4)])
            .or(name("b").attribute_exists().not())
            .and(name("c").attribute_type(DynamoDbAttributeType::List))
            .build_tree()
            .unwrap(),
        key("k")
            .equal(value(1))
            .and(key("s").greater_than_equal(value(2)))
            .build_tree()
            .unwrap(),
        names_list(name("a"), vec![name("b[0]"), name("c.d")])
            .build_tree()
            .unwrap(),
        update::set(name("a"), list_append(name("a"), value(vec![value(1)])))
            .add(name("n"), value(1))
            .delete(name("s"), value(vec!["x"]))
            .remove(name("r[2]"))
            .build_tree()
            .unwrap(),
    ];

    let texts: Vec<String> = trees.iter().map(|t| render(t).0.unwrap()).collect();
    assert_eq!(
        texts,
        vec![
            "#0.#1[1] = size (#2)".to_owned(),
            "((#0 IN (:0, :1, :2, :3)) OR (NOT (attribute_exists (#1)))) AND (attribute_type (#2, :4))"
                .to_owned(),
            "(#0 = :0) AND (#1 >= :1)".to_owned(),
            "#0, #1[0], #2.#3".to_owned(),
            "SET #0 = list_append(#0, :0)\nREMOVE #1[2]\nADD #2 :1\nDELETE #3 :2\n".to_owned(),
        ]
    );
}
