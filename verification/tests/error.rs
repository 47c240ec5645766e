use dynamodb_expression::error::ExpressionError;

#[test]
fn invalid_error() {
    let input = ExpressionError::InvalidParameterError("func".to_owned(), "param".to_owned());

    assert_eq!(input.message(), "func error: invalid parameter: param");
}

#[test]
fn unset_error() {
    let input = ExpressionError::UnsetParameterError("func".to_owned(), "param".to_owned());

    assert_eq!(input.message(), "func error: unset parameter: param");
}

