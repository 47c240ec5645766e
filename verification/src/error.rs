//! The failures that building and rendering an expression can end in.

use vstd::prelude::*;
use vstd::string::StringExecFns;

verus! {

/// A parameter error as callers see it: the operation that found the fault and
/// the kind of builder at fault, both by name.
#[derive(Debug, PartialEq, Eq)]
pub enum ExpressionError {
    /// A parameter is present but its form is not valid.
    InvalidParameterError(String, String),
    /// A builder was used without having been set up, or a required text is empty.
    UnsetParameterError(String, String),
}

impl ExpressionError {
    /// The text of the error message.
    pub open spec fn message_spec(&self) -> Seq<char> {
        match self {
            ExpressionError::InvalidParameterError(function, subject) => function@
                + " error: invalid parameter: "@ + subject@,
            ExpressionError::UnsetParameterError(function, subject) => function@
                + " error: unset parameter: "@ + subject@,
        }
    }

    /// Renders the error as a message: the operation, what went wrong, the builder.
    pub fn message(&self) -> (s: String)
        ensures
            s@ == self.message_spec(),
    {
        match self {
            ExpressionError::InvalidParameterError(function, subject) => {
                let mut s = function.clone();
                s.append(" error: invalid parameter: ");
                s.append(subject.as_str());
                s
            },
            ExpressionError::UnsetParameterError(function, subject) => {
                let mut s = function.clone();
                s.append(" error: unset parameter: ");
                s.append(subject.as_str());
                s
            },
        }
    }
}

/// The operation that detected a parameter error.
#[derive(Clone, Copy, Debug, PartialEq, Eq, Structural)]
pub enum Operation {
    BuildOperand,
    BuildTree,
    AndBuildKeyCondition,
}

impl Operation {
    /// The name under which the operation appears in messages.
    pub open spec fn name(self) -> Seq<char> {
        match self {
            Operation::BuildOperand => "BuildOperand"@,
            Operation::BuildTree => "buildTree"@,
            Operation::AndBuildKeyCondition => "andBuildKeyCondition"@,
        }
    }

    /// The name under which the operation appears in messages.
    pub fn as_str(&self) -> (s: &'static str)
        ensures
            s@ == self.name(),
    {
        match self {
            Operation::BuildOperand => "BuildOperand",
            Operation::BuildTree => "buildTree",
            Operation::AndBuildKeyCondition => "andBuildKeyCondition",
        }
    }
}

/// The kind of builder that a parameter error is about.
#[derive(Clone, Copy, Debug, PartialEq, Eq, Structural)]
pub enum Subject {
    NameBuilder,
    KeyBuilder,
    SetValueBuilder,
    ConditionBuilder,
    KeyConditionBuilder,
    ProjectionBuilder,
    UpdateBuilder,
}

impl Subject {
    /// The name under which the builder appears in messages.
    pub open spec fn name(self) -> Seq<char> {
        match self {
            Subject::NameBuilder => "NameBuilder"@,
            Subject::KeyBuilder => "KeyBuilder"@,
            Subject::SetValueBuilder => "SetValueBuilder"@,
            Subject::ConditionBuilder => "ConditionBuilder"@,
            Subject::KeyConditionBuilder => "KeyConditionBuilder"@,
            Subject::ProjectionBuilder => "ProjectionBuilder"@,
            Subject::UpdateBuilder => "UpdateBuilder"@,
        }
    }

    /// The name under which the builder appears in messages.
    pub fn as_str(&self) -> (s: &'static str)
        ensures
            s@ == self.name(),
    {
        match self {
            Subject::NameBuilder => "NameBuilder",
            Subject::KeyBuilder => "KeyBuilder",
            Subject::SetValueBuilder => "SetValueBuilder",
            Subject::ConditionBuilder => "ConditionBuilder",
            Subject::KeyConditionBuilder => "KeyConditionBuilder",
            Subject::ProjectionBuilder => "ProjectionBuilder",
            Subject::UpdateBuilder => "UpdateBuilder",
        }
    }
}

/// Every way in which building a tree or rendering it can fail.
///
/// The two parameter errors point at the caller's use of a builder. The others
/// say that a node's template and its payload do not fit together, or that a key
/// condition was combined against the rules.
#[derive(Clone, Copy, Debug, PartialEq, Eq, Structural)]
pub enum BuildError {
    /// A builder was never set up, or a name or key is empty.
    UnsetParameter(Operation, Subject),
    /// A builder is set up in a way that its grammar does not allow.
    InvalidParameter(Operation, Subject),
    /// A template ends in `$`.
    InvalidEscapeCharacter,
    /// A template holds `$` before a character other than `n`, `v` and `c`.
    InvalidEscapeRune(char),
    /// A template asks for more names than its node holds.
    NamesOutOfRange,
    /// A template asks for more values than its node holds.
    ValuesOutOfRange,
    /// A template asks for more children than its node holds.
    ChildrenOutOfRange,
    /// A key condition was joined with `and` against the rules.
    InvalidKeyCondition,
    /// A group of update operations holds no operation.
    EmptyOperationList,
}

impl BuildError {
    /// The text of the error message.
    pub open spec fn message_spec(self) -> Seq<char> {
        match self {
            BuildError::UnsetParameter(function, subject) => function.name()
                + " error: unset parameter: "@ + subject.name(),
            BuildError::InvalidParameter(function, subject) => function.name()
                + " error: invalid parameter: "@ + subject.name(),
            BuildError::InvalidEscapeCharacter => "buildexprNode error: invalid escape character"@,
            BuildError::InvalidEscapeRune(c) => "buildexprNode error: invalid escape rune "@.push(
                c,
            ),
            BuildError::NamesOutOfRange => "substitutePath error: exprNode []names out of range"@,
            BuildError::ValuesOutOfRange => {
                "substituteValue error: exprNode []values out of range"@
            },
            BuildError::ChildrenOutOfRange => {
                "substituteChild error: exprNode []children out of range"@
            },
            BuildError::InvalidKeyCondition => {
                "buildKeyCondition error: invalid key condition constructed"@
            },
            BuildError::EmptyOperationList => {
                "buildChildNodes error: operationBuilder list is empty"@
            },
        }
    }

    /// Whether the error is one of the two parameter errors.
    pub open spec fn is_parameter_error(self) -> bool {
        self is UnsetParameter || self is InvalidParameter
    }

    /// Renders the error as a message.
    pub fn message(&self) -> (s: String)
        ensures
            s@ == self.message_spec(),
    {
        match self {
            BuildError::UnsetParameter(function, subject) => {
                let mut s = function.as_str().to_owned();
                s.append(" error: unset parameter: ");
                s.append(subject.as_str());
                s
            },
            BuildError::InvalidParameter(function, subject) => {
                let mut s = function.as_str().to_owned();
                s.append(" error: invalid parameter: ");
                s.append(subject.as_str());
                s
            },
            BuildError::InvalidEscapeCharacter => {
                "buildexprNode error: invalid escape character".to_owned()
            },
            BuildError::InvalidEscapeRune(c) => {
                let mut s = "buildexprNode error: invalid escape rune ".to_owned();
                s.push(*c);
                s
            },
            BuildError::NamesOutOfRange => {
                "substitutePath error: exprNode []names out of range".to_owned()
            },
            BuildError::ValuesOutOfRange => {
                "substituteValue error: exprNode []values out of range".to_owned()
            },
            BuildError::ChildrenOutOfRange => {
                "substituteChild error: exprNode []children out of range".to_owned()
            },
            BuildError::InvalidKeyCondition => {
                "buildKeyCondition error: invalid key condition constructed".to_owned()
            },
            BuildError::EmptyOperationList => {
                "buildChildNodes error: operationBuilder list is empty".to_owned()
            },
        }
    }

    /// The parameter error in the form that names operation and builder as text,
    /// or `None` for an error of another kind.
    pub fn expression_error(&self) -> (e: Option<ExpressionError>)
        ensures
            e is Some <==> self.is_parameter_error(),
            e matches Some(x) ==> x.message_spec() == self.message_spec(),
            match *self {
                BuildError::UnsetParameter(function, subject) => e matches Some(
                    ExpressionError::UnsetParameterError(f, s),
                ) && f@ == function.name() && s@ == subject.name(),
                BuildError::InvalidParameter(function, subject) => e matches Some(
                    ExpressionError::InvalidParameterError(f, s),
                ) && f@ == function.name() && s@ == subject.name(),
                _ => e is None,
            },
    {
        match self {
            BuildError::UnsetParameter(function, subject) => Some(
                ExpressionError::UnsetParameterError(
                    function.as_str().to_owned(),
                    subject.as_str().to_owned(),
                ),
            ),
            BuildError::InvalidParameter(function, subject) => Some(
                ExpressionError::InvalidParameterError(
                    function.as_str().to_owned(),
                    subject.as_str().to_owned(),
                ),
            ),
            _ => None,
        }
    }
}

} // verus!
