//! Builders for the expressions of a document store: conditions, key conditions,
//! projections and updates.
//!
//! An expression is put together from operands ([`name`], [`value`], [`key`]) and
//! the functions of this crate, collected in a [`Builder`] and built into an
//! [`Expression`]: the expression strings, in which every attribute name and every
//! literal has given way to a placeholder, and the tables that say what each
//! placeholder stands for. The functions that start an update (`set`, `remove`,
//! `add`, `delete`) are reached through the module [`update`].
//!
//! Every builder stands for the tree that it will build, or for the error that
//! building it will end in; the contracts of the functions say which. The module
//! [`node`] defines what rendering a tree means, and the module [`laws`] collects
//! what holds of the builders taken together.

pub mod condition;
pub mod error;
pub mod expression;
pub mod key_condition;
pub mod laws;
pub mod node;
pub mod operand;
pub mod projection;
pub mod text;
pub mod update;
pub mod value;

pub use condition::{
    and, attribute_exists, attribute_not_exists, attribute_type, begins_with, between, contains,
    equal, greater_than, greater_than_equal, is_in, less_than, less_than_equal, not, not_equal, or,
    BetweenBuilder, ConditionBuilder, ConditionMode, DynamoDbAttributeType, EqualBuilder,
    GreaterThanBuilder, GreaterThanEqualBuilder, InBuilder, LessThanBuilder,
    LessThanEqualBuilder, NotEqualBuilder,
};
pub use error::{BuildError, ExpressionError, Operation, Subject};
pub use expression::{Builder, Expression, ExpressionType};
pub use key_condition::{
    key_and, key_begins_with, key_between, key_equal, key_greater_than, key_greater_than_equal,
    key_less_than, key_less_than_equal, KeyConditionBuilder, KeyConditionMode,
};
pub use node::{AliasList, ExpressionNode};
pub use operand::{
    if_not_exists, key, list_append, minus, name, plus, size, value, AnyOperand, KeyBuilder,
    ListAppendBuilder, MinusBuilder, NameBuilder, Operand, OperandBuilder, PlusBuilder,
    SetValueBuilder, SetValueMode, SizeBuilder, ValueBuilder, ValueBuilderImpl,
};
pub use projection::{add_names, names_list, ProjectionBuilder};
pub use text::IntoString;
pub use update::{OperationBuilder, OperationMode, UpdateBuilder};
pub use value::AttributeValue;
