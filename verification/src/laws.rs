//! What holds of the builders as a whole: laws that relate several functions of
//! the crate, each stated of the functions themselves and proved from their
//! contracts.

use vstd::prelude::*;
use crate::condition::ConditionBuilder;
use crate::error::{BuildError, Operation, Subject};
use crate::expression::{expression_of, Builder, Expression};
use crate::key_condition::{key_and, key_and_legal, KeyConditionBuilder};
use crate::node::{
    lemma_first_failure_is, lemma_gather_empty, node_of, render, AliasModel, ExpressionNode,
    NodeModel,
};
use crate::operand::{tree_of, value, Operand, OperandBuilder, ValueBuilder};
use crate::projection::ProjectionBuilder;
use crate::update::UpdateBuilder;
use crate::value::ValueModel;

verus! {

/// Building an operand is determined by the builder: two runs on one builder
/// yield the same node, or the same error.
pub proof fn law_build_operand_is_determined<B: OperandBuilder>(
    builder: B,
    first: Result<Operand, BuildError>,
    second: Result<Operand, BuildError>,
)
    requires
        call_ensures(B::build_operand, (&builder,), first),
        call_ensures(B::build_operand, (&builder,), second),
    ensures
        tree_of(first) == tree_of(second),
{
}

/// Building the tree of a condition is determined by the builder.
pub proof fn law_condition_tree_is_determined(
    builder: ConditionBuilder,
    first: Result<ExpressionNode, BuildError>,
    second: Result<ExpressionNode, BuildError>,
)
    requires
        call_ensures(ConditionBuilder::build_tree, (&builder,), first),
        call_ensures(ConditionBuilder::build_tree, (&builder,), second),
    ensures
        node_of(first) == node_of(second),
{
}

/// Building the tree of a key condition is determined by the builder.
pub proof fn law_key_condition_tree_is_determined(
    builder: KeyConditionBuilder,
    first: Result<ExpressionNode, BuildError>,
    second: Result<ExpressionNode, BuildError>,
)
    requires
        call_ensures(KeyConditionBuilder::build_tree, (&builder,), first),
        call_ensures(KeyConditionBuilder::build_tree, (&builder,), second),
    ensures
        node_of(first) == node_of(second),
{
}

/// Building the tree of a projection is determined by the builder.
pub proof fn law_projection_tree_is_determined(
    builder: ProjectionBuilder,
    first: Result<ExpressionNode, BuildError>,
    second: Result<ExpressionNode, BuildError>,
)
    requires
        call_ensures(ProjectionBuilder::build_tree, (&builder,), first),
        call_ensures(ProjectionBuilder::build_tree, (&builder,), second),
    ensures
        node_of(first) == node_of(second),
{
}

/// Building the tree of an update is determined by the builder.
pub proof fn law_update_tree_is_determined(
    builder: UpdateBuilder,
    first: Result<ExpressionNode, BuildError>,
    second: Result<ExpressionNode, BuildError>,
)
    requires
        call_ensures(UpdateBuilder::build_tree, (&builder,), first),
        call_ensures(UpdateBuilder::build_tree, (&builder,), second),
    ensures
        node_of(first) == node_of(second),
{
}

/// Rendering is determined by the tree and the tables: two nodes that stand for
/// one tree render, against the same tables, to the same text and the same
/// tables, or to the same error.
pub proof fn law_rendering_is_determined(
    first: ExpressionNode,
    second: ExpressionNode,
    aliases: AliasModel,
)
    requires
        first@ == second@,
    ensures
        render(first@, aliases) == render(second@, aliases),
{
}

/// A build is determined by the builder: two runs on one builder yield the same
/// texts and the same tables, character for character, or the same error.
/// Nothing but the builder has a say.
pub proof fn law_build_is_determined(
    builder: Builder,
    first: Result<Expression, BuildError>,
    second: Result<Expression, BuildError>,
)
    requires
        call_ensures(Builder::build, (builder,), first),
        call_ensures(Builder::build, (builder,), second),
    ensures
        expression_of(first) == expression_of(second),
{
}

/// A set of strings without members becomes the null value, and no set of strings
/// that `value` makes is empty.
pub proof fn law_empty_string_set_is_null(items: Vec<String>, builder: ValueBuilder)
    requires
        call_ensures(value::<Vec<String>>, (items,), builder),
    ensures
        items@.len() == 0 ==> builder@ == ValueModel::Null(true),
        builder@ matches ValueModel::Ss(members) ==> members.len() > 0,
{
}

/// A list without items becomes the null value, and no list that `value` makes is
/// empty.
pub proof fn law_empty_list_is_null(items: Vec<ValueBuilder>, builder: ValueBuilder)
    requires
        call_ensures(value::<Vec<ValueBuilder>>, (items,), builder),
    ensures
        items@.len() == 0 ==> builder@ == ValueModel::Null(true),
        builder@ matches ValueModel::L(members) ==> members.len() > 0,
{
}

/// A map without entries becomes the null value, and no map that `value` makes is
/// empty.
pub proof fn law_empty_map_is_null(entries: Vec<(String, ValueBuilder)>, builder: ValueBuilder)
    requires
        call_ensures(value::<Vec<(String, ValueBuilder)>>, (entries,), builder),
    ensures
        entries@.len() == 0 ==> builder@ == ValueModel::Null(true),
        builder@ matches ValueModel::M(members) ==> members.len() > 0,
{
}

/// The default condition builds nothing: it fails as an unset condition builder.
pub proof fn law_unset_condition_fails(
    builder: ConditionBuilder,
    result: Result<ExpressionNode, BuildError>,
)
    requires
        call_ensures(<ConditionBuilder as Default>::default, (), builder),
        call_ensures(ConditionBuilder::build_tree, (&builder,), result),
    ensures
        result == Err::<ExpressionNode, BuildError>(
            BuildError::UnsetParameter(Operation::BuildTree, Subject::ConditionBuilder),
        ),
{
}

/// The default key condition builds nothing: it fails as an unset key condition
/// builder.
pub proof fn law_unset_key_condition_fails(
    builder: KeyConditionBuilder,
    result: Result<ExpressionNode, BuildError>,
)
    requires
        call_ensures(<KeyConditionBuilder as Default>::default, (), builder),
        call_ensures(KeyConditionBuilder::build_tree, (&builder,), result),
    ensures
        result == Err::<ExpressionNode, BuildError>(
            BuildError::UnsetParameter(Operation::BuildTree, Subject::KeyConditionBuilder),
        ),
{
}

/// The default projection builds nothing: it fails as an unset projection
/// builder.
pub proof fn law_unset_projection_fails(
    builder: ProjectionBuilder,
    result: Result<ExpressionNode, BuildError>,
)
    requires
        call_ensures(<ProjectionBuilder as Default>::default, (), builder),
        call_ensures(ProjectionBuilder::build_tree, (&builder,), result),
    ensures
        result == Err::<ExpressionNode, BuildError>(
            BuildError::UnsetParameter(Operation::BuildTree, Subject::ProjectionBuilder),
        ),
{
}

/// The default update builds nothing: it fails as an unset update builder.
pub proof fn law_unset_update_fails(
    builder: UpdateBuilder,
    result: Result<ExpressionNode, BuildError>,
)
    requires
        call_ensures(<UpdateBuilder as Default>::default, (), builder),
        call_ensures(UpdateBuilder::build_tree, (&builder,), result),
    ensures
        result == Err::<ExpressionNode, BuildError>(
            BuildError::UnsetParameter(Operation::BuildTree, Subject::UpdateBuilder),
        ),
{
}

/// Key conditions may be joined by `AND` only with an equality on the left and
/// with something other than an `AND` on the right. Joining them otherwise never
/// fails on the spot, but what comes of it fails to build as an invalid key
/// condition, whatever the two sides are.
pub proof fn law_illegal_key_and_fails(
    left: KeyConditionBuilder,
    right: KeyConditionBuilder,
    combined: KeyConditionBuilder,
    result: Result<ExpressionNode, BuildError>,
)
    requires
        !key_and_legal(left.mode(), right.mode()),
        call_ensures(key_and, (left, right), combined),
        call_ensures(KeyConditionBuilder::build_tree, (&combined,), result),
    ensures
        result == Err::<ExpressionNode, BuildError>(BuildError::InvalidKeyCondition),
{
}

/// What was joined against the rule stays invalid when it is joined again, on
/// either side: it cannot stand on the left, and on the right it fails the
/// combination when it is built, unless the left side fails first.
pub proof fn law_invalid_key_condition_spreads(
    left: KeyConditionBuilder,
    right: KeyConditionBuilder,
    combined: KeyConditionBuilder,
    result: Result<ExpressionNode, BuildError>,
)
    requires
        call_ensures(key_and, (left, right), combined),
        call_ensures(KeyConditionBuilder::build_tree, (&combined,), result),
        left.tree() == Err::<NodeModel, BuildError>(BuildError::InvalidKeyCondition)
            || (left.tree() is Ok && right.tree() == Err::<NodeModel, BuildError>(
            BuildError::InvalidKeyCondition,
        )),
    ensures
        result == Err::<ExpressionNode, BuildError>(BuildError::InvalidKeyCondition),
{
    if key_and_legal(left.mode(), right.mode()) {
        let trees = seq![left.tree(), right.tree()];
        if left.tree() is Err {
            lemma_first_failure_is(trees, 0);
        } else {
            lemma_first_failure_is(trees, 1);
        }
        lemma_gather_empty();
    }
}

} // verus!
