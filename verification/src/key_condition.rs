//! Key conditions: the narrow conditions by which a query selects items through
//! their key. One equality on the partition key, joined by `AND`, if at all, with
//! one condition on the sort key.

use vstd::prelude::*;
use crate::error::{BuildError, Operation, Subject};
use crate::node::{
    all_sound, fits, gather, lemma_first_failure_is, lemma_gather_empty, lemma_gather_len,
    lemma_gathered_fit, markers, node_models, node_of, sound, successes, ExpressionNode,
    NodeModel,
};
use crate::operand::{
    build_operands, key_tree, operand_trees, value, value_tree, AnyOperand, KeyBuilder,
    OperandBuilder, ValueBuilder,
};
use crate::text::IntoString;
use crate::value::ValueModel;

verus! {

/// What a [`KeyConditionBuilder`] does with its operands or its child conditions.
#[derive(Clone, Copy, Debug, PartialEq, Eq, Structural)]
pub enum KeyConditionMode {
    /// Nothing has been set up.
    Unset,
    /// The condition was combined against the rules.
    Invalid,
    /// `k = v`
    Equal,
    /// `k < v`
    LessThan,
    /// `k <= v`
    LessThanEqual,
    /// `k > v`
    GreaterThan,
    /// `k >= v`
    GreaterThanEqual,
    /// `(x) AND (y)`
    And,
    /// `k BETWEEN a AND b`
    Between,
    /// `begins_with (k, s)`
    BeginsWith,
}

/// The template of a key condition. `Unset` and `Invalid` have none.
pub open spec fn key_condition_template(mode: KeyConditionMode) -> Seq<char> {
    match mode {
        KeyConditionMode::Unset => Seq::empty(),
        KeyConditionMode::Invalid => Seq::empty(),
        KeyConditionMode::Equal => "$c = $c"@,
        KeyConditionMode::LessThan => "$c < $c"@,
        KeyConditionMode::LessThanEqual => "$c <= $c"@,
        KeyConditionMode::GreaterThan => "$c > $c"@,
        KeyConditionMode::GreaterThanEqual => "$c >= $c"@,
        KeyConditionMode::And => "($c) AND ($c)"@,
        KeyConditionMode::Between => "$c BETWEEN $c AND $c"@,
        KeyConditionMode::BeginsWith => "begins_with ($c, $c)"@,
    }
}

/// The tree of a key condition of mode `mode` whose child conditions build to
/// `conditions` and whose operands build to `operands`.
///
/// The children of the node are the trees of the child conditions, then those of
/// the operands; the first of them that fails, in that order, fails the
/// condition. After that a condition without a mode, an invalid one and an `AND`
/// over nothing each fail with their own error.
pub open spec fn key_condition_tree(
    mode: KeyConditionMode,
    conditions: Seq<Result<NodeModel, BuildError>>,
    operands: Seq<Result<NodeModel, BuildError>>,
) -> Result<NodeModel, BuildError> {
    match gather(conditions) {
        Err(e) => Err(e),
        Ok(first) => match gather(operands) {
            Err(e) => Err(e),
            Ok(second) => match mode {
                KeyConditionMode::Unset => Err(
                    BuildError::UnsetParameter(
                        Operation::BuildTree,
                        Subject::KeyConditionBuilder,
                    ),
                ),
                KeyConditionMode::Invalid => Err(BuildError::InvalidKeyCondition),
                _ => if mode is And && first.len() == 0 && second.len() == 0 {
                    Err(
                        BuildError::InvalidParameter(
                            Operation::AndBuildKeyCondition,
                            Subject::KeyConditionBuilder,
                        ),
                    )
                } else {
                    Ok(NodeModel::of_children(first + second, key_condition_template(mode)))
                },
            },
        },
    }
}

/// Whether two key conditions may be joined by `AND`: the left one is an
/// equality, and the right one is not itself an `AND`.
pub open spec fn key_and_legal(left: KeyConditionMode, right: KeyConditionMode) -> bool {
    left is Equal && !(right is And)
}

/// The mode of two key conditions joined by `AND`: `And` where the rule allows
/// it, else `Invalid`.
pub open spec fn key_and_mode(left: KeyConditionMode, right: KeyConditionMode) -> KeyConditionMode {
    if key_and_legal(left, right) {
        KeyConditionMode::And
    } else {
        KeyConditionMode::Invalid
    }
}

/// The tree of two key conditions joined by `AND`, which have the modes
/// `left_mode` and `right_mode` and build to `left` and `right`: the tree of the
/// two under `AND` where the rule allows it, else the error of an invalid key
/// condition, whatever the two build to.
pub open spec fn key_and_tree(
    left_mode: KeyConditionMode,
    right_mode: KeyConditionMode,
    left: Result<NodeModel, BuildError>,
    right: Result<NodeModel, BuildError>,
) -> Result<NodeModel, BuildError> {
    if key_and_legal(left_mode, right_mode) {
        key_condition_tree(KeyConditionMode::And, seq![left, right], Seq::empty())
    } else {
        Err(BuildError::InvalidKeyCondition)
    }
}

/// A key condition.
#[derive(Debug)]
pub struct KeyConditionBuilder {
    operand_list: Vec<AnyOperand>,
    key_condition_list: Vec<KeyConditionBuilder>,
    mode: KeyConditionMode,
}

/// What building each of `conditions` yields.
pub open spec fn key_condition_trees(conditions: Seq<KeyConditionBuilder>) -> Seq<
    Result<NodeModel, BuildError>,
> {
    conditions.map_values(|c: KeyConditionBuilder| c.tree())
}

/// The template of a comparison.
fn compare_template(mode: KeyConditionMode) -> (template: &'static str)
    requires
        mode is Equal || mode is LessThan || mode is LessThanEqual || mode is GreaterThan
            || mode is GreaterThanEqual,
    ensures
        template@ == key_condition_template(mode),
{
    match mode {
        KeyConditionMode::Equal => "$c = $c",
        KeyConditionMode::LessThan => "$c < $c",
        KeyConditionMode::LessThanEqual => "$c <= $c",
        KeyConditionMode::GreaterThan => "$c > $c",
        _ => "$c >= $c",
    }
}

impl KeyConditionBuilder {
    /// The mode.
    pub closed spec fn mode(self) -> KeyConditionMode {
        self.mode
    }

    /// What building each child condition yields.
    pub closed spec fn child_trees(self) -> Seq<Result<NodeModel, BuildError>>
        decreases self, 0nat,
    {
        Seq::new(
            self.key_condition_list@.len(),
            |i: int|
                if 0 <= i < self.key_condition_list@.len() {
                    self.key_condition_list@[i].tree()
                } else {
                    Ok(NodeModel::empty())
                },
        )
    }

    /// What building each operand yields.
    pub closed spec fn operand_trees(self) -> Seq<Result<NodeModel, BuildError>> {
        operand_trees(self.operand_list@)
    }

    /// What building the key condition yields: its tree, or the error.
    pub closed spec fn tree(self) -> Result<NodeModel, BuildError>
        decreases self, 1nat,
    {
        key_condition_tree(self.mode, self.child_trees(), operand_trees(self.operand_list@))
    }

    /// The tree of a key condition is made of its mode and of what its child
    /// conditions and its operands build to.
    pub proof fn lemma_tree(self)
        ensures
            self.tree() == key_condition_tree(
                self.mode(),
                self.child_trees(),
                self.operand_trees(),
            ),
    {
    }

    proof fn lemma_child_trees(self)
        ensures
            self.child_trees() == key_condition_trees(self.key_condition_list@),
    {
        assert(self.child_trees() =~= key_condition_trees(self.key_condition_list@));
    }

    /// `(self) AND (right)`, where that is a legal key condition; else a condition
    /// that fails when it is built.
    pub fn and(self, right: KeyConditionBuilder) -> (condition: KeyConditionBuilder)
        ensures
            condition.mode() == key_and_mode(self.mode(), right.mode()),
            condition.tree() == key_and_tree(
                self.mode(),
                right.mode(),
                self.tree(),
                right.tree(),
            ),
    {
        key_and(self, right)
    }

    /// Builds the trees of the child conditions, then those of the operands, up to
    /// the first that fails.
    pub fn build_child_nodes(&self) -> (result: Result<Vec<ExpressionNode>, BuildError>)
        ensures
            match gather(self.child_trees()) {
                Err(e) => result == Err::<Vec<ExpressionNode>, BuildError>(e),
                Ok(first) => match gather(self.operand_trees()) {
                    Err(e) => result == Err::<Vec<ExpressionNode>, BuildError>(e),
                    Ok(second) => result matches Ok(nodes) && node_models(nodes@) == first
                        + second,
                },
            },
        decreases self, 0nat,
    {
        proof {
            self.lemma_child_trees();
        }
        let ghost trees = key_condition_trees(self.key_condition_list@);
        let mut nodes: Vec<ExpressionNode> = Vec::new();
        let mut i: usize = 0;
        while i < self.key_condition_list.len()
            invariant
                i <= self.key_condition_list.len(),
                trees == key_condition_trees(self.key_condition_list@),
                trees == self.child_trees(),
                forall|j: int| 0 <= j < i ==> trees[j] is Ok,
                node_models(nodes@) == successes(trees.take(i as int)),
            decreases self.key_condition_list.len() - i,
        {
            match self.key_condition_list[i].build_tree() {
                Ok(node) => {
                    proof {
                        assert(trees[i as int] == Ok::<NodeModel, BuildError>(node@));
                        assert(trees.take(i + 1) =~= trees.take(i as int).push(trees[i as int]));
                        assert(node_models(nodes@.push(node)) =~= node_models(nodes@).push(
                            node@,
                        ));
                        assert(successes(trees.take(i + 1)) =~= successes(
                            trees.take(i as int),
                        ).push(node@));
                    }
                    nodes.push(node);
                },
                Err(e) => {
                    proof {
                        assert(trees[i as int] == Err::<NodeModel, BuildError>(e));
                        lemma_first_failure_is(trees, i as nat);
                    }
                    return Err(e);
                },
            }
            i += 1;
        }
        proof {
            lemma_first_failure_is(trees, i as nat);
            assert(trees.take(i as int) =~= trees);
        }
        match build_operands(&self.operand_list, &mut nodes) {
            Ok(()) => Ok(nodes),
            Err(e) => Err(e),
        }
    }

    /// Builds the tree of the key condition.
    pub fn build_tree(&self) -> (result: Result<ExpressionNode, BuildError>)
        ensures
            node_of(result) == self.tree(),
        decreases self, 1nat,
    {
        proof {
            self.lemma_child_trees();
        }
        let child_nodes = match self.build_child_nodes() {
            Ok(nodes) => nodes,
            Err(e) => {
                return Err(e);
            },
        };
        proof {
            lemma_gather_len(key_condition_trees(self.key_condition_list@));
            lemma_gather_len(operand_trees(self.operand_list@));
        }
        match self.mode {
            KeyConditionMode::Unset => Err(
                BuildError::UnsetParameter(Operation::BuildTree, Subject::KeyConditionBuilder),
            ),
            KeyConditionMode::Invalid => Err(BuildError::InvalidKeyCondition),
            KeyConditionMode::And => {
                if self.key_condition_list.len() == 0 && self.operand_list.len() == 0 {
                    return Err(
                        BuildError::InvalidParameter(
                            Operation::AndBuildKeyCondition,
                            Subject::KeyConditionBuilder,
                        ),
                    );
                }
                Ok(ExpressionNode::from_children_expression(child_nodes, "($c) AND ($c)"))
            },
            KeyConditionMode::Between => Ok(
                ExpressionNode::from_children_expression(child_nodes, "$c BETWEEN $c AND $c"),
            ),
            KeyConditionMode::BeginsWith => Ok(
                ExpressionNode::from_children_expression(child_nodes, "begins_with ($c, $c)"),
            ),
            _ => Ok(
                ExpressionNode::from_children_expression(child_nodes, compare_template(self.mode)),
            ),
        }
    }

    fn of_operands(operand_list: Vec<AnyOperand>, mode: KeyConditionMode) -> (condition:
        KeyConditionBuilder)
        ensures
            condition.mode() == mode,
            condition.tree() == key_condition_tree(
                mode,
                Seq::empty(),
                operand_trees(operand_list@),
            ),
    {
        let condition = KeyConditionBuilder {
            operand_list,
            key_condition_list: Vec::new(),
            mode,
        };
        proof {
            condition.lemma_child_trees();
            assert(key_condition_trees(condition.key_condition_list@) =~= Seq::<
                Result<NodeModel, BuildError>,
            >::empty());
        }
        condition
    }
}

impl Default for KeyConditionBuilder {
    /// A key condition without mode, which builds nothing.
    fn default() -> (condition: Self)
        ensures
            condition.mode() == KeyConditionMode::Unset,
            condition.tree() == Err::<NodeModel, BuildError>(
                BuildError::UnsetParameter(Operation::BuildTree, Subject::KeyConditionBuilder),
            ),
    {
        let condition = KeyConditionBuilder::of_operands(Vec::new(), KeyConditionMode::Unset);
        proof {
            lemma_gather_empty();
            assert(operand_trees(Seq::<AnyOperand>::empty()) =~= Seq::<
                Result<NodeModel, BuildError>,
            >::empty());
        }
        condition
    }
}

/// The trees of a key and a literal, in order.
pub open spec fn key_and_value(key: Seq<char>, value: ValueModel) -> Seq<
    Result<NodeModel, BuildError>,
> {
    seq![key_tree(key), value_tree(value)]
}

fn binary(mode: KeyConditionMode, key: KeyBuilder, value: ValueBuilder) -> (condition:
    KeyConditionBuilder)
    ensures
        condition.mode() == mode,
        condition.tree() == key_condition_tree(mode, Seq::empty(), key_and_value(key@, value@)),
{
    let mut operand_list: Vec<AnyOperand> = Vec::new();
    operand_list.push(key.into_operand());
    operand_list.push(value.into_operand());
    proof {
        assert(operand_trees(operand_list@) =~= key_and_value(key@, value@));
    }
    KeyConditionBuilder::of_operands(operand_list, mode)
}

/// `key = value`.
pub fn key_equal(key: KeyBuilder, value: ValueBuilder) -> (condition: KeyConditionBuilder)
    ensures
        condition.mode() == KeyConditionMode::Equal,
        condition.tree() == key_condition_tree(
            KeyConditionMode::Equal,
            Seq::empty(),
            key_and_value(key@, value@),
        ),
{
    binary(KeyConditionMode::Equal, key, value)
}

/// `key < value`.
pub fn key_less_than(key: KeyBuilder, value: ValueBuilder) -> (condition: KeyConditionBuilder)
    ensures
        condition.mode() == KeyConditionMode::LessThan,
        condition.tree() == key_condition_tree(
            KeyConditionMode::LessThan,
            Seq::empty(),
            key_and_value(key@, value@),
        ),
{
    binary(KeyConditionMode::LessThan, key, value)
}

/// `key <= value`.
pub fn key_less_than_equal(key: KeyBuilder, value: ValueBuilder) -> (condition: KeyConditionBuilder)
    ensures
        condition.mode() == KeyConditionMode::LessThanEqual,
        condition.tree() == key_condition_tree(
            KeyConditionMode::LessThanEqual,
            Seq::empty(),
            key_and_value(key@, value@),
        ),
{
    binary(KeyConditionMode::LessThanEqual, key, value)
}

/// `key > value`.
pub fn key_greater_than(key: KeyBuilder, value: ValueBuilder) -> (condition: KeyConditionBuilder)
    ensures
        condition.mode() == KeyConditionMode::GreaterThan,
        condition.tree() == key_condition_tree(
            KeyConditionMode::GreaterThan,
            Seq::empty(),
            key_and_value(key@, value@),
        ),
{
    binary(KeyConditionMode::GreaterThan, key, value)
}

/// `key >= value`.
pub fn key_greater_than_equal(key: KeyBuilder, value: ValueBuilder) -> (condition:
    KeyConditionBuilder)
    ensures
        condition.mode() == KeyConditionMode::GreaterThanEqual,
        condition.tree() == key_condition_tree(
            KeyConditionMode::GreaterThanEqual,
            Seq::empty(),
            key_and_value(key@, value@),
        ),
{
    binary(KeyConditionMode::GreaterThanEqual, key, value)
}

/// `(left) AND (right)`, where that is a legal key condition; else a condition that
/// fails when it is built. Nothing fails here.
pub fn key_and(left: KeyConditionBuilder, right: KeyConditionBuilder) -> (condition:
    KeyConditionBuilder)
    ensures
        condition.mode() == key_and_mode(left.mode(), right.mode()),
        condition.tree() == key_and_tree(left.mode(), right.mode(), left.tree(), right.tree()),
{
    let legal = match left.mode {
        KeyConditionMode::Equal => match right.mode {
            KeyConditionMode::And => false,
            _ => true,
        },
        _ => false,
    };
    if !legal {
        let condition = KeyConditionBuilder::of_operands(Vec::new(), KeyConditionMode::Invalid);
        proof {
            lemma_gather_empty();
            assert(operand_trees(Seq::<AnyOperand>::empty()) =~= Seq::<
                Result<NodeModel, BuildError>,
            >::empty());
        }
        return condition;
    }
    let mut key_condition_list: Vec<KeyConditionBuilder> = Vec::new();
    key_condition_list.push(left);
    key_condition_list.push(right);
    let condition = KeyConditionBuilder {
        operand_list: Vec::new(),
        key_condition_list,
        mode: KeyConditionMode::And,
    };
    proof {
        condition.lemma_child_trees();
        assert(key_condition_trees(condition.key_condition_list@) =~= seq![
            left.tree(),
            right.tree(),
        ]);
        assert(operand_trees(condition.operand_list@) =~= Seq::<
            Result<NodeModel, BuildError>,
        >::empty());
    }
    condition
}

/// `key BETWEEN lower AND upper`. The bounds are taken as given, in this order.
pub fn key_between(key: KeyBuilder, lower: ValueBuilder, upper: ValueBuilder) -> (condition:
    KeyConditionBuilder)
    ensures
        condition.mode() == KeyConditionMode::Between,
        condition.tree() == key_condition_tree(
            KeyConditionMode::Between,
            Seq::empty(),
            seq![key_tree(key@), value_tree(lower@), value_tree(upper@)],
        ),
{
    let mut operand_list: Vec<AnyOperand> = Vec::new();
    operand_list.push(key.into_operand());
    operand_list.push(lower.into_operand());
    operand_list.push(upper.into_operand());
    proof {
        assert(operand_trees(operand_list@) =~= seq![
            key_tree(key@),
            value_tree(lower@),
            value_tree(upper@),
        ]);
    }
    KeyConditionBuilder::of_operands(operand_list, KeyConditionMode::Between)
}

/// `begins_with (key, prefix)`.
pub fn key_begins_with<T: IntoString>(key: KeyBuilder, prefix: T) -> (condition:
    KeyConditionBuilder)
    ensures
        condition.mode() == KeyConditionMode::BeginsWith,
        condition.tree() == key_condition_tree(
            KeyConditionMode::BeginsWith,
            Seq::empty(),
            key_and_value(key@, ValueModel::S(prefix.text())),
        ),
{
    binary(KeyConditionMode::BeginsWith, key, value(prefix.into_string()))
}

impl KeyBuilder {
    /// `self = value`.
    pub fn equal(self, value: ValueBuilder) -> (condition: KeyConditionBuilder)
        ensures
            condition.mode() == KeyConditionMode::Equal,
            condition.tree() == key_condition_tree(
                KeyConditionMode::Equal,
                Seq::empty(),
                key_and_value(self@, value@),
            ),
    {
        key_equal(self, value)
    }

    /// `self < value`.
    pub fn less_than(self, value: ValueBuilder) -> (condition: KeyConditionBuilder)
        ensures
            condition.mode() == KeyConditionMode::LessThan,
            condition.tree() == key_condition_tree(
                KeyConditionMode::LessThan,
                Seq::empty(),
                key_and_value(self@, value@),
            ),
    {
        key_less_than(self, value)
    }

    /// `self <= value`.
    pub fn less_than_equal(self, value: ValueBuilder) -> (condition: KeyConditionBuilder)
        ensures
            condition.mode() == KeyConditionMode::LessThanEqual,
            condition.tree() == key_condition_tree(
                KeyConditionMode::LessThanEqual,
                Seq::empty(),
                key_and_value(self@, value@),
            ),
    {
        key_less_than_equal(self, value)
    }

    /// `self > value`.
    pub fn greater_than(self, value: ValueBuilder) -> (condition: KeyConditionBuilder)
        ensures
            condition.mode() == KeyConditionMode::GreaterThan,
            condition.tree() == key_condition_tree(
                KeyConditionMode::GreaterThan,
                Seq::empty(),
                key_and_value(self@, value@),
            ),
    {
        key_greater_than(self, value)
    }

    /// `self >= value`.
    pub fn greater_than_equal(self, value: ValueBuilder) -> (condition: KeyConditionBuilder)
        ensures
            condition.mode() == KeyConditionMode::GreaterThanEqual,
            condition.tree() == key_condition_tree(
                KeyConditionMode::GreaterThanEqual,
                Seq::empty(),
                key_and_value(self@, value@),
            ),
    {
        key_greater_than_equal(self, value)
    }

    /// `self BETWEEN lower AND upper`.
    pub fn between(self, lower: ValueBuilder, upper: ValueBuilder) -> (condition:
        KeyConditionBuilder)
        ensures
            condition.mode() == KeyConditionMode::Between,
            condition.tree() == key_condition_tree(
                KeyConditionMode::Between,
                Seq::empty(),
                seq![key_tree(self@), value_tree(lower@), value_tree(upper@)],
            ),
    {
        key_between(self, lower, upper)
    }

    /// `begins_with (self, prefix)`.
    pub fn begins_with<T: IntoString>(self, prefix: T) -> (condition: KeyConditionBuilder)
        ensures
            condition.mode() == KeyConditionMode::BeginsWith,
            condition.tree() == key_condition_tree(
                KeyConditionMode::BeginsWith,
                Seq::empty(),
                key_and_value(self@, ValueModel::S(prefix.text())),
            ),
    {
        key_begins_with(self, prefix)
    }
}

/// Whether a key condition of this mode may hold `conditions` child conditions
/// and `operands` operands: as many as its template asks for.
pub open spec fn key_condition_shape(
    mode: KeyConditionMode,
    conditions: nat,
    operands: nat,
) -> bool {
    match mode {
        KeyConditionMode::Unset | KeyConditionMode::Invalid => true,
        KeyConditionMode::And => conditions + operands == 2,
        KeyConditionMode::Between => conditions == 0 && operands == 3,
        _ => conditions == 0 && operands == 2,
    }
}

/// The tree of a key condition fits, where the trees of its parts fit and the
/// parts are as many as the mode takes.
pub proof fn law_key_condition_tree_fits(
    mode: KeyConditionMode,
    conditions: Seq<Result<NodeModel, BuildError>>,
    operands: Seq<Result<NodeModel, BuildError>>,
)
    requires
        key_condition_shape(mode, conditions.len(), operands.len()),
        all_sound(conditions),
        all_sound(operands),
    ensures
        sound(key_condition_tree(mode, conditions, operands)),
{
    lemma_gathered_fit(conditions);
    lemma_gathered_fit(operands);
    if let Ok(node) = key_condition_tree(mode, conditions, operands) {
        let first = gather(conditions)->Ok_0;
        let second = gather(operands)->Ok_0;
        assert forall|i: int| 0 <= i < node.children.len() implies fits(
            #[trigger] node.children[i],
        ) by {
            if i < first.len() {
                assert(node.children[i] == first[i]);
            } else {
                assert(node.children[i] == second[i - first.len()]);
            }
        }
        reveal_strlit("$c = $c");
        reveal_strlit("$c < $c");
        reveal_strlit("$c <= $c");
        reveal_strlit("$c > $c");
        reveal_strlit("$c >= $c");
        reveal_strlit("($c) AND ($c)");
        reveal_strlit("$c BETWEEN $c AND $c");
        reveal_strlit("begins_with ($c, $c)");
        reveal_with_fuel(markers, 23);
    }
}

/// Two key conditions that fit, joined by `AND`, fit.
pub proof fn law_key_and_tree_fits(
    left_mode: KeyConditionMode,
    right_mode: KeyConditionMode,
    left: Result<NodeModel, BuildError>,
    right: Result<NodeModel, BuildError>,
)
    requires
        sound(left),
        sound(right),
    ensures
        sound(key_and_tree(left_mode, right_mode, left, right)),
{
    law_key_condition_tree_fits(KeyConditionMode::And, seq![left, right], Seq::empty());
}

} // verus!
