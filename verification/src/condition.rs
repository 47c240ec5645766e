//! Conditions: comparisons, logical combinations and functions over operands,
//! for condition expressions and filter expressions.

use vstd::prelude::*;
use vstd::string::StringExecFns;
use crate::error::{BuildError, Operation, Subject};
use crate::node::{
    all_sound, fits, gather, lemma_first_failure_is, lemma_gather_empty, lemma_gathered_fit,
    lemma_markers_concat, lemma_markers_plain, lemma_markers_repeat, markers, node_models,
    node_of, sound, successes, ExpressionNode, NodeModel, Used,
};
use crate::operand::{
    build_operands, name_tree, operand_trees, value, value_tree, AnyOperand, NameBuilder,
    OperandBuilder, SizeBuilder, ValueBuilder,
};
use crate::text::{push_repeated, repeat, IntoString};
use crate::value::ValueModel;

verus! {

/// What a [`ConditionBuilder`] does with its operands or its child conditions.
#[derive(Clone, Copy, Debug, PartialEq, Eq, Structural)]
pub enum ConditionMode {
    /// Nothing has been set up.
    Unset,
    /// `a = b`
    Equal,
    /// `a <> b`
    NotEqual,
    /// `a < b`
    LessThan,
    /// `a <= b`
    LessThanEqual,
    /// `a > b`
    GreaterThan,
    /// `a >= b`
    GreaterThanEqual,
    /// `(x) AND (y)`
    And,
    /// `(x) OR (y)`
    Or,
    /// `NOT (x)`
    Not,
    /// `a BETWEEN b AND c`
    Between,
    /// `a IN (b, c, ...)`
    In,
    /// `attribute_exists (a)`
    AttrExists,
    /// `attribute_not_exists (a)`
    AttrNotExists,
    /// `attribute_type (a, t)`
    AttrType,
    /// `begins_with (a, s)`
    BeginsWith,
    /// `contains (a, s)`
    Contains,
}

impl ConditionMode {
    /// Whether the mode compares two operands.
    pub open spec fn is_comparison(self) -> bool {
        self is Equal || self is NotEqual || self is LessThan || self is LessThanEqual
            || self is GreaterThan || self is GreaterThanEqual
    }

    /// Whether the mode joins child conditions with a keyword.
    pub open spec fn is_compound(self) -> bool {
        self is And || self is Or
    }
}

/// The types that an attribute can have in the store.
#[derive(Clone, Copy, Debug, PartialEq, Eq, Structural)]
pub enum DynamoDbAttributeType {
    String,
    StringSet,
    Number,
    NumberSet,
    Binary,
    BinarySet,
    Boolean,
    Null,
    List,
    Mapping,
}

impl DynamoDbAttributeType {
    /// The code by which the store knows the type.
    pub open spec fn code(self) -> Seq<char> {
        match self {
            DynamoDbAttributeType::String => "S"@,
            DynamoDbAttributeType::StringSet => "SS"@,
            DynamoDbAttributeType::Number => "N"@,
            DynamoDbAttributeType::NumberSet => "NS"@,
            DynamoDbAttributeType::Binary => "B"@,
            DynamoDbAttributeType::BinarySet => "BS"@,
            DynamoDbAttributeType::Boolean => "BOOL"@,
            DynamoDbAttributeType::Null => "NULL"@,
            DynamoDbAttributeType::List => "L"@,
            DynamoDbAttributeType::Mapping => "M"@,
        }
    }

    /// The code by which the store knows the type.
    pub fn as_str(&self) -> (code: &'static str)
        ensures
            code@ == self.code(),
    {
        match self {
            DynamoDbAttributeType::String => "S",
            DynamoDbAttributeType::StringSet => "SS",
            DynamoDbAttributeType::Number => "N",
            DynamoDbAttributeType::NumberSet => "NS",
            DynamoDbAttributeType::Binary => "B",
            DynamoDbAttributeType::BinarySet => "BS",
            DynamoDbAttributeType::Boolean => "BOOL",
            DynamoDbAttributeType::Null => "NULL",
            DynamoDbAttributeType::List => "L",
            DynamoDbAttributeType::Mapping => "M",
        }
    }
}

/// The template of a condition with `conditions` child conditions and `operands`
/// operands: one `$c` for each of them.
pub open spec fn condition_template(mode: ConditionMode, conditions: nat, operands: nat) -> Seq<
    char,
> {
    match mode {
        ConditionMode::Unset => Seq::empty(),
        ConditionMode::Equal => "$c = $c"@,
        ConditionMode::NotEqual => "$c <> $c"@,
        ConditionMode::LessThan => "$c < $c"@,
        ConditionMode::LessThanEqual => "$c <= $c"@,
        ConditionMode::GreaterThan => "$c > $c"@,
        ConditionMode::GreaterThanEqual => "$c >= $c"@,
        ConditionMode::And => "($c)"@ + repeat(" AND ($c)"@, (conditions - 1) as nat),
        ConditionMode::Or => "($c)"@ + repeat(" OR ($c)"@, (conditions - 1) as nat),
        ConditionMode::Not => "NOT ($c)"@,
        ConditionMode::Between => "$c BETWEEN $c AND $c"@,
        ConditionMode::In => "$c IN ($c"@ + repeat(", $c"@, (operands - 2) as nat) + ")"@,
        ConditionMode::AttrExists => "attribute_exists ($c)"@,
        ConditionMode::AttrNotExists => "attribute_not_exists ($c)"@,
        ConditionMode::AttrType => "attribute_type ($c, $c)"@,
        ConditionMode::BeginsWith => "begins_with ($c, $c)"@,
        ConditionMode::Contains => "contains ($c, $c)"@,
    }
}

/// Whether a condition of this mode may hold `conditions` child conditions and
/// `operands` operands.
pub open spec fn condition_shape(mode: ConditionMode, conditions: nat, operands: nat) -> bool {
    match mode {
        ConditionMode::Unset => conditions == 0 && operands == 0,
        ConditionMode::And | ConditionMode::Or => conditions >= 2 && operands == 0,
        ConditionMode::Not => conditions == 1 && operands == 0,
        ConditionMode::Between => conditions == 0 && operands == 3,
        ConditionMode::In => conditions == 0 && operands >= 2,
        ConditionMode::AttrExists | ConditionMode::AttrNotExists => conditions == 0 && operands
            == 1,
        _ => conditions == 0 && operands == 2,
    }
}

/// The tree of a condition of mode `mode` whose child conditions build to
/// `conditions` and whose operands build to `operands`.
///
/// The children of the node are the trees of the child conditions, then those of
/// the operands. The first of them that fails, in that order, fails the
/// condition. A condition without a mode builds nothing.
pub open spec fn condition_tree(
    mode: ConditionMode,
    conditions: Seq<Result<NodeModel, BuildError>>,
    operands: Seq<Result<NodeModel, BuildError>>,
) -> Result<NodeModel, BuildError> {
    match gather(conditions) {
        Err(e) => Err(e),
        Ok(first) => match gather(operands) {
            Err(e) => Err(e),
            Ok(second) => if mode is Unset {
                Err(BuildError::UnsetParameter(Operation::BuildTree, Subject::ConditionBuilder))
            } else {
                Ok(
                    NodeModel::of_children(
                        first + second,
                        condition_template(mode, first.len(), second.len()),
                    ),
                )
            },
        },
    }
}

/// A condition: a comparison, a function of an attribute, or a logical
/// combination of conditions.
#[derive(Debug)]
pub struct ConditionBuilder {
    operand_list: Vec<AnyOperand>,
    condition_list: Vec<ConditionBuilder>,
    mode: ConditionMode,
}

/// What building each of `conditions` yields.
pub open spec fn condition_trees(conditions: Seq<ConditionBuilder>) -> Seq<
    Result<NodeModel, BuildError>,
> {
    conditions.map_values(|c: ConditionBuilder| c.tree())
}

/// The template of a comparison.
fn compare_template(mode: ConditionMode) -> (template: &'static str)
    requires
        mode.is_comparison(),
    ensures
        template@ == condition_template(mode, 0, 2),
{
    match mode {
        ConditionMode::Equal => "$c = $c",
        ConditionMode::NotEqual => "$c <> $c",
        ConditionMode::LessThan => "$c < $c",
        ConditionMode::LessThanEqual => "$c <= $c",
        ConditionMode::GreaterThan => "$c > $c",
        _ => "$c >= $c",
    }
}

/// The template of `conditions` child conditions joined by `AND` or by `OR`.
pub fn compound_template(mode: ConditionMode, conditions: usize) -> (template: String)
    requires
        mode.is_compound(),
        conditions >= 1,
    ensures
        template@ == condition_template(mode, conditions as nat, 0),
{
    let mut template = "($c)".to_owned();
    match mode {
        ConditionMode::And => push_repeated(&mut template, " AND ($c)", conditions - 1),
        _ => push_repeated(&mut template, " OR ($c)", conditions - 1),
    }
    template
}

/// The template of `IN` over `operands` operands, the subject among them.
pub fn in_template(operands: usize) -> (template: String)
    requires
        operands >= 2,
    ensures
        template@ == condition_template(ConditionMode::In, 0, operands as nat),
{
    let mut template = "$c IN ($c".to_owned();
    push_repeated(&mut template, ", $c", operands - 2);
    template.append(")");
    template
}

impl ConditionBuilder {
    #[verifier::type_invariant]
    spec fn well_formed(self) -> bool {
        condition_shape(self.mode, self.condition_list@.len(), self.operand_list@.len())
    }

    /// The mode.
    pub closed spec fn mode(self) -> ConditionMode {
        self.mode
    }

    /// What building each child condition yields.
    pub closed spec fn child_trees(self) -> Seq<Result<NodeModel, BuildError>>
        decreases self, 0nat,
    {
        Seq::new(
            self.condition_list@.len(),
            |i: int|
                if 0 <= i < self.condition_list@.len() {
                    self.condition_list@[i].tree()
                } else {
                    Ok(NodeModel::empty())
                },
        )
    }

    /// What building each operand yields.
    pub closed spec fn operand_trees(self) -> Seq<Result<NodeModel, BuildError>> {
        operand_trees(self.operand_list@)
    }

    /// What building the condition yields: its tree, or the error.
    pub closed spec fn tree(self) -> Result<NodeModel, BuildError>
        decreases self, 1nat,
    {
        condition_tree(self.mode, self.child_trees(), operand_trees(self.operand_list@))
    }

    /// The tree of a condition is made of its mode and of what its child conditions
    /// and its operands build to.
    pub proof fn lemma_tree(self)
        ensures
            self.tree() == condition_tree(self.mode(), self.child_trees(), self.operand_trees()),
    {
    }

    proof fn lemma_child_trees(self)
        ensures
            self.child_trees() == condition_trees(self.condition_list@),
    {
        assert(self.child_trees() =~= condition_trees(self.condition_list@));
    }

    /// `(self) AND (right)`.
    pub fn and(self, right: ConditionBuilder) -> (condition: ConditionBuilder)
        ensures
            condition.mode() == ConditionMode::And,
            condition.tree() == condition_tree(
                ConditionMode::And,
                seq![self.tree(), right.tree()],
                Seq::empty(),
            ),
    {
        and(self, right)
    }

    /// `(self) OR (right)`.
    pub fn or(self, right: ConditionBuilder) -> (condition: ConditionBuilder)
        ensures
            condition.mode() == ConditionMode::Or,
            condition.tree() == condition_tree(
                ConditionMode::Or,
                seq![self.tree(), right.tree()],
                Seq::empty(),
            ),
    {
        or(self, right)
    }

    /// `NOT (self)`.
    pub fn not(self) -> (condition: ConditionBuilder)
        ensures
            condition.mode() == ConditionMode::Not,
            condition.tree() == condition_tree(
                ConditionMode::Not,
                seq![self.tree()],
                Seq::empty(),
            ),
    {
        not(self)
    }

    /// Builds the trees of the child conditions, then those of the operands, up to
    /// the first that fails.
    pub fn build_child_nodes(&self) -> (result: Result<Vec<ExpressionNode>, BuildError>)
        ensures
            match gather(self.child_trees()) {
                Err(e) => result == Err::<Vec<ExpressionNode>, BuildError>(e),
                Ok(first) => match gather(self.operand_trees()) {
                    Err(e) => result == Err::<Vec<ExpressionNode>, BuildError>(e),
                    Ok(second) => result matches Ok(nodes) && node_models(nodes@) == first
                        + second,
                },
            },
        decreases self, 0nat,
    {
        proof {
            self.lemma_child_trees();
        }
        let ghost trees = condition_trees(self.condition_list@);
        let mut nodes: Vec<ExpressionNode> = Vec::new();
        let mut i: usize = 0;
        while i < self.condition_list.len()
            invariant
                i <= self.condition_list.len(),
                trees == condition_trees(self.condition_list@),
                trees == self.child_trees(),
                forall|j: int| 0 <= j < i ==> trees[j] is Ok,
                node_models(nodes@) == successes(trees.take(i as int)),
            decreases self.condition_list.len() - i,
        {
            match self.condition_list[i].build_tree() {
                Ok(node) => {
                    proof {
                        assert(trees[i as int] == Ok::<NodeModel, BuildError>(node@));
                        assert(trees.take(i + 1) =~= trees.take(i as int).push(trees[i as int]));
                        assert(node_models(nodes@.push(node)) =~= node_models(nodes@).push(
                            node@,
                        ));
                        assert(successes(trees.take(i + 1)) =~= successes(
                            trees.take(i as int),
                        ).push(node@));
                    }
                    nodes.push(node);
                },
                Err(e) => {
                    proof {
                        assert(trees[i as int] == Err::<NodeModel, BuildError>(e));
                        lemma_first_failure_is(trees, i as nat);
                    }
                    return Err(e);
                },
            }
            i += 1;
        }
        proof {
            lemma_first_failure_is(trees, i as nat);
            assert(trees.take(i as int) =~= trees);
        }
        match build_operands(&self.operand_list, &mut nodes) {
            Ok(()) => Ok(nodes),
            Err(e) => Err(e),
        }
    }

    /// Builds the tree of the condition.
    pub fn build_tree(&self) -> (result: Result<ExpressionNode, BuildError>)
        ensures
            node_of(result) == self.tree(),
        decreases self, 1nat,
    {
        proof {
            use_type_invariant(self);
            self.lemma_child_trees();
        }
        let child_nodes = match self.build_child_nodes() {
            Ok(nodes) => nodes,
            Err(e) => {
                return Err(e);
            },
        };
        let conditions = self.condition_list.len();
        let operands = self.operand_list.len();
        let node = match self.mode {
            ConditionMode::Unset => {
                return Err(
                    BuildError::UnsetParameter(Operation::BuildTree, Subject::ConditionBuilder),
                );
            },
            ConditionMode::Equal
            | ConditionMode::NotEqual
            | ConditionMode::LessThan
            | ConditionMode::LessThanEqual
            | ConditionMode::GreaterThan
            | ConditionMode::GreaterThanEqual => ExpressionNode::from_children_expression(
                child_nodes,
                compare_template(self.mode),
            ),
            ConditionMode::And | ConditionMode::Or => ExpressionNode::from_children_expression(
                child_nodes,
                compound_template(self.mode, conditions),
            ),
            ConditionMode::Not => ExpressionNode::from_children_expression(
                child_nodes,
                "NOT ($c)",
            ),
            ConditionMode::Between => ExpressionNode::from_children_expression(
                child_nodes,
                "$c BETWEEN $c AND $c",
            ),
            ConditionMode::In => ExpressionNode::from_children_expression(
                child_nodes,
                in_template(operands),
            ),
            ConditionMode::AttrExists => ExpressionNode::from_children_expression(
                child_nodes,
                "attribute_exists ($c)",
            ),
            ConditionMode::AttrNotExists => ExpressionNode::from_children_expression(
                child_nodes,
                "attribute_not_exists ($c)",
            ),
            ConditionMode::AttrType => ExpressionNode::from_children_expression(
                child_nodes,
                "attribute_type ($c, $c)",
            ),
            ConditionMode::BeginsWith => ExpressionNode::from_children_expression(
                child_nodes,
                "begins_with ($c, $c)",
            ),
            ConditionMode::Contains => ExpressionNode::from_children_expression(
                child_nodes,
                "contains ($c, $c)",
            ),
        };
        Ok(node)
    }

    fn of_operands(operand_list: Vec<AnyOperand>, mode: ConditionMode) -> (condition:
        ConditionBuilder)
        requires
            condition_shape(mode, 0, operand_list@.len()),
        ensures
            condition.mode() == mode,
            condition.tree() == condition_tree(mode, Seq::empty(), operand_trees(operand_list@)),
    {
        let condition = ConditionBuilder { operand_list, condition_list: Vec::new(), mode };
        proof {
            condition.lemma_child_trees();
            assert(condition_trees(condition.condition_list@) =~= Seq::<
                Result<NodeModel, BuildError>,
            >::empty());
        }
        condition
    }

    fn of_conditions(condition_list: Vec<ConditionBuilder>, mode: ConditionMode) -> (condition:
        ConditionBuilder)
        requires
            condition_shape(mode, condition_list@.len(), 0),
        ensures
            condition.mode() == mode,
            condition.tree() == condition_tree(
                mode,
                condition_trees(condition_list@),
                Seq::empty(),
            ),
    {
        let condition = ConditionBuilder { operand_list: Vec::new(), condition_list, mode };
        proof {
            condition.lemma_child_trees();
            assert(operand_trees(condition.operand_list@) =~= Seq::<
                Result<NodeModel, BuildError>,
            >::empty());
        }
        condition
    }
}

impl Default for ConditionBuilder {
    /// A condition without mode, which builds nothing.
    fn default() -> (condition: Self)
        ensures
            condition.mode() == ConditionMode::Unset,
            condition.tree() == Err::<NodeModel, BuildError>(
                BuildError::UnsetParameter(Operation::BuildTree, Subject::ConditionBuilder),
            ),
    {
        let condition = ConditionBuilder::of_operands(Vec::new(), ConditionMode::Unset);
        proof {
            lemma_gather_empty();
            assert(operand_trees(Seq::<AnyOperand>::empty()) =~= Seq::<
                Result<NodeModel, BuildError>,
            >::empty());
        }
        condition
    }
}

/// The trees of two operands, in order.
pub open spec fn pair_trees<L: OperandBuilder, R: OperandBuilder>(left: L, right: R) -> Seq<
    Result<NodeModel, BuildError>,
> {
    seq![left.operand_tree(), right.operand_tree()]
}

fn binary<L: OperandBuilder, R: OperandBuilder>(
    mode: ConditionMode,
    left: L,
    right: R,
) -> (condition: ConditionBuilder)
    requires
        condition_shape(mode, 0, 2),
    ensures
        condition.mode() == mode,
        condition.tree() == condition_tree(mode, Seq::empty(), pair_trees(left, right)),
{
    let mut operand_list: Vec<AnyOperand> = Vec::new();
    operand_list.push(left.into_operand());
    operand_list.push(right.into_operand());
    proof {
        assert(operand_trees(operand_list@) =~= pair_trees(left, right));
    }
    ConditionBuilder::of_operands(operand_list, mode)
}

/// `left = right`.
pub fn equal<L: OperandBuilder, R: OperandBuilder>(left: L, right: R) -> (condition:
    ConditionBuilder)
    ensures
        condition.mode() == ConditionMode::Equal,
        condition.tree() == condition_tree(
            ConditionMode::Equal,
            Seq::empty(),
            pair_trees(left, right),
        ),
{
    binary(ConditionMode::Equal, left, right)
}

/// `left <> right`.
pub fn not_equal<L: OperandBuilder, R: OperandBuilder>(left: L, right: R) -> (condition:
    ConditionBuilder)
    ensures
        condition.mode() == ConditionMode::NotEqual,
        condition.tree() == condition_tree(
            ConditionMode::NotEqual,
            Seq::empty(),
            pair_trees(left, right),
        ),
{
    binary(ConditionMode::NotEqual, left, right)
}

/// `left < right`.
pub fn less_than<L: OperandBuilder, R: OperandBuilder>(left: L, right: R) -> (condition:
    ConditionBuilder)
    ensures
        condition.mode() == ConditionMode::LessThan,
        condition.tree() == condition_tree(
            ConditionMode::LessThan,
            Seq::empty(),
            pair_trees(left, right),
        ),
{
    binary(ConditionMode::LessThan, left, right)
}

/// `left <= right`.
pub fn less_than_equal<L: OperandBuilder, R: OperandBuilder>(left: L, right: R) -> (condition:
    ConditionBuilder)
    ensures
        condition.mode() == ConditionMode::LessThanEqual,
        condition.tree() == condition_tree(
            ConditionMode::LessThanEqual,
            Seq::empty(),
            pair_trees(left, right),
        ),
{
    binary(ConditionMode::LessThanEqual, left, right)
}

/// `left > right`.
pub fn greater_than<L: OperandBuilder, R: OperandBuilder>(left: L, right: R) -> (condition:
    ConditionBuilder)
    ensures
        condition.mode() == ConditionMode::GreaterThan,
        condition.tree() == condition_tree(
            ConditionMode::GreaterThan,
            Seq::empty(),
            pair_trees(left, right),
        ),
{
    binary(ConditionMode::GreaterThan, left, right)
}

/// `left >= right`.
pub fn greater_than_equal<L: OperandBuilder, R: OperandBuilder>(left: L, right: R) -> (condition:
    ConditionBuilder)
    ensures
        condition.mode() == ConditionMode::GreaterThanEqual,
        condition.tree() == condition_tree(
            ConditionMode::GreaterThanEqual,
            Seq::empty(),
            pair_trees(left, right),
        ),
{
    binary(ConditionMode::GreaterThanEqual, left, right)
}

fn logical(mode: ConditionMode, left: ConditionBuilder, right: ConditionBuilder) -> (condition:
    ConditionBuilder)
    requires
        mode.is_compound(),
    ensures
        condition.mode() == mode,
        condition.tree() == condition_tree(mode, seq![left.tree(), right.tree()], Seq::empty()),
{
    let mut condition_list: Vec<ConditionBuilder> = Vec::new();
    condition_list.push(left);
    condition_list.push(right);
    proof {
        assert(condition_trees(condition_list@) =~= seq![left.tree(), right.tree()]);
    }
    ConditionBuilder::of_conditions(condition_list, mode)
}

/// `(left) AND (right)`.
pub fn and(left: ConditionBuilder, right: ConditionBuilder) -> (condition: ConditionBuilder)
    ensures
        condition.mode() == ConditionMode::And,
        condition.tree() == condition_tree(
            ConditionMode::And,
            seq![left.tree(), right.tree()],
            Seq::empty(),
        ),
{
    logical(ConditionMode::And, left, right)
}

/// `(left) OR (right)`.
pub fn or(left: ConditionBuilder, right: ConditionBuilder) -> (condition: ConditionBuilder)
    ensures
        condition.mode() == ConditionMode::Or,
        condition.tree() == condition_tree(
            ConditionMode::Or,
            seq![left.tree(), right.tree()],
            Seq::empty(),
        ),
{
    logical(ConditionMode::Or, left, right)
}

/// `NOT (condition_builder)`.
pub fn not(condition_builder: ConditionBuilder) -> (condition: ConditionBuilder)
    ensures
        condition.mode() == ConditionMode::Not,
        condition.tree() == condition_tree(
            ConditionMode::Not,
            seq![condition_builder.tree()],
            Seq::empty(),
        ),
{
    let mut condition_list: Vec<ConditionBuilder> = Vec::new();
    condition_list.push(condition_builder);
    proof {
        assert(condition_trees(condition_list@) =~= seq![condition_builder.tree()]);
    }
    ConditionBuilder::of_conditions(condition_list, ConditionMode::Not)
}

/// `op BETWEEN lower AND upper`. The bounds are taken as given, in this order.
pub fn between<O: OperandBuilder, L: OperandBuilder, U: OperandBuilder>(
    op: O,
    lower: L,
    upper: U,
) -> (condition: ConditionBuilder)
    ensures
        condition.mode() == ConditionMode::Between,
        condition.tree() == condition_tree(
            ConditionMode::Between,
            Seq::empty(),
            seq![op.operand_tree(), lower.operand_tree(), upper.operand_tree()],
        ),
{
    let mut operand_list: Vec<AnyOperand> = Vec::new();
    operand_list.push(op.into_operand());
    operand_list.push(lower.into_operand());
    operand_list.push(upper.into_operand());
    proof {
        assert(operand_trees(operand_list@) =~= seq![
            op.operand_tree(),
            lower.operand_tree(),
            upper.operand_tree(),
        ]);
    }
    ConditionBuilder::of_operands(operand_list, ConditionMode::Between)
}

/// The trees of a subject and its candidates, in order.
pub open spec fn candidate_trees<L: OperandBuilder, R: OperandBuilder>(
    left: L,
    right: Seq<R>,
) -> Seq<Result<NodeModel, BuildError>> {
    seq![left.operand_tree()] + operand_trees(right)
}

/// `left IN (right[0], right[1], ...)`, for at least one candidate.
pub fn is_in<L: OperandBuilder, R: OperandBuilder>(left: L, right: Vec<R>) -> (condition:
    ConditionBuilder)
    requires
        right@.len() >= 1,
    ensures
        condition.mode() == ConditionMode::In,
        condition.tree() == condition_tree(
            ConditionMode::In,
            Seq::empty(),
            candidate_trees(left, right@),
        ),
{
    let mut operand_list: Vec<AnyOperand> = Vec::new();
    operand_list.push(left.into_operand());
    let ghost all = right@;
    for candidate in it: right
        invariant
            it.seq() == all,
            operand_list@.len() == it.index() + 1,
            operand_trees(operand_list@) == candidate_trees(left, all.take(it.index() as int)),
    {
        let ghost before = operand_list@;
        let ghost taken = all.take(it.index() as int);
        let operand = candidate.into_operand();
        operand_list.push(operand);
        proof {
            assert(all.take(it.index() + 1) =~= taken.push(candidate));
            assert(operand_trees(before.push(operand)) =~= operand_trees(before).push(
                operand.tree(),
            ));
            assert(candidate_trees(left, taken.push(candidate)) =~= candidate_trees(
                left,
                taken,
            ).push(candidate.operand_tree()));
        }
    }
    proof {
        assert(all.take(all.len() as int) =~= all);
    }
    ConditionBuilder::of_operands(operand_list, ConditionMode::In)
}

/// `attribute_exists (name)`.
pub fn attribute_exists(name: NameBuilder) -> (condition: ConditionBuilder)
    ensures
        condition.mode() == ConditionMode::AttrExists,
        condition.tree() == condition_tree(
            ConditionMode::AttrExists,
            Seq::empty(),
            seq![name_tree(name@)],
        ),
{
    let mut operand_list: Vec<AnyOperand> = Vec::new();
    operand_list.push(name.into_operand());
    proof {
        assert(operand_trees(operand_list@) =~= seq![name_tree(name@)]);
    }
    ConditionBuilder::of_operands(operand_list, ConditionMode::AttrExists)
}

/// `attribute_not_exists (name)`.
pub fn attribute_not_exists(name: NameBuilder) -> (condition: ConditionBuilder)
    ensures
        condition.mode() == ConditionMode::AttrNotExists,
        condition.tree() == condition_tree(
            ConditionMode::AttrNotExists,
            Seq::empty(),
            seq![name_tree(name@)],
        ),
{
    let mut operand_list: Vec<AnyOperand> = Vec::new();
    operand_list.push(name.into_operand());
    proof {
        assert(operand_trees(operand_list@) =~= seq![name_tree(name@)]);
    }
    ConditionBuilder::of_operands(operand_list, ConditionMode::AttrNotExists)
}

/// The trees of an attribute and a string literal, in order.
pub open spec fn name_and_text(name: Seq<char>, text: Seq<char>) -> Seq<
    Result<NodeModel, BuildError>,
> {
    seq![name_tree(name), value_tree(ValueModel::S(text))]
}

/// `attribute_type (name, code)`, where `code` is the code of `attr_type`.
pub fn attribute_type(name: NameBuilder, attr_type: DynamoDbAttributeType) -> (condition:
    ConditionBuilder)
    ensures
        condition.mode() == ConditionMode::AttrType,
        condition.tree() == condition_tree(
            ConditionMode::AttrType,
            Seq::empty(),
            name_and_text(name@, attr_type.code()),
        ),
{
    binary(ConditionMode::AttrType, name, value(attr_type.as_str()))
}

/// `begins_with (name, prefix)`.
pub fn begins_with<T: IntoString>(name: NameBuilder, prefix: T) -> (condition: ConditionBuilder)
    ensures
        condition.mode() == ConditionMode::BeginsWith,
        condition.tree() == condition_tree(
            ConditionMode::BeginsWith,
            Seq::empty(),
            name_and_text(name@, prefix.text()),
        ),
{
    binary(ConditionMode::BeginsWith, name, value(prefix.into_string()))
}

/// `contains (name, substr)`.
pub fn contains<T: IntoString>(name: NameBuilder, substr: T) -> (condition: ConditionBuilder)
    ensures
        condition.mode() == ConditionMode::Contains,
        condition.tree() == condition_tree(
            ConditionMode::Contains,
            Seq::empty(),
            name_and_text(name@, substr.text()),
        ),
{
    binary(ConditionMode::Contains, name, value(substr.into_string()))
}

/// Operands that can stand on the left of `=`.
pub trait EqualBuilder: OperandBuilder {
    /// `self = right`.
    fn equal<R: OperandBuilder>(self, right: R) -> (condition: ConditionBuilder)
        ensures
            condition.mode() == ConditionMode::Equal,
            condition.tree() == condition_tree(
                ConditionMode::Equal,
                Seq::empty(),
                pair_trees(self, right),
            ),
    {
        equal(self, right)
    }
}

/// Operands that can stand on the left of `<>`.
pub trait NotEqualBuilder: OperandBuilder {
    /// `self <> right`.
    fn not_equal<R: OperandBuilder>(self, right: R) -> (condition: ConditionBuilder)
        ensures
            condition.mode() == ConditionMode::NotEqual,
            condition.tree() == condition_tree(
                ConditionMode::NotEqual,
                Seq::empty(),
                pair_trees(self, right),
            ),
    {
        not_equal(self, right)
    }
}

/// Operands that can stand on the left of `<`.
pub trait LessThanBuilder: OperandBuilder {
    /// `self < right`.
    fn less_than<R: OperandBuilder>(self, right: R) -> (condition: ConditionBuilder)
        ensures
            condition.mode() == ConditionMode::LessThan,
            condition.tree() == condition_tree(
                ConditionMode::LessThan,
                Seq::empty(),
                pair_trees(self, right),
            ),
    {
        less_than(self, right)
    }
}

/// Operands that can stand on the left of `<=`.
pub trait LessThanEqualBuilder: OperandBuilder {
    /// `self <= right`.
    fn less_than_equal<R: OperandBuilder>(self, right: R) -> (condition: ConditionBuilder)
        ensures
            condition.mode() == ConditionMode::LessThanEqual,
            condition.tree() == condition_tree(
                ConditionMode::LessThanEqual,
                Seq::empty(),
                pair_trees(self, right),
            ),
    {
        less_than_equal(self, right)
    }
}

/// Operands that can stand on the left of `>`.
pub trait GreaterThanBuilder: OperandBuilder {
    /// `self > right`.
    fn greater_than<R: OperandBuilder>(self, right: R) -> (condition: ConditionBuilder)
        ensures
            condition.mode() == ConditionMode::GreaterThan,
            condition.tree() == condition_tree(
                ConditionMode::GreaterThan,
                Seq::empty(),
                pair_trees(self, right),
            ),
    {
        greater_than(self, right)
    }
}

/// Operands that can stand on the left of `>=`.
pub trait GreaterThanEqualBuilder: OperandBuilder {
    /// `self >= right`.
    fn greater_than_equal<R: OperandBuilder>(self, right: R) -> (condition: ConditionBuilder)
        ensures
            condition.mode() == ConditionMode::GreaterThanEqual,
            condition.tree() == condition_tree(
                ConditionMode::GreaterThanEqual,
                Seq::empty(),
                pair_trees(self, right),
            ),
    {
        greater_than_equal(self, right)
    }
}

/// Operands that can be the subject of `BETWEEN`.
pub trait BetweenBuilder: OperandBuilder {
    /// `self BETWEEN lower AND upper`.
    fn between<L: OperandBuilder, U: OperandBuilder>(self, lower: L, upper: U) -> (condition:
        ConditionBuilder)
        ensures
            condition.mode() == ConditionMode::Between,
            condition.tree() == condition_tree(
                ConditionMode::Between,
                Seq::empty(),
                seq![self.operand_tree(), lower.operand_tree(), upper.operand_tree()],
            ),
    {
        between(self, lower, upper)
    }
}

/// Operands that can be the subject of `IN`.
pub trait InBuilder: OperandBuilder {
    /// `self IN (right[0], right[1], ...)`, for at least one candidate.
    fn is_in<R: OperandBuilder>(self, right: Vec<R>) -> (condition: ConditionBuilder)
        requires
            right@.len() >= 1,
        ensures
            condition.mode() == ConditionMode::In,
            condition.tree() == condition_tree(
                ConditionMode::In,
                Seq::empty(),
                candidate_trees(self, right@),
            ),
    {
        is_in(self, right)
    }
}

impl NameBuilder {
    /// `attribute_exists (self)`.
    pub fn attribute_exists(self) -> (condition: ConditionBuilder)
        ensures
            condition.mode() == ConditionMode::AttrExists,
            condition.tree() == condition_tree(
                ConditionMode::AttrExists,
                Seq::empty(),
                seq![name_tree(self@)],
            ),
    {
        attribute_exists(self)
    }

    /// `attribute_not_exists (self)`.
    pub fn attribute_not_exists(self) -> (condition: ConditionBuilder)
        ensures
            condition.mode() == ConditionMode::AttrNotExists,
            condition.tree() == condition_tree(
                ConditionMode::AttrNotExists,
                Seq::empty(),
                seq![name_tree(self@)],
            ),
    {
        attribute_not_exists(self)
    }

    /// `attribute_type (self, code)`, where `code` is the code of `attr_type`.
    pub fn attribute_type(self, attr_type: DynamoDbAttributeType) -> (condition:
        ConditionBuilder)
        ensures
            condition.mode() == ConditionMode::AttrType,
            condition.tree() == condition_tree(
                ConditionMode::AttrType,
                Seq::empty(),
                name_and_text(self@, attr_type.code()),
            ),
    {
        attribute_type(self, attr_type)
    }

    /// `begins_with (self, prefix)`.
    pub fn begins_with<T: IntoString>(self, prefix: T) -> (condition: ConditionBuilder)
        ensures
            condition.mode() == ConditionMode::BeginsWith,
            condition.tree() == condition_tree(
                ConditionMode::BeginsWith,
                Seq::empty(),
                name_and_text(self@, prefix.text()),
            ),
    {
        begins_with(self, prefix)
    }

    /// `contains (self, substr)`.
    pub fn contains<T: IntoString>(self, substr: T) -> (condition: ConditionBuilder)
        ensures
            condition.mode() == ConditionMode::Contains,
            condition.tree() == condition_tree(
                ConditionMode::Contains,
                Seq::empty(),
                name_and_text(self@, substr.text()),
            ),
    {
        contains(self, substr)
    }
}

impl EqualBuilder for NameBuilder {

}

impl NotEqualBuilder for NameBuilder {

}

impl LessThanBuilder for NameBuilder {

}

impl LessThanEqualBuilder for NameBuilder {

}

impl GreaterThanBuilder for NameBuilder {

}

impl GreaterThanEqualBuilder for NameBuilder {

}

impl BetweenBuilder for NameBuilder {

}

impl InBuilder for NameBuilder {

}

impl EqualBuilder for SizeBuilder {

}

impl NotEqualBuilder for SizeBuilder {

}

impl LessThanBuilder for SizeBuilder {

}

impl LessThanEqualBuilder for SizeBuilder {

}

impl GreaterThanBuilder for SizeBuilder {

}

impl GreaterThanEqualBuilder for SizeBuilder {

}

impl BetweenBuilder for SizeBuilder {

}

impl InBuilder for SizeBuilder {

}

impl EqualBuilder for ValueBuilder {

}

impl NotEqualBuilder for ValueBuilder {

}

impl LessThanBuilder for ValueBuilder {

}

impl LessThanEqualBuilder for ValueBuilder {

}

impl GreaterThanBuilder for ValueBuilder {

}

impl GreaterThanEqualBuilder for ValueBuilder {

}

impl BetweenBuilder for ValueBuilder {

}

impl InBuilder for ValueBuilder {

}

/// The tree of a condition fits, where the trees of its parts fit and the parts are
/// as many as the mode takes: every template of a condition asks for as many
/// children as the condition has parts.
pub proof fn law_condition_tree_fits(
    mode: ConditionMode,
    conditions: Seq<Result<NodeModel, BuildError>>,
    operands: Seq<Result<NodeModel, BuildError>>,
)
    requires
        condition_shape(mode, conditions.len(), operands.len()),
        all_sound(conditions),
        all_sound(operands),
    ensures
        sound(condition_tree(mode, conditions, operands)),
{
    lemma_gathered_fit(conditions);
    lemma_gathered_fit(operands);
    if let Ok(node) = condition_tree(mode, conditions, operands) {
        let first = gather(conditions)->Ok_0;
        let second = gather(operands)->Ok_0;
        assert forall|i: int| 0 <= i < node.children.len() implies fits(
            #[trigger] node.children[i],
        ) by {
            if i < first.len() {
                assert(node.children[i] == first[i]);
            } else {
                assert(node.children[i] == second[i - first.len()]);
            }
        }
        lemma_condition_template_markers(mode, first.len(), second.len());
    }
}

/// A template asks for one child for each part of its condition.
proof fn lemma_condition_template_markers(mode: ConditionMode, conditions: nat, operands: nat)
    requires
        condition_shape(mode, conditions, operands),
        !(mode is Unset),
    ensures
        markers(condition_template(mode, conditions, operands), 0) == Some(
            Used { names: 0, values: 0, children: conditions + operands },
        ),
{
    match mode {
        ConditionMode::And => {
            lemma_compound_markers(" AND ($c)"@, conditions);
        },
        ConditionMode::Or => {
            lemma_compound_markers(" OR ($c)"@, conditions);
        },
        ConditionMode::In => {
            let head = "$c IN ($c"@;
            let more = repeat(", $c"@, (operands - 2) as nat);
            assert(markers(head, 0) == Some(Used { names: 0, values: 0, children: 2 })) by {
                reveal_strlit("$c IN ($c");
                reveal_with_fuel(markers, 10);
            }
            assert(markers(", $c"@, 0) == Some(Used { names: 0, values: 0, children: 1 })) by {
                reveal_strlit(", $c");
                reveal_with_fuel(markers, 5);
            }
            assert(!")"@.contains('$')) by {
                reveal_strlit(")");
            }
            lemma_markers_repeat(", $c"@, (operands - 2) as nat);
            lemma_markers_plain(")"@, 0);
            lemma_markers_concat(head, more, 0);
            lemma_markers_concat(head + more, ")"@, 0);
        },
        _ => {
            reveal_strlit("$c = $c");
            reveal_strlit("$c <> $c");
            reveal_strlit("$c < $c");
            reveal_strlit("$c <= $c");
            reveal_strlit("$c > $c");
            reveal_strlit("$c >= $c");
            reveal_strlit("NOT ($c)");
            reveal_strlit("$c BETWEEN $c AND $c");
            reveal_strlit("attribute_exists ($c)");
            reveal_strlit("attribute_not_exists ($c)");
            reveal_strlit("attribute_type ($c, $c)");
            reveal_strlit("begins_with ($c, $c)");
            reveal_strlit("contains ($c, $c)");
            reveal_with_fuel(markers, 28);
        },
    }
}

/// `($c)` followed by `count - 1` times a piece that asks for one child asks for
/// `count` children.
proof fn lemma_compound_markers(piece: Seq<char>, count: nat)
    requires
        count >= 1,
        piece == " AND ($c)"@ || piece == " OR ($c)"@,
    ensures
        markers("($c)"@ + repeat(piece, (count - 1) as nat), 0) == Some(
            Used { names: 0, values: 0, children: count },
        ),
{
    assert(markers("($c)"@, 0) == Some(Used { names: 0, values: 0, children: 1 })) by {
        reveal_strlit("($c)");
        reveal_with_fuel(markers, 5);
    }
    assert(markers(piece, 0) == Some(Used { names: 0, values: 0, children: 1 })) by {
        reveal_strlit(" AND ($c)");
        reveal_strlit(" OR ($c)");
        reveal_with_fuel(markers, 10);
    }
    lemma_markers_repeat(piece, (count - 1) as nat);
    lemma_markers_concat("($c)"@, repeat(piece, (count - 1) as nat), 0);
}

} // verus!
