//! Updates: the `SET`, `REMOVE`, `ADD` and `DELETE` clauses of an update
//! expression.

use vstd::prelude::*;
use vstd::string::StringExecFns;
use crate::error::{BuildError, Operation, Subject};
use crate::node::{
    all_sound, fits, gather, lemma_children_models, lemma_first_failure_is, lemma_gathered_fit,
    lemma_markers_concat, lemma_markers_plain, markers, node_models, node_of, sound, successes,
    ExpressionNode, NodeModel, Used,
};
use crate::operand::{
    name_tree, value_tree, AnyOperand, NameBuilder, OperandBuilder, ValueBuilder,
};
use crate::projection::{lemma_list_template_markers, list_template};
use crate::text::push_repeated;

verus! {

/// The clause that an operation belongs to. The clauses stand in an update
/// expression in the order of this list.
#[derive(Clone, Copy, Debug, PartialEq, Eq, Structural)]
pub enum OperationMode {
    /// The `SET` clause.
    Assign,
    /// The `REMOVE` clause.
    Remove,
    /// The `ADD` clause.
    Add,
    /// The `DELETE` clause.
    Delete,
}

impl OperationMode {
    /// The keyword of the clause.
    pub open spec fn keyword(self) -> Seq<char> {
        match self {
            OperationMode::Assign => "SET"@,
            OperationMode::Remove => "REMOVE"@,
            OperationMode::Add => "ADD"@,
            OperationMode::Delete => "DELETE"@,
        }
    }

    /// The keyword of the clause.
    pub fn as_str(&self) -> (keyword: &'static str)
        ensures
            keyword@ == self.keyword(),
    {
        match self {
            OperationMode::Assign => "SET",
            OperationMode::Remove => "REMOVE",
            OperationMode::Add => "ADD",
            OperationMode::Delete => "DELETE",
        }
    }
}

impl Default for OperationMode {
    fn default() -> (mode: Self)
        ensures
            mode == OperationMode::Assign,
    {
        OperationMode::Assign
    }
}

/// The template of one operation.
pub open spec fn operation_template(mode: OperationMode) -> Seq<char> {
    match mode {
        OperationMode::Assign => "$c = $c"@,
        OperationMode::Remove => "$c"@,
        OperationMode::Add => "$c $c"@,
        OperationMode::Delete => "$c $c"@,
    }
}

/// The tree of one operation on the attribute that builds to `name`, with the
/// operand that builds to `value`, if there is one.
///
/// The node of the name is the first child and the node of the operand the second.
/// `REMOVE` takes no operand: one that is given is not even built. The name's
/// error comes before the operand's.
pub open spec fn operation_tree(
    mode: OperationMode,
    name: Result<NodeModel, BuildError>,
    value: Option<Result<NodeModel, BuildError>>,
) -> Result<NodeModel, BuildError> {
    match name {
        Err(e) => Err(e),
        Ok(path) => if mode is Remove {
            Ok(NodeModel::of_children(seq![path], operation_template(mode)))
        } else {
            match value {
                Some(Err(e)) => Err(e),
                Some(Ok(operand)) => Ok(
                    NodeModel::of_children(seq![path, operand], operation_template(mode)),
                ),
                None => Ok(NodeModel::of_children(seq![path], operation_template(mode))),
            }
        },
    }
}

/// The tree of the operations of one clause, which build to `operations`: their
/// nodes as children, in order, under a list template. A clause of nothing builds
/// nothing, and the first operation that fails fails the clause.
pub open spec fn clause_tree(operations: Seq<Result<NodeModel, BuildError>>) -> Result<
    NodeModel,
    BuildError,
> {
    if operations.len() == 0 {
        Err(BuildError::EmptyOperationList)
    } else {
        match gather(operations) {
            Err(e) => Err(e),
            Ok(nodes) => Ok(NodeModel::of_children(nodes, list_template(operations.len()))),
        }
    }
}

/// The update so far, `so_far`, with the clause of `mode` added, whose operations
/// build to `operations`: a clause without operations adds nothing; else the
/// template gains the line `KEYWORD $c` and the node gains the clause's tree as
/// its last child.
pub open spec fn with_clause(
    so_far: Result<NodeModel, BuildError>,
    mode: OperationMode,
    operations: Seq<Result<NodeModel, BuildError>>,
) -> Result<NodeModel, BuildError> {
    match so_far {
        Err(e) => Err(e),
        Ok(node) => if operations.len() == 0 {
            Ok(node)
        } else {
            match clause_tree(operations) {
                Err(e) => Err(e),
                Ok(clause) => Ok(
                    NodeModel {
                        children: node.children.push(clause),
                        fmt_expression: node.fmt_expression + mode.keyword() + " $c\n"@,
                        ..node
                    },
                ),
            }
        },
    }
}

/// The tree of an update whose clauses build to `set`, `remove`, `add` and
/// `delete`: one line and one child for each clause that has operations, always in
/// this order. An update without any operation builds nothing.
pub open spec fn update_tree(
    set: Seq<Result<NodeModel, BuildError>>,
    remove: Seq<Result<NodeModel, BuildError>>,
    add: Seq<Result<NodeModel, BuildError>>,
    delete: Seq<Result<NodeModel, BuildError>>,
) -> Result<NodeModel, BuildError> {
    if set.len() == 0 && remove.len() == 0 && add.len() == 0 && delete.len() == 0 {
        Err(BuildError::UnsetParameter(Operation::BuildTree, Subject::UpdateBuilder))
    } else {
        with_clause(
            with_clause(
                with_clause(
                    with_clause(Ok(NodeModel::empty()), OperationMode::Assign, set),
                    OperationMode::Remove,
                    remove,
                ),
                OperationMode::Add,
                add,
            ),
            OperationMode::Delete,
            delete,
        )
    }
}

/// One operation of an update: an attribute, the operand if the clause takes one,
/// and the clause.
#[derive(Debug)]
pub struct OperationBuilder {
    /// The attribute that the operation is on.
    pub name: NameBuilder,
    /// The operand, for a clause that takes one.
    pub value: Option<AnyOperand>,
    /// The clause.
    pub mode: OperationMode,
}

impl Default for OperationBuilder {
    /// An operation of the `SET` clause on the empty name, without operand.
    fn default() -> (operation: Self)
        ensures
            operation.name@ == Seq::<char>::empty(),
            operation.value is None,
            operation.mode == OperationMode::Assign,
    {
        OperationBuilder { name: NameBuilder::default(), value: None, mode: OperationMode::Assign }
    }
}

/// What building each of `operations` yields.
pub open spec fn operation_trees(operations: Seq<OperationBuilder>) -> Seq<
    Result<NodeModel, BuildError>,
> {
    operations.map_values(|o: OperationBuilder| o.tree())
}

impl OperationBuilder {
    /// What building the operand yields, where there is one.
    pub open spec fn value_tree(self) -> Option<Result<NodeModel, BuildError>> {
        match self.value {
            Some(operand) => Some(operand.tree()),
            None => None,
        }
    }

    /// What building the operation yields.
    pub open spec fn tree(self) -> Result<NodeModel, BuildError> {
        operation_tree(self.mode, name_tree(self.name@), self.value_tree())
    }

    /// Builds the tree of the operation.
    pub fn build_operation(&self) -> (result: Result<ExpressionNode, BuildError>)
        ensures
            node_of(result) == self.tree(),
    {
        let path_child = match self.name.build_operand() {
            Ok(operand) => operand.expression_node,
            Err(e) => {
                return Err(e);
            },
        };
        let mut children: Vec<ExpressionNode> = Vec::new();
        children.push(path_child);
        assert(node_models(children@) =~= seq![path_child@]);
        if let OperationMode::Remove = self.mode {
            return Ok(ExpressionNode::from_children_expression(children, "$c"));
        }
        if let Some(value) = &self.value {
            match value.build_operand() {
                Ok(operand) => {
                    let value_child = operand.expression_node;
                    children.push(value_child);
                    assert(node_models(children@) =~= seq![path_child@, value_child@]);
                },
                Err(e) => {
                    return Err(e);
                },
            }
        }
        let template = match self.mode {
            OperationMode::Assign => "$c = $c",
            _ => "$c $c",
        };
        Ok(ExpressionNode::from_children_expression(children, template))
    }

    /// Builds the tree of the clause that `operation_builder_list` makes up.
    pub fn build_child_nodes(operation_builder_list: &Vec<OperationBuilder>) -> (result: Result<
        ExpressionNode,
        BuildError,
    >)
        ensures
            node_of(result) == clause_tree(operation_trees(operation_builder_list@)),
    {
        if operation_builder_list.len() == 0 {
            return Err(BuildError::EmptyOperationList);
        }
        let ghost trees = operation_trees(operation_builder_list@);
        let mut template = "$c".to_owned();
        push_repeated(&mut template, ", $c", operation_builder_list.len() - 1);
        let mut nodes: Vec<ExpressionNode> = Vec::new();
        let mut i: usize = 0;
        while i < operation_builder_list.len()
            invariant
                i <= operation_builder_list.len(),
                trees == operation_trees(operation_builder_list@),
                forall|j: int| 0 <= j < i ==> trees[j] is Ok,
                node_models(nodes@) == successes(trees.take(i as int)),
            decreases operation_builder_list.len() - i,
        {
            match operation_builder_list[i].build_operation() {
                Ok(node) => {
                    proof {
                        assert(trees[i as int] == Ok::<NodeModel, BuildError>(node@));
                        assert(trees.take(i + 1) =~= trees.take(i as int).push(trees[i as int]));
                        assert(node_models(nodes@.push(node)) =~= node_models(nodes@).push(
                            node@,
                        ));
                        assert(successes(trees.take(i + 1)) =~= successes(
                            trees.take(i as int),
                        ).push(node@));
                    }
                    nodes.push(node);
                },
                Err(e) => {
                    proof {
                        assert(trees[i as int] == Err::<NodeModel, BuildError>(e));
                        lemma_first_failure_is(trees, i as nat);
                    }
                    return Err(e);
                },
            }
            i += 1;
        }
        proof {
            lemma_first_failure_is(trees, i as nat);
            assert(trees.take(i as int) =~= trees);
        }
        Ok(ExpressionNode::from_children_expression(nodes, template))
    }
}

/// The operations of an update, clause by clause. Within a clause the operations
/// keep the order in which they were added.
#[derive(Debug)]
pub struct UpdateBuilder {
    set_operations: Vec<OperationBuilder>,
    remove_operations: Vec<OperationBuilder>,
    add_operations: Vec<OperationBuilder>,
    delete_operations: Vec<OperationBuilder>,
}

/// Adds the clause of `mode`, made up of `operations`, to the update `node`.
fn add_clause(
    node: ExpressionNode,
    mode: OperationMode,
    operations: &Vec<OperationBuilder>,
) -> (result: Result<ExpressionNode, BuildError>)
    ensures
        node_of(result) == with_clause(Ok(node@), mode, operation_trees(operations@)),
{
    if operations.len() == 0 {
        return Ok(node);
    }
    let clause = match OperationBuilder::build_child_nodes(operations) {
        Ok(clause) => clause,
        Err(e) => {
            return Err(e);
        },
    };
    let ExpressionNode { names, values, children, fmt_expression } = node;
    let mut children = children;
    let mut template = fmt_expression;
    proof {
        lemma_children_models(node);
        assert(node_models(children@.push(clause)) =~= node_models(children@).push(clause@));
    }
    children.push(clause);
    template.append(mode.as_str());
    template.append(" $c\n");
    let extended = ExpressionNode { names, values, children, fmt_expression: template };
    proof {
        lemma_children_models(extended);
        assert(extended@.fmt_expression =~= node@.fmt_expression + mode.keyword() + " $c\n"@);
    }
    Ok(extended)
}

impl UpdateBuilder {
    /// What building each operation of the clause of `mode` yields.
    pub closed spec fn trees(self, mode: OperationMode) -> Seq<Result<NodeModel, BuildError>> {
        match mode {
            OperationMode::Assign => operation_trees(self.set_operations@),
            OperationMode::Remove => operation_trees(self.remove_operations@),
            OperationMode::Add => operation_trees(self.add_operations@),
            OperationMode::Delete => operation_trees(self.delete_operations@),
        }
    }

    /// What building the update yields: its tree, or the error.
    pub open spec fn tree(self) -> Result<NodeModel, BuildError> {
        update_tree(
            self.trees(OperationMode::Assign),
            self.trees(OperationMode::Remove),
            self.trees(OperationMode::Add),
            self.trees(OperationMode::Delete),
        )
    }

    /// Whether `self` is `before` with one more operation, which builds to
    /// `operation`, at the end of the clause of `mode`.
    pub open spec fn extends(
        self,
        before: UpdateBuilder,
        mode: OperationMode,
        operation: Result<NodeModel, BuildError>,
    ) -> bool {
        forall|m: OperationMode|
            #[trigger] self.trees(m) == if m == mode {
                before.trees(m).push(operation)
            } else {
                before.trees(m)
            }
    }

    /// Whether the update holds one operation, which builds to `operation`, in the
    /// clause of `mode`, and nothing else.
    pub open spec fn holds_only(
        self,
        mode: OperationMode,
        operation: Result<NodeModel, BuildError>,
    ) -> bool {
        forall|m: OperationMode|
            #[trigger] self.trees(m) == if m == mode {
                seq![operation]
            } else {
                Seq::empty()
            }
    }

    /// Whether the update holds no operation.
    pub open spec fn is_empty(self) -> bool {
        forall|m: OperationMode| #[trigger] self.trees(m).len() == 0
    }

    proof fn lemma_first_operation(
        self,
        mode: OperationMode,
        operation: Result<NodeModel, BuildError>,
    )
        requires
            exists|before: UpdateBuilder|
                before.is_empty() && self.extends(before, mode, operation),
        ensures
            self.holds_only(mode, operation),
    {
        let before = choose|before: UpdateBuilder|
            before.is_empty() && self.extends(before, mode, operation);
        assert forall|m: OperationMode|
            #[trigger] self.trees(m) == if m == mode {
                seq![operation]
            } else {
                Seq::<Result<NodeModel, BuildError>>::empty()
            } by {
            assert(before.trees(m).len() == 0);
            assert(self.trees(m) =~= if m == mode {
                seq![operation]
            } else {
                Seq::<Result<NodeModel, BuildError>>::empty()
            });
        }
    }

    fn empty() -> (update: UpdateBuilder)
        ensures
            update.is_empty(),
    {
        UpdateBuilder {
            set_operations: Vec::new(),
            remove_operations: Vec::new(),
            add_operations: Vec::new(),
            delete_operations: Vec::new(),
        }
    }

    /// Adds `DELETE name value`: takes the elements of `value` out of the set at
    /// `name`.
    pub fn delete(self, name: NameBuilder, value: ValueBuilder) -> (update: UpdateBuilder)
        ensures
            update.extends(
                self,
                OperationMode::Delete,
                operation_tree(
                    OperationMode::Delete,
                    name_tree(name@),
                    Some(value_tree(value@)),
                ),
            ),
    {
        let mut update = self;
        let operation = OperationBuilder {
            name,
            value: Some(value.into_operand()),
            mode: OperationMode::Delete,
        };
        proof {
            assert(operation_trees(update.delete_operations@.push(operation))
                =~= operation_trees(update.delete_operations@).push(operation.tree()));
        }
        update.delete_operations.push(operation);
        update
    }

    /// Adds `ADD name value`: adds `value` to the number or to the set at `name`.
    pub fn add(self, name: NameBuilder, value: ValueBuilder) -> (update: UpdateBuilder)
        ensures
            update.extends(
                self,
                OperationMode::Add,
                operation_tree(OperationMode::Add, name_tree(name@), Some(value_tree(value@))),
            ),
    {
        let mut update = self;
        let operation = OperationBuilder {
            name,
            value: Some(value.into_operand()),
            mode: OperationMode::Add,
        };
        proof {
            assert(operation_trees(update.add_operations@.push(operation)) =~= operation_trees(
                update.add_operations@,
            ).push(operation.tree()));
        }
        update.add_operations.push(operation);
        update
    }

    /// Adds `REMOVE name`: takes the attribute at `name` out of the item.
    pub fn remove(self, name: NameBuilder) -> (update: UpdateBuilder)
        ensures
            update.extends(
                self,
                OperationMode::Remove,
                operation_tree(OperationMode::Remove, name_tree(name@), None),
            ),
    {
        let mut update = self;
        let operation = OperationBuilder { name, value: None, mode: OperationMode::Remove };
        proof {
            assert(operation_trees(update.remove_operations@.push(operation))
                =~= operation_trees(update.remove_operations@).push(operation.tree()));
        }
        update.remove_operations.push(operation);
        update
    }

    /// Adds `SET name = operand_builder`.
    pub fn set<R: OperandBuilder>(self, name: NameBuilder, operand_builder: R) -> (update:
        UpdateBuilder)
        ensures
            update.extends(
                self,
                OperationMode::Assign,
                operation_tree(
                    OperationMode::Assign,
                    name_tree(name@),
                    Some(operand_builder.operand_tree()),
                ),
            ),
    {
        let mut update = self;
        let operation = OperationBuilder {
            name,
            value: Some(operand_builder.into_operand()),
            mode: OperationMode::Assign,
        };
        proof {
            assert(operation_trees(update.set_operations@.push(operation)) =~= operation_trees(
                update.set_operations@,
            ).push(operation.tree()));
        }
        update.set_operations.push(operation);
        update
    }

    /// Builds the tree of the update.
    pub fn build_tree(&self) -> (result: Result<ExpressionNode, BuildError>)
        ensures
            node_of(result) == self.tree(),
    {
        if self.set_operations.len() == 0 && self.remove_operations.len() == 0
            && self.add_operations.len() == 0 && self.delete_operations.len() == 0 {
            return Err(BuildError::UnsetParameter(Operation::BuildTree, Subject::UpdateBuilder));
        }
        let node = ExpressionNode::default();
        let node = match add_clause(node, OperationMode::Assign, &self.set_operations) {
            Ok(node) => node,
            Err(e) => {
                return Err(e);
            },
        };
        let node = match add_clause(node, OperationMode::Remove, &self.remove_operations) {
            Ok(node) => node,
            Err(e) => {
                return Err(e);
            },
        };
        let node = match add_clause(node, OperationMode::Add, &self.add_operations) {
            Ok(node) => node,
            Err(e) => {
                return Err(e);
            },
        };
        add_clause(node, OperationMode::Delete, &self.delete_operations)
    }
}

impl Default for UpdateBuilder {
    /// The update without operations, which builds nothing.
    fn default() -> (update: Self)
        ensures
            update.is_empty(),
    {
        UpdateBuilder::empty()
    }
}

/// The update `DELETE name value`.
pub fn delete(name: NameBuilder, value: ValueBuilder) -> (update: UpdateBuilder)
    ensures
        update.holds_only(
            OperationMode::Delete,
            operation_tree(OperationMode::Delete, name_tree(name@), Some(value_tree(value@))),
        ),
{
    let update = UpdateBuilder::empty().delete(name, value);
    proof {
        update.lemma_first_operation(
            OperationMode::Delete,
            operation_tree(OperationMode::Delete, name_tree(name@), Some(value_tree(value@))),
        );
    }
    update
}

/// The update `ADD name value`.
pub fn add(name: NameBuilder, value: ValueBuilder) -> (update: UpdateBuilder)
    ensures
        update.holds_only(
            OperationMode::Add,
            operation_tree(OperationMode::Add, name_tree(name@), Some(value_tree(value@))),
        ),
{
    let update = UpdateBuilder::empty().add(name, value);
    proof {
        update.lemma_first_operation(
            OperationMode::Add,
            operation_tree(OperationMode::Add, name_tree(name@), Some(value_tree(value@))),
        );
    }
    update
}

/// The update `REMOVE name`.
pub fn remove(name: NameBuilder) -> (update: UpdateBuilder)
    ensures
        update.holds_only(
            OperationMode::Remove,
            operation_tree(OperationMode::Remove, name_tree(name@), None),
        ),
{
    let update = UpdateBuilder::empty().remove(name);
    proof {
        update.lemma_first_operation(
            OperationMode::Remove,
            operation_tree(OperationMode::Remove, name_tree(name@), None),
        );
    }
    update
}

/// The update `SET name = operand_builder`.
pub fn set<R: OperandBuilder>(name: NameBuilder, operand_builder: R) -> (update: UpdateBuilder)
    ensures
        update.holds_only(
            OperationMode::Assign,
            operation_tree(
                OperationMode::Assign,
                name_tree(name@),
                Some(operand_builder.operand_tree()),
            ),
        ),
{
    let update = UpdateBuilder::empty().set(name, operand_builder);
    proof {
        update.lemma_first_operation(
            OperationMode::Assign,
            operation_tree(
                OperationMode::Assign,
                name_tree(name@),
                Some(operand_builder.operand_tree()),
            ),
        );
    }
    update
}

/// The tree of an operation fits, where the trees of its parts fit and an operand
/// is there for every clause but `REMOVE`.
pub proof fn law_operation_tree_fits(
    mode: OperationMode,
    name: Result<NodeModel, BuildError>,
    value: Option<Result<NodeModel, BuildError>>,
)
    requires
        sound(name),
        value matches Some(operand) ==> sound(operand),
        mode is Remove || value is Some,
    ensures
        sound(operation_tree(mode, name, value)),
{
    reveal_strlit("$c = $c");
    reveal_strlit("$c");
    reveal_strlit("$c $c");
    reveal_with_fuel(markers, 8);
}

/// The tree of a clause fits, where the trees of its operations fit.
pub proof fn law_clause_tree_fits(operations: Seq<Result<NodeModel, BuildError>>)
    requires
        all_sound(operations),
    ensures
        sound(clause_tree(operations)),
{
    lemma_gathered_fit(operations);
    if operations.len() > 0 {
        lemma_list_template_markers(operations.len());
    }
}

/// Whether an update under construction is a node of fitting clauses only.
spec fn clauses_fit(so_far: Result<NodeModel, BuildError>) -> bool {
    so_far matches Ok(node) ==> fits(node) && node.names.len() == 0 && node.values.len() == 0
}

/// Adding a clause whose operations fit keeps an update fitting.
proof fn lemma_with_clause_fits(
    so_far: Result<NodeModel, BuildError>,
    mode: OperationMode,
    operations: Seq<Result<NodeModel, BuildError>>,
)
    requires
        clauses_fit(so_far),
        all_sound(operations),
    ensures
        clauses_fit(with_clause(so_far, mode, operations)),
{
    law_clause_tree_fits(operations);
    if let Ok(extended) = with_clause(so_far, mode, operations) {
        let node = so_far->Ok_0;
        if operations.len() > 0 {
            let clause = clause_tree(operations)->Ok_0;
            assert(!mode.keyword().contains('$')) by {
                reveal_strlit("SET");
                reveal_strlit("REMOVE");
                reveal_strlit("ADD");
                reveal_strlit("DELETE");
            }
            assert(markers(" $c\n"@, 0) == Some(Used { names: 0, values: 0, children: 1 })) by {
                reveal_strlit(" $c\n");
                reveal_with_fuel(markers, 5);
            }
            lemma_markers_plain(mode.keyword(), 0);
            lemma_markers_concat(node.fmt_expression, mode.keyword(), 0);
            lemma_markers_concat(node.fmt_expression + mode.keyword(), " $c\n"@, 0);
            assert forall|i: int| 0 <= i < extended.children.len() implies fits(
                #[trigger] extended.children[i],
            ) by {
                if i < node.children.len() {
                    assert(extended.children[i] == node.children[i]);
                }
            }
        }
    }
}

/// The tree of an update fits, where the trees of its operations fit.
pub proof fn law_update_tree_fits(
    set: Seq<Result<NodeModel, BuildError>>,
    remove: Seq<Result<NodeModel, BuildError>>,
    add: Seq<Result<NodeModel, BuildError>>,
    delete: Seq<Result<NodeModel, BuildError>>,
)
    requires
        all_sound(set),
        all_sound(remove),
        all_sound(add),
        all_sound(delete),
    ensures
        sound(update_tree(set, remove, add, delete)),
{
    let start = Ok::<NodeModel, BuildError>(NodeModel::empty());
    let first = with_clause(start, OperationMode::Assign, set);
    let second = with_clause(first, OperationMode::Remove, remove);
    let third = with_clause(second, OperationMode::Add, add);
    lemma_with_clause_fits(start, OperationMode::Assign, set);
    lemma_with_clause_fits(first, OperationMode::Remove, remove);
    lemma_with_clause_fits(second, OperationMode::Add, add);
    lemma_with_clause_fits(third, OperationMode::Delete, delete);
}

} // verus!
