//! The top level: a builder that collects up to five kinds of expression and
//! renders them together, against one pair of alias tables.

use vstd::prelude::*;
use crate::condition::ConditionBuilder;
use crate::error::BuildError;
use crate::key_condition::KeyConditionBuilder;
use crate::node::{
    law_fitting_tree_renders, law_tokens_distinct, name_token, node_of, render, sound,
    value_token, AliasList, AliasModel, ExpressionNode, NodeModel,
};
use crate::projection::{projection_tree, ProjectionBuilder};
use crate::text::push_decimal;
use crate::update::UpdateBuilder;
use crate::value::{texts, value_models, AttributeValue, ValueModel};

verus! {

/// The kinds of expression. An [`Expression`] is rendered kind by kind in the
/// order of this list.
#[derive(Clone, Copy, Debug, PartialEq, Eq, Hash, Structural)]
pub enum ExpressionType {
    Condition,
    Filter,
    Projection,
    KeyCondition,
    Update,
}

/// What an [`Expression`] is, mathematically: the text of each kind that is
/// present, and the two alias tables, each absent where it would be empty.
pub struct ExpressionModel {
    pub condition: Option<Seq<char>>,
    pub filter: Option<Seq<char>>,
    pub projection: Option<Seq<char>>,
    pub key_condition: Option<Seq<char>>,
    pub update: Option<Seq<char>>,
    pub names: Option<Seq<(Seq<char>, Seq<char>)>>,
    pub values: Option<Seq<(Seq<char>, ValueModel)>>,
}

impl ExpressionModel {
    /// The expression without texts or tables.
    pub open spec fn empty() -> ExpressionModel {
        ExpressionModel {
            condition: None,
            filter: None,
            projection: None,
            key_condition: None,
            update: None,
            names: None,
            values: None,
        }
    }

    /// The text of `kind`, if it is present.
    pub open spec fn text(self, kind: ExpressionType) -> Option<Seq<char>> {
        match kind {
            ExpressionType::Condition => self.condition,
            ExpressionType::Filter => self.filter,
            ExpressionType::Projection => self.projection,
            ExpressionType::KeyCondition => self.key_condition,
            ExpressionType::Update => self.update,
        }
    }
}

/// The table of name placeholders: `#k` with the name at position `k`, in order;
/// absent where there is no name.
pub open spec fn name_table(names: Seq<Seq<char>>) -> Option<Seq<(Seq<char>, Seq<char>)>> {
    if names.len() == 0 {
        None
    } else {
        Some(Seq::new(names.len(), |k: int| (name_token(k as nat), names[k])))
    }
}

/// The table of value placeholders: `:k` with the value at position `k`, in
/// order; absent where there is no value.
pub open spec fn value_table(values: Seq<ValueModel>) -> Option<Seq<(Seq<char>, ValueModel)>> {
    if values.len() == 0 {
        None
    } else {
        Some(Seq::new(values.len(), |k: int| (value_token(k as nat), values[k])))
    }
}

/// No placeholder stands twice in a table, so each table is a map from
/// placeholders to what they stand for.
pub proof fn law_placeholders_are_keys(
    names: Seq<Seq<char>>,
    values: Seq<ValueModel>,
    i: int,
    j: int,
)
    requires
        0 <= i < j,
    ensures
        name_table(names) matches Some(table) ==> (j < table.len() ==> table[i].0
            != table[j].0),
        value_table(values) matches Some(table) ==> (j < table.len() ==> table[i].0
            != table[j].0),
{
    law_tokens_distinct(i as nat, j as nat);
}

/// One kind rendered: nothing where the kind is absent, else the text of its tree
/// against `aliases`, with the tables as the rendering leaves them. A tree that
/// was not built, or that does not render, is an error.
pub open spec fn rendered(
    tree: Option<Result<NodeModel, BuildError>>,
    aliases: AliasModel,
) -> Result<(Option<Seq<char>>, AliasModel), BuildError> {
    match tree {
        None => Ok((None, aliases)),
        Some(Err(e)) => Err(e),
        Some(Ok(node)) => match render(node, aliases).result {
            Ok(text) => Ok((Some(text), render(node, aliases).aliases)),
            Err(e) => Err(e),
        },
    }
}

/// The expression that the five trees give: each present kind rendered, in the
/// order condition, filter, projection, key condition, update, against tables
/// that start empty and are handed on from kind to kind. The first error, in that
/// order, is the outcome.
pub open spec fn built(
    condition: Option<Result<NodeModel, BuildError>>,
    filter: Option<Result<NodeModel, BuildError>>,
    projection: Option<Result<NodeModel, BuildError>>,
    key_condition: Option<Result<NodeModel, BuildError>>,
    update: Option<Result<NodeModel, BuildError>>,
) -> Result<ExpressionModel, BuildError> {
    match rendered(condition, AliasModel::empty()) {
        Err(e) => Err(e),
        Ok((condition_text, after_condition)) => match rendered(filter, after_condition) {
            Err(e) => Err(e),
            Ok((filter_text, after_filter)) => match rendered(projection, after_filter) {
                Err(e) => Err(e),
                Ok((projection_text, after_projection)) => match rendered(
                    key_condition,
                    after_projection,
                ) {
                    Err(e) => Err(e),
                    Ok((key_condition_text, after_key_condition)) => match rendered(
                        update,
                        after_key_condition,
                    ) {
                        Err(e) => Err(e),
                        Ok((update_text, tables)) => Ok(
                            ExpressionModel {
                                condition: condition_text,
                                filter: filter_text,
                                projection: projection_text,
                                key_condition: key_condition_text,
                                update: update_text,
                                names: name_table(tables.names),
                                values: value_table(tables.values),
                            },
                        ),
                    },
                },
            },
        },
    }
}

/// Whether the tree of a kind, where the kind is present and its tree was built,
/// fits.
pub open spec fn kind_sound(tree: Option<Result<NodeModel, BuildError>>) -> bool {
    tree matches Some(result) ==> sound(result)
}

/// A build of trees that fit fails only where a tree was not built: the error is
/// that of the first kind, in the order of rendering, whose builder failed. No
/// template of a fitting tree is at odds with what its node holds.
pub proof fn law_build_fails_only_with_a_tree(
    condition: Option<Result<NodeModel, BuildError>>,
    filter: Option<Result<NodeModel, BuildError>>,
    projection: Option<Result<NodeModel, BuildError>>,
    key_condition: Option<Result<NodeModel, BuildError>>,
    update: Option<Result<NodeModel, BuildError>>,
)
    requires
        kind_sound(condition),
        kind_sound(filter),
        kind_sound(projection),
        kind_sound(key_condition),
        kind_sound(update),
    ensures
        built(condition, filter, projection, key_condition, update) matches Err(e) ==> {
            ||| condition == Some(Err::<NodeModel, BuildError>(e))
            ||| filter == Some(Err::<NodeModel, BuildError>(e))
            ||| projection == Some(Err::<NodeModel, BuildError>(e))
            ||| key_condition == Some(Err::<NodeModel, BuildError>(e))
            ||| update == Some(Err::<NodeModel, BuildError>(e))
        },
{
    let start = AliasModel::empty();
    lemma_rendered(condition, start);
    if let Ok((_, after_condition)) = rendered(condition, start) {
        lemma_rendered(filter, after_condition);
        if let Ok((_, after_filter)) = rendered(filter, after_condition) {
            lemma_rendered(projection, after_filter);
            if let Ok((_, after_projection)) = rendered(projection, after_filter) {
                lemma_rendered(key_condition, after_projection);
                if let Ok((_, after_key_condition)) = rendered(key_condition, after_projection) {
                    lemma_rendered(update, after_key_condition);
                }
            }
        }
    }
}

/// A kind whose tree fits renders, unless its tree was not built.
proof fn lemma_rendered(tree: Option<Result<NodeModel, BuildError>>, aliases: AliasModel)
    requires
        kind_sound(tree),
    ensures
        rendered(tree, aliases) matches Err(e) ==> tree == Some(Err::<NodeModel, BuildError>(e)),
{
    if let Some(Ok(node)) = tree {
        law_fitting_tree_renders(node, aliases);
    }
}

/// The text of an optional string.
pub open spec fn text_view(text: Option<String>) -> Option<Seq<char>> {
    match text {
        Some(s) => Some(s@),
        None => None,
    }
}

/// The rendered expressions of one build, with the alias tables that they refer
/// to.
#[derive(Debug, PartialEq)]
pub struct Expression {
    /// The condition expression.
    pub condition: Option<String>,
    /// The filter expression.
    pub filter: Option<String>,
    /// The projection expression.
    pub projection: Option<String>,
    /// The key condition expression.
    pub key_condition: Option<String>,
    /// The update expression.
    pub update: Option<String>,
    /// Each name placeholder with the attribute name that it stands for.
    pub names: Option<Vec<(String, String)>>,
    /// Each value placeholder with the literal that it stands for.
    pub values: Option<Vec<(String, AttributeValue)>>,
}

impl View for Expression {
    type V = ExpressionModel;

    open spec fn view(&self) -> ExpressionModel {
        ExpressionModel {
            condition: text_view(self.condition),
            filter: text_view(self.filter),
            projection: text_view(self.projection),
            key_condition: text_view(self.key_condition),
            update: text_view(self.update),
            names: name_entries(self.names),
            values: value_entries(self.values),
        }
    }
}

/// The view of a name table.
pub open spec fn name_entries(table: Option<Vec<(String, String)>>) -> Option<
    Seq<(Seq<char>, Seq<char>)>,
> {
    match table {
        Some(entries) => Some(entries@.map_values(|e: (String, String)| (e.0@, e.1@))),
        None => None,
    }
}

/// The view of a value table.
pub open spec fn value_entries(table: Option<Vec<(String, AttributeValue)>>) -> Option<
    Seq<(Seq<char>, ValueModel)>,
> {
    match table {
        Some(entries) => Some(entries@.map_values(|e: (String, AttributeValue)| (e.0@, e.1@))),
        None => None,
    }
}

/// The kinds and texts of a sequence of entries.
pub open spec fn kind_texts(entries: Seq<(ExpressionType, String)>) -> Seq<
    (ExpressionType, Seq<char>),
> {
    entries.map_values(|e: (ExpressionType, String)| (e.0, e.1@))
}

/// The text that `entries` give to `kind`: that of the last entry for the kind.
pub open spec fn last_text(
    entries: Seq<(ExpressionType, Seq<char>)>,
    kind: ExpressionType,
) -> Option<Seq<char>>
    decreases entries.len(),
{
    if entries.len() == 0 {
        None
    } else if entries.last().0 == kind {
        Some(entries.last().1)
    } else {
        last_text(entries.drop_last(), kind)
    }
}

/// Copies an optional string.
fn clone_text(text: &Option<String>) -> (copy: Option<String>)
    ensures
        text_view(copy) == text_view(*text),
{
    match text {
        Some(s) => Some(s.clone()),
        None => None,
    }
}

impl Clone for Expression {
    /// A copy of the texts and the tables.
    fn clone(&self) -> (copy: Self)
        ensures
            copy@ == self@,
    {
        let names = match &self.names {
            Some(table) => {
                let mut copy: Vec<(String, String)> = Vec::new();
                let mut i: usize = 0;
                while i < table.len()
                    invariant
                        i <= table.len(),
                        copy@.len() == i,
                        forall|j: int|
                            0 <= j < i ==> copy@[j].0@ == table@[j].0@ && copy@[j].1@
                                == table@[j].1@,
                    decreases table.len() - i,
                {
                    let entry = &table[i];
                    copy.push((entry.0.clone(), entry.1.clone()));
                    i += 1;
                }
                let copy = Some(copy);
                assert(name_entries(copy)->Some_0 =~= name_entries(self.names)->Some_0);
                copy
            },
            None => None,
        };
        let values = match &self.values {
            Some(table) => {
                let mut copy: Vec<(String, AttributeValue)> = Vec::new();
                let mut i: usize = 0;
                while i < table.len()
                    invariant
                        i <= table.len(),
                        copy@.len() == i,
                        forall|j: int|
                            0 <= j < i ==> copy@[j].0@ == table@[j].0@ && copy@[j].1@
                                == table@[j].1@,
                    decreases table.len() - i,
                {
                    let entry = &table[i];
                    copy.push((entry.0.clone(), entry.1.clone()));
                    i += 1;
                }
                let copy = Some(copy);
                assert(value_entries(copy)->Some_0 =~= value_entries(self.values)->Some_0);
                copy
            },
            None => None,
        };
        Expression {
            condition: clone_text(&self.condition),
            filter: clone_text(&self.filter),
            projection: clone_text(&self.projection),
            key_condition: clone_text(&self.key_condition),
            update: clone_text(&self.update),
            names,
            values,
        }
    }
}

impl Default for Expression {
    /// The expression without texts or tables.
    fn default() -> (expression: Self)
        ensures
            expression@ == ExpressionModel::empty(),
    {
        Expression {
            condition: None,
            filter: None,
            projection: None,
            key_condition: None,
            update: None,
            names: None,
            values: None,
        }
    }
}

impl Expression {
    /// An expression of the given texts, without tables. Where two entries name
    /// one kind, the later one counts.
    pub fn new(expressions: Vec<(ExpressionType, String)>) -> (expression: Self)
        ensures
            forall|kind: ExpressionType|
                #[trigger] expression@.text(kind) == last_text(kind_texts(expressions@), kind),
            expression@.names is None,
            expression@.values is None,
    {
        let ghost all = kind_texts(expressions@);
        let mut expression = Expression::default();
        for entry in it: expressions
            invariant
                it.seq() == expressions@,
                all == kind_texts(expressions@),
                forall|kind: ExpressionType|
                    #[trigger] expression@.text(kind) == last_text(
                        all.take(it.index() as int),
                        kind,
                    ),
                expression@.names is None,
                expression@.values is None,
        {
            let (kind, text) = entry;
            let ghost before = expression@;
            let ghost line = text@;
            match kind {
                ExpressionType::Condition => {
                    expression.condition = Some(text);
                },
                ExpressionType::Filter => {
                    expression.filter = Some(text);
                },
                ExpressionType::Projection => {
                    expression.projection = Some(text);
                },
                ExpressionType::KeyCondition => {
                    expression.key_condition = Some(text);
                },
                ExpressionType::Update => {
                    expression.update = Some(text);
                },
            }
            proof {
                let next = all.take(it.index() + 1);
                assert(next.drop_last() =~= all.take(it.index() as int));
                assert(next.last() == (kind, line));
                assert forall|k: ExpressionType|
                    #[trigger] expression@.text(k) == last_text(next, k) by {
                    assert(before.text(k) == last_text(next.drop_last(), k));
                }
            }
        }
        proof {
            assert(all.take(all.len() as int) =~= all);
        }
        expression
    }

    /// The condition expression, if the build had one.
    pub fn condition(&self) -> (text: Option<&String>)
        ensures
            text_view_ref(text) == self@.condition,
    {
        self.condition.as_ref()
    }

    /// The filter expression, if the build had one.
    pub fn filter(&self) -> (text: Option<&String>)
        ensures
            text_view_ref(text) == self@.filter,
    {
        self.filter.as_ref()
    }

    /// The projection expression, if the build had one.
    pub fn projection(&self) -> (text: Option<&String>)
        ensures
            text_view_ref(text) == self@.projection,
    {
        self.projection.as_ref()
    }

    /// The key condition expression, if the build had one.
    pub fn key_condition(&self) -> (text: Option<&String>)
        ensures
            text_view_ref(text) == self@.key_condition,
    {
        self.key_condition.as_ref()
    }

    /// The update expression, if the build had one.
    pub fn update(&self) -> (text: Option<&String>)
        ensures
            text_view_ref(text) == self@.update,
    {
        self.update.as_ref()
    }

    /// The table of name placeholders: each placeholder with the attribute name
    /// that it stands for. `None` where no expression refers to a name.
    pub fn names(&self) -> (table: &Option<Vec<(String, String)>>)
        ensures
            name_entries(*table) == self@.names,
    {
        &self.names
    }

    /// The table of value placeholders: each placeholder with the literal that it
    /// stands for. `None` where no expression refers to a literal.
    pub fn values(&self) -> (table: &Option<Vec<(String, AttributeValue)>>)
        ensures
            value_entries(*table) == self@.values,
    {
        &self.values
    }

    /// The expression of `expression_type`, if the build had one.
    pub fn return_expression(&self, expression_type: ExpressionType) -> (text: Option<&String>)
        ensures
            text_view_ref(text) == self@.text(expression_type),
    {
        match expression_type {
            ExpressionType::Condition => self.condition.as_ref(),
            ExpressionType::Filter => self.filter.as_ref(),
            ExpressionType::Projection => self.projection.as_ref(),
            ExpressionType::KeyCondition => self.key_condition.as_ref(),
            ExpressionType::Update => self.update.as_ref(),
        }
    }
}

/// The text of an optional reference to a string.
pub open spec fn text_view_ref(text: Option<&String>) -> Option<Seq<char>> {
    match text {
        Some(s) => Some(s@),
        None => None,
    }
}

/// Collects the expressions of one request: at most one of each kind.
#[derive(Debug)]
pub struct Builder {
    condition: Option<ConditionBuilder>,
    filter: Option<ConditionBuilder>,
    projection: Option<ProjectionBuilder>,
    key_condition: Option<KeyConditionBuilder>,
    update: Option<UpdateBuilder>,
}

/// Renders the tree of one kind, if the kind is present, against `alias_list`.
fn render_kind(
    tree: Option<Result<ExpressionNode, BuildError>>,
    alias_list: &mut AliasList,
) -> (result: Result<Option<String>, BuildError>)
    ensures
        match rendered(tree_view(tree), old(alias_list)@) {
            Err(e) => result == Err::<Option<String>, BuildError>(e),
            Ok((text, aliases)) => result matches Ok(t) && text_view(t) == text
                && final(alias_list)@ == aliases,
        },
{
    match tree {
        None => Ok(None),
        Some(Err(e)) => Err(e),
        Some(Ok(node)) => match node.build_expression_string(alias_list) {
            Ok(text) => Ok(Some(text)),
            Err(e) => Err(e),
        },
    }
}

/// The tree of one kind, or its error, where the kind is present.
pub open spec fn tree_view(tree: Option<Result<ExpressionNode, BuildError>>) -> Option<
    Result<NodeModel, BuildError>,
> {
    match tree {
        Some(result) => Some(node_of(result)),
        None => None,
    }
}

/// The table of name placeholders for `names`.
fn name_entries_of(names: Vec<String>) -> (table: Option<Vec<(String, String)>>)
    ensures
        name_entries(table) == name_table(texts(names@)),
{
    if names.len() == 0 {
        return None;
    }
    let ghost all = texts(names@);
    let mut table: Vec<(String, String)> = Vec::new();
    for name in it: names
        invariant
            it.seq() == names@,
            all == texts(names@),
            table@.len() == it.index(),
            forall|k: int|
                0 <= k < table@.len() ==> (#[trigger] table@[k]).0@ == name_token(k as nat)
                    && table@[k].1@ == all[k],
    {
        let mut token = String::new();
        token.push('#');
        push_decimal(&mut token, table.len() as u64);
        assert(token@ =~= name_token(table@.len()));
        table.push((token, name));
    }
    let table = Some(table);
    assert(name_entries(table)->Some_0 =~= name_table(all)->Some_0);
    table
}

/// The table of value placeholders for `values`.
fn value_entries_of(values: Vec<AttributeValue>) -> (table: Option<Vec<(String, AttributeValue)>>)
    ensures
        value_entries(table) == value_table(value_models(values@)),
{
    if values.len() == 0 {
        return None;
    }
    let ghost all = value_models(values@);
    let mut table: Vec<(String, AttributeValue)> = Vec::new();
    for value in it: values
        invariant
            it.seq() == values@,
            all == value_models(values@),
            table@.len() == it.index(),
            forall|k: int|
                0 <= k < table@.len() ==> (#[trigger] table@[k]).0@ == value_token(k as nat)
                    && table@[k].1@ == all[k],
    {
        let mut token = String::new();
        token.push(':');
        push_decimal(&mut token, table.len() as u64);
        assert(token@ =~= value_token(table@.len()));
        table.push((token, value));
    }
    let table = Some(table);
    assert(value_entries(table)->Some_0 =~= value_table(all)->Some_0);
    table
}

impl Builder {
    /// What building the expression of `kind` yields, where the builder holds one.
    pub closed spec fn tree(self, kind: ExpressionType) -> Option<Result<NodeModel, BuildError>> {
        match kind {
            ExpressionType::Condition => match self.condition {
                Some(b) => Some(b.tree()),
                None => None,
            },
            ExpressionType::Filter => match self.filter {
                Some(b) => Some(b.tree()),
                None => None,
            },
            ExpressionType::Projection => match self.projection {
                Some(b) => Some(projection_tree(b@)),
                None => None,
            },
            ExpressionType::KeyCondition => match self.key_condition {
                Some(b) => Some(b.tree()),
                None => None,
            },
            ExpressionType::Update => match self.update {
                Some(b) => Some(b.tree()),
                None => None,
            },
        }
    }

    /// Whether `self` is `before` with the expression of `kind` set to one that
    /// builds to `tree`.
    pub open spec fn sets(
        self,
        before: Builder,
        kind: ExpressionType,
        tree: Result<NodeModel, BuildError>,
    ) -> bool {
        forall|k: ExpressionType|
            #[trigger] self.tree(k) == if k == kind {
                Some(tree)
            } else {
                before.tree(k)
            }
    }

    /// What building yields: the expression, or the first error.
    pub open spec fn expression(self) -> Result<ExpressionModel, BuildError> {
        built(
            self.tree(ExpressionType::Condition),
            self.tree(ExpressionType::Filter),
            self.tree(ExpressionType::Projection),
            self.tree(ExpressionType::KeyCondition),
            self.tree(ExpressionType::Update),
        )
    }

    /// A builder without expressions.
    pub fn new() -> (builder: Self)
        ensures
            forall|k: ExpressionType| #[trigger] builder.tree(k) is None,
    {
        Builder {
            condition: None,
            filter: None,
            projection: None,
            key_condition: None,
            update: None,
        }
    }

    /// Sets the condition expression, in place of one set before.
    pub fn with_condition(self, condition_builder: ConditionBuilder) -> (builder: Builder)
        ensures
            builder.sets(self, ExpressionType::Condition, condition_builder.tree()),
    {
        let mut builder = self;
        builder.condition = Some(condition_builder);
        builder
    }

    /// Sets the projection expression, in place of one set before.
    pub fn with_projection(self, projection_builder: ProjectionBuilder) -> (builder: Builder)
        ensures
            builder.sets(
                self,
                ExpressionType::Projection,
                projection_tree(projection_builder@),
            ),
    {
        let mut builder = self;
        builder.projection = Some(projection_builder);
        builder
    }

    /// Sets the key condition expression, in place of one set before.
    pub fn with_key_condition(self, key_condition_builder: KeyConditionBuilder) -> (builder:
        Builder)
        ensures
            builder.sets(self, ExpressionType::KeyCondition, key_condition_builder.tree()),
    {
        let mut builder = self;
        builder.key_condition = Some(key_condition_builder);
        builder
    }

    /// Sets the filter expression, in place of one set before.
    pub fn with_filter(self, filter: ConditionBuilder) -> (builder: Builder)
        ensures
            builder.sets(self, ExpressionType::Filter, filter.tree()),
    {
        let mut builder = self;
        builder.filter = Some(filter);
        builder
    }

    /// Sets the update expression, in place of one set before.
    pub fn with_update(self, update_builder: UpdateBuilder) -> (builder: Builder)
        ensures
            builder.sets(self, ExpressionType::Update, update_builder.tree()),
    {
        let mut builder = self;
        builder.update = Some(update_builder);
        builder
    }

    /// Builds every expression that the builder holds and renders them against
    /// shared alias tables.
    pub fn build(self) -> (result: Result<Expression, BuildError>)
        ensures
            expression_of(result) == self.expression(),
    {
        let (expression, alias_list) = match self.build_child_trees() {
            Ok(pair) => pair,
            Err(e) => {
                return Err(e);
            },
        };
        let AliasList { names, values } = alias_list;
        let Expression { condition, filter, projection, key_condition, update, .. } = expression;
        Ok(
            Expression {
                condition,
                filter,
                projection,
                key_condition,
                update,
                names: name_entries_of(names),
                values: value_entries_of(values),
            },
        )
    }

    /// Builds and renders kind by kind: the texts, and the alias tables that the
    /// renderings filled.
    fn build_child_trees(&self) -> (result: Result<(Expression, AliasList), BuildError>)
        ensures
            match self.expression() {
                Err(e) => result == Err::<(Expression, AliasList), BuildError>(e),
                Ok(model) => result matches Ok((expression, alias_list)) && model
                    == ExpressionModel {
                    names: name_table(alias_list@.names),
                    values: value_table(alias_list@.values),
                    ..expression@
                },
            },
    {
        let mut alias_list = AliasList::default();
        let tree = match &self.condition {
            Some(b) => Some(b.build_tree()),
            None => None,
        };
        let condition = match render_kind(tree, &mut alias_list) {
            Ok(text) => text,
            Err(e) => {
                return Err(e);
            },
        };
        let tree = match &self.filter {
            Some(b) => Some(b.build_tree()),
            None => None,
        };
        let filter = match render_kind(tree, &mut alias_list) {
            Ok(text) => text,
            Err(e) => {
                return Err(e);
            },
        };
        let tree = match &self.projection {
            Some(b) => Some(b.build_tree()),
            None => None,
        };
        let projection = match render_kind(tree, &mut alias_list) {
            Ok(text) => text,
            Err(e) => {
                return Err(e);
            },
        };
        let tree = match &self.key_condition {
            Some(b) => Some(b.build_tree()),
            None => None,
        };
        let key_condition = match render_kind(tree, &mut alias_list) {
            Ok(text) => text,
            Err(e) => {
                return Err(e);
            },
        };
        let tree = match &self.update {
            Some(b) => Some(b.build_tree()),
            None => None,
        };
        let update = match render_kind(tree, &mut alias_list) {
            Ok(text) => text,
            Err(e) => {
                return Err(e);
            },
        };
        let expression = Expression {
            condition,
            filter,
            projection,
            key_condition,
            update,
            names: None,
            values: None,
        };
        Ok((expression, alias_list))
    }
}

impl Default for Builder {
    /// A builder without expressions.
    fn default() -> (builder: Self)
        ensures
            forall|k: ExpressionType| #[trigger] builder.tree(k) is None,
    {
        Builder::new()
    }
}

/// The model of a built expression, or the error.
pub open spec fn expression_of(result: Result<Expression, BuildError>) -> Result<
    ExpressionModel,
    BuildError,
> {
    match result {
        Ok(expression) => Ok(expression@),
        Err(e) => Err(e),
    }
}

} // verus!
