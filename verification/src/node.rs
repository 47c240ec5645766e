//! The tree that every builder compiles to, the alias tables, and the renderer
//! that turns a tree into an expression string.
//!
//! A node's template is plain text with three escape markers: `$n` stands for the
//! node's next name, `$v` for its next value and `$c` for its next child. Rendering
//! replaces a name by `#k` and a value by `:k`, where `k` is the position that the
//! name or the value has in the alias tables, and a child by its own rendering.

use vstd::prelude::*;
use vstd::string::StringExecFns;
use crate::error::BuildError;
use crate::text::{
    decimal, first_position, join, repeat, lemma_decimal_injective, lemma_first_position,
    lemma_first_position_is, push_decimal, to_chars, IntoString,
};
use crate::value::{clone_strings, clone_values, texts, value_models, AttributeValue, ValueModel};

verus! {

/// One node of an expression tree.
#[derive(Debug, PartialEq)]
pub struct ExpressionNode {
    /// The attribute names that `$n` markers stand for, in order.
    pub names: Vec<String>,
    /// The literals that `$v` markers stand for, in order.
    pub values: Vec<AttributeValue>,
    /// The subtrees that `$c` markers stand for, in order.
    pub children: Vec<ExpressionNode>,
    /// The template.
    pub fmt_expression: String,
}

/// What an [`ExpressionNode`] is, mathematically.
pub struct NodeModel {
    pub names: Seq<Seq<char>>,
    pub values: Seq<ValueModel>,
    pub children: Seq<NodeModel>,
    pub fmt_expression: Seq<char>,
}

impl NodeModel {
    /// The node without names, values, children or template.
    pub open spec fn empty() -> NodeModel {
        NodeModel {
            names: Seq::empty(),
            values: Seq::empty(),
            children: Seq::empty(),
            fmt_expression: Seq::empty(),
        }
    }

    /// A node that holds names only.
    pub open spec fn of_names(names: Seq<Seq<char>>, fmt_expression: Seq<char>) -> NodeModel {
        NodeModel { names, fmt_expression, ..NodeModel::empty() }
    }

    /// A node that holds values only.
    pub open spec fn of_values(values: Seq<ValueModel>, fmt_expression: Seq<char>) -> NodeModel {
        NodeModel { values, fmt_expression, ..NodeModel::empty() }
    }

    /// A node that holds children only.
    pub open spec fn of_children(children: Seq<NodeModel>, fmt_expression: Seq<char>) -> NodeModel {
        NodeModel { children, fmt_expression, ..NodeModel::empty() }
    }

    /// The same node under another template.
    pub open spec fn with_template(self, fmt_expression: Seq<char>) -> NodeModel {
        NodeModel { fmt_expression, ..self }
    }
}

/// The model of one node.
pub open spec fn node_model(node: ExpressionNode) -> NodeModel
    decreases node,
{
    NodeModel {
        names: texts(node.names@),
        values: value_models(node.values@),
        children: Seq::new(
            node.children@.len(),
            |i: int|
                if 0 <= i < node.children@.len() {
                    node_model(node.children@[i])
                } else {
                    NodeModel::empty()
                },
        ),
        fmt_expression: node.fmt_expression@,
    }
}

/// The models of a sequence of nodes.
pub open spec fn node_models(nodes: Seq<ExpressionNode>) -> Seq<NodeModel> {
    nodes.map_values(|n: ExpressionNode| node_model(n))
}

impl View for ExpressionNode {
    type V = NodeModel;

    open spec fn view(&self) -> NodeModel {
        node_model(*self)
    }
}

/// The children of a node's model are the models of its children.
pub proof fn lemma_children_models(node: ExpressionNode)
    ensures
        node@.children == node_models(node.children@),
{
    assert(node@.children =~= node_models(node.children@));
}

impl Default for ExpressionNode {
    /// The empty node.
    fn default() -> (node: Self)
        ensures
            node@ == NodeModel::empty(),
    {
        let node = ExpressionNode {
            names: Vec::new(),
            values: Vec::new(),
            children: Vec::new(),
            fmt_expression: String::new(),
        };
        proof {
            assert(node@.names =~= Seq::empty());
            assert(node@.values =~= Seq::empty());
            assert(node@.children =~= Seq::empty());
        }
        node
    }
}

impl Clone for ExpressionNode {
    /// A copy that stands for the same tree.
    fn clone(&self) -> (copy: Self)
        ensures
            copy@ == self@,
        decreases self,
    {
        let mut children: Vec<ExpressionNode> = Vec::new();
        let mut i: usize = 0;
        while i < self.children.len()
            invariant
                i <= self.children.len(),
                children@.len() == i,
                forall|j: int| 0 <= j < i ==> children@[j]@ == self.children@[j]@,
            decreases self.children.len() - i,
        {
            children.push(self.children[i].clone());
            i += 1;
        }
        let copy = ExpressionNode {
            names: clone_strings(&self.names),
            values: clone_values(&self.values),
            children,
            fmt_expression: self.fmt_expression.clone(),
        };
        assert(copy@.children =~= self@.children);
        copy
    }
}

impl ExpressionNode {
    /// A node of names under a template.
    pub fn from_names<T: IntoString>(names: Vec<String>, fmt_expression: T) -> (node: Self)
        ensures
            node@ == NodeModel::of_names(texts(names@), fmt_expression.text()),
    {
        let node = ExpressionNode {
            names,
            values: Vec::new(),
            children: Vec::new(),
            fmt_expression: fmt_expression.into_string(),
        };
        proof {
            assert(node@.values =~= Seq::empty());
            assert(node@.children =~= Seq::empty());
        }
        node
    }

    /// A node of values under a template.
    pub fn from_values<T: IntoString>(values: Vec<AttributeValue>, fmt_expression: T) -> (node:
        Self)
        ensures
            node@ == NodeModel::of_values(value_models(values@), fmt_expression.text()),
    {
        let node = ExpressionNode {
            names: Vec::new(),
            values,
            children: Vec::new(),
            fmt_expression: fmt_expression.into_string(),
        };
        proof {
            assert(node@.names =~= Seq::empty());
            assert(node@.children =~= Seq::empty());
        }
        node
    }

    /// A node of children with an empty template.
    pub fn from_children(children: Vec<ExpressionNode>) -> (node: Self)
        ensures
            node@ == NodeModel::of_children(node_models(children@), Seq::empty()),
    {
        let node = ExpressionNode {
            names: Vec::new(),
            values: Vec::new(),
            children,
            fmt_expression: String::new(),
        };
        proof {
            assert(node@.names =~= Seq::empty());
            assert(node@.values =~= Seq::empty());
            assert(node@.children =~= node_models(children@));
        }
        node
    }

    /// A node of children under a template.
    pub fn from_children_expression<T: IntoString>(
        children: Vec<ExpressionNode>,
        fmt_expression: T,
    ) -> (node: Self)
        ensures
            node@ == NodeModel::of_children(node_models(children@), fmt_expression.text()),
    {
        let node = ExpressionNode {
            names: Vec::new(),
            values: Vec::new(),
            children,
            fmt_expression: fmt_expression.into_string(),
        };
        proof {
            assert(node@.names =~= Seq::empty());
            assert(node@.values =~= Seq::empty());
            assert(node@.children =~= node_models(children@));
        }
        node
    }
}

/// The alias tables of one build: the attribute names and the literals that have
/// been given a placeholder so far, each at the position that its placeholder
/// names.
#[derive(Debug, PartialEq)]
pub struct AliasList {
    /// The names with a placeholder; `#k` stands for the name at position `k`.
    pub names: Vec<String>,
    /// The literals with a placeholder; `:k` stands for the literal at position `k`.
    pub values: Vec<AttributeValue>,
}

/// What an [`AliasList`] is, mathematically.
pub struct AliasModel {
    pub names: Seq<Seq<char>>,
    pub values: Seq<ValueModel>,
}

impl AliasModel {
    /// The tables before anything has been given a placeholder.
    pub open spec fn empty() -> AliasModel {
        AliasModel { names: Seq::empty(), values: Seq::empty() }
    }

    /// Whether no name stands in the table twice.
    pub open spec fn names_distinct(self) -> bool {
        forall|i: int, j: int|
            0 <= i < j < self.names.len() ==> self.names[i] != self.names[j]
    }
}

impl View for AliasList {
    type V = AliasModel;

    open spec fn view(&self) -> AliasModel {
        AliasModel { names: texts(self.names@), values: value_models(self.values@) }
    }
}

/// The placeholder of the name at position `index`.
pub open spec fn name_token(index: nat) -> Seq<char> {
    seq!['#'] + decimal(index)
}

/// The placeholder of the literal at position `index`.
pub open spec fn value_token(index: nat) -> Seq<char> {
    seq![':'] + decimal(index)
}

/// The tables after `path` has been given a placeholder: unchanged where the name
/// has one already, else longer by this name.
pub open spec fn alias_path_tables(aliases: AliasModel, path: Seq<char>) -> AliasModel {
    if first_position(aliases.names, path) < aliases.names.len() {
        aliases
    } else {
        AliasModel { names: aliases.names.push(path), ..aliases }
    }
}

/// The placeholder that `path` gets.
pub open spec fn alias_path_token(aliases: AliasModel, path: Seq<char>) -> Seq<char> {
    name_token(first_position(aliases.names, path))
}

/// The tables after `value` has been given a placeholder: always longer by this
/// value.
pub open spec fn alias_value_tables(aliases: AliasModel, value: ValueModel) -> AliasModel {
    AliasModel { values: aliases.values.push(value), ..aliases }
}

/// The placeholder that the next value gets.
pub open spec fn alias_value_token(aliases: AliasModel) -> Seq<char> {
    value_token(aliases.values.len())
}

impl Default for AliasList {
    /// Empty tables.
    fn default() -> (list: Self)
        ensures
            list@ == AliasModel::empty(),
    {
        let list = AliasList { names: Vec::new(), values: Vec::new() };
        proof {
            assert(list@.names =~= Seq::empty());
            assert(list@.values =~= Seq::empty());
        }
        list
    }
}

impl Clone for AliasList {
    /// A copy of the tables.
    fn clone(&self) -> (copy: Self)
        ensures
            copy@ == self@,
    {
        AliasList { names: clone_strings(&self.names), values: clone_values(&self.values) }
    }
}

impl AliasList {
    /// Gives `dav` the next value placeholder and returns it. Equal values are not
    /// shared: every call takes a new position.
    pub fn alias_value(&mut self, dav: AttributeValue) -> (token: String)
        ensures
            token@ == alias_value_token(old(self)@),
            final(self)@ == alias_value_tables(old(self)@, dav@),
    {
        let index = self.values.len();
        self.values.push(dav);
        let mut token = String::new();
        token.push(':');
        push_decimal(&mut token, index as u64);
        proof {
            assert(self@.values =~= old(self)@.values.push(dav@));
            assert(self@.names =~= old(self)@.names);
            assert(token@ =~= value_token(index as nat));
        }
        token
    }

    /// Returns the placeholder of the name `nm`: the one it has where the name
    /// stands in the table already, else the next one, after entering the name.
    pub fn alias_path<T: IntoString>(&mut self, nm: T) -> (token: String)
        ensures
            token@ == alias_path_token(old(self)@, nm.text()),
            final(self)@ == alias_path_tables(old(self)@, nm.text()),
    {
        let nm = nm.into_string();
        let mut index: usize = 0;
        let mut found = false;
        while index < self.names.len() && !found
            invariant
                index <= self.names.len(),
                *self == *old(self),
                forall|j: int| 0 <= j < index ==> self@.names[j] != nm@,
                found ==> index < self.names.len() && self@.names[index as int] == nm@,
            decreases self.names.len() - index + (if found { 0int } else { 1int }),
        {
            if self.names[index] == nm {
                found = true;
            } else {
                index += 1;
            }
        }
        proof {
            lemma_first_position_is(old(self)@.names, nm@, index as nat);
        }
        if !found {
            self.names.push(nm);
            proof {
                assert(self@.names =~= old(self)@.names.push(nm@));
                assert(self@.values =~= old(self)@.values);
            }
        }
        let mut token = String::new();
        token.push('#');
        push_decimal(&mut token, index as u64);
        proof {
            assert(token@ =~= name_token(index as nat));
        }
        token
    }
}

/// How many of a node's names, values and children a rendering has used so far.
pub struct Used {
    pub names: nat,
    pub values: nat,
    pub children: nat,
}

/// The outcome of a rendering: the text or the failure, and the alias tables as the
/// rendering leaves them. After a failure the tables hold what was entered before
/// the fault was met.
pub struct Rendering {
    pub result: Result<Seq<char>, BuildError>,
    pub aliases: AliasModel,
}

/// Renders what is left of `node`'s template from position `pos` on, after `out`
/// has been written, `used` has been consumed and the tables stand at `aliases`.
///
/// A character other than `$` is copied. `$n`, `$v` and `$c` take the node's next
/// name, value or child: the name and the value are replaced by their
/// placeholders, the child by its own rendering against the same tables. A `$` at
/// the end, a `$` before any other character, and a marker for which the node has
/// nothing left each end the rendering with their error.
pub open spec fn render_from(
    node: NodeModel,
    pos: int,
    used: Used,
    out: Seq<char>,
    aliases: AliasModel,
) -> Rendering
    decreases node, node.fmt_expression.len() - pos,
{
    let template = node.fmt_expression;
    if pos < 0 || pos >= template.len() {
        Rendering { result: Ok(out), aliases }
    } else if template[pos] != '$' {
        render_from(node, pos + 1, used, out.push(template[pos]), aliases)
    } else if pos + 1 >= template.len() {
        Rendering { result: Err(BuildError::InvalidEscapeCharacter), aliases }
    } else if template[pos + 1] == 'n' {
        if used.names >= node.names.len() {
            Rendering { result: Err(BuildError::NamesOutOfRange), aliases }
        } else {
            let path = node.names[used.names as int];
            render_from(
                node,
                pos + 2,
                Used { names: used.names + 1, ..used },
                out + alias_path_token(aliases, path),
                alias_path_tables(aliases, path),
            )
        }
    } else if template[pos + 1] == 'v' {
        if used.values >= node.values.len() {
            Rendering { result: Err(BuildError::ValuesOutOfRange), aliases }
        } else {
            render_from(
                node,
                pos + 2,
                Used { values: used.values + 1, ..used },
                out + alias_value_token(aliases),
                alias_value_tables(aliases, node.values[used.values as int]),
            )
        }
    } else if template[pos + 1] == 'c' {
        if used.children >= node.children.len() {
            Rendering { result: Err(BuildError::ChildrenOutOfRange), aliases }
        } else {
            let child = render(node.children[used.children as int], aliases);
            match child.result {
                Ok(text) => render_from(
                    node,
                    pos + 2,
                    Used { children: used.children + 1, ..used },
                    out + text,
                    child.aliases,
                ),
                Err(e) => child,
            }
        }
    } else {
        Rendering { result: Err(BuildError::InvalidEscapeRune(template[pos + 1])), aliases }
    }
}

/// Renders `node` against the tables `aliases`.
pub open spec fn render(node: NodeModel, aliases: AliasModel) -> Rendering
    decreases node, node.fmt_expression.len() + 1,
{
    render_from(node, 0, Used { names: 0, values: 0, children: 0 }, Seq::empty(), aliases)
}

/// The position of the first failure among `results`, or their number where none
/// failed.
pub open spec fn first_failure(results: Seq<Result<NodeModel, BuildError>>) -> nat
    decreases results.len(),
{
    if results.len() == 0 {
        0
    } else if results.first() is Err {
        0
    } else {
        1 + first_failure(results.drop_first())
    }
}

/// The nodes of `results`, where every one succeeded.
pub open spec fn successes(results: Seq<Result<NodeModel, BuildError>>) -> Seq<NodeModel> {
    results.map_values(|r: Result<NodeModel, BuildError>| r->Ok_0)
}

/// The nodes of `results` in order where every one succeeded, else the first
/// failure.
pub open spec fn gather(results: Seq<Result<NodeModel, BuildError>>) -> Result<
    Seq<NodeModel>,
    BuildError,
> {
    let k = first_failure(results);
    if k < results.len() {
        Err(results[k as int]->Err_0)
    } else {
        Ok(successes(results))
    }
}

/// `first_failure` is the position of the first failure.
pub proof fn lemma_first_failure(results: Seq<Result<NodeModel, BuildError>>)
    ensures
        first_failure(results) <= results.len(),
        first_failure(results) < results.len() ==> results[first_failure(results) as int] is Err,
        forall|j: int| 0 <= j < first_failure(results) ==> results[j] is Ok,
    decreases results.len(),
{
    if results.len() != 0 && results.first() is Ok {
        let rest = results.drop_first();
        lemma_first_failure(rest);
        assert forall|j: int| 0 <= j < first_failure(results) implies results[j] is Ok by {
            if j > 0 {
                assert(rest[j - 1] == results[j]);
            }
        }
    }
}

/// A position with a failure at it and none before it is the first failure.
pub proof fn lemma_first_failure_is(results: Seq<Result<NodeModel, BuildError>>, k: nat)
    requires
        k <= results.len(),
        k < results.len() ==> results[k as int] is Err,
        forall|j: int| 0 <= j < k ==> results[j] is Ok,
    ensures
        first_failure(results) == k,
{
    lemma_first_failure(results);
    let f = first_failure(results);
    if f < k {
        assert(results[f as int] is Ok);
    } else if f > k {
        assert(results[k as int] is Err);
    }
}

/// Nothing gathers to nothing.
pub proof fn lemma_gather_empty()
    ensures
        gather(Seq::empty()) == Ok::<Seq<NodeModel>, BuildError>(Seq::empty()),
{
    let none = Seq::<Result<NodeModel, BuildError>>::empty();
    assert(successes(none) =~= Seq::<NodeModel>::empty());
}

/// Where every result succeeded, there are as many nodes as results.
pub proof fn lemma_gather_len(results: Seq<Result<NodeModel, BuildError>>)
    ensures
        gather(results) matches Ok(nodes) ==> nodes.len() == results.len(),
{
}

/// The tree of a built node, or the error.
pub open spec fn node_of(result: Result<ExpressionNode, BuildError>) -> Result<
    NodeModel,
    BuildError,
> {
    match result {
        Ok(node) => Ok(node@),
        Err(e) => Err(e),
    }
}

/// The text of a result, or its error.
pub open spec fn text_of(result: Result<String, BuildError>) -> Result<Seq<char>, BuildError> {
    match result {
        Ok(s) => Ok(s@),
        Err(e) => Err(e),
    }
}

impl ExpressionNode {
    /// Renders the tree against `alias_list`: the expression string in which every
    /// name and value has given way to its placeholder, and the tables extended by
    /// what the tree refers to.
    pub fn build_expression_string(&self, alias_list: &mut AliasList) -> (result: Result<
        String,
        BuildError,
    >)
        ensures
            text_of(result) == render(self@, old(alias_list)@).result,
            final(alias_list)@ == render(self@, old(alias_list)@).aliases,
        decreases self,
    {
        let template = to_chars(self.fmt_expression.as_str());
        let mut out = String::new();
        let mut names_used: usize = 0;
        let mut values_used: usize = 0;
        let mut children_used: usize = 0;
        let mut idx: usize = 0;
        while idx < template.len()
            invariant
                idx <= template.len(),
                template@ == self@.fmt_expression,
                names_used <= self.names.len(),
                values_used <= self.values.len(),
                children_used <= self.children.len(),
                render_from(
                    self@,
                    idx as int,
                    Used {
                        names: names_used as nat,
                        values: values_used as nat,
                        children: children_used as nat,
                    },
                    out@,
                    alias_list@,
                ) == render(self@, old(alias_list)@),
            decreases template.len() - idx,
        {
            let c = template[idx];
            if c != '$' {
                out.push(c);
                idx += 1;
                continue ;
            }
            if idx == template.len() - 1 {
                return Err(BuildError::InvalidEscapeCharacter);
            }
            let rune = template[idx + 1];
            if rune == 'n' {
                if names_used >= self.names.len() {
                    return Err(BuildError::NamesOutOfRange);
                }
                let token = alias_list.alias_path(self.names[names_used].clone());
                out.append(token.as_str());
                names_used += 1;
            } else if rune == 'v' {
                if values_used >= self.values.len() {
                    return Err(BuildError::ValuesOutOfRange);
                }
                let token = alias_list.alias_value(self.values[values_used].clone());
                out.append(token.as_str());
                values_used += 1;
            } else if rune == 'c' {
                if children_used >= self.children.len() {
                    return Err(BuildError::ChildrenOutOfRange);
                }
                match self.children[children_used].build_expression_string(alias_list) {
                    Ok(text) => {
                        out.append(text.as_str());
                    },
                    Err(e) => {
                        return Err(e);
                    },
                }
                children_used += 1;
            } else {
                return Err(BuildError::InvalidEscapeRune(rune));
            }
            idx += 2;
        }
        Ok(out)
    }
}

impl AliasModel {
    /// Whether `self` holds everything that `earlier` holds, at the same positions:
    /// a placeholder that was handed out keeps its meaning.
    pub open spec fn extends(self, earlier: AliasModel) -> bool {
        earlier.names.is_prefix_of(self.names) && earlier.values.is_prefix_of(self.values)
    }
}

/// A name that is referred to twice gets one placeholder: the second reference
/// returns the placeholder of the first and leaves the tables as they are.
pub proof fn law_alias_path_shared(aliases: AliasModel, path: Seq<char>)
    ensures
        alias_path_token(alias_path_tables(aliases, path), path) == alias_path_token(
            aliases,
            path,
        ),
        alias_path_tables(alias_path_tables(aliases, path), path) == alias_path_tables(
            aliases,
            path,
        ),
{
    lemma_first_position(aliases.names, path);
    let k = first_position(aliases.names, path);
    let after = alias_path_tables(aliases, path);
    assert(after.names[k as int] == path);
    assert forall|j: int| 0 <= j < k implies after.names[j] != path by {
        assert(after.names[j] == aliases.names[j]);
    }
    lemma_first_position_is(after.names, path, k);
}

/// Entering a name keeps what the tables hold, and keeps the names distinct where
/// they were.
pub proof fn law_alias_path_extends(aliases: AliasModel, path: Seq<char>)
    ensures
        alias_path_tables(aliases, path).extends(aliases),
        aliases.names_distinct() ==> alias_path_tables(aliases, path).names_distinct(),
{
    lemma_first_position(aliases.names, path);
}

/// Different positions have different placeholders, for names and for values.
pub proof fn law_tokens_distinct(i: nat, j: nat)
    ensures
        name_token(i) == name_token(j) ==> i == j,
        value_token(i) == value_token(j) ==> i == j,
{
    if name_token(i) == name_token(j) {
        assert(name_token(i).skip(1) =~= decimal(i));
        assert(name_token(j).skip(1) =~= decimal(j));
        lemma_decimal_injective(i, j);
    }
    if value_token(i) == value_token(j) {
        assert(value_token(i).skip(1) =~= decimal(i));
        assert(value_token(j).skip(1) =~= decimal(j));
        lemma_decimal_injective(i, j);
    }
}

/// A literal that is referred to twice gets two placeholders: whatever the two
/// values are, equal or not, the second placeholder differs from the first, and
/// both values stand in the tables.
pub proof fn law_alias_value_fresh(aliases: AliasModel, first: ValueModel, second: ValueModel)
    ensures
        alias_value_token(alias_value_tables(aliases, first)) != alias_value_token(aliases),
        alias_value_tables(alias_value_tables(aliases, first), second).values
            == aliases.values.push(first).push(second),
{
    law_tokens_distinct(aliases.values.len(), aliases.values.len() + 1);
}

/// Rendering only adds to the tables: what they held before they hold after, at
/// the same positions, also where the rendering fails. Names that were distinct
/// stay distinct.
pub proof fn law_render_from_extends(
    node: NodeModel,
    pos: int,
    used: Used,
    out: Seq<char>,
    aliases: AliasModel,
)
    ensures
        render_from(node, pos, used, out, aliases).aliases.extends(aliases),
        aliases.names_distinct() ==> render_from(
            node,
            pos,
            used,
            out,
            aliases,
        ).aliases.names_distinct(),
    decreases node, node.fmt_expression.len() - pos,
{
    let template = node.fmt_expression;
    if pos < 0 || pos >= template.len() {
    } else if template[pos] != '$' {
        law_render_from_extends(node, pos + 1, used, out.push(template[pos]), aliases);
    } else if pos + 1 >= template.len() {
    } else if template[pos + 1] == 'n' {
        if used.names < node.names.len() {
            let path = node.names[used.names as int];
            law_alias_path_extends(aliases, path);
            law_render_from_extends(
                node,
                pos + 2,
                Used { names: used.names + 1, ..used },
                out + alias_path_token(aliases, path),
                alias_path_tables(aliases, path),
            );
        }
    } else if template[pos + 1] == 'v' {
        if used.values < node.values.len() {
            law_render_from_extends(
                node,
                pos + 2,
                Used { values: used.values + 1, ..used },
                out + alias_value_token(aliases),
                alias_value_tables(aliases, node.values[used.values as int]),
            );
        }
    } else if template[pos + 1] == 'c' {
        if used.children < node.children.len() {
            let child = node.children[used.children as int];
            law_render_extends(child, aliases);
            let rendered = render(child, aliases);
            match rendered.result {
                Ok(text) => {
                    law_render_from_extends(
                        node,
                        pos + 2,
                        Used { children: used.children + 1, ..used },
                        out + text,
                        rendered.aliases,
                    );
                },
                Err(e) => {},
            }
        }
    }
}

/// Rendering a tree only adds to the tables, and keeps the names distinct where
/// they were.
pub proof fn law_render_extends(node: NodeModel, aliases: AliasModel)
    ensures
        render(node, aliases).aliases.extends(aliases),
        aliases.names_distinct() ==> render(node, aliases).aliases.names_distinct(),
    decreases node, node.fmt_expression.len() + 1,
{
    law_render_from_extends(
        node,
        0,
        Used { names: 0, values: 0, children: 0 },
        Seq::empty(),
        aliases,
    );
}

/// A name that has a placeholder keeps it for the rest of the build: whatever was
/// added to the tables since, a later reference to the name returns the same
/// placeholder and adds nothing.
pub proof fn law_placeholder_is_kept(earlier: AliasModel, later: AliasModel, path: Seq<char>)
    requires
        later.extends(earlier),
        first_position(earlier.names, path) < earlier.names.len(),
    ensures
        alias_path_token(later, path) == alias_path_token(earlier, path),
        alias_path_tables(later, path) == later,
{
    lemma_first_position(earlier.names, path);
    let k = first_position(earlier.names, path);
    assert(later.names[k as int] == earlier.names[k as int]);
    assert forall|j: int| 0 <= j < k implies later.names[j] != path by {
        assert(later.names[j] == earlier.names[j]);
    }
    lemma_first_position_is(later.names, path, k);
}

/// A node of one name under `$n` renders to the placeholder of the name.
pub proof fn law_name_renders_to_placeholder(path: Seq<char>, aliases: AliasModel)
    ensures
        render(NodeModel::of_names(seq![path], "$n"@), aliases) == (Rendering {
            result: Ok(alias_path_token(aliases, path)),
            aliases: alias_path_tables(aliases, path),
        }),
{
    reveal_strlit("$n");
    let node = NodeModel::of_names(seq![path], "$n"@);
    let start = Used { names: 0, values: 0, children: 0 };
    let token = Seq::<char>::empty() + alias_path_token(aliases, path);
    let tables = alias_path_tables(aliases, path);
    assert(node.fmt_expression.len() == 2);
    assert(node.fmt_expression[0] == '$');
    assert(node.fmt_expression[1] == 'n');
    assert(render_from(node, 0, start, Seq::empty(), aliases) == render_from(
        node,
        2,
        Used { names: 1, ..start },
        token,
        tables,
    ));
    assert(token =~= alias_path_token(aliases, path));
}

/// A node of one value under `$v` renders to the placeholder of the next value,
/// and the value enters the tables.
pub proof fn law_value_renders_to_placeholder(value: ValueModel, aliases: AliasModel)
    ensures
        render(NodeModel::of_values(seq![value], "$v"@), aliases) == (Rendering {
            result: Ok(alias_value_token(aliases)),
            aliases: alias_value_tables(aliases, value),
        }),
{
    reveal_strlit("$v");
    let node = NodeModel::of_values(seq![value], "$v"@);
    let start = Used { names: 0, values: 0, children: 0 };
    let token = Seq::<char>::empty() + alias_value_token(aliases);
    let tables = alias_value_tables(aliases, value);
    assert(node.fmt_expression.len() == 2);
    assert(node.fmt_expression[0] == '$');
    assert(node.fmt_expression[1] == 'v');
    assert(render_from(node, 0, start, Seq::empty(), aliases) == render_from(
        node,
        2,
        Used { values: 1, ..start },
        token,
        tables,
    ));
    assert(token =~= alias_value_token(aliases));
}

/// A name that is rendered twice in one build renders to the same text both
/// times, and the second rendering adds nothing to the tables.
pub proof fn law_name_rendered_twice(path: Seq<char>, aliases: AliasModel)
    ensures
        ({
            let node = NodeModel::of_names(seq![path], "$n"@);
            let first = render(node, aliases);
            let second = render(node, first.aliases);
            first.result is Ok && second.result == first.result && second.aliases
                == first.aliases
        }),
{
    law_name_renders_to_placeholder(path, aliases);
    law_name_renders_to_placeholder(path, alias_path_tables(aliases, path));
    law_alias_path_shared(aliases, path);
}

/// A literal that is rendered twice in one build renders to two different texts,
/// and stands in the tables twice.
pub proof fn law_value_rendered_twice(value: ValueModel, aliases: AliasModel)
    ensures
        ({
            let node = NodeModel::of_values(seq![value], "$v"@);
            let first = render(node, aliases);
            let second = render(node, first.aliases);
            first.result is Ok && second.result is Ok && second.result != first.result
                && second.aliases.values == aliases.values.push(value).push(value)
        }),
{
    law_value_renders_to_placeholder(value, aliases);
    law_value_renders_to_placeholder(value, alias_value_tables(aliases, value));
    law_alias_value_fresh(aliases, value, value);
}

/// The empty node renders to the empty text and leaves the tables as they are.
pub proof fn law_empty_node_renders_empty(aliases: AliasModel)
    ensures
        render(NodeModel::empty(), aliases) == (Rendering {
            result: Ok(Seq::empty()),
            aliases,
        }),
{
}

/// No names, values or children.
pub open spec fn none_used() -> Used {
    Used { names: 0, values: 0, children: 0 }
}

impl Used {
    /// The sum of two counts.
    pub open spec fn plus(self, other: Used) -> Used {
        Used {
            names: self.names + other.names,
            values: self.values + other.values,
            children: self.children + other.children,
        }
    }
}

/// What the markers of `template` from position `pos` on ask for: so many names,
/// values and children. `None` where a `$` stands at the end or before a character
/// that makes no marker.
pub open spec fn markers(template: Seq<char>, pos: int) -> Option<Used>
    decreases template.len() - pos,
{
    if pos < 0 || pos >= template.len() {
        Some(none_used())
    } else if template[pos] != '$' {
        markers(template, pos + 1)
    } else if pos + 1 >= template.len() {
        None
    } else {
        match markers(template, pos + 2) {
            None => None,
            Some(rest) => if template[pos + 1] == 'n' {
                Some(Used { names: rest.names + 1, ..rest })
            } else if template[pos + 1] == 'v' {
                Some(Used { values: rest.values + 1, ..rest })
            } else if template[pos + 1] == 'c' {
                Some(Used { children: rest.children + 1, ..rest })
            } else {
                None
            },
        }
    }
}

/// Whether the template of `node` asks for exactly what the node holds, and so
/// down the tree.
pub open spec fn fits(node: NodeModel) -> bool
    decreases node,
{
    &&& markers(node.fmt_expression, 0) == Some(
        Used {
            names: node.names.len(),
            values: node.values.len(),
            children: node.children.len(),
        },
    )
    &&& forall|i: int| 0 <= i < node.children.len() ==> fits(#[trigger] node.children[i])
}

/// Whether a tree, where it was built, fits.
pub open spec fn sound(tree: Result<NodeModel, BuildError>) -> bool {
    tree matches Ok(node) ==> fits(node)
}

/// Whether every tree of `trees` that was built fits.
pub open spec fn all_sound(trees: Seq<Result<NodeModel, BuildError>>) -> bool {
    forall|i: int| 0 <= i < trees.len() ==> sound(#[trigger] trees[i])
}

/// A text without `$` holds no marker.
pub proof fn lemma_markers_plain(text: Seq<char>, pos: int)
    requires
        !text.contains('$'),
    ensures
        markers(text, pos) == Some(none_used()),
    decreases text.len() - pos,
{
    if 0 <= pos < text.len() {
        assert(text.contains(text[pos]));
        lemma_markers_plain(text, pos + 1);
    }
}

/// Behind the end of `first`, the markers of `first + second` are those of
/// `second`.
pub proof fn lemma_markers_behind(first: Seq<char>, second: Seq<char>, pos: int)
    requires
        0 <= pos,
    ensures
        markers(first + second, first.len() + pos) == markers(second, pos),
    decreases second.len() - pos,
{
    let whole = first + second;
    if pos < second.len() {
        assert(whole[first.len() + pos] == second[pos]);
        if second[pos] != '$' {
            lemma_markers_behind(first, second, pos + 1);
        } else if pos + 1 < second.len() {
            assert(whole[first.len() + pos + 1] == second[pos + 1]);
            lemma_markers_behind(first, second, pos + 2);
        }
    }
}

/// Where the markers of `first` are in order, the markers of `first + second` are
/// those of the two together.
pub proof fn lemma_markers_concat(first: Seq<char>, second: Seq<char>, pos: int)
    requires
        0 <= pos <= first.len(),
        markers(first, pos) is Some,
    ensures
        markers(first + second, pos) == match markers(second, 0) {
            Some(more) => Some(markers(first, pos)->Some_0.plus(more)),
            None => None,
        },
    decreases first.len() - pos,
{
    let whole = first + second;
    if pos == first.len() {
        lemma_markers_behind(first, second, 0);
    } else {
        assert(whole[pos] == first[pos]);
        if first[pos] != '$' {
            lemma_markers_concat(first, second, pos + 1);
        } else {
            assert(whole[pos + 1] == first[pos + 1]);
            lemma_markers_concat(first, second, pos + 2);
        }
    }
}

/// A piece that asks for one child, written `n` times, asks for `n` children.
pub proof fn lemma_markers_repeat(piece: Seq<char>, n: nat)
    requires
        markers(piece, 0) == Some(Used { names: 0, values: 0, children: 1 }),
    ensures
        markers(repeat(piece, n), 0) == Some(Used { names: 0, values: 0, children: n }),
    decreases n,
{
    if n > 0 {
        lemma_markers_repeat(piece, (n - 1) as nat);
        lemma_markers_concat(repeat(piece, (n - 1) as nat), piece, 0);
    }
}

/// Pieces that ask for one name each, joined by a separator without `$`, ask for
/// as many names as there are pieces.
pub proof fn lemma_markers_join(pieces: Seq<Seq<char>>, sep: Seq<char>)
    requires
        !sep.contains('$'),
        forall|i: int|
            0 <= i < pieces.len() ==> markers(#[trigger] pieces[i], 0) == Some(
                Used { names: 1, values: 0, children: 0 },
            ),
    ensures
        markers(join(pieces, sep), 0) == Some(
            Used { names: pieces.len(), values: 0, children: 0 },
        ),
    decreases pieces.len(),
{
    if pieces.len() >= 2 {
        let front = pieces.drop_last();
        assert forall|i: int| 0 <= i < front.len() implies markers(#[trigger] front[i], 0)
            == Some(Used { names: 1, values: 0, children: 0 }) by {
            assert(front[i] == pieces[i]);
        }
        lemma_markers_join(front, sep);
        lemma_markers_plain(sep, 0);
        lemma_markers_concat(join(front, sep), sep, 0);
        lemma_markers_concat(join(front, sep) + sep, pieces.last(), 0);
    } else if pieces.len() == 1 {
        assert(markers(pieces[0], 0) is Some);
    }
}

/// Where every tree was built and those that were built fit, the gathered nodes
/// fit.
pub proof fn lemma_gathered_fit(trees: Seq<Result<NodeModel, BuildError>>)
    requires
        all_sound(trees),
    ensures
        gather(trees) matches Ok(nodes) ==> nodes.len() == trees.len() && forall|i: int|
            0 <= i < nodes.len() ==> fits(#[trigger] nodes[i]),
{
    lemma_first_failure(trees);
    if let Ok(nodes) = gather(trees) {
        assert forall|i: int| 0 <= i < nodes.len() implies fits(#[trigger] nodes[i]) by {
            assert(sound(trees[i]));
        }
    }
}

/// A node whose template asks, from `pos` on, for exactly what the node has left,
/// and whose children fit, renders from `pos` on.
pub proof fn lemma_fitting_rest_renders(
    node: NodeModel,
    pos: int,
    used: Used,
    out: Seq<char>,
    aliases: AliasModel,
)
    requires
        0 <= pos,
        markers(node.fmt_expression, pos) matches Some(rest) && used.plus(rest) == (Used {
            names: node.names.len(),
            values: node.values.len(),
            children: node.children.len(),
        }),
        forall|i: int| 0 <= i < node.children.len() ==> fits(#[trigger] node.children[i]),
    ensures
        render_from(node, pos, used, out, aliases).result is Ok,
    decreases node, node.fmt_expression.len() - pos,
{
    let template = node.fmt_expression;
    if pos >= template.len() {
    } else if template[pos] != '$' {
        lemma_fitting_rest_renders(node, pos + 1, used, out.push(template[pos]), aliases);
    } else if template[pos + 1] == 'n' {
        let path = node.names[used.names as int];
        lemma_fitting_rest_renders(
            node,
            pos + 2,
            Used { names: used.names + 1, ..used },
            out + alias_path_token(aliases, path),
            alias_path_tables(aliases, path),
        );
    } else if template[pos + 1] == 'v' {
        lemma_fitting_rest_renders(
            node,
            pos + 2,
            Used { values: used.values + 1, ..used },
            out + alias_value_token(aliases),
            alias_value_tables(aliases, node.values[used.values as int]),
        );
    } else {
        let child = node.children[used.children as int];
        law_fitting_tree_renders(child, aliases);
        let rendered = render(child, aliases);
        lemma_fitting_rest_renders(
            node,
            pos + 2,
            Used { children: used.children + 1, ..used },
            out + rendered.result->Ok_0,
            rendered.aliases,
        );
    }
}

/// A tree that fits renders: no marker is out of place and none asks for more
/// than there is.
pub proof fn law_fitting_tree_renders(node: NodeModel, aliases: AliasModel)
    requires
        fits(node),
    ensures
        render(node, aliases).result is Ok,
    decreases node, node.fmt_expression.len() + 1,
{
    lemma_fitting_rest_renders(node, 0, none_used(), Seq::empty(), aliases);
}

} // verus!
