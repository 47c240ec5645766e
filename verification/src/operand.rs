//! Operands: the leaves and small compositions that conditions, projections and
//! updates are made of. Every operand builds one tree node.

use vstd::prelude::*;
use vstd::string::StringExecFns;
use crate::error::{BuildError, Operation, Subject};
use crate::node::{
    gather, lemma_first_failure_is, lemma_markers_concat, lemma_markers_join,
    lemma_markers_plain, markers, node_models, node_of, sound, successes, ExpressionNode,
    NodeModel, Used,
};
use crate::text::{
    first_position, join, lemma_first_position, lemma_first_position_is,
    lemma_split_keeps_characters, push_chars,
    push_signed_decimal, signed_decimal, split, split_chars, string_of_prefix, to_chars, words,
    IntoString,
};
use crate::value::{clone_strings, texts, value_models, AttributeValue, ValueModel};

verus! {

/// What building an operand yields: one tree node.
#[derive(Debug)]
pub struct Operand {
    /// The node.
    pub expression_node: ExpressionNode,
}

impl Operand {
    /// The operand that is `expression_node`.
    pub fn new(expression_node: ExpressionNode) -> (operand: Self)
        ensures
            operand.expression_node == expression_node,
    {
        Operand { expression_node }
    }
}

impl Clone for Operand {
    /// A copy that holds the same tree.
    fn clone(&self) -> (copy: Self)
        ensures
            copy.expression_node@ == self.expression_node@,
    {
        Operand { expression_node: self.expression_node.clone() }
    }
}

/// The tree of a built operand, or the error.
pub open spec fn tree_of(result: Result<Operand, BuildError>) -> Result<NodeModel, BuildError> {
    match result {
        Ok(operand) => Ok(operand.expression_node@),
        Err(e) => Err(e),
    }
}

/// A builder of one operand.
pub trait OperandBuilder: Sized {
    /// What building the operand yields: its node, or the error.
    spec fn operand_tree(&self) -> Result<NodeModel, BuildError>;

    /// Builds the operand.
    fn build_operand(&self) -> (result: Result<Operand, BuildError>)
        ensures
            tree_of(result) == self.operand_tree(),
    ;

    /// The builder as one of the closed set of operand builders.
    fn into_operand(self) -> (operand: AnyOperand)
        ensures
            operand.tree() == self.operand_tree(),
    ;
}

// ---------------------------------------------------------------------------
// Values

/// A native value that can stand as a literal in an expression.
pub trait ValueBuilderImpl: Sized {
    /// The attribute value that the native value stands for.
    spec fn literal(&self) -> ValueModel;

    /// The native value as an attribute value.
    fn attribute_value(&self) -> (value: AttributeValue)
        ensures
            value@ == self.literal(),
    ;
}

/// The set of strings `items`, or the null value where there is none: the store
/// has no empty set.
pub open spec fn string_set_literal(items: Seq<Seq<char>>) -> ValueModel {
    if items.len() == 0 {
        ValueModel::Null(true)
    } else {
        ValueModel::Ss(items)
    }
}

/// The list `items`, or the null value where there is none.
pub open spec fn list_literal(items: Seq<ValueModel>) -> ValueModel {
    if items.len() == 0 {
        ValueModel::Null(true)
    } else {
        ValueModel::L(items)
    }
}

/// The map of `entries`, or the null value where there is none.
pub open spec fn map_literal(entries: Seq<(Seq<char>, ValueModel)>) -> ValueModel {
    if entries.len() == 0 {
        ValueModel::Null(true)
    } else {
        ValueModel::M(entries)
    }
}

impl ValueBuilderImpl for bool {
    open spec fn literal(&self) -> ValueModel {
        ValueModel::Bool(*self)
    }

    fn attribute_value(&self) -> (value: AttributeValue) {
        AttributeValue::Bool(*self)
    }
}

impl ValueBuilderImpl for i64 {
    open spec fn literal(&self) -> ValueModel {
        ValueModel::N(signed_decimal(*self as int))
    }

    fn attribute_value(&self) -> (value: AttributeValue) {
        let mut text = String::new();
        push_signed_decimal(&mut text, *self);
        assert(text@ =~= signed_decimal(*self as int));
        AttributeValue::N(text)
    }
}

impl<'a> ValueBuilderImpl for &'a str {
    open spec fn literal(&self) -> ValueModel {
        ValueModel::S(self@)
    }

    fn attribute_value(&self) -> (value: AttributeValue) {
        AttributeValue::S((*self).to_owned())
    }
}

impl ValueBuilderImpl for String {
    open spec fn literal(&self) -> ValueModel {
        ValueModel::S(self@)
    }

    fn attribute_value(&self) -> (value: AttributeValue) {
        AttributeValue::S(self.clone())
    }
}

impl<'a> ValueBuilderImpl for Vec<&'a str> {
    open spec fn literal(&self) -> ValueModel {
        string_set_literal(self@.map_values(|s: &str| s@))
    }

    fn attribute_value(&self) -> (value: AttributeValue) {
        if self.len() == 0 {
            return AttributeValue::Null(true);
        }
        let mut set: Vec<String> = Vec::new();
        let mut i: usize = 0;
        while i < self.len()
            invariant
                i <= self.len(),
                set@.len() == i,
                forall|j: int| 0 <= j < i ==> set@[j]@ == self@[j]@,
            decreases self.len() - i,
        {
            set.push(self[i].to_owned());
            i += 1;
        }
        assert(texts(set@) =~= self@.map_values(|s: &str| s@));
        AttributeValue::Ss(set)
    }
}

impl ValueBuilderImpl for Vec<String> {
    open spec fn literal(&self) -> ValueModel {
        string_set_literal(texts(self@))
    }

    fn attribute_value(&self) -> (value: AttributeValue) {
        if self.len() == 0 {
            return AttributeValue::Null(true);
        }
        AttributeValue::Ss(clone_strings(self))
    }
}

impl ValueBuilderImpl for Vec<u8> {
    open spec fn literal(&self) -> ValueModel {
        ValueModel::B(self@)
    }

    fn attribute_value(&self) -> (value: AttributeValue) {
        let bytes = self.clone();
        assert(bytes@ =~= self@);
        AttributeValue::B(bytes)
    }
}

impl ValueBuilderImpl for AttributeValue {
    open spec fn literal(&self) -> ValueModel {
        self@
    }

    fn attribute_value(&self) -> (value: AttributeValue) {
        self.clone()
    }
}

/// A literal operand.
#[derive(Debug)]
pub struct ValueBuilder {
    value: AttributeValue,
}

impl View for ValueBuilder {
    type V = ValueModel;

    /// The attribute value that the literal is.
    closed spec fn view(&self) -> ValueModel {
        self.value@
    }
}

impl Clone for ValueBuilder {
    /// A copy for the same literal.
    fn clone(&self) -> (copy: Self)
        ensures
            copy@ == self@,
    {
        ValueBuilder { value: self.value.clone() }
    }
}

/// The literals of a sequence of value builders.
pub open spec fn literals(builders: Seq<ValueBuilder>) -> Seq<ValueModel> {
    builders.map_values(|b: ValueBuilder| b@)
}

/// The entries of a sequence of named value builders.
pub open spec fn literal_entries(entries: Seq<(String, ValueBuilder)>) -> Seq<
    (Seq<char>, ValueModel),
> {
    entries.map_values(|e: (String, ValueBuilder)| (e.0@, e.1@))
}

impl ValueBuilderImpl for ValueBuilder {
    open spec fn literal(&self) -> ValueModel {
        self@
    }

    fn attribute_value(&self) -> (value: AttributeValue) {
        self.value.clone()
    }
}

impl ValueBuilderImpl for Vec<ValueBuilder> {
    open spec fn literal(&self) -> ValueModel {
        list_literal(literals(self@))
    }

    fn attribute_value(&self) -> (value: AttributeValue) {
        if self.len() == 0 {
            return AttributeValue::Null(true);
        }
        let mut items: Vec<AttributeValue> = Vec::new();
        let mut i: usize = 0;
        while i < self.len()
            invariant
                i <= self.len(),
                items@.len() == i,
                forall|j: int| 0 <= j < i ==> items@[j]@ == self@[j]@,
            decreases self.len() - i,
        {
            items.push(self[i].attribute_value());
            i += 1;
        }
        let value = AttributeValue::L(items);
        assert(value@->L_0 =~= literals(self@));
        value
    }
}

impl ValueBuilderImpl for Vec<(String, ValueBuilder)> {
    open spec fn literal(&self) -> ValueModel {
        map_literal(literal_entries(self@))
    }

    fn attribute_value(&self) -> (value: AttributeValue) {
        if self.len() == 0 {
            return AttributeValue::Null(true);
        }
        let mut entries: Vec<(String, AttributeValue)> = Vec::new();
        let mut i: usize = 0;
        while i < self.len()
            invariant
                i <= self.len(),
                entries@.len() == i,
                forall|j: int|
                    0 <= j < i ==> entries@[j].0@ == self@[j].0@ && entries@[j].1@ == self@[j].1@,
            decreases self.len() - i,
        {
            let entry = &self[i];
            entries.push((entry.0.clone(), entry.1.attribute_value()));
            i += 1;
        }
        let value = AttributeValue::M(entries);
        assert(value@->M_0 =~= literal_entries(self@));
        value
    }
}

/// A literal operand for the native value `native`.
pub fn value<T: ValueBuilderImpl>(native: T) -> (builder: ValueBuilder)
    ensures
        builder@ == native.literal(),
{
    ValueBuilder { value: native.attribute_value() }
}

/// The node of a literal: the value under the template `$v`.
pub open spec fn value_tree(literal: ValueModel) -> Result<NodeModel, BuildError> {
    Ok(NodeModel::of_values(seq![literal], "$v"@))
}

// ---------------------------------------------------------------------------
// Names

/// Where the index suffix of a path segment starts: at its first `[` where the
/// segment ends in `]`, else at its end (no suffix). A segment that ends in `]`
/// without any `[` has no suffix either.
pub open spec fn index_start(segment: Seq<char>) -> nat {
    if segment.len() > 0 && segment.last() == ']' {
        first_position(segment, '[')
    } else {
        segment.len()
    }
}

/// The attribute name of a path segment: what stands before its index suffix.
pub open spec fn segment_name(segment: Seq<char>) -> Seq<char> {
    segment.take(index_start(segment) as int)
}

/// The template fragment of a path segment: `$n` and the index suffix as it stands.
pub open spec fn segment_fragment(segment: Seq<char>) -> Seq<char> {
    "$n"@ + segment.skip(index_start(segment) as int)
}

/// The attribute names of a sequence of path segments.
pub open spec fn segment_names(segments: Seq<Seq<char>>) -> Seq<Seq<char>> {
    segments.map_values(|s: Seq<char>| segment_name(s))
}

/// The template fragments of a sequence of path segments.
pub open spec fn segment_fragments(segments: Seq<Seq<char>>) -> Seq<Seq<char>> {
    segments.map_values(|s: Seq<char>| segment_fragment(s))
}

/// The segments of an attribute path: the pieces between its dots.
pub open spec fn segments(path: Seq<char>) -> Seq<Seq<char>> {
    split(path, '.')
}

/// Whether `path` is a usable attribute path: not empty, and with a name in every
/// segment.
pub open spec fn path_well_formed(path: Seq<char>) -> bool {
    &&& path.len() > 0
    &&& forall|i: int|
        0 <= i < segments(path).len() ==> #[trigger] segment_name(segments(path)[i]).len() > 0
}

/// The node of an attribute path: the names of its segments, under the fragments
/// of its segments joined by dots. A path that is not well formed has no node.
pub open spec fn name_tree(path: Seq<char>) -> Result<NodeModel, BuildError> {
    if path_well_formed(path) {
        Ok(
            NodeModel::of_names(
                segment_names(segments(path)),
                join(segment_fragments(segments(path)), "."@),
            ),
        )
    } else {
        Err(BuildError::UnsetParameter(Operation::BuildOperand, Subject::NameBuilder))
    }
}

/// The node of `size` applied to an attribute path: the node of the path, with
/// its template wrapped in `size (` and `)`.
pub open spec fn size_tree(path: Seq<char>) -> Result<NodeModel, BuildError> {
    match name_tree(path) {
        Ok(node) => Ok(node.with_template("size ("@ + node.fmt_expression + ")"@)),
        Err(e) => Err(e),
    }
}

/// The node of a key: the key as it stands, under `$n`. An empty key has no node.
pub open spec fn key_tree(key: Seq<char>) -> Result<NodeModel, BuildError> {
    if key.len() == 0 {
        Err(BuildError::UnsetParameter(Operation::BuildOperand, Subject::KeyBuilder))
    } else {
        Ok(NodeModel::of_names(seq![key], "$n"@))
    }
}

/// Where the index suffix of `segment` starts.
fn find_index_start(segment: &Vec<char>) -> (start: usize)
    ensures
        start == index_start(segment@),
        start <= segment.len(),
{
    proof {
        lemma_first_position(segment@, '[');
    }
    if segment.len() == 0 || segment[segment.len() - 1] != ']' {
        return segment.len();
    }
    let mut j: usize = 0;
    while j < segment.len() && segment[j] != '['
        invariant
            j <= segment.len(),
            forall|k: int| 0 <= k < j ==> segment@[k] != '[',
        decreases segment.len() - j,
    {
        j += 1;
    }
    proof {
        lemma_first_position_is(segment@, '[', j as nat);
    }
    j
}

/// An operand that refers to an attribute by its path, such as `a.b[2].c`.
#[derive(Debug)]
pub struct NameBuilder {
    name: String,
}

impl View for NameBuilder {
    type V = Seq<char>;

    /// The path.
    closed spec fn view(&self) -> Seq<char> {
        self.name@
    }
}

impl Clone for NameBuilder {
    /// A copy for the same path.
    fn clone(&self) -> (copy: Self)
        ensures
            copy@ == self@,
    {
        NameBuilder { name: self.name.clone() }
    }
}

impl Default for NameBuilder {
    /// The builder of the empty path, which builds nothing.
    fn default() -> (builder: Self)
        ensures
            builder@ == Seq::<char>::empty(),
    {
        NameBuilder { name: String::new() }
    }
}

impl NameBuilder {
    /// The size of the attribute as an operand.
    pub fn size(self) -> (builder: SizeBuilder)
        ensures
            builder@ == self@,
    {
        SizeBuilder { name_builder: self }
    }

    /// `if_not_exists(self, right)`, for the right side of a `SET`.
    pub fn if_not_exists<R: OperandBuilder>(self, right: R) -> (builder: SetValueBuilder)
        ensures
            builder.tree() == set_value_tree(
                SetValueMode::IfNotExists,
                name_tree(self@),
                right.operand_tree(),
            ),
    {
        if_not_exists(self, right)
    }

    fn build(&self) -> (result: Result<ExpressionNode, BuildError>)
        ensures
            node_of(result) == name_tree(self@),
    {
        let error = BuildError::UnsetParameter(Operation::BuildOperand, Subject::NameBuilder);
        let path = to_chars(self.name.as_str());
        if path.len() == 0 {
            return Err(error);
        }
        let pieces = split_chars(&path, '.');
        let ghost all = segments(self@);
        let mut names: Vec<String> = Vec::new();
        let mut template = String::new();
        let mut i: usize = 0;
        while i < pieces.len()
            invariant
                i <= pieces.len(),
                words(pieces@) == all,
                all == segments(self@),
                self@.len() > 0,
                error == BuildError::UnsetParameter(Operation::BuildOperand, Subject::NameBuilder),
                names@.len() == i,
                forall|j: int| 0 <= j < i ==> segment_name(all[j]).len() > 0,
                texts(names@) == segment_names(all.take(i as int)),
                template@ == join(segment_fragments(all.take(i as int)), "."@),
            decreases pieces.len() - i,
        {
            let piece = &pieces[i];
            assert(piece@ == all[i as int]);
            let start = find_index_start(piece);
            if start == 0 {
                assert(segment_name(all[i as int]).len() == 0);
                return Err(error);
            }
            let name = string_of_prefix(piece, start);
            let ghost before = all.take(i as int);
            let ghost after = all.take(i + 1);
            proof {
                assert(after =~= before.push(all[i as int]));
                assert(segment_names(after) =~= segment_names(before).push(
                    segment_name(all[i as int]),
                ));
                assert(segment_fragments(after) =~= segment_fragments(before).push(
                    segment_fragment(all[i as int]),
                ));
                assert(segment_fragments(after).drop_last() =~= segment_fragments(before));
                reveal_strlit(".");
                reveal_strlit("$n");
            }
            if i > 0 {
                template.push('.');
            }
            template.append("$n");
            push_chars(&mut template, piece, start);
            names.push(name);
            i += 1;
            proof {
                assert(texts(names@) =~= segment_names(after));
                assert(template@ =~= join(segment_fragments(after), "."@));
            }
        }
        proof {
            assert(all.take(i as int) =~= all);
        }
        let node = ExpressionNode::from_names(names, template);
        Ok(node)
    }
}

/// An operand for the attribute at `path`, such as `a.b[2].c`.
pub fn name<T: IntoString>(path: T) -> (builder: NameBuilder)
    ensures
        builder@ == path.text(),
{
    NameBuilder { name: path.into_string() }
}

/// An operand for the size of an attribute.
#[derive(Debug)]
pub struct SizeBuilder {
    name_builder: NameBuilder,
}

impl View for SizeBuilder {
    type V = Seq<char>;

    /// The path of the attribute.
    closed spec fn view(&self) -> Seq<char> {
        self.name_builder@
    }
}

impl Clone for SizeBuilder {
    /// A copy for the same path.
    fn clone(&self) -> (copy: Self)
        ensures
            copy@ == self@,
    {
        SizeBuilder { name_builder: self.name_builder.clone() }
    }
}

impl SizeBuilder {
    fn build(&self) -> (result: Result<ExpressionNode, BuildError>)
        ensures
            node_of(result) == size_tree(self@),
    {
        match self.name_builder.build() {
            Ok(node) => {
                let mut template = "size (".to_owned();
                template.append(node.fmt_expression.as_str());
                template.append(")");
                let ExpressionNode { names, values, children, fmt_expression } = node;
                let sized = ExpressionNode { names, values, children, fmt_expression: template };
                proof {
                    assert(sized@.children =~= node@.children);
                }
                Ok(sized)
            },
            Err(e) => Err(e),
        }
    }
}

/// The size of the attribute at `name_builder` as an operand.
pub fn size(name_builder: NameBuilder) -> (builder: SizeBuilder)
    ensures
        builder@ == name_builder@,
{
    name_builder.size()
}

/// An operand for a key attribute: one name, taken as it stands.
#[derive(Debug)]
pub struct KeyBuilder {
    key: String,
}

impl View for KeyBuilder {
    type V = Seq<char>;

    /// The name of the key attribute.
    closed spec fn view(&self) -> Seq<char> {
        self.key@
    }
}

impl Clone for KeyBuilder {
    /// A copy for the same key.
    fn clone(&self) -> (copy: Self)
        ensures
            copy@ == self@,
    {
        KeyBuilder { key: self.key.clone() }
    }
}

impl KeyBuilder {
    fn build(&self) -> (result: Result<ExpressionNode, BuildError>)
        ensures
            node_of(result) == key_tree(self@),
    {
        if self.key.as_str().is_empty() {
            return Err(BuildError::UnsetParameter(Operation::BuildOperand, Subject::KeyBuilder));
        }
        let mut names: Vec<String> = Vec::new();
        names.push(self.key.clone());
        assert(texts(names@) =~= seq![self@]);
        Ok(ExpressionNode::from_names(names, "$n"))
    }
}

/// An operand for the key attribute named `attribute`.
pub fn key<T: IntoString>(attribute: T) -> (builder: KeyBuilder)
    ensures
        builder@ == attribute.text(),
{
    KeyBuilder { key: attribute.into_string() }
}

// ---------------------------------------------------------------------------
// Operands of SET

/// How the two sides of a [`SetValueBuilder`] are combined.
#[derive(Clone, Copy, Debug, PartialEq, Eq, Structural)]
pub enum SetValueMode {
    /// Nothing has been set up.
    Unset,
    /// `left + right`.
    Plus,
    /// `left - right`.
    Minus,
    /// `list_append(left, right)`.
    ListAppend,
    /// `if_not_exists(left, right)`.
    IfNotExists,
}

/// The template of a mode.
pub open spec fn set_value_template(mode: SetValueMode) -> Seq<char> {
    match mode {
        SetValueMode::Unset => Seq::empty(),
        SetValueMode::Plus => "$c + $c"@,
        SetValueMode::Minus => "$c - $c"@,
        SetValueMode::ListAppend => "list_append($c, $c)"@,
        SetValueMode::IfNotExists => "if_not_exists($c, $c)"@,
    }
}

/// The node of two operands combined under `mode`: the nodes of the two sides as
/// children, left first, under the mode's template. Without a mode there is no
/// node, whatever the sides are; else the left side's error comes before the
/// right side's.
pub open spec fn set_value_tree(
    mode: SetValueMode,
    left: Result<NodeModel, BuildError>,
    right: Result<NodeModel, BuildError>,
) -> Result<NodeModel, BuildError> {
    if mode is Unset {
        Err(BuildError::UnsetParameter(Operation::BuildOperand, Subject::SetValueBuilder))
    } else {
        match left {
            Err(e) => Err(e),
            Ok(l) => match right {
                Err(e) => Err(e),
                Ok(r) => Ok(NodeModel::of_children(seq![l, r], set_value_template(mode))),
            },
        }
    }
}

/// Any one of the operand builders.
#[derive(Debug)]
pub enum AnyOperand {
    Name(NameBuilder),
    Value(ValueBuilder),
    Size(SizeBuilder),
    Key(KeyBuilder),
    SetValue(SetValueBuilder),
}

/// Two operands combined for the right side of a `SET`: a sum, a difference, a list
/// append or a fallback for a missing attribute.
#[derive(Debug)]
pub struct SetValueBuilder {
    left_operand: Option<Box<AnyOperand>>,
    right_operand: Option<Box<AnyOperand>>,
    mode: SetValueMode,
}

impl AnyOperand {
    /// What building the operand yields.
    pub open spec fn tree(self) -> Result<NodeModel, BuildError>
        decreases self,
    {
        match self {
            AnyOperand::Name(b) => name_tree(b@),
            AnyOperand::Value(b) => value_tree(b@),
            AnyOperand::Size(b) => size_tree(b@),
            AnyOperand::Key(b) => key_tree(b@),
            AnyOperand::SetValue(b) => b.tree(),
        }
    }

    fn build(&self) -> (result: Result<ExpressionNode, BuildError>)
        ensures
            node_of(result) == self.tree(),
        decreases self,
    {
        match self {
            AnyOperand::Name(b) => b.build(),
            AnyOperand::Value(b) => Ok(b.build()),
            AnyOperand::Size(b) => b.build(),
            AnyOperand::Key(b) => b.build(),
            AnyOperand::SetValue(b) => b.build(),
        }
    }
}

impl ValueBuilder {
    fn build(&self) -> (node: ExpressionNode)
        ensures
            Ok::<NodeModel, BuildError>(node@) == value_tree(self@),
    {
        let mut values: Vec<AttributeValue> = Vec::new();
        values.push(self.value.clone());
        assert(value_models(values@) =~= seq![self@]);
        ExpressionNode::from_values(values, "$v")
    }
}

impl SetValueBuilder {
    #[verifier::type_invariant]
    spec fn well_formed(self) -> bool {
        !(self.mode is Unset) ==> self.left_operand is Some && self.right_operand is Some
    }

    /// The mode.
    pub closed spec fn mode(self) -> SetValueMode {
        self.mode
    }

    /// What building the operand yields.
    pub closed spec fn tree(self) -> Result<NodeModel, BuildError>
        decreases self,
    {
        match (self.left_operand, self.right_operand) {
            (Some(left), Some(right)) => set_value_tree(self.mode, left.tree(), right.tree()),
            _ => Err(
                BuildError::UnsetParameter(Operation::BuildOperand, Subject::SetValueBuilder),
            ),
        }
    }

    fn build(&self) -> (result: Result<ExpressionNode, BuildError>)
        ensures
            node_of(result) == self.tree(),
        decreases self,
    {
        proof {
            use_type_invariant(self);
        }
        let template = match self.mode {
            SetValueMode::Unset => {
                return Err(
                    BuildError::UnsetParameter(Operation::BuildOperand, Subject::SetValueBuilder),
                );
            },
            SetValueMode::Plus => "$c + $c",
            SetValueMode::Minus => "$c - $c",
            SetValueMode::ListAppend => "list_append($c, $c)",
            SetValueMode::IfNotExists => "if_not_exists($c, $c)",
        };
        match (&self.left_operand, &self.right_operand) {
            (Some(left), Some(right)) => {
                let left_node = left.build()?;
                let right_node = right.build()?;
                let mut children: Vec<ExpressionNode> = Vec::new();
                children.push(left_node);
                children.push(right_node);
                assert(node_models(children@) =~= seq![left_node@, right_node@]);
                Ok(ExpressionNode::from_children_expression(children, template))
            },
            _ => Err(
                BuildError::UnsetParameter(Operation::BuildOperand, Subject::SetValueBuilder),
            ),
        }
    }

    fn combine<L: OperandBuilder, R: OperandBuilder>(
        mode: SetValueMode,
        left: L,
        right: R,
    ) -> (builder: SetValueBuilder)
        requires
            !(mode is Unset),
        ensures
            builder.mode() == mode,
            builder.tree() == set_value_tree(mode, left.operand_tree(), right.operand_tree()),
    {
        SetValueBuilder {
            left_operand: Some(Box::new(left.into_operand())),
            right_operand: Some(Box::new(right.into_operand())),
            mode,
        }
    }
}

impl Default for SetValueBuilder {
    /// A builder without mode or operands, which builds nothing.
    fn default() -> (builder: Self)
        ensures
            builder.mode() == SetValueMode::Unset,
            builder.tree() == Err::<NodeModel, BuildError>(
                BuildError::UnsetParameter(Operation::BuildOperand, Subject::SetValueBuilder),
            ),
    {
        SetValueBuilder { left_operand: None, right_operand: None, mode: SetValueMode::Unset }
    }
}

/// `left_operand + right_operand`.
pub fn plus<L: OperandBuilder, R: OperandBuilder>(left_operand: L, right_operand: R) -> (builder:
    SetValueBuilder)
    ensures
        builder.mode() == SetValueMode::Plus,
        builder.tree() == set_value_tree(
            SetValueMode::Plus,
            left_operand.operand_tree(),
            right_operand.operand_tree(),
        ),
{
    SetValueBuilder::combine(SetValueMode::Plus, left_operand, right_operand)
}

/// `left_operand - right_operand`.
pub fn minus<L: OperandBuilder, R: OperandBuilder>(left_operand: L, right_operand: R) -> (builder:
    SetValueBuilder)
    ensures
        builder.mode() == SetValueMode::Minus,
        builder.tree() == set_value_tree(
            SetValueMode::Minus,
            left_operand.operand_tree(),
            right_operand.operand_tree(),
        ),
{
    SetValueBuilder::combine(SetValueMode::Minus, left_operand, right_operand)
}

/// `list_append(left_operand, right_operand)`.
pub fn list_append<L: OperandBuilder, R: OperandBuilder>(
    left_operand: L,
    right_operand: R,
) -> (builder: SetValueBuilder)
    ensures
        builder.mode() == SetValueMode::ListAppend,
        builder.tree() == set_value_tree(
            SetValueMode::ListAppend,
            left_operand.operand_tree(),
            right_operand.operand_tree(),
        ),
{
    SetValueBuilder::combine(SetValueMode::ListAppend, left_operand, right_operand)
}

/// `if_not_exists(name, value)`: the attribute at `name`, or `value` where the
/// item has no such attribute.
pub fn if_not_exists<R: OperandBuilder>(name: NameBuilder, value: R) -> (builder: SetValueBuilder)
    ensures
        builder.mode() == SetValueMode::IfNotExists,
        builder.tree() == set_value_tree(
            SetValueMode::IfNotExists,
            name_tree(name@),
            value.operand_tree(),
        ),
{
    SetValueBuilder::combine(SetValueMode::IfNotExists, name, value)
}

/// What building each of `operands` yields.
pub open spec fn operand_trees<B: OperandBuilder>(operands: Seq<B>) -> Seq<
    Result<NodeModel, BuildError>,
> {
    operands.map_values(|o: B| o.operand_tree())
}

/// Builds `operands` in order and appends their nodes to `nodes`, up to the first
/// that fails.
pub(crate) fn build_operands<B: OperandBuilder>(
    operands: &Vec<B>,
    nodes: &mut Vec<ExpressionNode>,
) -> (result: Result<(), BuildError>)
    ensures
        match gather(operand_trees(operands@)) {
            Ok(built) => result is Ok && node_models(final(nodes)@) == node_models(old(nodes)@)
                + built,
            Err(e) => result == Err::<(), BuildError>(e),
        },
{
    let ghost trees = operand_trees(operands@);
    let mut i: usize = 0;
    while i < operands.len()
        invariant
            i <= operands.len(),
            trees == operand_trees(operands@),
            forall|j: int| 0 <= j < i ==> trees[j] is Ok,
            node_models(nodes@) == node_models(old(nodes)@) + successes(
                trees.take(i as int),
            ),
        decreases operands.len() - i,
    {
        match operands[i].build_operand() {
            Ok(operand) => {
                let node = operand.expression_node;
                proof {
                    assert(trees[i as int] == Ok::<NodeModel, BuildError>(node@));
                    assert(trees.take(i + 1) =~= trees.take(i as int).push(trees[i as int]));
                    assert(node_models(nodes@.push(node)) =~= node_models(nodes@).push(node@));
                    assert(node_models(old(nodes)@) + successes(trees.take(i + 1)) =~= (
                    node_models(old(nodes)@) + successes(trees.take(i as int))).push(node@));
                }
                nodes.push(node);
            },
            Err(e) => {
                proof {
                    assert(trees[i as int] == Err::<NodeModel, BuildError>(e));
                    lemma_first_failure_is(trees, i as nat);
                }
                return Err(e);
            },
        }
        i += 1;
    }
    proof {
        lemma_first_failure_is(trees, i as nat);
        assert(trees.take(i as int) =~= trees);
    }
    Ok(())
}

// ---------------------------------------------------------------------------
// The builders as operand builders

impl OperandBuilder for NameBuilder {
    open spec fn operand_tree(&self) -> Result<NodeModel, BuildError> {
        name_tree(self@)
    }

    fn build_operand(&self) -> (result: Result<Operand, BuildError>) {
        match self.build() {
            Ok(node) => Ok(Operand::new(node)),
            Err(e) => Err(e),
        }
    }

    fn into_operand(self) -> (operand: AnyOperand) {
        AnyOperand::Name(self)
    }
}

impl OperandBuilder for ValueBuilder {
    open spec fn operand_tree(&self) -> Result<NodeModel, BuildError> {
        value_tree(self@)
    }

    fn build_operand(&self) -> (result: Result<Operand, BuildError>) {
        Ok(Operand::new(self.build()))
    }

    fn into_operand(self) -> (operand: AnyOperand) {
        AnyOperand::Value(self)
    }
}

impl OperandBuilder for SizeBuilder {
    open spec fn operand_tree(&self) -> Result<NodeModel, BuildError> {
        size_tree(self@)
    }

    fn build_operand(&self) -> (result: Result<Operand, BuildError>) {
        match self.build() {
            Ok(node) => Ok(Operand::new(node)),
            Err(e) => Err(e),
        }
    }

    fn into_operand(self) -> (operand: AnyOperand) {
        AnyOperand::Size(self)
    }
}

impl OperandBuilder for KeyBuilder {
    open spec fn operand_tree(&self) -> Result<NodeModel, BuildError> {
        key_tree(self@)
    }

    fn build_operand(&self) -> (result: Result<Operand, BuildError>) {
        match self.build() {
            Ok(node) => Ok(Operand::new(node)),
            Err(e) => Err(e),
        }
    }

    fn into_operand(self) -> (operand: AnyOperand) {
        AnyOperand::Key(self)
    }
}

impl OperandBuilder for SetValueBuilder {
    open spec fn operand_tree(&self) -> Result<NodeModel, BuildError> {
        self.tree()
    }

    fn build_operand(&self) -> (result: Result<Operand, BuildError>) {
        match self.build() {
            Ok(node) => Ok(Operand::new(node)),
            Err(e) => Err(e),
        }
    }

    fn into_operand(self) -> (operand: AnyOperand) {
        AnyOperand::SetValue(self)
    }
}

impl OperandBuilder for AnyOperand {
    open spec fn operand_tree(&self) -> Result<NodeModel, BuildError> {
        self.tree()
    }

    fn build_operand(&self) -> (result: Result<Operand, BuildError>) {
        match self.build() {
            Ok(node) => Ok(Operand::new(node)),
            Err(e) => Err(e),
        }
    }

    fn into_operand(self) -> (operand: AnyOperand) {
        self
    }
}

/// Operands that can stand on the left of `+`.
pub trait PlusBuilder: OperandBuilder {
    /// `self + right`.
    fn plus<R: OperandBuilder>(self, right: R) -> (builder: SetValueBuilder)
        ensures
            builder.mode() == SetValueMode::Plus,
            builder.tree() == set_value_tree(
                SetValueMode::Plus,
                self.operand_tree(),
                right.operand_tree(),
            ),
    {
        plus(self, right)
    }
}

/// Operands that can stand on the left of `-`.
pub trait MinusBuilder: OperandBuilder {
    /// `self - right`.
    fn minus<R: OperandBuilder>(self, right: R) -> (builder: SetValueBuilder)
        ensures
            builder.mode() == SetValueMode::Minus,
            builder.tree() == set_value_tree(
                SetValueMode::Minus,
                self.operand_tree(),
                right.operand_tree(),
            ),
    {
        minus(self, right)
    }
}

/// Operands that can stand first in `list_append`.
pub trait ListAppendBuilder: OperandBuilder {
    /// `list_append(self, right)`.
    fn list_append<R: OperandBuilder>(self, right: R) -> (builder: SetValueBuilder)
        ensures
            builder.mode() == SetValueMode::ListAppend,
            builder.tree() == set_value_tree(
                SetValueMode::ListAppend,
                self.operand_tree(),
                right.operand_tree(),
            ),
    {
        list_append(self, right)
    }
}

impl PlusBuilder for NameBuilder {

}

impl MinusBuilder for NameBuilder {

}

impl ListAppendBuilder for NameBuilder {

}

impl PlusBuilder for ValueBuilder {

}

impl MinusBuilder for ValueBuilder {

}

impl ListAppendBuilder for ValueBuilder {

}

// ---------------------------------------------------------------------------
// The templates of operands fit what the operands hold

/// The node of a literal fits.
pub proof fn law_value_tree_fits(literal: ValueModel)
    ensures
        sound(value_tree(literal)),
{
    reveal_strlit("$v");
    reveal_with_fuel(markers, 3);
}

/// The node of a key fits, whatever the key holds.
pub proof fn law_key_tree_fits(key: Seq<char>)
    ensures
        sound(key_tree(key)),
{
    reveal_strlit("$n");
    reveal_with_fuel(markers, 3);
}

/// The node of an attribute path fits, for a path without `$`: an index suffix is
/// copied into the template as it stands.
pub proof fn law_name_tree_fits(path: Seq<char>)
    requires
        !path.contains('$'),
    ensures
        sound(name_tree(path)),
{
    let pieces = segment_fragments(segments(path));
    lemma_split_keeps_characters(path, '.');
    assert forall|i: int| 0 <= i < pieces.len() implies markers(#[trigger] pieces[i], 0)
        == Some(Used { names: 1, values: 0, children: 0 }) by {
        let segment = segments(path)[i];
        let suffix = segment.skip(index_start(segment) as int);
        lemma_first_position(segment, '[');
        if suffix.contains('$') {
            let at = choose|at: int| 0 <= at < suffix.len() && suffix[at] == '$';
            assert(segment[index_start(segment) + at] == '$');
            assert(path.contains(split(path, '.')[i][index_start(segment) + at]));
        }
        assert(markers("$n"@, 0) == Some(Used { names: 1, values: 0, children: 0 })) by {
            reveal_strlit("$n");
            reveal_with_fuel(markers, 3);
        }
        lemma_markers_plain(suffix, 0);
        lemma_markers_concat("$n"@, suffix, 0);
    }
    assert(!"."@.contains('$')) by {
        reveal_strlit(".");
    }
    lemma_markers_join(pieces, "."@);
}

/// The node of the size of an attribute fits, for a path without `$`.
pub proof fn law_size_tree_fits(path: Seq<char>)
    requires
        !path.contains('$'),
    ensures
        sound(size_tree(path)),
{
    law_name_tree_fits(path);
    if let Ok(node) = name_tree(path) {
        assert(!"size ("@.contains('$')) by {
            reveal_strlit("size (");
        }
        assert(!")"@.contains('$')) by {
            reveal_strlit(")");
        }
        lemma_markers_plain("size ("@, 0);
        lemma_markers_plain(")"@, 0);
        lemma_markers_concat("size ("@, node.fmt_expression, 0);
        lemma_markers_concat("size ("@ + node.fmt_expression, ")"@, 0);
    }
}

/// Two operands that fit, combined for a `SET`, fit.
pub proof fn law_set_value_tree_fits(
    mode: SetValueMode,
    left: Result<NodeModel, BuildError>,
    right: Result<NodeModel, BuildError>,
)
    requires
        sound(left),
        sound(right),
    ensures
        sound(set_value_tree(mode, left, right)),
{
    reveal_strlit("$c + $c");
    reveal_strlit("$c - $c");
    reveal_strlit("list_append($c, $c)");
    reveal_strlit("if_not_exists($c, $c)");
    reveal_with_fuel(markers, 24);
}

} // verus!
