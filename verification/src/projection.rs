//! Projections: the list of attributes that a read returns.

use vstd::prelude::*;
use crate::error::{BuildError, Operation, Subject};
use crate::node::{
    gather, lemma_gathered_fit, lemma_markers_concat, lemma_markers_repeat, markers,
    node_models, node_of, sound, ExpressionNode, NodeModel, Used,
};
use crate::operand::{
    build_operands, law_name_tree_fits, name_tree, operand_trees, NameBuilder,
};
use crate::text::{push_repeated, repeat};

verus! {

/// An ordered list of attribute names. A name may stand in it more than once.
#[derive(Debug)]
pub struct ProjectionBuilder {
    names: Vec<NameBuilder>,
}

/// The paths of a sequence of name builders.
pub open spec fn paths(names: Seq<NameBuilder>) -> Seq<Seq<char>> {
    names.map_values(|n: NameBuilder| n@)
}

/// What building the name at each of `paths` yields.
pub open spec fn name_trees(paths: Seq<Seq<char>>) -> Seq<Result<NodeModel, BuildError>> {
    paths.map_values(|p: Seq<char>| name_tree(p))
}

/// The template of a list of `count` items: one `$c` for each, with commas between.
pub open spec fn list_template(count: nat) -> Seq<char> {
    "$c"@ + repeat(", $c"@, (count - 1) as nat)
}

/// The tree of the projection of `paths`: the nodes of the paths as children, in
/// order, under a list template. A projection of nothing builds nothing, and the
/// first path that fails fails the projection.
pub open spec fn projection_tree(paths: Seq<Seq<char>>) -> Result<NodeModel, BuildError> {
    if paths.len() == 0 {
        Err(BuildError::UnsetParameter(Operation::BuildTree, Subject::ProjectionBuilder))
    } else {
        match gather(name_trees(paths)) {
            Err(e) => Err(e),
            Ok(nodes) => Ok(NodeModel::of_children(nodes, list_template(paths.len()))),
        }
    }
}

impl View for ProjectionBuilder {
    type V = Seq<Seq<char>>;

    /// The paths, in order.
    closed spec fn view(&self) -> Seq<Seq<char>> {
        paths(self.names@)
    }
}

impl Default for ProjectionBuilder {
    /// The projection of nothing, which builds nothing.
    fn default() -> (projection: Self)
        ensures
            projection@ == Seq::<Seq<char>>::empty(),
    {
        let projection = ProjectionBuilder { names: Vec::new() };
        assert(projection@ =~= Seq::<Seq<char>>::empty());
        projection
    }
}

impl ProjectionBuilder {
    /// The projection with the names of `names_list` added at its end.
    pub fn add_names(self, names_list: Vec<NameBuilder>) -> (projection: ProjectionBuilder)
        ensures
            projection@ == self@ + paths(names_list@),
    {
        add_names(self, names_list)
    }

    /// Builds the nodes of the names, in order, up to the first that fails.
    pub fn build_child_nodes(&self) -> (result: Result<Vec<ExpressionNode>, BuildError>)
        ensures
            match gather(name_trees(self@)) {
                Err(e) => result == Err::<Vec<ExpressionNode>, BuildError>(e),
                Ok(built) => result matches Ok(nodes) && node_models(nodes@) == built,
            },
    {
        let mut nodes: Vec<ExpressionNode> = Vec::new();
        proof {
            assert(operand_trees(self.names@) =~= name_trees(self@));
            assert(node_models(nodes@) =~= Seq::<NodeModel>::empty());
        }
        match build_operands(&self.names, &mut nodes) {
            Ok(()) => {
                proof {
                    let built = gather(name_trees(self@))->Ok_0;
                    assert(Seq::<NodeModel>::empty() + built =~= built);
                }
                Ok(nodes)
            },
            Err(e) => Err(e),
        }
    }

    /// Builds the tree of the projection.
    pub fn build_tree(&self) -> (result: Result<ExpressionNode, BuildError>)
        ensures
            node_of(result) == projection_tree(self@),
    {
        if self.names.len() == 0 {
            return Err(
                BuildError::UnsetParameter(Operation::BuildTree, Subject::ProjectionBuilder),
            );
        }
        let child_nodes = match self.build_child_nodes() {
            Ok(nodes) => nodes,
            Err(e) => {
                return Err(e);
            },
        };
        let mut template = "$c".to_owned();
        push_repeated(&mut template, ", $c", self.names.len() - 1);
        Ok(ExpressionNode::from_children_expression(child_nodes, template))
    }
}

/// The projection of `name_builder`, then the names of `more`.
pub fn names_list(name_builder: NameBuilder, more: Vec<NameBuilder>) -> (projection:
    ProjectionBuilder)
    ensures
        projection@ == seq![name_builder@] + paths(more@),
{
    let mut names = more;
    names.insert(0, name_builder);
    let projection = ProjectionBuilder { names };
    assert(projection@ =~= seq![name_builder@] + paths(more@));
    projection
}

/// `projection_builder` with the names of `names_list` added at its end.
pub fn add_names(
    projection_builder: ProjectionBuilder,
    names_list: Vec<NameBuilder>,
) -> (projection: ProjectionBuilder)
    ensures
        projection@ == projection_builder@ + paths(names_list@),
{
    let ProjectionBuilder { names } = projection_builder;
    let mut names = names;
    let mut more = names_list;
    names.append(&mut more);
    let projection = ProjectionBuilder { names };
    assert(projection@ =~= projection_builder@ + paths(names_list@));
    projection
}

impl NameBuilder {
    /// The projection of this name, then the names of `names`.
    pub fn names_list(self, names: Vec<NameBuilder>) -> (projection: ProjectionBuilder)
        ensures
            projection@ == seq![self@] + paths(names@),
    {
        names_list(self, names)
    }
}

/// A list template asks for as many children as the list has items.
pub proof fn lemma_list_template_markers(count: nat)
    requires
        count >= 1,
    ensures
        markers(list_template(count), 0) == Some(
            Used { names: 0, values: 0, children: count },
        ),
{
    assert(markers("$c"@, 0) == Some(Used { names: 0, values: 0, children: 1 })) by {
        reveal_strlit("$c");
        reveal_with_fuel(markers, 3);
    }
    assert(markers(", $c"@, 0) == Some(Used { names: 0, values: 0, children: 1 })) by {
        reveal_strlit(", $c");
        reveal_with_fuel(markers, 5);
    }
    lemma_markers_repeat(", $c"@, (count - 1) as nat);
    lemma_markers_concat("$c"@, repeat(", $c"@, (count - 1) as nat), 0);
}

/// The tree of a projection fits, for paths without `$`.
pub proof fn law_projection_tree_fits(paths: Seq<Seq<char>>)
    requires
        forall|i: int| 0 <= i < paths.len() ==> !(#[trigger] paths[i]).contains('$'),
    ensures
        sound(projection_tree(paths)),
{
    assert forall|i: int| 0 <= i < name_trees(paths).len() implies sound(
        #[trigger] name_trees(paths)[i],
    ) by {
        law_name_tree_fits(paths[i]);
    }
    lemma_gathered_fit(name_trees(paths));
    if paths.len() > 0 {
        lemma_list_template_markers(paths.len());
    }
}

} // verus!
