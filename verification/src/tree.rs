use crate::assoc::MapKey;
use crate::layout::component::{lemma_component_view, Component, ComponentView};
use crate::path::child_of;
use vstd::prelude::*;
use vstd::string::StringExecFns;

verus! {

/// One line of the outline of a layout: a node, by its name, indented by
/// its depth, with the path that opens it.
pub struct TreeRow {
    pub label: String,
    pub path: Vec<usize>,
    /// Whether the node is the one that is open.
    pub is_current: bool,
}

/// A [`TreeRow`] as a mathematical value.
pub ghost struct TreeRowView {
    pub label: Seq<char>,
    pub path: Seq<usize>,
    pub is_current: bool,
}

impl View for TreeRow {
    type V = TreeRowView;

    open spec fn view(&self) -> TreeRowView {
        TreeRowView { label: self.label@, path: self.path@, is_current: self.is_current }
    }
}

/// The rows of a list as mathematical values.
pub open spec fn rows_view(rows: Seq<TreeRow>) -> Seq<TreeRowView> {
    Seq::new(rows.len(), |i: int| rows[i]@)
}

/// Two spaces for each level of depth.
pub open spec fn indent(depth: nat) -> Seq<char>
    decreases depth,
{
    if depth == 0 {
        Seq::empty()
    } else {
        indent((depth - 1) as nat) + "  "@
    }
}

/// The outline of a tree whose root stands at `path`: the root first, then
/// the outline of each child in order.
pub open spec fn outline(tree: ComponentView, path: Seq<usize>, current: Seq<usize>) -> Seq<
    TreeRowView,
>
    decreases tree, 0nat,
{
    seq![
        TreeRowView { label: indent(path.len()) + tree.name, path, is_current: current == path },
    ] + outline_below(tree.children, path, current, tree.children.len())
}

/// The outlines of the first `count` of the children of the node at `path`.
pub open spec fn outline_below(
    children: Seq<ComponentView>,
    path: Seq<usize>,
    current: Seq<usize>,
    count: nat,
) -> Seq<TreeRowView>
    decreases children, count,
{
    if count == 0 || count > children.len() {
        Seq::empty()
    } else {
        outline_below(children, path, current, (count - 1) as nat) + outline(
            children[count - 1],
            path.push((count - 1) as usize),
            current,
        )
    }
}

fn indented(name: &String, depth: usize) -> (r: String)
    ensures
        r@ == indent(depth as nat) + name@,
{
    let mut label = String::new();
    let mut i: usize = 0;
    while i < depth
        invariant
            i <= depth,
            label@ == indent(i as nat),
        decreases depth - i,
    {
        label.append("  ");
        i = i + 1;
    }
    label.append(name.as_str());
    label
}

/// The outline of a tree whose root stands at `path`, for an editor that
/// has the node at `current_path` open.
pub fn build_tree_from_layout_part(p: &Component, path: Vec<usize>, current_path: &Vec<usize>) -> (r:
    Vec<TreeRow>)
    ensures
        rows_view(r@) == outline(p@, path@, current_path@),
    decreases p,
{
    let mut rows: Vec<TreeRow> = Vec::new();
    rows.push(
        TreeRow {
            label: indented(&p.name, path.len()),
            path: path.copy_key(),
            is_current: current_path.same_key(&path),
        },
    );
    proof {
        lemma_component_view(*p);
        assert(rows_view(rows@) =~= seq![
            TreeRowView {
                label: indent(path@.len()) + p@.name,
                path: path@,
                is_current: current_path@ == path@,
            },
        ] + outline_below(p@.children, path@, current_path@, 0));
    }
    let mut i: usize = 0;
    while i < p.children.len()
        invariant
            i <= p.children@.len(),
            p@.children.len() == p.children@.len(),
            forall|k: int| 0 <= k < p.children@.len() ==> #[trigger] p@.children[k] == p.children@[k]@,
            rows_view(rows@) == seq![
                TreeRowView {
                    label: indent(path@.len()) + p@.name,
                    path: path@,
                    is_current: current_path@ == path@,
                },
            ] + outline_below(p@.children, path@, current_path@, i as nat),
        decreases p.children@.len() - i,
    {
        let ghost before = rows_view(rows@);
        let mut below = build_tree_from_layout_part(&p.children[i], child_of(&path, i), current_path);
        let ghost added = rows_view(below@);
        rows.append(&mut below);
        proof {
            assert(rows_view(rows@) =~= before + added);
            assert(before + added =~= seq![
                TreeRowView {
                    label: indent(path@.len()) + p@.name,
                    path: path@,
                    is_current: current_path@ == path@,
                },
            ] + (outline_below(p@.children, path@, current_path@, i as nat) + added));
        }
        i = i + 1;
    }
    rows
}

} // verus!
