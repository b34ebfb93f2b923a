use crate::assoc::{AssocMap, MapValue};
use crate::error::LayoutError;
use crate::layout::settings::{ComponentSettings, LayoutSettings};
use crate::lua::settings::{reconciled, SettingsFactory, SettingsFactoryEntry};
use crate::lua::widgets::{failure_notice, slots_view, LuaWidget, WidgetView};
use crate::lua::{
    call_widget, eval_component, eval_name, script_error, BuildInputs, Catalog, ComponentScript,
    LuaContext, STEP_LIMIT,
};
use crate::layout::settings::SettingsValueView;
use crate::path::{
    child_of, lemma_under_child, lemma_under_self_and_parent, parent_of, path_view, under,
};
use crate::repository::{images_from, images_of, ComponentImages, Repository};
use vstd::prelude::*;

verus! {

/// One node of the layout tree: an instance of the component that a script
/// defines. The order of the children is the order in which they are shown,
/// and it is what paths index into.
pub struct Component {
    /// The name under which the defining script is found again.
    pub name: String,
    pub author: String,
    /// The script's build function; absent until the script has been loaded.
    pub widget: Option<mlua::RegistryKey>,
    /// The schema the script declares.
    pub parameters: SettingsFactory,
    pub children: Vec<Component>,
}

/// A [`Component`] as a mathematical tree.
pub ghost struct ComponentView {
    pub name: Seq<char>,
    pub author: Seq<char>,
    pub widget: Option<mlua::RegistryKey>,
    pub parameters: Seq<SettingsFactoryEntry>,
    pub children: Seq<ComponentView>,
}

impl View for Component {
    type V = ComponentView;

    open spec fn view(&self) -> ComponentView {
        self.tree()
    }
}

impl Component {
    /// The tree below and including this node.
    pub open spec fn tree(self) -> ComponentView
        decreases self,
    {
        ComponentView {
            name: self.name@,
            author: self.author@,
            widget: self.widget,
            parameters: self.parameters.0@,
            children: trees(self.children@),
        }
    }
}

/// The trees of a sequence of nodes, in order.
pub open spec fn trees(nodes: Seq<Component>) -> Seq<ComponentView>
    decreases nodes,
{
    if nodes.len() == 0 {
        Seq::empty()
    } else {
        trees(nodes.drop_last()).push(nodes.last().tree())
    }
}

/// The trees of a sequence of nodes are as many, and each is its node's.
pub proof fn lemma_trees(nodes: Seq<Component>)
    ensures
        trees(nodes).len() == nodes.len(),
        forall|i: int| 0 <= i < nodes.len() ==> #[trigger] trees(nodes)[i] == nodes[i]@,
    decreases nodes.len(),
{
    if nodes.len() > 0 {
        lemma_trees(nodes.drop_last());
    }
}

/// The view of a node, one level down.
pub proof fn lemma_component_view(c: Component)
    ensures
        c@.name == c.name@,
        c@.author == c.author@,
        c@.widget == c.widget,
        c@.parameters == c.parameters.0@,
        c@.children.len() == c.children@.len(),
        forall|i: int| 0 <= i < c.children@.len() ==> #[trigger] c@.children[i] == c.children@[i]@,
{
    lemma_trees(c.children@);
}

impl ComponentView {
    /// Whether descending by the indices of the path, from this node, stays
    /// inside the tree. The empty path always does.
    pub open spec fn has_path(self, path: Seq<usize>) -> bool
        decreases path.len(),
    {
        if path.len() == 0 {
            true
        } else {
            path[0] < self.children.len() && self.children[path[0] as int].has_path(path.skip(1))
        }
    }

    /// The node that the path leads to.
    pub open spec fn node_at(self, path: Seq<usize>) -> ComponentView
        recommends
            self.has_path(path),
        decreases path.len(),
    {
        if path.len() == 0 {
            self
        } else {
            self.children[path[0] as int].node_at(path.skip(1))
        }
    }

    /// This tree with the node that the path leads to replaced.
    pub open spec fn replace_at(self, path: Seq<usize>, node: ComponentView) -> ComponentView
        recommends
            self.has_path(path),
        decreases path.len(),
    {
        if path.len() == 0 {
            node
        } else {
            ComponentView {
                children: self.children.update(
                    path[0] as int,
                    self.children[path[0] as int].replace_at(path.skip(1), node),
                ),
                ..self
            }
        }
    }
}

impl ComponentView {
    /// This node without its child at an index.
    pub open spec fn without_child(self, index: int) -> ComponentView {
        ComponentView { children: self.children.remove(index), ..self }
    }

    /// This node with one more child, put in at an index.
    pub open spec fn with_child(self, index: int, node: ComponentView) -> ComponentView {
        ComponentView { children: self.children.insert(index, node), ..self }
    }

    /// Whether the path leads to a node other than this one.
    pub open spec fn has_child_at(self, at: Seq<usize>) -> bool {
        at.len() > 0 && self.has_path(at)
    }

    /// Whether a node can be put in as the child at `at`: the parent is
    /// there, and the index is at most one past its last child.
    pub open spec fn can_attach(self, at: Seq<usize>) -> bool {
        at.len() > 0 && self.has_path(at.drop_last()) && at.last() <= self.node_at(
            at.drop_last(),
        ).children.len()
    }

    /// This tree with the subtree at `at` taken out of its parent.
    pub open spec fn detached(self, at: Seq<usize>) -> ComponentView
        recommends
            self.has_child_at(at),
    {
        self.replace_at(
            at.drop_last(),
            self.node_at(at.drop_last()).without_child(at.last() as int),
        )
    }

    /// This tree with `node` put in as the child at `at`.
    pub open spec fn attached(self, at: Seq<usize>, node: ComponentView) -> ComponentView
        recommends
            self.can_attach(at),
    {
        self.replace_at(
            at.drop_last(),
            self.node_at(at.drop_last()).with_child(at.last() as int, node),
        )
    }

    /// This tree with the subtree at `from` taken out and put in again as
    /// the child at `to`, a place in the tree as it is without the subtree.
    pub open spec fn moved(self, from: Seq<usize>, to: Seq<usize>) -> ComponentView
        recommends
            self.has_child_at(from),
            self.detached(from).can_attach(to),
    {
        self.detached(from).attached(to, self.node_at(from))
    }
}

/// A path in two parts: the second part is followed from the node that the
/// first part leads to.
pub proof fn lemma_path_concat(tree: ComponentView, first: Seq<usize>, second: Seq<usize>)
    ensures
        tree.has_path(first + second) <==> tree.has_path(first) && tree.node_at(first).has_path(
            second,
        ),
        tree.has_path(first) ==> tree.node_at(first + second) == tree.node_at(first).node_at(second),
    decreases first.len(),
{
    if first.len() == 0 {
        assert(first + second =~= second);
    } else {
        let whole = first + second;
        assert(whole[0] == first[0]);
        assert(whole.skip(1) =~= first.skip(1) + second);
        if first[0] < tree.children.len() {
            lemma_path_concat(tree.children[first[0] as int], first.skip(1), second);
        }
    }
}

/// A path and its parent: the path is there when the parent is and has a
/// child at the last index.
pub proof fn lemma_path_parent(tree: ComponentView, path: Seq<usize>)
    requires
        path.len() > 0,
    ensures
        tree.has_path(path) <==> tree.has_path(path.drop_last()) && path.last() < tree.node_at(
            path.drop_last(),
        ).children.len(),
        tree.has_path(path) ==> tree.node_at(path) == tree.node_at(
            path.drop_last(),
        ).children[path.last() as int],
{
    let parent = path.drop_last();
    let step = seq![path.last()];
    assert(parent + step =~= path);
    lemma_path_concat(tree, parent, step);
    assert(step.skip(1) =~= Seq::<usize>::empty());
    let node = tree.node_at(parent);
    assert(node.has_path(step) <==> step[0] < node.children.len()) by {
        if step[0] < node.children.len() {
            assert(node.children[step[0] as int].has_path(step.skip(1)));
        }
    }
    assert(node.node_at(step) == node.children[step[0] as int].node_at(step.skip(1)));
}

/// What replacing a node does at and below the place of the replacement.
pub proof fn lemma_replace_below(
    tree: ComponentView,
    place: Seq<usize>,
    node: ComponentView,
    rest: Seq<usize>,
)
    requires
        tree.has_path(place),
    ensures
        tree.replace_at(place, node).has_path(place),
        tree.replace_at(place, node).node_at(place) == node,
        tree.replace_at(place, node).has_path(place + rest) <==> node.has_path(rest),
        tree.replace_at(place, node).node_at(place + rest) == node.node_at(rest),
    decreases place.len(),
{
    if place.len() == 0 {
        assert(place + rest =~= rest);
    } else {
        let whole = place + rest;
        assert(whole[0] == place[0]);
        assert(whole.skip(1) =~= place.skip(1) + rest);
        lemma_replace_below(tree.children[place[0] as int], place.skip(1), node, rest);
    }
}

/// Replacing a node leaves every node above it in place, with as many
/// children as before and, but for its children, unchanged.
pub proof fn lemma_replace_above(
    tree: ComponentView,
    place: Seq<usize>,
    node: ComponentView,
    depth: int,
)
    requires
        tree.has_path(place),
        0 <= depth < place.len(),
    ensures
        tree.has_path(place.take(depth)),
        tree.replace_at(place, node).has_path(place.take(depth)),
        tree.replace_at(place, node).node_at(place.take(depth)) == tree.node_at(
            place.take(depth),
        ).replace_at(place.skip(depth), node),
        tree.replace_at(place, node).node_at(place.take(depth)).children.len() == tree.node_at(
            place.take(depth),
        ).children.len(),
    decreases depth,
{
    if depth == 0 {
        assert(place.take(0) =~= Seq::<usize>::empty());
        assert(place.skip(0) =~= place);
    } else {
        let above = place.take(depth);
        assert(above[0] == place[0]);
        assert(above.skip(1) =~= place.skip(1).take(depth - 1));
        assert(place.skip(1).skip(depth - 1) =~= place.skip(depth));
        lemma_replace_above(tree.children[place[0] as int], place.skip(1), node, depth - 1);
    }
}

/// Of two replacements at one place, the second alone counts.
pub proof fn lemma_replace_twice(
    tree: ComponentView,
    place: Seq<usize>,
    first: ComponentView,
    second: ComponentView,
)
    requires
        tree.has_path(place),
    ensures
        tree.replace_at(place, first).replace_at(place, second) == tree.replace_at(place, second),
    decreases place.len(),
{
    if place.len() > 0 {
        let index = place[0] as int;
        let child = tree.children[index];
        lemma_replace_twice(child, place.skip(1), first, second);
        let once = tree.replace_at(place, first);
        assert(once.children.update(
            index,
            once.children[index].replace_at(place.skip(1), second),
        ) =~= tree.children.update(index, child.replace_at(place.skip(1), second)));
    }
}

/// Putting a node in and taking it out again, and taking a subtree out and
/// putting it in again where it was, both leave the tree as it was.
pub proof fn lemma_attach_detach(tree: ComponentView, at: Seq<usize>, node: ComponentView)
    ensures
        tree.can_attach(at) ==> {
            &&& tree.attached(at, node).has_child_at(at)
            &&& tree.attached(at, node).node_at(at) == node
            &&& tree.attached(at, node).detached(at) == tree
        },
        tree.has_child_at(at) ==> {
            &&& tree.detached(at).can_attach(at)
            &&& tree.detached(at).attached(at, tree.node_at(at)) == tree
        },
{
    if at.len() > 0 {
        let parent = at.drop_last();
        let index = at.last() as int;
        if tree.has_path(parent) {
            let here = tree.node_at(parent);
            if tree.can_attach(at) {
                let more = here.with_child(index, node);
                let after = tree.attached(at, node);
                lemma_replace_below(tree, parent, more, Seq::empty());
                lemma_path_parent(after, at);
                assert(more.children.remove(index) =~= here.children);
                assert(more.without_child(index) == here);
                lemma_replace_twice(tree, parent, more, here);
                lemma_replace_same(tree, parent);
            }
            if tree.has_child_at(at) {
                lemma_path_parent(tree, at);
                let less = here.without_child(index);
                lemma_replace_below(tree, parent, less, Seq::empty());
                assert(less.children.insert(index, here.children[index]) =~= here.children);
                assert(less.with_child(index, tree.node_at(at)) == here);
                lemma_replace_twice(tree, parent, less, here);
                lemma_replace_same(tree, parent);
            }
        } else {
            if tree.has_child_at(at) {
                lemma_path_parent(tree, at);
            }
        }
    }
}

/// The indices of a path into a tree that is held in memory are below the
/// largest number there is.
pub proof fn lemma_path_indices_bounded(root: Component, path: Seq<usize>)
    requires
        root@.has_path(path),
    ensures
        forall|k: int| 0 <= k < path.len() ==> path[k] < usize::MAX,
    decreases path.len(),
{
    if path.len() > 0 {
        lemma_component_view(root);
        assert(root.children.len() == root.children@.len());
        lemma_path_indices_bounded(root.children@[path[0] as int], path.skip(1));
        assert forall|k: int| 0 <= k < path.len() implies path[k] < usize::MAX by {
            if k > 0 {
                assert(path.skip(1)[k - 1] == path[k]);
            }
        }
    }
}

/// Reaching a node for reading and reaching it for changing reach the same
/// node: what is written where the path leads for changing is what is then
/// read where it leads for reading, and writing back what was read leaves
/// the tree as it was.
pub proof fn lemma_reading_and_changing_agree(
    tree: ComponentView,
    path: Seq<usize>,
    node: ComponentView,
)
    requires
        tree.has_path(path),
    ensures
        tree.replace_at(path, node).has_path(path),
        tree.replace_at(path, node).node_at(path) == node,
        tree.replace_at(path, tree.node_at(path)) == tree,
{
    lemma_replace_below(tree, path, node, Seq::empty());
    lemma_replace_same(tree, path);
}

/// Replacing a node by itself changes nothing.
pub proof fn lemma_replace_same(tree: ComponentView, place: Seq<usize>)
    requires
        tree.has_path(place),
    ensures
        tree.replace_at(place, tree.node_at(place)) == tree,
    decreases place.len(),
{
    if place.len() > 0 {
        let child = tree.children[place[0] as int];
        lemma_replace_same(child, place.skip(1));
        assert(tree.children.update(place[0] as int, child) =~= tree.children);
    }
}

impl Component {
    /// The node that the path leads to, for reading.
    pub fn get_from_path(&self, path: Vec<usize>) -> (r: Result<&Component, LayoutError>)
        ensures
            r is Ok <==> self@.has_path(path@),
            r is Ok ==> r->Ok_0@ == self@.node_at(path@),
            r is Err ==> r->Err_0 == LayoutError::NoSuchChild,
    {
        let mut node = self;
        let mut i: usize = 0;
        proof {
            assert(path@.skip(0) =~= path@);
        }
        while i < path.len()
            invariant
                i <= path@.len(),
                self@.has_path(path@) <==> node@.has_path(path@.skip(i as int)),
                self@.has_path(path@) ==> self@.node_at(path@) == node@.node_at(path@.skip(i as int)),
            decreases path@.len() - i,
        {
            let index = path[i];
            proof {
                assert(path@.skip(i as int).skip(1) =~= path@.skip(i + 1));
                assert(path@.skip(i as int)[0] == index);
                lemma_component_view(*node);
            }
            if index >= node.children.len() {
                return Err(LayoutError::NoSuchChild);
            }
            node = &node.children[index];
            i = i + 1;
        }
        Ok(node)
    }

    /// The node that the path leads to, for changing. What the caller does
    /// to it is done to this tree at that place, and nowhere else.
    pub fn get_mut_from_path(&mut self, path: Vec<usize>) -> (r: Result<&mut Component, LayoutError>)
        ensures
            match r {
                Ok(node) => {
                    &&& old(self)@.has_path(path@)
                    &&& node@ == old(self)@.node_at(path@)
                    &&& final(self)@ == old(self)@.replace_at(path@, final(node)@)
                },
                Err(e) => {
                    &&& !old(self)@.has_path(path@)
                    &&& e == LayoutError::NoSuchChild
                    &&& final(self)@ == old(self)@
                },
            },
    {
        proof {
            assert(path@.skip(0) =~= path@);
        }
        self.get_mut_below(&path, 0)
    }

    fn get_mut_below(&mut self, path: &Vec<usize>, start: usize) -> (r: Result<&mut Component, LayoutError>)
        requires
            start <= path@.len(),
        ensures
            match r {
                Ok(node) => {
                    &&& old(self)@.has_path(path@.skip(start as int))
                    &&& node@ == old(self)@.node_at(path@.skip(start as int))
                    &&& final(self)@ == old(self)@.replace_at(path@.skip(start as int), final(node)@)
                },
                Err(e) => {
                    &&& !old(self)@.has_path(path@.skip(start as int))
                    &&& e == LayoutError::NoSuchChild
                    &&& final(self)@ == old(self)@
                },
            },
        decreases path@.len() - start,
    {
        if start == path.len() {
            Ok(self)
        } else {
            let index = path[start];
            proof {
                assert(path@.skip(start as int).skip(1) =~= path@.skip(start + 1));
                assert(path@.skip(start as int)[0] == index);
                lemma_component_view(*self);
            }
            if index >= self.children.len() {
                Err(LayoutError::NoSuchChild)
            } else {
                let ghost before = *self;
                let ghost after = *final(self);
                let child = &mut self.children[index];
                let ghost child_after = *final(child);
                assert(after.children@ == before.children@.update(index as int, child_after));
                proof {
                    lemma_component_view(after);
                    lemma_component_view(before);
                }
                match child.get_mut_below(path, start + 1) {
                    Ok(node) => {
                        proof {
                            assert(after@.children =~= before@.children.update(
                                index as int,
                                before@.children[index as int].replace_at(
                                    path@.skip(start + 1),
                                    final(node)@,
                                ),
                            ));
                        }
                        Ok(node)
                    },
                    Err(e) => {
                        proof {
                            assert(after@.children =~= before@.children);
                        }
                        Err(e)
                    },
                }
            }
        }
    }
}

impl Component {
    /// Takes the subtree at `at` out of its parent and hands it over. The
    /// later children of that parent move one place down.
    pub fn detach(&mut self, at: &Vec<usize>) -> (r: Result<Component, LayoutError>)
        ensures
            match r {
                Ok(node) => {
                    &&& old(self)@.has_child_at(at@)
                    &&& node@ == old(self)@.node_at(at@)
                    &&& final(self)@ == old(self)@.detached(at@)
                },
                Err(e) => {
                    &&& !old(self)@.has_child_at(at@)
                    &&& final(self)@ == old(self)@
                    &&& e == (if at@.len() == 0 {
                        LayoutError::RootHasNoParent
                    } else {
                        LayoutError::NoSuchChild
                    })
                },
            },
    {
        if at.len() == 0 {
            return Err(LayoutError::RootHasNoParent);
        }
        let index = at[at.len() - 1];
        let ghost before = self@;
        proof {
            lemma_path_parent(before, at@);
        }
        match self.get_mut_from_path(parent_of(at)) {
            Err(e) => Err(e),
            Ok(parent) => {
                let ghost parent_before = *parent;
                proof {
                    lemma_component_view(parent_before);
                }
                if index >= parent.children.len() {
                    proof {
                        lemma_replace_same(before, at@.drop_last());
                    }
                    Err(LayoutError::NoSuchChild)
                } else {
                    let node = parent.children.remove(index);
                    proof {
                        lemma_component_view(*parent);
                        assert(parent@.children =~= parent_before@.children.remove(index as int));
                    }
                    Ok(node)
                }
            },
        }
    }

    /// Puts `node` in as the child at `at`. The children of that parent from
    /// this place on move one place up. Where the parent is not there, or
    /// has too few children for the index, the node comes back.
    pub fn attach(&mut self, at: &Vec<usize>, node: Component) -> (r: Result<(), Component>)
        ensures
            match r {
                Ok(_) => {
                    &&& old(self)@.can_attach(at@)
                    &&& final(self)@ == old(self)@.attached(at@, node@)
                },
                Err(back) => {
                    &&& !old(self)@.can_attach(at@)
                    &&& final(self)@ == old(self)@
                    &&& back == node
                },
            },
    {
        if at.len() == 0 {
            return Err(node);
        }
        let index = at[at.len() - 1];
        let ghost before = self@;
        match self.get_mut_from_path(parent_of(at)) {
            Err(_) => Err(node),
            Ok(parent) => {
                let ghost parent_before = *parent;
                proof {
                    lemma_component_view(parent_before);
                }
                if index > parent.children.len() {
                    proof {
                        lemma_replace_same(before, at@.drop_last());
                    }
                    Err(node)
                } else {
                    parent.children.insert(index, node);
                    proof {
                        lemma_component_view(*parent);
                        assert(parent@.children =~= parent_before@.children.insert(
                            index as int,
                            node@,
                        ));
                    }
                    Ok(())
                }
            },
        }
    }
}

/// Whether two maps agree on a key: both lack it, or both have the same
/// under it.
pub open spec fn same_at<K, V>(before: Map<K, V>, after: Map<K, V>, key: K) -> bool {
    before.contains_key(key) == after.contains_key(key) && (before.contains_key(key)
        ==> before[key] == after[key])
}

/// What is recorded under a path, or nothing where the path is absent.
pub open spec fn recorded_at<V>(map: Map<Seq<usize>, Map<Seq<char>, V>>, path: Seq<usize>) -> Map<
    Seq<char>,
    V,
> {
    if map.contains_key(path) {
        map[path]
    } else {
        Map::empty()
    }
}

impl ComponentView {
    /// Whether two trees have the same nodes at the same places: the same
    /// names and authors, and as many children each.
    pub open spec fn same_outline(self, other: ComponentView) -> bool
        decreases self,
    {
        &&& self.name == other.name
        &&& self.author == other.author
        &&& self.children.len() == other.children.len()
        &&& forall|i: int|
            0 <= i < self.children.len() ==> (#[trigger] self.children[i]).same_outline(
                other.children[i],
            )
    }
}

/// Whether the path leads to a node of the tree that stands at `at`.
pub open spec fn names_node(tree: ComponentView, at: Seq<usize>, path: Seq<usize>) -> bool {
    under(path, at) && tree.has_path(path.skip(at.len() as int))
}

/// Whether the failure of an index is listed for the path.
pub open spec fn failure_at(failures: Seq<(Vec<usize>, LayoutError)>, k: int, at: Seq<usize>) -> bool {
    0 <= k < failures.len() && failures[k].0@ == at
}

/// What binding nodes to their scripts starts from and arrives at: the
/// installed scripts, what is recorded and what is kept, before and after,
/// and the failures that are listed.
pub ghost struct Binding {
    pub components: Map<Seq<char>, Seq<char>>,
    pub settings_before: Map<Seq<usize>, Map<Seq<char>, SettingsValueView>>,
    pub settings_after: Map<Seq<usize>, Map<Seq<char>, SettingsValueView>>,
    pub images_before: Map<Seq<usize>, Map<Seq<char>, Option<Seq<u8>>>>,
    pub images_after: Map<Seq<usize>, Map<Seq<char>, Option<Seq<u8>>>>,
    pub failures: Seq<(Vec<usize>, LayoutError)>,
}

/// The binding with the given parts.
pub open spec fn binding(
    components: Map<Seq<char>, Seq<char>>,
    settings_before: Map<Seq<usize>, Map<Seq<char>, SettingsValueView>>,
    settings_after: Map<Seq<usize>, Map<Seq<char>, SettingsValueView>>,
    images_before: Map<Seq<usize>, Map<Seq<char>, Option<Seq<u8>>>>,
    images_after: Map<Seq<usize>, Map<Seq<char>, Option<Seq<u8>>>>,
    failures: Seq<(Vec<usize>, LayoutError)>,
) -> Binding {
    Binding { components, settings_before, settings_after, images_before, images_after, failures }
}

impl Binding {
    /// Whether the node, which stands at `at`, is as binding leaves a node.
    ///
    /// A node whose script is installed and could be evaluated has a build
    /// function, and no failure is listed for it; what is recorded for it is
    /// what was recorded, merged into its schema, and what is kept for it
    /// are the images of that. Any other node has no build function, and a
    /// failure is listed for it: that no script of its name is installed,
    /// or else what the runtime said; what is recorded and kept for it is as
    /// it was.
    pub open spec fn bound_here(self, node: ComponentView, at: Seq<usize>) -> bool {
        &&& !self.components.contains_key(node.name) ==> node.widget is None
        &&& node.widget is None <==> exists|k: int| failure_at(self.failures, k, at)
        &&& forall|k: int| #[trigger]
            failure_at(self.failures, k, at) ==> if self.components.contains_key(node.name) {
                self.failures[k].1 is Script
            } else {
                self.failures[k].1 == LayoutError::UnknownComponent
            }
        &&& if node.widget is Some {
            let merged = reconciled(node.parameters, recorded_at(self.settings_before, at));
            &&& self.settings_after.contains_key(at)
            &&& self.settings_after[at] == merged
            &&& self.images_after.contains_key(at)
            &&& self.images_after[at] == images_of(merged)
        } else {
            self.unchanged_at(at)
        }
    }

    /// Whether every node of the tree, which stands at `at`, is as binding
    /// leaves a node.
    pub open spec fn bound_below(self, tree: ComponentView, at: Seq<usize>) -> bool
        decreases tree,
    {
        &&& self.bound_here(tree, at)
        &&& forall|i: int|
            0 <= i < tree.children.len() ==> self.bound_below(
                #[trigger] tree.children[i],
                at.push(i as usize),
            )
    }

    /// Whether what is recorded and what is kept under the path is as it
    /// was.
    pub open spec fn unchanged_at(self, path: Seq<usize>) -> bool {
        same_at(self.settings_before, self.settings_after, path) && same_at(
            self.images_before,
            self.images_after,
            path,
        )
    }

    /// Whether all is as it was that is recorded or kept under a path that
    /// leads to no node of the tree, which stands at `at`.
    pub open spec fn elsewhere_unchanged(self, tree: ComponentView, at: Seq<usize>) -> bool {
        forall|other: Seq<usize>| !names_node(tree, at, other) ==> #[trigger] self.unchanged_at(other)
    }
}

/// Whether two bindings say the same of a path: the same is recorded and
/// kept under it, before and after, and the same failures are listed for
/// it.
pub open spec fn agrees_at(b: Binding, c: Binding, path: Seq<usize>) -> bool {
    &&& b.components == c.components
    &&& same_at(b.settings_before, c.settings_before, path)
    &&& same_at(b.settings_after, c.settings_after, path)
    &&& same_at(b.images_before, c.images_before, path)
    &&& same_at(b.images_after, c.images_after, path)
    &&& forall|k: int| #[trigger]
        failure_at(b.failures, k, path) ==> exists|j: int| #[trigger]
            failure_at(c.failures, j, path) && c.failures[j] == b.failures[k]
    &&& forall|j: int| #[trigger]
        failure_at(c.failures, j, path) ==> exists|k: int| #[trigger]
            failure_at(b.failures, k, path) && b.failures[k] == c.failures[j]
}

/// Whether binding the first `done` of the children of the node at `path`,
/// and the node itself, cannot have touched what stands under `other`: it
/// leads to no node among them.
pub open spec fn out_of_reach(children: Seq<Component>, done: int, path: Seq<usize>, other: Seq<usize>) -> bool {
    !under(other, path) || (other.len() > path.len() && (other[path.len() as int] >= done
        || !children[other[path.len() as int] as int]@.has_path(other.skip(path.len() as int + 1))))
}

/// Once all children are done, what is out of reach is what leads to no
/// node of the tree.
proof fn lemma_reach(node: Component, path: Seq<usize>, other: Seq<usize>)
    ensures
        out_of_reach(node.children@, node.children@.len() as int, path, other) <==> !names_node(
            node@,
            path,
            other,
        ),
{
    lemma_component_view(node);
    if under(other, path) {
        let rest = other.skip(path.len() as int);
        if other.len() > path.len() {
            assert(rest[0] == other[path.len() as int]);
            assert(rest.skip(1) =~= other.skip(path.len() as int + 1));
        } else {
            assert(rest.len() == 0);
        }
    }
}

/// A node that is as binding leaves it stays so where the binding is
/// replaced by one that says the same of the node's path.
proof fn lemma_bound_here_frame(node: ComponentView, at: Seq<usize>, b: Binding, c: Binding)
    requires
        b.bound_here(node, at),
        agrees_at(b, c, at),
    ensures
        c.bound_here(node, at),
{
    if node.widget is None {
        let k = choose|k: int| failure_at(b.failures, k, at);
        assert(failure_at(b.failures, k, at));
    }
    if exists|j: int| failure_at(c.failures, j, at) {
        let j = choose|j: int| failure_at(c.failures, j, at);
        assert(failure_at(c.failures, j, at));
    }
    assert forall|j: int| #[trigger] failure_at(c.failures, j, at) implies if c.components.contains_key(
        node.name,
    ) {
        c.failures[j].1 is Script
    } else {
        c.failures[j].1 == LayoutError::UnknownComponent
    } by {
        let k = choose|k: int| #[trigger] failure_at(b.failures, k, at) && b.failures[k] == c.failures[j];
        assert(failure_at(b.failures, k, at));
    }
}

/// A tree that is as binding leaves it stays so where the binding is
/// replaced by one that says the same of every path at or below the tree.
proof fn lemma_bound_below_frame(tree: ComponentView, at: Seq<usize>, b: Binding, c: Binding)
    requires
        b.bound_below(tree, at),
        forall|p: Seq<usize>| under(p, at) ==> #[trigger] agrees_at(b, c, p),
    ensures
        c.bound_below(tree, at),
    decreases tree,
{
    lemma_under_self_and_parent(at, 0);
    assert(agrees_at(b, c, at));
    lemma_bound_here_frame(tree, at, b, c);
    assert forall|i: int| 0 <= i < tree.children.len() implies c.bound_below(
        #[trigger] tree.children[i],
        at.push(i as usize),
    ) by {
        let below = at.push(i as usize);
        assert forall|p: Seq<usize>| under(p, below) implies #[trigger] agrees_at(b, c, p) by {
            lemma_under_child(p, at, i as usize);
        }
        lemma_bound_below_frame(tree.children[i], below, b, c);
    }
}

/// Binding one more child says nothing new of a path that does not lead
/// into that child.
proof fn lemma_step_keeps(
    was: Binding,
    now: Binding,
    step: Binding,
    child: ComponentView,
    below: Seq<usize>,
    p: Seq<usize>,
)
    requires
        !under(p, below),
        now.components == was.components,
        now.settings_before == was.settings_before,
        now.images_before == was.images_before,
        step.settings_before == was.settings_after,
        step.settings_after == now.settings_after,
        step.images_before == was.images_after,
        step.images_after == now.images_after,
        now.failures == was.failures + step.failures,
        step.elsewhere_unchanged(child, below),
        forall|k: int|
            0 <= k < step.failures.len() ==> names_node(child, below, (#[trigger] step.failures[k]).0@),
    ensures
        agrees_at(was, now, p),
{
    assert(step.unchanged_at(p));
    assert forall|k: int| #[trigger] failure_at(was.failures, k, p) implies exists|j: int| #[trigger]
        failure_at(now.failures, j, p) && now.failures[j] == was.failures[k] by {
        assert(failure_at(now.failures, k, p) && now.failures[k] == was.failures[k]);
    }
    assert forall|j: int| #[trigger] failure_at(now.failures, j, p) implies exists|k: int| #[trigger]
        failure_at(was.failures, k, p) && was.failures[k] == now.failures[j] by {
        if j >= was.failures.len() {
            assert(now.failures[j] == step.failures[j - was.failures.len()]);
            assert(names_node(child, below, step.failures[j - was.failures.len()].0@));
        }
        assert(failure_at(was.failures, j, p) && was.failures[j] == now.failures[j]);
    }
}

/// Binding one more child, seen from the whole, says of a path into that
/// child what it says seen from the child.
proof fn lemma_step_takes(was: Binding, now: Binding, step: Binding, below: Seq<usize>, p: Seq<usize>)
    requires
        under(p, below),
        step.components == now.components,
        now.settings_before == was.settings_before,
        now.images_before == was.images_before,
        step.settings_before == was.settings_after,
        step.settings_after == now.settings_after,
        step.images_before == was.images_after,
        step.images_after == now.images_after,
        now.failures == was.failures + step.failures,
        was.unchanged_at(p),
        forall|k: int| 0 <= k < was.failures.len() ==> !under((#[trigger] was.failures[k]).0@, below),
    ensures
        agrees_at(step, now, p),
{
    let n = was.failures.len() as int;
    assert forall|k: int| #[trigger] failure_at(step.failures, k, p) implies exists|j: int| #[trigger]
        failure_at(now.failures, j, p) && now.failures[j] == step.failures[k] by {
        assert(now.failures[n + k] == step.failures[k]);
        assert(failure_at(now.failures, n + k, p));
    }
    assert forall|j: int| #[trigger] failure_at(now.failures, j, p) implies exists|k: int| #[trigger]
        failure_at(step.failures, k, p) && step.failures[k] == now.failures[j] by {
        if j < n {
            assert(now.failures[j] == was.failures[j]);
            assert(!under(was.failures[j].0@, below));
        }
        assert(now.failures[j] == step.failures[j - n]);
        assert(failure_at(step.failures, j - n, p));
    }
}

/// What holds of a tree that is as binding leaves it holds of the node at
/// each of its paths.
pub proof fn lemma_bound_at_every_path(tree: ComponentView, at: Seq<usize>, b: Binding, rest: Seq<usize>)
    requires
        b.bound_below(tree, at),
        tree.has_path(rest),
    ensures
        b.bound_here(tree.node_at(rest), at + rest),
    decreases rest.len(),
{
    if rest.len() == 0 {
        assert(at + rest =~= at);
    } else {
        let i = rest[0];
        assert(b.bound_below(tree.children[i as int], at.push(i)));
        lemma_bound_at_every_path(tree.children[i as int], at.push(i), b, rest.skip(1));
        assert(at.push(i) + rest.skip(1) =~= at + rest);
    }
}

/// The catalog that a list of named script texts gives: each text under its
/// name, a later text of the same name in place of an earlier one.
pub fn catalog_of(named: Vec<(String, String)>) -> (r: Catalog)
    ensures
        r@ == crate::assoc::pairs_to_map(named@),
{
    let mut catalog: Catalog = AssocMap::new();
    let mut i: usize = 0;
    while i < named.len()
        invariant
            i <= named@.len(),
            catalog@ == crate::assoc::pairs_to_map(named@.subrange(0, i as int)),
        decreases named@.len() - i,
    {
        proof {
            assert(named@.subrange(0, i + 1).drop_last() =~= named@.subrange(0, i as int));
        }
        catalog.insert(named[i].0.clone(), named[i].1.clone());
        i = i + 1;
    }
    proof {
        assert(named@.subrange(0, named@.len() as int) =~= named@);
    }
    catalog
}

/// The text of the installed script of a name.
pub fn script_source<'a>(components: &'a Catalog, name: &String) -> (r: Result<&'a String, LayoutError>)
    ensures
        match r {
            Ok(text) => components@.contains_key(name@) && text@ == components@[name@],
            Err(e) => !components@.contains_key(name@) && e == LayoutError::UnknownComponent,
        },
{
    match components.get(name) {
        Some(text) => Ok(text),
        None => Err(LayoutError::UnknownComponent),
    }
}

/// The catalogs that a list of script texts can give: each text stands
/// under a name, a later text of the same name in place of an earlier one.
/// The names are what the scripts call themselves.
pub open spec fn lists(catalog: Map<Seq<char>, Seq<char>>, sources: Seq<String>) -> bool {
    exists|named: Seq<(String, String)>| #[trigger]
        names(named, sources) && catalog == crate::assoc::pairs_to_map(named)
}

/// Whether a list of named texts holds the given texts, in their order.
pub open spec fn names(named: Seq<(String, String)>, sources: Seq<String>) -> bool {
    named.len() == sources.len() && forall|i: int|
        0 <= i < sources.len() ==> (#[trigger] named[i]).1@ == sources[i]@
}

impl Component {
    /// The node that a script defines, without children.
    pub fn from_script(script: ComponentScript) -> (r: Self)
        ensures
            r.name == script.name,
            r.author == script.author,
            r.widget == Some(script.widget),
            r.parameters == script.parameters,
            r.children@.len() == 0,
    {
        Component {
            name: script.name,
            author: script.author,
            widget: Some(script.widget),
            parameters: script.parameters,
            children: Vec::new(),
        }
    }

    /// Makes a node from the text of its script. The script decides what
    /// the node is; whatever it yields, the node has a build function and no
    /// children. It fails where the runtime does.
    pub fn from_str(s: String, lua: &LuaContext) -> (r: Result<Self, LayoutError>)
        ensures
            match r {
                Ok(node) => node.widget is Some && node.children@.len() == 0,
                Err(e) => e is Script,
            },
    {
        match eval_component(lua, s.as_str(), STEP_LIMIT) {
            Ok(script) => Ok(Component::from_script(script)),
            Err(e) => Err(script_error(e)),
        }
    }

    /// Reads the name of each script text and lists the texts by name (see
    /// [`lists`]). It fails with the first text that the runtime cannot
    /// evaluate, and so never where there are no texts.
    pub fn import_all_from_sources(sources: Vec<String>, lua: &LuaContext) -> (r: Result<
        Catalog,
        LayoutError,
    >)
        ensures
            match r {
                Ok(catalog) => lists(catalog@, sources@),
                Err(e) => e is Script && sources@.len() > 0,
            },
    {
        let mut named: Vec<(String, String)> = Vec::new();
        let mut i: usize = 0;
        while i < sources.len()
            invariant
                i <= sources@.len(),
                named@.len() == i,
                forall|k: int| 0 <= k < i ==> (#[trigger] named@[k]).1@ == sources@[k]@,
            decreases sources@.len() - i,
        {
            match eval_name(lua, sources[i].as_str(), STEP_LIMIT) {
                Ok(name) => {
                    named.push((name, sources[i].clone()));
                },
                Err(e) => {
                    return Err(script_error(e));
                },
            }
            i = i + 1;
        }
        proof {
            assert(names(named@, sources@));
        }
        Ok(catalog_of(named))
    }

    /// Takes over what evaluating this node's script gave. With a script,
    /// the node gets its build function and its schema, what was recorded
    /// for the node is merged into the schema, and the images of the node
    /// are those of the merged values. Without one, the node is left
    /// without a build function and nothing else changes.
    pub fn reloaded(
        &mut self,
        outcome: Result<ComponentScript, LayoutError>,
        path: &Vec<usize>,
        settings: &mut LayoutSettings,
        repository: &mut Repository,
    ) -> (r: Option<LayoutError>)
        ensures
            final(self).name == old(self).name,
            final(self).author == old(self).author,
            final(self).children == old(self).children,
            final(repository).game_icon == old(repository).game_icon,
            final(repository).splits_icon == old(repository).splits_icon,
            match outcome {
                Ok(script) => {
                    let merged = reconciled(
                        script.parameters.0@,
                        recorded_at(old(settings)@, path@),
                    );
                    &&& r is None
                    &&& final(self).widget == Some(script.widget)
                    &&& final(self).parameters == script.parameters
                    &&& final(settings)@ == old(settings)@.insert(path@, merged)
                    &&& final(repository).layout_images@ == old(repository).layout_images@.insert(
                        path@,
                        images_of(merged),
                    )
                },
                Err(e) => {
                    &&& r == Some(e)
                    &&& final(self).widget is None
                    &&& final(self).parameters == old(self).parameters
                    &&& final(settings)@ == old(settings)@
                    &&& final(repository).layout_images@ == old(repository).layout_images@
                },
            },
    {
        match outcome {
            Ok(script) => {
                let merged = match settings.get(path) {
                    Some(recorded) => script.parameters.reconcile(recorded),
                    None => {
                        let nothing: ComponentSettings = AssocMap::new();
                        script.parameters.reconcile(&nothing)
                    },
                };
                let images = images_from(&merged);
                self.widget = Some(script.widget);
                self.parameters = script.parameters;
                settings.insert(path.clone(), merged);
                repository.layout_images.insert(path.clone(), images);
                None
            },
            Err(e) => {
                self.widget = None;
                Some(e)
            },
        }
    }

    /// Evaluates the script that the catalog holds under this node's name.
    /// It fails as [`script_source`] does where the catalog lacks the name,
    /// and else only where the runtime does.
    pub fn evaluated(&self, components: &Catalog, lua: &LuaContext) -> (r: Result<
        ComponentScript,
        LayoutError,
    >)
        ensures
            match r {
                Ok(_) => components@.contains_key(self.name@),
                Err(e) => if components@.contains_key(self.name@) {
                    e is Script
                } else {
                    e == LayoutError::UnknownComponent
                },
            },
    {
        match script_source(components, &self.name) {
            Ok(text) => {
                match eval_component(lua, text.as_str(), STEP_LIMIT) {
                    Ok(script) => Ok(script),
                    Err(e) => Err(script_error(e)),
                }
            },
            Err(e) => Err(e),
        }
    }

    /// Binds this node and every node below it to its script again, as
    /// after a layout was read: each node's script is looked up by the
    /// node's name and evaluated (see [`Component::evaluated`]), and the
    /// node takes over what that gave (see [`Component::reloaded`]). A node
    /// whose script is not installed, or fails, is listed with the reason
    /// and left without a build function; the nodes below it are bound all
    /// the same. The outline of the tree stays. What holds of the node holds
    /// of every node below it (see [`Binding::bound_below`]), and nothing
    /// changes that is recorded or kept for a path that leads to no node of
    /// this subtree.
    pub fn load(
        &mut self,
        path: Vec<usize>,
        settings: &mut LayoutSettings,
        repository: &mut Repository,
        components: &Catalog,
        lua: &LuaContext,
    ) -> (r: Vec<(Vec<usize>, LayoutError)>)
        ensures
            old(self)@.same_outline(final(self)@),
            final(repository).game_icon == old(repository).game_icon,
            final(repository).splits_icon == old(repository).splits_icon,
            binding(
                components@,
                old(settings)@,
                final(settings)@,
                old(repository).layout_images@,
                final(repository).layout_images@,
                r@,
            ).bound_below(final(self)@, path@),
            binding(
                components@,
                old(settings)@,
                final(settings)@,
                old(repository).layout_images@,
                final(repository).layout_images@,
                r@,
            ).elsewhere_unchanged(final(self)@, path@),
            forall|k: int|
                0 <= k < r@.len() ==> names_node(final(self)@, path@, (#[trigger] r@[k]).0@),
        decreases *old(self),
    {
        let ghost before = *self;
        let ghost sb = settings@;
        let ghost ib = repository.layout_images@;
        let ghost len = path@.len() as int;
        let outcome = self.evaluated(components, lua);
        let mut failures: Vec<(Vec<usize>, LayoutError)> = Vec::new();
        match self.reloaded(outcome, &path, settings, repository) {
            Some(e) => {
                failures.push((path.clone(), e));
            },
            None => {},
        }
        let ghost bound = *self;
        proof {
            lemma_under_self_and_parent(path@, 0);
            lemma_component_view(before);
            lemma_component_view(bound);
            let now = binding(components@, sb, settings@, ib, repository.layout_images@, failures@);
            if bound.widget is None {
                assert(failure_at(failures@, 0, path@));
            }
            assert(now.bound_here(bound@, path@));
            assert forall|other: Seq<usize>|
                out_of_reach(self.children@, 0, path@, other) implies #[trigger] now.unchanged_at(
                other,
            ) by {
                assert(other != path@);
            }
        }
        let mut i: usize = 0;
        while i < self.children.len()
            invariant
                i <= self.children@.len(),
                before == *old(self),
                len == path@.len(),
                sb == old(settings)@,
                ib == old(repository).layout_images@,
                self.name == bound.name,
                self.author == bound.author,
                self.widget == bound.widget,
                self.parameters == bound.parameters,
                self.children@.len() == bound.children@.len(),
                bound.children == before.children,
                bound.name == before.name,
                bound.author == before.author,
                forall|j: int|
                    0 <= j < i ==> (#[trigger] before.children@[j])@.same_outline(
                        self.children@[j]@,
                    ),
                forall|j: int|
                    i <= j < self.children@.len() ==> #[trigger] self.children@[j]
                        == before.children@[j],
                repository.game_icon == old(repository).game_icon,
                repository.splits_icon == old(repository).splits_icon,
                binding(
                    components@,
                    sb,
                    settings@,
                    ib,
                    repository.layout_images@,
                    failures@,
                ).bound_here(bound@, path@),
                forall|j: int|
                    0 <= j < i ==> binding(
                        components@,
                        sb,
                        settings@,
                        ib,
                        repository.layout_images@,
                        failures@,
                    ).bound_below((#[trigger] self.children@[j])@, path@.push(j as usize)),
                forall|other: Seq<usize>|
                    out_of_reach(self.children@, i as int, path@, other) ==> #[trigger] binding(
                        components@,
                        sb,
                        settings@,
                        ib,
                        repository.layout_images@,
                        failures@,
                    ).unchanged_at(other),
                forall|k: int|
                    0 <= k < failures@.len() ==> !out_of_reach(
                        self.children@,
                        i as int,
                        path@,
                        (#[trigger] failures@[k]).0@,
                    ),
            decreases self.children@.len() - i,
        {
            let below = child_of(&path, i);
            let ghost failures_here = failures@;
            let ghost children_here = self.children@;
            let ghost was = binding(
                components@,
                sb,
                settings@,
                ib,
                repository.layout_images@,
                failures@,
            );
            proof {
                assert(self.children@[i as int] == before.children@[i as int]);
            }
            let child = &mut self.children[i];
            let mut more = child.load(below, settings, repository, components, lua);
            let ghost listed = more@;
            failures.append(&mut more);
            proof {
                let now = binding(
                    components@,
                    sb,
                    settings@,
                    ib,
                    repository.layout_images@,
                    failures@,
                );
                let step = binding(
                    components@,
                    was.settings_after,
                    settings@,
                    was.images_after,
                    repository.layout_images@,
                    listed,
                );
                let node = self.children@[i as int]@;
                assert(failures@ =~= failures_here + listed);
                assert(step.bound_below(node, below@));
                assert(step.elsewhere_unchanged(node, below@));
                assert forall|j: int| 0 <= j < i implies self.children@[j] == children_here[j] by {}
                lemma_step_keeps(was, now, step, node, below@, path@);
                lemma_bound_here_frame(bound@, path@, was, now);
                assert forall|j: int| 0 <= j <= i implies now.bound_below(
                    (#[trigger] self.children@[j])@,
                    path@.push(j as usize),
                ) by {
                    let place = path@.push(j as usize);
                    if j < i {
                        assert forall|p: Seq<usize>| under(p, place) implies #[trigger] agrees_at(
                            was,
                            now,
                            p,
                        ) by {
                            lemma_under_child(p, path@, j as usize);
                            lemma_under_child(p, path@, i);
                            lemma_step_keeps(was, now, step, node, below@, p);
                        }
                        assert(was.bound_below(children_here[j]@, place));
                        lemma_bound_below_frame(self.children@[j]@, place, was, now);
                    } else {
                        assert forall|p: Seq<usize>| under(p, place) implies #[trigger] agrees_at(
                            step,
                            now,
                            p,
                        ) by {
                            lemma_under_child(p, path@, i);
                            assert(out_of_reach(children_here, i as int, path@, p));
                            assert(was.unchanged_at(p));
                            assert forall|k: int| 0 <= k < was.failures.len() implies !under(
                                (#[trigger] was.failures[k]).0@,
                                below@,
                            ) by {
                                lemma_under_child(was.failures[k].0@, path@, i);
                                assert(!out_of_reach(children_here, i as int, path@, failures_here[k].0@));
                            }
                            lemma_step_takes(was, now, step, below@, p);
                        }
                        lemma_bound_below_frame(node, place, step, now);
                    }
                }
                assert forall|other: Seq<usize>|
                    out_of_reach(self.children@, i + 1, path@, other) implies #[trigger] now.unchanged_at(
                    other,
                ) by {
                    lemma_under_child(other, path@, i);
                    assert(other.skip(below@.len() as int) =~= other.skip(len + 1));
                    assert(out_of_reach(children_here, i as int, path@, other));
                    assert(was.unchanged_at(other));
                    assert(!names_node(node, below@, other));
                    assert(step.unchanged_at(other));
                }
                assert forall|k: int| 0 <= k < failures@.len() implies !out_of_reach(
                    self.children@,
                    i + 1,
                    path@,
                    (#[trigger] failures@[k]).0@,
                ) by {
                    if k < failures_here.len() {
                        assert(failures@[k] == failures_here[k]);
                        assert(!out_of_reach(children_here, i as int, path@, failures_here[k].0@));
                    } else {
                        let place = listed[k - failures_here.len()].0@;
                        assert(failures@[k] == listed[k - failures_here.len()]);
                        assert(names_node(node, below@, place));
                        lemma_under_child(place, path@, i);
                        assert(place.skip(below@.len() as int) =~= place.skip(len + 1));
                    }
                }
            }
            i = i + 1;
        }
        proof {
            let now = binding(components@, sb, settings@, ib, repository.layout_images@, failures@);
            lemma_component_view(*self);
            assert forall|j: int| 0 <= j < before@.children.len() implies (#[trigger] before@.children[j]).same_outline(
                self@.children[j],
            ) by {
                assert(before.children@[j]@.same_outline(self.children@[j]@));
            }
            assert(now.bound_here(self@, path@));
            assert forall|j: int| 0 <= j < self@.children.len() implies now.bound_below(
                #[trigger] self@.children[j],
                path@.push(j as usize),
            ) by {
                assert(now.bound_below(self.children@[j]@, path@.push(j as usize)));
            }
            assert forall|other: Seq<usize>| !names_node(self@, path@, other) implies #[trigger] now.unchanged_at(
                other,
            ) by {
                lemma_reach(*self, path@, other);
            }
            assert forall|k: int| 0 <= k < failures@.len() implies names_node(
                self@,
                path@,
                (#[trigger] failures@[k]).0@,
            ) by {
                lemma_reach(*self, path@, failures@[k].0@);
            }
        }
        failures
    }
}

/// Whether a tree of widgets is put together for a node as building does:
/// it is the tree that the node's build function gave, in which each place
/// of a child is taken by what is shown for that child. Something is shown
/// for exactly the children that the tree has a place for; it holds no
/// place of a child itself, and for a child without a build function it is
/// the failure notice.
pub open spec fn assembles(
    node: Component,
    raw: WidgetView,
    shown: Seq<Option<WidgetView>>,
    built: WidgetView,
) -> bool {
    &&& built == raw.substituted(shown)
    &&& shown.len() == node.children@.len()
    &&& forall|i: int|
        0 <= i < shown.len() ==> {
            &&& (#[trigger] shown[i]) is Some <==> raw.mentions(i as usize)
            &&& shown[i] is Some ==> shown[i]->0.is_resolved()
            &&& shown[i] is Some && node.children@[i].widget is None ==> shown[i]->0
                == failure_notice()
        }
}

/// Where the child with the given index is built, for the tree that its
/// parent's build function gave: at the parent's path with the index added
/// where the tree has a place for the child, and not at all where it has
/// none.
pub open spec fn child_place(raw: WidgetView, path: Seq<usize>, index: int) -> Option<Seq<usize>> {
    if raw.mentions(index as usize) {
        Some(path.push(index as usize))
    } else {
        None
    }
}

impl Component {
    /// What the build function of this node is called with: what is
    /// recorded and what is kept under the node's path, nothing where the
    /// path is absent, and the number of the node's children.
    pub fn build_inputs(
        &self,
        path: &Vec<usize>,
        layout_settings: &LayoutSettings,
        repository: &Repository,
    ) -> (r: BuildInputs)
        ensures
            r.settings@ == recorded_at(layout_settings@, path@),
            r.images@ == recorded_at(repository.layout_images@, path@),
            r.children == self.children@.len(),
    {
        let settings: ComponentSettings = match layout_settings.get(path) {
            Some(recorded) => recorded.copy_value(),
            None => AssocMap::new(),
        };
        let images: ComponentImages = match repository.layout_images.get(path) {
            Some(kept) => kept.copy_value(),
            None => AssocMap::new(),
        };
        BuildInputs { settings, images, children: self.children.len() }
    }

    /// Where each child of this node is built, for the tree that the
    /// node's build function gave (see [`child_place`]): one entry for each
    /// child, in the children's order.
    pub fn child_places(&self, raw: &LuaWidget, path: &Vec<usize>) -> (r: Vec<Option<Vec<usize>>>)
        ensures
            r@.len() == self.children@.len(),
            forall|i: int|
                0 <= i < r@.len() ==> path_view(#[trigger] r@[i]) == child_place(raw@, path@, i),
    {
        let mut places: Vec<Option<Vec<usize>>> = Vec::new();
        let mut i: usize = 0;
        while i < self.children.len()
            invariant
                i <= self.children@.len(),
                places@.len() == i,
                forall|k: int|
                    0 <= k < i ==> path_view(#[trigger] places@[k]) == child_place(raw@, path@, k),
            decreases self.children@.len() - i,
        {
            if raw.mentions(i) {
                places.push(Some(child_of(path, i)));
            } else {
                places.push(None);
            }
            i = i + 1;
        }
        places
    }

    /// Builds the widget tree of this node. The node's build function is
    /// called with what [`Component::build_inputs`] gives for the node;
    /// each child is built in turn at the place that
    /// [`Component::child_places`] gives for it, which is the node's path
    /// with the child's index added for a child that the tree has a place
    /// for, and put in every such place (see [`assembles`]). A child that
    /// cannot be built shows the failure notice, so that one broken
    /// component does not take the others with it. Nothing in the tree, in
    /// what is recorded or in what is kept is changed.
    ///
    /// It fails where this node has no build function or the runtime fails,
    /// and what it gives holds no place of a child any more.
    pub fn build(
        &self,
        lua: &LuaContext,
        path: Vec<usize>,
        layout_settings: &LayoutSettings,
        repository: &Repository,
    ) -> (r: Result<LuaWidget, LayoutError>)
        ensures
            self.widget is None ==> r is Err,
            match r {
                Ok(widget) => widget@.is_resolved() && exists|
                    raw: WidgetView,
                    shown: Seq<Option<WidgetView>>,
                | #[trigger] assembles(*self, raw, shown, widget@),
                Err(e) => if self.widget is None {
                    e is NoWidget
                } else {
                    e is Script
                },
            },
        decreases self,
    {
        let widget = match &self.widget {
            Some(widget) => widget,
            None => {
                return Err(LayoutError::NoWidget);
            },
        };
        let inputs = self.build_inputs(&path, layout_settings, repository);
        let raw = match call_widget(lua, widget, inputs, STEP_LIMIT) {
            Ok(raw) => raw,
            Err(e) => {
                return Err(script_error(e));
            },
        };
        let places = self.child_places(&raw, &path);
        let mut built: Vec<Option<LuaWidget>> = Vec::new();
        let mut i: usize = 0;
        while i < places.len()
            invariant
                places@.len() == self.children@.len(),
                forall|k: int|
                    0 <= k < places@.len() ==> path_view(#[trigger] places@[k]) == child_place(
                        raw@,
                        path@,
                        k,
                    ),
                i <= places@.len(),
                built@.len() == i,
                forall|k: int|
                    0 <= k < i ==> {
                        &&& (#[trigger] built@[k]) is Some <==> raw@.mentions(k as usize)
                        &&& built@[k] is Some ==> built@[k]->0@.is_resolved()
                        &&& built@[k] is Some && self.children@[k].widget is None ==> built@[k]->0@
                            == failure_notice()
                    },
            decreases places@.len() - i,
        {
            match &places[i] {
                Some(place) => {
                    let shown = match self.children[i].build(
                        lua,
                        place.clone(),
                        layout_settings,
                        repository,
                    ) {
                        Ok(widget) => widget,
                        Err(_) => LuaWidget::failure_notice(),
                    };
                    built.push(Some(shown));
                },
                None => {
                    built.push(None);
                },
            }
            i = i + 1;
        }
        let r = raw.build(&built);
        proof {
            assert(assembles(*self, raw@, slots_view(built@), r@));
        }
        Ok(r)
    }

    pub fn get_name(&self) -> (r: String)
        ensures
            r@ == self.name@,
    {
        self.name.clone()
    }

    pub fn get_author(&self) -> (r: String)
        ensures
            r@ == self.author@,
    {
        self.author.clone()
    }

    /// The children, which every node has, if only none.
    pub fn get_children(&self) -> (r: Option<&Vec<Component>>)
        ensures
            r == Some(&self.children),
    {
        Some(&self.children)
    }

    /// The children, for changing.
    pub fn get_children_mut(&mut self) -> (r: Option<&mut Vec<Component>>)
        ensures
            r is Some,
            *r->0 == old(self).children,
            *final(self) == (Component { children: *final(r->0), ..*old(self) }),
    {
        Some(&mut self.children)
    }

    /// The schema.
    pub fn get_parameters(&self) -> (r: &SettingsFactory)
        ensures
            r == &self.parameters,
    {
        &self.parameters
    }

    /// The schema, for changing.
    pub fn get_parameters_mut(&mut self) -> (r: &mut SettingsFactory)
        ensures
            *r == old(self).parameters,
            *final(self) == (Component { parameters: *final(r), ..*old(self) }),
    {
        &mut self.parameters
    }
}

/// The node of a tree that the path leads to, for changing.
pub fn get_mut_component_at_path(p: &mut Component, path: Vec<usize>) -> (r: Result<
    &mut Component,
    LayoutError,
>)
    ensures
        match r {
            Ok(node) => {
                &&& old(p)@.has_path(path@)
                &&& node@ == old(p)@.node_at(path@)
                &&& final(p)@ == old(p)@.replace_at(path@, final(node)@)
            },
            Err(e) => {
                &&& !old(p)@.has_path(path@)
                &&& e == LayoutError::NoSuchChild
                &&& final(p)@ == old(p)@
            },
        },
{
    p.get_mut_from_path(path)
}

} // verus!
