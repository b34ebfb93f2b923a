use crate::layout::component::{
    lemma_attach_detach, lemma_path_concat, lemma_path_indices_bounded, ComponentView,
};
use crate::layout::moving::rekeyed;
use crate::layout::{Layout, LayoutView};
use crate::path::{
    lemma_moved_origin, lemma_paths_one_level_down, lemma_shift_down_shape, lemma_shift_up_down,
    moved_path, origin_path, shift_down, under,
};
use vstd::prelude::*;

verus! {

/// Whether two nodes are the same component: they agree in everything but
/// their children.
pub open spec fn same_node(a: ComponentView, b: ComponentView) -> bool {
    a.name == b.name && a.author == b.author && a.widget == b.widget && a.parameters
        == b.parameters
}

impl LayoutView {
    /// Whatever is recorded is recorded for a node of the tree.
    pub open spec fn consistent(self) -> bool {
        forall|path: Seq<usize>| #[trigger]
            self.settings.contains_key(path) ==> self.content is Some && self.content->0.has_path(
                path,
            )
    }
}

/// A tree from which a subtree was taken has the nodes that were not in the
/// subtree, each at the place to which the taking moved it.
pub proof fn lemma_detached_paths(tree: ComponentView, from: Seq<usize>, path: Seq<usize>)
    requires
        tree.has_child_at(from),
        !under(path, from),
    ensures
        tree.detached(from).has_path(shift_down(path, from)) <==> tree.has_path(path),
        tree.has_path(path) ==> same_node(
            tree.detached(from).node_at(shift_down(path, from)),
            tree.node_at(path),
        ),
    decreases from.len(),
{
    let parent = from.drop_last();
    let index = from.last();
    let after = tree.detached(from);
    if from.len() == 1 {
        assert(parent =~= Seq::<usize>::empty());
        assert(from.take(0) =~= Seq::<usize>::empty());
        assert(after == tree.without_child(index as int));
        if path.len() > 0 {
            assert(path.take(0) =~= from.take(0));
            let low = shift_down(path, from);
            assert(low.skip(1) =~= path.skip(1));
            if path[0] == index {
                assert(path.take(1) =~= from);
            }
        }
    } else {
        let head = from[0];
        let child = tree.children[head as int];
        let below = from.skip(1);
        assert(below.drop_last() =~= parent.skip(1));
        assert(parent[0] == head);
        assert(after.children =~= tree.children.update(head as int, child.detached(below)));
        if path.len() > 0 {
            lemma_paths_one_level_down(path, from);
            if path[0] == head {
                lemma_detached_paths(child, below, path.skip(1));
                let low = shift_down(path, from);
                assert(low.skip(1) =~= shift_down(path.skip(1), below));
            }
        }
    }
}

/// A tree into which a node was put has that node and what is below it at
/// the place of the putting, and every other node at the place to which the
/// putting moved it.
pub proof fn lemma_attached_paths(
    tree: ComponentView,
    to: Seq<usize>,
    node: ComponentView,
    path: Seq<usize>,
)
    requires
        tree.can_attach(to),
    ensures
        under(path, to) ==> (tree.attached(to, node).has_path(path) <==> node.has_path(
            path.skip(to.len() as int),
        )),
        under(path, to) && tree.attached(to, node).has_path(path) ==> tree.attached(
            to,
            node,
        ).node_at(path) == node.node_at(path.skip(to.len() as int)),
        !under(path, to) ==> (tree.attached(to, node).has_path(path) <==> tree.has_path(
            shift_down(path, to),
        )),
        !under(path, to) && tree.attached(to, node).has_path(path) ==> same_node(
            tree.attached(to, node).node_at(path),
            tree.node_at(shift_down(path, to)),
        ),
    decreases to.len(),
{
    let parent = to.drop_last();
    let index = to.last();
    let after = tree.attached(to, node);
    if to.len() == 1 {
        assert(parent =~= Seq::<usize>::empty());
        assert(to.take(0) =~= Seq::<usize>::empty());
        assert(after == tree.with_child(index as int, node));
        if path.len() > 0 {
            assert(path.take(0) =~= to.take(0));
            let low = shift_down(path, to);
            assert(low.skip(1) =~= path.skip(1));
            if path[0] == index {
                assert(path.take(1) =~= to);
                assert(path.skip(to.len() as int) =~= path.skip(1));
            }
            if under(path, to) {
                assert(path.take(1)[0] == to[0]);
            }
        }
    } else {
        let head = to[0];
        let child = tree.children[head as int];
        let below = to.skip(1);
        assert(below.drop_last() =~= parent.skip(1));
        assert(parent[0] == head);
        assert(after.children =~= tree.children.update(head as int, child.attached(below, node)));
        if path.len() > 0 {
            lemma_paths_one_level_down(path, to);
            if path[0] == head {
                lemma_attached_paths(child, below, node, path.skip(1));
                let low = shift_down(path, to);
                assert(low.skip(1) =~= shift_down(path.skip(1), below));
                if under(path, to) {
                    assert(path.skip(1).skip(below.len() as int) =~= path.skip(to.len() as int));
                }
            }
        }
    }
}

/// After a subtree has moved, the node at a place is the node that stood
/// where the place came from: the tree has a node there exactly if it had
/// one at that origin, and it is the same component.
pub proof fn lemma_moved_paths(
    tree: ComponentView,
    from: Seq<usize>,
    to: Seq<usize>,
    place: Seq<usize>,
    origin: Seq<usize>,
)
    requires
        tree.has_child_at(from),
        tree.detached(from).can_attach(to),
        origin_path(place, from, Some(to)) == Some(origin),
    ensures
        tree.moved(from, to).has_path(place) <==> tree.has_path(origin),
        tree.has_path(origin) ==> same_node(tree.moved(from, to).node_at(place), tree.node_at(origin)),
{
    let without = tree.detached(from);
    let node = tree.node_at(from);
    lemma_attached_paths(without, to, node, place);
    if under(place, to) {
        let rest = place.skip(to.len() as int);
        assert(origin == from + rest);
        lemma_path_concat(tree, from, rest);
    } else {
        let low = shift_down(place, to);
        lemma_shift_up_down(low, from);
        lemma_detached_paths(tree, from, origin);
    }
}

/// Moving a subtree keeps a consistent layout consistent.
pub proof fn lemma_move_keeps_consistent(layout: LayoutView, from: Seq<usize>, to: Seq<usize>)
    requires
        layout.consistent(),
        layout.has_child_at(from),
        layout.content->0.detached(from).can_attach(to),
    ensures
        layout.with_move(from, to).consistent(),
{
    let after = layout.with_move(from, to);
    assert forall|place: Seq<usize>| #[trigger] after.settings.contains_key(place) implies after.content->0.has_path(
        place,
    ) by {
        let origin = origin_path(place, from, Some(to))->0;
        assert(layout.settings.contains_key(origin));
        lemma_moved_paths(layout.content->0, from, to, place, origin);
    }
}

/// Taking a node away takes away all that is recorded for it and for the
/// nodes below it, and nothing else: what stays recorded belonged to a node
/// outside the subtree, and stands under the path of that node in the new
/// tree. A consistent layout stays consistent, so that no recorded path is
/// left without its node.
pub proof fn lemma_removal_cascades(layout: LayoutView, at: Seq<usize>)
    requires
        layout.has_child_at(at),
    ensures
        forall|place: Seq<usize>| #[trigger]
            layout.with_removal(at).settings.contains_key(place) ==> {
                let origin = origin_path(place, at, None);
                &&& origin is Some
                &&& !under(origin->0, at)
                &&& layout.settings.contains_key(origin->0)
                &&& layout.with_removal(at).settings[place] == layout.settings[origin->0]
            },
        forall|path: Seq<usize>| #[trigger]
            layout.settings.contains_key(path) && !under(path, at) ==> layout.with_removal(
                at,
            ).settings.contains_key(shift_down(path, at)),
        layout.consistent() ==> layout.with_removal(at).consistent(),
{
    let after = layout.with_removal(at);
    assert forall|place: Seq<usize>| #[trigger] after.settings.contains_key(place) implies {
        let origin = origin_path(place, at, None);
        &&& origin is Some
        &&& !under(origin->0, at)
        &&& layout.settings.contains_key(origin->0)
        &&& after.settings[place] == layout.settings[origin->0]
    } by {
        lemma_shift_up_down(place, at);
    }
    assert forall|path: Seq<usize>| #[trigger]
        layout.settings.contains_key(path) && !under(path, at) implies after.settings.contains_key(
        shift_down(path, at),
    ) by {
        lemma_moved_origin(path, shift_down(path, at), at, None);
    }
    if layout.consistent() {
        assert forall|place: Seq<usize>| #[trigger] after.settings.contains_key(place) implies after.content->0.has_path(
            place,
        ) by {
            let origin = origin_path(place, at, None)->0;
            lemma_shift_up_down(place, at);
            lemma_detached_paths(layout.content->0, at, origin);
        }
    }
}

/// Moving what is recorded along with a subtree and then back again gives
/// what was recorded, as long as every recorded path has a place after the
/// first move.
pub proof fn lemma_rekeyed_and_back<V>(
    map: Map<Seq<usize>, V>,
    from: Seq<usize>,
    to: Seq<usize>,
)
    requires
        from.len() > 0,
        to.len() > 0,
        forall|path: Seq<usize>| #[trigger]
            map.contains_key(path) ==> moved_path(path, from, Some(to)) is Some,
    ensures
        rekeyed(rekeyed(map, from, Some(to)), to, Some(from)) == map,
{
    let there = rekeyed(map, from, Some(to));
    let back = rekeyed(there, to, Some(from));
    assert forall|path: Seq<usize>| #[trigger] map.contains_key(path) implies back.contains_key(
        path,
    ) && back[path] == map[path] by {
        let target = moved_path(path, from, Some(to))->0;
        lemma_moved_origin(path, target, from, Some(to));
        assert(there.contains_key(target));
    }
    assert forall|path: Seq<usize>| #[trigger] back.contains_key(path) implies map.contains_key(
        path,
    ) by {
        let target = origin_path(path, to, Some(from))->0;
        assert(there.contains_key(target));
        lemma_moved_origin(path, target, from, Some(to));
    }
    assert(back =~= map);
}

/// Moving a subtree and then moving it back to where it was restores the
/// layout: the tree has its old shape, and everything recorded stands under
/// its old path again. Moving a node up and then down, down and then up,
/// into the sibling above and then out of it, are such pairs.
pub proof fn lemma_move_and_back_restores(layout: Layout, from: Seq<usize>, to: Seq<usize>)
    requires
        layout@.consistent(),
        layout@.has_child_at(from),
        layout@.content->0.detached(from).can_attach(to),
    ensures
        layout@.with_move(from, to).has_child_at(to),
        layout@.with_move(from, to).content->0.detached(to).can_attach(from),
        layout@.with_move(from, to).with_move(to, from) == layout@,
{
    let before = layout@;
    let tree = before.content->0;
    let without = tree.detached(from);
    let node = tree.node_at(from);
    lemma_attach_detach(without, to, node);
    lemma_attach_detach(tree, from, node);
    let there = before.with_move(from, to);
    let back = there.with_move(to, from);
    assert(back.content == before.content);
    assert forall|path: Seq<usize>| before.settings.contains_key(path) implies moved_path(
        path,
        from,
        Some(to),
    ) is Some by {
        lemma_path_indices_bounded(layout.content->0, path);
        lemma_shift_down_shape(path, from);
    }
    lemma_rekeyed_and_back(before.settings, from, to);
}

/// Adding a component keeps a consistent layout consistent.
pub proof fn lemma_addition_keeps_consistent(
    layout: LayoutView,
    place: Seq<usize>,
    node: ComponentView,
)
    requires
        layout.consistent(),
        match layout.content {
            Some(root) => root.can_attach(place) && place.last() == root.node_at(
                place.drop_last(),
            ).children.len(),
            None => place.len() == 0,
        },
    ensures
        layout.with_addition(place, node).consistent(),
{
    let after = layout.with_addition(place, node);
    assert forall|path: Seq<usize>| #[trigger] after.settings.contains_key(path) implies after.content->0.has_path(
        path,
    ) by {
        match layout.content {
            Some(root) => {
                lemma_attached_paths(root, place, node, path);
                if path == place {
                    assert(path.skip(place.len() as int) =~= Seq::<usize>::empty());
                } else {
                    assert(layout.settings.contains_key(path));
                    if under(path, place) {
                        lemma_path_concat(root, place, path.skip(place.len() as int));
                        assert(place + path.skip(place.len() as int) =~= path);
                        crate::layout::component::lemma_path_parent(root, place);
                    } else {
                        crate::layout::component::lemma_path_parent(root, place);
                        if shift_down(path, place) != path {
                            let depth = place.len() - 1;
                            assert(path.take(place.len() as int).drop_last() =~= path.take(depth));
                            lemma_path_concat(
                                root,
                                path.take(place.len() as int),
                                path.skip(place.len() as int),
                            );
                            assert(path.take(place.len() as int) + path.skip(place.len() as int)
                                =~= path);
                            crate::layout::component::lemma_path_parent(
                                root,
                                path.take(place.len() as int),
                            );
                        }
                    }
                }
            },
            None => {
                assert(path == place);
            },
        }
    }
}

} // verus!
