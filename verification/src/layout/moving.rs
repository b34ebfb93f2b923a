use crate::assoc::AssocMap;
use crate::error::LayoutError;
use crate::layout::component::{
    lemma_path_parent, lemma_replace_above, lemma_replace_below, Component, ComponentView,
};
use crate::layout::consistency::{
    lemma_addition_keeps_consistent, lemma_move_keeps_consistent, lemma_removal_cascades,
};
use crate::lua::settings::defaults_of;
use crate::layout::{Layout, LayoutView};
use crate::path::{
    child_of, lemma_moved_origin, move_path, moved_path, origin_path, parent_of,
};
use vstd::prelude::*;

verus! {

/// A path-keyed map after a subtree has moved: under each path stands what
/// stood under the path that the node there came from. What was recorded for
/// a node that is gone is gone with it.
pub open spec fn rekeyed<V>(
    map: Map<Seq<usize>, V>,
    from: Seq<usize>,
    to: Option<Seq<usize>>,
) -> Map<Seq<usize>, V> {
    Map::new(
        |q: Seq<usize>|
            origin_path(q, from, to) is Some && map.contains_key(origin_path(q, from, to)->0),
        |q: Seq<usize>| map[origin_path(q, from, to)->0],
    )
}

/// The view of a path that may be absent, for a borrowed path.
pub open spec fn target_view(to: Option<&Vec<usize>>) -> Option<Seq<usize>> {
    match to {
        Some(t) => Some(t@),
        None => None,
    }
}

/// Moves what is recorded along with the subtree at `from`: every key is
/// replaced by the path at which its node is found after the move.
pub(crate) fn rekey<V: View>(map: &mut AssocMap<Vec<usize>, V>, from: &Vec<usize>, to: Option<&Vec<usize>>)
    requires
        from@.len() > 0,
        to is Some ==> to->0@.len() > 0,
    ensures
        final(map)@ == rekeyed(old(map)@, from@, target_view(to)),
{
    let ghost before = map@;
    let ghost from_view = from@;
    let ghost to_view = target_view(to);
    let mut out: AssocMap<Vec<usize>, V> = AssocMap::new();
    loop
        invariant
            from@ == from_view,
            target_view(to) == to_view,
            from_view.len() > 0,
            to_view is Some ==> to_view->0.len() > 0,
            forall|p: Seq<usize>| #[trigger]
                map@.contains_key(p) ==> before.contains_key(p) && map@[p] == before[p],
            forall|q: Seq<usize>| #[trigger]
                out@.contains_key(q) ==> {
                    let p = origin_path(q, from_view, to_view);
                    &&& p is Some
                    &&& before.contains_key(p->0)
                    &&& !map@.contains_key(p->0)
                    &&& out@[q] == before[p->0]
                },
            forall|p: Seq<usize>| #[trigger]
                before.contains_key(p) && !map@.contains_key(p) && moved_path(
                    p,
                    from_view,
                    to_view,
                ) is Some ==> out@.contains_key(moved_path(p, from_view, to_view)->0),
        ensures
            map@ == Map::<Seq<usize>, V::V>::empty(),
        decreases map@.dom().len(),
    {
        let ghost remaining = map@;
        let ghost done = out@;
        match map.take_any() {
            None => {
                break ;
            },
            Some((key, value)) => {
                let moved = move_path(&key, from, to);
                proof {
                    if moved is Some {
                        lemma_moved_origin(key@, moved->0@, from_view, to_view);
                    }
                }
                match moved {
                    Some(target) => {
                        out.insert(target, value);
                        proof {
                            assert forall|q: Seq<usize>| #[trigger] out@.contains_key(q) implies {
                                let p = origin_path(q, from_view, to_view);
                                &&& p is Some
                                &&& before.contains_key(p->0)
                                &&& !map@.contains_key(p->0)
                                &&& out@[q] == before[p->0]
                            } by {
                                if q != target@ {
                                    assert(done.contains_key(q));
                                }
                            }
                            assert forall|p: Seq<usize>| #[trigger]
                                before.contains_key(p) && !map@.contains_key(p) && moved_path(
                                    p,
                                    from_view,
                                    to_view,
                                ) is Some implies out@.contains_key(
                                moved_path(p, from_view, to_view)->0,
                            ) by {
                                if p != key@ {
                                    assert(!remaining.contains_key(p));
                                }
                            }
                        }
                    },
                    None => {
                        proof {
                            assert forall|p: Seq<usize>| #[trigger]
                                before.contains_key(p) && !map@.contains_key(p) && moved_path(
                                    p,
                                    from_view,
                                    to_view,
                                ) is Some implies out@.contains_key(
                                moved_path(p, from_view, to_view)->0,
                            ) by {
                                if p != key@ {
                                    assert(!remaining.contains_key(p));
                                }
                            }
                        }
                    },
                }
            },
        }
    }
    proof {
        let goal = rekeyed(before, from_view, to_view);
        assert forall|q: Seq<usize>| goal.contains_key(q) implies out@.contains_key(q) by {
            let p = origin_path(q, from_view, to_view)->0;
            lemma_moved_origin(p, q, from_view, to_view);
            assert(!map@.contains_key(p));
        }
        assert(out@ =~= goal);
    }
    *map = out;
}

/// The ways a node can move among its relatives.
#[derive(Clone, Copy, Debug, PartialEq, Eq, Structural)]
pub enum Move {
    /// Swap with the sibling before.
    Up,
    /// Swap with the sibling after.
    Down,
    /// Become the last child of the sibling before.
    EnterAbove,
    /// Become the sibling just before the parent.
    ExitParent,
}

impl LayoutView {
    /// The layout after the subtree at `from` has become the child at `to`:
    /// the tree with the subtree moved, and what is recorded moved with it.
    pub open spec fn with_move(self, from: Seq<usize>, to: Seq<usize>) -> LayoutView
        recommends
            self.content is Some,
    {
        LayoutView {
            content: Some(self.content->0.moved(from, to)),
            settings: rekeyed(self.settings, from, Some(to)),
            ..self
        }
    }

    /// The layout after the subtree at `at` has been taken away: the tree
    /// without it, and nothing recorded for it or for a node below it.
    pub open spec fn with_removal(self, at: Seq<usize>) -> LayoutView
        recommends
            self.content is Some,
    {
        LayoutView {
            content: Some(self.content->0.detached(at)),
            settings: rekeyed(self.settings, at, None),
            ..self
        }
    }

    /// Whether the path leads to a node of this layout other than its root.
    pub open spec fn has_child_at(self, path: Seq<usize>) -> bool {
        self.content is Some && self.content->0.has_child_at(path)
    }

    /// How many children the parent of the node at `path` has.
    pub open spec fn siblings(self, path: Seq<usize>) -> nat
        recommends
            self.has_child_at(path),
    {
        self.content->0.node_at(path.drop_last()).children.len()
    }

    /// Why an edit of the node at `path`, which has to have a parent, is
    /// refused, if it is.
    pub open spec fn child_error(self, path: Seq<usize>) -> Option<LayoutError> {
        if path.len() == 0 {
            Some(LayoutError::RootHasNoParent)
        } else if self.content is None {
            Some(LayoutError::NoContent)
        } else if !self.content->0.has_path(path) {
            Some(LayoutError::NoSuchChild)
        } else {
            None
        }
    }
}

/// Once a subtree is out, its place among its siblings, and every place up
/// to one past the last of them, can take a node.
pub proof fn lemma_sibling_slot(tree: ComponentView, from: Seq<usize>, index: usize)
    requires
        tree.has_child_at(from),
        index < tree.node_at(from.drop_last()).children.len(),
    ensures
        tree.detached(from).can_attach(from.drop_last().push(index)),
{
    let parent = from.drop_last();
    let slot = parent.push(index);
    lemma_path_parent(tree, from);
    let rest = tree.node_at(parent).without_child(from.last() as int);
    lemma_replace_below(tree, parent, rest, Seq::empty());
    assert(slot.drop_last() =~= parent);
}

/// Once a subtree is out, the sibling before it can take it as its last
/// child.
pub proof fn lemma_slot_in_sibling_above(tree: ComponentView, from: Seq<usize>)
    requires
        tree.has_child_at(from),
        from.last() > 0,
    ensures
        tree.has_path(from.drop_last().push((from.last() - 1) as usize)),
        tree.detached(from).can_attach(
            from.drop_last().push((from.last() - 1) as usize).push(
                tree.node_at(
                    from.drop_last().push((from.last() - 1) as usize),
                ).children.len() as usize,
            ),
        ),
        tree.detached(from).node_at(from.drop_last().push((from.last() - 1) as usize))
            == tree.node_at(from.drop_last().push((from.last() - 1) as usize)),
{
    let parent = from.drop_last();
    let above = parent.push((from.last() - 1) as usize);
    lemma_path_parent(tree, from);
    lemma_path_parent(tree, above);
    assert(above.drop_last() =~= parent);
    let rest = tree.node_at(parent).without_child(from.last() as int);
    let step = seq![(from.last() - 1) as usize];
    assert(parent + step =~= above);
    lemma_replace_below(tree, parent, rest, step);
    assert(step.skip(1) =~= Seq::<usize>::empty());
    assert(rest.has_path(step)) by {
        assert(rest.children[step[0] as int].has_path(step.skip(1)));
    }
    assert(rest.node_at(step) == rest.children[step[0] as int].node_at(step.skip(1)));
    let slot = above.push(tree.node_at(above).children.len() as usize);
    assert(slot.drop_last() =~= above);
}

/// Once a subtree is out of its parent, the place of that parent among its
/// own siblings can take a node.
pub proof fn lemma_slot_before_parent(tree: ComponentView, from: Seq<usize>)
    requires
        tree.has_child_at(from),
        from.len() > 1,
    ensures
        tree.detached(from).can_attach(from.drop_last()),
{
    let parent = from.drop_last();
    let grandparent = parent.drop_last();
    lemma_path_parent(tree, from);
    lemma_path_parent(tree, parent);
    let rest = tree.node_at(parent).without_child(from.last() as int);
    assert(parent.take(grandparent.len() as int) =~= grandparent);
    lemma_replace_above(tree, parent, rest, grandparent.len() as int);
}

impl Layout {
    /// Moves the subtree at `from` to become the child at `to`, with what is
    /// recorded for it.
    fn move_subtree(&mut self, from: &Vec<usize>, to: &Vec<usize>)
        requires
            old(self)@.has_child_at(from@),
            old(self)@.content->0.detached(from@).can_attach(to@),
        ensures
            final(self)@ == old(self)@.with_move(from@, to@),
            old(self)@.consistent() ==> final(self)@.consistent(),
    {
        proof {
            if self@.consistent() {
                lemma_move_keeps_consistent(self@, from@, to@);
            }
        }
        let mut content = self.content.take();
        match content {
            Some(mut root) => {
                match root.detach(from) {
                    Ok(node) => {
                        match root.attach(to, node) {
                            Ok(_) => {},
                            Err(_) => {
                                vstd::pervasive::unreached()
                            },
                        }
                    },
                    Err(_) => {
                        vstd::pervasive::unreached()
                    },
                }
                self.content = Some(root);
            },
            None => {
                vstd::pervasive::unreached()
            },
        }
        rekey(&mut self.settings, from, Some(to));
    }

    /// Why an edit of the node at `path`, which has to have a parent, is
    /// refused, if it is.
    fn check_child(&self, path: &Vec<usize>) -> (r: Option<LayoutError>)
        ensures
            r == self@.child_error(path@),
    {
        if path.len() == 0 {
            return Some(LayoutError::RootHasNoParent);
        }
        match &self.content {
            None => Some(LayoutError::NoContent),
            Some(root) => {
                match root.get_from_path(path.clone()) {
                    Ok(_) => None,
                    Err(e) => Some(e),
                }
            },
        }
    }

    /// How many children the parent of the node at `path` has.
    fn count_siblings(&self, path: &Vec<usize>) -> (r: usize)
        requires
            self@.has_child_at(path@),
        ensures
            r == self@.siblings(path@),
            path@.last() < r,
    {
        proof {
            lemma_path_parent(self.content->0@, path@);
        }
        match &self.content {
            Some(root) => {
                match root.get_from_path(parent_of(path)) {
                    Ok(parent) => {
                        proof {
                            crate::layout::component::lemma_component_view(*parent);
                        }
                        parent.children.len()
                    },
                    Err(_) => {
                        vstd::pervasive::unreached()
                    },
                }
            },
            None => {
                vstd::pervasive::unreached()
            },
        }
    }

    /// Swaps the node at `path` with the sibling before it, each with its
    /// whole subtree and with what is recorded for it, and says where the
    /// node now is. The first child stays where it is.
    pub fn component_move_up(&mut self, path: Vec<usize>) -> (r: Result<Vec<usize>, LayoutError>)
        ensures
            match r {
                Ok(place) => {
                    &&& old(self)@.move_error(path@, Move::Up) is None
                    &&& place@ == old(self)@.target(path@, Move::Up)
                    &&& final(self)@ == old(self)@.moved_to(path@, place@)
                },
                Err(e) => old(self)@.move_error(path@, Move::Up) == Some(e) && final(self)@
                    == old(self)@,
            },
            old(self)@.consistent() ==> final(self)@.consistent(),
    {
        match self.check_child(&path) {
            Some(e) => Err(e),
            None => {
                let last = path[path.len() - 1];
                if last == 0 {
                    Ok(path)
                } else {
                    let place = child_of(&parent_of(&path), last - 1);
                    proof {
                        lemma_path_parent(self.content->0@, path@);
                        lemma_sibling_slot(self.content->0@, path@, (last - 1) as usize);
                    }
                    self.move_subtree(&path, &place);
                    Ok(place)
                }
            },
        }
    }

    /// Swaps the node at `path` with the sibling after it, each with its
    /// whole subtree and with what is recorded for it, and says where the
    /// node now is. The last child stays where it is.
    pub fn component_move_down(&mut self, path: Vec<usize>) -> (r: Result<Vec<usize>, LayoutError>)
        ensures
            match r {
                Ok(place) => {
                    &&& old(self)@.move_error(path@, Move::Down) is None
                    &&& place@ == old(self)@.target(path@, Move::Down)
                    &&& final(self)@ == old(self)@.moved_to(path@, place@)
                },
                Err(e) => old(self)@.move_error(path@, Move::Down) == Some(e) && final(self)@
                    == old(self)@,
            },
            old(self)@.consistent() ==> final(self)@.consistent(),
    {
        match self.check_child(&path) {
            Some(e) => Err(e),
            None => {
                let last = path[path.len() - 1];
                let siblings = self.count_siblings(&path);
                if last >= siblings - 1 {
                    Ok(path)
                } else {
                    let place = child_of(&parent_of(&path), last + 1);
                    proof {
                        lemma_sibling_slot(self.content->0@, path@, (last + 1) as usize);
                    }
                    self.move_subtree(&path, &place);
                    Ok(place)
                }
            },
        }
    }
}

impl LayoutView {
    /// Why an edit of the node at `path`, which may be the root, is refused,
    /// if it is.
    pub open spec fn node_error(self, path: Seq<usize>) -> Option<LayoutError> {
        if self.content is None {
            Some(LayoutError::NoContent)
        } else if !self.content->0.has_path(path) {
            Some(LayoutError::NoSuchChild)
        } else {
            None
        }
    }

    /// Why a move of the node at `path` is refused, if it is. Only leaving
    /// the parent can be asked of the root, and leaves it where it is.
    pub open spec fn move_error(self, path: Seq<usize>, how: Move) -> Option<LayoutError> {
        match how {
            Move::ExitParent => self.node_error(path),
            _ => self.child_error(path),
        }
    }

    /// Where the node at `path` stands after a move. It is its own place
    /// where the move leaves it: up for a first child, down for a last one,
    /// into the sibling above for a first child, out of the parent for the
    /// root and its children.
    pub open spec fn target(self, path: Seq<usize>, how: Move) -> Seq<usize> {
        match how {
            Move::Up => if path.last() == 0 {
                path
            } else {
                path.drop_last().push((path.last() - 1) as usize)
            },
            Move::Down => if path.last() + 1 == self.siblings(path) {
                path
            } else {
                path.drop_last().push((path.last() + 1) as usize)
            },
            Move::EnterAbove => if path.last() == 0 {
                path
            } else {
                let above = path.drop_last().push((path.last() - 1) as usize);
                above.push(self.content->0.node_at(above).children.len() as usize)
            },
            Move::ExitParent => if path.len() <= 1 {
                path
            } else {
                path.drop_last()
            },
        }
    }

    /// The layout after the node at `path` has come to stand at `place`:
    /// unchanged where that is its place already, and else with the subtree
    /// moved and everything recorded moved with it.
    pub open spec fn moved_to(self, path: Seq<usize>, place: Seq<usize>) -> LayoutView {
        if place == path {
            self
        } else {
            self.with_move(path, place)
        }
    }

    /// The layout after `node` has come to stand at `place`, as one more
    /// child of its parent or as the root where there was none, with the
    /// defaults of its schema recorded for it.
    pub open spec fn with_addition(self, place: Seq<usize>, node: ComponentView) -> LayoutView {
        LayoutView {
            content: Some(
                match self.content {
                    Some(root) => root.attached(place, node),
                    None => node,
                },
            ),
            settings: self.settings.insert(place, defaults_of(node.parameters)),
            ..self
        }
    }

    /// The layout without a root and with nothing recorded.
    pub open spec fn cleared(self) -> LayoutView {
        LayoutView { content: None, settings: Map::empty(), ..self }
    }
}

impl Layout {
    /// Whether whatever is recorded is recorded for a node of the tree. A
    /// layout that was made by this library's edits is; one that was read
    /// may not be.
    pub fn is_consistent(&self) -> (r: bool)
        ensures
            r == self@.consistent(),
    {
        let paths = self.settings.keys();
        let mut i: usize = 0;
        while i < paths.len()
            invariant
                i <= paths@.len(),
                forall|k: int| 0 <= k < paths@.len() ==> self.settings@.contains_key(#[trigger] paths@[k]@),
                forall|k: int|
                    0 <= k < i ==> self.content is Some && self.content->0@.has_path(
                        #[trigger] paths@[k]@,
                    ),
            decreases paths@.len() - i,
        {
            let found = match &self.content {
                Some(root) => root.get_from_path(paths[i].clone()).is_ok(),
                None => false,
            };
            if !found {
                proof {
                    assert(self@.settings.contains_key(paths@[i as int]@));
                }
                return false;
            }
            i = i + 1;
        }
        proof {
            assert forall|path: Seq<usize>| #[trigger]
                self@.settings.contains_key(path) implies self@.content is Some
                && self@.content->0.has_path(path) by {
                let k = choose|k: int| 0 <= k < paths@.len() && #[trigger] paths@[k]@ == path;
                assert(self.content->0@.has_path(paths@[k]@));
            }
        }
        true
    }

    /// Why an edit of the node at `path`, which may be the root, is refused,
    /// if it is.
    fn check_node(&self, path: &Vec<usize>) -> (r: Option<LayoutError>)
        ensures
            r == self@.node_error(path@),
    {
        match &self.content {
            None => Some(LayoutError::NoContent),
            Some(root) => {
                match root.get_from_path(path.clone()) {
                    Ok(_) => None,
                    Err(e) => Some(e),
                }
            },
        }
    }

    /// How many children the node at `path` has.
    fn count_children(&self, path: &Vec<usize>) -> (r: usize)
        requires
            self@.node_error(path@) is None,
        ensures
            r == self@.content->0.node_at(path@).children.len(),
    {
        match &self.content {
            Some(root) => {
                match root.get_from_path(path.clone()) {
                    Ok(node) => {
                        proof {
                            crate::layout::component::lemma_component_view(*node);
                        }
                        node.children.len()
                    },
                    Err(_) => {
                        vstd::pervasive::unreached()
                    },
                }
            },
            None => {
                vstd::pervasive::unreached()
            },
        }
    }

    /// Makes the node at `path` the last child of the sibling before it,
    /// with its whole subtree and with what is recorded for it, and says
    /// where the node now is. The first child stays where it is.
    pub fn component_enter_above(&mut self, path: Vec<usize>) -> (r: Result<Vec<usize>, LayoutError>)
        ensures
            match r {
                Ok(place) => {
                    &&& old(self)@.move_error(path@, Move::EnterAbove) is None
                    &&& place@ == old(self)@.target(path@, Move::EnterAbove)
                    &&& final(self)@ == old(self)@.moved_to(path@, place@)
                },
                Err(e) => old(self)@.move_error(path@, Move::EnterAbove) == Some(e) && final(self)@
                    == old(self)@,
            },
            old(self)@.consistent() ==> final(self)@.consistent(),
    {
        match self.check_child(&path) {
            Some(e) => Err(e),
            None => {
                let last = path[path.len() - 1];
                if last == 0 {
                    Ok(path)
                } else {
                    let above = child_of(&parent_of(&path), last - 1);
                    proof {
                        lemma_slot_in_sibling_above(self.content->0@, path@);
                    }
                    let count = self.count_children(&above);
                    let place = child_of(&above, count);
                    self.move_subtree(&path, &place);
                    Ok(place)
                }
            },
        }
    }

    /// Makes the node at `path` a sibling of its parent, standing just
    /// before it, with its whole subtree and with what is recorded for it,
    /// and says where the node now is. The root and its children stay where
    /// they are.
    pub fn component_exit_parent(&mut self, path: Vec<usize>) -> (r: Result<Vec<usize>, LayoutError>)
        ensures
            match r {
                Ok(place) => {
                    &&& old(self)@.move_error(path@, Move::ExitParent) is None
                    &&& place@ == old(self)@.target(path@, Move::ExitParent)
                    &&& final(self)@ == old(self)@.moved_to(path@, place@)
                },
                Err(e) => old(self)@.move_error(path@, Move::ExitParent) == Some(e) && final(self)@
                    == old(self)@,
            },
            old(self)@.consistent() ==> final(self)@.consistent(),
    {
        match self.check_node(&path) {
            Some(e) => Err(e),
            None => {
                if path.len() <= 1 {
                    Ok(path)
                } else {
                    let place = parent_of(&path);
                    proof {
                        lemma_slot_before_parent(self.content->0@, path@);
                    }
                    self.move_subtree(&path, &place);
                    Ok(place)
                }
            },
        }
    }

    /// Takes the node at `path` away, with its whole subtree and with what
    /// is recorded for any node of it. Its later siblings move one place
    /// down, each with what is recorded for it. Taking the root away leaves
    /// a layout without content and with nothing recorded.
    pub fn component_delete(&mut self, path: Vec<usize>) -> (r: Result<(), LayoutError>)
        ensures
            match r {
                Ok(_) => {
                    if path@.len() == 0 {
                        final(self)@ == old(self)@.cleared()
                    } else {
                        &&& old(self)@.child_error(path@) is None
                        &&& final(self)@ == old(self)@.with_removal(path@)
                    }
                },
                Err(e) => {
                    &&& path@.len() > 0
                    &&& old(self)@.child_error(path@) == Some(e)
                    &&& final(self)@ == old(self)@
                },
            },
            old(self)@.consistent() ==> final(self)@.consistent(),
    {
        if path.len() == 0 {
            self.content = None;
            self.settings = AssocMap::new();
            return Ok(());
        }
        match self.check_child(&path) {
            Some(e) => Err(e),
            None => {
                proof {
                    lemma_removal_cascades(self@, path@);
                }
                let mut content = self.content.take();
                match content {
                    Some(mut root) => {
                        match root.detach(&path) {
                            Ok(_) => {},
                            Err(_) => {
                                vstd::pervasive::unreached()
                            },
                        }
                        self.content = Some(root);
                    },
                    None => {
                        vstd::pervasive::unreached()
                    },
                }
                rekey(&mut self.settings, &path, None);
                Ok(())
            },
        }
    }

    /// Adds a component as the last child of the node at `parent`, or as the
    /// root of a layout that has none, records the defaults of its schema
    /// for it, and says where it now is.
    pub fn component_add(&mut self, parent: Vec<usize>, component: Component) -> (r: Result<
        Vec<usize>,
        LayoutError,
    >)
        ensures
            match r {
                Ok(place) => {
                    &&& match old(self)@.content {
                        Some(root) => root.has_path(parent@) && place@ == parent@.push(
                            root.node_at(parent@).children.len() as usize,
                        ),
                        None => parent@.len() == 0 && place@ == parent@,
                    }
                    &&& final(self)@ == old(self)@.with_addition(place@, component@)
                },
                Err(e) => {
                    &&& final(self)@ == old(self)@
                    &&& match old(self)@.content {
                        Some(root) => !root.has_path(parent@) && e == LayoutError::NoSuchChild,
                        None => parent@.len() > 0 && e == LayoutError::NoContent,
                    }
                },
            },
            old(self)@.consistent() ==> final(self)@.consistent(),
    {
        let defaults = component.parameters.initialize_defaults();
        proof {
            crate::layout::component::lemma_component_view(component);
        }
        if self.content.is_none() {
            if parent.len() > 0 {
                return Err(LayoutError::NoContent);
            }
            proof {
                if self@.consistent() {
                    lemma_addition_keeps_consistent(self@, parent@, component@);
                }
            }
            self.content = Some(component);
            self.settings.insert(parent.clone(), defaults);
            return Ok(parent);
        }
        match self.check_node(&parent) {
            Some(e) => Err(e),
            None => {
                let count = self.count_children(&parent);
                let place = child_of(&parent, count);
                proof {
                    assert(place@.drop_last() =~= parent@);
                    if self@.consistent() {
                        lemma_addition_keeps_consistent(self@, place@, component@);
                    }
                }
                let mut content = self.content.take();
                match content {
                    Some(mut root) => {
                        match root.attach(&place, component) {
                            Ok(_) => {},
                            Err(_) => {
                                vstd::pervasive::unreached()
                            },
                        }
                        self.content = Some(root);
                    },
                    None => {
                        vstd::pervasive::unreached()
                    },
                }
                self.settings.insert(place.clone(), defaults);
                Ok(place)
            },
        }
    }
}

/// A move up of a first child and a move down of a last child change
/// nothing: the node stays where it is, and so does everything recorded.
pub proof fn lemma_moves_at_the_boundary_change_nothing(layout: LayoutView, path: Seq<usize>)
    requires
        layout.has_child_at(path),
    ensures
        path.last() == 0 ==> layout.target(path, Move::Up) == path && layout.moved_to(
            path,
            layout.target(path, Move::Up),
        ) == layout,
        path.last() + 1 == layout.siblings(path) ==> layout.target(path, Move::Down) == path
            && layout.moved_to(path, layout.target(path, Move::Down)) == layout,
{
}

impl Layout {
    /// Moves the node at `path` in the given way, with its whole subtree
    /// and with what is recorded for it, and says where the node now is.
    pub fn component_move(&mut self, path: Vec<usize>, how: Move) -> (r: Result<
        Vec<usize>,
        LayoutError,
    >)
        ensures
            match r {
                Ok(place) => {
                    &&& old(self)@.move_error(path@, how) is None
                    &&& place@ == old(self)@.target(path@, how)
                    &&& final(self)@ == old(self)@.moved_to(path@, place@)
                },
                Err(e) => old(self)@.move_error(path@, how) == Some(e) && final(self)@
                    == old(self)@,
            },
            old(self)@.consistent() ==> final(self)@.consistent(),
    {
        match how {
            Move::Up => self.component_move_up(path),
            Move::Down => self.component_move_down(path),
            Move::EnterAbove => self.component_enter_above(path),
            Move::ExitParent => self.component_exit_parent(path),
        }
    }
}

} // verus!
