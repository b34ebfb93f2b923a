use vstd::prelude::*;

verus! {

/// Whether `path` leads to the node at `prefix` or to a node below it.
pub open spec fn under(path: Seq<usize>, prefix: Seq<usize>) -> bool {
    prefix.len() <= path.len() && path.take(prefix.len() as int) =~= prefix
}

/// Whether `path` leads below the parent of the node at `at`, through a
/// child that stands at or after that node.
pub open spec fn beside_or_after(path: Seq<usize>, at: Seq<usize>) -> bool {
    at.len() > 0 && path.len() >= at.len() && path.take(at.len() - 1) =~= at.take(at.len() - 1)
        && path[at.len() - 1] >= at[at.len() - 1]
}

/// Where a path leads once the child at `at` has been taken out of its
/// parent: the later children of that parent have moved one place down.
/// Paths to or below `at` itself are not meant.
pub open spec fn shift_down(path: Seq<usize>, at: Seq<usize>) -> Seq<usize> {
    if beside_or_after(path, at) && path[at.len() - 1] > at[at.len() - 1] {
        path.update(at.len() - 1, (path[at.len() - 1] - 1) as usize)
    } else {
        path
    }
}

/// Where a path leads once a child has been put in at `at`: the children of
/// that parent from this place on have moved one place up. There is no such
/// path where the index cannot be raised.
pub open spec fn shift_up(path: Seq<usize>, at: Seq<usize>) -> Option<Seq<usize>> {
    if beside_or_after(path, at) {
        if path[at.len() - 1] < usize::MAX {
            Some(path.update(at.len() - 1, (path[at.len() - 1] + 1) as usize))
        } else {
            None
        }
    } else {
        Some(path)
    }
}

/// Where the node at `path` is found after the subtree at `from` has been
/// taken out and, where `to` is given, put in again as the child at `to`
/// (a place in the tree as it is after the move). `None`: the node is gone
/// with the subtree.
pub open spec fn moved_path(path: Seq<usize>, from: Seq<usize>, to: Option<Seq<usize>>) -> Option<
    Seq<usize>,
> {
    if under(path, from) {
        match to {
            Some(to) => Some(to + path.skip(from.len() as int)),
            None => None,
        }
    } else {
        match to {
            Some(to) => shift_up(shift_down(path, from), to),
            None => Some(shift_down(path, from)),
        }
    }
}

/// Where the node now at `path` was before the move: the move read backwards.
pub open spec fn origin_path(path: Seq<usize>, from: Seq<usize>, to: Option<Seq<usize>>) -> Option<
    Seq<usize>,
> {
    match to {
        Some(to) => moved_path(path, to, Some(from)),
        None => shift_up(path, from),
    }
}

/// Raising after lowering, at the same place, gives the path back.
pub proof fn lemma_shift_down_up(path: Seq<usize>, at: Seq<usize>)
    requires
        !under(path, at),
    ensures
        shift_up(shift_down(path, at), at) == Some(path),
{
    let d = at.len() - 1;
    if beside_or_after(path, at) {
        if path[d] > at[d] {
            let low = shift_down(path, at);
            assert(low.take(d) =~= path.take(d));
            assert(low.update(d, (low[d] + 1) as usize) =~= path);
        } else {
            assert(path.take(at.len() as int) =~= at) by {
                assert(path.take(at.len() as int) =~= path.take(d).push(path[d]));
                assert(at =~= at.take(d).push(at[d]));
            }
        }
    }
}

/// Lowering after raising, at the same place, gives the path back, and a
/// raised path never leads to the place itself or below it.
pub proof fn lemma_shift_up_down(path: Seq<usize>, at: Seq<usize>)
    requires
        shift_up(path, at) is Some,
    ensures
        shift_down(shift_up(path, at)->0, at) == path,
        at.len() > 0 ==> !under(shift_up(path, at)->0, at),
{
    let d = at.len() - 1;
    let high = shift_up(path, at)->0;
    if beside_or_after(path, at) {
        assert(high.take(d) =~= path.take(d));
        assert(high.update(d, (high[d] - 1) as usize) =~= path);
        if under(high, at) {
            assert(high.take(at.len() as int)[d] == at[d]);
        }
    } else if at.len() > 0 {
        if under(path, at) {
            assert(path.take(at.len() as int)[d] == at[d]);
            assert(path.take(d) =~= path.take(at.len() as int).take(d));
        }
    }
}

/// A move and the move read backwards undo each other.
pub proof fn lemma_moved_origin(
    path: Seq<usize>,
    target: Seq<usize>,
    from: Seq<usize>,
    to: Option<Seq<usize>>,
)
    requires
        from.len() > 0,
        to is Some ==> to->0.len() > 0,
    ensures
        moved_path(path, from, to) == Some(target) <==> origin_path(target, from, to) == Some(path),
{
    match to {
        Some(t) => {
            if moved_path(path, from, to) == Some(target) {
                lemma_move_there_and_back(path, target, from, t);
            }
            if origin_path(target, from, to) == Some(path) {
                lemma_move_there_and_back(target, path, t, from);
            }
        },
        None => {
            if moved_path(path, from, to) == Some(target) {
                lemma_shift_down_up(path, from);
            }
            if origin_path(target, from, to) == Some(path) {
                lemma_shift_up_down(target, from);
            }
        },
    }
}

proof fn lemma_move_there_and_back(
    path: Seq<usize>,
    target: Seq<usize>,
    from: Seq<usize>,
    to: Seq<usize>,
)
    requires
        from.len() > 0,
        to.len() > 0,
        moved_path(path, from, Some(to)) == Some(target),
    ensures
        moved_path(target, to, Some(from)) == Some(path),
{
    if under(path, from) {
        let rest = path.skip(from.len() as int);
        assert(target == to + rest);
        assert(target.take(to.len() as int) =~= to);
        assert(target.skip(to.len() as int) =~= rest);
        assert(from + rest =~= path);
    } else {
        let low = shift_down(path, from);
        lemma_shift_up_down(low, to);
        lemma_shift_down_up(path, from);
    }
}

/// The view of a path that may be absent.
pub open spec fn path_view(path: Option<Vec<usize>>) -> Option<Seq<usize>> {
    match path {
        Some(p) => Some(p@),
        None => None,
    }
}

/// Whether `path` leads to the node at `prefix` or below it.
pub fn starts_with(path: &Vec<usize>, prefix: &Vec<usize>) -> (r: bool)
    ensures
        r == under(path@, prefix@),
{
    if prefix.len() > path.len() {
        return false;
    }
    let mut i: usize = 0;
    while i < prefix.len()
        invariant
            i <= prefix@.len(),
            prefix@.len() <= path@.len(),
            forall|k: int| 0 <= k < i ==> path@[k] == prefix@[k],
        decreases prefix@.len() - i,
    {
        if path[i] != prefix[i] {
            assert(path@.take(prefix@.len() as int)[i as int] != prefix@[i as int]);
            return false;
        }
        i = i + 1;
    }
    assert(path@.take(prefix@.len() as int) =~= prefix@);
    true
}

/// `head` followed by what `path` holds from `skip` on.
pub(crate) fn join(head: &Vec<usize>, path: &Vec<usize>, skip: usize) -> (r: Vec<usize>)
    requires
        skip <= path@.len(),
    ensures
        r@ == head@ + path@.skip(skip as int),
{
    let mut out: Vec<usize> = Vec::new();
    let mut i: usize = 0;
    while i < head.len()
        invariant
            i <= head@.len(),
            out@ == head@.take(i as int),
        decreases head@.len() - i,
    {
        out.push(head[i]);
        assert(head@.take(i as int).push(head@[i as int]) =~= head@.take(i + 1));
        i = i + 1;
    }
    assert(head@.take(head@.len() as int) =~= head@);
    let mut j: usize = skip;
    while j < path.len()
        invariant
            skip <= j <= path@.len(),
            out@ == head@ + path@.subrange(skip as int, j as int),
        decreases path@.len() - j,
    {
        out.push(path[j]);
        assert((head@ + path@.subrange(skip as int, j as int)).push(path@[j as int]) =~= head@
            + path@.subrange(skip as int, j + 1));
        j = j + 1;
    }
    assert(path@.subrange(skip as int, path@.len() as int) =~= path@.skip(skip as int));
    out
}

/// A copy of `path` with the index at `depth` replaced.
fn with_index(path: &Vec<usize>, depth: usize, index: usize) -> (r: Vec<usize>)
    requires
        depth < path@.len(),
    ensures
        r@ == path@.update(depth as int, index),
{
    let mut out: Vec<usize> = Vec::new();
    let mut i: usize = 0;
    while i < path.len()
        invariant
            i <= path@.len(),
            depth < path@.len(),
            out@ == path@.update(depth as int, index).take(i as int),
        decreases path@.len() - i,
    {
        let ghost goal = path@.update(depth as int, index);
        if i == depth {
            out.push(index);
        } else {
            out.push(path[i]);
        }
        assert(goal.take(i as int).push(goal[i as int]) =~= goal.take(i + 1));
        i = i + 1;
    }
    assert(path@.update(depth as int, index).take(path@.len() as int) =~= path@.update(
        depth as int,
        index,
    ));
    out
}

/// The path to the parent of the node at `path`.
pub(crate) fn parent_of(path: &Vec<usize>) -> (r: Vec<usize>)
    requires
        path@.len() > 0,
    ensures
        r@ == path@.drop_last(),
{
    let mut out = path.clone();
    out.pop();
    out
}

/// The path to a child of the node at `parent`.
pub fn child_of(parent: &Vec<usize>, index: usize) -> (r: Vec<usize>)
    ensures
        r@ == parent@.push(index),
{
    let mut out = parent.clone();
    out.push(index);
    out
}

/// Whether `path` leads below the parent of `at` through a child at or after
/// the one at `at`.
fn is_beside_or_after(path: &Vec<usize>, at: &Vec<usize>) -> (r: bool)
    ensures
        r == beside_or_after(path@, at@),
{
    if at.len() == 0 || path.len() < at.len() {
        return false;
    }
    let depth = at.len() - 1;
    let mut i: usize = 0;
    while i < depth
        invariant
            i <= depth,
            depth == at@.len() - 1,
            path@.len() >= at@.len(),
            forall|k: int| 0 <= k < i ==> path@[k] == at@[k],
        decreases depth - i,
    {
        if path[i] != at[i] {
            assert(path@.take(depth as int)[i as int] != at@.take(depth as int)[i as int]);
            return false;
        }
        i = i + 1;
    }
    assert(path@.take(depth as int) =~= at@.take(depth as int));
    path[depth] >= at[depth]
}

/// Where the node at `path` is found after the subtree at `from` has been
/// taken out and, where `to` is given, put in again at `to`.
pub(crate) fn move_path(path: &Vec<usize>, from: &Vec<usize>, to: Option<&Vec<usize>>) -> (r: Option<
    Vec<usize>,
>)
    requires
        from@.len() > 0,
        to is Some ==> to->0@.len() > 0,
    ensures
        path_view(r) == moved_path(
            path@,
            from@,
            match to {
                Some(t) => Some(t@),
                None => None,
            },
        ),
{
    if starts_with(path, from) {
        match to {
            Some(t) => Some(join(t, path, from.len())),
            None => None,
        }
    } else {
        let depth = from.len() - 1;
        let low = if is_beside_or_after(path, from) && path[depth] > from[depth] {
            with_index(path, depth, path[depth] - 1)
        } else {
            path.clone()
        };
        assert(low@ == shift_down(path@, from@));
        match to {
            Some(t) => {
                let at = t.len() - 1;
                if is_beside_or_after(&low, t) {
                    if low[at] < usize::MAX {
                        Some(with_index(&low, at, low[at] + 1))
                    } else {
                        None
                    }
                } else {
                    Some(low)
                }
            },
            None => Some(low),
        }
    }
}

/// How the relations between a path and a place that lies at least two
/// levels down read one level further down, for a path that starts with the
/// same index as the place; a path that starts otherwise has nothing to do
/// with the place.
pub proof fn lemma_paths_one_level_down(path: Seq<usize>, at: Seq<usize>)
    requires
        at.len() > 1,
        path.len() > 0,
    ensures
        under(path, at) <==> path[0] == at[0] && under(path.skip(1), at.skip(1)),
        beside_or_after(path, at) <==> path[0] == at[0] && beside_or_after(
            path.skip(1),
            at.skip(1),
        ),
        shift_down(path, at) == (if path[0] == at[0] {
            seq![path[0]] + shift_down(path.skip(1), at.skip(1))
        } else {
            path
        }),
{
    let rest = path.skip(1);
    let below = at.skip(1);
    if path.len() >= at.len() {
        let n = at.len() as int;
        assert(path.take(n) =~= seq![path[0]] + rest.take(n - 1));
        assert(at =~= seq![at[0]] + below);
        if path.take(n) =~= at {
            assert(path.take(n)[0] == at[0]);
            assert(rest.take(n - 1) =~= path.take(n).skip(1));
        }
        assert(path.take(n - 1) =~= seq![path[0]] + rest.take(n - 2));
        assert(at.take(n - 1) =~= seq![at[0]] + below.take(n - 2));
        if path.take(n - 1) =~= at.take(n - 1) {
            assert(path.take(n - 1)[0] == at.take(n - 1)[0]);
            assert(rest.take(n - 2) =~= path.take(n - 1).skip(1));
            assert(below.take(n - 2) =~= at.take(n - 1).skip(1));
        }
        assert(rest[n - 2] == path[n - 1]);
        assert(below[n - 2] == at[n - 1]);
        if beside_or_after(path, at) && path[n - 1] > at[n - 1] {
            assert(path.update(n - 1, (path[n - 1] - 1) as usize) =~= seq![path[0]] + rest.update(
                n - 2,
                (rest[n - 2] - 1) as usize,
            ));
        } else if path[0] == at[0] {
            assert(seq![path[0]] + rest =~= path);
        }
    } else if path[0] == at[0] {
        assert(seq![path[0]] + rest =~= path);
    }
}

/// Lowering a path changes none of its length, raises none of its indices,
/// and leaves its indices above the changed level alone.
pub proof fn lemma_shift_down_shape(path: Seq<usize>, at: Seq<usize>)
    ensures
        shift_down(path, at).len() == path.len(),
        forall|k: int| 0 <= k < path.len() ==> shift_down(path, at)[k] <= path[k],
{
}

/// What lies at or below a child lies below the parent, through that child.
pub proof fn lemma_under_child(path: Seq<usize>, parent: Seq<usize>, index: usize)
    ensures
        under(path, parent.push(index)) <==> under(path, parent) && path.len() > parent.len()
            && path[parent.len() as int] == index,
{
    let child = parent.push(index);
    if under(path, child) {
        assert(path.take(parent.len() as int) =~= path.take(child.len() as int).take(
            parent.len() as int,
        ));
        assert(child.take(parent.len() as int) =~= parent);
        assert(path.take(child.len() as int)[parent.len() as int] == index);
    }
    if under(path, parent) && path.len() > parent.len() && path[parent.len() as int] == index {
        assert(path.take(child.len() as int) =~= path.take(parent.len() as int).push(index));
    }
}

/// A node lies below itself, and a child below its parent.
pub proof fn lemma_under_self_and_parent(path: Seq<usize>, index: usize)
    ensures
        under(path, path),
        under(path.push(index), path),
{
    assert(path.take(path.len() as int) =~= path);
    assert(path.push(index).take(path.len() as int) =~= path);
}

} // verus!
