//! Semantic tree of PDF regions and runs, with the lowest-common-ancestor
//! search and the root-to-node path search.

use vstd::prelude::*;
use crate::chars::str_eq;

verus! {

/// A node of the semantic tree: an id and its children, in order.
pub struct SemanticNode {
    pub id: String,
    pub children: Vec<SemanticNode>,
}

/// Some node of the tree rooted at `node` has the id `id`.
pub open spec fn node_contains(node: SemanticNode, id: Seq<char>) -> bool
    decreases node, 0int,
{
    node.id@ == id || children_contain(node.children@, id)
}

/// Some tree among `children` holds a node with the id `id`.
pub open spec fn children_contain(children: Seq<SemanticNode>, id: Seq<char>) -> bool
    decreases children, 1int,
{
    if children.len() == 0 {
        false
    } else {
        children_contain(children.drop_last(), id) || node_contains(children.last(), id)
    }
}

/// The ids on the path from `node` down to the first node (in pre-order)
/// whose id is `target`, or `None` when there is none.
pub open spec fn dfs_path(node: SemanticNode, target: Seq<char>) -> Option<Seq<Seq<char>>>
    decreases node, 0int,
{
    if node.id@ == target {
        Some(seq![node.id@])
    } else {
        match children_path(node.children@, target) {
            Some(p) => Some(seq![node.id@] + p),
            None => None,
        }
    }
}

/// The path found in the first of `children` (in order) that holds `target`.
pub open spec fn children_path(children: Seq<SemanticNode>, target: Seq<char>) -> Option<
    Seq<Seq<char>>,
>
    decreases children, 1int,
{
    if children.len() == 0 {
        None
    } else {
        match children_path(children.drop_last(), target) {
            Some(p) => Some(p),
            None => dfs_path(children.last(), target),
        }
    }
}

/// The lowest common ancestor search result for the subtree at `node`: the
/// node's own id if it is `p` or `q`; else the node's id if two or more of its
/// children report a result, the single result if exactly one does, and
/// `None` otherwise.
pub open spec fn lca(node: SemanticNode, p: Seq<char>, q: Seq<char>) -> Option<Seq<char>>
    decreases node, 0int,
{
    if node.id@ == p || node.id@ == q {
        Some(node.id@)
    } else {
        let found = children_found(node.children@, p, q);
        if found.len() >= 2 {
            Some(node.id@)
        } else if found.len() == 1 {
            Some(found[0])
        } else {
            None
        }
    }
}

/// The results of the search in each of `children`, in order, leaving out
/// the children that report none.
pub open spec fn children_found(children: Seq<SemanticNode>, p: Seq<char>, q: Seq<char>) -> Seq<
    Seq<char>,
>
    decreases children, 1int,
{
    if children.len() == 0 {
        Seq::empty()
    } else {
        let rest = children_found(children.drop_last(), p, q);
        match lca(children.last(), p, q) {
            Some(x) => rest.push(x),
            None => rest,
        }
    }
}

pub open spec fn ids_of(path: Seq<String>) -> Seq<Seq<char>> {
    path.map_values(|s: String| s@)
}

impl SemanticNode {
    pub fn new(id: String) -> (node: Self)
        ensures
            node.id == id,
            node.children@ == Seq::<SemanticNode>::empty(),
    {
        SemanticNode { id, children: Vec::new() }
    }

    pub fn add_child(&mut self, child: SemanticNode)
        ensures
            final(self).id == old(self).id,
            final(self).children@ == old(self).children@.push(child),
    {
        self.children.push(child);
    }
}

proof fn lemma_children_found_step(children: Seq<SemanticNode>, i: int, p: Seq<char>, q: Seq<char>)
    requires
        0 <= i < children.len(),
    ensures
        children_found(children.take(i + 1), p, q) == (match lca(children[i], p, q) {
            Some(x) => children_found(children.take(i), p, q).push(x),
            None => children_found(children.take(i), p, q),
        }),
{
    assert(children.take(i + 1).drop_last() =~= children.take(i));
}

/// Lowest common ancestor of the nodes with ids `p_id` and `q_id`.
pub fn find_lca_in_tree(root: &SemanticNode, p_id: &str, q_id: &str) -> (found: Option<String>)
    ensures
        match found {
            Some(s) => lca(*root, p_id@, q_id@) == Some(s@),
            None => lca(*root, p_id@, q_id@) is None,
        },
    decreases root,
{
    if str_eq(root.id.as_str(), p_id) || str_eq(root.id.as_str(), q_id) {
        return Some(root.id.clone());
    }
    let mut found_children: Vec<String> = Vec::new();
    let mut i: usize = 0;
    while i < root.children.len()
        invariant
            i <= root.children.len(),
            ids_of(found_children@) == children_found(root.children@.take(i as int), p_id@, q_id@),
        decreases root.children.len() - i,
    {
        proof {
            lemma_children_found_step(root.children@, i as int, p_id@, q_id@);
        }
        let child = &root.children[i];
        assert(decreases_to!(root => root.children@[i as int]));
        if let Some(found_id) = find_lca_in_tree(child, p_id, q_id) {
            found_children.push(found_id);
            assert(ids_of(found_children@) =~= children_found(
                root.children@.take(i as int),
                p_id@,
                q_id@,
            ).push(found_id@));
        }
        i = i + 1;
    }
    assert(root.children@.take(root.children.len() as int) =~= root.children@);
    let ghost found_ids = children_found(root.children@, p_id@, q_id@);
    if found_children.len() >= 2 {
        Some(root.id.clone())
    } else if found_children.len() == 1 {
        assert(ids_of(found_children@)[0] == found_ids[0]);
        Some(found_children[0].clone())
    } else {
        None
    }
}

proof fn lemma_children_path_prefix(
    children: Seq<SemanticNode>,
    i: int,
    target: Seq<char>,
)
    requires
        0 <= i <= children.len(),
        children_path(children.take(i), target) is Some,
    ensures
        children_path(children, target) == children_path(children.take(i), target),
    decreases children.len() - i,
{
    if i < children.len() {
        assert(children.take(i + 1).drop_last() =~= children.take(i));
        lemma_children_path_prefix(children, i + 1, target);
    } else {
        assert(children.take(i) =~= children);
    }
}

/// Searches the tree in pre-order for `target_id`. When found, the ids on the
/// path from `root` to that node are appended to `path` and `true` is
/// returned; otherwise `path` is left as it was and `false` is returned.
pub fn find_path_to_node(root: &SemanticNode, target_id: &str, path: &mut Vec<String>) -> (found:
    bool)
    ensures
        found == dfs_path(*root, target_id@) is Some,
        found ==> ids_of(final(path)@) == ids_of(old(path)@) + dfs_path(*root, target_id@)->0,
        !found ==> final(path)@ == old(path)@,
    decreases root,
{
    let ghost start = path@;
    path.push(root.id.clone());
    if str_eq(root.id.as_str(), target_id) {
        assert(ids_of(path@) =~= ids_of(start) + seq![root.id@]);
        return true;
    }
    let mut i: usize = 0;
    let mut found = false;
    while !found && i < root.children.len()
        invariant
            i <= root.children.len(),
            root.id@ != target_id@,
            !found ==> path@ == start.push(root.id),
            !found ==> children_path(root.children@.take(i as int), target_id@) is None,
            found ==> dfs_path(*root, target_id@) is Some,
            found ==> ids_of(path@) == ids_of(start) + dfs_path(*root, target_id@)->0,
        decreases root.children.len() - i,
    {
        let child = &root.children[i];
        assert(decreases_to!(root => root.children@[i as int]));
        let ghost before = path@;
        assert(root.children@.take(i + 1).drop_last() =~= root.children@.take(i as int));
        if find_path_to_node(child, target_id, path) {
            proof {
                lemma_children_path_prefix(root.children@, i + 1, target_id@);
                let p = dfs_path(root.children@[i as int], target_id@)->0;
                assert(root.children@.take(i + 1).last() == root.children@[i as int]);
                assert(children_path(root.children@.take(i + 1), target_id@) == Some(p));
                assert(children_path(root.children@, target_id@) == Some(p));
                assert(dfs_path(*root, target_id@) == Some(seq![root.id@] + p));
                assert(ids_of(before) =~= ids_of(start) + seq![root.id@]);
                assert(ids_of(path@) =~= ids_of(start) + (seq![root.id@] + p));
            }
            found = true;
        }
        i = i + 1;
    }
    if found {
        return true;
    }
    assert(root.children@.take(root.children.len() as int) =~= root.children@);
    path.pop();
    assert(path@ =~= start);
    false
}

/// The path search succeeds exactly when the tree holds a node with the
/// target id, and then the path starts at the root and ends at that node.
pub proof fn dfs_path_finds_exactly_contained_ids(node: SemanticNode, target: Seq<char>)
    ensures
        dfs_path(node, target) is Some <==> node_contains(node, target),
        dfs_path(node, target) matches Some(p) ==> p.len() >= 1 && p[0] == node.id@ && p.last()
            == target,
    decreases node, 0int,
{
    if node.id@ != target {
        children_path_finds_exactly_contained_ids(node.children@, target);
    }
}

pub proof fn children_path_finds_exactly_contained_ids(children: Seq<SemanticNode>, target: Seq<char>)
    ensures
        children_path(children, target) is Some <==> children_contain(children, target),
        children_path(children, target) matches Some(p) ==> p.len() >= 1 && p.last() == target,
    decreases children, 1int,
{
    if children.len() > 0 {
        children_path_finds_exactly_contained_ids(children.drop_last(), target);
        dfs_path_finds_exactly_contained_ids(children.last(), target);
    }
}

/// The ancestor search reports a result exactly when the tree holds a node
/// with id `p` or `q`, and every id it reports is the id of a node of the tree.
pub proof fn lca_reports_exactly_when_present(node: SemanticNode, p: Seq<char>, q: Seq<char>)
    ensures
        lca(node, p, q) is Some <==> (node_contains(node, p) || node_contains(node, q)),
        lca(node, p, q) matches Some(x) ==> node_contains(node, x),
    decreases node, 0int,
{
    if !(node.id@ == p || node.id@ == q) {
        children_found_reports(node.children@, p, q);
        let found = children_found(node.children@, p, q);
        if found.len() == 1 {
            assert(children_contain(node.children@, found[0]));
        }
    }
}

pub proof fn children_found_reports(children: Seq<SemanticNode>, p: Seq<char>, q: Seq<char>)
    ensures
        children_found(children, p, q).len() > 0 <==> (children_contain(children, p)
            || children_contain(children, q)),
        forall|k: int|
            0 <= k < children_found(children, p, q).len() ==> children_contain(
                children,
                #[trigger] children_found(children, p, q)[k],
            ),
    decreases children, 1int,
{
    if children.len() > 0 {
        let rest = children.drop_last();
        children_found_reports(rest, p, q);
        lca_reports_exactly_when_present(children.last(), p, q);
        let found = children_found(children, p, q);
        let found_rest = children_found(rest, p, q);
        assert forall|k: int| 0 <= k < found.len() implies children_contain(
            children,
            #[trigger] found[k],
        ) by {
            if k < found_rest.len() {
                assert(found[k] == found_rest[k]);
                assert(children_contain(rest, found_rest[k]));
            }
        }
    }
}

/// How many nodes of the tree at `node` have the id `id`.
pub open spec fn id_count(node: SemanticNode, id: Seq<char>) -> nat
    decreases node, 0int,
{
    (if node.id@ == id {
        1nat
    } else {
        0nat
    }) + children_id_count(node.children@, id)
}

/// How many nodes of the trees among `children` have the id `id`.
pub open spec fn children_id_count(children: Seq<SemanticNode>, id: Seq<char>) -> nat
    decreases children, 1int,
{
    if children.len() == 0 {
        0
    } else {
        children_id_count(children.drop_last(), id) + id_count(children.last(), id)
    }
}

/// No tree among `children` holds both `p` and `q`.
pub open spec fn no_child_holds_both(children: Seq<SemanticNode>, p: Seq<char>, q: Seq<char>) -> bool {
    forall|i: int|
        0 <= i < children.len() ==> !(node_contains(#[trigger] children[i], p) && node_contains(
            children[i],
            q,
        ))
}

/// `node` holds both `p` and `q` in its tree, and none of its children does.
pub open spec fn is_lowest_common(node: SemanticNode, p: Seq<char>, q: Seq<char>) -> bool {
    &&& node_contains(node, p)
    &&& node_contains(node, q)
    &&& no_child_holds_both(node.children@, p, q)
}

/// Some node of the tree at `node` has the id `x` and is a lowest common
/// ancestor of `p` and `q`.
pub open spec fn has_lowest_common_node(node: SemanticNode, x: Seq<char>, p: Seq<char>, q: Seq<char>) -> bool
    decreases node, 0int,
{
    (node.id@ == x && is_lowest_common(node, p, q)) || children_have_lowest_common_node(
        node.children@,
        x,
        p,
        q,
    )
}

/// Some tree among `children` has such a node.
pub open spec fn children_have_lowest_common_node(
    children: Seq<SemanticNode>,
    x: Seq<char>,
    p: Seq<char>,
    q: Seq<char>,
) -> bool
    decreases children, 1int,
{
    if children.len() == 0 {
        false
    } else {
        children_have_lowest_common_node(children.drop_last(), x, p, q) || has_lowest_common_node(
            children.last(),
            x,
            p,
            q,
        )
    }
}

proof fn lemma_count_contains(node: SemanticNode, id: Seq<char>)
    ensures
        id_count(node, id) > 0 <==> node_contains(node, id),
    decreases node, 0int,
{
    lemma_children_count_contains(node.children@, id);
}

proof fn lemma_children_count_contains(children: Seq<SemanticNode>, id: Seq<char>)
    ensures
        children_id_count(children, id) > 0 <==> children_contain(children, id),
    decreases children, 1int,
{
    if children.len() > 0 {
        lemma_children_count_contains(children.drop_last(), id);
        lemma_count_contains(children.last(), id);
    }
}

proof fn lemma_child_count_bound(children: Seq<SemanticNode>, i: int, id: Seq<char>)
    requires
        0 <= i < children.len(),
    ensures
        id_count(children[i], id) <= children_id_count(children, id),
    decreases children.len(),
{
    if i < children.len() - 1 {
        lemma_child_count_bound(children.drop_last(), i, id);
        assert(children.drop_last()[i] == children[i]);
    }
}

proof fn lemma_absent_from_each_child(children: Seq<SemanticNode>, id: Seq<char>)
    requires
        children_id_count(children, id) == 0,
    ensures
        forall|i: int| 0 <= i < children.len() ==> !node_contains(#[trigger] children[i], id),
{
    assert forall|i: int| 0 <= i < children.len() implies !node_contains(
        #[trigger] children[i],
        id,
    ) by {
        lemma_child_count_bound(children, i, id);
        lemma_count_contains(children[i], id);
    }
}

proof fn lemma_lca_by_counts(node: SemanticNode, p: Seq<char>, q: Seq<char>)
    ensures
        id_count(node, p) == 0 && id_count(node, q) == 0 ==> lca(node, p, q) is None,
        id_count(node, p) == 1 && id_count(node, q) == 0 ==> lca(node, p, q) == Some(p),
        id_count(node, p) == 0 && id_count(node, q) == 1 ==> lca(node, p, q) == Some(q),
        id_count(node, p) == 1 && id_count(node, q) == 1 ==> (lca(node, p, q) matches Some(x)
            && has_lowest_common_node(node, x, p, q)),
    decreases node, 0int,
{
    let children = node.children@;
    lemma_count_contains(node, p);
    lemma_count_contains(node, q);
    if node.id@ == p || node.id@ == q {
        if id_count(node, p) == 1 && id_count(node, q) == 1 {
            if node.id@ == p {
                lemma_absent_from_each_child(children, p);
            } else {
                lemma_absent_from_each_child(children, q);
            }
            assert(is_lowest_common(node, p, q));
        }
    } else {
        lemma_children_found_by_counts(children, p, q);
    }
}

proof fn lemma_children_found_by_counts(children: Seq<SemanticNode>, p: Seq<char>, q: Seq<char>)
    ensures
        ({
            let cp = children_id_count(children, p);
            let cq = children_id_count(children, q);
            let f = children_found(children, p, q);
            &&& cp == 0 && cq == 0 ==> f.len() == 0
            &&& cp == 1 && cq == 0 ==> f == seq![p]
            &&& cp == 0 && cq == 1 ==> f == seq![q]
            &&& cp == 1 && cq == 1 ==> (f.len() == 1 && children_have_lowest_common_node(
                children,
                f[0],
                p,
                q,
            )) || (f.len() == 2 && no_child_holds_both(children, p, q))
        }),
    decreases children, 1int,
{
    if children.len() > 0 {
        let rest = children.drop_last();
        let last = children.last();
        lemma_children_found_by_counts(rest, p, q);
        lemma_lca_by_counts(last, p, q);
        lemma_count_contains(last, p);
        lemma_count_contains(last, q);
        let cp = children_id_count(children, p);
        let cq = children_id_count(children, q);
        let rp = children_id_count(rest, p);
        let rq = children_id_count(rest, q);
        let f = children_found(children, p, q);
        let fr = children_found(rest, p, q);
        if cp == 1 && cq == 1 {
            if rp == 1 && rq == 1 {
                if fr.len() == 2 {
                    assert forall|i: int| 0 <= i < children.len() implies !(node_contains(
                        #[trigger] children[i],
                        p,
                    ) && node_contains(children[i], q)) by {
                        if i < rest.len() {
                            assert(children[i] == rest[i]);
                        }
                    }
                }
            } else if rp == 1 && rq == 0 {
                lemma_absent_from_each_child(rest, q);
                assert forall|i: int| 0 <= i < children.len() implies !(node_contains(
                    #[trigger] children[i],
                    p,
                ) && node_contains(children[i], q)) by {
                    if i < rest.len() {
                        assert(children[i] == rest[i]);
                    }
                }
            } else if rp == 0 && rq == 1 {
                lemma_absent_from_each_child(rest, p);
                assert forall|i: int| 0 <= i < children.len() implies !(node_contains(
                    #[trigger] children[i],
                    p,
                ) && node_contains(children[i], q)) by {
                    if i < rest.len() {
                        assert(children[i] == rest[i]);
                    }
                }
            } else {
                assert(rp == 0 && rq == 0);
                assert(f == seq![lca(last, p, q)->0]);
            }
        }
    }
}

/// Where `p` and `q` are each the id of exactly one node of the tree, the
/// search reports the id of their lowest common ancestor: a node that holds
/// both in its tree while none of its children does.
pub proof fn lca_is_lowest_common_ancestor(root: SemanticNode, p: Seq<char>, q: Seq<char>)
    requires
        id_count(root, p) == 1,
        id_count(root, q) == 1,
    ensures
        lca(root, p, q) matches Some(x) && has_lowest_common_node(root, x, p, q),
{
    lemma_lca_by_counts(root, p, q);
}

} // verus!
