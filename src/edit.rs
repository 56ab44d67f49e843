use vstd::prelude::*;
use crate::shape::Shape;
use crate::tree::{Node, lemma_found_node_has_id, lemma_found_through_child, position_of, without_id};

verus! {

/// A change to the child list or the shape of one node.
pub enum Edit {
    /// Append a child.
    Append(Box<Node>),
    /// Insert a child before the direct child with the given id.
    InsertBefore(usize, Box<Node>),
    /// Remove the direct child with the given id.
    Remove(usize),
    /// Replace the shape.
    SetShape(Shape),
}

/// Whether `n` is `o` after the edit `e`, made on `o` itself.
pub open spec fn edit_applied(o: Node, n: Node, e: Edit) -> bool {
    match e {
        Edit::Append(c) => o.same_but_children(&n) && n.node_vec@ == o.node_vec@.push(c),
        Edit::InsertBefore(before_id, c) => {
            let p = position_of(o.node_vec@, before_id, 0);
            &&& o.same_but_children(&n)
            &&& p < o.node_vec@.len() ==> n.node_vec@ == o.node_vec@.insert(p, c)
            &&& p == o.node_vec@.len() ==> n.node_vec@ == o.node_vec@
        },
        Edit::Remove(child_id) => o.same_but_children(&n) && n.node_vec@ == without_id(o.node_vec@, child_id),
        Edit::SetShape(s) => n == (Node { shape: Some(s), ..o }),
    }
}

/// Whether `n` carries the id `id` itself or below.
pub open spec fn holds_id(n: Node, id: usize) -> bool {
    n.id == id || n.has_descendant(id)
}

/// The position of the first child at or after `i` that holds `id` itself
/// or below, or the length of `s` if there is none.
pub open spec fn first_holding(s: Seq<Box<Node>>, id: usize, i: int) -> int
    decreases s.len() - i,
{
    if i < 0 || i >= s.len() {
        s.len() as int
    } else if holds_id(*s[i], id) {
        i
    } else {
        first_holding(s, id, i + 1)
    }
}

proof fn lemma_first_holding_at(s: Seq<Box<Node>>, id: usize, i: int, k: int)
    requires
        0 <= i <= k <= s.len(),
        forall|j: int| i <= j < k ==> !holds_id(*#[trigger] s[j], id),
        k < s.len() ==> holds_id(*s[k], id),
    ensures
        first_holding(s, id, i) == k,
    decreases k - i,
{
    if i < k {
        lemma_first_holding_at(s, id, i + 1, k);
    }
}

proof fn lemma_first_holding_found(s: Seq<Box<Node>>, id: usize, i: int)
    requires
        0 <= i <= s.len(),
    ensures
        first_holding(s, id, i) < s.len() ==> holds_id(*s[first_holding(s, id, i)], id),
        first_holding(s, id, i) >= i,
    decreases s.len() - i,
{
    if i < s.len() && !holds_id(*s[i], id) {
        lemma_first_holding_found(s, id, i + 1);
    }
}

/// A node with a descendant of id `id` has a child that holds it.
proof fn lemma_some_child_holds(o: Node, i: int, id: usize)
    requires
        0 <= i,
        o.find_from(i, id) is Some,
    ensures
        first_holding(o.node_vec@, id, i) < o.node_vec@.len(),
    decreases o.node_vec@.len() - i,
{
    if i < o.node_vec@.len() && !holds_id(*o.node_vec@[i], id) {
        lemma_some_child_holds(o, i + 1, id);
    }
}

/// Whether `n` is `o` after the edit `e` was made on the first node, in
/// pre-order and starting with `o` itself, whose id is `id`; with no such
/// node `n` is `o`.
pub open spec fn edited_at(o: Node, n: Node, id: usize, e: Edit) -> bool
    decreases o,
{
    if o.id == id {
        edit_applied(o, n, e)
    } else {
        let k = first_holding(o.node_vec@, id, 0);
        &&& o.same_but_children(&n)
        &&& n.node_vec@.len() == o.node_vec@.len()
        &&& forall|j: int| 0 <= j < o.node_vec@.len() && j != k ==> n.node_vec@[j] == #[trigger] o.node_vec@[j]
        &&& 0 <= k < o.node_vec@.len() ==> edited_at(*o.node_vec@[k], *n.node_vec@[k], id, e)
    }
}

/// Once a node has been appended to a container found in the tree, looking
/// it up by its id from the root finds a node with that id.
pub proof fn lemma_appended_is_found(o: Node, n: Node, container_id: usize, c: Box<Node>)
    requires
        edited_at(o, n, container_id, Edit::Append(c)),
        holds_id(o, container_id),
    ensures
        n.has_descendant(c.id),
        n.find(c.id)->Some_0.id == c.id,
    decreases o,
{
    if o.id == container_id {
        lemma_found_through_child(n, 0, o.node_vec@.len() as int, c.id);
    } else {
        let k = first_holding(o.node_vec@, container_id, 0);
        lemma_some_child_holds(o, 0, container_id);
        lemma_first_holding_found(o.node_vec@, container_id, 0);
        lemma_appended_is_found(*o.node_vec@[k], *n.node_vec@[k], container_id, c);
        lemma_found_through_child(n, 0, k, c.id);
    }
    lemma_found_node_has_id(n, 0, c.id);
}

/// Whether `a` and `b` are the same tree: equal fields at every node and
/// child lists that agree child by child.
pub open spec fn same_tree(a: Node, b: Node) -> bool
    decreases a,
{
    &&& a.same_but_children(&b)
    &&& a.node_vec@.len() == b.node_vec@.len()
    &&& forall|j: int| 0 <= j < a.node_vec@.len() ==> same_tree(*#[trigger] a.node_vec@[j], *b.node_vec@[j])
}

/// The node an edit addressed to `id` lands on: `o` itself or its first
/// descendant with that id.
pub open spec fn target_of(o: Node, id: usize) -> Node {
    if o.id == id {
        o
    } else {
        o.find(id)->Some_0
    }
}

proof fn lemma_same_tree_refl(a: Node)
    ensures
        same_tree(a, a),
    decreases a,
{
    assert forall|j: int| 0 <= j < a.node_vec@.len() implies same_tree(*#[trigger] a.node_vec@[j], *a.node_vec@[j]) by {
        lemma_same_tree_refl(*a.node_vec@[j]);
    }
}

/// The search from child `i` on finds what the holding child `k` gives when
/// no child between them holds the id.
proof fn lemma_find_at_holding_child(o: Node, i: int, k: int, id: usize)
    requires
        0 <= i <= k < o.node_vec@.len(),
        forall|j: int| i <= j < k ==> !holds_id(*#[trigger] o.node_vec@[j], id),
        holds_id(*o.node_vec@[k], id),
    ensures
        o.find_from(i, id) == Some(target_of(*o.node_vec@[k], id)),
    decreases k - i,
{
    if i < k {
        lemma_find_at_holding_child(o, i + 1, k, id);
    }
}

/// Inserting before an id that no direct child of the addressed container
/// carries, even one held deeper down, leaves the whole tree as it was.
pub proof fn lemma_insert_before_absent_anchor(o: Node, n: Node, container_id: usize, anchor: usize, c: Box<Node>)
    requires
        edited_at(o, n, container_id, Edit::InsertBefore(anchor, c)),
        holds_id(o, container_id),
        forall|j: int| 0 <= j < target_of(o, container_id).node_vec@.len()
            ==> (#[trigger] target_of(o, container_id).node_vec@[j]).id != anchor,
    ensures
        same_tree(o, n),
    decreases o,
{
    if o.id == container_id {
        crate::tree::lemma_direct_children_only(o, anchor);
        assert(n.node_vec@ == o.node_vec@);
        assert forall|j: int| 0 <= j < o.node_vec@.len() implies same_tree(*#[trigger] o.node_vec@[j], *n.node_vec@[j]) by {
            lemma_same_tree_refl(*o.node_vec@[j]);
        }
    } else {
        let k = first_holding(o.node_vec@, container_id, 0);
        lemma_some_child_holds(o, 0, container_id);
        lemma_first_holding_found(o.node_vec@, container_id, 0);
        assert forall|j: int| 0 <= j < k implies !holds_id(*#[trigger] o.node_vec@[j], container_id) by {
            lemma_before_first_holding(o.node_vec@, container_id, 0, j);
        }
        lemma_find_at_holding_child(o, 0, k, container_id);
        lemma_insert_before_absent_anchor(*o.node_vec@[k], *n.node_vec@[k], container_id, anchor, c);
        assert forall|j: int| 0 <= j < o.node_vec@.len() implies same_tree(*#[trigger] o.node_vec@[j], *n.node_vec@[j]) by {
            if j != k {
                lemma_same_tree_refl(*o.node_vec@[j]);
            }
        }
    }
}

/// Removing an id that no direct child of the addressed container carries,
/// even one held deeper down, leaves the whole tree as it was.
pub proof fn lemma_remove_absent_child(o: Node, n: Node, container_id: usize, child_id: usize)
    requires
        edited_at(o, n, container_id, Edit::Remove(child_id)),
        holds_id(o, container_id),
        forall|j: int| 0 <= j < target_of(o, container_id).node_vec@.len()
            ==> (#[trigger] target_of(o, container_id).node_vec@[j]).id != child_id,
    ensures
        same_tree(o, n),
    decreases o,
{
    if o.id == container_id {
        crate::tree::lemma_direct_children_only(o, child_id);
        assert(n.node_vec@ == o.node_vec@);
        assert forall|j: int| 0 <= j < o.node_vec@.len() implies same_tree(*#[trigger] o.node_vec@[j], *n.node_vec@[j]) by {
            lemma_same_tree_refl(*o.node_vec@[j]);
        }
    } else {
        let k = first_holding(o.node_vec@, container_id, 0);
        lemma_some_child_holds(o, 0, container_id);
        lemma_first_holding_found(o.node_vec@, container_id, 0);
        assert forall|j: int| 0 <= j < k implies !holds_id(*#[trigger] o.node_vec@[j], container_id) by {
            lemma_before_first_holding(o.node_vec@, container_id, 0, j);
        }
        lemma_find_at_holding_child(o, 0, k, container_id);
        lemma_remove_absent_child(*o.node_vec@[k], *n.node_vec@[k], container_id, child_id);
        assert forall|j: int| 0 <= j < o.node_vec@.len() implies same_tree(*#[trigger] o.node_vec@[j], *n.node_vec@[j]) by {
            if j != k {
                lemma_same_tree_refl(*o.node_vec@[j]);
            }
        }
    }
}

proof fn lemma_before_first_holding(s: Seq<Box<Node>>, id: usize, i: int, j: int)
    requires
        0 <= i <= j < first_holding(s, id, i),
        first_holding(s, id, i) <= s.len(),
    ensures
        !holds_id(*s[j], id),
    decreases j - i,
{
    if i < j {
        lemma_before_first_holding(s, id, i + 1, j);
    }
}

/// Makes the edit `e` on the node `n` itself.
pub fn apply_edit(n: &mut Node, e: Edit)
    ensures
        edit_applied(*old(n), *final(n), e),
{
    match e {
        Edit::Append(c) => n.append_boxed(c),
        Edit::InsertBefore(before_id, c) => n.insert_boxed_before(before_id, c),
        Edit::Remove(child_id) => n.remove_by_id(child_id),
        Edit::SetShape(s) => n.set_shape(s),
    }
}

/// Makes the edit `e` on the first node, in pre-order and starting with `n`
/// itself, whose id is `id`. Hands the edit back when there is no such node.
pub fn apply_at(node: Node, id: usize, e: Edit) -> (r: (Node, Option<Edit>))
    ensures
        edited_at(node, r.0, id, e),
        r.1 is None <==> holds_id(node, id),
        r.1 is Some ==> r.1 == Some(e),
    decreases node,
{
    let mut n = node;
    if n.id == id {
        apply_edit(&mut n, e);
        return (n, None);
    }
    let ghost o = n;
    let mut i: usize = 0;
    while i < n.node_vec.len()
        invariant
            n == o,
            o == node,
            o.id != id,
            i <= o.node_vec@.len(),
            forall|j: int| 0 <= j < i ==> !holds_id(*#[trigger] o.node_vec@[j], id),
            o.find_from(0, id) == o.find_from(i as int, id),
        decreases o.node_vec@.len() - i,
    {
        let hit = n.node_vec[i].id == id || n.node_vec[i].find_node_by_id(id).is_some();
        if hit {
            proof {
                lemma_first_holding_at(o.node_vec@, id, 0, i as int);
            }
            let child = n.node_vec.remove(i);
            proof {
                assert(decreases_to!(o.node_vec@ => o.node_vec@[i as int]));
            }
            let (edited, _) = apply_at(*child, id, e);
            n.node_vec.insert(i, Box::new(edited));
            proof {
                assert(n.node_vec@ =~= o.node_vec@.update(i as int, Box::new(edited)));
            }
            return (n, None);
        }
        i = i + 1;
    }
    proof {
        lemma_first_holding_at(o.node_vec@, id, 0, o.node_vec@.len() as int);
    }
    (n, Some(e))
}

} // verus!
