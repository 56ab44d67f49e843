use vstd::prelude::*;
use crate::color::Color;
use crate::shape::Shape;

verus! {

/// std's `Cell`, which holds a node's vertical position; nothing here reads
/// inside it.
#[verifier::external_type_specification]
#[verifier::external_body]
#[verifier::reject_recursive_types(T)]
pub struct ExCell<T: ?Sized>(std::cell::Cell<T>);

/// Relies on std's `Cell::new` to make a cell; nothing is claimed of its
/// content.
pub assume_specification<T>[ std::cell::Cell::<T>::new ](value: T) -> std::cell::Cell<T>;

/// Hands out node ids: each one is greater than every id handed out before.
pub struct IdAllocator {
    last: usize,
}

impl IdAllocator {
    /// The last id handed out (zero before the first).
    pub closed spec fn last_id(&self) -> nat {
        self.last as nat
    }

    pub fn new() -> (ids: IdAllocator)
        ensures
            ids.last_id() == 0,
    {
        IdAllocator { last: 0 }
    }

    /// Returns a fresh id, one above the last one handed out.
    pub fn next_id(&mut self) -> (id: usize)
        requires
            old(self).last_id() < usize::MAX,
        ensures
            id == old(self).last_id() + 1,
            final(self).last_id() == id,
    {
        self.last = self.last + 1;
        self.last
    }
}

/// Holds zero or one root node.
#[derive(Debug)]
pub struct Tree {
    root: Option<Box<Node>>,
}

/// A node of the scene: a unique id, geometry, a background color, an
/// optional shape, and the children it owns, in painting order.
#[derive(Debug)]
pub struct Node {
    pub id: usize,
    pub x: i32,
    pub y: std::cell::Cell<i32>,
    pub width: i32,
    pub height: i32,
    pub background_color: Color,
    pub shape: Option<Shape>,
    pub node_vec: Vec<Box<Node>>,
}

impl Node {
    /// A node with the given id, zero geometry, the default background, no
    /// shape and no children.
    pub fn with_id(id: usize) -> (n: Node)
        ensures
            n.id == id,
            n.is_blank(),
    {
        Node {
            id,
            x: 0,
            y: std::cell::Cell::new(0i32),
            width: 0,
            height: 0,
            background_color: Color::from_argb(100, 0, 0, 0),
            shape: None,
            node_vec: Vec::new(),
        }
    }

    /// A fresh node whose id is drawn from `ids`.
    pub fn new(ids: &mut IdAllocator) -> (n: Node)
        requires
            old(ids).last_id() < usize::MAX,
        ensures
            n.id == old(ids).last_id() + 1,
            final(ids).last_id() == n.id,
            n.is_blank(),
    {
        let id = ids.next_id();
        Node::with_id(id)
    }

    /// Zero geometry, the default background, no shape and no children.
    pub open spec fn is_blank(&self) -> bool {
        &&& self.x == 0
        &&& self.width == 0
        &&& self.height == 0
        &&& self.background_color == (Color { a: 100, r: 0, g: 0, b: 0 })
        &&& self.shape is None
        &&& self.node_vec@.len() == 0
    }
}

impl Node {
    /// The first node with id `id`, in pre-order, among the descendants
    /// reached through the children from index `i` on.
    pub open spec fn find_from(&self, i: int, id: usize) -> Option<Node>
        decreases self, self.node_vec@.len() - i,
    {
        if 0 <= i < self.node_vec@.len() {
            let c = *self.node_vec@[i];
            if c.id == id {
                Some(c)
            } else {
                match c.find_from(0, id) {
                    Some(n) => Some(n),
                    None => self.find_from(i + 1, id),
                }
            }
        } else {
            None
        }
    }

    /// The first descendant with id `id` in pre-order (each child before
    /// its own subtree, children in order); the node itself is not looked at.
    pub open spec fn find(&self, id: usize) -> Option<Node> {
        self.find_from(0, id)
    }

    /// Whether some descendant has id `id`.
    pub open spec fn has_descendant(&self, id: usize) -> bool {
        self.find(id) is Some
    }

    /// Whether `other` is this node with perhaps another child list.
    pub open spec fn same_but_children(&self, other: &Node) -> bool {
        &&& other.id == self.id
        &&& other.x == self.x
        &&& other.y == self.y
        &&& other.width == self.width
        &&& other.height == self.height
        &&& other.background_color == self.background_color
        &&& other.shape == self.shape
    }

    pub fn append(&mut self, node: Node)
        ensures
            old(self).same_but_children(final(self)),
            final(self).node_vec@ == old(self).node_vec@.push(Box::new(node)),
    {
        self.node_vec.push(Box::new(node));
    }

    pub fn append_boxed(&mut self, boxed_node: Box<Node>)
        ensures
            old(self).same_but_children(final(self)),
            final(self).node_vec@ == old(self).node_vec@.push(boxed_node),
    {
        self.node_vec.push(boxed_node);
    }

    pub fn get_children_len(&self) -> (n: usize)
        ensures
            n == self.node_vec@.len(),
    {
        self.node_vec.len()
    }

    pub fn get_child_by_index(&mut self, index: usize) -> (r: Option<&mut Node>)
        requires
            index < old(self).node_vec@.len(),
        ensures
            r is Some,
            *r->Some_0 == *old(self).node_vec@[index as int],
            old(self).same_but_children(final(self)),
            final(self).node_vec@ == old(self).node_vec@.update(index as int, Box::new(*final(r->Some_0))),
    {
        Some(&mut *self.node_vec[index])
    }
}

/// The children whose id is not `id`, in their order.
pub open spec fn without_id(s: Seq<Box<Node>>, id: usize) -> Seq<Box<Node>> {
    s.filter(|c: Box<Node>| c.id != id)
}

/// The position of the first child with id `id` at or after `i`, or the
/// length of `s` if there is none.
pub open spec fn position_of(s: Seq<Box<Node>>, id: usize, i: int) -> int
    decreases s.len() - i,
{
    if i < 0 || i >= s.len() {
        s.len() as int
    } else if s[i].id == id {
        i
    } else {
        position_of(s, id, i + 1)
    }
}

proof fn lemma_position_of_bounds(s: Seq<Box<Node>>, id: usize, i: int)
    requires
        0 <= i <= s.len(),
    ensures
        i <= position_of(s, id, i) <= s.len(),
        position_of(s, id, i) < s.len() ==> s[position_of(s, id, i)].id == id,
        forall|k: int| i <= k < position_of(s, id, i) ==> s[k].id != id,
    decreases s.len() - i,
{
    if i < s.len() && s[i].id != id {
        lemma_position_of_bounds(s, id, i + 1);
    }
}

impl Node {
    pub fn remove_by_id(&mut self, node_id: usize)
        ensures
            old(self).same_but_children(final(self)),
            final(self).node_vec@ == without_id(old(self).node_vec@, node_id),
    {
        let ghost pred = |c: Box<Node>| c.id != node_id;
        let ghost orig = self.node_vec@;
        let n = self.node_vec.len();
        let mut i: usize = 0;
        let mut j: usize = 0;
        while i < self.node_vec.len()
            invariant
                old(self).same_but_children(self),
                orig == old(self).node_vec@,
                j <= orig.len() == n,
                pred == (|c: Box<Node>| c.id != node_id),
                i <= self.node_vec@.len(),
                self.node_vec@ == orig.subrange(0, j as int).filter(pred) + orig.subrange(j as int, orig.len() as int),
                i == orig.subrange(0, j as int).filter(pred).len(),
                self.node_vec@.len() == i + (orig.len() - j),
            decreases self.node_vec@.len() - i,
        {
            proof {
                assert(orig.subrange(0, j as int + 1) =~= orig.subrange(0, j as int).push(orig[j as int]));
                orig.subrange(0, j as int).lemma_filter_push(orig[j as int], pred);
                assert(self.node_vec@[i as int] == orig[j as int]);
            }
            if self.node_vec[i].id == node_id {
                let _removed = self.node_vec.remove(i);
                assert(orig.subrange(j as int + 1, orig.len() as int) =~= orig.subrange(j as int, orig.len() as int).drop_first());
                assert(self.node_vec@ =~= orig.subrange(0, j as int + 1).filter(pred) + orig.subrange(j as int + 1, orig.len() as int));
            } else {
                i = i + 1;
                assert(self.node_vec@ =~= orig.subrange(0, j as int + 1).filter(pred) + orig.subrange(j as int + 1, orig.len() as int));
            }
            j = j + 1;
        }
        proof {
            assert(orig.subrange(0, orig.len() as int) =~= orig);
            assert(self.node_vec@ =~= without_id(orig, node_id));
        }
    }

    /// Puts `node` right before the first direct child whose id is
    /// `before_id`; with no such child the node is dropped and nothing changes.
    pub fn insert_before(&mut self, before_id: usize, node: Node)
        ensures
            old(self).same_but_children(final(self)),
            position_of(old(self).node_vec@, before_id, 0) < old(self).node_vec@.len() ==>
                final(self).node_vec@ == old(self).node_vec@.insert(position_of(old(self).node_vec@, before_id, 0), Box::new(node)),
            position_of(old(self).node_vec@, before_id, 0) == old(self).node_vec@.len() ==>
                final(self).node_vec@ == old(self).node_vec@,
    {
        self.insert_boxed_before(before_id, Box::new(node));
    }

    pub fn insert_boxed_before(&mut self, before_id: usize, boxed_node: Box<Node>)
        ensures
            old(self).same_but_children(final(self)),
            position_of(old(self).node_vec@, before_id, 0) < old(self).node_vec@.len() ==>
                final(self).node_vec@ == old(self).node_vec@.insert(position_of(old(self).node_vec@, before_id, 0), boxed_node),
            position_of(old(self).node_vec@, before_id, 0) == old(self).node_vec@.len() ==>
                final(self).node_vec@ == old(self).node_vec@,
    {
        proof {
            lemma_position_of_bounds(self.node_vec@, before_id, 0);
        }
        let mut i: usize = 0;
        while i < self.node_vec.len()
            invariant
                *self == *old(self),
                i <= self.node_vec@.len(),
                position_of(self.node_vec@, before_id, 0) == position_of(self.node_vec@, before_id, i as int),
            decreases self.node_vec@.len() - i,
        {
            if self.node_vec[i].id == before_id {
                self.node_vec.insert(i, boxed_node);
                return;
            }
            i = i + 1;
        }
    }
}

impl Node {
    pub fn get_background_color(&self) -> (c: &Color)
        ensures
            *c == self.background_color,
    {
        &self.background_color
    }

    pub fn set_background_color(&mut self, color: Color)
        ensures
            *final(self) == (Node { background_color: color, ..*old(self) }),
    {
        self.background_color = color;
    }

    pub fn set_width(&mut self, width: i32)
        ensures
            *final(self) == (Node { width, ..*old(self) }),
    {
        self.width = width;
    }

    pub fn set_height(&mut self, height: i32)
        ensures
            *final(self) == (Node { height, ..*old(self) }),
    {
        self.height = height;
    }

    pub fn get_width(&self) -> (w: i32)
        ensures
            w == self.width,
    {
        self.width
    }

    pub fn get_height(&self) -> (h: i32)
        ensures
            h == self.height,
    {
        self.height
    }

    /// Replaces the node's shape as a whole.
    pub fn set_shape(&mut self, shape: Shape)
        ensures
            *final(self) == (Node { shape: Some(shape), ..*old(self) }),
    {
        self.shape = Some(shape);
    }

    /// Looks for a descendant with id `id`, depth first.
    pub fn find_node_by_id(&self, id: usize) -> (r: Option<&Node>)
        ensures
            match r {
                Some(n) => self.find(id) == Some(*n),
                None => self.find(id) is None,
            },
    {
        Self::recursive_find_child_node_by_id(self, id)
    }

    fn recursive_find_child_node_by_id(parent: &Node, child_node_id: usize) -> (r: Option<&Node>)
        ensures
            match r {
                Some(n) => parent.find(child_node_id) == Some(*n),
                None => parent.find(child_node_id) is None,
            },
        decreases parent,
    {
        let mut i: usize = 0;
        while i < parent.node_vec.len()
            invariant
                i <= parent.node_vec@.len(),
                parent.find_from(0, child_node_id) == parent.find_from(i as int, child_node_id),
            decreases parent.node_vec@.len() - i,
        {
            let child: &Node = &parent.node_vec[i];
            if child.id == child_node_id {
                return Some(child);
            }
            match Self::recursive_find_child_node_by_id(child, child_node_id) {
                Some(target) => return Some(target),
                None => {},
            }
            i = i + 1;
        }
        None
    }
}

impl Tree {
    /// The root, if one was set.
    pub closed spec fn root(&self) -> Option<Node> {
        match self.root {
            Some(b) => Some(*b),
            None => None,
        }
    }

    pub fn new() -> (t: Tree)
        ensures
            t.root() is None,
    {
        Tree { root: None }
    }

    pub fn get_root(&mut self) -> (r: Option<&mut Node>)
        ensures
            old(self).root() is None ==> r is None && final(self).root() is None,
            old(self).root() is Some ==> r is Some && *r->Some_0 == old(self).root()->Some_0
                && final(self).root() == Some(*final(r->Some_0)),
    {
        match &mut self.root {
            Some(b) => Some(&mut **b),
            None => None,
        }
    }

    /// The root, which must be there.
    pub fn root_ref(&self) -> (r: &Node)
        requires
            self.root() is Some,
        ensures
            *r == self.root()->Some_0,
    {
        &**self.root.as_ref().unwrap()
    }

    /// Takes the root out, leaving the tree empty.
    pub fn take_root(&mut self) -> (r: Option<Node>)
        ensures
            r == old(self).root(),
            final(self).root() is None,
    {
        match self.root.take() {
            Some(b) => Some(*b),
            None => None,
        }
    }

    pub fn set_root(&mut self, root: Node)
        ensures
            final(self).root() == Some(root),
    {
        self.root = Some(Box::new(root));
    }
}

/// Ids increase in creation order: the id `Node::new` draws from an
/// allocator exceeds, and so differs from, every id that allocator handed
/// out before.
pub proof fn lemma_new_id_is_fresh(issued: Set<usize>, before: IdAllocator, n: Node)
    requires
        forall|x: usize| issued.contains(x) ==> x <= before.last_id(),
        n.id == before.last_id() + 1,
    ensures
        forall|x: usize| issued.contains(x) ==> x < n.id,
        !issued.contains(n.id),
{
}

/// A node found by id carries that id.
pub proof fn lemma_found_node_has_id(n: Node, i: int, id: usize)
    requires
        n.find_from(i, id) is Some,
    ensures
        n.find_from(i, id)->Some_0.id == id,
    decreases n, n.node_vec@.len() - i,
{
    let c = *n.node_vec@[i];
    if c.id != id {
        if c.find_from(0, id) is Some {
            lemma_found_node_has_id(c, 0, id);
        } else {
            lemma_found_node_has_id(n, i + 1, id);
        }
    }
}

/// A search from child `i` on succeeds once child `k`, at or after `i`,
/// has the id or holds it below.
pub proof fn lemma_found_through_child(n: Node, i: int, k: int, id: usize)
    requires
        0 <= i <= k < n.node_vec@.len(),
        n.node_vec@[k].id == id || n.node_vec@[k].has_descendant(id),
    ensures
        n.find_from(i, id) is Some,
    decreases k - i,
{
    if i < k {
        let c = *n.node_vec@[i];
        if c.id != id && c.find_from(0, id) is None {
            lemma_found_through_child(n, i + 1, k, id);
        }
    }
}

/// After `append`, looking the appended node up by its id, from the parent
/// or from a node that holds the parent as a child, finds a node with that
/// id; `lemma_found_through_child` carries this further up.
pub proof fn lemma_append_then_find(parent: Node, child: Node, appended: Node)
    requires
        appended.node_vec@ == parent.node_vec@.push(Box::new(child)),
    ensures
        appended.has_descendant(child.id),
        appended.find(child.id)->Some_0.id == child.id,
        forall|root: Node, k: int|
            0 <= k < root.node_vec@.len() && *#[trigger] root.node_vec@[k] == appended
                ==> root.has_descendant(child.id) && root.find(child.id)->Some_0.id == child.id,
{
    let k = parent.node_vec@.len() as int;
    lemma_found_through_child(appended, 0, k, child.id);
    lemma_found_node_has_id(appended, 0, child.id);
    assert forall|root: Node, k: int|
        0 <= k < root.node_vec@.len() && *#[trigger] root.node_vec@[k] == appended
            implies root.has_descendant(child.id) && root.find(child.id)->Some_0.id == child.id by {
        lemma_found_through_child(root, 0, k, child.id);
        lemma_found_node_has_id(root, 0, child.id);
    }
}

/// A list in which no child has the id loses nothing when it is removed.
proof fn lemma_without_absent_id(s: Seq<Box<Node>>, id: usize)
    requires
        forall|k: int| 0 <= k < s.len() ==> (#[trigger] s[k]).id != id,
    ensures
        without_id(s, id) == s,
    decreases s.len(),
{
    if s.len() > 0 {
        lemma_without_absent_id(s.drop_last(), id);
        s.drop_last().lemma_filter_push(s.last(), |c: Box<Node>| c.id != id);
        assert(s.drop_last().push(s.last()) =~= s);
    } else {
        reveal(Seq::filter);
    }
}

/// Removing a child id a second time changes nothing.
pub proof fn lemma_remove_by_id_idempotent(s: Seq<Box<Node>>, id: usize)
    ensures
        without_id(without_id(s, id), id) == without_id(s, id),
{
    let once = without_id(s, id);
    assert forall|k: int| 0 <= k < once.len() implies (#[trigger] once[k]).id != id by {
        s.lemma_filter_pred(|c: Box<Node>| c.id != id, k);
    }
    lemma_without_absent_id(once, id);
}

/// The child operations look at direct children only: an id that no direct
/// child carries, even one held deeper down, leaves `remove_by_id` and
/// `insert_before` without effect.
pub proof fn lemma_direct_children_only(n: Node, id: usize)
    requires
        forall|k: int| 0 <= k < n.node_vec@.len() ==> (#[trigger] n.node_vec@[k]).id != id,
    ensures
        without_id(n.node_vec@, id) == n.node_vec@,
        position_of(n.node_vec@, id, 0) == n.node_vec@.len(),
{
    lemma_without_absent_id(n.node_vec@, id);
    lemma_position_of_bounds(n.node_vec@, id, 0);
}

} // verus!
