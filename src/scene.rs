use vstd::prelude::*;
use crate::edit::{Edit, apply_at, edited_at, holds_id};
use crate::shape::{Shape, WASMShape, WASMShapesAttr, shape_from_attr, shape_of, color_text_of};
use crate::color::css_rgba_of;
use crate::tree::{Node, Tree};

verus! {

/// Why a set-shape message could not be read.
#[derive(Debug)]
pub struct DecodeError {
    pub message: String,
}

/// A scene: a tree that always has a root, changed by commands that address
/// nodes by id.
#[derive(Debug)]
pub struct SoftSkiaWASM {
    pub tree: Tree,
}

impl SoftSkiaWASM {
    pub open spec fn wf(&self) -> bool {
        self.tree.root() is Some
    }

    /// The root node.
    pub open spec fn root(&self) -> Node {
        self.tree.root()->Some_0
    }

    /// A scene whose root is a blank node with id `id`.
    pub fn new(id: usize) -> (s: SoftSkiaWASM)
        ensures
            s.wf(),
            s.root().id == id,
            s.root().is_blank(),
    {
        let mut tree = Tree::new();
        tree.set_root(Node::with_id(id));
        SoftSkiaWASM { tree }
    }

    /// Makes `e` on the first node, in pre-order from the root, with id
    /// `id`; returns whether there was one.
    fn edit(&mut self, id: usize, e: Edit) -> (found: bool)
        requires
            old(self).wf(),
        ensures
            final(self).wf(),
            edited_at(old(self).root(), final(self).root(), id, e),
            found == holds_id(old(self).root(), id),
    {
        let root = self.tree.take_root().unwrap();
        let (root, back) = apply_at(root, id, e);
        self.tree.set_root(root);
        back.is_none()
    }

    /// Appends a new blank node with id `child_id` to the node with id
    /// `container_id`; nothing changes when there is no such node.
    pub fn create_child_append_to_container(&mut self, child_id: usize, container_id: usize)
        requires
            old(self).wf(),
        ensures
            final(self).wf(),
            exists|c: Node|
                c.id == child_id && c.is_blank()
                && #[trigger] edited_at(old(self).root(), final(self).root(), container_id, Edit::Append(Box::new(c))),
    {
        let child = Node::with_id(child_id);
        let ghost c = child;
        self.edit(container_id, Edit::Append(Box::new(child)));
        assert(edited_at(old(self).root(), self.root(), container_id, Edit::Append(Box::new(c))));
    }

    /// Puts a new blank node with id `child_id` before the child with id
    /// `insert_before_id` of the node with id `container_id`; nothing changes
    /// when either is missing.
    pub fn create_child_insert_before_element_of_container(
        &mut self,
        child_id: usize,
        insert_before_id: usize,
        container_id: usize,
    )
        requires
            old(self).wf(),
        ensures
            final(self).wf(),
            exists|c: Node|
                c.id == child_id && c.is_blank()
                && #[trigger] edited_at(
                    old(self).root(),
                    final(self).root(),
                    container_id,
                    Edit::InsertBefore(insert_before_id, Box::new(c)),
                ),
    {
        let child = Node::with_id(child_id);
        let ghost c = child;
        self.edit(container_id, Edit::InsertBefore(insert_before_id, Box::new(child)));
        assert(edited_at(old(self).root(), self.root(), container_id, Edit::InsertBefore(insert_before_id, Box::new(c))));
    }

    /// Removes the child with id `child_id`, with its subtree, from the node
    /// with id `container_id`; nothing changes when either is missing.
    pub fn remove_child_from_container(&mut self, child_id: usize, container_id: usize)
        requires
            old(self).wf(),
        ensures
            final(self).wf(),
            edited_at(old(self).root(), final(self).root(), container_id, Edit::Remove(child_id)),
    {
        self.edit(container_id, Edit::Remove(child_id));
    }

    /// Gives the node with id `id` the shape `shape`; nothing changes when
    /// there is no such node.
    pub fn set_shape_to_child(&mut self, id: usize, shape: Shape)
        requires
            old(self).wf(),
        ensures
            final(self).wf(),
            edited_at(old(self).root(), final(self).root(), id, Edit::SetShape(shape)),
    {
        self.edit(id, Edit::SetShape(shape));
    }

    /// Installs the shape that `attr` describes on the node with id `id`.
    /// When the color text is no RGBA color nothing changes.
    pub fn set_shape_by_attr(&mut self, id: usize, attr: WASMShapesAttr)
        requires
            old(self).wf(),
        ensures
            final(self).wf(),
            match shape_of(attr, css_rgba_of(color_text_of(attr))) {
                Some(s) => edited_at(old(self).root(), final(self).root(), id, Edit::SetShape(s)),
                None => *final(self) == *old(self),
            },
    {
        match shape_from_attr(attr) {
            Some(shape) => self.set_shape_to_child(id, shape),
            None => {},
        }
    }

    /// Handles a set-shape message: a message that could not be read is
    /// handed back as the error and changes nothing.
    pub fn set_shape_by_message(&mut self, id: usize, message: Result<WASMShape, DecodeError>) -> (r: Result<(), DecodeError>)
        requires
            old(self).wf(),
        ensures
            final(self).wf(),
            match message {
                Ok(m) => r is Ok && match shape_of(m.attr, css_rgba_of(color_text_of(m.attr))) {
                    Some(s) => edited_at(old(self).root(), final(self).root(), id, Edit::SetShape(s)),
                    None => *final(self) == *old(self),
                },
                Err(e) => r == Err::<(), DecodeError>(e) && *final(self) == *old(self),
            },
    {
        match message {
            Ok(m) => {
                self.set_shape_by_attr(id, m.attr);
                Ok(())
            },
            Err(e) => Err(e),
        }
    }
}

} // verus!
