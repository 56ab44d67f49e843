//! A retained scene graph of drawable shapes: nodes with unique ids, child
//! lists mutated by id, validation of untyped shape descriptions, and a
//! depth-first painting walk over the tree.

pub mod color;
pub mod edit;
pub mod render;
pub mod scene;
pub mod shape;
pub mod tree;
