use soft_skia_wasm::color::Color;
use soft_skia_wasm::tree::{IdAllocator, Node, Tree};

#[test]
fn test_tree() {
    let mut ids = IdAllocator::new();
    let mut tree = Tree::new();
    let root = Node::new(&mut ids);

    assert_eq!(root.id, 1);
    assert_eq!(root.get_children_len(), 0);

    tree.set_root(root);

    let node_0 = Node::new(&mut ids);
    let node_1 = Node::new(&mut ids);
    assert_eq!(node_0.id, 2);
    assert_eq!(node_1.id, 3);

    let root: &mut Node = tree.get_root().unwrap();
    assert_eq!(root.id, 1);
    assert_eq!(root.get_children_len(), 0);
    root.append(node_0);
    assert_eq!(root.get_children_len(), 1);
    root.append(node_1);
    assert_eq!(root.get_children_len(), 2);

    let node_2 = Node::new(&mut ids);
    assert_eq!(node_2.id, 4);

    let root: &mut Node = tree.get_root().unwrap();
    root.append(node_2);
    assert_eq!(root.get_children_len(), 3);

    let root_child_1 = root.get_child_by_index(1).unwrap();
    assert_eq!(root_child_1.id, 3);
    assert_eq!(root_child_1.get_height(), 0);
    root_child_1.set_height(200);
    assert_eq!(root_child_1.get_height(), 200);

    let id = root_child_1.id;
    root.remove_by_id(id);
    assert_eq!(root.get_children_len(), 2);

    root.remove_by_id(5);
    root.remove_by_id(5);
    root.remove_by_id(5);
    assert_eq!(root.get_children_len(), 2);

    let mut boxed_node_4 = Box::new(Node::new(&mut ids));
    assert_eq!(boxed_node_4.id, 5);
    assert_eq!(boxed_node_4.get_background_color().a(), 100);
    assert_eq!(boxed_node_4.get_background_color().r(), 0);
    assert_eq!(boxed_node_4.get_background_color().g(), 0);
    assert_eq!(boxed_node_4.get_background_color().b(), 0);

    boxed_node_4.set_background_color(Color::from_argb(99, 255, 255, 255));
    assert_eq!(boxed_node_4.get_background_color().a(), 99);
    assert_eq!(boxed_node_4.get_background_color().r(), 255);
    assert_eq!(boxed_node_4.get_background_color().g(), 255);
    assert_eq!(boxed_node_4.get_background_color().b(), 255);

    assert_eq!(boxed_node_4.get_width(), 0);
    boxed_node_4.set_width(100);
    assert_eq!(boxed_node_4.get_width(), 100);

    assert_eq!(boxed_node_4.get_height(), 0);
    boxed_node_4.set_height(50);
    assert_eq!(boxed_node_4.get_height(), 50);

    assert_eq!(boxed_node_4.id, 5);
    root.append_boxed(boxed_node_4);
    assert_eq!(root.get_children_len(), 3);

    let child_id_5 = root.find_node_by_id(5).unwrap();
    assert_eq!(child_id_5.id, 5);
    assert_eq!(child_id_5.get_width(), 100);

    assert_eq!(child_id_5.y.get(), 0);
    child_id_5.y.set(100);
    assert_eq!(child_id_5.y.get(), 100);
}

#[test]
fn ids_strictly_increase() {
    let mut ids = IdAllocator::new();
    let mut last = 0usize;
    for _ in 0..20 {
        let n = Node::new(&mut ids);
        assert!(n.id > last);
        last = n.id;
    }
    let mut other = IdAllocator::new();
    let a = Node::new(&mut other);
    let b = Node::new(&mut other);
    assert!(a.id < b.id);
}

#[test]
fn append_then_find_at_depth() {
    let mut ids = IdAllocator::new();
    let mut root = Node::new(&mut ids);
    let mut parent = Node::new(&mut ids);
    let grandchild = Node::new(&mut ids);
    let gid = grandchild.id;
    assert!(root.find_node_by_id(gid).is_none());
    parent.append(grandchild);
    root.append(Node::new(&mut ids));
    root.append(parent);
    let found = root.find_node_by_id(gid).unwrap();
    assert_eq!(found.id, gid);
    assert!(root.find_node_by_id(root.id).is_none());
    assert!(root.find_node_by_id(999).is_none());
}

#[test]
fn remove_twice_same_as_once() {
    let mut ids = IdAllocator::new();
    let mut root = Node::with_id(0);
    for _ in 0..4 {
        root.append(Node::new(&mut ids));
    }
    root.remove_by_id(2);
    let once: Vec<usize> = (0..root.get_children_len()).map(|i| root.get_child_by_index(i).unwrap().id).collect();
    assert_eq!(once, vec![1, 3, 4]);
    root.remove_by_id(2);
    let twice: Vec<usize> = (0..root.get_children_len()).map(|i| root.get_child_by_index(i).unwrap().id).collect();
    assert_eq!(once, twice);
}

#[test]
fn grandchild_id_is_not_touched_by_direct_operations() {
    let mut root = Node::with_id(1);
    let mut a = Node::with_id(2);
    a.append(Node::with_id(7));
    root.append(a);
    root.append(Node::with_id(3));

    root.remove_by_id(7);
    root.insert_before(7, Node::with_id(9));
    assert_eq!(root.get_children_len(), 2);
    assert_eq!(root.get_child_by_index(0).unwrap().id, 2);
    assert_eq!(root.get_child_by_index(1).unwrap().id, 3);
    assert_eq!(root.get_child_by_index(0).unwrap().get_children_len(), 1);
    assert!(root.find_node_by_id(9).is_none());
    assert_eq!(root.find_node_by_id(7).unwrap().id, 7);
}

#[test]
fn insert_before_puts_child_in_front_of_anchor() {
    let mut root = Node::with_id(1);
    root.append(Node::with_id(2));
    root.append(Node::with_id(3));
    root.insert_before(2, Node::with_id(4));
    let order: Vec<usize> = (0..root.get_children_len()).map(|i| root.get_child_by_index(i).unwrap().id).collect();
    assert_eq!(order, vec![4, 2, 3]);
    root.insert_before(3, Node::with_id(5));
    let order: Vec<usize> = (0..root.get_children_len()).map(|i| root.get_child_by_index(i).unwrap().id).collect();
    assert_eq!(order, vec![4, 2, 5, 3]);
}

#[test]
fn empty_tree_has_no_root() {
    let mut tree = Tree::new();
    assert!(tree.get_root().is_none());
    tree.set_root(Node::with_id(8));
    assert_eq!(tree.get_root().unwrap().id, 8);
    assert_eq!(tree.take_root().unwrap().id, 8);
    assert!(tree.get_root().is_none());
}

#[test]
fn new_node_is_blank() {
    let n = Node::with_id(42);
    assert_eq!(n.id, 42);
    assert_eq!(n.get_width(), 0);
    assert_eq!(n.get_height(), 0);
    assert_eq!(*n.get_background_color(), Color::from_argb(100, 0, 0, 0));
    assert!(n.shape.is_none());
    assert_eq!(n.get_children_len(), 0);
}
