use soft_skia_wasm::color::{resolve_color, Color};
use soft_skia_wasm::render::data_url;
use soft_skia_wasm::scene::{DecodeError, SoftSkiaWASM};
use soft_skia_wasm::shape::{
    build_shape, parse_style, shape_from_attr, PaintStyle, Shape, WASMCircleAttr, WASMLineAttr, WASMPointsAttr,
    WASMRectAttr, WASMRoundRectAttr, WASMShape, WASMShapesAttr,
};

fn rect_attr(x: u32, y: u32, width: u32, height: u32, color: &str, style: &str) -> WASMShapesAttr {
    WASMShapesAttr::R(WASMRectAttr { width, height, x, y, color: color.to_string(), style: style.to_string() })
}

fn circle_attr(cx: u32, cy: u32, r: u32, color: &str, style: &str) -> WASMShapesAttr {
    WASMShapesAttr::C(WASMCircleAttr { cx, cy, r, color: color.to_string(), style: style.to_string() })
}

fn shape_of_node(scene: &mut SoftSkiaWASM, id: usize) -> Option<&Shape> {
    let root = scene.tree.get_root().unwrap();
    if root.id == id {
        return root.shape.as_ref();
    }
    root.find_node_by_id(id).unwrap().shape.as_ref()
}

fn child_ids(scene: &mut SoftSkiaWASM, id: usize) -> Vec<usize> {
    let root = scene.tree.get_root().unwrap();
    let node = if root.id == id { &*root } else { root.find_node_by_id(id).unwrap() };
    node.node_vec.iter().map(|c| c.id).collect()
}

#[test]
fn rgba_text_resolves_to_channels() {
    assert_eq!(resolve_color("rgba(10, 20, 30, 255)"), Some((10, 20, 30, 255)));
    assert_eq!(resolve_color("not-a-color"), None);
    assert_eq!(resolve_color(""), None);
    assert_eq!(resolve_color("currentcolor"), None);
}

#[test]
fn unresolvable_color_leaves_shape_unchanged() {
    let mut scene = SoftSkiaWASM::new(0);
    scene.create_child_append_to_container(1, 0);
    scene.set_shape_by_attr(1, circle_attr(5, 5, 2, "rgba(1, 2, 3, 255)", "fill"));
    let before = Shape::Circle { cx: 5, cy: 5, r: 2, color: Color::from_rgba(1, 2, 3, 255), style: PaintStyle::Fill };
    assert_eq!(shape_of_node(&mut scene, 1), Some(&before));
    scene.set_shape_by_attr(1, rect_attr(0, 0, 10, 10, "not-a-color", "fill"));
    assert_eq!(shape_of_node(&mut scene, 1), Some(&before));
}

#[test]
fn unknown_style_defaults_to_stroke() {
    assert_eq!(parse_style(&"bogus".to_string()), PaintStyle::Stroke);
    assert_eq!(parse_style(&"stroke".to_string()), PaintStyle::Stroke);
    assert_eq!(parse_style(&"fill".to_string()), PaintStyle::Fill);
    assert_eq!(parse_style(&"".to_string()), PaintStyle::Stroke);
    let mut scene = SoftSkiaWASM::new(0);
    scene.set_shape_by_attr(0, rect_attr(1, 2, 3, 4, "rgba(0, 0, 0, 255)", "bogus"));
    let expected = Shape::Rect { x: 1, y: 2, width: 3, height: 4, color: Color::from_rgba(0, 0, 0, 255), style: PaintStyle::Stroke };
    assert_eq!(shape_of_node(&mut scene, 0), Some(&expected));
}

#[test]
fn end_to_end_render() {
    let mut scene = SoftSkiaWASM::new(0);
    scene.set_shape_by_attr(0, rect_attr(0, 0, 100, 100, "rgba(0,0,0,255)", "fill"));
    scene.create_child_append_to_container(1, 0);
    scene.set_shape_by_attr(1, circle_attr(50, 50, 10, "rgba(255,0,0,255)", "fill"));
    assert_eq!(scene.canvas_size(), (100, 100));
    let surface = scene.rasterize().unwrap();
    assert_eq!(surface.width, 100);
    assert_eq!(surface.height, 100);
    assert_eq!(surface.data.len(), 4 * 100 * 100);
    let center = 4 * (50 * 100 + 50);
    assert_ne!(surface.data[center..center + 4], surface.data[0..4]);
    assert_eq!(surface.data[center..center + 4], [255, 0, 0, 255]);
    assert_eq!(surface.data[0..4], [0, 0, 0, 255]);
    let url = scene.to_base64().unwrap();
    assert!(url.starts_with("data:image/png;base64,"));
    assert!(url.len() > "data:image/png;base64,".len());
    assert_eq!(scene.to_base64().unwrap(), url);
}

#[test]
fn insert_before_scenario() {
    let mut scene = SoftSkiaWASM::new(1);
    scene.create_child_append_to_container(2, 1);
    scene.create_child_append_to_container(3, 1);
    scene.create_child_insert_before_element_of_container(4, 2, 1);
    assert_eq!(child_ids(&mut scene, 1), vec![4, 2, 3]);
}

#[test]
fn malformed_message_keeps_shape() {
    let mut scene = SoftSkiaWASM::new(0);
    scene.create_child_append_to_container(1, 0);
    scene.set_shape_by_attr(1, circle_attr(5, 5, 2, "rgba(1, 2, 3, 255)", "stroke"));
    let r = scene.set_shape_by_message(1, Err(DecodeError { message: "unknown variant `X`".to_string() }));
    assert_eq!(r.unwrap_err().message, "unknown variant `X`");
    let expected = Shape::Circle { cx: 5, cy: 5, r: 2, color: Color::from_rgba(1, 2, 3, 255), style: PaintStyle::Stroke };
    assert_eq!(shape_of_node(&mut scene, 1), Some(&expected));
    let ok = scene.set_shape_by_message(1, Ok(WASMShape { attr: circle_attr(6, 6, 3, "rgba(1, 2, 3, 255)", "fill") }));
    assert!(ok.is_ok());
    let expected = Shape::Circle { cx: 6, cy: 6, r: 3, color: Color::from_rgba(1, 2, 3, 255), style: PaintStyle::Fill };
    assert_eq!(shape_of_node(&mut scene, 1), Some(&expected));
}

#[test]
fn commands_on_missing_nodes_do_nothing() {
    let mut scene = SoftSkiaWASM::new(0);
    scene.create_child_append_to_container(1, 0);
    scene.create_child_append_to_container(2, 1);
    scene.create_child_append_to_container(3, 99);
    scene.create_child_insert_before_element_of_container(4, 77, 0);
    scene.remove_child_from_container(2, 0);
    scene.remove_child_from_container(1, 99);
    assert_eq!(child_ids(&mut scene, 0), vec![1]);
    assert_eq!(child_ids(&mut scene, 1), vec![2]);
    scene.remove_child_from_container(2, 1);
    assert_eq!(child_ids(&mut scene, 1), Vec::<usize>::new());
    scene.remove_child_from_container(1, 0);
    assert_eq!(child_ids(&mut scene, 0), Vec::<usize>::new());
}

#[test]
fn paint_order_is_preorder() {
    let mut scene = SoftSkiaWASM::new(0);
    scene.create_child_append_to_container(1, 0);
    scene.create_child_append_to_container(2, 0);
    scene.create_child_append_to_container(3, 1);
    scene.set_shape_by_attr(2, circle_attr(2, 2, 2, "rgba(0,0,0,255)", "fill"));
    scene.set_shape_by_attr(3, circle_attr(3, 3, 3, "rgba(0,0,0,255)", "fill"));
    scene.set_shape_by_attr(1, circle_attr(1, 1, 1, "rgba(0,0,0,255)", "fill"));
    scene.set_shape_by_attr(0, rect_attr(0, 0, 9, 9, "rgba(0,0,0,255)", "fill"));
    let radii: Vec<u32> = scene
        .shapes_in_paint_order()
        .iter()
        .map(|s| match s {
            Shape::Circle { r, .. } => *r,
            _ => 0,
        })
        .collect();
    assert_eq!(radii, vec![0, 1, 3, 2]);
}

#[test]
fn degenerate_canvas_gives_no_image() {
    let mut scene = SoftSkiaWASM::new(0);
    assert_eq!(scene.canvas_size(), (0, 0));
    let empty = scene.rasterize().unwrap();
    assert_eq!((empty.width, empty.height, empty.data.len()), (0, 0, 0));
    assert!(scene.to_base64().is_none());
    scene.set_shape_by_attr(0, circle_attr(5, 5, 5, "rgba(0,0,0,255)", "fill"));
    assert_eq!(scene.canvas_size(), (0, 0));
    scene.set_shape_by_attr(0, rect_attr(0, 0, 0, 10, "rgba(0,0,0,255)", "fill"));
    let flat = scene.rasterize().unwrap();
    assert_eq!((flat.width, flat.height, flat.data.len()), (0, 10, 0));
    assert!(scene.to_base64().is_none());
    scene.set_shape_by_attr(0, rect_attr(0, 0, u32::MAX, u32::MAX, "rgba(0,0,0,255)", "fill"));
    assert!(scene.rasterize().is_none());
}

#[test]
fn every_shape_kind_paints() {
    let mut scene = SoftSkiaWASM::new(0);
    scene.set_shape_by_attr(0, rect_attr(0, 0, 20, 20, "rgba(0,0,0,255)", "stroke"));
    for id in 1..6 {
        scene.create_child_append_to_container(id, 0);
    }
    scene.set_shape_by_attr(1, circle_attr(5, 5, 3, "rgba(9,9,9,255)", "stroke"));
    scene.set_shape_by_attr(2, WASMShapesAttr::RR(WASMRoundRectAttr {
        width: 10, height: 10, r: 2, x: 1, y: 1, color: "rgba(1,1,1,255)".to_string(), style: "fill".to_string(),
    }));
    scene.set_shape_by_attr(3, WASMShapesAttr::L(WASMLineAttr {
        p1: [0, 0], p2: [19, 19], color: "rgba(2,2,2,255)".to_string(), stroke_width: 2,
    }));
    scene.set_shape_by_attr(4, WASMShapesAttr::P(WASMPointsAttr {
        points: vec![[1, 1], [5, 9], [9, 1]], color: "rgba(3,3,3,255)".to_string(), stroke_width: 1, style: "fill".to_string(),
    }));
    scene.set_shape_by_attr(5, WASMShapesAttr::P(WASMPointsAttr {
        points: vec![], color: "rgba(3,3,3,255)".to_string(), stroke_width: 1, style: "fill".to_string(),
    }));
    scene.set_shape_by_attr(1, rect_attr(u32::MAX, 0, 5, 5, "rgba(0,0,0,255)", "fill"));
    assert_eq!(scene.shapes_in_paint_order().len(), 6);
    assert_eq!(scene.shapes_to_paint().len(), 4);
    assert!(scene.rasterize().is_some());
}

#[test]
fn build_shape_uses_given_channels() {
    let attr = WASMShapesAttr::L(WASMLineAttr { p1: [1, 2], p2: [3, 4], color: "ignored".to_string(), stroke_width: 7 });
    let s = build_shape(attr, Some((10, 20, 30, 40))).unwrap();
    assert_eq!(s, Shape::Line { p1: [1, 2], p2: [3, 4], color: Color::from_rgba(10, 20, 30, 40), stroke_width: 7 });
    assert!(build_shape(circle_attr(1, 1, 1, "x", "fill"), None).is_none());
    let from_text = shape_from_attr(circle_attr(1, 2, 3, "rgba(4, 5, 6, 255)", "fill")).unwrap();
    assert_eq!(from_text, Shape::Circle { cx: 1, cy: 2, r: 3, color: Color::from_argb(255, 4, 5, 6), style: PaintStyle::Fill });
}

#[test]
fn data_url_encodes_bytes() {
    assert_eq!(data_url(&vec![1, 2, 3]), "data:image/png;base64,AQID");
    assert_eq!(data_url(&vec![]), "data:image/png;base64,");
    assert_eq!(data_url(&b"hi".to_vec()), "data:image/png;base64,aGk=");
}
