use vstd::prelude::*;
use vstd::string::StringExecFns;
use soft_skia::shape::{ColorU8, DrawContext, Pixmap};
use crate::color::Color;
use crate::scene::SoftSkiaWASM;
use crate::shape::{PaintStyle, Shape};
use crate::tree::Node;

verus! {

/// The shape of `n` alone, as a sequence of zero or one.
pub open spec fn own_shape(n: Node) -> Seq<Shape> {
    match n.shape {
        Some(s) => seq![s],
        None => Seq::empty(),
    }
}

/// The shapes of the descendants reached through the children from index
/// `i` on, in painting order: pre-order, each child before its subtree,
/// children in order; nodes without a shape add nothing.
pub open spec fn paint_order_from(n: Node, i: int) -> Seq<Shape>
    decreases n, n.node_vec@.len() - i,
{
    if 0 <= i < n.node_vec@.len() {
        let c = *n.node_vec@[i];
        own_shape(c) + paint_order_from(c, 0) + paint_order_from(n, i + 1)
    } else {
        Seq::empty()
    }
}

/// The shapes below `n` in painting order, without the shape of `n` itself.
pub open spec fn paint_order(n: Node) -> Seq<Shape> {
    paint_order_from(n, 0)
}

/// The shapes of a scene whose root is `root`, in painting order: the
/// root's own shape first, then those below it.
pub open spec fn scene_paint_order(root: Node) -> Seq<Shape> {
    own_shape(root) + paint_order(root)
}

/// The canvas of a scene whose root is `root`: the size of its rectangle,
/// and zero by zero for any other root.
pub open spec fn canvas_of(root: Node) -> (u32, u32) {
    match root.shape {
        Some(Shape::Rect { width, height, .. }) => (width, height),
        _ => (0, 0),
    }
}

/// Whether the painter takes the shape: its coordinates stay within `u32`
/// and a point sequence is not empty.
pub open spec fn paintable(s: Shape) -> bool {
    match s {
        Shape::Rect { x, y, width, height, .. } => x + width <= u32::MAX && y + height <= u32::MAX,
        Shape::Circle { .. } => true,
        Shape::RoundRect { x, y, width, height, r, .. } => {
            &&& x + width <= u32::MAX
            &&& y + height <= u32::MAX
            &&& x + r <= u32::MAX
            &&& y + r <= u32::MAX
            &&& r <= x + width
            &&& r <= y + height
        },
        Shape::Line { .. } => true,
        Shape::Points { points, .. } => points@.len() > 0,
    }
}

/// The text of the data URL that carries PNG bytes `png`.
pub open spec fn data_url_of(png: Seq<u8>) -> Seq<char> {
    "data:image/png;base64,"@ + base64_of(png)
}

/// What the base64 crate's standard engine makes of the bytes `b`.
pub uninterp spec fn base64_of(b: Seq<u8>) -> Seq<char>;

/// Whether tiny-skia makes a pixmap of this size: neither side is zero, a
/// row of four-byte pixels fits in an `i32`, and all pixels fit in memory.
pub open spec fn pixmap_size_ok(width: u32, height: u32) -> bool {
    &&& 0 < width
    &&& 0 < height
    &&& surface_fits(width, height)
}

/// Whether a surface of this size can be held: a row of four-byte pixels
/// fits in an `i32`, and all pixels fit in memory.
pub open spec fn surface_fits(width: u32, height: u32) -> bool {
    &&& 4 * width <= i32::MAX
    &&& 4 * (width as int) * (height as int) <= usize::MAX
}

/// A raster surface: `width` by `height` pixels of four premultiplied RGBA
/// bytes each, row by row.
pub struct Surface {
    pub width: u32,
    pub height: u32,
    pub data: Vec<u8>,
}

impl Surface {
    pub open spec fn wf(&self) -> bool {
        &&& surface_fits(self.width, self.height)
        &&& self.data@.len() == 4 * (self.width as int) * (self.height as int)
    }
}

/// The pixels of a fresh surface: every byte zero, that is transparent.
pub open spec fn blank(width: u32, height: u32) -> Seq<u8> {
    Seq::new((4 * (width as int) * (height as int)) as nat, |i: int| 0u8)
}

/// What soft_skia's rectangle drawing makes of the pixels `data` of a
/// `sw` by `sh` surface.
pub uninterp spec fn rect_painted(
    data: Seq<u8>, sw: u32, sh: u32, x: u32, y: u32, width: u32, height: u32,
    r: u8, g: u8, b: u8, a: u8, fill: bool,
) -> Seq<u8>;

/// What soft_skia's circle drawing makes of the pixels of a surface.
pub uninterp spec fn circle_painted(
    data: Seq<u8>, sw: u32, sh: u32, cx: u32, cy: u32, radius: u32, r: u8, g: u8, b: u8, a: u8, fill: bool,
) -> Seq<u8>;

/// What soft_skia's rounded-rectangle drawing makes of the pixels of a surface.
pub uninterp spec fn round_rect_painted(
    data: Seq<u8>, sw: u32, sh: u32, x: u32, y: u32, width: u32, height: u32, radius: u32,
    r: u8, g: u8, b: u8, a: u8, fill: bool,
) -> Seq<u8>;

/// What soft_skia's line drawing makes of the pixels of a surface.
pub uninterp spec fn line_painted(
    data: Seq<u8>, sw: u32, sh: u32, p1: [u32; 2], p2: [u32; 2], r: u8, g: u8, b: u8, a: u8, stroke_width: u32,
) -> Seq<u8>;

/// What soft_skia's point-sequence drawing makes of the pixels of a surface.
pub uninterp spec fn points_painted(
    data: Seq<u8>, sw: u32, sh: u32, points: Seq<[u32; 2]>, r: u8, g: u8, b: u8, a: u8, stroke_width: u32,
    fill: bool,
) -> Seq<u8>;

/// What tiny-skia's PNG encoder makes of the pixels of a surface.
pub uninterp spec fn png_of(width: u32, height: u32, data: Seq<u8>) -> Seq<u8>;

/// The pixels after one shape is painted over `data`.
pub open spec fn paint_one(data: Seq<u8>, w: u32, h: u32, s: Shape) -> Seq<u8> {
    match s {
        Shape::Rect { x, y, width, height, color: c, style } =>
            rect_painted(data, w, h, x, y, width, height, c.r, c.g, c.b, c.a, style == PaintStyle::Fill),
        Shape::Circle { cx, cy, r, color: c, style } =>
            circle_painted(data, w, h, cx, cy, r, c.r, c.g, c.b, c.a, style == PaintStyle::Fill),
        Shape::RoundRect { x, y, width, height, r, color: c, style } =>
            round_rect_painted(data, w, h, x, y, width, height, r, c.r, c.g, c.b, c.a, style == PaintStyle::Fill),
        Shape::Line { p1, p2, color: c, stroke_width } =>
            line_painted(data, w, h, p1, p2, c.r, c.g, c.b, c.a, stroke_width),
        Shape::Points { points, color: c, stroke_width, style } =>
            points_painted(data, w, h, points@, c.r, c.g, c.b, c.a, stroke_width, style == PaintStyle::Fill),
    }
}

/// The pixels after `shapes` are painted over `data`, first to last, each
/// over the ones before.
pub open spec fn painted(data: Seq<u8>, w: u32, h: u32, shapes: Seq<Shape>) -> Seq<u8>
    decreases shapes.len(),
{
    if shapes.len() == 0 {
        data
    } else {
        paint_one(painted(data, w, h, shapes.drop_last()), w, h, shapes.last())
    }
}

/// Relies on tiny-skia's `Pixmap::new` (re-exported by soft_skia): it gives a
/// pixmap exactly when the size is non-zero and its row and data lengths
/// fit, with every byte zero.
#[verifier::external_body]
fn new_pixels(width: u32, height: u32) -> (r: Option<Vec<u8>>)
    ensures
        r is Some <==> pixmap_size_ok(width, height),
        r is Some ==> r->Some_0@ == blank(width, height),
{
    match Pixmap::new(width, height) {
        Some(p) => Some(p.take()),
        None => None,
    }
}

/// Relies on tiny-skia's `Pixmap` and its `encode_png`: no pixmap, and so no
/// PNG, is made of a surface with a zero side; any other surface is written
/// as an 8-bit RGBA PNG into a `Vec`, which does not fail. As for every `Vec`
/// of bytes, its length stays within `isize::MAX`.
#[verifier::external_body]
fn encode_png(s: &Surface) -> (r: Option<Vec<u8>>)
    requires
        s.wf(),
    ensures
        r is Some <==> pixmap_size_ok(s.width, s.height),
        r is Some ==> r->Some_0@ == png_of(s.width, s.height, s.data@),
        r is Some ==> r->Some_0@.len() <= isize::MAX,
{
    match Pixmap::new(s.width, s.height) {
        Some(mut p) => {
            p.data_mut().copy_from_slice(&s.data);
            p.encode_png().ok()
        },
        None => None,
    }
}

/// Relies on base64's `encode` with the standard alphabet and padding: four
/// characters for each started group of three bytes. It panics only when
/// that length overflows `usize`, which a length up to `isize::MAX` rules out.
#[verifier::external_body]
fn base64_encode(data: &Vec<u8>) -> (r: String)
    requires
        data@.len() <= isize::MAX,
    ensures
        r@ == base64_of(data@),
        r@.len() == 4 * ((data@.len() + 2) / 3),
{
    base64::encode(data)
}

/// Relies on soft_skia's drawing of a `Rect`, which adds the two corners'
/// coordinates.
#[verifier::external_body]
fn paint_rect(s: &mut Surface, x: u32, y: u32, width: u32, height: u32, c: Color, style: PaintStyle)
    requires
        old(s).wf(),
        pixmap_size_ok(old(s).width, old(s).height),
        x + width <= u32::MAX,
        y + height <= u32::MAX,
    ensures
        final(s).width == old(s).width && final(s).height == old(s).height,
        final(s).data@ == rect_painted(old(s).data@, old(s).width, old(s).height, x, y, width, height,
            c.r, c.g, c.b, c.a, style == PaintStyle::Fill),
        final(s).data@.len() == old(s).data@.len(),
{
    let mut p = Pixmap::new(s.width, s.height).unwrap();
    p.data_mut().copy_from_slice(&s.data);
    let color = Some(ColorU8::from_rgba(c.r, c.g, c.b, c.a));
    let style = Some(match style {
        PaintStyle::Stroke => soft_skia::shape::PaintStyle::Stroke,
        PaintStyle::Fill => soft_skia::shape::PaintStyle::Fill,
    });
    let shape = soft_skia::shape::Rect { x, y, width, height, color, style };
    soft_skia::shape::Shape::draw(&shape, &mut p, &DrawContext::default());
    s.data = p.take();
}

/// Relies on soft_skia's drawing of a `Circle`.
#[verifier::external_body]
fn paint_circle(s: &mut Surface, cx: u32, cy: u32, r: u32, c: Color, style: PaintStyle)
    requires
        old(s).wf(),
        pixmap_size_ok(old(s).width, old(s).height),
    ensures
        final(s).width == old(s).width && final(s).height == old(s).height,
        final(s).data@ == circle_painted(old(s).data@, old(s).width, old(s).height, cx, cy, r,
            c.r, c.g, c.b, c.a, style == PaintStyle::Fill),
        final(s).data@.len() == old(s).data@.len(),
{
    let mut p = Pixmap::new(s.width, s.height).unwrap();
    p.data_mut().copy_from_slice(&s.data);
    let color = Some(ColorU8::from_rgba(c.r, c.g, c.b, c.a));
    let style = Some(match style {
        PaintStyle::Stroke => soft_skia::shape::PaintStyle::Stroke,
        PaintStyle::Fill => soft_skia::shape::PaintStyle::Fill,
    });
    let shape = soft_skia::shape::Circle { cx, cy, r, color, style };
    soft_skia::shape::Shape::draw(&shape, &mut p, &DrawContext::default());
    s.data = p.take();
}

/// Relies on soft_skia's drawing of a `RoundRect`, which adds and subtracts
/// the radius at each corner.
#[verifier::external_body]
fn paint_round_rect(s: &mut Surface, x: u32, y: u32, width: u32, height: u32, r: u32, c: Color, style: PaintStyle)
    requires
        old(s).wf(),
        pixmap_size_ok(old(s).width, old(s).height),
        x + width <= u32::MAX,
        y + height <= u32::MAX,
        x + r <= u32::MAX,
        y + r <= u32::MAX,
        r <= x + width,
        r <= y + height,
    ensures
        final(s).width == old(s).width && final(s).height == old(s).height,
        final(s).data@ == round_rect_painted(old(s).data@, old(s).width, old(s).height, x, y, width, height, r,
            c.r, c.g, c.b, c.a, style == PaintStyle::Fill),
        final(s).data@.len() == old(s).data@.len(),
{
    let mut p = Pixmap::new(s.width, s.height).unwrap();
    p.data_mut().copy_from_slice(&s.data);
    let color = Some(ColorU8::from_rgba(c.r, c.g, c.b, c.a));
    let style = Some(match style {
        PaintStyle::Stroke => soft_skia::shape::PaintStyle::Stroke,
        PaintStyle::Fill => soft_skia::shape::PaintStyle::Fill,
    });
    let shape = soft_skia::shape::RoundRect { x, y, width, height, r, color, style };
    soft_skia::shape::Shape::draw(&shape, &mut p, &DrawContext::default());
    s.data = p.take();
}

/// Relies on soft_skia's drawing of a `Line`.
#[verifier::external_body]
fn paint_line(s: &mut Surface, p1: [u32; 2], p2: [u32; 2], c: Color, stroke_width: u32)
    requires
        old(s).wf(),
        pixmap_size_ok(old(s).width, old(s).height),
    ensures
        final(s).width == old(s).width && final(s).height == old(s).height,
        final(s).data@ == line_painted(old(s).data@, old(s).width, old(s).height, p1, p2,
            c.r, c.g, c.b, c.a, stroke_width),
        final(s).data@.len() == old(s).data@.len(),
{
    let mut p = Pixmap::new(s.width, s.height).unwrap();
    p.data_mut().copy_from_slice(&s.data);
    let color = Some(ColorU8::from_rgba(c.r, c.g, c.b, c.a));
    let shape = soft_skia::shape::Line { p1, p2, color, stroke_width: Some(stroke_width) };
    soft_skia::shape::Shape::draw(&shape, &mut p, &DrawContext::default());
    s.data = p.take();
}

/// Relies on soft_skia's drawing of `Points`, which reads the first point.
#[verifier::external_body]
fn paint_points(s: &mut Surface, points: &Vec<[u32; 2]>, c: Color, stroke_width: u32, style: PaintStyle)
    requires
        old(s).wf(),
        pixmap_size_ok(old(s).width, old(s).height),
        points@.len() > 0,
    ensures
        final(s).width == old(s).width && final(s).height == old(s).height,
        final(s).data@ == points_painted(old(s).data@, old(s).width, old(s).height, points@,
            c.r, c.g, c.b, c.a, stroke_width, style == PaintStyle::Fill),
        final(s).data@.len() == old(s).data@.len(),
{
    let mut p = Pixmap::new(s.width, s.height).unwrap();
    p.data_mut().copy_from_slice(&s.data);
    let color = Some(ColorU8::from_rgba(c.r, c.g, c.b, c.a));
    let style = Some(match style {
        PaintStyle::Stroke => soft_skia::shape::PaintStyle::Stroke,
        PaintStyle::Fill => soft_skia::shape::PaintStyle::Fill,
    });
    let shape = soft_skia::shape::Points { points: points.clone(), color, stroke_width: Some(stroke_width), style };
    soft_skia::shape::Shape::draw(&shape, &mut p, &DrawContext::default());
    s.data = p.take();
}

/// Whether the painter takes the shape.
pub fn is_paintable(s: &Shape) -> (r: bool)
    ensures
        r == paintable(*s),
{
    match s {
        Shape::Rect { x, y, width, height, .. } => *x <= u32::MAX - *width && *y <= u32::MAX - *height,
        Shape::Circle { .. } => true,
        Shape::RoundRect { x, y, width, height, r, .. } => {
            *x <= u32::MAX - *width && *y <= u32::MAX - *height && *x <= u32::MAX - *r && *y <= u32::MAX - *r
                && *r <= *x + *width && *r <= *y + *height
        },
        Shape::Line { .. } => true,
        Shape::Points { points, .. } => points.len() > 0,
    }
}

/// Paints one shape onto the surface.
pub fn paint_shape(surface: &mut Surface, s: &Shape)
    requires
        old(surface).wf(),
        pixmap_size_ok(old(surface).width, old(surface).height),
        paintable(*s),
    ensures
        final(surface).wf(),
        final(surface).width == old(surface).width && final(surface).height == old(surface).height,
        final(surface).data@ == paint_one(old(surface).data@, old(surface).width, old(surface).height, *s),
{
    match s {
        Shape::Rect { x, y, width, height, color, style } => paint_rect(surface, *x, *y, *width, *height, *color, *style),
        Shape::Circle { cx, cy, r, color, style } => paint_circle(surface, *cx, *cy, *r, *color, *style),
        Shape::RoundRect { x, y, width, height, r, color, style } => {
            paint_round_rect(surface, *x, *y, *width, *height, *r, *color, *style)
        },
        Shape::Line { p1, p2, color, stroke_width } => paint_line(surface, *p1, *p2, *color, *stroke_width),
        Shape::Points { points, color, stroke_width, style } => {
            paint_points(surface, points, *color, *stroke_width, *style)
        },
    }
}

/// The shapes that a list of shape references points to.
pub open spec fn derefs(s: Seq<&Shape>) -> Seq<Shape> {
    s.map_values(|r: &Shape| *r)
}

/// Appends the shapes below `n` in painting order.
fn collect_shapes<'a>(n: &'a Node, out: &mut Vec<&'a Shape>)
    ensures
        derefs(final(out)@) == derefs(old(out)@) + paint_order(*n),
    decreases n,
{
    let mut i: usize = 0;
    while i < n.node_vec.len()
        invariant
            i <= n.node_vec@.len(),
            derefs(out@) + paint_order_from(*n, i as int) == derefs(old(out)@) + paint_order(*n),
        decreases n.node_vec@.len() - i,
    {
        let c: &Node = &n.node_vec[i];
        let ghost before = derefs(out@);
        let ghost own = own_shape(*c);
        match &c.shape {
            Some(s) => {
                out.push(s);
                assert(derefs(out@) =~= before + own);
            },
            None => {
                assert(derefs(out@) =~= before + own);
            },
        }
        collect_shapes(c, out);
        proof {
            assert(paint_order_from(*n, i as int) == own + paint_order(*c) + paint_order_from(*n, i + 1));
            assert(derefs(out@) + paint_order_from(*n, i + 1) =~= before + paint_order_from(*n, i as int));
        }
        i = i + 1;
    }
    proof {
        assert(derefs(out@) =~= derefs(out@) + paint_order_from(*n, i as int));
    }
}

/// The data URL that carries the PNG bytes `png`.
pub fn data_url(png: &Vec<u8>) -> (r: String)
    requires
        png@.len() <= isize::MAX,
    ensures
        r@ == data_url_of(png@),
{
    let prefix = String::from_str("data:image/png;base64,");
    let payload = base64_encode(png);
    prefix.concat(payload.as_str())
}

impl SoftSkiaWASM {
    /// The shapes of the scene in painting order: the root's own shape
    /// first, then the shapes below it in pre-order.
    pub fn shapes_in_paint_order(&self) -> (r: Vec<&Shape>)
        requires
            self.wf(),
        ensures
            derefs(r@) == scene_paint_order(self.root()),
    {
        let mut out: Vec<&Shape> = Vec::new();
        let root = self.tree.root_ref();
        match &root.shape {
            Some(s) => out.push(s),
            None => {},
        }
        proof {
            assert(derefs(out@) =~= own_shape(self.root()));
        }
        collect_shapes(root, &mut out);
        proof {
            assert(derefs(out@) =~= scene_paint_order(self.root()));
        }
        out
    }

    /// The shapes that `rasterize` paints, in order: those of
    /// `shapes_in_paint_order` that are `paintable`.
    pub fn shapes_to_paint(&self) -> (r: Vec<&Shape>)
        requires
            self.wf(),
        ensures
            derefs(r@) == scene_paint_order(self.root()).filter(|s: Shape| paintable(s)),
    {
        let all = self.shapes_in_paint_order();
        let ghost pred = |s: Shape| paintable(s);
        let ghost whole = derefs(all@);
        let mut out: Vec<&Shape> = Vec::new();
        let mut i: usize = 0;
        while i < all.len()
            invariant
                i <= all@.len(),
                whole == derefs(all@),
                whole == scene_paint_order(self.root()),
                pred == (|s: Shape| paintable(s)),
                derefs(out@) == whole.subrange(0, i as int).filter(pred),
            decreases all@.len() - i,
        {
            proof {
                assert(whole.subrange(0, i as int + 1) =~= whole.subrange(0, i as int).push(whole[i as int]));
                whole.subrange(0, i as int).lemma_filter_push(whole[i as int], pred);
            }
            if is_paintable(all[i]) {
                out.push(all[i]);
            }
            assert(derefs(out@) =~= whole.subrange(0, i as int + 1).filter(pred));
            i = i + 1;
        }
        proof {
            assert(whole.subrange(0, i as int) =~= whole);
        }
        out
    }

    /// The canvas size: that of the root's rectangle, else zero by zero.
    pub fn canvas_size(&self) -> (r: (u32, u32))
        requires
            self.wf(),
        ensures
            r == canvas_of(self.root()),
    {
        match &self.tree.root_ref().shape {
            Some(Shape::Rect { width, height, .. }) => (*width, *height),
            _ => (0, 0),
        }
    }

    /// Paints the scene onto a blank surface of `canvas_size`, one shape of
    /// `shapes_to_paint` after the other, each over the ones before. A
    /// canvas with a zero side gives an empty surface with nothing painted
    /// on it. `None` only when the canvas is too large to be held in memory.
    /// Shapes that are not `paintable` (coordinates past `u32`, an empty
    /// point list) are left out.
    pub fn rasterize(&self) -> (r: Option<Surface>)
        requires
            self.wf(),
        ensures
            r is Some <==> surface_fits(canvas_of(self.root()).0, canvas_of(self.root()).1),
            r is Some ==> r->Some_0.wf() && r->Some_0.width == canvas_of(self.root()).0
                && r->Some_0.height == canvas_of(self.root()).1
                && r->Some_0.data@ == self.painted_pixels(),
    {
        let (width, height) = self.canvas_size();
        if width > 536870911 {
            return None;
        }
        proof {
            assert((width as int) * 4 * (height as int) <= 536870911 * 4 * 4294967295) by (nonlinear_arith)
                requires
                    width <= 536870911,
            ;
            assert(4 * (width as int) * (height as int) == (width as int) * 4 * (height as int)) by (nonlinear_arith);
        }
        if (width as u128) * 4 * (height as u128) > usize::MAX as u128 {
            return None;
        }
        if width == 0 || height == 0 {
            proof {
                assert(4 * (width as int) * (height as int) == 0) by (nonlinear_arith)
                    requires
                        width == 0 || height == 0,
                ;
                assert(blank(width, height) =~= Seq::<u8>::empty());
            }
            return Some(Surface { width, height, data: Vec::new() });
        }
        let data = new_pixels(width, height).unwrap();
        let mut surface = Surface { width, height, data };
        let shapes = self.shapes_to_paint();
        let ghost list = derefs(shapes@);
        proof {
            let order = scene_paint_order(self.root());
            assert forall|k: int| 0 <= k < shapes@.len() implies paintable(*#[trigger] shapes@[k]) by {
                order.lemma_filter_pred(|s: Shape| paintable(s), k);
                assert(derefs(shapes@)[k] == *shapes@[k]);
            }
            assert(list.subrange(0, 0) =~= Seq::<Shape>::empty());
        }
        let mut i: usize = 0;
        while i < shapes.len()
            invariant
                i <= shapes@.len(),
                list == derefs(shapes@),
                forall|k: int| 0 <= k < shapes@.len() ==> paintable(*#[trigger] shapes@[k]),
                surface.wf(),
                pixmap_size_ok(width, height),
                surface.width == width && surface.height == height,
                surface.data@ == painted(blank(width, height), width, height, list.subrange(0, i as int)),
            decreases shapes@.len() - i,
        {
            paint_shape(&mut surface, shapes[i]);
            proof {
                assert(list.subrange(0, i as int + 1).drop_last() =~= list.subrange(0, i as int));
                assert(list[i as int] == *shapes@[i as int]);
            }
            i = i + 1;
        }
        proof {
            assert(list.subrange(0, i as int) =~= list);
        }
        Some(surface)
    }

    /// The pixels of the painted scene: the shapes of `shapes_to_paint`
    /// painted in order over a blank canvas of `canvas_size`; a canvas with
    /// a zero side has no pixels to paint.
    pub open spec fn painted_pixels(&self) -> Seq<u8> {
        let (w, h) = canvas_of(self.root());
        if pixmap_size_ok(w, h) {
            painted(blank(w, h), w, h, scene_paint_order(self.root()).filter(|s: Shape| paintable(s)))
        } else {
            blank(w, h)
        }
    }

    /// The painted scene as a PNG data URL. `None` exactly when the PNG
    /// encoder takes no surface of the canvas size: a zero side, or a canvas
    /// too large to hold.
    pub fn to_base64(&self) -> (r: Option<String>)
        requires
            self.wf(),
        ensures
            r is Some <==> pixmap_size_ok(canvas_of(self.root()).0, canvas_of(self.root()).1),
            r is Some ==> r->Some_0@ == data_url_of(
                png_of(canvas_of(self.root()).0, canvas_of(self.root()).1, self.painted_pixels()),
            ),
    {
        let surface = match self.rasterize() {
            Some(s) => s,
            None => {
                return None;
            },
        };
        match encode_png(&surface) {
            Some(png) => Some(data_url(&png)),
            None => None,
        }
    }
}

} // verus!
