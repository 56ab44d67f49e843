use vstd::prelude::*;

verus! {

/// A color as four 8-bit channels.
#[derive(Clone, Copy, Debug, PartialEq, Eq, Structural)]
pub struct Color {
    pub a: u8,
    pub r: u8,
    pub g: u8,
    pub b: u8,
}

impl Color {
    pub fn from_argb(a: u8, r: u8, g: u8, b: u8) -> (c: Color)
        ensures
            c == (Color { a, r, g, b }),
    {
        Color { a, r, g, b }
    }

    pub fn from_rgba(r: u8, g: u8, b: u8, a: u8) -> (c: Color)
        ensures
            c == (Color { a, r, g, b }),
    {
        Color { a, r, g, b }
    }

    pub fn a(&self) -> (v: u8)
        ensures
            v == self.a,
    {
        self.a
    }

    pub fn r(&self) -> (v: u8)
        ensures
            v == self.r,
    {
        self.r
    }

    pub fn g(&self) -> (v: u8)
        ensures
            v == self.g,
    {
        self.g
    }

    pub fn b(&self) -> (v: u8)
        ensures
            v == self.b,
    {
        self.b
    }
}

/// What cssparser reads from a color text: the red, green, blue and alpha
/// channels of its first color value, when that value is an RGBA color.
pub uninterp spec fn css_rgba_of(text: Seq<char>) -> Option<(u8, u8, u8, u8)>;

/// Relies on cssparser's `Color::parse`: it parses the first color value of
/// the text, and its result depends on the text alone.
#[verifier::external_body]
fn parse_css_rgba(text: &str) -> (r: Option<(u8, u8, u8, u8)>)
    ensures
        r == css_rgba_of(text@),
{
    let mut input = cssparser::ParserInput::new(text);
    let mut parser = cssparser::Parser::new(&mut input);
    match cssparser::Color::parse(&mut parser) {
        Ok(cssparser::Color::RGBA(c)) => Some((c.red, c.green, c.blue, c.alpha)),
        _ => None,
    }
}

/// Resolves a CSS color text to its red, green, blue and alpha channels;
/// `None` for a text that does not parse or is no RGBA color.
pub fn resolve_color(text: &str) -> (r: Option<(u8, u8, u8, u8)>)
    ensures
        r == css_rgba_of(text@),
{
    parse_css_rgba(text)
}

/// The color with the channels red, green, blue and alpha.
pub open spec fn color_from_channels(c: (u8, u8, u8, u8)) -> Color {
    Color { r: c.0, g: c.1, b: c.2, a: c.3 }
}

} // verus!
