//! Colors as 8-bit RGB values, parsed from CSS color strings by an
//! outside parser.

use vstd::prelude::*;
use crate::error::Error;

verus! {

/// An opaque 8-bit RGB color.
#[derive(Debug, Clone, Copy, PartialEq, Eq, Structural)]
pub struct Rgb {
    pub r: u8,
    pub g: u8,
    pub b: u8,
}

impl Rgb {
    pub fn new(r: u8, g: u8, b: u8) -> (c: Rgb)
        ensures
            c.r == r && c.g == g && c.b == b,
    {
        Rgb { r, g, b }
    }

    /// Pure black, the default text color.
    pub fn black() -> (c: Rgb)
        ensures
            c.r == 0 && c.g == 0 && c.b == 0,
    {
        Rgb { r: 0, g: 0, b: 0 }
    }

    /// Pure white, the default shape fill.
    pub fn white() -> (c: Rgb)
        ensures
            c.r == 255 && c.g == 255 && c.b == 255,
    {
        Rgb { r: 255, g: 255, b: 255 }
    }
}

/// What the CSS color parser makes of a string: `None` when the string
/// is not a color, otherwise its four 8-bit channels `(r, g, b, a)`.
/// The result depends on the string alone.
pub uninterp spec fn css_color_of(s: Seq<char>) -> Option<(u8, u8, u8, u8)>;

/// Relies on csscolorparser::parse, which reads a CSS color string and
/// depends on that string alone, and on csscolorparser::Color::to_rgba8,
/// which rounds each channel to 8 bits.
#[verifier::external_body]
fn parse_css_rgba(s: &String) -> (r: Option<(u8, u8, u8, u8)>)
    ensures
        r == css_color_of(s@),
{
    match csscolorparser::parse(s.as_str()) {
        Ok(color) => {
            let [r, g, b, a] = color.to_rgba8();
            Some((r, g, b, a))
        }
        Err(_) => None,
    }
}

/// Parses a CSS color string into an opaque RGB color, dropping the
/// alpha channel as the page writer's fill and stroke colors do.
/// Returns `Error::InvalidColor` exactly when the string is not a CSS
/// color.
pub fn parse_color(s: &String) -> (r: Result<Rgb, Error>)
    ensures
        r is Ok <==> css_color_of(s@) is Some,
        r is Ok ==> {
            let (cr, cg, cb, ca) = css_color_of(s@)->Some_0;
            r->Ok_0 == (Rgb { r: cr, g: cg, b: cb })
        },
        r is Err ==> r->Err_0 == Error::InvalidColor,
{
    match parse_css_rgba(s) {
        Some((cr, cg, cb, _ca)) => Ok(Rgb { r: cr, g: cg, b: cb }),
        None => Err(Error::InvalidColor),
    }
}

/// Parses an optional CSS color string: `None` stays `None`, a present
/// string must parse.
pub fn parse_optional_color(s: &Option<String>) -> (r: Result<Option<Rgb>, Error>)
    ensures
        r is Ok <==> (s is None || css_color_of(s->Some_0@) is Some),
        s is None ==> r == Result::<Option<Rgb>, Error>::Ok(Option::<Rgb>::None),
        (s is Some && r is Ok) ==> {
            let (cr, cg, cb, ca) = css_color_of(s->Some_0@)->Some_0;
            r->Ok_0 == Some(Rgb { r: cr, g: cg, b: cb })
        },
        r is Err ==> r->Err_0 == Error::InvalidColor,
{
    match s {
        Some(text) => {
            match parse_color(text) {
                Ok(c) => Ok(Some(c)),
                Err(e) => Err(e),
            }
        }
        None => Ok(None),
    }
}

} // verus!
