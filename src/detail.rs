use vstd::prelude::*;
use crate::codec::{coordify, HPixel};
use crate::color_set::ColorSet;
use crate::hex::{hex_u32, parse_hex};

verus! {

/// Where a color is drawn, and its name if the set holds it.
#[derive(Clone, Debug, PartialEq, Eq)]
pub struct Detail {
    pub color: HPixel,
    pub x: u32,
    pub y: u32,
    pub name: Option<String>,
}

/// The looked-up text is not a hexadecimal number of at most 32 bits.
#[derive(Clone, Debug, PartialEq, Eq)]
pub struct BadColor {
    pub text: String,
}

/// Decodes the hexadecimal color `color_text`, and reports the pixel at which
/// the renderers draw it and the name `set` gives it, if any.
pub fn detail(color_text: &str, set: &ColorSet) -> (r: Result<Detail, BadColor>)
    ensures
        match hex_u32(color_text@) {
            None => r matches Err(e) && e.text@ == color_text@,
            Some(n) => r matches Ok(d) && {
                let c = HPixel::of_packed(n as int);
                &&& d.color == c
                &&& (d.x, d.y) == c.coordinate()
                &&& match d.name {
                    Some(s) => set.has(c) && s@ == set@[c.packed() as u32],
                    None => !set.has(c),
                }
            },
        },
{
    match parse_hex(color_text) {
        None => Err(BadColor { text: color_text.to_owned() }),
        Some(packed) => {
            let color = HPixel::from_packed(packed);
            let (x, y) = coordify(color);
            let name = set.name_of(&color);
            Ok(Detail { color, x, y, name })
        },
    }
}

} // verus!
