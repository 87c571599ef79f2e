//! The color palette (a subset of Tailwind's) and which color each element
//! takes. Colors are named swatches with their 8-bit RGB components; turning
//! them into the toolkit's color values is the front end's part.
use vstd::prelude::*;

use crate::booru::types::spec_from_loose;
use crate::booru::{Rating, TagColor};

verus! {

/// A color of the palette.
#[derive(Debug, Clone, Copy, PartialEq, Eq, Structural)]
pub enum Swatch {
    White,
    Black,
    Gray100,
    Gray200,
    Gray300,
    Gray500,
    Gray600,
    Gray700,
    Blue200,
    Blue500,
    Blue600,
    Blue700,
    Indigo300,
    Indigo400,
    Indigo500,
    Indigo600,
    Purple500,
    Purple600,
    Green500,
    Green600,
    Yellow500,
    Yellow600,
    Orange500,
    Orange600,
    Red500,
}

/// The 8-bit RGB components of each swatch.
pub open spec fn spec_rgb(s: Swatch) -> (u8, u8, u8) {
    match s {
        Swatch::White => (0xff, 0xff, 0xff),
        Swatch::Black => (0x00, 0x00, 0x00),
        Swatch::Gray100 => (0xf3, 0xf4, 0xf6),
        Swatch::Gray200 => (0xe5, 0xe7, 0xeb),
        Swatch::Gray300 => (0xd1, 0xd5, 0xdb),
        Swatch::Gray500 => (0x6b, 0x72, 0x80),
        Swatch::Gray600 => (0x4b, 0x55, 0x63),
        Swatch::Gray700 => (0x37, 0x41, 0x51),
        Swatch::Blue200 => (0xbf, 0xdb, 0xfe),
        Swatch::Blue500 => (0x3b, 0x82, 0xf6),
        Swatch::Blue600 => (0x25, 0x63, 0xeb),
        Swatch::Blue700 => (0x1d, 0x4e, 0xd8),
        Swatch::Indigo300 => (0xa5, 0xb4, 0xfc),
        Swatch::Indigo400 => (0x81, 0x8c, 0xf8),
        Swatch::Indigo500 => (0x63, 0x66, 0xf1),
        Swatch::Indigo600 => (0x4f, 0x46, 0xe5),
        Swatch::Purple500 => (0xa8, 0x55, 0xf7),
        Swatch::Purple600 => (0x93, 0x33, 0xea),
        Swatch::Green500 => (0x22, 0xc5, 0x5e),
        Swatch::Green600 => (0x16, 0xa3, 0x4a),
        Swatch::Yellow500 => (0xea, 0xb3, 0x08),
        Swatch::Yellow600 => (0xca, 0x8a, 0x04),
        Swatch::Orange500 => (0xf9, 0x73, 0x16),
        Swatch::Orange600 => (0xea, 0x58, 0x0c),
        Swatch::Red500 => (0xef, 0x44, 0x44),
    }
}

impl Swatch {
    /// The swatch's 8-bit red, green and blue components.
    pub fn rgb(self) -> (c: (u8, u8, u8))
        ensures
            c == spec_rgb(self),
    {
        match self {
            Swatch::White => (0xff, 0xff, 0xff),
            Swatch::Black => (0x00, 0x00, 0x00),
            Swatch::Gray100 => (0xf3, 0xf4, 0xf6),
            Swatch::Gray200 => (0xe5, 0xe7, 0xeb),
            Swatch::Gray300 => (0xd1, 0xd5, 0xdb),
            Swatch::Gray500 => (0x6b, 0x72, 0x80),
            Swatch::Gray600 => (0x4b, 0x55, 0x63),
            Swatch::Gray700 => (0x37, 0x41, 0x51),
            Swatch::Blue200 => (0xbf, 0xdb, 0xfe),
            Swatch::Blue500 => (0x3b, 0x82, 0xf6),
            Swatch::Blue600 => (0x25, 0x63, 0xeb),
            Swatch::Blue700 => (0x1d, 0x4e, 0xd8),
            Swatch::Indigo300 => (0xa5, 0xb4, 0xfc),
            Swatch::Indigo400 => (0x81, 0x8c, 0xf8),
            Swatch::Indigo500 => (0x63, 0x66, 0xf1),
            Swatch::Indigo600 => (0x4f, 0x46, 0xe5),
            Swatch::Purple500 => (0xa8, 0x55, 0xf7),
            Swatch::Purple600 => (0x93, 0x33, 0xea),
            Swatch::Green500 => (0x22, 0xc5, 0x5e),
            Swatch::Green600 => (0x16, 0xa3, 0x4a),
            Swatch::Yellow500 => (0xea, 0xb3, 0x08),
            Swatch::Yellow600 => (0xca, 0x8a, 0x04),
            Swatch::Orange500 => (0xf9, 0x73, 0x16),
            Swatch::Orange600 => (0xea, 0x58, 0x0c),
            Swatch::Red500 => (0xef, 0x44, 0x44),
        }
    }
}

pub open spec fn spec_text_color(c: TagColor) -> Swatch {
    match c {
        TagColor::Blue => Swatch::Blue600,
        TagColor::Purple => Swatch::Purple600,
        TagColor::Green => Swatch::Green600,
        TagColor::Orange => Swatch::Orange600,
        TagColor::Yellow => Swatch::Yellow600,
        TagColor::Gray => Swatch::Gray600,
    }
}

impl TagColor {
    /// Text color used for an autocomplete tag of this category.
    pub fn text_color(self) -> (s: Swatch)
        ensures
            s == spec_text_color(self),
    {
        match self {
            TagColor::Blue => Swatch::Blue600,
            TagColor::Purple => Swatch::Purple600,
            TagColor::Green => Swatch::Green600,
            TagColor::Orange => Swatch::Orange600,
            TagColor::Yellow => Swatch::Yellow600,
            TagColor::Gray => Swatch::Gray600,
        }
    }
}

/// The color of a rating; `None` (no rating) takes `other`.
pub open spec fn rating_swatch(r: Option<Rating>, other: Swatch) -> Swatch {
    match r {
        Some(Rating::General) => Swatch::Green500,
        Some(Rating::Sensitive) => Swatch::Yellow500,
        Some(Rating::Questionable) => Swatch::Orange500,
        Some(Rating::Explicit) => Swatch::Red500,
        None => other,
    }
}

fn rating_swatch_of(r: Option<Rating>, other: Swatch) -> (s: Swatch)
    ensures
        s == rating_swatch(r, other),
{
    match r {
        Some(Rating::General) => Swatch::Green500,
        Some(Rating::Sensitive) => Swatch::Yellow500,
        Some(Rating::Questionable) => Swatch::Orange500,
        Some(Rating::Explicit) => Swatch::Red500,
        None => other,
    }
}

/// Badge color for a post's rating (read loosely, see [`Rating::from_loose`]);
/// gray when it is not a known rating.
pub fn rating_color(rating: &str) -> (s: Swatch)
    ensures
        s == rating_swatch(spec_from_loose(rating@), Swatch::Gray500),
{
    rating_swatch_of(Rating::from_loose(rating), Swatch::Gray500)
}

/// Button color for the rating selector, where `None` means "All Content".
pub fn rating_select_color(rating: Option<Rating>) -> (s: Swatch)
    ensures
        s == rating_swatch(rating, Swatch::Purple500),
{
    rating_swatch_of(rating, Swatch::Purple500)
}

} // verus!
