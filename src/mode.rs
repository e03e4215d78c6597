//! Blend modes as the command line names them, the output formats, and the
//! resolution of a mode name to the operator that composites the pixels.

use vstd::prelude::*;
use crate::text::{lower_of, lowercase, same_text};

verus! {

/// The blend modes that can be chosen on the command line.
#[derive(Debug, Clone, Copy, PartialEq, Eq, Structural)]
pub enum BlendMode {
    Overlay,
    Over,
    Atop,
    Xor,
    Multiply,
    Burn,
    Softlight,
    Hardlight,
    Difference,
    Lighten,
    Darken,
    Dodge,
    Plus,
    Addition,
    Exclusion,
    Subtract,
    Screen,
}

/// The name under which each blend mode is dispatched.
pub open spec fn mode_name(m: BlendMode) -> Seq<char> {
    match m {
        BlendMode::Overlay => "overlay"@,
        BlendMode::Over => "over"@,
        BlendMode::Atop => "atop"@,
        BlendMode::Xor => "xor"@,
        BlendMode::Multiply => "multiply"@,
        BlendMode::Burn => "burn"@,
        BlendMode::Softlight => "softlight"@,
        BlendMode::Hardlight => "hardlight"@,
        BlendMode::Difference => "difference"@,
        BlendMode::Lighten => "lighten"@,
        BlendMode::Darken => "darken"@,
        BlendMode::Dodge => "dodge"@,
        BlendMode::Plus => "plus"@,
        BlendMode::Addition => "addition"@,
        BlendMode::Exclusion => "exclusion"@,
        BlendMode::Subtract => "subtract"@,
        BlendMode::Screen => "screen"@,
    }
}

impl BlendMode {
    /// The lower-case name of the mode.
    pub fn blend_name(&self) -> (r: String)
        ensures
            r@ == mode_name(*self),
    {
        match self {
            BlendMode::Overlay => String::from_str("overlay"),
            BlendMode::Over => String::from_str("over"),
            BlendMode::Atop => String::from_str("atop"),
            BlendMode::Xor => String::from_str("xor"),
            BlendMode::Multiply => String::from_str("multiply"),
            BlendMode::Burn => String::from_str("burn"),
            BlendMode::Softlight => String::from_str("softlight"),
            BlendMode::Hardlight => String::from_str("hardlight"),
            BlendMode::Difference => String::from_str("difference"),
            BlendMode::Lighten => String::from_str("lighten"),
            BlendMode::Darken => String::from_str("darken"),
            BlendMode::Dodge => String::from_str("dodge"),
            BlendMode::Plus => String::from_str("plus"),
            BlendMode::Addition => String::from_str("addition"),
            BlendMode::Exclusion => String::from_str("exclusion"),
            BlendMode::Subtract => String::from_str("subtract"),
            BlendMode::Screen => String::from_str("screen"),
        }
    }
}

/// The file formats a result can be written in.
#[derive(Debug, Clone, Copy, PartialEq, Eq, Structural)]
pub enum Format {
    PNG,
    WEBP,
    JPEG,
    TIFF,
}

/// The file extension of each format.
pub open spec fn format_ext(f: Format) -> Seq<char> {
    match f {
        Format::PNG => "png"@,
        Format::WEBP => "webp"@,
        Format::JPEG => "jpeg"@,
        Format::TIFF => "tiff"@,
    }
}

impl Format {
    /// The lower-case extension of the format.
    pub fn format_name(&self) -> (r: String)
        ensures
            r@ == format_ext(*self),
    {
        match self {
            Format::PNG => String::from_str("png"),
            Format::WEBP => String::from_str("webp"),
            Format::JPEG => String::from_str("jpeg"),
            Format::TIFF => String::from_str("tiff"),
        }
    }
}

/// The compositing operator that a blend mode selects. Every operator but
/// `SoftLight` belongs to the general blend algebra; `SoftLight` is the
/// standalone branch-based formula with scalar alphas.
#[derive(Debug, Clone, Copy, PartialEq, Eq, Structural)]
pub enum BlendOp {
    Overlay,
    Over,
    Atop,
    Xor,
    Multiply,
    Burn,
    HardLight,
    Difference,
    Screen,
    Dodge,
    Lighten,
    Darken,
    Plus,
    Exclusion,
    SoftLight,
}

/// Whether a lower-case name is one the dispatch table knows.
pub open spec fn is_blend_name(s: Seq<char>) -> bool {
    ||| s == "overlay"@
    ||| s == "over"@
    ||| s == "atop"@
    ||| s == "xor"@
    ||| s == "multiply"@
    ||| s == "burn"@
    ||| s == "hardlight"@
    ||| s == "hard_light"@
    ||| s == "hard light"@
    ||| s == "difference"@
    ||| s == "screen"@
    ||| s == "dodge"@
    ||| s == "lighten"@
    ||| s == "darken"@
    ||| s == "plus"@
    ||| s == "addition"@
    ||| s == "exclusion"@
    ||| s == "subtract"@
    ||| s == "softlight"@
    ||| s == "soft_light"@
    ||| s == "soft light"@
}

/// The operator for a lower-case mode name; a name outside the table
/// selects the overlay operator.
pub open spec fn op_named(s: Seq<char>) -> BlendOp {
    if s == "overlay"@ {
        BlendOp::Overlay
    } else if s == "over"@ {
        BlendOp::Over
    } else if s == "atop"@ {
        BlendOp::Atop
    } else if s == "xor"@ {
        BlendOp::Xor
    } else if s == "multiply"@ {
        BlendOp::Multiply
    } else if s == "burn"@ {
        BlendOp::Burn
    } else if s == "hardlight"@ || s == "hard_light"@ || s == "hard light"@ {
        BlendOp::HardLight
    } else if s == "difference"@ {
        BlendOp::Difference
    } else if s == "screen"@ {
        BlendOp::Screen
    } else if s == "dodge"@ {
        BlendOp::Dodge
    } else if s == "lighten"@ {
        BlendOp::Lighten
    } else if s == "darken"@ {
        BlendOp::Darken
    } else if s == "plus"@ || s == "addition"@ {
        BlendOp::Plus
    } else if s == "exclusion"@ || s == "subtract"@ {
        BlendOp::Exclusion
    } else if s == "softlight"@ || s == "soft_light"@ || s == "soft light"@ {
        BlendOp::SoftLight
    } else {
        BlendOp::Overlay
    }
}

/// The operator for a mode name that is already in lower case.
pub fn blend_op_of_name(s: &str) -> (op: BlendOp)
    ensures
        op == op_named(s@),
{
    if same_text(s, "overlay") {
        BlendOp::Overlay
    } else if same_text(s, "over") {
        BlendOp::Over
    } else if same_text(s, "atop") {
        BlendOp::Atop
    } else if same_text(s, "xor") {
        BlendOp::Xor
    } else if same_text(s, "multiply") {
        BlendOp::Multiply
    } else if same_text(s, "burn") {
        BlendOp::Burn
    } else if same_text(s, "hardlight") || same_text(s, "hard_light") || same_text(s, "hard light") {
        BlendOp::HardLight
    } else if same_text(s, "difference") {
        BlendOp::Difference
    } else if same_text(s, "screen") {
        BlendOp::Screen
    } else if same_text(s, "dodge") {
        BlendOp::Dodge
    } else if same_text(s, "lighten") {
        BlendOp::Lighten
    } else if same_text(s, "darken") {
        BlendOp::Darken
    } else if same_text(s, "plus") || same_text(s, "addition") {
        BlendOp::Plus
    } else if same_text(s, "exclusion") || same_text(s, "subtract") {
        BlendOp::Exclusion
    } else if same_text(s, "softlight") || same_text(s, "soft_light") || same_text(s, "soft light") {
        BlendOp::SoftLight
    } else {
        BlendOp::Overlay
    }
}

/// The operator for a mode name in any letter case.
pub fn resolve_blend_op(name: &str) -> (op: BlendOp)
    ensures
        op == op_named(lower_of(name@)),
{
    let folded = lowercase(name);
    blend_op_of_name(folded.as_str())
}

/// A name outside the dispatch table selects the same operator as
/// `"overlay"`: blending under it gives what blending under overlay gives.
pub proof fn lemma_unknown_name_is_overlay(s: Seq<char>)
    requires
        !is_blend_name(s),
    ensures
        op_named(s) == op_named("overlay"@),
        op_named(s) == BlendOp::Overlay,
{
}

} // verus!
