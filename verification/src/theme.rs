//! The window's colours, in a light and a dark variant.
use vstd::prelude::*;

verus! {

/// A colour by its red, green and blue parts.
#[derive(Clone, Copy, Debug, PartialEq, Eq, Structural)]
pub struct Rgb {
    pub r: u8,
    pub g: u8,
    pub b: u8,
}

/// The colours the window is drawn with.
#[derive(Clone, Copy, Debug, PartialEq, Eq, Structural)]
pub struct AppTheme {
    pub brand_color: Rgb,
    pub text_primary: Rgb,
    pub text_secondary: Rgb,
    pub border_color: Rgb,
    pub success_color: Rgb,
    pub btn_bg: Rgb,
    pub danger_bg: Rgb,
    pub danger_border: Rgb,
    pub muted_color: Rgb,
    pub is_dark: bool,
}

/// The colour `(r, g, b)`.
pub open spec fn rgb(r: u8, g: u8, b: u8) -> Rgb {
    Rgb { r, g, b }
}

impl AppTheme {
    /// The colours for a light or a dark window: text, borders and button
    /// backgrounds follow the mode; the brand, success, danger and muted
    /// colours are the same in both.
    pub fn from_dark_mode(is_dark: bool) -> (t: Self)
        ensures
            t.is_dark == is_dark,
            t.brand_color == rgb(0, 102, 255),
            t.text_primary == if is_dark { rgb(220, 220, 220) } else { rgb(51, 51, 51) },
            t.text_secondary == if is_dark { rgb(160, 160, 160) } else { rgb(100, 100, 100) },
            t.border_color == if is_dark { rgb(80, 80, 80) } else { rgb(193, 213, 225) },
            t.success_color == rgb(44, 203, 91),
            t.btn_bg == if is_dark { rgb(60, 60, 60) } else { rgb(229, 231, 235) },
            t.danger_bg == rgb(255, 200, 200),
            t.danger_border == rgb(200, 100, 100),
            t.muted_color == rgb(180, 180, 180),
    {
        AppTheme {
            brand_color: Rgb { r: 0, g: 102, b: 255 },
            text_primary: if is_dark {
                Rgb { r: 220, g: 220, b: 220 }
            } else {
                Rgb { r: 51, g: 51, b: 51 }
            },
            text_secondary: if is_dark {
                Rgb { r: 160, g: 160, b: 160 }
            } else {
                Rgb { r: 100, g: 100, b: 100 }
            },
            border_color: if is_dark {
                Rgb { r: 80, g: 80, b: 80 }
            } else {
                Rgb { r: 193, g: 213, b: 225 }
            },
            success_color: Rgb { r: 44, g: 203, b: 91 },
            btn_bg: if is_dark {
                Rgb { r: 60, g: 60, b: 60 }
            } else {
                Rgb { r: 229, g: 231, b: 235 }
            },
            danger_bg: Rgb { r: 255, g: 200, b: 200 },
            danger_border: Rgb { r: 200, g: 100, b: 100 },
            muted_color: Rgb { r: 180, g: 180, b: 180 },
            is_dark,
        }
    }
}

} // verus!
