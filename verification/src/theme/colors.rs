//! Apple-inspired colour palette, each colour as `0xRRGGBB`.
use vstd::prelude::*;

verus! {

// Core palette
pub const ACCENT_BLUE: u32 = 0x007AFF;
pub const ACCENT_BLUE_HOVER: u32 = 0x0A84FF;
pub const ACCENT_BLUE_PRESSED: u32 = 0x0066CC;

// Backgrounds (layered, glass-like)
pub const BG_BASE: u32 = 0xF5F5F7;
pub const BG_CARD: u32 = 0xFFFFFF;
pub const BG_CARD_ALT: u32 = 0xFAFAFC;

// Fill and stroke
pub const FILL_SECONDARY: u32 = 0xEEEEF2;
pub const BORDER: u32 = 0xD2D2D7;
pub const SEPARATOR: u32 = 0xC7C7CC;

// Text
pub const TEXT_PRIMARY: u32 = 0x1D1D1F;
pub const TEXT_SECONDARY: u32 = 0x6E6E73;
pub const TEXT_LINK: u32 = ACCENT_BLUE;

// Semantic
pub const GREEN_SUCCESS: u32 = 0x248A3D;
pub const RED_ERROR: u32 = 0xD73A49;
pub const RED_RECORDING: u32 = 0xFF3B30;
pub const ORANGE_WARNING: u32 = 0xBE6900;
pub const YELLOW_CAUTION: u32 = 0xFF9500;

/// The red, green and blue components of a colour.
pub fn rgb_components(color: u32) -> (r: (u8, u8, u8))
    requires
        color <= 0xFF_FFFF,
    ensures
        r.0 as u32 * 0x1_0000 + r.1 as u32 * 0x100 + r.2 as u32 == color,
{
    let red = (color / 0x1_0000) as u8;
    let green = ((color / 0x100) % 0x100) as u8;
    let blue = (color % 0x100) as u8;
    (red, green, blue)
}

} // verus!
