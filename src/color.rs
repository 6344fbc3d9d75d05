use vstd::prelude::*;

use crate::outside::{hex_bytes, hex_decode, is_hex_text};

verus! {

/// `0x00RRGGBB` from red, green and blue bytes.
pub fn color_rgb_to_u32(a: [u8; 3]) -> (r: u32)
    ensures
        r == a[0] as u32 * 0x10000 + a[1] as u32 * 0x100 + a[2] as u32,
{
    (a[0] as u32) * 0x10000 + (a[1] as u32) * 0x100 + (a[2] as u32)
}

/// The opaque RGBA color of `0x??RRGGBB`: red, green and blue from the low
/// three bytes, alpha 255.
pub fn u32_to_color(c: u32) -> (r: [u8; 4])
    ensures
        r[0] == (c / 0x10000) % 0x100,
        r[1] == (c / 0x100) % 0x100,
        r[2] == c % 0x100,
        r[3] == 255,
{
    [((c / 0x10000) % 0x100) as u8, ((c / 0x100) % 0x100) as u8, (c % 0x100) as u8, 255]
}

/// A display color named by its well-known name.
#[derive(Clone, Copy, Debug, PartialEq, Eq, Structural)]
pub enum NamedColor {
    Red,
    Green,
    Blue,
    Yellow,
    LightRed,
    LightGreen,
    LightBlue,
    LightYellow,
    DarkRed,
    DarkGreen,
    DarkBlue,
    White,
    Black,
}

/// A decoded display color.
#[derive(Clone, Copy, Debug, PartialEq, Eq, Structural)]
pub enum DecodedColor {
    Named(NamedColor),
    /// Premultiplied red, green, blue and alpha.
    Rgba(u8, u8, u8, u8),
}

/// The color that a name spells, in capitals with underscores.
pub open spec fn named_color(s: Seq<char>) -> Option<NamedColor> {
    if s == "RED"@ { Some(NamedColor::Red) }
    else if s == "GREEN"@ { Some(NamedColor::Green) }
    else if s == "BLUE"@ { Some(NamedColor::Blue) }
    else if s == "YELLOW"@ { Some(NamedColor::Yellow) }
    else if s == "LIGHT_RED"@ { Some(NamedColor::LightRed) }
    else if s == "LIGHT_GREEN"@ { Some(NamedColor::LightGreen) }
    else if s == "LIGHT_BLUE"@ { Some(NamedColor::LightBlue) }
    else if s == "LIGHT_YELLOW"@ { Some(NamedColor::LightYellow) }
    else if s == "DARK_RED"@ { Some(NamedColor::DarkRed) }
    else if s == "DARK_GREEN"@ { Some(NamedColor::DarkGreen) }
    else if s == "DARK_BLUE"@ { Some(NamedColor::DarkBlue) }
    else if s == "WHITE"@ { Some(NamedColor::White) }
    else if s == "BLACK"@ { Some(NamedColor::Black) }
    else { None }
}

/// The digits of a hex color, after an optional `#` or `0x`.
pub open spec fn hex_part(s: Seq<char>) -> Seq<char> {
    if s.len() >= 1 && s[0] == '#' {
        s.subrange(1, s.len() as int)
    } else if s.len() >= 2 && s[0] == '0' && s[1] == 'x' {
        s.subrange(2, s.len() as int)
    } else {
        s
    }
}

/// Byte `i` of `b`, or zero.
pub open spec fn byte_or_zero(b: Seq<u8>, i: int) -> u8 {
    if i < b.len() { b[i] } else { 0 }
}

/// What a color text decodes to: a named color; or up to four hex bytes of
/// red, green, blue and alpha, missing ones zero and a missing alpha opaque.
pub open spec fn decoded_color(s: Seq<char>) -> Option<DecodedColor> {
    match named_color(s) {
        Some(n) => Some(DecodedColor::Named(n)),
        None => {
            let h = hex_part(s);
            if is_hex_text(h) && hex_bytes(h).len() <= 4 {
                let b = hex_bytes(h);
                Some(DecodedColor::Rgba(
                    byte_or_zero(b, 0),
                    byte_or_zero(b, 1),
                    byte_or_zero(b, 2),
                    if b.len() > 3 { b[3] } else { 255 },
                ))
            } else {
                None
            }
        },
    }
}

fn name_is(key: &String, name: &str) -> (r: bool)
    ensures
        r == (key@ == name@),
{
    *key == String::from_str(name)
}

fn lookup_named(key: &String) -> (r: Option<NamedColor>)
    ensures
        r == named_color(key@),
{
    if name_is(key, "RED") { Some(NamedColor::Red) }
    else if name_is(key, "GREEN") { Some(NamedColor::Green) }
    else if name_is(key, "BLUE") { Some(NamedColor::Blue) }
    else if name_is(key, "YELLOW") { Some(NamedColor::Yellow) }
    else if name_is(key, "LIGHT_RED") { Some(NamedColor::LightRed) }
    else if name_is(key, "LIGHT_GREEN") { Some(NamedColor::LightGreen) }
    else if name_is(key, "LIGHT_BLUE") { Some(NamedColor::LightBlue) }
    else if name_is(key, "LIGHT_YELLOW") { Some(NamedColor::LightYellow) }
    else if name_is(key, "DARK_RED") { Some(NamedColor::DarkRed) }
    else if name_is(key, "DARK_GREEN") { Some(NamedColor::DarkGreen) }
    else if name_is(key, "DARK_BLUE") { Some(NamedColor::DarkBlue) }
    else if name_is(key, "WHITE") { Some(NamedColor::White) }
    else if name_is(key, "BLACK") { Some(NamedColor::Black) }
    else { None }
}

/// Decodes a display color: a well-known name, or hex bytes of red, green,
/// blue and optional alpha after an optional `#` or `0x`.
pub fn decode_color(color: Option<&str>) -> (r: Option<DecodedColor>)
    ensures
        match color {
            None => r is None,
            Some(s) => r == decoded_color(s@),
        },
{
    let s = match color {
        Some(s) => s,
        None => {
            return None;
        },
    };
    let key = String::from_str(s);
    if let Some(n) = lookup_named(&key) {
        return Some(DecodedColor::Named(n));
    }
    let n = s.unicode_len();
    let off: usize = if n >= 1 && s.get_char(0) == '#' {
        1
    } else if n >= 2 && s.get_char(0) == '0' && s.get_char(1) == 'x' {
        2
    } else {
        0
    };
    let digits = s.substring_char(off, n);
    assert(digits@ == hex_part(s@));
    let bytes = match hex_decode(digits) {
        Some(b) => b,
        None => {
            return None;
        },
    };
    if bytes.len() > 4 {
        return None;
    }
    let r = if bytes.len() > 0 { bytes[0] } else { 0 };
    let g = if bytes.len() > 1 { bytes[1] } else { 0 };
    let b = if bytes.len() > 2 { bytes[2] } else { 0 };
    let a = if bytes.len() > 3 { bytes[3] } else { 255 };
    Some(DecodedColor::Rgba(r, g, b, a))
}

/// Editor state of one node frame.
#[derive(Clone, Debug, PartialEq, Eq)]
pub struct NodeFrameState {
    pub updated: bool,
    pub selected: bool,
    pub edit_title: bool,
    pub drag: Option<NodeFrameDragState>,
}

/// What dragging a frame does.
#[derive(Clone, Debug, PartialEq, Eq)]
pub enum NodeFrameDragState {
    Drag,
    Resize(ResizeState),
}

/// The edges being dragged while resizing.
#[derive(Clone, Copy, Debug, PartialEq, Eq)]
pub struct ResizeState {
    pub top: bool,
    pub right: bool,
    pub bottom: bool,
    pub left: bool,
}

impl NodeFrameState {
    /// A fresh frame: updated, not selected, not editing, not dragged.
    pub fn new() -> (r: Self)
        ensures
            r.updated && !r.selected && !r.edit_title && r.drag is None,
    {
        NodeFrameState { updated: true, selected: false, edit_title: false, drag: None }
    }

    /// Returns the updated flag and clears it.
    pub fn take_updated(&mut self) -> (r: bool)
        ensures
            r == old(self).updated,
            *final(self) == (NodeFrameState { updated: false, ..*old(self) }),
    {
        let updated = self.updated;
        self.updated = false;
        updated
    }

    /// Is the frame being moved.
    pub fn is_dragging(&self) -> (r: bool)
        ensures
            r == (self.drag == Some(NodeFrameDragState::Drag)),
    {
        match self.drag {
            Some(NodeFrameDragState::Drag) => true,
            _ => false,
        }
    }
}

} // verus!
