mod glean;
pub use glean::Glean;

use vstd::prelude::*;

verus! {

/// A bitmap font. A glyph is stored as its width, its height, then its pixels row by
/// row, one bit each (least significant bit first, a cleared bit is drawn).
pub trait Font {
    const CHAR_WIDTH: u32;
    const CHAR_HEIGHT: u32;

    /// The stored glyph of a character, if the font has one.
    spec fn glyph(c: char) -> Option<Seq<u8>>;

    fn get_char(character: char) -> (r: Option<&'static [u8]>)
        ensures
            match r {
                Some(s) => Self::glyph(character) == Some(s@) && s@.len() >= 2,
                None => Self::glyph(character) is None,
            };
}

} // verus!

verus! {

/// A glyph split into its size and its pixel bits.
pub struct Character {
    pub width: usize,
    pub height: usize,
    pub data: &'static [u8],
}

impl Character {
    pub fn from_raw(raw: &'static [u8]) -> (r: Character)
        requires
            raw@.len() >= 2,
        ensures
            r.width == raw@[0],
            r.height == raw@[1],
            r.data@ == raw@.subrange(2, raw@.len() as int),
    {
        let width = raw[0] as usize;
        let height = raw[1] as usize;
        let data = &raw[2..raw.len()];
        Character { width, height, data }
    }
}

} // verus!
