use crate::monos_gfx::types::Dimension;
use vstd::prelude::*;

verus! {

/// A window's contents as the compositor keeps them: its size and its pixel bytes.
pub struct GUIFrame {
    pub dimensions: Dimension,
    pub buffer: Vec<u8>,
}

} // verus!
