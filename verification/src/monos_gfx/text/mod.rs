pub mod draw_lines;
pub mod font;
pub mod lines;
pub mod split;
pub mod width;
pub mod wrap;
pub use lines::{Line};

pub use font::Font;

