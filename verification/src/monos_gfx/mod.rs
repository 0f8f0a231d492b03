pub mod blit;
pub mod draw;
pub mod draw_shapes;
pub mod draw_text;
pub mod framebuffer;
pub mod gui;
pub mod image;
pub mod input;
pub mod paint;
pub mod text;
pub mod types;
pub mod ui;
