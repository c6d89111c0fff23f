pub mod editor;
pub mod laws;
pub mod render;
pub mod text;
