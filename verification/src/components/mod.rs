//! Component models: the editable text input.

pub mod text_input;
pub mod icon;
pub mod image;
pub mod selectable_text;
