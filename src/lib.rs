//! Bindings for the `userstyles.org` catalog: the style records it serves,
//! and the rendering of a style's CSS template with default or chosen
//! setting values.

pub mod laws;
pub mod render;
pub mod request;
pub mod response;
pub mod settings_map;
