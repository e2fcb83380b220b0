//! Markdown effects: Unicode text styling, frames, badges and UI component
//! templates, with the transformations proved against their specifications.

pub mod text;
pub mod error;
pub mod namemap;
pub mod styles;
pub mod registry;
pub mod data;
pub mod separators;
pub mod converter;
pub mod frames;
pub mod badges;
pub mod shields;
pub mod digest;
pub mod numeric;
pub mod primitive;
pub mod components;
pub mod svg;
pub mod swatch;
pub mod bars;
pub mod renderer;
pub mod config;
pub mod manifest;
pub mod parser;
pub mod targets;
