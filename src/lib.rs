//! Vector graphics rendered into an SVG document tree: content-addressed shape
//! definitions, named instances and containers, and the colors and styles that
//! shapes are drawn with.

pub mod color;
pub mod definition;
pub mod document;
pub mod errors;
pub mod figures;
pub mod model;
pub mod renderer;
pub mod text;
pub mod theorems;

