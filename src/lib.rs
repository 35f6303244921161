//! A compiler for a small markup dialect: block segmentation, inline
//! formatting, and rendering to HTML with math typeset by outside tools.
pub mod chars;
pub mod model;
pub mod scan;
pub mod inline;
pub mod blocks;
pub mod render;
pub mod math;
pub mod laws;

pub use blocks::{parse, parse_blocks, parse_inner};
pub use inline::parse_text;
pub use math::{MathError, assemble, fill_post_template, latex_document, typeset_outcome};
pub use model::{Block, ListItem, Text, TextFormat};
pub use render::{CompilerConfig, Piece, render_document};
