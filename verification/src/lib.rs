//! Converts a Jupyter notebook into a Typst document.
//!
//! A notebook is a JSON document with an ordered list of cells. A Markdown
//! cell is parsed and its syntax tree translated into Typst markup; a code
//! cell becomes a block with its source and the text of its output. The
//! document is a fixed preamble followed by the cells in their order.
//!
//! The library does no input or output: it takes the text of the notebook
//! and gives back the text of the document.

pub mod cell;
pub mod error;
pub mod json;
pub mod mdast;
pub mod notebook;
pub mod output;
