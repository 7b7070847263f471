//! Extraction of a render-ready document model from an e-book package: the
//! content documents in reading order, the images and stylesheets that they
//! refer to, and one table of contents.
//!
//! A reader hands the package over as a [`package::Package`];
//! [`epub::get_epub`] makes the model of it or names the one failure that
//! ended the extraction. What holds of every model is proved in [`laws`].

pub mod epub;
pub mod error;
pub mod laws;
pub mod markup;
pub mod model;
pub mod package;
pub mod resolver;
pub mod scanner;
pub mod table;
pub mod text;
pub mod toc;
