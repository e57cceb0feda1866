//! Rendering of text files to a terminal: line numbering, squeezing of blank
//! runs, visible escaping of control characters and syntax colouring.
//!
//! [`file_parser::FileParser`] renders the contents of one file in a single
//! pass, and [`pass::RenderPass`] hands out the units of such a pass one at a
//! time. The other modules say what a pass writes: [`segment`] splits a
//! text into fragments, [`blank`] tells which of them are blank, [`squeeze`]
//! which units they are emitted as, [`escape`] how control characters are
//! shown, [`highlight`] how a unit is coloured, [`number`] which lines get
//! which number, and [`render`] what is written in all.

pub mod blank;
pub mod decimal;
pub mod escape;
pub mod file_parser;
pub mod highlight;
pub mod number;
pub mod pass;
pub mod render;
pub mod segment;
pub mod squeeze;
pub mod strings;
pub mod test_writer;
