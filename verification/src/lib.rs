//! Charts for musicians, read from plain text.
//!
//! `parser` reads chart markup, lines of a level marker and up to three
//! columns of styled text, into the document model of `model`, or lists all
//! that is wrong with the text. `grammar` states what the markup means, and
//! `laws` what follows from it for every input. `cchart` reads the
//! line-oriented format of titles, sections and measures into the chord
//! charts of `chart`. `text` holds what both need of characters, and
//! `output` the formats in which a chart can be written out.

pub mod cchart;
pub mod chart;
pub mod grammar;
pub mod laws;
pub mod model;
pub mod output;
pub mod parser;
pub mod text;
