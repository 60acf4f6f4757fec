//! The formats in which a chart can be written out.

use vstd::prelude::*;

verus! {

/// A format of output.
#[derive(Debug, Clone, Copy, PartialEq, Eq, PartialOrd, Ord, Structural)]
pub enum OutputFormat {
    Svg,
    Png,
    Pdf,
}

/// The file extension of each format.
pub open spec fn extension_of(format: OutputFormat) -> Seq<char> {
    match format {
        OutputFormat::Svg => "svg"@,
        OutputFormat::Png => "png"@,
        OutputFormat::Pdf => "pdf"@,
    }
}

impl OutputFormat {
    /// The extension of a file in this format, without the dot.
    pub fn extension(&self) -> (ext: &'static str)
        ensures
            ext@ == extension_of(*self),
    {
        match self {
            OutputFormat::Svg => "svg",
            OutputFormat::Png => "png",
            OutputFormat::Pdf => "pdf",
        }
    }
}

} // verus!
