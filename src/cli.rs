//! Command-line options, and the output formats they select.
use vstd::prelude::*;

verus! {

/// The options of the command line.
#[derive(Clone, Debug)]
pub struct Args {
    /// Print version information.
    pub version: bool,
    /// Check that the configuration loads.
    pub check: bool,
    /// How many times the verbosity was raised.
    pub verbose: usize,
    /// The configuration file.
    pub config: String,
    /// The output format: `html` or `markdown`.
    pub format: String,
    /// The output file, without its extension.
    pub output: String,
}

/// A format that the changelog can be written in.
#[derive(Clone, Copy, Debug, PartialEq, Eq, Structural)]
pub enum Format {
    Html,
    Markdown,
}

pub open spec fn format_of(name: Seq<char>) -> Option<Format> {
    if name == "html"@ {
        Some(Format::Html)
    } else if name == "markdown"@ {
        Some(Format::Markdown)
    } else {
        None
    }
}

pub open spec fn extension_of(f: Format) -> Seq<char> {
    match f {
        Format::Html => "html"@,
        Format::Markdown => "md"@,
    }
}

impl Format {
    /// The format that a name selects: `html` or `markdown`; any other name
    /// selects none.
    pub fn from_name(name: &String) -> (r: Option<Format>)
        ensures
            r == format_of(name@),
    {
        if *name == String::from_str("html") {
            Some(Format::Html)
        } else if *name == String::from_str("markdown") {
            Some(Format::Markdown)
        } else {
            None
        }
    }

    /// The file extension of the format.
    pub fn extension(&self) -> (r: &'static str)
        ensures
            r@ == extension_of(*self),
    {
        match self {
            Format::Html => "html",
            Format::Markdown => "md",
        }
    }
}

} // verus!
