//! The errors a build reports.
use vstd::prelude::*;

verus! {

/// What went wrong during a build, with a human-readable detail.
#[derive(Debug, Clone, PartialEq, Eq)]
pub enum Error {
    Io(String),
    Yaml(String),
    Config(String),
    Template(String),
    Markdown(String),
    FileNotFound(String),
    LayoutCycle(String),
    Other(String),
}

/// The words that open the message of each kind of error.
pub open spec fn error_prefix(e: &Error) -> Seq<char> {
    match e {
        Error::Io(_) => "IO error: "@,
        Error::Yaml(_) => "YAML parsing error: "@,
        Error::Config(_) => "Configuration error: "@,
        Error::Template(_) => "Template error: "@,
        Error::Markdown(_) => "Markdown error: "@,
        Error::FileNotFound(_) => "File not found: "@,
        Error::LayoutCycle(_) => "Layout cycle: "@,
        Error::Other(_) => ""@,
    }
}

/// The detail that an error carries.
pub open spec fn error_detail(e: &Error) -> Seq<char> {
    match e {
        Error::Io(s) => s@,
        Error::Yaml(s) => s@,
        Error::Config(s) => s@,
        Error::Template(s) => s@,
        Error::Markdown(s) => s@,
        Error::FileNotFound(s) => s@,
        Error::LayoutCycle(s) => s@,
        Error::Other(s) => s@,
    }
}

impl Error {
    /// The message shown to a user: the kind's opening words, then the detail.
    pub fn message(&self) -> (r: String)
        ensures
            r@ == error_prefix(self) + error_detail(self),
    {
        let (prefix, detail) = match self {
            Error::Io(s) => ("IO error: ", s),
            Error::Yaml(s) => ("YAML parsing error: ", s),
            Error::Config(s) => ("Configuration error: ", s),
            Error::Template(s) => ("Template error: ", s),
            Error::Markdown(s) => ("Markdown error: ", s),
            Error::FileNotFound(s) => ("File not found: ", s),
            Error::LayoutCycle(s) => ("Layout cycle: ", s),
            Error::Other(s) => ("", s),
        };
        let mut out = prefix.to_owned();
        out.append(detail.as_str());
        out
    }
}

} // verus!
