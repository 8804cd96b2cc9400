//! How the server is operated.

use vstd::prelude::*;
use vstd::string::StringExecFns;

verus! {

/// The user interface of the server.
#[derive(Debug, Clone, Copy, PartialEq, Eq, Structural)]
pub enum Method {
    /// A terminal user interface.
    Tui,
    /// Prompts that ask for the configuration.
    Prompts,
    /// Command-line arguments and no questions.
    Quiet,
}

impl Method {
    /// The name under which the method is chosen on the command line.
    pub open spec fn name(self) -> Seq<char> {
        match self {
            Method::Tui => "tui"@,
            Method::Prompts => "prompts"@,
            Method::Quiet => "quiet"@,
        }
    }

    /// The name under which the method is chosen on the command line.
    pub fn to_text(&self) -> (text: String)
        ensures
            text@ == self.name(),
    {
        match self {
            Method::Tui => String::from_str("tui"),
            Method::Prompts => String::from_str("prompts"),
            Method::Quiet => String::from_str("quiet"),
        }
    }
}

} // verus!
