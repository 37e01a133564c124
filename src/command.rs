use vstd::prelude::*;

verus! {

/// What the user asked for on the command line.
#[derive(Debug)]
pub struct Cli {
    pub command: Option<Commands>,
}

/// The operations of the command surface.
#[derive(Debug)]
pub enum Commands {
    /// List the builds of the index whose stub contains `package`.
    List { package: String, raw: bool, no_color: bool },
    /// Install the one build that `package` and `version` name.
    Downgrade { package: String, version: Option<String> },
}

} // verus!
