use vstd::prelude::*;

use crate::workflow::WorkflowConfig;

use crate::common::{ArtifactBin, ArtifactLib};

verus! {

/// Workflow configuration: the library and binary artifacts, by name.
#[derive(Debug)]
pub struct Config {
    pub libs: Vec<(String, ArtifactLib)>,
    pub bins: Vec<(String, ArtifactBin)>,
}

impl Config {
    /// The repository the sources are cloned from.
    pub fn repository() -> (r: &'static str)
        ensures
            r@ == "https://github.com/PCRE2Project/pcre2.git"@,
    {
        "https://github.com/PCRE2Project/pcre2.git"
    }
}

impl WorkflowConfig for Config {
    open spec fn app_name() -> Seq<char> {
        "pcre2"@
    }

    fn app() -> (r: &'static str) {
        "pcre2"
    }
}

} // verus!
