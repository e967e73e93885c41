use vstd::prelude::*;

use crate::workflow::WorkflowConfig;

verus! {

/// Workflow configuration
#[derive(Debug)]
pub struct Config {}

impl Config {
    /// The repository the sources are cloned from.
    pub fn repository() -> (r: &'static str)
        ensures
            r@ == "https://github.com/madler/zlib.git"@,
    {
        "https://github.com/madler/zlib.git"
    }
}

impl WorkflowConfig for Config {
    open spec fn app_name() -> Seq<char> {
        "zlib"@
    }

    fn app() -> (r: &'static str) {
        "zlib"
    }
}

} // verus!
