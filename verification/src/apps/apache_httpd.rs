use vstd::prelude::*;

use crate::workflow::WorkflowConfig;

use crate::path::{join_path, joined_path};
use crate::text::{concat, texts};

verus! {

/// Workflow configuration
#[derive(Debug)]
pub struct Config {}

impl Config {
    /// The arguments of `configure`: the bundled APR, and the PCRE2 installed
    /// under the work directory of its own workflow.
    pub fn configure_args(pcre2_workdir: &str) -> (r: Vec<String>)
        ensures
            texts(r@) == seq!["--with-included-apr"@, "--with-pcre="@ + joined_path(pcre2_workdir@, "bin"@)],
    {
        let mut v: Vec<String> = Vec::new();
        v.push("--with-included-apr".to_owned());
        let bin = join_path(pcre2_workdir, "bin");
        v.push(concat("--with-pcre=", bin.as_str()));
        proof {
            assert(texts(v@) =~= seq!["--with-included-apr"@, "--with-pcre="@ + joined_path(pcre2_workdir@, "bin"@)]);
        }
        v
    }
}

impl WorkflowConfig for Config {
    open spec fn app_name() -> Seq<char> {
        "apache_httpd"@
    }

    fn app() -> (r: &'static str) {
        "apache_httpd"
    }
}

} // verus!
