use vstd::prelude::*;

use crate::path::{components_of, is_absolute, join_path, joined_path, path_components, render_path};
use crate::text::{join_strings, texts};

verus! {

/// Name of project
pub open spec fn project_name() -> Seq<char> {
    "LIBRA"@
}

/// Name of project
pub fn project() -> (r: &'static str)
    ensures
        r@ == project_name(),
{
    "LIBRA"
}

/// Mode of operation
#[derive(Debug, Clone, Copy, PartialEq, Eq, Structural)]
pub enum Mode {
    /// production mode
    Prod,
    /// development mode
    Dev,
    /// debug mode
    Debug,
    /// verbose mode
    Verbose,
}

/// The name of a mode, as shown to users.
pub open spec fn mode_text(m: Mode) -> Seq<char> {
    match m {
        Mode::Prod => "production"@,
        Mode::Dev => "development"@,
        Mode::Debug => "debug"@,
        Mode::Verbose => "verbose"@,
    }
}

/// The mode for a verbosity setting: 0 is production, 1 (also where nothing is
/// set) development, 2 debug, and more verbose.
pub open spec fn mode_of(verbosity: Option<usize>) -> Mode {
    let v = match verbosity {
        Some(v) => v,
        None => 1,
    };
    if v == 0 {
        Mode::Prod
    } else if v == 1 {
        Mode::Dev
    } else if v == 2 {
        Mode::Debug
    } else {
        Mode::Verbose
    }
}

impl Mode {
    /// The name of the mode, as shown to users.
    pub fn describe(&self) -> (r: &'static str)
        ensures
            r@ == mode_text(*self),
    {
        match self {
            Mode::Prod => "production",
            Mode::Dev => "development",
            Mode::Debug => "debug",
            Mode::Verbose => "verbose",
        }
    }

    /// The mode for a verbosity setting (see [`mode_of`]).
    pub fn from_verbosity(verbosity: Option<usize>) -> (r: Mode)
        ensures
            r == mode_of(verbosity),
    {
        let v = match verbosity {
            Some(v) => v,
            None => 1,
        };
        if v == 0 {
            Mode::Prod
        } else if v == 1 {
            Mode::Dev
        } else if v == 2 {
            Mode::Debug
        } else {
            Mode::Verbose
        }
    }
}

/// Workspace
#[derive(Debug)]
pub struct Workspace {
    /// path to project base
    pub base: String,
    /// path to studio directory
    pub studio: String,
}

/// The base of the project: two levels above the directory of the crate's
/// manifest, in normal form.
pub open spec fn base_of(manifest_dir: Seq<char>) -> Seq<char> {
    let comps = path_components(manifest_dir);
    render_path(is_absolute(manifest_dir), comps.subrange(0, comps.len() - 2))
}

/// The studio directory under a base: `studio/docker` in a container,
/// `studio/native` otherwise.
pub open spec fn studio_of(base: Seq<char>, dockerized: bool) -> Seq<char> {
    joined_path(
        joined_path(base, "studio"@),
        if dockerized {
            "docker"@
        } else {
            "native"@
        },
    )
}

impl Workspace {
    /// The layout of the workspace, from the directory of the crate's manifest.
    pub fn derive(manifest_dir: &str, dockerized: bool) -> (r: Workspace)
        requires
            path_components(manifest_dir@).len() >= 2,
        ensures
            r.base@ == base_of(manifest_dir@),
            r.studio@ == studio_of(r.base@, dockerized),
    {
        let comps = components_of(manifest_dir);
        let n = comps.len();
        let mut kept: Vec<String> = Vec::new();
        let mut i: usize = 0;
        while i < n - 2
            invariant
                n == comps@.len(),
                n >= 2,
                i <= n - 2,
                texts(kept@) == texts(comps@).take(i as int),
            decreases n - 2 - i,
        {
            kept.push(comps[i].clone());
            proof {
                assert(texts(comps@).take(i + 1) =~= texts(comps@).take(i as int).push(comps@[i as int]@));
            }
            i = i + 1;
        }
        proof {
            assert(texts(comps@) == path_components(manifest_dir@));
            assert(texts(kept@) =~= path_components(manifest_dir@).subrange(0, n - 2));
        }
        let body = join_strings(&kept, "/");
        let base = if manifest_dir.unicode_len() > 0 && manifest_dir.get_char(0) == '/' {
            crate::text::concat("/", body.as_str())
        } else {
            body
        };
        let studio_root = join_path(base.as_str(), "studio");
        let studio = join_path(studio_root.as_str(), if dockerized {
            "docker"
        } else {
            "native"
        });
        Workspace { base, studio }
    }
}

} // verus!
