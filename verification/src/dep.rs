use vstd::prelude::*;

use crate::path::{replace_extension, with_extension};
use crate::text::concat;

verus! {

/// A dependency of the project that can be built into its workspace.
pub trait Dependency {
    /// The name of the dependency.
    spec fn dep_name() -> Seq<char>;

    /// Name of this dependency
    fn name() -> (r: &'static str)
        ensures
            r@ == Self::dep_name(),
    ;
}

/// The extension of the mark that shows a dependency as ready.
pub open spec fn ready_mark() -> Seq<char> {
    "ready"@
}

/// The path of the mark that shows the dependency built in `path_wks` as ready.
pub fn ready_mark_path(path_wks: &str) -> (r: String)
    ensures
        r@ == with_extension(path_wks@, ready_mark()),
{
    proof {
        reveal_strlit("ready");
    }
    replace_extension(path_wks, "ready")
}

/// A struct that represents the build-from-scratch state
#[derive(Debug)]
pub struct Scratch {
    pub path_wks: String,
}

/// A struct that represents the package-ready state
#[derive(Debug)]
pub struct Package {
    pub path_wks: String,
}

/// Automatically differentiate the scratch and package version of a dependency
#[derive(Debug)]
pub enum DepState {
    Scratch(Scratch),
    Package(Package),
}

/// What building a dependency does in its state.
#[derive(Debug, Clone, Copy, PartialEq, Eq, Structural)]
pub enum BuildStep {
    /// the package exists and is kept
    Keep,
    /// the package is destroyed, then built from scratch
    Rebuild,
    /// the dependency is built from scratch
    Make,
}

impl DepState {
    /// The state of a dependency from what exists on disk: a package where its
    /// ready mark exists (an error where the workspace does not), otherwise a
    /// scratch, with whether a previous build must be deleted first.
    pub fn classify(name: &str, path_wks: String, mark_exists: bool, wks_exists: bool) -> (r: Result<
        (DepState, bool),
        String,
    >)
        ensures
            mark_exists && !wks_exists ==> (r matches Err(e) && e@ == "package mark exists without artifact: "@
                + name@),
            mark_exists && wks_exists ==> (r matches Ok((DepState::Package(p), false)) && p.path_wks@
                == path_wks@),
            !mark_exists ==> (r matches Ok((DepState::Scratch(s), delete)) && s.path_wks@ == path_wks@
                && delete == wks_exists),
    {
        if mark_exists {
            if !wks_exists {
                return Err(concat("package mark exists without artifact: ", name));
            }
            Ok((DepState::Package(Package { path_wks }), false))
        } else {
            Ok((DepState::Scratch(Scratch { path_wks }), wks_exists))
        }
    }

    /// What building does: a package is kept unless the build is forced, when it
    /// is rebuilt; a scratch is made.
    pub fn build_step(&self, force: bool) -> (r: BuildStep)
        ensures
            r == match *self {
                DepState::Package(_) => if force {
                    BuildStep::Rebuild
                } else {
                    BuildStep::Keep
                },
                DepState::Scratch(_) => BuildStep::Make,
            },
    {
        match self {
            DepState::Package(_) => if force {
                BuildStep::Rebuild
            } else {
                BuildStep::Keep
            },
            DepState::Scratch(_) => BuildStep::Make,
        }
    }
}

} // verus!
