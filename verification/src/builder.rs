use vstd::prelude::*;

use crate::dep::Dependency;
use crate::path::{join_path, joined_path};

verus! {

/// What to do with a dependency.
#[derive(Debug, Clone, Copy, PartialEq, Eq, Structural)]
pub enum DepAction {
    /// Print information about how to build the dependency
    Tweak,
    /// Build the dependency
    Build {
        /// Force the build to proceed
        force: bool,
    },
}

/// The dependencies the builder knows, each with an action.
#[derive(Debug, Clone, Copy, PartialEq, Eq, Structural)]
pub enum DepCommand {
    LLVM(DepAction),
    Oracle(DepAction),
}

/// The dependencies of the pass builder, each with an action.
#[derive(Debug, Clone, Copy, PartialEq, Eq, Structural)]
pub enum DepArgs {
    LLVM(DepAction),
}

/// Represent the LLVM dependency
#[derive(Debug)]
pub struct DepLLVM {}

/// Represent the Oracle dependency
#[derive(Debug)]
pub struct DepOracle {}

impl Dependency for DepLLVM {
    open spec fn dep_name() -> Seq<char> {
        "llvm"@
    }

    fn name() -> (r: &'static str) {
        "llvm"
    }
}

impl Dependency for DepOracle {
    open spec fn dep_name() -> Seq<char> {
        "oracle"@
    }

    fn name() -> (r: &'static str) {
        "oracle"
    }
}

/// Artifact to be used in LLVM pass building
#[derive(Debug)]
pub struct ArtifactLLVM {
    pub path_src: String,
    pub path_build: String,
    pub path_install: String,
}

impl ArtifactLLVM {
    /// The directories of the LLVM build under its workspace.
    pub fn from_workspace(path_wks: &str) -> (r: Self)
        ensures
            r.path_src@ == joined_path(path_wks@, "src"@),
            r.path_build@ == joined_path(path_wks@, "build"@),
            r.path_install@ == joined_path(path_wks@, "install"@),
    {
        ArtifactLLVM {
            path_src: join_path(path_wks, "src"),
            path_build: join_path(path_wks, "build"),
            path_install: join_path(path_wks, "install"),
        }
    }
}

/// Artifact to be consumed by the analysis engine
#[derive(Debug)]
pub struct Artifact {
    pub path_lib: String,
}

impl Artifact {
    /// The library of the pass under its workspace.
    pub fn from_workspace(path_wks: &str) -> (r: Self)
        ensures
            r.path_lib@ == joined_path(joined_path(path_wks@, "Libra"@), "libLibra.so"@),
    {
        let dir = join_path(path_wks, "Libra");
        Artifact { path_lib: join_path(dir.as_str(), "libLibra.so") }
    }
}

/// Whether a character is white space (the Unicode `White_Space` property).
pub open spec fn is_white(c: char) -> bool {
    c == ' ' || c == '\t' || c == '\n' || c == '\u{0B}' || c == '\u{0C}' || c == '\r' || c == '\u{85}'
        || c == '\u{A0}' || c == '\u{1680}' || ('\u{2000}' <= c && c <= '\u{200A}') || c == '\u{2028}'
        || c == '\u{2029}' || c == '\u{202F}' || c == '\u{205F}' || c == '\u{3000}'
}

/// Whether a character is white space (see [`is_white`]).
fn white(c: char) -> (r: bool)
    ensures
        r == is_white(c),
{
    c == ' ' || c == '\t' || c == '\n' || c == '\u{0B}' || c == '\u{0C}' || c == '\r' || c == '\u{85}'
        || c == '\u{A0}' || c == '\u{1680}' || ('\u{2000}' <= c && c <= '\u{200A}') || c == '\u{2028}'
        || c == '\u{2029}' || c == '\u{202F}' || c == '\u{205F}' || c == '\u{3000}'
}

/// A text without the white space that opens and ends it.
pub open spec fn trimmed(s: Seq<char>) -> Seq<char>
    decreases s.len(),
{
    if s.len() > 0 && is_white(s[0]) {
        trimmed(s.drop_first())
    } else if s.len() > 0 && is_white(s.last()) {
        trimmed(s.drop_last())
    } else {
        s
    }
}

/// A text without the white space that opens and ends it (see [`trimmed`]).
pub fn trim(s: &str) -> (r: String)
    ensures
        r@ == trimmed(s@),
{
    let n = s.unicode_len();
    let mut lo: usize = 0;
    let mut hi: usize = n;
    assert(s@.subrange(0, n as int) =~= s@);
    while lo < hi
        invariant
            n == s@.len(),
            lo <= hi <= n,
            trimmed(s@) == trimmed(s@.subrange(lo as int, hi as int)),
        decreases hi - lo,
    {
        let ghost cur = s@.subrange(lo as int, hi as int);
        if white(s.get_char(lo)) {
            proof {
                assert(cur.drop_first() =~= s@.subrange(lo + 1, hi as int));
            }
            lo = lo + 1;
        } else if white(s.get_char(hi - 1)) {
            proof {
                assert(cur[0] == s@[lo as int]);
                assert(cur.drop_last() =~= s@.subrange(lo as int, hi - 1));
            }
            hi = hi - 1;
        } else {
            proof {
                assert(cur[0] == s@[lo as int]);
                assert(cur.last() == s@[hi - 1]);
            }
            return s.substring_char(lo, hi).to_owned();
        }
    }
    proof {
        assert(s@.subrange(lo as int, hi as int) =~= Seq::<char>::empty());
    }
    String::new()
}

/// Represents a Git-based repository
#[derive(Debug)]
pub struct GitRepo {
    pub path: String,
    pub commit: String,
}

impl GitRepo {
    /// The repository at `path` whose commit `git rev-list` printed.
    pub fn from_rev_list(path: String, output: &str) -> (r: Self)
        ensures
            r.path@ == path@,
            r.commit@ == trimmed(output@),
    {
        GitRepo { path, commit: trim(output) }
    }

    /// Retrieve the commit hash of this version
    pub fn commit(&self) -> (r: &str)
        ensures
            r@ == self.commit@,
    {
        self.commit.as_str()
    }
}

} // verus!
