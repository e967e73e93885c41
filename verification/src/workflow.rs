use vstd::prelude::*;

use crate::path::{join_path, joined_path};
use crate::proxy::{libmark_extension, libmark_extension_str};
use crate::text::{concat, concat3, has_suffix, str_eq, strip_suffix};

verus! {

/// Stages of the workflow
#[derive(Debug, Clone, Copy, PartialEq, Eq, Structural)]
pub enum Stage {
    Build,
    Check,
    Merge,
    Analyze,
}

/// The name of the file that marks a stage as done.
pub open spec fn stage_mark(s: Stage) -> Seq<char> {
    match s {
        Stage::Build => "mark.build"@,
        Stage::Check => "mark.check"@,
        Stage::Merge => "mark.merge"@,
        Stage::Analyze => "mark.analyze"@,
    }
}

/// The stages still to run, in order: each whose mark is missing. All but the
/// analysis leave their mark once done.
pub open spec fn stages_to_run(build: bool, check: bool, merge: bool, analyze: bool) -> Seq<Stage> {
    (if build {
        Seq::empty()
    } else {
        seq![Stage::Build]
    }) + (if check {
        Seq::empty()
    } else {
        seq![Stage::Check]
    }) + (if merge {
        Seq::empty()
    } else {
        seq![Stage::Merge]
    }) + (if analyze {
        Seq::empty()
    } else {
        seq![Stage::Analyze]
    })
}

impl Stage {
    /// The name of the file that marks the stage as done.
    pub fn mark(&self) -> (r: &'static str)
        ensures
            r@ == stage_mark(*self),
    {
        match self {
            Stage::Build => "mark.build",
            Stage::Check => "mark.check",
            Stage::Merge => "mark.merge",
            Stage::Analyze => "mark.analyze",
        }
    }

    /// The path of the stage's mark in a work directory.
    pub fn mark_path(&self, workdir: &str) -> (r: String)
        ensures
            r@ == joined_path(workdir@, stage_mark(*self)),
    {
        join_path(workdir, self.mark())
    }

    /// Whether the stage leaves its mark once done (all but the analysis).
    pub fn keeps_mark(&self) -> (r: bool)
        ensures
            r == (*self != Stage::Analyze),
    {
        !matches!(self, Stage::Analyze)
    }

    /// The stages still to run, given which marks exist (see [`stages_to_run`]).
    pub fn pending(build: bool, check: bool, merge: bool, analyze: bool) -> (r: Vec<Stage>)
        ensures
            r@ == stages_to_run(build, check, merge, analyze),
    {
        let mut v: Vec<Stage> = Vec::new();
        if !build {
            v.push(Stage::Build);
        }
        if !check {
            v.push(Stage::Check);
        }
        if !merge {
            v.push(Stage::Merge);
        }
        if !analyze {
            v.push(Stage::Analyze);
        }
        proof {
            assert(v@ =~= stages_to_run(build, check, merge, analyze));
        }
        v
    }
}

/// Details for a library artifact
#[derive(Debug)]
pub struct Artifact {
    pub item_in_src: String,
    pub item_in_bin: String,
}

/// Type of artifact
#[derive(Debug, Clone, Copy, PartialEq, Eq, Structural)]
pub enum ArtifactKind {
    Lib,
    Bin,
}

/// Entrypoint for analysis
#[derive(Debug)]
pub struct Entrypoint {
    pub kind: ArtifactKind,
    pub name: String,
    pub function: String,
}

/// Workflow for an app: its configuration, the artifacts it builds, by name,
/// the entry point of the analysis and the bound on its rounds.
#[derive(Debug)]
pub struct Workflow<T> {
    pub config: T,
    pub libs: Vec<(String, Artifact)>,
    pub bins: Vec<(String, Artifact)>,
    pub entry: Entrypoint,
    pub fixedpoint: Option<usize>,
}

/// The first artifact with a name, if any.
pub open spec fn artifact_named(arts: Seq<(String, Artifact)>, name: Seq<char>) -> Option<Artifact>
    decreases arts.len(),
{
    if arts.len() == 0 {
        None
    } else if arts[0].0@ == name {
        Some(arts[0].1)
    } else {
        artifact_named(arts.drop_first(), name)
    }
}

/// The path of the artifact that the analysis starts from (before resolving
/// links): for a library, its mark under the install directory; for a binary,
/// the binary under the source directory. The error where the workflow builds no
/// artifact of that name.
pub open spec fn entry_artifact_path<T>(
    w: Workflow<T>,
    path_src: Seq<char>,
    path_bin: Seq<char>,
) -> Result<Seq<char>, Seq<char>> {
    match w.entry.kind {
        ArtifactKind::Lib => match artifact_named(w.libs@, w.entry.name@) {
            None => Err("unable to find entry target in libs: "@ + w.entry.name@),
            Some(a) => Ok(
                joined_path(
                    joined_path(path_bin, a.item_in_bin@),
                    "lib"@ + w.entry.name@ + libmark_extension(),
                ),
            ),
        },
        ArtifactKind::Bin => match artifact_named(w.bins@, w.entry.name@) {
            None => Err("unable to find entry target in bins: "@ + w.entry.name@),
            Some(a) => Ok(joined_path(joined_path(path_src, a.item_in_src@), w.entry.name@)),
        },
    }
}

/// Looks up an artifact by name (see [`artifact_named`]).
fn find_artifact<'a>(arts: &'a Vec<(String, Artifact)>, name: &str) -> (r: Option<&'a Artifact>)
    ensures
        match artifact_named(arts@, name@) {
            None => r is None,
            Some(a) => r == Some(&a),
        },
{
    let mut i: usize = 0;
    assert(arts@.skip(0) =~= arts@);
    while i < arts.len()
        invariant
            i <= arts@.len(),
            artifact_named(arts@, name@) == artifact_named(arts@.skip(i as int), name@),
        decreases arts@.len() - i,
    {
        proof {
            assert(arts@.skip(i as int).drop_first() =~= arts@.skip(i + 1));
            assert(arts@.skip(i as int)[0] == arts@[i as int]);
        }
        if str_eq(arts[i].0.as_str(), name) {
            return Some(&arts[i].1);
        }
        i = i + 1;
    }
    proof {
        assert(arts@.skip(i as int).len() == 0);
    }
    None
}

impl<T> Workflow<T> {
    /// The path of the artifact that the analysis starts from (see
    /// [`entry_artifact_path`]).
    pub fn entry_artifact(&self, path_src: &str, path_bin: &str) -> (r: Result<String, String>)
        ensures
            match entry_artifact_path(*self, path_src@, path_bin@) {
                Ok(p) => r matches Ok(x) && x@ == p,
                Err(e) => r matches Err(x) && x@ == e,
            },
    {
        proof {
            assert(self.libs@.skip(0) =~= self.libs@);
            assert(self.bins@.skip(0) =~= self.bins@);
        }
        match self.entry.kind {
            ArtifactKind::Lib => match find_artifact(&self.libs, self.entry.name.as_str()) {
                None => Err(concat("unable to find entry target in libs: ", self.entry.name.as_str())),
                Some(a) => {
                    let dir = join_path(path_bin, a.item_in_bin.as_str());
                    let mark = concat3("lib", self.entry.name.as_str(), libmark_extension_str());
                    Ok(join_path(dir.as_str(), mark.as_str()))
                },
            },
            ArtifactKind::Bin => match find_artifact(&self.bins, self.entry.name.as_str()) {
                None => Err(concat("unable to find entry target in bins: ", self.entry.name.as_str())),
                Some(a) => {
                    let dir = join_path(path_src, a.item_in_src.as_str());
                    Ok(join_path(dir.as_str(), self.entry.name.as_str()))
                },
            },
        }
    }
}

/// The name of a workflow configured in a file: the file name without its
/// `.json` suffix, for JSON files only.
pub open spec fn config_name(file_name: Seq<char>) -> Option<Seq<char>> {
    if has_suffix(file_name, ".json"@) {
        Some(file_name.subrange(0, file_name.len() - ".json"@.len()))
    } else {
        None
    }
}

/// The name of a workflow configured in a file (see [`config_name`]).
pub fn workflow_name(file_name: &str) -> (r: Option<String>)
    ensures
        match config_name(file_name@) {
            Some(n) => r matches Some(x) && x@ == n,
            None => r is None,
        },
{
    strip_suffix(file_name, ".json")
}

/// Applications whose workflows and configurations are named by file.
pub trait WorkflowConfig {
    /// The name of the application.
    spec fn app_name() -> Seq<char>;

    /// The name of the application.
    fn app() -> (r: &'static str)
        ensures
            r@ == Self::app_name(),
    ;
}

/// The position of the first entry with a name, if any.
pub open spec fn named_position<X>(entries: Seq<(String, String, X)>, target: Seq<char>) -> Option<int>
    decreases entries.len(),
{
    if entries.len() == 0 {
        None
    } else if entries[0].0@ == target {
        Some(0)
    } else {
        match named_position(entries.drop_first(), target) {
            Some(i) => Some(i + 1),
            None => None,
        }
    }
}

pub proof fn lemma_named_position<X>(entries: Seq<(String, String, X)>, target: Seq<char>)
    ensures
        named_position(entries, target) matches Some(i) ==> 0 <= i < entries.len(),
    decreases entries.len(),
{
    if entries.len() > 0 {
        lemma_named_position(entries.drop_first(), target);
    }
}

/// The position of the first entry named `target` (see [`named_position`]).
fn find_named<X>(entries: &Vec<(String, String, X)>, target: &str) -> (r: Option<usize>)
    ensures
        match named_position(entries@, target@) {
            Some(i) => r == Some(i as usize),
            None => r is None,
        },
{
    let mut i: usize = 0;
    assert(entries@.skip(0) =~= entries@);
    while i < entries.len()
        invariant
            i <= entries@.len(),
            named_position(entries@, target@) == match named_position(entries@.skip(i as int), target@) {
                Some(j) => Some(j + i),
                None => None::<int>,
            },
        decreases entries@.len() - i,
    {
        proof {
            assert(entries@.skip(i as int).drop_first() =~= entries@.skip(i + 1));
            assert(entries@.skip(i as int)[0] == entries@[i as int]);
        }
        if str_eq(entries[i].0.as_str(), target) {
            return Some(i);
        }
        i = i + 1;
    }
    proof {
        assert(entries@.skip(i as int).len() == 0);
    }
    None
}

/// The message for a target that no entry is named.
pub open spec fn missing_entry_text(kind: Seq<char>, target: Seq<char>, app: Seq<char>) -> Seq<char> {
    "no such "@ + kind + " '"@ + target + "' for app '"@ + app + "'"@
}

/// The work directory and the value of the first entry named `target`, or the
/// error that names the kind of entry, the target and the app.
fn retrieve_entry<X>(entries: Vec<(String, String, X)>, target: &str, kind: &str, app: &str) -> (r:
    Result<(String, X), String>)
    ensures
        match named_position(entries@, target@) {
            Some(i) => r matches Ok((w, x)) && w == entries@[i].1 && x == entries@[i].2,
            None => r matches Err(m) && m@ == missing_entry_text(kind@, target@, app@),
        },
{
    proof {
        lemma_named_position(entries@, target@);
    }
    match find_named(&entries, target) {
        Some(i) => {
            let mut entries = entries;
            let (_, workdir, value) = entries.remove(i);
            Ok((workdir, value))
        },
        None => {
            let mut msg = concat3("no such ", kind, " '");
            msg.append(target);
            msg.append("' for app '");
            msg.append(app);
            msg.append("'");
            Err(msg)
        },
    }
}

/// Picks the workflow named `target` among those found for an app, each with its
/// name and work directory: its work directory and the workflow, or the error
/// that names the target and the app.
pub fn retrieve_workflow<T: WorkflowConfig>(workflows: Vec<(String, String, Workflow<T>)>, target: &str) -> (r:
    Result<(String, Workflow<T>), String>)
    ensures
        match named_position(workflows@, target@) {
            Some(i) => r matches Ok((w, x)) && w == workflows@[i].1 && x == workflows@[i].2,
            None => r matches Err(m) && m@ == missing_entry_text("workflow"@, target@, T::app_name()),
        },
{
    proof {
        reveal_strlit("workflow");
    }
    retrieve_entry(workflows, target, "workflow", T::app())
}

/// Picks the configuration named `target` among those found for an app, each
/// with its name and work directory: its work directory and the configuration,
/// or the error that names the target and the app.
pub fn retrieve_config<T: WorkflowConfig>(configs: Vec<(String, String, T)>, target: &str) -> (r: Result<
    (String, T),
    String,
>)
    ensures
        match named_position(configs@, target@) {
            Some(i) => r matches Ok((w, x)) && w == configs@[i].1 && x == configs@[i].2,
            None => r matches Err(m) && m@ == missing_entry_text("config"@, target@, T::app_name()),
        },
{
    proof {
        reveal_strlit("config");
    }
    retrieve_entry(configs, target, "config", T::app())
}

} // verus!
