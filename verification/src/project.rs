use vstd::prelude::*;
use vstd::string::*;

use crate::paths::{clone_path, has_parent, join, parent_of, pop, PathPart};
use crate::scarb::{ComponentOutcome, ScarbWorkspace};

verus! {

/// How many directories up from a file a manifest is looked for.
pub const MAX_CRATE_DETECTION_DEPTH: usize = 20;

/// The file name of a Cairo project manifest.
pub const PROJECT_FILE_NAME: &'static str = "cairo_project.toml";

/// The file name of a Scarb manifest.
pub const SCARB_TOML: &'static str = "Scarb.toml";

/// An absolute path to a manifest file of a single Cairo project.
#[derive(Debug, PartialEq, Eq)]
pub enum ProjectManifestPath {
    /// `cairo_project.toml` file.
    CairoProject(Vec<PathPart>),
    /// `Scarb.toml` file.
    ///
    /// This could either be a single package or a workspace manifest.
    Scarb(Vec<PathPart>),
}

/// The `levels`-th ancestor directory of `path`, if the path has so many.
pub open spec fn ancestor(path: Seq<PathPart>, levels: nat) -> Option<Seq<PathPart>>
    decreases levels,
{
    if levels == 0 {
        Some(path)
    } else {
        match ancestor(path, (levels - 1) as nat) {
            Some(below) => if has_parent(below) {
                Some(parent_of(below))
            } else {
                None
            },
            None => None,
        }
    }
}

/// Whether `candidate` names the file `name` in the `levels`-th ancestor of `path`.
pub open spec fn is_candidate(
    path: Seq<PathPart>,
    name: Seq<char>,
    levels: nat,
    candidate: Seq<PathPart>,
) -> bool {
    &&& ancestor(path, levels) matches Some(dir)
    &&& candidate.len() == dir.len() + 1
    &&& candidate.drop_last() == dir
    &&& candidate.last() matches PathPart::Normal(last) && last@ == name
}

/// What a search for `name` in the parent directories of `path`, nearest
/// first and at most `MAX_CRATE_DETECTION_DEPTH` of them, has found: with
/// `Some`, the first candidate that the probe said exists; with `None`, that
/// the probe said of each candidate that it does not.
pub open spec fn search_outcome<F: Fn(&Vec<PathPart>) -> bool>(
    path: Seq<PathPart>,
    name: Seq<char>,
    probe: F,
    found: Option<Vec<PathPart>>,
    tried: Seq<Vec<PathPart>>,
) -> bool {
    &&& tried.len() <= MAX_CRATE_DETECTION_DEPTH
    &&& forall|i: int|
        0 <= i < tried.len() ==> is_candidate(path, name, (i + 1) as nat, (#[trigger] tried[i])@)
    &&& match found {
        Some(manifest) => {
            &&& tried.len() >= 1
            &&& tried.last() == manifest
            &&& probe.ensures((&manifest,), true)
            &&& forall|i: int|
                0 <= i < tried.len() - 1 ==> probe.ensures((&#[trigger] tried[i],), false)
        },
        None => {
            &&& forall|i: int| 0 <= i < tried.len() ==> probe.ensures((&#[trigger] tried[i],), false)
            &&& tried.len() < MAX_CRATE_DETECTION_DEPTH ==> ancestor(
                path,
                (tried.len() + 1) as nat,
            ) is None
        },
    }
}

/// Looks for a file called `target_file_name` in the parent directories of
/// `path`, asking `probe` of each candidate in turn.
fn find_in_parent_dirs<F: Fn(&Vec<PathPart>) -> bool>(
    path: &Vec<PathPart>,
    target_file_name: &str,
    probe: &F,
) -> (res: (Option<Vec<PathPart>>, Ghost<Seq<Vec<PathPart>>>))
    requires
        forall|candidate: &Vec<PathPart>| probe.requires((candidate,)),
    ensures
        search_outcome(path@, target_file_name@, *probe, res.0, res.1@),
{
    let mut dir = clone_path(path);
    let ghost mut tried: Seq<Vec<PathPart>> = Seq::empty();
    let mut depth: usize = 0;
    while depth < MAX_CRATE_DETECTION_DEPTH
        invariant
            depth <= MAX_CRATE_DETECTION_DEPTH,
            forall|candidate: &Vec<PathPart>| probe.requires((candidate,)),
            tried.len() == depth,
            ancestor(path@, depth as nat) == Some(dir@),
            forall|i: int|
                0 <= i < tried.len() ==> is_candidate(
                    path@,
                    target_file_name@,
                    (i + 1) as nat,
                    (#[trigger] tried[i])@,
                ),
            forall|i: int| 0 <= i < tried.len() ==> probe.ensures((&#[trigger] tried[i],), false),
        decreases MAX_CRATE_DETECTION_DEPTH - depth,
    {
        if !pop(&mut dir) {
            return (None, Ghost(tried));
        }
        let manifest_path = join(&dir, target_file_name);
        let there = probe(&manifest_path);
        proof {
            tried = tried.push(manifest_path);
        }
        if there {
            return (Some(manifest_path), Ghost(tried));
        }
        depth += 1;
    }
    (None, Ghost(tried))
}

/// Whether a search for `name` above `path` ends with `found`.
pub open spec fn search_ends_with<F: Fn(&Vec<PathPart>) -> bool>(
    path: Seq<PathPart>,
    name: Seq<char>,
    probe: F,
    found: Option<Vec<PathPart>>,
) -> bool {
    exists|tried: Seq<Vec<PathPart>>| search_outcome(path, name, probe, found, tried)
}

impl ProjectManifestPath {
    /// Look for a project manifest that **can** include source files at the given path.
    ///
    /// A `cairo_project.toml` in any of the parent directories wins over every
    /// `Scarb.toml`; among manifests of one kind the nearest wins. `probe` tells
    /// whether a file exists.
    pub fn discover<F: Fn(&Vec<PathPart>) -> bool>(path: &Vec<PathPart>, probe: F) -> (res: Option<
        ProjectManifestPath,
    >)
        requires
            forall|candidate: &Vec<PathPart>| probe.requires((candidate,)),
        ensures
            match res {
                Some(ProjectManifestPath::CairoProject(manifest)) => search_ends_with(
                    path@,
                    PROJECT_FILE_NAME@,
                    probe,
                    Some(manifest),
                ),
                Some(ProjectManifestPath::Scarb(manifest)) => {
                    &&& search_ends_with(path@, PROJECT_FILE_NAME@, probe, None)
                    &&& search_ends_with(path@, SCARB_TOML@, probe, Some(manifest))
                },
                None => {
                    &&& search_ends_with(path@, PROJECT_FILE_NAME@, probe, None)
                    &&& search_ends_with(path@, SCARB_TOML@, probe, None)
                },
            },
    {
        let (cairo_project, Ghost(first)) = find_in_parent_dirs(path, PROJECT_FILE_NAME, &probe);
        match cairo_project {
            Some(manifest) => Some(ProjectManifestPath::CairoProject(manifest)),
            None => {
                let (scarb, Ghost(second)) = find_in_parent_dirs(path, SCARB_TOML, &probe);
                match scarb {
                    Some(manifest) => Some(ProjectManifestPath::Scarb(manifest)),
                    None => None,
                }
            },
        }
    }

    /// The path of the manifest file.
    pub fn path(&self) -> (path: &Vec<PathPart>)
        ensures
            *path == match *self {
                ProjectManifestPath::CairoProject(manifest) => manifest,
                ProjectManifestPath::Scarb(manifest) => manifest,
            },
    {
        match self {
            ProjectManifestPath::CairoProject(manifest) => manifest,
            ProjectManifestPath::Scarb(manifest) => manifest,
        }
    }
}

/// A project that a compiler database can be set up for.
pub trait Project {
    /// The crate roots and settings that the project asks the database to
    /// hold: for each compilation unit, what became of each of its components.
    fn update_crate_roots(&self) -> Vec<Vec<ComponentOutcome>>;
}

/// A project of any kind.
pub type ProjectBox = Box<dyn Project>;

/// Loads the project that the manifest describes.
///
/// Only Scarb manifests can be loaded.
pub fn load_project(manifest: &ProjectManifestPath) -> (project: ScarbWorkspace)
    requires
        manifest is Scarb,
    ensures
        project.manifest_path()@ == manifest->Scarb_0@,
        project.metadata() is None,
{
    match manifest {
        ProjectManifestPath::Scarb(manifest_path) => ScarbWorkspace::load(manifest_path),
        ProjectManifestPath::CairoProject(_) => unreached(),
    }
}

} // verus!
