use vstd::prelude::*;
use vstd::string::*;

use crate::paths::{clone_path, file_stem, has_parent, parent_of, pop, stem_of, PathPart};
use crate::project::Project;
use crate::text::{concat3, same_text};

verus! {

/// What the file system says of the source path of a component.
#[derive(Clone, Copy, Debug, PartialEq, Eq, Structural)]
pub enum SourceKind {
    /// The path could not be accessed.
    Missing,
    /// The path is a directory.
    Directory,
    /// The path is something else: a file.
    File,
}

/// Option for the `#[cfg(...)]` language attribute, as Scarb reports it.
#[derive(Debug, PartialEq, Eq)]
pub enum Cfg {
    /// `#[cfg(key: value)]`
    KV(String, String),
    /// `#[cfg(name)]`
    Name(String),
}

impl Clone for Cfg {
    fn clone(&self) -> (copy: Self)
        ensures
            copy == *self,
    {
        match self {
            Cfg::KV(key, value) => Cfg::KV(key.clone(), value.clone()),
            Cfg::Name(name) => Cfg::Name(name.clone()),
        }
    }
}

/// What Scarb reports of a package.
#[derive(Debug, PartialEq, Eq)]
pub struct PackageMetadata {
    /// The identifier of the package.
    pub id: String,
    /// The Cairo edition that the package asks for, if it names one.
    pub edition: Option<String>,
    /// The experimental compiler features that the package enables.
    pub experimental_features: Vec<String>,
}

/// One crate of a compilation unit.
#[derive(Debug, PartialEq, Eq)]
pub struct CompilationUnitComponentMetadata {
    /// The identifier of the package that the component belongs to.
    pub package: String,
    /// The name of the crate.
    pub name: String,
    /// The path of the main source file of the crate.
    pub source_path: Vec<PathPart>,
    /// What the file system says of `source_path`.
    pub source_kind: SourceKind,
    /// The `cfg` items of the component, where they differ from the unit's.
    pub cfg: Option<Vec<Cfg>>,
}

/// A set of crates that are compiled together.
#[derive(Debug, PartialEq, Eq)]
pub struct CompilationUnitMetadata {
    /// The crates of the unit.
    pub components: Vec<CompilationUnitComponentMetadata>,
    /// The `cfg` items of the unit.
    pub cfg: Vec<Cfg>,
}

/// What `scarb metadata` reports of a workspace.
#[derive(Debug, PartialEq, Eq)]
pub struct ScarbMetadata {
    /// The packages of the workspace.
    pub packages: Vec<PackageMetadata>,
    /// The compilation units of the workspace.
    pub compilation_units: Vec<CompilationUnitMetadata>,
}

/// The Cairo edition of a crate.
#[derive(Clone, Copy, Debug, PartialEq, Eq, Structural)]
pub enum Edition {
    /// The base edition, dated for the first release of the compiler.
    V2023_01,
    V2023_10,
    V2023_11,
    V2024_07,
    V2025_12,
}

impl Default for Edition {
    fn default() -> (edition: Self)
        ensures
            edition == Edition::V2023_01,
    {
        Edition::V2023_01
    }
}

/// The experimental features of a crate.
#[derive(Clone, Copy, Debug, PartialEq, Eq, Structural)]
pub struct ExperimentalFeaturesConfig {
    pub negative_impls: bool,
    pub coupons: bool,
}

/// The settings of a crate.
#[derive(Debug, PartialEq, Eq)]
pub struct CrateSettings {
    /// The edition of the crate.
    pub edition: Edition,
    /// The `cfg` items that hold for the crate.
    pub cfg_set: Vec<Cfg>,
    /// The experimental features of the crate.
    pub experimental_features: ExperimentalFeaturesConfig,
}

/// What a compiler database is asked to hold of one crate.
#[derive(Debug, PartialEq, Eq)]
pub struct CrateRoot {
    /// The name of the crate.
    pub crate_name: String,
    /// The directory of the crate's sources.
    pub root: Vec<PathPart>,
    /// The settings of the crate.
    pub settings: CrateSettings,
    /// The text of a wrapper `lib.cairo` to put in front of the crate, where its
    /// main source file is not itself called `lib`.
    pub virtual_wrapper_lib: Option<String>,
}

/// Why the source path of a component is not accepted.
#[derive(Clone, Copy, Debug, PartialEq, Eq, Structural)]
pub enum SourcePathError {
    /// The path could not be accessed.
    Inaccessible,
    /// The path is a directory.
    IsDirectory,
    /// The path is a file system root: it has no parent.
    FsRoot,
    /// The path does not end in a file name.
    NoFileStem,
}

impl SourcePathError {
    /// What is said of a source path that is not accepted, given the name of
    /// the crate and the path as it is shown.
    pub open spec fn message_text(self, crate_name: Seq<char>, source_path: Seq<char>) -> Seq<
        char,
    > {
        match self {
            SourcePathError::Inaccessible => "io error when accessing source path of: "@
                + crate_name,
            SourcePathError::IsDirectory => "source path of component `"@ + crate_name
                + "` must not be a directory: "@ + source_path,
            SourcePathError::FsRoot => "unexpected fs root as a source path of component `"@
                + crate_name + "`: "@ + source_path,
            SourcePathError::NoFileStem => "failed to get file stem for component `"@
                + crate_name + "`: "@ + source_path,
        }
    }

    /// What is said of a source path that is not accepted, given the name of
    /// the crate and the path as it is shown.
    pub fn message(&self, crate_name: &str, source_path: &str) -> (text: String)
        ensures
            text@ == self.message_text(crate_name@, source_path@),
    {
        match self {
            SourcePathError::Inaccessible => {
                let mut text = String::from_str("io error when accessing source path of: ");
                text.append(crate_name);
                text
            },
            SourcePathError::IsDirectory => {
                let mut text = concat3(
                    "source path of component `",
                    crate_name,
                    "` must not be a directory: ",
                );
                text.append(source_path);
                text
            },
            SourcePathError::FsRoot => {
                let mut text = concat3(
                    "unexpected fs root as a source path of component `",
                    crate_name,
                    "`: ",
                );
                text.append(source_path);
                text
            },
            SourcePathError::NoFileStem => {
                let mut text = concat3(
                    "failed to get file stem for component `",
                    crate_name,
                    "`: ",
                );
                text.append(source_path);
                text
            },
        }
    }
}

/// What became of one component of a compilation unit.
#[derive(Debug, PartialEq, Eq)]
pub enum ComponentOutcome {
    /// The component is passed over.
    Skipped(SourcePathError),
    /// The component becomes a crate of the database.
    Configured(CrateRoot),
}

/// The edition that a name stands for, as `cairo_lang_filesystem` spells them.
pub open spec fn edition_named(name: Seq<char>) -> Option<Edition> {
    if name == "2023_01"@ {
        Some(Edition::V2023_01)
    } else if name == "2023_10"@ {
        Some(Edition::V2023_10)
    } else if name == "2023_11"@ {
        Some(Edition::V2023_11)
    } else if name == "2024_07"@ {
        Some(Edition::V2024_07)
    } else if name == "2025_12"@ {
        Some(Edition::V2025_12)
    } else {
        None
    }
}

/// Reads an edition from its name.
///
/// Calls `serde_json::from_value` for `cairo_lang_filesystem::db::Edition` on a
/// JSON string: it yields the edition whose serialized name is that string,
/// and fails on every other string.
#[verifier::external_body]
fn parse_edition(name: &str) -> (edition: Option<Edition>)
    ensures
        edition == edition_named(name@),
{
    let value = serde_json::Value::String(name.to_string());
    match serde_json::from_value::<cairo_lang_filesystem::db::Edition>(value) {
        Ok(cairo_lang_filesystem::db::Edition::V2023_01) => Some(Edition::V2023_01),
        Ok(cairo_lang_filesystem::db::Edition::V2023_10) => Some(Edition::V2023_10),
        Ok(cairo_lang_filesystem::db::Edition::V2023_11) => Some(Edition::V2023_11),
        Ok(cairo_lang_filesystem::db::Edition::V2024_07) => Some(Edition::V2024_07),
        Ok(cairo_lang_filesystem::db::Edition::V2025_12) => Some(Edition::V2025_12),
        Err(_) => None,
    }
}

/// The package behind an optional reference.
pub open spec fn owned(package: Option<&PackageMetadata>) -> Option<PackageMetadata> {
    match package {
        Some(package) => Some(*package),
        None => None,
    }
}

/// The edition of a package: the one it names, or the default edition where
/// there is no package, it names none, or the name is not that of an edition.
pub open spec fn package_edition(package: Option<PackageMetadata>) -> Edition {
    match package {
        Some(package) => match package.edition {
            Some(name) => match edition_named(name@) {
                Some(edition) => edition,
                None => Edition::V2023_01,
            },
            None => Edition::V2023_01,
        },
        None => Edition::V2023_01,
    }
}

/// Get the [`Edition`] from [`PackageMetadata`], or assume the default edition.
pub fn scarb_package_edition(package: Option<&PackageMetadata>) -> (edition: Edition)
    ensures
        edition == package_edition(owned(package)),
{
    match package {
        Some(package) => match &package.edition {
            Some(name) => match parse_edition(name.as_str()) {
                Some(edition) => edition,
                None => Edition::default(),
            },
            None => Edition::default(),
        },
        None => Edition::default(),
    }
}

/// Whether `feature` is among the names in `features`.
pub open spec fn names_feature(features: Seq<String>, feature: Seq<char>) -> bool {
    exists|i: int| 0 <= i < features.len() && (#[trigger] features[i])@ == feature
}

/// Whether the package enables the experimental feature: no package enables none.
pub open spec fn package_enables(package: Option<PackageMetadata>, feature: Seq<char>) -> bool {
    match package {
        Some(package) => names_feature(package.experimental_features@, feature),
        None => false,
    }
}

fn enables(package: Option<&PackageMetadata>, feature: &str) -> (on: bool)
    ensures
        on == package_enables(owned(package), feature@),
{
    match package {
        Some(found) => {
            let features = &found.experimental_features;
            let mut i: usize = 0;
            while i < features.len()
                invariant
                    i <= features.len(),
                    package == Some(found),
                    *features == found.experimental_features,
                    forall|j: int| 0 <= j < i ==> (#[trigger] features@[j])@ != feature@,
                decreases features.len() - i,
            {
                if same_text(features[i].as_str(), feature) {
                    proof {
                        assert(0 <= i < features@.len() && features@[i as int]@ == feature@);
                    }
                    return true;
                }
                i += 1;
            }
            false
        },
        None => false,
    }
}

/// Get [`ExperimentalFeaturesConfig`] from [`PackageMetadata`] fields.
pub fn scarb_package_experimental_features(package: Option<&PackageMetadata>) -> (config:
    ExperimentalFeaturesConfig)
    ensures
        config.negative_impls == package_enables(owned(package), "negative_impls"@),
        config.coupons == package_enables(owned(package), "coupons"@),
{
    ExperimentalFeaturesConfig {
        negative_impls: enables(package, "negative_impls"),
        coupons: enables(package, "coupons"),
    }
}

/// What a valid source path is chopped into, or why it is not valid.
pub open spec fn chopped(source_path: Seq<PathPart>, kind: SourceKind) -> Result<
    (Seq<PathPart>, Seq<char>),
    SourcePathError,
> {
    if kind == SourceKind::Missing {
        Err(SourcePathError::Inaccessible)
    } else if kind == SourceKind::Directory {
        Err(SourcePathError::IsDirectory)
    } else if !has_parent(source_path) {
        Err(SourcePathError::FsRoot)
    } else {
        match source_path.last() {
            PathPart::Normal(name) => Ok((parent_of(source_path), stem_of(name@))),
            _ => Err(SourcePathError::NoFileStem),
        }
    }
}

/// Perform sanity checks on crate _source path_, and chop it into directory path and file stem.
pub fn validate_and_chop_source_path(source_path: &Vec<PathPart>, kind: SourceKind) -> (res: Result<
    (Vec<PathPart>, String),
    SourcePathError,
>)
    ensures
        match (res, chopped(source_path@, kind)) {
            (Ok((root, stem)), Ok((dir, name))) => root@ == dir && stem@ == name,
            (Err(e), Err(expected)) => e == expected,
            _ => false,
        },
{
    match kind {
        SourceKind::Missing => {
            return Err(SourcePathError::Inaccessible);
        },
        SourceKind::Directory => {
            return Err(SourcePathError::IsDirectory);
        },
        SourceKind::File => {},
    }
    let mut root = clone_path(source_path);
    if !pop(&mut root) {
        return Err(SourcePathError::FsRoot);
    }
    match file_stem(source_path) {
        Some(stem) => Ok((root, stem)),
        None => Err(SourcePathError::NoFileStem),
    }
}

/// The text of the wrapper lib file of a crate whose main source file is `file_stem`.
pub fn virtual_wrapper_lib(file_stem: &str) -> (content: String)
    ensures
        content@ == "mod "@ + file_stem@ + ";"@,
{
    concat3("mod ", file_stem, ";")
}

/// The first package with the given identifier, if there is one.
pub open spec fn package_for(packages: Seq<PackageMetadata>, id: Seq<char>) -> Option<
    PackageMetadata,
>
    decreases packages.len(),
{
    if packages.len() == 0 {
        None
    } else if packages[0].id@ == id {
        Some(packages[0])
    } else {
        package_for(packages.drop_first(), id)
    }
}

/// The first package with the given identifier, if there is one.
pub fn find_package<'a>(packages: &'a Vec<PackageMetadata>, id: &str) -> (found: Option<
    &'a PackageMetadata,
>)
    ensures
        owned(found) == package_for(packages@, id@),
{
    let mut i: usize = 0;
    proof {
        assert(packages@.skip(0) =~= packages@);
    }
    while i < packages.len()
        invariant
            i <= packages.len(),
            package_for(packages@, id@) == package_for(packages@.skip(i as int), id@),
        decreases packages.len() - i,
    {
        proof {
            assert(packages@.skip(i as int).drop_first() =~= packages@.skip(i + 1));
        }
        if same_text(packages[i].id.as_str(), id) {
            return Some(&packages[i]);
        }
        i += 1;
    }
    None
}

fn clone_cfgs(cfgs: &Vec<Cfg>) -> (copy: Vec<Cfg>)
    ensures
        copy@ == cfgs@,
{
    let mut copy: Vec<Cfg> = Vec::new();
    let mut i: usize = 0;
    while i < cfgs.len()
        invariant
            i <= cfgs.len(),
            copy@ == cfgs@.take(i as int),
        decreases cfgs.len() - i,
    {
        copy.push(cfgs[i].clone());
        proof {
            assert(cfgs@.take(i + 1) =~= cfgs@.take(i as int).push(cfgs@[i as int]));
        }
        i += 1;
    }
    proof {
        assert(cfgs@.take(cfgs@.len() as int) =~= cfgs@);
    }
    copy
}

/// Whether `outcome` is what becomes of `component` in a unit with the `cfg`
/// items `unit_cfg`, where `package` is the package found for it.
pub open spec fn outcome_of(
    component: CompilationUnitComponentMetadata,
    unit_cfg: Seq<Cfg>,
    package: Option<PackageMetadata>,
    outcome: ComponentOutcome,
) -> bool {
    match chopped(component.source_path@, component.source_kind) {
        Err(error) => outcome == ComponentOutcome::Skipped(error),
        Ok((dir, stem)) => {
            &&& outcome matches ComponentOutcome::Configured(root)
            &&& root.crate_name == component.name
            &&& root.root@ == dir
            &&& root.settings.edition == package_edition(package)
            &&& root.settings.cfg_set@ == match component.cfg {
                Some(own) => own@,
                None => unit_cfg,
            }
            &&& root.settings.experimental_features.negative_impls == package_enables(
                package,
                "negative_impls"@,
            )
            &&& root.settings.experimental_features.coupons == package_enables(package, "coupons"@)
            &&& match root.virtual_wrapper_lib {
                Some(content) => stem != "lib"@ && content@ == "mod "@ + stem + ";"@,
                None => stem == "lib"@,
            }
        },
    }
}

/// What becomes of one component.
pub fn component_crate_root(
    component: &CompilationUnitComponentMetadata,
    unit_cfg: &Vec<Cfg>,
    package: Option<&PackageMetadata>,
) -> (outcome: ComponentOutcome)
    ensures
        outcome_of(*component, unit_cfg@, owned(package), outcome),
{
    let (root, file_stem) = match validate_and_chop_source_path(
        &component.source_path,
        component.source_kind,
    ) {
        Ok(chopped) => chopped,
        Err(error) => {
            return ComponentOutcome::Skipped(error);
        },
    };
    let cfg_set = match &component.cfg {
        Some(own) => clone_cfgs(own),
        None => clone_cfgs(unit_cfg),
    };
    let settings = CrateSettings {
        edition: scarb_package_edition(package),
        cfg_set,
        experimental_features: scarb_package_experimental_features(package),
    };
    let virtual_wrapper_lib = if same_text(file_stem.as_str(), "lib") {
        None
    } else {
        Some(virtual_wrapper_lib(file_stem.as_str()))
    };
    ComponentOutcome::Configured(
        CrateRoot { crate_name: component.name.clone(), root, settings, virtual_wrapper_lib },
    )
}

/// Whether `outcomes` holds, unit by unit and component by component, what
/// becomes of each component of the workspace.
pub open spec fn crate_roots_of(metadata: ScarbMetadata, outcomes: Seq<Vec<ComponentOutcome>>) -> bool {
    &&& outcomes.len() == metadata.compilation_units@.len()
    &&& forall|u: int|
        0 <= u < outcomes.len() ==> unit_roots_of(
            metadata.packages@,
            metadata.compilation_units@[u],
            (#[trigger] outcomes[u])@,
        )
}

/// Whether `row` holds what becomes of each component of the unit.
pub open spec fn unit_roots_of(
    packages: Seq<PackageMetadata>,
    unit: CompilationUnitMetadata,
    row: Seq<ComponentOutcome>,
) -> bool {
    &&& row.len() == unit.components@.len()
    &&& forall|c: int|
        0 <= c < row.len() ==> outcome_of(
            unit.components@[c],
            unit.cfg@,
            package_for(packages, unit.components@[c].package@),
            #[trigger] row[c],
        )
}

/// Works out the crate roots of a workspace: for each component of each
/// compilation unit, the crate that a compiler database is to hold, or why
/// the component is passed over.
pub fn update_crate_roots(metadata: &ScarbMetadata) -> (outcomes: Vec<Vec<ComponentOutcome>>)
    ensures
        crate_roots_of(*metadata, outcomes@),
{
    let mut outcomes: Vec<Vec<ComponentOutcome>> = Vec::new();
    let mut u: usize = 0;
    while u < metadata.compilation_units.len()
        invariant
            u <= metadata.compilation_units.len(),
            outcomes@.len() == u,
            forall|k: int|
                0 <= k < u ==> unit_roots_of(
                    metadata.packages@,
                    metadata.compilation_units@[k],
                    (#[trigger] outcomes@[k])@,
                ),
        decreases metadata.compilation_units.len() - u,
    {
        let unit = &metadata.compilation_units[u];
        let mut row: Vec<ComponentOutcome> = Vec::new();
        let mut c: usize = 0;
        while c < unit.components.len()
            invariant
                c <= unit.components.len(),
                row@.len() == c,
                forall|k: int|
                    0 <= k < c ==> outcome_of(
                        unit.components@[k],
                        unit.cfg@,
                        package_for(metadata.packages@, unit.components@[k].package@),
                        #[trigger] row@[k],
                    ),
            decreases unit.components.len() - c,
        {
            let component = &unit.components[c];
            let package = find_package(&metadata.packages, component.package.as_str());
            let outcome = component_crate_root(component, &unit.cfg, package);
            row.push(outcome);
            c += 1;
        }
        outcomes.push(row);
        u += 1;
    }
    outcomes
}

/// A Scarb workspace.
pub struct ScarbWorkspace {
    /// Path to the top-most Scarb manifest file (i.e., the **workspace** one).
    manifest_path: Vec<PathPart>,
    /// Last known revision of `scarb metadata` command output.
    metadata: Option<ScarbMetadata>,
}

impl ScarbWorkspace {
    /// The path of the workspace manifest.
    pub closed spec fn manifest_path(&self) -> Vec<PathPart> {
        self.manifest_path
    }

    /// The last known metadata of the workspace.
    pub closed spec fn metadata(&self) -> Option<ScarbMetadata> {
        self.metadata
    }

    /// A workspace of which only the manifest path is known yet.
    pub fn load(manifest_path: &Vec<PathPart>) -> (workspace: Self)
        ensures
            workspace.manifest_path()@ == manifest_path@,
            workspace.metadata() is None,
    {
        ScarbWorkspace { manifest_path: clone_path(manifest_path), metadata: None }
    }

    /// Records a new revision of the `scarb metadata` output.
    pub fn set_metadata(&mut self, metadata: ScarbMetadata)
        ensures
            final(self).manifest_path() == old(self).manifest_path(),
            final(self).metadata() == Some(metadata),
    {
        self.metadata = Some(metadata);
    }
}

impl Project for ScarbWorkspace {
    /// Nothing while no metadata has been loaded; afterwards the crate roots
    /// of the workspace.
    fn update_crate_roots(&self) -> (outcomes: Vec<Vec<ComponentOutcome>>)
        ensures
            match self.metadata() {
                Some(metadata) => crate_roots_of(metadata, outcomes@),
                None => outcomes@.len() == 0,
            },
    {
        match &self.metadata {
            Some(metadata) => update_crate_roots(metadata),
            None => Vec::new(),
        }
    }
}

} // verus!
