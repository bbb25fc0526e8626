use cairo_toolkit::paths::{clone_path, file_stem, join, pop, PathPart};
use cairo_toolkit::project::{
    load_project, Project, ProjectManifestPath, MAX_CRATE_DETECTION_DEPTH, PROJECT_FILE_NAME,
    SCARB_TOML,
};
use cairo_toolkit::scarb::ScarbWorkspace;

fn path(names: &[&str]) -> Vec<PathPart> {
    let mut parts = vec![PathPart::RootDir];
    parts.extend(names.iter().map(|name| PathPart::Normal(name.to_string())));
    parts
}

#[test]
fn pop_truncates_to_the_parent() {
    let mut file = path(&["a", "b.cairo"]);
    assert!(pop(&mut file));
    assert_eq!(file, path(&["a"]));
    assert!(pop(&mut file));
    assert_eq!(file, path(&[]));
    assert!(!pop(&mut file));
    assert_eq!(file, vec![PathPart::RootDir]);
    let mut empty: Vec<PathPart> = vec![];
    assert!(!pop(&mut empty));
    let mut prefix = vec![PathPart::Prefix("C:".to_string())];
    assert!(!pop(&mut prefix));
    let mut relative = vec![PathPart::ParentDir, PathPart::CurDir];
    assert!(pop(&mut relative));
    assert_eq!(relative, vec![PathPart::ParentDir]);
}

#[test]
fn join_adds_a_name() {
    assert_eq!(join(&path(&["a"]), "Scarb.toml"), path(&["a", "Scarb.toml"]));
    assert_eq!(clone_path(&path(&["x", "y"])), path(&["x", "y"]));
}

#[test]
fn file_stem_is_the_name_up_to_its_last_dot() {
    assert_eq!(file_stem(&path(&["src", "lib.cairo"])), Some("lib".to_string()));
    assert_eq!(file_stem(&path(&["a.tar.gz"])), Some("a.tar".to_string()));
    assert_eq!(file_stem(&path(&["noext"])), Some("noext".to_string()));
    assert_eq!(file_stem(&path(&[".hidden"])), Some(".hidden".to_string()));
    assert_eq!(file_stem(&path(&["dot."])), Some("dot".to_string()));
    assert_eq!(file_stem(&path(&[])), None);
    assert_eq!(file_stem(&vec![PathPart::ParentDir]), None);
    assert_eq!(file_stem(&vec![]), None);
}

#[test]
fn discover_prefers_a_cairo_project_manifest() {
    let source = path(&["ws", "pkg", "src", "lib.cairo"]);
    let scarb = path(&["ws", "pkg", SCARB_TOML]);
    let cairo_project = path(&["ws", PROJECT_FILE_NAME]);
    let found = ProjectManifestPath::discover(&source, |candidate: &Vec<PathPart>| {
        *candidate == scarb || *candidate == cairo_project
    });
    assert_eq!(found, Some(ProjectManifestPath::CairoProject(cairo_project.clone())));
    assert_eq!(found.unwrap().path(), &cairo_project);
}

#[test]
fn discover_finds_the_nearest_scarb_manifest() {
    let source = path(&["ws", "pkg", "src", "lib.cairo"]);
    let near = path(&["ws", "pkg", SCARB_TOML]);
    let far = path(&["ws", SCARB_TOML]);
    let found = ProjectManifestPath::discover(&source, |candidate: &Vec<PathPart>| {
        *candidate == near || *candidate == far
    });
    assert_eq!(found, Some(ProjectManifestPath::Scarb(near)));
}

#[test]
fn discover_finds_nothing_where_no_manifest_exists() {
    let source = path(&["ws", "pkg", "src", "lib.cairo"]);
    assert_eq!(ProjectManifestPath::discover(&source, |_: &Vec<PathPart>| false), None);
    // A manifest beside the path itself is not looked at: only the parents are.
    let beside = path(&["ws", "pkg", "src", "lib.cairo", SCARB_TOML]);
    assert_eq!(
        ProjectManifestPath::discover(&source, |candidate: &Vec<PathPart>| *candidate == beside),
        None
    );
}

#[test]
fn discover_gives_up_after_the_detection_depth() {
    let mut names: Vec<String> = (0..MAX_CRATE_DETECTION_DEPTH + 1).map(|i| format!("d{i}")).collect();
    names.push("file.cairo".to_string());
    let refs: Vec<&str> = names.iter().map(|name| name.as_str()).collect();
    let source = path(&refs);
    // The root is the 22nd parent; the directory `d0` is the 21st.
    let at_root = path(&[SCARB_TOML]);
    let in_d0 = path(&["d0", SCARB_TOML]);
    let in_d1 = path(&["d0", "d1", SCARB_TOML]);
    assert_eq!(
        ProjectManifestPath::discover(&source, |candidate: &Vec<PathPart>| *candidate == at_root),
        None
    );
    assert_eq!(
        ProjectManifestPath::discover(&source, |candidate: &Vec<PathPart>| *candidate == in_d0),
        None
    );
    assert_eq!(
        ProjectManifestPath::discover(&source, |candidate: &Vec<PathPart>| *candidate == in_d1),
        Some(ProjectManifestPath::Scarb(in_d1.clone()))
    );
}

#[test]
fn load_project_loads_a_scarb_workspace_without_metadata() {
    let manifest = ProjectManifestPath::Scarb(path(&["ws", SCARB_TOML]));
    let workspace: ScarbWorkspace = load_project(&manifest);
    assert!(workspace.update_crate_roots().is_empty());
    let boxed: Box<dyn Project> = Box::new(workspace);
    assert!(boxed.update_crate_roots().is_empty());
}
