use cairo_toolkit::paths::PathPart;
use cairo_toolkit::project::Project;
use cairo_toolkit::scarb::{
    component_crate_root, find_package, scarb_package_edition,
    scarb_package_experimental_features, update_crate_roots, validate_and_chop_source_path,
    virtual_wrapper_lib, Cfg, CompilationUnitComponentMetadata, CompilationUnitMetadata,
    ComponentOutcome, CrateRoot, CrateSettings, Edition, ExperimentalFeaturesConfig,
    PackageMetadata, ScarbMetadata, ScarbWorkspace, SourceKind, SourcePathError,
};

fn path(names: &[&str]) -> Vec<PathPart> {
    let mut parts = vec![PathPart::RootDir];
    parts.extend(names.iter().map(|name| PathPart::Normal(name.to_string())));
    parts
}

fn package(id: &str, edition: Option<&str>, features: &[&str]) -> PackageMetadata {
    PackageMetadata {
        id: id.to_string(),
        edition: edition.map(|edition| edition.to_string()),
        experimental_features: features.iter().map(|feature| feature.to_string()).collect(),
    }
}

fn component(
    package: &str,
    name: &str,
    source: &[&str],
    kind: SourceKind,
    cfg: Option<Vec<Cfg>>,
) -> CompilationUnitComponentMetadata {
    CompilationUnitComponentMetadata {
        package: package.to_string(),
        name: name.to_string(),
        source_path: path(source),
        source_kind: kind,
        cfg,
    }
}

#[test]
fn edition_is_read_from_its_name() {
    let editions = [
        ("2023_01", Edition::V2023_01),
        ("2023_10", Edition::V2023_10),
        ("2023_11", Edition::V2023_11),
        ("2024_07", Edition::V2024_07),
        ("2025_12", Edition::V2025_12),
    ];
    for (name, edition) in editions {
        assert_eq!(scarb_package_edition(Some(&package("p", Some(name), &[]))), edition);
    }
}

#[test]
fn edition_defaults_where_none_can_be_read() {
    assert_eq!(Edition::default(), Edition::V2023_01);
    assert_eq!(scarb_package_edition(None), Edition::V2023_01);
    assert_eq!(scarb_package_edition(Some(&package("p", None, &[]))), Edition::V2023_01);
    assert_eq!(scarb_package_edition(Some(&package("p", Some("2024"), &[]))), Edition::V2023_01);
    assert_eq!(scarb_package_edition(Some(&package("p", Some("V2024_07"), &[]))), Edition::V2023_01);
    assert_eq!(scarb_package_edition(Some(&package("p", Some(""), &[]))), Edition::V2023_01);
}

#[test]
fn experimental_features_are_looked_up_by_name() {
    assert_eq!(
        scarb_package_experimental_features(None),
        ExperimentalFeaturesConfig { negative_impls: false, coupons: false }
    );
    assert_eq!(
        scarb_package_experimental_features(Some(&package("p", None, &["coupons", "other"]))),
        ExperimentalFeaturesConfig { negative_impls: false, coupons: true }
    );
    assert_eq!(
        scarb_package_experimental_features(Some(&package(
            "p",
            None,
            &["negative_impls", "coupons"]
        ))),
        ExperimentalFeaturesConfig { negative_impls: true, coupons: true }
    );
    assert_eq!(
        scarb_package_experimental_features(Some(&package("p", None, &["negative_impl"]))),
        ExperimentalFeaturesConfig { negative_impls: false, coupons: false }
    );
}

#[test]
fn source_path_is_chopped_into_directory_and_stem() {
    assert_eq!(
        validate_and_chop_source_path(&path(&["pkg", "src", "lib.cairo"]), SourceKind::File),
        Ok((path(&["pkg", "src"]), "lib".to_string()))
    );
    assert_eq!(
        validate_and_chop_source_path(&path(&["pkg", "hello.cairo"]), SourceKind::File),
        Ok((path(&["pkg"]), "hello".to_string()))
    );
}

#[test]
fn source_path_that_is_not_a_file_with_a_parent_is_refused() {
    let source = path(&["pkg", "src", "lib.cairo"]);
    assert_eq!(
        validate_and_chop_source_path(&source, SourceKind::Missing),
        Err(SourcePathError::Inaccessible)
    );
    assert_eq!(
        validate_and_chop_source_path(&source, SourceKind::Directory),
        Err(SourcePathError::IsDirectory)
    );
    assert_eq!(
        validate_and_chop_source_path(&path(&[]), SourceKind::File),
        Err(SourcePathError::FsRoot)
    );
    assert_eq!(
        validate_and_chop_source_path(&vec![PathPart::CurDir, PathPart::ParentDir], SourceKind::File),
        Err(SourcePathError::NoFileStem)
    );
}

#[test]
fn wrapper_lib_declares_the_module() {
    assert_eq!(virtual_wrapper_lib("hello"), "mod hello;");
}

#[test]
fn find_package_takes_the_first_with_the_identifier() {
    let packages = vec![
        package("a", Some("2023_10"), &[]),
        package("b", None, &[]),
        package("a", Some("2024_07"), &[]),
    ];
    assert_eq!(find_package(&packages, "a"), Some(&packages[0]));
    assert_eq!(find_package(&packages, "b"), Some(&packages[1]));
    assert_eq!(find_package(&packages, "c"), None);
}

#[test]
fn component_becomes_a_crate_root() {
    let unit_cfg = vec![Cfg::Name("test".to_string())];
    let own_cfg = vec![Cfg::KV("target".to_string(), "lib".to_string())];
    let found = package("pkg 1.0", Some("2024_07"), &["coupons"]);
    let single_file =
        component("pkg 1.0", "hello", &["pkg", "hello.cairo"], SourceKind::File, None);
    assert_eq!(
        component_crate_root(&single_file, &unit_cfg, Some(&found)),
        ComponentOutcome::Configured(CrateRoot {
            crate_name: "hello".to_string(),
            root: path(&["pkg"]),
            settings: CrateSettings {
                edition: Edition::V2024_07,
                cfg_set: vec![Cfg::Name("test".to_string())],
                experimental_features: ExperimentalFeaturesConfig {
                    negative_impls: false,
                    coupons: true
                },
            },
            virtual_wrapper_lib: Some("mod hello;".to_string()),
        })
    );
    let with_lib = component(
        "pkg 1.0",
        "pkg",
        &["pkg", "src", "lib.cairo"],
        SourceKind::File,
        Some(own_cfg.clone()),
    );
    assert_eq!(
        component_crate_root(&with_lib, &unit_cfg, None),
        ComponentOutcome::Configured(CrateRoot {
            crate_name: "pkg".to_string(),
            root: path(&["pkg", "src"]),
            settings: CrateSettings {
                edition: Edition::V2023_01,
                cfg_set: own_cfg,
                experimental_features: ExperimentalFeaturesConfig {
                    negative_impls: false,
                    coupons: false
                },
            },
            virtual_wrapper_lib: None,
        })
    );
}

#[test]
fn crate_roots_come_unit_by_unit_and_component_by_component() {
    let metadata = ScarbMetadata {
        packages: vec![package("core", Some("2023_11"), &["negative_impls"])],
        compilation_units: vec![
            CompilationUnitMetadata {
                components: vec![
                    component("core", "core", &["corelib", "src", "lib.cairo"], SourceKind::File, None),
                    component("gone", "gone", &["gone", "src", "lib.cairo"], SourceKind::Missing, None),
                ],
                cfg: vec![],
            },
            CompilationUnitMetadata { components: vec![], cfg: vec![] },
            CompilationUnitMetadata {
                components: vec![component("dir", "dir", &["dir"], SourceKind::Directory, None)],
                cfg: vec![],
            },
        ],
    };
    let outcomes = update_crate_roots(&metadata);
    assert_eq!(outcomes.len(), 3);
    assert_eq!(outcomes[0].len(), 2);
    match &outcomes[0][0] {
        ComponentOutcome::Configured(root) => {
            assert_eq!(root.crate_name, "core");
            assert_eq!(root.root, path(&["corelib", "src"]));
            assert_eq!(root.settings.edition, Edition::V2023_11);
            assert!(root.settings.experimental_features.negative_impls);
            assert_eq!(root.virtual_wrapper_lib, None);
        }
        other => panic!("the component is passed over: {other:?}"),
    }
    assert_eq!(outcomes[0][1], ComponentOutcome::Skipped(SourcePathError::Inaccessible));
    assert!(outcomes[1].is_empty());
    assert_eq!(outcomes[2], vec![ComponentOutcome::Skipped(SourcePathError::IsDirectory)]);

    let mut workspace = ScarbWorkspace::load(&path(&["ws", "Scarb.toml"]));
    assert!(workspace.update_crate_roots().is_empty());
    workspace.set_metadata(metadata);
    assert_eq!(workspace.update_crate_roots(), outcomes);
}

#[test]
fn refused_source_paths_are_explained() {
    assert_eq!(
        SourcePathError::Inaccessible.message("hello", "/pkg/hello.cairo"),
        "io error when accessing source path of: hello"
    );
    assert_eq!(
        SourcePathError::IsDirectory.message("hello", "/pkg/src"),
        "source path of component `hello` must not be a directory: /pkg/src"
    );
    assert_eq!(
        SourcePathError::FsRoot.message("hello", "/"),
        "unexpected fs root as a source path of component `hello`: /"
    );
    assert_eq!(
        SourcePathError::NoFileStem.message("hello", "/pkg/.."),
        "failed to get file stem for component `hello`: /pkg/.."
    );
}
