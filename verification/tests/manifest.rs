use rustmerge::manifest::{
    determine_package, find_src_dir, flat_name_of, member_names_of, output_path_of, plan_packages,
    read_manifest, Manifest, ManifestError, PackageJob, Workspace,
};

fn package_manifest(name: &str) -> String {
    format!("[package]\nname = \"{}\"\nversion = \"0.1.0\"\nedition = \"2021\"\n", name)
}

fn no_manifest() -> Manifest {
    Manifest { package_name: None, package_src: None, workspace: None }
}

fn workspace(members: Option<Vec<Option<&str>>>) -> Manifest {
    Manifest {
        package_name: None,
        package_src: None,
        workspace: Some(Workspace {
            members: members.map(|m| m.into_iter().map(|n| n.map(|s| s.to_string())).collect()),
        }),
    }
}

#[test]
fn test_determine_package_with_provided_name() {
    let package_name = "test_package".to_string();
    let current_dir = ".";
    let result = determine_package(current_dir, &Some(package_name.clone()), &no_manifest());
    assert!(result.is_ok());
    let (name, path) = result.unwrap();
    assert_eq!(name, package_name);
    assert_eq!(path, "./test_package");
}

#[test]
fn test_determine_package_from_cargo_toml() {
    let manifest = read_manifest(&package_manifest("test_package")).unwrap();
    let result = determine_package("/tmp/some_dir", &None, &manifest);
    assert!(result.is_ok());
    let (name, path) = result.unwrap();
    assert_eq!(name, "test_package");
    assert_eq!(path, "/tmp/some_dir");
}

#[test]
fn test_find_src_dir() {
    let manifest = "[package]\n    name = \"test_package\"\n    version = \"0.1.0\"\n    edition = \"2021\"\n    \n";
    let manifest = read_manifest(manifest).expect("Failed to find src dir");
    let src_dir_found = find_src_dir("/tmp/pkg", &manifest);
    assert_eq!(src_dir_found, "/tmp/pkg/src");
}

#[test]
fn a_manifest_can_name_its_source_directory() {
    let text = "[package]\nname = \"p\"\nsrc = \"sources\"\n";
    let manifest = read_manifest(text).unwrap();
    assert_eq!(find_src_dir("/tmp/pkg", &manifest), "/tmp/pkg/sources");
    assert_eq!(
        manifest,
        Manifest {
            package_name: Some("p".to_string()),
            package_src: Some("sources".to_string()),
            workspace: None
        }
    );
    assert_eq!(find_src_dir("pkg", &manifest), "pkg/sources");
    assert_eq!(find_src_dir("pkg", &no_manifest()), "pkg/src");
    assert_eq!(find_src_dir("pkg", &read_manifest("[package]\nsrc = 3\n").unwrap()), "pkg/src");
}

#[test]
fn read_manifest_reads_workspaces() {
    assert_eq!(
        read_manifest("[workspace]\nmembers = [\"a\", \"crates/b\"]\n"),
        Ok(workspace(Some(vec![Some("a"), Some("crates/b")])))
    );
    assert_eq!(read_manifest("[workspace]\n"), Ok(workspace(None)));
    assert_eq!(read_manifest("[workspace]\nmembers = \"a\"\n"), Ok(workspace(None)));
    assert_eq!(
        read_manifest("[workspace]\nmembers = [\"a\", 1]\n"),
        Ok(workspace(Some(vec![Some("a"), None])))
    );
    assert_eq!(read_manifest(""), Ok(no_manifest()));
    assert_eq!(read_manifest("package = 1\nworkspace = 2\n"), Ok(workspace(None)));
}

#[test]
fn read_manifest_refuses_invalid_text() {
    match read_manifest("[package\nname = ") {
        Err(ManifestError::Invalid { message }) => assert!(!message.is_empty()),
        other => panic!("unexpected: {:?}", other),
    }
    assert!(matches!(read_manifest("= ="), Err(ManifestError::Invalid { .. })));
}

#[test]
fn a_workspace_needs_a_package_name() {
    assert_eq!(
        determine_package("/w", &None, &workspace(Some(vec![Some("a"), Some("b")]))),
        Err(ManifestError::WorkspaceNeedsPackage { members: vec!["a".to_string(), "b".to_string()] })
    );
    assert_eq!(
        determine_package("/w", &None, &workspace(None)),
        Err(ManifestError::MembersMissing)
    );
    assert_eq!(
        determine_package("/w", &None, &workspace(Some(vec![Some("a"), None, None]))),
        Err(ManifestError::MemberNotText { index: 1 })
    );
    assert_eq!(
        determine_package("/w", &Some("a".to_string()), &workspace(None)),
        Ok(("a".to_string(), "/w/a".to_string()))
    );
    assert_eq!(determine_package("/w", &None, &no_manifest()), Err(ManifestError::PackageNameMissing));
}

#[test]
fn member_names_are_the_members_in_order() {
    assert_eq!(
        member_names_of(&Workspace { members: Some(vec![Some("b".to_string()), Some("a".to_string())]) }),
        Ok(vec!["b".to_string(), "a".to_string()])
    );
    assert_eq!(member_names_of(&Workspace { members: Some(vec![]) }), Ok(vec![]));
    assert_eq!(member_names_of(&Workspace { members: None }), Err(ManifestError::MembersMissing));
    assert_eq!(
        member_names_of(&Workspace { members: Some(vec![None]) }),
        Err(ManifestError::MemberNotText { index: 0 })
    );
}

#[test]
fn every_member_of_a_workspace_is_planned() {
    let manifest = workspace(Some(vec![Some("a"), Some("crates/b.c")]));
    assert_eq!(
        plan_packages("/w", &manifest, &Some("out".to_string())),
        Ok(vec![
            PackageJob {
                name: "a".to_string(),
                path: "/w/a".to_string(),
                output_path: Some("out/a.rs".to_string())
            },
            PackageJob {
                name: "crates/b.c".to_string(),
                path: "/w/crates/b.c".to_string(),
                output_path: Some("out/crates_b.rs".to_string())
            },
        ])
    );
    assert_eq!(
        plan_packages("/w", &manifest, &None),
        Ok(vec![
            PackageJob { name: "a".to_string(), path: "/w/a".to_string(), output_path: None },
            PackageJob {
                name: "crates/b.c".to_string(),
                path: "/w/crates/b.c".to_string(),
                output_path: None
            },
        ])
    );
    assert_eq!(plan_packages("/w", &workspace(None), &None), Err(ManifestError::MembersMissing));
    assert_eq!(
        plan_packages("/w", &workspace(Some(vec![None])), &None),
        Err(ManifestError::MemberNotText { index: 0 })
    );
}

#[test]
fn a_single_package_is_planned_alone() {
    let manifest = read_manifest(&package_manifest("solo")).unwrap();
    assert_eq!(
        plan_packages("/p", &manifest, &Some("out.rs".to_string())),
        Ok(vec![PackageJob {
            name: "solo".to_string(),
            path: "/p".to_string(),
            output_path: Some("out.rs".to_string())
        }])
    );
    assert_eq!(plan_packages("/p", &no_manifest(), &None), Err(ManifestError::PackageNameMissing));
}

#[test]
fn output_goes_to_the_target_directory_unless_fixed() {
    assert_eq!(output_path_of(&None, "/w", "pkg"), "/w/target/rustmerge/pkg.rs");
    assert_eq!(output_path_of(&Some("x/y.txt".to_string()), "/w", "pkg"), "x/y.txt");
    assert_eq!(flat_name_of("a/b/c"), "a_b_c");
    assert_eq!(flat_name_of("abc"), "abc");
    assert_eq!(flat_name_of(""), "");
}

#[test]
fn manifest_errors_have_messages() {
    assert_eq!(
        ManifestError::Invalid { message: "bad".to_string() }.message(),
        "Failed to read the manifest: bad"
    );
    assert_eq!(ManifestError::MembersMissing.message(), "Failed to get workspace members");
    assert_eq!(
        ManifestError::MemberNotText { index: 2 }.message(),
        "A workspace member is not a string"
    );
    assert_eq!(ManifestError::PackageNameMissing.message(), "Failed to determine package name");
    assert_eq!(
        ManifestError::WorkspaceNeedsPackage { members: vec![] }.message(),
        "This is a workspace. Please run the command again with the package name."
    );
}
