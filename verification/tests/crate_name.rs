use rapace::crate_name::{
    extract_crate_names, extract_workspace_dependencies, find_crate, get_package_name,
    sanitize_crate_name, Dependency, Error, FoundCrate,
};

fn dep(name: &str, d: Dependency) -> (String, Dependency) {
    (name.to_string(), d)
}

#[test]
fn sanitizes_dashes() {
    assert_eq!(sanitize_crate_name("rapace-core"), "rapace_core");
    assert_eq!(sanitize_crate_name("a-b-c"), "a_b_c");
    assert_eq!(sanitize_crate_name("plain"), "plain");
    assert_eq!(sanitize_crate_name(""), "");
    assert_eq!(sanitize_crate_name("-é-"), "_é_");
}

#[test]
fn package_names_of_dependencies() {
    assert_eq!(get_package_name(&Dependency::Version), None);
    assert_eq!(get_package_name(&Dependency::Workspace), None);
    let renamed = Dependency::Detailed { package: Some("rapace".to_string()) };
    assert_eq!(get_package_name(&renamed), Some("rapace"));
    assert_eq!(get_package_name(&Dependency::Detailed { package: None }), None);
}

#[test]
fn workspace_dependency_table() {
    let ws = extract_workspace_dependencies(&vec![
        dep("my-rapace", Dependency::Detailed { package: Some("rapace".to_string()) }),
        dep("tokio", Dependency::Version),
    ]);
    assert_eq!(
        ws,
        vec![
            ("my-rapace".to_string(), "rapace".to_string()),
            ("tokio".to_string(), "tokio".to_string()),
        ]
    );
}

#[test]
fn crate_names_of_a_manifest() {
    let deps = vec![
        dep("serde", Dependency::Version),
        dep("my-rapace", Dependency::Detailed { package: Some("rapace".to_string()) }),
        dep("ws-dep", Dependency::Workspace),
        dep("app", Dependency::Version),
    ];
    let ws = vec![("ws-dep".to_string(), "real-pkg".to_string())];
    let names = extract_crate_names(Some("app"), false, &deps, &ws);
    assert_eq!(
        names,
        vec![
            ("app".to_string(), FoundCrate::Itself),
            ("serde".to_string(), FoundCrate::Name("serde".to_string())),
            ("rapace".to_string(), FoundCrate::Name("my_rapace".to_string())),
            ("real-pkg".to_string(), FoundCrate::Name("ws_dep".to_string())),
        ]
    );
    assert_eq!(
        find_crate(&names, "rapace", "/m/Cargo.toml").ok(),
        Some(FoundCrate::Name("my_rapace".to_string()))
    );
    assert_eq!(find_crate(&names, "app", "/m/Cargo.toml").ok(), Some(FoundCrate::Itself));
}

#[test]
fn integration_tests_name_the_package() {
    let names = extract_crate_names(Some("my-app"), true, &vec![], &vec![]);
    assert_eq!(names, vec![("my-app".to_string(), FoundCrate::Name("my_app".to_string()))]);
}

#[test]
fn missing_crate_is_reported() {
    let names = extract_crate_names(None, false, &vec![dep("a", Dependency::Version)], &vec![]);
    match find_crate(&names, "rapace", "/m/Cargo.toml") {
        Err(e) => {
            assert!(matches!(e, Error::CrateNotFound { .. }));
            assert_eq!(
                e.to_string(),
                "Could not find `rapace` in `dependencies` or `dev-dependencies` in `/m/Cargo.toml`!"
            );
        }
        Ok(f) => panic!("unexpected {:?}", f),
    }
}

#[test]
fn crate_name_error_messages() {
    assert_eq!(
        Error::NotFound("/x".to_string()).to_string(),
        "Could not find `Cargo.toml` in manifest dir: `/x`."
    );
    assert_eq!(
        Error::CargoManifestDirNotSet.to_string(),
        "`CARGO_MANIFEST_DIR` env variable not set."
    );
    assert_eq!(
        Error::CouldNotRead { path: "/y".to_string(), message: "denied".to_string() }.to_string(),
        "Could not read `/y`: denied"
    );
    assert_eq!(
        Error::FailedGettingWorkspaceManifestPath.to_string(),
        "Failed to get the path of the workspace manifest path."
    );
}
