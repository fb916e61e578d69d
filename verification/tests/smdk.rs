use fluvio_control::smdk::{
    CargoSmDependSource, DependencyChoice, GenerateCmd, SmartModuleType, SmdkTemplateUserValues,
    SmdkTemplateValue, TemplateChoice, FLUVIO_SMARTMODULE_REPO,
};

#[test]
fn test_cargo_dependency_values() {
    let test_semver = "4.5.6".to_string();
    let test_template_values = vec![
        CargoSmDependSource::CratesIo(test_semver),
        CargoSmDependSource::Git(FLUVIO_SMARTMODULE_REPO.to_string()),
        CargoSmDependSource::GitBranch {
            url: FLUVIO_SMARTMODULE_REPO.to_string(),
            branch: "my-branch".to_string(),
        },
        CargoSmDependSource::GitTag {
            url: FLUVIO_SMARTMODULE_REPO.to_string(),
            tag: "my-tag".to_string(),
        },
        CargoSmDependSource::GitRev {
            url: FLUVIO_SMARTMODULE_REPO.to_string(),
            rev: "abcdef01189998119991197253".to_string(),
        },
    ];

    for value in test_template_values {
        match &value {
            CargoSmDependSource::CratesIo(version) => {
                assert_eq!(value.text(), format!("\"{version}\""))
            }
            CargoSmDependSource::Git(url) => {
                assert_eq!(value.text(), format!("{{ git = \"{url}\" }}"))
            }
            CargoSmDependSource::GitBranch { url, branch } => {
                assert_eq!(
                    value.text(),
                    format!("{{ git = \"{url}\", branch = \"{branch}\" }}")
                )
            }
            CargoSmDependSource::GitTag { url, tag } => {
                assert_eq!(
                    value.text(),
                    format!("{{ git = \"{url}\", tag = \"{tag}\" }}")
                )
            }
            CargoSmDependSource::GitRev { url, rev } => {
                assert_eq!(
                    value.text(),
                    format!("{{ git = \"{url}\", rev = \"{rev}\" }}")
                )
            }
            CargoSmDependSource::Path(path) => {
                assert_eq!(value.text(), format!("{{ path = \"{}\" }}", path))
            }
        }
    }
}

#[test]
fn a_directory_as_dependency() {
    assert_eq!(
        CargoSmDependSource::Path("../smartmodule".to_string()).text(),
        "{ path = \"../smartmodule\" }"
    );
}

#[test]
fn test_generate_user_values() {
    let test_template_values = vec![
        SmdkTemplateValue::UseParams(true),
        SmdkTemplateValue::SmCargoDependency(CargoSmDependSource::CratesIo("0.1.0".to_string())),
        SmdkTemplateValue::SmType(SmartModuleType::FilterMap),
        SmdkTemplateValue::ProjectGroup("ExampleGroupName".to_string()),
    ];

    for value in test_template_values {
        match value {
            SmdkTemplateValue::UseParams(_) => {
                assert_eq!(
                    &SmdkTemplateValue::UseParams(true).text(),
                    "smartmodule-params=true"
                );
            }

            SmdkTemplateValue::SmCargoDependency(_) => {
                assert_eq!(
                    &SmdkTemplateValue::SmCargoDependency(CargoSmDependSource::CratesIo(
                        "0.1.0".to_string()
                    ))
                    .text(),
                    "fluvio-smartmodule-cargo-dependency=\"0.1.0\""
                );
            }

            SmdkTemplateValue::SmType(_) => {
                assert_eq!(
                    &SmdkTemplateValue::SmType(SmartModuleType::FilterMap).text(),
                    "smartmodule-type=filter-map"
                );
            }

            SmdkTemplateValue::ProjectGroup(_) => {
                assert_eq!(
                    &SmdkTemplateValue::ProjectGroup("ExampleGroupName".to_string()).text(),
                    "project-group=ExampleGroupName"
                );
            }
            SmdkTemplateValue::SmPublic(_) => {
                assert_eq!(
                    &SmdkTemplateValue::SmPublic(true).text(),
                    "smartmodule-public=true"
                );
                assert_eq!(
                    &SmdkTemplateValue::SmPublic(false).text(),
                    "smartmodule-public=false"
                );
            }
        }
    }
}

#[test]
fn test_template_builder() {
    let mut values = SmdkTemplateUserValues::new();
    let test_version_number = "test-version-value".to_string();
    values
        .with_project_group(Some("ExampleGroupName".to_string()))
        .with_smart_module_type(Some(SmartModuleType::Aggregate))
        .with_smart_module_params(Some(true))
        .with_smart_module_cargo_dependency(Some(CargoSmDependSource::CratesIo(
            test_version_number.clone(),
        )))
        .with_smart_module_public(Some(false));

    let values_vec = values.to_vec();
    assert_eq!(values_vec.len(), 5);

    for v in values_vec {
        match v {
            SmdkTemplateValue::UseParams(_) => {
                assert_eq!(v, SmdkTemplateValue::UseParams(true));
            }

            SmdkTemplateValue::SmCargoDependency(_) => {
                assert_eq!(
                    v,
                    SmdkTemplateValue::SmCargoDependency(CargoSmDependSource::CratesIo(
                        test_version_number.clone()
                    ))
                );
            }

            SmdkTemplateValue::SmType(_) => {
                assert_eq!(v, SmdkTemplateValue::SmType(SmartModuleType::Aggregate));
            }

            SmdkTemplateValue::ProjectGroup(_) => {
                assert_eq!(
                    v,
                    SmdkTemplateValue::ProjectGroup("ExampleGroupName".to_string())
                );
            }
            SmdkTemplateValue::SmPublic(_) => {
                assert_eq!(v, SmdkTemplateValue::SmPublic(false));
            }
        }
    }
}

fn request() -> GenerateCmd {
    GenerateCmd {
        name: None,
        project_group: None,
        destination: None,
        silent: false,
        template_repo: None,
        template_repo_branch: None,
        template_repo_tag: None,
        template_path: None,
        sm_crate_repo: None,
        sm_repo_branch: None,
        sm_repo_tag: None,
        sm_repo_rev: None,
        sm_crate_path: None,
        sm_crate_version: None,
        sm_type: None,
        sm_public: None,
        with_params: false,
        no_params: false,
        hub_remote: None,
        develop: false,
    }
}

fn known(cmd: &GenerateCmd) -> String {
    match cmd.dependency_source() {
        DependencyChoice::Known(source) => source.text(),
        DependencyChoice::FetchLatest => "latest".to_string(),
    }
}

#[test]
fn types_have_their_names() {
    assert_eq!(SmartModuleType::Filter.text(), "filter");
    assert_eq!(SmartModuleType::Mapper.text(), "map");
    assert_eq!(SmartModuleType::ArrayMap.text(), "array-map");
    assert_eq!(SmartModuleType::Aggregate.text(), "aggregate");
}

#[test]
fn the_source_of_the_library() {
    let mut cmd = request();
    assert_eq!(known(&cmd), "latest");
    cmd.develop = true;
    assert_eq!(
        known(&cmd),
        "{ git = \"https://github.com/fluvio-community/fluvio.git\" }"
    );
    cmd.sm_crate_path = Some("../lib".to_string());
    assert_eq!(known(&cmd), "{ path = \"../lib\" }");
    cmd.sm_crate_repo = Some("https://example.com/sm.git".to_string());
    assert_eq!(known(&cmd), "{ git = \"https://example.com/sm.git\" }");
    cmd.sm_repo_rev = Some("abc".to_string());
    assert_eq!(
        known(&cmd),
        "{ git = \"https://example.com/sm.git\", rev = \"abc\" }"
    );
    cmd.sm_repo_tag = Some("v1".to_string());
    assert_eq!(
        known(&cmd),
        "{ git = \"https://example.com/sm.git\", tag = \"v1\" }"
    );
    cmd.sm_repo_branch = Some("main".to_string());
    assert_eq!(
        known(&cmd),
        "{ git = \"https://example.com/sm.git\", branch = \"main\" }"
    );
    cmd.sm_crate_version = Some("1.2.3".to_string());
    assert_eq!(known(&cmd), "\"1.2.3\"");
}

#[test]
fn the_definitions_of_a_request() {
    let mut cmd = request();
    let config = cmd.config(CargoSmDependSource::CratesIo("0.7.0".to_string())).unwrap();
    assert_eq!(config.name, "my-smartmodule");
    assert!(config.verbose);
    assert_eq!(
        config.define,
        vec!["fluvio-smartmodule-cargo-dependency=\"0.7.0\"".to_string()]
    );

    cmd.name = Some("sm".to_string());
    cmd.project_group = Some("team".to_string());
    cmd.sm_type = Some(SmartModuleType::Mapper);
    cmd.no_params = true;
    cmd.sm_public = Some(true);
    cmd.silent = true;
    let config = cmd.config(CargoSmDependSource::CratesIo("0.7.0".to_string())).unwrap();
    assert_eq!(config.name, "sm");
    assert!(config.silent && !config.verbose);
    assert_eq!(
        config.define,
        vec![
            "project-group=team".to_string(),
            "smartmodule-type=map".to_string(),
            "smartmodule-params=false".to_string(),
            "fluvio-smartmodule-cargo-dependency=\"0.7.0\"".to_string(),
            "smartmodule-public=true".to_string(),
        ]
    );

    cmd.project_group = Some(String::new());
    cmd.silent = false;
    cmd.with_params = true;
    let config = cmd.config(CargoSmDependSource::CratesIo("0.7.0".to_string())).unwrap();
    assert_eq!(config.define.len(), 3);
}

#[test]
fn a_silent_request_needs_all_values() {
    let config = |cmd: &GenerateCmd| cmd.config(CargoSmDependSource::CratesIo("0.7.0".to_string()));
    let mut cmd = request();
    assert!(config(&cmd).is_ok());
    cmd.silent = true;
    assert_eq!(config(&cmd).unwrap_err(), "the name of the project is missing");
    cmd.name = Some(String::new());
    assert_eq!(config(&cmd).unwrap_err(), "the type of the project is missing");
    cmd.sm_type = Some(SmartModuleType::Mapper);
    assert_eq!(
        config(&cmd).unwrap_err(),
        "whether the project takes parameters is missing"
    );
    cmd.with_params = true;
    assert_eq!(config(&cmd).unwrap_err(), "the visibility of the project is missing");
    cmd.sm_public = Some(false);
    let config = config(&cmd).unwrap();
    assert_eq!(config.name, "");
    assert!(config.silent && !config.verbose);
}

#[test]
fn the_source_of_the_template() {
    let mut cmd = request();
    assert!(matches!(cmd.template_source(), TemplateChoice::BuiltIn));
    cmd.develop = true;
    assert!(matches!(cmd.template_source(), TemplateChoice::LibraryRepository));
    cmd.template_path = Some("/t".to_string());
    match cmd.template_source() {
        TemplateChoice::LocalDir(path) => assert_eq!(path, "/t"),
        other => panic!("a directory was given: {other:?}"),
    }
    cmd.template_repo = Some("https://example.com/t.git".to_string());
    for (branch, tag, expected) in [
        (None, None, None),
        (None, Some("v1"), Some("v1")),
        (Some("main"), None, Some("main")),
        (Some("main"), Some("v1"), Some("main")),
    ] {
        cmd.template_repo_branch = branch.map(|s: &str| s.to_string());
        cmd.template_repo_tag = tag.map(|s: &str| s.to_string());
        match cmd.template_source() {
            TemplateChoice::Repository { url, reference } => {
                assert_eq!(url, "https://example.com/t.git");
                assert_eq!(reference.as_deref(), expected);
            }
            other => panic!("a repository was given: {other:?}"),
        }
    }
}
