use fluvio_control::cdk::{ConnectorType, GenerateCmd};

#[test]
fn the_definitions_of_a_connector() {
    let cmd = GenerateCmd {
        name: Some("my-source".to_string()),
        group: Some("team".to_string()),
        conn_description: Some("reads".to_string()),
        destination: Some("/tmp/out".to_string()),
        silent: true,
        conn_type: Some(ConnectorType::Source),
        conn_public: Some(false),
    };
    let config = cmd.config("abc123").unwrap();
    assert_eq!(config.name, "my-source");
    assert_eq!(config.destination, Some("/tmp/out".to_string()));
    assert!(config.silent && !config.verbose);
    assert_eq!(
        config.define,
        vec![
            "fluvio-cargo-dependency-hash=abc123".to_string(),
            "project-group=team".to_string(),
            "project-description=reads".to_string(),
            "connector-type=source".to_string(),
            "connector-public=false".to_string(),
        ]
    );
}

#[test]
fn a_connector_without_a_name() {
    let mut cmd = GenerateCmd {
        name: None,
        group: None,
        conn_description: None,
        destination: None,
        silent: false,
        conn_type: Some(ConnectorType::Sink),
        conn_public: None,
    };
    let config = cmd.config("h").unwrap();
    assert_eq!(config.name, "my-connector");
    assert_eq!(config.destination, None);
    assert!(config.verbose);
    assert_eq!(
        config.define,
        vec![
            "fluvio-cargo-dependency-hash=h".to_string(),
            "connector-type=sink".to_string(),
        ]
    );
    cmd.silent = true;
    assert_eq!(cmd.config("h").unwrap_err(), "the name of the project is missing");
    cmd.name = Some("c".to_string());
    assert_eq!(cmd.config("h").unwrap_err(), "the visibility of the project is missing");
    cmd.conn_type = None;
    assert_eq!(cmd.config("h").unwrap_err(), "the type of the project is missing");
    cmd.conn_type = Some(ConnectorType::Sink);
    cmd.conn_public = Some(true);
    assert_eq!(cmd.config("h").unwrap().name, "c");
}
