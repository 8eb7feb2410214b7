use ellipsis::fs::{config_format_for_extension, is_config_file_name, ConfigFormat, LoadConfigError};

#[test]
fn missing_extension_selects_yaml() {
    assert_eq!(config_format_for_extension(None).unwrap(), ConfigFormat::Yaml);
}

#[test]
fn known_extensions_select_their_format() {
    assert_eq!(
        config_format_for_extension(Some("yml".to_string())).unwrap(),
        ConfigFormat::Yaml
    );
    assert_eq!(
        config_format_for_extension(Some("yaml".to_string())).unwrap(),
        ConfigFormat::Yaml
    );
    assert_eq!(
        config_format_for_extension(Some("json".to_string())).unwrap(),
        ConfigFormat::Json
    );
}

#[test]
fn unknown_extension_is_rejected_with_its_name() {
    match config_format_for_extension(Some("toml".to_string())) {
        Err(LoadConfigError::UnsupportedFileType(ext)) => assert_eq!(ext, "toml"),
        other => panic!("expected an unsupported-file-type error, got {:?}", other),
    }
}

#[test]
fn config_file_names_contain_the_marker() {
    assert!(is_config_file_name("ellipsis"));
    assert!(is_config_file_name("ellipsis.yml"));
    assert!(is_config_file_name("my-ellipsis-config.json"));
    assert!(!is_config_file_name("config.yaml"));
    assert!(!is_config_file_name("ellipsi"));
    assert!(!is_config_file_name(""));
}

#[test]
fn load_config_error_messages() {
    assert_eq!(
        LoadConfigError::UnsupportedFileType("toml".to_string()).message(),
        "Unsupported file type `toml`"
    );
    assert_eq!(LoadConfigError::MissingFileType.message(), "Missing file type");
    assert_eq!(LoadConfigError::MissingFile.message(), "Cannot find config file");
}
