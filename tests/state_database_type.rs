use std::path::PathBuf;

use fleet_control::state_database_type::{ConfigError, StateDatabaseType};

#[test]
fn test_memory_basic() {
    let result = StateDatabaseType::from_str("memory://").unwrap();
    assert!(matches!(result, StateDatabaseType::Memory));
}

#[test]
fn test_file_relative_path() {
    let result = StateDatabaseType::from_str("file://path/to/db");

    assert!(result.is_err());
}

#[test]
fn test_file_absolute_path() {
    let result = StateDatabaseType::from_str("file:///absolute/path").unwrap();
    match result {
        StateDatabaseType::File(path) => {
            assert_eq!(PathBuf::from(path), PathBuf::from("/absolute/path"));
        }
        _ => panic!("Expected File variant"),
    }
}

#[test]
fn test_file_empty_path_fails() {
    let result = StateDatabaseType::from_str("file://");

    assert!(result.is_err());
}

#[test]
fn test_unsupported_scheme() {
    let result = StateDatabaseType::from_str("mysql://localhost/db");

    assert!(result.is_err());
}

#[test]
fn test_invalid_url() {
    let result = StateDatabaseType::from_str("not-a-url");

    assert!(result.is_err());
}

#[test]
fn memory_store_is_volatile_and_file_store_durable() {
    assert!(!StateDatabaseType::from_str("memory://").unwrap().is_durable());
    assert!(StateDatabaseType::from_str("file:///tmp/x").unwrap().is_durable());
}

#[test]
fn file_descriptor_keeps_its_path() {
    assert_eq!(
        StateDatabaseType::from_str("file:///tmp/x"),
        Ok(StateDatabaseType::File("/tmp/x".to_string()))
    );
}

#[test]
fn each_refusal_names_its_reason() {
    assert_eq!(StateDatabaseType::from_str("not-a-url"), Err(ConfigError::InvalidUrl));
    assert_eq!(StateDatabaseType::from_str("file://"), Err(ConfigError::EmptyFilePath));
    assert_eq!(StateDatabaseType::from_str("file://relative"), Err(ConfigError::RelativeFilePath));
    assert_eq!(StateDatabaseType::from_str("mysql://host/db"), Err(ConfigError::UnsupportedScheme));
    assert_eq!(StateDatabaseType::from_str("FILE:///tmp/x"), Err(ConfigError::InvalidFileUrl));
}

#[test]
fn file_path_is_trimmed() {
    assert_eq!(
        StateDatabaseType::from_str("file:///tmp/x "),
        Ok(StateDatabaseType::File("/tmp/x".to_string()))
    );
}
