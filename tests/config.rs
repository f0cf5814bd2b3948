use report_dispatcher::config::TableMappingConfig;

#[test]
fn test_default_config() {
    let config = TableMappingConfig::default();
    assert_eq!(config.get_table_name("Test"), "tests");
    assert_eq!(config.get_table_name("Unknown"), "unknown");
}

#[test]
fn mapping_reads_from_json_text() {
    let config = TableMappingConfig::from_json_str(r#"{"Test": "tests", "Run": "test_runs", "Project": "projects"}"#).unwrap();
    assert_eq!(config.get_table_name("Test"), "tests");
    assert_eq!(config.get_table_name("Run"), "test_runs");
    assert_eq!(config.get_table_name("Unknown"), "unknown");
    assert_eq!(config.get_mappings().len(), 3);
}

#[test]
fn invalid_json_is_a_config_error() {
    let err = TableMappingConfig::from_json_str("invalid json").unwrap_err();
    assert!(!err.message.is_empty());
    assert!(TableMappingConfig::from_json_str(r#"{"a": 1}"#).is_err());
}

#[test]
fn lower_casing_is_unicode_aware() {
    let config = TableMappingConfig::default();
    assert_eq!(config.get_table_name("ÉTUDE"), "étude");
}
