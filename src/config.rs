//! The table-mapping configuration, read from JSON text.

use vstd::prelude::*;
use vstd::string::*;
use crate::mapping::{NameMap, map_insert, map_new, mapping_of, resolve_table_name, table_name_of};

verus! {

/// A configuration error.
#[derive(Debug, Clone, PartialEq)]
pub struct ConfigError {
    pub message: String,
}

impl ConfigError {
    pub fn new(message: String) -> (r: ConfigError)
        ensures
            r.message == message,
    {
        ConfigError { message }
    }
}

#[verifier::external_type_specification]
#[verifier::external_body]
pub struct ExJsonError(serde_json::Error);

/// The entries that `serde_json::from_str` reads from a text as an object of
/// strings, or `None` where the text is no such object.
pub uninterp spec fn json_name_map(text: Seq<char>) -> Option<Map<Seq<char>, Seq<char>>>;

/// Relies on `serde_json::from_str` into a map of strings: its outcome
/// depends on the text alone.
#[verifier::external_body]
fn parse_name_map(text: &str) -> (r: Result<NameMap, serde_json::Error>)
    ensures
        match json_name_map(text@) {
            Some(m) => r matches Ok(x) && mapping_of(x) == m,
            None => r is Err,
        },
{
    serde_json::from_str(text)
}

/// Entity names mapped to table names.
#[derive(Debug, Clone)]
pub struct TableMappingConfig {
    pub mappings: NameMap,
}

impl TableMappingConfig {
    /// Reads a JSON object of strings, entity names to table names.
    pub fn from_json_str(content: &str) -> (r: Result<TableMappingConfig, ConfigError>)
        ensures
            match json_name_map(content@) {
                Some(m) => r matches Ok(c) && mapping_of(c.mappings) == m,
                None => r is Err,
            },
    {
        match parse_name_map(content) {
            Ok(mappings) => Ok(TableMappingConfig { mappings }),
            Err(_) => Err(ConfigError::new(String::from_str("cannot parse the JSON table mapping"))),
        }
    }

    /// The table of an entity: its mapped name, else its name in lower case.
    pub fn get_table_name(&self, entity: &str) -> (r: String)
        ensures
            r@ == table_name_of(mapping_of(self.mappings), entity@),
    {
        resolve_table_name(&self.mappings, entity)
    }

    /// All entries.
    pub fn get_mappings(&self) -> (r: &NameMap)
        ensures
            *r == self.mappings,
    {
        &self.mappings
    }

    /// The built-in mapping of the usual entities.
    pub fn default() -> (r: TableMappingConfig)
        ensures
            mapping_of(r.mappings) == Map::<Seq<char>, Seq<char>>::empty().insert(
                "Test"@,
                "tests"@,
            ).insert("Run"@, "test_runs"@).insert("Project"@, "projects"@).insert(
                "Task"@,
                "tasks"@,
            ).insert("User"@, "users"@).insert("Issue"@, "issues"@),
    {
        let mut mappings = map_new();
        map_insert(&mut mappings, String::from_str("Test"), String::from_str("tests"));
        map_insert(&mut mappings, String::from_str("Run"), String::from_str("test_runs"));
        map_insert(&mut mappings, String::from_str("Project"), String::from_str("projects"));
        map_insert(&mut mappings, String::from_str("Task"), String::from_str("tasks"));
        map_insert(&mut mappings, String::from_str("User"), String::from_str("users"));
        map_insert(&mut mappings, String::from_str("Issue"), String::from_str("issues"));
        TableMappingConfig { mappings }
    }
}

} // verus!
