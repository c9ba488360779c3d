use sqlite_vector_store::query::{Bind, Query};
use sqlite_vector_store::schema::{check_identifier, ConfigError, SchemaError, Store};

fn docs(dimensions: i32) -> Store {
    Store::new("docs".to_string(), dimensions).unwrap()
}

fn statements(table: &str, dimensions: &str) -> Vec<String> {
    vec![
        format!(
            "CREATE TABLE IF NOT EXISTS {} (rowid INTEGER PRIMARY KEY AUTOINCREMENT, text TEXT, \
             metadata BLOB, text_embedding BLOB)",
            table
        ),
        format!(
            "CREATE VIRTUAL TABLE IF NOT EXISTS vec_{} USING vec0(text_embedding float[{}])",
            table, dimensions
        ),
        format!(
            "CREATE TRIGGER IF NOT EXISTS embed_text_{0} AFTER INSERT ON {0} BEGIN INSERT INTO \
             vec_{0}(rowid, text_embedding) VALUES (new.rowid, new.text_embedding); END",
            table
        ),
        format!(
            "CREATE TRIGGER IF NOT EXISTS unembed_text_{0} AFTER DELETE ON {0} BEGIN DELETE FROM \
             vec_{0} WHERE rowid = old.rowid; END",
            table
        ),
    ]
}

#[test]
fn a_store_keeps_its_configuration() {
    let store = Store::new("documents_2".to_string(), 1536).unwrap();
    assert_eq!(store.table(), "documents_2");
    assert_eq!(store.vector_dimensions(), 1536);
    let copy = store.clone();
    assert_eq!(copy, store);
}

#[test]
fn table_names_are_plain_identifiers() {
    for name in ["docs", "Docs", "_docs", "d", "_", "a1_b2", "DOCS_2024"] {
        assert!(check_identifier(name), "{}", name);
        assert!(Store::new(name.to_string(), 3).is_ok());
    }
}

#[test]
fn other_table_names_are_refused() {
    for name in [
        "",
        "1docs",
        "my docs",
        "docs;",
        "docs; DROP TABLE users; --",
        "docs'",
        "\"docs\"",
        "do-cs",
        "docs.t",
        "d\u{f6}cs",
        "docs\n",
        "docs?",
        "docs[1]",
    ] {
        assert!(!check_identifier(name), "{}", name);
        assert_eq!(Store::new(name.to_string(), 3), Err(ConfigError::InvalidTableName));
    }
}

#[test]
fn dimensions_are_positive() {
    assert_eq!(Store::new("docs".to_string(), 0), Err(ConfigError::InvalidDimensions));
    assert_eq!(Store::new("docs".to_string(), -3), Err(ConfigError::InvalidDimensions));
    assert_eq!(Store::new("docs".to_string(), i32::MIN), Err(ConfigError::InvalidDimensions));
    assert!(Store::new("docs".to_string(), 1).is_ok());
    assert!(Store::new("docs".to_string(), i32::MAX).is_ok());
}

#[test]
fn a_bad_name_is_reported_before_bad_dimensions() {
    assert_eq!(Store::new("my docs".to_string(), 0), Err(ConfigError::InvalidTableName));
}

#[test]
fn a_new_collection_gets_table_index_and_triggers() {
    assert_eq!(docs(3).initialize(None), Ok(statements("docs", "3")));
}

#[test]
fn the_dimensions_are_written_in_full() {
    let store = Store::new("t".to_string(), i32::MAX).unwrap();
    assert_eq!(store.initialize(None), Ok(statements("t", "2147483647")));
}

#[test]
fn setting_up_again_changes_nothing() {
    let store = docs(3);
    let stored = "CREATE VIRTUAL TABLE vec_docs USING vec0(text_embedding float[3])";
    assert_eq!(store.initialize(Some(stored)), store.initialize(None));
    let own = store.initialize(None).unwrap();
    assert_eq!(store.initialize(Some(own[1].as_str())), Ok(statements("docs", "3")));
}

#[test]
fn a_definition_on_several_lines_is_read() {
    let stored = "CREATE VIRTUAL TABLE vec_docs USING vec0(\n  text_embedding float[3]\n)";
    assert_eq!(docs(3).initialize(Some(stored)), Ok(statements("docs", "3")));
}

#[test]
fn other_dimensions_are_a_mismatch() {
    let stored = "CREATE VIRTUAL TABLE vec_docs USING vec0(text_embedding float[3])";
    assert_eq!(docs(4).initialize(Some(stored)), Err(SchemaError::DimensionMismatch));
    assert_eq!(docs(30).initialize(Some(stored)), Err(SchemaError::DimensionMismatch));
    assert_eq!(docs(13).initialize(Some(stored)), Err(SchemaError::DimensionMismatch));
    let wide = "CREATE VIRTUAL TABLE vec_docs USING vec0(text_embedding float[1536])";
    assert_eq!(docs(3).initialize(Some(wide)), Err(SchemaError::DimensionMismatch));
    assert_eq!(docs(153).initialize(Some(wide)), Err(SchemaError::DimensionMismatch));
    assert_eq!(docs(536).initialize(Some(wide)), Err(SchemaError::DimensionMismatch));
    assert!(docs(1536).initialize(Some(wide)).is_ok());
}

#[test]
fn a_definition_without_dimensions_is_a_mismatch() {
    assert_eq!(docs(3).initialize(Some("")), Err(SchemaError::DimensionMismatch));
    assert_eq!(
        docs(3).initialize(Some("CREATE TABLE vec_docs (rowid INTEGER)")),
        Err(SchemaError::DimensionMismatch)
    );
}

#[test]
fn the_index_is_looked_up_by_its_name() {
    let q = docs(3).index_lookup();
    assert_eq!(
        q,
        Query {
            sql: "SELECT sql FROM sqlite_master WHERE type = 'table' AND name = ?".to_string(),
            binds: vec![Bind::Text("vec_docs".to_string())],
        }
    );
}
