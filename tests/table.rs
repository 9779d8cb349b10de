use dubhe_indexer::table::{get_name, parse_table_id, ConfigError, DubheConfigJson, TableField, TableJsonInfo, TableMetadata};

fn info(fields: &[(&str, &str)], keys: &[&str]) -> TableJsonInfo {
    TableJsonInfo {
        fields: fields.iter().map(|(n, t)| (n.to_string(), t.to_string())).collect(),
        keys: keys.iter().map(|k| k.to_string()).collect(),
        offchain: false,
    }
}

fn get_test_config() -> DubheConfigJson {
    DubheConfigJson {
        components: vec![
            ("counter0".to_string(), info(&[("entity_id", "address")], &["entity_id"])),
            ("counter1".to_string(), info(&[("entity_id", "address"), ("value", "u32")], &["entity_id"])),
        ],
        resources: vec![("counter2".to_string(), info(&[("value", "u32")], &[]))],
        enums: vec![(
            "direction".to_string(),
            vec![("0".to_string(), "left".to_string()), ("1".to_string(), "right".to_string())],
        )],
        package_id: Some("0x1234567890123456789012345678901234567890".to_string()),
    }
}

#[test]
fn test_table_schema_from_json() {
    let result = TableMetadata::from_config(get_test_config());
    assert!(result.is_ok());
    let (package_id, tables) = result.unwrap();
    assert_eq!(package_id, "0x1234567890123456789012345678901234567890");
    assert_eq!(tables.len(), 3);
    let table = &tables[0];
    assert_eq!(table.name, "counter0");
    assert_eq!(table.table_type, "component");
    assert_eq!(table.fields.len(), 1);
    assert_eq!(table.fields[0].is_key, true);
    assert_eq!(table.offchain, false);
}

#[test]
fn test_get_sql_type() {
    let schema = TableMetadata {
        name: "test".to_string(),
        table_type: "component".to_string(),
        fields: vec![],
        offchain: false,
    };
    assert_eq!(schema.get_sql_type("u8"), "SMALLINT");
    assert_eq!(schema.get_sql_type("u64"), "BIGINT");
    assert_eq!(schema.get_sql_type("bool"), "BOOLEAN");
    assert_eq!(schema.get_sql_type("vector<u8>"), "SMALLINT[]");
    assert_eq!(schema.get_sql_type("unknown"), "TEXT");
}

#[test]
fn test_generate_create_table_sql() {
    let (_package_id, tables) = TableMetadata::from_config(get_test_config()).unwrap();
    assert_eq!(tables.len(), 3);
    let table = &tables[0];
    assert_eq!(
        table.generate_create_table_sql(),
        "CREATE TABLE IF NOT EXISTS store_counter0 (entity_id TEXT, created_at TIMESTAMPTZ DEFAULT CURRENT_TIMESTAMP, updated_at TIMESTAMPTZ DEFAULT CURRENT_TIMESTAMP, last_updated_checkpoint BIGINT DEFAULT 0, is_deleted BOOLEAN DEFAULT FALSE, PRIMARY KEY (entity_id))"
    );
    assert_eq!(
        table.generate_insert_table_fields_sql(),
        vec!["INSERT INTO table_fields (table_name, field_name, field_type, field_index, is_key) VALUES ('counter0', 'entity_id', 'address', '0', true)"]
    );
    let table = &tables[1];
    assert_eq!(
        table.generate_create_table_sql(),
        "CREATE TABLE IF NOT EXISTS store_counter1 (entity_id TEXT, value BIGINT, created_at TIMESTAMPTZ DEFAULT CURRENT_TIMESTAMP, updated_at TIMESTAMPTZ DEFAULT CURRENT_TIMESTAMP, last_updated_checkpoint BIGINT DEFAULT 0, is_deleted BOOLEAN DEFAULT FALSE, PRIMARY KEY (entity_id))"
    );
    assert_eq!(
        table.generate_insert_table_fields_sql(),
        vec![
            "INSERT INTO table_fields (table_name, field_name, field_type, field_index, is_key) VALUES ('counter1', 'entity_id', 'address', '0', true)",
            "INSERT INTO table_fields (table_name, field_name, field_type, field_index, is_key) VALUES ('counter1', 'value', 'u32', '0', false)"
        ]
    );
    let table = &tables[2];
    assert_eq!(
        table.generate_create_table_sql(),
        "CREATE TABLE IF NOT EXISTS store_counter2 (value BIGINT, created_at TIMESTAMPTZ DEFAULT CURRENT_TIMESTAMP, updated_at TIMESTAMPTZ DEFAULT CURRENT_TIMESTAMP, last_updated_checkpoint BIGINT DEFAULT 0, is_deleted BOOLEAN DEFAULT FALSE, PRIMARY KEY (value))"
    );
    assert_eq!(
        table.generate_insert_table_fields_sql(),
        vec!["INSERT INTO table_fields (table_name, field_name, field_type, field_index, is_key) VALUES ('counter2', 'value', 'u32', '0', false)"]
    );
}

#[test]
fn single_component_config_gives_expected_ddl() {
    let config = DubheConfigJson {
        components: vec![("counter0".to_string(), info(&[("entity_id", "address")], &["entity_id"]))],
        resources: vec![],
        enums: vec![],
        package_id: Some("0xabc".to_string()),
    };
    let (package_id, tables) = TableMetadata::from_config(config).unwrap();
    assert_eq!(package_id, "0xabc");
    assert_eq!(tables.len(), 1);
    assert_eq!(tables[0].name, "counter0");
    assert_eq!(
        tables[0].generate_create_table_sql(),
        "CREATE TABLE IF NOT EXISTS store_counter0 (entity_id TEXT, created_at TIMESTAMPTZ DEFAULT CURRENT_TIMESTAMP, updated_at TIMESTAMPTZ DEFAULT CURRENT_TIMESTAMP, last_updated_checkpoint BIGINT DEFAULT 0, is_deleted BOOLEAN DEFAULT FALSE, PRIMARY KEY (entity_id))"
    );
}

#[test]
fn missing_package_id_is_refused() {
    let mut config = get_test_config();
    config.package_id = None;
    assert!(matches!(TableMetadata::from_config(config), Err(ConfigError::MissingPackageId)));
}

#[test]
fn tables_keep_group_and_document_order() {
    let config = DubheConfigJson {
        components: vec![
            ("b".to_string(), info(&[("x", "u8")], &[])),
            ("a".to_string(), info(&[("x", "u8")], &[])),
        ],
        resources: vec![("c".to_string(), info(&[("x", "u8")], &[]))],
        enums: vec![],
        package_id: Some("0x1".to_string()),
    };
    let (_, tables) = TableMetadata::from_config(config).unwrap();
    let names: Vec<&str> = tables.iter().map(|t| t.name.as_str()).collect();
    assert_eq!(names, vec!["b", "a", "c"]);
    assert_eq!(tables[0].table_type, "component");
    assert_eq!(tables[2].table_type, "resource");
}

#[test]
fn key_and_value_indexes_count_separately() {
    let config = DubheConfigJson {
        components: vec![(
            "t".to_string(),
            info(&[("k1", "u8"), ("v1", "u64"), ("k2", "address"), ("v2", "bool"), ("v3", "u16")], &["k1", "k2"]),
        )],
        resources: vec![],
        enums: vec![],
        package_id: Some("0x1".to_string()),
    };
    let (_, tables) = TableMetadata::from_config(config).unwrap();
    let got: Vec<(&str, u8, bool)> = tables[0]
        .fields
        .iter()
        .map(|f| (f.field_name.as_str(), f.field_index, f.is_key))
        .collect();
    assert_eq!(got, vec![("k1", 0, true), ("v1", 0, false), ("k2", 1, true), ("v2", 1, false), ("v3", 2, false)]);
    assert_eq!(
        tables[0].generate_create_table_sql(),
        "CREATE TABLE IF NOT EXISTS store_t (k1 SMALLINT, v1 BIGINT, k2 TEXT, v2 BOOLEAN, v3 INTEGER, created_at TIMESTAMPTZ DEFAULT CURRENT_TIMESTAMP, updated_at TIMESTAMPTZ DEFAULT CURRENT_TIMESTAMP, last_updated_checkpoint BIGINT DEFAULT 0, is_deleted BOOLEAN DEFAULT FALSE, PRIMARY KEY (k1, k2))"
    );
}

#[test]
fn no_key_falls_back_to_all_value_fields() {
    let t = TableMetadata {
        name: "r".to_string(),
        table_type: "resource".to_string(),
        fields: vec![
            TableField { field_name: "a".to_string(), field_type: "vector<u64>".to_string(), field_index: 0, is_key: false },
            TableField { field_name: "b".to_string(), field_type: "u256".to_string(), field_index: 1, is_key: false },
        ],
        offchain: true,
    };
    assert_eq!(
        t.generate_create_table_sql(),
        "CREATE TABLE IF NOT EXISTS store_r (a BIGINT[], b NUMERIC, created_at TIMESTAMPTZ DEFAULT CURRENT_TIMESTAMP, updated_at TIMESTAMPTZ DEFAULT CURRENT_TIMESTAMP, last_updated_checkpoint BIGINT DEFAULT 0, is_deleted BOOLEAN DEFAULT FALSE, PRIMARY KEY (a, b))"
    );
    assert_eq!(
        t.generate_insert_table_metadata_sql(),
        "INSERT INTO table_metadata (table_name, table_type, offchain) VALUES ('r', 'resource', true)"
    );
    assert_eq!(
        t.generate_insert_table_fields_sql()[1],
        "INSERT INTO table_fields (table_name, field_name, field_type, field_index, is_key) VALUES ('r', 'b', 'u256', '1', false)"
    );
}

#[test]
fn sql_type_mapping_is_total() {
    let t = TableMetadata { name: "t".to_string(), table_type: "component".to_string(), fields: vec![], offchain: false };
    let cases = [
        ("u16", "INTEGER"), ("u32", "BIGINT"), ("u128", "NUMERIC"), ("u256", "NUMERIC"),
        ("vector<u16>", "INTEGER[]"), ("vector<u32>", "BIGINT[]"), ("vector<u64>", "BIGINT[]"),
        ("vector<u128>", "NUMERIC[]"), ("vector<u256>", "NUMERIC[]"), ("vector<address>", "TEXT[]"),
        ("address", "TEXT"), ("vector<bool>", "TEXT"), ("", "TEXT"),
    ];
    for (tag, sql) in cases {
        assert_eq!(t.get_sql_type(tag), sql, "tag {}", tag);
    }
}

#[test]
fn table_id_parsing() {
    assert_eq!(parse_table_id(&b"ontcounter".to_vec()), ("ont".to_string(), "counter".to_string()));
    assert_eq!(parse_table_id(&b"oftcounter".to_vec()), ("oft".to_string(), "counter".to_string()));
    assert_eq!(parse_table_id(&b"xyzabc".to_vec()), ("oft".to_string(), "abc".to_string()));
    assert_eq!(get_name(&b"ontcounter".to_vec()), "counter");
    assert_eq!(get_name(&b"ontontcounter".to_vec()), "counter");
    assert_eq!(get_name(&b"oftoftx".to_vec()), "x");
    assert_eq!(get_name(&b"ont".to_vec()), "");
}

#[test]
fn wide_table_numbers_keys_and_values_separately() {
    let names: Vec<String> = (0..300).map(|i| format!("f{}", i)).collect();
    let fields: Vec<(&str, &str)> = names.iter().map(|n| (n.as_str(), "u8")).collect();
    let keys: Vec<&str> = names.iter().step_by(2).map(|n| n.as_str()).collect();
    let config = DubheConfigJson {
        components: vec![("wide".to_string(), info(&fields, &keys))],
        resources: vec![],
        enums: vec![],
        package_id: Some("0x1".to_string()),
    };
    let (_, tables) = TableMetadata::from_config(config).unwrap();
    let f = &tables[0].fields;
    assert_eq!(f.len(), 300);
    assert_eq!((f[298].field_index, f[298].is_key), (149, true));
    assert_eq!((f[299].field_index, f[299].is_key), (149, false));
}
