use rabbit_ledger::{ConfigEntity, ConfigService, SqliteDbService, StoreLocation, Table};

#[test]
fn test_in_memory_database() {
    let db_service = SqliteDbService::new_in_memory().expect("Failed to create in-memory database");
    assert_eq!(db_service.table_count(), 7, "Should have 7 tables");
}

#[test]
fn test_insert_config() {
    let mut db_service =
        SqliteDbService::new_in_memory().expect("Failed to create in-memory database");
    let mut config = ConfigEntity::default();
    config.id = "test_key".to_string();
    config.flow_base_url = "test_value".to_string();
    config.created_at = 1_704_067_200;
    config.updated_at = 1_704_067_200;
    ConfigService::save(&mut db_service, &config).expect("Failed to insert config");
    let count = ConfigService::find_all(&db_service).expect("Failed to count configs").len();
    assert_eq!(count, 1);
}

#[test]
fn schema_applied_twice_keeps_seven_tables() {
    let mut db = SqliteDbService::new("ledger.sqlite".to_string());
    assert_eq!(db.table_count(), 0);
    db.initialize();
    assert_eq!(db.table_count(), 7);
    assert_eq!(db.indexes.len(), 4);
    db.initialize();
    assert_eq!(db.table_count(), 7);
    assert_eq!(db.indexes.len(), 4);
    assert!(db.has_table(Table::Venda));
    assert!(db.has_table(Table::History));
}

#[test]
fn schema_restores_a_dropped_table() {
    let mut db = SqliteDbService::new_in_memory().unwrap();
    db.drop_table(Table::VendaPagamento);
    assert_eq!(db.table_count(), 6);
    assert!(!db.has_table(Table::VendaPagamento));
    db.initialize();
    assert_eq!(db.table_count(), 7);
    assert!(db.has_table(Table::VendaPagamento));
}

#[test]
fn in_memory_store_lives_at_memory_path() {
    let db = SqliteDbService::new_in_memory().unwrap();
    assert_eq!(db.get_db_path(), ":memory:");
}

#[test]
fn location_prefers_the_operator_path() {
    let r = SqliteDbService::resolve_location(
        Some("/data/pos.sqlite".to_string()),
        Some("/home/u/.local/share/rabbit-api".to_string()),
    );
    assert_eq!(r, StoreLocation::Custom("/data/pos.sqlite".to_string()));
}

#[test]
fn location_falls_back_to_the_data_directory() {
    let r = SqliteDbService::resolve_location(None, Some("/home/u/.local/share/rabbit-api".to_string()));
    assert_eq!(
        r,
        StoreLocation::AppData {
            dir: "/home/u/.local/share/rabbit-api/sqlite".to_string(),
            path: "/home/u/.local/share/rabbit-api/sqlite/db.sqlite".to_string(),
        }
    );
}

#[test]
fn location_falls_back_to_the_working_directory() {
    let r = SqliteDbService::resolve_location(None, None);
    assert_eq!(r, StoreLocation::WorkingDir("db.sqlite".to_string()));
}
