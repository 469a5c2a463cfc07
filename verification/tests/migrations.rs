use sqlx::{AssertSqlSafe, Row, SqlitePool};
use syllabus_tracker::error::{MigrationError, MigrationErrorKind};
use syllabus_tracker::migrator::plan_migration;
use syllabus_tracker::schema::{
    ColumnInfo, IndexInfo, IndexState, SchemaSnapshot, TableInfo, TableState,
};

const EMPTY_SCHEMA: &str = "";

const SINGLE_TABLE_SCHEMA: &str = r#"
        CREATE TABLE users (
            id INTEGER PRIMARY KEY,
            username TEXT NOT NULL
        );
    "#;

const TWO_TABLE_SCHEMA: &str = r#"
        CREATE TABLE users (
            id INTEGER PRIMARY KEY,
            username TEXT NOT NULL
        );

        CREATE TABLE posts (
            id INTEGER PRIMARY KEY,
            title TEXT NOT NULL,
            user_id INTEGER,
            FOREIGN KEY (user_id) REFERENCES users (id)
        );
    "#;

const MODIFIED_TABLE_SCHEMA: &str = r#"
        CREATE TABLE users (
            id INTEGER PRIMARY KEY,
            username TEXT NOT NULL,
            email TEXT
        );

        CREATE TABLE posts (
            id INTEGER PRIMARY KEY,
            title TEXT NOT NULL,
            user_id INTEGER,
            FOREIGN KEY (user_id) REFERENCES users (id)
        );
    "#;

const COLUMN_REMOVAL_SCHEMA: &str = r#"
    CREATE TABLE users (
        id INTEGER PRIMARY KEY
        -- removed username column
    );
    "#;

const WITH_INDEX_SCHEMA: &str = r#"
    CREATE TABLE users (
        id INTEGER PRIMARY KEY,
        username TEXT NOT NULL
    );

    CREATE INDEX idx_username ON users(username);
    "#;

const WITHOUT_INDEX_SCHEMA: &str = r#"
    CREATE TABLE users (
        id INTEGER PRIMARY KEY,
        username TEXT NOT NULL
    );
    -- removed index
    "#;

fn rt() -> tokio::runtime::Runtime {
    tokio::runtime::Builder::new_current_thread()
        .enable_all()
        .build()
        .expect("Failed to build runtime")
}

async fn create_test_db() -> SqlitePool {
    SqlitePool::connect("sqlite::memory:")
        .await
        .expect("Failed to create in-memory database")
}

async fn read_snapshot(conn: &mut sqlx::SqliteConnection) -> SchemaSnapshot {
    let rows = sqlx::query(
        "SELECT name, sql FROM sqlite_master WHERE type = 'table' AND name != 'sqlite_sequence'",
    )
    .fetch_all(&mut *conn)
    .await
    .expect("Failed to read tables");
    let mut tables = Vec::new();
    for row in rows {
        let name: String = row.get(0);
        let sql: String = row.get(1);
        let col_rows = sqlx::query(AssertSqlSafe(format!("PRAGMA table_info({})", name)))
            .fetch_all(&mut *conn)
            .await
            .expect("Failed to read columns");
        let columns = col_rows
            .iter()
            .map(|r| ColumnInfo {
                name: r.get::<String, _>(1),
            })
            .collect();
        tables.push(TableState {
            name,
            info: TableInfo { sql },
            columns,
        });
    }
    let rows =
        sqlx::query("SELECT name, sql FROM sqlite_master WHERE type = 'index' AND sql IS NOT NULL")
            .fetch_all(&mut *conn)
            .await
            .expect("Failed to read indices");
    let indices = rows
        .iter()
        .map(|r| IndexState {
            name: r.get(0),
            info: IndexInfo { sql: r.get(1) },
        })
        .collect();
    let user_version: i64 = sqlx::query("PRAGMA user_version")
        .fetch_one(&mut *conn)
        .await
        .expect("Failed to read user_version")
        .get(0);
    SchemaSnapshot {
        tables,
        indices,
        user_version,
    }
}

async fn migrate_database_declaratively(
    pool: SqlitePool,
    target_schema: &str,
    allow_deletions: bool,
) -> Result<bool, MigrationError> {
    let pristine = SqlitePool::connect("sqlite::memory:")
        .await
        .map_err(|e| MigrationError::io("Open pristine database", &e.to_string()))?;
    if !target_schema.trim().is_empty() {
        sqlx::raw_sql(AssertSqlSafe(target_schema.to_string()))
            .execute(&pristine)
            .await
            .map_err(|e| MigrationError::bad_target_schema(&e.to_string()))?;
    }
    let mut tx = pool
        .begin()
        .await
        .map_err(|e| MigrationError::io("Begin transaction", &e.to_string()))?;
    sqlx::query("PRAGMA defer_foreign_keys = TRUE")
        .execute(&mut *tx)
        .await
        .map_err(|e| MigrationError::io("Defer foreign keys", &e.to_string()))?;
    let current = read_snapshot(&mut *tx).await;
    let mut pristine_conn = pristine
        .acquire()
        .await
        .map_err(|e| MigrationError::io("Acquire pristine connection", &e.to_string()))?;
    let target = read_snapshot(&mut *pristine_conn).await;
    drop(pristine_conn);
    if !current.check_wf() || !target.check_wf() {
        return Err(MigrationError::internal(
            "introspected snapshot has duplicate names".to_string(),
        ));
    }
    let script = match plan_migration(&current, &target, allow_deletions) {
        Ok(script) => script,
        Err(e) => {
            tx.rollback()
                .await
                .map_err(|e| MigrationError::io("Rollback", &e.to_string()))?;
            return Err(e);
        }
    };
    for stmt in &script.statements {
        if let Err(e) = sqlx::query(AssertSqlSafe(stmt.sql.clone()))
            .execute(&mut *tx)
            .await
        {
            tx.rollback()
                .await
                .map_err(|e| MigrationError::io("Rollback", &e.to_string()))?;
            return Err(MigrationError::io(&stmt.description, &e.to_string()));
        }
    }
    tx.commit()
        .await
        .map_err(|e| MigrationError::io("Commit", &e.to_string()))?;
    if script.run_vacuum {
        sqlx::query("VACUUM")
            .execute(&pool)
            .await
            .map_err(|e| MigrationError::io("VACUUM", &e.to_string()))?;
    }
    Ok(script.changed)
}

async fn get_table_names(pool: &SqlitePool) -> Vec<String> {
    let rows = sqlx::query("SELECT name FROM sqlite_master WHERE type = 'table' AND name != 'sqlite_sequence' ORDER BY name")
        .fetch_all(pool)
        .await
        .expect("Failed to fetch table names");

    rows.into_iter()
        .map(|row| row.get::<String, _>(0))
        .collect()
}

async fn get_pragma_value(pool: &SqlitePool, pragma: &str) -> i64 {
    sqlx::query(AssertSqlSafe(format!("PRAGMA {}", pragma)))
        .fetch_one(pool)
        .await
        .expect("Failed to get pragma")
        .get::<i64, _>(0)
}

#[test]
fn test_brand_new_db_pragma() {
    rt().block_on(async {
        let pool = SqlitePool::connect("sqlite::memory:")
            .await
            .expect("Failed to create in-memory database");

        let pragma = sqlx::query("PRAGMA foreign_keys")
            .fetch_one(&pool)
            .await
            .expect("Failed to get pragma")
            .get::<i64, _>(0);

        println!("pragma: {:?}", pragma);

        // Pragma is 1 by default when using SQLX, even though it is 0 by default
        // in SQLite
        assert_eq!(pragma, 1);
    })
}

#[test]
fn test_empty_to_empty_no_changes() {
    rt().block_on(async {
        let pool = create_test_db().await;

        let result = migrate_database_declaratively(pool.clone(), EMPTY_SCHEMA, false).await;
        assert!(result.is_ok());
        assert!(!result.unwrap(), "Empty to empty should report no changes");

        let tables = get_table_names(&pool).await;
        assert!(tables.is_empty());

        assert_eq!(get_pragma_value(&pool, "foreign_keys").await, 1);
    })
}

#[test]
fn test_create_first_table() {
    rt().block_on(async {
        let pool = create_test_db().await;

        let result = migrate_database_declaratively(pool.clone(), SINGLE_TABLE_SCHEMA, false).await;
        assert!(result.is_ok());
        assert!(result.unwrap(), "Creating first table should report changes");

        let tables = get_table_names(&pool).await;
        assert_eq!(tables, vec!["users"]);

        // Re-running should be no-op
        let result = migrate_database_declaratively(pool.clone(), SINGLE_TABLE_SCHEMA, false).await;
        assert!(result.is_ok());
        assert!(!result.unwrap(), "Re-running same migration should be no-op");
    })
}

#[test]
fn test_add_second_table() {
    rt().block_on(async {
        let pool = create_test_db().await;

        // Start with one table
        sqlx::raw_sql(SINGLE_TABLE_SCHEMA)
            .execute(&pool)
            .await
            .unwrap();

        // Add second table
        let result = migrate_database_declaratively(pool.clone(), TWO_TABLE_SCHEMA, false).await;
        assert!(result.is_ok());
        assert!(result.unwrap(), "Adding second table should report changes");

        let tables = get_table_names(&pool).await;
        assert_eq!(tables, vec!["posts", "users"]);
    })
}

#[test]
fn test_modify_existing_table() {
    rt().block_on(async {
        let pool = create_test_db().await;

        // Start with two tables
        sqlx::raw_sql(TWO_TABLE_SCHEMA).execute(&pool).await.unwrap();

        // Modify users table to add email column
        let result =
            migrate_database_declaratively(pool.clone(), MODIFIED_TABLE_SCHEMA, false).await;
        assert!(result.is_ok());
        assert!(result.unwrap(), "Modifying table should report changes");

        // Check that email column was added
        let columns = sqlx::query("PRAGMA table_info(users)")
            .fetch_all(&pool)
            .await
            .unwrap();

        let column_names: Vec<String> = columns
            .iter()
            .map(|row| row.get::<String, _>("name"))
            .collect();
        assert!(column_names.contains(&"email".to_string()));
    })
}

#[test]
fn test_remove_table_requires_permission() {
    rt().block_on(async {
        let pool = create_test_db().await;

        // Start with two tables
        sqlx::raw_sql(TWO_TABLE_SCHEMA).execute(&pool).await.unwrap();

        // Try to remove posts table without permission
        let result = migrate_database_declaratively(pool.clone(), SINGLE_TABLE_SCHEMA, false).await;
        assert!(result.is_err(), "Should fail without allow_deletions");

        // Tables should be unchanged
        let tables = get_table_names(&pool).await;
        assert_eq!(tables, vec!["posts", "users"]);

        // Should succeed with permission
        let result = migrate_database_declaratively(pool.clone(), SINGLE_TABLE_SCHEMA, true).await;
        assert!(result.is_ok());
        assert!(result.unwrap(), "Should report changes when deleting table");

        let tables = get_table_names(&pool).await;
        assert_eq!(tables, vec!["users"]);
    })
}

#[test]
fn test_data_preservation() {
    rt().block_on(async {
        let pool = create_test_db().await;

        // Start with single table and add data
        sqlx::raw_sql(SINGLE_TABLE_SCHEMA)
            .execute(&pool)
            .await
            .unwrap();
        sqlx::query("INSERT INTO users (username) VALUES (?)")
            .bind("testuser")
            .execute(&pool)
            .await
            .unwrap();

        // Migrate to modified schema (adds email column)
        let result =
            migrate_database_declaratively(pool.clone(), MODIFIED_TABLE_SCHEMA, false).await;
        assert!(result.is_ok());

        // Check data is preserved
        let user = sqlx::query("SELECT username, email FROM users WHERE username = ?")
            .bind("testuser")
            .fetch_one(&pool)
            .await
            .unwrap();

        assert_eq!(user.get::<String, _>("username"), "testuser");
        assert!(user.get::<Option<String>, _>("email").is_none());
    })
}

#[test]
fn test_normalize_sql_function() {
    rt().block_on(async {
        assert_eq!(
            syllabus_tracker::normalize::normalize_sql("CREATE TABLE test( -- comment\n  id INTEGER )"),
            "CREATE TABLE test(id INTEGER)"
        );

        assert_eq!(
            syllabus_tracker::normalize::normalize_sql("CREATE TABLE \"quoted\"(id INTEGER)"),
            "CREATE TABLE quoted(id INTEGER)"
        );
    })
}

#[test]
fn test_column_deletion_forbidden() {
    rt().block_on(async {
        let pool = create_test_db().await;

        // Start with table that has username column
        sqlx::raw_sql(SINGLE_TABLE_SCHEMA)
            .execute(&pool)
            .await
            .unwrap();

        // Try to remove username column without permission
        let result =
            migrate_database_declaratively(pool.clone(), COLUMN_REMOVAL_SCHEMA, false).await;
        assert!(
            result.is_err(),
            "Should fail when trying to remove column without permission"
        );

        let error_msg = result.unwrap_err().message;
        assert!(
            error_msg.contains("username"),
            "Error should mention the column being removed"
        );
        assert!(
            error_msg.contains("allow_deletions=true"),
            "Error should mention permission issue"
        );

        // Original table should be unchanged
        let columns = sqlx::query("PRAGMA table_info(users)")
            .fetch_all(&pool)
            .await
            .unwrap();
        let column_names: Vec<String> = columns
            .iter()
            .map(|row| row.get::<String, _>("name"))
            .collect();
        assert!(
            column_names.contains(&"username".to_string()),
            "Original column should still exist"
        );
    })
}

#[test]
fn test_column_deletion_allowed() {
    rt().block_on(async {
        let pool = create_test_db().await;

        // Start with table that has username column
        sqlx::raw_sql(SINGLE_TABLE_SCHEMA)
            .execute(&pool)
            .await
            .unwrap();

        // Remove username column with permission
        let result =
            migrate_database_declaratively(pool.clone(), COLUMN_REMOVAL_SCHEMA, true).await;
        assert!(result.is_ok(), "Should succeed when deletions are allowed");
        assert!(result.unwrap(), "Should report changes made");

        // Username column should be gone
        let columns = sqlx::query("PRAGMA table_info(users)")
            .fetch_all(&pool)
            .await
            .unwrap();
        let column_names: Vec<String> = columns
            .iter()
            .map(|row| row.get::<String, _>("name"))
            .collect();
        assert!(
            !column_names.contains(&"username".to_string()),
            "Username column should be removed"
        );
        assert!(
            column_names.contains(&"id".to_string()),
            "ID column should remain"
        );
    })
}

#[test]
fn test_table_deletion_forbidden() {
    rt().block_on(async {
        let pool = create_test_db().await;

        // Start with two tables
        sqlx::raw_sql(TWO_TABLE_SCHEMA).execute(&pool).await.unwrap();

        // Try to remove posts table without permission
        let result = migrate_database_declaratively(pool.clone(), SINGLE_TABLE_SCHEMA, false).await;
        assert!(
            result.is_err(),
            "Should fail when trying to remove table without permission"
        );

        let error_msg = result.unwrap_err().message;
        assert!(
            error_msg.contains("posts") || error_msg.contains("tables"),
            "Error should mention table deletion"
        );
        assert!(
            error_msg.contains("allow_deletions=true"),
            "Error should mention permission issue"
        );

        // Both tables should still exist
        let tables = get_table_names(&pool).await;
        assert_eq!(tables, vec!["posts", "users"]);
    })
}

#[test]
fn test_index_deletion_forbidden() {
    rt().block_on(async {
        let pool = create_test_db().await;

        // Start with table and index
        sqlx::raw_sql(WITH_INDEX_SCHEMA).execute(&pool).await.unwrap();

        // Try to remove index without permission
        let result =
            migrate_database_declaratively(pool.clone(), WITHOUT_INDEX_SCHEMA, false).await;
        assert!(
            result.is_err(),
            "Should fail when trying to remove index without permission"
        );

        let error_msg = result.unwrap_err().message;
        assert!(
            error_msg.contains("idx_username") || error_msg.contains("indices"),
            "Error should mention index deletion"
        );

        // Index should still exist
        let indices = sqlx::query(
            "SELECT name FROM sqlite_master WHERE type = 'index' AND name = 'idx_username'",
        )
        .fetch_all(&pool)
        .await
        .unwrap();
        assert_eq!(indices.len(), 1, "Index should still exist");
    })
}

#[test]
fn test_index_deletion_allowed() {
    rt().block_on(async {
        let pool = create_test_db().await;

        // Start with table and index
        sqlx::raw_sql(WITH_INDEX_SCHEMA).execute(&pool).await.unwrap();

        // Remove index with permission
        let result = migrate_database_declaratively(pool.clone(), WITHOUT_INDEX_SCHEMA, true).await;
        assert!(result.is_ok(), "Should succeed when deletions are allowed");
        assert!(result.unwrap(), "Should report changes made");

        // Index should be gone
        let indices = sqlx::query(
            "SELECT name FROM sqlite_master WHERE type = 'index' AND name = 'idx_username'",
        )
        .fetch_all(&pool)
        .await
        .unwrap();
        assert_eq!(indices.len(), 0, "Index should be removed");
    })
}

#[test]
fn test_multiple_deletions_forbidden() {
    rt().block_on(async {
        let pool = create_test_db().await;

        // Start with complex schema
        sqlx::raw_sql(
            r#"
        CREATE TABLE users (
            id INTEGER PRIMARY KEY,
            username TEXT NOT NULL,
            email TEXT
        );

        CREATE TABLE posts (
            id INTEGER PRIMARY KEY,
            title TEXT NOT NULL,
            user_id INTEGER,
            FOREIGN KEY (user_id) REFERENCES users (id)
        );

        CREATE INDEX idx_username ON users(username);
    "#,
        )
        .execute(&pool)
        .await
        .unwrap();

        // Try to migrate to schema that removes table, column, and index
        let result = migrate_database_declaratively(
            pool.clone(),
            r#"
        CREATE TABLE users (
            id INTEGER PRIMARY KEY
            -- removed username and email columns
        );
        -- removed posts table and index
    "#,
            false,
        )
        .await;

        assert!(
            result.is_err(),
            "Should fail when trying multiple deletions without permission"
        );

        let error_msg = result.unwrap_err().message;
        // Should mention some kind of deletion issue
        assert!(
            error_msg.contains("allow_deletions=false") || error_msg.contains("Refusing to"),
            "Error should mention deletion restrictions"
        );
    })
}

#[test]
fn test_data_preservation_during_column_removal() {
    rt().block_on(async {
        let pool = create_test_db().await;

        // Start with table and add data
        sqlx::raw_sql(
            r#"
        CREATE TABLE users (
            id INTEGER PRIMARY KEY,
            username TEXT NOT NULL,
            email TEXT
        );
    "#,
        )
        .execute(&pool)
        .await
        .unwrap();

        sqlx::query("INSERT INTO users (username, email) VALUES (?, ?)")
            .bind("testuser")
            .bind("test@example.com")
            .execute(&pool)
            .await
            .unwrap();

        // Remove email column (with permission)
        let result = migrate_database_declaratively(pool.clone(), SINGLE_TABLE_SCHEMA, true).await;
        assert!(result.is_ok(), "Should succeed with deletions allowed");

        // Check data is preserved for remaining columns
        let user = sqlx::query("SELECT id, username FROM users WHERE username = ?")
            .bind("testuser")
            .fetch_one(&pool)
            .await
            .unwrap();

        assert_eq!(user.get::<String, _>("username"), "testuser");
        assert!(user.get::<i64, _>("id") > 0);

        // Email column should be gone
        let columns = sqlx::query("PRAGMA table_info(users)")
            .fetch_all(&pool)
            .await
            .unwrap();
        let column_names: Vec<String> = columns
            .iter()
            .map(|row| row.get::<String, _>("name"))
            .collect();
        assert!(!column_names.contains(&"email".to_string()));
    })
}

#[test]
fn alice_row_preserved_after_add_column() {
    rt().block_on(async {
        let pool = create_test_db().await;
        sqlx::raw_sql("CREATE TABLE users (id INTEGER PRIMARY KEY, username TEXT NOT NULL);")
            .execute(&pool)
            .await
            .unwrap();
        sqlx::query("INSERT INTO users (id, username) VALUES (1, 'alice')")
            .execute(&pool)
            .await
            .unwrap();

        let target =
            "CREATE TABLE users (id INTEGER PRIMARY KEY, username TEXT NOT NULL, email TEXT);";
        let changed = migrate_database_declaratively(pool.clone(), target, false)
            .await
            .expect("Migration should succeed");
        assert!(changed);

        let row = sqlx::query("SELECT id, username, email FROM users")
            .fetch_one(&pool)
            .await
            .unwrap();
        assert_eq!(row.get::<i64, _>("id"), 1);
        assert_eq!(row.get::<String, _>("username"), "alice");
        assert!(row.get::<Option<String>, _>("email").is_none());
    })
}

#[test]
fn failed_statement_rolls_back_schema_and_data() {
    rt().block_on(async {
        let pool = create_test_db().await;
        sqlx::raw_sql("CREATE TABLE users (id INTEGER PRIMARY KEY, username TEXT NOT NULL);")
            .execute(&pool)
            .await
            .unwrap();
        sqlx::query("INSERT INTO users (id, username) VALUES (1, 'alice')")
            .execute(&pool)
            .await
            .unwrap();

        // The rebuild's data copy leaves `email` NULL, which violates the new
        // NOT NULL constraint: the copy statement fails mid-script.
        let target = "CREATE TABLE users (id INTEGER PRIMARY KEY, username TEXT NOT NULL, email TEXT NOT NULL);";
        let result = migrate_database_declaratively(pool.clone(), target, false).await;
        assert!(result.is_err(), "Copy into NOT NULL column should fail");
        assert_eq!(result.unwrap_err().kind, MigrationErrorKind::Io);

        // Schema is exactly as before the attempt.
        let columns = sqlx::query("PRAGMA table_info(users)")
            .fetch_all(&pool)
            .await
            .unwrap();
        let column_names: Vec<String> = columns
            .iter()
            .map(|row| row.get::<String, _>("name"))
            .collect();
        assert_eq!(column_names, vec!["id", "username"]);

        // And the data survived.
        let row = sqlx::query("SELECT id, username FROM users")
            .fetch_one(&pool)
            .await
            .unwrap();
        assert_eq!(row.get::<i64, _>("id"), 1);
        assert_eq!(row.get::<String, _>("username"), "alice");

        // No temporary rebuild table is left behind.
        let tables = get_table_names(&pool).await;
        assert_eq!(tables, vec!["users"]);
    })
}

#[test]
fn bad_target_schema_reports_kind() {
    rt().block_on(async {
        let pool = create_test_db().await;
        let result = migrate_database_declaratively(pool.clone(), "THIS IS NOT SQL;", false).await;
        assert!(result.is_err());
        let err = result.unwrap_err();
        assert_eq!(err.kind, MigrationErrorKind::BadTargetSchema);
        assert!(err.message.contains("Failed to create pristine schema"));

        // Nothing was touched.
        let tables = get_table_names(&pool).await;
        assert!(tables.is_empty());
    })
}

#[test]
fn user_version_pragma_is_applied() {
    rt().block_on(async {
        let pool = create_test_db().await;
        let target = "CREATE TABLE users (id INTEGER PRIMARY KEY);\nPRAGMA user_version = 5;";
        let changed = migrate_database_declaratively(pool.clone(), target, false)
            .await
            .expect("Migration should succeed");
        assert!(changed);
        assert_eq!(get_pragma_value(&pool, "user_version").await, 5);

        // Re-running converges.
        let changed = migrate_database_declaratively(pool.clone(), target, false)
            .await
            .expect("Migration should succeed");
        assert!(!changed);
    })
}

#[test]
fn user_version_reset_to_zero_is_skipped() {
    rt().block_on(async {
        let pool = create_test_db().await;
        sqlx::query("PRAGMA user_version = 5")
            .execute(&pool)
            .await
            .unwrap();

        // The target would reset the version to zero, but a zero target is
        // never written; with nothing else to do the attempt reports no
        // change made.
        let changed = migrate_database_declaratively(pool.clone(), EMPTY_SCHEMA, false)
            .await
            .expect("Migration should succeed");
        assert!(!changed, "A zero target version is never written");
        assert_eq!(get_pragma_value(&pool, "user_version").await, 5);
    })
}

#[test]
fn index_recreated_when_definition_changes() {
    rt().block_on(async {
        let pool = create_test_db().await;
        sqlx::raw_sql(
            "CREATE TABLE users (id INTEGER PRIMARY KEY, username TEXT NOT NULL, email TEXT);\nCREATE INDEX idx_users ON users(username);",
        )
        .execute(&pool)
        .await
        .unwrap();

        let target = "CREATE TABLE users (id INTEGER PRIMARY KEY, username TEXT NOT NULL, email TEXT);\nCREATE INDEX idx_users ON users(email);";
        let changed = migrate_database_declaratively(pool.clone(), target, false)
            .await
            .expect("Migration should succeed");
        assert!(changed);

        let sql: String =
            sqlx::query("SELECT sql FROM sqlite_master WHERE type = 'index' AND name = 'idx_users'")
                .fetch_one(&pool)
                .await
                .unwrap()
                .get(0);
        assert!(sql.contains("email"));
    })
}

#[test]
fn plan_decision_empty_script_for_equal_snapshots() {
    let snapshot = SchemaSnapshot {
        tables: vec![TableState {
            name: "users".to_string(),
            info: TableInfo {
                sql: "CREATE TABLE users (id INTEGER PRIMARY KEY)".to_string(),
            },
            columns: vec![ColumnInfo {
                name: "id".to_string(),
            }],
        }],
        indices: vec![],
        user_version: 0,
    };
    let script = plan_migration(&snapshot, &snapshot, false).expect("Equal snapshots plan");
    assert!(script.statements.is_empty());
    assert!(!script.changed);
    assert!(!script.run_vacuum);
}

#[test]
fn plan_decision_vacuum_follows_statements() {
    let empty = SchemaSnapshot {
        tables: vec![],
        indices: vec![],
        user_version: 0,
    };
    let one_table = SchemaSnapshot {
        tables: vec![TableState {
            name: "users".to_string(),
            info: TableInfo {
                sql: "CREATE TABLE users (id INTEGER PRIMARY KEY)".to_string(),
            },
            columns: vec![ColumnInfo {
                name: "id".to_string(),
            }],
        }],
        indices: vec![],
        user_version: 0,
    };
    let script = plan_migration(&empty, &one_table, false).expect("Plan should succeed");
    assert_eq!(script.statements.len(), 1);
    assert_eq!(script.statements[0].sql, "CREATE TABLE users (id INTEGER PRIMARY KEY)");
    assert!(script.changed);
    assert!(script.run_vacuum, "VACUUM runs exactly when a statement ran");

    let script = plan_migration(&one_table, &one_table, true).expect("Plan should succeed");
    assert!(!script.run_vacuum, "No statement, no VACUUM");
}

#[test]
fn negative_user_version_is_applied() {
    rt().block_on(async {
        let pool = create_test_db().await;
        let target = "PRAGMA user_version = -3;";
        let changed = migrate_database_declaratively(pool.clone(), target, false)
            .await
            .expect("Migration should succeed");
        assert!(changed);
        assert_eq!(get_pragma_value(&pool, "user_version").await, -3);
    })
}
