use syllabus_tracker::auth::{Permission, Role, User};
use syllabus_tracker::diff::analyze_changes;
use syllabus_tracker::error::MigrationErrorKind;
use syllabus_tracker::migrator::{parse_allow_deletions, plan_migration};
use syllabus_tracker::schema::{
    ColumnInfo, IndexInfo, IndexState, SchemaSnapshot, TableInfo, TableState,
};
use syllabus_tracker::validation::ValidationResponse;

fn table(name: &str, sql: &str, cols: &[&str]) -> TableState {
    TableState {
        name: name.to_string(),
        info: TableInfo {
            sql: sql.to_string(),
        },
        columns: cols
            .iter()
            .map(|c| ColumnInfo {
                name: c.to_string(),
            })
            .collect(),
    }
}

fn index(name: &str, sql: &str) -> IndexState {
    IndexState {
        name: name.to_string(),
        info: IndexInfo {
            sql: sql.to_string(),
        },
    }
}

#[test]
fn diff_classifies_tables_and_indices() {
    let current = SchemaSnapshot {
        tables: vec![
            table("kept", "CREATE TABLE kept (a INTEGER)", &["a"]),
            table("gone", "CREATE TABLE gone (a INTEGER)", &["a"]),
            table(
                "changed",
                "CREATE TABLE changed (a INTEGER, b INTEGER)",
                &["a", "b"],
            ),
        ],
        indices: vec![
            index("idx_kept", "CREATE INDEX idx_kept ON kept(a)"),
            index("idx_gone", "CREATE INDEX idx_gone ON gone(a)"),
            index("idx_changed", "CREATE INDEX idx_changed ON changed(a)"),
        ],
        user_version: 1,
    };
    let target = SchemaSnapshot {
        tables: vec![
            table("kept", "CREATE TABLE  kept  ( a INTEGER )", &["a"]),
            table("fresh", "CREATE TABLE fresh (x INTEGER)", &["x"]),
            table(
                "changed",
                "CREATE TABLE changed (a INTEGER, c INTEGER)",
                &["a", "c"],
            ),
        ],
        indices: vec![
            index("idx_kept", "CREATE INDEX idx_kept ON kept(a)"),
            index("idx_fresh", "CREATE INDEX idx_fresh ON fresh(x)"),
            index("idx_changed", "CREATE INDEX idx_changed ON changed(b)"),
        ],
        user_version: 2,
    };
    assert!(current.check_wf());
    assert!(target.check_wf());
    let changes = analyze_changes(&current, &target);
    assert_eq!(changes.new_tables, vec!["fresh"]);
    assert_eq!(changes.removed_tables, vec!["gone"]);
    assert_eq!(changes.modified_tables.len(), 1);
    assert_eq!(changes.modified_tables[0].name, "changed");
    assert_eq!(changes.modified_tables[0].removed_columns, vec!["b"]);
    assert_eq!(changes.modified_tables[0].new_columns, vec!["c"]);
    assert_eq!(changes.new_indices, vec!["idx_fresh"]);
    assert_eq!(changes.removed_indices, vec!["idx_gone"]);
    assert_eq!(changes.modified_indices, vec!["idx_changed"]);
    assert!(changes.pragma_changes);
    assert!(changes.has_any_changes());
    assert!(changes.has_destructive_changes());
}

#[test]
fn refusal_lists_every_removal() {
    let current = SchemaSnapshot {
        tables: vec![
            table("gone", "CREATE TABLE gone (a INTEGER)", &["a"]),
            table(
                "shrunk",
                "CREATE TABLE shrunk (a INTEGER, b INTEGER)",
                &["a", "b"],
            ),
        ],
        indices: vec![index("idx_gone", "CREATE INDEX idx_gone ON gone(a)")],
        user_version: 0,
    };
    let target = SchemaSnapshot {
        tables: vec![table("shrunk", "CREATE TABLE shrunk (a INTEGER)", &["a"])],
        indices: vec![],
        user_version: 0,
    };
    let err = plan_migration(&current, &target, false).unwrap_err();
    assert_eq!(err.kind, MigrationErrorKind::Refused);
    assert!(err.message.contains("Refusing to"));
    assert!(err.message.contains("allow_deletions=false"));
    assert!(err.message.contains("allow_deletions=true"));
    assert!(err.message.contains("gone"));
    assert!(err.message.contains("idx_gone"));
    assert!(err.message.contains("b"));
    assert!(err.message.contains("shrunk"));
}

#[test]
fn rebuild_script_has_mandatory_step_order() {
    let current = SchemaSnapshot {
        tables: vec![table(
            "users",
            "CREATE TABLE users (id INTEGER, name TEXT)",
            &["id", "name"],
        )],
        indices: vec![],
        user_version: 0,
    };
    let target = SchemaSnapshot {
        tables: vec![table(
            "users",
            "CREATE TABLE users (id INTEGER, name TEXT, email TEXT)",
            &["id", "name", "email"],
        )],
        indices: vec![],
        user_version: 0,
    };
    let script = plan_migration(&current, &target, false).expect("Plan should succeed");
    let sqls: Vec<&str> = script.statements.iter().map(|s| s.sql.as_str()).collect();
    assert_eq!(
        sqls,
        vec![
            "CREATE TABLE users_migration_new (id INTEGER, name TEXT, email TEXT)",
            "INSERT INTO users_migration_new (id, name) SELECT id, name FROM users",
            "DROP TABLE users",
            "ALTER TABLE users_migration_new RENAME TO users",
        ]
    );
    assert!(script.changed);
}

#[test]
fn parse_allow_deletions_accepts_only_true() {
    assert!(parse_allow_deletions("true"));
    assert!(!parse_allow_deletions("false"));
    assert!(!parse_allow_deletions("TRUE"));
    assert!(!parse_allow_deletions(""));
    assert!(!parse_allow_deletions("yes"));
}

#[test]
fn role_permission_matrix() {
    let student = Role::Student;
    let coach = Role::Coach;
    let admin = Role::Admin;

    assert!(student.has_permission(Permission::ViewOwnProfile));
    assert!(student.has_permission(Permission::EditOwnNotes));
    assert!(!student.has_permission(Permission::ViewAllStudents));
    assert!(!student.has_permission(Permission::EditUserRoles));

    assert!(coach.has_permission(Permission::ViewOwnProfile));
    assert!(coach.has_permission(Permission::RegisterUsers));
    assert!(!coach.has_permission(Permission::DeleteUsers));

    assert!(admin.has_permission(Permission::EditOwnProfile));
    assert!(admin.has_permission(Permission::CreateTechniques));
    assert!(admin.has_permission(Permission::EditUserCredentials));

    assert_eq!(student.permissions().len(), 4);
    assert_eq!(coach.permissions().len(), 9);
    assert_eq!(admin.permissions().len(), 12);
}

#[test]
fn role_names_round_trip() {
    for role in [Role::Student, Role::Coach, Role::Admin] {
        let name = role.as_str();
        assert_eq!(Role::from_str(name).unwrap(), role);
    }
    assert_eq!(Role::Student.as_str(), "student");
    assert_eq!(Role::Coach.as_str(), "coach");
    assert_eq!(Role::Admin.as_str(), "admin");
    let err = Role::from_str("principal").unwrap_err();
    assert_eq!(err, "Unknown role: principal");
}

#[test]
fn user_permission_checks() {
    let coach = User {
        id: 7,
        username: "casey".to_string(),
        role: Role::Coach,
        display_name: "Casey".to_string(),
        archived: false,
        last_update: None,
    };
    assert!(coach.has_permission(Permission::AssignTechniques));
    assert!(coach.require_permission(Permission::AssignTechniques).is_ok());
    assert!(coach.require_permission(Permission::DeleteUsers).is_err());
    assert!(coach
        .require_all_permissions(&[Permission::AssignTechniques, Permission::CreateTechniques])
        .is_ok());
    assert!(coach
        .require_all_permissions(&[Permission::AssignTechniques, Permission::DeleteUsers])
        .is_err());
    assert!(coach
        ._require_any_permission(&[Permission::DeleteUsers, Permission::RegisterUsers])
        .is_ok());
    assert!(coach
        ._require_any_permission(&[Permission::DeleteUsers, Permission::EditUserRoles])
        .is_err());
    assert!(coach._require_any_permission(&[]).is_err());
    assert!(coach.require_all_permissions(&[]).is_ok());
}

#[test]
fn validation_response_shapes() {
    let single = ValidationResponse::with_error("username", "Username cannot be empty");
    assert_eq!(single.status, "error");
    assert_eq!(single.errors.len(), 1);
    assert_eq!(single.errors[0].0, "username");
    assert_eq!(single.errors[0].1, vec!["Username cannot be empty"]);

    let many = ValidationResponse::new(vec![
        ("a".to_string(), vec!["first".to_string()]),
        ("b".to_string(), vec!["second".to_string(), "third".to_string()]),
    ]);
    assert_eq!(many.status, "error");
    assert_eq!(many.errors.len(), 2);
}

#[test]
fn health_endpoint_body() {
    assert_eq!(syllabus_tracker::api::health(), "OK");
}
