use repligrate::optimizer::{
    clause_after_table, clause_after_table_at, clause_at, clause_for, clause_from_anchor,
    clone_range, extends_run, key_of, merge_as, MigrationOptimizer,
};
use repligrate::schema::{ChangeType, SchemaChange};

fn change(kind: ChangeType, object: &str, sql: &str) -> SchemaChange {
    SchemaChange::new(kind, "public".to_string(), object.to_string(), sql.to_string())
}

fn same(a: &[SchemaChange], b: &[SchemaChange]) -> bool {
    a.len() == b.len()
        && a.iter().zip(b.iter()).all(|(x, y)| {
            x.change_type == y.change_type
                && x.schema_name == y.schema_name
                && x.object_name == y.object_name
                && x.details.sql == y.details.sql
                && x.timestamp == y.timestamp
        })
}

#[test]
fn test_merge_consecutive_add_columns() {
    let changes = vec![
        SchemaChange::new(
            ChangeType::AddColumn,
            "public".to_string(),
            "users".to_string(),
            "ALTER TABLE users ADD COLUMN email VARCHAR(255)".to_string(),
        ),
        SchemaChange::new(
            ChangeType::AddColumn,
            "public".to_string(),
            "users".to_string(),
            "ALTER TABLE users ADD COLUMN phone VARCHAR(20)".to_string(),
        ),
    ];

    let optimized = MigrationOptimizer::optimize(changes);
    assert_eq!(optimized.len(), 1);
    assert!(optimized[0].details.sql.contains("email"));
    assert!(optimized[0].details.sql.contains("phone"));
}

#[test]
fn test_no_merge_different_tables() {
    let changes = vec![
        SchemaChange::new(
            ChangeType::AddColumn,
            "public".to_string(),
            "users".to_string(),
            "ALTER TABLE users ADD COLUMN email VARCHAR(255)".to_string(),
        ),
        SchemaChange::new(
            ChangeType::AddColumn,
            "public".to_string(),
            "orders".to_string(),
            "ALTER TABLE orders ADD COLUMN status VARCHAR(50)".to_string(),
        ),
    ];

    let optimized = MigrationOptimizer::optimize(changes);
    assert_eq!(optimized.len(), 2);
}

#[test]
fn test_merge_alter_tables() {
    let changes = vec![
        SchemaChange::new(
            ChangeType::AlterTable,
            "public".to_string(),
            "users".to_string(),
            "ALTER TABLE users ADD CONSTRAINT pk_users PRIMARY KEY (id)".to_string(),
        ),
        SchemaChange::new(
            ChangeType::AlterTable,
            "public".to_string(),
            "users".to_string(),
            "ALTER TABLE users ADD CONSTRAINT uk_email UNIQUE (email)".to_string(),
        ),
    ];

    let optimized = MigrationOptimizer::optimize(changes);
    assert_eq!(optimized.len(), 1);
}

#[test]
fn test_preserve_non_mergeable_operations() {
    let changes = vec![
        SchemaChange::new(
            ChangeType::CreateTable,
            "public".to_string(),
            "users".to_string(),
            "CREATE TABLE users (id SERIAL PRIMARY KEY)".to_string(),
        ),
        SchemaChange::new(
            ChangeType::AddColumn,
            "public".to_string(),
            "users".to_string(),
            "ALTER TABLE users ADD COLUMN email VARCHAR(255)".to_string(),
        ),
        SchemaChange::new(
            ChangeType::CreateIndex,
            "public".to_string(),
            "idx_users_email".to_string(),
            "CREATE INDEX idx_users_email ON users(email)".to_string(),
        ),
    ];

    let optimized = MigrationOptimizer::optimize(changes);
    assert_eq!(optimized.len(), 3);
}

#[test]
fn test_merge_add_constraints() {
    let changes = vec![
        SchemaChange::new(
            ChangeType::AddConstraint,
            "public".to_string(),
            "users".to_string(),
            "ALTER TABLE users ADD CONSTRAINT pk_users PRIMARY KEY (id)".to_string(),
        ),
        SchemaChange::new(
            ChangeType::AddConstraint,
            "public".to_string(),
            "users".to_string(),
            "ALTER TABLE users ADD CONSTRAINT uk_email UNIQUE (email)".to_string(),
        ),
    ];

    let optimized = MigrationOptimizer::optimize(changes);
    assert_eq!(optimized.len(), 1);
}

#[test]
fn merged_add_columns_statement_is_exact() {
    let out = MigrationOptimizer::optimize(vec![
        change(ChangeType::AddColumn, "users", "ALTER TABLE users ADD COLUMN email VARCHAR(255)"),
        change(ChangeType::AddColumn, "users", "alter table users add column phone VARCHAR(20)"),
    ]);
    assert_eq!(out.len(), 1);
    assert_eq!(out[0].change_type, ChangeType::AddColumn);
    assert_eq!(out[0].schema_name, "public");
    assert_eq!(out[0].object_name, "users");
    assert_eq!(
        out[0].details.sql,
        "ALTER TABLE users ADD COLUMN email VARCHAR(255), add column phone VARCHAR(20);"
    );
}

#[test]
fn merged_add_constraints_statement_is_exact() {
    let out = MigrationOptimizer::optimize(vec![
        change(ChangeType::AddConstraint, "users", "ALTER TABLE users ADD CONSTRAINT pk_users PRIMARY KEY (id)"),
        change(ChangeType::AddConstraint, "users", "ALTER TABLE users ADD CONSTRAINT uk_email UNIQUE (email)"),
    ]);
    assert_eq!(
        out[0].details.sql,
        "ALTER TABLE users ADD CONSTRAINT pk_users PRIMARY KEY (id), ADD CONSTRAINT uk_email UNIQUE (email);"
    );
}

#[test]
fn merged_alter_tables_statement_holds_what_follows_the_table_name() {
    let out = MigrationOptimizer::optimize(vec![
        change(ChangeType::AlterTable, "users", "ALTER TABLE users RENAME COLUMN a TO b"),
        change(ChangeType::AlterTable, "users", "ALTER TABLE   users   OWNER TO bob  "),
    ]);
    assert_eq!(out.len(), 1);
    assert_eq!(out[0].details.sql, "ALTER TABLE users RENAME COLUMN a TO b, OWNER TO bob;");
}

#[test]
fn merged_record_keeps_first_records_fields() {
    let first = SchemaChange::at(
        ChangeType::AddColumn,
        "s".to_string(),
        "t".to_string(),
        "ALTER TABLE t ADD COLUMN a int".to_string(),
        10,
    )
    .with_metadata("origin".to_string(), "first".to_string());
    let second = SchemaChange::at(
        ChangeType::AddColumn,
        "s".to_string(),
        "t".to_string(),
        "ALTER TABLE t ADD COLUMN b int".to_string(),
        20,
    );
    let out = MigrationOptimizer::optimize(vec![first, second]);
    assert_eq!(out.len(), 1);
    assert_eq!(out[0].timestamp, 10);
    assert_eq!(out[0].details.metadata.get("origin"), Some("first".to_string()));
}

#[test]
fn member_without_anchor_contributes_nothing() {
    let out = MigrationOptimizer::optimize(vec![
        change(ChangeType::AddColumn, "t", "ALTER TABLE t ADD COLUMN a int"),
        change(ChangeType::AddColumn, "t", "something else"),
        change(ChangeType::AddColumn, "t", "ALTER TABLE t ADD COLUMN c int"),
    ]);
    assert_eq!(out.len(), 1);
    assert_eq!(out[0].details.sql, "ALTER TABLE t ADD COLUMN a int, ADD COLUMN c int;");
    let none = MigrationOptimizer::optimize(vec![
        change(ChangeType::AddColumn, "t", "x"),
        change(ChangeType::AddColumn, "t", "y"),
    ]);
    assert_eq!(none[0].details.sql, "ALTER TABLE t ;");
}

#[test]
fn unmergeable_kinds_pass_through_even_when_adjacent() {
    let input = vec![
        change(ChangeType::DropColumn, "t", "ALTER TABLE t DROP COLUMN a"),
        change(ChangeType::DropColumn, "t", "ALTER TABLE t DROP COLUMN b"),
        change(ChangeType::DropConstraint, "t", "ALTER TABLE t DROP CONSTRAINT c"),
        change(ChangeType::DropConstraint, "t", "ALTER TABLE t DROP CONSTRAINT d"),
        change(ChangeType::CreateIndex, "t", "CREATE INDEX t ON u(x)"),
        change(ChangeType::CreateIndex, "t", "CREATE INDEX t ON u(y)"),
    ];
    let out = MigrationOptimizer::optimize(input.clone());
    assert!(same(&out, &input));
}

#[test]
fn runs_are_maximal_and_separated_by_other_kinds() {
    let out = MigrationOptimizer::optimize(vec![
        change(ChangeType::AddColumn, "t", "ALTER TABLE t ADD COLUMN a int"),
        change(ChangeType::AddColumn, "t", "ALTER TABLE t ADD COLUMN b int"),
        change(ChangeType::DropColumn, "t", "ALTER TABLE t DROP COLUMN z"),
        change(ChangeType::AddColumn, "t", "ALTER TABLE t ADD COLUMN c int"),
        change(ChangeType::AddConstraint, "t", "ALTER TABLE t ADD CONSTRAINT p CHECK (a)"),
        change(ChangeType::AddConstraint, "t", "ALTER TABLE t ADD CONSTRAINT q CHECK (b)"),
        change(ChangeType::AddConstraint, "t", "ALTER TABLE t ADD CONSTRAINT r CHECK (c)"),
    ]);
    let sqls: Vec<&str> = out.iter().map(|c| c.details.sql.as_str()).collect();
    assert_eq!(
        sqls,
        vec![
            "ALTER TABLE t ADD COLUMN a int, ADD COLUMN b int;",
            "ALTER TABLE t DROP COLUMN z",
            "ALTER TABLE t ADD COLUMN c int",
            "ALTER TABLE t ADD CONSTRAINT p CHECK (a), ADD CONSTRAINT q CHECK (b), ADD CONSTRAINT r CHECK (c);",
        ]
    );
}

#[test]
fn groups_come_out_in_order_of_first_appearance() {
    let out = MigrationOptimizer::optimize(vec![
        change(ChangeType::AddColumn, "b", "ALTER TABLE b ADD COLUMN x int"),
        change(ChangeType::CreateTable, "a", "CREATE TABLE a ()"),
        change(ChangeType::AddColumn, "b", "ALTER TABLE b ADD COLUMN y int"),
        change(ChangeType::DropTable, "c", "DROP TABLE c"),
        change(ChangeType::DropTable, "a", "DROP TABLE a"),
    ]);
    let got: Vec<(&str, &str)> =
        out.iter().map(|c| (c.object_name.as_str(), c.details.sql.as_str())).collect();
    assert_eq!(
        got,
        vec![
            ("b", "ALTER TABLE b ADD COLUMN x int, ADD COLUMN y int;"),
            ("a", "CREATE TABLE a ()"),
            ("a", "DROP TABLE a"),
            ("c", "DROP TABLE c"),
        ]
    );
}

#[test]
fn same_object_in_different_schemas_is_not_merged() {
    let a = SchemaChange::at(ChangeType::AddColumn, "s1".to_string(), "t".to_string(), "ALTER TABLE t ADD COLUMN a int".to_string(), 1);
    let b = SchemaChange::at(ChangeType::AddColumn, "s2".to_string(), "t".to_string(), "ALTER TABLE t ADD COLUMN b int".to_string(), 2);
    let input = vec![a, b];
    let out = MigrationOptimizer::optimize(input.clone());
    assert!(same(&out, &input));
}

#[test]
fn optimize_is_idempotent_and_never_longer() {
    let input = vec![
        change(ChangeType::AddColumn, "users", "ALTER TABLE users ADD COLUMN a int"),
        change(ChangeType::AlterTable, "orders", "ALTER TABLE orders OWNER TO x"),
        change(ChangeType::AddColumn, "users", "ALTER TABLE users ADD COLUMN b int"),
        change(ChangeType::AlterTable, "orders", "ALTER TABLE orders RENAME TO o2"),
        change(ChangeType::CreateIndex, "idx", "CREATE INDEX idx ON users(a)"),
        change(ChangeType::AddConstraint, "users", "ALTER TABLE users ADD CONSTRAINT c CHECK (a)"),
        change(ChangeType::Other("GRANT".to_string()), "", "GRANT ALL"),
    ];
    let once = MigrationOptimizer::optimize(input.clone());
    assert!(once.len() <= input.len());
    assert_eq!(once.len(), 5);
    let twice = MigrationOptimizer::optimize(once.clone());
    assert!(same(&once, &twice));
}

#[test]
fn optimize_empty_batch_is_empty() {
    assert_eq!(MigrationOptimizer::optimize(Vec::new()).len(), 0);
}

#[test]
fn optimize_gives_the_same_result_each_time() {
    let input = vec![
        change(ChangeType::DropTable, "z", "DROP TABLE z"),
        change(ChangeType::DropTable, "y", "DROP TABLE y"),
        change(ChangeType::DropTable, "x", "DROP TABLE x"),
    ];
    for _ in 0..5 {
        assert!(same(&MigrationOptimizer::optimize(input.clone()), &input));
    }
}

#[test]
fn merge_table_changes_separates_alter_runs_by_object_name() {
    let out = MigrationOptimizer::merge_table_changes(vec![
        change(ChangeType::AlterTable, "a", "ALTER TABLE a OWNER TO x"),
        change(ChangeType::AlterTable, "a", "ALTER TABLE a OWNER TO y"),
        change(ChangeType::AlterTable, "b", "ALTER TABLE b OWNER TO z"),
    ]);
    assert_eq!(out.len(), 2);
    assert_eq!(out[0].details.sql, "ALTER TABLE a OWNER TO x, OWNER TO y;");
    assert_eq!(out[1].details.sql, "ALTER TABLE b OWNER TO z");
    // Added columns are collected whatever object the records name.
    let cols = MigrationOptimizer::merge_table_changes(vec![
        change(ChangeType::AddColumn, "a", "ALTER TABLE a ADD COLUMN p int"),
        change(ChangeType::AddColumn, "b", "ALTER TABLE b ADD COLUMN q int"),
    ]);
    assert_eq!(cols.len(), 1);
    assert_eq!(cols[0].details.sql, "ALTER TABLE a ADD COLUMN p int, ADD COLUMN q int;");
}

#[test]
fn merge_functions_work_on_a_single_record() {
    let one = vec![change(ChangeType::AddColumn, "t", "ALTER TABLE t ADD COLUMN a int")];
    assert_eq!(MigrationOptimizer::merge_add_columns(one.clone()).details.sql, "ALTER TABLE t ADD COLUMN a int;");
    assert_eq!(MigrationOptimizer::merge_add_constraints(one.clone()).details.sql, "ALTER TABLE t ;");
    assert_eq!(MigrationOptimizer::merge_alter_tables(one.clone()).details.sql, "ALTER TABLE t ADD COLUMN a int;");
    assert_eq!(merge_as(&ChangeType::DropTable, &one).details.sql, "ALTER TABLE t ;");
}

#[test]
fn compatibility_of_kinds() {
    let mergeable = vec![
        ChangeType::AddColumn,
        ChangeType::AlterTable,
        ChangeType::DropColumn,
        ChangeType::AddConstraint,
        ChangeType::DropConstraint,
    ];
    for k in &mergeable {
        assert!(MigrationOptimizer::are_compatible_operations(k, k));
    }
    assert!(!MigrationOptimizer::are_compatible_operations(&ChangeType::AddColumn, &ChangeType::DropColumn));
    assert!(!MigrationOptimizer::are_compatible_operations(&ChangeType::CreateTable, &ChangeType::CreateTable));
    assert!(!MigrationOptimizer::are_compatible_operations(&ChangeType::CreateIndex, &ChangeType::CreateIndex));
    assert!(!MigrationOptimizer::are_compatible_operations(
        &ChangeType::Other("A".to_string()),
        &ChangeType::Other("A".to_string())
    ));
}

#[test]
fn can_merge_needs_same_object_and_compatible_kinds() {
    let a = change(ChangeType::DropColumn, "t", "x");
    let b = change(ChangeType::DropColumn, "t", "y");
    let c = change(ChangeType::DropColumn, "u", "z");
    let d = change(ChangeType::CreateTable, "t", "w");
    assert!(MigrationOptimizer::can_merge(&a, &b));
    assert!(!MigrationOptimizer::can_merge(&a, &c));
    assert!(!MigrationOptimizer::can_merge(&a, &d));
    assert!(!MigrationOptimizer::can_merge(&d, &d));
}

#[test]
fn extends_run_only_for_the_three_merged_kinds() {
    let a = change(ChangeType::AddConstraint, "t", "x");
    let b = change(ChangeType::AddConstraint, "t", "y");
    let c = change(ChangeType::AddConstraint, "u", "y");
    let d = change(ChangeType::DropColumn, "t", "y");
    assert!(extends_run(&a, &b));
    assert!(!extends_run(&a, &c));
    assert!(!extends_run(&a, &d));
    assert!(!extends_run(&d, &d));
}

#[test]
fn clause_extraction() {
    assert_eq!(
        clause_for(&ChangeType::AddColumn, "alter table t Add Column a int"),
        Some("Add Column a int".to_string())
    );
    assert_eq!(clause_for(&ChangeType::AddColumn, "alter table t"), None);
    assert_eq!(
        clause_for(&ChangeType::AddConstraint, "ALTER TABLE t ADD CONSTRAINT c CHECK (x)"),
        Some("ADD CONSTRAINT c CHECK (x)".to_string())
    );
    assert_eq!(clause_for(&ChangeType::AlterTable, "ALTER TABLE t"), None);
    assert_eq!(clause_for(&ChangeType::AlterTable, "ALTER TABLE t   "), None);
    assert_eq!(clause_for(&ChangeType::AlterTable, "ALTER TABLE"), None);
    assert_eq!(clause_for(&ChangeType::AlterTable, "x; alter table t owner to y"), Some("owner to y".to_string()));
    assert_eq!(clause_for(&ChangeType::DropTable, "DROP TABLE ADD COLUMN"), None);
}

#[test]
fn clause_at_a_given_position() {
    assert_eq!(clause_at("abcdefgh", 2), Some("cdefgh".to_string()));
    assert_eq!(clause_at("ab", 2), Some("".to_string()));
    assert_eq!(clause_at("a", 2), None);
    assert_eq!(clause_after_table_at("alter table t go", 0), Some("go".to_string()));
    assert_eq!(clause_after_table_at("x alter table t  go  on ", 2), Some("go  on".to_string()));
    assert_eq!(clause_after_table_at("alter table t", 0), None);
    assert_eq!(clause_after_table_at("short", 3), None);
    assert_eq!(clause_after_table_at("short", 9), None);
}

#[test]
fn anchor_is_found_in_the_statement_itself() {
    assert_eq!(clause_from_anchor("see Add  Column, add column x", "ADD COLUMN"), Some("add column x".to_string()));
    assert_eq!(clause_from_anchor("abcd", "XY"), None);
    assert_eq!(clause_from_anchor("", "XY"), None);
    assert_eq!(clause_from_anchor("xy", "XY"), Some("xy".to_string()));
    assert_eq!(clause_after_table("Alter Table t drop x"), Some("drop x".to_string()));
    assert_eq!(clause_after_table("ALTER  TABLE t drop x"), None);
    // A letter whose upper-case form is longer does not shift the clause.
    assert_eq!(
        clause_for(&ChangeType::AddColumn, "ALTER TABLE \u{df} ADD COLUMN x"),
        Some("ADD COLUMN x".to_string())
    );
    assert_eq!(
        clause_for(&ChangeType::AlterTable, "-- stra\u{df}e\nalter table t owner to y"),
        Some("owner to y".to_string())
    );
    let out = MigrationOptimizer::optimize(vec![
        change(ChangeType::AddColumn, "\u{df}", "ALTER TABLE \u{df} ADD COLUMN x int"),
        change(ChangeType::AddColumn, "\u{df}", "ALTER TABLE \u{df} ADD COLUMN y int"),
    ]);
    assert_eq!(out[0].details.sql, "ALTER TABLE \u{df} ADD COLUMN x int, ADD COLUMN y int;");
}

#[test]
fn key_and_range_helpers() {
    let a = change(ChangeType::DropTable, "t", "DROP TABLE t");
    assert_eq!(key_of(&a), "public.t");
    let v = vec![a.clone(), change(ChangeType::DropTable, "u", "DROP TABLE u"), a];
    let r = clone_range(&v, 1, 3);
    assert_eq!(r.len(), 2);
    assert_eq!(r[0].object_name, "u");
    assert_eq!(r[1].object_name, "t");
    assert_eq!(clone_range(&v, 2, 2).len(), 0);
}

#[test]
fn optimize_keeps_time_order_within_a_group() {
    let mk = |kind: ChangeType, object: &str, sql: &str, at: i64| {
        SchemaChange::at(kind, "public".to_string(), object.to_string(), sql.to_string(), at)
    };
    let out = MigrationOptimizer::optimize(vec![
        mk(ChangeType::AddColumn, "t", "ALTER TABLE t ADD COLUMN a int", 1),
        mk(ChangeType::DropTable, "u", "DROP TABLE u", 2),
        mk(ChangeType::AddColumn, "t", "ALTER TABLE t ADD COLUMN b int", 3),
        mk(ChangeType::DropColumn, "t", "ALTER TABLE t DROP COLUMN a", 4),
        mk(ChangeType::CreateTable, "u", "CREATE TABLE u ()", 5),
    ]);
    let times: Vec<(&str, i64)> = out.iter().map(|c| (c.object_name.as_str(), c.timestamp)).collect();
    assert_eq!(times, vec![("t", 1), ("t", 4), ("u", 2), ("u", 5)]);
}
