use repligrate::metadata::Metadata;
use repligrate::schema::{
    extract_index_name, extract_table_name, trim_quotes, trim_text, ChangeType, ColumnInfo,
    ConstraintInfo, SchemaChange, SchemaChangeParser,
};

#[test]
fn test_schema_change_parser() {
    let sql = "CREATE TABLE users (id INT PRIMARY KEY)";
    let result = SchemaChangeParser::parse(sql);
    assert!(result.is_some());
}

#[test]
fn test_parse_create_table() {
    let sql = "CREATE TABLE users (id INT PRIMARY KEY, name VARCHAR(255))";
    let result = SchemaChangeParser::parse(sql);
    assert!(result.is_some());
    let (change_type, _) = result.unwrap();
    assert_eq!(change_type, ChangeType::CreateTable);
}

#[test]
fn test_parse_add_column() {
    let sql = "ALTER TABLE users ADD COLUMN email VARCHAR(255)";
    let result = SchemaChangeParser::parse(sql);
    assert!(result.is_some());
    let (change_type, _) = result.unwrap();
    assert_eq!(change_type, ChangeType::AddColumn);
}

#[test]
fn test_parse_add_constraint() {
    let sql = "ALTER TABLE users ADD CONSTRAINT pk_users PRIMARY KEY (id)";
    let result = SchemaChangeParser::parse(sql);
    assert!(result.is_some());
    let (change_type, _) = result.unwrap();
    assert_eq!(change_type, ChangeType::AddConstraint);
}

#[test]
fn test_parse_drop_constraint() {
    let sql = "ALTER TABLE users DROP CONSTRAINT pk_users";
    let result = SchemaChangeParser::parse(sql);
    assert!(result.is_some());
    let (change_type, _) = result.unwrap();
    assert_eq!(change_type, ChangeType::DropConstraint);
}

#[test]
fn test_parse_add_unique_constraint() {
    let sql = "ALTER TABLE users ADD CONSTRAINT uk_email UNIQUE (email)";
    let result = SchemaChangeParser::parse(sql);
    assert!(result.is_some());
    let (change_type, _) = result.unwrap();
    assert_eq!(change_type, ChangeType::AddConstraint);
}

#[test]
fn test_parse_add_foreign_key() {
    let sql =
        "ALTER TABLE orders ADD CONSTRAINT fk_user_id FOREIGN KEY (user_id) REFERENCES users(id)";
    let result = SchemaChangeParser::parse(sql);
    assert!(result.is_some());
    let (change_type, _) = result.unwrap();
    assert_eq!(change_type, ChangeType::AddConstraint);
}

#[test]
fn parse_create_table_names_the_table() {
    let (kind, name) =
        SchemaChangeParser::parse("CREATE TABLE users (id INT PRIMARY KEY, name VARCHAR(255))")
            .unwrap();
    assert_eq!(kind, ChangeType::CreateTable);
    assert_eq!(name, "users");
}

#[test]
fn parse_add_constraint_names_the_table() {
    let (kind, name) =
        SchemaChangeParser::parse("ALTER TABLE users ADD CONSTRAINT pk_users PRIMARY KEY (id)")
            .unwrap();
    assert_eq!(kind, ChangeType::AddConstraint);
    assert_eq!(name, "users");
}

#[test]
fn parse_is_case_insensitive_and_trims() {
    let (kind, name) = SchemaChangeParser::parse("  \n create table Users (id int)  ").unwrap();
    assert_eq!(kind, ChangeType::CreateTable);
    assert_eq!(name, "Users");
    let (kind, name) = SchemaChangeParser::parse("\tdrop index idx_a").unwrap();
    assert_eq!(kind, ChangeType::DropIndex);
    assert_eq!(name, "idx_a");
}

#[test]
fn parse_every_known_kind() {
    let cases = vec![
        ("DROP TABLE users", ChangeType::DropTable, "users"),
        ("ALTER TABLE t DROP COLUMN c", ChangeType::DropColumn, "t"),
        ("ALTER TABLE t ALTER COLUMN c TYPE int", ChangeType::ModifyColumn, "t"),
        ("ALTER TABLE t RENAME TO u", ChangeType::AlterTable, "t"),
        ("CREATE INDEX idx_users_email ON users(email)", ChangeType::CreateIndex, "idx_users_email"),
        ("DROP INDEX idx_users_email", ChangeType::DropIndex, "idx_users_email"),
    ];
    for (sql, kind, name) in cases {
        let (k, n) = SchemaChangeParser::parse(sql).unwrap();
        assert_eq!(k, kind);
        assert_eq!(n, name);
    }
}

#[test]
fn parse_alter_table_priority_order() {
    // ADD COLUMN wins over every later pattern in the same statement.
    let (kind, _) =
        SchemaChangeParser::parse("ALTER TABLE t DROP CONSTRAINT c, ADD COLUMN x int").unwrap();
    assert_eq!(kind, ChangeType::AddColumn);
    let (kind, _) =
        SchemaChangeParser::parse("ALTER TABLE t ADD CONSTRAINT c CHECK (x), DROP COLUMN y").unwrap();
    assert_eq!(kind, ChangeType::DropColumn);
}

#[test]
fn parse_unknown_statement_is_other_with_upper_tag() {
    let (kind, name) = SchemaChangeParser::parse("grant select on users to bob").unwrap();
    assert_eq!(kind, ChangeType::Other("GRANT".to_string()));
    assert_eq!(name, "");
}

#[test]
fn parse_empty_statement_is_other_unknown() {
    let (kind, name) = SchemaChangeParser::parse("   ").unwrap();
    assert_eq!(kind, ChangeType::Other("UNKNOWN".to_string()));
    assert_eq!(name, "");
    let (kind, _) = SchemaChangeParser::parse("").unwrap();
    assert_eq!(kind, ChangeType::Other("UNKNOWN".to_string()));
}

#[test]
fn classify_takes_the_uppercased_statement_as_it_is() {
    assert_eq!(SchemaChangeParser::classify("CREATE TABLE t"), ChangeType::CreateTable);
    // Lower case is not folded here: that is the caller's part.
    assert_eq!(
        SchemaChangeParser::classify("create table t"),
        ChangeType::Other("create".to_string())
    );
    // A prefix must stand at the very start.
    assert_eq!(SchemaChangeParser::classify(" CREATE TABLE t"), ChangeType::Other("CREATE".to_string()));
}

#[test]
fn object_name_strips_quotes() {
    assert_eq!(extract_table_name("CREATE TABLE \"users\" (id INT)"), "users");
    assert_eq!(extract_table_name("CREATE TABLE `users` (id INT)"), "users");
    assert_eq!(extract_index_name("DROP INDEX \"`idx`\""), "idx");
}

#[test]
fn object_name_is_empty_when_keyword_is_last_or_absent() {
    assert_eq!(extract_table_name("CREATE TABLE"), "");
    assert_eq!(extract_table_name("DROP   TABLE   "), "");
    assert_eq!(extract_table_name("SELECT 1"), "");
    assert_eq!(extract_index_name("CREATE TABLE users"), "");
}

#[test]
fn object_name_follows_first_keyword_in_any_case() {
    assert_eq!(extract_table_name("alter table a rename to table b"), "a");
    assert_eq!(extract_table_name("CREATE\tTABLE\n  users\n(id INT)"), "users");
}

#[test]
fn trim_quotes_removes_only_outer_quotes() {
    assert_eq!(trim_quotes("\"a\"b\""), "a\"b");
    assert_eq!(trim_quotes("``"), "");
    assert_eq!(trim_quotes("plain"), "plain");
    assert_eq!(trim_quotes("'single'"), "'single'");
}

#[test]
fn trim_text_removes_outer_white_space() {
    assert_eq!(trim_text("  a b \t\n"), "a b");
    assert_eq!(trim_text("\u{a0}x\u{2003}"), "x");
    assert_eq!(trim_text("   "), "");
    assert_eq!(trim_text(""), "");
}

#[test]
fn new_change_has_no_columns_constraints_or_metadata() {
    let c = SchemaChange::new(
        ChangeType::AddColumn,
        "public".to_string(),
        "users".to_string(),
        "ALTER TABLE users ADD COLUMN email VARCHAR(255)".to_string(),
    );
    assert_eq!(c.change_type, ChangeType::AddColumn);
    assert_eq!(c.schema_name, "public");
    assert_eq!(c.object_name, "users");
    assert_eq!(c.details.sql, "ALTER TABLE users ADD COLUMN email VARCHAR(255)");
    assert!(c.details.columns.is_none());
    assert!(c.details.constraints.is_none());
    assert_eq!(c.details.metadata.len(), 0);
    // The clock is read: any time after the year 2001.
    assert!(c.timestamp > 1_000_000_000_000);
}

#[test]
fn change_at_keeps_the_given_time() {
    let c = SchemaChange::at(ChangeType::DropTable, "s".to_string(), "t".to_string(), "DROP TABLE t".to_string(), 42);
    assert_eq!(c.timestamp, 42);
    let d = c.clone();
    assert_eq!(d.timestamp, 42);
    assert_eq!(d.object_name, "t");
    assert_eq!(d.details.sql, "DROP TABLE t");
}

#[test]
fn builders_attach_columns_constraints_and_metadata() {
    let col = ColumnInfo {
        name: "email".to_string(),
        data_type: "text".to_string(),
        nullable: true,
        default: Some("''".to_string()),
        constraints: vec!["UNIQUE".to_string()],
    };
    let con = ConstraintInfo {
        name: "pk".to_string(),
        constraint_type: "PRIMARY KEY".to_string(),
        definition: "(id)".to_string(),
    };
    let c = SchemaChange::at(ChangeType::CreateTable, "s".to_string(), "t".to_string(), "x".to_string(), 1)
        .with_columns(vec![col.clone()])
        .with_constraints(vec![con.clone()])
        .with_metadata("a".to_string(), "1".to_string())
        .with_metadata("b".to_string(), "2".to_string())
        .with_metadata("a".to_string(), "3".to_string());
    let cols = c.details.columns.as_ref().unwrap();
    assert_eq!(cols.len(), 1);
    assert_eq!(cols[0].name, "email");
    assert_eq!(cols[0].default, Some("''".to_string()));
    assert_eq!(cols[0].constraints, vec!["UNIQUE".to_string()]);
    let cons = c.details.constraints.as_ref().unwrap();
    assert_eq!(cons[0].constraint_type, "PRIMARY KEY");
    assert_eq!(c.details.metadata.len(), 2);
    assert_eq!(c.details.metadata.get("a"), Some("3".to_string()));
    assert_eq!(c.details.metadata.get("b"), Some("2".to_string()));
    assert_eq!(c.details.metadata.get("c"), None);
    assert_eq!(c.details.sql, "x");
}

#[test]
fn metadata_replaces_in_place_and_clones() {
    let mut m = Metadata::new();
    assert_eq!(m.len(), 0);
    assert_eq!(m.get("k"), None);
    m.insert("k".to_string(), "v".to_string());
    m.insert("k".to_string(), "w".to_string());
    assert_eq!(m.len(), 1);
    assert_eq!(m.get("k"), Some("w".to_string()));
    let n = m.clone();
    assert_eq!(n.get("k"), Some("w".to_string()));
    m.insert("a".to_string(), "1".to_string());
    m.insert("k".to_string(), "x".to_string());
    assert_eq!(
        m.entries(),
        vec![("k".to_string(), "x".to_string()), ("a".to_string(), "1".to_string())]
    );
    assert_eq!(n.len(), 1);
}
