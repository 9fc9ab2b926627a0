use repligrate::wal::{is_hex_digit, word_is_lsn, WalMessageParser};

#[test]
fn test_extract_lsn() {
    let message = "LSN 0/12345678 CREATE TABLE users";
    let lsn = WalMessageParser::extract_lsn(message);
    assert_eq!(lsn, Some("0/12345678".to_string()));
}

#[test]
fn test_is_ddl() {
    assert!(WalMessageParser::is_ddl("CREATE TABLE users (id INT)"));
    assert!(WalMessageParser::is_ddl("ALTER TABLE users ADD COLUMN name VARCHAR"));
    assert!(!WalMessageParser::is_ddl("INSERT INTO users VALUES (1)"));
}

#[test]
fn test_is_dml() {
    assert!(WalMessageParser::is_dml("INSERT INTO users VALUES (1)"));
    assert!(WalMessageParser::is_dml("UPDATE users SET name = 'John'"));
    assert!(!WalMessageParser::is_dml("CREATE TABLE users (id INT)"));
}

#[test]
fn framing_of_a_definition_message() {
    let message = "LSN 0/12345678 CREATE TABLE users";
    let m = WalMessageParser::parse_at(message, 7).unwrap();
    assert_eq!(m.lsn, "0/12345678");
    assert_eq!(m.timestamp, 7);
    assert_eq!(m.content, message);
    assert!(!m.is_commit);
    assert!(WalMessageParser::is_ddl(message));
    assert!(!WalMessageParser::is_dml(message));
}

#[test]
fn framing_defaults_and_commit_flag() {
    let m = WalMessageParser::parse_at("COMMIT 42", 0).unwrap();
    assert_eq!(m.lsn, "0/0");
    assert!(m.is_commit);
    assert!(WalMessageParser::parse_at("tx commit", 0).unwrap().is_commit);
    assert!(!WalMessageParser::parse_at("tx Commit", 0).unwrap().is_commit);
    let now = WalMessageParser::parse("BEGIN 1/A").unwrap();
    assert_eq!(now.lsn, "1/A");
    assert!(now.timestamp > 1_000_000_000_000);
    assert_eq!(now.clone().content, "BEGIN 1/A");
}

#[test]
fn first_matching_word_is_the_lsn() {
    assert_eq!(WalMessageParser::extract_lsn("x/y 0/AB 1/CD"), Some("0/AB".to_string()));
    assert_eq!(WalMessageParser::extract_lsn("no identifier here"), None);
    assert_eq!(WalMessageParser::extract_lsn(""), None);
    assert_eq!(WalMessageParser::extract_lsn("a/b/c 1/ /2"), None);
    assert_eq!(WalMessageParser::extract_lsn("a/b/c 1/2"), Some("1/2".to_string()));
    assert_eq!(WalMessageParser::extract_lsn("pos 1/A then 2/B"), Some("1/A".to_string()));
    assert_eq!(WalMessageParser::extract_lsn("GET /ab"), None);
    assert_eq!(WalMessageParser::extract_lsn("ab/ / cd"), None);
}

#[test]
fn lsn_word_form() {
    assert!(word_is_lsn("0/12345678"));
    assert!(word_is_lsn("aF/09"));
    assert!(word_is_lsn("1/2"));
    assert!(word_is_lsn("DEADbeef/0"));
    assert!(!word_is_lsn("/ab"));
    assert!(!word_is_lsn("ab/"));
    assert!(!word_is_lsn("a/"));
    assert!(!word_is_lsn("/2"));
    assert!(!word_is_lsn("/"));
    assert!(!word_is_lsn(""));
    assert!(!word_is_lsn("x1/2"));
    assert!(!word_is_lsn("123"));
    assert!(!word_is_lsn("1/2/3"));
    assert!(!word_is_lsn("0/12g4"));
    assert!(!word_is_lsn("0/１２"));
    assert!(is_hex_digit('0') && is_hex_digit('9') && is_hex_digit('a') && is_hex_digit('F'));
    assert!(!is_hex_digit('g') && !is_hex_digit('/') && !is_hex_digit(' '));
}

#[test]
fn definition_and_manipulation_are_independent() {
    let both = "create table t as select 1; insert into t values (2)";
    assert!(WalMessageParser::is_ddl(both));
    assert!(WalMessageParser::is_dml(both));
    assert!(!WalMessageParser::is_ddl("BEGIN"));
    assert!(!WalMessageParser::is_dml("BEGIN"));
    for kw in ["CREATE TABLE", "DROP TABLE", "ALTER TABLE", "CREATE INDEX", "DROP INDEX",
        "CREATE SCHEMA", "DROP SCHEMA", "ADD COLUMN", "DROP COLUMN", "ALTER COLUMN"] {
        assert!(WalMessageParser::has_ddl_keyword(kw));
        assert!(WalMessageParser::is_ddl(&kw.to_lowercase()));
    }
    for kw in ["INSERT", "UPDATE", "DELETE", "TRUNCATE"] {
        assert!(WalMessageParser::has_dml_keyword(kw));
        assert!(!WalMessageParser::has_dml_keyword(&kw.to_lowercase()));
        assert!(WalMessageParser::is_dml(&kw.to_lowercase()));
    }
    assert!(!WalMessageParser::has_ddl_keyword("CREATE  TABLE"));
}

#[test]
fn extract_sql_returns_the_message_or_nothing() {
    assert_eq!(WalMessageParser::extract_sql("drop view v"), Some("drop view v".to_string()));
    assert_eq!(WalMessageParser::extract_sql("truncate t"), Some("truncate t".to_string()));
    assert_eq!(WalMessageParser::extract_sql("BEGIN 5"), None);
    assert!(WalMessageParser::has_sql_keyword("ALTER"));
    assert!(!WalMessageParser::has_sql_keyword("alter"));
}
