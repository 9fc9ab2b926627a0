//! The statements that administer the replication slot and the publication.
//! Sending them to the database is the caller's part.

use vstd::prelude::*;
use crate::text::{append_str, join_with, joined, texts};

verus! {

/// What the database reports of a replication slot.
#[derive(Debug, Clone)]
pub struct SlotInfo {
    pub slot_name: String,
    pub slot_type: String,
    pub datoid: i32,
    pub confirmed_flush_lsn: String,
}

/// The query that tells whether a replication slot of a given name exists;
/// the name is its one parameter.
pub open spec fn slot_exists_statement() -> Seq<char> {
    "SELECT 1 FROM pg_replication_slots WHERE slot_name = $1"@
}

/// The query that tells whether a publication of a given name exists; the
/// name is its one parameter.
pub open spec fn publication_exists_statement() -> Seq<char> {
    "SELECT 1 FROM pg_publication WHERE pubname = $1"@
}

/// The query for the current position of the write-ahead log, as text.
pub open spec fn current_lsn_statement() -> Seq<char> {
    "SELECT pg_current_wal_lsn()::text"@
}

/// The query for what is known of the replication slot of a given name;
/// the name is its one parameter.
pub open spec fn slot_info_statement() -> Seq<char> {
    "SELECT slot_name, slot_type, datoid, confirmed_flush_lsn FROM pg_replication_slots WHERE slot_name = $1"@
}

/// The statement that creates the logical replication slot `slot_name`.
pub open spec fn create_slot_statement(slot_name: Seq<char>) -> Seq<char> {
    "SELECT * FROM pg_create_logical_replication_slot('"@ + slot_name + "', 'test_decoding')"@
}

/// The statement that drops the replication slot `slot_name`.
pub open spec fn drop_slot_statement(slot_name: Seq<char>) -> Seq<char> {
    "SELECT pg_drop_replication_slot('"@ + slot_name + "')"@
}

/// The statement that drops the publication `pub_name` if it exists.
pub open spec fn drop_publication_statement(pub_name: Seq<char>) -> Seq<char> {
    "DROP PUBLICATION IF EXISTS "@ + pub_name
}

/// The statement that creates the publication `pub_name`: for the given
/// tables where there are any, for all tables otherwise.
pub open spec fn create_publication_statement(pub_name: Seq<char>, tables: Option<Seq<Seq<char>>>) -> Seq<
    char,
> {
    match tables {
        Some(t) => if t.len() == 0 {
            "CREATE PUBLICATION "@ + pub_name + " FOR ALL TABLES"@
        } else {
            "CREATE PUBLICATION "@ + pub_name + " FOR TABLE "@ + joined(t, ", "@)
        },
        None => "CREATE PUBLICATION "@ + pub_name + " FOR ALL TABLES"@,
    }
}

/// The texts of an optional list of strings.
pub open spec fn texts_of(v: Option<Vec<String>>) -> Option<Seq<Seq<char>>> {
    match v {
        Some(t) => Some(texts(t@)),
        None => None,
    }
}

/// `a`, then `b`, then `c`.
fn three_parts(a: &str, b: &str, c: &str) -> (r: String)
    ensures
        r@ == a@ + b@ + c@,
{
    let mut r = String::new();
    append_str(&mut r, a);
    append_str(&mut r, b);
    append_str(&mut r, c);
    assert(r@ =~= a@ + b@ + c@);
    r
}

/// The query that tells whether a replication slot of a given name exists.
pub fn slot_exists_sql() -> (r: &'static str)
    ensures
        r@ == slot_exists_statement(),
{
    "SELECT 1 FROM pg_replication_slots WHERE slot_name = $1"
}

/// The query that tells whether a publication of a given name exists.
pub fn publication_exists_sql() -> (r: &'static str)
    ensures
        r@ == publication_exists_statement(),
{
    "SELECT 1 FROM pg_publication WHERE pubname = $1"
}

/// The query for the current position of the write-ahead log.
pub fn current_lsn_sql() -> (r: &'static str)
    ensures
        r@ == current_lsn_statement(),
{
    "SELECT pg_current_wal_lsn()::text"
}

/// The query for what is known of a replication slot.
pub fn slot_info_sql() -> (r: &'static str)
    ensures
        r@ == slot_info_statement(),
{
    "SELECT slot_name, slot_type, datoid, confirmed_flush_lsn FROM pg_replication_slots WHERE slot_name = $1"
}

/// The statement that creates the logical replication slot `slot_name`.
pub fn create_slot_sql(slot_name: &str) -> (r: String)
    ensures
        r@ == create_slot_statement(slot_name@),
{
    three_parts("SELECT * FROM pg_create_logical_replication_slot('", slot_name, "', 'test_decoding')")
}

/// The statement that drops the replication slot `slot_name`.
pub fn drop_slot_sql(slot_name: &str) -> (r: String)
    ensures
        r@ == drop_slot_statement(slot_name@),
{
    three_parts("SELECT pg_drop_replication_slot('", slot_name, "')")
}

/// The statement that drops the publication `pub_name` if it exists.
pub fn drop_publication_sql(pub_name: &str) -> (r: String)
    ensures
        r@ == drop_publication_statement(pub_name@),
{
    let r = three_parts("DROP PUBLICATION IF EXISTS ", pub_name, "");
    proof {
        reveal_strlit("");
        assert("DROP PUBLICATION IF EXISTS "@ + pub_name@ + ""@ =~= "DROP PUBLICATION IF EXISTS "@
            + pub_name@);
    }
    r
}

/// The statement that creates the publication `pub_name`: for the given
/// tables where there are any, for all tables otherwise.
pub fn create_publication_sql(pub_name: &str, tables: &Option<Vec<String>>) -> (r: String)
    ensures
        r@ == create_publication_statement(pub_name@, texts_of(*tables)),
{
    match tables {
        Some(list) => {
            if list.len() == 0 {
                three_parts("CREATE PUBLICATION ", pub_name, " FOR ALL TABLES")
            } else {
                let mut r = three_parts("CREATE PUBLICATION ", pub_name, " FOR TABLE ");
                let names = join_with(list, ", ");
                append_str(&mut r, names.as_str());
                r
            }
        },
        None => three_parts("CREATE PUBLICATION ", pub_name, " FOR ALL TABLES"),
    }
}

} // verus!
