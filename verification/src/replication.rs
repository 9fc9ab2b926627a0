//! What a listener decides between receiving a message and writing a
//! migration: which change a message records, which tables a list names,
//! and which migration a batch of changes gives.

use vstd::prelude::*;
use crate::migration::{operation_models, operation_of, MigrationGenerator, PgrollMigration};
use crate::optimizer::{optimized, MigrationOptimizer};
use crate::schema::{
    change_models, kind_of, now_millis, object_of, plain_change, trim_text, ChangeModel,
    SchemaChange, SchemaChangeParser,
};
use crate::text::{
    chars_of, comma_pieces_from, seek_class_from, string_of, texts, trimmed, uppercase_of,
    CharClass,
};

verus! {

/// The change that a message records, captured at `timestamp`: its kind and
/// object as classified, in the schema `public`, with the message as its
/// statement.
pub open spec fn recorded(message: Seq<char>, timestamp: i64) -> ChangeModel {
    plain_change(
        kind_of(uppercase_of(trimmed(message))),
        "public"@,
        object_of(message, kind_of(uppercase_of(trimmed(message)))),
        message,
        timestamp,
    )
}

/// The names that a comma-separated list holds, each trimmed.
pub open spec fn listed_tables(list: Seq<char>) -> Seq<Seq<char>> {
    comma_pieces_from(list, 0).map_values(|p: Seq<char>| trimmed(p))
}

/// The change that a message records, captured at `timestamp`. Never
/// `None`.
pub fn process_message_at(message: &str, timestamp: i64) -> (r: Option<SchemaChange>)
    ensures
        r matches Some(c) && c@ == recorded(message@, timestamp),
{
    match SchemaChangeParser::parse(message) {
        Some((change_type, object_name)) => Some(
            SchemaChange::at(
                change_type,
                "public".to_owned(),
                object_name,
                message.to_owned(),
                timestamp,
            ),
        ),
        None => None,
    }
}

/// The change that a message records, captured now. Never `None`.
pub fn process_message(message: &str) -> (r: Option<SchemaChange>)
    ensures
        r matches Some(c) && c@ == recorded(message@, c.timestamp),
{
    let timestamp = now_millis();
    process_message_at(message, timestamp)
}

/// The names that a comma-separated list holds, each trimmed.
pub fn table_list(list: &str) -> (r: Vec<String>)
    ensures
        texts(r@) == listed_tables(list@),
{
    let s = chars_of(list);
    let mut r: Vec<String> = Vec::new();
    let mut i: usize = 0;
    let ghost mut done: Seq<Seq<char>> = Seq::empty();
    assert(done + comma_pieces_from(s@, 0) =~= comma_pieces_from(s@, 0));
    loop
        invariant_except_break
            comma_pieces_from(s@, 0) == done + comma_pieces_from(s@, i as int),
            texts(r@) == done.map_values(|p: Seq<char>| trimmed(p)),
        invariant
            i <= s.len(),
            s@ == list@,
        ensures
            texts(r@) == listed_tables(list@),
        decreases s.len() - i,
    {
        let e = seek_class_from(&s, CharClass::Comma, i);
        let piece = string_of(&s, i, e);
        let ghost before = texts(r@);
        let ghost p = piece@;
        r.push(trim_text(piece.as_str()));
        proof {
            assert(texts(r@) =~= before.push(trimmed(p)));
            assert(done.push(p).map_values(|q: Seq<char>| trimmed(q)) =~= before.push(trimmed(p)));
        }
        if e >= s.len() {
            proof {
                assert(comma_pieces_from(s@, i as int) =~= seq![p]);
                assert(done + seq![p] =~= done.push(p));
            }
            break;
        }
        proof {
            assert(done + (seq![p] + comma_pieces_from(s@, e + 1)) =~= done.push(p) + comma_pieces_from(
                s@,
                e + 1,
            ));
            done = done.push(p);
        }
        i = e + 1;
    }
    r
}

/// The migration that a batch of changes gives: none while the listener is
/// paused or where the batch is empty; otherwise the operations of the
/// optimized batch, under the given name.
pub fn plan_migration(paused: bool, migration_name: String, changes: Vec<SchemaChange>) -> (r: Option<
    PgrollMigration,
>)
    ensures
        (paused || changes@.len() == 0) ==> r is None,
        !paused && changes@.len() > 0 ==> (r matches Some(m) && m.name@ == migration_name@
            && operation_models(m.operations@) == optimized(change_models(changes@)).map_values(
            |c: ChangeModel| operation_of(c),
        )),
{
    if paused || changes.len() == 0 {
        return None;
    }
    let optimized_changes = MigrationOptimizer::optimize(changes);
    Some(MigrationGenerator::generate(migration_name, optimized_changes))
}

} // verus!
