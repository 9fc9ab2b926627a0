//! Rendering of change records into declarative forward and rollback
//! operations.

use vstd::prelude::*;
use crate::schema::{
    change_models, column_models, trim_quotes, trim_text, ChangeModel, ChangeType, ColumnInfo,
    ColumnModel, Kind, SchemaChange,
};
use crate::text::{
    append_str, chars_of, find_reading, first_reading, has_prefix, seek_class, seek_class_from,
    string_of, text_of, trimmed, unquoted, CharClass,
};

verus! {

/// One operation of a migration: what to apply and, where it can be told,
/// how to reverse it.
#[derive(Debug)]
pub enum OperationDescriptor {
    /// `create_table`: the table's name and its columns.
    CreateTable { name: String, columns: Vec<ColumnInfo> },
    /// `drop_table`: the table's name.
    DropTable { name: String },
    /// `add_column`: the table, and the new column's name and type.
    AddColumn { table: String, column_name: String, column_type: String },
    /// `drop_column`: the table and the column.
    DropColumn { table: String, column: String },
    /// `raw_sql`: the statement to apply and the statement that reverses it.
    RawSql { up: String, down: String },
    /// The empty descriptor of a change that has no operation.
    Empty,
}

/// The mathematical value of an [`OperationDescriptor`].
pub enum OperationModel {
    CreateTable { name: Seq<char>, columns: Seq<ColumnModel> },
    DropTable { name: Seq<char> },
    AddColumn { table: Seq<char>, column_name: Seq<char>, column_type: Seq<char> },
    DropColumn { table: Seq<char>, column: Seq<char> },
    RawSql { up: Seq<char>, down: Seq<char> },
    Empty,
}

impl View for OperationDescriptor {
    type V = OperationModel;

    open spec fn view(&self) -> OperationModel {
        match self {
            OperationDescriptor::CreateTable { name, columns } => OperationModel::CreateTable {
                name: name@,
                columns: column_models(columns@),
            },
            OperationDescriptor::DropTable { name } => OperationModel::DropTable { name: name@ },
            OperationDescriptor::AddColumn { table, column_name, column_type } => OperationModel::AddColumn {
                table: table@,
                column_name: column_name@,
                column_type: column_type@,
            },
            OperationDescriptor::DropColumn { table, column } => OperationModel::DropColumn {
                table: table@,
                column: column@,
            },
            OperationDescriptor::RawSql { up, down } => OperationModel::RawSql { up: up@, down: down@ },
            OperationDescriptor::Empty => OperationModel::Empty,
        }
    }
}

impl OperationDescriptor {
    /// The operation's family: the key under which it is written out. Empty
    /// for the empty descriptor.
    pub open spec fn tag_of(op: OperationModel) -> Seq<char> {
        match op {
            OperationModel::CreateTable { .. } => "create_table"@,
            OperationModel::DropTable { .. } => "drop_table"@,
            OperationModel::AddColumn { .. } => "add_column"@,
            OperationModel::DropColumn { .. } => "drop_column"@,
            OperationModel::RawSql { .. } => "raw_sql"@,
            OperationModel::Empty => ""@,
        }
    }

    /// The operation's family: the key under which it is written out.
    pub fn tag(&self) -> (r: &'static str)
        ensures
            r@ == OperationDescriptor::tag_of(self@),
    {
        match self {
            OperationDescriptor::CreateTable { .. } => "create_table",
            OperationDescriptor::DropTable { .. } => "drop_table",
            OperationDescriptor::AddColumn { .. } => "add_column",
            OperationDescriptor::DropColumn { .. } => "drop_column",
            OperationDescriptor::RawSql { .. } => "raw_sql",
            OperationDescriptor::Empty => "",
        }
    }
}

/// The values of a list of operations.
pub open spec fn operation_models(v: Seq<OperationDescriptor>) -> Seq<OperationModel> {
    v.map_values(|o: OperationDescriptor| o@)
}

/// A named list of operations.
#[derive(Debug)]
pub struct PgrollMigration {
    pub name: String,
    pub operations: Vec<OperationDescriptor>,
}

impl PgrollMigration {
    /// A migration without operations.
    pub fn new(name: String) -> (r: PgrollMigration)
        ensures
            r.name@ == name@,
            r.operations@.len() == 0,
    {
        PgrollMigration { name, operations: Vec::new() }
    }

    /// Adds `operation` at the end.
    pub fn add_operation(&mut self, operation: OperationDescriptor)
        ensures
            final(self).name == old(self).name,
            final(self).operations@ == old(self).operations@.push(operation),
    {
        self.operations.push(operation);
    }
}

/// The name of the constraint in a statement whose keyword `CONSTRAINT`
/// begins at position `at`: the word after the keyword, without surrounding
/// quotes. None where the keyword's end lies beyond the end of the
/// statement.
pub open spec fn constraint_name_from(sql: Seq<char>, at: int) -> Option<Seq<char>> {
    if 0 <= at && at + "CONSTRAINT"@.len() <= sql.len() {
        let after = trimmed(sql.subrange(at + "CONSTRAINT"@.len(), sql.len() as int));
        let end = seek_class(after, CharClass::Whitespace, 0);
        Some(unquoted(after.subrange(0, end)))
    } else {
        None
    }
}

/// The name of the constraint that a statement adds: the word after the
/// first `CONSTRAINT`, in any case, without surrounding quotes. None where
/// the keyword does not occur.
pub open spec fn constraint_name_in(sql: Seq<char>) -> Option<Seq<char>> {
    match first_reading(sql, "CONSTRAINT"@) {
        Some(i) => constraint_name_from(sql, i),
        None => None,
    }
}

/// The statement that drops the constraint which `sql` adds to
/// `object_name`, given the constraint's name if one was found; a comment
/// where none was.
pub open spec fn drop_constraint_sql(object_name: Seq<char>, sql: Seq<char>, name: Option<Seq<char>>) -> Seq<
    char,
> {
    match name {
        Some(n) => "ALTER TABLE "@ + object_name + " DROP CONSTRAINT IF EXISTS "@ + n,
        None => "-- Unable to generate rollback for: "@ + sql,
    }
}

/// The rollback statement of a change that is applied as raw SQL, given the
/// constraint name found in its statement.
pub open spec fn rollback_of(c: ChangeModel, constraint_name: Option<Seq<char>>) -> Seq<char> {
    match c.kind {
        Kind::AlterTable => "-- Rollback for: "@ + c.details.sql,
        Kind::CreateIndex => "DROP INDEX IF EXISTS "@ + c.object_name,
        Kind::DropIndex => "-- Recreate index: "@ + c.object_name,
        Kind::AddConstraint => drop_constraint_sql(c.object_name, c.details.sql, constraint_name),
        Kind::DropConstraint => "-- Recreate constraint: "@ + c.object_name,
        _ => Seq::empty(),
    }
}

/// The operation that renders a change, given the constraint name found in
/// its statement.
pub open spec fn operation_with(c: ChangeModel, constraint_name: Option<Seq<char>>) -> OperationModel {
    match c.kind {
        Kind::CreateTable => OperationModel::CreateTable { name: c.object_name, columns: Seq::empty() },
        Kind::DropTable => OperationModel::DropTable { name: c.object_name },
        Kind::AddColumn => OperationModel::AddColumn {
            table: c.object_name,
            column_name: "new_column"@,
            column_type: "text"@,
        },
        Kind::DropColumn => OperationModel::DropColumn { table: c.object_name, column: "column_name"@ },
        Kind::AlterTable | Kind::CreateIndex | Kind::DropIndex | Kind::AddConstraint | Kind::DropConstraint => OperationModel::RawSql {
            up: c.details.sql,
            down: rollback_of(c, constraint_name),
        },
        Kind::ModifyColumn | Kind::Other(_) => OperationModel::Empty,
    }
}

/// The operation that renders a change.
pub open spec fn operation_of(c: ChangeModel) -> OperationModel {
    operation_with(c, constraint_name_in(c.details.sql))
}

/// Whether a statement is a comment, which a database does not execute: it
/// begins with two hyphens.
pub open spec fn is_comment(sql: Seq<char>) -> bool {
    has_prefix(sql, "--"@)
}

/// A table alteration, a dropped index and a dropped constraint roll back
/// to a comment, never to a statement that would be executed; so does an
/// added constraint in whose statement no constraint name is found.
pub proof fn lemma_inert_rollbacks(c: ChangeModel, constraint_name: Option<Seq<char>>)
    requires
        c.kind == Kind::AlterTable || c.kind == Kind::DropIndex || c.kind == Kind::DropConstraint || (
        c.kind == Kind::AddConstraint && constraint_name is None),
    ensures
        operation_with(c, constraint_name) matches OperationModel::RawSql { up, down } && up
            == c.details.sql && is_comment(down),
{
    reveal_strlit("--");
    reveal_strlit("-- Rollback for: ");
    reveal_strlit("-- Recreate index: ");
    reveal_strlit("-- Recreate constraint: ");
    reveal_strlit("-- Unable to generate rollback for: ");
    let down = rollback_of(c, constraint_name);
    assert(down.subrange(0, 2) =~= "--"@);
}

/// `a` followed by `b`.
pub fn followed_by(a: &str, b: &str) -> (r: String)
    ensures
        r@ == a@ + b@,
{
    let mut r = String::new();
    append_str(&mut r, a);
    append_str(&mut r, b);
    assert(r@ =~= a@ + b@);
    r
}

/// The name of the migration generated at the time that `stamp` renders:
/// `migration_`, then the stamp.
pub fn migration_name(stamp: &str) -> (r: String)
    ensures
        r@ == "migration_"@ + stamp@,
{
    followed_by("migration_", stamp)
}

/// The name of the file that holds the migration `name` written at the time
/// that `stamp` renders: the stamp, an underscore, the name, and `.json`.
pub fn migration_file_name(stamp: &str, name: &str) -> (r: String)
    ensures
        r@ == stamp@ + "_"@ + name@ + ".json"@,
{
    let mut r = String::new();
    append_str(&mut r, stamp);
    append_str(&mut r, "_");
    append_str(&mut r, name);
    append_str(&mut r, ".json");
    assert(r@ =~= stamp@ + "_"@ + name@ + ".json"@);
    r
}

/// Renders change records as migrations.
pub struct MigrationGenerator;

impl MigrationGenerator {
    /// The name of the constraint in a statement whose keyword `CONSTRAINT`
    /// begins at position `at`.
    pub fn constraint_name_at(sql: &str, at: usize) -> (r: Option<String>)
        ensures
            text_of(r) == constraint_name_from(sql@, at as int),
    {
        let v = chars_of(sql);
        let n = chars_of("CONSTRAINT").len();
        if at > v.len() || n > v.len() - at {
            return None;
        }
        let tail = string_of(&v, at + n, v.len());
        let after = chars_of(trim_text(tail.as_str()).as_str());
        let end = seek_class_from(&after, CharClass::Whitespace, 0);
        let word = string_of(&after, 0, end);
        Some(trim_quotes(word.as_str()))
    }

    /// The name of the constraint that `sql` adds: the word after the first
    /// `CONSTRAINT`, in any case, without surrounding quotes.
    pub fn extract_constraint_name(sql: &str) -> (r: Option<String>)
        ensures
            text_of(r) == constraint_name_in(sql@),
    {
        match find_reading(&chars_of(sql), "CONSTRAINT") {
            Some(i) => MigrationGenerator::constraint_name_at(sql, i),
            None => None,
        }
    }

    /// The statement that drops the constraint which the change adds, given
    /// the constraint's name if one was found.
    pub fn drop_constraint_sql_with(change: &SchemaChange, name: Option<String>) -> (r: String)
        ensures
            r@ == drop_constraint_sql(change@.object_name, change@.details.sql, text_of(name)),
    {
        match name {
            Some(n) => {
                let mut r = String::new();
                append_str(&mut r, "ALTER TABLE ");
                append_str(&mut r, change.object_name.as_str());
                append_str(&mut r, " DROP CONSTRAINT IF EXISTS ");
                append_str(&mut r, n.as_str());
                assert(r@ =~= "ALTER TABLE "@ + change@.object_name + " DROP CONSTRAINT IF EXISTS "@
                    + n@);
                r
            },
            None => followed_by("-- Unable to generate rollback for: ", change.details.sql.as_str()),
        }
    }

    /// The statement that drops the constraint which the change adds; a
    /// comment where its statement names no constraint.
    pub fn generate_drop_constraint_sql(change: &SchemaChange) -> (r: String)
        ensures
            r@ == drop_constraint_sql(
                change@.object_name,
                change@.details.sql,
                constraint_name_in(change@.details.sql),
            ),
    {
        let name = MigrationGenerator::extract_constraint_name(change.details.sql.as_str());
        MigrationGenerator::drop_constraint_sql_with(change, name)
    }

    /// The operation that creates the table of a change; its column list is
    /// empty.
    pub fn create_table_operation(change: &SchemaChange) -> (r: OperationDescriptor)
        ensures
            r@ == (OperationModel::CreateTable { name: change@.object_name, columns: Seq::empty() }),
    {
        let columns: Vec<ColumnInfo> = Vec::new();
        assert(column_models(columns@) =~= Seq::empty());
        OperationDescriptor::CreateTable { name: change.object_name.clone(), columns }
    }

    /// The operation that drops the table of a change.
    pub fn drop_table_operation(change: &SchemaChange) -> (r: OperationDescriptor)
        ensures
            r@ == (OperationModel::DropTable { name: change@.object_name }),
    {
        OperationDescriptor::DropTable { name: change.object_name.clone() }
    }

    /// The operation that adds a column to the table of a change, with a
    /// placeholder for the column's name and type.
    pub fn add_column_operation(change: &SchemaChange) -> (r: OperationDescriptor)
        ensures
            r@ == (OperationModel::AddColumn {
                table: change@.object_name,
                column_name: "new_column"@,
                column_type: "text"@,
            }),
    {
        OperationDescriptor::AddColumn {
            table: change.object_name.clone(),
            column_name: "new_column".to_owned(),
            column_type: "text".to_owned(),
        }
    }

    /// The operation that drops a column of the table of a change, with a
    /// placeholder for the column's name.
    pub fn drop_column_operation(change: &SchemaChange) -> (r: OperationDescriptor)
        ensures
            r@ == (OperationModel::DropColumn { table: change@.object_name, column: "column_name"@ }),
    {
        OperationDescriptor::DropColumn {
            table: change.object_name.clone(),
            column: "column_name".to_owned(),
        }
    }

    /// The statement of a table alteration as raw SQL; its rollback is a
    /// comment that names the statement.
    pub fn alter_table_operation(change: &SchemaChange) -> (r: OperationDescriptor)
        ensures
            r@ == (OperationModel::RawSql {
                up: change@.details.sql,
                down: "-- Rollback for: "@ + change@.details.sql,
            }),
    {
        OperationDescriptor::RawSql {
            up: change.details.sql.clone(),
            down: followed_by("-- Rollback for: ", change.details.sql.as_str()),
        }
    }

    /// The statement that creates an index as raw SQL; its rollback drops
    /// the index if it exists.
    pub fn create_index_operation(change: &SchemaChange) -> (r: OperationDescriptor)
        ensures
            r@ == (OperationModel::RawSql {
                up: change@.details.sql,
                down: "DROP INDEX IF EXISTS "@ + change@.object_name,
            }),
    {
        OperationDescriptor::RawSql {
            up: change.details.sql.clone(),
            down: followed_by("DROP INDEX IF EXISTS ", change.object_name.as_str()),
        }
    }

    /// The statement that drops an index as raw SQL; its rollback is a
    /// comment, as the index's definition is not known.
    pub fn drop_index_operation(change: &SchemaChange) -> (r: OperationDescriptor)
        ensures
            r@ == (OperationModel::RawSql {
                up: change@.details.sql,
                down: "-- Recreate index: "@ + change@.object_name,
            }),
    {
        OperationDescriptor::RawSql {
            up: change.details.sql.clone(),
            down: followed_by("-- Recreate index: ", change.object_name.as_str()),
        }
    }

    /// The statement that adds a constraint as raw SQL; its rollback drops
    /// the constraint where the statement names it, and is a comment
    /// otherwise.
    pub fn add_constraint_operation(change: &SchemaChange) -> (r: OperationDescriptor)
        ensures
            r@ == (OperationModel::RawSql {
                up: change@.details.sql,
                down: drop_constraint_sql(
                    change@.object_name,
                    change@.details.sql,
                    constraint_name_in(change@.details.sql),
                ),
            }),
    {
        OperationDescriptor::RawSql {
            up: change.details.sql.clone(),
            down: MigrationGenerator::generate_drop_constraint_sql(change),
        }
    }

    /// The statement that drops a constraint as raw SQL; its rollback is a
    /// comment, as the constraint's definition is not known.
    pub fn drop_constraint_operation(change: &SchemaChange) -> (r: OperationDescriptor)
        ensures
            r@ == (OperationModel::RawSql {
                up: change@.details.sql,
                down: "-- Recreate constraint: "@ + change@.object_name,
            }),
    {
        OperationDescriptor::RawSql {
            up: change.details.sql.clone(),
            down: followed_by("-- Recreate constraint: ", change.object_name.as_str()),
        }
    }

    /// The operation that renders one change.
    pub fn schema_change_to_operation(change: &SchemaChange) -> (r: OperationDescriptor)
        ensures
            r@ == operation_of(change@),
    {
        match change.change_type {
            ChangeType::CreateTable => MigrationGenerator::create_table_operation(change),
            ChangeType::DropTable => MigrationGenerator::drop_table_operation(change),
            ChangeType::AddColumn => MigrationGenerator::add_column_operation(change),
            ChangeType::DropColumn => MigrationGenerator::drop_column_operation(change),
            ChangeType::AlterTable => MigrationGenerator::alter_table_operation(change),
            ChangeType::AddConstraint => MigrationGenerator::add_constraint_operation(change),
            ChangeType::DropConstraint => MigrationGenerator::drop_constraint_operation(change),
            ChangeType::CreateIndex => MigrationGenerator::create_index_operation(change),
            ChangeType::DropIndex => MigrationGenerator::drop_index_operation(change),
            _ => OperationDescriptor::Empty,
        }
    }

    /// The operation that renders one change whose statement's constraint
    /// name is known already.
    pub fn operation_with_name(change: &SchemaChange, constraint_name: Option<String>) -> (r:
        OperationDescriptor)
        ensures
            r@ == operation_with(change@, text_of(constraint_name)),
    {
        match change.change_type {
            ChangeType::AddConstraint => OperationDescriptor::RawSql {
                up: change.details.sql.clone(),
                down: MigrationGenerator::drop_constraint_sql_with(change, constraint_name),
            },
            ChangeType::CreateTable => MigrationGenerator::create_table_operation(change),
            ChangeType::DropTable => MigrationGenerator::drop_table_operation(change),
            ChangeType::AddColumn => MigrationGenerator::add_column_operation(change),
            ChangeType::DropColumn => MigrationGenerator::drop_column_operation(change),
            ChangeType::AlterTable => MigrationGenerator::alter_table_operation(change),
            ChangeType::DropConstraint => MigrationGenerator::drop_constraint_operation(change),
            ChangeType::CreateIndex => MigrationGenerator::create_index_operation(change),
            ChangeType::DropIndex => MigrationGenerator::drop_index_operation(change),
            _ => OperationDescriptor::Empty,
        }
    }

    /// The migration named `migration_name` that renders `changes`: one
    /// operation for each change, in the order of the changes.
    pub fn generate(migration_name: String, changes: Vec<SchemaChange>) -> (r: PgrollMigration)
        ensures
            r.name@ == migration_name@,
            r.operations@.len() == changes@.len(),
            operation_models(r.operations@) == change_models(changes@).map_values(
                |c: ChangeModel| operation_of(c),
            ),
    {
        let mut migration = PgrollMigration::new(migration_name);
        let mut i: usize = 0;
        while i < changes.len()
            invariant
                i <= changes.len(),
                migration.name@ == migration_name@,
                migration.operations@.len() == i,
                forall|j: int| 0 <= j < i ==> migration.operations@[j]@ == operation_of(changes@[j]@),
            decreases changes.len() - i,
        {
            let operation = MigrationGenerator::schema_change_to_operation(&changes[i]);
            migration.add_operation(operation);
            i += 1;
        }
        assert(operation_models(migration.operations@) =~= change_models(changes@).map_values(
            |c: ChangeModel| operation_of(c),
        ));
        migration
    }
}

} // verus!
